//! The Google-style variant: generate-content request construction, reply
//! extraction, and the stream decoder for whole-value snapshot framing with
//! diffing against the last adopted snapshot.

use vstd::prelude::*;

use crate::errors::ChatError;
use crate::json_render::dec_digits;
use crate::json_render::json_escaped;
use crate::json_render::push_escaped;
use crate::json_render::push_temp;
use crate::json_render::push_u32;
use crate::json_render::temp_digits;
use crate::message::ChatMessage;
use crate::message::ChatRequestOptions;
use crate::message::MessageRole;
use crate::request::collect_system_texts;
use crate::request::folded_system;
use crate::request::join_sep;
use crate::request::join_sep_exec;
use crate::request::opt_str_view;
use crate::request::opt_string_view;
use crate::request::select_model;
use crate::request::selected_model;
use crate::snapshot::close_of;
use crate::snapshot::extract_delta;
use crate::snapshot::lemma_scan_bounds;
use crate::snapshot::lemma_value_start_bounds;
use crate::snapshot::next_value;
use crate::snapshot::next_value_spec;
use crate::snapshot::nonempty_frags;
use crate::snapshot::run_snapshots;
use crate::snapshot::scan_value_end;
use crate::snapshot::split_all_values;
use crate::snapshot::split_values;
use crate::snapshot::value_start;
use crate::sse::done_marker;
use crate::text::all_ws;
use crate::text::chars_eq;
use crate::text::chars_string;
use crate::text::find_non_ws;
use crate::text::push_all;
use crate::text::str_chars;
use crate::text::string_views;
use crate::text::trim_chars;
use crate::text::trim_spec;
use crate::text::views_of;

verus! {

/// What one parsed snapshot object holds, one entry per candidate: the
/// texts of the candidate content's parts.
pub uninterp spec fn gemini_payload_of(payload: Seq<char>) -> Option<Seq<Seq<Option<Seq<char>>>>>;

/// One part of a content: its text, where it has one.
#[derive(Clone, Debug)]
pub struct GeminiPart {
    pub text: Option<Vec<char>>,
}

/// One content: a role and its parts.
#[derive(Clone, Debug)]
pub struct GeminiContent {
    pub role: Vec<char>,
    pub parts: Vec<GeminiPart>,
}

/// The views of a part list.
pub open spec fn part_views(parts: Seq<GeminiPart>) -> Seq<Option<Seq<char>>> {
    parts.map_values(
        |p: GeminiPart|
            match p.text {
                Some(t) => Some(t@),
                None => None,
            },
    )
}

/// The part views of a candidate list handed out by the parse.
pub open spec fn candidates_views(cs: Seq<Vec<GeminiPart>>) -> Seq<Seq<Option<Seq<char>>>> {
    cs.map_values(|c: Vec<GeminiPart>| part_views(c@))
}

/// The part views of a content list.
pub open spec fn contents_part_views(cs: Seq<GeminiContent>) -> Seq<Seq<Option<Seq<char>>>> {
    cs.map_values(|c: GeminiContent| part_views(c.parts@))
}

/// Relies on serde_json::from_str, serde_json::Value indexing (which answers
/// Null for anything absent) and its accessors: parses one
/// snapshot object into its candidates' contents. The result is a function of
/// the payload text alone.
#[verifier::external_body]
fn parse_gemini_payload(payload: &str) -> (r: Result<Vec<Vec<GeminiPart>>, ()>)
    ensures
        match r {
            Ok(cs) => gemini_payload_of(payload@) == Some(candidates_views(cs@)),
            Err(_) => gemini_payload_of(payload@) is None,
        },
{
    let v: serde_json::Value = match serde_json::from_str(payload) { Ok(v) => v, Err(_) => return Err(()) };
    let arr = match v.get("candidates").map(|c| c.as_array()) {
        None => return Ok(Vec::new()),
        Some(None) => return Err(()),
        Some(Some(a)) => a,
    };
    let part = |p: &serde_json::Value| GeminiPart { text: p["text"].as_str().map(|s| s.chars().collect()) };
    arr.iter().map(|c| c["content"]["parts"].as_array().map(|ps| ps.iter().map(part).collect()).ok_or(())).collect()
}

/// Wrap parsed part lists as contents; the wire role of a parsed candidate
/// is not read by anything, so it is left empty.
fn contents_of_parts(mut cands: Vec<Vec<GeminiPart>>) -> (r: Vec<GeminiContent>)
    ensures
        contents_part_views(r@) == candidates_views(cands@),
    decreases cands@.len(),
{
    let ghost orig = cands@;
    let mut out: Vec<GeminiContent> = Vec::new();
    proof {
        assert(candidates_views(cands@) + contents_part_views(out@) =~= candidates_views(orig));
    }
    loop
        invariant
            candidates_views(cands@) + contents_part_views(out@) =~= candidates_views(orig),
        ensures
            contents_part_views(out@) == candidates_views(orig),
        decreases cands@.len(),
    {
        let ghost pre = cands@;
        match cands.pop() {
            None => {
                proof {
                    assert(candidates_views(cands@) =~= Seq::<Seq<Option<Seq<char>>>>::empty());
                    assert(Seq::<Seq<Option<Seq<char>>>>::empty() + contents_part_views(out@)
                        =~= contents_part_views(out@));
                }
                break ;
            },
            Some(parts) => {
                let ghost out0 = contents_part_views(out@);
                out.insert(0, GeminiContent { role: Vec::new(), parts });
                proof {
                    assert(contents_part_views(out@) =~= seq![part_views(pre.last()@)] + out0);
                    assert(candidates_views(pre) =~= candidates_views(cands@).push(
                        part_views(pre.last()@),
                    ));
                    assert(candidates_views(cands@) + (seq![part_views(pre.last()@)] + out0)
                        =~= candidates_views(cands@).push(part_views(pre.last()@)) + out0);
                }
            },
        }
    }
    out
}

/// The concatenation of the texts of a part list, in order.
pub open spec fn parts_text(parts: Seq<Option<Seq<char>>>) -> Seq<char>
    decreases parts.len(),
{
    if parts.len() == 0 {
        Seq::empty()
    } else {
        parts_text(parts.drop_last()) + (match parts.last() {
            Some(t) => t,
            None => Seq::empty(),
        })
    }
}

/// The merged text of one content: its parts' texts concatenated, unless
/// that is empty.
pub open spec fn content_text_spec(parts: Seq<Option<Seq<char>>>) -> Option<Seq<char>> {
    let t = parts_text(parts);
    if t.len() == 0 {
        None
    } else {
        Some(t)
    }
}

impl GeminiContent {
    /// Concatenate the texts of the parts; an empty result counts as no text.
    pub fn text(&self) -> (r: Option<Vec<char>>)
        ensures
            match r {
                Some(t) => content_text_spec(part_views(self.parts@)) == Some(t@),
                None => content_text_spec(part_views(self.parts@)) is None,
            },
    {
        let mut out: Vec<char> = Vec::new();
        let n: usize = self.parts.len();
        let mut i: usize = 0;
        while i < n
            invariant
                0 <= i <= n,
                n == self.parts@.len(),
                out@ == parts_text(part_views(self.parts@.take(i as int))),
            decreases n - i,
        {
            proof {
                assert(part_views(self.parts@.take(i + 1 as int)).drop_last() =~= part_views(
                    self.parts@.take(i as int),
                ));
                assert(part_views(self.parts@.take(i + 1 as int)).last() == part_views(
                    self.parts@,
                )[i as int]);
                assert(part_views(self.parts@)[i as int] == (match self.parts@[i as int].text {
                    Some(t) => Some(t@),
                    None => None::<Seq<char>>,
                }));
            }
            match &self.parts[i].text {
                Some(t) => {
                    push_all(&mut out, t.as_slice());
                },
                None => {},
            }
            assert(out@ =~= parts_text(part_views(self.parts@.take(i + 1 as int))));
            i = i + 1;
        }
        proof {
            assert(self.parts@.take(n as int) =~= self.parts@);
        }
        if out.len() == 0 {
            None
        } else {
            Some(out)
        }
    }
}

/// One parsed snapshot: its candidates.
#[derive(Clone, Debug)]
pub struct GeminiStreamChunk {
    pub candidates: Vec<GeminiContent>,
}

/// The merged text of a snapshot: the first candidate's text.
pub open spec fn merge_text_spec(cands: Seq<Seq<Option<Seq<char>>>>) -> Option<Seq<char>> {
    if cands.len() == 0 {
        None
    } else {
        content_text_spec(cands[0])
    }
}

impl GeminiStreamChunk {
    /// The merged text of the first candidate, if any.
    pub fn merge_text(&self) -> (r: Option<Vec<char>>)
        ensures
            match r {
                Some(t) => merge_text_spec(contents_part_views(self.candidates@)) == Some(t@),
                None => merge_text_spec(contents_part_views(self.candidates@)) is None,
            },
    {
        if self.candidates.len() == 0 {
            None
        } else {
            proof {
                assert(contents_part_views(self.candidates@)[0] == part_views(
                    self.candidates@[0].parts@,
                ));
            }
            self.candidates[0].text()
        }
    }
}

/// Extract the reply text from a 2xx response body: the first candidate's
/// merged text; anything else is a malformed response.
pub fn google_chat_text(body: &str) -> (r: Result<String, ChatError>)
    ensures
        match r {
            Ok(s) => match gemini_payload_of(body@) {
                Some(cands) => merge_text_spec(cands) == Some(s@),
                None => false,
            },
            Err(e) => e is MalformedResponse && match gemini_payload_of(body@) {
                Some(cands) => merge_text_spec(cands) is None,
                None => true,
            },
        },
{
    match parse_gemini_payload(body) {
        Err(_) => Err(ChatError::MalformedResponse),
        Ok(cands) => {
            let chunk = GeminiStreamChunk { candidates: contents_of_parts(cands) };
            match chunk.merge_text() {
                Some(t) => Ok(chars_string(t.as_slice())),
                None => Err(ChatError::MalformedResponse),
            }
        },
    }
}

/// The merged texts of a sequence of snapshot objects, each of which must
/// parse; None when one does not.
pub open spec fn chunks_texts(elems: Seq<Seq<char>>) -> Option<Seq<Seq<char>>>
    decreases elems.len(),
{
    if elems.len() == 0 {
        Some(Seq::empty())
    } else {
        match gemini_payload_of(elems.first()) {
            None => None,
            Some(cands) => match chunks_texts(elems.drop_first()) {
                None => None,
                Some(rest) => Some(
                    (match merge_text_spec(cands) {
                        Some(t) => seq![t],
                        None => Seq::<Seq<char>>::empty(),
                    }) + rest,
                ),
            },
        }
    }
}

/// The snapshot texts of one extracted payload, or None on a decode failure.
/// A blank or `[DONE]` payload has none; an array is split into its objects
/// and each contributes its merged text; a single object contributes its own.
pub open spec fn payload_texts_spec(payload: Seq<char>) -> Option<Seq<Seq<char>>> {
    let t = trim_spec(payload);
    if t.len() == 0 || t == done_marker() {
        Some(Seq::empty())
    } else if t[0] == '[' {
        let inner = if t.len() >= 2 {
            t.subrange(1, t.len() - 1)
        } else {
            Seq::<char>::empty()
        };
        chunks_texts(split_values(inner))
    } else {
        match gemini_payload_of(t) {
            None => None,
            Some(cands) => Some(
                match merge_text_spec(cands) {
                    Some(tx) => seq![tx],
                    None => Seq::<Seq<char>>::empty(),
                },
            ),
        }
    }
}

/// Parse one extracted payload into its snapshot texts.
pub fn parse_snapshot_payload(payload: &Vec<char>) -> (r: Result<Vec<Vec<char>>, ()>)
    ensures
        match r {
            Ok(texts) => payload_texts_spec(payload@) == Some(views_of(texts@)),
            Err(_) => payload_texts_spec(payload@) is None,
        },
{
    let t = trim_chars(payload.as_slice());
    let dm = str_chars("[DONE]");
    if t.len() == 0 || chars_eq(t.as_slice(), dm.as_slice()) {
        let r: Vec<Vec<char>> = Vec::new();
        proof {
            assert(views_of(r@) =~= Seq::<Seq<char>>::empty());
        }
        return Ok(r);
    }
    if t[0] == '[' {
        let inner = if t.len() >= 2 {
            crate::text::subrange_vec(t.as_slice(), 1, t.len() - 1)
        } else {
            Vec::new()
        };
        proof {
            if t@.len() >= 2 {
                assert(inner@ =~= t@.subrange(1, t@.len() - 1));
            } else {
                assert(inner@ =~= Seq::<char>::empty());
            }
        }
        let elems = split_all_values(inner.as_slice());
        let ghost tvs = views_of(elems@);
        let ghost total = chunks_texts(tvs);
        let mut texts: Vec<Vec<char>> = Vec::new();
        let n: usize = elems.len();
        let mut i: usize = 0;
        proof {
            assert(tvs.skip(0) =~= tvs);
            assert(views_of(texts@) =~= Seq::<Seq<char>>::empty());
        }
        while i < n
            invariant
                0 <= i <= n,
                n == elems@.len(),
                tvs == views_of(elems@),
                total == chunks_texts(tvs),
                t@ == trim_spec(payload@),
                t@.len() != 0 && t@ != done_marker() && t@[0] == '[',
                inner@ == (if t@.len() >= 2 {
                    t@.subrange(1, t@.len() - 1)
                } else {
                    Seq::<char>::empty()
                }),
                tvs == split_values(inner@),
                (match chunks_texts(tvs.skip(i as int)) {
                    Some(rest) => total == Some(views_of(texts@) + rest),
                    None => total is None,
                }),
            decreases n - i,
        {
            proof {
                assert(tvs.skip(i as int).first() == elems@[i as int]@);
                assert(tvs.skip(i as int).drop_first() =~= tvs.skip(i as int + 1));
            }
            match parse_gemini_payload(chars_string(elems[i].as_slice()).as_str()) {
                Err(_) => {
                    proof {
                        assert(chunks_texts(tvs.skip(i as int)) is None);
                        assert(total is None);
                        assert(t@ == trim_spec(payload@));
                        assert(t@.len() != 0 && t@ != done_marker() && t@[0] == '[');
                        let spec_inner = if t@.len() >= 2 {
                            t@.subrange(1, t@.len() - 1)
                        } else {
                            Seq::<char>::empty()
                        };
                        assert(inner@ == spec_inner);
                        assert(tvs == split_values(spec_inner));
                        assert(payload_texts_spec(payload@) == chunks_texts(
                            split_values(spec_inner),
                        ));
                        assert(payload_texts_spec(payload@) == total);
                    }
                    return Err(());
                },
                Ok(cands) => {
                    let chunk = GeminiStreamChunk { candidates: contents_of_parts(cands) };
                    let ghost texts0 = views_of(texts@);
                    match chunk.merge_text() {
                        Some(tx) => {
                            texts.push(tx);
                            proof {
                                assert(views_of(texts@) =~= texts0.push(texts@.last()@));
                                if chunks_texts(tvs.skip(i as int + 1)) is Some {
                                    let rest = chunks_texts(tvs.skip(i as int + 1))->Some_0;
                                    assert((texts0 + (seq![texts@.last()@] + rest)) =~= (
                                    views_of(texts@) + rest));
                                }
                            }
                        },
                        None => {
                            proof {
                                if chunks_texts(tvs.skip(i as int + 1)) is Some {
                                    let rest = chunks_texts(tvs.skip(i as int + 1))->Some_0;
                                    assert((texts0 + (Seq::<Seq<char>>::empty() + rest)) =~= (
                                    views_of(texts@) + rest));
                                }
                            }
                        },
                    }
                },
            }
            i = i + 1;
        }
        proof {
            assert(tvs.skip(n as int) =~= Seq::<Seq<char>>::empty());
            assert(views_of(texts@) + Seq::<Seq<char>>::empty() =~= views_of(texts@));
        }
        Ok(texts)
    } else {
        match parse_gemini_payload(chars_string(t.as_slice()).as_str()) {
            Err(_) => Err(()),
            Ok(cands) => {
                let chunk = GeminiStreamChunk { candidates: contents_of_parts(cands) };
                let mut texts: Vec<Vec<char>> = Vec::new();
                match chunk.merge_text() {
                    Some(tx) => {
                        texts.push(tx);
                        proof {
                            assert(views_of(texts@) =~= seq![texts@[0]@]);
                        }
                    },
                    None => {
                        proof {
                            assert(views_of(texts@) =~= Seq::<Seq<char>>::empty());
                        }
                    },
                }
                Ok(texts)
            },
        }
    }
}

/// Apply the snapshot differ to a batch of snapshot texts, emitting the
/// non-empty deltas.
pub fn apply_deltas(snapshot: &mut Vec<char>, texts: &Vec<Vec<char>>) -> (out: Vec<String>)
    ensures
        final(snapshot)@ == run_snapshots(old(snapshot)@, views_of(texts@)).0,
        string_views(out@) == nonempty_frags(run_snapshots(old(snapshot)@, views_of(texts@)).1),
{
    let ghost tvs = views_of(texts@);
    let ghost total = run_snapshots(old(snapshot)@, tvs);
    let mut out: Vec<String> = Vec::new();
    let n: usize = texts.len();
    let mut i: usize = 0;
    proof {
        assert(tvs.skip(0) =~= tvs);
        assert(string_views(out@) + nonempty_frags(run_snapshots(snapshot@, tvs).1)
            =~= nonempty_frags(total.1));
    }
    while i < n
        invariant
            0 <= i <= n,
            n == texts@.len(),
            tvs == views_of(texts@),
            total == run_snapshots(old(snapshot)@, tvs),
            run_snapshots(snapshot@, tvs.skip(i as int)).0 == total.0,
            string_views(out@) + nonempty_frags(run_snapshots(snapshot@, tvs.skip(i as int)).1)
                == nonempty_frags(total.1),
        decreases n - i,
    {
        proof {
            assert(tvs.skip(i as int).first() == texts@[i as int]@);
            assert(tvs.skip(i as int).drop_first() =~= tvs.skip(i as int + 1));
        }
        let ghost pre_snap = snapshot@;
        let ghost pre_rem = run_snapshots(pre_snap, tvs.skip(i as int));
        let d = extract_delta(snapshot, texts[i].as_slice());
        proof {
            let step = crate::snapshot::delta_spec(pre_snap, tvs[i as int]);
            assert(pre_rem.1 == seq![step.1] + run_snapshots(snapshot@, tvs.skip(i as int + 1)).1);
            assert((seq![step.1] + run_snapshots(snapshot@, tvs.skip(i as int + 1)).1).first()
                == step.1);
            assert((seq![step.1] + run_snapshots(snapshot@, tvs.skip(i as int + 1)).1).drop_first()
                =~= run_snapshots(snapshot@, tvs.skip(i as int + 1)).1);
        }
        let ghost out0 = string_views(out@);
        if d.len() > 0 {
            out.push(chars_string(d.as_slice()));
            proof {
                assert(string_views(out@) =~= out0.push(d@));
                assert((out0.push(d@)) + nonempty_frags(
                    run_snapshots(snapshot@, tvs.skip(i as int + 1)).1,
                ) =~= out0 + (seq![d@] + nonempty_frags(
                    run_snapshots(snapshot@, tvs.skip(i as int + 1)).1,
                )));
            }
        }
        i = i + 1;
    }
    proof {
        assert(tvs.skip(n as int) =~= Seq::<Seq<char>>::empty());
        assert(string_views(out@) + Seq::<Seq<char>>::empty() =~= string_views(out@));
    }
    out
}

/// Draining a buffer: extract complete values one after the other, parse
/// each, diff its snapshot texts, and emit the non-empty deltas; stop at a
/// payload that fails to decode (the flag) or when no complete value is
/// buffered.
pub open spec fn google_drain(buffer: Seq<char>, snapshot: Seq<char>) -> (
    Seq<char>,
    Seq<char>,
    Seq<Seq<char>>,
    bool,
)
    decreases buffer.len(),
    via google_drain_decreases
{
    let nv = next_value_spec(buffer);
    match nv.1 {
        None => (nv.0, snapshot, Seq::empty(), true),
        Some(js) => match payload_texts_spec(js) {
            None => (nv.0, snapshot, Seq::empty(), false),
            Some(texts) => {
                let folded = run_snapshots(snapshot, texts);
                let rec = google_drain(nv.0, folded.0);
                (rec.0, rec.1, nonempty_frags(folded.1) + rec.2, rec.3)
            },
        },
    }
}

#[via_fn]
proof fn google_drain_decreases(buffer: Seq<char>, snapshot: Seq<char>) {
    lemma_value_start_bounds(buffer, 0);
    match value_start(buffer, 0) {
        None => {},
        Some(st) => {
            lemma_scan_bounds(buffer.skip(st), 0, buffer[st], close_of(buffer[st]), 0, false, false);
        },
    }
}

/// Draining is independent of chunk boundaries: draining a buffer and then
/// draining its remainder with more text appended ends in the same state,
/// and emits the same fragments in the same order, as draining the whole
/// text at once — as long as the first drain hit no decode failure.
pub proof fn lemma_google_drain_split(buf: Seq<char>, more: Seq<char>, snap: Seq<char>)
    requires
        google_drain(buf, snap).3,
    ensures
        ({
            let first = google_drain(buf, snap);
            let second = google_drain(first.0 + more, first.1);
            let whole = google_drain(buf + more, snap);
            whole.0 == second.0 && whole.1 == second.1 && whole.3 == second.3 && whole.2 == first.2
                + second.2
        }),
    decreases buf.len(),
{
    crate::snapshot::lemma_next_value_concat(buf, more);
    let first = google_drain(buf, snap);
    let nv = next_value_spec(buf);
    match nv.1 {
        None => {
            assert(next_value_spec(buf + more) == next_value_spec(first.0 + more));
            assert(first.2 =~= Seq::<Seq<char>>::empty());
            assert(Seq::<Seq<char>>::empty() + google_drain(first.0 + more, first.1).2
                =~= google_drain(first.0 + more, first.1).2);
        },
        Some(js) => {
            match payload_texts_spec(js) {
                None => {
                    assert(!google_drain(buf, snap).3);
                },
                Some(texts) => {
                    let folded = run_snapshots(snap, texts);
                    proof_decreases_step(buf);
                    lemma_google_drain_split(nv.0, more, folded.0);
                    let rec = google_drain(nv.0, folded.0);
                    let second = google_drain(rec.0 + more, rec.1);
                    assert(next_value_spec(buf + more) == (nv.0 + more, Some(js)));
                    assert(google_drain(buf + more, snap).2 == nonempty_frags(folded.1) + (rec.2
                        + second.2));
                    assert(nonempty_frags(folded.1) + (rec.2 + second.2) =~= (nonempty_frags(
                        folded.1,
                    ) + rec.2) + second.2);
                },
            }
        },
    }
}

/// The step of the drain shrinks the buffer whenever a value was extracted.
proof fn proof_decreases_step(buf: Seq<char>)
    ensures
        next_value_spec(buf).1 is Some ==> next_value_spec(buf).0.len() < buf.len(),
{
    lemma_value_start_bounds(buf, 0);
    match value_start(buf, 0) {
        None => {},
        Some(st) => {
            lemma_scan_bounds(buf.skip(st), 0, buf[st], close_of(buf[st]), 0, false, false);
        },
    }
}

/// The incremental stream decoder of this vendor: whole-value snapshot
/// framing with diffing.
pub struct GoogleStreamDecoder {
    pub buffer: Vec<char>,
    pub snapshot: Vec<char>,
}

impl GoogleStreamDecoder {
    pub fn new() -> (d: GoogleStreamDecoder)
        ensures
            d.buffer@ == Seq::<char>::empty(),
            d.snapshot@ == Seq::<char>::empty(),
    {
        GoogleStreamDecoder { buffer: Vec::new(), snapshot: Vec::new() }
    }

    /// Feed one chunk of the response body. Returns the non-empty deltas it
    /// completes, in order, and whether every completed payload decoded.
    pub fn push_chunk(&mut self, chunk: &str) -> (r: (Vec<String>, bool))
        ensures
            ({
                let d = google_drain(old(self).buffer@ + chunk@, old(self).snapshot@);
                &&& final(self).buffer@ == d.0
                &&& final(self).snapshot@ == d.1
                &&& string_views(r.0@) == d.2
                &&& r.1 == d.3
            }),
    {
        push_all(&mut self.buffer, str_chars(chunk).as_slice());
        let ghost total = google_drain(self.buffer@, self.snapshot@);
        let mut frags: Vec<String> = Vec::new();
        proof {
            assert(string_views(frags@) + total.2 =~= total.2);
        }
        loop
            invariant
                total == google_drain(old(self).buffer@ + chunk@, old(self).snapshot@),
                google_drain(self.buffer@, self.snapshot@).0 == total.0,
                google_drain(self.buffer@, self.snapshot@).1 == total.1,
                string_views(frags@) + google_drain(self.buffer@, self.snapshot@).2 == total.2,
                google_drain(self.buffer@, self.snapshot@).3 == total.3,
            decreases self.buffer@.len(),
        {
            let ghost pre_buf = self.buffer@;
            let ghost pre_snap = self.snapshot@;
            match next_value(&mut self.buffer) {
                None => {
                    proof {
                        assert(google_drain(pre_buf, pre_snap).2 =~= Seq::<Seq<char>>::empty());
                        assert(string_views(frags@) + Seq::<Seq<char>>::empty() =~= string_views(
                            frags@,
                        ));
                    }
                    return (frags, true);
                },
                Some(js) => {
                    proof {
                        lemma_value_start_bounds(pre_buf, 0);
                        match value_start(pre_buf, 0) {
                            None => {},
                            Some(st) => {
                                lemma_scan_bounds(
                                    pre_buf.skip(st),
                                    0,
                                    pre_buf[st],
                                    close_of(pre_buf[st]),
                                    0,
                                    false,
                                    false,
                                );
                            },
                        }
                    }
                    match parse_snapshot_payload(&js) {
                        Err(_) => {
                            proof {
                                assert(google_drain(pre_buf, pre_snap).2
                                    =~= Seq::<Seq<char>>::empty());
                                assert(string_views(frags@) + Seq::<Seq<char>>::empty()
                                    =~= string_views(frags@));
                            }
                            return (frags, false);
                        },
                        Ok(texts) => {
                            let ghost folded = run_snapshots(pre_snap, views_of(texts@));
                            let mut ds = apply_deltas(&mut self.snapshot, &texts);
                            let ghost frags0 = string_views(frags@);
                            let ghost dsv = string_views(ds@);
                            frags.append(&mut ds);
                            proof {
                                assert(string_views(frags@) =~= frags0 + dsv);
                                assert((frags0 + dsv) + google_drain(
                                    self.buffer@,
                                    self.snapshot@,
                                ).2 =~= frags0 + (dsv + google_drain(
                                    self.buffer@,
                                    self.snapshot@,
                                ).2));
                            }
                        },
                    }
                },
            }
        }
    }

    /// Flush once more after the connection has closed: a residual non-blank
    /// buffer gets one last extraction attempt.
    pub fn finish(&mut self) -> (r: (Vec<String>, bool))
        ensures
            ({
                let keep = all_ws(old(self).buffer@) || next_value_spec(old(self).buffer@).1
                    is None;
                &&& keep ==> string_views(r.0@) == Seq::<Seq<char>>::empty() && r.1 == true
                    && final(self).snapshot@ == old(self).snapshot@
                &&& !keep ==> ({
                    let js = next_value_spec(old(self).buffer@).1->Some_0;
                    match payload_texts_spec(js) {
                        None => string_views(r.0@) == Seq::<Seq<char>>::empty() && r.1 == false
                            && final(self).snapshot@ == old(self).snapshot@,
                        Some(texts) => {
                            let folded = run_snapshots(old(self).snapshot@, texts);
                            &&& final(self).snapshot@ == folded.0
                            &&& string_views(r.0@) == nonempty_frags(folded.1)
                            &&& r.1 == true
                        },
                    }
                })
            }),
    {
        let start = find_non_ws(self.buffer.as_slice(), 0);
        if start == self.buffer.len() {
            proof {
                crate::text::lemma_skip_ws_bounds(self.buffer@, 0);
            }
            let r: Vec<String> = Vec::new();
            proof {
                assert(string_views(r@) =~= Seq::<Seq<char>>::empty());
            }
            return (r, true);
        }
        proof {
            crate::text::lemma_skip_ws_bounds(self.buffer@, 0);
            assert(!crate::text::is_ws(self.buffer@[start as int]));
            assert(!all_ws(self.buffer@));
        }
        match next_value(&mut self.buffer) {
            None => {
                let r: Vec<String> = Vec::new();
                proof {
                    assert(string_views(r@) =~= Seq::<Seq<char>>::empty());
                }
                (r, true)
            },
            Some(js) => {
                match parse_snapshot_payload(&js) {
                    Err(_) => {
                        let r: Vec<String> = Vec::new();
                        proof {
                            assert(string_views(r@) =~= Seq::<Seq<char>>::empty());
                        }
                        (r, false)
                    },
                    Ok(texts) => {
                        let ds = apply_deltas(&mut self.snapshot, &texts);
                        (ds, true)
                    },
                }
            },
        }
    }
}

/// Whether a variant of this vendor can be constructed at all: it needs an
/// API key or a service account; with neither, construction fails with an
/// authentication error.
pub fn google_auth_ok(has_api_key: bool, has_service_account: bool) -> (r: Result<(), ChatError>)
    ensures
        r is Ok <==> (has_api_key || has_service_account),
        r matches Err(e) ==> e is Auth,
{
    if has_api_key || has_service_account {
        Ok(())
    } else {
        Err(ChatError::Auth)
    }
}

/// The base endpoint of this vendor's API.
pub open spec fn google_base_url() -> Seq<char> {
    "https://generativelanguage.googleapis.com/v1"@
}

/// The request URL of one call.
pub fn google_endpoint(model: &str, stream: bool) -> (r: String)
    ensures
        r@ == google_base_url() + "/models/"@ + model@ + (if stream {
            ":streamGenerateContent"@
        } else {
            ":generateContent"@
        }),
{
    let mut out = str_chars("https://generativelanguage.googleapis.com/v1");
    push_all(&mut out, str_chars("/models/").as_slice());
    push_all(&mut out, str_chars(model).as_slice());
    if stream {
        push_all(&mut out, str_chars(":streamGenerateContent").as_slice());
    } else {
        push_all(&mut out, str_chars(":generateContent").as_slice());
    }
    chars_string(out.as_slice())
}

/// The OAuth scope a token exchange for this vendor asks for.
pub fn google_scope() -> (r: &'static str)
    ensures
        r@ == "https://www.googleapis.com/auth/generative-language"@,
{
    "https://www.googleapis.com/auth/generative-language"
}

/// The fallback model id of this vendor.
pub open spec fn google_fallback_model() -> Seq<char> {
    "gemini-pro"@
}

/// Substitute the configured default, or this vendor's fallback, for a blank
/// model id.
pub fn google_pick_model(model: &str, default_model: &Option<String>) -> (r: String)
    ensures
        r@ == selected_model(model@, opt_string_view(*default_model), google_fallback_model()),
{
    let picked = select_model(model, default_model, "gemini-pro");
    chars_string(picked.as_slice())
}

/// The wire role of a turn: assistant turns are the model's; anything else,
/// a system message included, is the user's.
pub open spec fn google_role(r: MessageRole) -> Seq<char> {
    match r {
        MessageRole::User => "user"@,
        MessageRole::Assistant => "model"@,
        MessageRole::System => "user"@,
    }
}

/// The turns sent on the wire: every non-system message, in order.
pub open spec fn google_turns(msgs: Seq<ChatMessage>) -> Seq<(Seq<char>, Seq<char>)>
    decreases msgs.len(),
{
    if msgs.len() == 0 {
        Seq::empty()
    } else {
        google_turns(msgs.drop_last()) + (if msgs.last().role is System {
            Seq::empty()
        } else {
            seq![(google_role(msgs.last().role), msgs.last().content@)]
        })
    }
}

/// One content as a JSON object: a role and a single text part.
pub open spec fn content_json(role: Seq<char>, text: Seq<char>) -> Seq<char> {
    "{\"role\":\""@ + role + "\",\"parts\":[{\"text\":\""@ + json_escaped(text) + "\"}]}"@
}

/// The system instruction sent: the folded system texts newline-joined under
/// the system role, absent when there are none.
pub open spec fn google_system(system: Option<Seq<char>>, msgs: Seq<ChatMessage>) -> Option<
    Seq<char>,
> {
    let texts = folded_system(system, msgs);
    if texts.len() == 0 {
        None
    } else {
        Some(join_sep(texts, "\n"@))
    }
}

/// The generation-config object: unset options are left off the wire.
pub open spec fn config_json(temperature: Option<u32>, max_tokens: Option<u32>) -> Seq<char> {
    "{"@ + join_sep(
        (match temperature {
            Some(t) => seq!["\"temperature\":"@ + temp_digits(t as int)],
            None => Seq::<Seq<char>>::empty(),
        }) + (match max_tokens {
            Some(m) => seq!["\"max_output_tokens\":"@ + dec_digits(m as int)],
            None => Seq::<Seq<char>>::empty(),
        }),
        ","@,
    ) + "}"@
}

/// The whole request body. The system instruction is left off the wire when
/// there is none; the model id travels in the URL, not the body.
pub open spec fn google_request_spec(
    turns: Seq<(Seq<char>, Seq<char>)>,
    system: Option<Seq<char>>,
    temperature: Option<u32>,
    max_tokens: Option<u32>,
) -> Seq<char> {
    "{\"contents\":["@ + join_sep(
        turns.map_values(|p: (Seq<char>, Seq<char>)| content_json(p.0, p.1)),
        ","@,
    ) + "]"@ + (match system {
        Some(s) => ",\"system_instruction\":"@ + content_json("system"@, s),
        None => Seq::empty(),
    }) + ",\"generation_config\":"@ + config_json(temperature, max_tokens) + "}"@
}

fn render_content(role: &str, text: &[char]) -> (r: Vec<char>)
    ensures
        r@ == content_json(role@, text@),
{
    let mut out = str_chars("{\"role\":\"");
    push_all(&mut out, str_chars(role).as_slice());
    push_all(&mut out, str_chars("\",\"parts\":[{\"text\":\"").as_slice());
    push_escaped(&mut out, text);
    push_all(&mut out, str_chars("\"}]}").as_slice());
    assert(out@ =~= content_json(role@, text@));
    out
}

/// Build the JSON request body for one chat call.
pub fn build_google_request(
    system: Option<&str>,
    messages: &Vec<ChatMessage>,
    options: &ChatRequestOptions,
) -> (r: String)
    ensures
        r@ == google_request_spec(
            google_turns(messages@),
            google_system(opt_str_view(system), messages@),
            options.temperature,
            options.max_output_tokens,
        ),
{
    let sys_texts = collect_system_texts(system, messages);
    let mut items: Vec<Vec<char>> = Vec::new();
    let n: usize = messages.len();
    let mut i: usize = 0;
    while i < n
        invariant
            0 <= i <= n,
            n == messages@.len(),
            views_of(items@) == google_turns(messages@.take(i as int)).map_values(
                |p: (Seq<char>, Seq<char>)| content_json(p.0, p.1),
            ),
        decreases n - i,
    {
        proof {
            assert(messages@.take(i + 1 as int).drop_last() =~= messages@.take(i as int));
            assert(messages@.take(i + 1 as int).last() == messages@[i as int]);
        }
        let m = &messages[i];
        if !matches!(m.role, MessageRole::System) {
            let role = match m.role {
                MessageRole::User => "user",
                MessageRole::Assistant => "model",
                MessageRole::System => "user",
            };
            let ghost items0 = views_of(items@);
            items.push(render_content(role, str_chars(m.content.as_str()).as_slice()));
            proof {
                assert(views_of(items@) =~= items0.push(
                    content_json(google_role(messages@[i as int].role), messages@[i as int].content@),
                ));
                assert(views_of(items@) =~= google_turns(messages@.take(i + 1 as int)).map_values(
                    |p: (Seq<char>, Seq<char>)| content_json(p.0, p.1),
                ));
            }
        } else {
            proof {
                assert(views_of(items@) =~= google_turns(messages@.take(i + 1 as int)).map_values(
                    |p: (Seq<char>, Seq<char>)| content_json(p.0, p.1),
                ));
            }
        }
        i = i + 1;
    }
    proof {
        assert(messages@.take(n as int) =~= messages@);
    }
    let joined = join_sep_exec(&items, str_chars(",").as_slice());
    let mut out = str_chars("{\"contents\":[");
    push_all(&mut out, joined.as_slice());
    push_all(&mut out, str_chars("]").as_slice());
    if sys_texts.len() > 0 {
        push_all(&mut out, str_chars(",\"system_instruction\":").as_slice());
        let joined_sys = join_sep_exec(&sys_texts, str_chars("\n").as_slice());
        let sys_content = render_content("system", joined_sys.as_slice());
        push_all(&mut out, sys_content.as_slice());
    }
    push_all(&mut out, str_chars(",\"generation_config\":").as_slice());
    let mut cfg_items: Vec<Vec<char>> = Vec::new();
    match options.temperature {
        Some(t) => {
            let mut item = str_chars("\"temperature\":");
            push_temp(&mut item, t);
            cfg_items.push(item);
        },
        None => {},
    }
    match options.max_output_tokens {
        Some(m) => {
            let mut item = str_chars("\"max_output_tokens\":");
            push_u32(&mut item, m);
            let ghost cfg0 = views_of(cfg_items@);
            cfg_items.push(item);
            proof {
                assert(views_of(cfg_items@) =~= cfg0.push(
                    "\"max_output_tokens\":"@ + dec_digits(m as int),
                ));
            }
        },
        None => {},
    }
    proof {
        assert(views_of(cfg_items@) =~= (match options.temperature {
            Some(t) => seq!["\"temperature\":"@ + temp_digits(t as int)],
            None => Seq::<Seq<char>>::empty(),
        }) + (match options.max_output_tokens {
            Some(m) => seq!["\"max_output_tokens\":"@ + dec_digits(m as int)],
            None => Seq::<Seq<char>>::empty(),
        }));
    }
    push_all(&mut out, str_chars("{").as_slice());
    let joined_cfg = join_sep_exec(&cfg_items, str_chars(",").as_slice());
    push_all(&mut out, joined_cfg.as_slice());
    push_all(&mut out, str_chars("}").as_slice());
    push_all(&mut out, str_chars("}").as_slice());
    proof {
        assert(out@ =~= google_request_spec(
            google_turns(messages@),
            google_system(opt_str_view(system), messages@),
            options.temperature,
            options.max_output_tokens,
        ));
    }
    chars_string(out.as_slice())
}

/// Two reply extractions from the same response body agree: the reply is a
/// function of the body alone.
pub proof fn lemma_google_reply_deterministic(
    body: Seq<char>,
    r1: Option<Seq<char>>,
    r2: Option<Seq<char>>,
)
    requires
        r1 == (match gemini_payload_of(body) {
            Some(cands) => merge_text_spec(cands),
            None => None,
        }),
        r2 == (match gemini_payload_of(body) {
            Some(cands) => merge_text_spec(cands),
            None => None,
        }),
    ensures
        r1 == r2,
{
}

} // verus!
