//! The OpenAI-style variant: chat-completions request construction, reply
//! extraction, and the stream decoder for its `data:` event framing with a
//! `[DONE]` sentinel.

use vstd::prelude::*;

use crate::errors::ChatError;
use crate::json_render::dec_digits;
use crate::json_render::json_escaped;
use crate::json_render::push_escaped;
use crate::json_render::push_temp;
use crate::json_render::push_u32;
use crate::json_render::temp_digits;
use crate::message::ChatMessage;
use crate::message::ChatRequestOptions;
use crate::message::MessageRole;
use crate::request::join_sep;
use crate::request::join_sep_exec;
use crate::request::opt_str_view;
use crate::request::opt_string_view;
use crate::request::select_model;
use crate::request::selected_model;
use crate::sse::done_marker;
use crate::sse::sse_finish_spec;
use crate::sse::sse_run;
use crate::sse::SseDecoder;
use crate::text::chars_eq;
use crate::text::chars_string;
use crate::text::opt_views;
use crate::text::push_all;
use crate::text::str_chars;
use crate::text::string_views;
use crate::text::trim_chars;
use crate::text::trim_spec;
use crate::text::views_of;

verus! {

/// What one parsed stream chunk holds, one entry per choice: the delta
/// content of the choice, where it has one.
pub uninterp spec fn openai_chunk_of(payload: Seq<char>) -> Option<Seq<Option<Seq<char>>>>;

/// What one parsed non-streaming reply holds, one entry per choice: the
/// message content of the choice, where it has one.
pub uninterp spec fn openai_reply_of(body: Seq<char>) -> Option<Seq<Option<Seq<char>>>>;

/// Relies on serde_json::from_str, serde_json::Value indexing (which answers
/// Null for anything absent) and its accessors: parses one
/// stream chunk and hands out each choice's delta content. The result is a
/// function of the payload text alone.
#[verifier::external_body]
fn parse_openai_chunk(payload: &str) -> (r: Result<Vec<Option<Vec<char>>>, ()>)
    ensures
        match r {
            Ok(choices) => openai_chunk_of(payload@) == Some(opt_views(choices@)),
            Err(_) => openai_chunk_of(payload@) is None,
        },
{
    let v: serde_json::Value = match serde_json::from_str(payload) { Ok(v) => v, Err(_) => return Err(()) };
    match v["choices"].as_array() {
        Some(arr) => Ok(arr.iter().map(|c| c["delta"]["content"].as_str().map(|s| s.chars().collect())).collect()),
        None => Err(()),
    }
}

/// Relies on serde_json::from_str, serde_json::Value indexing (which answers
/// Null for anything absent) and its accessors: parses one
/// non-streaming reply and hands out each choice's message content. The
/// result is a function of the body text alone.
#[verifier::external_body]
fn parse_openai_reply(body: &str) -> (r: Result<Vec<Option<Vec<char>>>, ()>)
    ensures
        match r {
            Ok(choices) => openai_reply_of(body@) == Some(opt_views(choices@)),
            Err(_) => openai_reply_of(body@) is None,
        },
{
    let v: serde_json::Value = match serde_json::from_str(body) { Ok(v) => v, Err(_) => return Err(()) };
    match v["choices"].as_array() {
        Some(arr) => Ok(arr.iter().map(|c| c["message"]["content"].as_str().map(|s| s.chars().collect())).collect()),
        None => Err(()),
    }
}

/// One chat message in the wire schema of this vendor.
#[derive(Clone, Debug)]
pub struct OpenAiMessage {
    pub role: String,
    pub content: String,
}

impl OpenAiMessage {
    pub fn new(role: &str, content: &str) -> (m: OpenAiMessage)
        ensures
            m.role@ == role@,
            m.content@ == content@,
    {
        OpenAiMessage { role: role.to_owned(), content: content.to_owned() }
    }
}

/// The wire role name of a conversation role: system messages keep the
/// `system` role in the same array as the turns.
pub open spec fn wire_role(r: MessageRole) -> Seq<char> {
    match r {
        MessageRole::System => "system"@,
        MessageRole::User => "user"@,
        MessageRole::Assistant => "assistant"@,
    }
}

/// The wire message list: the caller's system prompt leads, then every
/// history turn in order, each under its own wire role — nothing is dropped.
pub open spec fn wire_msgs_spec(system: Option<Seq<char>>, msgs: Seq<ChatMessage>) -> Seq<
    (Seq<char>, Seq<char>),
> {
    (match system {
        Some(s) => seq![("system"@, s)],
        None => Seq::empty(),
    }) + msgs.map_values(|m: ChatMessage| (wire_role(m.role), m.content@))
}

/// The pairs of role and content a wire message list holds.
pub open spec fn wire_view(msgs: Seq<OpenAiMessage>) -> Seq<(Seq<char>, Seq<char>)> {
    msgs.map_values(|m: OpenAiMessage| (m.role@, m.content@))
}

/// Build the wire message list for one request.
pub fn openai_wire_messages(system: Option<&str>, messages: &Vec<ChatMessage>) -> (r: Vec<
    OpenAiMessage,
>)
    ensures
        wire_view(r@) == wire_msgs_spec(opt_str_view(system), messages@),
{
    let mut out: Vec<OpenAiMessage> = Vec::new();
    match system {
        Some(s) => {
            out.push(OpenAiMessage::new("system", s));
        },
        None => {},
    }
    let ghost head = wire_view(out@);
    proof {
        assert(head =~= match opt_str_view(system) {
            Some(s) => seq![("system"@, s)],
            None => Seq::<(Seq<char>, Seq<char>)>::empty(),
        });
    }
    let n: usize = messages.len();
    let mut i: usize = 0;
    while i < n
        invariant
            0 <= i <= n,
            n == messages@.len(),
            head == (match opt_str_view(system) {
                Some(s) => seq![("system"@, s)],
                None => Seq::<(Seq<char>, Seq<char>)>::empty(),
            }),
            wire_view(out@) == head + messages@.take(i as int).map_values(
                |m: ChatMessage| (wire_role(m.role), m.content@),
            ),
        decreases n - i,
    {
        let m = &messages[i];
        let role = match m.role {
            MessageRole::System => "system",
            MessageRole::User => "user",
            MessageRole::Assistant => "assistant",
        };
        let ghost out0 = wire_view(out@);
        out.push(OpenAiMessage::new(role, m.content.as_str()));
        proof {
            assert(wire_view(out@) =~= out0.push(
                (wire_role(messages@[i as int].role), messages@[i as int].content@),
            ));
            assert(wire_view(out@) =~= head + messages@.take(i + 1 as int).map_values(
                |mm: ChatMessage| (wire_role(mm.role), mm.content@),
            ));
        }
        i = i + 1;
    }
    proof {
        assert(messages@.take(n as int) =~= messages@);
    }
    out
}

/// One wire message as a JSON object.
pub open spec fn msg_obj_json(role: Seq<char>, content: Seq<char>) -> Seq<char> {
    "{\"role\":\""@ + role + "\",\"content\":\""@ + json_escaped(content) + "\"}"@
}

/// The rendered objects of a wire message list.
pub open spec fn msg_objs(pairs: Seq<(Seq<char>, Seq<char>)>) -> Seq<Seq<char>> {
    pairs.map_values(|p: (Seq<char>, Seq<char>)| msg_obj_json(p.0, p.1))
}

fn render_msg(m: &OpenAiMessage) -> (r: Vec<char>)
    ensures
        r@ == msg_obj_json(m.role@, m.content@),
{
    let mut out = str_chars("{\"role\":\"");
    push_all(&mut out, str_chars(m.role.as_str()).as_slice());
    push_all(&mut out, str_chars("\",\"content\":\"").as_slice());
    push_escaped(&mut out, str_chars(m.content.as_str()).as_slice());
    push_all(&mut out, str_chars("\"}").as_slice());
    assert(out@ =~= msg_obj_json(m.role@, m.content@));
    out
}

/// The whole request body. Optional generation options are left off the wire
/// entirely when unset.
pub open spec fn openai_request_spec(
    model: Seq<char>,
    pairs: Seq<(Seq<char>, Seq<char>)>,
    temperature: Option<u32>,
    max_tokens: Option<u32>,
    stream: bool,
) -> Seq<char> {
    "{\"model\":\""@ + json_escaped(model) + "\",\"messages\":["@ + join_sep(msg_objs(pairs), ","@)
        + "]"@ + (match max_tokens {
        Some(m) => ",\"max_tokens\":"@ + dec_digits(m as int),
        None => Seq::empty(),
    }) + (match temperature {
        Some(t) => ",\"temperature\":"@ + temp_digits(t as int),
        None => Seq::empty(),
    }) + ",\"stream\":"@ + (if stream {
        "true"@
    } else {
        "false"@
    }) + "}"@
}

/// The fallback model id of this vendor.
pub open spec fn openai_fallback_model() -> Seq<char> {
    "gpt-4o-mini"@
}

/// Build the JSON request body for one chat call.
pub fn build_openai_request(
    model: &str,
    default_model: &Option<String>,
    system: Option<&str>,
    messages: &Vec<ChatMessage>,
    options: &ChatRequestOptions,
    stream: bool,
) -> (r: String)
    ensures
        r@ == openai_request_spec(
            selected_model(model@, opt_string_view(*default_model), openai_fallback_model()),
            wire_msgs_spec(opt_str_view(system), messages@),
            options.temperature,
            options.max_output_tokens,
            stream,
        ),
{
    let chosen = select_model(model, default_model, "gpt-4o-mini");
    let wire = openai_wire_messages(system, messages);
    let mut items: Vec<Vec<char>> = Vec::new();
    let n: usize = wire.len();
    let mut i: usize = 0;
    while i < n
        invariant
            0 <= i <= n,
            n == wire@.len(),
            views_of(items@) == msg_objs(wire_view(wire@.take(i as int))),
        decreases n - i,
    {
        let ghost items0 = views_of(items@);
        items.push(render_msg(&wire[i]));
        proof {
            assert(views_of(items@) =~= items0.push(
                msg_obj_json(wire@[i as int].role@, wire@[i as int].content@),
            ));
            assert(views_of(items@) =~= msg_objs(wire_view(wire@.take(i + 1 as int))));
        }
        i = i + 1;
    }
    proof {
        assert(wire@.take(n as int) =~= wire@);
        assert(msg_objs(wire_view(wire@)) =~= msg_objs(wire_msgs_spec(opt_str_view(system), messages@)));
    }
    let joined = join_sep_exec(&items, str_chars(",").as_slice());
    let mut out = str_chars("{\"model\":\"");
    push_escaped(&mut out, chosen.as_slice());
    push_all(&mut out, str_chars("\",\"messages\":[").as_slice());
    push_all(&mut out, joined.as_slice());
    push_all(&mut out, str_chars("]").as_slice());
    match options.max_output_tokens {
        Some(m) => {
            push_all(&mut out, str_chars(",\"max_tokens\":").as_slice());
            push_u32(&mut out, m);
        },
        None => {},
    }
    match options.temperature {
        Some(t) => {
            push_all(&mut out, str_chars(",\"temperature\":").as_slice());
            push_temp(&mut out, t);
        },
        None => {},
    }
    push_all(&mut out, str_chars(",\"stream\":").as_slice());
    if stream {
        push_all(&mut out, str_chars("true").as_slice());
    } else {
        push_all(&mut out, str_chars("false").as_slice());
    }
    push_all(&mut out, str_chars("}").as_slice());
    proof {
        assert(out@ =~= openai_request_spec(
            selected_model(model@, opt_string_view(*default_model), openai_fallback_model()),
            wire_msgs_spec(opt_str_view(system), messages@),
            options.temperature,
            options.max_output_tokens,
            stream,
        ));
    }
    chars_string(out.as_slice())
}

/// The settings a running variant needs, resolved at construction.
#[derive(Clone, Debug)]
pub struct OpenAiSettings {
    pub api_key: String,
    pub base_url: String,
}

/// The default base endpoint of this vendor.
pub open spec fn openai_default_base() -> Seq<char> {
    "https://api.openai.com"@
}

/// Resolve the construction-time settings from an already-resolved API key
/// and the configured base URL, which falls back to the vendor's own.
pub fn openai_settings(
    config: &crate::config::ApiKeyProviderConfig,
    resolved_api_key: String,
) -> (r: OpenAiSettings)
    ensures
        r.api_key@ == resolved_api_key@,
        r.base_url@ == (match config.base_url {
            Some(b) => b@,
            None => openai_default_base(),
        }),
{
    let base_url = match &config.base_url {
        Some(b) => b.clone(),
        None => "https://api.openai.com".to_owned(),
    };
    OpenAiSettings { api_key: resolved_api_key, base_url }
}

/// The chat-completions endpoint under a base URL, trailing slashes dropped.
pub fn openai_endpoint(base_url: &str) -> (r: String)
    ensures
        r@ == crate::text::trim_slash_end(base_url@) + "/v1/chat/completions"@,
{
    let mut out = crate::text::trim_trailing_slashes(base_url);
    push_all(&mut out, str_chars("/v1/chat/completions").as_slice());
    chars_string(out.as_slice())
}

/// The reply text of a parsed non-streaming response: the first choice's
/// content, where it is present and not empty.
pub open spec fn openai_reply_text(parsed: Option<Seq<Option<Seq<char>>>>) -> Option<Seq<char>> {
    match parsed {
        None => None,
        Some(choices) => if choices.len() > 0 {
            match choices[0] {
                Some(t) => if t.len() > 0 {
                    Some(t)
                } else {
                    None
                },
                None => None,
            }
        } else {
            None
        },
    }
}

/// Extract the reply text from a 2xx response body: the first choice's
/// non-empty message content; anything else is a malformed response.
pub fn openai_chat_text(body: &str) -> (r: Result<String, ChatError>)
    ensures
        match r {
            Ok(s) => openai_reply_text(openai_reply_of(body@)) == Some(s@),
            Err(e) => openai_reply_text(openai_reply_of(body@)) is None && e
                is MalformedResponse,
        },
{
    match parse_openai_reply(body) {
        Err(_) => Err(ChatError::MalformedResponse),
        Ok(choices) => {
            if choices.len() > 0 {
                match &choices[0] {
                    Some(t) => {
                        if t.len() > 0 {
                            proof {
                                assert(opt_views(choices@)[0] == Some(choices@[0]->Some_0@));
                            }
                            Ok(chars_string(t.as_slice()))
                        } else {
                            proof {
                                assert(opt_views(choices@)[0] == Some(choices@[0]->Some_0@));
                            }
                            Err(ChatError::MalformedResponse)
                        }
                    },
                    None => {
                        proof {
                            assert(opt_views(choices@)[0] is None);
                        }
                        Err(ChatError::MalformedResponse)
                    },
                }
            } else {
                Err(ChatError::MalformedResponse)
            }
        },
    }
}

/// The non-empty delta texts of one chunk's choices, in order.
pub open spec fn nonempty_texts(choices: Seq<Option<Seq<char>>>) -> Seq<Seq<char>>
    decreases choices.len(),
{
    if choices.len() == 0 {
        Seq::empty()
    } else {
        nonempty_texts(choices.drop_last()) + (match choices.last() {
            Some(t) => if t.len() > 0 {
                seq![t]
            } else {
                Seq::empty()
            },
            None => Seq::empty(),
        })
    }
}

/// The fragments of one flushed event payload, or None on a decode failure:
/// a blank or `[DONE]` payload yields nothing, any other payload is parsed
/// and yields its chunk's non-empty delta texts.
pub open spec fn openai_event_frags(payload: Seq<char>) -> Option<Seq<Seq<char>>> {
    let t = trim_spec(payload);
    if t.len() == 0 || t == done_marker() {
        Some(Seq::empty())
    } else {
        match openai_chunk_of(t) {
            None => None,
            Some(cs) => Some(nonempty_texts(cs)),
        }
    }
}

/// The fragments of a sequence of event payloads, stopping at the first
/// payload that fails to decode; the flag says whether all payloads decoded.
pub open spec fn openai_events_run(payloads: Seq<Seq<char>>) -> (Seq<Seq<char>>, bool)
    decreases payloads.len(),
{
    if payloads.len() == 0 {
        (Seq::empty(), true)
    } else {
        match openai_event_frags(payloads.first()) {
            None => (Seq::empty(), false),
            Some(fs) => {
                let rec = openai_events_run(payloads.drop_first());
                (fs + rec.0, rec.1)
            },
        }
    }
}

/// Decode the fragments of one event payload. Returns None on a decode
/// failure.
fn decode_event(payload: &Vec<char>) -> (r: Option<Vec<String>>)
    ensures
        match r {
            Some(fs) => openai_event_frags(payload@) == Some(string_views(fs@)),
            None => openai_event_frags(payload@) is None,
        },
{
    let t = trim_chars(payload.as_slice());
    let dm = str_chars("[DONE]");
    if t.len() == 0 || chars_eq(t.as_slice(), dm.as_slice()) {
        let r: Vec<String> = Vec::new();
        proof {
            assert(string_views(r@) =~= Seq::<Seq<char>>::empty());
        }
        return Some(r);
    }
    match parse_openai_chunk(chars_string(t.as_slice()).as_str()) {
        Err(_) => None,
        Ok(choices) => {
            let mut fs: Vec<String> = Vec::new();
            let n: usize = choices.len();
            let mut i: usize = 0;
            while i < n
                invariant
                    0 <= i <= n,
                    n == choices@.len(),
                    string_views(fs@) == nonempty_texts(opt_views(choices@).take(i as int)),
                decreases n - i,
            {
                proof {
                    assert(opt_views(choices@).take(i + 1 as int).drop_last() =~= opt_views(
                        choices@,
                    ).take(i as int));
                    assert(opt_views(choices@).take(i + 1 as int).last() == opt_views(choices@)[i as int]);
                }
                match &choices[i] {
                    Some(text) => {
                        if text.len() > 0 {
                            let ghost fs0 = string_views(fs@);
                            fs.push(chars_string(text.as_slice()));
                            proof {
                                assert(opt_views(choices@)[i as int] == Some(choices@[i as int]->Some_0@));
                                assert(string_views(fs@) =~= fs0.push(choices@[i as int]->Some_0@));
                                assert(string_views(fs@) =~= nonempty_texts(
                                    opt_views(choices@).take(i + 1 as int),
                                ));
                            }
                        } else {
                            proof {
                                assert(opt_views(choices@)[i as int] == Some(choices@[i as int]->Some_0@));
                                assert(string_views(fs@) =~= nonempty_texts(
                                    opt_views(choices@).take(i + 1 as int),
                                ));
                            }
                        }
                    },
                    None => {
                        proof {
                            assert(opt_views(choices@)[i as int] is None);
                            assert(string_views(fs@) =~= nonempty_texts(
                                opt_views(choices@).take(i + 1 as int),
                            ));
                        }
                    },
                }
                i = i + 1;
            }
            proof {
                assert(opt_views(choices@).take(n as int) =~= opt_views(choices@));
            }
            Some(fs)
        },
    }
}

/// The incremental stream decoder of this vendor: `data:` event framing with
/// a `[DONE]` sentinel that drops the pending payload.
pub struct OpenAiStreamDecoder {
    pub sse: SseDecoder,
}

impl OpenAiStreamDecoder {
    pub fn new() -> (d: OpenAiStreamDecoder)
        ensures
            d.sse.line_acc@ == Seq::<char>::empty(),
            d.sse.pending@ == Seq::<char>::empty(),
            d.sse.done_clears_pending == true,
    {
        OpenAiStreamDecoder { sse: SseDecoder::new(true) }
    }

    /// Feed one chunk of the response body. Returns the non-empty fragments
    /// it completes, in order, and whether every completed event decoded
    /// (false means the stream must end with a decode error, after the
    /// returned fragments).
    pub fn push_chunk(&mut self, chunk: &str) -> (r: (Vec<String>, bool))
        ensures
            ({
                let run = sse_run(
                    chunk@,
                    old(self).sse.line_acc@,
                    old(self).sse.pending@,
                    old(self).sse.done_clears_pending,
                );
                let ev = openai_events_run(run.2);
                &&& final(self).sse.line_acc@ == run.0
                &&& final(self).sse.pending@ == run.1
                &&& final(self).sse.done_clears_pending == old(self).sse.done_clears_pending
                &&& string_views(r.0@) == ev.0
                &&& r.1 == ev.1
            }),
    {
        let payloads = self.sse.push_chunk(chunk);
        decode_payloads(&payloads)
    }

    /// Flush the residual payload after the connection has closed.
    pub fn finish(&mut self) -> (r: (Vec<String>, bool))
        ensures
            *final(self) == *old(self),
            ({
                let ev = match sse_finish_spec(old(self).sse.pending@) {
                    Some(p) => openai_events_run(seq![p]),
                    None => (Seq::<Seq<char>>::empty(), true),
                };
                string_views(r.0@) == ev.0 && r.1 == ev.1
            }),
    {
        match self.sse.finish() {
            Some(p) => {
                let payloads: Vec<Vec<char>> = vec![p];
                proof {
                    assert(views_of(payloads@) =~= seq![payloads@[0]@]);
                }
                decode_payloads(&payloads)
            },
            None => {
                let r: Vec<String> = Vec::new();
                proof {
                    assert(string_views(r@) =~= Seq::<Seq<char>>::empty());
                }
                (r, true)
            },
        }
    }
}

/// Decode a batch of flushed event payloads, stopping at the first decode
/// failure.
fn decode_payloads(payloads: &Vec<Vec<char>>) -> (r: (Vec<String>, bool))
    ensures
        string_views(r.0@) == openai_events_run(views_of(payloads@)).0,
        r.1 == openai_events_run(views_of(payloads@)).1,
{
    let mut frags: Vec<String> = Vec::new();
    let n: usize = payloads.len();
    let ghost total = openai_events_run(views_of(payloads@));
    let mut i: usize = 0;
    proof {
        assert(views_of(payloads@).skip(0) =~= views_of(payloads@));
        assert(string_views(frags@) + total.0 =~= total.0);
    }
    while i < n
        invariant
            0 <= i <= n,
            n == payloads@.len(),
            total == openai_events_run(views_of(payloads@)),
            ({
                let rem = openai_events_run(views_of(payloads@).skip(i as int));
                string_views(frags@) + rem.0 == total.0 && rem.1 == total.1
            }),
        decreases n - i,
    {
        proof {
            assert(views_of(payloads@).skip(i as int).first() == payloads@[i as int]@);
            assert(views_of(payloads@).skip(i as int).drop_first() =~= views_of(payloads@).skip(
                i as int + 1,
            ));
        }
        match decode_event(&payloads[i]) {
            None => {
                proof {
                    assert(openai_events_run(views_of(payloads@).skip(i as int)).0
                        =~= Seq::<Seq<char>>::empty());
                    assert(string_views(frags@) + Seq::<Seq<char>>::empty() =~= string_views(
                        frags@,
                    ));
                }
                return (frags, false);
            },
            Some(fs) => {
                let ghost frags0 = string_views(frags@);
                let ghost fsv = string_views(fs@);
                let nf: usize = fs.len();
                let mut j: usize = 0;
                let mut fs2 = fs;
                while j < nf
                    invariant
                        0 <= j <= nf,
                        nf == fs2@.len(),
                        string_views(fs2@) == fsv,
                        string_views(frags@) == frags0 + fsv.take(j as int),
                    decreases nf - j,
                {
                    let ghost fa = string_views(frags@);
                    let item = fs2[j].clone();
                    assert(item@ == fs2@[j as int]@);
                    frags.push(item);
                    proof {
                        assert(string_views(frags@) =~= fa.push(fsv[j as int]));
                        assert(fsv.take(j + 1 as int) =~= fsv.take(j as int).push(fsv[j as int]));
                        assert(string_views(frags@) =~= frags0 + fsv.take(j + 1 as int));
                    }
                    j = j + 1;
                }
                proof {
                    assert(fsv.take(nf as int) =~= fsv);
                    assert((frags0 + fsv) + openai_events_run(
                        views_of(payloads@).skip(i as int + 1),
                    ).0 =~= frags0 + (fsv + openai_events_run(
                        views_of(payloads@).skip(i as int + 1),
                    ).0));
                }
            },
        }
        i = i + 1;
    }
    proof {
        assert(views_of(payloads@).skip(n as int) =~= Seq::<Seq<char>>::empty());
        assert(string_views(frags@) + Seq::<Seq<char>>::empty() =~= string_views(frags@));
    }
    (frags, true)
}

/// Decoding a batch of event payloads in two halves yields the same
/// fragments, in the same order, as decoding them all at once, as long as
/// everything in the first half decodes. Together with the chunk-splitting
/// law of the line decoder, the fragments a consumer sees do not depend on
/// how the network split the stream.
pub proof fn lemma_openai_events_split(a: Seq<Seq<char>>, b: Seq<Seq<char>>)
    requires
        openai_events_run(a).1,
    ensures
        ({
            let whole = openai_events_run(a + b);
            let first = openai_events_run(a);
            let second = openai_events_run(b);
            whole.0 == first.0 + second.0 && whole.1 == second.1
        }),
    decreases a.len(),
{
    if a.len() == 0 {
        assert(a + b =~= b);
        assert(openai_events_run(a).0 =~= Seq::<Seq<char>>::empty());
        assert(Seq::<Seq<char>>::empty() + openai_events_run(b).0 =~= openai_events_run(b).0);
    } else {
        assert((a + b).len() > 0);
        assert((a + b).first() == a.first());
        assert((a + b).drop_first() =~= a.drop_first() + b);
        match openai_event_frags(a.first()) {
            None => {
                assert(!openai_events_run(a).1);
            },
            Some(fs) => {
                lemma_openai_events_split(a.drop_first(), b);
                let rec_first = openai_events_run(a.drop_first());
                let second = openai_events_run(b);
                assert((fs + rec_first.0) + second.0 =~= fs + (rec_first.0 + second.0));
            },
        }
    }
}

/// Every fragment a chunk's choices contribute is non-empty.
pub proof fn lemma_nonempty_texts(choices: Seq<Option<Seq<char>>>)
    ensures
        forall|i: int|
            0 <= i < nonempty_texts(choices).len() ==> #[trigger] nonempty_texts(choices)[i].len()
                > 0,
    decreases choices.len(),
{
    if choices.len() > 0 {
        lemma_nonempty_texts(choices.drop_last());
        let pre = nonempty_texts(choices.drop_last());
        let tail = match choices.last() {
            Some(t) => if t.len() > 0 {
                seq![t]
            } else {
                Seq::<Seq<char>>::empty()
            },
            None => Seq::<Seq<char>>::empty(),
        };
        assert(nonempty_texts(choices) == pre + tail);
        assert forall|i: int| 0 <= i < nonempty_texts(choices).len() implies #[trigger] nonempty_texts(
            choices,
        )[i].len() > 0 by {
            if i < pre.len() {
                assert(nonempty_texts(choices)[i] == pre[i]);
            } else {
                assert(nonempty_texts(choices)[i] == tail[i - pre.len()]);
            }
        }
    }
}

/// No fragment this decoder emits is ever empty.
pub proof fn lemma_openai_frags_nonempty(payloads: Seq<Seq<char>>)
    ensures
        forall|i: int|
            0 <= i < openai_events_run(payloads).0.len() ==> #[trigger] openai_events_run(
                payloads,
            ).0[i].len() > 0,
    decreases payloads.len(),
{
    if payloads.len() > 0 {
        match openai_event_frags(payloads.first()) {
            None => {},
            Some(fs) => {
                let t = trim_spec(payloads.first());
                if !(t.len() == 0 || t == done_marker()) {
                    match openai_chunk_of(t) {
                        None => {},
                        Some(cs) => {
                            lemma_nonempty_texts(cs);
                        },
                    }
                }
                lemma_openai_frags_nonempty(payloads.drop_first());
                let rec = openai_events_run(payloads.drop_first());
                assert(openai_events_run(payloads).0 == fs + rec.0);
                assert forall|i: int| 0 <= i < openai_events_run(payloads).0.len() implies #[trigger] openai_events_run(
                    payloads,
                ).0[i].len() > 0 by {
                    if i < fs.len() {
                        assert(openai_events_run(payloads).0[i] == fs[i]);
                    } else {
                        assert(openai_events_run(payloads).0[i] == rec.0[i - fs.len()]);
                    }
                }
            },
        }
    }
}

/// Two reply extractions from the same response body agree: the reply is a
/// function of the body alone, so re-running a chat call against a backend
/// that answers identically produces identical output.
pub proof fn lemma_openai_reply_deterministic(
    body: Seq<char>,
    r1: Option<Seq<char>>,
    r2: Option<Seq<char>>,
)
    requires
        r1 == openai_reply_text(openai_reply_of(body)),
        r2 == openai_reply_text(openai_reply_of(body)),
    ensures
        r1 == r2,
{
}

} // verus!
