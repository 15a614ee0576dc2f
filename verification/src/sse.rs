//! Incremental decoder for line-delimited `data:` event framing.
//!
//! The raw stream text is appended to a growing buffer. Whenever a newline
//! arrives, the line before it (with a trailing carriage return stripped) is
//! handled: a blank line flushes the accumulated event payload, a line
//! starting with `data:` has the prefix and following whitespace stripped and
//! appended to the pending payload, and any other line is ignored. A decoder
//! may additionally treat a literal `[DONE]` data line as an instruction to
//! drop the pending payload without flushing it.

use vstd::prelude::*;

use crate::text::all_ws;
use crate::text::chars_eq;
use crate::text::find_non_ws;
use crate::text::push_all;
use crate::text::skip_ws_from;
use crate::text::starts_with_chars;
use crate::text::starts_with_spec;
use crate::text::str_chars;
use crate::text::subrange_vec;
use crate::text::views_of;

verus! {

pub open spec fn data_prefix() -> Seq<char> {
    "data:"@
}

pub open spec fn done_marker() -> Seq<char> {
    "[DONE]"@
}

/// A line with one trailing carriage return removed.
pub open spec fn strip_cr(line: Seq<char>) -> Seq<char> {
    if line.len() > 0 && line.last() == '\r' {
        line.drop_last()
    } else {
        line
    }
}

/// Handling of one complete line: the new pending payload and the event
/// payload flushed by this line, if any.
pub open spec fn sse_line_step(pending: Seq<char>, line: Seq<char>, done_clears: bool) -> (
    Seq<char>,
    Option<Seq<char>>,
) {
    if line.len() == 0 {
        if pending.len() > 0 {
            (Seq::empty(), Some(pending))
        } else {
            (pending, None)
        }
    } else if starts_with_spec(line, data_prefix()) {
        let rest = line.skip(skip_ws_from(line, data_prefix().len() as int));
        if done_clears && rest == done_marker() {
            (Seq::empty(), None)
        } else {
            (pending + rest, None)
        }
    } else {
        (pending, None)
    }
}

/// Processing of stream text one character at a time. `line_acc` holds the
/// characters seen since the last newline. Returns the final line
/// accumulator, the final pending payload, and the flushed event payloads in
/// order.
pub open spec fn sse_run(
    input: Seq<char>,
    line_acc: Seq<char>,
    pending: Seq<char>,
    done_clears: bool,
) -> (Seq<char>, Seq<char>, Seq<Seq<char>>)
    decreases input.len(),
{
    if input.len() == 0 {
        (line_acc, pending, Seq::empty())
    } else {
        let c = input.first();
        if c == '\n' {
            let step = sse_line_step(pending, strip_cr(line_acc), done_clears);
            let rec = sse_run(input.drop_first(), Seq::empty(), step.0, done_clears);
            match step.1 {
                Some(p) => (rec.0, rec.1, seq![p] + rec.2),
                None => rec,
            }
        } else {
            sse_run(input.drop_first(), line_acc.push(c), pending, done_clears)
        }
    }
}

/// Decoding is independent of chunk boundaries: feeding two chunks one after
/// the other leaves the decoder in the same state, and flushes the same event
/// payloads in the same order, as feeding their concatenation at once.
pub proof fn lemma_sse_run_split(
    a: Seq<char>,
    b: Seq<char>,
    line_acc: Seq<char>,
    pending: Seq<char>,
    done_clears: bool,
)
    ensures
        ({
            let first = sse_run(a, line_acc, pending, done_clears);
            let second = sse_run(b, first.0, first.1, done_clears);
            let whole = sse_run(a + b, line_acc, pending, done_clears);
            whole.0 == second.0 && whole.1 == second.1 && whole.2 == first.2 + second.2
        }),
    decreases a.len(),
{
    let first = sse_run(a, line_acc, pending, done_clears);
    let second = sse_run(b, first.0, first.1, done_clears);
    let whole = sse_run(a + b, line_acc, pending, done_clears);
    if a.len() == 0 {
        assert(a + b =~= b);
        assert(first.0 == line_acc && first.1 == pending && first.2 == Seq::<Seq<char>>::empty());
        assert(Seq::<Seq<char>>::empty() + second.2 =~= second.2);
    } else {
        let c = a.first();
        assert((a + b).len() > 0);
        assert((a + b).first() == c);
        assert((a + b).drop_first() =~= a.drop_first() + b);
        if c == '\n' {
            let step = sse_line_step(pending, strip_cr(line_acc), done_clears);
            lemma_sse_run_split(a.drop_first(), b, Seq::empty(), step.0, done_clears);
            let rec_first = sse_run(a.drop_first(), Seq::empty(), step.0, done_clears);
            match step.1 {
                Some(p) => {
                    assert(first.2 == seq![p] + rec_first.2);
                    assert((seq![p] + rec_first.2) + second.2 =~= seq![p] + (rec_first.2
                        + second.2));
                },
                None => {},
            }
        } else {
            lemma_sse_run_split(a.drop_first(), b, line_acc.push(c), pending, done_clears);
        }
    }
}

/// The residual payload flushed when the connection closes: the pending
/// payload, unless it is blank.
pub open spec fn sse_finish_spec(pending: Seq<char>) -> Option<Seq<char>> {
    if all_ws(pending) {
        None
    } else {
        Some(pending)
    }
}

/// Incremental decoder state for `data:` line framing.
pub struct SseDecoder {
    /// Characters received after the most recent newline.
    pub line_acc: Vec<char>,
    /// Event payload accumulated from `data:` lines since the last flush.
    pub pending: Vec<char>,
    /// Whether a `data: [DONE]` line drops the pending payload.
    pub done_clears_pending: bool,
}

impl SseDecoder {
    pub fn new(done_clears_pending: bool) -> (d: SseDecoder)
        ensures
            d.line_acc@ == Seq::<char>::empty(),
            d.pending@ == Seq::<char>::empty(),
            d.done_clears_pending == done_clears_pending,
    {
        SseDecoder { line_acc: Vec::new(), pending: Vec::new(), done_clears_pending }
    }

    /// Feed one chunk of stream text; returns the event payloads completed by
    /// it, in order.
    pub fn push_chunk(&mut self, chunk: &str) -> (out: Vec<Vec<char>>)
        ensures
            ({
                let r = sse_run(
                    chunk@,
                    old(self).line_acc@,
                    old(self).pending@,
                    old(self).done_clears_pending,
                );
                final(self).line_acc@ == r.0 && final(self).pending@ == r.1 && views_of(out@)
                    == r.2 && final(self).done_clears_pending == old(self).done_clears_pending
            }),
    {
        let cs = str_chars(chunk);
        let dp = str_chars("data:");
        let dm = str_chars("[DONE]");
        let n: usize = cs.len();
        let mut out: Vec<Vec<char>> = Vec::new();
        let ghost total = sse_run(
            chunk@,
            old(self).line_acc@,
            old(self).pending@,
            old(self).done_clears_pending,
        );
        proof {
            assert(chunk@.skip(0) =~= chunk@);
            assert(views_of(out@) =~= Seq::<Seq<char>>::empty());
            assert(Seq::<Seq<char>>::empty() + total.2 =~= total.2);
        }
        let mut i: usize = 0;
        while i < n
            invariant
                0 <= i <= n,
                n == cs@.len(),
                cs@ == chunk@,
                dp@ == data_prefix(),
                dm@ == done_marker(),
                self.done_clears_pending == old(self).done_clears_pending,
                total == sse_run(
                    chunk@,
                    old(self).line_acc@,
                    old(self).pending@,
                    old(self).done_clears_pending,
                ),
                ({
                    let rem = sse_run(
                        chunk@.skip(i as int),
                        self.line_acc@,
                        self.pending@,
                        self.done_clears_pending,
                    );
                    rem.0 == total.0 && rem.1 == total.1 && views_of(out@) + rem.2 == total.2
                }),
            decreases n - i,
        {
            let ghost pre_rem = sse_run(
                chunk@.skip(i as int),
                self.line_acc@,
                self.pending@,
                self.done_clears_pending,
            );
            proof {
                assert(chunk@.skip(i as int).len() > 0);
                assert(chunk@.skip(i as int).first() == chunk@[i as int]);
                assert(chunk@.skip(i as int).drop_first() =~= chunk@.skip(i as int + 1));
            }
            let c = cs[i];
            if c == '\n' {
                let ghost line0 = self.line_acc@;
                if self.line_acc.len() > 0 && self.line_acc[self.line_acc.len() - 1] == '\r' {
                    self.line_acc.pop();
                }
                assert(self.line_acc@ == strip_cr(line0));
                let ghost step = sse_line_step(
                    self.pending@,
                    self.line_acc@,
                    self.done_clears_pending,
                );
                if self.line_acc.len() == 0 {
                    if self.pending.len() > 0 {
                        let mut p: Vec<char> = Vec::new();
                        core::mem::swap(&mut p, &mut self.pending);
                        let ghost out0 = out@;
                        out.push(p);
                        proof {
                            assert(out@ =~= out0.push(p));
                            assert(views_of(out0.push(p)) =~= views_of(out0).push(p@));
                            assert(views_of(out0).push(p@) + sse_run(
                                chunk@.skip(i as int + 1),
                                Seq::empty(),
                                step.0,
                                self.done_clears_pending,
                            ).2 =~= views_of(out0) + (seq![p@] + sse_run(
                                chunk@.skip(i as int + 1),
                                Seq::empty(),
                                step.0,
                                self.done_clears_pending,
                            ).2));
                        }
                    }
                } else {
                    if starts_with_chars(self.line_acc.as_slice(), dp.as_slice()) {
                        let start = find_non_ws(self.line_acc.as_slice(), dp.len());
                        let rest = subrange_vec(
                            self.line_acc.as_slice(),
                            start,
                            self.line_acc.len(),
                        );
                        assert(rest@ =~= self.line_acc@.skip(
                            skip_ws_from(self.line_acc@, data_prefix().len() as int),
                        ));
                        if self.done_clears_pending && chars_eq(rest.as_slice(), dm.as_slice()) {
                            self.pending.clear();
                        } else {
                            push_all(&mut self.pending, rest.as_slice());
                        }
                    }
                    self.line_acc.clear();
                }
                assert(self.pending@ == step.0);
                assert(self.line_acc@ == Seq::<char>::empty());
            } else {
                self.line_acc.push(c);
            }
            i = i + 1;
        }
        proof {
            assert(chunk@.skip(n as int) =~= Seq::<char>::empty());
            assert(views_of(out@) + Seq::<Seq<char>>::empty() =~= views_of(out@));
        }
        out
    }

    /// The residual event payload to flush once the connection has closed,
    /// unless it is blank. The decoder state is not changed.
    pub fn finish(&self) -> (r: Option<Vec<char>>)
        ensures
            match r {
                Some(p) => sse_finish_spec(self.pending@) == Some(p@),
                None => sse_finish_spec(self.pending@) is None,
            },
    {
        let start = find_non_ws(self.pending.as_slice(), 0);
        if start == self.pending.len() {
            proof {
                crate::text::lemma_skip_ws_bounds(self.pending@, 0);
            }
            assert(all_ws(self.pending@));
            None
        } else {
            proof {
                crate::text::lemma_skip_ws_bounds(self.pending@, 0);
                assert(!crate::text::is_ws(self.pending@[start as int]));
                assert(!all_ws(self.pending@));
            }
            let r = subrange_vec(self.pending.as_slice(), 0, self.pending.len());
            assert(r@ =~= self.pending@);
            Some(r)
        }
    }
}

} // verus!
