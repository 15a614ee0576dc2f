//! Whole-value stream framing with snapshot diffing.
//!
//! One vendor does not stream true deltas: each unit on the wire is a
//! complete JSON value (an object, or an array of objects) holding a snapshot
//! of the whole answer so far, optionally prefixed by `data:`. The extractor
//! here finds one complete top-level JSON value in a growing buffer by
//! balanced-bracket matching that ignores brackets inside quoted strings and
//! respects backslash escaping. The differ turns each snapshot into the text
//! that is new relative to the snapshot adopted before it.

use vstd::prelude::*;

use crate::text::concat_all;
use crate::text::starts_with_chars;
use crate::text::starts_with_spec;
use crate::text::subrange_vec;

verus! {

/// The matching closing bracket of an opening one.
pub open spec fn close_of(c: char) -> char {
    if c == '{' {
        '}'
    } else {
        ']'
    }
}

/// Scan for the position just past the close of the first complete value.
/// `depth` counts unclosed opening brackets; `in_str` tracks whether the scan
/// is inside a quoted string, where brackets do not count; `esc` is set right
/// after a backslash inside a string, so that the next character (such as a
/// quote) is skipped.
pub open spec fn scan_value_end(
    s: Seq<char>,
    i: int,
    open: char,
    close: char,
    depth: int,
    in_str: bool,
    esc: bool,
) -> Option<int>
    decreases s.len() - i,
{
    if i < 0 || i >= s.len() {
        None
    } else {
        let c = s[i];
        if esc {
            scan_value_end(s, i + 1, open, close, depth, in_str, false)
        } else if in_str && c == '\\' {
            scan_value_end(s, i + 1, open, close, depth, in_str, true)
        } else if c == '"' {
            scan_value_end(s, i + 1, open, close, depth, !in_str, false)
        } else if c == open && !in_str {
            scan_value_end(s, i + 1, open, close, depth + 1, in_str, false)
        } else if c == close && !in_str {
            if depth == 1 {
                Some(i + 1)
            } else {
                scan_value_end(s, i + 1, open, close, depth - 1, in_str, false)
            }
        } else {
            scan_value_end(s, i + 1, open, close, depth, in_str, false)
        }
    }
}

pub proof fn lemma_scan_bounds(
    s: Seq<char>,
    i: int,
    open: char,
    close: char,
    depth: int,
    in_str: bool,
    esc: bool,
)
    requires
        0 <= i <= s.len(),
    ensures
        match scan_value_end(s, i, open, close, depth, in_str, esc) {
            Some(e) => i < e <= s.len(),
            None => true,
        },
    decreases s.len() - i,
{
    if i < s.len() {
        lemma_scan_bounds(s, i + 1, open, close, depth, in_str, false);
        lemma_scan_bounds(s, i + 1, open, close, depth, in_str, true);
        lemma_scan_bounds(s, i + 1, open, close, depth + 1, in_str, false);
        lemma_scan_bounds(s, i + 1, open, close, depth - 1, in_str, false);
        lemma_scan_bounds(s, i + 1, open, close, depth, !in_str, false);
    }
}

/// Position of the first `{` or `[` at or after `i`. Everything before the
/// first bracket (whitespace, a `data:` prefix, stray text) never holds a
/// bracket, so skipping to the first bracket is where the next value starts.
pub open spec fn value_start(s: Seq<char>, i: int) -> Option<int>
    decreases s.len() - i,
{
    if i < 0 || i >= s.len() {
        None
    } else if s[i] == '{' || s[i] == '[' {
        Some(i)
    } else {
        value_start(s, i + 1)
    }
}

pub proof fn lemma_value_start_bounds(s: Seq<char>, i: int)
    requires
        0 <= i <= s.len(),
    ensures
        match value_start(s, i) {
            Some(st) => i <= st < s.len() && (s[st] == '{' || s[st] == '['),
            None => true,
        },
    decreases s.len() - i,
{
    if i < s.len() && !(s[i] == '{' || s[i] == '[') {
        lemma_value_start_bounds(s, i + 1);
    }
}

/// A value start found in a buffer stays where it is as more text arrives;
/// a buffer without one starts its first value wherever the new text does.
pub proof fn lemma_value_start_concat(s: Seq<char>, more: Seq<char>, i: int)
    requires
        0 <= i <= s.len(),
    ensures
        match value_start(s, i) {
            Some(st) => value_start(s + more, i) == Some(st),
            None => value_start(s + more, i) == (match value_start(more, 0) {
                Some(k) => Some(s.len() + k),
                None => None::<int>,
            }),
        },
    decreases s.len() - i,
{
    assert((s + more).len() == s.len() + more.len());
    if i < s.len() {
        assert((s + more)[i] == s[i]);
        if !(s[i] == '{' || s[i] == '[') {
            lemma_value_start_concat(s, more, i + 1);
        }
    } else {
        lemma_value_start_shift(s, more, 0);
    }
}

/// Scanning the appended region is the plain scan of the new text, shifted.
proof fn lemma_value_start_shift(s: Seq<char>, more: Seq<char>, k: int)
    requires
        0 <= k <= more.len(),
    ensures
        value_start(s + more, s.len() + k) == (match value_start(more, k) {
            Some(j) => Some(s.len() + j),
            None => None::<int>,
        }),
    decreases more.len() - k,
{
    assert((s + more).len() == s.len() + more.len());
    if k < more.len() {
        assert((s + more)[s.len() + k] == more[k]);
        if !(more[k] == '{' || more[k] == '[') {
            lemma_value_start_shift(s, more, k + 1);
        }
    }
}

/// A scan that found a complete value keeps finding the same end, however
/// much text arrives after it.
pub proof fn lemma_scan_extend(
    s: Seq<char>,
    more: Seq<char>,
    i: int,
    open: char,
    close: char,
    depth: int,
    in_str: bool,
    esc: bool,
)
    requires
        0 <= i <= s.len(),
        scan_value_end(s, i, open, close, depth, in_str, esc) is Some,
    ensures
        scan_value_end(s + more, i, open, close, depth, in_str, esc) == scan_value_end(
            s,
            i,
            open,
            close,
            depth,
            in_str,
            esc,
        ),
    decreases s.len() - i,
{
    assert((s + more).len() == s.len() + more.len());
    assert(i < s.len());
    assert((s + more)[i] == s[i]);
    let c = s[i];
    if esc {
        lemma_scan_extend(s, more, i + 1, open, close, depth, in_str, false);
    } else if in_str && c == '\\' {
        lemma_scan_extend(s, more, i + 1, open, close, depth, in_str, true);
    } else if c == '"' {
        lemma_scan_extend(s, more, i + 1, open, close, depth, !in_str, false);
    } else if c == open && !in_str {
        lemma_scan_extend(s, more, i + 1, open, close, depth + 1, in_str, false);
    } else if c == close && !in_str {
        if depth != 1 {
            lemma_scan_extend(s, more, i + 1, open, close, depth - 1, in_str, false);
        }
    } else {
        lemma_scan_extend(s, more, i + 1, open, close, depth, in_str, false);
    }
}

/// One extraction step on a buffer: the buffer afterwards and the complete
/// value taken from it, if one is complete. When no bracket is in the buffer
/// at all, the buffer is dropped; when a value has opened but not yet closed,
/// the buffer is normalized to start at its opening bracket.
pub open spec fn next_value_spec(s: Seq<char>) -> (Seq<char>, Option<Seq<char>>) {
    match value_start(s, 0) {
        None => (Seq::empty(), None),
        Some(st) => {
            let open = s[st];
            match scan_value_end(s.skip(st), 0, open, close_of(open), 0, false, false) {
                None => (s.skip(st), None),
                Some(e) => (s.skip(st + e), Some(s.subrange(st, st + e))),
            }
        },
    }
}

/// Extraction is stable under arrival of more text: a complete value is
/// extracted identically (with the new text after the remainder), and a
/// buffer without one extracts, once normalized, exactly what its remainder
/// plus the new text extracts.
pub proof fn lemma_next_value_concat(buf: Seq<char>, more: Seq<char>)
    ensures
        match next_value_spec(buf).1 {
            Some(js) => next_value_spec(buf + more) == (next_value_spec(buf).0 + more, Some(js)),
            None => next_value_spec(buf + more) == next_value_spec(next_value_spec(buf).0 + more),
        },
{
    lemma_value_start_bounds(buf, 0);
    lemma_value_start_concat(buf, more, 0);
    assert((buf + more).len() == buf.len() + more.len());
    match value_start(buf, 0) {
        None => {
            assert(next_value_spec(buf).0 =~= Seq::<char>::empty());
            assert(Seq::<char>::empty() + more =~= more);
            lemma_value_start_bounds(more, 0);
            lemma_value_start_bounds(buf + more, 0);
            match value_start(more, 0) {
                None => {
                    assert(next_value_spec(buf + more).0 =~= next_value_spec(more).0);
                },
                Some(k) => {
                    assert(value_start(buf + more, 0) == Some(buf.len() + k));
                    assert((buf + more)[buf.len() + k] == more[k]);
                    let open = more[k];
                    assert((buf + more).skip(buf.len() + k) =~= more.skip(k));
                    match scan_value_end(more.skip(k), 0, open, close_of(open), 0, false, false) {
                        None => {
                            assert(next_value_spec(buf + more).0 =~= next_value_spec(more).0);
                        },
                        Some(e) => {
                            lemma_scan_bounds(more.skip(k), 0, open, close_of(open), 0, false, false);
                            assert((buf + more).subrange(buf.len() + k, buf.len() + k + e)
                                =~= more.subrange(k, k + e));
                            assert((buf + more).skip(buf.len() + k + e) =~= more.skip(k + e));
                        },
                    }
                },
            }
        },
        Some(st) => {
            let open = buf[st];
            assert((buf + more)[st] == buf[st]);
            assert(buf.skip(st) + more =~= (buf + more).skip(st));
            match scan_value_end(buf.skip(st), 0, open, close_of(open), 0, false, false) {
                Some(e) => {
                    lemma_scan_extend(buf.skip(st), more, 0, open, close_of(open), 0, false, false);
                    lemma_scan_bounds(buf.skip(st), 0, open, close_of(open), 0, false, false);
                    assert((buf + more).subrange(st, st + e) =~= buf.subrange(st, st + e));
                    assert(buf.skip(st).subrange(0, e as int) =~= buf.subrange(st, st + e));
                    assert((buf + more).skip(st + e) =~= buf.skip(st + e) + more);
                    assert(next_value_spec(buf + more).1 == Some(buf.subrange(st, st + e)));
                    assert(next_value_spec(buf).1 == Some(buf.subrange(st, st + e)));
                },
                None => {
                    let rest = buf.skip(st);
                    assert(next_value_spec(buf).0 == rest);
                    assert(rest.len() > 0 && (rest[0] == '{' || rest[0] == '['));
                    assert((rest + more)[0] == rest[0]);
                    assert(value_start(rest + more, 0) == Some(0int));
                    assert((rest + more).skip(0) =~= (buf + more).skip(st));
                    match scan_value_end(
                        (buf + more).skip(st),
                        0,
                        open,
                        close_of(open),
                        0,
                        false,
                        false,
                    ) {
                        None => {
                            assert(next_value_spec(buf + more).0 =~= next_value_spec(
                                rest + more,
                            ).0);
                        },
                        Some(e2) => {
                            lemma_scan_bounds(
                                (buf + more).skip(st),
                                0,
                                open,
                                close_of(open),
                                0,
                                false,
                                false,
                            );
                            assert((buf + more).subrange(st, st + e2) =~= (rest + more).subrange(
                                0,
                                e2,
                            ));
                            assert((buf + more).skip(st + e2) =~= (rest + more).skip(e2));
                        },
                    }
                },
            }
        },
    }
}

/// Exec scan matching `scan_value_end` from the start of a slice.
fn find_value_end(s: &[char], open: char, close: char) -> (r: Option<usize>)
    requires
        (open == '{' && close == '}') || (open == '[' && close == ']'),
        s@.len() > 0,
        s@[0] == open,
    ensures
        match r {
            Some(e) => scan_value_end(s@, 0, open, close, 0, false, false) == Some(e as int) && 0
                < e <= s@.len(),
            None => scan_value_end(s@, 0, open, close, 0, false, false) is None,
        },
{
    let n: usize = s.len();
    let mut i: usize = 0;
    let mut depth: usize = 0;
    let mut in_str: bool = false;
    let mut esc: bool = false;
    while i < n
        invariant
            0 <= i <= n,
            n == s@.len(),
            s@[0] == open,
            (open == '{' && close == '}') || (open == '[' && close == ']'),
            depth <= i,
            i > 0 ==> depth >= 1,
            i == 0 ==> !in_str && !esc && depth == 0,
            scan_value_end(s@, 0, open, close, 0, false, false) == scan_value_end(
                s@,
                i as int,
                open,
                close,
                depth as int,
                in_str,
                esc,
            ),
        decreases n - i,
    {
        let c = s[i];
        if esc {
            esc = false;
        } else if in_str && c == '\\' {
            esc = true;
        } else if c == '"' {
            in_str = !in_str;
        } else if c == open && !in_str {
            depth = depth + 1;
        } else if c == close && !in_str {
            if depth == 1 {
                return Some(i + 1);
            }
            depth = depth - 1;
        }
        i = i + 1;
    }
    None
}

/// Remove and return the first complete JSON value of the buffer, skipping
/// anything before its opening bracket. Returns None when no complete value
/// is buffered yet; the buffer keeps (only) what may still become one.
pub fn next_value(buffer: &mut Vec<char>) -> (r: Option<Vec<char>>)
    ensures
        final(buffer)@ == next_value_spec(old(buffer)@).0,
        match r {
            Some(v) => next_value_spec(old(buffer)@).1 == Some(v@),
            None => next_value_spec(old(buffer)@).1 is None,
        },
{
    let n: usize = buffer.len();
    let mut st: usize = 0;
    while st < n && !(buffer[st] == '{' || buffer[st] == '[')
        invariant
            0 <= st <= n,
            n == buffer@.len(),
            buffer@ == old(buffer)@,
            value_start(buffer@, 0) == value_start(buffer@, st as int),
        decreases n - st,
    {
        st = st + 1;
    }
    if st == n {
        buffer.clear();
        return None;
    }
    let open = buffer[st];
    let close = if open == '{' {
        '}'
    } else {
        ']'
    };
    assert(close == close_of(open));
    let tail = vstd::slice::slice_subrange(buffer.as_slice(), st, n);
    assert(tail@ =~= buffer@.skip(st as int));
    match find_value_end(tail, open, close) {
        None => {
            let rest = subrange_vec(buffer.as_slice(), st, n);
            assert(rest@ =~= old(buffer)@.skip(st as int));
            *buffer = rest;
            None
        },
        Some(e) => {
            let value = subrange_vec(buffer.as_slice(), st, st + e);
            let rest = subrange_vec(buffer.as_slice(), st + e, n);
            proof {
                assert(old(buffer)@.skip(st as int).subrange(0, e as int) =~= old(
                    buffer,
                )@.subrange(st as int, st + e));
                assert(rest@ =~= old(buffer)@.skip(st + e));
            }
            *buffer = rest;
            Some(value)
        },
    }
}

/// All complete values extractable from a buffer, in order.
pub open spec fn split_values(s: Seq<char>) -> Seq<Seq<char>>
    decreases s.len(),
    via split_values_decreases
{
    match next_value_spec(s).1 {
        None => Seq::empty(),
        Some(v) => seq![v] + split_values(next_value_spec(s).0),
    }
}

#[via_fn]
proof fn split_values_decreases(s: Seq<char>) {
    lemma_value_start_bounds(s, 0);
    match value_start(s, 0) {
        None => {},
        Some(st) => {
            lemma_scan_bounds(s.skip(st), 0, s[st], close_of(s[st]), 0, false, false);
        },
    }
}

/// Exec splitting of a whole buffer into its complete values.
pub fn split_all_values(input: &[char]) -> (r: Vec<Vec<char>>)
    ensures
        crate::text::views_of(r@) == split_values(input@),
    decreases input@.len(),
{
    let mut buffer = subrange_vec(input, 0, input.len());
    assert(buffer@ =~= input@);
    let mut out: Vec<Vec<char>> = Vec::new();
    loop
        invariant
            crate::text::views_of(out@) + split_values(buffer@) =~= split_values(input@),
        ensures
            crate::text::views_of(out@) == split_values(input@),
        decreases buffer@.len(),
    {
        let ghost pre = buffer@;
        match next_value(&mut buffer) {
            None => {
                proof {
                    lemma_value_start_bounds(pre, 0);
                    match value_start(pre, 0) {
                        None => {
                            assert(buffer@ =~= Seq::<char>::empty());
                            assert(value_start(buffer@, 0) is None);
                        },
                        Some(st) => {
                            assert(buffer@ == pre.skip(st));
                            assert(buffer@.len() > 0 && (buffer@[0] == '{' || buffer@[0] == '['));
                            assert(value_start(buffer@, 0) == Some(0int));
                            assert(scan_value_end(
                                pre.skip(st),
                                0,
                                pre[st],
                                close_of(pre[st]),
                                0,
                                false,
                                false,
                            ) is None);
                            assert(buffer@.skip(0) =~= pre.skip(st));
                        },
                    }
                    assert(next_value_spec(buffer@).1 is None);
                    assert(split_values(buffer@) =~= Seq::<Seq<char>>::empty());
                    assert(crate::text::views_of(out@) + Seq::<Seq<char>>::empty()
                        =~= crate::text::views_of(out@));
                }
                break ;
            },
            Some(v) => {
                proof {
                    lemma_value_start_bounds(pre, 0);
                    match value_start(pre, 0) {
                        None => {},
                        Some(st) => {
                            lemma_scan_bounds(pre.skip(st), 0, pre[st], close_of(pre[st]), 0, false, false);
                        },
                    }
                    assert(split_values(pre) == seq![v@] + split_values(buffer@));
                    let out0 = crate::text::views_of(out@);
                    assert(crate::text::views_of(out@.push(v)) =~= out0.push(v@));
                    assert(out0.push(v@) + split_values(buffer@) =~= out0 + (seq![v@]
                        + split_values(buffer@)));
                }
                out.push(v);
            },
        }
    }
    out
}

/// The snapshot differ: given the snapshot adopted so far and an incoming
/// snapshot, the snapshot adopted afterwards and the text delta to emit.
/// An extending snapshot emits only its new suffix; a duplicate or stale
/// (prefix) snapshot emits nothing; a divergent snapshot is adopted whole and
/// emitted whole.
pub open spec fn delta_spec(snap: Seq<char>, inc: Seq<char>) -> (Seq<char>, Seq<char>) {
    if inc.len() == 0 {
        (snap, Seq::empty())
    } else if starts_with_spec(inc, snap) {
        (inc, inc.skip(snap.len() as int))
    } else if starts_with_spec(snap, inc) {
        (snap, Seq::empty())
    } else {
        (inc, inc)
    }
}

/// Replace the running snapshot and return the delta to emit for `incoming`.
pub fn extract_delta(snapshot: &mut Vec<char>, incoming: &[char]) -> (delta: Vec<char>)
    ensures
        final(snapshot)@ == delta_spec(old(snapshot)@, incoming@).0,
        delta@ == delta_spec(old(snapshot)@, incoming@).1,
{
    if incoming.len() == 0 {
        return Vec::new();
    }
    if starts_with_chars(incoming, snapshot.as_slice()) {
        let delta = subrange_vec(incoming, snapshot.len(), incoming.len());
        assert(delta@ =~= incoming@.skip(old(snapshot)@.len() as int));
        let adopted = subrange_vec(incoming, 0, incoming.len());
        assert(adopted@ =~= incoming@);
        *snapshot = adopted;
        delta
    } else if starts_with_chars(snapshot.as_slice(), incoming) {
        Vec::new()
    } else {
        let adopted = subrange_vec(incoming, 0, incoming.len());
        assert(adopted@ =~= incoming@);
        *snapshot = adopted;
        let delta = subrange_vec(incoming, 0, incoming.len());
        assert(delta@ =~= incoming@);
        delta
    }
}

/// Folding the differ over a whole sequence of snapshots: the snapshot
/// adopted at the end and every delta emitted on the way (empty ones
/// included).
pub open spec fn run_snapshots(snap0: Seq<char>, incs: Seq<Seq<char>>) -> (Seq<char>, Seq<Seq<char>>)
    decreases incs.len(),
{
    if incs.len() == 0 {
        (snap0, Seq::empty())
    } else {
        let step = delta_spec(snap0, incs.first());
        let rec = run_snapshots(step.0, incs.drop_first());
        (rec.0, seq![step.1] + rec.1)
    }
}

/// A snapshot sequence is monotone when each element either extends the
/// snapshot adopted before it or repeats a prefix of it (a duplicate or stale
/// delivery) — the shape the vendor promises for one answer.
pub open spec fn monotone_from(snap0: Seq<char>, incs: Seq<Seq<char>>) -> bool
    decreases incs.len(),
{
    incs.len() == 0 || {
        let f = incs.first();
        (starts_with_spec(f, snap0) || starts_with_spec(snap0, f)) && monotone_from(
            delta_spec(snap0, f).0,
            incs.drop_first(),
        )
    }
}

/// The non-empty fragments of a delta sequence, in order: empty deltas are
/// suppressed, not forwarded.
pub open spec fn nonempty_frags(frags: Seq<Seq<char>>) -> Seq<Seq<char>>
    decreases frags.len(),
{
    if frags.len() == 0 {
        Seq::empty()
    } else {
        (if frags.first().len() > 0 {
            seq![frags.first()]
        } else {
            Seq::<Seq<char>>::empty()
        }) + nonempty_frags(frags.drop_first())
    }
}

/// Suppressing empty deltas does not change the concatenated text.
pub proof fn lemma_nonempty_concat(frags: Seq<Seq<char>>)
    ensures
        concat_all(nonempty_frags(frags)) == concat_all(frags),
    decreases frags.len(),
{
    if frags.len() > 0 {
        lemma_nonempty_concat(frags.drop_first());
        if frags.first().len() > 0 {
            let head = seq![frags.first()];
            assert((head + nonempty_frags(frags.drop_first())).first() == frags.first());
            assert((head + nonempty_frags(frags.drop_first())).drop_first() =~= nonempty_frags(
                frags.drop_first(),
            ));
        } else {
            assert(Seq::<Seq<char>>::empty() + nonempty_frags(frags.drop_first())
                =~= nonempty_frags(frags.drop_first()));
            assert(frags.first() + concat_all(frags.drop_first()) =~= concat_all(
                frags.drop_first(),
            ));
        }
    }
}

/// Every suppressed-delta fragment is non-empty.
pub proof fn lemma_nonempty_frags_positive(frags: Seq<Seq<char>>)
    ensures
        forall|i: int|
            0 <= i < nonempty_frags(frags).len() ==> #[trigger] nonempty_frags(frags)[i].len() > 0,
    decreases frags.len(),
{
    if frags.len() > 0 {
        lemma_nonempty_frags_positive(frags.drop_first());
        let head = if frags.first().len() > 0 {
            seq![frags.first()]
        } else {
            Seq::<Seq<char>>::empty()
        };
        let rec = nonempty_frags(frags.drop_first());
        assert(nonempty_frags(frags) == head + rec);
        assert forall|i: int| 0 <= i < nonempty_frags(frags).len() implies #[trigger] nonempty_frags(
            frags,
        )[i].len() > 0 by {
            if i < head.len() {
                assert(nonempty_frags(frags)[i] == head[i]);
            } else {
                assert(nonempty_frags(frags)[i] == rec[i - head.len()]);
            }
        }
    }
}

/// For a monotone snapshot sequence starting from an empty baseline, the
/// emitted non-empty fragments concatenate to exactly the snapshot adopted at
/// the end: the stream's text equals the final answer.
pub proof fn lemma_stream_concat_is_snapshot(texts: Seq<Seq<char>>)
    requires
        monotone_from(Seq::empty(), texts),
    ensures
        concat_all(nonempty_frags(run_snapshots(Seq::empty(), texts).1)) == run_snapshots(
            Seq::empty(),
            texts,
        ).0,
{
    lemma_monotone_deltas_concat(Seq::empty(), texts);
    lemma_nonempty_concat(run_snapshots(Seq::empty(), texts).1);
    assert(Seq::<char>::empty() + concat_all(run_snapshots(Seq::empty(), texts).1) =~= concat_all(
        run_snapshots(Seq::empty(), texts).1,
    ));
}

/// For a monotone snapshot sequence, concatenating every emitted delta after
/// the starting snapshot reproduces exactly the snapshot adopted at the end:
/// no text is dropped and none is duplicated.
pub proof fn lemma_monotone_deltas_concat(snap0: Seq<char>, incs: Seq<Seq<char>>)
    requires
        monotone_from(snap0, incs),
    ensures
        snap0 + concat_all(run_snapshots(snap0, incs).1) == run_snapshots(snap0, incs).0,
    decreases incs.len(),
{
    if incs.len() == 0 {
        assert(snap0 + concat_all(Seq::<Seq<char>>::empty()) =~= snap0);
    } else {
        let f = incs.first();
        let step = delta_spec(snap0, f);
        lemma_monotone_deltas_concat(step.0, incs.drop_first());
        let rec = run_snapshots(step.0, incs.drop_first());
        assert((seq![step.1] + rec.1).first() == step.1);
        assert((seq![step.1] + rec.1).drop_first() =~= rec.1);
        assert(concat_all(seq![step.1] + rec.1) == step.1 + concat_all(rec.1));
        if f.len() == 0 {
            assert(snap0 + (step.1 + concat_all(rec.1)) =~= step.0 + concat_all(rec.1));
        } else if starts_with_spec(f, snap0) {
            assert(snap0 + f.skip(snap0.len() as int) =~= f);
            assert(snap0 + (step.1 + concat_all(rec.1)) =~= (snap0 + step.1) + concat_all(rec.1));
            assert((snap0 + step.1) + concat_all(rec.1) =~= f + concat_all(rec.1));
        } else {
            assert(starts_with_spec(snap0, f));
            assert(step.0 == snap0 && step.1 == Seq::<char>::empty());
            assert(snap0 + (step.1 + concat_all(rec.1)) =~= step.0 + concat_all(rec.1));
        }
    }
}

} // verus!
