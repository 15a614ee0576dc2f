//! Request construction shared by the vendor variants: model-id defaulting,
//! folding of system prompts, and list joining.

use vstd::prelude::*;

use crate::message::ChatMessage;
use crate::message::MessageRole;
use crate::text::all_ws;
use crate::text::find_non_ws;
use crate::text::push_all;
use crate::text::str_chars;
use crate::text::views_of;

verus! {

/// The view of an optional borrowed string.
pub open spec fn opt_str_view(s: Option<&str>) -> Option<Seq<char>> {
    match s {
        Some(x) => Some(x@),
        None => None,
    }
}

/// The view of an optional owned string.
pub open spec fn opt_string_view(s: Option<String>) -> Option<Seq<char>> {
    match s {
        Some(x) => Some(x@),
        None => None,
    }
}

/// The model id a variant sends: the caller's, unless it is blank, in which
/// case the configured default, or failing that the variant's fallback.
pub open spec fn selected_model(
    model: Seq<char>,
    default_model: Option<Seq<char>>,
    fallback: Seq<char>,
) -> Seq<char> {
    if all_ws(model) {
        match default_model {
            Some(d) => d,
            None => fallback,
        }
    } else {
        model
    }
}

/// Substitute the configured default model, or the given fallback, for a
/// blank model id.
pub fn select_model(model: &str, default_model: &Option<String>, fallback: &str) -> (r: Vec<char>)
    ensures
        r@ == selected_model(model@, opt_string_view(*default_model), fallback@),
{
    let cs = str_chars(model);
    let first = find_non_ws(cs.as_slice(), 0);
    if first == cs.len() {
        proof {
            crate::text::lemma_skip_ws_bounds(cs@, 0);
        }
        match default_model {
            Some(d) => str_chars(d.as_str()),
            None => str_chars(fallback),
        }
    } else {
        proof {
            crate::text::lemma_skip_ws_bounds(cs@, 0);
            assert(!crate::text::is_ws(cs@[first as int]));
        }
        cs
    }
}

/// The contents of the system-role messages of a history, in order.
pub open spec fn system_contents(msgs: Seq<ChatMessage>) -> Seq<Seq<char>>
    decreases msgs.len(),
{
    if msgs.len() == 0 {
        Seq::empty()
    } else {
        system_contents(msgs.drop_last()) + if msgs.last().role is System {
            seq![msgs.last().content@]
        } else {
            Seq::empty()
        }
    }
}

/// Every system text a request carries: the caller's prompt first, then the
/// in-history system messages, in order.
pub open spec fn folded_system(system: Option<Seq<char>>, msgs: Seq<ChatMessage>) -> Seq<Seq<char>> {
    (match system {
        Some(s) => seq![s],
        None => Seq::empty(),
    }) + system_contents(msgs)
}

/// Collect the system texts of a request.
pub fn collect_system_texts(system: Option<&str>, messages: &Vec<ChatMessage>) -> (r: Vec<
    Vec<char>,
>)
    ensures
        views_of(r@) == folded_system(opt_str_view(system), messages@),
{
    let mut out: Vec<Vec<char>> = Vec::new();
    match system {
        Some(s) => {
            out.push(str_chars(s));
        },
        None => {},
    }
    let ghost head = views_of(out@);
    proof {
        assert(head =~= match opt_str_view(system) {
            Some(s) => seq![s],
            None => Seq::<Seq<char>>::empty(),
        });
    }
    let n: usize = messages.len();
    let mut i: usize = 0;
    while i < n
        invariant
            0 <= i <= n,
            n == messages@.len(),
            head == (match opt_str_view(system) {
                Some(s) => seq![s],
                None => Seq::<Seq<char>>::empty(),
            }),
            views_of(out@) == head + system_contents(messages@.take(i as int)),
        decreases n - i,
    {
        proof {
            assert(messages@.take(i + 1 as int).drop_last() =~= messages@.take(i as int));
            assert(messages@.take(i + 1 as int).last() == messages@[i as int]);
        }
        let m = &messages[i];
        if matches!(m.role, MessageRole::System) {
            let ghost out0 = views_of(out@);
            out.push(str_chars(m.content.as_str()));
            proof {
                assert(views_of(out@) =~= out0.push(messages@[i as int].content@));
                assert(out0.push(messages@[i as int].content@) =~= out0 + seq![messages@[i as int].content@]);
            }
        }
        proof {
            assert(views_of(out@) =~= head + system_contents(messages@.take(i + 1 as int)));
        }
        i = i + 1;
    }
    proof {
        assert(messages@.take(n as int) =~= messages@);
    }
    out
}

/// Items joined with a separator between neighbours.
pub open spec fn join_sep(items: Seq<Seq<char>>, sep: Seq<char>) -> Seq<char>
    decreases items.len(),
{
    if items.len() == 0 {
        Seq::empty()
    } else if items.len() == 1 {
        items[0]
    } else {
        join_sep(items.drop_last(), sep) + sep + items.last()
    }
}

/// Join a list of character vectors with a separator.
pub fn join_sep_exec(items: &Vec<Vec<char>>, sep: &[char]) -> (r: Vec<char>)
    ensures
        r@ == join_sep(views_of(items@), sep@),
{
    let mut out: Vec<char> = Vec::new();
    let n: usize = items.len();
    let mut i: usize = 0;
    while i < n
        invariant
            0 <= i <= n,
            n == items@.len(),
            out@ == join_sep(views_of(items@.take(i as int)), sep@),
        decreases n - i,
    {
        proof {
            assert(views_of(items@.take(i + 1 as int)).drop_last() =~= views_of(
                items@.take(i as int),
            ));
            assert(views_of(items@.take(i + 1 as int)).last() == items@[i as int]@);
            assert(views_of(items@.take(i + 1 as int)).len() == i + 1);
        }
        if i > 0 {
            push_all(&mut out, sep);
        }
        push_all(&mut out, items[i].as_slice());
        proof {
            if i == 0 {
                assert(out@ =~= join_sep(views_of(items@.take(1int)), sep@));
            } else {
                assert(out@ =~= join_sep(views_of(items@.take(i + 1 as int)), sep@));
            }
        }
        i = i + 1;
    }
    proof {
        assert(items@.take(n as int) =~= items@);
    }
    out
}

} // verus!
