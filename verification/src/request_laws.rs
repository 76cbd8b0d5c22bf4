//! Where each request of an exchange stands, and what it asks: a reader of the history finds every
//! part of the session description in it, in its place.

use crate::backend;
use crate::backend::{Call, Event, Reply};
use crate::checks;
use crate::layout_laws;
use crate::layout_plan;
use crate::layout_plan::{LeafStep, SplitStep};
use crate::model;
use crate::model::{EnvVar, Session, Window};
use crate::protocol;
use crate::template;
use crate::template::BuiltinVar;
use crate::text;
use crate::text::Text;
use crate::words::{TmuxOptionName, TmuxOptionValue};
use vstd::prelude::*;

verus! {

// ─── Waiting ─────────────────────────────────────────────────────────────────

/// The `i`-th look at a pane, where the first one stands at `p`, did not show the pattern, and a
/// second went by.
pub open spec fn missed(h: Seq<Event>, p: int, pane: Text, pattern: Text, i: int) -> bool {
    &&& 0 <= p + 2 * i
    &&& p + 2 * i + 1 < h.len()
    &&& h[p + 2 * i].call == (Call::CapturePane { pane })
    &&& h[p + 2 * i].reply matches Reply::Outcome(Ok(output)) && !text::occurs(output, pattern)
    &&& h[p + 2 * i + 1].call is Pause
    &&& h[p + 2 * i + 1].reply matches Reply::Outcome(Ok(_))
}

/// The `i`-th look at a pane, where the first one stands at `p`, showed the pattern.
pub open spec fn seen(h: Seq<Event>, p: int, pane: Text, pattern: Text, i: int) -> bool {
    &&& 0 <= p + 2 * i < h.len()
    &&& h[p + 2 * i].call == (Call::CapturePane { pane })
    &&& h[p + 2 * i].reply matches Reply::Outcome(Ok(output)) && text::occurs(output, pattern)
}

/// The `i`-th look at a pane, where the first one stands at `p`, failed.
pub open spec fn look_failed(h: Seq<Event>, p: int, pane: Text, i: int, e: Seq<Text>) -> bool {
    &&& 0 <= p + 2 * i < h.len()
    &&& h[p + 2 * i].call == (Call::CapturePane { pane })
    &&& h[p + 2 * i].reply == Reply::Outcome(Err(e))
}

/// The first `n` looks did not show the pattern.
pub open spec fn all_missed(h: Seq<Event>, p: int, pane: Text, pattern: Text, n: int) -> bool {
    forall|i: int| 0 <= i < n ==> #[trigger] missed(h, p, pane, pattern, i)
}

/// Waiting goes on from where the looks have not shown the pattern.
proof fn lemma_misses(
    h: Seq<Event>,
    p: int,
    pane: Text,
    pattern: Text,
    timeout: nat,
    left: nat,
    n: int,
)
    requires
        0 <= n <= left,
        all_missed(h, p, pane, pattern, n),
    ensures
        protocol::await_pattern(h, p, pane, pattern, timeout, left) == protocol::await_pattern(
            h,
            p + 2 * n,
            pane,
            pattern,
            timeout,
            (left - n) as nat,
        ),
    decreases n,
{
    if n > 0 {
        lemma_misses(h, p, pane, pattern, timeout, left, n - 1);
        assert(missed(h, p, pane, pattern, n - 1));
    }
}

/// Waiting succeeds as soon as a look shows the pattern, whichever of the looks that the timeout
/// allows it is, and that look is the last request.
pub proof fn law_waiting_ends_when_the_pattern_is_seen(
    h: Seq<Event>,
    p: int,
    pane: Text,
    pattern: Text,
    timeout: u32,
    k: int,
)
    requires
        0 <= k < timeout,
        all_missed(h, p, pane, pattern, k),
        seen(h, p, pane, pattern, k),
    ensures
        protocol::await_if(h, p, pane, Some((pattern, timeout))) matches Some((q, Ok(_))) && q == p
            + 2 * k + 1,
{
    lemma_misses(h, p, pane, pattern, timeout as nat, timeout as nat, k);
}

/// Waiting fails when as many looks as the timeout has seconds have not shown the pattern, and the
/// error names the timeout, the pattern and the pane.
pub proof fn law_waiting_fails_when_the_pattern_is_never_seen(
    h: Seq<Event>,
    p: int,
    pane: Text,
    pattern: Text,
    timeout: u32,
)
    requires
        all_missed(h, p, pane, pattern, timeout as int),
    ensures
        protocol::await_if(h, p, pane, Some((pattern, timeout))) == Some(
            (
                p + 2 * timeout,
                Err::<Text, Seq<Text>>(
                    seq![
                        "timeout after "@ + text::decimal(timeout as nat) + "s: "@
                            + text::debug_text(pattern) + " not seen in pane "@ + pane,
                    ],
                ),
            ),
        ),
{
    lemma_misses(h, p, pane, pattern, timeout as nat, timeout as nat, timeout as int);
}

/// Waiting fails when a look fails, with the error of the look.
pub proof fn law_waiting_fails_with_the_look(
    h: Seq<Event>,
    p: int,
    pane: Text,
    pattern: Text,
    timeout: u32,
    k: int,
    e: Seq<Text>,
)
    requires
        0 <= k < timeout,
        all_missed(h, p, pane, pattern, k),
        look_failed(h, p, pane, k, e),
    ensures
        protocol::await_if(h, p, pane, Some((pattern, timeout))) == Some(
            (p + 2 * k + 1, Err::<Text, Seq<Text>>(e)),
        ),
{
    lemma_misses(h, p, pane, pattern, timeout as nat, timeout as nat, k);
}

/// What a look that is not the last one came to.
proof fn lemma_looks(
    h: Seq<Event>,
    p: int,
    pane: Text,
    pattern: Text,
    timeout: nat,
    n: int,
) -> (k: int)
    requires
        0 <= p,
        0 <= n <= timeout,
        all_missed(h, p, pane, pattern, n),
        protocol::await_pattern(h, p, pane, pattern, timeout, timeout) is Some,
    ensures
        n <= k <= timeout,
        all_missed(h, p, pane, pattern, k),
        k < timeout ==> seen(h, p, pane, pattern, k) || exists|e: Seq<Text>|
            look_failed(h, p, pane, k, e),
    decreases timeout - n,
{
    lemma_misses(h, p, pane, pattern, timeout, timeout, n);
    if n == timeout {
        n
    } else {
        let at = p + 2 * n;
        match protocol::ask(h, at, Call::CapturePane { pane }) {
            Some((q, Ok(output))) => {
                if text::occurs(output, pattern) {
                    assert(seen(h, p, pane, pattern, n));
                    n
                } else {
                    assert(missed(h, p, pane, pattern, n));
                    lemma_looks(h, p, pane, pattern, timeout, n + 1)
                }
            },
            Some((q, Err(e))) => {
                assert(look_failed(h, p, pane, n, e));
                n
            },
            None => n,
        }
    }
}

/// There is no other end of waiting: looks that do not show the pattern, then one that does or one
/// that fails, or none because the time is over.
pub proof fn law_waiting_has_no_other_end(
    h: Seq<Event>,
    p: int,
    pane: Text,
    pattern: Text,
    timeout: u32,
)
    requires
        0 <= p,
        protocol::await_if(h, p, pane, Some((pattern, timeout))) is Some,
    ensures
        exists|k: int|
            {
                &&& 0 <= k <= timeout
                &&& #[trigger] all_missed(h, p, pane, pattern, k)
                &&& k < timeout ==> seen(h, p, pane, pattern, k) || exists|e: Seq<Text>|
                    look_failed(h, p, pane, k, e)
            },
{
    let k = lemma_looks(h, p, pane, pattern, timeout as nat, 0);
    assert(all_missed(h, p, pane, pattern, k));
}

/// A pattern is seen in an output exactly if the output is some text, the pattern, and some text.
pub proof fn law_pattern_is_seen_where_it_stands(output: Text, pattern: Text)
    ensures
        text::occurs(output, pattern) <==> exists|a: Text, b: Text|
            #![trigger a + pattern + b]
            output == a + pattern + b,
{
    if text::occurs(output, pattern) {
        let i = choose|i: int| text::occurs_at(output, pattern, i);
        let a = output.take(i);
        let b = output.skip(i + pattern.len());
        assert(output =~= a + output.subrange(i, i + pattern.len()) + b);
    }
    if exists|a: Text, b: Text|
        #![trigger a + pattern + b]
        output == a + pattern + b {
        let (a, b) = choose|a: Text, b: Text|
            #![trigger a + pattern + b]
            output == a + pattern + b;
        let i = a.len() as int;
        assert(output.subrange(i, i + pattern.len()) =~= pattern);
        assert(text::occurs_at(output, pattern, i));
    }
}

// ─── Groups of requests ──────────────────────────────────────────────────────

/// The request at `i` was answered with a text.
pub open spec fn went_well(h: Seq<Event>, i: int) -> bool {
    0 <= i < h.len() && (h[i].reply matches Reply::Outcome(Ok(_)))
}

/// The request at `i` failed with `e`.
pub open spec fn went_wrong(h: Seq<Event>, i: int, e: Seq<Text>) -> bool {
    0 <= i < h.len() && h[i].reply == Reply::Outcome(Err(e))
}

/// The requests that were made from `p` up to `q`.
pub open spec fn calls_between(h: Seq<Event>, p: int, q: int) -> Seq<Call> {
    Seq::new((q - p) as nat, |k: int| h[p + k].call)
}

/// The texts that came back from `p` up to `q`.
pub open spec fn replies_between(h: Seq<Event>, p: int, q: int) -> Seq<Text> {
    Seq::new((q - p) as nat, |k: int| backend::reply_text(h[p + k].reply))
}

/// The requests from `p` up to `q` are the first ones of `calls`, each made when the one before had
/// gone well. All of them were made and went well if the outcome is a success; otherwise the last
/// one that was made failed, and its error is the outcome.
pub open spec fn one_after_the_other<T>(
    h: Seq<Event>,
    p: int,
    q: int,
    calls: Seq<Call>,
    outcome: protocol::Outcome<T>,
) -> bool {
    &&& 0 <= p <= q <= h.len()
    &&& q - p <= calls.len()
    &&& calls_between(h, p, q) == calls.take(q - p)
    &&& forall|i: int| p <= i < q - 1 ==> #[trigger] went_well(h, i)
    &&& match outcome {
        Ok(_) => q - p == calls.len() && (p < q ==> went_well(h, q - 1)),
        Err(e) => p < q && went_wrong(h, q - 1, e),
    }
}

proof fn lemma_first_then_others<T>(
    h: Seq<Event>,
    p: int,
    q: int,
    first: Call,
    others: Seq<Call>,
    outcome: protocol::Outcome<T>,
)
    requires
        0 <= p < h.len(),
        h[p].call == first,
        went_well(h, p),
        one_after_the_other(h, p + 1, q, others, outcome),
    ensures
        one_after_the_other(h, p, q, seq![first] + others, outcome),
{
    let calls = seq![first] + others;
    let rest = calls_between(h, p + 1, q);
    assert forall|k: int| 0 <= k < q - p implies calls_between(h, p, q)[k] == calls[k] by {
        if k > 0 {
            assert(rest[k - 1] == h[p + k].call);
            assert(others.take(q - p - 1)[k - 1] == others[k - 1]);
        }
    }
    assert(calls_between(h, p, q) =~= calls.take(q - p));
}

proof fn lemma_failed_first<T>(h: Seq<Event>, p: int, calls: Seq<Call>, outcome: protocol::Outcome<T>)
    requires
        0 <= p < h.len(),
        calls.len() > 0,
        h[p].call == calls[0],
        outcome matches Err(e) && went_wrong(h, p, e),
    ensures
        one_after_the_other(h, p, p + 1, calls, outcome),
{
    assert(calls_between(h, p, p + 1) =~= calls.take(1));
}

proof fn lemma_none_to_make<T>(h: Seq<Event>, p: int, outcome: protocol::Outcome<T>)
    requires
        0 <= p <= h.len(),
        outcome is Ok,
    ensures
        one_after_the_other(h, p, p, Seq::empty(), outcome),
{
    assert(calls_between(h, p, p) =~= Seq::<Call>::empty().take(0));
}

/// The requests that set session options: one for each option, with its name and value, in order.
pub open spec fn option_calls(
    name: Text,
    entries: Seq<(TmuxOptionName, TmuxOptionValue)>,
) -> Seq<Call> {
    Seq::new(
        entries.len(),
        |k: int| Call::SetOption { session: name, key: entries[k].0@, value: entries[k].1@ },
    )
}

/// Session options are set one after the other.
pub proof fn law_session_options_are_set_in_order(
    h: Seq<Event>,
    p: int,
    name: Text,
    entries: Seq<(TmuxOptionName, TmuxOptionValue)>,
)
    requires
        0 <= p <= h.len(),
    ensures
        protocol::set_options(h, p, name, entries) matches Some((q, outcome))
            ==> one_after_the_other(h, p, q, option_calls(name, entries), outcome),
    decreases entries.len(),
{
    let calls = option_calls(name, entries);
    if let Some((q, outcome)) = protocol::set_options(h, p, name, entries) {
        if entries.len() == 0 {
            lemma_none_to_make(h, p, outcome);
            assert(calls =~= Seq::empty());
        } else {
            let first = Call::SetOption { session: name, key: entries[0].0@, value: entries[0].1@ };
            let rest = entries.skip(1);
            if went_well(h, p) {
                law_session_options_are_set_in_order(h, p + 1, name, rest);
                lemma_first_then_others(h, p, q, first, option_calls(name, rest), outcome);
                assert(calls =~= seq![first] + option_calls(name, rest));
            } else {
                lemma_failed_first(h, p, calls, outcome);
            }
        }
    }
}

/// The requests that set window options: one for each option, with its name and value, in order.
pub open spec fn window_option_calls(
    name: Text,
    window: Text,
    entries: Seq<(TmuxOptionName, TmuxOptionValue)>,
) -> Seq<Call> {
    Seq::new(
        entries.len(),
        |k: int|
            Call::SetWindowOption {
                session: name,
                window,
                key: entries[k].0@,
                value: entries[k].1@,
            },
    )
}

/// Window options are set one after the other.
pub proof fn law_window_options_are_set_in_order(
    h: Seq<Event>,
    p: int,
    name: Text,
    window: Text,
    entries: Seq<(TmuxOptionName, TmuxOptionValue)>,
)
    requires
        0 <= p <= h.len(),
    ensures
        protocol::set_window_options(h, p, name, window, entries) matches Some((q, outcome))
            ==> one_after_the_other(
            h,
            p,
            q,
            window_option_calls(name, window, entries),
            outcome,
        ),
    decreases entries.len(),
{
    let calls = window_option_calls(name, window, entries);
    if let Some((q, outcome)) = protocol::set_window_options(h, p, name, window, entries) {
        if entries.len() == 0 {
            lemma_none_to_make(h, p, outcome);
            assert(calls =~= Seq::empty());
        } else {
            let first = Call::SetWindowOption {
                session: name,
                window,
                key: entries[0].0@,
                value: entries[0].1@,
            };
            let rest = entries.skip(1);
            if went_well(h, p) {
                law_window_options_are_set_in_order(h, p + 1, name, window, rest);
                lemma_first_then_others(
                    h,
                    p,
                    q,
                    first,
                    window_option_calls(name, window, rest),
                    outcome,
                );
                assert(calls =~= seq![first] + window_option_calls(name, window, rest));
            } else {
                lemma_failed_first(h, p, calls, outcome);
            }
        }
    }
}

/// The requests for the values of built-in variables.
pub open spec fn value_calls(vars: Seq<BuiltinVar>) -> Seq<Call> {
    Seq::new(vars.len(), |k: int| Call::BuiltinValue { var: vars[k] })
}

/// The values of built-in variables are asked for one after the other, and what came back is used.
pub proof fn law_values_are_asked_for_in_order(
    h: Seq<Event>,
    p: int,
    vars: Seq<BuiltinVar>,
    known: Seq<Text>,
)
    requires
        0 <= p <= h.len(),
    ensures
        protocol::builtin_values(h, p, vars, known) matches Some((q, outcome))
            ==> one_after_the_other(h, p, q, value_calls(vars), outcome) && (outcome matches Ok(
            values,
        ) ==> values == known + replies_between(h, p, q)),
    decreases vars.len(),
{
    let calls = value_calls(vars);
    if let Some((q, outcome)) = protocol::builtin_values(h, p, vars, known) {
        if vars.len() == 0 {
            lemma_none_to_make(h, p, outcome);
            assert(calls =~= Seq::empty());
            assert(known + replies_between(h, p, p) =~= known);
        } else {
            let first = Call::BuiltinValue { var: vars[0] };
            let rest = vars.skip(1);
            if went_well(h, p) {
                let value = backend::reply_text(h[p].reply);
                law_values_are_asked_for_in_order(h, p + 1, rest, known.push(value));
                lemma_first_then_others(h, p, q, first, value_calls(rest), outcome);
                assert(calls =~= seq![first] + value_calls(rest));
                assert(known.push(value) + replies_between(h, p + 1, q) =~= known
                    + replies_between(h, p, q));
            } else {
                lemma_failed_first(h, p, calls, outcome);
            }
        }
    }
}

/// The requests that split panes. `panes` are the ids of the panes by their indices in the plan.
pub open spec fn split_calls(
    splits: Seq<SplitStep>,
    panes: Seq<Text>,
    root: Text,
    env: Seq<(Text, Text)>,
) -> Seq<Call> {
    Seq::new(
        splits.len(),
        |k: int|
            Call::SplitWindow {
                pane: panes[splits[k].parent],
                flag: splits[k].flag,
                pct: splits[k].pct,
                root,
                env,
            },
    )
}

/// Every split names a pane that is there when it is made.
pub open spec fn parents_exist(splits: Seq<SplitStep>, known: int) -> bool {
    forall|k: int| 0 <= k < splits.len() ==> 0 <= (#[trigger] splits[k]).parent < known + k
}

/// Splits are made one after the other, each in the pane that its step names; the pane with the
/// next index is the one whose id came back.
pub proof fn law_splits_are_made_in_order(
    h: Seq<Event>,
    p: int,
    splits: Seq<SplitStep>,
    known: Seq<Text>,
    root: Text,
    env: Seq<(Text, Text)>,
)
    requires
        0 <= p <= h.len(),
        parents_exist(splits, known.len() as int),
    ensures
        protocol::make_splits(h, p, splits, known, root, env) matches Some((q, outcome))
            ==> one_after_the_other(
            h,
            p,
            q,
            split_calls(splits, known + replies_between(h, p, q), root, env),
            outcome,
        ) && (outcome matches Ok(panes) ==> panes == known + replies_between(h, p, q)),
    decreases splits.len(),
{
    if let Some((q, outcome)) = protocol::make_splits(h, p, splits, known, root, env) {
        let panes = known + replies_between(h, p, q);
        let calls = split_calls(splits, panes, root, env);
        if splits.len() == 0 {
            lemma_none_to_make(h, p, outcome);
            assert(calls =~= Seq::empty());
            assert(panes =~= known);
        } else {
            let parent = splits[0].parent;
            let first = Call::SplitWindow {
                pane: known[parent],
                flag: splits[0].flag,
                pct: splits[0].pct,
                root,
                env,
            };
            assert(panes[parent] == known[parent]);
            let rest = splits.skip(1);
            if went_well(h, p) {
                let pane = backend::reply_text(h[p].reply);
                let more = known.push(pane);
                assert forall|k: int| 0 <= k < rest.len() implies 0 <= (#[trigger] rest[k]).parent
                    < more.len() + k by {
                    assert(rest[k] == splits[k + 1]);
                }
                law_splits_are_made_in_order(h, p + 1, rest, more, root, env);
                assert(more + replies_between(h, p + 1, q) =~= panes);
                let others = split_calls(rest, panes, root, env);
                lemma_first_then_others(h, p, q, first, others, outcome);
                assert forall|k: int| 0 <= k < calls.len() implies calls[k] == (seq![first]
                    + others)[k] by {
                    if k > 0 {
                        assert(rest[k - 1] == splits[k]);
                    }
                }
                assert(calls =~= seq![first] + others);
            } else {
                lemma_failed_first(h, p, calls, outcome);
            }
        }
    }
}

// ─── Panes ───────────────────────────────────────────────────────────────────

/// The requests from `p` up to `q` are looks at a pane, of which the last one, which is within the
/// timeout, showed the pattern and no other did; there are none where nothing is waited for.
pub open spec fn pattern_awaited(
    h: Seq<Event>,
    p: int,
    q: int,
    pane: Text,
    wait_for: Option<(Text, u32)>,
) -> bool {
    match wait_for {
        Some((pattern, timeout)) => exists|k: int|
            {
                &&& 0 <= k < timeout
                &&& #[trigger] all_missed(h, p, pane, pattern, k)
                &&& seen(h, p, pane, pattern, k)
                &&& q == p + 2 * k + 1
            },
        None => q == p,
    }
}

/// The requests from `p` up to `q` configure a pane: its command is typed, then its output is
/// looked at until the pattern is seen, within the timeout, and then its title is set.
pub open spec fn pane_configured(
    h: Seq<Event>,
    p: int,
    q: int,
    leaf: LeafStep,
    pane: Text,
) -> bool {
    let typed = p + if leaf.command is Some {
        1int
    } else {
        0
    };
    let waited = q - if leaf.title is Some {
        1int
    } else {
        0
    };
    &&& 0 <= p <= typed <= waited <= q <= h.len()
    &&& leaf.command matches Some(keys) ==> h[p].call == (Call::SendKeys { pane, keys })
        && went_well(h, p)
    &&& pattern_awaited(h, typed, waited, pane, leaf.wait_for)
    &&& leaf.title matches Some(title) ==> h[waited].call == (Call::SetPaneTitle { pane, title })
        && went_well(h, waited)
}

/// A pane that is configured successfully is configured as its leaf says.
pub proof fn law_pane_is_configured(h: Seq<Event>, p: int, leaf: LeafStep, pane: Text)
    requires
        0 <= p <= h.len(),
        protocol::configure_leaf(h, p, leaf, pane) matches Some((_, Ok(_))),
    ensures
        pane_configured(
            h,
            p,
            protocol::end(protocol::configure_leaf(h, p, leaf, pane)),
            leaf,
            pane,
        ),
{
    let q = protocol::end(protocol::ask_if(h, p, protocol::command_call(leaf, pane)));
    if let Some((pattern, timeout)) = leaf.wait_for {
        let k = lemma_looks(h, q, pane, pattern, timeout as nat, 0);
        if k == timeout {
            law_waiting_fails_when_the_pattern_is_never_seen(h, q, pane, pattern, timeout);
        } else if seen(h, q, pane, pattern, k) {
            law_waiting_ends_when_the_pattern_is_seen(h, q, pane, pattern, timeout, k);
            assert(all_missed(h, q, pane, pattern, k));
            assert(pattern_awaited(h, q, q + 2 * k + 1, pane, leaf.wait_for));
        } else {
            let e = choose|e: Seq<Text>| look_failed(h, q, pane, k, e);
            law_waiting_fails_with_the_look(h, q, pane, pattern, timeout, k, e);
        }
    }
}

/// The panes are configured one after the other, from `p` up to `q`: `at` are the positions at
/// which the requests for each pane begin, and the one at which those for the last one end.
pub open spec fn panes_configured(
    h: Seq<Event>,
    p: int,
    q: int,
    leaves: Seq<LeafStep>,
    panes: Seq<Text>,
    at: Seq<int>,
) -> bool {
    &&& at.len() == leaves.len() + 1
    &&& at[0] == p
    &&& at[leaves.len() as int] == q
    &&& forall|i: int|
        0 <= i < leaves.len() ==> pane_configured(
            h,
            at[i],
            at[i + 1],
            #[trigger] leaves[i],
            panes[leaves[i].pane],
        )
}

proof fn lemma_panes_are_configured(
    h: Seq<Event>,
    p: int,
    leaves: Seq<LeafStep>,
    panes: Seq<Text>,
) -> (at: Seq<int>)
    requires
        0 <= p <= h.len(),
        protocol::configure_leaves(h, p, leaves, panes) matches Some((_, Ok(_))),
    ensures
        panes_configured(
            h,
            p,
            protocol::end(protocol::configure_leaves(h, p, leaves, panes)),
            leaves,
            panes,
            at,
        ),
        p <= protocol::end(protocol::configure_leaves(h, p, leaves, panes)) <= h.len(),
    decreases leaves.len(),
{
    if leaves.len() == 0 {
        seq![p]
    } else {
        let pane = panes[leaves[0].pane];
        let rest = leaves.skip(1);
        law_pane_is_configured(h, p, leaves[0], pane);
        let q = protocol::end(protocol::configure_leaf(h, p, leaves[0], pane));
        let others = lemma_panes_are_configured(h, q, rest, panes);
        let end = protocol::end(protocol::configure_leaves(h, p, leaves, panes));
        let at = seq![p] + others;
        assert forall|i: int| 0 <= i < leaves.len() implies pane_configured(
            h,
            at[i],
            at[i + 1],
            #[trigger] leaves[i],
            panes[leaves[i].pane],
        ) by {
            if i > 0 {
                assert(rest[i - 1] == leaves[i]);
                assert(at[i] == others[i - 1] && at[i + 1] == others[i]);
            } else {
                assert(at[1] == others[0]);
            }
        }
        assert(at[leaves.len() as int] == others[rest.len() as int]);
        at
    }
}

/// Panes are configured one after the other, each as its leaf says, in the pane of its leaf.
pub proof fn law_panes_are_configured_in_order(
    h: Seq<Event>,
    p: int,
    leaves: Seq<LeafStep>,
    panes: Seq<Text>,
)
    requires
        0 <= p <= h.len(),
        protocol::configure_leaves(h, p, leaves, panes) matches Some((_, Ok(_))),
    ensures
        exists|at: Seq<int>| #[trigger]
            panes_configured(
                h,
                p,
                protocol::end(protocol::configure_leaves(h, p, leaves, panes)),
                leaves,
                panes,
                at,
            ),
{
    let at = lemma_panes_are_configured(h, p, leaves, panes);
}

// ─── Windows ─────────────────────────────────────────────────────────────────

/// The working directory of a window: its own, else that of its session, else `~`.
pub open spec fn directory_of(session: Session, window: Window) -> Text {
    if window.root is Some {
        window.root->0@
    } else if session.root is Some {
        session.root->0@
    } else {
        "~"@
    }
}

/// The built-in variables that the working directory of a window asks for.
pub open spec fn asked_of(session: Session, window: Window) -> Seq<BuiltinVar> {
    template::requests(template::parts(directory_of(session, window), session.vars))
}

/// The working directory of a window, with the replies from `p` on in the place of the built-in
/// variables.
pub open spec fn resolved_directory(
    h: Seq<Event>,
    p: int,
    session: Session,
    window: Window,
) -> Text {
    template::filled(
        template::parts(directory_of(session, window), session.vars),
        replies_between(h, p, p + asked_of(session, window).len()),
    )
}

/// The variables of the session, then those of the window, each with its name and its value.
pub open spec fn environment_of(session: Session, window: Window) -> Seq<(Text, Text)> {
    let n = session.env@.len();
    Seq::new(
        n + window.env@.len(),
        |i: int|
            if i < n {
                (session.env@[i].key@, session.env@[i].value@)
            } else {
                (window.env@[i - n].key@, window.env@[i - n].value@)
            },
    )
}

/// The panes of a window get the variables of the session, then those of the window.
pub proof fn law_environment_of_a_window(session: Session, window: Window)
    ensures
        model::pane_env(session, window) == environment_of(session, window),
{
    assert(model::pane_env(session, window) =~= environment_of(session, window));
}

/// A list of variables is passed on with the name and the value of each, in order.
pub proof fn law_variables_keep_their_names_and_values(env: Seq<EnvVar>)
    ensures
        model::env_views(env).len() == env.len(),
        forall|i: int|
            0 <= i < env.len() ==> #[trigger] model::env_views(env)[i] == (
                env[i].key@,
                env[i].value@,
            ),
{
}

/// The options of the session, which are set with its first window.
pub open spec fn options_of(
    session: Session,
    index: int,
) -> Seq<(TmuxOptionName, TmuxOptionValue)> {
    if index == 0 {
        session.options@
    } else {
        Seq::empty()
    }
}

/// Where the window at `index` comes into being, if the requests for it start at `p`.
pub open spec fn creation_at(p: int, session: Session, index: int) -> int {
    p + asked_of(session, session.windows@[index]).len()
}

/// Where its panes begin to be split.
pub open spec fn splits_at(p: int, session: Session, index: int) -> int {
    creation_at(p, session, index) + 1 + options_of(session, index).len()
}

/// Where its panes begin to be configured.
pub open spec fn panes_at(p: int, session: Session, index: int) -> int {
    let window = session.windows@[index];
    splits_at(p, session, index) + layout_plan::plan_of(window.layout, session.vars).splits.len()
}

/// The panes of a window by their indices in the plan: the one that came with the window, then
/// those that came from the splits.
pub open spec fn panes_from(h: Seq<Event>, p: int, session: Session, index: int) -> Seq<Text> {
    seq![backend::reply_text(h[creation_at(p, session, index)].reply)] + replies_between(
        h,
        splits_at(p, session, index),
        panes_at(p, session, index),
    )
}

/// The request that creates a window: the first one of a session comes with the session.
pub open spec fn creation_of(session: Session, name: Text, index: int, root: Text) -> Call {
    let window = session.windows@[index];
    if index == 0 {
        Call::NewSession {
            name,
            root,
            window: window.name@,
            env: environment_of(session, window),
        }
    } else {
        Call::NewWindow {
            session: name,
            name: window.name@,
            root,
            env: environment_of(session, window),
        }
    }
}

/// The panes of a window are built, with the requests from `p` on: the values for its working
/// directory are asked for, it is created there with its environment, the options of the session
/// are set with the first window, and the panes are split as the plan says.
pub open spec fn panes_built(
    h: Seq<Event>,
    p: int,
    session: Session,
    name: Text,
    index: int,
) -> bool {
    let window = session.windows@[index];
    let root = resolved_directory(h, p, session, window);
    let create = creation_at(p, session, index);
    let split = splits_at(p, session, index);
    let built = panes_at(p, session, index);
    &&& 0 <= p && built <= h.len()
    &&& calls_between(h, p, create) == value_calls(asked_of(session, window))
    &&& h[create].call == creation_of(session, name, index, root)
    &&& calls_between(h, create + 1, split) == option_calls(name, options_of(session, index))
    &&& calls_between(h, split, built) == split_calls(
        layout_plan::plan_of(window.layout, session.vars).splits,
        panes_from(h, p, session, index),
        root,
        environment_of(session, window),
    )
}

/// The requests that finish a window whose panes are configured: its options are set, its layout
/// preset is applied, and the focus goes to the last pane that asks for it.
pub open spec fn window_finished(
    h: Seq<Event>,
    p: int,
    q: int,
    name: Text,
    window: Window,
    leaves: Seq<LeafStep>,
    panes: Seq<Text>,
) -> bool {
    let optioned = p + window.options@.len();
    let arranged = optioned + if window.select_layout is Some {
        1int
    } else {
        0
    };
    &&& 0 <= p && q <= h.len()
    &&& calls_between(h, p, optioned) == window_option_calls(
        name,
        window.name@,
        window.options@,
    )
    &&& window.select_layout matches Some(preset) ==> h[optioned].call == (Call::SelectLayout {
        session: name,
        window: window.name@,
        preset: preset@,
    })
    &&& arranged <= q
    &&& (forall|i: int| 0 <= i < leaves.len() ==> !(#[trigger] leaves[i]).focus) ==> q == arranged
    &&& forall|i: int|
        0 <= i < leaves.len() && (#[trigger] leaves[i]).focus && (forall|j: int|
            i < j < leaves.len() ==> !(#[trigger] leaves[j]).focus) ==> q == arranged + 1
            && h[arranged].call == (Call::SelectPane { pane: panes[leaves[i].pane] })
}

/// The panes are configured and the window is finished, with the requests from `p` up to `q`.
pub open spec fn window_configured(
    h: Seq<Event>,
    p: int,
    q: int,
    name: Text,
    window: Window,
    leaves: Seq<LeafStep>,
    panes: Seq<Text>,
) -> bool {
    exists|at: Seq<int>, finish: int|
        #![trigger panes_configured(h, p, finish, leaves, panes, at)]
        p <= finish && panes_configured(h, p, finish, leaves, panes, at) && window_finished(
            h,
            finish,
            q,
            name,
            window,
            leaves,
            panes,
        )
}

proof fn lemma_window_is_finished(
    h: Seq<Event>,
    p: int,
    name: Text,
    window: Window,
    leaves: Seq<LeafStep>,
    panes: Seq<Text>,
)
    requires
        0 <= p <= h.len(),
        protocol::finish_window(h, p, name, window, leaves, panes) matches Some((_, Ok(_))),
    ensures
        window_finished(
            h,
            p,
            protocol::end(protocol::finish_window(h, p, name, window, leaves, panes)),
            name,
            window,
            leaves,
            panes,
        ),
        p <= protocol::end(protocol::finish_window(h, p, name, window, leaves, panes)) <= h.len(),
        forall|i: int|
            p <= i < protocol::end(protocol::finish_window(h, p, name, window, leaves, panes))
                ==> #[trigger] went_well(h, i),
{
    let entries = window.options@;
    law_window_options_are_set_in_order(h, p, name, window.name@, entries);
    let calls = window_option_calls(name, window.name@, entries);
    assert(calls.take(calls.len() as int) =~= calls);
    layout_laws::law_last_pane_that_asks_gets_the_focus(leaves);
    if let Some(pane) = layout_plan::focused(leaves) {
        let i = choose|i: int|
            #![trigger leaves[i]]
            0 <= i < leaves.len() && leaves[i].focus && leaves[i].pane == pane && forall|j: int|
                i < j < leaves.len() ==> !(#[trigger] leaves[j]).focus;
        assert forall|k: int|
            0 <= k < leaves.len() && (#[trigger] leaves[k]).focus && (forall|j: int|
                k < j < leaves.len() ==> !(#[trigger] leaves[j]).focus) implies k == i by {
            assert(leaves[i].focus && leaves[k].focus);
        }
    }
}

/// A window that is created successfully is built, configured and finished as its description says:
/// each request has its place, and says what the description says.
#[verifier::rlimit(50)]
pub proof fn law_window_is_created_as_described(
    h: Seq<Event>,
    p: int,
    session: Session,
    name: Text,
    index: int,
)
    requires
        0 <= p <= h.len(),
        protocol::create_window(h, p, session, name, index) matches Some((_, Ok(_))),
    ensures
        panes_built(h, p, session, name, index),
        window_configured(
            h,
            panes_at(p, session, index),
            protocol::end(protocol::create_window(h, p, session, name, index)),
            name,
            session.windows@[index],
            layout_plan::plan_of(session.windows@[index].layout, session.vars).leaves,
            panes_from(h, p, session, index),
        ),
        panes_at(p, session, index) <= protocol::end(
            protocol::create_window(h, p, session, name, index),
        ) <= h.len(),
        layout_laws::gives(
            layout_plan::plan_of(session.windows@[index].layout, session.vars),
            session.windows@[index].layout,
            session.vars,
        ),
{
    let window = session.windows@[index];
    let plan = layout_plan::plan_of(window.layout, session.vars);
    let env = environment_of(session, window);
    let options = options_of(session, index);
    let asked = asked_of(session, window);
    let create = creation_at(p, session, index);
    let split = splits_at(p, session, index);
    let built = panes_at(p, session, index);
    law_environment_of_a_window(session, window);
    layout_laws::law_plan_gives_the_tree(window.layout, session.vars);
    layout_plan::law_plan_is_well_numbered(window.layout, session.vars);

    // The working directory.
    law_values_are_asked_for_in_order(h, p, asked, Seq::empty());
    assert(value_calls(asked).take(asked.len() as int) =~= value_calls(asked));
    assert(Seq::<Text>::empty() + replies_between(h, p, create) =~= replies_between(h, p, create));
    let root = resolved_directory(h, p, session, window);
    assert(protocol::working_dir(h, p, session, window) matches Some((q, Ok(r))) && q == create
        && r == root);

    // The window, the options of the session and the splits.
    let initial = backend::reply_text(h[create].reply);
    law_session_options_are_set_in_order(h, create + 1, name, options);
    assert(option_calls(name, options).take(options.len() as int) =~= option_calls(
        name,
        options,
    ));
    assert forall|k: int| 0 <= k < plan.splits.len() implies 0 <= (#[trigger] plan.splits[k]).parent
        < 1 + k by {
        assert(plan.splits[k].parent <= k);
    }
    law_splits_are_made_in_order(h, split, plan.splits, seq![initial], root, env);
    let panes = panes_from(h, p, session, index);
    let calls = split_calls(plan.splits, panes, root, env);
    assert(calls.take(calls.len() as int) =~= calls);

    // The panes.
    let at = lemma_panes_are_configured(h, built, plan.leaves, panes);
    let finish = protocol::end(protocol::configure_leaves(h, built, plan.leaves, panes));
    lemma_window_is_finished(h, finish, name, window, plan.leaves, panes);
    assert(panes_configured(h, built, finish, plan.leaves, panes, at));
}

// ─── What is owed ────────────────────────────────────────────────────────────

/// All requests from `p` up to `q` went well.
pub open spec fn all_well(h: Seq<Event>, p: int, q: int) -> bool {
    &&& 0 <= p <= q <= h.len()
    &&& forall|i: int| p <= i < q ==> #[trigger] went_well(h, i)
}

/// The first request of a group, and the others.
proof fn lemma_group_front(h: Seq<Event>, p: int, q: int, calls: Seq<Call>)
    requires
        all_well(h, p, q),
        calls_between(h, p, q) == calls,
        p < q,
    ensures
        calls.len() == q - p,
        h[p].call == calls[0],
        went_well(h, p),
        all_well(h, p + 1, q),
        calls_between(h, p + 1, q) == calls.skip(1),
{
    assert(calls_between(h, p, q)[0] == h[p + 0].call);
    assert forall|k: int| 0 <= k < calls.len() - 1 implies calls_between(h, p + 1, q)[k]
        == calls.skip(1)[k] by {
        assert(calls_between(h, p, q)[k + 1] == h[p + (k + 1)].call);
    }
    assert(calls_between(h, p + 1, q) =~= calls.skip(1));
}

proof fn lemma_options_are_set(
    h: Seq<Event>,
    p: int,
    q: int,
    name: Text,
    entries: Seq<(TmuxOptionName, TmuxOptionValue)>,
)
    requires
        all_well(h, p, q),
        calls_between(h, p, q) == option_calls(name, entries),
    ensures
        protocol::set_options(h, p, name, entries) matches Some((end, Ok(_))) && end == q,
    decreases entries.len(),
{
    let calls = option_calls(name, entries);
    assert(calls_between(h, p, q).len() == q - p);
    if entries.len() > 0 {
        lemma_group_front(h, p, q, calls);
        assert(calls.skip(1) =~= option_calls(name, entries.skip(1)));
        lemma_options_are_set(h, p + 1, q, name, entries.skip(1));
    }
}

proof fn lemma_window_options_are_set(
    h: Seq<Event>,
    p: int,
    q: int,
    name: Text,
    window: Text,
    entries: Seq<(TmuxOptionName, TmuxOptionValue)>,
)
    requires
        all_well(h, p, q),
        calls_between(h, p, q) == window_option_calls(name, window, entries),
    ensures
        protocol::set_window_options(h, p, name, window, entries) matches Some((end, Ok(_)))
            && end == q,
    decreases entries.len(),
{
    let calls = window_option_calls(name, window, entries);
    assert(calls_between(h, p, q).len() == q - p);
    if entries.len() > 0 {
        lemma_group_front(h, p, q, calls);
        assert(calls.skip(1) =~= window_option_calls(name, window, entries.skip(1)));
        lemma_window_options_are_set(h, p + 1, q, name, window, entries.skip(1));
    }
}

proof fn lemma_values_are_given(
    h: Seq<Event>,
    p: int,
    q: int,
    vars: Seq<BuiltinVar>,
    known: Seq<Text>,
)
    requires
        all_well(h, p, q),
        calls_between(h, p, q) == value_calls(vars),
    ensures
        protocol::builtin_values(h, p, vars, known) matches Some((end, Ok(values))) && end == q
            && values == known + replies_between(h, p, q),
    decreases vars.len(),
{
    let calls = value_calls(vars);
    assert(calls_between(h, p, q).len() == q - p);
    if vars.len() > 0 {
        lemma_group_front(h, p, q, calls);
        assert(calls.skip(1) =~= value_calls(vars.skip(1)));
        let value = backend::reply_text(h[p].reply);
        lemma_values_are_given(h, p + 1, q, vars.skip(1), known.push(value));
    }
    law_values_are_asked_for_in_order(h, p, vars, known);
}

proof fn lemma_splits_are_made(
    h: Seq<Event>,
    p: int,
    q: int,
    splits: Seq<SplitStep>,
    known: Seq<Text>,
    root: Text,
    env: Seq<(Text, Text)>,
)
    requires
        all_well(h, p, q),
        parents_exist(splits, known.len() as int),
        calls_between(h, p, q) == split_calls(
            splits,
            known + replies_between(h, p, q),
            root,
            env,
        ),
    ensures
        protocol::make_splits(h, p, splits, known, root, env) matches Some((end, Ok(panes)))
            && end == q && panes == known + replies_between(h, p, q),
    decreases splits.len(),
{
    let panes = known + replies_between(h, p, q);
    let calls = split_calls(splits, panes, root, env);
    assert(calls_between(h, p, q).len() == q - p);
    if splits.len() > 0 {
        lemma_group_front(h, p, q, calls);
        let rest = splits.skip(1);
        let more = known.push(backend::reply_text(h[p].reply));
        assert(panes[splits[0].parent] == known[splits[0].parent]);
        assert(more + replies_between(h, p + 1, q) =~= panes);
        assert forall|k: int| 0 <= k < rest.len() implies 0 <= (#[trigger] rest[k]).parent
            < more.len() + k by {
            assert(rest[k] == splits[k + 1]);
        }
        assert forall|k: int| 0 <= k < rest.len() implies calls.skip(1)[k] == split_calls(
            rest,
            panes,
            root,
            env,
        )[k] by {
            assert(rest[k] == splits[k + 1]);
        }
        assert(calls.skip(1) =~= split_calls(rest, panes, root, env));
        lemma_splits_are_made(h, p + 1, q, rest, more, root, env);
    }
    law_splits_are_made_in_order(h, p, splits, known, root, env);
}

/// Configuring a pane succeeds where its requests are there and went well.
pub proof fn law_configuring_a_pane_succeeds(
    h: Seq<Event>,
    p: int,
    q: int,
    leaf: LeafStep,
    pane: Text,
)
    requires
        pane_configured(h, p, q, leaf, pane),
    ensures
        protocol::configure_leaf(h, p, leaf, pane) matches Some((end, Ok(_))) && end == q,
{
    let typed = p + if leaf.command is Some {
        1int
    } else {
        0
    };
    let waited = q - if leaf.title is Some {
        1int
    } else {
        0
    };
    if let Some((pattern, timeout)) = leaf.wait_for {
        assert(pattern_awaited(h, typed, waited, pane, leaf.wait_for));
        let k = choose|k: int|
            {
                &&& 0 <= k < timeout
                &&& #[trigger] all_missed(h, typed, pane, pattern, k)
                &&& seen(h, typed, pane, pattern, k)
                &&& waited == typed + 2 * k + 1
            };
        law_waiting_ends_when_the_pattern_is_seen(h, typed, pane, pattern, timeout, k);
    }
}

proof fn lemma_configuring_panes_succeeds(
    h: Seq<Event>,
    p: int,
    q: int,
    leaves: Seq<LeafStep>,
    panes: Seq<Text>,
    at: Seq<int>,
)
    requires
        panes_configured(h, p, q, leaves, panes, at),
    ensures
        protocol::configure_leaves(h, p, leaves, panes) matches Some((end, Ok(_))) && end == q,
    decreases leaves.len(),
{
    if leaves.len() > 0 {
        let rest = leaves.skip(1);
        let others = at.skip(1);
        assert(leaves[0] == leaves[0]);
        law_configuring_a_pane_succeeds(h, p, at[1], leaves[0], panes[leaves[0].pane]);
        assert forall|i: int| 0 <= i < rest.len() implies pane_configured(
            h,
            others[i],
            others[i + 1],
            #[trigger] rest[i],
            panes[rest[i].pane],
        ) by {
            assert(rest[i] == leaves[i + 1]);
            assert(others[i] == at[i + 1] && others[i + 1] == at[i + 2]);
        }
        assert(others[rest.len() as int] == at[leaves.len() as int]);
        lemma_configuring_panes_succeeds(h, at[1], q, rest, panes, others);
    }
}

proof fn lemma_finishing_succeeds(
    h: Seq<Event>,
    p: int,
    q: int,
    name: Text,
    window: Window,
    leaves: Seq<LeafStep>,
    panes: Seq<Text>,
)
    requires
        all_well(h, p, q),
        window_finished(h, p, q, name, window, leaves, panes),
    ensures
        protocol::finish_window(h, p, name, window, leaves, panes) matches Some((end, Ok(_)))
            && end == q,
{
    let optioned = p + window.options@.len();
    assert forall|i: int| p <= i < optioned implies #[trigger] went_well(h, i) by {}
    lemma_window_options_are_set(h, p, optioned, name, window.name@, window.options@);
    if window.select_layout is Some {
        assert(went_well(h, optioned));
    }
    let arranged = optioned + if window.select_layout is Some {
        1int
    } else {
        0
    };
    layout_laws::law_last_pane_that_asks_gets_the_focus(leaves);
    if let Some(pane) = layout_plan::focused(leaves) {
        let i = choose|i: int|
            #![trigger leaves[i]]
            0 <= i < leaves.len() && leaves[i].focus && leaves[i].pane == pane && forall|j: int|
                i < j < leaves.len() ==> !(#[trigger] leaves[j]).focus;
        assert(leaves[i].focus);
        assert(went_well(h, arranged));
    }
}

/// Creating a window succeeds where all requests that its description calls for are there and went
/// well, and its working directory holds no NUL character.
#[verifier::rlimit(50)]
pub proof fn law_creating_a_window_succeeds(
    h: Seq<Event>,
    p: int,
    q: int,
    session: Session,
    name: Text,
    index: int,
)
    requires
        all_well(h, p, q),
        panes_at(p, session, index) <= q,
        panes_built(h, p, session, name, index),
        window_configured(
            h,
            panes_at(p, session, index),
            q,
            name,
            session.windows@[index],
            layout_plan::plan_of(session.windows@[index].layout, session.vars).leaves,
            panes_from(h, p, session, index),
        ),
        checks::no_nul(resolved_directory(h, p, session, session.windows@[index])),
    ensures
        protocol::create_window(h, p, session, name, index) matches Some((end, Ok(_))) && end == q,
{
    let window = session.windows@[index];
    let plan = layout_plan::plan_of(window.layout, session.vars);
    let env = environment_of(session, window);
    let options = options_of(session, index);
    let asked = asked_of(session, window);
    let create = creation_at(p, session, index);
    let split = splits_at(p, session, index);
    let built = panes_at(p, session, index);
    let root = resolved_directory(h, p, session, window);
    law_environment_of_a_window(session, window);
    layout_plan::law_plan_is_well_numbered(window.layout, session.vars);
    assert forall|k: int| 0 <= k < plan.splits.len() implies 0 <= (#[trigger] plan.splits[k]).parent
        < 1 + k by {
        assert(plan.splits[k].parent <= k);
    }
    lemma_values_are_given(h, p, create, asked, Seq::empty());
    assert(Seq::<Text>::empty() + replies_between(h, p, create) =~= replies_between(h, p, create));
    assert(went_well(h, create));
    let initial = backend::reply_text(h[create].reply);
    lemma_options_are_set(h, create + 1, split, name, options);
    lemma_splits_are_made(h, split, built, plan.splits, seq![initial], root, env);
    let panes = panes_from(h, p, session, index);
    let (at, finish) = choose|at: Seq<int>, finish: int|
        #![trigger panes_configured(h, built, finish, plan.leaves, panes, at)]
        built <= finish && panes_configured(h, built, finish, plan.leaves, panes, at)
            && window_finished(h, finish, q, name, window, plan.leaves, panes);
    lemma_configuring_panes_succeeds(h, built, finish, plan.leaves, panes, at);
    lemma_finishing_succeeds(h, finish, q, name, window, plan.leaves, panes);
}

/// A working directory that holds a NUL character, because a value does, is refused: nothing is
/// created in it.
pub proof fn law_directory_with_nul_is_refused(
    h: Seq<Event>,
    p: int,
    session: Session,
    name: Text,
    index: int,
)
    requires
        all_well(h, p, creation_at(p, session, index)),
        calls_between(h, p, creation_at(p, session, index)) == value_calls(
            asked_of(session, session.windows@[index]),
        ),
        !checks::no_nul(resolved_directory(h, p, session, session.windows@[index])),
    ensures
        protocol::create_window(h, p, session, name, index) == Some(
            (
                creation_at(p, session, index),
                Err::<Text, Seq<Text>>(
                    seq!["resolved tmux argument"@ + ": must not contain NUL bytes"@],
                ),
            ),
        ),
{
    let window = session.windows@[index];
    let create = creation_at(p, session, index);
    lemma_values_are_given(h, p, create, asked_of(session, window), Seq::empty());
    assert(Seq::<Text>::empty() + replies_between(h, p, create) =~= replies_between(h, p, create));
}

} // verus!
