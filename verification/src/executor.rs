//! The executor: a session built by driving tmux.

use crate::backend;
use crate::backend::{Event, TmuxBackend};
use crate::checks;
use crate::error;
use crate::error::Error;
use crate::layout_plan;
use crate::layout_plan::{LayoutPlan, PlannedLeaf};
use crate::model;
use crate::model::{EnvVar, Session, WaitFor, Window, MAX_LAYOUT_DEPTH};
use crate::ordered_map::TmuxOptions;
use crate::protocol;
use crate::protocol::Outcome;
use crate::template;
use crate::template::BuiltinVar;
use crate::text;
use crate::text::Text;
use crate::validate;
use crate::words::{PaneId, ResolvedTmuxArg, ShellCommand, TmuxName};
use vstd::prelude::*;
use vstd::string::*;

verus! {

broadcast use {backend::lemma_follows_itself, backend::lemma_follows_on};

// ─── Outcomes ────────────────────────────────────────────────────────────────

spec fn values_outcome(r: Result<Vec<String>, Error>) -> Outcome<Seq<Text>> {
    match r {
        Ok(values) => Ok(text::views(values@)),
        Err(e) => Err(e@),
    }
}

spec fn arg_outcome(r: Result<ResolvedTmuxArg, Error>) -> Outcome<Text> {
    match r {
        Ok(arg) => Ok(arg@),
        Err(e) => Err(e@),
    }
}

spec fn pane_texts(panes: Seq<PaneId>) -> Seq<Text> {
    panes.map_values(|id: PaneId| id@)
}

spec fn panes_outcome(r: Result<Vec<PaneId>, Error>) -> Outcome<Seq<Text>> {
    match r {
        Ok(panes) => Ok(pane_texts(panes@)),
        Err(e) => Err(e@),
    }
}

spec fn focus_outcome(r: Result<Option<usize>, Error>) -> Outcome<Text> {
    match r {
        Ok(_) => Ok(Seq::empty()),
        Err(e) => Err(e@),
    }
}

proof fn lemma_extends(h: Seq<Event>, c: Seq<Event>, b: Seq<Event>)
    requires
        protocol::extends(h, c),
        protocol::extends(c, b),
    ensures
        protocol::extends(h, b),
{
    assert forall|i: int| 0 <= i < b.len() implies #[trigger] h[i] == b[i] by {
        assert(c[i] == b[i]);
        assert(h[i] == c[i]);
    }
}

// ─── Working directories ─────────────────────────────────────────────────────

/// Asks for the values of built-in variables.
fn builtin_values<B: TmuxBackend>(backend: &mut B, vars: &Vec<BuiltinVar>) -> (r: Result<
    Vec<String>,
    Error,
>)
    ensures
        protocol::extends(final(backend).history(), old(backend).history()),
        backend::follows(*old(backend), *final(backend)),
        forall|h: Seq<Event>| #[trigger]
            protocol::extends(h, final(backend).history()) ==> protocol::builtin_values(
                h,
                old(backend).history().len() as int,
                vars@,
                Seq::empty(),
            ) == Some((final(backend).history().len() as int, values_outcome(r))),
        r matches Ok(values) ==> values@.len() == vars@.len(),
{
    let mut values: Vec<String> = Vec::new();
    let ghost start = backend.history();
    let ghost p = start.len() as int;
    assert(vars@.skip(0) == vars@);
    assert(text::views(values@) == Seq::<Text>::empty());
    for i in 0..vars.len()
        invariant
            start == old(backend).history(),
            p == start.len(),
            values@.len() == i,
            protocol::extends(backend.history(), start),
            backend::follows(*old(backend), *backend),
            forall|h: Seq<Event>| #[trigger]
                protocol::extends(h, backend.history()) ==> protocol::builtin_values(
                    h,
                    p,
                    vars@,
                    Seq::empty(),
                ) == protocol::builtin_values(
                    h,
                    backend.history().len() as int,
                    vars@.skip(i as int),
                    text::views(values@),
                ),
    {
        let ghost before = backend.history();
        let ghost known = text::views(values@);
        assert(vars@.skip(i as int)[0] == vars@[i as int]);
        assert(vars@.skip(i as int).skip(1) == vars@.skip(i + 1));
        let ghost asked = *backend;
        let r = backend.builtin_value(vars[i]);
        proof {
            backend::lemma_follows_request(asked, *backend);
        }
        match r {
            Ok(value) => {
                values.push(value);
                assert(text::views(values@) == known.push(value@));
                assert forall|h: Seq<Event>| #[trigger]
                    protocol::extends(h, backend.history()) implies protocol::builtin_values(
                    h,
                    p,
                    vars@,
                    Seq::empty(),
                ) == protocol::builtin_values(
                    h,
                    backend.history().len() as int,
                    vars@.skip(i + 1),
                    text::views(values@),
                ) by {
                    lemma_extends(h, backend.history(), before);
                    assert(h[before.len() as int] == backend.history()[before.len() as int]);
                }
            },
            Err(e) => {
                assert forall|h: Seq<Event>| #[trigger]
                    protocol::extends(h, backend.history()) implies protocol::builtin_values(
                    h,
                    p,
                    vars@,
                    Seq::empty(),
                ) == Some((backend.history().len() as int, Err::<Seq<Text>, Seq<Text>>(e@))) by {
                    lemma_extends(h, backend.history(), before);
                    assert(h[before.len() as int] == backend.history()[before.len() as int]);
                }
                return Err(e);
            },
        }
    }
    Ok(values)
}

/// The working directory of a window.
fn working_dir<B: TmuxBackend>(backend: &mut B, session: &Session, window: &Window) -> (r: Result<
    ResolvedTmuxArg,
    Error,
>)
    ensures
        protocol::extends(final(backend).history(), old(backend).history()),
        backend::follows(*old(backend), *final(backend)),
        forall|h: Seq<Event>| #[trigger]
            protocol::extends(h, final(backend).history()) ==> protocol::working_dir(
                h,
                old(backend).history().len() as int,
                *session,
                *window,
            ) == Some((final(backend).history().len() as int, arg_outcome(r))),
{
    let root = model::window_root(session, window);
    let vars = template::builtin_requests(root, &session.vars);
    let answers = builtin_values(backend, &vars)?;
    template::resolve_tmux_arg_vars(root, &session.vars, &answers)
}

// ─── Configuring a window ────────────────────────────────────────────────────

/// Sets the session options.
fn set_options<B: TmuxBackend>(
    backend: &mut B,
    name: &TmuxName,
    options: &TmuxOptions,
) -> (r: Result<(), Error>)
    ensures
        protocol::extends(final(backend).history(), old(backend).history()),
        backend::follows(*old(backend), *final(backend)),
        forall|h: Seq<Event>| #[trigger]
            protocol::extends(h, final(backend).history()) ==> protocol::set_options(
                h,
                old(backend).history().len() as int,
                name@,
                options@,
            ) == Some((final(backend).history().len() as int, backend::done(r))),
{
    let entries = options.entries();
    let ghost start = backend.history();
    let ghost p = start.len() as int;
    assert(options@.skip(0) == options@);
    for i in 0..entries.len()
        invariant
            start == old(backend).history(),
            p == start.len(),
            entries@ == options@,
            protocol::extends(backend.history(), start),
            backend::follows(*old(backend), *backend),
            forall|h: Seq<Event>| #[trigger]
                protocol::extends(h, backend.history()) ==> protocol::set_options(
                    h,
                    p,
                    name@,
                    options@,
                ) == protocol::set_options(
                    h,
                    backend.history().len() as int,
                    name@,
                    options@.skip(i as int),
                ),
    {
        let ghost before = backend.history();
        assert(options@.skip(i as int)[0] == options@[i as int]);
        assert(options@.skip(i as int).skip(1) == options@.skip(i + 1));
        let ghost asked = *backend;
        let r = backend.set_option(name, &entries[i].0, &entries[i].1);
        proof {
            backend::lemma_follows_request(asked, *backend);
        }
        assert forall|h: Seq<Event>| #[trigger]
            protocol::extends(h, backend.history()) implies protocol::set_options(
            h,
            p,
            name@,
            options@,
        ) == (if r is Ok {
            protocol::set_options(
                h,
                backend.history().len() as int,
                name@,
                options@.skip(i + 1),
            )
        } else {
            Some((backend.history().len() as int, backend::done(r)))
        }) by {
            lemma_extends(h, backend.history(), before);
            assert(h[before.len() as int] == backend.history()[before.len() as int]);
        }
        r?;
    }
    Ok(())
}

/// Sets the window options.
fn set_window_options<B: TmuxBackend>(
    backend: &mut B,
    name: &TmuxName,
    window: &TmuxName,
    options: &TmuxOptions,
) -> (r: Result<(), Error>)
    ensures
        protocol::extends(final(backend).history(), old(backend).history()),
        backend::follows(*old(backend), *final(backend)),
        forall|h: Seq<Event>| #[trigger]
            protocol::extends(h, final(backend).history()) ==> protocol::set_window_options(
                h,
                old(backend).history().len() as int,
                name@,
                window@,
                options@,
            ) == Some((final(backend).history().len() as int, backend::done(r))),
{
    let entries = options.entries();
    let ghost start = backend.history();
    let ghost p = start.len() as int;
    assert(options@.skip(0) == options@);
    for i in 0..entries.len()
        invariant
            start == old(backend).history(),
            p == start.len(),
            entries@ == options@,
            protocol::extends(backend.history(), start),
            backend::follows(*old(backend), *backend),
            forall|h: Seq<Event>| #[trigger]
                protocol::extends(h, backend.history()) ==> protocol::set_window_options(
                    h,
                    p,
                    name@,
                    window@,
                    options@,
                ) == protocol::set_window_options(
                    h,
                    backend.history().len() as int,
                    name@,
                    window@,
                    options@.skip(i as int),
                ),
    {
        let ghost before = backend.history();
        assert(options@.skip(i as int)[0] == options@[i as int]);
        assert(options@.skip(i as int).skip(1) == options@.skip(i + 1));
        let ghost asked = *backend;
        let r = backend.set_window_option(name, window, &entries[i].0, &entries[i].1);
        proof {
            backend::lemma_follows_request(asked, *backend);
        }
        assert forall|h: Seq<Event>| #[trigger]
            protocol::extends(h, backend.history()) implies protocol::set_window_options(
            h,
            p,
            name@,
            window@,
            options@,
        ) == (if r is Ok {
            protocol::set_window_options(
                h,
                backend.history().len() as int,
                name@,
                window@,
                options@.skip(i + 1),
            )
        } else {
            Some((backend.history().len() as int, backend::done(r)))
        }) by {
            lemma_extends(h, backend.history(), before);
            assert(h[before.len() as int] == backend.history()[before.len() as int]);
        }
        r?;
    }
    Ok(())
}

/// Makes the splits of a plan, and gives back the panes by their indices in the plan.
fn make_splits<B: TmuxBackend>(
    backend: &mut B,
    plan: &LayoutPlan,
    initial: PaneId,
    root: &ResolvedTmuxArg,
    env: &[EnvVar],
) -> (r: Result<Vec<PaneId>, Error>)
    ensures
        protocol::extends(final(backend).history(), old(backend).history()),
        backend::follows(*old(backend), *final(backend)),
        forall|h: Seq<Event>| #[trigger]
            protocol::extends(h, final(backend).history()) ==> protocol::make_splits(
                h,
                old(backend).history().len() as int,
                plan@.splits,
                seq![initial@],
                root@,
                model::env_views(env@),
            ) == Some((final(backend).history().len() as int, panes_outcome(r))),
        r matches Ok(panes) ==> panes@.len() == plan@.splits.len() + 1,
{
    let splits = plan.splits();
    let mut panes: Vec<PaneId> = Vec::new();
    let ghost first = initial@;
    panes.push(initial);
    let ghost start = backend.history();
    let ghost p = start.len() as int;
    let ghost steps = plan@.splits;
    let ghost variables = model::env_views(env@);
    assert(steps.skip(0) == steps);
    assert(pane_texts(panes@) == seq![first]);
    for i in 0..splits.len()
        invariant
            start == old(backend).history(),
            p == start.len(),
            plan.wf(),
            first == initial@,
            steps == plan@.splits,
            variables == model::env_views(env@),
            layout_plan::split_views(splits@) == steps,
            panes@.len() == i + 1,
            protocol::extends(backend.history(), start),
            backend::follows(*old(backend), *backend),
            forall|h: Seq<Event>| #[trigger]
                protocol::extends(h, backend.history()) ==> protocol::make_splits(
                    h,
                    p,
                    steps,
                    seq![first],
                    root@,
                    variables,
                ) == protocol::make_splits(
                    h,
                    backend.history().len() as int,
                    steps.skip(i as int),
                    pane_texts(panes@),
                    root@,
                    variables,
                ),
    {
        let ghost before = backend.history();
        let ghost known = pane_texts(panes@);
        let split = &splits[i];
        assert(steps[i as int] == split@);
        assert(steps.skip(i as int)[0] == split@);
        assert(steps.skip(i as int).skip(1) == steps.skip(i + 1));
        let ghost asked = *backend;
        let r = backend.split_window_with_env(&panes[split.parent], split.flag, split.pct, root, env);
        proof {
            backend::lemma_follows_request(asked, *backend);
        }
        match r {
            Ok(pane) => {
                panes.push(pane);
                assert(pane_texts(panes@) == known.push(pane@));
                assert forall|h: Seq<Event>| #[trigger]
                    protocol::extends(h, backend.history()) implies protocol::make_splits(
                    h,
                    p,
                    steps,
                    seq![first],
                    root@,
                    variables,
                ) == protocol::make_splits(
                    h,
                    backend.history().len() as int,
                    steps.skip(i + 1),
                    pane_texts(panes@),
                    root@,
                    variables,
                ) by {
                    lemma_extends(h, backend.history(), before);
                    assert(h[before.len() as int] == backend.history()[before.len() as int]);
                }
            },
            Err(e) => {
                assert forall|h: Seq<Event>| #[trigger]
                    protocol::extends(h, backend.history()) implies protocol::make_splits(
                    h,
                    p,
                    steps,
                    seq![first],
                    root@,
                    variables,
                ) == Some((backend.history().len() as int, Err::<Seq<Text>, Seq<Text>>(e@))) by {
                    lemma_extends(h, backend.history(), before);
                    assert(h[before.len() as int] == backend.history()[before.len() as int]);
                }
                return Err(e);
            },
        }
    }
    Ok(panes)
}

/// Looks at the output of a pane once a second until the pattern is seen, as often as the timeout
/// has seconds.
fn wait_for_pane_output<B: TmuxBackend>(
    backend: &mut B,
    pane: &PaneId,
    wait_for: &WaitFor,
) -> (r: Result<(), Error>)
    ensures
        protocol::extends(final(backend).history(), old(backend).history()),
        backend::follows(*old(backend), *final(backend)),
        forall|h: Seq<Event>| #[trigger]
            protocol::extends(h, final(backend).history()) ==> protocol::await_if(
                h,
                old(backend).history().len() as int,
                pane@,
                Some(wait_for@),
            ) == Some((final(backend).history().len() as int, backend::done(r))),
{
    let timeout: u32 = wait_for.timeout.as_secs();
    let ghost start = backend.history();
    let ghost p = start.len() as int;
    let ghost pattern = wait_for.pattern@;
    let mut left: u32 = timeout;
    while left > 0
        invariant
            start == old(backend).history(),
            p == start.len(),
            pattern == wait_for.pattern@,
            timeout == wait_for.timeout@,
            protocol::extends(backend.history(), start),
            backend::follows(*old(backend), *backend),
            forall|h: Seq<Event>| #[trigger]
                protocol::extends(h, backend.history()) ==> protocol::await_if(
                    h,
                    p,
                    pane@,
                    Some(wait_for@),
                ) == protocol::await_pattern(
                    h,
                    backend.history().len() as int,
                    pane@,
                    pattern,
                    timeout as nat,
                    left as nat,
                ),
        decreases left,
    {
        let ghost before = backend.history();
        let ghost asked = *backend;
        let r = backend.capture_pane(pane);
        proof {
            backend::lemma_follows_request(asked, *backend);
        }
        match r {
            Ok(output) => {
                let ghost captured = backend.history();
                if text::contains_text(output.as_str(), wait_for.pattern.as_str()) {
                    assert forall|h: Seq<Event>| #[trigger]
                        protocol::extends(h, backend.history()) implies protocol::await_if(
                        h,
                        p,
                        pane@,
                        Some(wait_for@),
                    ) == protocol::nothing(backend.history().len() as int) by {
                        lemma_extends(h, backend.history(), before);
                        assert(h[before.len() as int] == captured[before.len() as int]);
                    }
                    return Ok(());
                }
                let ghost asked = *backend;
                backend.pause();
                proof {
                    backend::lemma_follows_request(asked, *backend);
                }
                left -= 1;
                assert forall|h: Seq<Event>| #[trigger]
                    protocol::extends(h, backend.history()) implies protocol::await_if(
                    h,
                    p,
                    pane@,
                    Some(wait_for@),
                ) == protocol::await_pattern(
                    h,
                    backend.history().len() as int,
                    pane@,
                    pattern,
                    timeout as nat,
                    left as nat,
                ) by {
                    lemma_extends(h, backend.history(), before);
                    assert(h[before.len() as int] == backend.history()[before.len() as int]);
                    assert(h[1 + before.len() as int] == backend.history()[1 + before.len() as int]);
                }
            },
            Err(e) => {
                assert forall|h: Seq<Event>| #[trigger]
                    protocol::extends(h, backend.history()) implies protocol::await_if(
                    h,
                    p,
                    pane@,
                    Some(wait_for@),
                ) == Some((backend.history().len() as int, Err::<Text, Seq<Text>>(e@))) by {
                    lemma_extends(h, backend.history(), before);
                    assert(h[before.len() as int] == backend.history()[before.len() as int]);
                }
                return Err(e);
            },
        }
    }
    Err(
        Error::msg(
            "timeout after ".to_owned().concat(
                text::decimal_string(timeout as u64).as_str(),
            ).concat("s: ").concat(text::debug_string(wait_for.pattern.as_str()).as_str()).concat(
                " not seen in pane ",
            ).concat(pane.as_str()),
        ),
    )
}

/// Configures a pane: types its command, waits for its pattern, sets its title.
fn configure_leaf<B: TmuxBackend>(
    backend: &mut B,
    leaf: &PlannedLeaf,
    pane: &PaneId,
) -> (r: Result<(), Error>)
    ensures
        protocol::extends(final(backend).history(), old(backend).history()),
        backend::follows(*old(backend), *final(backend)),
        forall|h: Seq<Event>| #[trigger]
            protocol::extends(h, final(backend).history()) ==> protocol::configure_leaf(
                h,
                old(backend).history().len() as int,
                leaf@,
                pane@,
            ) == Some((final(backend).history().len() as int, backend::done(r))),
{
    let ghost h0 = backend.history();
    let ghost p = h0.len() as int;
    if let Some(command) = &leaf.command {
        let ghost asked = *backend;
        let r = backend.send_keys(pane, command);
        proof {
            backend::lemma_follows_request(asked, *backend);
        }
        assert forall|h: Seq<Event>| #[trigger]
            protocol::extends(h, backend.history()) implies protocol::ask_if(
            h,
            p,
            protocol::command_call(leaf@, pane@),
        ) == Some((backend.history().len() as int, backend::done(r))) by {
            assert(h[p] == backend.history()[p]);
        }
        r?;
    }
    let ghost h1 = backend.history();
    if let Some(wait_for) = &leaf.wait_for {
        let r = wait_for_pane_output(backend, pane, wait_for);
        assert forall|h: Seq<Event>| #[trigger]
            protocol::extends(h, backend.history()) implies protocol::await_if(
            h,
            h1.len() as int,
            pane@,
            leaf@.wait_for,
        ) == Some((backend.history().len() as int, backend::done(r))) && protocol::ask_if(
            h,
            p,
            protocol::command_call(leaf@, pane@),
        ) == protocol::nothing(h1.len() as int) by {
            lemma_extends(h, backend.history(), h1);
        }
        r?;
    }
    let ghost h2 = backend.history();
    if let Some(title) = &leaf.title {
        let ghost asked = *backend;
        let r = backend.set_pane_title(pane, title);
        proof {
            backend::lemma_follows_request(asked, *backend);
        }
        assert forall|h: Seq<Event>| #[trigger]
            protocol::extends(h, backend.history()) implies protocol::configure_leaf(
            h,
            p,
            leaf@,
            pane@,
        ) == Some((backend.history().len() as int, backend::done(r))) by {
            lemma_extends(h, backend.history(), h2);
            lemma_extends(h, h2, h1);
            assert(h[h2.len() as int] == backend.history()[h2.len() as int]);
        }
        r?;
    }
    Ok(())
}

/// Configures the panes, and gives back the one that gets the focus.
fn configure_leaves<B: TmuxBackend>(
    backend: &mut B,
    plan: &LayoutPlan,
    panes: &Vec<PaneId>,
) -> (r: Result<Option<usize>, Error>)
    requires
        panes@.len() == plan@.splits.len() + 1,
    ensures
        protocol::extends(final(backend).history(), old(backend).history()),
        backend::follows(*old(backend), *final(backend)),
        forall|h: Seq<Event>| #[trigger]
            protocol::extends(h, final(backend).history()) ==> protocol::configure_leaves(
                h,
                old(backend).history().len() as int,
                plan@.leaves,
                pane_texts(panes@),
            ) == Some((final(backend).history().len() as int, focus_outcome(r))),
        r matches Ok(focus) ==> match focus {
            Some(i) => layout_plan::focused(plan@.leaves) == Some(i as int) && i < panes@.len(),
            None => layout_plan::focused(plan@.leaves) is None,
        },
{
    let leaves = plan.leaves();
    let ghost start = backend.history();
    let ghost p = start.len() as int;
    let ghost steps = plan@.leaves;
    let ghost ids = pane_texts(panes@);
    let mut focus: Option<usize> = None;
    assert(steps.skip(0) == steps);
    for i in 0..leaves.len()
        invariant
            start == old(backend).history(),
            p == start.len(),
            plan.wf(),
            panes@.len() == plan@.splits.len() + 1,
            steps == plan@.leaves,
            ids == pane_texts(panes@),
            layout_plan::leaf_views(leaves@) == steps,
            match focus {
                Some(k) => layout_plan::focused(steps.take(i as int)) == Some(k as int) && k
                    < panes@.len(),
                None => layout_plan::focused(steps.take(i as int)) is None,
            },
            protocol::extends(backend.history(), start),
            backend::follows(*old(backend), *backend),
            forall|h: Seq<Event>| #[trigger]
                protocol::extends(h, backend.history()) ==> protocol::configure_leaves(
                    h,
                    p,
                    steps,
                    ids,
                ) == protocol::configure_leaves(
                    h,
                    backend.history().len() as int,
                    steps.skip(i as int),
                    ids,
                ),
    {
        let ghost before = backend.history();
        let leaf = &leaves[i];
        assert(steps[i as int] == leaf@);
        assert(steps.skip(i as int)[0] == leaf@);
        assert(steps.skip(i as int).skip(1) == steps.skip(i + 1));
        assert(steps.take(i + 1).drop_last() == steps.take(i as int));
        let r = configure_leaf(backend, leaf, &panes[leaf.pane]);
        proof {
            lemma_extends(backend.history(), backend.history(), before);
            lemma_extends(backend.history(), before, start);
        }
        assert forall|h: Seq<Event>| #[trigger]
            protocol::extends(h, backend.history()) implies protocol::configure_leaves(
            h,
            p,
            steps,
            ids,
        ) == (if r is Ok {
            protocol::configure_leaves(h, backend.history().len() as int, steps.skip(i + 1), ids)
        } else {
            Some((backend.history().len() as int, backend::done(r)))
        }) by {
            lemma_extends(h, backend.history(), before);
            assert(ids[leaf.pane as int] == panes@[leaf.pane as int]@);
        }
        r?;
        if leaf.focus {
            focus = Some(leaf.pane);
        }
    }
    assert(steps.take(steps.len() as int) == steps);
    Ok(focus)
}

/// Finishes a window whose panes have been configured: window options, layout preset, focus.
fn finish_window<B: TmuxBackend>(
    backend: &mut B,
    name: &TmuxName,
    window: &Window,
    plan: &LayoutPlan,
    panes: &Vec<PaneId>,
    focus: Option<usize>,
) -> (r: Result<(), Error>)
    requires
        match focus {
            Some(i) => layout_plan::focused(plan@.leaves) == Some(i as int) && i < panes@.len(),
            None => layout_plan::focused(plan@.leaves) is None,
        },
    ensures
        protocol::extends(final(backend).history(), old(backend).history()),
        backend::follows(*old(backend), *final(backend)),
        forall|h: Seq<Event>| #[trigger]
            protocol::extends(h, final(backend).history()) ==> protocol::finish_window(
                h,
                old(backend).history().len() as int,
                name@,
                *window,
                plan@.leaves,
                pane_texts(panes@),
            ) == Some((final(backend).history().len() as int, backend::done(r))),
{
    let ghost h0 = backend.history();
    set_window_options(backend, name, &window.name, &window.options)?;
    let ghost h1 = backend.history();
    if let Some(preset) = &window.select_layout {
        let ghost asked = *backend;
        let r = backend.select_layout(name, &window.name, preset);
        proof {
            backend::lemma_follows_request(asked, *backend);
        }
        assert forall|h: Seq<Event>| #[trigger]
            protocol::extends(h, backend.history()) implies protocol::ask_if(
            h,
            h1.len() as int,
            protocol::preset_call(name@, *window),
        ) == Some((backend.history().len() as int, backend::done(r))) && protocol::extends(
            h,
            h1,
        ) by {
            lemma_extends(h, backend.history(), h1);
            assert(h[h1.len() as int] == backend.history()[h1.len() as int]);
        }
        r?;
    }
    let ghost h2 = backend.history();
    if let Some(i) = focus {
        let ghost asked = *backend;
        let r = backend.select_pane(&panes[i]);
        proof {
            backend::lemma_follows_request(asked, *backend);
        }
        assert(pane_texts(panes@)[i as int] == panes@[i as int]@);
        assert forall|h: Seq<Event>| #[trigger]
            protocol::extends(h, backend.history()) implies protocol::finish_window(
            h,
            h0.len() as int,
            name@,
            *window,
            plan@.leaves,
            pane_texts(panes@),
        ) == Some((backend.history().len() as int, backend::done(r))) by {
            lemma_extends(h, backend.history(), h2);
            lemma_extends(h, h2, h1);
            assert(h[h2.len() as int] == backend.history()[h2.len() as int]);
        }
        r?;
    }
    Ok(())
}

/// Configures a window from its initial pane on: builds all its panes, then configures each.
fn configure_window<B: TmuxBackend>(
    backend: &mut B,
    session: &Session,
    name: &TmuxName,
    index: usize,
    plan: &LayoutPlan,
    root: &ResolvedTmuxArg,
    env: &[EnvVar],
    initial: PaneId,
) -> (r: Result<(), Error>)
    requires
        index < session.windows@.len(),
        plan@ == layout_plan::plan_of(session.windows@[index as int].layout, session.vars),
        model::env_views(env@) == model::pane_env(*session, session.windows@[index as int]),
    ensures
        protocol::extends(final(backend).history(), old(backend).history()),
        backend::follows(*old(backend), *final(backend)),
        forall|h: Seq<Event>| #[trigger]
            protocol::extends(h, final(backend).history()) ==> protocol::configure_window(
                h,
                old(backend).history().len() as int,
                *session,
                name@,
                index as int,
                root@,
                initial@,
            ) == Some((final(backend).history().len() as int, backend::done(r))),
{
    let window = &session.windows[index];
    let ghost h0 = backend.history();
    let ghost p = h0.len() as int;
    if index == 0 {
        set_options(backend, name, &session.options)?;
    }
    let ghost h1 = backend.history();
    assert forall|h: Seq<Event>| #[trigger]
        protocol::extends(h, h1) implies protocol::set_options(
        h,
        p,
        name@,
        protocol::options_with(*session, index as int),
    ) == protocol::nothing(h1.len() as int) by {}
    // Phase 1: build the panes.
    let built = make_splits(backend, plan, initial, root, env);
    let ghost h2 = backend.history();
    assert forall|h: Seq<Event>| #[trigger] protocol::extends(h, h2) implies protocol::extends(
        h,
        h1,
    ) by {
        lemma_extends(h, h2, h1);
    }
    proof {
        lemma_extends(h2, h1, h0);
    }
    let panes = built?;
    // Phase 2: type commands and configure the panes.
    let configured = configure_leaves(backend, plan, &panes);
    let ghost h3 = backend.history();
    assert forall|h: Seq<Event>| #[trigger] protocol::extends(h, h3) implies protocol::extends(
        h,
        h2,
    ) by {
        lemma_extends(h, h3, h2);
    }
    proof {
        lemma_extends(h3, h2, h0);
    }
    let focus = configured?;
    let r = finish_window(backend, name, window, plan, &panes, focus);
    let ghost h4 = backend.history();
    assert forall|h: Seq<Event>| #[trigger] protocol::extends(h, h4) implies protocol::extends(
        h,
        h3,
    ) by {
        lemma_extends(h, h4, h3);
    }
    proof {
        lemma_extends(h4, h3, h0);
    }
    r
}

// ─── Creating a session ──────────────────────────────────────────────────────

/// Ends a session that could not be completed because of `cause`, and gives back the error that
/// says so.
fn rollback_session<B: TmuxBackend>(backend: &mut B, name: &TmuxName, cause: Error) -> (r: Error)
    ensures
        protocol::extends(final(backend).history(), old(backend).history()),
        backend::follows(*old(backend), *final(backend)),
        forall|h: Seq<Event>| #[trigger]
            protocol::extends(h, final(backend).history()) ==> protocol::roll_back(
                h,
                old(backend).history().len() as int,
                name@,
                cause@,
            ) == Some((final(backend).history().len() as int, Err::<Text, Seq<Text>>(r@))),
{
    let ghost p = backend.history().len() as int;
    let shown = text::debug_string(name.as_str());
    let message = cause.to_string();
    let ghost asked = *backend;
    let killed = backend.kill_session(name);
    proof {
        backend::lemma_follows_request(asked, *backend);
    }
    assert forall|h: Seq<Event>| #[trigger] protocol::extends(h, backend.history()) implies h[p]
        == backend.history()[p] by {}
    match killed {
        Ok(()) => cause.context(
            "rolled back partially created tmux session ".to_owned().concat(shown.as_str()).concat(
                " after error: ",
            ).concat(message.as_str()),
        ),
        Err(e) => cause.context(
            "failed to roll back partially created tmux session ".to_owned().concat(
                shown.as_str(),
            ).concat(" after error: ").concat(message.as_str()).concat(": ").concat(
                e.to_string().as_str(),
            ),
        ),
    }
}

/// Creates the window at `index`, with the session if it is the first one.
fn create_window<B: TmuxBackend>(
    backend: &mut B,
    session: &Session,
    name: &TmuxName,
    index: usize,
) -> (r: Result<(), Error>)
    requires
        index < session.windows@.len(),
        model::layout_depth(session.windows@[index as int].layout) <= MAX_LAYOUT_DEPTH,
    ensures
        protocol::extends(final(backend).history(), old(backend).history()),
        backend::follows(*old(backend), *final(backend)),
        forall|h: Seq<Event>| #[trigger]
            protocol::extends(h, final(backend).history()) ==> protocol::create_window(
                h,
                old(backend).history().len() as int,
                *session,
                name@,
                index as int,
            ) == Some((final(backend).history().len() as int, backend::done(r))),
{
    let window = &session.windows[index];
    let ghost h0 = backend.history();
    let root = working_dir(backend, session, window)?;
    let ghost h1 = backend.history();
    let env = model::effective_window_env(session, window);
    let plan = LayoutPlan::build(&window.layout, &session.vars)?;
    let ghost asked = *backend;
    let created = if index == 0 {
        backend.new_session_with_env(name, &root, &window.name, env.as_slice())
    } else {
        backend.new_window_with_env(name, &window.name, &root, env.as_slice())
    };
    proof {
        backend::lemma_follows_request(asked, *backend);
    }
    let ghost h2 = backend.history();
    assert forall|h: Seq<Event>| #[trigger] protocol::extends(h, h2) implies protocol::extends(
        h,
        h1,
    ) && h[h1.len() as int] == h2[h1.len() as int] by {
        lemma_extends(h, h2, h1);
    }
    proof {
        lemma_extends(h2, h1, h0);
    }
    let initial = created?;
    let configured = configure_window(
        backend,
        session,
        name,
        index,
        &plan,
        &root,
        env.as_slice(),
        initial,
    );
    let ghost h3 = backend.history();
    assert forall|h: Seq<Event>| #[trigger] protocol::extends(h, h3) implies protocol::extends(
        h,
        h2,
    ) by {
        lemma_extends(h, h3, h2);
    }
    proof {
        lemma_extends(h3, h2, h0);
    }
    match configured {
        Ok(()) => Ok(()),
        Err(e) => {
            if index == 0 {
                let r = rollback_session(backend, name, e);
                let ghost h4 = backend.history();
                assert forall|h: Seq<Event>| #[trigger]
                    protocol::extends(h, h4) implies protocol::extends(h, h3) by {
                    lemma_extends(h, h4, h3);
                }
                proof {
                    lemma_extends(h4, h3, h0);
                }
                Err(r)
            } else {
                Err(e)
            }
        },
    }
}

/// Creates the session under `name`: runs its hook, then creates its windows.
fn create_session<B: TmuxBackend>(
    backend: &mut B,
    session: &Session,
    name: &TmuxName,
) -> (r: Result<(), Error>)
    requires
        forall|i: int|
            0 <= i < session.windows@.len() ==> model::layout_depth(
                (#[trigger] session.windows@[i]).layout,
            ) <= MAX_LAYOUT_DEPTH,
    ensures
        protocol::extends(final(backend).history(), old(backend).history()),
        backend::follows(*old(backend), *final(backend)),
        forall|h: Seq<Event>| #[trigger]
            protocol::extends(h, final(backend).history()) ==> protocol::create_session(
                h,
                old(backend).history().len() as int,
                *session,
                name@,
            ) == Some((final(backend).history().len() as int, backend::done(r))),
{
    let ghost start = backend.history();
    let ghost p = start.len() as int;
    if let Some(hook) = &session.pre_hook {
        let command = ShellCommand::new(
            template::resolve_vars(hook.as_str(), &session.vars).as_str(),
        )?;
        let ghost asked = *backend;
        let r = backend.run_command(&command);
        proof {
            backend::lemma_follows_request(asked, *backend);
        }
        assert forall|h: Seq<Event>| #[trigger] protocol::extends(h, backend.history()) implies h[p]
            == backend.history()[p] by {}
        r?;
    }
    for index in 0..session.windows.len()
        invariant
            start == old(backend).history(),
            p == start.len(),
            forall|i: int|
                0 <= i < session.windows@.len() ==> model::layout_depth(
                    (#[trigger] session.windows@[i]).layout,
                ) <= MAX_LAYOUT_DEPTH,
            protocol::extends(backend.history(), start),
            backend::follows(*old(backend), *backend),
            forall|h: Seq<Event>| #[trigger]
                protocol::extends(h, backend.history()) ==> protocol::create_session(
                    h,
                    p,
                    *session,
                    name@,
                ) == protocol::create_windows(
                    h,
                    backend.history().len() as int,
                    *session,
                    name@,
                    index as int,
                ),
    {
        let ghost before = backend.history();
        let created = create_window(backend, session, name, index);
        let ghost after = backend.history();
        assert forall|h: Seq<Event>| #[trigger]
            protocol::extends(h, after) implies protocol::extends(h, before) by {
            lemma_extends(h, after, before);
        }
        proof {
            lemma_extends(after, before, start);
        }
        if let Err(e) = created {
            if index > 0 {
                let r = rollback_session(backend, name, e);
                let ghost ended = backend.history();
                assert forall|h: Seq<Event>| #[trigger]
                    protocol::extends(h, ended) implies protocol::extends(h, after) by {
                    lemma_extends(h, ended, after);
                }
                proof {
                    lemma_extends(ended, after, start);
                }
                return Err(r);
            }
            return Err(e);
        }
    }
    Ok(())
}

// ─── Replacing a session ─────────────────────────────────────────────────────

/// A session that exists for the time of a reload.
#[derive(Debug, Clone, Copy, PartialEq, Eq, Structural)]
pub enum ReloadSideSession {
    /// The session that is being built.
    Replacement,
    /// The old session, moved aside.
    Backup,
}

/// The part of the name that tells the two apart.
pub open spec fn side_suffix(side: ReloadSideSession) -> Text {
    match side {
        ReloadSideSession::Replacement => "new"@,
        ReloadSideSession::Backup => "old"@,
    }
}

/// What `{:?}` prints for a side.
pub open spec fn side_shown(side: ReloadSideSession) -> Text {
    match side {
        ReloadSideSession::Replacement => "Replacement"@,
        ReloadSideSession::Backup => "Backup"@,
    }
}

impl ReloadSideSession {
    /// The part of the name that tells the two apart.
    fn suffix(self) -> (r: &'static str)
        ensures
            r@ == side_suffix(self),
    {
        match self {
            ReloadSideSession::Replacement => "new",
            ReloadSideSession::Backup => "old",
        }
    }

    /// What `{:?}` prints.
    fn shown(self) -> (r: &'static str)
        ensures
            r@ == side_shown(self),
    {
        match self {
            ReloadSideSession::Replacement => "Replacement",
            ReloadSideSession::Backup => "Backup",
        }
    }
}

proof fn lemma_name_add(a: Text, b: Text)
    requires
        checks::valid_tmux_name(a),
        checks::valid_tmux_name(b),
    ensures
        checks::valid_tmux_name(a + b),
{
    assert forall|i: int| 0 <= i < (a + b).len() implies !checks::is_separator(
        #[trigger] (a + b)[i],
    ) && !text::is_control((a + b)[i]) by {
        if i < a.len() {
            assert((a + b)[i] == a[i]);
        } else {
            assert((a + b)[i] == b[i - a.len()]);
        }
    }
}

/// What is added to a name for the time of a reload leaves it a name.
proof fn lemma_side_name(name: Text, side: ReloadSideSession, process_id: u32)
    requires
        checks::valid_tmux_name(name),
    ensures
        checks::valid_tmux_name(protocol::side_name(name, side_suffix(side), process_id)),
{
    let number = text::decimal(process_id as nat);
    reveal_strlit("__ntd_reload_");
    reveal_strlit("new");
    reveal_strlit("old");
    reveal_strlit("_");
    text::lemma_decimal_digits(process_id as nat);
    assert(checks::valid_tmux_name(number)) by {
        assert forall|i: int| 0 <= i < number.len() implies !checks::is_separator(
            #[trigger] number[i],
        ) && !text::is_control(number[i]) by {
            assert(text::is_digit(number[i]));
        }
    }
    let a = name + "__ntd_reload_"@;
    let b = a + side_suffix(side);
    let c = b + "_"@;
    lemma_name_add(name, "__ntd_reload_"@);
    lemma_name_add(a, side_suffix(side));
    lemma_name_add(b, "_"@);
    lemma_name_add(c, number);
}

/// The name of a session that exists for the time of a reload.
pub fn reload_side_session_name(
    session_name: &TmuxName,
    side: ReloadSideSession,
    process_id: u32,
) -> (r: Result<TmuxName, Error>)
    ensures
        r matches Ok(name) && name@ == protocol::side_name(
            session_name@,
            side_suffix(side),
            process_id,
        ),
{
    let name = session_name.as_str().to_owned().concat("__ntd_reload_").concat(
        side.suffix(),
    ).concat("_").concat(text::decimal_string(process_id as u64).as_str());
    proof {
        lemma_side_name(session_name@, side, process_id);
    }
    match TmuxName::new(name.as_str()) {
        Ok(name) => Ok(name),
        Err(e) => Err(
            e.context(
                "failed to derive ".to_owned().concat(side.shown()).concat(
                    " reload tmux session name from ",
                ).concat(text::debug_string(session_name.as_str()).as_str()),
            ),
        ),
    }
}

/// Puts the replacement, which has been built, in the place of the session that runs.
fn swap_in<B: TmuxBackend>(
    backend: &mut B,
    name: &TmuxName,
    replacement: &TmuxName,
    backup: &TmuxName,
    Ghost(process_id): Ghost<u32>,
) -> (r: Result<(), Error>)
    requires
        replacement@ == protocol::replacement_name(name@, process_id),
        backup@ == protocol::backup_name(name@, process_id),
    ensures
        protocol::extends(final(backend).history(), old(backend).history()),
        backend::follows(*old(backend), *final(backend)),
        forall|h: Seq<Event>| #[trigger]
            protocol::extends(h, final(backend).history()) ==> protocol::swap_in(
                h,
                old(backend).history().len() as int,
                name@,
                process_id,
            ) == Some((final(backend).history().len() as int, backend::done(r))),
{
    let ghost p = backend.history().len() as int;
    let ghost asked = *backend;
    let moved = backend.rename_session(name, backup);
    proof {
        backend::lemma_follows_request(asked, *backend);
    }
    if let Err(e) = moved {
        let ghost asked = *backend;
        let _ = backend.kill_session(replacement);
        proof {
            backend::lemma_follows_request(asked, *backend);
        }
        assert forall|h: Seq<Event>| #[trigger] protocol::extends(h, backend.history()) implies h[p]
            == backend.history()[p] && h[p + 1] == backend.history()[p + 1] by {}
        return Err(
            e.context(
                "failed to move existing tmux session ".to_owned().concat(
                    name.debug_string().as_str(),
                ).concat(" aside"),
            ),
        );
    }
    let ghost asked = *backend;
    let moved = backend.rename_session(replacement, name);
    proof {
        backend::lemma_follows_request(asked, *backend);
    }
    if let Err(e) = moved {
        let ghost asked = *backend;
        let restored = backend.rename_session(backup, name);
        proof {
            backend::lemma_follows_request(asked, *backend);
        }
        let ghost asked = *backend;
        let removed = backend.kill_session(replacement);
        proof {
            backend::lemma_follows_request(asked, *backend);
        }
        assert forall|h: Seq<Event>| #[trigger] protocol::extends(h, backend.history()) implies h[p]
            == backend.history()[p] && h[p + 1] == backend.history()[p + 1] && h[p + 2]
            == backend.history()[p + 2] && h[p + 3] == backend.history()[p + 3] by {}
        let mut message = "failed to promote replacement tmux session ".to_owned().concat(
            text::debug_string(replacement.as_str()).as_str(),
        ).concat(" to ").concat(text::debug_string(name.as_str()).as_str());
        if let Err(restore_error) = restored {
            message = message.concat("; also failed to restore original session from ").concat(
                text::debug_string(backup.as_str()).as_str(),
            ).concat(": ").concat(restore_error.to_string().as_str());
        }
        if let Err(cleanup_error) = removed {
            message = message.concat("; also failed to remove replacement session ").concat(
                text::debug_string(replacement.as_str()).as_str(),
            ).concat(": ").concat(cleanup_error.to_string().as_str());
        }
        return Err(e.context(message));
    }
    let ghost asked = *backend;
    let removed = backend.kill_session(backup);
    proof {
        backend::lemma_follows_request(asked, *backend);
    }
    assert forall|h: Seq<Event>| #[trigger] protocol::extends(h, backend.history()) implies h[p]
        == backend.history()[p] && h[p + 1] == backend.history()[p + 1] && h[p + 2]
        == backend.history()[p + 2] by {}
    match removed {
        Ok(()) => Ok(()),
        Err(e) => Err(
            e.context(
                "replacement tmux session ".to_owned().concat(
                    text::debug_string(name.as_str()).as_str(),
                ).concat(" is active, but failed to remove backup session ").concat(
                    text::debug_string(backup.as_str()).as_str(),
                ),
            ),
        ),
    }
}

/// Replaces a session that runs: builds the replacement under a name of its own, then puts it in
/// the place of the old session.
fn replace_existing_session<B: TmuxBackend>(
    backend: &mut B,
    session: &Session,
    process_id: u32,
) -> (r: Result<(), Error>)
    requires
        forall|i: int|
            0 <= i < session.windows@.len() ==> model::layout_depth(
                (#[trigger] session.windows@[i]).layout,
            ) <= MAX_LAYOUT_DEPTH,
    ensures
        protocol::extends(final(backend).history(), old(backend).history()),
        backend::follows(*old(backend), *final(backend)),
        forall|h: Seq<Event>| #[trigger]
            protocol::extends(h, final(backend).history()) ==> protocol::replace_session(
                h,
                old(backend).history().len() as int,
                *session,
                process_id,
            ) == Some((final(backend).history().len() as int, backend::done(r))),
{
    let ghost h0 = backend.history();
    let replacement = reload_side_session_name(
        &session.name,
        ReloadSideSession::Replacement,
        process_id,
    )?;
    let backup = reload_side_session_name(&session.name, ReloadSideSession::Backup, process_id)?;
    if let Err(e) = create_session(backend, session, &replacement) {
        return Err(
            e.context(
                "failed to build replacement tmux session ".to_owned().concat(
                    text::debug_string(replacement.as_str()).as_str(),
                ),
            ),
        );
    }
    let ghost h1 = backend.history();
    let r = swap_in(backend, &session.name, &replacement, &backup, Ghost(process_id));
    let ghost h2 = backend.history();
    assert forall|h: Seq<Event>| #[trigger] protocol::extends(h, h2) implies protocol::extends(
        h,
        h1,
    ) by {
        lemma_extends(h, h2, h1);
    }
    proof {
        lemma_extends(h2, h1, h0);
    }
    r
}

// ─── Executor ────────────────────────────────────────────────────────────────

/// Builds sessions through a backend.
pub struct Executor<'a, B: TmuxBackend> {
    pub backend: &'a mut B,
    /// The id of this process, which goes into the names of sessions that exist for the time of a
    /// reload.
    pub process_id: u32,
}

/// Makes the first window of a session that runs the current one, and hands the terminal over.
fn enter_session<B: TmuxBackend>(backend: &mut B, session: &Session) -> (r: Result<(), Error>)
    requires
        session.windows@.len() > 0,
    ensures
        protocol::extends(final(backend).history(), old(backend).history()),
        backend::follows(*old(backend), *final(backend)),
        forall|h: Seq<Event>| #[trigger]
            protocol::extends(h, final(backend).history()) ==> protocol::enter_session(
                h,
                old(backend).history().len() as int,
                *session,
            ) == Some((final(backend).history().len() as int, backend::done(r))),
{
    let ghost p = backend.history().len() as int;
    let ghost asked = *backend;
    let selected = backend.select_window(&session.name, &session.windows[0].name);
    proof {
        backend::lemma_follows_request(asked, *backend);
    }
    assert forall|h: Seq<Event>| #[trigger] protocol::extends(h, backend.history()) implies h[p]
        == backend.history()[p] by {}
    selected?;
    let ghost asked = *backend;
    let r = backend.attach_or_switch(&session.name);
    proof {
        backend::lemma_follows_request(asked, *backend);
    }
    assert forall|h: Seq<Event>| #[trigger] protocol::extends(h, backend.history()) implies h[p]
        == backend.history()[p] && h[p + 1] == backend.history()[p + 1] by {}
    r
}

impl<'a, B: TmuxBackend> Executor<'a, B> {
    /// An executor that works through `backend`.
    pub fn new(backend: &'a mut B, process_id: u32) -> (r: Executor<'a, B>)
        ensures
            *r.backend == *old(backend),
            *final(r.backend) == *final(backend),
            r.process_id == process_id,
    {
        Executor { backend, process_id }
    }

    /// Runs a session: enters the one of that name if it exists, else creates it first. What has
    /// been asked of the backend, and what comes back, is what [`protocol::run_session`] says.
    pub fn run(&mut self, session: &Session) -> (r: Result<(), Error>)
        ensures
            protocol::extends(final(self).backend.history(), old(self).backend.history()),
            backend::follows(*old(self).backend, *final(self).backend),
            protocol::run_session(
                final(self).backend.history(),
                old(self).backend.history().len() as int,
                *session,
            ) == Some((final(self).backend.history().len() as int, backend::done(r))),
            *final(final(self).backend) == *final(old(self).backend),
            final(self).process_id == old(self).process_id,
    {
        let ghost h0 = self.backend.history();
        session.validate()?;
        proof {
            validate::lemma_valid_windows(*session);
        }
        let ghost asked = *self.backend;
        let exists: bool = self.backend.has_session(&session.name);
        proof {
            backend::lemma_follows_request(asked, *self.backend);
        }
        let ghost h1 = self.backend.history();
        assert(h1[h0.len() as int] == h1.last());
        if exists {
            let ghost entered = *self.backend;
            let r = self.backend.attach_or_switch(&session.name);
            proof {
                backend::lemma_follows_request(entered, *self.backend);
            }
            return r;
        }
        let created = create_session(self.backend, session, &session.name);
        let ghost h2 = self.backend.history();
        proof {
            assert(protocol::extends(h2, h2));
            lemma_extends(h2, h1, h0);
        }
        created?;
        let r = enter_session(self.backend, session);
        proof {
            let h3 = self.backend.history();
            assert(protocol::extends(h3, h3));
            lemma_extends(h3, h2, h1);
            lemma_extends(h3, h1, h0);
        }
        r
    }

    /// Reloads a session: replaces the one of that name if it exists, else creates it. What has
    /// been asked of the backend, and what comes back, is what [`protocol::reload_session`] says.
    pub fn reload(&mut self, session: &Session) -> (r: Result<(), Error>)
        ensures
            protocol::extends(final(self).backend.history(), old(self).backend.history()),
            backend::follows(*old(self).backend, *final(self).backend),
            protocol::reload_session(
                final(self).backend.history(),
                old(self).backend.history().len() as int,
                *session,
                old(self).process_id,
            ) == Some((final(self).backend.history().len() as int, backend::done(r))),
            *final(final(self).backend) == *final(old(self).backend),
            final(self).process_id == old(self).process_id,
    {
        let ghost h0 = self.backend.history();
        session.validate()?;
        proof {
            validate::lemma_valid_windows(*session);
        }
        let ghost asked = *self.backend;
        let exists: bool = self.backend.has_session(&session.name);
        proof {
            backend::lemma_follows_request(asked, *self.backend);
        }
        let ghost h1 = self.backend.history();
        assert(h1[h0.len() as int] == h1.last());
        let built = if exists {
            replace_existing_session(self.backend, session, self.process_id)
        } else {
            create_session(self.backend, session, &session.name)
        };
        let ghost h2 = self.backend.history();
        proof {
            assert(protocol::extends(h2, h2));
            lemma_extends(h2, h1, h0);
        }
        built?;
        let r = enter_session(self.backend, session);
        proof {
            let h3 = self.backend.history();
            assert(protocol::extends(h3, h3));
            lemma_extends(h3, h2, h1);
            lemma_extends(h3, h1, h0);
        }
        r
    }
}

} // verus!
