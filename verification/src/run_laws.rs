//! What holds of a whole run or reload, over all windows.

use crate::agreement;
use crate::backend;
use crate::backend::{Call, Event, Reply};
use crate::checks;
use crate::compiler;
use crate::compiler_laws;
use crate::layout_plan;
use crate::layout_plan::{LeafStep, SplitStep};
use crate::model;
use crate::model::{LayoutNode, Session, Window};
use crate::ordered_map::TemplateVars;
use crate::protocol;
use crate::recording;
use crate::recording::Answers;
use crate::template;
use crate::template::{BuiltinVar, Part};
use crate::text;
use crate::text::Text;
use crate::validate;
use crate::words::{TmuxOptionName, TmuxOptionValue};
use vstd::prelude::*;

verus! {

// ─── Requests ────────────────────────────────────────────────────────────────

/// The requests that build the windows from `index` on: for each window, in order, those of the
/// steps of its plan.
pub open spec fn windows_calls(
    h: Seq<Event>,
    p: int,
    session: Session,
    name: Text,
    index: int,
) -> Seq<Call>
    decreases session.windows@.len() - index,
{
    if index < 0 || index >= session.windows@.len() {
        Seq::empty()
    } else {
        agreement::steps_calls(
            agreement::window_context(h, p, session, name, index),
            agreement::window_steps(session, index),
        ) + windows_calls(
            h,
            protocol::end(protocol::create_window(h, p, session, name, index)),
            session,
            name,
            index + 1,
        )
    }
}

/// The request that runs the hook, if there is one.
pub open spec fn hook_calls(session: Session) -> Seq<Call> {
    match protocol::hook_call(session) {
        Some(call) => seq![call],
        None => Seq::empty(),
    }
}

/// The requests that create a session: its hook, then its windows.
pub open spec fn creation_calls(h: Seq<Event>, p: int, session: Session, name: Text) -> Seq<Call> {
    hook_calls(session) + windows_calls(
        h,
        p + hook_calls(session).len(),
        session,
        name,
        0,
    )
}

/// The requests that enter a session.
pub open spec fn entry_calls(session: Session) -> Seq<Call> {
    seq![
        Call::SelectWindow { session: session.name@, window: session.windows@[0].name@ },
        Call::AttachOrSwitch { session: session.name@ },
    ]
}

proof fn lemma_windows_calls(h: Seq<Event>, p: int, session: Session, name: Text, index: int)
    requires
        0 <= p <= h.len(),
        0 <= index,
        protocol::create_windows(h, p, session, name, index) matches Some((_, Ok(_))),
    ensures
        p <= protocol::end(protocol::create_windows(h, p, session, name, index)) <= h.len(),
        agreement::changing_calls(
            h,
            p,
            protocol::end(protocol::create_windows(h, p, session, name, index)),
        ) == windows_calls(h, p, session, name, index),
    decreases session.windows@.len() - index,
{
    if index < session.windows@.len() {
        let q = protocol::end(protocol::create_window(h, p, session, name, index));
        let end = protocol::end(protocol::create_windows(h, p, session, name, index));
        agreement::law_requests_are_the_steps(h, p, session, name, index);
        lemma_windows_calls(h, q, session, name, index + 1);
        agreement::lemma_calls_add(h, p, q, end);
    }
}

/// What is asked for a session that is created successfully, as far as it changes anything, is its
/// hook and then, for all its windows in order, the requests of the steps of their plans.
pub proof fn law_creation_requests_are_the_plans(
    h: Seq<Event>,
    p: int,
    session: Session,
    name: Text,
)
    requires
        0 <= p <= h.len(),
        protocol::create_session(h, p, session, name) matches Some((_, Ok(_))),
    ensures
        p <= protocol::end(protocol::create_session(h, p, session, name)) <= h.len(),
        agreement::changing_calls(
            h,
            p,
            protocol::end(protocol::create_session(h, p, session, name)),
        ) == creation_calls(h, p, session, name),
{
    let q = p + hook_calls(session).len();
    let end = protocol::end(protocol::create_session(h, p, session, name));
    if session.pre_hook is Some {
        agreement::lemma_calls_one(h, p);
    }
    lemma_windows_calls(h, q, session, name, 0);
    agreement::lemma_calls_add(h, p, q, end);
}

proof fn lemma_entry_calls(h: Seq<Event>, p: int, session: Session)
    requires
        0 <= p <= h.len(),
        protocol::enter_session(h, p, session) matches Some((_, Ok(_))),
    ensures
        protocol::end(protocol::enter_session(h, p, session)) == p + 2,
        p + 2 <= h.len(),
        agreement::changing_calls(h, p, p + 2) == entry_calls(session),
{
    agreement::lemma_calls_one(h, p);
    agreement::lemma_calls_one(h, p + 1);
    agreement::lemma_calls_add(h, p, p + 1, p + 2);
}

/// A run that succeeds where no session exists asks whether it does, creates the session as its
/// plans say, and enters it.
pub proof fn law_run_requests_are_the_plans(h: Seq<Event>, p: int, session: Session)
    requires
        0 <= p < h.len(),
        validate::session_error(session) is None,
        protocol::run_session(h, p, session) matches Some((_, Ok(_))),
        h[p].reply == Reply::Answer(false),
    ensures
        agreement::changing_calls(h, p, protocol::end(protocol::run_session(h, p, session)))
            == seq![Call::HasSession { name: session.name@ }] + creation_calls(
            h,
            p + 1,
            session,
            session.name@,
        ) + entry_calls(session),
{
    let q = protocol::end(protocol::create_session(h, p + 1, session, session.name@));
    let end = protocol::end(protocol::run_session(h, p, session));
    agreement::lemma_calls_one(h, p);
    law_creation_requests_are_the_plans(h, p + 1, session, session.name@);
    lemma_entry_calls(h, q, session);
    agreement::lemma_calls_add(h, p, p + 1, q);
    agreement::lemma_calls_add(h, p, q, end);
}

/// A reload that succeeds where no session exists asks the same as a run.
pub proof fn law_reload_of_no_session_is_a_run(
    h: Seq<Event>,
    p: int,
    session: Session,
    process_id: u32,
)
    requires
        0 <= p < h.len(),
        h[p].reply == Reply::Answer(false),
    ensures
        protocol::reload_session(h, p, session, process_id) == protocol::run_session(
            h,
            p,
            session,
        ),
{
}

/// A reload that succeeds where the session exists creates the replacement as its plans say, puts
/// it in the place of the old session, and enters it.
pub proof fn law_reload_requests_are_the_plans(
    h: Seq<Event>,
    p: int,
    session: Session,
    process_id: u32,
)
    requires
        0 <= p < h.len(),
        validate::session_error(session) is None,
        protocol::reload_session(h, p, session, process_id) matches Some((_, Ok(_))),
        h[p].reply == Reply::Answer(true),
    ensures
        ({
            let name = session.name@;
            let replacement = protocol::replacement_name(name, process_id);
            let backup = protocol::backup_name(name, process_id);
            agreement::changing_calls(
                h,
                p,
                protocol::end(protocol::reload_session(h, p, session, process_id)),
            ) == seq![Call::HasSession { name }] + creation_calls(h, p + 1, session, replacement)
                + seq![
                Call::RenameSession { from: name, to: backup },
                Call::RenameSession { from: replacement, to: name },
                Call::KillSession { name: backup },
            ] + entry_calls(session)
        }),
{
    let replacement = protocol::replacement_name(session.name@, process_id);
    let q = protocol::end(protocol::create_session(h, p + 1, session, replacement));
    let end = protocol::end(protocol::reload_session(h, p, session, process_id));
    agreement::lemma_calls_one(h, p);
    law_creation_requests_are_the_plans(h, p + 1, session, replacement);
    agreement::lemma_calls_one(h, q);
    agreement::lemma_calls_one(h, q + 1);
    agreement::lemma_calls_one(h, q + 2);
    agreement::lemma_calls_add(h, q, q + 1, q + 2);
    agreement::lemma_calls_add(h, q, q + 2, q + 3);
    lemma_entry_calls(h, q + 3, session);
    agreement::lemma_calls_add(h, p, p + 1, q);
    agreement::lemma_calls_add(h, p, q, q + 3);
    agreement::lemma_calls_add(h, p, q + 3, end);
}

// ─── Success ─────────────────────────────────────────────────────────────────

/// From `p` on no request fails, and no value of a built-in variable holds a NUL character.
pub open spec fn all_succeed(h: Seq<Event>, p: int) -> bool {
    forall|i: int|
        p <= i < h.len() ==> backend::succeeds((#[trigger] h[i]).reply) && (h[i].call is BuiltinValue
            ==> checks::no_nul(backend::reply_text(h[i].reply)))
}

/// Some pane of the session waits for the pattern.
pub open spec fn awaited(session: Session, pattern: Text) -> bool {
    exists|w: int, i: int|
        #![trigger layout_plan::plan_of(session.windows@[w].layout, session.vars).leaves[i]]
        0 <= w < session.windows@.len() && 0 <= i < layout_plan::plan_of(
            session.windows@[w].layout,
            session.vars,
        ).leaves.len() && (layout_plan::plan_of(
            session.windows@[w].layout,
            session.vars,
        ).leaves[i].wait_for matches Some((awaited_one, _)) && awaited_one == pattern)
}

/// Whenever a pane is looked at from `p` on, the patterns that the session waits for are there.
pub open spec fn patterns_seen(h: Seq<Event>, p: int, session: Session) -> bool {
    forall|i: int, pattern: Text|
        #![trigger h[i], awaited(session, pattern)]
        p <= i < h.len() && h[i].call is CapturePane && awaited(session, pattern) ==> text::occurs(
            backend::reply_text(h[i].reply),
            pattern,
        )
}

/// Where no pane waits, there is no pattern to be seen.
pub proof fn law_no_pattern_where_no_pane_waits(h: Seq<Event>, p: int, session: Session)
    requires
        !compiler::session_waits(session),
    ensures
        patterns_seen(h, p, session),
{
    compiler_laws::law_wait_helper_is_there_when_needed(session);
    assert forall|pattern: Text| !awaited(session, pattern) by {}
}

/// An exchange that starts at `p` and succeeds.
spec fn goes_well<T>(h: Seq<Event>, p: int, x: protocol::Exchange<T>) -> bool {
    x matches Some((q, Ok(_))) && p <= q <= h.len()
}

proof fn lemma_values_succeed(h: Seq<Event>, p: int, vars: Seq<BuiltinVar>, known: Seq<Text>)
    requires
        0 <= p <= h.len(),
        all_succeed(h, p),
        protocol::builtin_values(h, p, vars, known) is Some,
        forall|k: int| 0 <= k < known.len() ==> checks::no_nul(#[trigger] known[k]),
    ensures
        goes_well(h, p, protocol::builtin_values(h, p, vars, known)),
        protocol::value(protocol::builtin_values(h, p, vars, known)).len() == known.len()
            + vars.len(),
        forall|k: int|
            0 <= k < known.len() + vars.len() ==> checks::no_nul(
                #[trigger] protocol::value(protocol::builtin_values(h, p, vars, known))[k],
            ),
    decreases vars.len(),
{
    if vars.len() > 0 {
        assert(backend::succeeds(h[p].reply));
        let value = backend::reply_text(h[p].reply);
        lemma_values_succeed(h, p + 1, vars.skip(1), known.push(value));
    }
}

/// Parts and answers without NUL make an argument without NUL.
proof fn lemma_filled_no_nul(list: Seq<Part>, answers: Seq<Text>)
    requires
        template::clean(list),
        template::requests(list).len() <= answers.len(),
        forall|k: int| 0 <= k < answers.len() ==> checks::no_nul(#[trigger] answers[k]),
    ensures
        checks::no_nul(template::filled(list, answers)),
    decreases list.len(),
{
    if list.len() > 0 {
        let front = list.drop_last();
        assert(template::clean_part(list.last()));
        lemma_filled_no_nul(front, answers);
        let last = match list.last() {
            Part::Fixed(t) => t,
            Part::Builtin(_) => answers[template::requests(front).len() as int],
        };
        checks::lemma_no_nul_add(template::filled(front, answers), last);
    }
}

proof fn lemma_working_dir_succeeds(h: Seq<Event>, p: int, session: Session, index: int)
    requires
        0 <= p <= h.len(),
        all_succeed(h, p),
        session.wf(),
        0 <= index < session.windows@.len(),
        protocol::working_dir(h, p, session, session.windows@[index]) is Some,
    ensures
        goes_well(h, p, protocol::working_dir(h, p, session, session.windows@[index])),
{
    let window = session.windows@[index];
    assert(window.wf());
    let root = model::root_text(session, window);
    let parts = template::parts(root, session.vars);
    assert(checks::no_nul(root)) by {
        reveal_strlit("~");
    }
    compiler_laws::lemma_parts_clean(root, session.vars);
    lemma_values_succeed(h, p, template::requests(parts), Seq::empty());
    lemma_filled_no_nul(
        parts,
        protocol::value(
            protocol::builtin_values(h, p, template::requests(parts), Seq::empty()),
        ),
    );
}

proof fn lemma_options_succeed(
    h: Seq<Event>,
    p: int,
    name: Text,
    entries: Seq<(TmuxOptionName, TmuxOptionValue)>,
)
    requires
        0 <= p <= h.len(),
        all_succeed(h, p),
        protocol::set_options(h, p, name, entries) is Some,
    ensures
        goes_well(h, p, protocol::set_options(h, p, name, entries)),
    decreases entries.len(),
{
    if entries.len() > 0 {
        assert(backend::succeeds(h[p].reply));
        lemma_options_succeed(h, p + 1, name, entries.skip(1));
    }
}

proof fn lemma_window_options_succeed(
    h: Seq<Event>,
    p: int,
    name: Text,
    window: Text,
    entries: Seq<(TmuxOptionName, TmuxOptionValue)>,
)
    requires
        0 <= p <= h.len(),
        all_succeed(h, p),
        protocol::set_window_options(h, p, name, window, entries) is Some,
    ensures
        goes_well(h, p, protocol::set_window_options(h, p, name, window, entries)),
    decreases entries.len(),
{
    if entries.len() > 0 {
        assert(backend::succeeds(h[p].reply));
        lemma_window_options_succeed(h, p + 1, name, window, entries.skip(1));
    }
}

proof fn lemma_splits_succeed(
    h: Seq<Event>,
    p: int,
    splits: Seq<SplitStep>,
    panes: Seq<Text>,
    root: Text,
    env: Seq<(Text, Text)>,
)
    requires
        0 <= p <= h.len(),
        all_succeed(h, p),
        protocol::make_splits(h, p, splits, panes, root, env) is Some,
    ensures
        goes_well(h, p, protocol::make_splits(h, p, splits, panes, root, env)),
    decreases splits.len(),
{
    if splits.len() > 0 {
        assert(backend::succeeds(h[p].reply));
        let pane = backend::reply_text(h[p].reply);
        lemma_splits_succeed(h, p + 1, splits.skip(1), panes.push(pane), root, env);
    }
}

proof fn lemma_ask_succeeds(h: Seq<Event>, p: int, call: Option<Call>)
    requires
        0 <= p <= h.len(),
        all_succeed(h, p),
        protocol::ask_if(h, p, call) is Some,
    ensures
        goes_well(h, p, protocol::ask_if(h, p, call)),
{
    if call is Some {
        assert(backend::succeeds(h[p].reply));
    }
}

/// The timeouts of leaves are at least a second.
proof fn lemma_leaf_timeouts(node: LayoutNode, current: int, next: int, vars: TemplateVars)
    requires
        node.wf(),
    ensures
        forall|i: int|
            0 <= i < layout_plan::leaves_of(node, current, next, vars).len() ==> ((
            #[trigger] layout_plan::leaves_of(node, current, next, vars)[i]).wait_for matches Some(
                (_, timeout),
            ) ==> timeout >= 1),
    decreases node,
{
    if let LayoutNode::Split { direction, ratio, first, second } = node {
        let c = layout_plan::split_count(*first);
        lemma_leaf_timeouts(*first, current, next + 1, vars);
        lemma_leaf_timeouts(*second, next, next + 1 + c, vars);
    }
}

/// What a leaf waits for is among the patterns of the session, and it waits for it at least once.
spec fn waits_within(leaf: LeafStep, session: Session) -> bool {
    leaf.wait_for matches Some((pattern, timeout)) ==> timeout >= 1 && awaited(session, pattern)
}

proof fn lemma_leaf_succeeds(h: Seq<Event>, p: int, session: Session, leaf: LeafStep, pane: Text)
    requires
        0 <= p <= h.len(),
        all_succeed(h, p),
        patterns_seen(h, p, session),
        waits_within(leaf, session),
        protocol::configure_leaf(h, p, leaf, pane) is Some,
    ensures
        goes_well(h, p, protocol::configure_leaf(h, p, leaf, pane)),
{
    lemma_ask_succeeds(h, p, protocol::command_call(leaf, pane));
    let q = protocol::end(protocol::ask_if(h, p, protocol::command_call(leaf, pane)));
    if let Some((pattern, timeout)) = leaf.wait_for {
        assert(backend::succeeds(h[q].reply));
        assert(h[q].call is CapturePane);
        assert(awaited(session, pattern));
        assert(protocol::await_if(h, q, pane, leaf.wait_for) == protocol::nothing(q + 1));
        lemma_ask_succeeds(h, q + 1, protocol::title_call(leaf, pane));
    } else {
        lemma_ask_succeeds(h, q, protocol::title_call(leaf, pane));
    }
}

proof fn lemma_leaves_succeed(
    h: Seq<Event>,
    p: int,
    session: Session,
    leaves: Seq<LeafStep>,
    panes: Seq<Text>,
)
    requires
        0 <= p <= h.len(),
        all_succeed(h, p),
        patterns_seen(h, p, session),
        protocol::configure_leaves(h, p, leaves, panes) is Some,
        forall|i: int| 0 <= i < leaves.len() ==> waits_within(#[trigger] leaves[i], session),
    ensures
        goes_well(h, p, protocol::configure_leaves(h, p, leaves, panes)),
    decreases leaves.len(),
{
    if leaves.len() > 0 {
        let pane = panes[leaves[0].pane];
        lemma_leaf_succeeds(h, p, session, leaves[0], pane);
        let q = protocol::end(protocol::configure_leaf(h, p, leaves[0], pane));
        assert forall|i: int| 0 <= i < leaves.skip(1).len() implies waits_within(
            #[trigger] leaves.skip(1)[i],
            session,
        ) by {
            assert(leaves.skip(1)[i] == leaves[i + 1]);
        }
        lemma_leaves_succeed(h, q, session, leaves.skip(1), panes);
    }
}

proof fn lemma_finish_succeeds(
    h: Seq<Event>,
    p: int,
    name: Text,
    window: Window,
    leaves: Seq<LeafStep>,
    panes: Seq<Text>,
)
    requires
        0 <= p <= h.len(),
        all_succeed(h, p),
        protocol::finish_window(h, p, name, window, leaves, panes) is Some,
    ensures
        goes_well(h, p, protocol::finish_window(h, p, name, window, leaves, panes)),
{
    lemma_window_options_succeed(h, p, name, window.name@, window.options@);
    let q = protocol::end(
        protocol::set_window_options(h, p, name, window.name@, window.options@),
    );
    lemma_ask_succeeds(h, q, protocol::preset_call(name, window));
    let q2 = protocol::end(protocol::ask_if(h, q, protocol::preset_call(name, window)));
    lemma_ask_succeeds(h, q2, protocol::focus_call(leaves, panes));
}

/// What the leaves of a window wait for is among the patterns of its session.
proof fn lemma_plan_waits(session: Session, index: int)
    requires
        session.wf(),
        0 <= index < session.windows@.len(),
    ensures
        forall|i: int|
            0 <= i < layout_plan::plan_of(
                session.windows@[index].layout,
                session.vars,
            ).leaves.len() ==> waits_within(
                #[trigger] layout_plan::plan_of(
                    session.windows@[index].layout,
                    session.vars,
                ).leaves[i],
                session,
            ),
{
    assert(session.windows@[index].wf());
    lemma_leaf_timeouts(session.windows@[index].layout, 0, 1, session.vars);
}

proof fn lemma_window_succeeds(h: Seq<Event>, p: int, session: Session, name: Text, index: int)
    requires
        0 <= p <= h.len(),
        all_succeed(h, p),
        session.wf(),
        patterns_seen(h, p, session),
        0 <= index < session.windows@.len(),
        protocol::create_window(h, p, session, name, index) is Some,
    ensures
        goes_well(h, p, protocol::create_window(h, p, session, name, index)),
{
    let window = session.windows@[index];
    let plan = layout_plan::plan_of(window.layout, session.vars);
    let env = model::pane_env(session, window);
    let options = protocol::options_with(session, index);
    lemma_working_dir_succeeds(h, p, session, index);
    let q = protocol::end(protocol::working_dir(h, p, session, window));
    let root = protocol::value(protocol::working_dir(h, p, session, window));
    assert(backend::succeeds(h[q].reply));
    let initial = backend::reply_text(h[q].reply);
    lemma_options_succeed(h, q + 1, name, options);
    let q2 = protocol::end(protocol::set_options(h, q + 1, name, options));
    let split_exchange = protocol::make_splits(h, q2, plan.splits, seq![initial], root, env);
    lemma_splits_succeed(h, q2, plan.splits, seq![initial], root, env);
    let panes = protocol::value(split_exchange);
    let q3 = protocol::end(split_exchange);
    lemma_plan_waits(session, index);
    lemma_leaves_succeed(h, q3, session, plan.leaves, panes);
    let q4 = protocol::end(protocol::configure_leaves(h, q3, plan.leaves, panes));
    lemma_finish_succeeds(h, q4, name, window, plan.leaves, panes);
}

proof fn lemma_windows_succeed(h: Seq<Event>, p: int, session: Session, name: Text, index: int)
    requires
        0 <= p <= h.len(),
        all_succeed(h, p),
        session.wf(),
        patterns_seen(h, p, session),
        0 <= index,
        protocol::create_windows(h, p, session, name, index) is Some,
    ensures
        goes_well(h, p, protocol::create_windows(h, p, session, name, index)),
    decreases session.windows@.len() - index,
{
    if index < session.windows@.len() {
        lemma_window_succeeds(h, p, session, name, index);
        let q = protocol::end(protocol::create_window(h, p, session, name, index));
        lemma_windows_succeed(h, q, session, name, index + 1);
    }
}

proof fn lemma_creation_succeeds(h: Seq<Event>, p: int, session: Session, name: Text)
    requires
        0 <= p <= h.len(),
        all_succeed(h, p),
        session.wf(),
        patterns_seen(h, p, session),
        protocol::create_session(h, p, session, name) is Some,
    ensures
        goes_well(h, p, protocol::create_session(h, p, session, name)),
{
    lemma_ask_succeeds(h, p, protocol::hook_call(session));
    let q = protocol::end(protocol::ask_if(h, p, protocol::hook_call(session)));
    lemma_windows_succeed(h, q, session, name, 0);
}

/// A run succeeds where the session is valid, no request fails and the awaited patterns are seen,
/// as they trivially are where no pane waits. Where no session exists, what it asks is what the
/// plans of all windows say.
pub proof fn law_run_succeeds_where_no_request_fails(h: Seq<Event>, p: int, session: Session)
    requires
        0 <= p < h.len(),
        session.wf(),
        validate::session_error(session) is None,
        all_succeed(h, p),
        patterns_seen(h, p, session),
        protocol::run_session(h, p, session) is Some,
    ensures
        protocol::run_session(h, p, session) matches Some((_, Ok(_))),
        h[p].reply == Reply::Answer(false) ==> agreement::changing_calls(
            h,
            p,
            protocol::end(protocol::run_session(h, p, session)),
        ) == seq![Call::HasSession { name: session.name@ }] + creation_calls(
            h,
            p + 1,
            session,
            session.name@,
        ) + entry_calls(session),
{
    if h[p].reply == Reply::Answer(false) {
        lemma_creation_succeeds(h, p + 1, session, session.name@);
        let q = protocol::end(protocol::create_session(h, p + 1, session, session.name@));
        assert(backend::succeeds(h[q].reply));
        assert(backend::succeeds(h[q + 1].reply));
        law_run_requests_are_the_plans(h, p, session);
    } else {
        assert(backend::succeeds(h[p + 1].reply));
    }
}

/// A reload succeeds where the session is valid, no request fails and the awaited patterns are
/// seen.
pub proof fn law_reload_succeeds_where_no_request_fails(
    h: Seq<Event>,
    p: int,
    session: Session,
    process_id: u32,
)
    requires
        0 <= p < h.len(),
        session.wf(),
        validate::session_error(session) is None,
        all_succeed(h, p),
        patterns_seen(h, p, session),
        protocol::reload_session(h, p, session, process_id) is Some,
    ensures
        protocol::reload_session(h, p, session, process_id) matches Some((_, Ok(_))),
{
    if h[p].reply == Reply::Answer(false) {
        law_reload_of_no_session_is_a_run(h, p, session, process_id);
        law_run_succeeds_where_no_request_fails(h, p, session);
    } else {
        let replacement = protocol::replacement_name(session.name@, process_id);
        lemma_creation_succeeds(h, p + 1, session, replacement);
        let q = protocol::end(protocol::create_session(h, p + 1, session, replacement));
        assert(backend::succeeds(h[q].reply));
        assert(backend::succeeds(h[q + 1].reply));
        assert(backend::succeeds(h[q + 2].reply));
        assert(backend::succeeds(h[q + 3].reply));
        assert(backend::succeeds(h[q + 4].reply));
    }
}

// ─── Recorded runs ───────────────────────────────────────────────────────────

/// No value of a built-in variable holds a NUL character.
pub open spec fn values_clean(a: Answers) -> bool {
    forall|var: BuiltinVar| checks::no_nul(#[trigger] a.builtin(var))
}

/// What the answers of a recording backend give: no failure, values without NUL, panes numbered on
/// from those that have been handed out, and always the same output.
proof fn lemma_given(a: Answers, next: Seq<Event>)
    requires
        values_clean(a),
        a.give(next),
    ensures
        all_succeed(next, 0),
        forall|i: int|
            0 <= i < next.len() && (#[trigger] next[i]).call is CapturePane ==> backend::reply_text(
                next[i].reply,
            ) == a.capture_output,
        backend::created_panes(next) == Seq::new(
            backend::created_panes(next).len(),
            |k: int| recording::nth_pane((a.pane_count + k) as nat),
        ),
    decreases next.len(),
{
    if next.len() > 0 {
        let e = next[0];
        let rest = next.skip(1);
        let b = a.after(e.call);
        assert forall|var: BuiltinVar| checks::no_nul(#[trigger] b.builtin(var)) by {
            assert(b.builtin(var) == a.builtin(var));
        }
        lemma_given(b, rest);
        assert(e.call is BuiltinValue ==> checks::no_nul(a.builtin(e.call->BuiltinValue_var)));
        assert forall|i: int| 0 <= i < next.len() implies backend::succeeds(
            (#[trigger] next[i]).reply,
        ) && (next[i].call is BuiltinValue ==> checks::no_nul(backend::reply_text(next[i].reply)))
            && (next[i].call is CapturePane ==> backend::reply_text(next[i].reply)
            == a.capture_output) by {
            if i > 0 {
                assert(next[i] == rest[i - 1]);
            }
        }
        let n = next.len() as int;
        agreement::lemma_created_add(next, 0, 1, n);
        agreement::lemma_created_one(next, 0);
        assert(next.subrange(0, n) == next);
        assert(next.subrange(1, n) == rest);
        assert(backend::created_panes(next) =~= Seq::new(
            backend::created_panes(next).len(),
            |k: int| recording::nth_pane((a.pane_count + k) as nat),
        ));
    }
}

proof fn lemma_given_from(a: Answers, h: Seq<Event>, p: int, session: Session)
    requires
        0 <= p < h.len(),
        values_clean(a),
        a.give(h.skip(p)),
        forall|pattern: Text| #[trigger]
            awaited(session, pattern) ==> text::occurs(a.capture_output, pattern),
    ensures
        all_succeed(h, p),
        patterns_seen(h, p, session),
{
    lemma_given(a, h.skip(p));
    assert forall|i: int| p <= i < h.len() implies backend::succeeds((#[trigger] h[i]).reply) && (
    h[i].call is BuiltinValue ==> checks::no_nul(backend::reply_text(h[i].reply))) && (
    h[i].call is CapturePane ==> backend::reply_text(h[i].reply) == a.capture_output) by {
        assert(h.skip(p)[i - p] == h[i]);
    }
}

/// A run on a recording backend succeeds, if its values hold no NUL character and its output holds
/// what the session waits for. Whether the session exists is answered as the backend was told, and
/// panes are numbered in the order in which they are created.
pub proof fn law_recorded_runs_succeed(a: Answers, h: Seq<Event>, p: int, session: Session)
    requires
        0 <= p < h.len(),
        session.wf(),
        validate::session_error(session) is None,
        values_clean(a),
        a.give(h.skip(p)),
        forall|pattern: Text| #[trigger]
            awaited(session, pattern) ==> text::occurs(a.capture_output, pattern),
        protocol::run_session(h, p, session) is Some,
    ensures
        h[p].reply == Reply::Answer(a.session_exists),
        protocol::run_session(h, p, session) matches Some((_, Ok(_))),
        !a.session_exists ==> agreement::changing_calls(
            h,
            p,
            protocol::end(protocol::run_session(h, p, session)),
        ) == seq![Call::HasSession { name: session.name@ }] + creation_calls(
            h,
            p + 1,
            session,
            session.name@,
        ) + entry_calls(session),
        backend::created_panes(h.skip(p)) == Seq::new(
            backend::created_panes(h.skip(p)).len(),
            |k: int| recording::nth_pane((a.pane_count + k) as nat),
        ),
{
    lemma_given(a, h.skip(p));
    lemma_given_from(a, h, p, session);
    assert(h.skip(p)[0] == h[p]);
    law_run_succeeds_where_no_request_fails(h, p, session);
}

/// A reload on a recording backend succeeds under the same conditions as a run.
pub proof fn law_recorded_reloads_succeed(
    a: Answers,
    h: Seq<Event>,
    p: int,
    session: Session,
    process_id: u32,
)
    requires
        0 <= p < h.len(),
        session.wf(),
        validate::session_error(session) is None,
        values_clean(a),
        a.give(h.skip(p)),
        forall|pattern: Text| #[trigger]
            awaited(session, pattern) ==> text::occurs(a.capture_output, pattern),
        protocol::reload_session(h, p, session, process_id) is Some,
    ensures
        h[p].reply == Reply::Answer(a.session_exists),
        protocol::reload_session(h, p, session, process_id) matches Some((_, Ok(_))),
{
    lemma_given_from(a, h, p, session);
    assert(h.skip(p)[0] == h[p]);
    law_reload_succeeds_where_no_request_fails(h, p, session, process_id);
}

} // verus!
