//! What holds of creating, running and reloading a session as a whole: what is asked when all goes
//! well, and what is asked and told when something fails.

use crate::backend::{Call, Event, Reply};
use crate::layout_plan;
use crate::layout_plan::LeafStep;
use crate::model;
use crate::model::{Session, Window};
use crate::protocol;
use crate::protocol_laws;
use crate::request_laws;
use crate::request_laws::{went_well, went_wrong};
use crate::template;
use crate::text;
use crate::text::Text;
use crate::validate;
use crate::words::TmuxName;
use vstd::prelude::*;

verus! {

// ─── When all goes well ──────────────────────────────────────────────────────

/// The windows of a session are created one after the other, from the first to the last, from `p`
/// up to `q`: `at` are the positions at which the requests for each window begin, and the one at
/// which those for the last one end.
pub open spec fn windows_created(
    h: Seq<Event>,
    p: int,
    q: int,
    session: Session,
    name: Text,
    at: Seq<int>,
) -> bool {
    &&& at.len() == session.windows@.len() + 1
    &&& at[0] == p
    &&& at[session.windows@.len() as int] == q
    &&& forall|i: int|
        0 <= i < session.windows@.len() ==> (#[trigger] protocol::create_window(
            h,
            at[i],
            session,
            name,
            i,
        ) matches Some((end, Ok(_))) && end == at[i + 1])
}

/// The windows of a session are created one after the other, from `p` up to `q`.
pub open spec fn created_in_order(
    h: Seq<Event>,
    p: int,
    q: int,
    session: Session,
    name: Text,
) -> bool {
    exists|at: Seq<int>| #[trigger] windows_created(h, p, q, session, name, at)
}

proof fn lemma_windows_from(h: Seq<Event>, p: int, session: Session, name: Text, index: int) -> (at:
    Seq<int>)
    requires
        0 <= index <= session.windows@.len(),
        protocol::create_windows(h, p, session, name, index) matches Some((_, Ok(_))),
    ensures
        at.len() == session.windows@.len() - index + 1,
        at[0] == p,
        at[session.windows@.len() - index] == protocol::end(
            protocol::create_windows(h, p, session, name, index),
        ),
        forall|i: int|
            index <= i < session.windows@.len() ==> (#[trigger] protocol::create_window(
                h,
                at[i - index],
                session,
                name,
                i,
            ) matches Some((end, Ok(_))) && end == at[i - index + 1]),
    decreases session.windows@.len() - index,
{
    if index == session.windows@.len() {
        seq![p]
    } else {
        let q = protocol::end(protocol::create_window(h, p, session, name, index));
        let others = lemma_windows_from(h, q, session, name, index + 1);
        let at = seq![p] + others;
        assert forall|i: int| index <= i < session.windows@.len() implies (
        #[trigger] protocol::create_window(h, at[i - index], session, name, i) matches Some(
            (end, Ok(_)),
        ) && end == at[i - index + 1]) by {
            if i > index {
                assert(at[i - index] == others[i - (index + 1)]);
                assert(at[i - index + 1] == others[i - (index + 1) + 1]);
                assert(protocol::create_window(
                    h,
                    others[i - (index + 1)],
                    session,
                    name,
                    i,
                ) matches Some((end, Ok(_))) && end == others[i - (index + 1) + 1]);
            } else {
                assert(at[1] == others[0]);
            }
        }
        at
    }
}

/// A session that is created successfully: its hook has run, if it has one, and then all its
/// windows have been created, in order.
pub proof fn law_session_is_created_window_by_window(
    h: Seq<Event>,
    p: int,
    session: Session,
    name: Text,
)
    requires
        0 <= p <= h.len(),
        protocol::create_session(h, p, session, name) matches Some((_, Ok(_))),
    ensures
        session.pre_hook matches Some(hook) ==> went_well(h, p) && h[p].call == (Call::RunCommand {
            command: template::resolved(hook@, session.vars),
        }),
        session.pre_hook is Some ==> created_in_order(
            h,
            p + 1,
            protocol::end(protocol::create_session(h, p, session, name)),
            session,
            name,
        ),
        session.pre_hook is None ==> created_in_order(
            h,
            p,
            protocol::end(protocol::create_session(h, p, session, name)),
            session,
            name,
        ),
{
    let start = if session.pre_hook is Some {
        p + 1
    } else {
        p
    };
    let q = protocol::end(protocol::create_session(h, p, session, name));
    let at = lemma_windows_from(h, start, session, name, 0);
    assert forall|i: int| 0 <= i < session.windows@.len() implies (
    #[trigger] protocol::create_window(h, at[i], session, name, i) matches Some((end, Ok(_)))
        && end == at[i + 1]) by {
        assert(at[i - 0] == at[i]);
    }
    assert(windows_created(h, start, q, session, name, at));
}

/// A run where no session of the name exists: the session is created under its own name, its first
/// window becomes the current one, and the terminal is handed over to it.
pub proof fn law_run_creates_and_enters(h: Seq<Event>, p: int, session: Session)
    requires
        0 <= p < h.len(),
        protocol::run_session(h, p, session) matches Some((_, Ok(_))),
        h[p].reply == Reply::Answer(false),
    ensures
        ({
            let q = protocol::end(protocol::run_session(h, p, session));
            &&& p + 3 <= q <= h.len()
            &&& h[p].call == (Call::HasSession { name: session.name@ })
            &&& protocol::create_session(h, p + 1, session, session.name@) matches Some((e, Ok(_)))
                && e == q - 2
            &&& h[q - 2].call == (Call::SelectWindow {
                session: session.name@,
                window: session.windows@[0].name@,
            })
            &&& h[q - 1].call == (Call::AttachOrSwitch { session: session.name@ })
            &&& went_well(h, q - 2) && went_well(h, q - 1)
        }),
{
    lemma_creation_goes_on(h, p + 1, session, session.name@);
}

/// A reload where the session exists: a replacement is created under a name of its own, the old
/// session is moved aside, the replacement takes its name, and only then is the old session ended.
/// The side names are made of the name, a word for the side and the process.
pub proof fn law_reload_creates_swaps_and_enters(
    h: Seq<Event>,
    p: int,
    session: Session,
    process_id: u32,
)
    requires
        0 <= p < h.len(),
        protocol::reload_session(h, p, session, process_id) matches Some((_, Ok(_))),
        h[p].reply == Reply::Answer(true),
    ensures
        ({
            let q = protocol::end(protocol::reload_session(h, p, session, process_id));
            let name = session.name@;
            let id = text::decimal(process_id as nat);
            let replacement = name + "__ntd_reload_"@ + "new"@ + "_"@ + id;
            let backup = name + "__ntd_reload_"@ + "old"@ + "_"@ + id;
            &&& p + 6 <= q <= h.len()
            &&& h[p].call == (Call::HasSession { name })
            &&& protocol::create_session(h, p + 1, session, replacement) matches Some((e, Ok(_)))
                && e == q - 5
            &&& h[q - 5].call == (Call::RenameSession { from: name, to: backup })
            &&& h[q - 4].call == (Call::RenameSession { from: replacement, to: name })
            &&& h[q - 3].call == (Call::KillSession { name: backup })
            &&& h[q - 2].call == (Call::SelectWindow {
                session: name,
                window: session.windows@[0].name@,
            })
            &&& h[q - 1].call == (Call::AttachOrSwitch { session: name })
            &&& went_well(h, q - 5) && went_well(h, q - 4) && went_well(h, q - 3)
            &&& went_well(h, q - 2) && went_well(h, q - 1)
        }),
{
    lemma_creation_goes_on(
        h,
        p + 1,
        session,
        protocol::replacement_name(session.name@, process_id),
    );
}

/// Creating a session never takes requests back.
proof fn lemma_creation_goes_on(h: Seq<Event>, p: int, session: Session, name: Text)
    requires
        0 <= p <= h.len(),
    ensures
        protocol::create_session(h, p, session, name) matches Some((q, _)) ==> p <= q <= h.len(),
{
    if protocol::create_session(h, p, session, name) is Some {
        protocol_laws::law_creation_stays_with_its_session(h, p, session, name);
    }
}

// ─── When something fails ────────────────────────────────────────────────────

/// An exchange from `p` up to `q` ends with the first request that fails, and its error is the
/// outcome.
pub open spec fn stops_at_failure<T>(
    h: Seq<Event>,
    p: int,
    q: int,
    outcome: protocol::Outcome<T>,
) -> bool {
    &&& 0 <= p <= q <= h.len()
    &&& forall|i: int, e: Seq<Text>| #[trigger]
        went_wrong(h, i, e) && p <= i < q ==> i == q - 1 && (outcome matches Err(m) && m == e)
}

spec fn stops<T>(h: Seq<Event>, p: int, x: protocol::Exchange<T>) -> bool {
    x matches Some((q, outcome)) ==> stops_at_failure(h, p, q, outcome)
}

proof fn lemma_group_stops<T>(
    h: Seq<Event>,
    p: int,
    q: int,
    calls: Seq<Call>,
    outcome: protocol::Outcome<T>,
)
    requires
        request_laws::one_after_the_other(h, p, q, calls, outcome),
    ensures
        stops_at_failure(h, p, q, outcome),
{
    assert forall|i: int, e: Seq<Text>| #[trigger]
        went_wrong(h, i, e) && p <= i < q implies i == q - 1 && (outcome matches Err(m) && m == e) by {
        assert(!went_well(h, i));
    }
}

proof fn lemma_wait_stops(
    h: Seq<Event>,
    p: int,
    pane: Text,
    pattern: Text,
    timeout: nat,
    left: nat,
)
    requires
        0 <= p <= h.len(),
    ensures
        stops(h, p, protocol::await_pattern(h, p, pane, pattern, timeout, left)),
    decreases left,
{
    if left > 0 {
        if let Some((q, Ok(output))) = protocol::ask(h, p, Call::CapturePane { pane }) {
            if let Some((q2, Ok(_))) = protocol::ask(h, q, Call::Pause) {
                lemma_wait_stops(h, q2, pane, pattern, timeout, (left - 1) as nat);
            }
        }
    }
}

proof fn lemma_leaf_stops(h: Seq<Event>, p: int, leaf: LeafStep, pane: Text)
    requires
        0 <= p <= h.len(),
    ensures
        stops(h, p, protocol::configure_leaf(h, p, leaf, pane)),
{
    if let Some((q, Ok(_))) = protocol::ask_if(h, p, protocol::command_call(leaf, pane)) {
        if let Some((pattern, timeout)) = leaf.wait_for {
            lemma_wait_stops(h, q, pane, pattern, timeout as nat, timeout as nat);
        }
    }
}

proof fn lemma_leaves_stop(h: Seq<Event>, p: int, leaves: Seq<LeafStep>, panes: Seq<Text>)
    requires
        0 <= p <= h.len(),
    ensures
        stops(h, p, protocol::configure_leaves(h, p, leaves, panes)),
    decreases leaves.len(),
{
    if leaves.len() > 0 {
        let pane = panes[leaves[0].pane];
        lemma_leaf_stops(h, p, leaves[0], pane);
        if let Some((q, Ok(_))) = protocol::configure_leaf(h, p, leaves[0], pane) {
            lemma_leaves_stop(h, q, leaves.skip(1), panes);
        }
    }
}

proof fn lemma_finish_stops(
    h: Seq<Event>,
    p: int,
    name: Text,
    window: Window,
    leaves: Seq<LeafStep>,
    panes: Seq<Text>,
)
    requires
        0 <= p <= h.len(),
    ensures
        stops(h, p, protocol::finish_window(h, p, name, window, leaves, panes)),
{
    let entries = window.options@;
    request_laws::law_window_options_are_set_in_order(h, p, name, window.name@, entries);
    if let Some((q, outcome)) = protocol::set_window_options(h, p, name, window.name@, entries) {
        lemma_group_stops(
            h,
            p,
            q,
            request_laws::window_option_calls(name, window.name@, entries),
            outcome,
        );
    }
}

proof fn lemma_window_stops(
    h: Seq<Event>,
    p: int,
    session: Session,
    name: Text,
    index: int,
    root: Text,
    initial: Text,
)
    requires
        0 <= p <= h.len(),
    ensures
        stops(h, p, protocol::configure_window(h, p, session, name, index, root, initial)),
{
    let window = session.windows@[index];
    let plan = layout_plan::plan_of(window.layout, session.vars);
    let env = model::pane_env(session, window);
    let options = protocol::options_with(session, index);
    layout_plan::law_plan_is_well_numbered(window.layout, session.vars);
    assert forall|k: int| 0 <= k < plan.splits.len() implies 0 <= (#[trigger] plan.splits[k]).parent
        < 1 + k by {
        assert(plan.splits[k].parent <= k);
    }
    request_laws::law_session_options_are_set_in_order(h, p, name, options);
    if let Some((q, outcome)) = protocol::set_options(h, p, name, options) {
        lemma_group_stops(h, p, q, request_laws::option_calls(name, options), outcome);
        if outcome is Ok {
            let known = seq![initial];
            request_laws::law_splits_are_made_in_order(h, q, plan.splits, known, root, env);
            if let Some((q2, made)) = protocol::make_splits(h, q, plan.splits, known, root, env) {
                lemma_group_stops(
                    h,
                    q,
                    q2,
                    request_laws::split_calls(
                        plan.splits,
                        known + request_laws::replies_between(h, q, q2),
                        root,
                        env,
                    ),
                    made,
                );
                if let Ok(panes) = made {
                    lemma_leaves_stop(h, q2, plan.leaves, panes);
                    if let Some((q3, Ok(_))) = protocol::configure_leaves(
                        h,
                        q2,
                        plan.leaves,
                        panes,
                    ) {
                        lemma_finish_stops(h, q3, name, window, plan.leaves, panes);
                    }
                }
            }
        }
    }
}

/// The message of a session that was ended again, and the messages of what it was ended for.
pub open spec fn told_as_rolled_back(m: Seq<Text>, name: Text, cause: Seq<Text>) -> bool {
    &&& m.len() == cause.len() + 1
    &&& m.skip(1) == cause
    &&& m[0] == "rolled back partially created tmux session "@ + text::debug_text(name)
        + " after error: "@ + cause[0]
}

/// The message of a session that could not be ended again because of `e`, and the messages of what
/// it was to be ended for.
pub open spec fn told_as_left_behind(
    m: Seq<Text>,
    name: Text,
    cause: Seq<Text>,
    e: Seq<Text>,
) -> bool {
    &&& m.len() == cause.len() + 1
    &&& m.skip(1) == cause
    &&& m[0] == "failed to roll back partially created tmux session "@ + text::debug_text(name)
        + " after error: "@ + cause[0] + ": "@ + e[0]
}

/// An exchange from `p` up to `q` that creates a session: it ends with the first request that
/// fails, and its error is the outcome; or the session had been created by then, and the one
/// request that follows ends it, and the outcome tells so, together with the error.
pub open spec fn stops_and_rolls_back(
    h: Seq<Event>,
    p: int,
    q: int,
    name: Text,
    outcome: protocol::Outcome<Text>,
) -> bool {
    &&& 0 <= p <= q <= h.len()
    &&& forall|i: int, e: Seq<Text>| #[trigger]
        went_wrong(h, i, e) && p <= i < q && !(h[i].call is KillSession) ==> (outcome matches Err(m)
            && {
            ||| i == q - 1 && m == e
            ||| {
                &&& i == q - 2
                &&& h[q - 1].call == (Call::KillSession { name })
                &&& match h[q - 1].reply {
                    Reply::Outcome(Ok(_)) => told_as_rolled_back(m, name, e),
                    Reply::Outcome(Err(k)) => told_as_left_behind(m, name, e, k),
                    Reply::Answer(_) => false,
                }
            }
        })
    &&& forall|i: int| p <= i < q - 1 ==> !((#[trigger] h[i]).call is KillSession)
    &&& outcome is Ok ==> p == q || !(h[q - 1].call is KillSession)
}

proof fn lemma_roll_back(h: Seq<Event>, p: int, q: int, name: Text, cause: Seq<Text>)
    requires
        stops_at_failure(h, p, q, Err::<Text, Seq<Text>>(cause)),
        forall|i: int| p <= i < q ==> !((#[trigger] h[i]).call is KillSession),
    ensures
        protocol::roll_back(h, q, name, cause) matches Some((end, outcome))
            ==> stops_and_rolls_back(h, p, end, name, outcome),
{
    if let Some((end, outcome)) = protocol::roll_back(h, q, name, cause) {
        assert(protocol::rolled_back(name, cause).skip(1) =~= cause);
        if let Reply::Outcome(Err(k)) = h[q].reply {
            assert(protocol::not_rolled_back(name, cause, k).skip(1) =~= cause);
        }
    }
}

/// What is asked to create a window, but for a request that ends the session.
proof fn lemma_creation_stops(h: Seq<Event>, p: int, session: Session, name: Text, index: int)
    requires
        0 <= p <= h.len(),
        0 <= index < session.windows@.len(),
    ensures
        protocol::create_window(h, p, session, name, index) matches Some((q, outcome)) ==> {
            &&& index == 0 ==> stops_and_rolls_back(h, p, q, name, outcome)
            &&& index != 0 || outcome is Ok ==> stops_at_failure(h, p, q, outcome) && forall|i: int|
                p <= i < q ==> !((#[trigger] h[i]).call is KillSession)
        },
{
    let window = session.windows@[index];
    let parts = template::parts(model::root_text(session, window), session.vars);
    let asked = template::requests(parts);
    request_laws::law_values_are_asked_for_in_order(h, p, asked, Seq::empty());
    protocol_laws::lemma_working_dir(h, p, session, window);
    if let Some((q, values)) = protocol::builtin_values(h, p, asked, Seq::empty()) {
        lemma_group_stops(h, p, q, request_laws::value_calls(asked), values);
        if let Some((_, Ok(root))) = protocol::working_dir(h, p, session, window) {
            let call = protocol::creation_call(session, name, index, root);
            if let Some((q2, Ok(initial))) = protocol::ask(h, q, call) {
                lemma_window_stops(h, q2, session, name, index, root, initial);
                let k = protocol_laws::lemma_configure_window(
                    h,
                    q2,
                    session,
                    name,
                    index,
                    root,
                    initial,
                );
                if let Some((q3, outcome)) = protocol::configure_window(
                    h,
                    q2,
                    session,
                    name,
                    index,
                    root,
                    initial,
                ) {
                    assert forall|i: int| p <= i < q3 implies !((
                    #[trigger] h[i]).call is KillSession) by {
                        if i < q {
                            assert(h[i].call is BuiltinValue);
                        }
                    }
                    assert(stops_at_failure(h, p, q3, outcome));
                    if let Err(e) = outcome {
                        lemma_roll_back(h, p, q3, name, e);
                    }
                }
            }
        }
    }
}

proof fn lemma_windows_stop(h: Seq<Event>, p: int, session: Session, name: Text, index: int)
    requires
        0 <= p <= h.len(),
        0 <= index,
    ensures
        protocol::create_windows(h, p, session, name, index) matches Some((q, outcome))
            ==> stops_and_rolls_back(h, p, q, name, outcome),
    decreases session.windows@.len() - index,
{
    if index < session.windows@.len() {
        lemma_creation_stops(h, p, session, name, index);
        if let Some((q, outcome)) = protocol::create_window(h, p, session, name, index) {
            match outcome {
                Ok(_) => {
                    lemma_windows_stop(h, q, session, name, index + 1);
                },
                Err(e) => {
                    if index > 0 {
                        lemma_roll_back(h, p, q, name, e);
                    }
                },
            }
        }
    }
}

/// Creating a session ends with the first request that fails: nothing more is asked but, where the
/// session had been created, that it be ended. The error of that request is what is told, together
/// with what became of the session.
pub proof fn law_creation_stops_at_the_first_failure(
    h: Seq<Event>,
    p: int,
    session: Session,
    name: Text,
)
    requires
        0 <= p <= h.len(),
        protocol::create_session(h, p, session, name) is Some,
    ensures
        protocol::create_session(h, p, session, name) matches Some((q, outcome))
            && stops_and_rolls_back(h, p, q, name, outcome),
{
    if let Some((q, Ok(_))) = protocol::ask_if(h, p, protocol::hook_call(session)) {
        lemma_windows_stop(h, q, session, name, 0);
    }
}

/// A session is ended only because something failed after it had been created.
pub proof fn law_complete_sessions_are_not_ended(
    h: Seq<Event>,
    p: int,
    session: Session,
    name: Text,
    i: int,
)
    requires
        0 <= p <= h.len(),
        protocol::create_session(h, p, session, name) matches Some((q, Ok(_))) && p <= i < q,
    ensures
        !(h[i].call is KillSession),
{
    law_creation_stops_at_the_first_failure(h, p, session, name);
}

/// If the old session cannot be moved aside, the replacement is ended, and nothing else is asked:
/// the old session stays as it is.
pub proof fn law_old_session_stays_where_it_cannot_be_moved(
    h: Seq<Event>,
    p: int,
    name: Text,
    process_id: u32,
    e: Seq<Text>,
)
    requires
        0 <= p,
        protocol::swap_in(h, p, name, process_id) is Some,
        went_wrong(h, p, e),
    ensures
        ({
            let id = text::decimal(process_id as nat);
            &&& p + 1 < h.len()
            &&& h[p + 1].call == (Call::KillSession {
                name: name + "__ntd_reload_"@ + "new"@ + "_"@ + id,
            })
            &&& protocol::swap_in(h, p, name, process_id) matches Some((q, Err(m))) && q == p + 2
                && m.len() == e.len() + 1 && m.skip(1) == e && m[0]
                == "failed to move existing tmux session "@ + TmuxName::debug(name) + " aside"@
        }),
{
    if let Some((_, Err(m))) = protocol::swap_in(h, p, name, process_id) {
        assert(m.skip(1) =~= e);
    }
}

/// If the replacement cannot take the name, the old session gets it back and the replacement is
/// ended, and the error of the renaming is told.
pub proof fn law_replacement_is_ended_where_it_cannot_take_the_name(
    h: Seq<Event>,
    p: int,
    name: Text,
    process_id: u32,
    e: Seq<Text>,
)
    requires
        0 <= p,
        protocol::swap_in(h, p, name, process_id) is Some,
        went_well(h, p),
        went_wrong(h, p + 1, e),
    ensures
        ({
            let id = text::decimal(process_id as nat);
            let replacement = name + "__ntd_reload_"@ + "new"@ + "_"@ + id;
            let backup = name + "__ntd_reload_"@ + "old"@ + "_"@ + id;
            &&& p + 3 < h.len()
            &&& h[p + 1].call == (Call::RenameSession { from: replacement, to: name })
            &&& h[p + 2].call == (Call::RenameSession { from: backup, to: name })
            &&& h[p + 3].call == (Call::KillSession { name: replacement })
            &&& protocol::swap_in(h, p, name, process_id) matches Some((q, Err(m))) && q == p + 4
                && m.len() == e.len() + 1 && m.skip(1) == e && m[0]
                =~= "failed to promote replacement tmux session "@ + text::debug_text(replacement)
                + " to "@ + text::debug_text(name) + (match h[p + 2].reply {
                Reply::Outcome(Err(r)) => "; also failed to restore original session from "@
                    + text::debug_text(backup) + ": "@ + r[0],
                _ => Seq::empty(),
            }) + (match h[p + 3].reply {
                Reply::Outcome(Err(r)) => "; also failed to remove replacement session "@
                    + text::debug_text(replacement) + ": "@ + r[0],
                _ => Seq::empty(),
            })
        }),
{
    if let Some((_, Err(m))) = protocol::swap_in(h, p, name, process_id) {
        assert(m.skip(1) =~= e);
    }
}

/// If the old session cannot be ended when its replacement is in place, that is told, and the
/// replacement stays.
pub proof fn law_replacement_stays_where_the_old_session_cannot_be_ended(
    h: Seq<Event>,
    p: int,
    name: Text,
    process_id: u32,
    e: Seq<Text>,
)
    requires
        0 <= p,
        protocol::swap_in(h, p, name, process_id) is Some,
        went_well(h, p),
        went_well(h, p + 1),
        went_wrong(h, p + 2, e),
    ensures
        protocol::swap_in(h, p, name, process_id) matches Some((q, Err(m))) && q == p + 3
            && m.len() == e.len() + 1 && m.skip(1) == e && m[0] == "replacement tmux session "@
            + text::debug_text(name) + " is active, but failed to remove backup session "@
            + text::debug_text(
            name + "__ntd_reload_"@ + "old"@ + "_"@ + text::decimal(process_id as nat),
        ),
{
    if let Some((_, Err(m))) = protocol::swap_in(h, p, name, process_id) {
        assert(m.skip(1) =~= e);
    }
}

/// A run whose session cannot be created fails as the creation did, and the session is not entered.
pub proof fn law_failed_run_enters_nothing(h: Seq<Event>, p: int, session: Session)
    requires
        0 <= p < h.len(),
        h[p].reply == Reply::Answer(false),
        validate::session_error(session) is None,
        protocol::run_session(h, p, session) is Some,
        protocol::create_session(h, p + 1, session, session.name@) matches Some((_, Err(_))),
    ensures
        protocol::run_session(h, p, session) == protocol::create_session(
            h,
            p + 1,
            session,
            session.name@,
        ),
{
}

/// A session that exists is entered as it is, and what comes of handing the terminal over to it is
/// what comes of the run.
pub proof fn law_run_of_an_existing_session(h: Seq<Event>, p: int, session: Session)
    requires
        0 <= p < h.len(),
        h[p].reply == Reply::Answer(true),
        validate::session_error(session) is None,
        protocol::run_session(h, p, session) is Some,
    ensures
        p + 1 < h.len(),
        h[p].call == (Call::HasSession { name: session.name@ }),
        h[p + 1].call == (Call::AttachOrSwitch { session: session.name@ }),
        protocol::run_session(h, p, session) matches Some((q, outcome)) && q == p + 2
            && h[p + 1].reply == Reply::Outcome(outcome),
{
}

/// A replacement that cannot be built: the reload fails, it tells so together with the error of
/// the creation, and asks nothing more.
pub proof fn law_failed_replacement_is_told(
    h: Seq<Event>,
    p: int,
    session: Session,
    process_id: u32,
    e: Seq<Text>,
)
    requires
        0 <= p < h.len(),
        h[p].reply == Reply::Answer(true),
        validate::session_error(session) is None,
        protocol::reload_session(h, p, session, process_id) is Some,
        protocol::create_session(
            h,
            p + 1,
            session,
            session.name@ + "__ntd_reload_"@ + "new"@ + "_"@ + text::decimal(process_id as nat),
        ) matches Some((_, Err(m))) && m == e,
    ensures
        ({
            let replacement = session.name@ + "__ntd_reload_"@ + "new"@ + "_"@ + text::decimal(
                process_id as nat,
            );
            protocol::reload_session(h, p, session, process_id) matches Some((q, Err(m))) && q
                == protocol::end(protocol::create_session(h, p + 1, session, replacement))
                && m.len() == e.len() + 1 && m.skip(1) == e && m[0]
                == "failed to build replacement tmux session "@ + text::debug_text(replacement)
        }),
{
    if let Some((_, Err(m))) = protocol::reload_session(h, p, session, process_id) {
        assert(m.skip(1) =~= e);
    }
}

// ─── What is owed ────────────────────────────────────────────────────────────

proof fn lemma_windows_succeed(
    h: Seq<Event>,
    q: int,
    session: Session,
    name: Text,
    at: Seq<int>,
    index: int,
)
    requires
        0 <= index <= session.windows@.len(),
        at.len() == session.windows@.len() + 1,
        at[session.windows@.len() as int] == q,
        forall|i: int|
            0 <= i < session.windows@.len() ==> (#[trigger] protocol::create_window(
                h,
                at[i],
                session,
                name,
                i,
            ) matches Some((end, Ok(_))) && end == at[i + 1]),
    ensures
        protocol::create_windows(h, at[index], session, name, index) matches Some((end, Ok(_)))
            && end == q,
    decreases session.windows@.len() - index,
{
    if index < session.windows@.len() {
        assert(protocol::create_window(h, at[index], session, name, index) matches Some(
            (end, Ok(_)),
        ) && end == at[index + 1]);
        lemma_windows_succeed(h, q, session, name, at, index + 1);
    }
}

/// Creating a session succeeds where its hook went well, if it has one, and all its windows have
/// been created.
pub proof fn law_creating_a_session_succeeds(
    h: Seq<Event>,
    p: int,
    q: int,
    session: Session,
    name: Text,
)
    requires
        0 <= p <= h.len(),
        match session.pre_hook {
            Some(hook) => {
                &&& went_well(h, p)
                &&& h[p].call == (Call::RunCommand {
                    command: template::resolved(hook@, session.vars),
                })
                &&& created_in_order(h, p + 1, q, session, name)
            },
            None => created_in_order(h, p, q, session, name),
        },
    ensures
        protocol::create_session(h, p, session, name) matches Some((end, Ok(_))) && end == q,
{
    let start = if session.pre_hook is Some {
        p + 1
    } else {
        p
    };
    let at = choose|at: Seq<int>| #[trigger] windows_created(h, start, q, session, name, at);
    assert(windows_created(h, start, q, session, name, at));
    lemma_windows_succeed(h, q, session, name, at, 0);
}

/// A run succeeds where no session of the name exists, the session has been created, and entering
/// it went well.
pub proof fn law_running_a_session_succeeds(h: Seq<Event>, p: int, q: int, session: Session)
    requires
        0 <= p < h.len(),
        validate::session_error(session) is None,
        h[p].call == (Call::HasSession { name: session.name@ }),
        h[p].reply == Reply::Answer(false),
        protocol::create_session(h, p + 1, session, session.name@) matches Some((end, Ok(_)))
            && end == q - 2,
        went_well(h, q - 2),
        h[q - 2].call == (Call::SelectWindow {
            session: session.name@,
            window: session.windows@[0].name@,
        }),
        went_well(h, q - 1),
        h[q - 1].call == (Call::AttachOrSwitch { session: session.name@ }),
    ensures
        protocol::run_session(h, p, session) matches Some((end, Ok(_))) && end == q,
        forall|process_id: u32|
            protocol::reload_session(h, p, session, process_id) == protocol::run_session(
                h,
                p,
                session,
            ),
{
}

/// A reload succeeds where the replacement has been created, the swap went well, and entering the
/// session went well.
pub proof fn law_reloading_a_session_succeeds(
    h: Seq<Event>,
    p: int,
    q: int,
    session: Session,
    process_id: u32,
)
    requires
        0 <= p < h.len(),
        validate::session_error(session) is None,
        h[p].call == (Call::HasSession { name: session.name@ }),
        h[p].reply == Reply::Answer(true),
        ({
            let name = session.name@;
            let id = text::decimal(process_id as nat);
            let replacement = name + "__ntd_reload_"@ + "new"@ + "_"@ + id;
            let backup = name + "__ntd_reload_"@ + "old"@ + "_"@ + id;
            &&& protocol::create_session(h, p + 1, session, replacement) matches Some(
                (end, Ok(_)),
            ) && end == q - 5
            &&& h[q - 5].call == (Call::RenameSession { from: name, to: backup })
            &&& h[q - 4].call == (Call::RenameSession { from: replacement, to: name })
            &&& h[q - 3].call == (Call::KillSession { name: backup })
            &&& h[q - 2].call == (Call::SelectWindow {
                session: name,
                window: session.windows@[0].name@,
            })
            &&& h[q - 1].call == (Call::AttachOrSwitch { session: name })
        }),
        went_well(h, q - 5),
        went_well(h, q - 4),
        went_well(h, q - 3),
        went_well(h, q - 2),
        went_well(h, q - 1),
    ensures
        protocol::reload_session(h, p, session, process_id) matches Some((end, Ok(_))) && end == q,
{
}

/// Entering a session stops at the first failure, and tells it.
pub proof fn law_entering_tells_its_failure(h: Seq<Event>, p: int, session: Session, e: Seq<Text>)
    requires
        0 <= p,
        protocol::enter_session(h, p, session) is Some,
    ensures
        went_wrong(h, p, e) ==> protocol::enter_session(h, p, session) == Some(
            (p + 1, Err::<Text, Seq<Text>>(e)),
        ),
        went_well(h, p) && went_wrong(h, p + 1, e) ==> protocol::enter_session(h, p, session)
            == Some((p + 2, Err::<Text, Seq<Text>>(e))),
{
}

} // verus!
