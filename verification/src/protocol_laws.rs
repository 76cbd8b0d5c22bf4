//! What holds of every exchange between the executor and its backend, whatever the replies are.

use crate::backend;
use crate::backend::{Call, Event, Reply};
use crate::error;
use crate::error::Error;
use crate::layout_plan;
use crate::layout_plan::{LeafStep, SplitStep};
use crate::model;
use crate::model::{Session, Window};
use crate::protocol;
use crate::template;
use crate::template::BuiltinVar;
use crate::text::Text;
use crate::validate;
use crate::words::{PaneId, TmuxOptionName, TmuxOptionValue};
use vstd::prelude::*;

verus! {

// ─── Kinds of requests ───────────────────────────────────────────────────────

/// All requests from `p` up to `q` satisfy `f`.
pub open spec fn all_calls(h: Seq<Event>, p: int, q: int, f: spec_fn(Call) -> bool) -> bool {
    &&& 0 <= p <= q <= h.len()
    &&& forall|i: int| p <= i < q ==> f((#[trigger] h[i]).call)
}

/// A request that builds panes: the first phase of a window.
pub open spec fn builds(call: Call) -> bool {
    call is SetOption || call is SplitWindow
}

/// A request that configures what has been built: the second phase of a window.
pub open spec fn configures(call: Call) -> bool {
    ||| call is SendKeys
    ||| call is CapturePane
    ||| call is Pause
    ||| call is SetPaneTitle
    ||| call is SetWindowOption
    ||| call is SelectLayout
    ||| call is SelectPane
}

/// A request that concerns no session but `name`: none other is created, changed or ended, and
/// none is renamed.
pub open spec fn stays_with(call: Call, name: Text) -> bool {
    match call {
        Call::NewSession { name: n, .. } => n == name,
        Call::NewWindow { session, .. } => session == name,
        Call::SetOption { session, .. } => session == name,
        Call::SetWindowOption { session, .. } => session == name,
        Call::SelectLayout { session, .. } => session == name,
        Call::KillSession { name: n } => n == name,
        Call::HasSession { .. } => false,
        Call::SelectWindow { .. } => false,
        Call::AttachOrSwitch { .. } => false,
        Call::RenameSession { .. } => false,
        _ => true,
    }
}

/// A request that creates a pane passes the environment `env`.
pub open spec fn passes_env(call: Call, env: Seq<(Text, Text)>) -> bool {
    match call {
        Call::NewSession { env: e, .. } => e == env,
        Call::NewWindow { env: e, .. } => e == env,
        Call::SplitWindow { env: e, .. } => e == env,
        _ => true,
    }
}

// ─── The pieces of an exchange ───────────────────────────────────────────────

proof fn lemma_builtin_values(
    h: Seq<Event>,
    p: int,
    vars: Seq<BuiltinVar>,
    known: Seq<Text>,
)
    requires
        0 <= p <= h.len(),
    ensures
        protocol::builtin_values(h, p, vars, known) matches Some((q, _)) ==> all_calls(
            h,
            p,
            q,
            |c: Call| c is BuiltinValue,
        ),
    decreases vars.len(),
{
    if vars.len() > 0 {
        if let Some((q, Ok(value))) = protocol::ask(h, p, Call::BuiltinValue { var: vars[0] }) {
            lemma_builtin_values(h, q, vars.skip(1), known.push(value));
        }
    }
}

pub proof fn lemma_working_dir(h: Seq<Event>, p: int, session: Session, window: Window)
    requires
        0 <= p <= h.len(),
    ensures
        protocol::working_dir(h, p, session, window) matches Some((q, _)) ==> all_calls(
            h,
            p,
            q,
            |c: Call| c is BuiltinValue,
        ),
{
    let parts = template::parts(model::root_text(session, window), session.vars);
    lemma_builtin_values(h, p, template::requests(parts), Seq::empty());
}

pub proof fn lemma_set_options(
    h: Seq<Event>,
    p: int,
    name: Text,
    entries: Seq<(TmuxOptionName, TmuxOptionValue)>,
)
    requires
        0 <= p <= h.len(),
    ensures
        protocol::set_options(h, p, name, entries) matches Some((q, _)) ==> all_calls(
            h,
            p,
            q,
            |c: Call| c is SetOption && c->SetOption_session == name,
        ),
    decreases entries.len(),
{
    if entries.len() > 0 {
        let call = Call::SetOption { session: name, key: entries[0].0@, value: entries[0].1@ };
        if let Some((q, Ok(_))) = protocol::ask(h, p, call) {
            lemma_set_options(h, q, name, entries.skip(1));
        }
    }
}

proof fn lemma_set_window_options(
    h: Seq<Event>,
    p: int,
    name: Text,
    window: Text,
    entries: Seq<(TmuxOptionName, TmuxOptionValue)>,
)
    requires
        0 <= p <= h.len(),
    ensures
        protocol::set_window_options(h, p, name, window, entries) matches Some((q, _))
            ==> all_calls(
            h,
            p,
            q,
            |c: Call| c is SetWindowOption && c->SetWindowOption_session == name,
        ),
    decreases entries.len(),
{
    if entries.len() > 0 {
        let call = Call::SetWindowOption {
            session: name,
            window,
            key: entries[0].0@,
            value: entries[0].1@,
        };
        if let Some((q, Ok(_))) = protocol::ask(h, p, call) {
            lemma_set_window_options(h, q, name, window, entries.skip(1));
        }
    }
}

proof fn lemma_make_splits(
    h: Seq<Event>,
    p: int,
    splits: Seq<SplitStep>,
    panes: Seq<Text>,
    root: Text,
    env: Seq<(Text, Text)>,
)
    requires
        0 <= p <= h.len(),
    ensures
        protocol::make_splits(h, p, splits, panes, root, env) matches Some((q, _)) ==> all_calls(
            h,
            p,
            q,
            |c: Call| c is SplitWindow && c->SplitWindow_env == env,
        ),
    decreases splits.len(),
{
    if splits.len() > 0 {
        let call = Call::SplitWindow {
            pane: panes[splits[0].parent],
            flag: splits[0].flag,
            pct: splits[0].pct,
            root,
            env,
        };
        if let Some((q, Ok(pane))) = protocol::ask(h, p, call) {
            lemma_make_splits(h, q, splits.skip(1), panes.push(pane), root, env);
        }
    }
}

/// A request that is made of one pane.
pub open spec fn of_pane(call: Call) -> bool {
    call is SendKeys || call is CapturePane || call is Pause || call is SetPaneTitle
}

proof fn lemma_await_pattern(
    h: Seq<Event>,
    p: int,
    pane: Text,
    pattern: Text,
    timeout: nat,
    left: nat,
)
    requires
        0 <= p <= h.len(),
    ensures
        protocol::await_pattern(h, p, pane, pattern, timeout, left) matches Some((q, _))
            ==> all_calls(h, p, q, |c: Call| of_pane(c)) && q - p <= 2 * left,
    decreases left,
{
    if left > 0 {
        if let Some((q, Ok(output))) = protocol::ask(h, p, Call::CapturePane { pane }) {
            if let Some((q2, Ok(_))) = protocol::ask(h, q, Call::Pause) {
                lemma_await_pattern(h, q2, pane, pattern, timeout, (left - 1) as nat);
            }
        }
    }
}

proof fn lemma_configure_leaf(h: Seq<Event>, p: int, leaf: LeafStep, pane: Text)
    requires
        0 <= p <= h.len(),
    ensures
        protocol::configure_leaf(h, p, leaf, pane) matches Some((q, _)) ==> all_calls(
            h,
            p,
            q,
            |c: Call| of_pane(c),
        ),
{
    if let Some((q, Ok(_))) = protocol::ask_if(h, p, protocol::command_call(leaf, pane)) {
        if let Some((pattern, timeout)) = leaf.wait_for {
            lemma_await_pattern(h, q, pane, pattern, timeout as nat, timeout as nat);
        }
    }
}

pub proof fn lemma_configure_leaves(
    h: Seq<Event>,
    p: int,
    leaves: Seq<LeafStep>,
    panes: Seq<Text>,
)
    requires
        0 <= p <= h.len(),
    ensures
        protocol::configure_leaves(h, p, leaves, panes) matches Some((q, _)) ==> all_calls(
            h,
            p,
            q,
            |c: Call| of_pane(c),
        ),
    decreases leaves.len(),
{
    if leaves.len() > 0 {
        lemma_configure_leaf(h, p, leaves[0], panes[leaves[0].pane]);
        if let Some((q, Ok(_))) = protocol::configure_leaf(
            h,
            p,
            leaves[0],
            panes[leaves[0].pane],
        ) {
            lemma_configure_leaves(h, q, leaves.skip(1), panes);
        }
    }
}

/// A request that finishes a window of the session `name`.
pub open spec fn of_window(call: Call, name: Text) -> bool {
    match call {
        Call::SetWindowOption { session, .. } => session == name,
        Call::SelectLayout { session, .. } => session == name,
        Call::SelectPane { .. } => true,
        _ => false,
    }
}

pub proof fn lemma_finish_window(
    h: Seq<Event>,
    p: int,
    name: Text,
    window: Window,
    leaves: Seq<LeafStep>,
    panes: Seq<Text>,
)
    requires
        0 <= p <= h.len(),
    ensures
        protocol::finish_window(h, p, name, window, leaves, panes) matches Some((q, _))
            ==> all_calls(h, p, q, |c: Call| of_window(c, name)),
{
    lemma_set_window_options(h, p, name, window.name@, window.options@);
}

/// Where the first phase of a window ends: all requests before build, all after configure.
pub proof fn lemma_configure_window(
    h: Seq<Event>,
    p: int,
    session: Session,
    name: Text,
    index: int,
    root: Text,
    initial: Text,
) -> (k: int)
    requires
        0 <= p <= h.len(),
    ensures
        protocol::configure_window(h, p, session, name, index, root, initial) matches Some((q, _))
            ==> {
            &&& p <= k <= q <= h.len()
            &&& all_calls(h, p, k, |c: Call| builds(c))
            &&& all_calls(h, k, q, |c: Call| configures(c))
            &&& all_calls(h, p, q, |c: Call| stays_with(c, name))
            &&& all_calls(
                h,
                p,
                q,
                |c: Call| passes_env(c, model::pane_env(session, session.windows@[index])),
            )
            &&& all_calls(h, p, q, |c: Call| !(c is KillSession))
            &&& all_calls(h, p, q, |c: Call| !(c is NewSession))
        },
{
    let window = session.windows@[index];
    let plan = layout_plan::plan_of(window.layout, session.vars);
    let env = model::pane_env(session, window);
    let options = protocol::options_with(session, index);
    lemma_set_options(h, p, name, options);
    if let Some((q, r)) = protocol::set_options(h, p, name, options) {
        if r is Ok {
            lemma_make_splits(h, q, plan.splits, seq![initial], root, env);
            if let Some((q2, r2)) = protocol::make_splits(
                h,
                q,
                plan.splits,
                seq![initial],
                root,
                env,
            ) {
                if let Ok(panes) = r2 {
                    lemma_configure_leaves(h, q2, plan.leaves, panes);
                    if let Some((q3, Ok(_))) = protocol::configure_leaves(
                        h,
                        q2,
                        plan.leaves,
                        panes,
                    ) {
                        lemma_finish_window(h, q3, name, window, plan.leaves, panes);
                    }
                }
                q2
            } else {
                q
            }
        } else {
            q
        }
    } else {
        p
    }
}

// ─── Creating a session ──────────────────────────────────────────────────────

/// A session was created by a request from `p` up to `q`.
pub open spec fn session_created(h: Seq<Event>, p: int, q: int) -> bool {
    exists|i: int|
        p <= i < q && (#[trigger] h[i]).call is NewSession && h[i].reply matches Reply::Outcome(
            Ok(_),
        )
}

/// Everything about the exchange that creates a window.
proof fn lemma_create_window(h: Seq<Event>, p: int, session: Session, name: Text, index: int)
    requires
        0 <= p <= h.len(),
    ensures
        protocol::create_window(h, p, session, name, index) matches Some((q, r)) ==> {
            &&& all_calls(h, p, q, |c: Call| stays_with(c, name))
            &&& all_calls(
                h,
                p,
                q,
                |c: Call| passes_env(c, model::pane_env(session, session.windows@[index])),
            )
            &&& forall|i: int, j: int|
                p <= i < j < q ==> !((#[trigger] h[i]).call is SendKeys && (
                #[trigger] h[j]).call is SplitWindow)
            &&& r is Err && index == 0 && session_created(h, p, q) ==> p < q && h[q - 1].call == (
            Call::KillSession { name })
        },
{
    let window = session.windows@[index];
    lemma_working_dir(h, p, session, window);
    if let Some((q, Ok(root))) = protocol::working_dir(h, p, session, window) {
        let call = protocol::creation_call(session, name, index, root);
        if let Some((q2, Ok(initial))) = protocol::ask(h, q, call) {
            let k = lemma_configure_window(h, q2, session, name, index, root, initial);
            if let Some((q3, _)) = protocol::configure_window(
                h,
                q2,
                session,
                name,
                index,
                root,
                initial,
            ) {
                assert forall|i: int, j: int| p <= i < j < q3 implies !((#[trigger] h[i]).call
                    is SendKeys && (#[trigger] h[j]).call is SplitWindow) by {
                    if k <= i {
                        assert(configures(h[j].call));
                    } else if q2 <= i {
                        assert(builds(h[i].call));
                    } else if i < q {
                        assert(h[i].call is BuiltinValue);
                    }
                }
            }
        }
    }
}

/// The panes of a window are all built before a command is typed into one of them.
pub proof fn law_panes_are_built_before_commands_are_typed(
    h: Seq<Event>,
    p: int,
    session: Session,
    name: Text,
    index: int,
    i: int,
    j: int,
)
    requires
        0 <= p <= h.len(),
        protocol::create_window(h, p, session, name, index) is Some,
        p <= i < j < protocol::end(protocol::create_window(h, p, session, name, index)),
    ensures
        !(h[i].call is SendKeys && h[j].call is SplitWindow),
{
    lemma_create_window(h, p, session, name, index);
}

/// Every pane of a window is created with the environment of the session and that of its window,
/// and with nothing of another window.
pub proof fn law_panes_get_the_environment_of_their_window(
    h: Seq<Event>,
    p: int,
    session: Session,
    name: Text,
    index: int,
)
    requires
        0 <= p <= h.len(),
        protocol::create_window(h, p, session, name, index) is Some,
    ensures
        all_calls(
            h,
            p,
            protocol::end(protocol::create_window(h, p, session, name, index)),
            |c: Call| passes_env(c, model::pane_env(session, session.windows@[index])),
        ),
{
    lemma_create_window(h, p, session, name, index);
}

proof fn lemma_create_windows(h: Seq<Event>, p: int, session: Session, name: Text, index: int)
    requires
        0 <= p <= h.len(),
        0 <= index,
    ensures
        protocol::create_windows(h, p, session, name, index) matches Some((q, r)) ==> {
            &&& all_calls(h, p, q, |c: Call| stays_with(c, name))
            &&& r is Err && (index > 0 || session_created(h, p, q)) ==> p < q && h[q - 1].call == (
            Call::KillSession { name })
        },
    decreases session.windows@.len() - index,
{
    if index < session.windows@.len() {
        lemma_create_window(h, p, session, name, index);
        if let Some((q, r)) = protocol::create_window(h, p, session, name, index) {
            if r is Ok {
                lemma_create_windows(h, q, session, name, index + 1);
            }
        }
    }
}

proof fn lemma_create_session(h: Seq<Event>, p: int, session: Session, name: Text)
    requires
        0 <= p <= h.len(),
    ensures
        protocol::create_session(h, p, session, name) matches Some((q, r)) ==> {
            &&& all_calls(h, p, q, |c: Call| stays_with(c, name))
            &&& r is Err && session_created(h, p, q) ==> p < q && h[q - 1].call == (
            Call::KillSession { name })
        },
{
    if let Some((q, Ok(_))) = protocol::ask_if(h, p, protocol::hook_call(session)) {
        lemma_create_windows(h, q, session, name, 0);
        if let Some((q2, _)) = protocol::create_windows(h, q, session, name, 0) {
            if session_created(h, p, q2) {
                let i = choose|i: int|
                    p <= i < q2 && (#[trigger] h[i]).call is NewSession
                        && h[i].reply matches Reply::Outcome(Ok(_));
                assert(q <= i);
            }
        }
    }
}

/// Creating a session concerns no other session.
pub proof fn law_creation_stays_with_its_session(
    h: Seq<Event>,
    p: int,
    session: Session,
    name: Text,
)
    requires
        0 <= p <= h.len(),
        protocol::create_session(h, p, session, name) is Some,
    ensures
        all_calls(
            h,
            p,
            protocol::end(protocol::create_session(h, p, session, name)),
            |c: Call| stays_with(c, name),
        ),
{
    lemma_create_session(h, p, session, name);
}

/// No half of a session is left behind: if it was created and could not be completed, the last
/// thing that is asked is to end it.
pub proof fn law_failed_creation_is_undone(h: Seq<Event>, p: int, session: Session, name: Text)
    requires
        0 <= p <= h.len(),
        protocol::create_session(h, p, session, name) matches Some((q, Err(_))) && session_created(
            h,
            p,
            q,
        ),
    ensures
        protocol::end(protocol::create_session(h, p, session, name)) > p,
        h[protocol::end(protocol::create_session(h, p, session, name)) - 1].call == (Call::KillSession {
            name,
        }),
{
    lemma_create_session(h, p, session, name);
}

/// The hook runs before anything else is asked, and if it fails nothing else is asked.
pub proof fn law_hook_runs_first(h: Seq<Event>, p: int, session: Session, name: Text)
    requires
        0 <= p <= h.len(),
        session.pre_hook is Some,
        protocol::create_session(h, p, session, name) is Some,
    ensures
        p < h.len(),
        h[p].call == (Call::RunCommand {
            command: template::resolved(session.pre_hook->0@, session.vars),
        }),
        h[p].reply matches Reply::Outcome(Err(e)) ==> protocol::create_session(h, p, session, name)
            == Some((p + 1, Err::<Text, Seq<Text>>(e))),
{
}

/// A pane is looked at once a second, and no more often than its timeout has seconds.
pub proof fn law_waiting_is_bounded(
    h: Seq<Event>,
    p: int,
    pane: Text,
    pattern: Text,
    timeout: u32,
)
    requires
        0 <= p <= h.len(),
        protocol::await_if(h, p, pane, Some((pattern, timeout))) is Some,
    ensures
        protocol::end(protocol::await_if(h, p, pane, Some((pattern, timeout)))) - p <= 2 * timeout,
{
    lemma_await_pattern(h, p, pane, pattern, timeout as nat, timeout as nat);
}

// ─── Run ─────────────────────────────────────────────────────────────────────

/// Nothing is asked for a session that does not pass validation.
pub proof fn law_invalid_sessions_are_refused(
    h: Seq<Event>,
    p: int,
    session: Session,
    process_id: u32,
)
    requires
        validate::session_error(session) is Some,
    ensures
        protocol::run_session(h, p, session) == Some(
            (p, Err::<Text, Seq<Text>>(validate::session_error(session)->0)),
        ),
        protocol::reload_session(h, p, session, process_id) == Some(
            (p, Err::<Text, Seq<Text>>(validate::session_error(session)->0)),
        ),
{
}

/// Running a session that exists leaves it as it is: all that is asked is whether it exists, and
/// that the terminal is handed over to it.
pub proof fn law_existing_session_is_entered_as_it_is(h: Seq<Event>, p: int, session: Session)
    requires
        0 <= p < h.len(),
        validate::session_error(session) is None,
        protocol::run_session(h, p, session) is Some,
        h[p].reply == Reply::Answer(true),
    ensures
        protocol::end(protocol::run_session(h, p, session)) == p + 2,
        h[p].call == (Call::HasSession { name: session.name@ }),
        h[p + 1].call == (Call::AttachOrSwitch { session: session.name@ }),
{
}

/// A run or reload that succeeds ends with the terminal being handed over to the session.
pub proof fn law_success_ends_with_handover(
    h: Seq<Event>,
    p: int,
    session: Session,
    process_id: u32,
)
    requires
        0 <= p <= h.len(),
    ensures
        protocol::run_session(h, p, session) matches Some((q, Ok(_))) ==> q > p && h[q - 1].call
            == (Call::AttachOrSwitch { session: session.name@ }),
        protocol::reload_session(h, p, session, process_id) matches Some((q, Ok(_))) ==> q > p
            && h[q - 1].call == (Call::AttachOrSwitch { session: session.name@ }),
{
    if validate::session_error(session) is None {
        if let Some((q, exists)) = protocol::ask_whether(
            h,
            p,
            Call::HasSession { name: session.name@ },
        ) {
            lemma_create_session(h, q, session, session.name@);
            lemma_create_session(
                h,
                q,
                session,
                protocol::replacement_name(session.name@, process_id),
            );
        }
    }
}

// ─── Reload ──────────────────────────────────────────────────────────────────

proof fn lemma_side_names(name: Text, process_id: u32)
    ensures
        protocol::replacement_name(name, process_id).len() > name.len(),
        protocol::backup_name(name, process_id).len() > name.len(),
        protocol::replacement_name(name, process_id) != protocol::backup_name(name, process_id),
{
    reveal_strlit("__ntd_reload_");
    reveal_strlit("new");
    reveal_strlit("old");
    reveal_strlit("_");
    let n = name.len() as int;
    assert(protocol::replacement_name(name, process_id)[n + 13] == 'n');
    assert(protocol::backup_name(name, process_id)[n + 13] == 'o');
}

/// If the replacement of a session that runs cannot be built, nothing has been asked that concerns
/// the old session.
pub proof fn law_failed_reload_keeps_the_old_session(
    h: Seq<Event>,
    p: int,
    session: Session,
    process_id: u32,
)
    requires
        0 <= p < h.len(),
        validate::session_error(session) is None,
        h[p].reply == Reply::Answer(true),
        protocol::reload_session(h, p, session, process_id) is Some,
        protocol::create_session(
            h,
            p + 1,
            session,
            protocol::replacement_name(session.name@, process_id),
        ) matches Some((_, Err(_))),
    ensures
        protocol::reload_session(h, p, session, process_id) matches Some((q, Err(_))) && all_calls(
            h,
            p + 1,
            q,
            |c: Call| stays_with(c, protocol::replacement_name(session.name@, process_id)),
        ),
        protocol::replacement_name(session.name@, process_id) != session.name@,
{
    lemma_side_names(session.name@, process_id);
    lemma_create_session(
        h,
        p + 1,
        session,
        protocol::replacement_name(session.name@, process_id),
    );
}

/// The old session is moved aside only when its replacement has been built.
pub proof fn law_replacement_is_built_before_the_old_session_is_moved(
    h: Seq<Event>,
    p: int,
    session: Session,
    process_id: u32,
    i: int,
)
    requires
        0 <= p < h.len(),
        validate::session_error(session) is None,
        h[p].reply == Reply::Answer(true),
        protocol::reload_session(h, p, session, process_id) is Some,
        p <= i < protocol::end(protocol::reload_session(h, p, session, process_id)),
        h[i].call is RenameSession,
    ensures
        protocol::create_session(
            h,
            p + 1,
            session,
            protocol::replacement_name(session.name@, process_id),
        ) matches Some((k, Ok(_))) && k <= i,
{
    lemma_create_session(
        h,
        p + 1,
        session,
        protocol::replacement_name(session.name@, process_id),
    );
}

/// A reload never ends a session under its own name: what is ended is the replacement that failed,
/// or the old session when its replacement has taken its place.
pub proof fn law_reload_never_ends_the_session_by_name(
    h: Seq<Event>,
    p: int,
    session: Session,
    process_id: u32,
    i: int,
)
    requires
        0 <= p < h.len(),
        validate::session_error(session) is None,
        h[p].reply == Reply::Answer(true),
        protocol::reload_session(h, p, session, process_id) is Some,
        p <= i < protocol::end(protocol::reload_session(h, p, session, process_id)),
    ensures
        h[i].call != (Call::KillSession { name: session.name@ }),
{
    lemma_side_names(session.name@, process_id);
    lemma_create_session(
        h,
        p + 1,
        session,
        protocol::replacement_name(session.name@, process_id),
    );
}

/// If the replacement has been built and the old session moved aside, but the replacement cannot
/// get its name, the next thing that is asked is to give the old session its name back.
pub proof fn law_old_session_gets_its_name_back(
    h: Seq<Event>,
    p: int,
    name: Text,
    process_id: u32,
)
    requires
        0 <= p,
        p + 1 < h.len(),
        protocol::swap_in(h, p, name, process_id) is Some,
        h[p].reply matches Reply::Outcome(Ok(_)),
        h[p + 1].reply matches Reply::Outcome(Err(_)),
    ensures
        h[p].call == (Call::RenameSession {
            from: name,
            to: protocol::backup_name(name, process_id),
        }),
        p + 2 < h.len(),
        h[p + 2].call == (Call::RenameSession {
            from: protocol::backup_name(name, process_id),
            to: name,
        }),
{
}

// ─── Histories and outcomes ──────────────────────────────────────────────────

/// A history only grows: nothing in it changes or goes away.
pub proof fn law_history_only_grows(h: Seq<Event>, g: Seq<Event>)
    ensures
        protocol::extends(h, g) <==> g.len() <= h.len() && h.take(g.len() as int) == g,
{
    if protocol::extends(h, g) {
        assert(h.take(g.len() as int) =~= g);
    }
    if g.len() <= h.len() && h.take(g.len() as int) == g {
        assert forall|i: int| 0 <= i < g.len() implies #[trigger] h[i] == g[i] by {
            assert(h.take(g.len() as int)[i] == h[i]);
        }
    }
}

/// What a request comes to is what its result says: a failure with its messages, or a success with
/// the pane or the text that came back.
pub proof fn law_replies_are_results(
    r: Result<(), Error>,
    pane: Result<PaneId, Error>,
    output: Result<String, Error>,
)
    ensures
        match r {
            Ok(_) => backend::done(r) == Ok::<Text, Seq<Text>>(Seq::empty()),
            Err(e) => backend::done(r) == Err::<Text, Seq<Text>>(e@),
        },
        match pane {
            Ok(id) => backend::pane_reply(pane) == Ok::<Text, Seq<Text>>(id@),
            Err(e) => backend::pane_reply(pane) == Err::<Text, Seq<Text>>(e@),
        },
        match output {
            Ok(s) => backend::text_reply(output) == Ok::<Text, Seq<Text>>(s@),
            Err(e) => backend::text_reply(output) == Err::<Text, Seq<Text>>(e@),
        },
        match r {
            Ok(_) => error::failure(r) is None,
            Err(e) => error::failure(r) == Some(e@),
        },
{
}

} // verus!
