//! The exchange between the executor and its backend.
//!
//! Each function here reads a history from a position on and says what must stand there: the
//! requests that are made, in order, each depending on the replies to those before it. It gives
//! back the position at which the exchange ends and the outcome, or `None` where the history does
//! not go on as it must.

use crate::backend::{Call, Event, Reply};
use crate::checks;
use crate::layout_plan;
use crate::layout_plan::{LeafStep, SplitStep};
use crate::model;
use crate::model::{Session, Window};
use crate::template;
use crate::template::BuiltinVar;
use crate::text;
use crate::text::Text;
use crate::validate;
use crate::words::{TmuxName, TmuxOptionName, TmuxOptionValue};
use vstd::prelude::*;

verus! {

/// The outcome of an exchange: a value, or the messages of a failure.
pub type Outcome<T> = Result<T, Seq<Text>>;

/// Where an exchange ends, and with which outcome.
pub type Exchange<T> = Option<(int, Outcome<T>)>;

/// Where an exchange ends.
pub open spec fn end<T>(x: Exchange<T>) -> int {
    match x {
        Some((q, _)) => q,
        None => 0,
    }
}

/// The value that a successful exchange gives.
pub open spec fn value<T>(x: Exchange<T>) -> T {
    match x {
        Some((_, Ok(v))) => v,
        _ => arbitrary(),
    }
}

/// `h` starts with `g`.
pub open spec fn extends(h: Seq<Event>, g: Seq<Event>) -> bool {
    g.len() <= h.len() && forall|i: int| 0 <= i < g.len() ==> #[trigger] h[i] == g[i]
}

/// A request that gives back an outcome.
pub open spec fn ask(h: Seq<Event>, p: int, call: Call) -> Exchange<Text> {
    if 0 <= p < h.len() && h[p].call == call {
        match h[p].reply {
            Reply::Outcome(outcome) => Some((p + 1, outcome)),
            Reply::Answer(_) => None,
        }
    } else {
        None
    }
}

/// A request that gives back a yes or no.
pub open spec fn ask_whether(h: Seq<Event>, p: int, call: Call) -> Option<(int, bool)> {
    if 0 <= p < h.len() && h[p].call == call {
        match h[p].reply {
            Reply::Answer(b) => Some((p + 1, b)),
            Reply::Outcome(_) => None,
        }
    } else {
        None
    }
}

/// Nothing happens, and that is a success.
pub open spec fn nothing(p: int) -> Exchange<Text> {
    Some((p, Ok(Seq::empty())))
}

/// A request that is made only if there is something to ask for.
pub open spec fn ask_if(h: Seq<Event>, p: int, call: Option<Call>) -> Exchange<Text> {
    match call {
        Some(call) => ask(h, p, call),
        None => nothing(p),
    }
}

// ─── Working directories ─────────────────────────────────────────────────────

/// The values of built-in variables, asked for one after the other. `known` are those that are
/// known already.
pub open spec fn builtin_values(
    h: Seq<Event>,
    p: int,
    vars: Seq<BuiltinVar>,
    known: Seq<Text>,
) -> Exchange<Seq<Text>>
    decreases vars.len(),
{
    if vars.len() == 0 {
        Some((p, Ok(known)))
    } else {
        match ask(h, p, Call::BuiltinValue { var: vars[0] }) {
            Some((q, Ok(value))) => builtin_values(h, q, vars.skip(1), known.push(value)),
            Some((q, Err(e))) => Some((q, Err(e))),
            None => None,
        }
    }
}

/// The working directory of a window, with its placeholders replaced.
pub open spec fn working_dir(
    h: Seq<Event>,
    p: int,
    session: Session,
    window: Window,
) -> Exchange<Text> {
    let parts = template::parts(model::root_text(session, window), session.vars);
    match builtin_values(h, p, template::requests(parts), Seq::empty()) {
        Some((q, Ok(answers))) => {
            let root = template::filled(parts, answers);
            match checks::nul_error(root, "resolved tmux argument"@) {
                Some(e) => Some((q, Err(e))),
                None => Some((q, Ok(root))),
            }
        },
        Some((q, Err(e))) => Some((q, Err(e))),
        None => None,
    }
}

// ─── Configuring a window ────────────────────────────────────────────────────

/// Session options, set one after the other.
pub open spec fn set_options(
    h: Seq<Event>,
    p: int,
    name: Text,
    entries: Seq<(TmuxOptionName, TmuxOptionValue)>,
) -> Exchange<Text>
    decreases entries.len(),
{
    if entries.len() == 0 {
        nothing(p)
    } else {
        match ask(
            h,
            p,
            Call::SetOption { session: name, key: entries[0].0@, value: entries[0].1@ },
        ) {
            Some((q, Ok(_))) => set_options(h, q, name, entries.skip(1)),
            other => other,
        }
    }
}

/// Window options, set one after the other.
pub open spec fn set_window_options(
    h: Seq<Event>,
    p: int,
    name: Text,
    window: Text,
    entries: Seq<(TmuxOptionName, TmuxOptionValue)>,
) -> Exchange<Text>
    decreases entries.len(),
{
    if entries.len() == 0 {
        nothing(p)
    } else {
        match ask(
            h,
            p,
            Call::SetWindowOption {
                session: name,
                window,
                key: entries[0].0@,
                value: entries[0].1@,
            },
        ) {
            Some((q, Ok(_))) => set_window_options(h, q, name, window, entries.skip(1)),
            other => other,
        }
    }
}

/// The splits of a plan, made one after the other. `panes` are the ids of the panes so far, by
/// their indices in the plan; the outcome is the ids of all panes.
pub open spec fn make_splits(
    h: Seq<Event>,
    p: int,
    splits: Seq<SplitStep>,
    panes: Seq<Text>,
    root: Text,
    env: Seq<(Text, Text)>,
) -> Exchange<Seq<Text>>
    decreases splits.len(),
{
    if splits.len() == 0 {
        Some((p, Ok(panes)))
    } else {
        match ask(
            h,
            p,
            Call::SplitWindow {
                pane: panes[splits[0].parent],
                flag: splits[0].flag,
                pct: splits[0].pct,
                root,
                env,
            },
        ) {
            Some((q, Ok(pane))) => make_splits(h, q, splits.skip(1), panes.push(pane), root, env),
            Some((q, Err(e))) => Some((q, Err(e))),
            None => None,
        }
    }
}

/// The message of a pattern that was not seen in time.
pub open spec fn timeout_message(pane: Text, pattern: Text, timeout: nat) -> Text {
    "timeout after "@ + text::decimal(timeout) + "s: "@ + text::debug_text(pattern)
        + " not seen in pane "@ + pane
}

/// The output of a pane, looked at once a second until the pattern is seen, `left` times at most.
pub open spec fn await_pattern(
    h: Seq<Event>,
    p: int,
    pane: Text,
    pattern: Text,
    timeout: nat,
    left: nat,
) -> Exchange<Text>
    decreases left,
{
    if left == 0 {
        Some((p, Err(seq![timeout_message(pane, pattern, timeout)])))
    } else {
        match ask(h, p, Call::CapturePane { pane }) {
            Some((q, Ok(output))) => if text::occurs(output, pattern) {
                nothing(q)
            } else {
                match ask(h, q, Call::Pause) {
                    Some((q2, Ok(_))) => await_pattern(
                        h,
                        q2,
                        pane,
                        pattern,
                        timeout,
                        (left - 1) as nat,
                    ),
                    _ => None,
                }
            },
            other => other,
        }
    }
}

/// What a pane waits for.
pub open spec fn await_if(
    h: Seq<Event>,
    p: int,
    pane: Text,
    wait_for: Option<(Text, u32)>,
) -> Exchange<Text> {
    match wait_for {
        Some((pattern, timeout)) => await_pattern(
            h,
            p,
            pane,
            pattern,
            timeout as nat,
            timeout as nat,
        ),
        None => nothing(p),
    }
}

/// The request that types the command of a leaf.
pub open spec fn command_call(leaf: LeafStep, pane: Text) -> Option<Call> {
    match leaf.command {
        Some(keys) => Some(Call::SendKeys { pane, keys }),
        None => None,
    }
}

/// The request that sets the title of a leaf.
pub open spec fn title_call(leaf: LeafStep, pane: Text) -> Option<Call> {
    match leaf.title {
        Some(title) => Some(Call::SetPaneTitle { pane, title }),
        None => None,
    }
}

/// A pane is configured: its command is typed, its pattern awaited, its title set.
pub open spec fn configure_leaf(
    h: Seq<Event>,
    p: int,
    leaf: LeafStep,
    pane: Text,
) -> Exchange<Text> {
    match ask_if(h, p, command_call(leaf, pane)) {
        Some((q, Ok(_))) => match await_if(h, q, pane, leaf.wait_for) {
            Some((q2, Ok(_))) => ask_if(h, q2, title_call(leaf, pane)),
            other => other,
        },
        other => other,
    }
}

/// The panes are configured one after the other.
pub open spec fn configure_leaves(
    h: Seq<Event>,
    p: int,
    leaves: Seq<LeafStep>,
    panes: Seq<Text>,
) -> Exchange<Text>
    decreases leaves.len(),
{
    if leaves.len() == 0 {
        nothing(p)
    } else {
        match configure_leaf(h, p, leaves[0], panes[leaves[0].pane]) {
            Some((q, Ok(_))) => configure_leaves(h, q, leaves.skip(1), panes),
            other => other,
        }
    }
}

/// The request that applies the layout preset of a window.
pub open spec fn preset_call(name: Text, window: Window) -> Option<Call> {
    match window.select_layout {
        Some(preset) => Some(
            Call::SelectLayout { session: name, window: window.name@, preset: preset@ },
        ),
        None => None,
    }
}

/// The request that moves the focus.
pub open spec fn focus_call(leaves: Seq<LeafStep>, panes: Seq<Text>) -> Option<Call> {
    match layout_plan::focused(leaves) {
        Some(i) => Some(Call::SelectPane { pane: panes[i] }),
        None => None,
    }
}

/// A window whose panes have been built is finished: window options, layout preset, focus.
pub open spec fn finish_window(
    h: Seq<Event>,
    p: int,
    name: Text,
    window: Window,
    leaves: Seq<LeafStep>,
    panes: Seq<Text>,
) -> Exchange<Text> {
    match set_window_options(h, p, name, window.name@, window.options@) {
        Some((q, Ok(_))) => match ask_if(h, q, preset_call(name, window)) {
            Some((q2, Ok(_))) => ask_if(h, q2, focus_call(leaves, panes)),
            other => other,
        },
        other => other,
    }
}

/// The session options that are set with the window at `index`: all of them with the first window.
pub open spec fn options_with(
    session: Session,
    index: int,
) -> Seq<(TmuxOptionName, TmuxOptionValue)> {
    if index == 0 {
        session.options@
    } else {
        Seq::empty()
    }
}

/// A window is configured, from its initial pane on: first all its panes are built, then each is
/// configured.
pub open spec fn configure_window(
    h: Seq<Event>,
    p: int,
    session: Session,
    name: Text,
    index: int,
    root: Text,
    initial: Text,
) -> Exchange<Text> {
    let window = session.windows@[index];
    let plan = layout_plan::plan_of(window.layout, session.vars);
    let env = model::pane_env(session, window);
    match set_options(h, p, name, options_with(session, index)) {
        Some((q, Ok(_))) => match make_splits(h, q, plan.splits, seq![initial], root, env) {
            Some((q2, Ok(panes))) => match configure_leaves(h, q2, plan.leaves, panes) {
                Some((q3, Ok(_))) => finish_window(h, q3, name, window, plan.leaves, panes),
                other => other,
            },
            Some((q2, Err(e))) => Some((q2, Err(e))),
            None => None,
        },
        other => other,
    }
}

// ─── Creating a session ──────────────────────────────────────────────────────

/// The messages of a session that was ended again, because of `cause`.
pub open spec fn rolled_back(name: Text, cause: Seq<Text>) -> Seq<Text> {
    seq![
        "rolled back partially created tmux session "@ + text::debug_text(name) + " after error: "@
            + cause[0],
    ] + cause
}

/// The messages of a session that could not be ended again.
pub open spec fn not_rolled_back(name: Text, cause: Seq<Text>, e: Seq<Text>) -> Seq<Text> {
    seq![
        "failed to roll back partially created tmux session "@ + text::debug_text(name)
            + " after error: "@ + cause[0] + ": "@ + e[0],
    ] + cause
}

/// A session that could not be completed is ended.
pub open spec fn roll_back(h: Seq<Event>, p: int, name: Text, cause: Seq<Text>) -> Exchange<Text> {
    match ask(h, p, Call::KillSession { name }) {
        Some((q, Ok(_))) => Some((q, Err(rolled_back(name, cause)))),
        Some((q, Err(e))) => Some((q, Err(not_rolled_back(name, cause, e)))),
        None => None,
    }
}

/// The request that creates the window at `index`: the first one comes with the session.
pub open spec fn creation_call(session: Session, name: Text, index: int, root: Text) -> Call {
    let window = session.windows@[index];
    let env = model::pane_env(session, window);
    if index == 0 {
        Call::NewSession { name, root, window: window.name@, env }
    } else {
        Call::NewWindow { session: name, name: window.name@, root, env }
    }
}

/// The window at `index` is created and configured. If the first one cannot be configured, the
/// session that came with it is ended.
pub open spec fn create_window(
    h: Seq<Event>,
    p: int,
    session: Session,
    name: Text,
    index: int,
) -> Exchange<Text> {
    match working_dir(h, p, session, session.windows@[index]) {
        Some((q, Ok(root))) => match ask(h, q, creation_call(session, name, index, root)) {
            Some((q2, Ok(initial))) => match configure_window(
                h,
                q2,
                session,
                name,
                index,
                root,
                initial,
            ) {
                Some((q3, Err(e))) => if index == 0 {
                    roll_back(h, q3, name, e)
                } else {
                    Some((q3, Err(e)))
                },
                other => other,
            },
            other => other,
        },
        other => other,
    }
}

/// The windows from `index` on are created. If one of them fails after the first, the session is
/// ended.
pub open spec fn create_windows(
    h: Seq<Event>,
    p: int,
    session: Session,
    name: Text,
    index: int,
) -> Exchange<Text>
    decreases session.windows@.len() - index,
{
    if index < 0 || index >= session.windows@.len() {
        nothing(p)
    } else {
        match create_window(h, p, session, name, index) {
            Some((q, Ok(_))) => create_windows(h, q, session, name, index + 1),
            Some((q, Err(e))) => if index > 0 {
                roll_back(h, q, name, e)
            } else {
                Some((q, Err(e)))
            },
            None => None,
        }
    }
}

/// The request that runs the hook of a session.
pub open spec fn hook_call(session: Session) -> Option<Call> {
    match session.pre_hook {
        Some(hook) => Some(
            Call::RunCommand { command: template::resolved(hook@, session.vars) },
        ),
        None => None,
    }
}

/// The session is created under `name`: its hook runs, then its windows are created.
pub open spec fn create_session(
    h: Seq<Event>,
    p: int,
    session: Session,
    name: Text,
) -> Exchange<Text> {
    match ask_if(h, p, hook_call(session)) {
        Some((q, Ok(_))) => create_windows(h, q, session, name, 0),
        other => other,
    }
}

// ─── Replacing a session ─────────────────────────────────────────────────────

/// The name of a session that exists for the time of a reload.
pub open spec fn side_name(name: Text, suffix: Text, process_id: u32) -> Text {
    name + "__ntd_reload_"@ + suffix + "_"@ + text::decimal(process_id as nat)
}

/// The name under which the replacement of a session is built.
pub open spec fn replacement_name(name: Text, process_id: u32) -> Text {
    side_name(name, "new"@, process_id)
}

/// The name under which the old session is kept until its replacement is in place.
pub open spec fn backup_name(name: Text, process_id: u32) -> Text {
    side_name(name, "old"@, process_id)
}

/// The message of a replacement that could not be given its name.
pub open spec fn promotion_message(
    name: Text,
    replacement: Text,
    backup: Text,
    restored: Outcome<Text>,
    removed: Outcome<Text>,
) -> Text {
    let base = "failed to promote replacement tmux session "@ + text::debug_text(replacement)
        + " to "@ + text::debug_text(name);
    let with_restore = match restored {
        Ok(_) => base,
        Err(e) => base + "; also failed to restore original session from "@ + text::debug_text(
            backup,
        ) + ": "@ + e[0],
    };
    match removed {
        Ok(_) => with_restore,
        Err(e) => with_restore + "; also failed to remove replacement session "@
            + text::debug_text(replacement) + ": "@ + e[0],
    }
}

/// The replacement, which has been built, takes the place of the session that runs: that one is
/// moved aside, the replacement gets its name, and then the old session is ended. If the
/// replacement cannot get the name, the old session gets it back.
pub open spec fn swap_in(h: Seq<Event>, p: int, name: Text, process_id: u32) -> Exchange<Text> {
    let replacement = replacement_name(name, process_id);
    let backup = backup_name(name, process_id);
    match ask(h, p, Call::RenameSession { from: name, to: backup }) {
        Some((q, Ok(_))) => match ask(h, q, Call::RenameSession { from: replacement, to: name }) {
            Some((q2, Ok(_))) => match ask(h, q2, Call::KillSession { name: backup }) {
                Some((q3, Err(e))) => Some(
                    (
                        q3,
                        Err(
                            seq![
                                "replacement tmux session "@ + text::debug_text(name)
                                    + " is active, but failed to remove backup session "@
                                    + text::debug_text(backup),
                            ] + e,
                        ),
                    ),
                ),
                other => other,
            },
            Some((q2, Err(e))) => match ask(h, q2, Call::RenameSession { from: backup, to: name }) {
                Some((q3, restored)) => match ask(h, q3, Call::KillSession { name: replacement }) {
                    Some((q4, removed)) => Some(
                        (
                            q4,
                            Err(
                                seq![
                                    promotion_message(name, replacement, backup, restored, removed),
                                ] + e,
                            ),
                        ),
                    ),
                    None => None,
                },
                None => None,
            },
            None => None,
        },
        Some((q, Err(e))) => match ask(h, q, Call::KillSession { name: replacement }) {
            Some((q2, _)) => Some(
                (
                    q2,
                    Err(
                        seq![
                            "failed to move existing tmux session "@ + TmuxName::debug(name)
                                + " aside"@,
                        ] + e,
                    ),
                ),
            ),
            None => None,
        },
        None => None,
    }
}

/// A session that runs is replaced: the replacement is built under a name of its own, and only
/// when it is complete does it take the place of the old session.
pub open spec fn replace_session(
    h: Seq<Event>,
    p: int,
    session: Session,
    process_id: u32,
) -> Exchange<Text> {
    let replacement = replacement_name(session.name@, process_id);
    match create_session(h, p, session, replacement) {
        Some((q, Ok(_))) => swap_in(h, q, session.name@, process_id),
        Some((q, Err(e))) => Some(
            (
                q,
                Err(
                    seq![
                        "failed to build replacement tmux session "@ + text::debug_text(replacement),
                    ] + e,
                ),
            ),
        ),
        None => None,
    }
}

// ─── Run and reload ──────────────────────────────────────────────────────────

/// The first window of a session that runs becomes the current one, and the terminal is handed
/// over to the session.
pub open spec fn enter_session(h: Seq<Event>, p: int, session: Session) -> Exchange<Text> {
    match ask(
        h,
        p,
        Call::SelectWindow { session: session.name@, window: session.windows@[0].name@ },
    ) {
        Some((q, Ok(_))) => ask(h, q, Call::AttachOrSwitch { session: session.name@ }),
        other => other,
    }
}

/// A session is run: one that exists is entered as it is, another one is created first.
pub open spec fn run_session(h: Seq<Event>, p: int, session: Session) -> Exchange<Text> {
    match validate::session_error(session) {
        Some(e) => Some((p, Err(e))),
        None => match ask_whether(h, p, Call::HasSession { name: session.name@ }) {
            Some((q, true)) => ask(h, q, Call::AttachOrSwitch { session: session.name@ }),
            Some((q, false)) => match create_session(h, q, session, session.name@) {
                Some((q2, Ok(_))) => enter_session(h, q2, session),
                other => other,
            },
            None => None,
        },
    }
}

/// A session is reloaded: one that exists is replaced, another one is created.
pub open spec fn reload_session(
    h: Seq<Event>,
    p: int,
    session: Session,
    process_id: u32,
) -> Exchange<Text> {
    match validate::session_error(session) {
        Some(e) => Some((p, Err(e))),
        None => match ask_whether(h, p, Call::HasSession { name: session.name@ }) {
            Some((q, exists)) => {
                let built = if exists {
                    replace_session(h, q, session, process_id)
                } else {
                    create_session(h, q, session, session.name@)
                };
                match built {
                    Some((q2, Ok(_))) => enter_session(h, q2, session),
                    other => other,
                }
            },
            None => None,
        },
    }
}

} // verus!
