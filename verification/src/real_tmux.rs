//! The command lines that the real backend runs, and what it makes of their results.

use crate::attach::{AttachAction, AttachMode};
use crate::backend::Call;
use crate::checks;
use crate::error;
use crate::error::Error;
use crate::model;
use crate::model::{EnvVar, TmuxSplitFlag};
use crate::ratio;
use crate::ratio::TmuxPanePercent;
use crate::template::BuiltinVar;
use crate::text;
use crate::text::Text;
use crate::validate;
use crate::words::{
    PaneCommand, PaneId, PaneTitle, ResolvedTmuxArg, ShellCommand, TmuxLayoutPreset, TmuxName,
    TmuxOptionName, TmuxOptionValue,
};
use vstd::prelude::*;
use vstd::string::*;
use vstd::utf8::*;

verus! {

/// The backend that runs the `tmux` binary.
#[derive(Debug, Clone, Copy)]
pub struct RealTmux {
    /// When the terminal is handed over.
    pub attach_mode: AttachMode,
}

impl RealTmux {
    /// A backend with the given attach mode.
    pub fn new(attach_mode: AttachMode) -> (r: RealTmux)
        ensures
            r == (RealTmux { attach_mode }),
    {
        RealTmux { attach_mode }
    }
}

impl Default for RealTmux {
    fn default() -> (r: RealTmux)
        ensures
            r == (RealTmux { attach_mode: AttachMode::Auto }),
    {
        RealTmux { attach_mode: AttachMode::Auto }
    }
}

// ─── Command lines ───────────────────────────────────────────────────────────

/// The arguments that pass an environment.
pub open spec fn env_options(env: Seq<(Text, Text)>) -> Seq<Text>
    decreases env.len(),
{
    if env.len() == 0 {
        Seq::empty()
    } else {
        env_options(env.drop_last()) + seq!["-e"@, env.last().0 + "="@ + env.last().1]
    }
}

/// The arguments that make tmux print the id of the pane it creates.
pub open spec fn print_id() -> Seq<Text> {
    seq!["-P"@, "-F"@, "#{pane_id}"@]
}

/// The target of a command on a window.
pub open spec fn window_target(session: Text, window: Text) -> Text {
    session + ":"@ + window
}

/// The command lines that carry out a request, program first, in the order in which they run. What
/// is asked of the process itself, and what depends on its surroundings, has none.
pub open spec fn command_lines(call: Call) -> Seq<Seq<Text>> {
    match call {
        Call::HasSession { name } => seq![seq!["tmux"@, "has-session"@, "-t"@, name]],
        Call::NewSession { name, root, window, env } => seq![
            seq!["tmux"@, "new-session"@, "-d"@, "-s"@, name, "-c"@, root, "-n"@, window]
                + env_options(env) + print_id(),
        ],
        Call::SplitWindow { pane, flag, pct, root, env } => seq![
            seq![
                "tmux"@,
                "split-window"@,
                "-t"@,
                pane,
                model::flag_text(flag),
                "-l"@,
                ratio::tmux_size(pct),
                "-c"@,
                root,
            ] + env_options(env) + print_id(),
        ],
        Call::NewWindow { session, name, root, env } => seq![
            seq!["tmux"@, "new-window"@, "-t"@, session, "-n"@, name, "-c"@, root] + env_options(
                env,
            ) + print_id(),
        ],
        Call::SendKeys { pane, keys } => seq![
            seq!["tmux"@, "send-keys"@, "-t"@, pane, "-l"@, "--"@, keys],
            seq!["tmux"@, "send-keys"@, "-t"@, pane, "Enter"@],
        ],
        Call::SelectPane { pane } => seq![seq!["tmux"@, "select-pane"@, "-t"@, pane]],
        Call::SetPaneTitle { pane, title } => seq![
            seq!["tmux"@, "select-pane"@, "-t"@, pane, "-T"@, title],
        ],
        Call::SetOption { session, key, value } => seq![
            seq!["tmux"@, "set-option"@, "-t"@, session, "--"@, key, value],
        ],
        Call::SetWindowOption { session, window, key, value } => seq![
            seq![
                "tmux"@,
                "set-window-option"@,
                "-t"@,
                window_target(session, window),
                "--"@,
                key,
                value,
            ],
        ],
        Call::SelectLayout { session, window, preset } => seq![
            seq!["tmux"@, "select-layout"@, "-t"@, window_target(session, window), "--"@, preset],
        ],
        Call::SelectWindow { session, window } => seq![
            seq!["tmux"@, "select-window"@, "-t"@, window_target(session, window)],
        ],
        Call::AttachOrSwitch { session } => Seq::empty(),
        Call::KillSession { name } => seq![seq!["tmux"@, "kill-session"@, "-t"@, name]],
        Call::RenameSession { from, to } => seq![
            seq!["tmux"@, "rename-session"@, "-t"@, from, to],
        ],
        Call::CapturePane { pane } => seq![seq!["tmux"@, "capture-pane"@, "-t"@, pane, "-p"@]],
        Call::RunCommand { command } => seq![seq!["bash"@, "-c"@, command]],
        Call::BuiltinValue { var } => match var {
            BuiltinVar::Cwd => Seq::empty(),
            BuiltinVar::Date => seq![seq!["date"@, "+%Y-%m-%d"@]],
            BuiltinVar::GitBranch => seq![
                seq!["git"@, "rev-parse"@, "--abbrev-ref"@, "HEAD"@],
            ],
        },
        Call::Pause => Seq::empty(),
    }
}

/// The texts of a list of string slices.
pub open spec fn slices(parts: Seq<&str>) -> Seq<Text> {
    parts.map_values(|s: &str| s@)
}

fn owned(parts: Vec<&str>) -> (r: Vec<String>)
    ensures
        text::views(r@) == slices(parts@),
{
    let mut out: Vec<String> = Vec::new();
    for i in 0..parts.len()
        invariant
            text::views(out@) == slices(parts@).take(i as int),
    {
        let ghost before = out@;
        out.push(parts[i].to_owned());
        assert(text::views(out@) == text::views(before).push(parts@[i as int]@));
        assert(text::views(out@) == slices(parts@).take(i + 1));
    }
    assert(slices(parts@).take(parts@.len() as int) == slices(parts@));
    out
}

/// Adds the arguments that pass `env`, then those that make tmux print the id of the new pane.
fn with_env(args: Vec<String>, env: &[EnvVar]) -> (r: Vec<String>)
    ensures
        text::views(r@) == text::views(args@) + env_options(model::env_views(env@)) + print_id(),
{
    let mut out = args;
    let ghost start = text::views(args@);
    let ghost pairs = model::env_views(env@);
    assert(text::views(out@) == start + env_options(pairs.take(0)));
    for i in 0..env.len()
        invariant
            pairs == model::env_views(env@),
            text::views(out@) == start + env_options(pairs.take(i as int)),
    {
        let ghost before = text::views(out@);
        let pair = env[i].key.as_str().to_owned().concat("=").concat(env[i].value.as_str());
        out.push("-e".to_owned());
        assert(text::views(out@) == before.push("-e"@));
        out.push(pair);
        assert(text::views(out@) == before.push("-e"@).push(pair@));
        assert(pairs.take(i + 1).drop_last() == pairs.take(i as int));
        assert(pairs.take(i + 1).last() == env@[i as int]@);
        assert(text::views(out@) == start + env_options(pairs.take(i + 1)));
    }
    assert(pairs.take(pairs.len() as int) == pairs);
    let ghost before = text::views(out@);
    out.push("-P".to_owned());
    assert(text::views(out@) == before.push("-P"@));
    out.push("-F".to_owned());
    assert(text::views(out@) == before.push("-P"@).push("-F"@));
    out.push("#{pane_id}".to_owned());
    assert(text::views(out@) == before + print_id());
    out
}

fn target(session: &TmuxName, window: &TmuxName) -> (r: String)
    ensures
        r@ == window_target(session@, window@),
{
    session.as_str().to_owned().concat(":").concat(window.as_str())
}

/// The command line that asks whether a session exists.
pub fn has_session_command(name: &TmuxName) -> (r: Vec<String>)
    ensures
        text::views(r@) == command_lines((Call::HasSession { name: name@ }))[0],
{
    let r = owned(vec!["tmux", "has-session", "-t", name.as_str()]);
    assert(text::views(r@) == command_lines((Call::HasSession { name: name@ }))[0]);
    r
}

/// The command line that creates a detached session.
pub fn new_session_command(
    name: &TmuxName,
    root: &ResolvedTmuxArg,
    window_name: &TmuxName,
    env: &[EnvVar],
) -> (r: Vec<String>)
    ensures
        text::views(r@) == command_lines(
            (Call::NewSession {
                name: name@,
                root: root@,
                window: window_name@,
                env: model::env_views(env@),
            }),
        )[0],
{
    let args = owned(
        vec![
            "tmux",
            "new-session",
            "-d",
            "-s",
            name.as_str(),
            "-c",
            root.as_str(),
            "-n",
            window_name.as_str(),
        ],
    );
    let r = with_env(args, env);
    assert(
        text::views(r@) == command_lines(
            (Call::NewSession {
                name: name@,
                root: root@,
                window: window_name@,
                env: model::env_views(env@),
            }),
        )[0]
    );
    r
}

/// The command line that splits a pane.
pub fn split_window_command(
    pane_id: &PaneId,
    flag: TmuxSplitFlag,
    pct: TmuxPanePercent,
    root: &ResolvedTmuxArg,
    env: &[EnvVar],
) -> (r: Vec<String>)
    ensures
        text::views(r@) == command_lines(
            (Call::SplitWindow {
                pane: pane_id@,
                flag,
                pct: pct@,
                root: root@,
                env: model::env_views(env@),
            }),
        )[0],
{
    let size = pct.as_tmux_size();
    let args = owned(
        vec![
            "tmux",
            "split-window",
            "-t",
            pane_id.as_str(),
            flag.as_str(),
            "-l",
            size.as_str(),
            "-c",
            root.as_str(),
        ],
    );
    let r = with_env(args, env);
    assert(
        text::views(r@) == command_lines(
            (Call::SplitWindow {
                pane: pane_id@,
                flag,
                pct: pct@,
                root: root@,
                env: model::env_views(env@),
            }),
        )[0]
    );
    r
}

/// The command line that adds a window.
pub fn new_window_command(
    session: &TmuxName,
    name: &TmuxName,
    root: &ResolvedTmuxArg,
    env: &[EnvVar],
) -> (r: Vec<String>)
    ensures
        text::views(r@) == command_lines(
            (Call::NewWindow {
                session: session@,
                name: name@,
                root: root@,
                env: model::env_views(env@),
            }),
        )[0],
{
    let args = owned(
        vec![
            "tmux",
            "new-window",
            "-t",
            session.as_str(),
            "-n",
            name.as_str(),
            "-c",
            root.as_str(),
        ],
    );
    let r = with_env(args, env);
    assert(
        text::views(r@) == command_lines(
            (Call::NewWindow {
                session: session@,
                name: name@,
                root: root@,
                env: model::env_views(env@),
            }),
        )[0]
    );
    r
}

/// The command line that types text into a pane.
pub fn type_text_command(pane_id: &PaneId, keys: &PaneCommand) -> (r: Vec<String>)
    ensures
        text::views(r@) == command_lines((Call::SendKeys { pane: pane_id@, keys: keys@ }))[0],
{
    let r = owned(vec!["tmux", "send-keys", "-t", pane_id.as_str(), "-l", "--", keys.as_str()]);
    assert(text::views(r@) == command_lines((Call::SendKeys { pane: pane_id@, keys: keys@ }))[0]);
    r
}

/// The command line that presses Enter in a pane, whatever has been typed.
pub fn press_enter_command(pane_id: &PaneId) -> (r: Vec<String>)
    ensures
        forall|keys: Text|
            (#[trigger] command_lines((Call::SendKeys { pane: pane_id@, keys })))[1] == text::views(
                r@,
            ),
{
    let r = owned(vec!["tmux", "send-keys", "-t", pane_id.as_str(), "Enter"]);
    assert(text::views(r@) == seq!["tmux"@, "send-keys"@, "-t"@, pane_id@, "Enter"@]);
    r
}

/// The command line that moves the focus.
pub fn select_pane_command(pane_id: &PaneId) -> (r: Vec<String>)
    ensures
        text::views(r@) == command_lines((Call::SelectPane { pane: pane_id@ }))[0],
{
    let r = owned(vec!["tmux", "select-pane", "-t", pane_id.as_str()]);
    assert(text::views(r@) == command_lines((Call::SelectPane { pane: pane_id@ }))[0]);
    r
}

/// The command line that sets a title.
pub fn set_pane_title_command(pane_id: &PaneId, title: &PaneTitle) -> (r: Vec<String>)
    ensures
        text::views(r@) == command_lines((Call::SetPaneTitle { pane: pane_id@, title: title@ }))[0],
{
    let r = owned(vec!["tmux", "select-pane", "-t", pane_id.as_str(), "-T", title.as_str()]);
    assert(
        text::views(r@) == command_lines((Call::SetPaneTitle { pane: pane_id@, title: title@ }))[0]
    );
    r
}

/// The command line that sets a session option. The `--` keeps tmux from reading it as a flag.
pub fn set_option_command(
    session: &TmuxName,
    key: &TmuxOptionName,
    value: &TmuxOptionValue,
) -> (r: Vec<String>)
    ensures
        text::views(r@) == command_lines(
            (Call::SetOption { session: session@, key: key@, value: value@ }),
        )[0],
{
    let r = owned(
        vec!["tmux", "set-option", "-t", session.as_str(), "--", key.as_str(), value.as_str()],
    );
    assert(
        text::views(r@) == command_lines(
            (Call::SetOption { session: session@, key: key@, value: value@ }),
        )[0]
    );
    r
}

/// The command line that sets a window option. The `--` keeps tmux from reading it as a flag.
pub fn set_window_option_command(
    session: &TmuxName,
    window: &TmuxName,
    key: &TmuxOptionName,
    value: &TmuxOptionValue,
) -> (r: Vec<String>)
    ensures
        text::views(r@) == command_lines(
            (Call::SetWindowOption {
                session: session@,
                window: window@,
                key: key@,
                value: value@,
            }),
        )[0],
{
    let at = target(session, window);
    let r = owned(
        vec!["tmux", "set-window-option", "-t", at.as_str(), "--", key.as_str(), value.as_str()],
    );
    assert(
        text::views(r@) == command_lines(
            (Call::SetWindowOption {
                session: session@,
                window: window@,
                key: key@,
                value: value@,
            }),
        )[0]
    );
    r
}

/// The command line that applies a layout preset.
pub fn select_layout_command(
    session: &TmuxName,
    window: &TmuxName,
    preset: &TmuxLayoutPreset,
) -> (r: Vec<String>)
    ensures
        text::views(r@) == command_lines(
            (Call::SelectLayout { session: session@, window: window@, preset: preset@ }),
        )[0],
{
    let at = target(session, window);
    let r = owned(vec!["tmux", "select-layout", "-t", at.as_str(), "--", preset.as_str()]);
    assert(
        text::views(r@) == command_lines(
            (Call::SelectLayout { session: session@, window: window@, preset: preset@ }),
        )[0]
    );
    r
}

/// The command line that makes a window the current one.
pub fn select_window_command(session: &TmuxName, window: &TmuxName) -> (r: Vec<String>)
    ensures
        text::views(r@) == command_lines(
            (Call::SelectWindow { session: session@, window: window@ }),
        )[0],
{
    let at = target(session, window);
    let r = owned(vec!["tmux", "select-window", "-t", at.as_str()]);
    assert(
        text::views(r@) == command_lines(
            (Call::SelectWindow { session: session@, window: window@ }),
        )[0]
    );
    r
}

/// The command line that ends a session.
pub fn kill_session_command(name: &TmuxName) -> (r: Vec<String>)
    ensures
        text::views(r@) == command_lines((Call::KillSession { name: name@ }))[0],
{
    let r = owned(vec!["tmux", "kill-session", "-t", name.as_str()]);
    assert(text::views(r@) == command_lines((Call::KillSession { name: name@ }))[0]);
    r
}

/// The command line that renames a session.
pub fn rename_session_command(from: &TmuxName, to: &TmuxName) -> (r: Vec<String>)
    ensures
        text::views(r@) == command_lines((Call::RenameSession { from: from@, to: to@ }))[0],
{
    let r = owned(vec!["tmux", "rename-session", "-t", from.as_str(), to.as_str()]);
    assert(text::views(r@) == command_lines((Call::RenameSession { from: from@, to: to@ }))[0]);
    r
}

/// The command line that prints what a pane shows.
pub fn capture_pane_command(pane_id: &PaneId) -> (r: Vec<String>)
    ensures
        text::views(r@) == command_lines((Call::CapturePane { pane: pane_id@ }))[0],
{
    let r = owned(vec!["tmux", "capture-pane", "-t", pane_id.as_str(), "-p"]);
    assert(text::views(r@) == command_lines((Call::CapturePane { pane: pane_id@ }))[0]);
    r
}

/// The command line that runs a shell command.
pub fn run_command_command(cmd: &ShellCommand) -> (r: Vec<String>)
    ensures
        text::views(r@) == command_lines((Call::RunCommand { command: cmd@ }))[0],
{
    let r = owned(vec!["bash", "-c", cmd.as_str()]);
    assert(text::views(r@) == command_lines((Call::RunCommand { command: cmd@ }))[0]);
    r
}

/// The command line that makes tmux print the names of its sessions, one a line.
pub fn list_sessions_command() -> (r: Vec<String>)
    ensures
        text::views(r@) == seq!["tmux"@, "list-sessions"@, "-F"@, "#{session_name}"@],
{
    let r = owned(vec!["tmux", "list-sessions", "-F", "#{session_name}"]);
    assert(text::views(r@) == seq!["tmux"@, "list-sessions"@, "-F"@, "#{session_name}"@]);
    r
}

/// The command line that prints the value of a built-in variable; none for the current directory.
pub fn builtin_command(var: BuiltinVar) -> (r: Option<Vec<String>>)
    ensures
        match r {
            Some(args) => command_lines(Call::BuiltinValue { var }) == seq![text::views(args@)],
            None => command_lines(Call::BuiltinValue { var }).len() == 0,
        },
{
    match var {
        BuiltinVar::Cwd => None,
        BuiltinVar::Date => {
            let r = owned(vec!["date", "+%Y-%m-%d"]);
            assert(text::views(r@) == seq!["date"@, "+%Y-%m-%d"@]);
            Some(r)
        },
        BuiltinVar::GitBranch => {
            let r = owned(vec!["git", "rev-parse", "--abbrev-ref", "HEAD"]);
            assert(text::views(r@) == seq!["git"@, "rev-parse"@, "--abbrev-ref"@, "HEAD"@]);
            Some(r)
        },
    }
}

// ─── Handing the terminal over ───────────────────────────────────────────────

/// The command line that hands the terminal over; none where the session is left detached.
pub open spec fn handover_line(action: AttachAction, session: Text) -> Option<Seq<Text>> {
    match action {
        AttachAction::Switch => Some(seq!["tmux"@, "switch-client"@, "-t"@, session]),
        AttachAction::Attach => Some(seq!["tmux"@, "attach-session"@, "-t"@, session]),
        AttachAction::Skip => None,
    }
}

/// The command line that hands the terminal over to `session`.
pub fn handover_command(action: AttachAction, session: &TmuxName) -> (r: Option<Vec<String>>)
    ensures
        match r {
            Some(args) => handover_line(action, session@) == Some(text::views(args@)),
            None => handover_line(action, session@) is None,
        },
{
    match action {
        AttachAction::Switch => {
            let r = owned(vec!["tmux", "switch-client", "-t", session.as_str()]);
            assert(text::views(r@) == seq!["tmux"@, "switch-client"@, "-t"@, session@]);
            Some(r)
        },
        AttachAction::Attach => {
            let r = owned(vec!["tmux", "attach-session", "-t", session.as_str()]);
            assert(text::views(r@) == seq!["tmux"@, "attach-session"@, "-t"@, session@]);
            Some(r)
        },
        AttachAction::Skip => None,
    }
}

/// What the caller is told when the session is left detached.
pub fn detached_notice(session: &TmuxName) -> (r: String)
    ensures
        r@ == "nix-tmux-define: session "@ + text::debug_text(session@)
            + " is ready (not attaching). Attach later with: tmux attach -t "@ + session@,
{
    "nix-tmux-define: session ".to_owned().concat(
        text::debug_string(session.as_str()).as_str(),
    ).concat(" is ready (not attaching). Attach later with: tmux attach -t ").concat(
        session.as_str(),
    )
}

// ─── Results ─────────────────────────────────────────────────────────────────

/// What came of a process that has ended.
#[derive(Debug)]
pub struct CommandResult {
    /// Whether it was successful.
    pub success: bool,
    /// Its exit code, if it has one.
    pub code: Option<i32>,
    /// Its exit status in words.
    pub status: String,
    pub stdout: Vec<u8>,
    pub stderr: Vec<u8>,
}

/// What a process is run for.
#[derive(Debug, Clone, Copy, PartialEq, Eq, Structural)]
pub enum Purpose {
    NewSession,
    SplitWindow,
    NewWindow,
    TypeText,
    PressEnter,
    SelectPane,
    SetPaneTitle,
    SetOption,
    SetWindowOption,
    SelectLayout,
    SelectWindow,
    Handover,
    KillSession,
    RenameSession,
    CapturePane,
    RunHook,
}

/// How messages name what a process was run for.
pub open spec fn purpose_text(purpose: Purpose) -> Text {
    match purpose {
        Purpose::NewSession => "tmux new-session"@,
        Purpose::SplitWindow => "tmux split-window"@,
        Purpose::NewWindow => "tmux new-window"@,
        Purpose::TypeText => "tmux send-keys literal"@,
        Purpose::PressEnter => "tmux send-keys Enter"@,
        Purpose::SelectPane => "tmux select-pane"@,
        Purpose::SetPaneTitle => "tmux set-pane-title"@,
        Purpose::SetOption => "tmux set-option"@,
        Purpose::SetWindowOption => "tmux set-window-option"@,
        Purpose::SelectLayout => "tmux select-layout"@,
        Purpose::SelectWindow => "tmux select-window"@,
        Purpose::Handover => "tmux attach/switch"@,
        Purpose::KillSession => "tmux kill-session"@,
        Purpose::RenameSession => "tmux rename-session"@,
        Purpose::CapturePane => "tmux capture-pane"@,
        Purpose::RunHook => "pre_hook command"@,
    }
}

impl Purpose {
    /// How messages name it.
    pub fn as_str(self) -> (r: &'static str)
        ensures
            r@ == purpose_text(self),
    {
        match self {
            Purpose::NewSession => "tmux new-session",
            Purpose::SplitWindow => "tmux split-window",
            Purpose::NewWindow => "tmux new-window",
            Purpose::TypeText => "tmux send-keys literal",
            Purpose::PressEnter => "tmux send-keys Enter",
            Purpose::SelectPane => "tmux select-pane",
            Purpose::SetPaneTitle => "tmux set-pane-title",
            Purpose::SetOption => "tmux set-option",
            Purpose::SetWindowOption => "tmux set-window-option",
            Purpose::SelectLayout => "tmux select-layout",
            Purpose::SelectWindow => "tmux select-window",
            Purpose::Handover => "tmux attach/switch",
            Purpose::KillSession => "tmux kill-session",
            Purpose::RenameSession => "tmux rename-session",
            Purpose::CapturePane => "tmux capture-pane",
            Purpose::RunHook => "pre_hook command",
        }
    }
}

/// A signed number in decimal.
pub open spec fn signed_decimal(n: int) -> Text {
    if n < 0 {
        "-"@ + text::decimal((-n) as nat)
    } else {
        text::decimal(n as nat)
    }
}

/// What `{:?}` prints for an exit code.
pub open spec fn code_text(code: Option<i32>) -> Text {
    match code {
        Some(n) => "Some("@ + signed_decimal(n as int) + ")"@,
        None => "None"@,
    }
}

fn code_string(code: Option<i32>) -> (r: String)
    ensures
        r@ == code_text(code),
{
    match code {
        Some(n) => {
            let number = if n < 0 {
                let wide: i64 = n as i64;
                "-".to_owned().concat(text::decimal_string((-wide) as u64).as_str())
            } else {
                text::decimal_string(n as u64)
            };
            "Some(".to_owned().concat(number.as_str()).concat(")")
        },
        None => "None".to_owned(),
    }
}

/// What a process wrote to its standard error, as text without white space around it.
pub open spec fn error_output(stderr: Seq<u8>) -> Text {
    text::trim(text::utf8_lossy(stderr))
}

/// What a process wrote to its standard error.
pub fn tmux_stderr(stderr: &[u8]) -> (r: String)
    ensures
        r@ == error_output(stderr@),
{
    text::trimmed(text::utf8_lossy_string(stderr).as_str())
}

/// The failure of a process that is judged by its exit code.
pub open spec fn exit_error(what: Text, result: CommandResult) -> Option<Seq<Text>> {
    if result.success {
        None
    } else {
        Some(seq![what + " failed: exit code "@ + code_text(result.code)])
    }
}

/// Judges a process by its exit code.
pub fn completed(purpose: Purpose, result: &CommandResult) -> (r: Result<(), Error>)
    ensures
        error::failure(r) == exit_error(purpose_text(purpose), *result),
{
    if !result.success {
        return Err(
            Error::msg(
                purpose.as_str().to_owned().concat(" failed: exit code ").concat(
                    code_string(result.code).as_str(),
                ),
            ),
        );
    }
    Ok(())
}

/// The failure of a process that is told by its standard error.
pub open spec fn reported_error(what: Text, result: CommandResult) -> Option<Seq<Text>> {
    if result.success {
        None
    } else {
        Some(seq![what + " failed: "@ + error_output(result.stderr@)])
    }
}

/// Judges a process; a failure is told by its standard error.
pub fn reported(purpose: Purpose, result: &CommandResult) -> (r: Result<(), Error>)
    ensures
        error::failure(r) == reported_error(purpose_text(purpose), *result),
{
    if !result.success {
        return Err(
            Error::msg(
                purpose.as_str().to_owned().concat(" failed: ").concat(
                    tmux_stderr(result.stderr.as_slice()).as_str(),
                ),
            ),
        );
    }
    Ok(())
}

/// The failure of an output that is no pane id.
pub open spec fn pane_output_error(stdout: Seq<u8>, context: Text) -> Option<Seq<Text>> {
    if !valid_utf8(stdout) {
        Some(seq![context + " returned non-UTF-8 pane id"@, text::utf8_error(stdout)])
    } else {
        validate::in_context(
            context + " returned invalid pane id"@,
            checks::pane_id_error(text::trim(decode_utf8(stdout))),
        )
    }
}

/// The pane id that a process printed.
pub fn parse_pane_id(stdout: &[u8], context: &str) -> (r: Result<PaneId, Error>)
    ensures
        error::failure(r) == pane_output_error(stdout@, context@),
        r matches Ok(id) ==> id@ == text::trim(decode_utf8(stdout@)),
{
    match text::utf8_string(stdout) {
        Ok(output) => {
            match PaneId::new(text::trimmed(output.as_str()).as_str()) {
                Ok(id) => Ok(id),
                Err(e) => Err(e.context(context.to_owned().concat(" returned invalid pane id"))),
            }
        },
        Err(e) => {
            let r = Error::msg(e).context(context.to_owned().concat(" returned non-UTF-8 pane id"));
            assert(r@ == seq![
                context@ + " returned non-UTF-8 pane id"@,
                text::utf8_error(stdout@),
            ]);
            Err(r)
        },
    }
}

/// The pane that a process created.
pub fn created_pane(purpose: Purpose, result: &CommandResult) -> (r: Result<PaneId, Error>)
    ensures
        error::failure(r) == validate::or_else(
            reported_error(purpose_text(purpose), *result),
            pane_output_error(result.stdout@, purpose_text(purpose)),
        ),
        r matches Ok(id) ==> id@ == text::trim(decode_utf8(result.stdout@)),
{
    reported(purpose, result)?;
    parse_pane_id(result.stdout.as_slice(), purpose.as_str())
}

/// The failure of an output that is no text.
pub open spec fn text_output_error(stdout: Seq<u8>, context: Text) -> Option<Seq<Text>> {
    if !valid_utf8(stdout) {
        Some(seq![context, text::utf8_error(stdout)])
    } else {
        None
    }
}

fn text_output(stdout: &[u8], context: String) -> (r: Result<String, Error>)
    ensures
        error::failure(r) == text_output_error(stdout@, context@),
        r matches Ok(s) ==> s@ == decode_utf8(stdout@),
{
    match text::utf8_string(stdout) {
        Ok(output) => Ok(output),
        Err(e) => {
            let r = Error::msg(e).context(context);
            assert(r@ == seq![context@, text::utf8_error(stdout@)]);
            Err(r)
        },
    }
}

/// What a pane shows, as a process printed it.
pub fn parse_capture_pane_output(stdout: &[u8], context: &str) -> (r: Result<String, Error>)
    ensures
        error::failure(r) == text_output_error(stdout@, context@ + " returned non-UTF-8 output"@),
        r matches Ok(s) ==> s@ == decode_utf8(stdout@),
{
    text_output(stdout, context.to_owned().concat(" returned non-UTF-8 output"))
}

/// What a pane shows.
pub fn captured_output(result: &CommandResult) -> (r: Result<String, Error>)
    ensures
        error::failure(r) == validate::or_else(
            reported_error(purpose_text(Purpose::CapturePane), *result),
            text_output_error(
                result.stdout@,
                purpose_text(Purpose::CapturePane) + " returned non-UTF-8 output"@,
            ),
        ),
        r matches Ok(s) ==> s@ == decode_utf8(result.stdout@),
{
    reported(Purpose::CapturePane, result)?;
    parse_capture_pane_output(result.stdout.as_slice(), Purpose::CapturePane.as_str())
}

// ─── Built-in variables ──────────────────────────────────────────────────────

/// The key of a built-in variable.
pub open spec fn builtin_key(var: BuiltinVar) -> Text {
    match var {
        BuiltinVar::Cwd => "cwd"@,
        BuiltinVar::Date => "date"@,
        BuiltinVar::GitBranch => "git_branch"@,
    }
}

/// The key of a built-in variable.
pub fn builtin_key_str(var: BuiltinVar) -> (r: &'static str)
    ensures
        r@ == builtin_key(var),
{
    match var {
        BuiltinVar::Cwd => "cwd",
        BuiltinVar::Date => "date",
        BuiltinVar::GitBranch => "git_branch",
    }
}

/// How every message on the variable `key` starts.
pub open spec fn resolve_failure(key: Text) -> Text {
    "failed to resolve template variable "@ + text::debug_text(key)
}

fn resolve_failure_string(key: &str) -> (r: String)
    ensures
        r@ == resolve_failure(key@),
{
    "failed to resolve template variable ".to_owned().concat(text::debug_string(key).as_str())
}

/// The error of a program that could not be started, because of `cause`.
pub fn builtin_not_started(key: &str, program: &str, cause: Error) -> (r: Error)
    ensures
        r@ == seq![resolve_failure(key@) + " using "@ + program@] + cause@,
{
    cause.context(resolve_failure_string(key).concat(" using ").concat(program))
}

/// The value of the variable `key`, as `program` printed it.
pub fn decode_builtin_command_stdout(
    key: &str,
    program: &str,
    stdout: &[u8],
) -> (r: Result<String, Error>)
    ensures
        error::failure(r) == text_output_error(
            stdout@,
            resolve_failure(key@) + ": "@ + program@ + " returned non-UTF-8 output"@,
        ),
        r matches Ok(s) ==> s@ == text::trim(decode_utf8(stdout@)),
{
    let output = text_output(
        stdout,
        resolve_failure_string(key).concat(": ").concat(program).concat(
            " returned non-UTF-8 output",
        ),
    )?;
    Ok(text::trimmed(output.as_str()))
}

/// The failure of a program that was to print the value of the variable `key`.
pub open spec fn builtin_error(key: Text, program: Text, result: CommandResult) -> Option<
    Seq<Text>,
> {
    if result.success {
        text_output_error(
            result.stdout@,
            resolve_failure(key) + ": "@ + program + " returned non-UTF-8 output"@,
        )
    } else if error_output(result.stderr@).len() == 0 {
        Some(seq![resolve_failure(key) + ": "@ + program + " exited with "@ + result.status@])
    } else {
        Some(seq![resolve_failure(key) + ": "@ + error_output(result.stderr@)])
    }
}

/// The value of the variable `key`, from what came of `program`.
pub fn builtin_output(key: &str, program: &str, result: &CommandResult) -> (r: Result<
    String,
    Error,
>)
    ensures
        error::failure(r) == builtin_error(key@, program@, *result),
        r matches Ok(s) ==> s@ == text::trim(decode_utf8(result.stdout@)),
{
    if !result.success {
        let stderr = tmux_stderr(result.stderr.as_slice());
        if stderr.as_str().is_empty() {
            return Err(
                Error::msg(
                    resolve_failure_string(key).concat(": ").concat(program).concat(
                        " exited with ",
                    ).concat(result.status.as_str()),
                ),
            );
        }
        return Err(Error::msg(resolve_failure_string(key).concat(": ").concat(stderr.as_str())));
    }
    decode_builtin_command_stdout(key, program, result.stdout.as_slice())
}

/// A value of the operating system as an argument for tmux. `value` is its text, if it is one.
pub fn os_string_to_tmux_arg(value: Option<String>, context: &str) -> (r: Result<String, Error>)
    ensures
        error::failure(r) == match value {
            Some(_) => None,
            None => Some(
                seq![
                    context@
                        + " contains non-UTF-8 bytes and cannot be passed as a tmux argument"@,
                ],
            ),
        },
        r matches Ok(s) ==> value == Some(s),
{
    match value {
        Some(s) => Ok(s),
        None => Err(
            Error::msg(
                context.to_owned().concat(
                    " contains non-UTF-8 bytes and cannot be passed as a tmux argument",
                ),
            ),
        ),
    }
}

/// The error of a current directory that is not known, because of `cause`.
pub fn cwd_unknown(cause: Error) -> (r: Error)
    ensures
        r@ == seq!["failed to resolve current directory for {{cwd}}"@] + cause@,
{
    cause.context("failed to resolve current directory for {{cwd}}".to_owned())
}

/// The current directory as an argument for tmux. `dir` is its text, if it is one.
pub fn cwd_value(dir: Option<String>) -> (r: Result<String, Error>)
    ensures
        error::failure(r) == match dir {
            Some(_) => None,
            None => Some(
                seq![
                    "current directory for {{cwd}}"@
                        + " contains non-UTF-8 bytes and cannot be passed as a tmux argument"@,
                ],
            ),
        },
        r matches Ok(s) ==> dir == Some(s),
{
    os_string_to_tmux_arg(dir, "current directory for {{cwd}}")
}

} // verus!
