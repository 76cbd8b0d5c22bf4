//! What holds of the command lines that carry out requests: nothing of a request is lost or changed
//! on its way to tmux.

use crate::attach::AttachAction;
use crate::backend::Call;
use crate::checks;
use crate::compiler_laws;
use crate::model::TmuxSplitFlag;
use crate::real_tmux;
use crate::real_tmux::Purpose;
use crate::template;
use crate::template::BuiltinVar;
use crate::text;
use crate::text::Text;
use vstd::prelude::*;

verus! {

// ─── Environments ────────────────────────────────────────────────────────────

/// The environment that a request passes to the pane it creates.
pub open spec fn env_of(call: Call) -> Seq<(Text, Text)> {
    match call {
        Call::NewSession { env, .. } => env,
        Call::NewWindow { env, .. } => env,
        Call::SplitWindow { env, .. } => env,
        _ => Seq::empty(),
    }
}

/// The arguments that pass an environment are two for each variable.
proof fn lemma_env_options_len(env: Seq<(Text, Text)>)
    ensures
        real_tmux::env_options(env).len() == 2 * env.len(),
    decreases env.len(),
{
    if env.len() > 0 {
        lemma_env_options_len(env.drop_last());
    }
}

/// The two arguments that pass one variable.
proof fn lemma_env_option_at(env: Seq<(Text, Text)>, k: int)
    requires
        0 <= k < env.len(),
    ensures
        real_tmux::env_options(env).len() == 2 * env.len(),
        real_tmux::env_options(env)[2 * k] == "-e"@,
        real_tmux::env_options(env)[2 * k + 1] == env[k].0 + "="@ + env[k].1,
    decreases env.len(),
{
    let front = env.drop_last();
    let rest = real_tmux::env_options(front);
    let last = seq!["-e"@, env.last().0 + "="@ + env.last().1];
    lemma_env_options_len(env);
    lemma_env_options_len(front);
    assert(real_tmux::env_options(env) == rest + last);
    if k < front.len() {
        lemma_env_option_at(front, k);
        assert(front[k] == env[k]);
        assert((rest + last)[2 * k] == rest[2 * k]);
        assert((rest + last)[2 * k + 1] == rest[2 * k + 1]);
    } else {
        assert((rest + last)[2 * k] == last[0]);
        assert((rest + last)[2 * k + 1] == last[1]);
    }
}

/// A command that creates a pane passes the whole environment of the request, whichever request it
/// is: each variable as an argument of its own behind a `-e`, in order, right before the three
/// arguments that make tmux print the id of the pane.
pub proof fn law_commands_pass_the_environment(call: Call, k: int)
    requires
        call is NewSession || call is NewWindow || call is SplitWindow,
        0 <= k < env_of(call).len(),
    ensures
        real_tmux::command_lines(call).len() == 1,
        ({
            let args = real_tmux::command_lines(call)[0];
            let env = env_of(call);
            let at = args.len() - 3 - 2 * (env.len() - k);
            &&& 0 < at
            &&& args[at] == "-e"@
            &&& args[at + 1] == env[k].0 + "="@ + env[k].1
        }),
{
    let args = real_tmux::command_lines(call)[0];
    let env = env_of(call);
    let end = args.len() - 3;
    let start = end - 2 * env.len();
    lemma_env_option_at(env, k);
    assert(args.subrange(start, end) =~= real_tmux::env_options(env));
    assert(args.subrange(start, end)[2 * k] == args[start + 2 * k]);
    assert(args.subrange(start, end)[2 * k + 1] == args[start + 2 * k + 1]);
}

/// A command that creates a pane ends by making tmux print the id of the pane.
pub proof fn law_commands_print_the_new_pane(call: Call)
    requires
        call is NewSession || call is NewWindow || call is SplitWindow,
    ensures
        ({
            let args = real_tmux::command_lines(call)[0];
            let end = args.len() - 3;
            &&& end > 2 * env_of(call).len()
            &&& args[end] == "-P"@ && args[end + 1] == "-F"@ && args[end + 2] == "#{pane_id}"@
        }),
{
    lemma_env_options_len(env_of(call));
}

/// What stands before the environment when a session is created: a detached session with the name,
/// the working directory and the window of the request.
pub proof fn law_new_session_command(
    name: Text,
    root: Text,
    window: Text,
    env: Seq<(Text, Text)>,
)
    ensures
        ({
            let args = real_tmux::command_lines((Call::NewSession { name, root, window, env }))[0];
            &&& args.len() == 12 + 2 * env.len()
            &&& args[0] == "tmux"@ && args[1] == "new-session"@ && args[2] == "-d"@
            &&& args[3] == "-s"@ && args[4] == name
            &&& args[5] == "-c"@ && args[6] == root
            &&& args[7] == "-n"@ && args[8] == window
        }),
{
    lemma_env_options_len(env);
}

/// What stands before the environment when a window is added: the session, the name and the
/// working directory of the request.
pub proof fn law_new_window_command(
    session: Text,
    name: Text,
    root: Text,
    env: Seq<(Text, Text)>,
)
    ensures
        ({
            let args = real_tmux::command_lines((Call::NewWindow { session, name, root, env }))[0];
            &&& args.len() == 11 + 2 * env.len()
            &&& args[0] == "tmux"@ && args[1] == "new-window"@
            &&& args[2] == "-t"@ && args[3] == session
            &&& args[4] == "-n"@ && args[5] == name
            &&& args[6] == "-c"@ && args[7] == root
        }),
{
    lemma_env_options_len(env);
}

/// What stands before the environment when a pane is split: the pane, `-h` or `-v`, the size in
/// percent and the working directory of the request.
pub proof fn law_split_window_command(
    pane: Text,
    flag: TmuxSplitFlag,
    pct: int,
    root: Text,
    env: Seq<(Text, Text)>,
)
    requires
        pct >= 0,
    ensures
        ({
            let args = real_tmux::command_lines(
                (Call::SplitWindow { pane, flag, pct, root, env }),
            )[0];
            &&& args.len() == 12 + 2 * env.len()
            &&& args[0] == "tmux"@ && args[1] == "split-window"@
            &&& args[2] == "-t"@ && args[3] == pane
            &&& args[4] == (if flag is Horizontal {
                "-h"@
            } else {
                "-v"@
            })
            &&& args[5] == "-l"@ && args[6] == text::decimal(pct as nat) + "%"@
            &&& args[7] == "-c"@ && args[8] == root
        }),
{
    lemma_env_options_len(env);
}

// ─── Targets and texts ───────────────────────────────────────────────────────

/// What a request acts on, as tmux names it: a session by its name, a window by the names of its
/// session and its own with a colon between them, a pane by its id.
pub open spec fn target_of(call: Call) -> Option<Text> {
    match call {
        Call::HasSession { name } => Some(name),
        Call::NewWindow { session, .. } => Some(session),
        Call::SplitWindow { pane, .. } => Some(pane),
        Call::SendKeys { pane, .. } => Some(pane),
        Call::SelectPane { pane } => Some(pane),
        Call::SetPaneTitle { pane, .. } => Some(pane),
        Call::SetOption { session, .. } => Some(session),
        Call::SetWindowOption { session, window, .. } => Some(session + ":"@ + window),
        Call::SelectLayout { session, window, .. } => Some(session + ":"@ + window),
        Call::SelectWindow { session, window } => Some(session + ":"@ + window),
        Call::KillSession { name } => Some(name),
        Call::RenameSession { from, .. } => Some(from),
        Call::CapturePane { pane } => Some(pane),
        _ => None,
    }
}

/// Every command that acts on a session, a window or a pane that exists names it, behind a `-t`.
pub proof fn law_commands_name_their_target(call: Call, i: int)
    requires
        target_of(call) is Some,
        0 <= i < real_tmux::command_lines(call).len(),
    ensures
        real_tmux::command_lines(call).len() > 0,
        real_tmux::command_lines(call)[i].len() >= 4,
        real_tmux::command_lines(call)[i][0] == "tmux"@,
        real_tmux::command_lines(call)[i][2] == "-t"@,
        real_tmux::command_lines(call)[i][3] == target_of(call)->0,
{
}

/// The tmux command of a request.
pub open spec fn subcommand_of(call: Call) -> Option<Text> {
    match call {
        Call::HasSession { .. } => Some("has-session"@),
        Call::NewSession { .. } => Some("new-session"@),
        Call::NewWindow { .. } => Some("new-window"@),
        Call::SplitWindow { .. } => Some("split-window"@),
        Call::SendKeys { .. } => Some("send-keys"@),
        Call::SelectPane { .. } => Some("select-pane"@),
        Call::SetPaneTitle { .. } => Some("select-pane"@),
        Call::SetOption { .. } => Some("set-option"@),
        Call::SetWindowOption { .. } => Some("set-window-option"@),
        Call::SelectLayout { .. } => Some("select-layout"@),
        Call::SelectWindow { .. } => Some("select-window"@),
        Call::KillSession { .. } => Some("kill-session"@),
        Call::RenameSession { .. } => Some("rename-session"@),
        Call::CapturePane { .. } => Some("capture-pane"@),
        _ => None,
    }
}

/// Every request that is one of tmux is carried out by the tmux command of that name, and typing is
/// the only one that takes two.
pub proof fn law_commands_of_tmux(call: Call)
    requires
        subcommand_of(call) is Some,
    ensures
        real_tmux::command_lines(call).len() == (if call is SendKeys {
            2nat
        } else {
            1nat
        }),
        forall|i: int|
            0 <= i < real_tmux::command_lines(call).len() ==> {
                &&& (#[trigger] real_tmux::command_lines(call)[i]).len() > 1
                &&& real_tmux::command_lines(call)[i][0] == "tmux"@
                &&& real_tmux::command_lines(call)[i][1] == subcommand_of(call)->0
            },
{
}

/// A command line is typed as it is, letter by letter, and then Enter is pressed in the same pane.
pub proof fn law_typing_is_literal_and_ends_with_enter(pane: Text, keys: Text)
    ensures
        ({
            let lines = real_tmux::command_lines((Call::SendKeys { pane, keys }));
            &&& lines.len() == 2
            &&& lines[0].len() == 7 && lines[0][3] == pane
            &&& lines[0][4] == "-l"@ && lines[0][5] == "--"@ && lines[0][6] == keys
            &&& lines[1].len() == 5 && lines[1][3] == pane && lines[1][4] == "Enter"@
        }),
{
}

/// What follows the target of a request, where more is asked than the target says: free text stands
/// behind `--`, so that it is never read as an option, whatever it starts with.
pub proof fn law_texts_follow_the_target(
    session: Text,
    window: Text,
    pane: Text,
    key: Text,
    value: Text,
)
    ensures
        ({
            let args = real_tmux::command_lines((Call::SetOption { session, key, value }))[0];
            args.len() == 7 && args[4] == "--"@ && args[5] == key && args[6] == value
        }),
        ({
            let args = real_tmux::command_lines(
                (Call::SetWindowOption { session, window, key, value }),
            )[0];
            args.len() == 7 && args[4] == "--"@ && args[5] == key && args[6] == value
        }),
        ({
            let args = real_tmux::command_lines(
                (Call::SelectLayout { session, window, preset: value }),
            )[0];
            args.len() == 6 && args[4] == "--"@ && args[5] == value
        }),
        ({
            let args = real_tmux::command_lines((Call::SetPaneTitle { pane, title: value }))[0];
            args.len() == 6 && args[4] == "-T"@ && args[5] == value
        }),
        ({
            let args = real_tmux::command_lines(
                (Call::RenameSession { from: session, to: value }),
            )[0];
            args.len() == 5 && args[4] == value
        }),
        ({
            let args = real_tmux::command_lines((Call::CapturePane { pane }))[0];
            args.len() == 5 && args[4] == "-p"@
        }),
        real_tmux::command_lines((Call::HasSession { name: session }))[0].len() == 4,
        real_tmux::command_lines((Call::KillSession { name: session }))[0].len() == 4,
        real_tmux::command_lines((Call::SelectWindow { session, window }))[0].len() == 4,
        real_tmux::command_lines((Call::SelectPane { pane }))[0].len() == 4,
{
}

/// A shell command is handed to bash as it is.
pub proof fn law_shell_commands_run_in_bash(command: Text)
    ensures
        ({
            let lines = real_tmux::command_lines((Call::RunCommand { command }));
            &&& lines.len() == 1 && lines[0].len() == 3
            &&& lines[0][0] == "bash"@ && lines[0][1] == "-c"@ && lines[0][2] == command
        }),
{
}

// ─── Nothing is lost ─────────────────────────────────────────────────────────

/// The names in a request are names that tmux takes, and its sizes are percentages.
pub open spec fn valid_call(call: Call) -> bool {
    &&& match call {
        Call::SetWindowOption { session, window, .. } => checks::valid_tmux_name(session)
            && checks::valid_tmux_name(window),
        Call::SelectLayout { session, window, .. } => checks::valid_tmux_name(session)
            && checks::valid_tmux_name(window),
        Call::SelectWindow { session, window } => checks::valid_tmux_name(session)
            && checks::valid_tmux_name(window),
        Call::SplitWindow { pct, .. } => 1 <= pct <= 99,
        _ => true,
    }
    &&& forall|k: int|
        0 <= k < env_of(call).len() ==> checks::valid_env_key((#[trigger] env_of(call)[k]).0)
}

/// A text before the first `c` and the text behind it can be told apart.
proof fn lemma_cut_at(a: Text, x: Text, b: Text, y: Text, c: char)
    requires
        a + seq![c] + x == b + seq![c] + y,
        !a.contains(c),
        !b.contains(c),
    ensures
        a == b,
        x == y,
{
    let s = a + seq![c] + x;
    let t = b + seq![c] + y;
    assert(s[a.len() as int] == c);
    assert(t[b.len() as int] == c);
    if a.len() < b.len() {
        assert(t[a.len() as int] == b[a.len() as int]);
        assert(b.contains(c));
    }
    if b.len() < a.len() {
        assert(s[b.len() as int] == a[b.len() as int]);
        assert(a.contains(c));
    }
    assert forall|i: int| 0 <= i < a.len() implies a[i] == b[i] by {
        assert(s[i] == a[i] && t[i] == b[i]);
    }
    assert(a =~= b);
    assert(s.skip(a.len() as int + 1) =~= x);
    assert(t.skip(b.len() as int + 1) =~= y);
}

proof fn lemma_target_injective(a: Text, x: Text, b: Text, y: Text)
    requires
        checks::valid_tmux_name(a),
        checks::valid_tmux_name(b),
        a + ":"@ + x == b + ":"@ + y,
    ensures
        a == b,
        x == y,
{
    reveal_strlit(":");
    assert(":"@ =~= seq![':']);
    lemma_cut_at(a, x, b, y, ':');
}

proof fn lemma_pair_injective(a: (Text, Text), b: (Text, Text))
    requires
        checks::valid_env_key(a.0),
        checks::valid_env_key(b.0),
        a.0 + "="@ + a.1 == b.0 + "="@ + b.1,
    ensures
        a == b,
{
    reveal_strlit("=");
    assert("="@ =~= seq!['=']);
    assert forall|i: int| 0 <= i < a.0.len() implies a.0[i] != '=' by {
        assert(i == 0 || checks::is_key_rest(a.0[i]));
    }
    assert forall|i: int| 0 <= i < b.0.len() implies b.0[i] != '=' by {
        assert(i == 0 || checks::is_key_rest(b.0[i]));
    }
    lemma_cut_at(a.0, a.1, b.0, b.1, '=');
}

/// The environments of two requests of one kind, with the same command line.
proof fn lemma_env_injective(a: Call, b: Call)
    requires
        a is NewSession || a is NewWindow || a is SplitWindow,
        b is NewSession || b is NewWindow || b is SplitWindow,
        valid_call(a),
        valid_call(b),
        real_tmux::command_lines(a) == real_tmux::command_lines(b),
        env_of(a).len() == env_of(b).len(),
    ensures
        env_of(a) == env_of(b),
{
    let x = env_of(a);
    let y = env_of(b);
    assert forall|k: int| 0 <= k < x.len() implies x[k] == y[k] by {
        law_commands_pass_the_environment(a, k);
        law_commands_pass_the_environment(b, k);
        assert(x[k].0 + "="@ + x[k].1 == y[k].0 + "="@ + y[k].1);
        lemma_pair_injective(x[k], y[k]);
    }
    assert(x =~= y);
}

/// Nothing of a request is lost on its way to tmux: two requests of a kind with the same command
/// lines are the same request.
pub proof fn law_command_lines_tell_requests_apart(a: Call, b: Call)
    requires
        valid_call(a),
        valid_call(b),
        subcommand_of(a) is Some,
        real_tmux::command_lines(a) == real_tmux::command_lines(b),
        a is HasSession <==> b is HasSession,
        a is NewSession <==> b is NewSession,
        a is NewWindow <==> b is NewWindow,
        a is SplitWindow <==> b is SplitWindow,
        a is SendKeys <==> b is SendKeys,
        a is SelectPane <==> b is SelectPane,
        a is SetPaneTitle <==> b is SetPaneTitle,
        a is SetOption <==> b is SetOption,
        a is SetWindowOption <==> b is SetWindowOption,
        a is SelectLayout <==> b is SelectLayout,
        a is SelectWindow <==> b is SelectWindow,
        a is KillSession <==> b is KillSession,
        a is RenameSession <==> b is RenameSession,
        a is CapturePane <==> b is CapturePane,
    ensures
        a == b,
{
    let x = real_tmux::command_lines(a)[0];
    let y = real_tmux::command_lines(b)[0];
    if !(a is NewSession) {
        law_commands_name_their_target(a, 0);
        law_commands_name_their_target(b, 0);
        assert(target_of(a) == target_of(b));
    }
    match (a, b) {
        (
            Call::NewSession { name, root, window, env },
            Call::NewSession { name: n, root: r, window: w, env: e },
        ) => {
            law_new_session_command(name, root, window, env);
            law_new_session_command(n, r, w, e);
            lemma_env_injective(a, b);
        },
        (
            Call::NewWindow { session, name, root, env },
            Call::NewWindow { session: s, name: n, root: r, env: e },
        ) => {
            law_new_window_command(session, name, root, env);
            law_new_window_command(s, n, r, e);
            lemma_env_injective(a, b);
        },
        (
            Call::SplitWindow { pane, flag, pct, root, env },
            Call::SplitWindow { pane: p, flag: f, pct: c, root: r, env: e },
        ) => {
            law_split_window_command(pane, flag, pct, root, env);
            law_split_window_command(p, f, c, r, e);
            lemma_env_injective(a, b);
            reveal_strlit("-h");
            reveal_strlit("-v");
            assert("-h"@[1] != "-v"@[1]);
            let d = text::decimal(pct as nat) + "%"@;
            let g = text::decimal(c as nat) + "%"@;
            reveal_strlit("%");
            assert(d == g);
            assert(d.drop_last() =~= text::decimal(pct as nat));
            assert(g.drop_last() =~= text::decimal(c as nat));
            compiler_laws::lemma_decimal_injective(pct as nat, c as nat);
        },
        (Call::SendKeys { pane, keys }, Call::SendKeys { pane: p, keys: k }) => {
            law_typing_is_literal_and_ends_with_enter(pane, keys);
            law_typing_is_literal_and_ends_with_enter(p, k);
        },
        (Call::SetPaneTitle { pane, title }, Call::SetPaneTitle { pane: p, title: t }) => {
            law_texts_follow_the_target(title, title, pane, title, title);
            law_texts_follow_the_target(t, t, p, t, t);
        },
        (
            Call::SetOption { session, key, value },
            Call::SetOption { session: s, key: k, value: v },
        ) => {
            law_texts_follow_the_target(session, session, session, key, value);
            law_texts_follow_the_target(s, s, s, k, v);
        },
        (
            Call::SetWindowOption { session, window, key, value },
            Call::SetWindowOption { session: s, window: w, key: k, value: v },
        ) => {
            law_texts_follow_the_target(session, window, session, key, value);
            law_texts_follow_the_target(s, w, s, k, v);
            lemma_target_injective(session, window, s, w);
        },
        (
            Call::SelectLayout { session, window, preset },
            Call::SelectLayout { session: s, window: w, preset: p },
        ) => {
            law_texts_follow_the_target(session, window, session, preset, preset);
            law_texts_follow_the_target(s, w, s, p, p);
            lemma_target_injective(session, window, s, w);
        },
        (
            Call::SelectWindow { session, window },
            Call::SelectWindow { session: s, window: w },
        ) => {
            lemma_target_injective(session, window, s, w);
        },
        (Call::RenameSession { from, to }, Call::RenameSession { from: f, to: t }) => {
            law_texts_follow_the_target(from, from, from, to, to);
            law_texts_follow_the_target(f, f, f, t, t);
        },
        _ => {},
    }
}

// ─── Built-in variables and the terminal ─────────────────────────────────────

/// The values of the built-in variables come from `date` and `git`, with the arguments that the
/// shell expansions in a script have too.
pub proof fn law_builtin_values_come_from_their_programs()
    ensures
        real_tmux::command_lines((Call::BuiltinValue { var: BuiltinVar::Cwd })).len() == 0,
        real_tmux::command_lines((Call::BuiltinValue { var: BuiltinVar::Date })) == seq![
            seq!["date"@, "+%Y-%m-%d"@],
        ],
        real_tmux::command_lines((Call::BuiltinValue { var: BuiltinVar::GitBranch })) == seq![
            seq!["git"@, "rev-parse"@, "--abbrev-ref"@, "HEAD"@],
        ],
        "$("@ + text::join(
            real_tmux::command_lines((Call::BuiltinValue { var: BuiltinVar::Date }))[0],
            " "@,
        ) + ")"@ == template::expansion(BuiltinVar::Date),
        "$("@ + text::join(
            real_tmux::command_lines((Call::BuiltinValue { var: BuiltinVar::GitBranch }))[0],
            " "@,
        ) + ")"@ == template::expansion(BuiltinVar::GitBranch),
{
    let date = seq!["date"@, "+%Y-%m-%d"@];
    let git = seq!["git"@, "rev-parse"@, "--abbrev-ref"@, "HEAD"@];
    reveal_strlit("date");
    reveal_strlit("+%Y-%m-%d");
    reveal_strlit("git");
    reveal_strlit("rev-parse");
    reveal_strlit("--abbrev-ref");
    reveal_strlit("HEAD");
    reveal_strlit(" ");
    reveal_strlit("$(");
    reveal_strlit(")");
    reveal_strlit("$(date +%Y-%m-%d)");
    reveal_strlit("$(git rev-parse --abbrev-ref HEAD)");
    reveal_with_fuel(text::join, 5);
    assert(date.drop_last() =~= seq!["date"@]);
    assert(git.drop_last() =~= seq!["git"@, "rev-parse"@, "--abbrev-ref"@]);
    assert(git.drop_last().drop_last() =~= seq!["git"@, "rev-parse"@]);
    assert(git.drop_last().drop_last().drop_last() =~= seq!["git"@]);
    assert("$("@ + text::join(date, " "@) + ")"@ =~= "$(date +%Y-%m-%d)"@);
    assert("$("@ + text::join(git, " "@) + ")"@ =~= "$(git rev-parse --abbrev-ref HEAD)"@);
}

/// The terminal is handed over by switching the client inside tmux, or by attaching; a session that
/// is left detached takes no command.
pub proof fn law_handover_commands(session: Text)
    ensures
        real_tmux::handover_line(AttachAction::Switch, session) == Some(
            seq!["tmux"@, "switch-client"@, "-t"@, session],
        ),
        real_tmux::handover_line(AttachAction::Attach, session) == Some(
            seq!["tmux"@, "attach-session"@, "-t"@, session],
        ),
        real_tmux::handover_line(AttachAction::Skip, session) is None,
{
}

/// A built-in variable is named by its key, and each key names its variable.
pub proof fn law_keys_of_builtin_variables(var: BuiltinVar)
    ensures
        template::builtin_named(real_tmux::builtin_key(var)) == Some(var),
{
    reveal_strlit("cwd");
    reveal_strlit("date");
    reveal_strlit("git_branch");
    assert("cwd"@.len() == 3 && "date"@.len() == 4 && "git_branch"@.len() == 10);
}

/// Messages name what a process was run for: tmux and its command, with what is typed told apart
/// from the Enter that follows, and the hook by its name.
pub proof fn law_messages_name_the_purpose()
    ensures
        real_tmux::purpose_text(Purpose::NewSession) == "tmux "@ + "new-session"@,
        real_tmux::purpose_text(Purpose::SplitWindow) == "tmux "@ + "split-window"@,
        real_tmux::purpose_text(Purpose::NewWindow) == "tmux "@ + "new-window"@,
        real_tmux::purpose_text(Purpose::SelectPane) == "tmux "@ + "select-pane"@,
        real_tmux::purpose_text(Purpose::SetOption) == "tmux "@ + "set-option"@,
        real_tmux::purpose_text(Purpose::SetWindowOption) == "tmux "@ + "set-window-option"@,
        real_tmux::purpose_text(Purpose::SelectLayout) == "tmux "@ + "select-layout"@,
        real_tmux::purpose_text(Purpose::SelectWindow) == "tmux "@ + "select-window"@,
        real_tmux::purpose_text(Purpose::KillSession) == "tmux "@ + "kill-session"@,
        real_tmux::purpose_text(Purpose::RenameSession) == "tmux "@ + "rename-session"@,
        real_tmux::purpose_text(Purpose::CapturePane) == "tmux "@ + "capture-pane"@,
        real_tmux::purpose_text(Purpose::SetPaneTitle) == "tmux "@ + "set-pane-title"@,
        real_tmux::purpose_text(Purpose::TypeText) == "tmux "@ + "send-keys"@ + " literal"@,
        real_tmux::purpose_text(Purpose::PressEnter) == "tmux "@ + "send-keys"@ + " Enter"@,
        real_tmux::purpose_text(Purpose::Handover) == "tmux attach/switch"@,
        real_tmux::purpose_text(Purpose::RunHook) == "pre_hook command"@,
{
    reveal_strlit("tmux ");
    assert("tmux new-session"@ =~= "tmux "@ + "new-session"@) by {
        reveal_strlit("tmux new-session");
        reveal_strlit("new-session");
    }
    assert("tmux split-window"@ =~= "tmux "@ + "split-window"@) by {
        reveal_strlit("tmux split-window");
        reveal_strlit("split-window");
    }
    assert("tmux new-window"@ =~= "tmux "@ + "new-window"@) by {
        reveal_strlit("tmux new-window");
        reveal_strlit("new-window");
    }
    assert("tmux select-pane"@ =~= "tmux "@ + "select-pane"@) by {
        reveal_strlit("tmux select-pane");
        reveal_strlit("select-pane");
    }
    assert("tmux set-option"@ =~= "tmux "@ + "set-option"@) by {
        reveal_strlit("tmux set-option");
        reveal_strlit("set-option");
    }
    assert("tmux set-window-option"@ =~= "tmux "@ + "set-window-option"@) by {
        reveal_strlit("tmux set-window-option");
        reveal_strlit("set-window-option");
    }
    assert("tmux select-layout"@ =~= "tmux "@ + "select-layout"@) by {
        reveal_strlit("tmux select-layout");
        reveal_strlit("select-layout");
    }
    assert("tmux select-window"@ =~= "tmux "@ + "select-window"@) by {
        reveal_strlit("tmux select-window");
        reveal_strlit("select-window");
    }
    assert("tmux kill-session"@ =~= "tmux "@ + "kill-session"@) by {
        reveal_strlit("tmux kill-session");
        reveal_strlit("kill-session");
    }
    assert("tmux rename-session"@ =~= "tmux "@ + "rename-session"@) by {
        reveal_strlit("tmux rename-session");
        reveal_strlit("rename-session");
    }
    assert("tmux capture-pane"@ =~= "tmux "@ + "capture-pane"@) by {
        reveal_strlit("tmux capture-pane");
        reveal_strlit("capture-pane");
    }
    assert("tmux set-pane-title"@ =~= "tmux "@ + "set-pane-title"@) by {
        reveal_strlit("tmux set-pane-title");
        reveal_strlit("set-pane-title");
    }
    assert("tmux send-keys literal"@ =~= "tmux "@ + "send-keys"@ + " literal"@) by {
        reveal_strlit("tmux send-keys literal");
        reveal_strlit("send-keys");
        reveal_strlit(" literal");
    }
    assert("tmux send-keys Enter"@ =~= "tmux "@ + "send-keys"@ + " Enter"@) by {
        reveal_strlit("tmux send-keys Enter");
        reveal_strlit("send-keys");
        reveal_strlit(" Enter");
    }
}

} // verus!
