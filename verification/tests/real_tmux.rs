use nix_tmux_define::attach::{AttachAction, AttachMode};
use nix_tmux_define::real_tmux::{
    builtin_command, builtin_key_str, builtin_not_started, builtin_output, capture_pane_command,
    captured_output, completed, created_pane, cwd_unknown, cwd_value, detached_notice,
    handover_command,
    has_session_command, kill_session_command, list_sessions_command, new_session_command,
    new_window_command,
    os_string_to_tmux_arg, press_enter_command, rename_session_command, reported,
    run_command_command, select_layout_command, select_pane_command, select_window_command,
    set_option_command, set_pane_title_command, set_window_option_command, split_window_command,
    tmux_stderr, type_text_command, CommandResult, Purpose,
};
use nix_tmux_define::text::trimmed;
use nix_tmux_define::{
    BuiltinVar, EnvVar, EnvVarName, EnvVarValue, Error, PaneCommand, PaneId, PaneTitle, RealTmux,
    ResolvedTmuxArg, ShellCommand, TmuxLayoutPreset, TmuxName, TmuxOptionName, TmuxOptionValue,
    TmuxPanePercent, TmuxSplitFlag,
};

fn name(value: &str) -> TmuxName {
    TmuxName::new(value).unwrap()
}

fn pane() -> PaneId {
    PaneId::new("%3").unwrap()
}

fn root() -> ResolvedTmuxArg {
    ResolvedTmuxArg::new("/tmp").unwrap()
}

fn env() -> Vec<EnvVar> {
    vec![
        EnvVar {
            key: EnvVarName::new("A").unwrap(),
            value: EnvVarValue::new("1 2").unwrap(),
        },
        EnvVar {
            key: EnvVarName::new("B").unwrap(),
            value: EnvVarValue::new("").unwrap(),
        },
    ]
}

fn result(success: bool, code: Option<i32>, stdout: &[u8], stderr: &[u8]) -> CommandResult {
    CommandResult {
        success,
        code,
        status: "exit status: 1".to_owned(),
        stdout: stdout.to_vec(),
        stderr: stderr.to_vec(),
    }
}

#[test]
fn command_lines_that_create_panes() {
    assert_eq!(
        new_session_command(&name("s"), &root(), &name("w"), &env()),
        [
            "tmux", "new-session", "-d", "-s", "s", "-c", "/tmp", "-n", "w", "-e", "A=1 2", "-e",
            "B=", "-P", "-F", "#{pane_id}"
        ]
    );
    assert_eq!(
        new_window_command(&name("s"), &name("w"), &root(), &[]),
        [
            "tmux", "new-window", "-t", "s", "-n", "w", "-c", "/tmp", "-P", "-F", "#{pane_id}"
        ]
    );
    let pct = TmuxPanePercent::new(40).unwrap();
    assert_eq!(
        split_window_command(&pane(), TmuxSplitFlag::Vertical, pct, &root(), &env()),
        [
            "tmux", "split-window", "-t", "%3", "-v", "-l", "40%", "-c", "/tmp", "-e", "A=1 2",
            "-e", "B=", "-P", "-F", "#{pane_id}"
        ]
    );
}

#[test]
fn command_lines_on_panes() {
    let keys = PaneCommand::new("ls -l").unwrap();
    assert_eq!(
        type_text_command(&pane(), &keys),
        ["tmux", "send-keys", "-t", "%3", "-l", "--", "ls -l"]
    );
    assert_eq!(
        press_enter_command(&pane()),
        ["tmux", "send-keys", "-t", "%3", "Enter"]
    );
    assert_eq!(
        select_pane_command(&pane()),
        ["tmux", "select-pane", "-t", "%3"]
    );
    assert_eq!(
        set_pane_title_command(&pane(), &PaneTitle::new("a b").unwrap()),
        ["tmux", "select-pane", "-t", "%3", "-T", "a b"]
    );
    assert_eq!(
        capture_pane_command(&pane()),
        ["tmux", "capture-pane", "-t", "%3", "-p"]
    );
}

#[test]
fn command_lines_on_sessions_and_windows() {
    let key = TmuxOptionName::new("mouse").unwrap();
    let value = TmuxOptionValue::new("on").unwrap();
    assert_eq!(
        has_session_command(&name("s")),
        ["tmux", "has-session", "-t", "s"]
    );
    assert_eq!(
        set_option_command(&name("s"), &key, &value),
        ["tmux", "set-option", "-t", "s", "--", "mouse", "on"]
    );
    assert_eq!(
        set_window_option_command(&name("s"), &name("w"), &key, &value),
        ["tmux", "set-window-option", "-t", "s:w", "--", "mouse", "on"]
    );
    assert_eq!(
        select_layout_command(
            &name("s"),
            &name("w"),
            &TmuxLayoutPreset::new("tiled").unwrap()
        ),
        ["tmux", "select-layout", "-t", "s:w", "--", "tiled"]
    );
    assert_eq!(
        select_window_command(&name("s"), &name("w")),
        ["tmux", "select-window", "-t", "s:w"]
    );
    assert_eq!(
        kill_session_command(&name("s")),
        ["tmux", "kill-session", "-t", "s"]
    );
    assert_eq!(
        rename_session_command(&name("s"), &name("t")),
        ["tmux", "rename-session", "-t", "s", "t"]
    );
    assert_eq!(
        list_sessions_command(),
        ["tmux", "list-sessions", "-F", "#{session_name}"]
    );
    assert_eq!(
        run_command_command(&ShellCommand::new("make").unwrap()),
        ["bash", "-c", "make"]
    );
}

#[test]
fn command_lines_of_builtins() {
    assert_eq!(builtin_command(BuiltinVar::Cwd), None);
    assert_eq!(
        builtin_command(BuiltinVar::Date).unwrap(),
        ["date", "+%Y-%m-%d"]
    );
    assert_eq!(
        builtin_command(BuiltinVar::GitBranch).unwrap(),
        ["git", "rev-parse", "--abbrev-ref", "HEAD"]
    );
    assert_eq!(builtin_key_str(BuiltinVar::Cwd), "cwd");
    assert_eq!(builtin_key_str(BuiltinVar::Date), "date");
    assert_eq!(builtin_key_str(BuiltinVar::GitBranch), "git_branch");
}

#[test]
fn handing_the_terminal_over() {
    assert_eq!(
        handover_command(AttachAction::Switch, &name("s")).unwrap(),
        ["tmux", "switch-client", "-t", "s"]
    );
    assert_eq!(
        handover_command(AttachAction::Attach, &name("s")).unwrap(),
        ["tmux", "attach-session", "-t", "s"]
    );
    assert_eq!(handover_command(AttachAction::Skip, &name("s")), None);
    assert_eq!(
        detached_notice(&name("my dev")),
        "nix-tmux-define: session \"my dev\" is ready (not attaching). Attach later with: tmux attach -t my dev"
    );
    assert_eq!(RealTmux::default().attach_mode, AttachMode::Auto);
    assert_eq!(
        RealTmux::new(AttachMode::Never).attach_mode,
        AttachMode::Never
    );
}

#[test]
fn exit_codes_are_told() {
    assert!(completed(Purpose::SelectPane, &result(true, Some(0), b"", b"")).is_ok());
    for (code, shown) in [
        (Some(1), "Some(1)"),
        (Some(-1), "Some(-1)"),
        (Some(i32::MIN), "Some(-2147483648)"),
        (Some(127), "Some(127)"),
        (None, "None"),
    ] {
        let err = completed(Purpose::RunHook, &result(false, code, b"", b"x")).unwrap_err();
        assert_eq!(
            err.to_string(),
            format!("pre_hook command failed: exit code {shown}")
        );
    }
}

#[test]
fn standard_error_is_told() {
    assert!(reported(Purpose::RenameSession, &result(true, Some(0), b"", b"x")).is_ok());
    let failed = result(false, Some(1), b"", b"\n can't find session: s \xff\r\n");
    assert_eq!(
        reported(Purpose::RenameSession, &failed)
            .unwrap_err()
            .to_string(),
        "tmux rename-session failed: can't find session: s \u{fffd}"
    );
    assert_eq!(tmux_stderr(b" a \n"), "a");
}

#[test]
fn created_panes_are_read() {
    let ok = result(true, Some(0), b"%7\n", b"");
    assert_eq!(created_pane(Purpose::NewSession, &ok).unwrap().as_str(), "%7");
    let failed = result(false, Some(1), b"%7\n", b"duplicate session: s\n");
    assert_eq!(
        created_pane(Purpose::NewSession, &failed)
            .unwrap_err()
            .full_text(),
        "tmux new-session failed: duplicate session: s"
    );
    let odd = result(true, Some(0), b"pane\n", b"");
    assert_eq!(
        created_pane(Purpose::SplitWindow, &odd)
            .unwrap_err()
            .full_text(),
        "tmux split-window returned invalid pane id: pane id must be a tmux pane id like %0, got \"pane\""
    );
    let broken = result(true, Some(0), b"%\xff", b"");
    assert_eq!(
        created_pane(Purpose::NewWindow, &broken)
            .unwrap_err()
            .full_text(),
        "tmux new-window returned non-UTF-8 pane id: invalid utf-8 sequence of 1 bytes from index 1"
    );
}

#[test]
fn captured_output_is_kept_as_it_is() {
    let ok = result(true, Some(0), " ready\n\n é".as_bytes(), b"");
    assert_eq!(
        captured_output(&ok).unwrap(),
        " ready\n\n é"
    );
    let failed = result(false, Some(1), b"", b"no pane");
    assert_eq!(
        captured_output(&failed)
            .unwrap_err()
            .to_string(),
        "tmux capture-pane failed: no pane"
    );
    let broken = result(true, Some(0), b"\xc3", b"");
    assert_eq!(
        captured_output(&broken)
            .unwrap_err()
            .to_string(),
        "tmux capture-pane returned non-UTF-8 output"
    );
}

#[test]
fn builtin_values_are_read() {
    let ok = result(true, Some(0), b"main\n", b"");
    assert_eq!(builtin_output("git_branch", "git", &ok).unwrap(), "main");
    let failed = result(false, Some(128), b"", b"fatal: not a git repository\n");
    assert_eq!(
        builtin_output("git_branch", "git", &failed)
            .unwrap_err()
            .to_string(),
        "failed to resolve template variable \"git_branch\": fatal: not a git repository"
    );
    let silent = result(false, Some(1), b"", b"");
    assert_eq!(
        builtin_output("date", "date", &silent)
            .unwrap_err()
            .to_string(),
        "failed to resolve template variable \"date\": date exited with exit status: 1"
    );
    let missing = builtin_not_started("date", "date", Error::msg("not found".to_owned()));
    assert_eq!(
        missing.messages(),
        [
            "failed to resolve template variable \"date\" using date",
            "not found"
        ]
    );
    assert_eq!(
        missing.full_text(),
        "failed to resolve template variable \"date\" using date: not found"
    );
}

#[test]
fn current_directory_is_a_text() {
    assert_eq!(cwd_value(Some("/tmp".to_owned())).unwrap(), "/tmp");
    assert_eq!(
        cwd_value(None).unwrap_err().to_string(),
        "current directory for {{cwd}} contains non-UTF-8 bytes and cannot be passed as a tmux argument"
    );
    assert_eq!(
        cwd_unknown(Error::msg("gone".to_owned())).full_text(),
        "failed to resolve current directory for {{cwd}}: gone"
    );
}

#[test]
fn purposes_are_named() {
    for (purpose, name) in [
        (Purpose::NewSession, "tmux new-session"),
        (Purpose::SplitWindow, "tmux split-window"),
        (Purpose::NewWindow, "tmux new-window"),
        (Purpose::TypeText, "tmux send-keys literal"),
        (Purpose::PressEnter, "tmux send-keys Enter"),
        (Purpose::SelectPane, "tmux select-pane"),
        (Purpose::SetPaneTitle, "tmux set-pane-title"),
        (Purpose::SetOption, "tmux set-option"),
        (Purpose::SetWindowOption, "tmux set-window-option"),
        (Purpose::SelectLayout, "tmux select-layout"),
        (Purpose::SelectWindow, "tmux select-window"),
        (Purpose::Handover, "tmux attach/switch"),
        (Purpose::KillSession, "tmux kill-session"),
        (Purpose::RenameSession, "tmux rename-session"),
        (Purpose::CapturePane, "tmux capture-pane"),
        (Purpose::RunHook, "pre_hook command"),
    ] {
        assert_eq!(purpose.as_str(), name);
    }
}

#[test]
fn os_string_to_tmux_arg_rejects_non_utf8() {
    let err = os_string_to_tmux_arg(None, "current directory for {{cwd}}").unwrap_err();
    assert_eq!(
        err.to_string(),
        "current directory for {{cwd}} contains non-UTF-8 bytes and cannot be passed as a tmux argument"
    );
    assert_eq!(
        os_string_to_tmux_arg(Some("/tmp".to_owned()), "x").unwrap(),
        "/tmp"
    );
}

#[test]
fn characters_are_classified_as_unicode_has_them() {
    for n in 0..=0x10ffffu32 {
        if let Some(c) = char::from_u32(n) {
            assert_eq!(
                nix_tmux_define::text::control_char(c),
                c.is_control(),
                "{n:#x}"
            );
            assert_eq!(
                nix_tmux_define::text::white_space_char(c),
                c.is_whitespace(),
                "{n:#x}"
            );
        }
    }
}

#[test]
fn texts_are_trimmed_and_split_as_strings_are() {
    for s in [
        "",
        " ",
        "\u{3000}a b\u{85}",
        "a",
        "\n\r\n",
        "a\r\nb\rc\n\nd\r",
        "\u{200b}x",
        "one\ntwo\n",
    ] {
        assert_eq!(trimmed(s), s.trim(), "{s:?}");
        assert_eq!(
            nix_tmux_define::text::split_lines(s),
            s.lines().collect::<Vec<_>>(),
            "{s:?}"
        );
        assert_eq!(
            nix_tmux_define::text::contains_text(s, "\n"),
            s.contains('\n')
        );
    }
    assert!(nix_tmux_define::text::contains_text("abc", ""));
    assert!(!nix_tmux_define::text::contains_text("", "a"));
    assert!(nix_tmux_define::text::contains_text("aab", "ab"));
    assert_eq!(
        nix_tmux_define::text::decimal_string(u64::MAX),
        u64::MAX.to_string()
    );
    assert_eq!(nix_tmux_define::text::decimal_string(0), "0");
}
