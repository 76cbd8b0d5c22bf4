use nix_tmux_define::{
    shell_quote, Compiler, Direction, EnvVar, EnvVarName, EnvVarValue, LayoutNode, OrderedMap,
    PaneCommand, PaneTitle, RootTemplate, Session, ShellCommand, SplitRatio, TemplateVarName,
    TemplateVarValue, TmuxLayoutPreset, TmuxName, TmuxOptionName, TmuxOptionValue, WaitFor,
    WaitPattern, WaitTimeoutSeconds, Window,
};

/// A right-leaning chain of splits of the given depth.
fn make_deeply_nested(depth: usize) -> LayoutNode {
    if depth == 0 {
        return LayoutNode::pane();
    }
    LayoutNode::split(
        Direction::Horizontal,
        SplitRatio::new(0.5f64.to_bits(), "0.5").unwrap(),
        LayoutNode::pane(),
        make_deeply_nested(depth - 1),
    )
}

fn ratio(value: f64) -> SplitRatio {
    SplitRatio::new(value.to_bits(), &value.to_string()).unwrap()
}

fn pc(value: &str) -> PaneCommand {
    PaneCommand::new(value).unwrap()
}

fn pt(value: &str) -> PaneTitle {
    PaneTitle::new(value).unwrap()
}

fn wp(value: &str) -> WaitPattern {
    WaitPattern::new(value).unwrap()
}

fn tmux_name(value: &str) -> TmuxName {
    TmuxName::new(value).unwrap()
}

fn root_template(value: &str) -> RootTemplate {
    RootTemplate::new(value).unwrap()
}

fn shell_command(value: &str) -> ShellCommand {
    ShellCommand::new(value).unwrap()
}

fn env_key(value: &str) -> EnvVarName {
    EnvVarName::new(value).unwrap()
}

fn env_value(value: &str) -> EnvVarValue {
    EnvVarValue::new(value).unwrap()
}

fn option_name(value: &str) -> TmuxOptionName {
    TmuxOptionName::new(value).unwrap()
}

fn option_value(value: &str) -> TmuxOptionValue {
    TmuxOptionValue::new(value).unwrap()
}

fn layout_preset(value: &str) -> TmuxLayoutPreset {
    TmuxLayoutPreset::new(value).unwrap()
}

fn var_key(value: &str) -> TemplateVarName {
    TemplateVarName::new(value).unwrap()
}

fn var_value(value: &str) -> TemplateVarValue {
    TemplateVarValue::new(value).unwrap()
}

fn compile(session: &Session) -> String {
    let mut c = Compiler::new();
    c.compile(session).unwrap();
    c.into_script()
}

fn line_pos(script: &str, needle: &str) -> usize {
    script
        .find(needle)
        .unwrap_or_else(|| panic!("missing {needle:?} in script:\n{script}"))
}

fn single_pane(name: &str, cmd: &str) -> Session {
    Session {
        name: tmux_name(name),
        root: Some(root_template("/tmp")),
        windows: vec![Window {
            name: tmux_name("main"),
            root: None,
            env: vec![],
            options: OrderedMap::new(),
            select_layout: None,
            layout: LayoutNode::Pane {
                command: Some(pc(cmd)),
                focus: true,
                title: None,
                wait_for: None,
            },
        }],
        env: vec![],
        pre_hook: None,
        options: OrderedMap::new(),
        vars: OrderedMap::new(),
    }
}

// ── shell_quote ───────────────────────────────────────────────────────────

#[test]
fn quote_plain() {
    assert_eq!(shell_quote("hello"), "'hello'");
}

#[test]
fn quote_spaces() {
    assert_eq!(shell_quote("hello world"), "'hello world'");
}

#[test]
fn quote_single_quote() {
    assert_eq!(shell_quote("it's"), "'it'\\''s'");
}

#[test]
fn quote_emacs_command() {
    let q = shell_quote("emacsclient -c -a '' .");
    assert!(q.starts_with('\''));
    assert!(q.ends_with('\'') || q.ends_with("''"));
    // Round-trip sanity: contains the escaped single quotes
    assert!(q.contains("'\\''"));
}

// ── Script generation ─────────────────────────────────────────────────────

#[test]
fn script_shebang() {
    let s = compile(&single_pane("s", "bash"));
    assert!(s.starts_with("#!/usr/bin/env bash"));
}

#[test]
fn script_idempotency_guard() {
    let s = compile(&single_pane("s", "bash"));
    assert!(s.contains("tmux has-session"));
    assert!(s.contains("switch-client"));
    assert!(s.contains("attach-session"));
}

#[test]
fn script_tmux_env_detection() {
    let s = compile(&single_pane("s", "bash"));
    // Both the guard and the final attach must use the TMUX variable
    let count = s.matches("${TMUX:-}").count();
    assert_eq!(
        count, 2,
        "TMUX detection should appear in guard and final attach"
    );
}

#[test]
fn script_new_session_command() {
    let s = compile(&single_pane("s", "bash"));
    assert!(s.contains("tmux new-session"));
    assert!(s.contains("'s'"), "session name should be single-quoted");
}

#[test]
fn script_sends_command() {
    let s = compile(&single_pane("s", "vim"));
    assert!(s.contains("tmux send-keys -t \"${PANE_0}\" -l -- 'vim'"));
    assert!(s.contains("tmux send-keys -t \"${PANE_0}\" Enter"));
}

#[test]
fn script_sends_literal_command_before_enter() {
    let s = compile(&single_pane("s", "printf Enter -n"));
    assert!(s.contains("tmux send-keys -t \"${PANE_0}\" -l -- 'printf Enter -n'"));
    assert!(s.contains("tmux send-keys -t \"${PANE_0}\" Enter"));
    assert!(
        !s.contains("'printf Enter -n' Enter"),
        "command text must not be mixed with tmux key names"
    );
}

#[test]
fn script_focus_pane() {
    let s = compile(&single_pane("s", "bash"));
    assert!(s.contains("tmux select-pane -t \"${PANE_0}\""));
}

#[test]
fn script_horizontal_split_40pct() {
    let session = Session {
        name: tmux_name("s"),
        root: None,
        windows: vec![Window {
            name: tmux_name("w"),
            root: None,
            env: vec![],
            options: OrderedMap::new(),
            select_layout: None,
            layout: LayoutNode::Split {
                direction: Direction::Horizontal,
                ratio: ratio(0.6),
                first: Box::new(LayoutNode::Pane {
                    command: None,
                    focus: false,
                    title: None,
                    wait_for: None,
                }),
                second: Box::new(LayoutNode::Pane {
                    command: None,
                    focus: false,
                    title: None,
                    wait_for: None,
                }),
            },
        }],
        env: vec![],
        pre_hook: None,
        options: OrderedMap::new(),
        vars: OrderedMap::new(),
    };
    let s = compile(&session);
    assert!(s.contains("-h"), "horizontal split");
    assert!(s.contains("40%"), "second pane gets 40% (=100-60)");
}

#[test]
fn script_vertical_split_70pct() {
    let session = Session {
        name: tmux_name("s"),
        root: None,
        windows: vec![Window {
            name: tmux_name("w"),
            root: None,
            env: vec![],
            options: OrderedMap::new(),
            select_layout: None,
            layout: LayoutNode::Split {
                direction: Direction::Vertical,
                ratio: ratio(0.3),
                first: Box::new(LayoutNode::Pane {
                    command: None,
                    focus: false,
                    title: None,
                    wait_for: None,
                }),
                second: Box::new(LayoutNode::Pane {
                    command: None,
                    focus: false,
                    title: None,
                    wait_for: None,
                }),
            },
        }],
        env: vec![],
        pre_hook: None,
        options: OrderedMap::new(),
        vars: OrderedMap::new(),
    };
    let s = compile(&session);
    assert!(s.contains("-v"), "vertical split");
    assert!(s.contains("70%"), "second pane gets 70% (=100-30)");
}

#[test]
fn script_multiple_windows() {
    let session = Session {
        name: tmux_name("multi"),
        root: Some(root_template("/tmp")),
        windows: vec![
            Window {
                name: tmux_name("code"),
                root: None,
                env: vec![],
                options: OrderedMap::new(),
                select_layout: None,
                layout: LayoutNode::Pane {
                    command: Some(pc("vim")),
                    focus: false,
                    title: None,
                    wait_for: None,
                },
            },
            Window {
                name: tmux_name("shell"),
                root: None,
                env: vec![],
                options: OrderedMap::new(),
                select_layout: None,
                layout: LayoutNode::Pane {
                    command: Some(pc("bash")),
                    focus: false,
                    title: None,
                    wait_for: None,
                },
            },
        ],
        env: vec![],
        pre_hook: None,
        options: OrderedMap::new(),
        vars: OrderedMap::new(),
    };
    let s = compile(&session);
    assert!(s.contains("tmux new-session"));
    assert!(s.contains("tmux new-window"));
    assert!(s.contains("'code'"));
    assert!(s.contains("'shell'"));
}

#[test]
fn script_session_env_vars() {
    let session = Session {
        name: tmux_name("e"),
        root: None,
        windows: vec![Window {
            name: tmux_name("w"),
            root: None,
            env: vec![],
            options: OrderedMap::new(),
            select_layout: None,
            layout: LayoutNode::Pane {
                command: None,
                focus: false,
                title: None,
                wait_for: None,
            },
        }],
        env: vec![
            EnvVar {
                key: env_key("EDITOR"),
                value: env_value("nvim"),
            },
            EnvVar {
                key: env_key("PAGER"),
                value: env_value("less"),
            },
        ],
        pre_hook: None,
        options: OrderedMap::new(),
        vars: OrderedMap::new(),
    };
    let s = compile(&session);
    assert!(s.contains("-e EDITOR='nvim'"));
    assert!(s.contains("-e PAGER='less'"));
    assert!(!s.contains("export EDITOR="));
    assert!(!s.contains("export PAGER="));
}

#[test]
fn script_window_env_vars() {
    let session = Session {
        name: tmux_name("we"),
        root: None,
        windows: vec![Window {
            name: tmux_name("w"),
            root: None,
            env: vec![EnvVar {
                key: env_key("NODE_ENV"),
                value: env_value("development"),
            }],
            options: OrderedMap::new(),
            select_layout: None,
            layout: LayoutNode::Pane {
                command: None,
                focus: false,
                title: None,
                wait_for: None,
            },
        }],
        env: vec![],
        pre_hook: None,
        options: OrderedMap::new(),
        vars: OrderedMap::new(),
    };
    let s = compile(&session);
    assert!(s.contains("-e NODE_ENV='development'"));
    assert!(!s.contains("export NODE_ENV="));
}

#[test]
fn script_window_env_does_not_leak_to_next_window() {
    let session = Session {
        name: tmux_name("we"),
        root: None,
        windows: vec![
            Window {
                name: tmux_name("app"),
                root: None,
                env: vec![EnvVar {
                    key: env_key("NODE_ENV"),
                    value: env_value("development"),
                }],
                options: OrderedMap::new(),
                select_layout: None,
                layout: LayoutNode::pane(),
            },
            Window {
                name: tmux_name("shell"),
                root: None,
                env: vec![],
                options: OrderedMap::new(),
                select_layout: None,
                layout: LayoutNode::pane(),
            },
        ],
        env: vec![],
        pre_hook: None,
        options: OrderedMap::new(),
        vars: OrderedMap::new(),
    };
    let s = compile(&session);
    let first = s
        .lines()
        .find(|line| line.contains("tmux new-session"))
        .unwrap();
    let second = s
        .lines()
        .find(|line| line.contains("tmux new-window"))
        .unwrap();
    assert!(first.contains("-e NODE_ENV='development'"));
    assert!(!second.contains("NODE_ENV"));
}

#[test]
fn script_pane_title() {
    let session = Session {
        name: tmux_name("t"),
        root: None,
        windows: vec![Window {
            name: tmux_name("w"),
            root: None,
            env: vec![],
            options: OrderedMap::new(),
            select_layout: None,
            layout: LayoutNode::Pane {
                command: Some(pc("top")),
                focus: false,
                title: Some(pt("monitor")),
                wait_for: None,
            },
        }],
        env: vec![],
        pre_hook: None,
        options: OrderedMap::new(),
        vars: OrderedMap::new(),
    };
    let s = compile(&session);
    assert!(s.contains("select-pane -t \"${PANE_0}\" -T 'monitor'"));
}

#[test]
fn script_pre_hook_before_new_session() {
    let session = Session {
        name: tmux_name("ph"),
        root: None,
        windows: vec![Window {
            name: tmux_name("w"),
            root: None,
            env: vec![],
            options: OrderedMap::new(),
            select_layout: None,
            layout: LayoutNode::Pane {
                command: None,
                focus: false,
                title: None,
                wait_for: None,
            },
        }],
        env: vec![],
        pre_hook: Some(shell_command("nix build")),
        options: OrderedMap::new(),
        vars: OrderedMap::new(),
    };
    let s = compile(&session);
    let hook_pos = s.find("nix build").unwrap();
    let sess_pos = s.find("new-session").unwrap();
    assert!(hook_pos < sess_pos, "pre_hook runs before new-session");
}

#[test]
fn script_window_root_overrides_session() {
    let session = Session {
        name: tmux_name("wr"),
        root: Some(root_template("/session-root")),
        windows: vec![Window {
            name: tmux_name("w"),
            root: Some(root_template("/window-root")),
            env: vec![],
            options: OrderedMap::new(),
            select_layout: None,
            layout: LayoutNode::Pane {
                command: None,
                focus: false,
                title: None,
                wait_for: None,
            },
        }],
        env: vec![],
        pre_hook: None,
        options: OrderedMap::new(),
        vars: OrderedMap::new(),
    };
    let s = compile(&session);
    assert!(s.contains("'/window-root'"), "window root takes precedence");
    assert!(
        !s.contains("'/session-root'"),
        "session root not used when window root is set"
    );
}

#[test]
fn script_root_builtin_cwd_remains_shell_expression() {
    let mut session = single_pane("root-builtins", "pwd");
    session.root = Some(root_template("{{cwd}}/project"));

    let script = compile(&session);

    assert!(
        script.contains("-c \"${PWD}\"'/project'"),
        "root builtin should remain a quoted shell expression in scripts: {script}"
    );
    assert!(
        !script.contains("'$PWD/project'"),
        "root builtin must not be quoted as a literal string: {script}"
    );
}

// ── New feature tests ─────────────────────────────────────────────────────

#[test]
fn compiler_options_session() {
    let mut opts = OrderedMap::new();
    opts.insert(option_name("status"), option_value("off"));
    let session = Session {
        name: tmux_name("s"),
        root: Some(root_template("/tmp")),
        windows: vec![Window {
            name: tmux_name("w"),
            root: None,
            env: vec![],
            options: OrderedMap::new(),
            select_layout: None,
            layout: LayoutNode::Pane {
                command: None,
                focus: false,
                title: None,
                wait_for: None,
            },
        }],
        env: vec![],
        pre_hook: None,
        options: opts,
        vars: OrderedMap::new(),
    };
    let s = compile(&session);
    assert!(
        s.contains("tmux set-option"),
        "set-option should appear in script"
    );
    assert!(s.contains("'status'"), "option key should be quoted");
    assert!(s.contains("'off'"), "option value should be quoted");
}

#[test]
fn compiler_emits_session_options_in_key_order() {
    let mut opts = OrderedMap::new();
    opts.insert(option_name("status-right"), option_value("right"));
    opts.insert(option_name("base-index"), option_value("1"));
    opts.insert(option_name("status-left"), option_value("left"));
    let session = Session {
        name: tmux_name("s"),
        root: Some(root_template("/tmp")),
        windows: vec![Window {
            name: tmux_name("w"),
            root: None,
            env: vec![],
            options: OrderedMap::new(),
            select_layout: None,
            layout: LayoutNode::Pane {
                command: None,
                focus: false,
                title: None,
                wait_for: None,
            },
        }],
        env: vec![],
        pre_hook: None,
        options: opts,
        vars: OrderedMap::new(),
    };
    let script = compile(&session);
    let base = line_pos(
        &script,
        "tmux set-option -t \"$SESSION\" -- 'base-index' '1'",
    );
    let left = line_pos(
        &script,
        "tmux set-option -t \"$SESSION\" -- 'status-left' 'left'",
    );
    let right = line_pos(
        &script,
        "tmux set-option -t \"$SESSION\" -- 'status-right' 'right'",
    );
    assert!(
        base < left && left < right,
        "session options should follow key order:\n{script}"
    );
}

#[test]
fn compiler_options_window() {
    let mut wopts = OrderedMap::new();
    wopts.insert(option_name("synchronize-panes"), option_value("on"));
    let session = Session {
        name: tmux_name("s"),
        root: Some(root_template("/tmp")),
        windows: vec![Window {
            name: tmux_name("w"),
            root: None,
            env: vec![],
            options: wopts,
            select_layout: None,
            layout: LayoutNode::Pane {
                command: None,
                focus: false,
                title: None,
                wait_for: None,
            },
        }],
        env: vec![],
        pre_hook: None,
        options: OrderedMap::new(),
        vars: OrderedMap::new(),
    };
    let s = compile(&session);
    assert!(
        s.contains("tmux set-window-option"),
        "set-window-option should appear"
    );
    assert!(s.contains("'synchronize-panes'"), "option key quoted");
    assert!(s.contains("'on'"), "option value quoted");
}

#[test]
fn compiler_emits_window_options_in_key_order() {
    let mut wopts = OrderedMap::new();
    wopts.insert(option_name("synchronize-panes"), option_value("on"));
    wopts.insert(option_name("automatic-rename"), option_value("off"));
    let session = Session {
        name: tmux_name("s"),
        root: Some(root_template("/tmp")),
        windows: vec![Window {
            name: tmux_name("w"),
            root: None,
            env: vec![],
            options: wopts,
            select_layout: None,
            layout: LayoutNode::Pane {
                command: None,
                focus: false,
                title: None,
                wait_for: None,
            },
        }],
        env: vec![],
        pre_hook: None,
        options: OrderedMap::new(),
        vars: OrderedMap::new(),
    };
    let script = compile(&session);
    let automatic = line_pos(
        &script,
        "tmux set-window-option -t \"$SESSION:\"'w'  -- 'automatic-rename' 'off'",
    );
    let synchronize = line_pos(
        &script,
        "tmux set-window-option -t \"$SESSION:\"'w'  -- 'synchronize-panes' 'on'",
    );
    assert!(
        automatic < synchronize,
        "window options should follow key order:\n{script}"
    );
}

#[test]
fn compiler_select_layout() {
    let session = Session {
        name: tmux_name("s"),
        root: Some(root_template("/tmp")),
        windows: vec![Window {
            name: tmux_name("w"),
            root: None,
            env: vec![],
            options: OrderedMap::new(),
            select_layout: Some(layout_preset("tiled")),
            layout: LayoutNode::Pane {
                command: None,
                focus: false,
                title: None,
                wait_for: None,
            },
        }],
        env: vec![],
        pre_hook: None,
        options: OrderedMap::new(),
        vars: OrderedMap::new(),
    };
    let s = compile(&session);
    assert!(
        s.contains("tmux select-layout"),
        "select-layout should appear"
    );
    assert!(s.contains("'tiled'"), "layout preset quoted");
}

#[test]
fn compiler_window_target_quoting_is_well_formed() {
    // Regression: the window name must be single-quoted OUTSIDE the
    // double-quoted `$SESSION:` prefix, so the target expands to `s:w`, not
    // the literally-quoted `s:'w'` (which tmux rejects, aborting `set -e`).
    let mut wopts = OrderedMap::new();
    wopts.insert(option_name("synchronize-panes"), option_value("on"));
    let session = Session {
        name: tmux_name("s"),
        root: Some(root_template("/tmp")),
        windows: vec![Window {
            name: tmux_name("w"),
            root: None,
            env: vec![],
            options: wopts,
            select_layout: Some(layout_preset("tiled")),
            layout: LayoutNode::pane(),
        }],
        env: vec![],
        pre_hook: None,
        options: OrderedMap::new(),
        vars: OrderedMap::new(),
    };
    let s = compile(&session);
    assert!(
        s.contains("set-window-option -t \"$SESSION:\"'w'"),
        "window-option target must be \"$SESSION:\"'w':\n{s}"
    );
    assert!(
        s.contains("select-layout -t \"$SESSION:\"'w'"),
        "select-layout target must be \"$SESSION:\"'w':\n{s}"
    );
    assert!(
        !s.contains("\"$SESSION:'w'\""),
        "the window name must not be quoted INSIDE the target:\n{s}"
    );
}

#[test]
fn compiler_wait_for_helper() {
    let session = Session {
        name: tmux_name("s"),
        root: Some(root_template("/tmp")),
        windows: vec![Window {
            name: tmux_name("w"),
            root: None,
            env: vec![],
            options: OrderedMap::new(),
            select_layout: None,
            layout: LayoutNode::Pane {
                command: Some(pc("npm start")),
                focus: false,
                title: None,
                wait_for: Some(WaitFor {
                    pattern: wp("ready"),
                    timeout: WaitTimeoutSeconds::new(30).unwrap(),
                }),
            },
        }],
        env: vec![],
        pre_hook: None,
        options: OrderedMap::new(),
        vars: OrderedMap::new(),
    };
    let s = compile(&session);
    assert!(
        s.contains("_ntd_wait_pane"),
        "_ntd_wait_pane helper should be emitted"
    );
}

#[test]
fn compiler_no_wait_helper_if_unused() {
    let s = compile(&single_pane("s", "bash"));
    assert!(
        !s.contains("_ntd_wait_pane"),
        "_ntd_wait_pane helper should NOT be emitted when no wait_for"
    );
}

#[test]
fn compiler_wait_for_in_nested_split() {
    // wait_for lives in the SECOND child of a split, exercising the recursive
    // layout_uses_wait_for(second) path in session_uses_wait_for.
    let session = Session {
        name: tmux_name("s"),
        root: Some(root_template("/tmp")),
        windows: vec![Window {
            name: tmux_name("w"),
            root: None,
            env: vec![],
            options: OrderedMap::new(),
            select_layout: None,
            layout: LayoutNode::Split {
                direction: Direction::Horizontal,
                ratio: ratio(0.5),
                first: Box::new(LayoutNode::Pane {
                    command: None,
                    focus: false,
                    title: None,
                    wait_for: None,
                }),
                second: Box::new(LayoutNode::Pane {
                    command: Some(pc("npm start")),
                    focus: false,
                    title: None,
                    wait_for: Some(WaitFor {
                        pattern: wp("listening"),
                        timeout: WaitTimeoutSeconds::new(5).unwrap(),
                    }),
                }),
            },
        }],
        env: vec![],
        pre_hook: None,
        options: OrderedMap::new(),
        vars: OrderedMap::new(),
    };
    let s = compile(&session);
    assert!(
        s.contains("_ntd_wait_pane"),
        "_ntd_wait_pane must be emitted when wait_for is nested in second child"
    );
    assert!(s.contains("'listening'"));
}

#[test]
fn compiler_template_var() {
    let mut vars = OrderedMap::new();
    vars.insert(var_key("mydir"), var_value("/home/user/project"));
    let session = Session {
        name: tmux_name("s"),
        root: Some(root_template("/tmp")),
        windows: vec![Window {
            name: tmux_name("w"),
            root: None,
            env: vec![],
            options: OrderedMap::new(),
            select_layout: None,
            layout: LayoutNode::Pane {
                command: Some(pc("cd {{mydir}}")),
                focus: false,
                title: None,
                wait_for: None,
            },
        }],
        env: vec![],
        pre_hook: None,
        options: OrderedMap::new(),
        vars,
    };
    let s = compile(&session);
    assert!(
        s.contains("cd /home/user/project"),
        "template variable should be substituted"
    );
}

// ── Security: grep -qF ───────────────────────────────────────────────────

#[test]
fn compiler_wait_helper_uses_grep_fixed_string() {
    let session = Session {
        name: tmux_name("s"),
        root: Some(root_template("/tmp")),
        windows: vec![Window {
            name: tmux_name("w"),
            root: None,
            env: vec![],
            options: OrderedMap::new(),
            select_layout: None,
            layout: LayoutNode::Pane {
                command: None,
                focus: false,
                title: None,
                wait_for: Some(WaitFor {
                    pattern: wp("ready"),
                    timeout: WaitTimeoutSeconds::new(5).unwrap(),
                }),
            },
        }],
        env: vec![],
        pre_hook: None,
        options: OrderedMap::new(),
        vars: OrderedMap::new(),
    };
    let s = compile(&session);
    assert!(
        s.contains("grep -qF -- \"$pattern\""),
        "wait helper must use grep -qF -- (fixed string) so leading '-' is data"
    );
    assert!(
        !s.contains("grep -q \""),
        "grep -q with unquoted pattern is absent"
    );
    assert!(
        !s.contains("grep -qF \"$pattern\""),
        "grep must not parse a leading '-' pattern as an option"
    );
}

#[test]
fn compiler_compile_resets_reusable_state() {
    let mut compiler = Compiler::new();
    compiler.compile(&single_pane("first", "vim")).unwrap();

    compiler.compile(&single_pane("second", "bash")).unwrap();
    let s = compiler.into_script();

    assert!(s.contains("SESSION='second'"));
    assert!(s.contains("tmux send-keys -t \"${PANE_0}\" -l -- 'bash'"));
    assert!(!s.contains("SESSION='first'"));
    assert!(!s.contains("'vim'"));
    assert!(!s.contains("PANE_1"));
}

// ── Security: recursion depth limit ──────────────────────────────────────

#[test]
fn compiler_depth_limit_rejects_oversized_tree() {
    let session = Session {
        name: tmux_name("s"),
        root: None,
        windows: vec![Window {
            name: tmux_name("w"),
            root: None,
            env: vec![],
            options: OrderedMap::new(),
            select_layout: None,
            layout: make_deeply_nested(65),
        }],
        env: vec![],
        pre_hook: None,
        options: OrderedMap::new(),
        vars: OrderedMap::new(),
    };
    let mut c = Compiler::new();
    let result = c.compile(&session);
    assert!(result.is_err(), "should fail for depth > MAX_LAYOUT_DEPTH");
    assert!(
        result.unwrap_err().to_string().contains("deeply nested"),
        "error should mention nesting"
    );
}

#[test]
fn compiler_depth_limit_accepts_depth_64() {
    let session = Session {
        name: tmux_name("s"),
        root: None,
        windows: vec![Window {
            name: tmux_name("w"),
            root: None,
            env: vec![],
            options: OrderedMap::new(),
            select_layout: None,
            layout: make_deeply_nested(64),
        }],
        env: vec![],
        pre_hook: None,
        options: OrderedMap::new(),
        vars: OrderedMap::new(),
    };
    let mut c = Compiler::new();
    assert!(c.compile(&session).is_ok(), "depth 64 should be accepted");
}

fn pane_running(command: &str, focus: bool) -> LayoutNode {
    LayoutNode::Pane {
        command: Some(pc(command)),
        focus,
        title: None,
        wait_for: None,
    }
}

fn one_window(name: &str, root: &str, window: &str, layout: LayoutNode) -> Session {
    Session {
        name: tmux_name(name),
        root: Some(root_template(root)),
        windows: vec![Window {
            name: tmux_name(window),
            root: None,
            env: vec![],
            options: OrderedMap::new(),
            select_layout: None,
            layout,
        }],
        env: vec![],
        pre_hook: None,
        options: OrderedMap::new(),
        vars: OrderedMap::new(),
    }
}

#[test]
fn script_three_pane_nested() {
    let session = one_window(
        "dev",
        "/p",
        "main",
        LayoutNode::split(
            Direction::Horizontal,
            ratio(0.6),
            pane_running("emacs", true),
            LayoutNode::split(
                Direction::Vertical,
                ratio(0.5),
                pane_running("cargo watch", false),
                pane_running("git log", false),
            ),
        ),
    );
    let s = compile(&session);

    assert_eq!(s.matches("split-window").count(), 2, "3 panes = 2 splits");
    assert!(s.contains("'emacs'"));
    assert!(s.contains("'cargo watch'"));
    assert!(s.contains("'git log'"));
    assert!(
        s.contains("select-pane -t \"${PANE_0}\""),
        "emacs pane focused"
    );
}

#[test]
fn script_two_phase_ordering() {
    // All split-window calls must appear before any send-keys call
    let session = one_window(
        "s",
        "/",
        "w",
        LayoutNode::split(
            Direction::Horizontal,
            ratio(0.5),
            pane_running("top", false),
            pane_running("htop", false),
        ),
    );
    let s = compile(&session);

    let last_split = s.rfind("split-window").unwrap();
    let first_send = s.find("send-keys").unwrap();
    assert!(last_split < first_send, "all splits precede all send-keys");
}

#[test]
fn whole_script_of_a_session() {
    let mut vars = OrderedMap::new();
    vars.insert(var_key("dir"), var_value("/srv/it's"));
    let mut session = one_window(
        "my dev",
        "{{dir}}/{{cwd}}",
        "main",
        LayoutNode::split(
            Direction::Vertical,
            ratio(0.3),
            LayoutNode::Pane {
                command: Some(pc("cd {{dir}}")),
                focus: true,
                title: Some(pt("top")),
                wait_for: Some(WaitFor {
                    pattern: wp("ready"),
                    timeout: WaitTimeoutSeconds::new(7).unwrap(),
                }),
            },
            LayoutNode::pane(),
        ),
    );
    session.vars = vars;
    session.pre_hook = Some(shell_command("echo {{date}}"));
    session.env = vec![EnvVar {
        key: env_key("A"),
        value: env_value("1"),
    }];
    session
        .options
        .insert(option_name("mouse"), option_value("on"));
    session.windows[0]
        .options
        .insert(option_name("sync"), option_value("off"));
    session.windows[0].select_layout = Some(layout_preset("tiled"));
    let expected = [
        "#!/usr/bin/env bash",
        "set -euo pipefail",
        "",
        "SESSION='my dev'",
        "",
        "if tmux has-session -t \"$SESSION\" 2>/dev/null; then",
        "  if [ -n \"${TMUX:-}\" ]; then",
        "    exec tmux switch-client -t \"$SESSION\"",
        "  elif [ -t 0 ]; then",
        "    exec tmux attach-session -t \"$SESSION\"",
        "  else",
        "    echo \"session '$SESSION' is ready (not attaching; no terminal).\" >&2",
        "    exit 0",
        "  fi",
        "fi",
        "",
        "# wait for pattern in pane output",
        "_ntd_wait_pane() {",
        "  local pane=$1 pattern=$2 timeout=${3:-30} elapsed=0",
        "  while [ $elapsed -lt $timeout ]; do",
        "    if tmux capture-pane -t \"$pane\" -p | grep -qF -- \"$pattern\"; then",
        "      return 0",
        "    fi",
        "    sleep 1",
        "    elapsed=$((elapsed + 1))",
        "  done",
        "  echo \"timeout after ${timeout}s: '$pattern' not seen in pane $pane\" >&2",
        "  return 1",
        "}",
        "",
        "# pre_hook",
        "echo $(date +%Y-%m-%d)",
        "",
        "# ── window 0: main ──",
        "PANE_0=$(tmux new-session -d -s \"$SESSION\" -c '/srv/it'\\''s''/'\"${PWD}\" -n 'main' -e A='1' -P -F '#{pane_id}')",
        "tmux set-option -t \"$SESSION\" -- 'mouse' 'on'",
        "PANE_1=$(tmux split-window -t \"${PANE_0}\" -v -l 70% -c '/srv/it'\\''s''/'\"${PWD}\" -e A='1' -P -F '#{pane_id}')",
        "tmux send-keys -t \"${PANE_0}\" -l -- 'cd /srv/it'\\''s'",
        "tmux send-keys -t \"${PANE_0}\" Enter",
        "_ntd_wait_pane \"${PANE_0}\" 'ready' 7",
        "tmux select-pane -t \"${PANE_0}\" -T 'top'",
        "tmux set-window-option -t \"$SESSION:\"'main'  -- 'sync' 'off'",
        "tmux select-layout -t \"$SESSION:\"'main'  -- 'tiled'",
        "tmux select-pane -t \"${PANE_0}\"",
        "",
        "tmux select-window -t \"$SESSION:^\"",
        "if [ -n \"${TMUX:-}\" ]; then",
        "  exec tmux switch-client -t \"$SESSION\"",
        "else",
        "  exec tmux attach-session -t \"$SESSION\"",
        "fi",
    ];
    assert_eq!(compile(&session), expected.join("\n"));
}

#[test]
fn panes_of_later_windows_count_on() {
    let mut session = one_window(
        "s",
        "/",
        "a",
        LayoutNode::split(
            Direction::Horizontal,
            ratio(0.5),
            LayoutNode::pane(),
            LayoutNode::pane(),
        ),
    );
    session.windows.push(Window {
        name: tmux_name("b"),
        root: None,
        env: vec![],
        options: OrderedMap::new(),
        select_layout: None,
        layout: LayoutNode::split(
            Direction::Horizontal,
            ratio(0.5),
            LayoutNode::pane(),
            pane_running("htop", false),
        ),
    });
    let s = compile(&session);
    assert!(s.contains("PANE_2=$(tmux new-window -t \"$SESSION\" -c '/' -n 'b'"));
    assert!(s.contains("PANE_3=$(tmux split-window -t \"${PANE_2}\""));
    assert!(s.contains("tmux send-keys -t \"${PANE_3}\" -l -- 'htop'"));
}

#[test]
fn failed_compilation_leaves_an_empty_script() {
    let mut compiler = Compiler::new();
    compiler.compile(&single_pane("first", "vim")).unwrap();
    let mut session = single_pane("second", "vim");
    session.windows.clear();
    assert_eq!(
        compiler.compile(&session).unwrap_err().to_string(),
        "session must define at least one window"
    );
    assert_eq!(compiler.into_script(), "");
}

#[test]
fn names_cannot_end_their_line() {
    assert!(TmuxName::new("a\nb").is_err());
    let session = one_window("it's $(x)", "/", "w'; \"rm", pane_running("ls", false));
    let script = compile(&session);
    let lines: Vec<&str> = script.lines().collect();
    assert_eq!(lines[3], "SESSION='it'\\''s $(x)'");
    assert_eq!(lines[16], "# ── window 0: w'; \"rm ──");
    assert!(lines[17].contains(" -n 'w'\\''; \"rm' "));
}

#[test]
fn script_ends_with_the_handover() {
    let script = compile(&single_pane("s", "vim"));
    assert!(script.ends_with(
        "\n\ntmux select-window -t \"$SESSION:^\"\n\
         if [ -n \"${TMUX:-}\" ]; then\n  \
         exec tmux switch-client -t \"$SESSION\"\n\
         else\n  \
         exec tmux attach-session -t \"$SESSION\"\n\
         fi"
    ));
}
