use nix_tmux_define::executor::{reload_side_session_name, ReloadSideSession};
use nix_tmux_define::{
    BuiltinVar, Direction, EnvVar, EnvVarName, EnvVarValue, Error, Executor, LayoutNode,
    OrderedMap, PaneCommand, PaneId, PaneTitle, RecordingBackend, ResolvedTmuxArg, RootTemplate,
    Session, ShellCommand, SplitRatio, TemplateVarName, TemplateVarValue, TmuxBackend,
    TmuxLayoutPreset, TmuxName, TmuxOptionName, TmuxOptionValue, TmuxPanePercent, TmuxSplitFlag,
    WaitFor, WaitPattern, WaitTimeoutSeconds, Window,
};

/// The process id that goes into the names of reload sessions.
const PROCESS_ID: u32 = 4242;

/// A right-leaning chain of splits of the given depth.
fn make_deeply_nested(depth: usize) -> LayoutNode {
    if depth == 0 {
        return LayoutNode::pane();
    }
    LayoutNode::split(
        Direction::Horizontal,
        SplitRatio::new(0.5f64.to_bits(), "0.5").unwrap(),
        LayoutNode::pane(),
        make_deeply_nested(depth - 1),
    )
}

fn ratio(value: f64) -> SplitRatio {
    SplitRatio::new(value.to_bits(), &value.to_string()).unwrap()
}

fn pc(value: &str) -> PaneCommand {
    PaneCommand::new(value).unwrap()
}

fn pt(value: &str) -> PaneTitle {
    PaneTitle::new(value).unwrap()
}

fn wp(value: &str) -> WaitPattern {
    WaitPattern::new(value).unwrap()
}

fn tmux_name(value: &str) -> TmuxName {
    TmuxName::new(value).unwrap()
}

fn root_template(value: &str) -> RootTemplate {
    RootTemplate::new(value).unwrap()
}

fn shell_command(value: &str) -> ShellCommand {
    ShellCommand::new(value).unwrap()
}

fn env_key(value: &str) -> EnvVarName {
    EnvVarName::new(value).unwrap()
}

fn env_value(value: &str) -> EnvVarValue {
    EnvVarValue::new(value).unwrap()
}

fn option_name(value: &str) -> TmuxOptionName {
    TmuxOptionName::new(value).unwrap()
}

fn option_value(value: &str) -> TmuxOptionValue {
    TmuxOptionValue::new(value).unwrap()
}

fn layout_preset(value: &str) -> TmuxLayoutPreset {
    TmuxLayoutPreset::new(value).unwrap()
}

fn var_key(value: &str) -> TemplateVarName {
    TemplateVarName::new(value).unwrap()
}

fn var_value(value: &str) -> TemplateVarValue {
    TemplateVarValue::new(value).unwrap()
}

#[test]
fn reload_side_session_name_returns_typed_replacement_name() {
    let name = reload_side_session_name(&tmux_name("demo"), ReloadSideSession::Replacement, PROCESS_ID)
        .unwrap()
        .into_inner();

    assert!(name.starts_with("demo__ntd_reload_new_"), "{name}");
}

#[test]
fn reload_side_session_name_returns_typed_backup_name() {
    let name = reload_side_session_name(&tmux_name("demo"), ReloadSideSession::Backup, PROCESS_ID)
        .unwrap()
        .into_inner();

    assert!(name.starts_with("demo__ntd_reload_old_"), "{name}");
}

fn simple_session(name: &str, cmd: Option<&str>) -> Session {
    Session {
        name: tmux_name(name),
        root: Some(root_template("/tmp")),
        windows: vec![Window {
            name: tmux_name("main"),
            root: None,
            env: vec![],
            options: OrderedMap::new(),
            select_layout: None,
            layout: LayoutNode::Pane {
                command: cmd.map(pc),
                focus: false,
                title: None,
                wait_for: None,
            },
        }],
        env: vec![],
        pre_hook: None,
        options: OrderedMap::new(),
        vars: OrderedMap::new(),
    }
}

fn call_pos(calls: &[String], expected: &str) -> usize {
    calls
        .iter()
        .position(|call| call == expected)
        .unwrap_or_else(|| panic!("missing call {expected:?}: {calls:#?}"))
}

/// A recording backend of which some requests fail.
#[derive(Default)]
struct FailingBackend {
    inner: RecordingBackend,
    fail_set_option: bool,
    fail_new_window: bool,
    fail_kill: bool,
    fail_rename_to: Option<String>,
    fail_rename_from: Option<String>,
    fail_builtin: bool,
}

impl FailingBackend {
    fn calls(&self) -> Vec<String> {
        self.inner.calls()
    }
}

fn failure(message: &str) -> Error {
    Error::msg(message.to_owned())
}

impl TmuxBackend for FailingBackend {
    fn has_session(&mut self, name: &TmuxName) -> bool {
        self.inner.has_session(name)
    }

    fn new_session_with_env(
        &mut self,
        name: &TmuxName,
        root: &ResolvedTmuxArg,
        window_name: &TmuxName,
        env: &[EnvVar],
    ) -> Result<PaneId, Error> {
        self.inner
            .new_session_with_env(name, root, window_name, env)
    }

    fn split_window_with_env(
        &mut self,
        pane_id: &PaneId,
        flag: TmuxSplitFlag,
        pct: TmuxPanePercent,
        root: &ResolvedTmuxArg,
        env: &[EnvVar],
    ) -> Result<PaneId, Error> {
        self.inner
            .split_window_with_env(pane_id, flag, pct, root, env)
    }

    fn new_window_with_env(
        &mut self,
        session: &TmuxName,
        name: &TmuxName,
        root: &ResolvedTmuxArg,
        env: &[EnvVar],
    ) -> Result<PaneId, Error> {
        if self.fail_new_window {
            return Err(failure("new-window failed"));
        }
        self.inner.new_window_with_env(session, name, root, env)
    }

    fn send_keys(&mut self, pane_id: &PaneId, keys: &PaneCommand) -> Result<(), Error> {
        self.inner.send_keys(pane_id, keys)
    }

    fn select_pane(&mut self, pane_id: &PaneId) -> Result<(), Error> {
        self.inner.select_pane(pane_id)
    }

    fn set_pane_title(&mut self, pane_id: &PaneId, title: &PaneTitle) -> Result<(), Error> {
        self.inner.set_pane_title(pane_id, title)
    }

    fn set_option(
        &mut self,
        session: &TmuxName,
        key: &TmuxOptionName,
        value: &TmuxOptionValue,
    ) -> Result<(), Error> {
        if self.fail_set_option {
            return Err(failure("set-option failed"));
        }
        self.inner.set_option(session, key, value)
    }

    fn set_window_option(
        &mut self,
        session: &TmuxName,
        window: &TmuxName,
        key: &TmuxOptionName,
        value: &TmuxOptionValue,
    ) -> Result<(), Error> {
        self.inner.set_window_option(session, window, key, value)
    }

    fn select_layout(
        &mut self,
        session: &TmuxName,
        window: &TmuxName,
        preset: &TmuxLayoutPreset,
    ) -> Result<(), Error> {
        self.inner.select_layout(session, window, preset)
    }

    fn select_window(&mut self, session: &TmuxName, window: &TmuxName) -> Result<(), Error> {
        self.inner.select_window(session, window)
    }

    fn attach_or_switch(&mut self, session: &TmuxName) -> Result<(), Error> {
        self.inner.attach_or_switch(session)
    }

    fn kill_session(&mut self, name: &TmuxName) -> Result<(), Error> {
        self.inner.kill_session(name)?;
        if self.fail_kill {
            return Err(failure("kill-session failed"));
        }
        Ok(())
    }

    fn rename_session(&mut self, from: &TmuxName, to: &TmuxName) -> Result<(), Error> {
        self.inner.rename_session(from, to)?;
        if self.fail_rename_to.as_deref() == Some(to.as_str())
            || self.fail_rename_from.as_deref() == Some(from.as_str())
        {
            return Err(failure("rename-session failed"));
        }
        Ok(())
    }

    fn capture_pane(&mut self, pane_id: &PaneId) -> Result<String, Error> {
        self.inner.capture_pane(pane_id)
    }

    fn run_command(&mut self, cmd: &ShellCommand) -> Result<(), Error> {
        self.inner.run_command(cmd)
    }

    fn builtin_value(&mut self, var: BuiltinVar) -> Result<String, Error> {
        if self.fail_builtin {
            return Err(failure("no such value"));
        }
        self.inner.builtin_value(var)
    }

    fn pause(&mut self) {
        self.inner.pause()
    }
}

#[test]
fn executor_single_pane_calls() {
    let mut b = RecordingBackend::new();
    let session = simple_session("mysession", Some("vim"));
    let mut ex = Executor::new(&mut b, PROCESS_ID);
    ex.run(&session).unwrap();

    let calls = b.calls();
    assert!(calls.iter().any(|c| c.starts_with("has-session:")));
    assert!(calls.iter().any(|c| c.starts_with("new-session:")));
    assert!(calls
        .iter()
        .any(|c| c.starts_with("send-keys:") && c.contains("vim")));
    assert!(calls.iter().any(|c| c.starts_with("select-window:")));
    assert!(calls.iter().any(|c| c.starts_with("attach-or-switch:")));
}

#[test]
fn executor_horizontal_split_order() {
    let mut b = RecordingBackend::new();
    let session = Session {
        name: tmux_name("s"),
        root: Some(root_template("/tmp")),
        windows: vec![Window {
            name: tmux_name("w"),
            root: None,
            env: vec![],
            options: OrderedMap::new(),
            select_layout: None,
            layout: LayoutNode::Split {
                direction: Direction::Horizontal,
                ratio: ratio(0.5),
                first: Box::new(LayoutNode::Pane {
                    command: Some(pc("top")),
                    focus: false,
                    title: None,
                    wait_for: None,
                }),
                second: Box::new(LayoutNode::Pane {
                    command: Some(pc("htop")),
                    focus: false,
                    title: None,
                    wait_for: None,
                }),
            },
        }],
        env: vec![],
        pre_hook: None,
        options: OrderedMap::new(),
        vars: OrderedMap::new(),
    };
    let mut ex = Executor::new(&mut b, PROCESS_ID);
    ex.run(&session).unwrap();

    let calls = b.calls();
    let last_split = calls
        .iter()
        .rposition(|c| c.starts_with("split-window:"))
        .unwrap();
    let first_send = calls
        .iter()
        .position(|c| c.starts_with("send-keys:"))
        .unwrap();
    assert!(
        last_split < first_send,
        "all splits must precede all send-keys"
    );
}

#[test]
fn executor_focus_pane_selected() {
    let mut b = RecordingBackend::new();
    let session = Session {
        name: tmux_name("s"),
        root: Some(root_template("/tmp")),
        windows: vec![Window {
            name: tmux_name("w"),
            root: None,
            env: vec![],
            options: OrderedMap::new(),
            select_layout: None,
            layout: LayoutNode::Split {
                direction: Direction::Horizontal,
                ratio: ratio(0.5),
                first: Box::new(LayoutNode::Pane {
                    command: None,
                    focus: true,
                    title: None,
                    wait_for: None,
                }),
                second: Box::new(LayoutNode::Pane {
                    command: None,
                    focus: false,
                    title: None,
                    wait_for: None,
                }),
            },
        }],
        env: vec![],
        pre_hook: None,
        options: OrderedMap::new(),
        vars: OrderedMap::new(),
    };
    let mut ex = Executor::new(&mut b, PROCESS_ID);
    ex.run(&session).unwrap();

    let calls = b.calls();
    // The first pane is the one with focus=true; it gets pane ID %0 (from new-session)
    assert!(
        calls.iter().any(|c| c == "select-pane:%0"),
        "select-pane should be called with the focused pane id"
    );
}

#[test]
fn executor_session_exists_attaches() {
    let mut b = RecordingBackend::new();
    b.session_exists = true;
    let session = simple_session("exists", Some("vim"));
    let mut ex = Executor::new(&mut b, PROCESS_ID);
    ex.run(&session).unwrap();

    let calls = b.calls();
    assert!(calls.iter().any(|c| c.starts_with("has-session:")));
    assert!(calls.iter().any(|c| c.starts_with("attach-or-switch:")));
    // No new-session or send-keys
    assert!(!calls.iter().any(|c| c.starts_with("new-session:")));
    assert!(!calls.iter().any(|c| c.starts_with("send-keys:")));
}

#[test]
fn executor_reload_builds_replacement_before_moving_existing_session() {
    let mut b = RecordingBackend::new();
    b.session_exists = true;
    let session = simple_session("s", Some("vim"));
    let mut ex = Executor::new(&mut b, PROCESS_ID);
    ex.reload(&session).unwrap();

    let calls = b.calls();
    let new_pos = calls
        .iter()
        .position(|c| c.starts_with("new-session:s__ntd_reload_new_"))
        .unwrap();
    let move_old_pos = calls
        .iter()
        .position(|c| c.starts_with("rename-session:s:s__ntd_reload_old_"))
        .unwrap();
    assert!(
        new_pos < move_old_pos,
        "replacement must be built before moving existing session"
    );
    assert!(calls
        .iter()
        .any(|c| c.starts_with("rename-session:s__ntd_reload_new_") && c.ends_with(":s")));
    assert!(calls
        .iter()
        .any(|c| c.starts_with("kill-session:s__ntd_reload_old_")));
    assert!(!calls.iter().any(|c| c == "kill-session:s"));
}

#[test]
fn executor_reload_keeps_existing_session_when_replacement_creation_fails() {
    let mut b = FailingBackend {
        fail_set_option: true,
        ..Default::default()
    };
    b.inner.session_exists = true;
    let mut session = simple_session("s", None);
    session
        .options
        .insert(option_name("status"), option_value("off"));
    let mut ex = Executor::new(&mut b, PROCESS_ID);
    let err = ex.reload(&session).unwrap_err();

    assert!(
        err.to_string().contains("failed to build replacement"),
        "{err:?}"
    );
    let calls = b.calls();
    assert!(!calls.iter().any(|c| c == "kill-session:s"));
    assert!(!calls.iter().any(|c| c.starts_with("rename-session:s:")));
    assert!(calls
        .iter()
        .any(|c| c.starts_with("kill-session:s__ntd_reload_new_")));
}

#[test]
fn executor_reload_without_existing_session_creates_without_kill() {
    let mut b = RecordingBackend::new();
    let session = simple_session("s", Some("vim"));
    let mut ex = Executor::new(&mut b, PROCESS_ID);
    ex.reload(&session).unwrap();

    let calls = b.calls();
    assert!(calls.iter().any(|c| c == "has-session:s"));
    assert!(!calls.iter().any(|c| c == "kill-session:s"));
    assert!(calls.iter().any(|c| c.starts_with("new-session:s:")));
}

#[test]
fn executor_wait_for_success() {
    let mut b = RecordingBackend::new();
    b.capture_output = "Server ready on port 3000".to_string();

    let session = Session {
        name: tmux_name("s"),
        root: Some(root_template("/tmp")),
        windows: vec![Window {
            name: tmux_name("w"),
            root: None,
            env: vec![],
            options: OrderedMap::new(),
            select_layout: None,
            layout: LayoutNode::Pane {
                command: Some(pc("npm start")),
                focus: false,
                title: None,
                wait_for: Some(WaitFor {
                    pattern: wp("ready"),
                    timeout: WaitTimeoutSeconds::new(5).unwrap(),
                }),
            },
        }],
        env: vec![],
        pre_hook: None,
        options: OrderedMap::new(),
        vars: OrderedMap::new(),
    };
    let mut ex = Executor::new(&mut b, PROCESS_ID);
    // Should succeed because capture_output contains "ready"
    assert!(ex.run(&session).is_ok());
}

#[test]
fn executor_wait_for_timeout() {
    let mut b = RecordingBackend::new();
    b.capture_output = "still starting...".to_string();

    let session = Session {
        name: tmux_name("s"),
        root: Some(root_template("/tmp")),
        windows: vec![Window {
            name: tmux_name("w"),
            root: None,
            env: vec![],
            options: OrderedMap::new(),
            select_layout: None,
            layout: LayoutNode::Pane {
                command: Some(pc("npm start")),
                focus: false,
                title: None,
                wait_for: Some(WaitFor {
                    pattern: wp("ready"),
                    timeout: WaitTimeoutSeconds::new(1).unwrap(),
                }),
            },
        }],
        env: vec![],
        pre_hook: None,
        options: OrderedMap::new(),
        vars: OrderedMap::new(),
    };
    let mut ex = Executor::new(&mut b, PROCESS_ID);
    let result = ex.run(&session);
    assert!(result.is_err(), "should fail on timeout");
    let msg = result.unwrap_err().to_string();
    assert!(msg.contains("timeout"), "error should mention timeout");
}

#[test]
fn executor_session_options() {
    let mut b = RecordingBackend::new();
    let mut opts = OrderedMap::new();
    opts.insert(option_name("status"), option_value("off"));
    let session = Session {
        name: tmux_name("s"),
        root: Some(root_template("/tmp")),
        windows: vec![Window {
            name: tmux_name("w"),
            root: None,
            env: vec![],
            options: OrderedMap::new(),
            select_layout: None,
            layout: LayoutNode::Pane {
                command: None,
                focus: false,
                title: None,
                wait_for: None,
            },
        }],
        env: vec![],
        pre_hook: None,
        options: opts,
        vars: OrderedMap::new(),
    };
    let mut ex = Executor::new(&mut b, PROCESS_ID);
    ex.run(&session).unwrap();

    let calls = b.calls();
    assert!(
        calls.iter().any(|c| c == "set-option:s:status:off"),
        "set-option should be called for session options"
    );
}

#[test]
fn executor_applies_session_options_in_key_order() {
    let mut b = RecordingBackend::new();
    let mut opts = OrderedMap::new();
    opts.insert(option_name("status-right"), option_value("right"));
    opts.insert(option_name("base-index"), option_value("1"));
    opts.insert(option_name("status-left"), option_value("left"));
    let session = Session {
        name: tmux_name("s"),
        root: Some(root_template("/tmp")),
        windows: vec![Window {
            name: tmux_name("w"),
            root: None,
            env: vec![],
            options: OrderedMap::new(),
            select_layout: None,
            layout: LayoutNode::Pane {
                command: None,
                focus: false,
                title: None,
                wait_for: None,
            },
        }],
        env: vec![],
        pre_hook: None,
        options: opts,
        vars: OrderedMap::new(),
    };
    let mut ex = Executor::new(&mut b, PROCESS_ID);
    ex.run(&session).unwrap();

    let calls = b.calls();
    let base = call_pos(&calls, "set-option:s:base-index:1");
    let left = call_pos(&calls, "set-option:s:status-left:left");
    let right = call_pos(&calls, "set-option:s:status-right:right");
    assert!(
        base < left && left < right,
        "session options should follow key order: {calls:#?}"
    );
}

#[test]
fn executor_window_options() {
    let mut b = RecordingBackend::new();
    let mut wopts = OrderedMap::new();
    wopts.insert(option_name("synchronize-panes"), option_value("on"));
    let session = Session {
        name: tmux_name("s"),
        root: Some(root_template("/tmp")),
        windows: vec![Window {
            name: tmux_name("w"),
            root: None,
            env: vec![],
            options: wopts,
            select_layout: None,
            layout: LayoutNode::Pane {
                command: None,
                focus: false,
                title: None,
                wait_for: None,
            },
        }],
        env: vec![],
        pre_hook: None,
        options: OrderedMap::new(),
        vars: OrderedMap::new(),
    };
    let mut ex = Executor::new(&mut b, PROCESS_ID);
    ex.run(&session).unwrap();

    let calls = b.calls();
    assert!(
        calls
            .iter()
            .any(|c| c == "set-window-option:s:w:synchronize-panes:on"),
        "set-window-option should be called for window options"
    );
}

#[test]
fn executor_applies_window_options_in_key_order() {
    let mut b = RecordingBackend::new();
    let mut wopts = OrderedMap::new();
    wopts.insert(option_name("synchronize-panes"), option_value("on"));
    wopts.insert(option_name("automatic-rename"), option_value("off"));
    let session = Session {
        name: tmux_name("s"),
        root: Some(root_template("/tmp")),
        windows: vec![Window {
            name: tmux_name("w"),
            root: None,
            env: vec![],
            options: wopts,
            select_layout: None,
            layout: LayoutNode::Pane {
                command: None,
                focus: false,
                title: None,
                wait_for: None,
            },
        }],
        env: vec![],
        pre_hook: None,
        options: OrderedMap::new(),
        vars: OrderedMap::new(),
    };
    let mut ex = Executor::new(&mut b, PROCESS_ID);
    ex.run(&session).unwrap();

    let calls = b.calls();
    let automatic = call_pos(&calls, "set-window-option:s:w:automatic-rename:off");
    let synchronize = call_pos(&calls, "set-window-option:s:w:synchronize-panes:on");
    assert!(
        automatic < synchronize,
        "window options should follow key order: {calls:#?}"
    );
}

#[test]
fn executor_select_layout() {
    let mut b = RecordingBackend::new();
    let session = Session {
        name: tmux_name("s"),
        root: Some(root_template("/tmp")),
        windows: vec![Window {
            name: tmux_name("w"),
            root: None,
            env: vec![],
            options: OrderedMap::new(),
            select_layout: Some(layout_preset("tiled")),
            layout: LayoutNode::Pane {
                command: None,
                focus: false,
                title: None,
                wait_for: None,
            },
        }],
        env: vec![],
        pre_hook: None,
        options: OrderedMap::new(),
        vars: OrderedMap::new(),
    };
    let mut ex = Executor::new(&mut b, PROCESS_ID);
    ex.run(&session).unwrap();

    let calls = b.calls();
    assert!(
        calls.iter().any(|c| c == "select-layout:s:w:tiled"),
        "select-layout should be called when select_layout is set"
    );
}

#[test]
fn executor_pane_title() {
    let mut b = RecordingBackend::new();
    let session = Session {
        name: tmux_name("s"),
        root: Some(root_template("/tmp")),
        windows: vec![Window {
            name: tmux_name("w"),
            root: None,
            env: vec![],
            options: OrderedMap::new(),
            select_layout: None,
            layout: LayoutNode::Pane {
                command: None,
                focus: false,
                title: Some(pt("my-title")),
                wait_for: None,
            },
        }],
        env: vec![],
        pre_hook: None,
        options: OrderedMap::new(),
        vars: OrderedMap::new(),
    };
    let mut ex = Executor::new(&mut b, PROCESS_ID);
    ex.run(&session).unwrap();

    let calls = b.calls();
    assert!(
        calls.iter().any(|c| c == "set-pane-title:%0:my-title"),
        "set-pane-title should be called"
    );
}

#[test]
fn executor_template_vars() {
    let mut b = RecordingBackend::new();
    let mut vars = OrderedMap::new();
    vars.insert(var_key("mydir"), var_value("/home/user/project"));
    let session = Session {
        name: tmux_name("s"),
        root: Some(root_template("/tmp")),
        windows: vec![Window {
            name: tmux_name("w"),
            root: None,
            env: vec![],
            options: OrderedMap::new(),
            select_layout: None,
            layout: LayoutNode::Pane {
                command: Some(pc("cd {{mydir}}")),
                focus: false,
                title: None,
                wait_for: None,
            },
        }],
        env: vec![],
        pre_hook: None,
        options: OrderedMap::new(),
        vars,
    };
    let mut ex = Executor::new(&mut b, PROCESS_ID);
    ex.run(&session).unwrap();

    let calls = b.calls();
    assert!(
        calls
            .iter()
            .any(|c| c == "send-keys:%0:cd /home/user/project"),
        "template variable should be substituted in command"
    );
}

#[test]
fn executor_cwd_template() {
    let mut b = RecordingBackend::new();
    let session = Session {
        name: tmux_name("s"),
        root: Some(root_template("/tmp")),
        windows: vec![Window {
            name: tmux_name("w"),
            root: None,
            env: vec![],
            options: OrderedMap::new(),
            select_layout: None,
            layout: LayoutNode::Pane {
                command: Some(pc("cd {{cwd}}")),
                focus: false,
                title: None,
                wait_for: None,
            },
        }],
        env: vec![],
        pre_hook: None,
        options: OrderedMap::new(),
        vars: OrderedMap::new(),
    };
    let mut ex = Executor::new(&mut b, PROCESS_ID);
    ex.run(&session).unwrap();

    let calls = b.calls();
    assert!(
        calls.iter().any(|c| c == "send-keys:%0:cd $PWD"),
        "{{cwd}} should resolve to $PWD"
    );
}

#[test]
fn executor_multiple_windows_uses_new_window() {
    let mut b = RecordingBackend::new();
    let session = Session {
        name: tmux_name("s"),
        root: Some(root_template("/tmp")),
        windows: vec![
            Window {
                name: tmux_name("first"),
                root: None,
                env: vec![],
                options: OrderedMap::new(),
                select_layout: None,
                layout: LayoutNode::Pane {
                    command: None,
                    focus: false,
                    title: None,
                    wait_for: None,
                },
            },
            Window {
                name: tmux_name("second"),
                root: None,
                env: vec![],
                options: OrderedMap::new(),
                select_layout: None,
                layout: LayoutNode::Pane {
                    command: Some(pc("bash")),
                    focus: false,
                    title: None,
                    wait_for: None,
                },
            },
        ],
        env: vec![],
        pre_hook: None,
        options: OrderedMap::new(),
        vars: OrderedMap::new(),
    };
    let mut ex = Executor::new(&mut b, PROCESS_ID);
    ex.run(&session).unwrap();

    let calls = b.calls();
    assert!(calls.iter().any(|c| c.starts_with("new-session:")));
    assert!(calls.iter().any(|c| c.starts_with("new-window:")));
}

#[test]
fn executor_vertical_split() {
    let mut b = RecordingBackend::new();
    let session = Session {
        name: tmux_name("s"),
        root: Some(root_template("/tmp")),
        windows: vec![Window {
            name: tmux_name("w"),
            root: None,
            env: vec![],
            options: OrderedMap::new(),
            select_layout: None,
            layout: LayoutNode::Split {
                direction: Direction::Vertical,
                ratio: ratio(0.5),
                first: Box::new(LayoutNode::Pane {
                    command: Some(pc("top")),
                    focus: false,
                    title: None,
                    wait_for: None,
                }),
                second: Box::new(LayoutNode::Pane {
                    command: Some(pc("htop")),
                    focus: false,
                    title: None,
                    wait_for: None,
                }),
            },
        }],
        env: vec![],
        pre_hook: None,
        options: OrderedMap::new(),
        vars: OrderedMap::new(),
    };
    let mut ex = Executor::new(&mut b, PROCESS_ID);
    ex.run(&session).unwrap();

    let calls = b.calls();
    assert!(
        calls.iter().any(|c| c.contains("-v")),
        "vertical split should use -v flag"
    );
}

#[test]
fn executor_pre_hook_runs_before_session() {
    let mut b = RecordingBackend::new();
    let session = Session {
        name: tmux_name("s"),
        root: Some(root_template("/tmp")),
        windows: vec![Window {
            name: tmux_name("w"),
            root: None,
            env: vec![],
            options: OrderedMap::new(),
            select_layout: None,
            layout: LayoutNode::Pane {
                command: None,
                focus: false,
                title: None,
                wait_for: None,
            },
        }],
        env: vec![],
        pre_hook: Some(shell_command("nix build")),
        options: OrderedMap::new(),
        vars: OrderedMap::new(),
    };
    let mut ex = Executor::new(&mut b, PROCESS_ID);
    ex.run(&session).unwrap();

    let calls = b.calls();
    let hook_pos = calls
        .iter()
        .position(|c| c == "run-command:nix build")
        .unwrap();
    let sess_pos = calls
        .iter()
        .position(|c| c.starts_with("new-session:"))
        .unwrap();
    assert!(hook_pos < sess_pos, "pre_hook must run before new-session");
}

#[test]
fn executor_exports_session_and_window_env() {
    // Regression: previously the executor ignored session.env / window.env
    // entirely, so `run`/`reload` produced sessions WITHOUT the configured
    // environment — diverging from the `print`/compiler path.
    let mut b = RecordingBackend::new();
    let session = Session {
        name: tmux_name("s"),
        root: Some(root_template("/tmp")),
        windows: vec![Window {
            name: tmux_name("w"),
            root: None,
            env: vec![EnvVar {
                key: env_key("WINDOW_VAR"),
                value: env_value("wval"),
            }],
            options: OrderedMap::new(),
            select_layout: None,
            layout: LayoutNode::command("echo hi").unwrap(),
        }],
        env: vec![EnvVar {
            key: env_key("SESSION_VAR"),
            value: env_value("sval"),
        }],
        pre_hook: None,
        options: OrderedMap::new(),
        vars: OrderedMap::new(),
    };
    let mut ex = Executor::new(&mut b, PROCESS_ID);
    ex.run(&session).unwrap();

    let calls = b.calls();
    let new_session = calls
        .iter()
        .find(|c| c.starts_with("new-session:"))
        .cloned()
        .unwrap();
    assert!(
        new_session.contains(":env:SESSION_VAR=sval,WINDOW_VAR=wval"),
        "session and window env must be scoped to tmux pane creation: {new_session}"
    );
    assert!(
        !calls.iter().any(|c| c.starts_with("set-env:")),
        "executor must not mutate ambient process env: {calls:?}"
    );
}

#[test]
fn executor_rolls_back_initial_session_when_configuration_fails() {
    let mut b = FailingBackend {
        fail_set_option: true,
        ..Default::default()
    };
    let mut session = simple_session("s", None);
    session
        .options
        .insert(option_name("status"), option_value("off"));
    let mut ex = Executor::new(&mut b, PROCESS_ID);

    let err = ex.run(&session).unwrap_err().to_string();
    assert!(
        err.contains("rolled back partially created tmux session"),
        "error should report rollback: {err:?}"
    );
    assert!(
        b.calls().iter().any(|c| c == "kill-session:s"),
        "partial session must be killed: {:?}",
        b.calls()
    );
}

#[test]
fn executor_rolls_back_session_when_later_window_creation_fails() {
    let mut b = FailingBackend {
        fail_new_window: true,
        ..Default::default()
    };
    let mut session = simple_session("s", None);
    session.windows.push(Window {
        name: tmux_name("second"),
        root: None,
        env: vec![],
        options: OrderedMap::new(),
        select_layout: None,
        layout: LayoutNode::command("echo second").unwrap(),
    });
    let mut ex = Executor::new(&mut b, PROCESS_ID);

    let err = ex.run(&session).unwrap_err().to_string();
    assert!(
        err.contains("rolled back partially created tmux session"),
        "error should report rollback: {err:?}"
    );
    assert!(
        b.calls().iter().any(|c| c == "kill-session:s"),
        "partial session must be killed: {:?}",
        b.calls()
    );
}

#[test]
fn executor_window_root_overrides_session_root() {
    let mut b = RecordingBackend::new();
    let session = Session {
        name: tmux_name("s"),
        root: Some(root_template("/session-root")),
        windows: vec![Window {
            name: tmux_name("w"),
            root: Some(root_template("/window-root")),
            env: vec![],
            options: OrderedMap::new(),
            select_layout: None,
            layout: LayoutNode::Pane {
                command: None,
                focus: false,
                title: None,
                wait_for: None,
            },
        }],
        env: vec![],
        pre_hook: None,
        options: OrderedMap::new(),
        vars: OrderedMap::new(),
    };
    let mut ex = Executor::new(&mut b, PROCESS_ID);
    ex.run(&session).unwrap();

    let calls = b.calls();
    assert!(
        calls.iter().any(|c| c.contains("/window-root")),
        "window root should be used"
    );
    assert!(
        !calls.iter().any(|c| c.contains("/session-root")),
        "session root should not be used when window root is set"
    );
}

#[test]
fn executor_no_root_defaults_to_home() {
    let mut b = RecordingBackend::new();
    let session = Session {
        name: tmux_name("s"),
        root: None,
        windows: vec![Window {
            name: tmux_name("w"),
            root: None,
            env: vec![],
            options: OrderedMap::new(),
            select_layout: None,
            layout: LayoutNode::Pane {
                command: None,
                focus: false,
                title: None,
                wait_for: None,
            },
        }],
        env: vec![],
        pre_hook: None,
        options: OrderedMap::new(),
        vars: OrderedMap::new(),
    };
    let mut ex = Executor::new(&mut b, PROCESS_ID);
    ex.run(&session).unwrap();

    let calls = b.calls();
    assert!(
        calls.iter().any(|c| c.contains('~')),
        "null root should fall back to ~"
    );
}

#[test]
fn executor_wait_for_checks_multiple_iterations() {
    // timeout=2, pattern never found → should error after 2 iterations
    // This exercises the elapsed+1 < timeout sleep branch (but RecordingBackend
    // never sleeps, so the loop terminates immediately).
    let mut b = RecordingBackend::new();
    b.capture_output = "not what we want".to_owned();

    let session = Session {
        name: tmux_name("s"),
        root: Some(root_template("/tmp")),
        windows: vec![Window {
            name: tmux_name("w"),
            root: None,
            env: vec![],
            options: OrderedMap::new(),
            select_layout: None,
            layout: LayoutNode::Pane {
                command: None,
                focus: false,
                title: None,
                wait_for: Some(WaitFor {
                    pattern: wp("ready"),
                    timeout: WaitTimeoutSeconds::new(2).unwrap(),
                }),
            },
        }],
        env: vec![],
        pre_hook: None,
        options: OrderedMap::new(),
        vars: OrderedMap::new(),
    };
    let mut ex = Executor::new(&mut b, PROCESS_ID);
    let result = ex.run(&session);
    assert!(result.is_err());
    // Two capture-pane calls should have been recorded (one per iteration)
    let capture_count = b
        .calls()
        .iter()
        .filter(|c| c.starts_with("capture-pane:"))
        .count();
    assert_eq!(
        capture_count, 2,
        "should attempt exactly timeout iterations"
    );
}

// ── Security: recursion depth limit ──────────────────────────────────────

#[test]
fn executor_depth_limit_rejects_oversized_tree() {
    let mut b = RecordingBackend::new();
    let session = Session {
        name: tmux_name("s"),
        root: Some(root_template("/tmp")),
        windows: vec![Window {
            name: tmux_name("w"),
            root: None,
            env: vec![],
            options: OrderedMap::new(),
            select_layout: None,
            layout: make_deeply_nested(65),
        }],
        env: vec![],
        pre_hook: None,
        options: OrderedMap::new(),
        vars: OrderedMap::new(),
    };
    let mut ex = Executor::new(&mut b, PROCESS_ID);
    let result = ex.run(&session);
    assert!(result.is_err(), "should fail for depth > MAX_LAYOUT_DEPTH");
    assert!(
        result.unwrap_err().to_string().contains("deeply nested"),
        "error should mention nesting"
    );
}

#[test]
fn executor_depth_limit_accepts_depth_64() {
    let mut b = RecordingBackend::new();
    let session = Session {
        name: tmux_name("s"),
        root: Some(root_template("/tmp")),
        windows: vec![Window {
            name: tmux_name("w"),
            root: None,
            env: vec![],
            options: OrderedMap::new(),
            select_layout: None,
            layout: make_deeply_nested(64),
        }],
        env: vec![],
        pre_hook: None,
        options: OrderedMap::new(),
        vars: OrderedMap::new(),
    };
    let mut ex = Executor::new(&mut b, PROCESS_ID);
    assert!(ex.run(&session).is_ok(), "depth 64 should be accepted");
}

#[test]
fn builtin_root_is_resolved_before_it_reaches_tmux() {
    let mut b = RecordingBackend::new();
    b.cwd = "/home/me".to_owned();
    b.date = "2024-05-06".to_owned();
    b.git_branch = "main".to_owned();
    let mut session = simple_session("cwd-root", None);
    session.root = Some(root_template("{{cwd}}/{{git_branch}}/{{date}}/{{other}}"));
    Executor::new(&mut b, PROCESS_ID).run(&session).unwrap();

    let calls = b.calls();
    assert_eq!(
        calls,
        vec![
            "has-session:cwd-root",
            "new-session:cwd-root:/home/me/main/2024-05-06/{{other}}:main:%0",
            "select-window:cwd-root:main",
            "attach-or-switch:cwd-root",
        ]
    );
}

#[test]
fn failing_builtin_creates_nothing() {
    let mut b = FailingBackend {
        fail_builtin: true,
        ..Default::default()
    };
    let mut session = simple_session("s", None);
    session.root = Some(root_template("{{cwd}}"));
    let err = Executor::new(&mut b, PROCESS_ID).run(&session).unwrap_err();
    assert_eq!(err.to_string(), "no such value");
    assert_eq!(b.calls(), vec!["has-session:s"]);
}

#[test]
fn nul_in_a_builtin_value_is_refused() {
    let mut b = RecordingBackend::new();
    b.cwd = "/bad\0dir".to_owned();
    let mut session = simple_session("s", None);
    session.root = Some(root_template("{{cwd}}"));
    let err = Executor::new(&mut b, PROCESS_ID).run(&session).unwrap_err();
    assert_eq!(
        err.to_string(),
        "resolved tmux argument: must not contain NUL bytes"
    );
    assert_eq!(b.calls(), vec!["has-session:s"]);
}

#[test]
fn whole_exchange_of_a_reload() {
    let mut b = RecordingBackend::new();
    b.session_exists = true;
    let session = simple_session("s", Some("vim"));
    Executor::new(&mut b, 7).reload(&session).unwrap();
    assert_eq!(
        b.calls(),
        vec![
            "has-session:s",
            "new-session:s__ntd_reload_new_7:/tmp:main:%0",
            "send-keys:%0:vim",
            "rename-session:s:s__ntd_reload_old_7",
            "rename-session:s__ntd_reload_new_7:s",
            "kill-session:s__ntd_reload_old_7",
            "select-window:s:main",
            "attach-or-switch:s",
        ]
    );
}

#[test]
fn old_session_that_cannot_be_moved_stays() {
    let mut b = FailingBackend {
        fail_rename_from: Some("s".to_owned()),
        ..Default::default()
    };
    b.inner.session_exists = true;
    let err = Executor::new(&mut b, 7)
        .reload(&simple_session("s", None))
        .unwrap_err();
    assert_eq!(
        err.full_text(),
        "failed to move existing tmux session TmuxName(\"s\") aside: rename-session failed"
    );
    assert_eq!(
        b.calls(),
        vec![
            "has-session:s",
            "new-session:s__ntd_reload_new_7:/tmp:main:%0",
            "rename-session:s:s__ntd_reload_old_7",
            "kill-session:s__ntd_reload_new_7",
        ]
    );
}

#[test]
fn old_session_gets_its_name_back_when_promotion_fails() {
    let mut b = FailingBackend {
        fail_rename_from: Some("s__ntd_reload_new_7".to_owned()),
        ..Default::default()
    };
    b.inner.session_exists = true;
    let err = Executor::new(&mut b, 7)
        .reload(&simple_session("s", None))
        .unwrap_err();
    assert_eq!(
        err.to_string(),
        "failed to promote replacement tmux session \"s__ntd_reload_new_7\" to \"s\""
    );
    assert_eq!(
        b.calls()[2..].to_vec(),
        vec![
            "rename-session:s:s__ntd_reload_old_7",
            "rename-session:s__ntd_reload_new_7:s",
            "rename-session:s__ntd_reload_old_7:s",
            "kill-session:s__ntd_reload_new_7",
        ]
    );
}

#[test]
fn failures_while_undoing_a_promotion_are_told() {
    let mut b = FailingBackend {
        fail_rename_to: Some("s".to_owned()),
        fail_kill: true,
        ..Default::default()
    };
    b.inner.session_exists = true;
    let err = Executor::new(&mut b, 7)
        .reload(&simple_session("s", None))
        .unwrap_err();
    assert_eq!(
        err.full_text(),
        "failed to promote replacement tmux session \"s__ntd_reload_new_7\" to \"s\"; \
         also failed to restore original session from \"s__ntd_reload_old_7\": rename-session failed; \
         also failed to remove replacement session \"s__ntd_reload_new_7\": kill-session failed: \
         rename-session failed"
    );
}

#[test]
fn backup_that_cannot_be_removed_is_told() {
    let mut b = FailingBackend {
        fail_kill: true,
        ..Default::default()
    };
    b.inner.session_exists = true;
    let err = Executor::new(&mut b, 7)
        .reload(&simple_session("s", None))
        .unwrap_err();
    assert_eq!(
        err.full_text(),
        "replacement tmux session \"s\" is active, but failed to remove backup session \
         \"s__ntd_reload_old_7\": kill-session failed"
    );
}

#[test]
fn rollback_that_fails_is_told() {
    let mut b = FailingBackend {
        fail_set_option: true,
        fail_kill: true,
        ..Default::default()
    };
    let mut session = simple_session("s", None);
    session
        .options
        .insert(option_name("status"), option_value("off"));
    let err = Executor::new(&mut b, 7).run(&session).unwrap_err();
    assert_eq!(
        err.full_text(),
        "failed to roll back partially created tmux session \"s\" after error: \
         set-option failed: kill-session failed: set-option failed"
    );
}

#[test]
fn whole_chain_of_a_failed_reload() {
    let mut b = FailingBackend {
        fail_set_option: true,
        ..Default::default()
    };
    b.inner.session_exists = true;
    let mut session = simple_session("s", None);
    session
        .options
        .insert(option_name("status"), option_value("off"));
    let err = Executor::new(&mut b, 7).reload(&session).unwrap_err();
    assert_eq!(
        err.full_text(),
        "failed to build replacement tmux session \"s__ntd_reload_new_7\": \
         rolled back partially created tmux session \"s__ntd_reload_new_7\" after error: \
         set-option failed: set-option failed"
    );
    assert_eq!(err.root_cause(), "set-option failed");
}

#[test]
fn invalid_session_asks_nothing_of_the_backend() {
    let mut b = RecordingBackend::new();
    let mut session = simple_session("s", None);
    session.windows.clear();
    let err = Executor::new(&mut b, 7).run(&session).unwrap_err();
    assert_eq!(err.to_string(), "session must define at least one window");
    let err = Executor::new(&mut b, 7).reload(&session).unwrap_err();
    assert_eq!(err.to_string(), "session must define at least one window");
    assert!(b.calls().is_empty());
}

#[test]
fn timeout_names_pattern_and_pane() {
    let mut b = RecordingBackend::new();
    let mut session = simple_session("s", None);
    session.windows[0].layout = LayoutNode::Pane {
        command: None,
        focus: false,
        title: None,
        wait_for: Some(WaitFor {
            pattern: wp("re\"ady"),
            timeout: WaitTimeoutSeconds::new(3).unwrap(),
        }),
    };
    let err = Executor::new(&mut b, 7).run(&session).unwrap_err();
    assert_eq!(
        err.root_cause(),
        "timeout after 3s: \"re\\\"ady\" not seen in pane %0"
    );
}

#[test]
fn executor_can_be_used_again() {
    let mut b = RecordingBackend::new();
    let mut ex = Executor::new(&mut b, 7);
    ex.run(&simple_session("a", None)).unwrap();
    ex.run(&simple_session("b", None)).unwrap();
    let calls = b.calls();
    assert!(calls.iter().any(|c| c == "new-session:a:/tmp:main:%0"));
    assert!(calls.iter().any(|c| c == "new-session:b:/tmp:main:%1"));
}

#[test]
fn panes_are_numbered_over_all_windows() {
    let mut b = RecordingBackend::new();
    let mut session = simple_session("s", Some("vim"));
    session.windows[0].layout = LayoutNode::split(
        Direction::Horizontal,
        ratio(0.5),
        LayoutNode::command("a").unwrap(),
        LayoutNode::command("b").unwrap(),
    );
    session.windows.push(Window {
        name: tmux_name("second"),
        root: None,
        env: vec![],
        options: OrderedMap::new(),
        select_layout: None,
        layout: LayoutNode::split(
            Direction::Vertical,
            ratio(0.25),
            LayoutNode::command("c").unwrap(),
            LayoutNode::command("d").unwrap(),
        ),
    });
    Executor::new(&mut b, PROCESS_ID).run(&session).unwrap();
    assert_eq!(
        b.calls(),
        vec![
            "has-session:s",
            "new-session:s:/tmp:main:%0",
            "split-window:%0:-h:50:/tmp:%1",
            "send-keys:%0:a",
            "send-keys:%1:b",
            "new-window:s:second:/tmp:%2",
            "split-window:%2:-v:75:/tmp:%3",
            "send-keys:%2:c",
            "send-keys:%3:d",
            "select-window:s:main",
            "attach-or-switch:s",
        ]
    );
}
