use nix_tmux_define::real_tmux::{parse_capture_pane_output, parse_pane_id};
use nix_tmux_define::{
    EnvVar, EnvVarName, EnvVarValue, PaneCommand, PaneId, PaneTitle, RecordingBackend,
    ResolvedTmuxArg, ShellCommand, TmuxBackend, TmuxLayoutPreset, TmuxName, TmuxOptionName,
    TmuxOptionValue, TmuxPanePercent, TmuxSplitFlag,
};

fn root() -> ResolvedTmuxArg {
    ResolvedTmuxArg::new("/tmp").unwrap()
}

fn pane(id: &str) -> PaneId {
    PaneId::new(id).unwrap()
}

fn tmux_name(name: &str) -> TmuxName {
    TmuxName::new(name).unwrap()
}

fn pane_command(value: &str) -> PaneCommand {
    PaneCommand::new(value).unwrap()
}

fn pane_title(value: &str) -> PaneTitle {
    PaneTitle::new(value).unwrap()
}

fn tmux_option_name(value: &str) -> TmuxOptionName {
    TmuxOptionName::new(value).unwrap()
}

fn tmux_option_value(value: &str) -> TmuxOptionValue {
    TmuxOptionValue::new(value).unwrap()
}

fn tmux_layout_preset(value: &str) -> TmuxLayoutPreset {
    TmuxLayoutPreset::new(value).unwrap()
}

fn env_key(value: &str) -> EnvVarName {
    EnvVarName::new(value).unwrap()
}

fn env_value(value: &str) -> EnvVarValue {
    EnvVarValue::new(value).unwrap()
}

fn shell_command(value: &str) -> ShellCommand {
    ShellCommand::new(value).unwrap()
}

#[test]
fn parse_pane_id_accepts_valid_utf8_output_with_newline() {
    let id = parse_pane_id(b"%42\n", "tmux new-session").unwrap();
    assert_eq!(id.as_str(), "%42");
}

#[test]
fn parse_pane_id_rejects_non_utf8_output() {
    let err = parse_pane_id(b"%4\xff\n", "tmux new-session").unwrap_err();
    assert!(
        err.to_string().contains("non-UTF-8 pane id"),
        "error should mention UTF-8: {err:?}"
    );
}

#[test]
fn parse_pane_id_rejects_non_tmux_id() {
    let err = parse_pane_id(b"not-pane\n", "tmux new-session").unwrap_err();
    assert!(
        err.to_string().contains("returned invalid pane id"),
        "error should mention invalid pane id: {err:?}"
    );
}

#[test]
fn parse_capture_pane_output_accepts_valid_utf8() {
    let output = parse_capture_pane_output(b"ready\n", "tmux capture-pane").unwrap();
    assert_eq!(output, "ready\n");
}

#[test]
fn parse_capture_pane_output_rejects_non_utf8() {
    let err = parse_capture_pane_output(b"ready\xff\n", "tmux capture-pane").unwrap_err();
    assert!(
        err.to_string().contains("non-UTF-8 output"),
        "error should mention UTF-8: {err:?}"
    );
}

#[test]
fn recording_backend_has_session_default_false() {
    let mut b = RecordingBackend::new();
    assert!(!b.has_session(&tmux_name("mysession")));
    assert!(b.calls().iter().any(|c| c == "has-session:mysession"));
}

#[test]
fn recording_backend_session_exists_true() {
    let mut b = RecordingBackend::new();
    b.session_exists = true;
    assert!(b.has_session(&tmux_name("mysession")));
}

#[test]
fn recording_backend_new_session() {
    let mut b = RecordingBackend::new();
    let id = b
        .new_session(&tmux_name("s"), &root(), &tmux_name("main"))
        .unwrap();
    assert_eq!(id.as_str(), "%0");
    assert!(b
        .calls()
        .iter()
        .any(|c| c.starts_with("new-session:s:/tmp:main:")));
}

#[test]
fn recording_backend_split_window() {
    let mut b = RecordingBackend::new();
    let id = b
        .split_window(
            &pane("%0"),
            TmuxSplitFlag::Horizontal,
            TmuxPanePercent::new(40).unwrap(),
            &root(),
        )
        .unwrap();
    assert_eq!(id.as_str(), "%0");
    assert!(b
        .calls()
        .iter()
        .any(|c| c.starts_with("split-window:%0:-h:40:/tmp:")));
}

#[test]
fn recording_backend_new_window() {
    let mut b = RecordingBackend::new();
    let id = b
        .new_window(&tmux_name("s"), &tmux_name("logs"), &root())
        .unwrap();
    assert_eq!(id.as_str(), "%0");
    assert!(b
        .calls()
        .iter()
        .any(|c| c.starts_with("new-window:s:logs:/tmp:")));
}

#[test]
fn recording_backend_send_keys() {
    let mut b = RecordingBackend::new();
    b.send_keys(&pane("%0"), &pane_command("vim .")).unwrap();
    assert!(b.calls().iter().any(|c| c == "send-keys:%0:vim ."));
}

#[test]
fn recording_backend_select_pane() {
    let mut b = RecordingBackend::new();
    b.select_pane(&pane("%0")).unwrap();
    assert!(b.calls().iter().any(|c| c == "select-pane:%0"));
}

#[test]
fn recording_backend_set_pane_title() {
    let mut b = RecordingBackend::new();
    b.set_pane_title(&pane("%0"), &pane_title("editor"))
        .unwrap();
    assert!(b.calls().iter().any(|c| c == "set-pane-title:%0:editor"));
}

#[test]
fn recording_backend_set_option() {
    let mut b = RecordingBackend::new();
    b.set_option(
        &tmux_name("s"),
        &tmux_option_name("status"),
        &tmux_option_value("off"),
    )
    .unwrap();
    assert!(b.calls().iter().any(|c| c == "set-option:s:status:off"));
}

#[test]
fn recording_backend_set_window_option() {
    let mut b = RecordingBackend::new();
    b.set_window_option(
        &tmux_name("s"),
        &tmux_name("w"),
        &tmux_option_name("sync"),
        &tmux_option_value("on"),
    )
    .unwrap();
    assert!(b
        .calls()
        .iter()
        .any(|c| c == "set-window-option:s:w:sync:on"));
}

#[test]
fn recording_backend_select_layout() {
    let mut b = RecordingBackend::new();
    b.select_layout(
        &tmux_name("s"),
        &tmux_name("w"),
        &tmux_layout_preset("tiled"),
    )
    .unwrap();
    assert!(b.calls().iter().any(|c| c == "select-layout:s:w:tiled"));
}

#[test]
fn recording_backend_select_window() {
    let mut b = RecordingBackend::new();
    b.select_window(&tmux_name("s"), &tmux_name("main"))
        .unwrap();
    assert!(b.calls().iter().any(|c| c == "select-window:s:main"));
}

#[test]
fn recording_backend_attach_or_switch() {
    let mut b = RecordingBackend::new();
    b.attach_or_switch(&tmux_name("s")).unwrap();
    assert!(b.calls().iter().any(|c| c == "attach-or-switch:s"));
}

#[test]
fn recording_backend_kill_session_clears_flag() {
    let mut b = RecordingBackend::new();
    b.session_exists = true;
    b.kill_session(&tmux_name("s")).unwrap();
    assert!(!b.session_exists);
    assert!(b.calls().iter().any(|c| c == "kill-session:s"));
}

#[test]
fn recording_backend_rename_session() {
    let mut b = RecordingBackend::new();
    b.rename_session(&tmux_name("old"), &tmux_name("new"))
        .unwrap();
    assert!(b.calls().iter().any(|c| c == "rename-session:old:new"));
}

#[test]
fn recording_backend_capture_pane() {
    let mut b = RecordingBackend::new();
    b.capture_output = "hello world".to_owned();
    let out = b.capture_pane(&pane("%0")).unwrap();
    assert_eq!(out, "hello world");
    assert!(b.calls().iter().any(|c| c == "capture-pane:%0"));
}

#[test]
fn recording_backend_run_command() {
    let mut b = RecordingBackend::new();
    b.run_command(&shell_command("echo hi")).unwrap();
    assert!(b.calls().iter().any(|c| c == "run-command:echo hi"));
}

#[test]
fn recording_backend_new_session_with_env() {
    let mut b = RecordingBackend::new();
    let env = [EnvVar {
        key: env_key("EDITOR"),
        value: env_value("nvim"),
    }];
    b.new_session_with_env(&tmux_name("s"), &root(), &tmux_name("main"), &env)
        .unwrap();
    assert!(b
        .calls()
        .iter()
        .any(|c| c == "new-session:s:/tmp:main:%0:env:EDITOR=nvim"));
}
