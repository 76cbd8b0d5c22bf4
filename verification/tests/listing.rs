use nix_tmux_define::listing::{
    format_session_line, format_skip_warning, format_valid_line, generate,
    list_sessions_not_started, running_sessions_outcome, scans_current_dir, TmuxNameSet,
};
use nix_tmux_define::{Error, LayoutNode, OrderedMap, Session, SkippedConfig, TmuxName, Window};

fn tmux_name(value: &str) -> TmuxName {
    TmuxName::new(value).unwrap()
}

fn make_session(name: &str, window_count: usize) -> Session {
    let windows: Vec<Window> = (0..window_count)
        .map(|i| Window {
            name: tmux_name(&format!("w{}", i)),
            root: None,
            env: vec![],
            options: OrderedMap::new(),
            select_layout: None,
            layout: LayoutNode::Pane {
                command: None,
                focus: false,
                title: None,
                wait_for: None,
            },
        })
        .collect();
    Session {
        name: tmux_name(name),
        root: None,
        windows,
        env: vec![],
        pre_hook: None,
        options: OrderedMap::new(),
        vars: OrderedMap::new(),
    }
}

#[test]
fn format_session_line_not_running() {
    let s = make_session("dev", 2);
    let line = format_session_line(&s, None);
    assert_eq!(line, "dev — 2 window(s)");
}

#[test]
fn format_session_line_running() {
    let s = make_session("prod", 3);
    let mut running = TmuxNameSet::new();
    running.insert(tmux_name("prod"));
    let line = format_session_line(&s, Some(&running));
    assert_eq!(line, "prod [running] — 3 window(s)");
}

#[test]
fn format_session_line_ignores_running_without_status_probe() {
    let s = make_session("prod", 3);
    let mut running = TmuxNameSet::new();
    running.insert(tmux_name("prod"));
    let line = format_session_line(&s, None);
    assert_eq!(line, "prod — 3 window(s)");
    assert!(running.contains("prod"));
}

#[test]
fn generate_returns_bash_script() {
    let s = make_session("test", 1);
    let script = generate(&s).unwrap();
    assert!(script.starts_with("#!/usr/bin/env bash"));
    assert!(script.contains("tmux new-session"));
}

#[test]
fn running_sessions_parses_valid_tmux_names() {
    let sessions =
        running_sessions_outcome(true, "exit status: 0", b"dev\nprod\n", b"").unwrap();
    assert!(sessions.contains("dev"));
    assert!(sessions.contains("prod"));
}

#[test]
fn running_sessions_rejects_invalid_tmux_name_from_tmux() {
    let err = running_sessions_outcome(true, "exit status: 0", b"bad:name\n", b"").unwrap_err();
    assert!(err
        .to_string()
        .contains("invalid tmux session name from `tmux list-sessions`"));
}

#[test]
fn running_sessions_rejects_non_utf8_names() {
    let err = running_sessions_outcome(true, "exit status: 0", b"dev\xff\n", b"").unwrap_err();
    assert_eq!(
        err.to_string(),
        "`tmux list-sessions` returned non-UTF-8 session names"
    );
}

#[test]
fn running_sessions_ignores_missing_tmux_server() {
    let sessions = running_sessions_outcome(
        false,
        "exit status: 1",
        b"",
        b"no server running on /tmp/tmux-501/default",
    )
    .unwrap();
    assert!(sessions.is_empty());
}

#[test]
fn running_sessions_reports_unexpected_failure() {
    let err = running_sessions_outcome(false, "exit status: 1", b"", b"permission denied")
        .unwrap_err();
    assert_eq!(
        err.to_string(),
        "`tmux list-sessions` failed: permission denied"
    );
}

#[test]
fn sets_hold_each_name_once() {
    let mut names = TmuxNameSet::new();
    assert!(names.is_empty());
    assert!(names.insert(tmux_name("a")));
    assert!(!names.insert(tmux_name("a")));
    assert!(names.insert(tmux_name("b")));
    assert_eq!(names.len(), 2);
    assert!(!names.contains("c"));
}

#[test]
fn running_sessions_reads_one_name_a_line() {
    let names = running_sessions_outcome(true, "", b"dev\r\nprod\ndev", b"").unwrap();
    assert_eq!(names.len(), 2);
    assert!(names.contains("dev"));
    assert!(names.contains("prod"));
    assert!(running_sessions_outcome(true, "", b"", b"").unwrap().is_empty());
    let err = running_sessions_outcome(true, "", b"dev\n\nprod\n", b"").unwrap_err();
    assert_eq!(
        err.full_text(),
        "invalid tmux session name from `tmux list-sessions`: \"\": tmux name: tmux name must not be empty"
    );
}

#[test]
fn running_sessions_falls_back_to_the_exit_status() {
    let err = running_sessions_outcome(false, "exit status: 1", b"", b" \n").unwrap_err();
    assert_eq!(
        err.to_string(),
        "`tmux list-sessions` failed with exit status: 1"
    );
    let err = running_sessions_outcome(false, "exit status: 1", b"", b"bad \xff\n").unwrap_err();
    assert_eq!(
        err.to_string(),
        "`tmux list-sessions` failed: bad \u{fffd}"
    );
}

#[test]
fn lines_for_the_terminal() {
    assert_eq!(
        format_valid_line(&make_session("dev", 12)),
        "✓  'dev' — 12 window(s)"
    );
    assert_eq!(
        format_skip_warning(&SkippedConfig {
            path: "./Cargo.toml".to_owned(),
            reason: "missing field `windows`".to_owned(),
        }),
        "warning: skipping './Cargo.toml' (missing field `windows`)"
    );
}

#[test]
fn generate_refuses_an_invalid_session() {
    let err = generate(&make_session("dev", 0)).unwrap_err();
    assert_eq!(err.to_string(), "session must define at least one window");
}

#[test]
fn tmux_that_cannot_be_started() {
    let err = list_sessions_not_started(Error::msg("not found".to_owned()));
    assert_eq!(
        err.full_text(),
        "failed to execute `tmux list-sessions`: not found"
    );
}

#[test]
fn current_directory_is_scanned_where_nothing_is_named() {
    assert!(scans_current_dir(0, false));
    assert!(!scans_current_dir(1, false));
    assert!(!scans_current_dir(0, true));
}
