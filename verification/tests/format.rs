use nix_tmux_define::format::{
    config_format, has_config_extension, is_session_file, skip_reason, strip_bom, unreadable, unreadable_directory,
    unreadable_entry, ConfigFormat,
};
use nix_tmux_define::{
    load_session, load_sessions_from_dir, load_sessions_from_dir_lenient, Error, LayoutNode,
    LoadedConfig, OrderedMap, RootTemplate, Session, TmuxName, Window,
};

fn session(name: &str) -> Session {
    Session {
        name: TmuxName::new(name).unwrap(),
        root: None,
        windows: vec![Window {
            name: TmuxName::new("main").unwrap(),
            layout: LayoutNode::pane(),
            root: None,
            env: vec![],
            options: OrderedMap::new(),
            select_layout: None,
        }],
        env: vec![],
        pre_hook: None,
        options: OrderedMap::new(),
        vars: OrderedMap::new(),
    }
}

fn good(path: &str, name: &str) -> LoadedConfig {
    LoadedConfig {
        path: path.to_owned(),
        result: load_session(path, ConfigFormat::Json, Ok(session(name))),
    }
}

fn bad(path: &str, message: &str) -> LoadedConfig {
    LoadedConfig {
        path: path.to_owned(),
        result: load_session(
            path,
            config_format(path.rsplit('.').next()),
            Err(Error::msg(message.to_owned())),
        ),
    }
}

fn names(sessions: &[Session]) -> Vec<&str> {
    sessions.iter().map(|s| s.name.as_str()).collect()
}

fn assert_loads(extension: &str, format: ConfigFormat) {
    assert_eq!(config_format(Some(extension)), format);
    let path = format!("s.{extension}");
    let s = load_session(&path, format, Ok(session("test-session"))).unwrap();
    assert_eq!(s.name.as_str(), "test-session");
    assert_eq!(s.windows.len(), 1);
}

#[test]
fn load_json() {
    assert_loads("json", ConfigFormat::Json);
}

#[test]
fn load_toml() {
    assert_loads("toml", ConfigFormat::Toml);
}

#[test]
fn load_yaml() {
    assert_loads("yaml", ConfigFormat::Yaml);
}

#[test]
fn load_yml_extension() {
    assert_loads("yml", ConfigFormat::Yaml);
}

#[test]
fn load_unknown_ext_defaults_json() {
    assert_loads("txt", ConfigFormat::Json);
    assert_loads("TOML", ConfigFormat::Json);
    assert_eq!(config_format(None), ConfigFormat::Json);
}

#[test]
fn byte_order_mark_is_taken_off_once() {
    assert_eq!(strip_bom("\u{FEFF}{}"), "{}");
    assert_eq!(strip_bom("\u{FEFF}\u{FEFF}é"), "\u{FEFF}é");
    assert_eq!(strip_bom("{\u{FEFF}}"), "{\u{FEFF}}");
    assert_eq!(strip_bom(""), "");
}

#[test]
fn load_nonexistent_returns_err() {
    let err = unreadable(
        "/nonexistent/path/file.json",
        Error::msg("No such file or directory (os error 2)".to_owned()),
    );
    assert_eq!(
        err.full_text(),
        "cannot read '/nonexistent/path/file.json': No such file or directory (os error 2)"
    );
}

#[test]
fn load_invalid_json_returns_err() {
    let err = bad("s.json", "expected value").result.unwrap_err();
    assert_eq!(err.full_text(), "invalid JSON in 's.json': expected value");
}

#[test]
fn load_invalid_toml_returns_err() {
    let err = bad("s.toml", "expected value").result.unwrap_err();
    assert_eq!(err.full_text(), "invalid TOML in 's.toml': expected value");
}

#[test]
fn load_invalid_yaml_returns_err() {
    let err = bad("s.yaml", "expected value").result.unwrap_err();
    assert_eq!(err.full_text(), "invalid YAML in 's.yaml': expected value");
}

#[test]
fn loaded_sessions_are_validated() {
    let mut s = session("s");
    s.windows.clear();
    let err = load_session("s.json", ConfigFormat::Json, Ok(s)).unwrap_err();
    assert_eq!(err.full_text(), "session must define at least one window");
}

#[test]
fn load_sessions_from_dir_basic() {
    let sessions = load_sessions_from_dir(vec![good("a.json", "test-session")]).unwrap();
    assert_eq!(names(&sessions), ["test-session"]);
}

#[test]
fn load_sessions_from_dir_sorted_by_name() {
    let sessions =
        load_sessions_from_dir(vec![good("a.json", "z-session"), good("z.json", "a-session")])
            .unwrap();
    assert_eq!(names(&sessions), ["a-session", "z-session"]);
}

#[test]
fn load_sessions_from_dir_rejects_invalid_content() {
    let err = load_sessions_from_dir(vec![
        bad("bad.json", "key must be a string"),
        good("good.json", "g"),
    ])
    .unwrap_err();
    let message = err.full_text();
    assert!(
        message.contains("bad.json"),
        "error should identify the invalid config file: {message}"
    );
    assert_eq!(
        message,
        "failed to load session config 'bad.json': invalid JSON in 'bad.json': key must be a string"
    );
}

#[test]
fn strict_loading_fails_on_the_first_bad_file() {
    let err = load_sessions_from_dir(vec![
        good("a.json", "a"),
        bad("b.toml", "one"),
        bad("c.yaml", "two"),
    ])
    .unwrap_err();
    assert_eq!(err.to_string(), "failed to load session config 'b.toml'");
}

#[test]
fn load_sessions_from_dir_ignores_non_config_extensions() {
    for extension in ["json", "toml", "yaml", "yml"] {
        assert!(has_config_extension(Some(extension)));
    }
    for extension in ["txt", "md", "JSON", "", "yamll"] {
        assert!(!has_config_extension(Some(extension)));
    }
    assert!(!has_config_extension(None));
}

#[test]
fn load_sessions_from_dir_empty() {
    assert!(load_sessions_from_dir(vec![]).unwrap().is_empty());
}

#[test]
fn load_sessions_from_dir_lenient_skips_non_session_configs() {
    let scan = load_sessions_from_dir_lenient(vec![
        bad("Cargo.toml", "missing field `windows`\nin `session`"),
        bad("broken.json", "key must be a string at line 1"),
        good("dev.json", "test-session"),
    ]);
    assert_eq!(names(&scan.sessions), ["test-session"]);
    let skipped: Vec<(&str, &str)> = scan
        .skipped
        .iter()
        .map(|s| (s.path.as_str(), s.reason.as_str()))
        .collect();
    assert_eq!(
        skipped,
        [
            ("Cargo.toml", "missing field `windows`"),
            ("broken.json", "key must be a string at line 1"),
        ]
    );
    assert!(
        scan.skipped.iter().all(|s| !s.reason.is_empty()),
        "every skip must carry a non-empty single-line reason: {:?}",
        scan.skipped
    );
    assert!(
        scan.skipped.iter().all(|s| !s.reason.contains('\n')),
        "skip reasons must be single-line for a clean warning: {:?}",
        scan.skipped
    );
}

#[test]
fn load_sessions_from_dir_lenient_reports_no_skips_when_all_valid() {
    let scan = load_sessions_from_dir_lenient(vec![good("a.json", "b"), good("b.yaml", "a")]);
    assert_eq!(names(&scan.sessions), ["a", "b"]);
    assert!(scan.skipped.is_empty(), "{:?}", scan.skipped);
}

#[test]
fn sorting_keeps_the_order_of_equal_names() {
    let mut first = session("same");
    first.root = Some(RootTemplate::new("/first").unwrap());
    let mut second = session("same");
    second.root = Some(RootTemplate::new("/second").unwrap());
    let files = [("a", session("z")), ("b", first), ("c", session("Z")), ("d", second)];
    let sessions = load_sessions_from_dir(
        files
            .into_iter()
            .map(|(path, s)| LoadedConfig {
                path: path.to_owned(),
                result: Ok(s),
            })
            .collect(),
    )
    .unwrap();
    assert_eq!(names(&sessions), ["Z", "same", "same", "z"]);
    assert_eq!(sessions[1].root.as_ref().unwrap().as_str(), "/first");
    assert_eq!(sessions[2].root.as_ref().unwrap().as_str(), "/second");
}

#[test]
fn reasons_are_one_trimmed_line() {
    for (message, reason) in [
        ("  padded \r\nsecond", "padded"),
        ("", "could not be parsed as a session config"),
        ("\nsecond", ""),
        ("only", "only"),
    ] {
        let err = Error::msg(message.to_owned()).context("outer".to_owned());
        assert_eq!(skip_reason(&err), reason, "{message:?}");
    }
}

#[test]
fn load_session_accepts_dynamic_builtin_in_session_root() {
    let mut s = session("s");
    s.root = Some(RootTemplate::new("{{cwd}}").unwrap());
    let loaded = load_session("s.json", ConfigFormat::Json, Ok(s)).unwrap();
    assert_eq!(loaded.root.as_ref().map(|r| r.as_str()), Some("{{cwd}}"));
}

#[test]
fn load_session_accepts_dynamic_builtin_in_window_root() {
    let mut s = session("s");
    s.windows[0].root = Some(RootTemplate::new("{{git_branch}}").unwrap());
    let loaded = load_session("s.json", ConfigFormat::Json, Ok(s)).unwrap();
    assert_eq!(
        loaded.windows[0].root.as_ref().map(|r| r.as_str()),
        Some("{{git_branch}}")
    );
}

#[test]
fn load_session_allows_static_root() {
    let mut s = session("s");
    s.root = Some(RootTemplate::new("/tmp").unwrap());
    assert!(load_session("s.json", ConfigFormat::Json, Ok(s)).is_ok());
}

#[test]
fn every_file_is_loaded_or_skipped() {
    let files = || {
        vec![
            good("a.json", "a"),
            bad("b.json", "one"),
            good("c.json", "c"),
            bad("d.json", "two"),
        ]
    };
    let scan = load_sessions_from_dir_lenient(files());
    assert_eq!(scan.sessions.len() + scan.skipped.len(), 4);
    assert!(load_sessions_from_dir(files()).is_err());
}

#[test]
fn directories_that_cannot_be_read() {
    let cause = || Error::msg("denied".to_owned());
    assert_eq!(
        unreadable_directory("/x", cause()).full_text(),
        "cannot read directory '/x': denied"
    );
    assert_eq!(
        unreadable_entry("/x", cause()).full_text(),
        "cannot read entry in directory '/x': denied"
    );
}

#[test]
fn session_files_are_files() {
    assert!(is_session_file(true, Some("toml")));
    assert!(!is_session_file(false, Some("toml")));
    assert!(!is_session_file(true, Some("txt")));
    assert!(!is_session_file(true, None));
}

#[test]
fn first_failure_is_first_by_path() {
    let err = load_sessions_from_dir(vec![
        bad("c.json", "third"),
        good("a.json", "a"),
        bad("b.toml", "second"),
    ])
    .unwrap_err();
    assert_eq!(
        err.full_text(),
        "failed to load session config 'b.toml': invalid TOML in 'b.toml': second"
    );
}

#[test]
fn skips_ascend_by_path() {
    let scan = load_sessions_from_dir_lenient(vec![
        bad("z.json", "1"),
        good("m.json", "m"),
        bad("Z.json", "2"),
        bad("a.yaml", "3"),
        bad("a.json", "4"),
    ]);
    let paths: Vec<&str> = scan.skipped.iter().map(|s| s.path.as_str()).collect();
    assert_eq!(paths, ["Z.json", "a.json", "a.yaml", "z.json"]);
    assert_eq!(scan.skipped[1].reason, "4");
    assert_eq!(names(&scan.sessions), ["m"]);
}

#[test]
fn sessions_of_the_same_name_follow_their_paths() {
    let mut first = session("same");
    first.root = Some(RootTemplate::new("/first").unwrap());
    let mut second = session("same");
    second.root = Some(RootTemplate::new("/second").unwrap());
    let sessions = load_sessions_from_dir(vec![
        LoadedConfig {
            path: "b.json".to_owned(),
            result: Ok(second),
        },
        LoadedConfig {
            path: "a.json".to_owned(),
            result: Ok(first),
        },
    ])
    .unwrap();
    assert_eq!(sessions[0].root.as_ref().unwrap().as_str(), "/first");
    assert_eq!(sessions[1].root.as_ref().unwrap().as_str(), "/second");
}
