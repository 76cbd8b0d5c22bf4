use nix_tmux_define::real_tmux::decode_builtin_command_stdout;
use nix_tmux_define::validate::validate_windows;
use nix_tmux_define::{
    builtin_requests, resolve_tmux_arg_vars, resolve_vars, shell_quote, shell_quote_template_vars,
    BuiltinVar, Direction, EnvVar, EnvVarName, EnvVarValue, Error, LayoutNode, OrderedMap, PaneId,
    Session, TemplateVarName, TemplateVarValue, TemplateVars, TmuxLayoutPreset, TmuxName,
    TmuxOptionName, TmuxOptionValue, TmuxOptions, WaitFor, WaitPattern, WaitTimeoutSeconds,
    Window,
};

fn var_key(value: &str) -> TemplateVarName {
    TemplateVarName::new(value).unwrap()
}

fn var_value(value: &str) -> TemplateVarValue {
    TemplateVarValue::new(value).unwrap()
}

#[test]
fn shell_quote_plain() {
    assert_eq!(shell_quote("hello"), "'hello'");
}

#[test]
fn shell_quote_with_spaces() {
    assert_eq!(shell_quote("hello world"), "'hello world'");
}

#[test]
fn shell_quote_with_apostrophe() {
    assert_eq!(shell_quote("it's"), "'it'\\''s'");
}

#[test]
fn resolve_vars_no_placeholders() {
    let vars = TemplateVars::new();
    let result = resolve_vars("just a plain string", &vars);
    assert_eq!(result, "just a plain string");
}

#[test]
fn resolve_vars_user_defined() {
    let mut vars = TemplateVars::new();
    vars.insert(var_key("project"), var_value("/home/user/myproject"));
    let result = resolve_vars("cd {{project}}", &vars);
    assert_eq!(result, "cd /home/user/myproject");
}

#[test]
fn resolve_vars_builtin_cwd() {
    let vars = TemplateVars::new();
    let result = resolve_vars("cd {{cwd}}", &vars);
    assert_eq!(result, "cd $PWD");
}

#[test]
fn resolve_vars_builtin_date() {
    let vars = TemplateVars::new();
    let result = resolve_vars("echo {{date}}", &vars);
    assert_eq!(result, "echo $(date +%Y-%m-%d)");
}

#[test]
fn resolve_vars_builtin_git_branch() {
    let vars = TemplateVars::new();
    let result = resolve_vars("echo {{git_branch}}", &vars);
    assert_eq!(result, "echo $(git rev-parse --abbrev-ref HEAD)");
}

#[test]
fn resolve_vars_does_not_expand_placeholders_from_user_values() {
    let mut vars = TemplateVars::new();
    vars.insert(var_key("project"), var_value("{{cwd}}"));
    let result = resolve_vars("cd {{project}} && echo {{cwd}}", &vars);
    assert_eq!(result, "cd {{cwd}} && echo $PWD");
}

#[test]
fn resolve_vars_deterministic_with_multiple_vars() {
    let mut vars = TemplateVars::new();
    vars.insert(var_key("b_key"), var_value("B"));
    vars.insert(var_key("a_key"), var_value("A"));
    let result = resolve_vars("{{a_key}}-{{b_key}}", &vars);
    assert_eq!(result, "A-B");
}

#[test]
fn resolve_tmux_arg_vars_user_var_overrides_builtin() {
    let mut vars = TemplateVars::new();
    vars.insert(var_key("cwd"), var_value("/custom path"));
    let result = resolve_tmux_arg_vars("{{cwd}}/project", &vars, &vec![]).unwrap();
    assert_eq!(result.as_str(), "/custom path/project");
}

#[test]
fn resolve_tmux_arg_vars_rejects_nul_from_vars() {
    let err = TemplateVarValue::new("/tmp\0bad").unwrap_err();
    assert!(err.to_string().contains("NUL"), "unexpected error: {err:?}");
}

#[test]
fn decode_builtin_command_stdout_trims_valid_utf8() {
    let output =
        decode_builtin_command_stdout("git_branch", "git", b"feature/strict-types\n").unwrap();
    assert_eq!(output, "feature/strict-types");
}

#[test]
fn decode_builtin_command_stdout_rejects_non_utf8() {
    let err = decode_builtin_command_stdout("git_branch", "git", b"main\xff\n").unwrap_err();
    assert!(
        err.to_string().contains("non-UTF-8 output"),
        "error should mention UTF-8: {err:?}"
    );
}

#[test]
fn shell_quote_template_vars_builtin_cwd_is_shell_expression() {
    let vars = TemplateVars::new();
    let result = shell_quote_template_vars("{{cwd}}/project", &vars).unwrap();
    assert_eq!(result.as_str(), "\"${PWD}\"'/project'");
}

#[test]
fn shell_quote_template_vars_user_var_overrides_builtin() {
    let mut vars = TemplateVars::new();
    vars.insert(var_key("cwd"), var_value("/custom path"));
    let result = shell_quote_template_vars("{{cwd}}/project", &vars).unwrap();
    assert_eq!(result.as_str(), "'/custom path''/project'");
}

#[test]
fn shell_quote_template_vars_rejects_nul_from_vars() {
    let err = TemplateVarValue::new("/tmp\0bad").unwrap_err();
    assert!(err.to_string().contains("NUL"), "unexpected error: {err:?}");
}

#[test]
fn pane_id_accepts_tmux_pane_id() {
    let id = PaneId::new("%12").unwrap();
    assert_eq!(id.as_str(), "%12");
}

#[test]
fn pane_id_rejects_non_tmux_target() {
    for invalid in ["", "0", "%", "%abc", "$PANE", "%1\0"] {
        assert!(
            PaneId::new(invalid).is_err(),
            "expected invalid pane id: {invalid:?}"
        );
    }
}

#[test]
fn tmux_name_accepts_plain_name() {
    let name = TmuxName::new("main").unwrap();
    assert_eq!(name.as_str(), "main");
}

#[test]
fn tmux_name_rejects_target_separator() {
    let err = TmuxName::new("bad:name").unwrap_err();
    assert!(
        err.to_string().contains("target separator"),
        "unexpected error: {err:?}"
    );
}

// ── EnvVar key validation ─────────────────────────────────────────────────

fn parse_env_key(key: &str) -> Result<EnvVar, Error> {
    Ok(EnvVar {
        key: EnvVarName::new(key)?,
        value: EnvVarValue::new("v")?,
    })
}

#[test]
fn env_key_valid_simple() {
    let ev = parse_env_key("FOO_BAR").unwrap();
    assert_eq!(ev.key.as_str(), "FOO_BAR");
}

#[test]
fn env_key_valid_starts_with_underscore() {
    let ev = parse_env_key("_MY_VAR").unwrap();
    assert_eq!(ev.key.as_str(), "_MY_VAR");
}

#[test]
fn env_key_valid_lowercase() {
    assert!(parse_env_key("my_var").is_ok());
}

#[test]
fn env_key_invalid_starts_with_digit() {
    let err = parse_env_key("1FOO").unwrap_err();
    assert!(err.to_string().contains("must start with"), "{err:?}");
}

#[test]
fn env_key_invalid_contains_semicolon() {
    let err = parse_env_key("FOO;rm -rf /").unwrap_err();
    assert!(err.to_string().contains("must contain only"), "{err:?}");
}

#[test]
fn env_key_invalid_contains_dollar() {
    assert!(parse_env_key("FOO$BAR").is_err());
}

#[test]
fn env_key_invalid_empty() {
    assert!(parse_env_key("").is_err());
}

// ── tmux name validation ──────────────────────────────────────────────────

fn session_of(name: &str, window: &str, layout: LayoutNode) -> Result<Session, Error> {
    let session = Session {
        name: TmuxName::new(name)?,
        root: None,
        windows: vec![Window {
            name: TmuxName::new(window)?,
            layout,
            root: None,
            env: vec![],
            options: OrderedMap::new(),
            select_layout: None,
        }],
        env: vec![],
        pre_hook: None,
        options: OrderedMap::new(),
        vars: OrderedMap::new(),
    };
    session.validate()?;
    Ok(session)
}

fn parse_session_name(name: &str) -> Result<Session, Error> {
    session_of(name, "w", LayoutNode::pane())
}

fn parse_window_name(name: &str) -> Result<Session, Error> {
    session_of("s", name, LayoutNode::pane())
}

#[test]
fn session_name_valid() {
    assert!(parse_session_name("my-session").is_ok());
}

#[test]
fn session_name_invalid_colon() {
    let err = parse_session_name("my:session").unwrap_err();
    assert!(err.to_string().contains("':'"), "{err:?}");
}

#[test]
fn session_name_invalid_empty() {
    assert!(parse_session_name("").is_err());
}

#[test]
fn window_name_valid() {
    assert!(parse_window_name("editor").is_ok());
}

#[test]
fn window_name_invalid_colon() {
    let err = parse_window_name("win:one").unwrap_err();
    assert!(err.to_string().contains("':'"), "{err:?}");
}

#[test]
fn session_name_invalid_dot() {
    let err = parse_session_name("my.session").unwrap_err();
    assert!(err.to_string().contains("'.'"), "{err:?}");
}

#[test]
fn window_name_invalid_dot() {
    assert!(parse_window_name("win.sub").is_err());
}

#[test]
fn session_name_allows_hyphen_and_space() {
    assert!(parse_session_name("my-session").is_ok());
    assert!(parse_session_name("my session").is_ok());
}

#[test]
fn session_name_invalid_newline() {
    let err = parse_session_name("my\nsession").unwrap_err();
    assert!(err.to_string().contains("control"), "{err:?}");
}

#[test]
fn session_name_invalid_tab() {
    assert!(parse_session_name("my\tsession").is_err());
}

#[test]
fn window_name_invalid_newline() {
    assert!(parse_window_name("win\nname").is_err());
}

#[test]
fn env_key_invalid_hyphen() {
    assert!(parse_env_key("FOO-BAR").is_err());
}

#[test]
fn env_key_invalid_dot() {
    assert!(parse_env_key("FOO.BAR").is_err());
}

#[test]
fn env_key_invalid_space() {
    assert!(parse_env_key("FOO BAR").is_err());
}

#[test]
fn env_key_single_underscore_is_valid() {
    assert!(parse_env_key("_").is_ok());
}

// ── split ratio bounds ────────────────────────────────────────────────────

fn parse_ratio(ratio: &str) -> Result<Session, Error> {
    let value: f64 = ratio.parse().unwrap();
    let layout = LayoutNode::try_split(
        Direction::Horizontal,
        value.to_bits(),
        &value.to_string(),
        LayoutNode::pane(),
        LayoutNode::pane(),
    )?;
    session_of("s", "w", layout)
}

#[test]
fn ratio_valid_midrange() {
    assert!(parse_ratio("0.6").is_ok());
    assert!(parse_ratio("0.01").is_ok());
    assert!(parse_ratio("0.98").is_ok());
}

#[test]
fn ratio_near_one_is_rejected() {
    // >= 0.99 rounds the second pane to 0%, which tmux rejects
    assert!(parse_ratio("0.99").is_err());
    assert!(parse_ratio("0.995").is_err());
}

#[test]
fn ratio_zero_is_rejected() {
    let err = parse_ratio("0").unwrap_err();
    assert!(err.to_string().contains("between"), "{err:?}");
}

#[test]
fn ratio_near_zero_is_rejected() {
    // <= 0.005 rounds the second pane to 100%, which tmux rejects
    assert!(parse_ratio("0.001").is_err());
    assert!(parse_ratio("0.005").is_err());
}

#[test]
fn ratio_lower_bound_accepted() {
    // 0.006 → second pane 99.4% → rounds to 99% — valid
    assert!(parse_ratio("0.006").is_ok());
}

#[test]
fn ratio_one_is_rejected() {
    assert!(parse_ratio("1").is_err());
    assert!(parse_ratio("1.0").is_err());
}

#[test]
fn ratio_above_one_is_rejected() {
    assert!(parse_ratio("1.5").is_err());
}

#[test]
fn ratio_negative_is_rejected() {
    assert!(parse_ratio("-0.3").is_err());
}

// ── tmux options key validation ───────────────────────────────────────────

fn parse_option(key: &str, value: &str) -> Result<TmuxOptions, Error> {
    let mut options = TmuxOptions::new();
    options.insert(TmuxOptionName::new(key)?, TmuxOptionValue::new(value)?);
    Ok(options)
}

fn parse_session_options(key: &str) -> Result<Session, Error> {
    let mut session = session_of("s", "w", LayoutNode::pane())?;
    session.options = parse_option(key, "val")?;
    session.validate()?;
    Ok(session)
}

#[test]
fn options_key_valid() {
    assert!(parse_session_options("status").is_ok());
    assert!(parse_session_options("mouse").is_ok());
}

#[test]
fn options_key_empty_rejected() {
    assert!(parse_session_options("").is_err());
}

#[test]
fn options_key_starting_with_dash_rejected() {
    let err = parse_session_options("-u").unwrap_err();
    assert!(err.to_string().contains("'-'"), "{err:?}");
}

#[test]
fn options_key_nul_byte_rejected() {
    let err = parse_session_options("bad\u{0000}key").unwrap_err();
    assert!(err.to_string().contains("NUL"), "{err:?}");
}




// ── wait_for ─────────────────────────────────────────────────────────────────

fn parse_wait_for(pattern: &str, timeout: Option<u32>) -> Result<WaitFor, Error> {
    Ok(WaitFor {
        pattern: WaitPattern::new(pattern)?,
        timeout: match timeout {
            Some(seconds) => WaitTimeoutSeconds::new(seconds)?,
            None => WaitTimeoutSeconds::default(),
        },
    })
}

#[test]
fn wait_for_default_timeout() {
    let wf = parse_wait_for("ready", None).unwrap();
    assert_eq!(wf.timeout.as_secs(), 30);
    assert_eq!(wf.pattern.as_str(), "ready");
}

#[test]
fn wait_for_empty_pattern_rejected() {
    let err = parse_wait_for("", None).unwrap_err();
    assert!(err.to_string().contains("must not be empty"), "{err:?}");
}

#[test]
fn wait_for_nul_pattern_rejected() {
    let err = parse_wait_for("bad\u{0000}pattern", None).unwrap_err();
    assert!(err.to_string().contains("NUL"), "{err:?}");
}

#[test]
fn wait_for_nonempty_pattern_accepted() {
    let wf = parse_wait_for("ready", None).unwrap();
    assert_eq!(wf.pattern.as_str(), "ready");
}

#[test]
fn wait_for_zero_timeout_rejected() {
    let err = parse_wait_for("ready", Some(0)).unwrap_err();
    assert!(err.to_string().contains("at least 1"), "{err:?}");
}

#[test]
fn wait_for_nonzero_timeout_accepted() {
    let wf = parse_wait_for("ready", Some(5)).unwrap();
    assert_eq!(wf.timeout.as_secs(), 5);
}

// ── Sessions ─────────────────────────────────────────────────────────────────

#[test]
fn windows_empty_is_rejected() {
    let err = validate_windows(&vec![]).unwrap_err();
    assert!(err.to_string().contains("at least one window"), "{err:?}");
    let mut session = session_of("s", "w", LayoutNode::pane()).unwrap();
    session.windows.clear();
    let err = session.validate().unwrap_err();
    assert!(err.to_string().contains("at least one window"), "{err:?}");
}

#[test]
fn windows_single_is_accepted() {
    let s = session_of("s", "w", LayoutNode::pane()).unwrap();
    assert!(validate_windows(&s.windows).is_ok());
    assert_eq!(s.windows.len(), 1);
}

#[test]
fn options_value_nul_byte_rejected() {
    let err = parse_option("status", "bad\u{0000}value").unwrap_err();
    assert!(err.to_string().contains("NUL"), "{err:?}");
}

#[test]
fn window_options_value_nul_byte_rejected() {
    let err = parse_option("synchronize-panes", "bad\u{0000}value").unwrap_err();
    assert!(err.to_string().contains("NUL"), "{err:?}");
}

#[test]
fn select_layout_empty_rejected() {
    let err = TmuxLayoutPreset::new("").unwrap_err();
    assert!(err.to_string().contains("layout preset"), "{err:?}");
}

#[test]
fn select_layout_nul_byte_rejected() {
    let err = TmuxLayoutPreset::new("bad\u{0000}layout").unwrap_err();
    assert!(err.to_string().contains("NUL"), "{err:?}");
}

#[test]
fn env_value_nul_byte_rejected() {
    let result = EnvVarValue::new("\u{0000}");
    assert!(result.is_err(), "NUL byte in env value must be rejected");
}

#[test]
fn env_value_normal_accepted() {
    assert_eq!(EnvVarValue::new("hello world").unwrap().as_str(), "hello world");
}

// ── Options and variables ────────────────────────────────────────────────────

#[test]
fn maps_keep_the_order_of_their_keys() {
    let mut vars = TemplateVars::new();
    assert!(vars.is_empty());
    for key in ["b", "a_long", "a", "_z", "Z"] {
        assert!(vars.insert(var_key(key), var_value(key)).is_none());
    }
    let previous = vars.insert(var_key("a"), var_value("new"));
    assert_eq!(previous.unwrap().as_str(), "a");
    let keys: Vec<&str> = vars.entries().iter().map(|e| e.0.as_str()).collect();
    assert_eq!(keys, ["Z", "_z", "a", "a_long", "b"]);
    assert_eq!(vars.len(), 5);
    assert_eq!(vars.get("a").unwrap().as_str(), "new");
    assert!(vars.get("c").is_none());
    assert_eq!(vars.clone(), vars);
}

#[test]
fn keys_are_ordered_as_strings_are() {
    let mut names: Vec<&str> = vec!["é", "z", "\u{10000}", "\u{ffff}", "ab", "a", "a\u{7f}", "Z"];
    let mut options = TmuxOptions::new();
    for name in &names {
        options.insert(
            TmuxOptionName::new(name).unwrap(),
            TmuxOptionValue::new("").unwrap(),
        );
    }
    names.sort();
    let keys: Vec<&str> = options.entries().iter().map(|e| e.0.as_str()).collect();
    assert_eq!(keys, names);
}

// ── Arguments for tmux ───────────────────────────────────────────────────────

#[test]
fn each_builtin_is_asked_for_where_it_stands() {
    let mut vars = TemplateVars::new();
    vars.insert(var_key("date"), var_value("D"));
    let template = "{{git_branch}}-{{cwd}}-{{date}}-{{cwd}}-{{x}}-{{";
    assert_eq!(
        builtin_requests(template, &vars),
        vec![BuiltinVar::GitBranch, BuiltinVar::Cwd, BuiltinVar::Cwd]
    );
    let answers = vec!["main".to_owned(), "/a".to_owned(), "/b".to_owned()];
    let arg = resolve_tmux_arg_vars(template, &vars, &answers).unwrap();
    assert_eq!(arg.as_str(), "main-/a-D-/b-{{x}}-{{");
}

#[test]
fn nul_in_an_answer_is_refused() {
    let answers = vec!["a\0b".to_owned()];
    let err = resolve_tmux_arg_vars("{{cwd}}", &TemplateVars::new(), &answers).unwrap_err();
    assert_eq!(
        err.to_string(),
        "resolved tmux argument: must not contain NUL bytes"
    );
}

#[test]
fn edges_of_templates() {
    let mut vars = TemplateVars::new();
    vars.insert(var_key("k"), var_value("V"));
    for (template, expected) in [
        ("", ""),
        ("{{", "{{"),
        ("{{k", "{{k"),
        ("}}k {{k", "}}k {{k"),
        ("{{k}", "{{k}"),
        ("}}{{k}}{{", "}}V{{"),
        ("{{{k}}}", "{{{k}}}"),
        ("{{k}}}", "V}"),
        ("{ {k}}", "{ {k}}"),
        ("{{}}", "{{}}"),
        ("{{k}}{{k}}", "VV"),
        ("{{ k }}", "{{ k }}"),
        ("é{{k}}☃", "éV☃"),
    ] {
        assert_eq!(resolve_vars(template, &vars), expected, "{template:?}");
    }
}

#[test]
fn edges_of_shell_words() {
    let mut vars = TemplateVars::new();
    vars.insert(var_key("empty"), var_value(""));
    for (template, expected) in [
        ("", "''"),
        ("{{empty}}", "''"),
        ("a{{empty}}b", "'a''b'"),
        ("a{{b", "'a''{{''b'"),
        ("{{nope}}", "'{{nope}}'"),
        ("{{date}}", "\"$(date +%Y-%m-%d)\""),
        ("{{git_branch}}", "\"$(git rev-parse --abbrev-ref HEAD)\""),
    ] {
        let word = shell_quote_template_vars(template, &vars).unwrap();
        assert_eq!(word.as_str(), expected, "{template:?}");
    }
    assert_eq!(
        shell_quote_template_vars("a\0", &vars)
            .unwrap_err()
            .to_string(),
        "shell word: must not contain NUL bytes"
    );
}
