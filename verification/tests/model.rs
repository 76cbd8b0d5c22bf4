use nix_tmux_define::model::MAX_LAYOUT_DEPTH;
use nix_tmux_define::{
    Direction, EnvVarName, EnvVarValue, LayoutNode, OrderedMap, PaneCommand, PaneTitle,
    RootTemplate, Session, ShellCommand, SplitRatio, TmuxLayoutPreset, TmuxName, TmuxOptionName,
    TmuxOptionValue, TmuxPanePercent, TmuxSplitFlag, WaitPattern, WaitTimeoutSeconds, Window,
};

/// A right-leaning chain of splits of the given depth.
fn make_deeply_nested(depth: usize) -> LayoutNode {
    if depth == 0 {
        return LayoutNode::pane();
    }
    LayoutNode::split(
        Direction::Horizontal,
        SplitRatio::new(0.5f64.to_bits(), "0.5").unwrap(),
        LayoutNode::pane(),
        make_deeply_nested(depth - 1),
    )
}

fn tmux_name(value: &str) -> TmuxName {
    TmuxName::new(value).unwrap()
}

fn root_template(value: &str) -> RootTemplate {
    RootTemplate::new(value).unwrap()
}

fn valid_session(name: &str) -> Session {
    Session {
        name: tmux_name(name),
        root: None,
        windows: vec![Window {
            name: tmux_name("w"),
            layout: LayoutNode::pane(),
            root: None,
            env: vec![],
            options: OrderedMap::new(),
            select_layout: None,
        }],
        env: vec![],
        pre_hook: None,
        options: OrderedMap::new(),
        vars: OrderedMap::new(),
    }
}

#[test]
fn validate_accepts_valid_session() {
    assert!(valid_session("my-session").validate().is_ok());
}

#[test]
fn validate_rejects_colon_in_name() {
    let err = TmuxName::new("bad:name").unwrap_err();
    assert!(err.to_string().contains("':'"), "{err:?}");
}

#[test]
fn model_validate_rejects_empty_windows() {
    let mut s = valid_session("s");
    s.windows.clear();
    assert!(s.validate().is_err());
}

#[test]
fn validate_rejects_colon_in_window_name() {
    let err = TmuxName::new("bad:win").unwrap_err();
    assert!(err.to_string().contains("':'"), "{err:?}");
}

#[test]
fn validate_rejects_direct_invalid_env_key() {
    let err = EnvVarName::new("1BAD").unwrap_err();
    assert!(err.to_string().contains("must start with"), "{err:?}");
}

#[test]
fn validate_rejects_direct_env_nul_value() {
    let err = EnvVarValue::new("bad\0value").unwrap_err();
    assert!(err.to_string().contains("NUL"), "{err:?}");
}

#[test]
fn validate_rejects_direct_tmux_option_flag_key() {
    let err = TmuxOptionName::new("-g").unwrap_err();
    assert!(err.to_string().contains("must not start"), "{err:?}");
}

#[test]
fn validate_rejects_direct_empty_select_layout() {
    let err = TmuxLayoutPreset::new("").unwrap_err();
    assert!(err.full_text().contains("layout preset"), "{err:?}");
}

#[test]
fn validate_rejects_duplicate_window_names() {
    let mut s = valid_session("s");
    s.windows.push(s.windows[0].clone());
    let err = s.validate().unwrap_err();
    assert!(err.to_string().contains("duplicate window"), "{err:?}");
}

#[test]
fn validate_layout_depth_accepts_execution_limit() {
    let mut s = valid_session("s");
    s.windows[0].layout = make_deeply_nested(MAX_LAYOUT_DEPTH);

    assert!(s.validate().is_ok());
}

#[test]
fn validate_layout_depth_rejects_deeper_than_execution_limit() {
    let mut s = valid_session("s");
    s.windows[0].layout = make_deeply_nested(MAX_LAYOUT_DEPTH + 1);

    let err = s.validate().unwrap_err();

    assert!(err.to_string().contains("deeply nested"), "{err:?}");
}

#[test]
fn validate_accepts_dynamic_builtin_root() {
    let mut s = valid_session("s");
    s.root = Some(root_template("{{cwd}}/project"));
    assert!(s.validate().is_ok());
}

#[test]
fn wait_pattern_rejects_direct_empty_pattern() {
    let err = WaitPattern::new("").unwrap_err();
    assert!(err.to_string().contains("must not be empty"), "{err:?}");
}

#[test]
fn wait_timeout_seconds_rejects_zero() {
    let err = WaitTimeoutSeconds::new(0).unwrap_err();
    assert!(err.to_string().contains("at least 1"), "{err:?}");
}

#[test]
fn split_ratio_rejects_direct_invalid_ratio() {
    let err = SplitRatio::new(0.995f64.to_bits(), "0.995").unwrap_err();
    assert!(err.to_string().contains("split ratio"), "{err:?}");
}

#[test]
fn try_split_rejects_invalid_ratio() {
    let err = LayoutNode::try_split(
        Direction::Horizontal,
        0.995f64.to_bits(),
        "0.995",
        LayoutNode::pane(),
        LayoutNode::pane(),
    )
    .unwrap_err();
    assert!(err.to_string().contains("split ratio"), "{err:?}");
}

#[test]
fn split_ratio_converts_to_tmux_second_pane_percent() {
    assert_eq!(
        SplitRatio::new(0.6f64.to_bits(), "0.6")
            .unwrap()
            .tmux_second_pane_percent()
            .as_u32(),
        40
    );
    assert_eq!(
        SplitRatio::new(0.006f64.to_bits(), "0.006")
            .unwrap()
            .tmux_second_pane_percent()
            .as_u32(),
        99
    );
    assert_eq!(
        SplitRatio::new(0.98f64.to_bits(), "0.98")
            .unwrap()
            .tmux_second_pane_percent()
            .as_u32(),
        2
    );
}

#[test]
fn tmux_pane_percent_rejects_out_of_range() {
    let too_small = TmuxPanePercent::new(0).unwrap_err();
    assert!(
        too_small.to_string().contains("tmux pane percent"),
        "{too_small:?}"
    );

    let too_large = TmuxPanePercent::new(100).unwrap_err();
    assert!(
        too_large.to_string().contains("tmux pane percent"),
        "{too_large:?}"
    );
}

#[test]
fn direction_maps_to_typed_tmux_split_flags() {
    assert_eq!(
        Direction::Horizontal.tmux_split_flag(),
        TmuxSplitFlag::Horizontal
    );
    assert_eq!(
        Direction::Vertical.tmux_split_flag(),
        TmuxSplitFlag::Vertical
    );
    assert_eq!(TmuxSplitFlag::Horizontal.as_str(), "-h");
    assert_eq!(TmuxSplitFlag::Vertical.as_str(), "-v");
}

#[test]
fn validate_rejects_direct_nul_in_command_and_pre_hook() {
    let err = LayoutNode::command("echo bad\0").unwrap_err();
    assert!(err.full_text().contains("NUL"), "{err:?}");

    let err = ShellCommand::new("echo bad\0").unwrap_err();
    assert!(err.full_text().contains("NUL"), "{err:?}");
}

#[test]
fn validated_payload_newtypes_reject_invalid_inputs() {
    assert!(PaneCommand::new("bad\0command").is_err());
    assert!(PaneTitle::new("bad\0title").is_err());
    assert!(ShellCommand::new("bad\0hook").is_err());
    assert!(TmuxOptionName::new("").is_err());
    assert!(TmuxOptionName::new("-g").is_err());
    assert!(TmuxOptionValue::new("bad\0value").is_err());
    assert!(TmuxLayoutPreset::new("").is_err());
    assert!(TmuxLayoutPreset::new("bad\0layout").is_err());
}



#[test]
fn duplicate_window_name_is_named() {
    let mut s = valid_session("s");
    s.windows.push(s.windows[0].clone());
    assert_eq!(
        s.validate().unwrap_err().to_string(),
        "duplicate window name TmuxName(\"w\")"
    );
}

#[test]
fn depth_error_says_where() {
    let mut s = valid_session("s");
    s.windows[0].layout = make_deeply_nested(MAX_LAYOUT_DEPTH + 1);
    let message = s.validate().unwrap_err().to_string();
    assert!(message.starts_with("window TmuxName(\"w\").second.second"));
    assert!(message.ends_with(".first: layout tree is too deeply nested (max depth: 64)"));
}

#[test]
fn messages_of_refused_names() {
    for (name, message) in [
        ("", "tmux name: tmux name must not be empty"),
        (
            "a.b:c",
            "tmux name: tmux name must not contain '.' (tmux target separator)",
        ),
        (
            "a\tb",
            "tmux name: tmux name must not contain control characters (found '\\t')",
        ),
        (
            "\u{9f}",
            "tmux name: tmux name must not contain control characters (found '\\u{9f}')",
        ),
    ] {
        assert_eq!(TmuxName::new(name).unwrap_err().to_string(), message);
    }
    assert!(TmuxName::new("naïve \u{a0}☃").is_ok());
}

#[test]
fn messages_of_refused_texts() {
    assert_eq!(
        EnvVarName::new("").unwrap_err().to_string(),
        "env var key: env var key must not be empty"
    );
    assert_eq!(
        EnvVarName::new("é").unwrap_err().to_string(),
        "env var key: invalid env var key \"é\": must start with ASCII letter or underscore"
    );
    assert_eq!(
        EnvVarName::new("A\"B").unwrap_err().to_string(),
        "env var key: invalid env var key \"A\\\"B\": must contain only ASCII letters, digits, or underscores"
    );
    assert_eq!(
        TmuxOptionName::new("").unwrap_err().to_string(),
        "tmux option key: tmux option key must not be empty"
    );
    assert_eq!(
        TmuxOptionName::new("-g").unwrap_err().to_string(),
        "tmux option key: invalid tmux option key \"-g\": must not start with '-' (would be parsed as a flag)"
    );
    assert_eq!(
        RootTemplate::new("").unwrap_err().to_string(),
        "root template: must not be empty"
    );
    assert_eq!(
        RootTemplate::new("a\0").unwrap_err().to_string(),
        "root template: must not contain NUL bytes"
    );
    assert_eq!(
        TmuxLayoutPreset::new("").unwrap_err().to_string(),
        "tmux layout preset: tmux layout preset must not be empty"
    );
    assert_eq!(
        WaitPattern::new("").unwrap_err().to_string(),
        "wait_for pattern: wait_for pattern must not be empty"
    );
    assert_eq!(
        WaitTimeoutSeconds::new(0).unwrap_err().to_string(),
        "wait_for timeout must be at least 1 second"
    );
    assert_eq!(
        TmuxPanePercent::new(100).unwrap_err().to_string(),
        "tmux pane percent must be between 1 and 99, got 100"
    );
    assert_eq!(
        SplitRatio::new(1.5f64.to_bits(), "1.5").unwrap_err().to_string(),
        "split ratio must be between 0.006 (inclusive) and 0.99 (exclusive), got 1.5"
    );
}

#[test]
fn pane_percent_is_printed_with_its_sign() {
    assert_eq!(TmuxPanePercent::new(7).unwrap().as_tmux_size(), "7%");
    assert_eq!(TmuxPanePercent::new(99).unwrap().as_tmux_size(), "99%");
}

#[test]
fn timeout_defaults_to_half_a_minute() {
    assert_eq!(WaitTimeoutSeconds::default().as_secs(), 30);
    assert_eq!(u32::from(WaitTimeoutSeconds::new(5).unwrap()), 5);
}

#[test]
fn default_layout_is_an_empty_pane() {
    assert_eq!(LayoutNode::pane(), LayoutNode::default());
    assert_eq!(make_deeply_nested(3).clone(), make_deeply_nested(3));
}

#[test]
fn ratio_bounds_are_those_of_the_bit_patterns() {
    assert_eq!(SplitRatio::MIN_INCLUSIVE, 0.006f64.to_bits());
    assert_eq!(SplitRatio::MAX_EXCLUSIVE, 0.99f64.to_bits());
    for value in [
        f64::NAN,
        f64::INFINITY,
        f64::NEG_INFINITY,
        -0.5,
        -0.0,
        0.0,
        5e-324,
        0.99,
        1.0,
        f64::MAX,
    ] {
        assert!(SplitRatio::new(value.to_bits(), "x").is_err(), "{value}");
    }
    assert_eq!(
        SplitRatio::new(0.25f64.to_bits(), "0.25").unwrap().get(),
        0.25f64.to_bits()
    );
}

#[test]
fn percent_is_that_of_double_precision_arithmetic() {
    let check = |bits: u64| {
        let value = f64::from_bits(bits);
        let expected = ((1.0 - value) * 100.0).round() as u32;
        let ratio = SplitRatio::new(bits, "x").unwrap();
        assert_eq!(ratio.tmux_second_pane_percent().as_u32(), expected, "{value}");
        assert!((1..=99).contains(&expected));
    };
    check(SplitRatio::MIN_INCLUSIVE);
    check(SplitRatio::MAX_EXCLUSIVE - 1);
    for thousandth in 6..990u32 {
        check((f64::from(thousandth) / 1000.0).to_bits());
    }
    // Around every half percent, where the rounding is decided.
    for half in 1..199u32 {
        let bits = (1.0 - f64::from(half) / 200.0).to_bits();
        for near in bits - 50..bits + 50 {
            if SplitRatio::new(near, "x").is_ok() {
                check(near);
            }
        }
    }
    // All over the range.
    let step = (SplitRatio::MAX_EXCLUSIVE - SplitRatio::MIN_INCLUSIVE) / 20_000;
    let mut bits = SplitRatio::MIN_INCLUSIVE;
    while bits < SplitRatio::MAX_EXCLUSIVE {
        check(bits);
        bits += step;
    }
}

#[test]
fn greater_ratio_gives_no_greater_second_pane() {
    let step = (SplitRatio::MAX_EXCLUSIVE - SplitRatio::MIN_INCLUSIVE) / 50_000;
    let mut bits = SplitRatio::MIN_INCLUSIVE;
    let mut last = 99;
    while bits < SplitRatio::MAX_EXCLUSIVE {
        let percent = SplitRatio::new(bits, "x")
            .unwrap()
            .tmux_second_pane_percent()
            .as_u32();
        assert!((1..=last).contains(&percent));
        last = percent;
        bits += step;
    }
    assert_eq!(last, 1);
}
