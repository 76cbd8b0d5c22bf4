use nix_tmux_define::model::MAX_LAYOUT_DEPTH;
use nix_tmux_define::{
    Direction, LayoutNode, LayoutPlan, OrderedMap, PaneCommand, PaneTitle, SplitRatio,
    TemplateVarName, TemplateVarValue, TemplateVars, TmuxSplitFlag, WaitFor, WaitPattern,
    WaitTimeoutSeconds,
};

/// A right-leaning chain of splits of the given depth.
fn make_deeply_nested(depth: usize) -> LayoutNode {
    if depth == 0 {
        return LayoutNode::pane();
    }
    LayoutNode::split(
        Direction::Horizontal,
        SplitRatio::new(0.5f64.to_bits(), "0.5").unwrap(),
        LayoutNode::pane(),
        make_deeply_nested(depth - 1),
    )
}

fn no_vars() -> TemplateVars {
    OrderedMap::new()
}

fn ratio(v: f64) -> SplitRatio {
    SplitRatio::new(v.to_bits(), &v.to_string()).unwrap()
}

#[test]
fn single_pane_has_one_leaf_no_splits() {
    let plan = LayoutPlan::build(&LayoutNode::pane(), &no_vars()).unwrap();
    assert_eq!(plan.pane_count(), 1);
    assert!(plan.splits().is_empty());
    assert_eq!(plan.leaves().len(), 1);
    assert_eq!(plan.leaves()[0].pane, 0);
}

#[test]
fn split_allocates_second_pane_and_orders_children() {
    // first stays on the parent pane (0); second lands on the new pane (1).
    let node = LayoutNode::split(
        Direction::Horizontal,
        ratio(0.6),
        LayoutNode::command("a").unwrap(),
        LayoutNode::command("b").unwrap(),
    );
    let plan = LayoutPlan::build(&node, &no_vars()).unwrap();

    assert_eq!(plan.pane_count(), 2);
    assert_eq!(plan.splits().len(), 1);
    assert_eq!(plan.splits()[0].parent, 0);
    assert_eq!(plan.splits()[0].new, 1);
    assert_eq!(plan.splits()[0].flag, TmuxSplitFlag::Horizontal);
    assert_eq!(plan.splits()[0].pct.as_u32(), 40);

    // Leaves are in visitation order: first child (pane 0) then second (pane 1).
    let panes: Vec<_> = plan.leaves().iter().map(|l| l.pane).collect();
    assert_eq!(panes, vec![0, 1]);
    assert_eq!(plan.leaves()[0].command.as_ref().unwrap().as_str(), "a");
    assert_eq!(plan.leaves()[1].command.as_ref().unwrap().as_str(), "b");
}

#[test]
fn splits_are_monotonic_and_parent_precedes_new() {
    // A deeper right-leaning tree: every split's parent must already exist
    // (parent < new) and new indices must increase by one each time, so a
    // Vec-pushing renderer stays correct.
    let node = LayoutNode::split(
        Direction::Vertical,
        ratio(0.5),
        LayoutNode::pane(),
        LayoutNode::split(
            Direction::Horizontal,
            ratio(0.5),
            LayoutNode::pane(),
            LayoutNode::pane(),
        ),
    );
    let plan = LayoutPlan::build(&node, &no_vars()).unwrap();
    assert_eq!(plan.pane_count(), 3);
    for (i, split) in plan.splits().iter().enumerate() {
        assert!(
            split.parent < split.new,
            "parent must precede new: {split:?}"
        );
        assert_eq!(split.new, i + 1, "new indices must be dense and monotonic");
    }
}

#[test]
fn resolves_template_vars_in_command_and_title() {
    let mut vars = OrderedMap::new();
    vars.insert(
        TemplateVarName::new("dir").unwrap(),
        TemplateVarValue::new("/srv/app").unwrap(),
    );
    let node = LayoutNode::Pane {
        command: Some(PaneCommand::new("cd {{dir}}").unwrap()),
        focus: true,
        title: Some(PaneTitle::new("{{dir}}").unwrap()),
        wait_for: None,
    };
    let plan = LayoutPlan::build(&node, &vars).unwrap();
    let leaf = &plan.leaves()[0];
    assert_eq!(leaf.command.as_ref().unwrap().as_str(), "cd /srv/app");
    assert_eq!(leaf.title.as_ref().unwrap().as_str(), "/srv/app");
    assert!(leaf.focus);
}

#[test]
fn wait_for_is_preserved_whole() {
    let node = LayoutNode::Pane {
        command: Some(PaneCommand::new("srv").unwrap()),
        focus: false,
        title: None,
        wait_for: Some(WaitFor {
            pattern: WaitPattern::new("ready").unwrap(),
            timeout: WaitTimeoutSeconds::new(7).unwrap(),
        }),
    };
    let plan = LayoutPlan::build(&node, &no_vars()).unwrap();
    let wf = plan.leaves()[0].wait_for.as_ref().unwrap();
    assert_eq!(wf.pattern.as_str(), "ready");
    assert_eq!(wf.timeout.as_secs(), 7);
}

#[test]
fn rejects_tree_deeper_than_max_depth() {
    let too_deep = make_deeply_nested(MAX_LAYOUT_DEPTH + 1);
    let err = LayoutPlan::build(&too_deep, &no_vars()).unwrap_err();
    assert!(err.to_string().contains("deeply nested"), "{err:?}");
}

#[test]
fn accepts_tree_at_exactly_max_depth() {
    let ok = make_deeply_nested(MAX_LAYOUT_DEPTH);
    assert!(LayoutPlan::build(&ok, &no_vars()).is_ok());
}

#[test]
fn plans_can_be_copied() {
    let layout = LayoutNode::split(
        Direction::Vertical,
        SplitRatio::new(0.25f64.to_bits(), "0.25").unwrap(),
        LayoutNode::Pane {
            command: Some(PaneCommand::new("vim {{x}}").unwrap()),
            focus: true,
            title: Some(PaneTitle::new("t").unwrap()),
            wait_for: Some(WaitFor {
                pattern: WaitPattern::new("ready").unwrap(),
                timeout: WaitTimeoutSeconds::new(3).unwrap(),
            }),
        },
        make_deeply_nested(3),
    );
    let plan = LayoutPlan::build(&layout, &OrderedMap::new()).unwrap();
    let copy = plan.clone();
    assert_eq!(copy, plan);
    assert_eq!(copy.pane_count(), 5);
    assert_eq!(copy.splits()[0].pct.as_u32(), 75);
}
