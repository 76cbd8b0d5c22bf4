//! A plan of how to build the panes of a window.
//!
//! The compiler, which writes a script, and the executor, which drives tmux, both render the same
//! plan, so they cannot disagree about the structure of a window. The plan has two phases: the
//! splits that build all panes, then what is done to each pane.
//!
//! Pane indices are dense and start at 0, the initial pane of the window. A split names a parent
//! that stands before the new pane, and the splits come in the order of their new panes.

use crate::error;
use crate::error::Error;
use crate::layout_laws;
use crate::model;
use crate::model::{LayoutNode, TmuxSplitFlag, WaitFor, MAX_LAYOUT_DEPTH};
use crate::ordered_map::TemplateVars;
use crate::ratio;
use crate::ratio::TmuxPanePercent;
use crate::template;
use crate::text::Text;
use crate::words::{PaneCommand, PaneTitle};
use vstd::prelude::*;
use vstd::string::*;

verus! {

/// An index into the panes of a window; 0 is its initial pane.
pub type PaneIndex = usize;

// ─── The plan of a layout tree ───────────────────────────────────────────────

/// A split: `parent` is split, and `new` is the pane that results, with `pct` percent of the space.
pub struct SplitStep {
    pub parent: int,
    pub new: int,
    pub flag: TmuxSplitFlag,
    pub pct: int,
}

/// What is done to a pane: its command and title, with all placeholders replaced, whether it gets
/// the focus, and the pattern and timeout of what is waited for.
pub struct LeafStep {
    pub pane: int,
    pub command: Option<Text>,
    pub title: Option<Text>,
    pub focus: bool,
    pub wait_for: Option<(Text, u32)>,
}

/// A plan: the splits of the first phase, and what the second phase does to the panes.
#[verifier::ext_equal]
pub struct Plan {
    pub splits: Seq<SplitStep>,
    pub leaves: Seq<LeafStep>,
}

/// The number of splits in a tree.
pub open spec fn split_count(node: LayoutNode) -> nat
    decreases node,
{
    match node {
        LayoutNode::Pane { .. } => 0,
        LayoutNode::Split { direction, ratio, first, second } => 1 + split_count(*first)
            + split_count(*second),
    }
}

/// The splits that build `node` in the pane `current`, where `next` is the first free index.
pub open spec fn splits_of(node: LayoutNode, current: int, next: int) -> Seq<SplitStep>
    decreases node,
{
    match node {
        LayoutNode::Pane { .. } => Seq::empty(),
        LayoutNode::Split { direction, ratio, first, second } => seq![
            SplitStep {
                parent: current,
                new: next,
                flag: model::split_flag(direction),
                pct: ratio::percent(ratio@),
            },
        ] + splits_of(*first, current, next + 1) + splits_of(
            *second,
            next,
            next + 1 + split_count(*first),
        ),
    }
}

/// A text with its placeholders replaced.
pub open spec fn resolved_text(t: Option<Text>, vars: TemplateVars) -> Option<Text> {
    match t {
        Some(t) => Some(template::resolved(t, vars)),
        None => None,
    }
}

/// What is done to the panes of `node`, which is built in the pane `current`, where `next` is the
/// first free index.
pub open spec fn leaves_of(
    node: LayoutNode,
    current: int,
    next: int,
    vars: TemplateVars,
) -> Seq<LeafStep>
    decreases node,
{
    match node {
        LayoutNode::Pane { command, focus, title, wait_for } => seq![
            LeafStep {
                pane: current,
                command: resolved_text(model::command_text(command), vars),
                title: resolved_text(model::title_text(title), vars),
                focus,
                wait_for: model::wait_value(wait_for),
            },
        ],
        LayoutNode::Split { direction, ratio, first, second } => leaves_of(
            *first,
            current,
            next + 1,
            vars,
        ) + leaves_of(*second, next, next + 1 + split_count(*first), vars),
    }
}

/// The plan of a layout tree.
pub open spec fn plan_of(root: LayoutNode, vars: TemplateVars) -> Plan {
    Plan { splits: splits_of(root, 0, 1), leaves: leaves_of(root, 0, 1, vars) }
}

/// The failure of a layout tree that is too deep.
pub open spec fn depth_error(root: LayoutNode) -> Option<Seq<Text>> {
    if model::layout_depth(root) > MAX_LAYOUT_DEPTH {
        Some(seq!["layout tree is too deeply nested (max depth: 64)"@])
    } else {
        None
    }
}

/// The pane that gets the focus: the last one that asks for it.
pub open spec fn focused(leaves: Seq<LeafStep>) -> Option<int>
    decreases leaves.len(),
{
    if leaves.len() == 0 {
        None
    } else if leaves.last().focus {
        Some(leaves.last().pane)
    } else {
        focused(leaves.drop_last())
    }
}

/// What a renderer relies on: the new panes are numbered in order, a parent stands before its new
/// pane, and there is one leaf for each pane.
pub open spec fn well_numbered(plan: Plan) -> bool {
    &&& plan.leaves.len() == plan.splits.len() + 1
    &&& forall|i: int|
        0 <= i < plan.splits.len() ==> (#[trigger] plan.splits[i]).new == i + 1 && 0
            <= plan.splits[i].parent <= i
    &&& forall|i: int|
        0 <= i < plan.leaves.len() ==> 0 <= (#[trigger] plan.leaves[i]).pane < plan.leaves.len()
}

/// How the splits and leaves of a subtree are numbered.
pub proof fn lemma_numbers(node: LayoutNode, current: int, next: int, vars: TemplateVars)
    requires
        0 <= current < next,
    ensures
        splits_of(node, current, next).len() == split_count(node),
        leaves_of(node, current, next, vars).len() == split_count(node) + 1,
        forall|i: int|
            0 <= i < split_count(node) ==> (#[trigger] splits_of(node, current, next)[i]).new
                == next + i && 0 <= splits_of(node, current, next)[i].parent < next + i,
        forall|i: int|
            0 <= i < split_count(node) + 1 ==> in_subtree(
                (#[trigger] leaves_of(node, current, next, vars)[i]).pane,
                node,
                current,
                next,
            ),
        forall|i: int, j: int|
            0 <= i < j < split_count(node) + 1 ==> (#[trigger] leaves_of(
                node,
                current,
                next,
                vars,
            )[i]).pane != (#[trigger] leaves_of(node, current, next, vars)[j]).pane,
    decreases node,
{
    if let LayoutNode::Split { direction, ratio, first, second } = node {
        let c = split_count(*first);
        lemma_numbers(*first, current, next + 1, vars);
        lemma_numbers(*second, next, next + 1 + c, vars);
        let a = leaves_of(*first, current, next + 1, vars);
        let b = leaves_of(*second, next, next + 1 + c, vars);
        let leaves = leaves_of(node, current, next, vars);
        assert forall|i: int| 0 <= i < leaves.len() implies in_subtree(
            (#[trigger] leaves[i]).pane,
            node,
            current,
            next,
        ) by {
            if i < a.len() {
                assert(leaves[i] == a[i]);
            } else {
                assert(leaves[i] == b[i - a.len()]);
            }
        }
        assert forall|i: int, j: int| 0 <= i < j < leaves.len() implies (#[trigger] leaves[i]).pane
            != (#[trigger] leaves[j]).pane by {
            if j < a.len() {
                assert(leaves[i] == a[i] && leaves[j] == a[j]);
            } else if i < a.len() {
                assert(leaves[i] == a[i] && leaves[j] == b[j - a.len()]);
            } else {
                assert(leaves[i] == b[i - a.len()] && leaves[j] == b[j - a.len()]);
            }
        }
        let sa = splits_of(*first, current, next + 1);
        let sb = splits_of(*second, next, next + 1 + c);
        let splits = splits_of(node, current, next);
        assert forall|i: int| 0 <= i < splits.len() implies (#[trigger] splits[i]).new == next + i
            && 0 <= splits[i].parent < next + i by {
            if i == 0 {
            } else if i < 1 + sa.len() {
                assert(splits[i] == sa[i - 1]);
            } else {
                assert(splits[i] == sb[i - 1 - sa.len()]);
            }
        }
    }
}

/// `pane` is one of the panes of the subtree `node`.
pub open spec fn in_subtree(pane: int, node: LayoutNode, current: int, next: int) -> bool {
    pane == current || next <= pane < next + split_count(node)
}

/// The plan of a layout tree is well numbered: a pane is split only when it has been built, each
/// split adds one pane, and the new panes are numbered one after the other.
pub proof fn law_plan_is_well_numbered(root: LayoutNode, vars: TemplateVars)
    ensures
        well_numbered(plan_of(root, vars)),
{
    lemma_numbers(root, 0, 1, vars);
}

/// A plan has a split for each split of the tree, and a leaf for each of its panes.
pub proof fn lemma_plan_size(root: LayoutNode, vars: TemplateVars)
    ensures
        plan_of(root, vars).splits.len() == split_count(root),
        plan_of(root, vars).leaves.len() == split_count(root) + 1,
{
    lemma_numbers(root, 0, 1, vars);
}

/// There is exactly one leaf for each pane that the splits build.
pub proof fn law_one_leaf_per_pane(root: LayoutNode, vars: TemplateVars, pane: int)
    requires
        0 <= pane < plan_of(root, vars).splits.len() + 1,
    ensures
        exists|i: int|
            0 <= i < plan_of(root, vars).leaves.len() && (#[trigger] plan_of(
                root,
                vars,
            ).leaves[i]).pane == pane,
        forall|i: int, j: int|
            0 <= i < j < plan_of(root, vars).leaves.len() ==> (#[trigger] plan_of(
                root,
                vars,
            ).leaves[i]).pane != (#[trigger] plan_of(root, vars).leaves[j]).pane,
{
    lemma_numbers(root, 0, 1, vars);
    lemma_every_pane_has_a_leaf(root, 0, 1, vars, pane);
}

proof fn lemma_every_pane_has_a_leaf(
    node: LayoutNode,
    current: int,
    next: int,
    vars: TemplateVars,
    pane: int,
)
    requires
        0 <= current < next,
        in_subtree(pane, node, current, next),
    ensures
        exists|i: int|
            0 <= i < leaves_of(node, current, next, vars).len() && (#[trigger] leaves_of(
                node,
                current,
                next,
                vars,
            )[i]).pane == pane,
    decreases node,
{
    let leaves = leaves_of(node, current, next, vars);
    match node {
        LayoutNode::Pane { .. } => {
            assert(leaves[0].pane == pane);
        },
        LayoutNode::Split { direction, ratio, first, second } => {
            let c = split_count(*first);
            let a = leaves_of(*first, current, next + 1, vars);
            let b = leaves_of(*second, next, next + 1 + c, vars);
            lemma_numbers(*first, current, next + 1, vars);
            if in_subtree(pane, *first, current, next + 1) {
                lemma_every_pane_has_a_leaf(*first, current, next + 1, vars, pane);
                let i = choose|i: int| 0 <= i < a.len() && (#[trigger] a[i]).pane == pane;
                assert(leaves[i].pane == pane);
            } else {
                lemma_every_pane_has_a_leaf(*second, next, next + 1 + c, vars, pane);
                let i = choose|i: int| 0 <= i < b.len() && (#[trigger] b[i]).pane == pane;
                assert(leaves[a.len() + i].pane == pane);
            }
        },
    }
}

// ─── Executable plans ────────────────────────────────────────────────────────

/// A single `split-window` operation: split `parent`, producing the pane `new`.
#[derive(Debug, PartialEq, Eq)]
pub struct PlannedSplit {
    pub parent: PaneIndex,
    pub new: PaneIndex,
    pub flag: TmuxSplitFlag,
    /// The size of the new pane.
    pub pct: TmuxPanePercent,
}

impl View for PlannedSplit {
    type V = SplitStep;

    open spec fn view(&self) -> SplitStep {
        SplitStep {
            parent: self.parent as int,
            new: self.new as int,
            flag: self.flag,
            pct: self.pct@,
        }
    }
}

impl Clone for PlannedSplit {
    fn clone(&self) -> (r: PlannedSplit)
        ensures
            r == *self,
    {
        PlannedSplit { parent: self.parent, new: self.new, flag: self.flag, pct: self.pct }
    }
}

/// What is done to one pane when all have been built. The command and the title have their
/// placeholders replaced.
#[derive(Debug, PartialEq)]
pub struct PlannedLeaf {
    pub pane: PaneIndex,
    pub command: Option<PaneCommand>,
    pub title: Option<PaneTitle>,
    pub focus: bool,
    pub wait_for: Option<WaitFor>,
}

impl View for PlannedLeaf {
    type V = LeafStep;

    open spec fn view(&self) -> LeafStep {
        LeafStep {
            pane: self.pane as int,
            command: model::command_text(self.command),
            title: model::title_text(self.title),
            focus: self.focus,
            wait_for: model::wait_value(self.wait_for),
        }
    }
}

impl Clone for PlannedLeaf {
    fn clone(&self) -> (r: PlannedLeaf)
        ensures
            r@ == self@,
    {
        PlannedLeaf {
            pane: self.pane,
            command: match &self.command {
                Some(c) => Some(c.clone()),
                None => None,
            },
            title: match &self.title {
                Some(t) => Some(t.clone()),
                None => None,
            },
            focus: self.focus,
            wait_for: match &self.wait_for {
                Some(w) => Some(w.clone()),
                None => None,
            },
        }
    }
}

/// The steps of a list of splits.
pub open spec fn split_views(splits: Seq<PlannedSplit>) -> Seq<SplitStep> {
    splits.map_values(|s: PlannedSplit| s@)
}

/// The steps of a list of leaves.
pub open spec fn leaf_views(leaves: Seq<PlannedLeaf>) -> Seq<LeafStep> {
    leaves.map_values(|l: PlannedLeaf| l@)
}

/// The plan for the layout of one window.
#[derive(Debug, PartialEq)]
pub struct LayoutPlan {
    splits: Vec<PlannedSplit>,
    leaves: Vec<PlannedLeaf>,
}

impl View for LayoutPlan {
    type V = Plan;

    closed spec fn view(&self) -> Plan {
        Plan { splits: split_views(self.splits@), leaves: leaf_views(self.leaves@) }
    }
}

impl LayoutPlan {
    /// The plan is well numbered.
    #[verifier::type_invariant]
    pub open spec fn wf(&self) -> bool {
        well_numbered(self@)
    }

    /// The plan for the layout tree `root`, with the placeholders replaced from `vars`. Fails
    /// exactly when the tree is nested deeper than [`MAX_LAYOUT_DEPTH`].
    pub fn build(root: &LayoutNode, vars: &TemplateVars) -> (r: Result<LayoutPlan, Error>)
        ensures
            error::failure(r) == depth_error(*root),
            r matches Ok(plan) ==> plan@ == plan_of(*root, *vars) && layout_laws::gives(
                plan@,
                *root,
                *vars,
            ),
    {
        let mut splits: Vec<PlannedSplit> = Vec::new();
        let mut leaves: Vec<PlannedLeaf> = Vec::new();
        walk(&mut splits, &mut leaves, root, 0, vars, 0)?;
        proof {
            law_plan_is_well_numbered(*root, *vars);
            layout_laws::law_plan_gives_the_tree(*root, *vars);
            assert(split_views(splits@) == splits_of(*root, 0, 1));
            assert(leaf_views(leaves@) == leaves_of(*root, 0, 1, *vars));
        }
        Ok(LayoutPlan { splits, leaves })
    }

    /// The number of panes, the initial one included.
    pub fn pane_count(&self) -> (r: usize)
        ensures
            r == self@.splits.len() + 1,
    {
        proof {
            use_type_invariant(self);
        }
        self.leaves.len()
    }

    /// The splits, in the order in which they must run.
    pub fn splits(&self) -> (r: &[PlannedSplit])
        ensures
            split_views(r@) == self@.splits,
            self.wf(),
    {
        proof {
            use_type_invariant(self);
        }
        self.splits.as_slice()
    }

    /// What is done to the panes, in order.
    pub fn leaves(&self) -> (r: &[PlannedLeaf])
        ensures
            leaf_views(r@) == self@.leaves,
            self.wf(),
    {
        proof {
            use_type_invariant(self);
        }
        self.leaves.as_slice()
    }
}

impl Clone for LayoutPlan {
    fn clone(&self) -> (r: LayoutPlan)
        ensures
            r@ == self@,
    {
        proof {
            use_type_invariant(self);
        }
        let mut splits: Vec<PlannedSplit> = Vec::new();
        for i in 0..self.splits.len()
            invariant
                splits@ == self.splits@.take(i as int),
        {
            splits.push(self.splits[i].clone());
        }
        let mut leaves: Vec<PlannedLeaf> = Vec::new();
        for i in 0..self.leaves.len()
            invariant
                leaf_views(leaves@) == leaf_views(self.leaves@).take(i as int),
        {
            let ghost before = leaves@;
            leaves.push(self.leaves[i].clone());
            assert(leaf_views(leaves@) == leaf_views(before).push(self.leaves@[i as int]@));
            assert(leaf_views(leaves@) == leaf_views(self.leaves@).take(i + 1));
        }
        assert(splits@ == self.splits@);
        assert(leaf_views(leaves@) == leaf_views(self.leaves@));
        LayoutPlan { splits, leaves }
    }
}

/// Adds a split of `parent` to `splits` and returns the index of the new pane.
fn add_split(
    splits: &mut Vec<PlannedSplit>,
    parent: PaneIndex,
    flag: TmuxSplitFlag,
    pct: TmuxPanePercent,
) -> (new: PaneIndex)
    ensures
        new == old(splits)@.len() + 1,
        final(splits)@ == old(splits)@.push(PlannedSplit { parent, new, flag, pct }),
{
    splits.push(PlannedSplit { parent, new: 0, flag, pct });
    let new: PaneIndex = splits.len();
    splits.set(new - 1, PlannedSplit { parent, new, flag, pct });
    new
}

/// Adds the splits and leaves of `node`, which stands at depth `depth` and is built in the pane
/// `current`.
fn walk(
    splits: &mut Vec<PlannedSplit>,
    leaves: &mut Vec<PlannedLeaf>,
    node: &LayoutNode,
    current: PaneIndex,
    vars: &TemplateVars,
    depth: usize,
) -> (r: Result<(), Error>)
    requires
        depth <= MAX_LAYOUT_DEPTH + 1,
        current <= old(splits)@.len(),
    ensures
        error::failure(r) == if depth + model::layout_depth(*node) > MAX_LAYOUT_DEPTH {
            Some(seq!["layout tree is too deeply nested (max depth: 64)"@])
        } else {
            None
        },
        r is Ok ==> {
            &&& split_views(final(splits)@) == split_views(old(splits)@) + splits_of(
                *node,
                current as int,
                1 + old(splits)@.len() as int,
            )
            &&& leaf_views(final(leaves)@) == leaf_views(old(leaves)@) + leaves_of(
                *node,
                current as int,
                1 + old(splits)@.len() as int,
                *vars,
            )
        },
    decreases node,
{
    if depth > MAX_LAYOUT_DEPTH {
        return Err(Error::msg("layout tree is too deeply nested (max depth: 64)".to_owned()));
    }
    match node {
        LayoutNode::Pane { command, focus, title, wait_for } => {
            let command: Option<PaneCommand> = match command {
                Some(c) => Some(
                    PaneCommand::new(template::resolve_vars(c.as_str(), vars).as_str())?,
                ),
                None => None,
            };
            let title: Option<PaneTitle> = match title {
                Some(t) => Some(
                    PaneTitle::new(template::resolve_vars(t.as_str(), vars).as_str())?,
                ),
                None => None,
            };
            let wait_for: Option<WaitFor> = match wait_for {
                Some(w) => Some(w.clone()),
                None => None,
            };
            leaves.push(PlannedLeaf { pane: current, command, title, focus: *focus, wait_for });
            proof {
                assert(split_views(splits@) == split_views(old(splits)@) + Seq::<
                    SplitStep,
                >::empty());
                assert(leaf_views(leaves@) == leaf_views(old(leaves)@) + leaves_of(
                    *node,
                    current as int,
                    1 + old(splits)@.len() as int,
                    *vars,
                ));
            }
        },
        LayoutNode::Split { direction, ratio, first, second } => {
            let ghost next = 1 + splits@.len() as int;
            let new: PaneIndex = add_split(
                splits,
                current,
                direction.tmux_split_flag(),
                ratio.tmux_second_pane_percent(),
            );
            let ghost step = SplitStep {
                parent: current as int,
                new: next,
                flag: model::split_flag(*direction),
                pct: ratio::percent(ratio@),
            };
            assert(split_views(splits@) == split_views(old(splits)@).push(step));
            walk(splits, leaves, first, current, vars, depth + 1)?;
            proof {
                lemma_numbers(**first, current as int, next + 1, *vars);
                assert(split_views(splits@).len() == splits@.len());
                assert(splits@.len() + 1 == next + 1 + split_count(**first));
            }
            walk(splits, leaves, second, new, vars, depth + 1)?;
            proof {
                assert(split_views(splits@) == split_views(old(splits)@) + splits_of(
                    *node,
                    current as int,
                    next,
                ));
                assert(leaf_views(leaves@) == leaf_views(old(leaves)@) + leaves_of(
                    *node,
                    current as int,
                    next,
                    *vars,
                ));
            }
        },
    }
    Ok(())
}

} // verus!
