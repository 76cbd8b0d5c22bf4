//! What holds of the plan of every layout tree: carried out, it gives the tree.

use crate::layout_plan;
use crate::layout_plan::{LeafStep, Plan, SplitStep};
use crate::model;
use crate::model::{Direction, LayoutNode, TmuxSplitFlag};
use crate::ordered_map::TemplateVars;
use crate::ratio;
use crate::ratio::SplitRatio;
use crate::template;
use vstd::prelude::*;

verus! {

// ─── What splits do to a window ──────────────────────────────────────────────

/// How a window is divided: it is one pane, or it has two parts, side by side or one above the
/// other, of which the second has the given size.
pub enum Division {
    Whole { pane: int },
    Parts { flag: TmuxSplitFlag, pct: int, first: Box<Division>, second: Box<Division> },
}

/// A window when `parent` has been split: it keeps its place as the first part of what it was, and
/// the new pane is the second part.
pub open spec fn after_split(d: Division, step: SplitStep) -> Division
    decreases d,
{
    match d {
        Division::Whole { pane } => if pane == step.parent {
            Division::Parts {
                flag: step.flag,
                pct: step.pct,
                first: Box::new(Division::Whole { pane }),
                second: Box::new(Division::Whole { pane: step.new }),
            }
        } else {
            d
        },
        Division::Parts { flag, pct, first, second } => Division::Parts {
            flag,
            pct,
            first: Box::new(after_split(*first, step)),
            second: Box::new(after_split(*second, step)),
        },
    }
}

/// A window when all splits have been made, one after the other.
pub open spec fn after_splits(d: Division, steps: Seq<SplitStep>) -> Division
    decreases steps.len(),
{
    if steps.len() == 0 {
        d
    } else {
        after_split(after_splits(d, steps.drop_last()), steps.last())
    }
}

/// The panes of a window, the first part of a division before the second.
pub open spec fn panes_of(d: Division) -> Seq<int>
    decreases d,
{
    match d {
        Division::Whole { pane } => seq![pane],
        Division::Parts { flag, pct, first, second } => panes_of(*first) + panes_of(*second),
    }
}

/// A window is divided as a layout tree says: where the tree has a split, the window has two parts,
/// which lie side by side exactly if the split is horizontal, and the second part has what the
/// ratio leaves over; where the tree has a pane, the window has one.
pub open spec fn divided_as(d: Division, node: LayoutNode) -> bool
    decreases node,
{
    match node {
        LayoutNode::Pane { .. } => d is Whole,
        LayoutNode::Split { direction, ratio, first, second } => match d {
            Division::Whole { .. } => false,
            Division::Parts { flag, pct, first: a, second: b } => {
                &&& flag is Horizontal <==> direction is Horizontal
                &&& pct == ratio::percent(ratio@)
                &&& divided_as(*a, *first)
                &&& divided_as(*b, *second)
            },
        },
    }
}

/// The panes of a layout tree, the first child of a split before the second.
pub open spec fn pane_nodes(node: LayoutNode) -> Seq<LayoutNode>
    decreases node,
{
    match node {
        LayoutNode::Pane { .. } => seq![node],
        LayoutNode::Split { direction, ratio, first, second } => pane_nodes(*first) + pane_nodes(
            *second,
        ),
    }
}

/// A step does to a pane what a node of the tree says.
pub open spec fn configures_as(leaf: LeafStep, node: LayoutNode, vars: TemplateVars) -> bool {
    match node {
        LayoutNode::Pane { command, focus, title, wait_for } => {
            &&& match command {
                Some(c) => leaf.command == Some(template::resolved(c@, vars)),
                None => leaf.command is None,
            }
            &&& match title {
                Some(t) => leaf.title == Some(template::resolved(t@, vars)),
                None => leaf.title is None,
            }
            &&& leaf.focus == focus
            &&& match wait_for {
                Some(w) => leaf.wait_for == Some((w.pattern@, w.timeout@)),
                None => leaf.wait_for is None,
            }
        },
        LayoutNode::Split { .. } => false,
    }
}

/// A plan gives a layout tree: its splits divide a window, which is the pane 0 at first, as the
/// tree says, and the pane at each place of the window is configured as the tree says for that
/// place.
pub open spec fn gives(plan: Plan, root: LayoutNode, vars: TemplateVars) -> bool {
    let built = after_splits(Division::Whole { pane: 0 }, plan.splits);
    &&& divided_as(built, root)
    &&& panes_of(built).len() == plan.leaves.len()
    &&& pane_nodes(root).len() == plan.leaves.len()
    &&& forall|i: int|
        0 <= i < plan.leaves.len() ==> (#[trigger] plan.leaves[i]).pane == panes_of(built)[i]
            && configures_as(plan.leaves[i], pane_nodes(root)[i], vars)
}

// ─── Proofs about splits ─────────────────────────────────────────────────────

/// Splits that are made in two goes.
proof fn lemma_splits_add(d: Division, a: Seq<SplitStep>, b: Seq<SplitStep>)
    ensures
        after_splits(d, a + b) == after_splits(after_splits(d, a), b),
    decreases b.len(),
{
    if b.len() == 0 {
        assert(a + b == a);
    } else {
        assert((a + b).drop_last() == a + b.drop_last());
        lemma_splits_add(d, a, b.drop_last());
    }
}

/// What is split in a window with two parts is split in its parts.
proof fn lemma_splits_of_parts(
    flag: TmuxSplitFlag,
    pct: int,
    first: Division,
    second: Division,
    steps: Seq<SplitStep>,
)
    ensures
        after_splits(
            (Division::Parts { flag, pct, first: Box::new(first), second: Box::new(second) }),
            steps,
        ) == (Division::Parts {
            flag,
            pct,
            first: Box::new(after_splits(first, steps)),
            second: Box::new(after_splits(second, steps)),
        }),
    decreases steps.len(),
{
    if steps.len() > 0 {
        lemma_splits_of_parts(flag, pct, first, second, steps.drop_last());
    }
}

/// A split of a pane that is not in a part leaves the part as it is.
proof fn lemma_split_elsewhere(d: Division, step: SplitStep)
    requires
        !panes_of(d).contains(step.parent),
    ensures
        after_split(d, step) == d,
    decreases d,
{
    match d {
        Division::Whole { pane } => {
            assert(panes_of(d)[0] == pane);
        },
        Division::Parts { flag, pct, first, second } => {
            let a = panes_of(*first);
            let b = panes_of(*second);
            assert forall|i: int| 0 <= i < a.len() implies #[trigger] a[i] != step.parent by {
                assert((a + b)[i] == a[i]);
            }
            assert forall|i: int| 0 <= i < b.len() implies #[trigger] b[i] != step.parent by {
                assert((a + b)[a.len() + i] == b[i]);
            }
            lemma_split_elsewhere(*first, step);
            lemma_split_elsewhere(*second, step);
        },
    }
}

proof fn lemma_splits_elsewhere(d: Division, steps: Seq<SplitStep>)
    requires
        forall|i: int| 0 <= i < steps.len() ==> !panes_of(d).contains((#[trigger] steps[i]).parent),
    ensures
        after_splits(d, steps) == d,
    decreases steps.len(),
{
    if steps.len() > 0 {
        let front = steps.drop_last();
        assert forall|i: int| 0 <= i < front.len() implies !panes_of(d).contains(
            (#[trigger] front[i]).parent,
        ) by {
            assert(front[i] == steps[i]);
        }
        lemma_splits_elsewhere(d, front);
        assert(!panes_of(d).contains(steps[steps.len() - 1].parent));
        lemma_split_elsewhere(d, steps.last());
    }
}

/// What is split for a subtree is a pane of the subtree.
proof fn lemma_parents(node: LayoutNode, current: int, next: int)
    requires
        0 <= current < next,
    ensures
        forall|i: int|
            0 <= i < layout_plan::splits_of(node, current, next).len() ==> layout_plan::in_subtree(
                (#[trigger] layout_plan::splits_of(node, current, next)[i]).parent,
                node,
                current,
                next,
            ),
    decreases node,
{
    if let LayoutNode::Split { direction, ratio, first, second } = node {
        let c = layout_plan::split_count(*first);
        let a = layout_plan::splits_of(*first, current, next + 1);
        let b = layout_plan::splits_of(*second, next, next + 1 + c);
        let all = layout_plan::splits_of(node, current, next);
        lemma_parents(*first, current, next + 1);
        lemma_parents(*second, next, next + 1 + c);
        assert forall|i: int| 0 <= i < all.len() implies layout_plan::in_subtree(
            (#[trigger] all[i]).parent,
            node,
            current,
            next,
        ) by {
            if i == 0 {
                assert(all[0].parent == current);
            } else if i < 1 + a.len() {
                assert(all[i] == a[i - 1]);
            } else {
                assert(all[i] == b[i - 1 - a.len()]);
            }
        }
    }
}

/// The pane at a place of a part, and the node at that place.
spec fn placed(
    d: Division,
    node: LayoutNode,
    current: int,
    next: int,
    vars: TemplateVars,
) -> bool {
    let leaves = layout_plan::leaves_of(node, current, next, vars);
    &&& divided_as(d, node)
    &&& panes_of(d).len() == leaves.len()
    &&& pane_nodes(node).len() == leaves.len()
    &&& forall|i: int|
        0 <= i < leaves.len() ==> (#[trigger] leaves[i]).pane == panes_of(d)[i] && configures_as(
            leaves[i],
            pane_nodes(node)[i],
            vars,
        )
}

proof fn lemma_panes_in_subtree(
    d: Division,
    node: LayoutNode,
    current: int,
    next: int,
    vars: TemplateVars,
)
    requires
        0 <= current < next,
        placed(d, node, current, next, vars),
    ensures
        forall|pane: int| #[trigger]
            panes_of(d).contains(pane) ==> layout_plan::in_subtree(pane, node, current, next),
{
    let leaves = layout_plan::leaves_of(node, current, next, vars);
    layout_plan::lemma_numbers(node, current, next, vars);
    assert forall|pane: int| #[trigger] panes_of(d).contains(pane) implies layout_plan::in_subtree(
        pane,
        node,
        current,
        next,
    ) by {
        let i = choose|i: int| 0 <= i < panes_of(d).len() && panes_of(d)[i] == pane;
        assert(leaves[i].pane == pane);
    }
}

proof fn lemma_subtree_is_built(node: LayoutNode, current: int, next: int, vars: TemplateVars)
    requires
        0 <= current < next,
    ensures
        placed(
            after_splits(
                Division::Whole { pane: current },
                layout_plan::splits_of(node, current, next),
            ),
            node,
            current,
            next,
            vars,
        ),
    decreases node,
{
    let start = Division::Whole { pane: current };
    let all = layout_plan::splits_of(node, current, next);
    let leaves = layout_plan::leaves_of(node, current, next, vars);
    match node {
        LayoutNode::Pane { command, focus, title, wait_for } => {
            assert(after_splits(start, all) == start);
            assert(leaves.len() == 1);
            assert(pane_nodes(node)[0] == node);
        },
        LayoutNode::Split { direction, ratio, first, second } => {
            let c = layout_plan::split_count(*first);
            let step = all[0];
            let a = layout_plan::splits_of(*first, current, next + 1);
            let b = layout_plan::splits_of(*second, next, next + 1 + c);
            let other = Division::Whole { pane: next };
            let halves = Division::Parts {
                flag: step.flag,
                pct: step.pct,
                first: Box::new(start),
                second: Box::new(other),
            };
            // The first step.
            assert(seq![step].drop_last() == Seq::<SplitStep>::empty());
            reveal_with_fuel(after_splits, 2);
            assert(after_splits(start, seq![step]) == halves);
            // The steps of the two children.
            assert(all == seq![step] + (a + b));
            lemma_splits_add(start, seq![step], a + b);
            lemma_splits_of_parts(step.flag, step.pct, start, other, a + b);
            lemma_splits_add(start, a, b);
            lemma_splits_add(other, a, b);
            lemma_subtree_is_built(*first, current, next + 1, vars);
            lemma_subtree_is_built(*second, next, next + 1 + c, vars);
            let x = after_splits(start, a);
            let y = after_splits(other, b);
            lemma_panes_in_subtree(x, *first, current, next + 1, vars);
            lemma_parents(*first, current, next + 1);
            lemma_parents(*second, next, next + 1 + c);
            assert forall|i: int| 0 <= i < b.len() implies !panes_of(x).contains(
                (#[trigger] b[i]).parent,
            ) by {
                assert(layout_plan::in_subtree(b[i].parent, *second, next, next + 1 + c));
            }
            lemma_splits_elsewhere(x, b);
            assert forall|i: int| 0 <= i < a.len() implies !panes_of(other).contains(
                (#[trigger] a[i]).parent,
            ) by {
                assert(layout_plan::in_subtree(a[i].parent, *first, current, next + 1));
            }
            lemma_splits_elsewhere(other, a);
            let built = after_splits(start, all);
            assert(built == (Division::Parts {
                flag: step.flag,
                pct: step.pct,
                first: Box::new(x),
                second: Box::new(y),
            }));
            // The leaves of the two children.
            let la = layout_plan::leaves_of(*first, current, next + 1, vars);
            let lb = layout_plan::leaves_of(*second, next, next + 1 + c, vars);
            assert(leaves == la + lb);
            assert forall|i: int| 0 <= i < leaves.len() implies (#[trigger] leaves[i]).pane
                == panes_of(built)[i] && configures_as(leaves[i], pane_nodes(node)[i], vars) by {
                if i < la.len() {
                    assert(leaves[i] == la[i]);
                } else {
                    assert(leaves[i] == lb[i - la.len()]);
                }
            }
        },
    }
}

// ─── Laws ────────────────────────────────────────────────────────────────────

/// The plan of a layout tree gives the tree: when its splits are made one after the other in a
/// window that is one pane, the window is divided as the tree says, and each pane is configured as
/// the tree says for its place.
pub proof fn law_plan_gives_the_tree(root: LayoutNode, vars: TemplateVars)
    ensures
        gives(layout_plan::plan_of(root, vars), root, vars),
{
    lemma_subtree_is_built(root, 0, 1, vars);
}

/// What is split for a child of a split is a pane of that child: the first child is built in the
/// pane that was split, the second one in the new pane, and neither touches the other.
pub proof fn law_children_are_built_apart(
    direction: Direction,
    ratio: SplitRatio,
    first: LayoutNode,
    second: LayoutNode,
    vars: TemplateVars,
)
    ensures
        ({
            let root = LayoutNode::Split {
                direction,
                ratio,
                first: Box::new(first),
                second: Box::new(second),
            };
            let splits = layout_plan::plan_of(root, vars).splits;
            let n = pane_nodes(first).len();
            let m = pane_nodes(second).len();
            &&& splits.len() == n + m - 1
            &&& splits[0].parent == 0 && splits[0].new == 1
            &&& forall|i: int|
                1 <= i < n ==> {
                    &&& (#[trigger] splits[i]).parent == 0 || 2 <= splits[i].parent <= n
                    &&& 2 <= splits[i].new <= n
                }
            &&& forall|i: int|
                n <= i < n + m - 1 ==> {
                    &&& (#[trigger] splits[i]).parent == 1 || n < splits[i].parent < n + m
                    &&& n < splits[i].new < n + m
                }
        }),
{
    let root = LayoutNode::Split {
        direction,
        ratio,
        first: Box::new(first),
        second: Box::new(second),
    };
    let c = layout_plan::split_count(first);
    let splits = layout_plan::plan_of(root, vars).splits;
    let a = layout_plan::splits_of(first, 0, 2);
    let b = layout_plan::splits_of(second, 1, (2 + c) as int);
    lemma_subtree_is_built(first, 0, 2, vars);
    lemma_subtree_is_built(second, 1, (2 + c) as int, vars);
    layout_plan::lemma_numbers(first, 0, 2, vars);
    layout_plan::lemma_numbers(second, 1, (2 + c) as int, vars);
    lemma_parents(first, 0, 2);
    lemma_parents(second, 1, (2 + c) as int);
    let n = pane_nodes(first).len();
    let m = pane_nodes(second).len();
    assert forall|i: int| 1 <= i < n implies ((#[trigger] splits[i]).parent == 0 || 2
        <= splits[i].parent <= n) && 2 <= splits[i].new <= n by {
        assert(splits[i] == a[i - 1]);
    }
    assert forall|i: int| n <= i < n + m - 1 implies ((#[trigger] splits[i]).parent == 1 || n
        < splits[i].parent < n + m) && n < splits[i].new < n + m by {
        assert(splits[i] == b[i - n]);
    }
}

/// The focus goes to the last pane that asks for it, and to none if none asks.
pub proof fn law_last_pane_that_asks_gets_the_focus(leaves: Seq<LeafStep>)
    ensures
        match layout_plan::focused(leaves) {
            Some(pane) => exists|i: int|
                #![trigger leaves[i]]
                0 <= i < leaves.len() && leaves[i].focus && leaves[i].pane == pane && forall|j: int|
                    i < j < leaves.len() ==> !(#[trigger] leaves[j]).focus,
            None => forall|i: int| 0 <= i < leaves.len() ==> !(#[trigger] leaves[i]).focus,
        },
    decreases leaves.len(),
{
    if leaves.len() > 0 {
        let front = leaves.drop_last();
        let last = leaves.len() - 1;
        assert(leaves[last] == leaves.last());
        if !leaves.last().focus {
            law_last_pane_that_asks_gets_the_focus(front);
            assert(forall|i: int| 0 <= i < front.len() ==> #[trigger] leaves[i] == front[i]);
            if let Some(pane) = layout_plan::focused(front) {
                let i = choose|i: int|
                    #![trigger front[i]]
                    0 <= i < front.len() && front[i].focus && front[i].pane == pane
                        && forall|j: int| i < j < front.len() ==> !(#[trigger] front[j]).focus;
                assert(leaves[i].focus && leaves[i].pane == pane);
            }
        }
    }
}

/// A tree with a node deeper than 64 has no plan, and every other tree has one.
pub proof fn law_trees_that_are_too_deep(root: LayoutNode)
    ensures
        layout_plan::depth_error(root) == (if model::layout_depth(root) > 64 {
            Some(seq!["layout tree is too deeply nested (max depth: 64)"@])
        } else {
            None
        }),
{
}

} // verus!
