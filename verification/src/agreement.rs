//! The two ways to build a session agree.
//!
//! The steps that build a window are the same for the compiler and for the executor: the script
//! holds their lines, and the backend is asked for them, in the same order and with the same
//! values. What a pane variable is in the script, the id of the pane is in the requests.

use crate::backend;
use crate::backend::{Call, Event};
use crate::compiler;
use crate::layout_plan;
use crate::layout_plan::{LeafStep, SplitStep};
use crate::model;
use crate::model::{Session, Window};
use crate::protocol;
use crate::protocol_laws;
use crate::template;
use crate::template::BuiltinVar;
use crate::text;
use crate::text::Text;
use crate::words::{TmuxOptionName, TmuxOptionValue};
use vstd::prelude::*;

verus! {

// ─── Steps ───────────────────────────────────────────────────────────────────

/// One step of building a window. Panes are meant by their indices in the plan.
pub enum Step {
    /// The window comes into being, with its initial pane.
    Create,
    SetOption { key: Text, value: Text },
    Split { split: SplitStep },
    Type { pane: int, keys: Text },
    Wait { pane: int, pattern: Text, timeout: u32 },
    SetTitle { pane: int, title: Text },
    SetWindowOption { key: Text, value: Text },
    ApplyPreset { preset: Text },
    Focus { pane: int },
}

/// The steps that configure a pane.
pub open spec fn leaf_steps(leaf: LeafStep) -> Seq<Step> {
    (match leaf.command {
        Some(keys) => seq![Step::Type { pane: leaf.pane, keys }],
        None => Seq::empty(),
    }) + (match leaf.wait_for {
        Some((pattern, timeout)) => seq![Step::Wait { pane: leaf.pane, pattern, timeout }],
        None => Seq::empty(),
    }) + (match leaf.title {
        Some(title) => seq![Step::SetTitle { pane: leaf.pane, title }],
        None => Seq::empty(),
    })
}

/// The steps that configure panes, one pane after the other.
pub open spec fn leaves_steps(leaves: Seq<LeafStep>) -> Seq<Step>
    decreases leaves.len(),
{
    if leaves.len() == 0 {
        Seq::empty()
    } else {
        leaves_steps(leaves.drop_last()) + leaf_steps(leaves.last())
    }
}

/// The steps that set session options.
pub open spec fn option_steps(entries: Seq<(TmuxOptionName, TmuxOptionValue)>) -> Seq<Step> {
    entries.map_values(
        |e: (TmuxOptionName, TmuxOptionValue)| Step::SetOption { key: e.0@, value: e.1@ },
    )
}

/// The steps that split panes.
pub open spec fn split_steps(splits: Seq<SplitStep>) -> Seq<Step> {
    splits.map_values(|split: SplitStep| Step::Split { split })
}

/// The steps that set window options.
pub open spec fn window_option_steps(entries: Seq<(TmuxOptionName, TmuxOptionValue)>) -> Seq<Step> {
    entries.map_values(
        |e: (TmuxOptionName, TmuxOptionValue)| Step::SetWindowOption { key: e.0@, value: e.1@ },
    )
}

/// The step that applies a layout preset.
pub open spec fn preset_steps(window: Window) -> Seq<Step> {
    match window.select_layout {
        Some(preset) => seq![Step::ApplyPreset { preset: preset@ }],
        None => Seq::empty(),
    }
}

/// The step that moves the focus.
pub open spec fn focus_steps(leaves: Seq<LeafStep>) -> Seq<Step> {
    match layout_plan::focused(leaves) {
        Some(pane) => seq![Step::Focus { pane }],
        None => Seq::empty(),
    }
}

/// The steps that build the window at `index`.
pub open spec fn window_steps(session: Session, index: int) -> Seq<Step> {
    let window = session.windows@[index];
    let plan = layout_plan::plan_of(window.layout, session.vars);
    seq![Step::Create] + option_steps(protocol::options_with(session, index)) + split_steps(
        plan.splits,
    ) + leaves_steps(plan.leaves) + window_option_steps(window.options@) + preset_steps(window)
        + focus_steps(plan.leaves)
}

// ─── Steps as lines ──────────────────────────────────────────────────────────

/// What the lines of a window have in common: the working directory as a shell word, and the
/// number of panes of the windows before it.
pub struct LineContext {
    pub session: Session,
    pub index: int,
    pub base: int,
}

/// The lines of a step in the script.
pub open spec fn step_lines(ctx: LineContext, step: Step) -> Seq<Text> {
    let window = ctx.session.windows@[ctx.index];
    let root = template::word(model::root_text(ctx.session, window), ctx.session.vars);
    let env = model::pane_env(ctx.session, window);
    match step {
        Step::Create => seq![
            compiler::initial_line(ctx.index == 0, ctx.base, root, window.name@, env),
        ],
        Step::SetOption { key, value } => seq![
            "tmux set-option -t \"$SESSION\" -- "@ + template::quoted(key) + " "@
                + template::quoted(value),
        ],
        Step::Split { split } => seq![compiler::split_line(split, ctx.base, root, env)],
        Step::Type { pane, keys } => compiler::command_lines(ctx.base + pane, Some(keys)),
        Step::Wait { pane, pattern, timeout } => compiler::wait_lines(
            ctx.base + pane,
            Some((pattern, timeout)),
        ),
        Step::SetTitle { pane, title } => compiler::title_lines(ctx.base + pane, Some(title)),
        Step::SetWindowOption { key, value } => seq![
            "tmux set-window-option -t \"$SESSION:\""@ + template::quoted(window.name@) + "  -- "@
                + template::quoted(key) + " "@ + template::quoted(value),
        ],
        Step::ApplyPreset { preset } => seq![
            "tmux select-layout -t \"$SESSION:\""@ + template::quoted(window.name@) + "  -- "@
                + template::quoted(preset),
        ],
        Step::Focus { pane } => seq![
            "tmux select-pane -t "@ + compiler::pane_ref(ctx.base + pane),
        ],
    }
}

/// The lines of a list of steps.
pub open spec fn steps_lines(ctx: LineContext, steps: Seq<Step>) -> Seq<Text>
    decreases steps.len(),
{
    if steps.len() == 0 {
        Seq::empty()
    } else {
        steps_lines(ctx, steps.drop_last()) + step_lines(ctx, steps.last())
    }
}

proof fn lemma_lines_add(ctx: LineContext, a: Seq<Step>, b: Seq<Step>)
    ensures
        steps_lines(ctx, a + b) == steps_lines(ctx, a) + steps_lines(ctx, b),
    decreases b.len(),
{
    if b.len() == 0 {
        assert(a + b == a);
        assert(steps_lines(ctx, a) + Seq::<Text>::empty() == steps_lines(ctx, a));
    } else {
        assert((a + b).drop_last() == a + b.drop_last());
        lemma_lines_add(ctx, a, b.drop_last());
        assert(steps_lines(ctx, a) + steps_lines(ctx, b.drop_last()) + step_lines(ctx, b.last())
            == steps_lines(ctx, a) + (steps_lines(ctx, b.drop_last()) + step_lines(
            ctx,
            b.last(),
        )));
    }
}

proof fn lemma_lines_one(ctx: LineContext, step: Step)
    ensures
        steps_lines(ctx, seq![step]) == step_lines(ctx, step),
{
    assert(seq![step].drop_last() == Seq::<Step>::empty());
    reveal_with_fuel(steps_lines, 2);
    assert(Seq::<Text>::empty() + step_lines(ctx, step) == step_lines(ctx, step));
}

proof fn lemma_lines_none(ctx: LineContext)
    ensures
        steps_lines(ctx, Seq::empty()) == Seq::<Text>::empty(),
{
}

proof fn lemma_option_lines(ctx: LineContext, entries: Seq<(TmuxOptionName, TmuxOptionValue)>)
    ensures
        steps_lines(ctx, option_steps(entries)) == entries.map_values(
            |e: (TmuxOptionName, TmuxOptionValue)| compiler::option_line(e),
        ),
    decreases entries.len(),
{
    let steps = option_steps(entries);
    let lines = entries.map_values(
        |e: (TmuxOptionName, TmuxOptionValue)| compiler::option_line(e),
    );
    if entries.len() > 0 {
        let front = entries.drop_last();
        lemma_option_lines(ctx, front);
        assert(steps.drop_last() == option_steps(front));
        assert(lines == front.map_values(
            |e: (TmuxOptionName, TmuxOptionValue)| compiler::option_line(e),
        ) + seq![compiler::option_line(entries.last())]);
    } else {
        assert(lines == Seq::<Text>::empty());
    }
}

proof fn lemma_split_lines(ctx: LineContext, splits: Seq<SplitStep>)
    ensures
        steps_lines(ctx, split_steps(splits)) == compiler::split_lines(
            splits,
            ctx.base,
            template::word(
                model::root_text(ctx.session, ctx.session.windows@[ctx.index]),
                ctx.session.vars,
            ),
            model::pane_env(ctx.session, ctx.session.windows@[ctx.index]),
        ),
    decreases splits.len(),
{
    let window = ctx.session.windows@[ctx.index];
    let root = template::word(model::root_text(ctx.session, window), ctx.session.vars);
    let env = model::pane_env(ctx.session, window);
    let steps = split_steps(splits);
    let lines = compiler::split_lines(splits, ctx.base, root, env);
    if splits.len() > 0 {
        let front = splits.drop_last();
        lemma_split_lines(ctx, front);
        assert(steps.drop_last() == split_steps(front));
        assert(lines == compiler::split_lines(front, ctx.base, root, env) + seq![
            compiler::split_line(splits.last(), ctx.base, root, env),
        ]);
    } else {
        assert(lines == Seq::<Text>::empty());
    }
}

proof fn lemma_leaf_lines(ctx: LineContext, leaf: LeafStep)
    ensures
        steps_lines(ctx, leaf_steps(leaf)) == compiler::leaf_lines(leaf, ctx.base),
{
    let a: Seq<Step> = match leaf.command {
        Some(keys) => seq![Step::Type { pane: leaf.pane, keys }],
        None => Seq::empty(),
    };
    let b: Seq<Step> = match leaf.wait_for {
        Some((pattern, timeout)) => seq![Step::Wait { pane: leaf.pane, pattern, timeout }],
        None => Seq::empty(),
    };
    let c: Seq<Step> = match leaf.title {
        Some(title) => seq![Step::SetTitle { pane: leaf.pane, title }],
        None => Seq::empty(),
    };
    lemma_lines_none(ctx);
    if a.len() > 0 {
        lemma_lines_one(ctx, a[0]);
    }
    if b.len() > 0 {
        lemma_lines_one(ctx, b[0]);
    }
    if c.len() > 0 {
        lemma_lines_one(ctx, c[0]);
    }
    lemma_lines_add(ctx, a + b, c);
    lemma_lines_add(ctx, a, b);
}

proof fn lemma_leaves_lines(ctx: LineContext, leaves: Seq<LeafStep>)
    ensures
        steps_lines(ctx, leaves_steps(leaves)) == compiler::leaves_lines(leaves, ctx.base),
    decreases leaves.len(),
{
    if leaves.len() > 0 {
        lemma_leaves_lines(ctx, leaves.drop_last());
        lemma_leaf_lines(ctx, leaves.last());
        lemma_lines_add(ctx, leaves_steps(leaves.drop_last()), leaf_steps(leaves.last()));
    }
}

proof fn lemma_window_option_lines(
    ctx: LineContext,
    entries: Seq<(TmuxOptionName, TmuxOptionValue)>,
)
    ensures
        steps_lines(ctx, window_option_steps(entries)) == entries.map_values(
            |e: (TmuxOptionName, TmuxOptionValue)|
                compiler::window_option_line(ctx.session.windows@[ctx.index].name@, e),
        ),
    decreases entries.len(),
{
    let name = ctx.session.windows@[ctx.index].name@;
    let steps = window_option_steps(entries);
    let lines = entries.map_values(
        |e: (TmuxOptionName, TmuxOptionValue)| compiler::window_option_line(name, e),
    );
    if entries.len() > 0 {
        let front = entries.drop_last();
        lemma_window_option_lines(ctx, front);
        assert(steps.drop_last() == window_option_steps(front));
        assert(lines == front.map_values(
            |e: (TmuxOptionName, TmuxOptionValue)| compiler::window_option_line(name, e),
        ) + seq![compiler::window_option_line(name, entries.last())]);
    } else {
        assert(lines == Seq::<Text>::empty());
    }
}

proof fn lemma_regroup(
    h: Seq<Text>,
    a: Seq<Text>,
    b: Seq<Text>,
    c: Seq<Text>,
    d: Seq<Text>,
    e: Seq<Text>,
    f: Seq<Text>,
    g: Seq<Text>,
    t: Seq<Text>,
)
    ensures
        (h + a + b + c) + (d + e + f + g + t) == h + (a + b + c + d + e + f + g) + t,
{
    assert((h + a + b + c) + (d + e + f + g + t) =~= h + (a + b + c + d + e + f + g) + t);
}

/// The script of a window is a comment, the lines of the steps that build the window, and an empty
/// line.
pub proof fn law_script_holds_the_steps(session: Session, index: int, base: int)
    ensures
        compiler::window_lines(session, index, base) == seq![
            "# ── window "@ + text::decimal(index as nat) + ": "@ + session.windows@[index].name@
                + " ──"@,
        ] + steps_lines(
            (LineContext { session, index, base }),
            window_steps(session, index),
        ) + seq![""@],
{
    let ctx = LineContext { session, index, base };
    let window = session.windows@[index];
    let plan = layout_plan::plan_of(window.layout, session.vars);
    let root = template::word(model::root_text(session, window), session.vars);
    let env = model::pane_env(session, window);
    let options = protocol::options_with(session, index);
    let a = seq![Step::Create];
    let b = option_steps(options);
    let c = split_steps(plan.splits);
    let d = leaves_steps(plan.leaves);
    let e = window_option_steps(window.options@);
    let f = preset_steps(window);
    let g = focus_steps(plan.leaves);
    lemma_lines_none(ctx);
    lemma_lines_one(ctx, Step::Create);
    lemma_option_lines(ctx, options);
    lemma_split_lines(ctx, plan.splits);
    lemma_leaves_lines(ctx, plan.leaves);
    lemma_window_option_lines(ctx, window.options@);
    if f.len() > 0 {
        lemma_lines_one(ctx, f[0]);
    }
    if g.len() > 0 {
        lemma_lines_one(ctx, g[0]);
    }
    lemma_lines_add(ctx, a, b);
    lemma_lines_add(ctx, a + b, c);
    lemma_lines_add(ctx, a + b + c, d);
    lemma_lines_add(ctx, a + b + c + d, e);
    lemma_lines_add(ctx, a + b + c + d + e, f);
    lemma_lines_add(ctx, a + b + c + d + e + f, g);
    let header = "# ── window "@ + text::decimal(index as nat) + ": "@ + window.name@ + " ──"@;
    let first = compiler::initial_line(index == 0, base, root, window.name@, env);
    assert(steps_lines(ctx, a) == seq![first]);
    assert(steps_lines(ctx, b) == (if index == 0 {
        compiler::option_lines(session.options)
    } else {
        Seq::empty()
    }));
    assert(steps_lines(ctx, e) == compiler::window_option_lines(window));
    assert(steps_lines(ctx, f) == compiler::preset_lines(window));
    assert(steps_lines(ctx, g) == compiler::focus_lines(plan.leaves, base));
    assert(seq![header, first] == seq![header] + seq![first]);
    lemma_regroup(
        seq![header],
        seq![first],
        steps_lines(ctx, b),
        steps_lines(ctx, c),
        steps_lines(ctx, d),
        steps_lines(ctx, e),
        steps_lines(ctx, f),
        steps_lines(ctx, g),
        seq![""@],
    );
}

// ─── Steps as requests ───────────────────────────────────────────────────────

/// A request that changes something. Looking at a pane, letting time go by and asking for values
/// do not.
pub open spec fn changes(call: Call) -> bool {
    !(call is CapturePane) && !(call is Pause) && !(call is BuiltinValue)
}

/// The requests from `p` up to `q` that change something.
pub open spec fn changing_calls(h: Seq<Event>, p: int, q: int) -> Seq<Call>
    decreases q - p,
{
    if q <= p {
        Seq::empty()
    } else if changes(h[q - 1].call) {
        changing_calls(h, p, q - 1).push(h[q - 1].call)
    } else {
        changing_calls(h, p, q - 1)
    }
}

/// The requests of two stretches of a history.
pub proof fn lemma_calls_add(h: Seq<Event>, p: int, q: int, r: int)
    requires
        p <= q <= r,
    ensures
        changing_calls(h, p, r) == changing_calls(h, p, q) + changing_calls(h, q, r),
    decreases r - q,
{
    if q < r {
        lemma_calls_add(h, p, q, r - 1);
        if changes(h[r - 1].call) {
            assert((changing_calls(h, p, q) + changing_calls(h, q, r - 1)).push(h[r - 1].call)
                == changing_calls(h, p, q) + changing_calls(h, q, r - 1).push(h[r - 1].call));
        }
    } else {
        assert(changing_calls(h, p, q) + Seq::<Call>::empty() == changing_calls(h, p, q));
    }
}

/// The request of a single event.
pub proof fn lemma_calls_one(h: Seq<Event>, p: int)
    ensures
        changing_calls(h, p, p + 1) == (if changes(h[p].call) {
            seq![h[p].call]
        } else {
            Seq::empty()
        }),
{
    reveal_with_fuel(changing_calls, 2);
}

/// The panes that are created in two stretches of a history.
pub proof fn lemma_created_add(h: Seq<Event>, p: int, q: int, r: int)
    requires
        0 <= p <= q <= r <= h.len(),
    ensures
        backend::created_panes(h.subrange(p, r)) == backend::created_panes(h.subrange(p, q))
            + backend::created_panes(h.subrange(q, r)),
    decreases r - q,
{
    let a = backend::created_panes(h.subrange(p, q));
    if q < r {
        lemma_created_add(h, p, q, r - 1);
        assert(h.subrange(p, r).drop_last() == h.subrange(p, r - 1));
        assert(h.subrange(q, r).drop_last() == h.subrange(q, r - 1));
        assert(h.subrange(p, r).last() == h.subrange(q, r).last());
        let b = backend::created_panes(h.subrange(q, r - 1));
        let id = backend::reply_text(h[r - 1].reply);
        assert((a + b).push(id) == a + b.push(id));
    } else {
        assert(h.subrange(q, r) == Seq::<Event>::empty());
        assert(a + Seq::<Text>::empty() == a);
    }
}

/// No pane is created where no request does so.
proof fn lemma_created_none(h: Seq<Event>, p: int, q: int, f: spec_fn(Call) -> bool)
    requires
        protocol_laws::all_calls(h, p, q, f),
        forall|c: Call| #[trigger] f(c) ==> !backend::creates_pane(c),
    ensures
        backend::created_panes(h.subrange(p, q)) == Seq::<Text>::empty(),
    decreases q - p,
{
    if p < q {
        lemma_created_none(h, p, q - 1, f);
        assert(h.subrange(p, q).drop_last() == h.subrange(p, q - 1));
        assert(f(h[q - 1].call));
    }
}

/// The pane that a single event creates.
pub proof fn lemma_created_one(h: Seq<Event>, p: int)
    requires
        0 <= p < h.len(),
    ensures
        backend::created_panes(h.subrange(p, p + 1)) == (if backend::creates_pane(h[p].call) {
            seq![backend::reply_text(h[p].reply)]
        } else {
            Seq::empty()
        }),
{
    assert(h.subrange(p, p + 1).drop_last() == Seq::<Event>::empty());
    reveal_with_fuel(backend::created_panes, 2);
}

/// What the requests for a window have in common: the name of the session, the working directory
/// and the ids of the panes by their indices in the plan.
pub struct CallContext {
    pub session: Session,
    pub name: Text,
    pub index: int,
    pub root: Text,
    pub panes: Seq<Text>,
}

/// The request that carries out a step; none for waiting, which changes nothing.
pub open spec fn step_calls(ctx: CallContext, step: Step) -> Seq<Call> {
    let window = ctx.session.windows@[ctx.index];
    match step {
        Step::Create => seq![
            protocol::creation_call(ctx.session, ctx.name, ctx.index, ctx.root),
        ],
        Step::SetOption { key, value } => seq![Call::SetOption { session: ctx.name, key, value }],
        Step::Split { split } => seq![
            Call::SplitWindow {
                pane: ctx.panes[split.parent],
                flag: split.flag,
                pct: split.pct,
                root: ctx.root,
                env: model::pane_env(ctx.session, window),
            },
        ],
        Step::Type { pane, keys } => seq![Call::SendKeys { pane: ctx.panes[pane], keys }],
        Step::Wait { pane, pattern, timeout } => Seq::empty(),
        Step::SetTitle { pane, title } => seq![
            Call::SetPaneTitle { pane: ctx.panes[pane], title },
        ],
        Step::SetWindowOption { key, value } => seq![
            Call::SetWindowOption { session: ctx.name, window: window.name@, key, value },
        ],
        Step::ApplyPreset { preset } => seq![
            Call::SelectLayout { session: ctx.name, window: window.name@, preset },
        ],
        Step::Focus { pane } => seq![Call::SelectPane { pane: ctx.panes[pane] }],
    }
}

/// The requests that carry out a list of steps.
pub open spec fn steps_calls(ctx: CallContext, steps: Seq<Step>) -> Seq<Call>
    decreases steps.len(),
{
    if steps.len() == 0 {
        Seq::empty()
    } else {
        steps_calls(ctx, steps.drop_last()) + step_calls(ctx, steps.last())
    }
}

proof fn lemma_steps_add(ctx: CallContext, a: Seq<Step>, b: Seq<Step>)
    ensures
        steps_calls(ctx, a + b) == steps_calls(ctx, a) + steps_calls(ctx, b),
    decreases b.len(),
{
    if b.len() == 0 {
        assert(a + b == a);
        assert(steps_calls(ctx, a) + Seq::<Call>::empty() == steps_calls(ctx, a));
    } else {
        assert((a + b).drop_last() == a + b.drop_last());
        lemma_steps_add(ctx, a, b.drop_last());
        assert(steps_calls(ctx, a) + steps_calls(ctx, b.drop_last()) + step_calls(ctx, b.last())
            == steps_calls(ctx, a) + (steps_calls(ctx, b.drop_last()) + step_calls(
            ctx,
            b.last(),
        )));
    }
}

proof fn lemma_steps_one(ctx: CallContext, step: Step)
    ensures
        steps_calls(ctx, seq![step]) == step_calls(ctx, step),
{
    assert(seq![step].drop_last() == Seq::<Step>::empty());
    reveal_with_fuel(steps_calls, 2);
    assert(Seq::<Call>::empty() + step_calls(ctx, step) == step_calls(ctx, step));
}

proof fn lemma_steps_none(ctx: CallContext)
    ensures
        steps_calls(ctx, Seq::empty()) == Seq::<Call>::empty(),
{
}

/// The first step of a list, then the others.
proof fn lemma_steps_front(ctx: CallContext, first: Step, rest: Seq<Step>)
    ensures
        steps_calls(ctx, seq![first] + rest) == step_calls(ctx, first) + steps_calls(ctx, rest),
{
    lemma_steps_add(ctx, seq![first], rest);
    lemma_steps_one(ctx, first);
}

proof fn lemma_builtin_calls(h: Seq<Event>, p: int, vars: Seq<BuiltinVar>, known: Seq<Text>)
    requires
        0 <= p <= h.len(),
        protocol::builtin_values(h, p, vars, known) is Some,
    ensures
        p <= protocol::end(protocol::builtin_values(h, p, vars, known)) <= h.len(),
        changing_calls(h, p, protocol::end(protocol::builtin_values(h, p, vars, known))) == Seq::<
            Call,
        >::empty(),
    decreases vars.len(),
{
    if vars.len() > 0 {
        lemma_calls_one(h, p);
        if let Some((q, Ok(value))) = protocol::ask(h, p, Call::BuiltinValue { var: vars[0] }) {
            lemma_builtin_calls(h, q, vars.skip(1), known.push(value));
            let end = protocol::end(protocol::builtin_values(h, p, vars, known));
            lemma_calls_add(h, p, q, end);
            assert(Seq::<Call>::empty() + Seq::<Call>::empty() == Seq::<Call>::empty());
        }
    }
}

proof fn lemma_option_calls(
    h: Seq<Event>,
    p: int,
    ctx: CallContext,
    entries: Seq<(TmuxOptionName, TmuxOptionValue)>,
)
    requires
        0 <= p <= h.len(),
        protocol::set_options(h, p, ctx.name, entries) matches Some((_, Ok(_))),
    ensures
        p <= protocol::end(protocol::set_options(h, p, ctx.name, entries)) <= h.len(),
        changing_calls(h, p, protocol::end(protocol::set_options(h, p, ctx.name, entries)))
            == steps_calls(ctx, option_steps(entries)),
    decreases entries.len(),
{
    if entries.len() > 0 {
        let rest = entries.skip(1);
        let end = protocol::end(protocol::set_options(h, p, ctx.name, entries));
        lemma_option_calls(h, p + 1, ctx, rest);
        lemma_calls_one(h, p);
        lemma_calls_add(h, p, p + 1, end);
        let first = Step::SetOption { key: entries[0].0@, value: entries[0].1@ };
        assert(option_steps(entries) == seq![first] + option_steps(rest));
        lemma_steps_front(ctx, first, option_steps(rest));
    }
}

proof fn lemma_window_option_calls(
    h: Seq<Event>,
    p: int,
    ctx: CallContext,
    entries: Seq<(TmuxOptionName, TmuxOptionValue)>,
)
    requires
        0 <= p <= h.len(),
        protocol::set_window_options(
            h,
            p,
            ctx.name,
            ctx.session.windows@[ctx.index].name@,
            entries,
        ) matches Some((_, Ok(_))),
    ensures
        p <= protocol::end(
            protocol::set_window_options(
                h,
                p,
                ctx.name,
                ctx.session.windows@[ctx.index].name@,
                entries,
            ),
        ) <= h.len(),
        changing_calls(
            h,
            p,
            protocol::end(
                protocol::set_window_options(
                    h,
                    p,
                    ctx.name,
                    ctx.session.windows@[ctx.index].name@,
                    entries,
                ),
            ),
        ) == steps_calls(ctx, window_option_steps(entries)),
    decreases entries.len(),
{
    let window = ctx.session.windows@[ctx.index].name@;
    if entries.len() > 0 {
        let rest = entries.skip(1);
        let end = protocol::end(
            protocol::set_window_options(h, p, ctx.name, window, entries),
        );
        lemma_window_option_calls(h, p + 1, ctx, rest);
        lemma_calls_one(h, p);
        lemma_calls_add(h, p, p + 1, end);
        let first = Step::SetWindowOption { key: entries[0].0@, value: entries[0].1@ };
        assert(window_option_steps(entries) == seq![first] + window_option_steps(rest));
        lemma_steps_front(ctx, first, window_option_steps(rest));
    }
}

/// Splits are asked for as the plan has them. The ids that are known and those that come back are
/// the panes of the context.
proof fn lemma_split_calls(
    h: Seq<Event>,
    p: int,
    ctx: CallContext,
    splits: Seq<SplitStep>,
    known: Seq<Text>,
)
    requires
        0 <= p <= h.len(),
        protocol::make_splits(
            h,
            p,
            splits,
            known,
            ctx.root,
            model::pane_env(ctx.session, ctx.session.windows@[ctx.index]),
        ) matches Some((_, Ok(panes))) && panes == ctx.panes,
        forall|k: int|
            0 <= k < splits.len() ==> 0 <= (#[trigger] splits[k]).parent < known.len() + k,
    ensures
        p <= protocol::end(
            protocol::make_splits(
                h,
                p,
                splits,
                known,
                ctx.root,
                model::pane_env(ctx.session, ctx.session.windows@[ctx.index]),
            ),
        ) <= h.len(),
        changing_calls(
            h,
            p,
            protocol::end(
                protocol::make_splits(
                    h,
                    p,
                    splits,
                    known,
                    ctx.root,
                    model::pane_env(ctx.session, ctx.session.windows@[ctx.index]),
                ),
            ),
        ) == steps_calls(ctx, split_steps(splits)),
        ctx.panes.len() == known.len() + splits.len(),
        forall|k: int| 0 <= k < known.len() ==> #[trigger] ctx.panes[k] == known[k],
        ctx.panes == known + backend::created_panes(
            h.subrange(
                p,
                protocol::end(
                    protocol::make_splits(
                        h,
                        p,
                        splits,
                        known,
                        ctx.root,
                        model::pane_env(ctx.session, ctx.session.windows@[ctx.index]),
                    ),
                ),
            ),
        ),
    decreases splits.len(),
{
    let env = model::pane_env(ctx.session, ctx.session.windows@[ctx.index]);
    assert(h.subrange(p, p) == Seq::<Event>::empty());
    if splits.len() > 0 {
        let rest = splits.skip(1);
        let end = protocol::end(protocol::make_splits(h, p, splits, known, ctx.root, env));
        let call = Call::SplitWindow {
            pane: known[splits[0].parent],
            flag: splits[0].flag,
            pct: splits[0].pct,
            root: ctx.root,
            env,
        };
        if let Some((q, Ok(pane))) = protocol::ask(h, p, call) {
            assert forall|k: int| 0 <= k < rest.len() implies 0 <= (#[trigger] rest[k]).parent
                < known.push(pane).len() + k by {
                assert(rest[k] == splits[k + 1]);
            }
            lemma_split_calls(h, q, ctx, rest, known.push(pane));
            assert forall|k: int| 0 <= k < known.len() implies #[trigger] ctx.panes[k]
                == known[k] by {
                assert(known.push(pane)[k] == known[k]);
            }
            lemma_created_one(h, p);
            lemma_created_add(h, p, q, end);
            assert(known.push(pane) + backend::created_panes(h.subrange(q, end)) == known + (seq![
                pane,
            ] + backend::created_panes(h.subrange(q, end))));
            lemma_calls_one(h, p);
            lemma_calls_add(h, p, q, end);
            let first = Step::Split { split: splits[0] };
            assert(split_steps(splits) == seq![first] + split_steps(rest));
            lemma_steps_front(ctx, first, split_steps(rest));
        }
    }
}

proof fn lemma_await_calls(
    h: Seq<Event>,
    p: int,
    pane: Text,
    pattern: Text,
    timeout: nat,
    left: nat,
)
    requires
        0 <= p <= h.len(),
        protocol::await_pattern(h, p, pane, pattern, timeout, left) is Some,
    ensures
        p <= protocol::end(protocol::await_pattern(h, p, pane, pattern, timeout, left)) <= h.len(),
        changing_calls(
            h,
            p,
            protocol::end(protocol::await_pattern(h, p, pane, pattern, timeout, left)),
        ) == Seq::<Call>::empty(),
    decreases left,
{
    if left > 0 {
        lemma_calls_one(h, p);
        let end = protocol::end(protocol::await_pattern(h, p, pane, pattern, timeout, left));
        if let Some((q, Ok(output))) = protocol::ask(h, p, Call::CapturePane { pane }) {
            if !text::occurs(output, pattern) {
                lemma_calls_one(h, q);
                lemma_await_calls(h, q + 1, pane, pattern, timeout, (left - 1) as nat);
                lemma_calls_add(h, p, q, q + 1);
                lemma_calls_add(h, p, q + 1, end);
                assert(Seq::<Call>::empty() + Seq::<Call>::empty() == Seq::<Call>::empty());
            }
        }
    }
}

proof fn lemma_leaf_calls(h: Seq<Event>, p: int, ctx: CallContext, leaf: LeafStep)
    requires
        0 <= p <= h.len(),
        protocol::configure_leaf(h, p, leaf, ctx.panes[leaf.pane]) matches Some((_, Ok(_))),
    ensures
        p <= protocol::end(protocol::configure_leaf(h, p, leaf, ctx.panes[leaf.pane])) <= h.len(),
        changing_calls(
            h,
            p,
            protocol::end(protocol::configure_leaf(h, p, leaf, ctx.panes[leaf.pane])),
        ) == steps_calls(ctx, leaf_steps(leaf)),
{
    let pane = ctx.panes[leaf.pane];
    let a: Seq<Step> = match leaf.command {
        Some(keys) => seq![Step::Type { pane: leaf.pane, keys }],
        None => Seq::empty(),
    };
    let b: Seq<Step> = match leaf.wait_for {
        Some((pattern, timeout)) => seq![Step::Wait { pane: leaf.pane, pattern, timeout }],
        None => Seq::empty(),
    };
    let c: Seq<Step> = match leaf.title {
        Some(title) => seq![Step::SetTitle { pane: leaf.pane, title }],
        None => Seq::empty(),
    };
    lemma_steps_none(ctx);
    if a.len() > 0 {
        lemma_steps_one(ctx, a[0]);
    }
    if b.len() > 0 {
        lemma_steps_one(ctx, b[0]);
    }
    if c.len() > 0 {
        lemma_steps_one(ctx, c[0]);
    }
    lemma_steps_add(ctx, a + b, c);
    lemma_steps_add(ctx, a, b);
    let q = protocol::end(protocol::ask_if(h, p, protocol::command_call(leaf, pane)));
    let q2 = protocol::end(protocol::await_if(h, q, pane, leaf.wait_for));
    let q3 = protocol::end(protocol::configure_leaf(h, p, leaf, pane));
    if let Some((pattern, timeout)) = leaf.wait_for {
        lemma_await_calls(h, q, pane, pattern, timeout as nat, timeout as nat);
    }
    lemma_calls_one(h, p);
    lemma_calls_one(h, q2);
    lemma_calls_add(h, p, q, q2);
    lemma_calls_add(h, p, q2, q3);
}

/// The steps of the first leaf, then those of the others.
proof fn lemma_leaves_front(leaves: Seq<LeafStep>)
    requires
        leaves.len() > 0,
    ensures
        leaves_steps(leaves) == leaf_steps(leaves[0]) + leaves_steps(leaves.skip(1)),
    decreases leaves.len(),
{
    let none = Seq::<Step>::empty();
    if leaves.len() == 1 {
        assert(leaves.drop_last() == Seq::<LeafStep>::empty());
        assert(leaves.skip(1) == Seq::<LeafStep>::empty());
        assert(none + leaf_steps(leaves[0]) == leaf_steps(leaves[0]) + none);
    } else {
        let front = leaves.drop_last();
        lemma_leaves_front(front);
        assert(front.skip(1) == leaves.skip(1).drop_last());
        assert(leaf_steps(leaves[0]) + leaves_steps(front.skip(1)) + leaf_steps(leaves.last())
            == leaf_steps(leaves[0]) + (leaves_steps(front.skip(1)) + leaf_steps(leaves.last())));
    }
}

proof fn lemma_leaves_calls(h: Seq<Event>, p: int, ctx: CallContext, leaves: Seq<LeafStep>)
    requires
        0 <= p <= h.len(),
        protocol::configure_leaves(h, p, leaves, ctx.panes) matches Some((_, Ok(_))),
    ensures
        p <= protocol::end(protocol::configure_leaves(h, p, leaves, ctx.panes)) <= h.len(),
        changing_calls(
            h,
            p,
            protocol::end(protocol::configure_leaves(h, p, leaves, ctx.panes)),
        ) == steps_calls(ctx, leaves_steps(leaves)),
    decreases leaves.len(),
{
    if leaves.len() > 0 {
        let rest = leaves.skip(1);
        let q = protocol::end(
            protocol::configure_leaf(h, p, leaves[0], ctx.panes[leaves[0].pane]),
        );
        let end = protocol::end(protocol::configure_leaves(h, p, leaves, ctx.panes));
        lemma_leaf_calls(h, p, ctx, leaves[0]);
        lemma_leaves_calls(h, q, ctx, rest);
        lemma_calls_add(h, p, q, end);
        lemma_leaves_front(leaves);
        lemma_steps_add(ctx, leaf_steps(leaves[0]), leaves_steps(rest));
    }
}

proof fn lemma_finish_calls(h: Seq<Event>, p: int, ctx: CallContext, leaves: Seq<LeafStep>)
    requires
        0 <= p <= h.len(),
        protocol::finish_window(
            h,
            p,
            ctx.name,
            ctx.session.windows@[ctx.index],
            leaves,
            ctx.panes,
        ) matches Some((_, Ok(_))),
    ensures
        p <= protocol::end(
            protocol::finish_window(
                h,
                p,
                ctx.name,
                ctx.session.windows@[ctx.index],
                leaves,
                ctx.panes,
            ),
        ) <= h.len(),
        changing_calls(
            h,
            p,
            protocol::end(
                protocol::finish_window(
                    h,
                    p,
                    ctx.name,
                    ctx.session.windows@[ctx.index],
                    leaves,
                    ctx.panes,
                ),
            ),
        ) == steps_calls(ctx, window_option_steps(ctx.session.windows@[ctx.index].options@))
            + steps_calls(ctx, preset_steps(ctx.session.windows@[ctx.index])) + steps_calls(
            ctx,
            focus_steps(leaves),
        ),
{
    let window = ctx.session.windows@[ctx.index];
    let options = window.options@;
    let q = protocol::end(
        protocol::set_window_options(h, p, ctx.name, window.name@, options),
    );
    let q2 = protocol::end(protocol::ask_if(h, q, protocol::preset_call(ctx.name, window)));
    let q3 = protocol::end(
        protocol::finish_window(h, p, ctx.name, window, leaves, ctx.panes),
    );
    lemma_window_option_calls(h, p, ctx, options);
    lemma_steps_none(ctx);
    let f = preset_steps(window);
    let g = focus_steps(leaves);
    if f.len() > 0 {
        lemma_steps_one(ctx, f[0]);
    }
    if g.len() > 0 {
        lemma_steps_one(ctx, g[0]);
    }
    lemma_calls_one(h, q);
    lemma_calls_one(h, q2);
    lemma_calls_add(h, p, q, q2);
    lemma_calls_add(h, p, q2, q3);
}

proof fn lemma_regroup_calls(
    a: Seq<Call>,
    b: Seq<Call>,
    c: Seq<Call>,
    d: Seq<Call>,
    e: Seq<Call>,
    f: Seq<Call>,
    g: Seq<Call>,
)
    ensures
        a + (b + (c + (d + (e + f + g)))) == a + b + c + d + e + f + g,
{
    assert(a + (b + (c + (d + (e + f + g)))) =~= a + b + c + d + e + f + g);
}

/// What the requests for a window have in common: the working directory as it was resolved, and the
/// panes as they were created.
pub open spec fn window_context(
    h: Seq<Event>,
    p: int,
    session: Session,
    name: Text,
    index: int,
) -> CallContext {
    CallContext {
        session,
        name,
        index,
        root: protocol::value(protocol::working_dir(h, p, session, session.windows@[index])),
        panes: backend::created_panes(
            h.subrange(p, protocol::end(protocol::create_window(h, p, session, name, index))),
        ),
    }
}

/// What the backend is asked for a window that is created successfully, as far as it changes
/// anything, is the requests of the steps that build the window. A pane of the plan is the pane
/// that was created in its turn.
pub proof fn law_requests_are_the_steps(
    h: Seq<Event>,
    p: int,
    session: Session,
    name: Text,
    index: int,
)
    requires
        0 <= p <= h.len(),
        protocol::create_window(h, p, session, name, index) matches Some((_, Ok(_))),
    ensures
        p <= protocol::end(protocol::create_window(h, p, session, name, index)) <= h.len(),
        window_context(h, p, session, name, index).panes.len() == layout_plan::split_count(
            session.windows@[index].layout,
        ) + 1,
        changing_calls(h, p, protocol::end(protocol::create_window(h, p, session, name, index)))
            == steps_calls(
            window_context(h, p, session, name, index),
            window_steps(session, index),
        ),
{
    let window = session.windows@[index];
    let plan = layout_plan::plan_of(window.layout, session.vars);
    let env = model::pane_env(session, window);
    let options = protocol::options_with(session, index);
    let q = protocol::end(protocol::working_dir(h, p, session, window));
    let root = protocol::value(protocol::working_dir(h, p, session, window));
    let creation = protocol::creation_call(session, name, index, root);
    let initial = protocol::value(protocol::ask(h, q, creation));
    let q2 = q + 1;
    let q3 = protocol::end(protocol::set_options(h, q2, name, options));
    let split_exchange = protocol::make_splits(h, q3, plan.splits, seq![initial], root, env);
    let panes = protocol::value(split_exchange);
    let q4 = protocol::end(split_exchange);
    let q5 = protocol::end(protocol::configure_leaves(h, q4, plan.leaves, panes));
    let end = protocol::end(protocol::create_window(h, p, session, name, index));
    let ctx = CallContext { session, name, index, root, panes };

    layout_plan::law_plan_is_well_numbered(window.layout, session.vars);
    layout_plan::lemma_plan_size(window.layout, session.vars);
    let parts = template::parts(model::root_text(session, window), session.vars);
    lemma_builtin_calls(h, p, template::requests(parts), Seq::empty());
    lemma_calls_one(h, q);
    lemma_option_calls(h, q2, ctx, options);
    assert forall|k: int| 0 <= k < plan.splits.len() implies 0 <= (#[trigger] plan.splits[k]).parent
        < seq![initial].len() + k by {
        assert(plan.splits[k].parent <= k);
    }
    lemma_split_calls(h, q3, ctx, plan.splits, seq![initial]);
    lemma_leaves_calls(h, q4, ctx, plan.leaves);
    lemma_finish_calls(h, q5, ctx, plan.leaves);
    lemma_calls_add(h, p, q, end);
    lemma_calls_add(h, q, q2, end);
    lemma_calls_add(h, q2, q3, end);
    lemma_calls_add(h, q3, q4, end);
    lemma_calls_add(h, q4, q5, end);

    let a = seq![Step::Create];
    let b = option_steps(options);
    let c = split_steps(plan.splits);
    let d = leaves_steps(plan.leaves);
    let e = window_option_steps(window.options@);
    let f = preset_steps(window);
    let g = focus_steps(plan.leaves);
    lemma_steps_one(ctx, Step::Create);
    lemma_steps_add(ctx, a, b);
    lemma_steps_add(ctx, a + b, c);
    lemma_steps_add(ctx, a + b + c, d);
    lemma_steps_add(ctx, a + b + c + d, e);
    lemma_steps_add(ctx, a + b + c + d + e, f);
    lemma_steps_add(ctx, a + b + c + d + e + f, g);
    lemma_regroup_calls(
        steps_calls(ctx, a),
        steps_calls(ctx, b),
        steps_calls(ctx, c),
        steps_calls(ctx, d),
        steps_calls(ctx, e),
        steps_calls(ctx, f),
        steps_calls(ctx, g),
    );
    assert(Seq::<Call>::empty() + changing_calls(h, q, end) == changing_calls(h, q, end));

    protocol_laws::lemma_working_dir(h, p, session, window);
    lemma_created_none(h, p, q, |c: Call| c is BuiltinValue);
    lemma_created_one(h, q);
    protocol_laws::lemma_set_options(h, q2, name, options);
    lemma_created_none(
        h,
        q2,
        q3,
        |c: Call| c is SetOption && c->SetOption_session == name,
    );
    protocol_laws::lemma_configure_leaves(h, q4, plan.leaves, panes);
    lemma_created_none(h, q4, q5, |c: Call| protocol_laws::of_pane(c));
    protocol_laws::lemma_finish_window(h, q5, name, window, plan.leaves, panes);
    lemma_created_none(h, q5, end, |c: Call| protocol_laws::of_window(c, name));
    lemma_created_add(h, p, q, end);
    lemma_created_add(h, q, q2, end);
    lemma_created_add(h, q2, q3, end);
    lemma_created_add(h, q3, q4, end);
    lemma_created_add(h, q4, q5, end);
    assert(backend::created_panes(h.subrange(p, end)) == panes);
    assert(window_context(h, p, session, name, index) == ctx);
}

} // verus!
