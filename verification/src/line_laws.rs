//! Where each line of a script stands, and what it says: a reader of the script finds every part of
//! the session description in it, in its place.

use crate::compiler;
use crate::compiler_laws;
use crate::layout_laws;
use crate::layout_plan;
use crate::layout_plan::{LeafStep, SplitStep};
use crate::model::{Session, Window};
use crate::request_laws;
use crate::template;
use crate::text;
use crate::text::Text;
use crate::words::{TmuxOptionName, TmuxOptionValue};
use vstd::prelude::*;

verus! {

// ─── Environments ────────────────────────────────────────────────────────────

/// The options that pass an environment in a script: for each variable, in order, its name as it is
/// and its value quoted.
pub open spec fn passed(env: Seq<(Text, Text)>) -> Text {
    text::concat(
        Seq::new(env.len(), |k: int| " -e "@ + env[k].0 + "="@ + template::quoted(env[k].1)),
    )
}

proof fn lemma_passed(env: Seq<(Text, Text)>)
    ensures
        compiler::env_args(env) == passed(env),
{
    assert(env.map_values(|ev: (Text, Text)| compiler::env_arg(ev)) =~= Seq::new(
        env.len(),
        |k: int| " -e "@ + env[k].0 + "="@ + template::quoted(env[k].1),
    ));
}

/// The option for a variable stands in the text that passes an environment, behind those for the
/// variables before it and before those for the others.
pub proof fn law_every_variable_is_passed(env: Seq<(Text, Text)>, k: int)
    requires
        0 <= k < env.len(),
    ensures
        passed(env) == passed(env.take(k)) + (" -e "@ + env[k].0 + "="@ + template::quoted(
            env[k].1,
        )) + passed(env.skip(k + 1)),
{
    let texts = Seq::new(
        env.len(),
        |i: int| " -e "@ + env[i].0 + "="@ + template::quoted(env[i].1),
    );
    let head = env.take(k);
    let tail = env.skip(k + 1);
    let a = Seq::new(
        head.len(),
        |i: int| " -e "@ + head[i].0 + "="@ + template::quoted(head[i].1),
    );
    let b = Seq::new(
        tail.len(),
        |i: int| " -e "@ + tail[i].0 + "="@ + template::quoted(tail[i].1),
    );
    let one = seq![texts[k]];
    assert(texts =~= a + one + b);
    text::lemma_concat_add(a + one, b);
    text::lemma_concat_add(a, one);
    assert(one.drop_last() =~= Seq::<Text>::empty());
    reveal_with_fuel(text::concat, 2);
    assert(Seq::<char>::empty() + texts[k] =~= texts[k]);
}

// ─── The lines of a window ───────────────────────────────────────────────────

/// How a script names a pane: by the variable that holds its id.
pub open spec fn named_pane(pane: int) -> Text {
    "\"${"@ + ("PANE_"@ + text::decimal(pane as nat)) + "}\""@
}

/// The working directory of a window as a word of the shell.
pub open spec fn directory_word(session: Session, window: Window) -> Text {
    template::word(request_laws::directory_of(session, window), session.vars)
}

/// The line that creates a window puts the id of its first pane into the variable of the pane. It
/// names the working directory and the window, and passes the environment of the session and of the
/// window: for the first window, which comes with the session, as for every other one.
pub proof fn law_first_pane_of_a_window(session: Session, index: int, base: int)
    ensures
        ({
            let window = session.windows@[index];
            let lines = compiler::window_lines(session, index, base);
            &&& lines.len() > 2
            &&& lines[1] == "PANE_"@ + text::decimal(base as nat) + (if index == 0 {
                "=$(tmux new-session -d -s \"$SESSION\" -c "@
            } else {
                "=$(tmux new-window -t \"$SESSION\" -c "@
            }) + directory_word(session, window) + " -n "@ + template::quoted(window.name@)
                + passed(request_laws::environment_of(session, window))
                + " -P -F '#{pane_id}')"@
        }),
{
    let window = session.windows@[index];
    request_laws::law_environment_of_a_window(session, window);
    lemma_passed(request_laws::environment_of(session, window));
}

/// A line that splits a pane: the id of the new pane goes into its variable, and the line names the
/// pane that is split, the direction, the size and the working directory, and passes the
/// environment.
pub open spec fn splits_as(
    line: Text,
    step: SplitStep,
    base: int,
    root: Text,
    env: Seq<(Text, Text)>,
) -> bool {
    line == "PANE_"@ + text::decimal((base + step.new) as nat) + "=$(tmux split-window -t "@
        + named_pane(base + step.parent) + " "@ + (if step.flag is Horizontal {
        "-h"@
    } else {
        "-v"@
    }) + " -l "@ + (text::decimal(step.pct as nat) + "%"@) + " -c "@ + root + passed(env)
        + " -P -F '#{pane_id}')"@
}

/// A line that sets an option of the session.
pub open spec fn sets_option(line: Text, entry: (TmuxOptionName, TmuxOptionValue)) -> bool {
    line == "tmux set-option -t \"$SESSION\" -- "@ + template::quoted(entry.0@) + " "@
        + template::quoted(entry.1@)
}

/// A line that sets an option of a window.
pub open spec fn sets_window_option(
    line: Text,
    window: Text,
    entry: (TmuxOptionName, TmuxOptionValue),
) -> bool {
    line == "tmux set-window-option -t \"$SESSION:\""@ + template::quoted(window) + "  -- "@
        + template::quoted(entry.0@) + " "@ + template::quoted(entry.1@)
}

/// How many lines a leaf takes: two for a command, one for a pattern, one for a title.
pub open spec fn height(leaf: LeafStep) -> int {
    (if leaf.command is Some {
        2int
    } else {
        0
    }) + (if leaf.wait_for is Some {
        1int
    } else {
        0
    }) + (if leaf.title is Some {
        1int
    } else {
        0
    })
}

/// The lines from `p` on configure a pane: its command is typed as it is and Enter pressed, then
/// its pattern is awaited, then its title is set.
pub open spec fn pane_written(lines: Seq<Text>, p: int, leaf: LeafStep, pane: int) -> bool {
    let typed = p + if leaf.command is Some {
        2int
    } else {
        0
    };
    let waited = typed + if leaf.wait_for is Some {
        1int
    } else {
        0
    };
    &&& leaf.command matches Some(keys) ==> {
        &&& lines[p] == "tmux send-keys -t "@ + named_pane(pane) + " -l -- "@ + template::quoted(
            keys,
        )
        &&& lines[p + 1] == "tmux send-keys -t "@ + named_pane(pane) + " Enter"@
    }
    &&& leaf.wait_for matches Some((pattern, timeout)) ==> lines[typed] == "_ntd_wait_pane "@
        + named_pane(pane) + " "@ + template::quoted(pattern) + " "@ + text::decimal(
        timeout as nat,
    )
    &&& leaf.title matches Some(title) ==> lines[waited] == "tmux select-pane -t "@ + named_pane(
        pane,
    ) + " -T "@ + template::quoted(title)
}

/// The lines from `p` on configure panes one after the other: `at` are the positions at which the
/// lines of each pane begin, and the one at which those of the last one end.
pub open spec fn panes_written(
    lines: Seq<Text>,
    p: int,
    q: int,
    leaves: Seq<LeafStep>,
    base: int,
    at: Seq<int>,
) -> bool {
    &&& at.len() == leaves.len() + 1
    &&& at[0] == p
    &&& at[leaves.len() as int] == q
    &&& forall|i: int|
        0 <= i < leaves.len() ==> at[i + 1] == at[i] + height(#[trigger] leaves[i])
            && pane_written(lines, at[i], leaves[i], base + leaves[i].pane)
}

proof fn lemma_pane_is_written(lines: Seq<Text>, p: int, leaf: LeafStep, base: int)
    requires
        0 <= p,
        p + compiler::leaf_lines(leaf, base).len() <= lines.len(),
        lines.subrange(p, p + compiler::leaf_lines(leaf, base).len()) == compiler::leaf_lines(
            leaf,
            base,
        ),
    ensures
        compiler::leaf_lines(leaf, base).len() == height(leaf),
        pane_written(lines, p, leaf, base + leaf.pane),
{
    let mine = compiler::leaf_lines(leaf, base);
    let part = lines.subrange(p, p + mine.len());
    assert forall|k: int| 0 <= k < mine.len() implies lines[p + k] == mine[k] by {
        assert(part[k] == lines[p + k]);
    }
    let a = compiler::command_lines(base + leaf.pane, leaf.command);
    let b = compiler::wait_lines(base + leaf.pane, leaf.wait_for);
    let c = compiler::title_lines(base + leaf.pane, leaf.title);
    if leaf.command is Some {
        assert(mine[0] == a[0] && mine[1] == a[1]);
        assert(lines[p] == lines[p + 0]);
    }
    if leaf.wait_for is Some {
        assert(mine[a.len() as int] == b[0]);
        assert(lines[p + a.len()] == mine[a.len() as int]);
    }
    if leaf.title is Some {
        assert(mine[(a.len() + b.len()) as int] == c[0]);
        assert(lines[p + (a.len() + b.len())] == c[0]);
    }
}

proof fn lemma_panes_are_written(
    lines: Seq<Text>,
    p: int,
    leaves: Seq<LeafStep>,
    base: int,
) -> (at: Seq<int>)
    requires
        0 <= p,
        p + compiler::leaves_lines(leaves, base).len() <= lines.len(),
        lines.subrange(p, p + compiler::leaves_lines(leaves, base).len())
            == compiler::leaves_lines(leaves, base),
    ensures
        panes_written(
            lines,
            p,
            p + compiler::leaves_lines(leaves, base).len(),
            leaves,
            base,
            at,
        ),
    decreases leaves.len(),
{
    if leaves.len() == 0 {
        seq![p]
    } else {
        let front = leaves.drop_last();
        let a = compiler::leaves_lines(front, base);
        let b = compiler::leaf_lines(leaves.last(), base);
        let all = compiler::leaves_lines(leaves, base);
        let part = lines.subrange(p, p + all.len());
        assert(all == a + b);
        assert(lines.subrange(p, p + a.len()) =~= a) by {
            assert forall|k: int| 0 <= k < a.len() implies lines[p + k] == a[k] by {
                assert(part[k] == lines[p + k] && all[k] == a[k]);
            }
        }
        let q = p + a.len();
        assert(lines.subrange(q, q + b.len()) =~= b) by {
            assert forall|k: int| 0 <= k < b.len() implies lines[q + k] == b[k] by {
                assert(part[a.len() + k] == lines[q + k] && all[a.len() + k] == b[k]);
            }
        }
        let before = lemma_panes_are_written(lines, p, front, base);
        lemma_pane_is_written(lines, q, leaves.last(), base);
        let at = before.push(q + b.len());
        assert forall|i: int| 0 <= i < leaves.len() implies at[i + 1] == at[i] + height(
            #[trigger] leaves[i],
        ) && pane_written(lines, at[i], leaves[i], base + leaves[i].pane) by {
            if i < front.len() {
                assert(front[i] == leaves[i]);
                assert(at[i] == before[i] && at[i + 1] == before[i + 1]);
            } else {
                assert(leaves[i] == leaves.last());
                assert(at[i] == before[i]);
            }
        }
        at
    }
}

/// The panes of a window are built by the lines after the head of the window: the first pane, the
/// options of the session with the first window, and the splits of the plan.
pub open spec fn building_written(
    lines: Seq<Text>,
    session: Session,
    index: int,
    base: int,
) -> bool {
    let window = session.windows@[index];
    let splits = layout_plan::plan_of(window.layout, session.vars).splits;
    let options = request_laws::options_of(session, index);
    &&& 2 + options.len() + splits.len() <= lines.len()
    &&& lines[0] == "# ── window "@ + text::decimal(index as nat) + ": "@ + window.name@ + " ──"@
    &&& forall|k: int|
        0 <= k < options.len() ==> sets_option(lines[2 + k], #[trigger] options[k])
    &&& forall|k: int|
        0 <= k < splits.len() ==> splits_as(
            lines[2 + options.len() + k],
            #[trigger] splits[k],
            base,
            directory_word(session, window),
            request_laws::environment_of(session, window),
        )
}

/// The lines from `p` on finish a window: its options, its layout preset, the focus, which goes to
/// the last pane that asks for it, and an empty line.
pub open spec fn finishing_written(
    lines: Seq<Text>,
    p: int,
    window: Window,
    leaves: Seq<LeafStep>,
    base: int,
) -> bool {
    let optioned = p + window.options@.len();
    let arranged = optioned + if window.select_layout is Some {
        1int
    } else {
        0
    };
    &&& 0 <= p && arranged < lines.len()
    &&& forall|k: int|
        0 <= k < window.options@.len() ==> sets_window_option(
            lines[p + k],
            window.name@,
            #[trigger] window.options@[k],
        )
    &&& window.select_layout matches Some(preset) ==> lines[optioned]
        == "tmux select-layout -t \"$SESSION:\""@ + template::quoted(window.name@) + "  -- "@
        + template::quoted(preset@)
    &&& lines[lines.len() - 1] == ""@
    &&& (forall|i: int| 0 <= i < leaves.len() ==> !(#[trigger] leaves[i]).focus) ==> lines.len()
        == arranged + 1
    &&& forall|i: int|
        0 <= i < leaves.len() && (#[trigger] leaves[i]).focus && (forall|j: int|
            i < j < leaves.len() ==> !(#[trigger] leaves[j]).focus) ==> lines.len() == arranged + 2
            && lines[arranged] == "tmux select-pane -t "@ + named_pane(base + leaves[i].pane)
}

/// The panes of a window are configured by the lines from `p` on, and then the window is finished.
pub open spec fn configuring_written(
    lines: Seq<Text>,
    p: int,
    window: Window,
    leaves: Seq<LeafStep>,
    base: int,
) -> bool {
    exists|at: Seq<int>, finish: int|
        #![trigger panes_written(lines, p, finish, leaves, base, at)]
        p <= finish && panes_written(lines, p, finish, leaves, base, at) && finishing_written(
            lines,
            finish,
            window,
            leaves,
            base,
        )
}

proof fn lemma_building_is_written(session: Session, index: int, base: int)
    ensures
        building_written(compiler::window_lines(session, index, base), session, index, base),
{
    let window = session.windows@[index];
    let splits = layout_plan::plan_of(window.layout, session.vars).splits;
    let options = request_laws::options_of(session, index);
    let env = request_laws::environment_of(session, window);
    let root = directory_word(session, window);
    let lines = compiler::window_lines(session, index, base);
    let built = compiler::build_lines(session, window, index, base);
    request_laws::law_environment_of_a_window(session, window);
    lemma_passed(env);
    let of_splits = compiler::split_lines(splits, base, root, env);
    assert forall|k: int| 0 <= k < options.len() implies sets_option(
        lines[2 + k],
        #[trigger] options[k],
    ) by {
        let of_options = compiler::option_lines(session.options);
        assert(lines[2 + k] == of_options[k]);
        assert(of_options[k] == compiler::option_line(options[k]));
    }
    assert forall|k: int| 0 <= k < splits.len() implies splits_as(
        lines[2 + options.len() + k],
        #[trigger] splits[k],
        base,
        root,
        env,
    ) by {
        assert(lines[2 + options.len() + k] == of_splits[k]);
        assert(of_splits[k] == compiler::split_line(splits[k], base, root, env));
    }
}

proof fn lemma_finishing_is_written(
    lines: Seq<Text>,
    p: int,
    window: Window,
    leaves: Seq<LeafStep>,
    base: int,
)
    requires
        0 <= p <= lines.len(),
        lines.skip(p) == compiler::window_option_lines(window) + compiler::preset_lines(window)
            + compiler::focus_lines(leaves, base) + seq![""@],
    ensures
        finishing_written(lines, p, window, leaves, base),
{
    let a = compiler::window_option_lines(window);
    let b = compiler::preset_lines(window);
    let c = compiler::focus_lines(leaves, base);
    let rest = lines.skip(p);
    let n = window.options@.len() as int;
    assert forall|k: int| 0 <= k < rest.len() implies lines[p + k] == #[trigger] rest[k] by {}
    assert forall|k: int| 0 <= k < window.options@.len() implies sets_window_option(
        lines[p + k],
        window.name@,
        #[trigger] window.options@[k],
    ) by {
        assert(rest[k] == a[k]);
        assert(a[k] == compiler::window_option_line(window.name@, window.options@[k]));
    }
    if window.select_layout is Some {
        assert(rest[n] == b[0]);
    }
    assert(rest[rest.len() - 1] == ""@);
    layout_laws::law_last_pane_that_asks_gets_the_focus(leaves);
    if let Some(pane) = layout_plan::focused(leaves) {
        assert(rest[n + b.len()] == c[0]);
        let i = choose|i: int|
            #![trigger leaves[i]]
            0 <= i < leaves.len() && leaves[i].focus && leaves[i].pane == pane && forall|j: int|
                i < j < leaves.len() ==> !(#[trigger] leaves[j]).focus;
        assert forall|k: int|
            0 <= k < leaves.len() && (#[trigger] leaves[k]).focus && (forall|j: int|
                k < j < leaves.len() ==> !(#[trigger] leaves[j]).focus) implies k == i by {
            assert(leaves[i].focus && leaves[k].focus);
        }
    }
}

/// The lines of a window build, configure and finish it as its description says: each line has its
/// place, and says what the description says. The first pane is told by
/// [`law_first_pane_of_a_window`].
pub proof fn law_window_is_written_as_described(session: Session, index: int, base: int)
    ensures
        ({
            let window = session.windows@[index];
            let plan = layout_plan::plan_of(window.layout, session.vars);
            let lines = compiler::window_lines(session, index, base);
            let built = 2 + request_laws::options_of(session, index).len() + plan.splits.len();
            &&& building_written(lines, session, index, base)
            &&& configuring_written(lines, built as int, window, plan.leaves, base)
            &&& layout_laws::gives(plan, window.layout, session.vars)
        }),
{
    let window = session.windows@[index];
    let plan = layout_plan::plan_of(window.layout, session.vars);
    let lines = compiler::window_lines(session, index, base);
    let built = compiler::build_lines(session, window, index, base).len() as int;
    let leaves = compiler::leaves_lines(plan.leaves, base);
    let finish = built + leaves.len();
    layout_laws::law_plan_gives_the_tree(window.layout, session.vars);
    lemma_building_is_written(session, index, base);
    assert(built == 2 + request_laws::options_of(session, index).len() + plan.splits.len());
    assert(lines.subrange(built, finish) =~= leaves);
    let at = lemma_panes_are_written(lines, built, plan.leaves, base);
    assert(lines.skip(finish) =~= compiler::window_option_lines(window) + compiler::preset_lines(
        window,
    ) + compiler::focus_lines(plan.leaves, base) + seq![""@]);
    lemma_finishing_is_written(lines, finish, window, plan.leaves, base);
    assert(panes_written(lines, built, finish, plan.leaves, base, at));
}

// ─── The script ──────────────────────────────────────────────────────────────

/// The windows of a session stand in its script one after the other, from `p` up to `q`: `at` are
/// the positions at which the lines of each window begin, and the one at which those of the last
/// one end, and `panes` the numbers of panes of the windows before.
pub open spec fn windows_written(
    lines: Seq<Text>,
    p: int,
    q: int,
    session: Session,
    n: int,
    at: Seq<int>,
    panes: Seq<int>,
) -> bool {
    &&& at.len() == n + 1 && panes.len() == n + 1
    &&& at[0] == p && at[n] == q
    &&& panes[0] == 0
    &&& forall|i: int|
        #![trigger session.windows@[i]]
        0 <= i < n ==> {
            &&& 0 <= at[i] <= at[i + 1] <= lines.len()
            &&& lines.subrange(at[i], at[i + 1]) == compiler::window_lines(session, i, panes[i])
            &&& panes[i + 1] == panes[i] + layout_laws::pane_nodes(
                session.windows@[i].layout,
            ).len()
        }
}

proof fn lemma_windows_are_written(lines: Seq<Text>, p: int, session: Session, n: int) -> (r: (
    Seq<int>,
    Seq<int>,
))
    requires
        0 <= p,
        0 <= n <= session.windows@.len(),
        p + compiler::windows_lines(session, n).len() <= lines.len(),
        lines.subrange(p, p + compiler::windows_lines(session, n).len())
            == compiler::windows_lines(session, n),
    ensures
        windows_written(
            lines,
            p,
            p + compiler::windows_lines(session, n).len(),
            session,
            n,
            r.0,
            r.1,
        ),
        r.1[n] == compiler::panes_before(session, n),
    decreases n,
{
    if n == 0 {
        (seq![p], seq![0int])
    } else {
        let base = compiler::panes_before(session, n - 1);
        let a = compiler::windows_lines(session, n - 1);
        let b = compiler::window_lines(session, n - 1, base);
        let all = compiler::windows_lines(session, n);
        let part = lines.subrange(p, p + all.len());
        assert(all == a + b);
        let q = p + a.len();
        assert(lines.subrange(p, q) =~= a) by {
            assert forall|k: int| 0 <= k < a.len() implies lines[p + k] == a[k] by {
                assert(part[k] == lines[p + k] && all[k] == a[k]);
            }
        }
        assert(lines.subrange(q, q + b.len()) =~= b) by {
            assert forall|k: int| 0 <= k < b.len() implies lines[q + k] == b[k] by {
                assert(part[a.len() + k] == lines[q + k] && all[a.len() + k] == b[k]);
            }
        }
        let (before, counted) = lemma_windows_are_written(lines, p, session, n - 1);
        let layout = session.windows@[n - 1].layout;
        layout_laws::law_plan_gives_the_tree(layout, session.vars);
        layout_plan::lemma_plan_size(layout, session.vars);
        let at = before.push(q + b.len());
        let panes = counted.push(base + layout_laws::pane_nodes(layout).len());
        assert forall|i: int|
            #![trigger session.windows@[i]]
            0 <= i < n implies {
            &&& 0 <= at[i] <= at[i + 1] <= lines.len()
            &&& lines.subrange(at[i], at[i + 1]) == compiler::window_lines(session, i, panes[i])
            &&& panes[i + 1] == panes[i] + layout_laws::pane_nodes(
                session.windows@[i].layout,
            ).len()
        } by {
            if i < n - 1 {
                assert(session.windows@[i] == session.windows@[i]);
                assert(at[i] == before[i] && at[i + 1] == before[i + 1]);
                assert(panes[i] == counted[i] && panes[i + 1] == counted[i + 1]);
            } else {
                assert(at[i] == before[i] && panes[i] == counted[i]);
            }
        }
        (at, panes)
    }
}

/// A script holds the lines of all windows, one window after the other, and every window numbers
/// its panes on from those of the windows before it. Before them stands the start of the script,
/// and behind them stand only the six lines that enter the session.
pub proof fn law_script_holds_the_windows_in_order(session: Session)
    ensures
        exists|at: Seq<int>, panes: Seq<int>| #[trigger]
            windows_written(
                compiler::script(session),
                compiler::preamble(session).len() as int,
                compiler::script(session).len() - 6,
                session,
                session.windows@.len() as int,
                at,
                panes,
            ),
{
    let lines = compiler::script(session);
    let p = compiler::preamble(session).len() as int;
    let n = session.windows@.len() as int;
    let windows = compiler::windows_lines(session, n);
    assert(lines.subrange(p, p + windows.len()) =~= windows);
    assert(lines.len() == p + windows.len() + 6);
    let (at, panes) = lemma_windows_are_written(lines, p, session, n);
    assert(windows_written(lines, p, lines.len() - 6, session, n, at, panes));
}

/// A script starts by asking whether the session runs already. If it does, nothing is created: a
/// client inside tmux is switched to it, a terminal is attached to it, and without a terminal it is
/// left as it is.
pub proof fn law_script_reuses_a_session(session: Session)
    ensures
        compiler::script(session).len() > 16,
        compiler::script(session).take(16) == seq![
            "#!/usr/bin/env bash"@,
            "set -euo pipefail"@,
            ""@,
            "SESSION="@ + template::quoted(session.name@),
            ""@,
            "if tmux has-session -t \"$SESSION\" 2>/dev/null; then"@,
            "  if [ -n \"${TMUX:-}\" ]; then"@,
            "    exec tmux switch-client -t \"$SESSION\""@,
            "  elif [ -t 0 ]; then"@,
            "    exec tmux attach-session -t \"$SESSION\""@,
            "  else"@,
            "    echo \"session '$SESSION' is ready (not attaching; no terminal).\" >&2"@,
            "    exit 0"@,
            "  fi"@,
            "fi"@,
            ""@,
        ],
{
    let a = compiler::opening(session);
    let b = compiler::reuse_lines();
    let c = seq!["fi"@, ""@];
    assert(a.len() == 6 && b.len() == 8 && c.len() == 2);
    assert(compiler::script(session).take(16) =~= a + b + c);
}

/// A script ends by making the first window current and handing the terminal over: a client inside
/// tmux is switched to the session, elsewhere the terminal is attached to it.
pub proof fn law_script_enters_the_session(session: Session)
    ensures
        compiler::script(session).len() >= 6,
        compiler::script(session).skip(compiler::script(session).len() - 6) == seq![
            "tmux select-window -t \"$SESSION:^\""@,
            "if [ -n \"${TMUX:-}\" ]; then"@,
            "  exec tmux switch-client -t \"$SESSION\""@,
            "else"@,
            "  exec tmux attach-session -t \"$SESSION\""@,
            "fi"@,
        ],
{
    let lines = compiler::script(session);
    let a = seq!["tmux select-window -t \"$SESSION:^\""@];
    let b = compiler::attach_lines();
    assert(a.len() == 1 && b.len() == 5);
    assert(lines.skip(lines.len() - 6) =~= a + b);
}

/// Some pane of the session waits for a pattern.
pub open spec fn some_pane_waits(session: Session) -> bool {
    exists|w: int, i: int|
        #![trigger layout_plan::plan_of(session.windows@[w].layout, session.vars).leaves[i]]
        0 <= w < session.windows@.len() && 0 <= i < layout_plan::plan_of(
            session.windows@[w].layout,
            session.vars,
        ).leaves.len() && layout_plan::plan_of(
            session.windows@[w].layout,
            session.vars,
        ).leaves[i].wait_for is Some
}

/// Where some pane waits, the script defines the function that waits before it is called: it looks
/// at the pane once a second, for as many seconds as it is told, succeeds when the pattern is
/// there, and fails otherwise.
pub proof fn law_script_defines_the_wait(session: Session)
    requires
        some_pane_waits(session),
    ensures
        30 <= compiler::preamble(session).len() < compiler::script(session).len(),
        compiler::script(session).subrange(16, 30) == seq![
            "# wait for pattern in pane output"@,
            "_ntd_wait_pane() {"@,
            "  local pane=$1 pattern=$2 timeout=${3:-30} elapsed=0"@,
            "  while [ $elapsed -lt $timeout ]; do"@,
            "    if tmux capture-pane -t \"$pane\" -p | grep -qF -- \"$pattern\"; then"@,
            "      return 0"@,
            "    fi"@,
            "    sleep 1"@,
            "    elapsed=$((elapsed + 1))"@,
            "  done"@,
            "  echo \"timeout after ${timeout}s: '$pattern' not seen in pane $pane\" >&2"@,
            "  return 1"@,
            "}"@,
            ""@,
        ],
{
    compiler_laws::law_wait_helper_is_there_when_needed(session);
    assert(compiler::wait_helper().len() == 14);
}

/// The hook stands in the script as it is, with its placeholders replaced, behind all else that
/// stands before the windows; without a hook nothing stands there.
pub proof fn law_script_runs_the_hook(session: Session)
    ensures
        ({
            let lines = compiler::script(session);
            let n = compiler::preamble(session).len();
            let start = if some_pane_waits(session) {
                30int
            } else {
                16
            };
            match session.pre_hook {
                Some(hook) => {
                    &&& n == start + 3 && n < lines.len()
                    &&& lines[start] == "# pre_hook"@
                    &&& lines[start + 1] == template::resolved(hook@, session.vars)
                    &&& lines[start + 2] == ""@
                },
                None => n == start,
            }
        }),
{
    compiler_laws::law_wait_helper_is_there_when_needed(session);
    let lines = compiler::script(session);
    let n = compiler::preamble(session).len() as int;
    if session.pre_hook is Some {
        let hook = compiler::hook_lines(session);
        assert(lines.subrange(n - 3, n) =~= hook);
        assert(lines[n - 3] == lines.subrange(n - 3, n)[0]);
        assert(lines[n - 2] == lines.subrange(n - 3, n)[1]);
        assert(lines[n - 1] == lines.subrange(n - 3, n)[2]);
    }
}

} // verus!
