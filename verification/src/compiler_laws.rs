//! What holds of every script.

use crate::checks;
use crate::compiler;
use crate::layout_plan;
use crate::layout_plan::{LeafStep, SplitStep};
use crate::model;
use crate::model::{LayoutNode, Session, Window};
use crate::ordered_map;
use crate::ordered_map::TemplateVars;
use crate::ratio;
use crate::template;
use crate::template::Segment;
use crate::text;
use crate::text::Text;
use vstd::prelude::*;

verus! {

// ─── Structure ───────────────────────────────────────────────────────────────

/// A script starts with the line that names its interpreter, and stops at the first failure.
pub proof fn law_script_opening(session: Session)
    ensures
        compiler::script(session).len() > 2,
        compiler::script(session)[0] == "#!/usr/bin/env bash"@,
        compiler::script(session)[1] == "set -euo pipefail"@,
{
}

/// A script does nothing before it has asked whether the session runs already; if it does, the
/// terminal is handed over to it.
pub proof fn law_script_is_idempotent(session: Session)
    ensures
        compiler::script(session).len() > 15,
        compiler::script(session)[3] == "SESSION="@ + template::quoted(session.name@),
        compiler::script(session)[5] == "if tmux has-session -t \"$SESSION\" 2>/dev/null; then"@,
        compiler::script(session).subrange(6, 14) == compiler::reuse_lines(),
        compiler::script(session)[14] == "fi"@,
{
    let s = compiler::script(session);
    assert(s.subrange(6, 14) =~= compiler::reuse_lines());
}

/// A script ends by making the first window current and handing the terminal over.
pub proof fn law_script_ends_with_handover(session: Session)
    ensures
        compiler::script(session).len() >= 6,
        compiler::script(session)[compiler::script(session).len() - 6]
            == "tmux select-window -t \"$SESSION:^\""@,
        compiler::script(session).skip(compiler::script(session).len() - 5)
            == compiler::attach_lines(),
{
    let s = compiler::script(session);
    assert(s.skip(s.len() - 5) =~= compiler::attach_lines());
}

/// The hook runs before the session is created: its line stands before all lines of windows.
pub proof fn law_hook_stands_before_windows(session: Session)
    requires
        session.pre_hook is Some,
    ensures
        compiler::preamble(session).len() >= 2,
        compiler::script(session)[compiler::preamble(session).len() - 2] == template::resolved(
            session.pre_hook->0@,
            session.vars,
        ),
        compiler::script(session).subrange(
            compiler::preamble(session).len() as int,
            (compiler::preamble(session).len() + compiler::windows_lines(
                session,
                session.windows@.len() as int,
            ).len()) as int,
        ) == compiler::windows_lines(session, session.windows@.len() as int),
{
    let a = compiler::preamble(session);
    let b = compiler::windows_lines(session, session.windows@.len() as int);
    let s = compiler::script(session);
    assert(s.subrange(a.len() as int, (a.len() + b.len()) as int) =~= b);
}

/// In the lines of a window, all panes are built before any of them is configured: the lines of
/// the splits, in their order, end where the lines that type commands begin.
pub proof fn law_panes_are_built_first(session: Session, index: int, base: int)
    ensures
        ({
            let window = session.windows@[index];
            let lines = compiler::window_lines(session, index, base);
            let plan = layout_plan::plan_of(window.layout, session.vars);
            let n = plan.splits.len();
            let built = compiler::build_lines(session, window, index, base).len();
            let root = template::word(model::root_text(session, window), session.vars);
            let env = model::pane_env(session, window);
            let leaves = compiler::leaves_lines(plan.leaves, base);
            &&& n + 2 <= built <= lines.len()
            &&& lines.subrange(built - n, built as int) == compiler::split_lines(
                plan.splits,
                base,
                root,
                env,
            )
            &&& built + leaves.len() <= lines.len()
            &&& lines.subrange(built as int, (built + leaves.len()) as int) == leaves
        }),
{
    let window = session.windows@[index];
    let lines = compiler::window_lines(session, index, base);
    let plan = layout_plan::plan_of(window.layout, session.vars);
    let n = plan.splits.len();
    let built = compiler::build_lines(session, window, index, base).len();
    let root = template::word(model::root_text(session, window), session.vars);
    let env = model::pane_env(session, window);
    let leaves = compiler::leaves_lines(plan.leaves, base);
    assert(lines.subrange(built - n, built as int) =~= compiler::split_lines(
        plan.splits,
        base,
        root,
        env,
    ));
    assert(lines.subrange(built as int, (built + leaves.len()) as int) =~= leaves);
}

/// The lines of a window depend on the window itself and on the working directory, environment,
/// options and variables of the session: nothing of another window reaches them.
pub proof fn law_windows_do_not_leak(a: Session, b: Session, index: int, base: int)
    requires
        a.windows@[index] == b.windows@[index],
        a.root == b.root,
        a.env == b.env,
        a.options == b.options,
        a.vars == b.vars,
    ensures
        compiler::window_lines(a, index, base) == compiler::window_lines(b, index, base),
{
}

// ─── Names ───────────────────────────────────────────────────────────────────

/// Quoting adds no line feed.
proof fn lemma_quoted_one_line(s: Text)
    requires
        !s.contains('\n'),
    ensures
        !template::quoted_body(s).contains('\n'),
    decreases s.len(),
{
    if s.len() > 0 {
        let front = s.drop_last();
        assert(!front.contains('\n')) by {
            if front.contains('\n') {
                let i = choose|i: int| 0 <= i < front.len() && front[i] == '\n';
                assert(s[i] == '\n');
            }
        }
        lemma_quoted_one_line(front);
        assert(s[s.len() - 1] != '\n');
        let body = template::quoted_body(front);
        let last = template::quoted_char(s.last());
        if (body + last).contains('\n') {
            let i = choose|i: int| 0 <= i < (body + last).len() && (body + last)[i] == '\n';
            if i < body.len() {
                assert(body[i] == '\n');
            } else {
                assert(last[i - body.len()] == '\n');
            }
        }
    }
}

/// A text of texts without line feeds holds none.
proof fn lemma_one_line_add(a: Text, b: Text)
    requires
        !a.contains('\n'),
        !b.contains('\n'),
    ensures
        !(a + b).contains('\n'),
{
    if (a + b).contains('\n') {
        let i = choose|i: int| 0 <= i < (a + b).len() && (a + b)[i] == '\n';
        if i < a.len() {
            assert(a[i] == '\n');
        } else {
            assert(b[i - a.len()] == '\n');
        }
    }
}

proof fn lemma_name_one_line(s: Text)
    requires
        checks::valid_tmux_name(s),
    ensures
        !s.contains('\n'),
{
    if s.contains('\n') {
        let i = choose|i: int| 0 <= i < s.len() && s[i] == '\n';
        assert(text::is_control(s[i]));
    }
}

/// A name cannot end the line that it stands in: neither the line that sets the name of the
/// session nor the comment at the head of a window holds a line feed.
pub proof fn law_names_stay_in_their_lines(session: Session, index: int, base: int)
    requires
        session.wf(),
        0 <= index < session.windows@.len(),
    ensures
        !compiler::script(session)[3].contains('\n'),
        !compiler::window_lines(session, index, base)[0].contains('\n'),
{
    let name = session.name@;
    lemma_name_one_line(name);
    lemma_quoted_one_line(name);
    reveal_strlit("SESSION=");
    lemma_one_line_add(seq!['\''], template::quoted_body(name));
    lemma_one_line_add(seq!['\''] + template::quoted_body(name), seq!['\'']);
    lemma_one_line_add("SESSION="@, template::quoted(name));
    law_script_is_idempotent(session);

    let window = session.windows@[index];
    assert(window.wf());
    lemma_name_one_line(window.name@);
    reveal_strlit("# ── window ");
    reveal_strlit(": ");
    reveal_strlit(" ──");
    let n = text::decimal(index as nat);
    text::lemma_decimal_digits(index as nat);
    assert(!n.contains('\n'));
    lemma_one_line_add("# ── window "@, n);
    lemma_one_line_add("# ── window "@ + n, ": "@);
    lemma_one_line_add("# ── window "@ + n + ": "@, window.name@);
    lemma_one_line_add("# ── window "@ + n + ": "@ + window.name@, " ──"@);
}

// ─── Waiting ─────────────────────────────────────────────────────────────────

/// A tree waits exactly when one of its leaves does.
proof fn lemma_layout_waits(node: LayoutNode, current: int, next: int, vars: TemplateVars)
    ensures
        compiler::layout_waits(node) <==> exists|i: int|
            0 <= i < layout_plan::leaves_of(node, current, next, vars).len() && (
            #[trigger] layout_plan::leaves_of(node, current, next, vars)[i]).wait_for is Some,
    decreases node,
{
    let leaves = layout_plan::leaves_of(node, current, next, vars);
    match node {
        LayoutNode::Pane { command, focus, title, wait_for } => {
            assert(leaves.len() == 1 && leaves[0].wait_for == model::wait_value(wait_for));
        },
        LayoutNode::Split { direction, ratio, first, second } => {
            let c = layout_plan::split_count(*first);
            let x = layout_plan::leaves_of(*first, current, next + 1, vars);
            let y = layout_plan::leaves_of(*second, next, next + 1 + c, vars);
            lemma_layout_waits(*first, current, next + 1, vars);
            lemma_layout_waits(*second, next, next + 1 + c, vars);
            if compiler::layout_waits(*first) {
                let i = choose|i: int| 0 <= i < x.len() && (#[trigger] x[i]).wait_for is Some;
                assert(leaves[i].wait_for is Some);
            }
            if compiler::layout_waits(*second) {
                let i = choose|i: int| 0 <= i < y.len() && (#[trigger] y[i]).wait_for is Some;
                assert(leaves[x.len() + i].wait_for is Some);
            }
            if exists|i: int| 0 <= i < leaves.len() && (#[trigger] leaves[i]).wait_for is Some {
                let i = choose|i: int|
                    0 <= i < leaves.len() && (#[trigger] leaves[i]).wait_for is Some;
                if i < x.len() {
                    assert(x[i].wait_for is Some);
                } else {
                    assert(y[i - x.len()].wait_for is Some);
                }
            }
        },
    }
}

/// The function that waits for a pattern is in the script exactly when some pane waits.
pub proof fn law_wait_helper_is_there_when_needed(session: Session)
    ensures
        compiler::session_waits(session) <==> exists|w: int, i: int|
            #![trigger layout_plan::plan_of(session.windows@[w].layout, session.vars).leaves[i]]
            0 <= w < session.windows@.len() && 0 <= i < layout_plan::plan_of(
                session.windows@[w].layout,
                session.vars,
            ).leaves.len() && layout_plan::plan_of(
                session.windows@[w].layout,
                session.vars,
            ).leaves[i].wait_for is Some,
        compiler::session_waits(session) ==> compiler::script(session).subrange(16, 30)
            == compiler::wait_helper(),
        !compiler::session_waits(session) ==> compiler::preamble(session).len()
            == 16 + compiler::hook_lines(session).len(),
{
    assert forall|w: int| 0 <= w < session.windows@.len() implies (compiler::layout_waits(
        (#[trigger] session.windows@[w]).layout,
    ) <==> exists|i: int|
        0 <= i < layout_plan::plan_of(session.windows@[w].layout, session.vars).leaves.len() && (
        #[trigger] layout_plan::plan_of(
            session.windows@[w].layout,
            session.vars,
        ).leaves[i]).wait_for is Some) by {
        lemma_layout_waits(session.windows@[w].layout, 0, 1, session.vars);
    }
    if compiler::session_waits(session) {
        let w = choose|w: int|
            0 <= w < session.windows@.len() && compiler::layout_waits(
                (#[trigger] session.windows@[w]).layout,
            );
        let leaves = layout_plan::plan_of(session.windows@[w].layout, session.vars).leaves;
        let i = choose|i: int| 0 <= i < leaves.len() && (#[trigger] leaves[i]).wait_for is Some;
        assert(layout_plan::plan_of(
            session.windows@[w].layout,
            session.vars,
        ).leaves[i].wait_for is Some);
        assert(compiler::script(session).subrange(16, 30) =~= compiler::wait_helper());
    }
    if exists|w: int, i: int|
        #![trigger layout_plan::plan_of(session.windows@[w].layout, session.vars).leaves[i]]
        0 <= w < session.windows@.len() && 0 <= i < layout_plan::plan_of(
            session.windows@[w].layout,
            session.vars,
        ).leaves.len() && layout_plan::plan_of(
            session.windows@[w].layout,
            session.vars,
        ).leaves[i].wait_for is Some {
        let (w, i) = choose|w: int, i: int|
            #![trigger layout_plan::plan_of(session.windows@[w].layout, session.vars).leaves[i]]
            0 <= w < session.windows@.len() && 0 <= i < layout_plan::plan_of(
                session.windows@[w].layout,
                session.vars,
            ).leaves.len() && layout_plan::plan_of(
                session.windows@[w].layout,
                session.vars,
            ).leaves[i].wait_for is Some;
        assert(compiler::layout_waits(session.windows@[w].layout));
    }
}

// ─── Pane variables ──────────────────────────────────────────────────────────

pub proof fn lemma_decimal_injective(a: nat, b: nat)
    requires
        text::decimal(a) == text::decimal(b),
    ensures
        a == b,
    decreases a,
{
    let x = text::decimal(a);
    let y = text::decimal(b);
    text::lemma_decimal_digits(a);
    text::lemma_decimal_digits(b);
    assert(x.last() == text::digit(a % 10) && y.last() == text::digit(b % 10));
    assert(a % 10 == b % 10);
    if a >= 10 {
        text::lemma_decimal_digits(a / 10);
        assert(x.len() >= 2);
        assert(b >= 10);
        assert(x.drop_last() == text::decimal(a / 10));
        assert(y.drop_last() == text::decimal(b / 10));
        lemma_decimal_injective(a / 10, b / 10);
    } else {
        assert(x.len() == 1);
        if b >= 10 {
            text::lemma_decimal_digits(b / 10);
            assert(y.len() >= 2);
        }
    }
}

/// Two panes have different shell variables.
pub proof fn law_pane_variables_differ(a: nat, b: nat)
    requires
        compiler::pane_var(a as int) == compiler::pane_var(b as int),
    ensures
        a == b,
{
    let prefix = "PANE_"@;
    let x = compiler::pane_var(a as int);
    let y = compiler::pane_var(b as int);
    assert(x.skip(prefix.len() as int) == text::decimal(a));
    assert(y.skip(prefix.len() as int) == text::decimal(b));
    lemma_decimal_injective(a, b);
}

/// The panes of a window are numbered after those of all windows before it.
pub proof fn law_windows_do_not_share_panes(session: Session, i: int, j: int)
    requires
        0 <= i < j,
    ensures
        compiler::panes_before(session, i) + layout_plan::split_count(
            session.windows@[i].layout,
        ) < compiler::panes_before(session, j),
    decreases j,
{
    if i < j - 1 {
        law_windows_do_not_share_panes(session, i, j - 1);
    }
}

// ─── NUL characters ──────────────────────────────────────────────────────────

/// No line holds a NUL character.
pub open spec fn clean(lines: Seq<Text>) -> bool {
    forall|i: int| 0 <= i < lines.len() ==> checks::no_nul(#[trigger] lines[i])
}

proof fn lemma_clean_add(a: Seq<Text>, b: Seq<Text>)
    requires
        clean(a),
        clean(b),
    ensures
        clean(a + b),
{
    assert forall|i: int| 0 <= i < (a + b).len() implies checks::no_nul(#[trigger] (a + b)[i]) by {
        if i < a.len() {
            assert(checks::no_nul(a[i]));
        } else {
            assert(checks::no_nul(b[i - a.len()]));
        }
    }
}

broadcast proof fn lemma_no_nul_add(a: Text, b: Text)
    ensures
        #[trigger] checks::no_nul(a + b) <==> checks::no_nul(a) && checks::no_nul(b),
{
    checks::lemma_no_nul_add(a, b);
}

broadcast proof fn lemma_no_nul_quoted(s: Text)
    requires
        checks::no_nul(s),
    ensures
        #[trigger] checks::no_nul(template::quoted(s)),
{
    template::lemma_quoted_no_nul(s);
}

broadcast proof fn lemma_no_nul_decimal(n: nat)
    ensures
        #[trigger] checks::no_nul(text::decimal(n)),
{
    text::lemma_decimal_digits(n);
    let s = text::decimal(n);
    if s.contains('\0') {
        let i = choose|i: int| 0 <= i < s.len() && s[i] == '\0';
        assert(text::is_digit(s[i]));
    }
}

proof fn lemma_no_nul_name(s: Text)
    requires
        checks::valid_tmux_name(s),
    ensures
        checks::no_nul(s),
{
    if s.contains('\0') {
        let i = choose|i: int| 0 <= i < s.len() && s[i] == '\0';
        assert(text::is_control(s[i]));
    }
}

proof fn lemma_no_nul_key(s: Text)
    requires
        checks::valid_env_key(s),
    ensures
        checks::no_nul(s),
{
    if s.contains('\0') {
        let i = choose|i: int| 0 <= i < s.len() && s[i] == '\0';
        assert(i == 0 || checks::is_key_rest(s[i]));
    }
}

/// The segments of a template without NUL hold none.
proof fn lemma_segments_clean(s: Text)
    requires
        checks::no_nul(s),
    ensures
        forall|i: int|
            0 <= i < template::segments(s).len() ==> match #[trigger] template::segments(s)[i] {
                Segment::Literal(t) => checks::no_nul(t),
                Segment::Key(t) => checks::no_nul(t),
            },
    decreases s.len(),
{
    if s.len() > 0 {
        template::lemma_find_pair(s, '{', 0);
        if let Some(i) = template::find_pair(s, '{', 0) {
            let after = s.skip(i + 2);
            let n = s.len() as int;
            checks::lemma_no_nul_subrange(s, 0, i);
            checks::lemma_no_nul_subrange(s, i + 2, n);
            assert(s.take(i) == s.subrange(0, i));
            assert(after == s.subrange(i + 2, n));
            template::lemma_find_pair(after, '}', 0);
            if let Some(j) = template::find_pair(after, '}', 0) {
                let m = after.len() as int;
                checks::lemma_no_nul_subrange(after, 0, j);
                checks::lemma_no_nul_subrange(after, j + 2, m);
                assert(after.take(j) == after.subrange(0, j));
                assert(after.skip(j + 2) == after.subrange(j + 2, m));
                lemma_segments_clean(after.skip(j + 2));
            } else {
                reveal_strlit("{{");
                lemma_segments_clean(after);
            }
        }
    }
}

/// The parts of a template without NUL hold none, if the values of the variables hold none.
pub proof fn lemma_parts_clean(s: Text, vars: TemplateVars)
    requires
        checks::no_nul(s),
        model::vars_wf(vars),
    ensures
        template::clean(template::parts(s, vars)),
{
    let segments = template::segments(s);
    let parts = template::parts(s, vars);
    lemma_segments_clean(s);
    reveal_strlit("{{");
    reveal_strlit("}}");
    assert forall|i: int| 0 <= i < parts.len() implies template::clean_part(#[trigger] parts[i]) by {
        let segment = segments[i];
        if let Segment::Key(key) = segment {
            ordered_map::lemma_find_none(vars@, key);
            if let Some(v) = ordered_map::find(vars@, key) {
                let k = choose|k: int|
                    0 <= k < vars@.len() && (#[trigger] vars@[k]).0@ == key && vars@[k].1 == v;
                assert(vars@[k].1.wf());
            } else {
                checks::lemma_no_nul_add("{{"@, key);
                checks::lemma_no_nul_add("{{"@ + key, "}}"@);
            }
        }
    }
}

proof fn lemma_resolved_clean(s: Text, vars: TemplateVars)
    requires
        checks::no_nul(s),
        model::vars_wf(vars),
    ensures
        checks::no_nul(template::resolved(s, vars)),
        checks::no_nul(template::word(s, vars)),
{
    lemma_parts_clean(s, vars);
    template::lemma_resolved_no_nul(template::parts(s, vars));
    template::lemma_word_no_nul(template::parts(s, vars));
    template::lemma_quoted_no_nul(Seq::empty());
}

proof fn lemma_env_args_clean(env: Seq<(Text, Text)>)
    requires
        forall|i: int|
            0 <= i < env.len() ==> checks::no_nul((#[trigger] env[i]).0) && checks::no_nul(env[i].1),
    ensures
        checks::no_nul(compiler::env_args(env)),
    decreases env.len(),
{
    broadcast use {lemma_no_nul_add, lemma_no_nul_quoted};

    let texts = env.map_values(|ev: (Text, Text)| compiler::env_arg(ev));
    if env.len() > 0 {
        let front = env.drop_last();
        assert forall|i: int| 0 <= i < front.len() implies checks::no_nul((#[trigger] front[i]).0)
            && checks::no_nul(front[i].1) by {
            assert(front[i] == env[i]);
        }
        lemma_env_args_clean(front);
        assert(front.map_values(|ev: (Text, Text)| compiler::env_arg(ev)) == texts.drop_last());
        reveal_strlit(" -e ");
        reveal_strlit("=");
        assert(checks::no_nul(env[env.len() - 1].0));
    }
}

proof fn lemma_pane_env_clean(session: Session, window: Window)
    requires
        model::env_wf(session.env@),
        model::env_wf(window.env@),
    ensures
        checks::no_nul(compiler::env_args(model::pane_env(session, window))),
{
    let env = model::pane_env(session, window);
    let n = session.env@.len() as int;
    assert forall|i: int| 0 <= i < env.len() implies checks::no_nul((#[trigger] env[i]).0)
        && checks::no_nul(env[i].1) by {
        if i < n {
            assert(session.env@[i].wf());
            lemma_no_nul_key(session.env@[i].key@);
        } else {
            assert(window.env@[i - n].wf());
            lemma_no_nul_key(window.env@[i - n].key@);
        }
    }
    lemma_env_args_clean(env);
}

proof fn lemma_pane_ref_clean(pane: int)
    ensures
        checks::no_nul(compiler::pane_var(pane)),
        checks::no_nul(compiler::pane_ref(pane)),
{
    broadcast use {lemma_no_nul_add, lemma_no_nul_decimal};

    reveal_strlit("PANE_");
    reveal_strlit("\"${");
    reveal_strlit("}\"");
}

proof fn lemma_preamble_clean(session: Session)
    requires
        session.wf(),
    ensures
        clean(compiler::preamble(session)),
{
    broadcast use {lemma_no_nul_add, lemma_no_nul_quoted};

    lemma_no_nul_name(session.name@);
    reveal_strlit("#!/usr/bin/env bash");
    reveal_strlit("set -euo pipefail");
    reveal_strlit("");
    reveal_strlit("SESSION=");
    reveal_strlit("if tmux has-session -t \"$SESSION\" 2>/dev/null; then");
    assert(clean(compiler::opening(session)));
    lemma_reuse_clean();
    reveal_strlit("fi");
    assert(clean(seq!["fi"@, ""@]));
    lemma_wait_helper_clean();
    reveal_strlit("# pre_hook");
    if let Some(hook) = session.pre_hook {
        lemma_resolved_clean(hook@, session.vars);
    }
    assert(clean(compiler::hook_lines(session)));
    let helper = if compiler::session_waits(session) {
        compiler::wait_helper()
    } else {
        Seq::empty()
    };
    let a = compiler::opening(session);
    let b = compiler::reuse_lines();
    let c = seq!["fi"@, ""@];
    lemma_clean_add(a, b);
    lemma_clean_add(a + b, c);
    lemma_clean_add(a + b + c, helper);
    lemma_clean_add(a + b + c + helper, compiler::hook_lines(session));
}

proof fn lemma_reuse_clean()
    ensures
        clean(compiler::reuse_lines()),
{
    reveal_strlit("  if [ -n \"${TMUX:-}\" ]; then");
    reveal_strlit("    exec tmux switch-client -t \"$SESSION\"");
    reveal_strlit("  elif [ -t 0 ]; then");
    reveal_strlit("    exec tmux attach-session -t \"$SESSION\"");
    reveal_strlit("  else");
    reveal_strlit("    echo \"session '$SESSION' is ready (not attaching; no terminal).\" >&2");
    reveal_strlit("    exit 0");
    reveal_strlit("  fi");
}

proof fn lemma_attach_clean()
    ensures
        clean(compiler::attach_lines()),
{
    reveal_strlit("if [ -n \"${TMUX:-}\" ]; then");
    reveal_strlit("  exec tmux switch-client -t \"$SESSION\"");
    reveal_strlit("else");
    reveal_strlit("  exec tmux attach-session -t \"$SESSION\"");
    reveal_strlit("fi");
}

proof fn lemma_wait_helper_clean()
    ensures
        clean(compiler::wait_helper()),
{
    reveal_strlit("# wait for pattern in pane output");
    reveal_strlit("_ntd_wait_pane() {");
    reveal_strlit("  local pane=$1 pattern=$2 timeout=${3:-30} elapsed=0");
    reveal_strlit("  while [ $elapsed -lt $timeout ]; do");
    reveal_strlit("    if tmux capture-pane -t \"$pane\" -p | grep -qF -- \"$pattern\"; then");
    reveal_strlit("      return 0");
    reveal_strlit("    fi");
    reveal_strlit("    sleep 1");
    reveal_strlit("    elapsed=$((elapsed + 1))");
    reveal_strlit("  done");
    reveal_strlit("  echo \"timeout after ${timeout}s: '$pattern' not seen in pane $pane\" >&2");
    reveal_strlit("  return 1");
    reveal_strlit("}");
    reveal_strlit("");
}

proof fn lemma_head_lines_clean(
    index: int,
    base: int,
    root: Text,
    name: Text,
    env: Seq<(Text, Text)>,
)
    requires
        checks::no_nul(root),
        checks::no_nul(name),
        checks::no_nul(compiler::env_args(env)),
    ensures
        checks::no_nul("# ── window "@ + text::decimal(index as nat) + ": "@ + name + " ──"@),
        checks::no_nul(compiler::initial_line(index == 0, base, root, name, env)),
{
    broadcast use {lemma_no_nul_add, lemma_no_nul_quoted, lemma_no_nul_decimal};

    lemma_pane_ref_clean(base);
    reveal_strlit("# ── window ");
    reveal_strlit(": ");
    reveal_strlit(" ──");
    reveal_strlit("=$(tmux new-session -d -s \"$SESSION\" -c ");
    reveal_strlit("=$(tmux new-window -t \"$SESSION\" -c ");
    reveal_strlit(" -n ");
    reveal_strlit(" -P -F '#{pane_id}')");
}

proof fn lemma_option_lines_clean(session: Session)
    requires
        model::options_wf(session.options),
    ensures
        clean(compiler::option_lines(session.options)),
{
    broadcast use {lemma_no_nul_add, lemma_no_nul_quoted};

    reveal_strlit("tmux set-option -t \"$SESSION\" -- ");
    reveal_strlit(" ");
    let options = compiler::option_lines(session.options);
    assert forall|i: int| 0 <= i < options.len() implies checks::no_nul(#[trigger] options[i]) by {
        assert(session.options@[i].0.wf() && session.options@[i].1.wf());
    }
}

proof fn lemma_split_line_clean(step: SplitStep, base: int, root: Text, env: Seq<(Text, Text)>)
    requires
        checks::no_nul(root),
        checks::no_nul(compiler::env_args(env)),
    ensures
        checks::no_nul(compiler::split_line(step, base, root, env)),
{
    broadcast use {lemma_no_nul_add, lemma_no_nul_decimal};

    lemma_pane_ref_clean(base + step.new);
    lemma_pane_ref_clean(base + step.parent);
    reveal_strlit("=$(tmux split-window -t ");
    reveal_strlit(" ");
    reveal_strlit("-h");
    reveal_strlit("-v");
    reveal_strlit(" -l ");
    reveal_strlit("%");
    reveal_strlit(" -c ");
    reveal_strlit(" -P -F '#{pane_id}')");
}

proof fn lemma_build_lines_clean(session: Session, index: int, base: int)
    requires
        session.wf(),
        0 <= index < session.windows@.len(),
    ensures
        clean(compiler::build_lines(session, session.windows@[index], index, base)),
{
    let window = session.windows@[index];
    assert(window.wf());
    let root = template::word(model::root_text(session, window), session.vars);
    let env = model::pane_env(session, window);
    let plan = layout_plan::plan_of(window.layout, session.vars);
    assert(checks::no_nul(model::root_text(session, window))) by {
        reveal_strlit("~");
    }
    lemma_resolved_clean(model::root_text(session, window), session.vars);
    lemma_pane_env_clean(session, window);
    lemma_no_nul_name(window.name@);
    lemma_head_lines_clean(index, base, root, window.name@, env);
    let head = seq![
        "# ── window "@ + text::decimal(index as nat) + ": "@ + window.name@ + " ──"@,
        compiler::initial_line(index == 0, base, root, window.name@, env),
    ];
    assert(clean(head));
    let options = if index == 0 {
        compiler::option_lines(session.options)
    } else {
        Seq::empty()
    };
    lemma_option_lines_clean(session);
    let splits = compiler::split_lines(plan.splits, base, root, env);
    assert forall|i: int| 0 <= i < splits.len() implies checks::no_nul(#[trigger] splits[i]) by {
        lemma_split_line_clean(plan.splits[i], base, root, env);
    }
    lemma_clean_add(head, options);
    lemma_clean_add(head + options, splits);
}

/// The texts of a leaf hold no NUL character.
spec fn leaf_clean(leaf: LeafStep) -> bool {
    &&& leaf.command matches Some(c) ==> checks::no_nul(c)
    &&& leaf.title matches Some(t) ==> checks::no_nul(t)
    &&& leaf.wait_for matches Some((pattern, _)) ==> checks::no_nul(pattern)
}

proof fn lemma_leaves_clean(node: LayoutNode, current: int, next: int, vars: TemplateVars)
    requires
        node.wf(),
        model::vars_wf(vars),
    ensures
        forall|i: int|
            0 <= i < layout_plan::leaves_of(node, current, next, vars).len() ==> leaf_clean(
                #[trigger] layout_plan::leaves_of(node, current, next, vars)[i],
            ),
    decreases node,
{
    match node {
        LayoutNode::Pane { command, focus, title, wait_for } => {
            if let Some(c) = command {
                lemma_resolved_clean(c@, vars);
            }
            if let Some(t) = title {
                lemma_resolved_clean(t@, vars);
            }
            if let Some(w) = wait_for {
                assert(w.pattern.wf());
            }
            assert(leaf_clean(layout_plan::leaves_of(node, current, next, vars)[0]));
        },
        LayoutNode::Split { direction, ratio, first, second } => {
            let c = layout_plan::split_count(*first);
            lemma_leaves_clean(*first, current, next + 1, vars);
            lemma_leaves_clean(*second, next, next + 1 + c, vars);
            let a = layout_plan::leaves_of(*first, current, next + 1, vars);
            let b = layout_plan::leaves_of(*second, next, next + 1 + c, vars);
            let leaves = layout_plan::leaves_of(node, current, next, vars);
            assert forall|i: int| 0 <= i < leaves.len() implies leaf_clean(
                #[trigger] leaves[i],
            ) by {
                if i < a.len() {
                    assert(leaf_clean(a[i]));
                } else {
                    assert(leaf_clean(b[i - a.len()]));
                }
            }
        },
    }
}

proof fn lemma_leaf_lines_clean(leaf: LeafStep, base: int)
    requires
        leaf_clean(leaf),
    ensures
        clean(compiler::leaf_lines(leaf, base)),
{
    broadcast use {lemma_no_nul_add, lemma_no_nul_quoted, lemma_no_nul_decimal};

    let pane = base + leaf.pane;
    lemma_pane_ref_clean(pane);
    reveal_strlit("tmux send-keys -t ");
    reveal_strlit(" -l -- ");
    reveal_strlit(" Enter");
    reveal_strlit("_ntd_wait_pane ");
    reveal_strlit(" ");
    reveal_strlit("tmux select-pane -t ");
    reveal_strlit(" -T ");
    let a = compiler::command_lines(pane, leaf.command);
    let b = compiler::wait_lines(pane, leaf.wait_for);
    let c = compiler::title_lines(pane, leaf.title);
    assert(clean(a));
    assert(clean(b));
    assert(clean(c));
    lemma_clean_add(a, b);
    lemma_clean_add(a + b, c);
}

proof fn lemma_leaves_lines_clean(leaves: Seq<LeafStep>, base: int)
    requires
        forall|i: int| 0 <= i < leaves.len() ==> leaf_clean(#[trigger] leaves[i]),
    ensures
        clean(compiler::leaves_lines(leaves, base)),
    decreases leaves.len(),
{
    if leaves.len() > 0 {
        let front = leaves.drop_last();
        assert forall|i: int| 0 <= i < front.len() implies leaf_clean(#[trigger] front[i]) by {
            assert(front[i] == leaves[i]);
        }
        lemma_leaves_lines_clean(front, base);
        assert(leaf_clean(leaves[leaves.len() - 1]));
        lemma_leaf_lines_clean(leaves.last(), base);
        lemma_clean_add(
            compiler::leaves_lines(front, base),
            compiler::leaf_lines(leaves.last(), base),
        );
    }
}

proof fn lemma_configure_lines_clean(session: Session, index: int, base: int)
    requires
        session.wf(),
        0 <= index < session.windows@.len(),
    ensures
        clean(compiler::configure_lines(session, session.windows@[index], base)),
{
    broadcast use {lemma_no_nul_add, lemma_no_nul_quoted};

    let window = session.windows@[index];
    assert(window.wf());
    let plan = layout_plan::plan_of(window.layout, session.vars);
    lemma_leaves_clean(window.layout, 0, 1, session.vars);
    lemma_leaves_lines_clean(plan.leaves, base);
    lemma_no_nul_name(window.name@);
    reveal_strlit("tmux set-window-option -t \"$SESSION:\"");
    reveal_strlit("  -- ");
    reveal_strlit(" ");
    reveal_strlit("tmux select-layout -t \"$SESSION:\"");
    reveal_strlit("tmux select-pane -t ");
    reveal_strlit("");
    let a = compiler::leaves_lines(plan.leaves, base);
    let b = compiler::window_option_lines(window);
    let c = compiler::preset_lines(window);
    let d = compiler::focus_lines(plan.leaves, base);
    assert forall|i: int| 0 <= i < b.len() implies checks::no_nul(#[trigger] b[i]) by {
        assert(window.options@[i].0.wf() && window.options@[i].1.wf());
    }
    assert(clean(c));
    if let Some(pane) = layout_plan::focused(plan.leaves) {
        lemma_pane_ref_clean(base + pane);
    }
    assert(clean(d));
    assert(clean(seq![""@]));
    lemma_clean_add(a, b);
    lemma_clean_add(a + b, c);
    lemma_clean_add(a + b + c, d);
    lemma_clean_add(a + b + c + d, seq![""@]);
}

proof fn lemma_windows_lines_clean(session: Session, n: int)
    requires
        session.wf(),
        0 <= n <= session.windows@.len(),
    ensures
        clean(compiler::windows_lines(session, n)),
    decreases n,
{
    if n > 0 {
        let base = compiler::panes_before(session, n - 1);
        lemma_windows_lines_clean(session, n - 1);
        lemma_build_lines_clean(session, n - 1, base);
        lemma_configure_lines_clean(session, n - 1, base);
        let a = compiler::build_lines(session, session.windows@[n - 1], n - 1, base);
        let b = compiler::configure_lines(session, session.windows@[n - 1], base);
        lemma_clean_add(a, b);
        lemma_clean_add(compiler::windows_lines(session, n - 1), a + b);
    }
}

/// No session can bring a NUL character, which no shell can hold, into its script.
pub proof fn law_script_holds_no_nul(session: Session)
    requires
        session.wf(),
    ensures
        clean(compiler::script(session)),
{
    let n = session.windows@.len() as int;
    lemma_preamble_clean(session);
    lemma_windows_lines_clean(session, n);
    reveal_strlit("tmux select-window -t \"$SESSION:^\"");
    lemma_attach_clean();
    let a = compiler::preamble(session);
    let b = compiler::windows_lines(session, n);
    let c = seq!["tmux select-window -t \"$SESSION:^\""@];
    assert(clean(c));
    lemma_clean_add(a, b);
    lemma_clean_add(a + b, c);
    lemma_clean_add(a + b + c, compiler::attach_lines());
}

} // verus!
