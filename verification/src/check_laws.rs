//! Which texts the rules for names, keys and values let through, and what is told of the others.

use crate::checks;
use crate::model;
use crate::model::{LayoutNode, Session};
use crate::ordered_map::{MapKey, TemplateVars, TmuxOptions};
use crate::text;
use crate::text::Text;
use crate::text_laws;
use crate::validate;
use crate::words::TmuxName;
use vstd::prelude::*;

verus! {

// ─── Names ───────────────────────────────────────────────────────────────────

/// Control characters are those below the space and those from delete to U+009F.
pub proof fn law_control_characters(c: char)
    ensures
        text::is_control(c) <==> c < ' ' || '\u{7f}' <= c <= '\u{9f}',
{
}

/// A tmux name is any text but the empty one, without colons, dots and control characters, which
/// are the characters below the space and those from delete to U+009F.
pub proof fn law_tmux_names(s: Text)
    ensures
        checks::valid_tmux_name(s) <==> s.len() > 0 && forall|i: int|
            0 <= i < s.len() ==> (#[trigger] s[i]) != ':' && s[i] != '.' && ' ' <= s[i] && !(
            '\u{7f}' <= s[i] <= '\u{9f}'),
        forall|context: Text|
            #[trigger] checks::tmux_name_error(s, context) is None <==> checks::valid_tmux_name(s),
{
    assert forall|context: Text|
        #[trigger] checks::tmux_name_error(s, context) is None <==> checks::valid_tmux_name(s) by {
        checks::lemma_tmux_name_error(s, context);
    }
    if checks::valid_tmux_name(s) {
        assert forall|i: int| 0 <= i < s.len() implies (#[trigger] s[i]) != ':' && s[i] != '.' && ' '
            <= s[i] && !('\u{7f}' <= s[i] <= '\u{9f}') by {
            assert(!checks::is_separator(s[i]) && !text::is_control(s[i]));
            law_control_characters(s[i]);
        }
    } else if s.len() > 0 {
        let i = choose|i: int|
            0 <= i < s.len() && (checks::is_separator(#[trigger] s[i]) || text::is_control(s[i]));
        law_control_characters(s[i]);
    }
}

/// The first separator in what is left of a name when its first characters hold none.
proof fn lemma_separator_behind(a: Text, c: char, b: Text)
    requires
        forall|i: int| 0 <= i < a.len() ==> (#[trigger] a[i]) != ':' && a[i] != '.',
        c == ':' || c == '.',
    ensures
        checks::first_separator(a + seq![c] + b) == Some(c),
    decreases a.len(),
{
    let s = a + seq![c] + b;
    if a.len() == 0 {
        assert(s[0] == c);
    } else {
        assert(s[0] == a[0]);
        assert(s.skip(1) =~= a.skip(1) + seq![c] + b);
        assert forall|i: int| 0 <= i < a.skip(1).len() implies (#[trigger] a.skip(1)[i]) != ':'
            && a.skip(1)[i] != '.' by {
            assert(a.skip(1)[i] == a[i + 1]);
        }
        lemma_separator_behind(a.skip(1), c, b);
    }
}

proof fn lemma_no_separator(s: Text)
    requires
        forall|i: int| 0 <= i < s.len() ==> (#[trigger] s[i]) != ':' && s[i] != '.',
    ensures
        checks::first_separator(s) is None,
    decreases s.len(),
{
    if s.len() > 0 {
        assert(s[0] != ':');
        assert forall|i: int| 0 <= i < s.skip(1).len() implies (#[trigger] s.skip(1)[i]) != ':'
            && s.skip(1)[i] != '.' by {
            assert(s.skip(1)[i] == s[i + 1]);
        }
        lemma_no_separator(s.skip(1));
    }
}

proof fn lemma_control_behind(a: Text, c: char, b: Text)
    requires
        forall|i: int| 0 <= i < a.len() ==> !text::is_control(#[trigger] a[i]),
        text::is_control(c),
    ensures
        checks::first_control(a + seq![c] + b) == Some(c),
    decreases a.len(),
{
    let s = a + seq![c] + b;
    if a.len() == 0 {
        assert(s[0] == c);
    } else {
        assert(s[0] == a[0]);
        assert(s.skip(1) =~= a.skip(1) + seq![c] + b);
        assert forall|i: int| 0 <= i < a.skip(1).len() implies !text::is_control(
            #[trigger] a.skip(1)[i],
        ) by {
            assert(a.skip(1)[i] == a[i + 1]);
        }
        lemma_control_behind(a.skip(1), c, b);
    }
}

/// What is told of a name with a separator: the first one in it.
pub proof fn law_first_separator_is_told(a: Text, c: char, b: Text, context: Text)
    requires
        forall|i: int| 0 <= i < a.len() ==> (#[trigger] a[i]) != ':' && a[i] != '.',
        c == ':' || c == '.',
    ensures
        checks::tmux_name_error(a + seq![c] + b, context) == Some(
            seq![
                context + ": tmux name must not contain "@ + text::debug_char(c)
                    + " (tmux target separator)"@,
            ],
        ),
{
    lemma_separator_behind(a, c, b);
}

/// What is told of a name without separators but with a control character: the first one in it.
pub proof fn law_first_control_character_is_told(a: Text, c: char, b: Text, context: Text)
    requires
        forall|i: int|
            0 <= i < a.len() ==> (#[trigger] a[i]) != ':' && a[i] != '.' && !text::is_control(a[i]),
        c < ' ' || '\u{7f}' <= c <= '\u{9f}',
        forall|i: int| 0 <= i < b.len() ==> (#[trigger] b[i]) != ':' && b[i] != '.',
    ensures
        checks::tmux_name_error(a + seq![c] + b, context) == Some(
            seq![
                context + ": tmux name must not contain control characters (found "@
                    + text::debug_char(c) + ")"@,
            ],
        ),
{
    let s = a + seq![c] + b;
    assert forall|i: int| 0 <= i < s.len() implies (#[trigger] s[i]) != ':' && s[i] != '.' by {
        if i < a.len() {
            assert(s[i] == a[i]);
        } else if i > a.len() {
            assert(s[i] == b[i - a.len() - 1]);
        }
    }
    lemma_no_separator(s);
    lemma_control_behind(a, c, b);
}

/// What is told of an empty name.
pub proof fn law_empty_names_are_refused(context: Text)
    ensures
        checks::tmux_name_error(Seq::empty(), context) == Some(
            seq![context + ": tmux name must not be empty"@],
        ),
        checks::env_key_error(Seq::empty(), context) == Some(
            seq![context + ": env var key must not be empty"@],
        ),
        checks::option_name_error(Seq::empty(), context) == Some(
            seq![context + ": tmux option key must not be empty"@],
        ),
        checks::wait_pattern_error(Seq::empty(), context) == Some(
            seq![context + ": wait_for pattern must not be empty"@],
        ),
        checks::pane_id_error(Seq::empty()) == Some(seq!["pane id must not be empty"@]),
{
}

/// The names of environment and template variables are made of ASCII letters, digits and
/// underscores, and do not start with a digit.
pub proof fn law_variable_names(s: Text, context: Text)
    ensures
        checks::valid_env_key(s) <==> s.len() > 0 && !('0' <= s[0] <= '9') && forall|i: int|
            0 <= i < s.len() ==> ('a' <= #[trigger] s[i] <= 'z') || ('A' <= s[i] <= 'Z') || ('0'
                <= s[i] <= '9') || s[i] == '_',
        checks::env_key_error(s, context) is None <==> checks::valid_env_key(s),
        s.len() > 0 && !checks::valid_env_key(s) ==> checks::env_key_error(s, context) == Some(
            seq![
                context + ": invalid env var key "@ + text::debug_text(s) + (if ('a' <= s[0] <= 'z')
                    || ('A' <= s[0] <= 'Z') || s[0] == '_' {
                    ": must contain only ASCII letters, digits, or underscores"@
                } else {
                    ": must start with ASCII letter or underscore"@
                }),
            ],
        ),
{
    if checks::valid_env_key(s) {
        assert forall|i: int| 0 <= i < s.len() implies ('a' <= #[trigger] s[i] <= 'z') || ('A'
            <= s[i] <= 'Z') || ('0' <= s[i] <= '9') || s[i] == '_' by {
            assert(i == 0 || checks::is_key_rest(s[i]));
        }
    }
}

/// The names of tmux options are texts without NUL that do not start with a dash.
pub proof fn law_option_names(s: Text, context: Text)
    ensures
        checks::option_name_error(s, context) is None <==> s.len() > 0 && s[0] != '-'
            && !s.contains('\0'),
        checks::valid_option_name(s) <==> checks::option_name_error(s, context) is None,
        s.len() > 0 && s[0] == '-' && !s.contains('\0') ==> checks::option_name_error(s, context)
            == Some(
            seq![
                context + ": invalid tmux option key "@ + text::debug_text(s)
                    + ": must not start with '-' (would be parsed as a flag)"@,
            ],
        ),
        s.contains('\0') ==> checks::option_name_error(s, context) == Some(
            seq![context + ": must not contain NUL bytes"@],
        ),
{
}

/// Free text is any text without NUL.
pub proof fn law_free_text(s: Text, context: Text)
    ensures
        checks::nul_error(s, context) == (if exists|i: int| 0 <= i < s.len() && s[i] == '\0' {
            Some(seq![context + ": must not contain NUL bytes"@])
        } else {
            None
        }),
        checks::no_nul(s) <==> !exists|i: int| 0 <= i < s.len() && s[i] == '\0',
{
}

/// Patterns, working directories and layout presets are free text that is not empty.
pub proof fn law_texts_that_must_not_be_empty(s: Text, context: Text, what: Text)
    ensures
        checks::wait_pattern_error(s, context) is None <==> s.len() > 0 && !s.contains('\0'),
        checks::non_empty_error(s, context, what) is None <==> s.len() > 0 && !s.contains('\0'),
        checks::valid_non_empty(s) <==> s.len() > 0 && !s.contains('\0'),
        s.len() == 0 ==> checks::non_empty_error(s, context, what) == Some(
            seq![context + what + " must not be empty"@],
        ),
{
}

/// A pane id is a percent sign and a row of digits.
pub proof fn law_pane_ids(s: Text)
    ensures
        checks::valid_pane_id(s) <==> s.len() > 1 && s[0] == '%' && forall|i: int|
            0 < i < s.len() ==> '0' <= #[trigger] s[i] <= '9',
        checks::pane_id_error(s) is None <==> checks::valid_pane_id(s),
        s.len() > 0 && !s.contains('\0') && !checks::valid_pane_id(s) ==> checks::pane_id_error(s)
            == Some(seq!["pane id must be a tmux pane id like %0, got "@ + text::debug_text(s)]),
{
    checks::lemma_pane_id_error(s);
    if checks::valid_pane_id(s) {
        assert forall|i: int| 0 < i < s.len() implies '0' <= #[trigger] s[i] <= '9' by {
            assert(text::is_digit(s[i]));
        }
    }
}

/// Options and variables stand in the order of their names, and no name stands twice.
pub proof fn law_names_of_options_and_variables(
    options: TmuxOptions,
    vars: TemplateVars,
    i: int,
    j: int,
)
    requires
        options.wf(),
        vars.wf(),
        0 <= i < j,
    ensures
        j < options@.len() ==> exists|k: int|
            text_laws::smaller_at(options@[i].0@, options@[j].0@, k),
        j < vars@.len() ==> exists|k: int| text_laws::smaller_at(vars@[i].0@, vars@[j].0@, k),
{
    if j < options@.len() {
        text_laws::law_order_of_texts(options@[i].0@, options@[j].0@);
        assert(text::before(options@[i].0.text(), options@[j].0.text()));
    }
    if j < vars@.len() {
        text_laws::law_order_of_texts(vars@[i].0@, vars@[j].0@);
        assert(text::before(vars@[i].0.text(), vars@[j].0.text()));
    }
}

// ─── The first of several failures ───────────────────────────────────────────

/// Of several tests, what is told is the failure of the first that fails.
pub proof fn law_first_failure_is_told(tests: Seq<Option<Seq<Text>>>, k: int)
    requires
        0 <= k < tests.len(),
        tests[k] is Some,
        forall|i: int| 0 <= i < k ==> (#[trigger] tests[i]) is None,
    ensures
        validate::first_failure(tests) == tests[k],
{
    let first = tests.take(k + 1);
    let before = tests.take(k);
    assert(first.drop_last() =~= before);
    validate::lemma_no_failure(before);
    assert forall|i: int| 0 <= i < before.len() implies (#[trigger] before[i]) is None by {
        assert(before[i] == tests[i]);
    }
    validate::lemma_first_failure(tests, k + 1);
}

/// Of two tests, the failure of the first is told, else that of the second; and a context is put
/// before the messages of a failure, and makes none.
pub proof fn law_failures_of_two_tests(
    a: Option<Seq<Text>>,
    b: Option<Seq<Text>>,
    context: Text,
)
    ensures
        a is Some ==> validate::or_else(a, b) == a,
        a is None ==> validate::or_else(a, b) == b,
        match a {
            Some(messages) => validate::in_context(context, a) == Some(seq![context] + messages),
            None => validate::in_context(context, a) is None,
        },
{
}

// ─── Layout trees ────────────────────────────────────────────────────────────

/// A pane stands as deep as the root of its tree, and the deepest pane of a split is one deeper
/// than that of one of its children, and less deep than that of none.
pub proof fn law_depth_of_trees(node: LayoutNode)
    ensures
        match node {
            LayoutNode::Pane { .. } => model::layout_depth(node) == 0,
            LayoutNode::Split { direction, ratio, first, second } => {
                let a = model::layout_depth(*first) + 1;
                let b = model::layout_depth(*second) + 1;
                &&& model::layout_depth(node) == a || model::layout_depth(node) == b
                &&& a <= model::layout_depth(node) && b <= model::layout_depth(node)
            },
        },
{
}

// ─── Sessions ────────────────────────────────────────────────────────────────

/// The window at `i` is one that validation lets through: no window before it has its name, and no
/// pane of its layout is deeper than 64.
pub open spec fn acceptable(s: Session, i: int) -> bool {
    &&& forall|j: int|
        0 <= j < i ==> (#[trigger] s.windows@[j]).name@ != s.windows@[i].name@
    &&& model::layout_depth(s.windows@[i].layout) <= 64
}

/// A session passes validation exactly when it has a window and all its windows are acceptable.
pub proof fn law_sessions_that_pass(s: Session)
    requires
        s.wf(),
    ensures
        validate::session_error(s) is None <==> s.windows@.len() > 0 && forall|i: int|
            0 <= i < s.windows@.len() ==> #[trigger] acceptable(s, i),
        s.windows@.len() == 0 ==> validate::session_error(s) == Some(
            seq!["session must define at least one window"@],
        ),
{
    validate::law_validation(s);
    validate::lemma_only_windows_fail(s);
    if validate::valid_session(s) {
        assert forall|i: int| 0 <= i < s.windows@.len() implies #[trigger] acceptable(s, i) by {
            assert(model::layout_depth(s.windows@[i].layout) <= 64);
        }
    }
    if s.windows@.len() > 0 && forall|i: int|
        0 <= i < s.windows@.len() ==> #[trigger] acceptable(s, i) {
        assert forall|i: int, j: int| 0 <= i < j < s.windows@.len() implies (
        #[trigger] s.windows@[i]).name@ != (#[trigger] s.windows@[j]).name@ by {
            assert(acceptable(s, j));
        }
        assert forall|i: int| 0 <= i < s.windows@.len() implies model::layout_depth(
            (#[trigger] s.windows@[i]).layout,
        ) <= model::MAX_LAYOUT_DEPTH by {
            assert(acceptable(s, i));
        }
    }
}

/// Which node of a tree is told to be too deep does not matter here: the message names the window
/// and the way to the node.
proof fn lemma_depth_message(node: LayoutNode, context: Text, depth: int) -> (way: Text)
    requires
        node.wf(),
        0 <= depth <= 65,
        depth + model::layout_depth(node) > 64,
    ensures
        validate::layout_error(node, context, depth) == Some(
            seq![context + way + ": layout tree is too deeply nested (max depth: 64)"@],
        ),
    decreases node,
{
    let none = Seq::<char>::empty();
    if depth > 64 {
        assert(context + none =~= context);
        none
    } else {
        match node {
            LayoutNode::Pane { .. } => none,
            LayoutNode::Split { direction, ratio, first, second } => {
                let a = context + ".first"@;
                let b = context + ".second"@;
                validate::lemma_layout_error(*first, a, depth + 1);
                if depth + 1 + model::layout_depth(*first) > 64 {
                    let way = lemma_depth_message(*first, a, depth + 1);
                    assert(context + (".first"@ + way) =~= a + way);
                    ".first"@ + way
                } else {
                    let way = lemma_depth_message(*second, b, depth + 1);
                    assert(context + (".second"@ + way) =~= b + way);
                    ".second"@ + way
                }
            },
        }
    }
}

/// Where a session does not pass because of its windows, the first window that is not acceptable is
/// told, and why: its name is used already, or its layout is too deep.
pub proof fn law_first_bad_window_is_told(s: Session, i: int)
    requires
        s.wf(),
        0 <= i < s.windows@.len(),
        forall|j: int| 0 <= j < i ==> #[trigger] acceptable(s, j),
        !acceptable(s, i),
    ensures
        ({
            let shown = "TmuxName("@ + text::debug_text(s.windows@[i].name@) + ")"@;
            if exists|j: int| 0 <= j < i && (#[trigger] s.windows@[j]).name@ == s.windows@[i].name@ {
                validate::session_error(s) == Some(seq!["duplicate window name "@ + shown])
            } else {
                exists|way: Text|
                    validate::session_error(s) == Some(
                        seq![
                            #[trigger] ("window "@ + shown + way)
                                + ": layout tree is too deeply nested (max depth: 64)"@,
                        ],
                    )
            }
        }),
{
    let w = s.windows@[i];
    let shown = TmuxName::debug(w.name@);
    let tests = validate::window_tests(s.windows@);
    validate::lemma_only_windows_fail(s);
    assert forall|j: int| 0 <= j < i implies (#[trigger] tests[j]) is None by {
        assert(acceptable(s, j));
        assert(s.windows@[j].wf());
        validate::lemma_window_error(s.windows@, j);
        assert(!validate::repeats_name(s.windows@, j));
    }
    assert(w.wf());
    validate::lemma_window_error(s.windows@, i);
    assert(tests.take(i + 1).drop_last() =~= tests.take(i));
    validate::lemma_no_failure(tests.take(i));
    assert forall|j: int| 0 <= j < i implies (#[trigger] tests.take(i)[j]) is None by {
        assert(tests[j] is None);
    }
    assert(validate::first_failure(tests.take(i + 1)) == tests[i]);
    validate::lemma_first_failure(tests, i + 1);
    validate::lemma_window_parts_pass(s.windows@, i);
    if !validate::repeats_name(s.windows@, i) {
        let way = lemma_depth_message(w.layout, "window "@ + shown, 0);
        assert(validate::session_error(s) == Some(
            seq![
                ("window "@ + shown + way)
                    + ": layout tree is too deeply nested (max depth: 64)"@,
            ],
        ));
    }
}

} // verus!
