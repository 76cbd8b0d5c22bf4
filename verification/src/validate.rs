//! The validation of a whole session.
//!
//! The parts of a session are valid by their types; their rules are tested here once more, so that
//! a message says where in the session a part stands. What the types do not say is that a session
//! has a window, that window names differ, and that layout trees are not too deep.

use crate::checks;
use crate::error;
use crate::error::Error;
use crate::model;
use crate::model::{EnvVar, LayoutNode, Session, WaitFor, Window, MAX_LAYOUT_DEPTH};
use crate::ordered_map::TmuxOptions;
use crate::text;
use crate::text::Text;
use crate::words::{
    EnvVarName, PaneCommand, PaneTitle, RootTemplate, ShellCommand, TemplateVarName,
    TemplateVarValue, TmuxLayoutPreset, TmuxName, TmuxOptionName, TmuxOptionValue,
};
use vstd::prelude::*;
use vstd::string::*;

verus! {

// ─── The first of several failures ───────────────────────────────────────────

/// The first failure of two tests.
pub open spec fn or_else(a: Option<Seq<Text>>, b: Option<Seq<Text>>) -> Option<Seq<Text>> {
    if a is Some {
        a
    } else {
        b
    }
}

/// The first failure of a list of tests.
pub open spec fn first_failure(tests: Seq<Option<Seq<Text>>>) -> Option<Seq<Text>>
    decreases tests.len(),
{
    if tests.len() == 0 {
        None
    } else {
        or_else(first_failure(tests.drop_last()), tests.last())
    }
}

/// The first failure of a list is that of its first part that fails.
pub proof fn lemma_first_failure(tests: Seq<Option<Seq<Text>>>, n: int)
    requires
        0 <= n <= tests.len(),
        first_failure(tests.take(n)) is Some,
    ensures
        first_failure(tests) == first_failure(tests.take(n)),
    decreases tests.len(),
{
    if n < tests.len() {
        assert(tests.drop_last().take(n) == tests.take(n));
        lemma_first_failure(tests.drop_last(), n);
    } else {
        assert(tests.take(n) == tests);
    }
}

/// A list of tests has no failure exactly when none of them fails.
pub proof fn lemma_no_failure(tests: Seq<Option<Seq<Text>>>)
    ensures
        first_failure(tests) is None <==> forall|i: int|
            0 <= i < tests.len() ==> (#[trigger] tests[i]) is None,
    decreases tests.len(),
{
    if tests.len() > 0 {
        let front = tests.drop_last();
        lemma_no_failure(front);
        assert(forall|i: int| 0 <= i < front.len() ==> #[trigger] front[i] == tests[i]);
        assert(forall|i: int| 0 <= i < front.len() ==> #[trigger] tests[i] == front[i]);
        assert(tests.last() == tests[tests.len() - 1]);
    }
}

/// A failure, put in context.
pub open spec fn in_context(context: Text, e: Option<Seq<Text>>) -> Option<Seq<Text>> {
    match e {
        Some(chain) => Some(seq![context] + chain),
        None => None,
    }
}

// ─── Parts ───────────────────────────────────────────────────────────────────

/// The failure of an environment variable.
pub open spec fn env_var_error(ev: EnvVar, context: Text) -> Option<Seq<Text>> {
    or_else(
        checks::env_key_error(ev.key@, context + " key"@),
        checks::nul_error(ev.value@, context + " value"@),
    )
}

fn validate_env_var(ev: &EnvVar, context: &str) -> (r: Result<(), Error>)
    ensures
        error::failure(r) == env_var_error(*ev, context@),
{
    checks::validate_env_key(ev.key.as_str(), context.to_owned().concat(" key").as_str())?;
    checks::validate_no_nul(ev.value.as_str(), context.to_owned().concat(" value").as_str())
}

/// The failure of one tmux option.
pub open spec fn option_error(
    entry: (TmuxOptionName, TmuxOptionValue),
    context: Text,
) -> Option<Seq<Text>> {
    or_else(
        checks::option_name_error(entry.0@, context + " key "@ + TmuxOptionName::debug(entry.0@)),
        checks::nul_error(entry.1@, context + " value for "@ + TmuxOptionName::debug(entry.0@)),
    )
}

/// The failures of tmux options, in the order of their names.
pub open spec fn option_tests(options: TmuxOptions, context: Text) -> Seq<Option<Seq<Text>>> {
    options@.map_values(
        |entry: (TmuxOptionName, TmuxOptionValue)| option_error(entry, context),
    )
}

fn validate_tmux_options(options: &TmuxOptions, context: &str) -> (r: Result<(), Error>)
    ensures
        error::failure(r) == first_failure(option_tests(*options, context@)),
{
    let entries = options.entries();
    let ghost tests = option_tests(*options, context@);
    for i in 0..entries.len()
        invariant
            entries@ == options@,
            tests == option_tests(*options, context@),
            first_failure(tests.take(i as int)) is None,
    {
        proof {
            assert(tests.take(i + 1).drop_last() == tests.take(i as int));
            if tests[i as int] is Some {
                lemma_first_failure(tests, i + 1);
            }
        }
        let key = &entries[i].0;
        let value = &entries[i].1;
        checks::validate_tmux_option_name(
            key.as_str(),
            context.to_owned().concat(" key ").concat(key.debug_string().as_str()).as_str(),
        )?;
        checks::validate_tmux_option_value(
            value.as_str(),
            context.to_owned().concat(" value for ").concat(key.debug_string().as_str()).as_str(),
        )?;
    }
    assert(tests.take(tests.len() as int) == tests);
    Ok(())
}

/// The failure of what a pane waits for.
pub open spec fn wait_for_error(wait_for: WaitFor, context: Text) -> Option<Seq<Text>> {
    checks::wait_pattern_error(wait_for.pattern@, context + " pattern"@)
}

fn validate_wait_for(wait_for: &WaitFor, context: &str) -> (r: Result<(), Error>)
    ensures
        error::failure(r) == wait_for_error(*wait_for, context@),
{
    checks::validate_wait_pattern(
        wait_for.pattern.as_str(),
        context.to_owned().concat(" pattern").as_str(),
    )
}

/// The failure of a working directory.
pub open spec fn root_error(root: Option<RootTemplate>, context: Text) -> Option<Seq<Text>> {
    match root {
        Some(root) => checks::non_empty_error(root@, context, ":"@),
        None => None,
    }
}

fn validate_root(root: &Option<RootTemplate>, context: &str) -> (r: Result<(), Error>)
    ensures
        error::failure(r) == root_error(*root, context@),
{
    match root {
        Some(root) => checks::validate_non_empty_no_nul(root.as_str(), context),
        None => Ok(()),
    }
}

/// The failure of a layout tree whose root stands at depth `depth`.
pub open spec fn layout_error(node: LayoutNode, context: Text, depth: int) -> Option<Seq<Text>>
    decreases node,
{
    if depth > MAX_LAYOUT_DEPTH {
        Some(seq![context + ": layout tree is too deeply nested (max depth: 64)"@])
    } else {
        match node {
            LayoutNode::Pane { command, focus, title, wait_for } => {
                let of_command = match command {
                    Some(c) => in_context(
                        context + " command"@,
                        checks::nul_error(c@, "pane command"@),
                    ),
                    None => None,
                };
                let of_title = match title {
                    Some(t) => in_context(
                        context + " title"@,
                        checks::nul_error(t@, "pane title"@),
                    ),
                    None => None,
                };
                let of_wait = match wait_for {
                    Some(w) => wait_for_error(w, context + " wait_for"@),
                    None => None,
                };
                or_else(or_else(of_command, of_title), of_wait)
            },
            LayoutNode::Split { direction, ratio, first, second } => or_else(
                layout_error(*first, context + ".first"@, depth + 1),
                layout_error(*second, context + ".second"@, depth + 1),
            ),
        }
    }
}

fn validate_layout(node: &LayoutNode, context: &str, depth: usize) -> (r: Result<(), Error>)
    ensures
        error::failure(r) == layout_error(*node, context@, depth as int),
    decreases node,
{
    if depth > MAX_LAYOUT_DEPTH {
        return Err(
            Error::msg(
                context.to_owned().concat(
                    ": layout tree is too deeply nested (max depth: 64)",
                ),
            ),
        );
    }
    match node {
        LayoutNode::Pane { command, focus: _, title, wait_for } => {
            if let Some(command) = command {
                if let Err(e) = PaneCommand::new(command.as_str()) {
                    return Err(e.context(context.to_owned().concat(" command")));
                }
            }
            if let Some(title) = title {
                if let Err(e) = PaneTitle::new(title.as_str()) {
                    return Err(e.context(context.to_owned().concat(" title")));
                }
            }
            if let Some(wait_for) = wait_for {
                validate_wait_for(wait_for, context.to_owned().concat(" wait_for").as_str())?;
            }
        },
        LayoutNode::Split { direction: _, ratio: _, first, second } => {
            validate_layout(first, context.to_owned().concat(".first").as_str(), depth + 1)?;
            validate_layout(second, context.to_owned().concat(".second").as_str(), depth + 1)?;
        },
    }
    Ok(())
}

/// A tree that passes is nowhere deeper than the limit.
pub proof fn lemma_layout_depth(node: LayoutNode, context: Text, depth: int)
    requires
        layout_error(node, context, depth) is None,
    ensures
        depth + model::layout_depth(node) <= MAX_LAYOUT_DEPTH,
    decreases node,
{
    if let LayoutNode::Split { direction, ratio, first, second } = node {
        lemma_layout_depth(*first, context + ".first"@, depth + 1);
        lemma_layout_depth(*second, context + ".second"@, depth + 1);
    }
}

// ─── Windows ─────────────────────────────────────────────────────────────────

/// A window before the one at `i` has the same name.
pub open spec fn repeats_name(windows: Seq<Window>, i: int) -> bool {
    exists|j: int| 0 <= j < i && (#[trigger] windows[j]).name@ == windows[i].name@
}

/// The failures of the environment variables of a window.
pub open spec fn window_env_tests(w: Window) -> Seq<Option<Seq<Text>>> {
    w.env@.map_values(
        |ev: EnvVar|
            env_var_error(
                ev,
                "window "@ + TmuxName::debug(w.name@) + " env "@ + EnvVarName::debug(ev.key@),
            ),
    )
}

/// The failure of the window at `i`.
pub open spec fn window_error(windows: Seq<Window>, i: int) -> Option<Seq<Text>> {
    let w = windows[i];
    let shown = TmuxName::debug(w.name@);
    let of_name = checks::tmux_name_error(w.name@, "window name "@ + shown);
    let of_repeat = if repeats_name(windows, i) {
        Some(seq!["duplicate window name "@ + shown])
    } else {
        None
    };
    let of_root = root_error(w.root, "window "@ + shown + " root"@);
    let of_env = first_failure(window_env_tests(w));
    let of_options = first_failure(option_tests(w.options, "window "@ + shown + " options"@));
    let of_preset = match w.select_layout {
        Some(preset) => in_context(
            "window "@ + shown + " select_layout"@,
            checks::non_empty_error(preset@, "tmux layout preset"@, ": tmux layout preset"@),
        ),
        None => None,
    };
    let of_layout = layout_error(w.layout, "window "@ + shown, 0);
    or_else(
        of_name,
        or_else(
            of_repeat,
            or_else(of_root, or_else(of_env, or_else(of_options, or_else(of_preset, of_layout)))),
        ),
    )
}

/// The failures of the windows, in order.
pub open spec fn window_tests(windows: Seq<Window>) -> Seq<Option<Seq<Text>>> {
    Seq::new(windows.len(), |i: int| window_error(windows, i))
}

fn name_is_repeated(windows: &Vec<Window>, i: usize) -> (r: bool)
    requires
        i < windows@.len(),
    ensures
        r == repeats_name(windows@, i as int),
{
    for j in 0..i
        invariant
            i < windows@.len(),
            forall|k: int|
                0 <= k < j ==> (#[trigger] windows@[k]).name@ != windows@[i as int].name@,
    {
        if text::same_text(windows[j].name.as_str(), windows[i].name.as_str()) {
            return true;
        }
    }
    false
}

fn validate_window_env(w: &Window) -> (r: Result<(), Error>)
    ensures
        error::failure(r) == first_failure(window_env_tests(*w)),
{
    let ghost tests = window_env_tests(*w);
    for i in 0..w.env.len()
        invariant
            tests == window_env_tests(*w),
            first_failure(tests.take(i as int)) is None,
    {
        proof {
            assert(tests.take(i + 1).drop_last() == tests.take(i as int));
            if tests[i as int] is Some {
                lemma_first_failure(tests, i + 1);
            }
        }
        let context = "window ".to_owned().concat(w.name.debug_string().as_str()).concat(
            " env ",
        ).concat(w.env[i].key.debug_string().as_str());
        validate_env_var(&w.env[i], context.as_str())?;
    }
    assert(tests.take(tests.len() as int) == tests);
    Ok(())
}

fn validate_window(windows: &Vec<Window>, i: usize) -> (r: Result<(), Error>)
    requires
        i < windows@.len(),
    ensures
        error::failure(r) == window_error(windows@, i as int),
{
    let w = &windows[i];
    let shown = w.name.debug_string();
    let window = "window ".to_owned().concat(shown.as_str());
    checks::validate_tmux_name(
        w.name.as_str(),
        "window name ".to_owned().concat(shown.as_str()).as_str(),
    )?;
    if name_is_repeated(windows, i) {
        return Err(Error::msg("duplicate window name ".to_owned().concat(shown.as_str())));
    }
    validate_root(&w.root, window.clone().concat(" root").as_str())?;
    validate_window_env(w)?;
    validate_tmux_options(&w.options, window.clone().concat(" options").as_str())?;
    if let Some(preset) = &w.select_layout {
        if let Err(e) = TmuxLayoutPreset::new(preset.as_str()) {
            return Err(e.context(window.clone().concat(" select_layout")));
        }
    }
    validate_layout(&w.layout, window.as_str(), 0)
}

/// The failure of a session without windows.
pub open spec fn windows_error(windows: Seq<Window>) -> Option<Seq<Text>> {
    if windows.len() == 0 {
        Some(seq!["session must define at least one window"@])
    } else {
        None
    }
}

/// Tests that there is a window.
pub fn validate_windows(windows: &Vec<Window>) -> (r: Result<(), Error>)
    ensures
        error::failure(r) == windows_error(windows@),
{
    if windows.len() == 0 {
        return Err(Error::msg("session must define at least one window".to_owned()));
    }
    Ok(())
}

// ─── Sessions ────────────────────────────────────────────────────────────────

/// The failures of the environment variables of a session.
pub open spec fn session_env_tests(s: Session) -> Seq<Option<Seq<Text>>> {
    s.env@.map_values(
        |ev: EnvVar| env_var_error(ev, "session env "@ + EnvVarName::debug(ev.key@)),
    )
}

/// The failure of one template variable.
pub open spec fn var_error(entry: (TemplateVarName, TemplateVarValue)) -> Option<Seq<Text>> {
    or_else(
        checks::env_key_error(entry.0@, "vars key "@ + TemplateVarName::debug(entry.0@)),
        checks::nul_error(entry.1@, "vars value for "@ + TemplateVarName::debug(entry.0@)),
    )
}

/// The failures of the template variables of a session, in the order of their names.
pub open spec fn var_tests(s: Session) -> Seq<Option<Seq<Text>>> {
    s.vars@.map_values(|entry: (TemplateVarName, TemplateVarValue)| var_error(entry))
}

/// The failure of a session: that of the first of its parts that fails.
pub open spec fn session_error(s: Session) -> Option<Seq<Text>> {
    let of_name = checks::tmux_name_error(s.name@, "session name"@);
    let of_root = root_error(s.root, "session root"@);
    let of_env = first_failure(session_env_tests(s));
    let of_hook = match s.pre_hook {
        Some(hook) => in_context(
            "session pre_hook"@,
            checks::nul_error(hook@, "shell command"@),
        ),
        None => None,
    };
    let of_options = first_failure(option_tests(s.options, "session options"@));
    let of_vars = first_failure(var_tests(s));
    let of_windows = or_else(
        windows_error(s.windows@),
        first_failure(window_tests(s.windows@)),
    );
    or_else(
        of_name,
        or_else(
            of_root,
            or_else(of_env, or_else(of_hook, or_else(of_options, or_else(of_vars, of_windows)))),
        ),
    )
}

fn validate_session_env(s: &Session) -> (r: Result<(), Error>)
    ensures
        error::failure(r) == first_failure(session_env_tests(*s)),
{
    let ghost tests = session_env_tests(*s);
    for i in 0..s.env.len()
        invariant
            tests == session_env_tests(*s),
            first_failure(tests.take(i as int)) is None,
    {
        proof {
            assert(tests.take(i + 1).drop_last() == tests.take(i as int));
            if tests[i as int] is Some {
                lemma_first_failure(tests, i + 1);
            }
        }
        let context = "session env ".to_owned().concat(s.env[i].key.debug_string().as_str());
        validate_env_var(&s.env[i], context.as_str())?;
    }
    assert(tests.take(tests.len() as int) == tests);
    Ok(())
}

fn validate_vars(s: &Session) -> (r: Result<(), Error>)
    ensures
        error::failure(r) == first_failure(var_tests(*s)),
{
    let entries = s.vars.entries();
    let ghost tests = var_tests(*s);
    for i in 0..entries.len()
        invariant
            entries@ == s.vars@,
            tests == var_tests(*s),
            first_failure(tests.take(i as int)) is None,
    {
        proof {
            assert(tests.take(i + 1).drop_last() == tests.take(i as int));
            if tests[i as int] is Some {
                lemma_first_failure(tests, i + 1);
            }
        }
        let key = &entries[i].0;
        let value = &entries[i].1;
        checks::validate_template_var_name(
            key.as_str(),
            "vars key ".to_owned().concat(key.debug_string().as_str()).as_str(),
        )?;
        checks::validate_no_nul(
            value.as_str(),
            "vars value for ".to_owned().concat(key.debug_string().as_str()).as_str(),
        )?;
    }
    assert(tests.take(tests.len() as int) == tests);
    Ok(())
}

impl Session {
    /// Tests the session and all its parts.
    pub fn validate(&self) -> (r: Result<(), Error>)
        ensures
            error::failure(r) == session_error(*self),
    {
        checks::validate_tmux_name(self.name.as_str(), "session name")?;
        validate_root(&self.root, "session root")?;
        validate_session_env(self)?;
        if let Some(hook) = &self.pre_hook {
            if let Err(e) = ShellCommand::new(hook.as_str()) {
                return Err(e.context("session pre_hook".to_owned()));
            }
        }
        validate_tmux_options(&self.options, "session options")?;
        validate_vars(self)?;
        validate_windows(&self.windows)?;
        let ghost tests = window_tests(self.windows@);
        for i in 0..self.windows.len()
            invariant
                tests == window_tests(self.windows@),
                first_failure(tests.take(i as int)) is None,
                session_error(*self) == first_failure(tests),
        {
            proof {
                assert(tests.take(i + 1).drop_last() == tests.take(i as int));
                if tests[i as int] is Some {
                    lemma_first_failure(tests, i + 1);
                }
            }
            validate_window(&self.windows, i)?;
        }
        assert(tests.take(tests.len() as int) == tests);
        Ok(())
    }
}

// ─── What validation amounts to ──────────────────────────────────────────────

/// What the types of its parts leave open about a session: it has a window, no two windows have
/// the same name, and no layout tree is too deep.
pub open spec fn valid_session(s: Session) -> bool {
    &&& s.windows@.len() > 0
    &&& forall|i: int, j: int|
        0 <= i < j < s.windows@.len() ==> (#[trigger] s.windows@[i]).name@ != (
        #[trigger] s.windows@[j]).name@
    &&& forall|i: int|
        0 <= i < s.windows@.len() ==> model::layout_depth((#[trigger] s.windows@[i]).layout)
            <= MAX_LAYOUT_DEPTH
}

/// A tree of valid parts passes exactly when it is nowhere deeper than the limit.
pub proof fn lemma_layout_error(node: LayoutNode, context: Text, depth: int)
    requires
        node.wf(),
    ensures
        layout_error(node, context, depth) is None <==> depth + model::layout_depth(node)
            <= MAX_LAYOUT_DEPTH,
    decreases node,
{
    if let LayoutNode::Split { direction, ratio, first, second } = node {
        lemma_layout_error(*first, context + ".first"@, depth + 1);
        lemma_layout_error(*second, context + ".second"@, depth + 1);
    }
}

/// Valid options pass.
proof fn lemma_option_tests(options: TmuxOptions, context: Text)
    requires
        model::options_wf(options),
    ensures
        first_failure(option_tests(options, context)) is None,
{
    let tests = option_tests(options, context);
    assert forall|i: int| 0 <= i < tests.len() implies (#[trigger] tests[i]) is None by {
        assert(options@[i].0.wf() && options@[i].1.wf());
    }
    lemma_no_failure(tests);
}

/// A window of valid parts passes exactly when its name is new and its tree not too deep.
pub proof fn lemma_window_error(windows: Seq<Window>, i: int)
    requires
        0 <= i < windows.len(),
        windows[i].wf(),
    ensures
        window_error(windows, i) is None <==> !repeats_name(windows, i) && model::layout_depth(
            windows[i].layout,
        ) <= MAX_LAYOUT_DEPTH,
{
    let w = windows[i];
    let shown = TmuxName::debug(w.name@);
    checks::lemma_tmux_name_error(w.name@, "window name "@ + shown);
    lemma_option_tests(w.options, "window "@ + shown + " options"@);
    lemma_layout_error(w.layout, "window "@ + shown, 0);
    let tests = window_env_tests(w);
    assert forall|k: int| 0 <= k < tests.len() implies (#[trigger] tests[k]) is None by {
        assert(w.env@[k].wf());
    }
    lemma_no_failure(tests);
}

/// The parts of a window that are valid by their types pass.
pub proof fn lemma_window_parts_pass(windows: Seq<Window>, i: int)
    requires
        0 <= i < windows.len(),
        windows[i].wf(),
    ensures
        window_error(windows, i) == if repeats_name(windows, i) {
            Some(seq!["duplicate window name "@ + TmuxName::debug(windows[i].name@)])
        } else {
            layout_error(windows[i].layout, "window "@ + TmuxName::debug(windows[i].name@), 0)
        },
{
    let w = windows[i];
    let shown = TmuxName::debug(w.name@);
    checks::lemma_tmux_name_error(w.name@, "window name "@ + shown);
    lemma_option_tests(w.options, "window "@ + shown + " options"@);
    let tests = window_env_tests(w);
    assert forall|k: int| 0 <= k < tests.len() implies (#[trigger] tests[k]) is None by {
        assert(w.env@[k].wf());
    }
    lemma_no_failure(tests);
}

/// The parts of a session that are valid by their types pass: what can fail is its windows.
pub proof fn lemma_only_windows_fail(s: Session)
    requires
        s.wf(),
    ensures
        session_error(s) == or_else(
            windows_error(s.windows@),
            first_failure(window_tests(s.windows@)),
        ),
{
    checks::lemma_tmux_name_error(s.name@, "session name"@);
    lemma_option_tests(s.options, "session options"@);
    let of_env = session_env_tests(s);
    assert forall|k: int| 0 <= k < of_env.len() implies (#[trigger] of_env[k]) is None by {
        assert(s.env@[k].wf());
    }
    lemma_no_failure(of_env);
    let of_vars = var_tests(s);
    assert forall|k: int| 0 <= k < of_vars.len() implies (#[trigger] of_vars[k]) is None by {
        assert(s.vars@[k].0.wf() && s.vars@[k].1.wf());
    }
    lemma_no_failure(of_vars);
}

/// A session passes validation exactly when it has a window, its window names differ, and none of
/// its layout trees is deeper than the limit.
pub proof fn law_validation(s: Session)
    requires
        s.wf(),
    ensures
        session_error(s) is None <==> valid_session(s),
{
    lemma_only_windows_fail(s);
    let tests = window_tests(s.windows@);
    lemma_no_failure(tests);
    assert(session_error(s) == or_else(windows_error(s.windows@), first_failure(tests)));
    assert forall|i: int| 0 <= i < tests.len() implies ((#[trigger] tests[i]) is None
        <==> !repeats_name(s.windows@, i) && model::layout_depth(s.windows@[i].layout)
        <= MAX_LAYOUT_DEPTH) by {
        lemma_window_error(s.windows@, i);
    }
    if first_failure(tests) is None {
        assert forall|i: int, j: int| 0 <= i < j < s.windows@.len() implies (
        #[trigger] s.windows@[i]).name@ != (#[trigger] s.windows@[j]).name@ by {
            assert(tests[j] is None);
            assert(!repeats_name(s.windows@, j));
        }
        assert forall|i: int| 0 <= i < s.windows@.len() implies model::layout_depth(
            (#[trigger] s.windows@[i]).layout,
        ) <= MAX_LAYOUT_DEPTH by {
            assert(tests[i] is None);
        }
    }
    if valid_session(s) {
        assert forall|i: int| 0 <= i < tests.len() implies (#[trigger] tests[i]) is None by {
            assert(model::layout_depth(s.windows@[i].layout) <= MAX_LAYOUT_DEPTH);
        }
    }
}

/// A session that passes has a window, and no layout tree that is too deep.
pub proof fn lemma_valid_windows(s: Session)
    requires
        session_error(s) is None,
    ensures
        s.windows@.len() > 0,
        forall|i: int|
            0 <= i < s.windows@.len() ==> model::layout_depth((#[trigger] s.windows@[i]).layout)
                <= MAX_LAYOUT_DEPTH,
{
    let tests = window_tests(s.windows@);
    lemma_no_failure(tests);
    assert forall|i: int| 0 <= i < s.windows@.len() implies model::layout_depth(
        (#[trigger] s.windows@[i]).layout,
    ) <= MAX_LAYOUT_DEPTH by {
        assert(tests[i] is None);
        lemma_layout_depth(
            s.windows@[i].layout,
            "window "@ + TmuxName::debug(s.windows@[i].name@),
            0,
        );
    }
}

} // verus!
