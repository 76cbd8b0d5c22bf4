//! The compiler: a session as a self-contained bash script.
//!
//! For each window the script first builds all panes, then configures them, so every pane exists
//! before a command is typed into it.

use crate::error;
use crate::error::Error;
use crate::layout_plan;
use crate::layout_plan::{LayoutPlan, LeafStep, PlannedLeaf, SplitStep};
use crate::model;
use crate::model::{EnvVar, LayoutNode, Session, Window, MAX_LAYOUT_DEPTH};
use crate::ordered_map::TmuxOptions;
use crate::ratio;
use crate::template;
use crate::text;
use crate::text::Text;
use crate::validate;
use crate::words::{ShellCommand, ShellWord, TmuxOptionName, TmuxOptionValue};
use vstd::prelude::*;
use vstd::string::*;

verus! {

// ─── The script ──────────────────────────────────────────────────────────────

/// Some pane of the tree waits for a pattern.
pub open spec fn layout_waits(node: LayoutNode) -> bool
    decreases node,
{
    match node {
        LayoutNode::Pane { command, focus, title, wait_for } => wait_for is Some,
        LayoutNode::Split { direction, ratio, first, second } => layout_waits(*first)
            || layout_waits(*second),
    }
}

/// Some pane of the session waits for a pattern.
pub open spec fn session_waits(session: Session) -> bool {
    exists|i: int|
        0 <= i < session.windows@.len() && layout_waits((#[trigger] session.windows@[i]).layout)
}

/// The shell function that waits for a pattern in the output of a pane.
pub open spec fn wait_helper() -> Seq<Text> {
    seq![
        "# wait for pattern in pane output"@,
        "_ntd_wait_pane() {"@,
        "  local pane=$1 pattern=$2 timeout=${3:-30} elapsed=0"@,
        "  while [ $elapsed -lt $timeout ]; do"@,
        "    if tmux capture-pane -t \"$pane\" -p | grep -qF -- \"$pattern\"; then"@,
        "      return 0"@,
        "    fi"@,
        "    sleep 1"@,
        "    elapsed=$((elapsed + 1))"@,
        "  done"@,
        "  echo \"timeout after ${timeout}s: '$pattern' not seen in pane $pane\" >&2"@,
        "  return 1"@,
        "}"@,
        ""@,
    ]
}

/// The lines that hand the terminal over to a session that runs already: inside tmux the client
/// switches, with a terminal it attaches, and without one the session is left as it is.
pub open spec fn reuse_lines() -> Seq<Text> {
    seq![
        "  if [ -n \"${TMUX:-}\" ]; then"@,
        "    exec tmux switch-client -t \"$SESSION\""@,
        "  elif [ -t 0 ]; then"@,
        "    exec tmux attach-session -t \"$SESSION\""@,
        "  else"@,
        "    echo \"session '$SESSION' is ready (not attaching; no terminal).\" >&2"@,
        "    exit 0"@,
        "  fi"@,
    ]
}

/// The lines that hand the terminal over to the session that has been built: inside tmux the client
/// switches, elsewhere it attaches.
pub open spec fn attach_lines() -> Seq<Text> {
    seq![
        "if [ -n \"${TMUX:-}\" ]; then"@,
        "  exec tmux switch-client -t \"$SESSION\""@,
        "else"@,
        "  exec tmux attach-session -t \"$SESSION\""@,
        "fi"@,
    ]
}

/// The start of the script, up to the test for a session that runs already.
pub open spec fn opening(session: Session) -> Seq<Text> {
    seq![
        "#!/usr/bin/env bash"@,
        "set -euo pipefail"@,
        ""@,
        "SESSION="@ + template::quoted(session.name@),
        ""@,
        "if tmux has-session -t \"$SESSION\" 2>/dev/null; then"@,
    ]
}

/// The lines that run the hook of a session.
pub open spec fn hook_lines(session: Session) -> Seq<Text> {
    match session.pre_hook {
        Some(hook) => seq!["# pre_hook"@, template::resolved(hook@, session.vars), ""@],
        None => Seq::empty(),
    }
}

/// Everything that stands before the windows.
pub open spec fn preamble(session: Session) -> Seq<Text> {
    opening(session) + reuse_lines() + seq!["fi"@, ""@] + (if session_waits(session) {
        wait_helper()
    } else {
        Seq::empty()
    }) + hook_lines(session)
}

/// The shell variable that holds the id of a pane.
pub open spec fn pane_var(pane: int) -> Text {
    "PANE_"@ + text::decimal(pane as nat)
}

/// A reference to the shell variable that holds the id of a pane.
pub open spec fn pane_ref(pane: int) -> Text {
    "\"${"@ + pane_var(pane) + "}\""@
}

/// The option of `tmux` that passes an environment variable.
pub open spec fn env_arg(ev: (Text, Text)) -> Text {
    " -e "@ + ev.0 + "="@ + template::quoted(ev.1)
}

/// The options of `tmux` that pass an environment.
pub open spec fn env_args(env: Seq<(Text, Text)>) -> Text {
    text::concat(env.map_values(|ev: (Text, Text)| env_arg(ev)))
}

/// The line that creates the first pane of a window: with the session for the first window, in a
/// new window for the others.
pub open spec fn initial_line(
    first: bool,
    pane: int,
    root: Text,
    name: Text,
    env: Seq<(Text, Text)>,
) -> Text {
    pane_var(pane) + (if first {
        "=$(tmux new-session -d -s \"$SESSION\" -c "@
    } else {
        "=$(tmux new-window -t \"$SESSION\" -c "@
    }) + root + " -n "@ + template::quoted(name) + env_args(env) + " -P -F '#{pane_id}')"@
}

/// The line that sets a session option.
pub open spec fn option_line(entry: (TmuxOptionName, TmuxOptionValue)) -> Text {
    "tmux set-option -t \"$SESSION\" -- "@ + template::quoted(entry.0@) + " "@ + template::quoted(
        entry.1@,
    )
}

/// The lines that set the session options, in the order of their names.
pub open spec fn option_lines(options: TmuxOptions) -> Seq<Text> {
    options@.map_values(|entry: (TmuxOptionName, TmuxOptionValue)| option_line(entry))
}

/// The line that splits a pane. Pane indices of the plan count from `base`.
pub open spec fn split_line(
    step: SplitStep,
    base: int,
    root: Text,
    env: Seq<(Text, Text)>,
) -> Text {
    pane_var(base + step.new) + "=$(tmux split-window -t "@ + pane_ref(base + step.parent) + " "@
        + model::flag_text(step.flag) + " -l "@ + ratio::tmux_size(step.pct) + " -c "@ + root
        + env_args(env) + " -P -F '#{pane_id}')"@
}

/// The lines that split panes.
pub open spec fn split_lines(
    splits: Seq<SplitStep>,
    base: int,
    root: Text,
    env: Seq<(Text, Text)>,
) -> Seq<Text> {
    splits.map_values(|step: SplitStep| split_line(step, base, root, env))
}

/// The lines that type a command into a pane.
pub open spec fn command_lines(pane: int, command: Option<Text>) -> Seq<Text> {
    match command {
        Some(c) => seq![
            "tmux send-keys -t "@ + pane_ref(pane) + " -l -- "@ + template::quoted(c),
            "tmux send-keys -t "@ + pane_ref(pane) + " Enter"@,
        ],
        None => Seq::empty(),
    }
}

/// The line that waits for a pattern in the output of a pane.
pub open spec fn wait_lines(pane: int, wait_for: Option<(Text, u32)>) -> Seq<Text> {
    match wait_for {
        Some(w) => seq![
            "_ntd_wait_pane "@ + pane_ref(pane) + " "@ + template::quoted(w.0) + " "@
                + text::decimal(w.1 as nat),
        ],
        None => Seq::empty(),
    }
}

/// The line that gives a pane a title.
pub open spec fn title_lines(pane: int, title: Option<Text>) -> Seq<Text> {
    match title {
        Some(t) => seq![
            "tmux select-pane -t "@ + pane_ref(pane) + " -T "@ + template::quoted(t),
        ],
        None => Seq::empty(),
    }
}

/// The lines that configure a pane: its command, what it waits for, its title.
pub open spec fn leaf_lines(leaf: LeafStep, base: int) -> Seq<Text> {
    command_lines(base + leaf.pane, leaf.command) + wait_lines(base + leaf.pane, leaf.wait_for)
        + title_lines(base + leaf.pane, leaf.title)
}

/// The lines that configure the panes, one pane after the other.
pub open spec fn leaves_lines(leaves: Seq<LeafStep>, base: int) -> Seq<Text>
    decreases leaves.len(),
{
    if leaves.len() == 0 {
        Seq::empty()
    } else {
        leaves_lines(leaves.drop_last(), base) + leaf_lines(leaves.last(), base)
    }
}

/// The line that sets a window option. The quoted window name stands outside the double quotes, so
/// that its quotes do not reach tmux.
pub open spec fn window_option_line(
    window: Text,
    entry: (TmuxOptionName, TmuxOptionValue),
) -> Text {
    "tmux set-window-option -t \"$SESSION:\""@ + template::quoted(window) + "  -- "@
        + template::quoted(entry.0@) + " "@ + template::quoted(entry.1@)
}

/// The lines that set the window options, in the order of their names.
pub open spec fn window_option_lines(window: Window) -> Seq<Text> {
    window.options@.map_values(
        |entry: (TmuxOptionName, TmuxOptionValue)| window_option_line(window.name@, entry),
    )
}

/// The line that applies a layout preset.
pub open spec fn preset_lines(window: Window) -> Seq<Text> {
    match window.select_layout {
        Some(preset) => seq![
            "tmux select-layout -t \"$SESSION:\""@ + template::quoted(window.name@) + "  -- "@
                + template::quoted(preset@),
        ],
        None => Seq::empty(),
    }
}

/// The line that moves the focus.
pub open spec fn focus_lines(leaves: Seq<LeafStep>, base: int) -> Seq<Text> {
    match layout_plan::focused(leaves) {
        Some(pane) => seq!["tmux select-pane -t "@ + pane_ref(base + pane)],
        None => Seq::empty(),
    }
}

/// The lines that build the panes of a window: the first phase.
pub open spec fn build_lines(session: Session, window: Window, index: int, base: int) -> Seq<Text> {
    let root = template::word(model::root_text(session, window), session.vars);
    let env = model::pane_env(session, window);
    let plan = layout_plan::plan_of(window.layout, session.vars);
    seq![
        "# ── window "@ + text::decimal(index as nat) + ": "@ + window.name@ + " ──"@,
        initial_line(index == 0, base, root, window.name@, env),
    ] + (if index == 0 {
        option_lines(session.options)
    } else {
        Seq::empty()
    }) + split_lines(plan.splits, base, root, env)
}

/// The lines that configure a window whose panes exist: the second phase.
pub open spec fn configure_lines(session: Session, window: Window, base: int) -> Seq<Text> {
    let plan = layout_plan::plan_of(window.layout, session.vars);
    leaves_lines(plan.leaves, base) + window_option_lines(window) + preset_lines(window)
        + focus_lines(plan.leaves, base) + seq![""@]
}

/// The lines of a window. `base` is the number of panes of the windows before it.
pub open spec fn window_lines(session: Session, index: int, base: int) -> Seq<Text> {
    build_lines(session, session.windows@[index], index, base) + configure_lines(
        session,
        session.windows@[index],
        base,
    )
}

/// The number of panes of the first `n` windows.
pub open spec fn panes_before(session: Session, n: int) -> int
    decreases n,
{
    if n <= 0 {
        0
    } else {
        panes_before(session, n - 1) + 1 + layout_plan::split_count(session.windows@[n - 1].layout)
    }
}

/// The lines of the first `n` windows.
pub open spec fn windows_lines(session: Session, n: int) -> Seq<Text>
    decreases n,
{
    if n <= 0 {
        Seq::empty()
    } else {
        windows_lines(session, n - 1) + window_lines(
            session,
            n - 1,
            panes_before(session, n - 1),
        )
    }
}

/// The script of a session, line by line.
pub open spec fn script(session: Session) -> Seq<Text> {
    preamble(session) + windows_lines(session, session.windows@.len() as int) + seq![
        "tmux select-window -t \"$SESSION:^\""@,
    ] + attach_lines()
}

// ─── Writing lines ───────────────────────────────────────────────────────────

fn pane_var_string(pane: usize) -> (r: String)
    ensures
        r@ == pane_var(pane as int),
{
    "PANE_".to_owned().concat(text::decimal_string(pane as u64).as_str())
}

fn pane_ref_string(pane: usize) -> (r: String)
    ensures
        r@ == pane_ref(pane as int),
{
    "\"${".to_owned().concat(pane_var_string(pane).as_str()).concat("}\"")
}

/// The options of `tmux` that pass `env`.
fn tmux_env_args(env: &[EnvVar]) -> (r: String)
    ensures
        r@ == env_args(model::env_views(env@)),
{
    let ghost texts = model::env_views(env@).map_values(|ev: (Text, Text)| env_arg(ev));
    let mut out = String::new();
    for i in 0..env.len()
        invariant
            texts == model::env_views(env@).map_values(|ev: (Text, Text)| env_arg(ev)),
            out@ == text::concat(texts.take(i as int)),
    {
        assert(texts.take(i + 1).drop_last() == texts.take(i as int));
        let arg = " -e ".to_owned().concat(env[i].key.as_str()).concat("=").concat(
            template::shell_quote(env[i].value.as_str()).as_str(),
        );
        out.append(arg.as_str());
    }
    assert(texts.take(texts.len() as int) == texts);
    out
}

fn layout_uses_wait_for(node: &LayoutNode) -> (r: bool)
    ensures
        r == layout_waits(*node),
    decreases node,
{
    match node {
        LayoutNode::Pane { command: _, focus: _, title: _, wait_for } => wait_for.is_some(),
        LayoutNode::Split { direction: _, ratio: _, first, second } => layout_uses_wait_for(first)
            || layout_uses_wait_for(second),
    }
}

fn session_uses_wait_for(session: &Session) -> (r: bool)
    ensures
        r == session_waits(*session),
{
    for i in 0..session.windows.len()
        invariant
            forall|j: int| 0 <= j < i ==> !layout_waits((#[trigger] session.windows@[j]).layout),
    {
        if layout_uses_wait_for(&session.windows[i].layout) {
            return true;
        }
    }
    false
}

/// What the lines of a window have in common.
struct WindowContext {
    root: ShellWord,
    env: Vec<EnvVar>,
    tmux_env: String,
    base: usize,
}

impl WindowContext {
    spec fn wf(&self) -> bool {
        self.tmux_env@ == env_args(model::env_views(self.env@))
    }
}

// ─── Compiler ────────────────────────────────────────────────────────────────

/// Compiles a [`Session`] into a self-contained bash script.
#[derive(Debug)]
pub struct Compiler {
    lines: Vec<String>,
    pane_counter: usize,
}

impl View for Compiler {
    type V = Seq<Text>;

    /// The lines of the script so far.
    closed spec fn view(&self) -> Seq<Text> {
        text::views(self.lines@)
    }
}

impl Default for Compiler {
    fn default() -> (r: Compiler)
        ensures
            r@ == Seq::<Text>::empty(),
    {
        let r = Compiler { lines: Vec::new(), pane_counter: 0 };
        assert(r@ == Seq::<Text>::empty());
        r
    }
}

impl Compiler {
    /// A compiler that has written nothing.
    pub fn new() -> (r: Compiler)
        ensures
            r@ == Seq::<Text>::empty(),
    {
        Compiler::default()
    }

    /// Writes the script of `session`. What an earlier call has written is dropped. Fails exactly
    /// when the session does not pass validation, with the error of the validation.
    pub fn compile(&mut self, session: &Session) -> (r: Result<(), Error>)
        ensures
            error::failure(r) == validate::session_error(*session),
            r is Ok ==> final(self)@ == script(*session),
            r is Err ==> final(self)@ == Seq::<Text>::empty(),
    {
        self.lines.clear();
        self.pane_counter = 0;
        assert(self@ == Seq::<Text>::empty());
        session.validate()?;
        proof {
            validate::lemma_valid_windows(*session);
        }
        self.emit_preamble(session)?;
        assert(self@ == preamble(*session));
        assert(preamble(*session) + windows_lines(*session, 0) == preamble(*session));
        for index in 0..session.windows.len()
            invariant
                forall|i: int|
                    0 <= i < session.windows@.len() ==> model::layout_depth(
                        (#[trigger] session.windows@[i]).layout,
                    ) <= MAX_LAYOUT_DEPTH,
                self.counted(),
                self.pane_counter == panes_before(*session, index as int),
                self@ == preamble(*session) + windows_lines(*session, index as int),
        {
            let ghost before = self@;
            self.compile_window(session, index)?;
            assert(self@ == preamble(*session) + windows_lines(*session, index + 1)) by {
                assert(self@ == before + window_lines(
                    *session,
                    index as int,
                    panes_before(*session, index as int),
                ));
            }
        }
        self.emit("tmux select-window -t \"$SESSION:^\"".to_owned());
        self.emit_attach_or_switch();
        assert(self@ == script(*session));
        Ok(())
    }

    /// The script, with a line feed between every two lines.
    pub fn into_script(self) -> (r: String)
        ensures
            r@ == text::join(self@, "\n"@),
    {
        text::join_strings(&self.lines, "\n")
    }

    // ── Private helpers ──────────────────────────────────────────────────────

    /// There is a line for each pane that has been counted.
    spec fn counted(&self) -> bool {
        self.pane_counter <= self@.len()
    }

    fn emit(&mut self, line: String)
        ensures
            final(self)@ == old(self)@.push(line@),
            final(self).pane_counter == old(self).pane_counter,
    {
        self.lines.push(line);
        assert(self@ == old(self)@.push(line@));
    }

    /// Counts the pane whose line has been written.
    fn count_pane(&mut self)
        requires
            old(self).pane_counter < old(self)@.len(),
        ensures
            final(self)@ == old(self)@,
            final(self).pane_counter == old(self).pane_counter + 1,
    {
        assert(self.lines.len() == self.lines@.len());
        self.pane_counter = self.pane_counter + 1;
    }

    fn emit_wait_helper(&mut self)
        ensures
            final(self)@ == old(self)@ + wait_helper(),
            final(self).pane_counter == old(self).pane_counter,
    {
        self.emit("# wait for pattern in pane output".to_owned());
        self.emit("_ntd_wait_pane() {".to_owned());
        self.emit("  local pane=$1 pattern=$2 timeout=${3:-30} elapsed=0".to_owned());
        self.emit("  while [ $elapsed -lt $timeout ]; do".to_owned());
        self.emit(
            "    if tmux capture-pane -t \"$pane\" -p | grep -qF -- \"$pattern\"; then".to_owned(),
        );
        self.emit("      return 0".to_owned());
        self.emit("    fi".to_owned());
        self.emit("    sleep 1".to_owned());
        self.emit("    elapsed=$((elapsed + 1))".to_owned());
        self.emit("  done".to_owned());
        self.emit(
            "  echo \"timeout after ${timeout}s: '$pattern' not seen in pane $pane\" >&2".to_owned(),
        );
        self.emit("  return 1".to_owned());
        self.emit("}".to_owned());
        self.emit("".to_owned());
        assert(self@ == old(self)@ + wait_helper());
    }

    fn emit_reuse(&mut self)
        ensures
            final(self)@ == old(self)@ + reuse_lines(),
            final(self).pane_counter == old(self).pane_counter,
    {
        self.emit("  if [ -n \"${TMUX:-}\" ]; then".to_owned());
        self.emit("    exec tmux switch-client -t \"$SESSION\"".to_owned());
        self.emit("  elif [ -t 0 ]; then".to_owned());
        self.emit("    exec tmux attach-session -t \"$SESSION\"".to_owned());
        self.emit("  else".to_owned());
        self.emit(
            "    echo \"session '$SESSION' is ready (not attaching; no terminal).\" >&2".to_owned(),
        );
        self.emit("    exit 0".to_owned());
        self.emit("  fi".to_owned());
        assert(self@ == old(self)@ + reuse_lines());
    }

    fn emit_attach_or_switch(&mut self)
        ensures
            final(self)@ == old(self)@ + attach_lines(),
            final(self).pane_counter == old(self).pane_counter,
    {
        self.emit("if [ -n \"${TMUX:-}\" ]; then".to_owned());
        self.emit("  exec tmux switch-client -t \"$SESSION\"".to_owned());
        self.emit("else".to_owned());
        self.emit("  exec tmux attach-session -t \"$SESSION\"".to_owned());
        self.emit("fi".to_owned());
        assert(self@ == old(self)@ + attach_lines());
    }

    fn emit_preamble(&mut self, session: &Session) -> (r: Result<(), Error>)
        ensures
            r is Ok,
            final(self)@ == old(self)@ + preamble(*session),
            final(self).pane_counter == old(self).pane_counter,
    {
        let ghost start = self@;
        self.emit("#!/usr/bin/env bash".to_owned());
        self.emit("set -euo pipefail".to_owned());
        self.emit("".to_owned());
        self.emit(
            "SESSION=".to_owned().concat(template::shell_quote(session.name.as_str()).as_str()),
        );
        self.emit("".to_owned());
        // A session that runs already is reused.
        self.emit("if tmux has-session -t \"$SESSION\" 2>/dev/null; then".to_owned());
        assert(self@ == start + opening(*session));
        self.emit_reuse();
        self.emit("fi".to_owned());
        self.emit("".to_owned());
        let ghost guard = opening(*session) + reuse_lines() + seq!["fi"@, ""@];
        assert(self@ == start + guard);
        let ghost helper = if session_waits(*session) {
            wait_helper()
        } else {
            Seq::empty()
        };
        if session_uses_wait_for(session) {
            self.emit_wait_helper();
        }
        assert(self@ == start + (guard + helper));
        if let Some(hook) = &session.pre_hook {
            self.emit("# pre_hook".to_owned());
            let hook = ShellCommand::new(
                template::resolve_vars(hook.as_str(), &session.vars).as_str(),
            )?;
            self.emit(hook.into_inner());
            self.emit("".to_owned());
        }
        assert(self@ == start + (guard + helper + hook_lines(*session)));
        Ok(())
    }

    fn emit_session_options(&mut self, options: &TmuxOptions)
        ensures
            final(self)@ == old(self)@ + option_lines(*options),
            final(self).pane_counter == old(self).pane_counter,
    {
        let entries = options.entries();
        let ghost start = self@;
        let ghost lines = option_lines(*options);
        for i in 0..entries.len()
            invariant
                entries@ == options@,
                lines == option_lines(*options),
                self@ == start + lines.take(i as int),
                self.pane_counter == old(self).pane_counter,
        {
            let line = "tmux set-option -t \"$SESSION\" -- ".to_owned().concat(
                template::shell_quote(entries[i].0.as_str()).as_str(),
            ).concat(" ").concat(template::shell_quote(entries[i].1.as_str()).as_str());
            self.emit(line);
            assert(self@ == start + lines.take(i + 1));
        }
        assert(lines.take(lines.len() as int) == lines);
    }

    /// Writes the lines that build the panes: the initial one, then the splits of the plan.
    fn emit_splits(&mut self, plan: &LayoutPlan, ctx: &WindowContext)
        requires
            ctx.wf(),
            old(self).counted(),
            old(self).pane_counter == ctx.base + 1,
        ensures
            final(self)@ == old(self)@ + split_lines(
                plan@.splits,
                ctx.base as int,
                ctx.root@,
                model::env_views(ctx.env@),
            ),
            final(self).counted(),
            final(self).pane_counter == ctx.base + 1 + plan@.splits.len(),
    {
        let splits = plan.splits();
        let ghost start = self@;
        let ghost env = model::env_views(ctx.env@);
        let ghost lines = split_lines(plan@.splits, ctx.base as int, ctx.root@, env);
        for i in 0..splits.len()
            invariant
                ctx.wf(),
                plan.wf(),
                layout_plan::split_views(splits@) == plan@.splits,
                env == model::env_views(ctx.env@),
                lines == split_lines(plan@.splits, ctx.base as int, ctx.root@, env),
                self@ == start + lines.take(i as int),
                self.counted(),
                self.pane_counter == ctx.base + 1 + i,
        {
            let split = &splits[i];
            assert(plan@.splits[i as int] == split@);
            let new: usize = self.pane_counter;
            let line = pane_var_string(new).concat("=$(tmux split-window -t ").concat(
                pane_ref_string(ctx.base + split.parent).as_str(),
            ).concat(" ").concat(split.flag.as_str()).concat(" -l ").concat(
                split.pct.as_tmux_size().as_str(),
            ).concat(" -c ").concat(ctx.root.as_str()).concat(ctx.tmux_env.as_str()).concat(
                " -P -F '#{pane_id}')",
            );
            self.emit(line);
            self.count_pane();
            assert(self@ == start + lines.take(i + 1));
        }
        assert(lines.take(lines.len() as int) == lines);
    }

    /// Writes the lines that configure one pane.
    fn emit_leaf(&mut self, leaf: &PlannedLeaf, base: usize)
        requires
            base + leaf.pane <= usize::MAX,
        ensures
            final(self)@ == old(self)@ + leaf_lines(leaf@, base as int),
            final(self).pane_counter == old(self).pane_counter,
    {
        let ghost start = self@;
        let pane: usize = base + leaf.pane;
        if let Some(cmd) = &leaf.command {
            self.emit(
                "tmux send-keys -t ".to_owned().concat(pane_ref_string(pane).as_str()).concat(
                    " -l -- ",
                ).concat(template::shell_quote(cmd.as_str()).as_str()),
            );
            self.emit(
                "tmux send-keys -t ".to_owned().concat(pane_ref_string(pane).as_str()).concat(
                    " Enter",
                ),
            );
        }
        let ghost a = command_lines(pane as int, leaf@.command);
        assert(self@ == start + a);
        if let Some(wf) = &leaf.wait_for {
            self.emit(
                "_ntd_wait_pane ".to_owned().concat(pane_ref_string(pane).as_str()).concat(
                    " ",
                ).concat(template::shell_quote(wf.pattern.as_str()).as_str()).concat(" ").concat(
                    text::decimal_string(wf.timeout.as_secs() as u64).as_str(),
                ),
            );
        }
        let ghost b = wait_lines(pane as int, leaf@.wait_for);
        assert(self@ == start + (a + b));
        if let Some(title) = &leaf.title {
            self.emit(
                "tmux select-pane -t ".to_owned().concat(pane_ref_string(pane).as_str()).concat(
                    " -T ",
                ).concat(template::shell_quote(title.as_str()).as_str()),
            );
        }
        assert(self@ == start + (a + b + title_lines(pane as int, leaf@.title)));
    }

    /// Writes the lines that configure the panes, and returns the one that gets the focus.
    fn emit_leaves(&mut self, plan: &LayoutPlan, base: usize) -> (focus: Option<usize>)
        requires
            base + plan@.splits.len() <= usize::MAX,
        ensures
            final(self)@ == old(self)@ + leaves_lines(plan@.leaves, base as int),
            final(self).pane_counter == old(self).pane_counter,
            match focus {
                Some(pane) => layout_plan::focused(plan@.leaves) == Some(pane as int) && base + pane
                    <= usize::MAX,
                None => layout_plan::focused(plan@.leaves) is None,
            },
    {
        let leaves = plan.leaves();
        let ghost start = self@;
        let mut focus: Option<usize> = None;
        assert(start + leaves_lines(plan@.leaves.take(0), base as int) == start);
        for i in 0..leaves.len()
            invariant
                plan.wf(),
                base + plan@.splits.len() <= usize::MAX,
                layout_plan::leaf_views(leaves@) == plan@.leaves,
                self@ == start + leaves_lines(plan@.leaves.take(i as int), base as int),
                self.pane_counter == old(self).pane_counter,
                match focus {
                    Some(pane) => layout_plan::focused(plan@.leaves.take(i as int)) == Some(pane as int) && base
                        + pane <= usize::MAX,
                    None => layout_plan::focused(plan@.leaves.take(i as int)) is None,
                },
        {
            let leaf = &leaves[i];
            assert(plan@.leaves[i as int] == leaf@);
            assert(plan@.leaves.take(i + 1).drop_last() == plan@.leaves.take(i as int));
            let ghost before = self@;
            self.emit_leaf(leaf, base);
            assert(self@ == start + leaves_lines(plan@.leaves.take(i + 1), base as int));
            if leaf.focus {
                focus = Some(leaf.pane);
            }
        }
        assert(plan@.leaves.take(plan@.leaves.len() as int) == plan@.leaves);
        focus
    }

    fn emit_window_options(&mut self, window: &Window)
        ensures
            final(self)@ == old(self)@ + window_option_lines(*window),
            final(self).pane_counter == old(self).pane_counter,
    {
        let entries = window.options.entries();
        let ghost start = self@;
        let ghost lines = window_option_lines(*window);
        for i in 0..entries.len()
            invariant
                entries@ == window.options@,
                lines == window_option_lines(*window),
                self@ == start + lines.take(i as int),
                self.pane_counter == old(self).pane_counter,
        {
            let line = "tmux set-window-option -t \"$SESSION:\"".to_owned().concat(
                template::shell_quote(window.name.as_str()).as_str(),
            ).concat("  -- ").concat(template::shell_quote(entries[i].0.as_str()).as_str()).concat(
                " ",
            ).concat(template::shell_quote(entries[i].1.as_str()).as_str());
            self.emit(line);
            assert(self@ == start + lines.take(i + 1));
        }
        assert(lines.take(lines.len() as int) == lines);
    }

    /// Writes the lines that build the panes of a window.
    fn emit_panes(
        &mut self,
        session: &Session,
        window: &Window,
        index: usize,
        plan: &LayoutPlan,
        ctx: &WindowContext,
    )
        requires
            ctx.wf(),
            old(self).counted(),
            old(self).pane_counter == ctx.base,
            ctx.root@ == template::word(model::root_text(*session, *window), session.vars),
            model::env_views(ctx.env@) == model::pane_env(*session, *window),
            plan@ == layout_plan::plan_of(window.layout, session.vars),
        ensures
            final(self)@ == old(self)@ + build_lines(
                *session,
                *window,
                index as int,
                ctx.base as int,
            ),
            final(self).counted(),
            final(self).pane_counter == ctx.base + 1 + plan@.splits.len(),
    {
        let ghost start = self@;
        self.emit(
            "# ── window ".to_owned().concat(text::decimal_string(index as u64).as_str()).concat(
                ": ",
            ).concat(window.name.as_str()).concat(" ──"),
        );
        let command: &str = if index == 0 {
            "=$(tmux new-session -d -s \"$SESSION\" -c "
        } else {
            "=$(tmux new-window -t \"$SESSION\" -c "
        };
        self.emit(
            pane_var_string(ctx.base).concat(command).concat(ctx.root.as_str()).concat(
                " -n ",
            ).concat(template::shell_quote(window.name.as_str()).as_str()).concat(
                ctx.tmux_env.as_str(),
            ).concat(" -P -F '#{pane_id}')"),
        );
        self.count_pane();
        let ghost head = seq![
            "# ── window "@ + text::decimal(index as nat) + ": "@ + window.name@ + " ──"@,
            initial_line(
                index == 0,
                ctx.base as int,
                ctx.root@,
                window.name@,
                model::env_views(ctx.env@),
            ),
        ];
        assert(self@ == start + head);
        let ghost options = if index == 0 {
            option_lines(session.options)
        } else {
            Seq::empty()
        };
        if index == 0 {
            self.emit_session_options(&session.options);
        }
        assert(self@ == start + (head + options));
        let ghost splits = split_lines(
            plan@.splits,
            ctx.base as int,
            ctx.root@,
            model::env_views(ctx.env@),
        );
        self.emit_splits(plan, ctx);
        assert(self@ == start + (head + options + splits));
    }

    /// Writes the lines of the window at `index`.
    fn compile_window(&mut self, session: &Session, index: usize) -> (r: Result<(), Error>)
        requires
            index < session.windows@.len(),
            model::layout_depth(session.windows@[index as int].layout) <= MAX_LAYOUT_DEPTH,
            old(self).counted(),
        ensures
            r is Ok,
            final(self)@ == old(self)@ + window_lines(
                *session,
                index as int,
                old(self).pane_counter as int,
            ),
            final(self).counted(),
            final(self).pane_counter == old(self).pane_counter + 1 + layout_plan::split_count(
                session.windows@[index as int].layout,
            ),
    {
        let window = &session.windows[index];
        let root = template::shell_quote_template_vars(
            model::window_root(session, window),
            &session.vars,
        )?;
        let env = model::effective_window_env(session, window);
        let tmux_env = tmux_env_args(env.as_slice());
        let plan = LayoutPlan::build(&window.layout, &session.vars)?;
        let ctx = WindowContext { root, env, tmux_env, base: self.pane_counter };
        let ghost start = self@;
        let ghost base = ctx.base as int;
        proof {
            layout_plan::lemma_plan_size(window.layout, session.vars);
        }

        // Phase 1: build the panes.
        self.emit_panes(session, window, index, &plan, &ctx);
        let ghost built = build_lines(*session, *window, index as int, base);

        // Phase 2: type commands and configure the panes.
        let focus = self.emit_leaves(&plan, ctx.base);
        let ghost a = leaves_lines(plan@.leaves, base);
        assert(self@ == start + (built + a));
        self.emit_window_options(window);
        let ghost b = window_option_lines(*window);
        assert(self@ == start + (built + (a + b)));
        if let Some(preset) = &window.select_layout {
            self.emit(
                "tmux select-layout -t \"$SESSION:\"".to_owned().concat(
                    template::shell_quote(window.name.as_str()).as_str(),
                ).concat("  -- ").concat(template::shell_quote(preset.as_str()).as_str()),
            );
        }
        let ghost c = preset_lines(*window);
        assert(self@ == start + (built + (a + b + c)));
        if let Some(pane) = focus {
            self.emit(
                "tmux select-pane -t ".to_owned().concat(
                    pane_ref_string(ctx.base + pane).as_str(),
                ),
            );
        }
        let ghost d = focus_lines(plan@.leaves, base);
        assert(self@ == start + (built + (a + b + c + d)));
        self.emit("".to_owned());
        assert(self@ == start + (built + configure_lines(*session, *window, base)));
        Ok(())
    }
}

} // verus!
