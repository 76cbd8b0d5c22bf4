//! The description of a session: windows, layout trees, panes, options and variables.

use crate::checks;
use crate::error;
use crate::error::Error;
use crate::ordered_map::{TemplateVars, TmuxOptions};
use crate::ratio::SplitRatio;
use crate::text::Text;
use crate::words::{
    EnvVarName, EnvVarValue, PaneCommand, PaneTitle, RootTemplate, ShellCommand, TmuxLayoutPreset,
    TmuxName, WaitPattern,
};
use vstd::prelude::*;
use vstd::string::*;

verus! {

/// The greatest depth at which a node may stand in a layout tree; the root stands at depth 0.
pub const MAX_LAYOUT_DEPTH: usize = 64;

// ─── Splits ──────────────────────────────────────────────────────────────────

/// The direction in which a split lays out its children.
#[derive(Debug, Clone, Copy, PartialEq, Eq, Structural)]
pub enum Direction {
    /// Side by side.
    Horizontal,
    /// One above the other.
    Vertical,
}

/// The split flags of tmux.
#[derive(Debug, Clone, Copy, PartialEq, Eq, Hash, Structural)]
pub enum TmuxSplitFlag {
    Horizontal,
    Vertical,
}

/// The split flag for a direction.
pub open spec fn split_flag(direction: Direction) -> TmuxSplitFlag {
    match direction {
        Direction::Horizontal => TmuxSplitFlag::Horizontal,
        Direction::Vertical => TmuxSplitFlag::Vertical,
    }
}

impl Direction {
    /// The split flag for the direction.
    pub fn tmux_split_flag(self) -> (r: TmuxSplitFlag)
        ensures
            r == split_flag(self),
    {
        match self {
            Direction::Horizontal => TmuxSplitFlag::Horizontal,
            Direction::Vertical => TmuxSplitFlag::Vertical,
        }
    }
}

/// A split flag as it stands on the command line.
pub open spec fn flag_text(flag: TmuxSplitFlag) -> Text {
    match flag {
        TmuxSplitFlag::Horizontal => "-h"@,
        TmuxSplitFlag::Vertical => "-v"@,
    }
}

impl TmuxSplitFlag {
    /// The flag as it stands on the command line.
    pub fn as_str(self) -> (r: &'static str)
        ensures
            r@ == flag_text(self),
    {
        match self {
            TmuxSplitFlag::Horizontal => "-h",
            TmuxSplitFlag::Vertical => "-v",
        }
    }
}

// ─── Waiting ─────────────────────────────────────────────────────────────────

/// A positive timeout in seconds.
#[derive(Debug, Clone, Copy, PartialEq, Eq, PartialOrd, Ord, Hash, Structural)]
pub struct WaitTimeoutSeconds(u32);

impl View for WaitTimeoutSeconds {
    type V = u32;

    closed spec fn view(&self) -> u32 {
        self.0
    }
}

impl WaitTimeoutSeconds {
    pub const MIN_INCLUSIVE: u32 = 1;

    pub const DEFAULT_SECONDS: u32 = 30;

    /// A timeout is at least one second.
    #[verifier::type_invariant]
    pub open spec fn wf(&self) -> bool {
        self@ >= 1
    }

    /// The timeout of `value` seconds.
    pub fn new(value: u32) -> (r: Result<WaitTimeoutSeconds, Error>)
        ensures
            error::failure(r) == if value >= 1 {
                None
            } else {
                Some(seq!["wait_for timeout must be at least 1 second"@])
            },
            r matches Ok(v) ==> v@ == value,
    {
        if value < Self::MIN_INCLUSIVE {
            return Err(Error::msg("wait_for timeout must be at least 1 second".to_owned()));
        }
        Ok(WaitTimeoutSeconds(value))
    }

    /// The number of seconds.
    pub fn as_secs(self) -> (r: u32)
        ensures
            r == self@,
            self.wf(),
    {
        proof {
            use_type_invariant(&self);
        }
        self.0
    }
}

impl Default for WaitTimeoutSeconds {
    /// The timeout that holds where none is given.
    fn default() -> (r: WaitTimeoutSeconds)
        ensures
            r@ == 30,
    {
        WaitTimeoutSeconds(Self::DEFAULT_SECONDS)
    }
}

impl From<WaitTimeoutSeconds> for u32 {
    fn from(value: WaitTimeoutSeconds) -> (r: u32) {
        value.as_secs()
    }
}

impl vstd::std_specs::convert::FromSpecImpl<WaitTimeoutSeconds> for u32 {
    open spec fn obeys_from_spec() -> bool {
        true
    }

    open spec fn from_spec(value: WaitTimeoutSeconds) -> u32 {
        value@
    }
}

/// What a pane waits for before the next one is set up: a pattern in its output.
#[derive(Debug, PartialEq)]
pub struct WaitFor {
    pub pattern: WaitPattern,
    pub timeout: WaitTimeoutSeconds,
}

impl View for WaitFor {
    type V = (Text, u32);

    /// The pattern and the number of seconds.
    open spec fn view(&self) -> (Text, u32) {
        (self.pattern@, self.timeout@)
    }
}

impl WaitFor {
    /// The parts are valid.
    pub open spec fn wf(&self) -> bool {
        self.pattern.wf() && self.timeout.wf()
    }
}

impl Clone for WaitFor {
    fn clone(&self) -> (r: WaitFor)
        ensures
            r@ == self@,
    {
        WaitFor { pattern: self.pattern.clone(), timeout: self.timeout }
    }
}

// ─── Environment ─────────────────────────────────────────────────────────────

/// An environment variable.
#[derive(Debug, PartialEq)]
pub struct EnvVar {
    pub key: EnvVarName,
    pub value: EnvVarValue,
}

impl View for EnvVar {
    type V = (Text, Text);

    /// The name and the value.
    open spec fn view(&self) -> (Text, Text) {
        (self.key@, self.value@)
    }
}

impl EnvVar {
    /// The parts are valid.
    pub open spec fn wf(&self) -> bool {
        self.key.wf() && self.value.wf()
    }
}

impl Clone for EnvVar {
    fn clone(&self) -> (r: EnvVar)
        ensures
            r@ == self@,
    {
        EnvVar { key: self.key.clone(), value: self.value.clone() }
    }
}

/// The names and values of a list of environment variables.
pub open spec fn env_views(env: Seq<EnvVar>) -> Seq<(Text, Text)> {
    env.map_values(|ev: EnvVar| ev@)
}

// ─── Layout ──────────────────────────────────────────────────────────────────

/// A node of a layout tree.
#[derive(Debug, PartialEq)]
pub enum LayoutNode {
    Pane {
        /// The command typed into the pane when it has been created.
        command: Option<PaneCommand>,
        /// Whether the pane gets the focus when the window is complete.
        focus: bool,
        /// The title of the pane.
        title: Option<PaneTitle>,
        /// What is waited for before the next pane is set up.
        wait_for: Option<WaitFor>,
    },
    Split {
        direction: Direction,
        /// The fraction of space that the first child gets.
        ratio: SplitRatio,
        first: Box<LayoutNode>,
        second: Box<LayoutNode>,
    },
}

/// How deep the deepest node of a tree stands below its root.
pub open spec fn layout_depth(node: LayoutNode) -> nat
    decreases node,
{
    match node {
        LayoutNode::Pane { .. } => 0,
        LayoutNode::Split { first, second, .. } => {
            let a = layout_depth(*first);
            let b = layout_depth(*second);
            1 + if a < b {
                b
            } else {
                a
            }
        },
    }
}

impl LayoutNode {
    /// The parts are valid.
    pub open spec fn wf(&self) -> bool
        decreases self,
    {
        match self {
            LayoutNode::Pane { command, focus, title, wait_for } => {
                &&& command matches Some(c) ==> c.wf()
                &&& title matches Some(t) ==> t.wf()
                &&& wait_for matches Some(w) ==> w.wf()
            },
            LayoutNode::Split { direction, ratio, first, second } => {
                ratio.wf() && first.wf() && second.wf()
            },
        }
    }

    /// An empty pane: no command, no focus, no title, nothing to wait for.
    pub fn pane() -> (r: LayoutNode)
        ensures
            r == (LayoutNode::Pane { command: None, focus: false, title: None, wait_for: None }),
    {
        LayoutNode::Pane { command: None, focus: false, title: None, wait_for: None }
    }

    /// A pane that runs `command`.
    pub fn command(command: &str) -> (r: Result<LayoutNode, Error>)
        ensures
            error::failure(r) == checks::nul_error(command@, "pane command"@),
            r matches Ok(node) ==> {
                &&& node matches LayoutNode::Pane {
                    command: Some(c),
                    focus: false,
                    title: None,
                    wait_for: None,
                }
                &&& c@ == command@
            },
    {
        let command = PaneCommand::new(command)?;
        Ok(
            LayoutNode::Pane { command: Some(command), focus: false, title: None, wait_for: None },
        )
    }

    /// A split of two children.
    pub fn split(
        direction: Direction,
        ratio: SplitRatio,
        first: LayoutNode,
        second: LayoutNode,
    ) -> (r: LayoutNode)
        ensures
            r == (LayoutNode::Split {
                direction,
                ratio,
                first: Box::new(first),
                second: Box::new(second),
            }),
    {
        LayoutNode::Split { direction, ratio, first: Box::new(first), second: Box::new(second) }
    }

    /// A split of two children at the ratio with the bit pattern `bits`, which is printed as
    /// `shown`.
    pub fn try_split(
        direction: Direction,
        bits: u64,
        shown: &str,
        first: LayoutNode,
        second: LayoutNode,
    ) -> (r: Result<LayoutNode, Error>)
        ensures
            error::failure(r) == crate::ratio::ratio_error(bits, shown@),
            r matches Ok(node) ==> {
                &&& node matches LayoutNode::Split { direction: d, ratio, first: a, second: b }
                &&& d == direction
                &&& ratio@ == bits
                &&& *a == first
                &&& *b == second
            },
    {
        let ratio = SplitRatio::new(bits, shown)?;
        Ok(LayoutNode::split(direction, ratio, first, second))
    }
}

/// The text of an optional command.
pub open spec fn command_text(command: Option<PaneCommand>) -> Option<Text> {
    match command {
        Some(c) => Some(c@),
        None => None,
    }
}

/// The text of an optional title.
pub open spec fn title_text(title: Option<PaneTitle>) -> Option<Text> {
    match title {
        Some(t) => Some(t@),
        None => None,
    }
}

/// The pattern and timeout of an optional wait.
pub open spec fn wait_value(wait_for: Option<WaitFor>) -> Option<(Text, u32)> {
    match wait_for {
        Some(w) => Some(w@),
        None => None,
    }
}

/// Two trees have the same shape, and their nodes hold the same values.
pub open spec fn alike(a: LayoutNode, b: LayoutNode) -> bool
    decreases a,
{
    match (a, b) {
        (
            LayoutNode::Pane { command, focus, title, wait_for },
            LayoutNode::Pane { command: c, focus: f, title: t, wait_for: w },
        ) => {
            &&& command_text(command) == command_text(c)
            &&& focus == f
            &&& title_text(title) == title_text(t)
            &&& wait_value(wait_for) == wait_value(w)
        },
        (
            LayoutNode::Split { direction, ratio, first, second },
            LayoutNode::Split { direction: d, ratio: r, first: x, second: y },
        ) => {
            &&& direction == d
            &&& ratio == r
            &&& alike(*first, *x)
            &&& alike(*second, *y)
        },
        _ => false,
    }
}

impl Clone for LayoutNode {
    fn clone(&self) -> (r: LayoutNode)
        ensures
            alike(*self, r),
        decreases self,
    {
        match self {
            LayoutNode::Pane { command, focus, title, wait_for } => LayoutNode::Pane {
                command: match command {
                    Some(c) => Some(c.clone()),
                    None => None,
                },
                focus: *focus,
                title: match title {
                    Some(t) => Some(t.clone()),
                    None => None,
                },
                wait_for: match wait_for {
                    Some(w) => Some(w.clone()),
                    None => None,
                },
            },
            LayoutNode::Split { direction, ratio, first, second } => LayoutNode::Split {
                direction: *direction,
                ratio: *ratio,
                first: Box::new((&**first).clone()),
                second: Box::new((&**second).clone()),
            },
        }
    }
}

impl Default for LayoutNode {
    /// An empty pane.
    fn default() -> (r: LayoutNode)
        ensures
            r == (LayoutNode::Pane { command: None, focus: false, title: None, wait_for: None }),
    {
        LayoutNode::pane()
    }
}

// ─── Windows and sessions ────────────────────────────────────────────────────

/// A window of a session.
#[derive(Debug, Clone, PartialEq)]
pub struct Window {
    pub name: TmuxName,
    pub layout: LayoutNode,
    /// The working directory of the window, in place of that of the session.
    pub root: Option<RootTemplate>,
    pub env: Vec<EnvVar>,
    /// Window options of tmux.
    pub options: TmuxOptions,
    /// The layout preset that is applied when the panes have been built.
    pub select_layout: Option<TmuxLayoutPreset>,
}

/// A session.
#[derive(Debug, Clone, PartialEq)]
pub struct Session {
    pub name: TmuxName,
    /// The working directory of the windows that name none; the home directory if there is none.
    pub root: Option<RootTemplate>,
    /// The windows, in order; a session has at least one.
    pub windows: Vec<Window>,
    pub env: Vec<EnvVar>,
    /// A shell command that runs before the session is created.
    pub pre_hook: Option<ShellCommand>,
    /// Session options of tmux.
    pub options: TmuxOptions,
    /// The variables that `{{key}}` placeholders stand for.
    pub vars: TemplateVars,
}

/// The environment of the panes of a window: that of the session, then that of the window.
pub open spec fn pane_env(session: Session, window: Window) -> Seq<(Text, Text)> {
    env_views(session.env@) + env_views(window.env@)
}

/// The environment of the panes of `window`.
pub fn effective_window_env(session: &Session, window: &Window) -> (r: Vec<EnvVar>)
    ensures
        env_views(r@) == pane_env(*session, *window),
{
    let mut env: Vec<EnvVar> = Vec::new();
    for i in 0..session.env.len()
        invariant
            env_views(env@) == env_views(session.env@).take(i as int),
    {
        let ghost before = env@;
        env.push(session.env[i].clone());
        assert(env_views(env@) == env_views(before).push(session.env@[i as int]@));
        assert(env_views(env@) == env_views(session.env@).take(i + 1));
    }
    assert(env_views(env@) == env_views(session.env@));
    for i in 0..window.env.len()
        invariant
            env_views(env@) == env_views(session.env@) + env_views(window.env@).take(i as int),
    {
        let ghost before = env@;
        env.push(window.env[i].clone());
        assert(env_views(env@) == env_views(before).push(window.env@[i as int]@));
        assert(env_views(env@) == env_views(session.env@) + env_views(window.env@).take(i + 1));
    }
    assert(env_views(window.env@).take(window.env@.len() as int) == env_views(window.env@));
    env
}

/// The working directory of a window: its own, else that of the session, else the home directory.
pub open spec fn root_text(session: Session, window: Window) -> Text {
    match window.root {
        Some(root) => root@,
        None => match session.root {
            Some(root) => root@,
            None => "~"@,
        },
    }
}

/// The working directory of `window`.
pub fn window_root<'a>(session: &'a Session, window: &'a Window) -> (r: &'a str)
    ensures
        r@ == root_text(*session, *window),
        checks::no_nul(r@),
{
    proof {
        reveal_strlit("~");
    }
    match &window.root {
        Some(root) => root.as_str(),
        None => match &session.root {
            Some(root) => root.as_str(),
            None => "~",
        },
    }
}

/// All environment variables are valid.
pub open spec fn env_wf(env: Seq<EnvVar>) -> bool {
    forall|i: int| 0 <= i < env.len() ==> (#[trigger] env[i]).wf()
}

/// All options are valid, and they are ordered by their names.
pub open spec fn options_wf(options: TmuxOptions) -> bool {
    &&& options.wf()
    &&& forall|i: int|
        0 <= i < options@.len() ==> (#[trigger] options@[i]).0.wf() && options@[i].1.wf()
}

/// All variables are valid, and they are ordered by their names.
pub open spec fn vars_wf(vars: TemplateVars) -> bool {
    &&& vars.wf()
    &&& forall|i: int| 0 <= i < vars@.len() ==> (#[trigger] vars@[i]).0.wf() && vars@[i].1.wf()
}

impl Window {
    /// The parts are valid.
    pub open spec fn wf(&self) -> bool {
        &&& self.name.wf()
        &&& self.layout.wf()
        &&& self.root matches Some(root) ==> root.wf()
        &&& env_wf(self.env@)
        &&& options_wf(self.options)
        &&& self.select_layout matches Some(preset) ==> preset.wf()
    }
}

impl Session {
    /// The parts are valid. This holds of every session that a program can build.
    pub open spec fn wf(&self) -> bool {
        &&& self.name.wf()
        &&& self.root matches Some(root) ==> root.wf()
        &&& forall|i: int| 0 <= i < self.windows@.len() ==> (#[trigger] self.windows@[i]).wf()
        &&& env_wf(self.env@)
        &&& self.pre_hook matches Some(hook) ==> hook.wf()
        &&& options_wf(self.options)
        &&& vars_wf(self.vars)
    }
}

} // verus!
