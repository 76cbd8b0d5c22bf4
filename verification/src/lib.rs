//! Declarative tmux session manager.
//!
//! A session description — a [`Session`] with ordered [`Window`]s, each holding a [`LayoutNode`]
//! tree of panes and splits — becomes a running tmux session. There are two ways to get there:
//!
//! - [`Compiler`] compiles a session into a self-contained, idempotent bash script.
//! - [`Executor`] drives tmux through the [`TmuxBackend`] trait. [`RecordingBackend`] records what
//!   it is asked, for tests without a tmux; [`RealTmux`] holds the settings of the backend that
//!   runs the `tmux` binary, and [`real_tmux`] its command lines.
//!
//! Both render the same [`LayoutPlan`]: first all panes of a window are built, then commands are
//! typed into them, so every pane exists before anything is sent to it.
//!
//! All of it is verified. Contracts speak of strings as sequences of characters; what a script
//! holds is said by [`compiler`], what is asked of tmux by [`protocol`]. Laws, which hold of every
//! session, are the public proof functions whose names start with `law_`; most stand in the modules
//! whose names end in `_laws`.

pub mod agreement;
pub mod attach;
pub mod backend;
pub mod check_laws;
pub mod checks;
pub mod command_laws;
pub mod compiler;
pub mod compiler_laws;
pub mod error;
pub mod executor;
pub mod file_laws;
pub mod format;
pub mod layout_laws;
pub mod layout_plan;
pub mod line_laws;
pub mod listing;
pub mod model;
pub mod ordered_map;
pub mod protocol;
pub mod protocol_laws;
pub mod ratio;
pub mod real_tmux;
pub mod record_laws;
pub mod recording;
pub mod request_laws;
pub mod run_laws;
pub mod session_laws;
pub mod sorting;
pub mod template;
pub mod template_laws;
pub mod text;
pub mod text_laws;
pub mod validate;
pub mod words;

pub use attach::{resolve_attach_action, AttachAction, AttachMode};
pub use backend::TmuxBackend;
pub use checks::validate_tmux_name;
pub use compiler::Compiler;
pub use error::Error;
pub use executor::Executor;
pub use format::{
    load_session, load_sessions_from_dir, load_sessions_from_dir_lenient, LenientDirScan,
    LoadedConfig, SkippedConfig,
};
pub use layout_plan::{LayoutPlan, PaneIndex, PlannedLeaf, PlannedSplit};
pub use model::{
    Direction, EnvVar, LayoutNode, Session, TmuxSplitFlag, WaitFor, WaitTimeoutSeconds, Window,
};
pub use ordered_map::{OrderedMap, TemplateVars, TmuxOptions};
pub use ratio::{SplitRatio, TmuxPanePercent};
pub use real_tmux::RealTmux;
pub use recording::RecordingBackend;
pub use template::{
    builtin_requests, resolve_tmux_arg_vars, resolve_vars, shell_quote, shell_quote_template_vars,
    BuiltinVar,
};
pub use words::{
    EnvVarName, EnvVarValue, PaneCommand, PaneId, PaneTitle, ResolvedTmuxArg, RootTemplate,
    ShellCommand, ShellWord, TemplateVarName, TemplateVarValue, TmuxLayoutPreset, TmuxName,
    TmuxOptionName, TmuxOptionValue, WaitPattern,
};
