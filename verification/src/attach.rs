//! Whether the terminal is handed over to a session when it has been built.
//!
//! Building a session is always of use; attaching to it makes sense only where there is a terminal
//! to hand over. A caller without one would see the whole command fail, although its session was
//! created.

use vstd::prelude::*;

verus! {

/// When the terminal is handed over.
#[derive(Debug, Clone, Copy, PartialEq, Eq, Structural)]
pub enum AttachMode {
    /// Whenever there is a terminal to hand over, or a tmux client to switch.
    Auto,
    /// Never: the session is left detached.
    Never,
}

impl Default for AttachMode {
    fn default() -> (r: AttachMode)
        ensures
            r == AttachMode::Auto,
    {
        AttachMode::Auto
    }
}

/// What is done when a session has been built.
#[derive(Debug, Clone, Copy, PartialEq, Eq, Structural)]
pub enum AttachAction {
    /// The tmux client around the caller is moved to the session.
    Switch,
    /// The terminal is taken over.
    Attach,
    /// The session is left detached.
    Skip,
}

/// Decides from the mode and the surroundings. `in_tmux` says whether the caller runs inside a tmux
/// client, which can be switched without a terminal; `stdin_is_terminal` says whether there is a
/// terminal to take over.
pub fn resolve_attach_action(
    mode: AttachMode,
    in_tmux: bool,
    stdin_is_terminal: bool,
) -> (r: AttachAction)
    ensures
        r is Switch <==> mode is Auto && in_tmux,
        r is Attach <==> mode is Auto && !in_tmux && stdin_is_terminal,
        r is Skip <==> mode is Never || (!in_tmux && !stdin_is_terminal),
{
    match mode {
        AttachMode::Never => AttachAction::Skip,
        AttachMode::Auto => {
            if in_tmux {
                AttachAction::Switch
            } else if stdin_is_terminal {
                AttachAction::Attach
            } else {
                AttachAction::Skip
            }
        },
    }
}

} // verus!
