use nix_tmux_define::{resolve_attach_action, AttachAction, AttachMode};

#[test]
fn auto_inside_tmux_switches_even_without_terminal() {
    // switch-client goes through the server, so a missing stdin terminal
    // (e.g. a reload triggered from a non-interactive hook inside tmux)
    // must not downgrade it to Skip.
    assert_eq!(
        resolve_attach_action(AttachMode::Auto, true, false),
        AttachAction::Switch
    );
    assert_eq!(
        resolve_attach_action(AttachMode::Auto, true, true),
        AttachAction::Switch
    );
}

#[test]
fn auto_with_terminal_outside_tmux_attaches() {
    assert_eq!(
        resolve_attach_action(AttachMode::Auto, false, true),
        AttachAction::Attach
    );
}

#[test]
fn auto_without_terminal_outside_tmux_skips() {
    // The regression this whole module exists for: a systemd oneshot /
    // headless caller must build the session and return, not fail on attach.
    assert_eq!(
        resolve_attach_action(AttachMode::Auto, false, false),
        AttachAction::Skip
    );
}

#[test]
fn never_always_skips_regardless_of_environment() {
    for &in_tmux in &[false, true] {
        for &is_tty in &[false, true] {
            assert_eq!(
                resolve_attach_action(AttachMode::Never, in_tmux, is_tty),
                AttachAction::Skip,
                "Never must skip for in_tmux={in_tmux}, is_tty={is_tty}"
            );
        }
    }
}

#[test]
fn default_mode_is_auto() {
    assert_eq!(AttachMode::default(), AttachMode::Auto);
}
