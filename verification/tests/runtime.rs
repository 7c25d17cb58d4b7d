use ghostty::runtime::{activate, cli_takeover, BuildMode, Info, RuntimeState};

#[test]
fn activate_succeeds_on_zero_status() {
    let (state, token) = activate(RuntimeState::Uninitialized, 0);
    assert_eq!(state, RuntimeState::Initialized);
    assert!(token.is_some());
}

#[test]
fn activate_fails_on_nonzero_status() {
    let (state, token) = activate(RuntimeState::Uninitialized, 1);
    assert_eq!(state, RuntimeState::Uninitialized);
    assert!(token.is_none());
}

#[test]
fn cli_takeover_refused_after_activate() {
    let (state, token) = activate(RuntimeState::Uninitialized, 0);
    assert!(token.is_some());
    let (after, allowed) = cli_takeover(state);
    assert!(!allowed);
    assert_eq!(after, RuntimeState::Initialized);
}

#[test]
fn cli_takeover_allowed_when_uninitialized() {
    let (after, allowed) = cli_takeover(RuntimeState::Uninitialized);
    assert!(allowed);
    assert_eq!(after, RuntimeState::CliRunning);
}

#[test]
fn activate_refused_after_cli_takeover() {
    let (running, allowed) = cli_takeover(RuntimeState::Uninitialized);
    assert!(allowed);
    let (state, token) = activate(running, 0);
    assert!(token.is_none());
    assert_eq!(state, RuntimeState::CliRunning);
}

#[test]
fn build_mode_codes() {
    assert_eq!(BuildMode::from_raw(0), BuildMode::Debug);
    assert_eq!(BuildMode::from_raw(1), BuildMode::ReleaseSafe);
    assert_eq!(BuildMode::from_raw(2), BuildMode::ReleaseFast);
    assert_eq!(BuildMode::from_raw(3), BuildMode::ReleaseSmall);
    // an unrecognized code reads as a debug build
    assert_eq!(BuildMode::from_raw(17), BuildMode::Debug);
}

#[test]
fn info_decodes_version_bytes() {
    let info = Info::from_raw(1, b"1.0.3-main".to_vec());
    assert_eq!(info.build_mode, BuildMode::ReleaseSafe);
    assert_eq!(info.version, "1.0.3-main");
}
