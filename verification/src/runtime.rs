//! The process-wide runtime guard: the native library's global state may be
//! claimed either by normal initialization or by the CLI takeover entry
//! point, never by both in one process.

use vstd::prelude::*;
use vstd::utf8::{decode_utf8, valid_utf8};
use crate::config::Config;
use crate::text::string_from_utf8;

verus! {

/// The compilation profile the native library reports about itself.
#[derive(Clone, Copy, PartialEq, Eq, Structural, Debug, Hash)]
pub enum BuildMode {
    Debug,
    ReleaseSafe,
    ReleaseFast,
    ReleaseSmall,
}

/// The build mode a numeric code of the native ABI stands for: the codes
/// count the modes in declaration order, and an unrecognized code reads as a
/// debug build.
pub open spec fn spec_build_mode(raw: u32) -> BuildMode {
    if raw == 0 {
        BuildMode::Debug
    } else if raw == 1 {
        BuildMode::ReleaseSafe
    } else if raw == 2 {
        BuildMode::ReleaseFast
    } else if raw == 3 {
        BuildMode::ReleaseSmall
    } else {
        BuildMode::Debug
    }
}

impl BuildMode {
    /// Decode a numeric build-mode code of the native ABI.
    pub fn from_raw(raw: u32) -> (r: BuildMode)
        ensures
            r == spec_build_mode(raw),
    {
        if raw == 1 {
            BuildMode::ReleaseSafe
        } else if raw == 2 {
            BuildMode::ReleaseFast
        } else if raw == 3 {
            BuildMode::ReleaseSmall
        } else {
            BuildMode::Debug
        }
    }
}

/// Build information the native library reports about itself.
#[derive(Debug, Clone, PartialEq, Eq, Hash)]
pub struct Info {
    pub build_mode: BuildMode,
    pub version: String,
}

impl Info {
    /// Decode the raw build info: a numeric mode code and the version
    /// string's bytes, which the native side hands over as UTF-8.
    pub fn from_raw(build_mode: u32, version: Vec<u8>) -> (r: Info)
        requires
            valid_utf8(version@),
        ensures
            r.build_mode == spec_build_mode(build_mode),
            r.version@ == decode_utf8(version@),
    {
        Info { build_mode: BuildMode::from_raw(build_mode), version: string_from_utf8(version) }
    }
}

/// The one process-wide mode of the native library's global state.
#[derive(Clone, Copy, PartialEq, Eq, Structural, Debug)]
pub enum RuntimeState {
    /// Nothing has claimed the global state yet.
    Uninitialized,
    /// Normal initialization succeeded; configuration objects may be made.
    Initialized,
    /// The CLI entry point owns the process and never returns.
    CliRunning,
}

/// Capability token: proof that normal initialization succeeded. Only
/// `activate` hands one out.
#[derive(Debug)]
pub struct Ghostty {
    marker: (),
}

impl Ghostty {
    /// A fresh configuration handle. Only a holder of the capability, that
    /// is a caller for whom initialization succeeded, can obtain one.
    pub fn create_config(&self) -> (r: Config)
        ensures
            r@.entries == Seq::<(crate::fields::Field, Seq<u8>)>::empty(),
            r@.messages == Seq::<Seq<u8>>::empty(),
            !r@.finalized,
    {
        Config::open()
    }
}

/// The state after an attempt at normal initialization with the given native
/// status: it succeeds exactly when nothing has claimed the state yet and the
/// native side reported status zero.
pub open spec fn spec_activate(state: RuntimeState, status: i32) -> RuntimeState {
    if state == RuntimeState::Uninitialized && status == 0 {
        RuntimeState::Initialized
    } else {
        state
    }
}

/// Whether the CLI takeover may proceed from the given state: it must abort
/// the process exactly when normal initialization has already succeeded.
pub open spec fn spec_cli_allowed(state: RuntimeState) -> bool {
    state != RuntimeState::Initialized
}

/// Attempt normal initialization: the native side has reported `status`, and
/// the guard decides the next state and whether a capability is owed.
pub fn activate(state: RuntimeState, status: i32) -> (r: (RuntimeState, Option<Ghostty>))
    ensures
        r.0 == spec_activate(state, status),
        r.1 is Some <==> (state == RuntimeState::Uninitialized && status == 0),
{
    if matches!(state, RuntimeState::Uninitialized) && status == 0 {
        (RuntimeState::Initialized, Some(Ghostty { marker: () }))
    } else {
        (state, None)
    }
}

/// Decide the CLI takeover: `true` means control may pass to the native CLI
/// entry point (and the state becomes `CliRunning`); `false` means the caller
/// must abort the process, because interactive initialization already owns
/// the global state.
pub fn cli_takeover(state: RuntimeState) -> (r: (RuntimeState, bool))
    ensures
        r.1 == spec_cli_allowed(state),
        r.1 ==> r.0 == RuntimeState::CliRunning,
        !r.1 ==> r.0 == state,
{
    if matches!(state, RuntimeState::Initialized) {
        (state, false)
    } else {
        (RuntimeState::CliRunning, true)
    }
}

/// A successful activation is final: the CLI takeover attempted afterwards,
/// however many further activation attempts lie in between, must refuse to
/// run and leave the caller to terminate the process.
pub proof fn lemma_cli_refused_after_activate(status: i32)
    requires
        status == 0,
    ensures
        !spec_cli_allowed(spec_activate(RuntimeState::Uninitialized, status)),
        forall|s: i32| !spec_cli_allowed(
            spec_activate(spec_activate(RuntimeState::Uninitialized, status), s),
        ),
{
}

/// The guard never moves out of a claimed state: activation attempts after
/// the first decision leave the state as it is.
pub proof fn lemma_claimed_state_is_final(state: RuntimeState, status: i32)
    requires
        state != RuntimeState::Uninitialized,
    ensures
        spec_activate(state, status) == state,
{
}

} // verus!
