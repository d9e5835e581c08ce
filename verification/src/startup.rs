//! Startup decisions of the host: which collaborators to attach for a given
//! build mode, and the error with which launching the sidecar can fail.

use vstd::prelude::*;

verus! {

/// What the host attaches during setup: a logging sink, a sidecar process,
/// neither, or both.
pub struct StartupConfig {
    pub enable_logging: bool,
    pub enable_sidecar: bool,
}

/// The configuration the current design derives from the build mode: logging
/// is attached only in debug builds, the sidecar is spawned only in production
/// builds, so the two toggles are mutually exclusive.
pub fn startup_config(debug_build: bool) -> (config: StartupConfig)
    ensures
        config.enable_logging == debug_build,
        config.enable_sidecar == !debug_build,
        config.enable_logging != config.enable_sidecar,
{
    StartupConfig { enable_logging: debug_build, enable_sidecar: !debug_build }
}

/// Why the launcher could not start the sidecar: the binary could not be
/// located, or the operating system refused to create the process. Fatal to
/// startup; it is surfaced before any event is produced and before the relay
/// starts.
pub struct SpawnError {
    message: String,
}

impl View for SpawnError {
    type V = Seq<char>;

    closed spec fn view(&self) -> Seq<char> {
        self.message@
    }
}

impl SpawnError {
    /// Wraps the launcher's diagnostic.
    pub fn new(message: String) -> (error: SpawnError)
        ensures
            error@ == message@,
    {
        SpawnError { message }
    }

    /// The diagnostic, for the host to display or log.
    pub fn message(&self) -> (message: &String)
        ensures
            message@ == self@,
    {
        &self.message
    }
}

} // verus!
