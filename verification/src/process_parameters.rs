//! What a process hands over when it declares itself ready: its callbacks,
//! the port players connect to, and its log locations.

use vstd::prelude::*;

verus! {

/// Directories whose logs the service may collect for a game session.
pub struct LogParameters {
    pub log_paths: Vec<String>,
}

/// The capability set installed by readiness: one callback per lifecycle
/// event, the listen port, and the log locations. The callbacks are opaque to
/// the session core; the dispatcher decides when each is invoked.
pub struct ProcessParameters<Fn1, Fn2, Fn3, Fn4> {
    /// Invoked when a new game session is assigned to this process.
    pub on_start_game_session: Fn1,
    /// Invoked when the matchmaker updates the running game session.
    pub on_update_game_session: Fn2,
    /// Invoked when the service instructs the process to shut down.
    pub on_process_terminate: Fn3,
    /// Invoked periodically; reports whether the process is healthy.
    pub on_health_check: Fn4,
    /// Port number the server process listens on for player connections.
    pub port: u16,
    /// Log locations reported with the activation request.
    pub log_parameters: LogParameters,
}

} // verus!
