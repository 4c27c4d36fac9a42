//! The embedding program's handle: a thin wrapper over the session core. The
//! transport, the clock and the async runtime stay with the embedding
//! program; everything the handle decides is verified in the session core.

use vstd::prelude::*;

use crate::error::Error;
use crate::request::ActivateGameSessionRequest;
use crate::server_parameters::ServerParameters;
use crate::server_state::ServerState;

verus! {

/// The session handle an embedding program drives. The session core is the
/// handle's single field; an embedding program drives the dispatcher and the
/// credential path through it directly.
pub struct Api {
    pub state: ServerState,
}

impl Api {
    /// Version string the library advertises to the gateway.
    pub fn get_sdk_version() -> (r: &'static str)
        ensures
            r@ == "5.0.0"@,
    {
        crate::get_sdk_version()
    }

    /// Builds the session core for a connection with this identity.
    pub fn init_sdk(server_parameters: &ServerParameters) -> (r: Api)
        ensures
            r.state.cache_wf(),
            !r.state.spec_inner().spec_ready(),
            r.state.spec_inner().spec_game_session_id() is None,
            r.state.spec_inner().spec_termination_time() is None,
            r.state.spec_inner().spec_fleet_id() == server_parameters@.fleet_id,
            r.state.spec_inner().spec_host_id() == server_parameters@.host_id,
            r.state.spec_inner().spec_process_id() == server_parameters@.process_id,
    {
        Api { state: ServerState::new(server_parameters) }
    }

    /// The recorded game session id, exactly when one has been delivered.
    pub fn get_game_session_id(&self) -> (r: Result<String, Error>)
        ensures
            match self.state.spec_inner().spec_game_session_id() {
                Some(s) => r matches Result::Ok(v) && v@ == s,
                None => r matches Result::Err(e) && e is GameSessionIdNotSet,
            },
    {
        self.state.get_game_session_id()
    }

    /// The recorded termination time in milliseconds since the epoch, exactly
    /// when a terminate notice has been delivered.
    pub fn get_termination_time(&self) -> (r: Result<i64, Error>)
        ensures
            match self.state.spec_inner().spec_termination_time() {
                Some(t) => r matches Result::Ok(v) && v as int == t,
                None => r matches Result::Err(e) && e is TerminationTimeNotSet,
            },
    {
        self.state.get_termination_time()
    }

    /// Builds the activation request for the recorded game session.
    pub fn activate_game_session(&self) -> (r: Result<ActivateGameSessionRequest, Error>)
        ensures
            match self.state.spec_inner().spec_game_session_id() {
                Some(s) => r matches Result::Ok(q) && q.game_session_id@ == s,
                None => r matches Result::Err(e) && e is GameSessionIdNotSet,
            },
    {
        self.state.activate_game_session()
    }

}

} // verus!
