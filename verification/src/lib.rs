//! Client session layer for a game-server hosting gateway.
//!
//! A game server process embeds this library to register itself with the
//! hosting service over a single persistent duplex frame stream, receive
//! lifecycle events (create / update / terminate a game session), and issue
//! correlated request/response calls. The verified core is transport-free:
//! it builds and parses the wire envelopes, tracks in-flight requests,
//! decides how events are dispatched, and caches fleet-role credentials.
//! An embedding program supplies the stream, the clock and the async runtime.

use vstd::prelude::*;

pub mod api;
pub mod aux_proxy_message_sender;
pub mod connection_state;
pub mod data;
pub mod entity;
pub mod error;
pub mod json;
pub mod message;
pub mod mapper;
pub mod proto;
pub mod protocol;
pub mod process_parameters;
pub mod request;
pub mod responce_result;
pub mod server_parameters;
pub mod server_state;
pub mod web_socket_listener;

pub use api::Api;
pub use error::Error;
pub use process_parameters::{LogParameters, ProcessParameters};
pub use server_parameters::ServerParameters;

verus! {

/// Version string the library advertises to the gateway.
pub fn get_sdk_version() -> (r: &'static str)
    ensures
        r@ == "5.0.0"@,
{
    "5.0.0"
}

} // verus!
