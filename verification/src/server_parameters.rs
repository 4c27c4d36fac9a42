//! The identity a connection is opened with.

use vstd::prelude::*;

verus! {

/// Connection identity: where to connect and who this process is.
pub struct ServerParameters {
    pub web_socket_url: String,
    pub process_id: String,
    pub host_id: String,
    pub fleet_id: String,
    pub auth_token: String,
}

pub struct ServerParametersV {
    pub web_socket_url: Seq<char>,
    pub process_id: Seq<char>,
    pub host_id: Seq<char>,
    pub fleet_id: Seq<char>,
    pub auth_token: Seq<char>,
}

impl View for ServerParameters {
    type V = ServerParametersV;

    open spec fn view(&self) -> ServerParametersV {
        ServerParametersV {
            web_socket_url: self.web_socket_url@,
            process_id: self.process_id@,
            host_id: self.host_id@,
            fleet_id: self.fleet_id@,
            auth_token: self.auth_token@,
        }
    }
}

impl ServerParameters {
    /// Bundles the five identity strings.
    pub fn new(
        web_socket_url: String,
        process_id: String,
        host_id: String,
        fleet_id: String,
        auth_token: String,
    ) -> (r: ServerParameters)
        ensures
            r@.web_socket_url == web_socket_url@,
            r@.process_id == process_id@,
            r@.host_id == host_id@,
            r@.fleet_id == fleet_id@,
            r@.auth_token == auth_token@,
    {
        ServerParameters { web_socket_url, process_id, host_id, fleet_id, auth_token }
    }
}

/// How one environment override applies: a nonempty value replaces the field,
/// anything else leaves it.
pub open spec fn spec_override(field: Seq<char>, over: Option<Seq<char>>) -> Seq<char> {
    match over {
        Some(s) => if s.len() > 0 {
            s
        } else {
            field
        },
        None => field,
    }
}

fn apply_override(field: String, over: Option<String>) -> (r: String)
    ensures
        r@ == spec_override(field@, match over {
            Some(s) => Some(s@),
            None => None,
        }),
{
    match over {
        Some(s) => {
            if s.as_str().is_empty() {
                field
            } else {
                s
            }
        },
        None => field,
    }
}

impl ServerParameters {
    /// Applies the environment overrides the embedding program read: each
    /// value that is present and nonempty replaces its field.
    pub fn with_overrides(
        self,
        web_socket_url: Option<String>,
        process_id: Option<String>,
        host_id: Option<String>,
        fleet_id: Option<String>,
        auth_token: Option<String>,
    ) -> (r: ServerParameters)
        ensures
            r@.web_socket_url == spec_override(self@.web_socket_url, match web_socket_url {
                Some(s) => Some(s@),
                None => None,
            }),
            r@.process_id == spec_override(self@.process_id, match process_id {
                Some(s) => Some(s@),
                None => None,
            }),
            r@.host_id == spec_override(self@.host_id, match host_id {
                Some(s) => Some(s@),
                None => None,
            }),
            r@.fleet_id == spec_override(self@.fleet_id, match fleet_id {
                Some(s) => Some(s@),
                None => None,
            }),
            r@.auth_token == spec_override(self@.auth_token, match auth_token {
                Some(s) => Some(s@),
                None => None,
            }),
    {
        ServerParameters {
            web_socket_url: apply_override(self.web_socket_url, web_socket_url),
            process_id: apply_override(self.process_id, process_id),
            host_id: apply_override(self.host_id, host_id),
            fleet_id: apply_override(self.fleet_id, fleet_id),
            auth_token: apply_override(self.auth_token, auth_token),
        }
    }
}

} // verus!
