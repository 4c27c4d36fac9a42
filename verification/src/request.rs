//! The closed registry of outbound requests: each request type knows its
//! action name and encodes its fields into envelope content, exactly.

use vstd::prelude::*;

use crate::data::{policy_name, PlayerSessionCreationPolicy};
use crate::json::{dec_i, Json, JsonV};
use crate::protocol::{
    members_view, push_bool_field, push_int_field, push_json_field, push_str_field, str_items,
    RequestMessage,
};

verus! {

/// Assembles an envelope from an action name, a fresh correlation id and the
/// request's content.
pub fn make_message(action: &str, request_id: String, content: Vec<(String, Json)>) -> (r:
    RequestMessage)
    ensures
        r@.action == action@,
        r@.request_id == request_id@,
        r@.content == members_view(content@),
{
    RequestMessage { action: String::from_str(action), request_id, content }
}

pub struct AcceptPlayerSessionRequest {
    pub game_session_id: String,
    pub player_session_id: String,
}

impl AcceptPlayerSessionRequest {
    pub fn action_name() -> (r: &'static str)
        ensures
            r@ == "AcceptPlayerSession"@,
    {
        "AcceptPlayerSession"
    }

    /// The request's fields as envelope content.
    pub fn to_content(self) -> (r: Vec<(String, Json)>)
        ensures
            members_view(r@) == seq![
                ("GameSessionId"@, JsonV::Str(self.game_session_id@)),
                ("PlayerSessionId"@, JsonV::Str(self.player_session_id@)),
            ],
    {
        let ghost gs = self.game_session_id@;
        let ghost ps = self.player_session_id@;
        let mut ms: Vec<(String, Json)> = Vec::new();
        proof {
            assert(members_view(ms@) =~= Seq::<(Seq<char>, JsonV)>::empty());
        }
        push_str_field(&mut ms, "GameSessionId", self.game_session_id);
        push_str_field(&mut ms, "PlayerSessionId", self.player_session_id);
        proof {
            assert(members_view(ms@) =~= seq![
                ("GameSessionId"@, JsonV::Str(gs)),
                ("PlayerSessionId"@, JsonV::Str(ps)),
            ]);
        }
        ms
    }
}

pub struct ActivateGameSessionRequest {
    pub game_session_id: String,
}

impl ActivateGameSessionRequest {
    pub fn action_name() -> (r: &'static str)
        ensures
            r@ == "ActivateGameSession"@,
    {
        "ActivateGameSession"
    }

    /// The request's fields as envelope content.
    pub fn to_content(self) -> (r: Vec<(String, Json)>)
        ensures
            members_view(r@) == seq![("GameSessionId"@, JsonV::Str(self.game_session_id@))],
    {
        let ghost gs = self.game_session_id@;
        let mut ms: Vec<(String, Json)> = Vec::new();
        proof {
            assert(members_view(ms@) =~= Seq::<(Seq<char>, JsonV)>::empty());
        }
        push_str_field(&mut ms, "GameSessionId", self.game_session_id);
        proof {
            assert(members_view(ms@) =~= seq![("GameSessionId"@, JsonV::Str(gs))]);
        }
        ms
    }
}

pub struct ActivateServerProcessRequest {
    pub sdk_version: String,
    pub sdk_language: String,
    pub port: u16,
    pub log_paths: Vec<String>,
}

impl ActivateServerProcessRequest {
    pub fn action_name() -> (r: &'static str)
        ensures
            r@ == "ActivateServerProcess"@,
    {
        "ActivateServerProcess"
    }

    /// The request's fields as envelope content.
    pub fn to_content(self) -> (r: Vec<(String, Json)>)
        ensures
            members_view(r@) == seq![
                ("SdkVersion"@, JsonV::Str(self.sdk_version@)),
                ("SdkLanguage"@, JsonV::Str(self.sdk_language@)),
                ("Port"@, JsonV::Num(dec_i(self.port as int))),
                ("LogPaths"@, JsonV::Arr(str_items(self.log_paths.deep_view()))),
            ],
    {
        let ghost sv = self.sdk_version@;
        let ghost sl = self.sdk_language@;
        let ghost lp = self.log_paths.deep_view();
        let mut ms: Vec<(String, Json)> = Vec::new();
        proof {
            assert(members_view(ms@) =~= Seq::<(Seq<char>, JsonV)>::empty());
        }
        push_str_field(&mut ms, "SdkVersion", self.sdk_version);
        push_str_field(&mut ms, "SdkLanguage", self.sdk_language);
        push_int_field(&mut ms, "Port", self.port as i64);
        let arr = crate::protocol::json_str_arr(&self.log_paths);
        push_json_field(&mut ms, "LogPaths", arr);
        proof {
            assert(members_view(ms@) =~= seq![
                ("SdkVersion"@, JsonV::Str(sv)),
                ("SdkLanguage"@, JsonV::Str(sl)),
                ("Port"@, JsonV::Num(dec_i(self.port as int))),
                ("LogPaths"@, JsonV::Arr(str_items(lp))),
            ]);
        }
        ms
    }
}

pub struct DescribePlayerSessionsRequest {
    pub game_session_id: String,
    pub player_session_id: String,
    pub player_id: String,
    pub player_session_status_filter: String,
    pub next_token: String,
    pub limit: i32,
}

impl DescribePlayerSessionsRequest {
    pub fn action_name() -> (r: &'static str)
        ensures
            r@ == "DescribePlayerSessions"@,
    {
        "DescribePlayerSessions"
    }

    /// The request's fields as envelope content.
    pub fn to_content(self) -> (r: Vec<(String, Json)>)
        ensures
            members_view(r@) == seq![
                ("GameSessionId"@, JsonV::Str(self.game_session_id@)),
                ("PlayerSessionId"@, JsonV::Str(self.player_session_id@)),
                ("PlayerId"@, JsonV::Str(self.player_id@)),
                ("PlayerSessionStatusFilter"@, JsonV::Str(self.player_session_status_filter@)),
                ("NextToken"@, JsonV::Str(self.next_token@)),
                ("Limit"@, JsonV::Num(dec_i(self.limit as int))),
            ],
    {
        let ghost f0 = self.game_session_id@;
        let ghost f1 = self.player_session_id@;
        let ghost f2 = self.player_id@;
        let ghost f3 = self.player_session_status_filter@;
        let ghost f4 = self.next_token@;
        let mut ms: Vec<(String, Json)> = Vec::new();
        proof {
            assert(members_view(ms@) =~= Seq::<(Seq<char>, JsonV)>::empty());
        }
        push_str_field(&mut ms, "GameSessionId", self.game_session_id);
        push_str_field(&mut ms, "PlayerSessionId", self.player_session_id);
        push_str_field(&mut ms, "PlayerId", self.player_id);
        push_str_field(&mut ms, "PlayerSessionStatusFilter", self.player_session_status_filter);
        push_str_field(&mut ms, "NextToken", self.next_token);
        push_int_field(&mut ms, "Limit", self.limit as i64);
        proof {
            assert(members_view(ms@) =~= seq![
                ("GameSessionId"@, JsonV::Str(f0)),
                ("PlayerSessionId"@, JsonV::Str(f1)),
                ("PlayerId"@, JsonV::Str(f2)),
                ("PlayerSessionStatusFilter"@, JsonV::Str(f3)),
                ("NextToken"@, JsonV::Str(f4)),
                ("Limit"@, JsonV::Num(dec_i(self.limit as int))),
            ]);
        }
        ms
    }
}

impl Default for DescribePlayerSessionsRequest {
    /// An unfiltered query asking for the first fifty sessions.
    fn default() -> (r: Self)
        ensures
            r.game_session_id@ == Seq::<char>::empty(),
            r.player_session_id@ == Seq::<char>::empty(),
            r.player_id@ == Seq::<char>::empty(),
            r.player_session_status_filter@ == Seq::<char>::empty(),
            r.next_token@ == Seq::<char>::empty(),
            r.limit == 50,
    {
        DescribePlayerSessionsRequest {
            game_session_id: String::new(),
            player_session_id: String::new(),
            player_id: String::new(),
            player_session_status_filter: String::new(),
            next_token: String::new(),
            limit: 50,
        }
    }
}

pub struct GetComputeCertificateRequest {}

impl GetComputeCertificateRequest {
    pub fn action_name() -> (r: &'static str)
        ensures
            r@ == "GetComputeCertificate"@,
    {
        "GetComputeCertificate"
    }

    /// The request has no fields.
    pub fn to_content(self) -> (r: Vec<(String, Json)>)
        ensures
            members_view(r@) == Seq::<(Seq<char>, JsonV)>::empty(),
    {
        let ms: Vec<(String, Json)> = Vec::new();
        proof {
            assert(members_view(ms@) =~= Seq::<(Seq<char>, JsonV)>::empty());
        }
        ms
    }
}

pub struct GetFleetRoleCredentialsRequest {
    pub role_arn: String,
    pub role_session_name: Option<String>,
}

/// How an optional session name encodes: a string when given, null otherwise.
pub open spec fn opt_str_json(o: Option<String>) -> JsonV {
    match o {
        Some(s) => JsonV::Str(s@),
        None => JsonV::Null,
    }
}

impl GetFleetRoleCredentialsRequest {
    pub fn action_name() -> (r: &'static str)
        ensures
            r@ == "GetFleetRoleCredentials"@,
    {
        "GetFleetRoleCredentials"
    }

    /// The request's fields as envelope content.
    pub fn to_content(self) -> (r: Vec<(String, Json)>)
        ensures
            members_view(r@) == seq![
                ("RoleArn"@, JsonV::Str(self.role_arn@)),
                ("RoleSessionName"@, opt_str_json(self.role_session_name)),
            ],
    {
        let ghost ra = self.role_arn@;
        let ghost rs = self.role_session_name;
        let mut ms: Vec<(String, Json)> = Vec::new();
        proof {
            assert(members_view(ms@) =~= Seq::<(Seq<char>, JsonV)>::empty());
        }
        push_str_field(&mut ms, "RoleArn", self.role_arn);
        match self.role_session_name {
            Some(s) => push_str_field(&mut ms, "RoleSessionName", s),
            None => push_json_field(&mut ms, "RoleSessionName", Json::Null),
        }
        proof {
            assert(members_view(ms@) =~= seq![
                ("RoleArn"@, JsonV::Str(ra)),
                ("RoleSessionName"@, opt_str_json(rs)),
            ]);
        }
        ms
    }
}

pub struct HeartbeatServerProcessRequest {
    pub health_status: bool,
}

impl HeartbeatServerProcessRequest {
    pub fn action_name() -> (r: &'static str)
        ensures
            r@ == "HeartbeatServerProcess"@,
    {
        "HeartbeatServerProcess"
    }

    /// The request's fields as envelope content.
    pub fn to_content(self) -> (r: Vec<(String, Json)>)
        ensures
            members_view(r@) == seq![("HealthStatus"@, JsonV::Bool(self.health_status))],
    {
        let mut ms: Vec<(String, Json)> = Vec::new();
        proof {
            assert(members_view(ms@) =~= Seq::<(Seq<char>, JsonV)>::empty());
        }
        push_bool_field(&mut ms, "HealthStatus", self.health_status);
        proof {
            assert(members_view(ms@) =~= seq![("HealthStatus"@, JsonV::Bool(self.health_status))]);
        }
        ms
    }
}

pub struct RemovePlayerSessionRequest {
    pub game_session_id: String,
    pub player_session_id: String,
}

impl RemovePlayerSessionRequest {
    pub fn action_name() -> (r: &'static str)
        ensures
            r@ == "RemovePlayerSession"@,
    {
        "RemovePlayerSession"
    }

    /// The request's fields as envelope content.
    pub fn to_content(self) -> (r: Vec<(String, Json)>)
        ensures
            members_view(r@) == seq![
                ("GameSessionId"@, JsonV::Str(self.game_session_id@)),
                ("PlayerSessionId"@, JsonV::Str(self.player_session_id@)),
            ],
    {
        let ghost gs = self.game_session_id@;
        let ghost ps = self.player_session_id@;
        let mut ms: Vec<(String, Json)> = Vec::new();
        proof {
            assert(members_view(ms@) =~= Seq::<(Seq<char>, JsonV)>::empty());
        }
        push_str_field(&mut ms, "GameSessionId", self.game_session_id);
        push_str_field(&mut ms, "PlayerSessionId", self.player_session_id);
        proof {
            assert(members_view(ms@) =~= seq![
                ("GameSessionId"@, JsonV::Str(gs)),
                ("PlayerSessionId"@, JsonV::Str(ps)),
            ]);
        }
        ms
    }
}

/// Player descriptors ride through the backfill request as documents; their
/// attribute values (which may hold doubles) are built by the embedding
/// program.
pub struct StartMatchBackfillRequest {
    pub game_session_arn: String,
    pub matchmaking_configuration_arn: String,
    pub players: Vec<Json>,
    pub ticket_id: String,
}

impl StartMatchBackfillRequest {
    pub fn action_name() -> (r: &'static str)
        ensures
            r@ == "StartMatchBackfill"@,
    {
        "StartMatchBackfill"
    }

    /// The request's fields as envelope content.
    pub fn to_content(self) -> (r: Vec<(String, Json)>)
        ensures
            members_view(r@) == seq![
                ("GameSessionArn"@, JsonV::Str(self.game_session_arn@)),
                ("MatchmakingConfigurationArn"@, JsonV::Str(self.matchmaking_configuration_arn@)),
                ("Players"@, JsonV::Arr(crate::json::elems_view(self.players@))),
                ("TicketId"@, JsonV::Str(self.ticket_id@)),
            ],
    {
        let ghost ga = self.game_session_arn@;
        let ghost ma = self.matchmaking_configuration_arn@;
        let ghost pl = crate::json::elems_view(self.players@);
        let ghost ti = self.ticket_id@;
        let mut ms: Vec<(String, Json)> = Vec::new();
        proof {
            assert(members_view(ms@) =~= Seq::<(Seq<char>, JsonV)>::empty());
        }
        push_str_field(&mut ms, "GameSessionArn", self.game_session_arn);
        push_str_field(&mut ms, "MatchmakingConfigurationArn", self.matchmaking_configuration_arn);
        push_json_field(&mut ms, "Players", Json::Arr(self.players));
        push_str_field(&mut ms, "TicketId", self.ticket_id);
        proof {
            assert(members_view(ms@) =~= seq![
                ("GameSessionArn"@, JsonV::Str(ga)),
                ("MatchmakingConfigurationArn"@, JsonV::Str(ma)),
                ("Players"@, JsonV::Arr(pl)),
                ("TicketId"@, JsonV::Str(ti)),
            ]);
        }
        ms
    }
}

pub struct StopMatchBackfillRequest {
    pub game_session_arn: String,
    pub matchmaking_configuration_arn: String,
    pub ticket_id: String,
}

impl StopMatchBackfillRequest {
    pub fn action_name() -> (r: &'static str)
        ensures
            r@ == "StopMatchBackfill"@,
    {
        "StopMatchBackfill"
    }

    /// The request's fields as envelope content.
    pub fn to_content(self) -> (r: Vec<(String, Json)>)
        ensures
            members_view(r@) == seq![
                ("GameSessionArn"@, JsonV::Str(self.game_session_arn@)),
                ("MatchmakingConfigurationArn"@, JsonV::Str(self.matchmaking_configuration_arn@)),
                ("TicketId"@, JsonV::Str(self.ticket_id@)),
            ],
    {
        let ghost ga = self.game_session_arn@;
        let ghost ma = self.matchmaking_configuration_arn@;
        let ghost ti = self.ticket_id@;
        let mut ms: Vec<(String, Json)> = Vec::new();
        proof {
            assert(members_view(ms@) =~= Seq::<(Seq<char>, JsonV)>::empty());
        }
        push_str_field(&mut ms, "GameSessionArn", self.game_session_arn);
        push_str_field(&mut ms, "MatchmakingConfigurationArn", self.matchmaking_configuration_arn);
        push_str_field(&mut ms, "TicketId", self.ticket_id);
        proof {
            assert(members_view(ms@) =~= seq![
                ("GameSessionArn"@, JsonV::Str(ga)),
                ("MatchmakingConfigurationArn"@, JsonV::Str(ma)),
                ("TicketId"@, JsonV::Str(ti)),
            ]);
        }
        ms
    }
}

pub struct TerminateServerProcessRequest {}

impl TerminateServerProcessRequest {
    pub fn action_name() -> (r: &'static str)
        ensures
            r@ == "TerminateServerProcess"@,
    {
        "TerminateServerProcess"
    }

    /// The request has no fields.
    pub fn to_content(self) -> (r: Vec<(String, Json)>)
        ensures
            members_view(r@) == Seq::<(Seq<char>, JsonV)>::empty(),
    {
        let ms: Vec<(String, Json)> = Vec::new();
        proof {
            assert(members_view(ms@) =~= Seq::<(Seq<char>, JsonV)>::empty());
        }
        ms
    }
}

pub struct UpdatePlayerSessionCreationPolicyRequest {
    pub game_session_id: String,
    pub player_session_policy: PlayerSessionCreationPolicy,
}

impl UpdatePlayerSessionCreationPolicyRequest {
    pub fn action_name() -> (r: &'static str)
        ensures
            r@ == "UpdatePlayerSessionCreationPolicy"@,
    {
        "UpdatePlayerSessionCreationPolicy"
    }

    /// The request's fields as envelope content; the policy is written under
    /// its wire name.
    pub fn to_content(self) -> (r: Vec<(String, Json)>)
        ensures
            members_view(r@) == seq![
                ("GameSessionId"@, JsonV::Str(self.game_session_id@)),
                ("PlayerSessionPolicy"@, JsonV::Str(policy_name(self.player_session_policy))),
            ],
    {
        let ghost gs = self.game_session_id@;
        let mut ms: Vec<(String, Json)> = Vec::new();
        proof {
            assert(members_view(ms@) =~= Seq::<(Seq<char>, JsonV)>::empty());
        }
        push_str_field(&mut ms, "GameSessionId", self.game_session_id);
        let pname = String::from_str(self.player_session_policy.name());
        push_str_field(&mut ms, "PlayerSessionPolicy", pname);
        proof {
            assert(members_view(ms@) =~= seq![
                ("GameSessionId"@, JsonV::Str(gs)),
                ("PlayerSessionPolicy"@, JsonV::Str(policy_name(self.player_session_policy))),
            ]);
        }
        ms
    }
}

} // verus!
