//! Server-initiated events and their payload decoders.

use vstd::prelude::*;

use crate::data::{spec_update_reason, parse_update_reason, UpdateReason};
use crate::json::{spec_get, Json, JsonV};
use crate::protocol::{
    i64_field, i64_field_ok, str_field, str_field_ok, take_i64_field, take_str_field,
    take_u16_field, u16_field, u16_field_ok,
};

verus! {

/// The descriptor of a newly assigned game session. Properties keep their
/// order of arrival; the fleet id is filled in by the dispatcher.
pub struct CreateGameSessionMessage {
    pub game_session_id: String,
    pub name: String,
    pub fleet_id: String,
    pub maximum_player_session_count: i32,
    pub port: u16,
    pub ip_address: String,
    pub game_session_data: String,
    pub matchmaker_data: String,
    pub game_properties: Vec<(String, String)>,
    pub dns_name: String,
}

pub struct CreateGameSessionMessageV {
    pub game_session_id: Seq<char>,
    pub name: Seq<char>,
    pub fleet_id: Seq<char>,
    pub maximum_player_session_count: int,
    pub port: u16,
    pub ip_address: Seq<char>,
    pub game_session_data: Seq<char>,
    pub matchmaker_data: Seq<char>,
    pub game_properties: Seq<(Seq<char>, Seq<char>)>,
    pub dns_name: Seq<char>,
}

impl View for CreateGameSessionMessage {
    type V = CreateGameSessionMessageV;

    open spec fn view(&self) -> CreateGameSessionMessageV {
        CreateGameSessionMessageV {
            game_session_id: self.game_session_id@,
            name: self.name@,
            fleet_id: self.fleet_id@,
            maximum_player_session_count: self.maximum_player_session_count as int,
            port: self.port,
            ip_address: self.ip_address@,
            game_session_data: self.game_session_data@,
            matchmaker_data: self.matchmaker_data@,
            game_properties: Seq::new(
                self.game_properties@.len(),
                |i: int| (self.game_properties@[i].0@, self.game_properties@[i].1@),
            ),
            dns_name: self.dns_name@,
        }
    }
}

pub open spec fn i32_field_ok(o: Option<JsonV>) -> bool {
    match o {
        None => true,
        Some(JsonV::Num(t)) => match crate::json::int_text_val(t) {
            Some(n) => i32::MIN <= n <= i32::MAX,
            None => false,
        },
        Some(_) => false,
    }
}

/// A property map: an object whose values are all strings, kept in order.
pub open spec fn props_field_ok(o: Option<JsonV>) -> bool {
    match o {
        None => true,
        Some(JsonV::Obj(ms)) => forall|i: int| 0 <= i < ms.len() ==> (#[trigger] ms[i]).1 is Str,
        Some(_) => false,
    }
}

pub open spec fn props_field(o: Option<JsonV>) -> Seq<(Seq<char>, Seq<char>)> {
    match o {
        Some(JsonV::Obj(ms)) => Seq::new(
            ms.len(),
            |i: int| (ms[i].0, str_of(ms[i].1)),
        ),
        _ => Seq::empty(),
    }
}

pub open spec fn str_of(v: JsonV) -> Seq<char> {
    match v {
        JsonV::Str(s) => s,
        _ => Seq::empty(),
    }
}

/// How a game-session descriptor decodes from a payload object.
pub open spec fn spec_create_game_session(v: JsonV) -> Option<CreateGameSessionMessageV> {
    if v is Obj && str_field_ok(spec_get(v, "GameSessionId"@)) && str_field_ok(
        spec_get(v, "GameSessionName"@),
    ) && str_field_ok(spec_get(v, "FleetId"@)) && i32_field_ok(
        spec_get(v, "MaximumPlayerSessionCount"@),
    ) && u16_field_ok(spec_get(v, "Port"@)) && str_field_ok(spec_get(v, "IpAddress"@))
        && str_field_ok(spec_get(v, "GameSessionData"@)) && str_field_ok(
        spec_get(v, "MatchmakerData"@),
    ) && props_field_ok(spec_get(v, "GameProperties"@)) && str_field_ok(spec_get(v, "DnsName"@)) {
        Some(
            CreateGameSessionMessageV {
                game_session_id: str_field(spec_get(v, "GameSessionId"@)),
                name: str_field(spec_get(v, "GameSessionName"@)),
                fleet_id: str_field(spec_get(v, "FleetId"@)),
                maximum_player_session_count: i64_field(spec_get(v, "MaximumPlayerSessionCount"@)),
                port: u16_field(spec_get(v, "Port"@)),
                ip_address: str_field(spec_get(v, "IpAddress"@)),
                game_session_data: str_field(spec_get(v, "GameSessionData"@)),
                matchmaker_data: str_field(spec_get(v, "MatchmakerData"@)),
                game_properties: props_field(spec_get(v, "GameProperties"@)),
                dns_name: str_field(spec_get(v, "DnsName"@)),
            },
        )
    } else {
        None
    }
}

impl CreateGameSessionMessage {
    pub fn action_name() -> (r: &'static str)
        ensures
            r@ == "CreateGameSession"@,
    {
        "CreateGameSession"
    }

    /// Decodes the event payload.
    pub fn from_json(v: &Json) -> (r: Option<CreateGameSessionMessage>)
        ensures
            match r {
                Some(m) => spec_create_game_session(v@) == Some(m@),
                None => spec_create_game_session(v@) is None,
            },
    {
        match v {
            Json::Obj(_) => {},
            _ => {
                return None;
            },
        }
        let game_session_id = match take_str_field(v, "GameSessionId") {
            Some(s) => s,
            None => {
                return None;
            },
        };
        let name = match take_str_field(v, "GameSessionName") {
            Some(s) => s,
            None => {
                return None;
            },
        };
        let fleet_id = match take_str_field(v, "FleetId") {
            Some(s) => s,
            None => {
                return None;
            },
        };
        let maximum_player_session_count = match take_i64_field(v, "MaximumPlayerSessionCount") {
            Some(n) => {
                if -2147483648i64 <= n && n <= 2147483647i64 {
                    n as i32
                } else {
                    return None;
                }
            },
            None => {
                return None;
            },
        };
        let port = match take_u16_field(v, "Port") {
            Some(n) => n,
            None => {
                return None;
            },
        };
        let ip_address = match take_str_field(v, "IpAddress") {
            Some(s) => s,
            None => {
                return None;
            },
        };
        let game_session_data = match take_str_field(v, "GameSessionData") {
            Some(s) => s,
            None => {
                return None;
            },
        };
        let matchmaker_data = match take_str_field(v, "MatchmakerData") {
            Some(s) => s,
            None => {
                return None;
            },
        };
        let dns_name = match take_str_field(v, "DnsName") {
            Some(s) => s,
            None => {
                return None;
            },
        };
        let props_key = String::from_str("GameProperties");
        let game_properties: Vec<(String, String)> = match v.get(&props_key) {
            None => Vec::new(),
            Some(f) => match f {
                Json::Obj(ms) => {
                    proof {
                        crate::json::lemma_members_view(ms@);
                    }
                    let mut out: Vec<(String, String)> = Vec::new();
                    let mut i: usize = 0;
                    while i < ms.len()
                        invariant
                            0 <= i <= ms@.len(),
                            spec_get(v@, "GameProperties"@) == Some(
                                JsonV::Obj(crate::json::members_view(ms@)),
                            ),
                            crate::json::members_view(ms@).len() == ms@.len(),
                            forall|k: int|
                                0 <= k < ms@.len() ==> crate::json::members_view(ms@)[k] == ((
                                #[trigger] ms@[k]).0@, crate::json::json_view(ms@[k].1)),
                            forall|k: int|
                                0 <= k < i ==> (#[trigger] crate::json::members_view(ms@)[k]).1
                                    is Str,
                            out@.len() == i,
                            forall|k: int|
                                0 <= k < i ==> ((#[trigger] out@[k]).0@, out@[k].1@) == (
                                crate::json::members_view(ms@)[k].0, str_of(
                                    crate::json::members_view(ms@)[k].1,
                                )),
                        decreases ms@.len() - i,
                    {
                        let pair = &ms[i];
                        match &pair.1 {
                            Json::Str(sv) => {
                                out.push((pair.0.clone(), sv.clone()));
                            },
                            _ => {
                                proof {
                                    assert(!(crate::json::members_view(ms@)[i as int].1 is Str));
                                    assert(!props_field_ok(spec_get(v@, "GameProperties"@)));
                                }
                                return None;
                            },
                        }
                        i = i + 1;
                    }
                    out
                },
                _ => {
                    return None;
                },
            },
        };
        let m = CreateGameSessionMessage {
            game_session_id,
            name,
            fleet_id,
            maximum_player_session_count,
            port,
            ip_address,
            game_session_data,
            matchmaker_data,
            game_properties,
            dns_name,
        };
        proof {
            assert(m@.game_properties =~= props_field(spec_get(v@, "GameProperties"@)));
        }
        Some(m)
    }
}

/// A matchmaker update for the running game session.
pub struct UpdateGameSessionMessage {
    pub game_session: CreateGameSessionMessage,
    pub update_reason: UpdateReason,
    pub backfill_ticket_id: String,
}

pub struct UpdateGameSessionMessageV {
    pub game_session: CreateGameSessionMessageV,
    pub update_reason: UpdateReason,
    pub backfill_ticket_id: Seq<char>,
}

impl View for UpdateGameSessionMessage {
    type V = UpdateGameSessionMessageV;

    open spec fn view(&self) -> UpdateGameSessionMessageV {
        UpdateGameSessionMessageV {
            game_session: self.game_session@,
            update_reason: self.update_reason,
            backfill_ticket_id: self.backfill_ticket_id@,
        }
    }
}

pub open spec fn reason_field_ok(o: Option<JsonV>) -> bool {
    match o {
        None => true,
        Some(JsonV::Str(s)) => spec_update_reason(s) is Some,
        Some(_) => false,
    }
}

pub open spec fn reason_field(o: Option<JsonV>) -> UpdateReason {
    match o {
        Some(JsonV::Str(s)) => match spec_update_reason(s) {
            Some(u) => u,
            None => UpdateReason::Unknown,
        },
        _ => UpdateReason::Unknown,
    }
}

/// How an update event decodes: the nested descriptor is required.
pub open spec fn spec_update_game_session(v: JsonV) -> Option<UpdateGameSessionMessageV> {
    if v is Obj && reason_field_ok(spec_get(v, "UpdateReason"@)) && str_field_ok(
        spec_get(v, "BackfillTicketId"@),
    ) {
        match spec_get(v, "GameSession"@) {
            Some(gv) => match spec_create_game_session(gv) {
                Some(g) => Some(
                    UpdateGameSessionMessageV {
                        game_session: g,
                        update_reason: reason_field(spec_get(v, "UpdateReason"@)),
                        backfill_ticket_id: str_field(spec_get(v, "BackfillTicketId"@)),
                    },
                ),
                None => None,
            },
            None => None,
        }
    } else {
        None
    }
}

impl UpdateGameSessionMessage {
    pub fn action_name() -> (r: &'static str)
        ensures
            r@ == "UpdateGameSession"@,
    {
        "UpdateGameSession"
    }

    /// Decodes the event payload.
    pub fn from_json(v: &Json) -> (r: Option<UpdateGameSessionMessage>)
        ensures
            match r {
                Some(m) => spec_update_game_session(v@) == Some(m@),
                None => spec_update_game_session(v@) is None,
            },
    {
        match v {
            Json::Obj(_) => {},
            _ => {
                return None;
            },
        }
        let backfill_ticket_id = match take_str_field(v, "BackfillTicketId") {
            Some(s) => s,
            None => {
                return None;
            },
        };
        let reason_key = String::from_str("UpdateReason");
        let update_reason = match v.get(&reason_key) {
            None => UpdateReason::Unknown,
            Some(f) => match f {
                Json::Str(s) => match parse_update_reason(s) {
                    Some(u) => u,
                    None => {
                        return None;
                    },
                },
                _ => {
                    return None;
                },
            },
        };
        let gs_key = String::from_str("GameSession");
        let game_session = match v.get(&gs_key) {
            Some(gv) => match CreateGameSessionMessage::from_json(gv) {
                Some(g) => g,
                None => {
                    return None;
                },
            },
            None => {
                return None;
            },
        };
        Some(UpdateGameSessionMessage { game_session, update_reason, backfill_ticket_id })
    }
}

/// Notice that the process will be shut down; the time is milliseconds since
/// the epoch, negative when before it.
pub struct TerminateProcessMessage {
    pub termination_time: i64,
}

pub struct TerminateProcessMessageV {
    pub termination_time: int,
}

impl View for TerminateProcessMessage {
    type V = TerminateProcessMessageV;

    open spec fn view(&self) -> TerminateProcessMessageV {
        TerminateProcessMessageV { termination_time: self.termination_time as int }
    }
}

pub open spec fn spec_terminate_process(v: JsonV) -> Option<TerminateProcessMessageV> {
    if v is Obj && i64_field_ok(spec_get(v, "TerminationTime"@)) {
        Some(TerminateProcessMessageV { termination_time: i64_field(spec_get(v, "TerminationTime"@)) })
    } else {
        None
    }
}

impl TerminateProcessMessage {
    pub fn action_name() -> (r: &'static str)
        ensures
            r@ == "TerminateProcess"@,
    {
        "TerminateProcess"
    }

    /// Decodes the event payload.
    pub fn from_json(v: &Json) -> (r: Option<TerminateProcessMessage>)
        ensures
            match r {
                Some(m) => spec_terminate_process(v@) == Some(m@),
                None => spec_terminate_process(v@) is None,
            },
    {
        match v {
            Json::Obj(_) => {},
            _ => {
                return None;
            },
        }
        match take_i64_field(v, "TerminationTime") {
            Some(n) => Some(TerminateProcessMessage { termination_time: n }),
            None => None,
        }
    }
}

/// Instruction to reconnect to a new endpoint with a new token.
pub struct RefreshConnectionMessage {
    pub refresh_connection_endpoint: String,
    pub auth_token: String,
}

pub struct RefreshConnectionMessageV {
    pub refresh_connection_endpoint: Seq<char>,
    pub auth_token: Seq<char>,
}

impl View for RefreshConnectionMessage {
    type V = RefreshConnectionMessageV;

    open spec fn view(&self) -> RefreshConnectionMessageV {
        RefreshConnectionMessageV {
            refresh_connection_endpoint: self.refresh_connection_endpoint@,
            auth_token: self.auth_token@,
        }
    }
}

pub open spec fn spec_refresh_connection(v: JsonV) -> Option<RefreshConnectionMessageV> {
    if v is Obj && str_field_ok(spec_get(v, "RefreshConnectionEndpoint"@)) && str_field_ok(
        spec_get(v, "AuthToken"@),
    ) {
        Some(
            RefreshConnectionMessageV {
                refresh_connection_endpoint: str_field(spec_get(v, "RefreshConnectionEndpoint"@)),
                auth_token: str_field(spec_get(v, "AuthToken"@)),
            },
        )
    } else {
        None
    }
}

impl RefreshConnectionMessage {
    pub fn action_name() -> (r: &'static str)
        ensures
            r@ == "RefreshConnection"@,
    {
        "RefreshConnection"
    }

    /// Decodes the event payload.
    pub fn from_json(v: &Json) -> (r: Option<RefreshConnectionMessage>)
        ensures
            match r {
                Some(m) => spec_refresh_connection(v@) == Some(m@),
                None => spec_refresh_connection(v@) is None,
            },
    {
        match v {
            Json::Obj(_) => {},
            _ => {
                return None;
            },
        }
        let refresh_connection_endpoint = match take_str_field(v, "RefreshConnectionEndpoint") {
            Some(s) => s,
            None => {
                return None;
            },
        };
        let auth_token = match take_str_field(v, "AuthToken") {
            Some(s) => s,
            None => {
                return None;
            },
        };
        Some(RefreshConnectionMessage { refresh_connection_endpoint, auth_token })
    }
}

} // verus!
