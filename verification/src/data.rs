//! Plain data carried by the protocol: statuses, policies, update reasons and
//! player sessions, with their wire names and payload decoders.

use vstd::prelude::*;

use crate::json::{spec_get, Json, JsonV};
use crate::protocol::{
    i64_field, i64_field_ok, str_field, str_field_ok, take_i64_field, take_str_field,
    take_u16_field, u16_field, u16_field_ok,
};

verus! {

#[derive(Clone, Copy, Debug, PartialEq, Eq, Structural)]
pub enum GameSessionStatus {
    NotSet,
    Active,
    Activating,
    Terminated,
    Terminating,
}

impl Default for GameSessionStatus {
    fn default() -> (r: Self)
        ensures
            r == GameSessionStatus::NotSet,
    {
        GameSessionStatus::NotSet
    }
}

#[derive(Clone, Copy, Debug, PartialEq, Eq, Structural)]
pub enum PlayerSessionCreationPolicy {
    NotSet,
    AcceptAll,
    DenyAll,
}

/// The wire name of a policy.
pub open spec fn policy_name(p: PlayerSessionCreationPolicy) -> Seq<char> {
    match p {
        PlayerSessionCreationPolicy::NotSet => "NOT_SET"@,
        PlayerSessionCreationPolicy::AcceptAll => "ACCEPT_ALL"@,
        PlayerSessionCreationPolicy::DenyAll => "DENY_ALL"@,
    }
}

impl PlayerSessionCreationPolicy {
    pub fn name(&self) -> (r: &'static str)
        ensures
            r@ == policy_name(*self),
    {
        match self {
            PlayerSessionCreationPolicy::NotSet => "NOT_SET",
            PlayerSessionCreationPolicy::AcceptAll => "ACCEPT_ALL",
            PlayerSessionCreationPolicy::DenyAll => "DENY_ALL",
        }
    }
}

impl Default for PlayerSessionCreationPolicy {
    fn default() -> (r: Self)
        ensures
            r == PlayerSessionCreationPolicy::NotSet,
    {
        PlayerSessionCreationPolicy::NotSet
    }
}

#[derive(Clone, Copy, Debug, PartialEq, Eq, Structural)]
pub enum PlayerSessionStatus {
    NotSet,
    Reserved,
    Active,
    Completed,
    Timedout,
}

impl Default for PlayerSessionStatus {
    fn default() -> (r: Self)
        ensures
            r == PlayerSessionStatus::NotSet,
    {
        PlayerSessionStatus::NotSet
    }
}

/// Which player-session status a wire name denotes.
pub open spec fn spec_player_session_status(s: Seq<char>) -> Option<PlayerSessionStatus> {
    if s == "NOT_SET"@ {
        Some(PlayerSessionStatus::NotSet)
    } else if s == "RESERVED"@ {
        Some(PlayerSessionStatus::Reserved)
    } else if s == "ACTIVE"@ {
        Some(PlayerSessionStatus::Active)
    } else if s == "COMPLETED"@ {
        Some(PlayerSessionStatus::Completed)
    } else if s == "TIMEDOUT"@ {
        Some(PlayerSessionStatus::Timedout)
    } else {
        None
    }
}

/// Reads a player-session status from its wire name.
pub fn parse_player_session_status(s: &String) -> (r: Option<PlayerSessionStatus>)
    ensures
        r == spec_player_session_status(s@),
{
    if *s == String::from_str("NOT_SET") {
        Some(PlayerSessionStatus::NotSet)
    } else if *s == String::from_str("RESERVED") {
        Some(PlayerSessionStatus::Reserved)
    } else if *s == String::from_str("ACTIVE") {
        Some(PlayerSessionStatus::Active)
    } else if *s == String::from_str("COMPLETED") {
        Some(PlayerSessionStatus::Completed)
    } else if *s == String::from_str("TIMEDOUT") {
        Some(PlayerSessionStatus::Timedout)
    } else {
        None
    }
}

#[derive(Clone, Copy, Debug, PartialEq, Eq, Structural)]
pub enum UpdateReason {
    MatchmakingDataUpdated,
    BackfillFailed,
    BackfillTimedOut,
    BackfillCancelled,
    Unknown,
}

impl Default for UpdateReason {
    fn default() -> (r: Self)
        ensures
            r == UpdateReason::Unknown,
    {
        UpdateReason::Unknown
    }
}

/// Which update reason a wire name denotes.
pub open spec fn spec_update_reason(s: Seq<char>) -> Option<UpdateReason> {
    if s == "MATCHMAKING_DATA_UPDATED"@ {
        Some(UpdateReason::MatchmakingDataUpdated)
    } else if s == "BACKFILL_FAILED"@ {
        Some(UpdateReason::BackfillFailed)
    } else if s == "BACKFILL_TIMED_OUT"@ {
        Some(UpdateReason::BackfillTimedOut)
    } else if s == "BACKFILL_CANCELLED"@ {
        Some(UpdateReason::BackfillCancelled)
    } else if s == "UNKNOWN"@ {
        Some(UpdateReason::Unknown)
    } else {
        None
    }
}

/// Reads an update reason from its wire name.
pub fn parse_update_reason(s: &String) -> (r: Option<UpdateReason>)
    ensures
        r == spec_update_reason(s@),
{
    if *s == String::from_str("MATCHMAKING_DATA_UPDATED") {
        Some(UpdateReason::MatchmakingDataUpdated)
    } else if *s == String::from_str("BACKFILL_FAILED") {
        Some(UpdateReason::BackfillFailed)
    } else if *s == String::from_str("BACKFILL_TIMED_OUT") {
        Some(UpdateReason::BackfillTimedOut)
    } else if *s == String::from_str("BACKFILL_CANCELLED") {
        Some(UpdateReason::BackfillCancelled)
    } else if *s == String::from_str("UNKNOWN") {
        Some(UpdateReason::Unknown)
    } else {
        None
    }
}

/// One player's reservation in a game session, as the gateway describes it.
/// Timestamps are milliseconds since the epoch.
pub struct PlayerSession {
    pub player_id: String,
    pub player_session_id: String,
    pub game_session_id: String,
    pub fleet_id: String,
    pub ip_address: String,
    pub player_data: String,
    pub port: u16,
    pub creation_time: i64,
    pub termination_time: i64,
    pub status: PlayerSessionStatus,
    pub dns_name: String,
}

pub struct PlayerSessionV {
    pub player_id: Seq<char>,
    pub player_session_id: Seq<char>,
    pub game_session_id: Seq<char>,
    pub fleet_id: Seq<char>,
    pub ip_address: Seq<char>,
    pub player_data: Seq<char>,
    pub port: u16,
    pub creation_time: int,
    pub termination_time: int,
    pub status: PlayerSessionStatus,
    pub dns_name: Seq<char>,
}

impl View for PlayerSession {
    type V = PlayerSessionV;

    open spec fn view(&self) -> PlayerSessionV {
        PlayerSessionV {
            player_id: self.player_id@,
            player_session_id: self.player_session_id@,
            game_session_id: self.game_session_id@,
            fleet_id: self.fleet_id@,
            ip_address: self.ip_address@,
            player_data: self.player_data@,
            port: self.port,
            creation_time: self.creation_time as int,
            termination_time: self.termination_time as int,
            status: self.status,
            dns_name: self.dns_name@,
        }
    }
}

impl Default for PlayerSession {
    /// The empty session: blank identifiers, zero times, status not set.
    fn default() -> (r: Self)
        ensures
            r@.player_id == Seq::<char>::empty(),
            r@.player_session_id == Seq::<char>::empty(),
            r@.game_session_id == Seq::<char>::empty(),
            r@.fleet_id == Seq::<char>::empty(),
            r@.ip_address == Seq::<char>::empty(),
            r@.player_data == Seq::<char>::empty(),
            r@.port == 0,
            r@.creation_time == 0,
            r@.termination_time == 0,
            r@.status == PlayerSessionStatus::NotSet,
            r@.dns_name == Seq::<char>::empty(),
    {
        PlayerSession {
            player_id: String::new(),
            player_session_id: String::new(),
            game_session_id: String::new(),
            fleet_id: String::new(),
            ip_address: String::new(),
            player_data: String::new(),
            port: 0,
            creation_time: 0,
            termination_time: 0,
            status: PlayerSessionStatus::NotSet,
            dns_name: String::new(),
        }
    }
}

/// How a player session decodes from a payload object: absent fields take
/// their defaults, present fields must have the right shape.
pub open spec fn spec_player_session(v: JsonV) -> Option<PlayerSessionV> {
    if v is Obj && str_field_ok(spec_get(v, "PlayerId"@)) && str_field_ok(
        spec_get(v, "PlayerSessionId"@),
    ) && str_field_ok(spec_get(v, "GameSessionId"@)) && str_field_ok(spec_get(v, "FleetId"@))
        && str_field_ok(spec_get(v, "IpAddress"@)) && str_field_ok(spec_get(v, "PlayerData"@))
        && u16_field_ok(spec_get(v, "Port"@)) && i64_field_ok(spec_get(v, "CreationTime"@))
        && i64_field_ok(spec_get(v, "TerminationTime"@)) && str_field_ok(spec_get(v, "DnsName"@))
        && status_field_ok(spec_get(v, "Status"@)) {
        Some(
            PlayerSessionV {
                player_id: str_field(spec_get(v, "PlayerId"@)),
                player_session_id: str_field(spec_get(v, "PlayerSessionId"@)),
                game_session_id: str_field(spec_get(v, "GameSessionId"@)),
                fleet_id: str_field(spec_get(v, "FleetId"@)),
                ip_address: str_field(spec_get(v, "IpAddress"@)),
                player_data: str_field(spec_get(v, "PlayerData"@)),
                port: u16_field(spec_get(v, "Port"@)),
                creation_time: i64_field(spec_get(v, "CreationTime"@)),
                termination_time: i64_field(spec_get(v, "TerminationTime"@)),
                status: status_field(spec_get(v, "Status"@)),
                dns_name: str_field(spec_get(v, "DnsName"@)),
            },
        )
    } else {
        None
    }
}

pub open spec fn status_field_ok(o: Option<JsonV>) -> bool {
    match o {
        None => true,
        Some(JsonV::Str(s)) => spec_player_session_status(s) is Some,
        Some(_) => false,
    }
}

pub open spec fn status_field(o: Option<JsonV>) -> PlayerSessionStatus {
    match o {
        Some(JsonV::Str(s)) => match spec_player_session_status(s) {
            Some(st) => st,
            None => PlayerSessionStatus::NotSet,
        },
        _ => PlayerSessionStatus::NotSet,
    }
}

impl PlayerSession {
    /// Decodes a player session from a payload object.
    pub fn from_json(v: &Json) -> (r: Option<PlayerSession>)
        ensures
            match r {
                Some(p) => spec_player_session(v@) == Some(p@),
                None => spec_player_session(v@) is None,
            },
    {
        match v {
            Json::Obj(_) => {},
            _ => {
                return None;
            },
        }
        let player_id = match take_str_field(v, "PlayerId") {
            Some(s) => s,
            None => {
                return None;
            },
        };
        let player_session_id = match take_str_field(v, "PlayerSessionId") {
            Some(s) => s,
            None => {
                return None;
            },
        };
        let game_session_id = match take_str_field(v, "GameSessionId") {
            Some(s) => s,
            None => {
                return None;
            },
        };
        let fleet_id = match take_str_field(v, "FleetId") {
            Some(s) => s,
            None => {
                return None;
            },
        };
        let ip_address = match take_str_field(v, "IpAddress") {
            Some(s) => s,
            None => {
                return None;
            },
        };
        let player_data = match take_str_field(v, "PlayerData") {
            Some(s) => s,
            None => {
                return None;
            },
        };
        let port = match take_u16_field(v, "Port") {
            Some(n) => n,
            None => {
                return None;
            },
        };
        let creation_time = match take_i64_field(v, "CreationTime") {
            Some(n) => n,
            None => {
                return None;
            },
        };
        let termination_time = match take_i64_field(v, "TerminationTime") {
            Some(n) => n,
            None => {
                return None;
            },
        };
        let dns_name = match take_str_field(v, "DnsName") {
            Some(s) => s,
            None => {
                return None;
            },
        };
        let status_key = String::from_str("Status");
        let status = match v.get(&status_key) {
            None => PlayerSessionStatus::NotSet,
            Some(f) => match f {
                Json::Str(s) => match parse_player_session_status(s) {
                    Some(st) => st,
                    None => {
                        return None;
                    },
                },
                _ => {
                    return None;
                },
            },
        };
        Some(
            PlayerSession {
                player_id,
                player_session_id,
                game_session_id,
                fleet_id,
                ip_address,
                player_data,
                port,
                creation_time,
                termination_time,
                status,
                dns_name,
            },
        )
    }
}

} // verus!
