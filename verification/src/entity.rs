//! Entity types of the legacy message transport, with the wire names their
//! enumerations parse from and print to.

use vstd::prelude::*;

verus! {

pub struct GameProperty {
    pub key: Option<String>,
    pub value: Option<String>,
}

pub struct GameSession {
    pub game_session_id: Option<String>,
    pub name: Option<String>,
    pub fleet_id: Option<String>,
    pub max_players: i32,
    pub port: i32,
    pub ip_address: Option<String>,
    pub game_session_data: Option<String>,
    pub matchmaker_data: Option<String>,
    pub game_properties: Option<Vec<GameProperty>>,
    pub dns_name: Option<String>,
}

pub struct UpdateGameSession {
    pub game_session: Option<GameSession>,
    pub update_reason: UpdateReason,
    pub backfill_ticket_id: String,
}

impl Default for GameSession {
    /// The empty descriptor.
    fn default() -> (r: Self)
        ensures
            r.game_session_id is None,
            r.name is None,
            r.fleet_id is None,
            r.max_players == 0,
            r.port == 0,
            r.ip_address is None,
            r.game_session_data is None,
            r.matchmaker_data is None,
            r.game_properties is None,
            r.dns_name is None,
    {
        GameSession {
            game_session_id: None,
            name: None,
            fleet_id: None,
            max_players: 0,
            port: 0,
            ip_address: None,
            game_session_data: None,
            matchmaker_data: None,
            game_properties: None,
            dns_name: None,
        }
    }
}

impl Default for UpdateGameSession {
    /// No session, no ticket, an unknown reason.
    fn default() -> (r: Self)
        ensures
            r.game_session is None,
            r.update_reason == UpdateReason::Unknown,
            r.backfill_ticket_id@ == Seq::<char>::empty(),
    {
        UpdateGameSession {
            game_session: None,
            update_reason: UpdateReason::Unknown,
            backfill_ticket_id: String::new(),
        }
    }
}

#[derive(Clone, Copy, Debug, PartialEq, Eq, Structural)]
pub enum UpdateReason {
    MatchmakingDataUpdated,
    BackfillFailed,
    BackfillTimedOut,
    BackfillCancelled,
    Unknown,
}

/// Which update reason a stub's variant name denotes.
pub open spec fn spec_entity_update_reason(s: Seq<char>) -> Option<UpdateReason> {
    if s == "MatchmakingDataUpdated"@ {
        Some(UpdateReason::MatchmakingDataUpdated)
    } else if s == "BackfillFailed"@ {
        Some(UpdateReason::BackfillFailed)
    } else if s == "BackfillTimedOut"@ {
        Some(UpdateReason::BackfillTimedOut)
    } else if s == "BackfillCancelled"@ {
        Some(UpdateReason::BackfillCancelled)
    } else if s == "Unknown"@ {
        Some(UpdateReason::Unknown)
    } else {
        None
    }
}

/// Reads an update reason from its variant name.
pub fn parse_entity_update_reason(s: &String) -> (r: Option<UpdateReason>)
    ensures
        r == spec_entity_update_reason(s@),
{
    if *s == String::from_str("MatchmakingDataUpdated") {
        Some(UpdateReason::MatchmakingDataUpdated)
    } else if *s == String::from_str("BackfillFailed") {
        Some(UpdateReason::BackfillFailed)
    } else if *s == String::from_str("BackfillTimedOut") {
        Some(UpdateReason::BackfillTimedOut)
    } else if *s == String::from_str("BackfillCancelled") {
        Some(UpdateReason::BackfillCancelled)
    } else if *s == String::from_str("Unknown") {
        Some(UpdateReason::Unknown)
    } else {
        None
    }
}

#[derive(Clone, Copy, Debug, PartialEq, Eq, Structural)]
pub enum PlayerSessionCreationPolicy {
    NotSet,
    AcceptAll,
    DenyAll,
}

impl PlayerSessionCreationPolicy {
    /// The variant name the legacy transport sends.
    pub fn name(&self) -> (r: &'static str)
        ensures
            *self is NotSet ==> r@ == "NotSet"@,
            *self is AcceptAll ==> r@ == "AcceptAll"@,
            *self is DenyAll ==> r@ == "DenyAll"@,
    {
        match self {
            PlayerSessionCreationPolicy::NotSet => "NotSet",
            PlayerSessionCreationPolicy::AcceptAll => "AcceptAll",
            PlayerSessionCreationPolicy::DenyAll => "DenyAll",
        }
    }
}

pub struct DescribePlayerSessionsRequest {
    pub game_session_id: Option<String>,
    pub player_id: Option<String>,
    pub player_session_id: Option<String>,
    pub player_session_status_filter: Option<String>,
    pub next_token: Option<String>,
    pub limit: i32,
}

pub struct DescribePlayerSessionsResult {
    pub player_sessions: Vec<PlayerSession>,
    pub next_token: String,
}

pub struct PlayerSession {
    pub player_id: Option<String>,
    pub player_session_id: Option<String>,
    pub game_session_id: Option<String>,
    pub fleet_id: Option<String>,
    pub ip_address: Option<String>,
    pub player_data: Option<String>,
    pub port: i32,
    pub creation_time: i64,
    pub termination_time: i64,
    pub status: PlayerSessionStatus,
    pub dns_name: Option<String>,
}

#[derive(Clone, Copy, Debug, PartialEq, Eq, Structural)]
pub enum PlayerSessionStatus {
    NotSet,
    Reserved,
    Active,
    Completed,
    Timedout,
}

/// Which player-session status a stub's variant name denotes.
pub open spec fn spec_entity_player_session_status(s: Seq<char>) -> Option<PlayerSessionStatus> {
    if s == "NotSet"@ {
        Some(PlayerSessionStatus::NotSet)
    } else if s == "Reserved"@ {
        Some(PlayerSessionStatus::Reserved)
    } else if s == "Active"@ {
        Some(PlayerSessionStatus::Active)
    } else if s == "Completed"@ {
        Some(PlayerSessionStatus::Completed)
    } else if s == "Timedout"@ {
        Some(PlayerSessionStatus::Timedout)
    } else {
        None
    }
}

/// Reads a player-session status from its variant name.
pub fn parse_entity_player_session_status(s: &String) -> (r: Option<PlayerSessionStatus>)
    ensures
        r == spec_entity_player_session_status(s@),
{
    if *s == String::from_str("NotSet") {
        Some(PlayerSessionStatus::NotSet)
    } else if *s == String::from_str("Reserved") {
        Some(PlayerSessionStatus::Reserved)
    } else if *s == String::from_str("Active") {
        Some(PlayerSessionStatus::Active)
    } else if *s == String::from_str("Completed") {
        Some(PlayerSessionStatus::Completed)
    } else if *s == String::from_str("Timedout") {
        Some(PlayerSessionStatus::Timedout)
    } else {
        None
    }
}

pub struct StartMatchBackfillResult {
    pub ticket_id: String,
}

pub struct StopMatchBackfillRequest {
    pub ticket_id: Option<String>,
    pub game_session_arn: Option<String>,
    pub matchmaking_configuration_arn: Option<String>,
}

pub struct GetInstanceCertificateResult {
    pub certificate_path: String,
    pub private_key_path: String,
    pub certificate_chain_path: String,
    pub hostname: String,
    pub root_certificate_path: String,
}

} // verus!
