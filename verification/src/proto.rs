//! Plain stand-ins for the generated wire stubs the legacy message transport
//! exchanged; the mappers convert between these and the entity types.

#![allow(non_snake_case)]

use vstd::prelude::*;

verus! {

pub struct GameProperty {
    pub key: String,
    pub value: String,
}

pub struct GameSession {
    pub gameSessionId: String,
    pub name: String,
    pub fleetId: String,
    pub maxPlayers: i32,
    pub port: i32,
    pub ipAddress: String,
    pub gameSessionData: String,
    pub matchmakerData: String,
    pub gameProperties: Vec<GameProperty>,
    pub dnsName: String,
}

pub struct UpdateGameSession {
    pub gameSession: Option<GameSession>,
    pub updateReason: String,
    pub backfillTicketId: String,
}

pub struct PlayerSession {
    pub playerId: String,
    pub playerSessionId: String,
    pub gameSessionId: String,
    pub fleetId: String,
    pub ipAddress: String,
    pub playerData: String,
    pub port: i32,
    pub creationTime: i64,
    pub terminationTime: i64,
    pub status: String,
    pub dnsName: String,
}

pub struct DescribePlayerSessionsResponse {
    pub nextToken: String,
    pub playerSessions: Vec<PlayerSession>,
}

pub struct DescribePlayerSessionsRequest {
    pub gameSessionId: String,
    pub playerId: String,
    pub playerSessionId: String,
    pub playerSessionStatusFilter: String,
    pub nextToken: String,
    pub limit: i32,
}

pub struct BackfillMatchmakingResponse {
    pub ticketId: String,
}

pub struct GetInstanceCertificateResponse {
    pub certificatePath: String,
    pub privateKeyPath: String,
    pub certificateChainPath: String,
    pub hostName: String,
    pub rootCertificatePath: String,
}

pub struct StopMatchmakingRequest {
    pub ticketId: String,
    pub gameSessionArn: String,
    pub matchmakingConfigurationArn: String,
}

pub struct ProcessReady {
    pub port: i32,
    pub logPathsToUpload: Vec<String>,
}

} // verus!
