//! Conversions between the legacy transport's wire stubs and the entity
//! types, field by field.

use vstd::prelude::*;

use crate::entity;
use crate::proto;

verus! {

/// A wire game session as an entity: every text field wrapped, the
/// properties converted in order.
pub fn game_session_mapper(source_game_session: proto::GameSession) -> (r: entity::GameSession)
    ensures
        r.game_session_id matches Some(s) && s@ == source_game_session.gameSessionId@,
        r.name matches Some(s) && s@ == source_game_session.name@,
        r.fleet_id matches Some(s) && s@ == source_game_session.fleetId@,
        r.max_players == source_game_session.maxPlayers,
        r.port == source_game_session.port,
        r.ip_address matches Some(s) && s@ == source_game_session.ipAddress@,
        r.game_session_data matches Some(s) && s@ == source_game_session.gameSessionData@,
        r.matchmaker_data matches Some(s) && s@ == source_game_session.matchmakerData@,
        r.dns_name matches Some(s) && s@ == source_game_session.dnsName@,
        r.game_properties matches Some(ps) && ps@.len()
            == source_game_session.gameProperties@.len() && (forall|i: int|
            0 <= i < ps@.len() ==> ((#[trigger] ps@[i]).key matches Some(k) && k@
                == source_game_session.gameProperties@[i].key@) && (ps@[i].value matches Some(v)
                && v@ == source_game_session.gameProperties@[i].value@)),
{
    let ghost src_props = source_game_session.gameProperties@;
    let mut game_properties: Vec<entity::GameProperty> = Vec::new();
    let mut props = source_game_session.gameProperties;
    let mut i: usize = 0;
    let total = props.len();
    while props.len() > 0
        invariant
            0 <= i <= total,
            total == src_props.len(),
            props@ == src_props.skip(i as int),
            game_properties@.len() == i,
            forall|k: int|
                0 <= k < i ==> ((#[trigger] game_properties@[k]).key matches Some(s) && s@
                    == src_props[k].key@) && (game_properties@[k].value matches Some(v) && v@
                    == src_props[k].value@),
        decreases props@.len(),
    {
        let gp = props.remove(0);
        proof {
            assert(src_props.skip(i as int)[0] == src_props[i as int]);
            assert(props@ =~= src_props.skip(i + 1 as int));
            assert(src_props.skip(i as int).len() == src_props.len() - i);
        }
        game_properties.push(entity::GameProperty { key: Some(gp.key), value: Some(gp.value) });
        i = i + 1;
    }
    entity::GameSession {
        game_session_id: Some(source_game_session.gameSessionId),
        name: Some(source_game_session.name),
        fleet_id: Some(source_game_session.fleetId),
        max_players: source_game_session.maxPlayers,
        port: source_game_session.port,
        ip_address: Some(source_game_session.ipAddress),
        game_session_data: Some(source_game_session.gameSessionData),
        matchmaker_data: Some(source_game_session.matchmakerData),
        game_properties: Some(game_properties),
        dns_name: Some(source_game_session.dnsName),
    }
}

/// A wire update as an entity; the nested session and a known reason name
/// must both be present.
pub fn update_game_session_mapper(source: proto::UpdateGameSession) -> (r:
    entity::UpdateGameSession)
    requires
        source.gameSession is Some,
        crate::entity::spec_entity_update_reason(source.updateReason@) is Some,
    ensures
        r.game_session is Some,
        Some(r.update_reason) == crate::entity::spec_entity_update_reason(source.updateReason@),
        r.backfill_ticket_id@ == source.backfillTicketId@,
{
    let gs = match source.gameSession {
        Some(g) => g,
        None => {
            proof {
                assert(false);
            }
            unreached()
        },
    };
    let update_reason = match entity::parse_entity_update_reason(&source.updateReason) {
        Some(u) => u,
        None => {
            proof {
                assert(false);
            }
            unreached()
        },
    };
    entity::UpdateGameSession {
        game_session: Some(game_session_mapper(gs)),
        update_reason,
        backfill_ticket_id: source.backfillTicketId,
    }
}

/// A wire player-session page as an entity result; every status must carry a
/// known name.
pub fn describe_player_session_request_mapper(source: proto::DescribePlayerSessionsResponse) -> (r:
    entity::DescribePlayerSessionsResult)
    requires
        forall|i: int|
            0 <= i < source.playerSessions@.len()
                ==> crate::entity::spec_entity_player_session_status(
                (#[trigger] source.playerSessions@[i]).status@,
            ) is Some,
    ensures
        r.next_token@ == source.nextToken@,
        r.player_sessions@.len() == source.playerSessions@.len(),
        forall|i: int|
            0 <= i < r.player_sessions@.len() ==> {
                let p = #[trigger] r.player_sessions@[i];
                let s = source.playerSessions@[i];
                &&& (p.player_id matches Some(v) && v@ == s.playerId@)
                &&& (p.player_session_id matches Some(v) && v@ == s.playerSessionId@)
                &&& (p.game_session_id matches Some(v) && v@ == s.gameSessionId@)
                &&& (p.fleet_id matches Some(v) && v@ == s.fleetId@)
                &&& (p.ip_address matches Some(v) && v@ == s.ipAddress@)
                &&& (p.player_data matches Some(v) && v@ == s.playerData@)
                &&& p.port == s.port
                &&& p.creation_time == s.creationTime
                &&& p.termination_time == s.terminationTime
                &&& Some(p.status) == crate::entity::spec_entity_player_session_status(s.status@)
                &&& (p.dns_name matches Some(v) && v@ == s.dnsName@)
            },
{
    let ghost src = source.playerSessions@;
    let mut result = entity::DescribePlayerSessionsResult {
        player_sessions: Vec::new(),
        next_token: source.nextToken,
    };
    let mut sessions = source.playerSessions;
    let mut i: usize = 0;
    let total = sessions.len();
    while sessions.len() > 0
        invariant
            0 <= i <= total,
            total == src.len(),
            sessions@ == src.skip(i as int),
            forall|k: int|
                0 <= k < src.len() ==> crate::entity::spec_entity_player_session_status(
                    (#[trigger] src[k]).status@,
                ) is Some,
            result.player_sessions@.len() == i,
            result.next_token@ == source.nextToken@,
            forall|k: int|
                0 <= k < i ==> {
                    let p = #[trigger] result.player_sessions@[k];
                    let s = src[k];
                    &&& (p.player_id matches Some(v) && v@ == s.playerId@)
                    &&& (p.player_session_id matches Some(v) && v@ == s.playerSessionId@)
                    &&& (p.game_session_id matches Some(v) && v@ == s.gameSessionId@)
                    &&& (p.fleet_id matches Some(v) && v@ == s.fleetId@)
                    &&& (p.ip_address matches Some(v) && v@ == s.ipAddress@)
                    &&& (p.player_data matches Some(v) && v@ == s.playerData@)
                    &&& p.port == s.port
                    &&& p.creation_time == s.creationTime
                    &&& p.termination_time == s.terminationTime
                    &&& Some(p.status) == crate::entity::spec_entity_player_session_status(
                        s.status@,
                    )
                    &&& (p.dns_name matches Some(v) && v@ == s.dnsName@)
                },
        decreases sessions@.len(),
    {
        let player_session = sessions.remove(0);
        proof {
            assert(src.skip(i as int)[0] == src[i as int]);
            assert(sessions@ =~= src.skip(i + 1 as int));
            assert(src.skip(i as int).len() == src.len() - i);
        }
        let status = match entity::parse_entity_player_session_status(&player_session.status) {
            Some(st) => st,
            None => {
                proof {
                    assert(false);
                }
                unreached()
            },
        };
        let converted_player_session = entity::PlayerSession {
            player_id: Some(player_session.playerId),
            player_session_id: Some(player_session.playerSessionId),
            game_session_id: Some(player_session.gameSessionId),
            fleet_id: Some(player_session.fleetId),
            ip_address: Some(player_session.ipAddress),
            player_data: Some(player_session.playerData),
            port: player_session.port,
            creation_time: player_session.creationTime,
            termination_time: player_session.terminationTime,
            status,
            dns_name: Some(player_session.dnsName),
        };
        result.player_sessions.push(converted_player_session);
        i = i + 1;
    }
    result
}

/// A wire backfill acknowledgement as an entity result.
pub fn start_matchmaking_result_mapper(source: proto::BackfillMatchmakingResponse) -> (r:
    entity::StartMatchBackfillResult)
    ensures
        r.ticket_id@ == source.ticketId@,
{
    entity::StartMatchBackfillResult { ticket_id: source.ticketId }
}

/// A wire certificate answer as an entity result.
pub fn get_instance_certificate_result_mapper(source: proto::GetInstanceCertificateResponse) -> (r:
    entity::GetInstanceCertificateResult)
    ensures
        r.certificate_path@ == source.certificatePath@,
        r.private_key_path@ == source.privateKeyPath@,
        r.certificate_chain_path@ == source.certificateChainPath@,
        r.hostname@ == source.hostName@,
        r.root_certificate_path@ == source.rootCertificatePath@,
{
    entity::GetInstanceCertificateResult {
        certificate_path: source.certificatePath,
        private_key_path: source.privateKeyPath,
        certificate_chain_path: source.certificateChainPath,
        hostname: source.hostName,
        root_certificate_path: source.rootCertificatePath,
    }
}

/// An entity cancel request as a wire stub; all three fields must be present.
pub fn stop_matchmaking_request_mapper(source: entity::StopMatchBackfillRequest) -> (r:
    proto::StopMatchmakingRequest)
    requires
        source.ticket_id is Some,
        source.game_session_arn is Some,
        source.matchmaking_configuration_arn is Some,
    ensures
        Some(r.ticketId@) == (match source.ticket_id {
            Some(s) => Some(s@),
            None => None,
        }),
        Some(r.gameSessionArn@) == (match source.game_session_arn {
            Some(s) => Some(s@),
            None => None,
        }),
        Some(r.matchmakingConfigurationArn@) == (match source.matchmaking_configuration_arn {
            Some(s) => Some(s@),
            None => None,
        }),
{
    let ticket_id = match source.ticket_id {
        Some(s) => s,
        None => {
            proof {
                assert(false);
            }
            unreached()
        },
    };
    let game_session_arn = match source.game_session_arn {
        Some(s) => s,
        None => {
            proof {
                assert(false);
            }
            unreached()
        },
    };
    let matchmaking_configuration_arn = match source.matchmaking_configuration_arn {
        Some(s) => s,
        None => {
            proof {
                assert(false);
            }
            unreached()
        },
    };
    proto::StopMatchmakingRequest {
        ticketId: ticket_id,
        gameSessionArn: game_session_arn,
        matchmakingConfigurationArn: matchmaking_configuration_arn,
    }
}

/// How one optional query field maps onto the wire: the value when present,
/// the empty default otherwise.
pub open spec fn opt_or_empty(o: Option<String>) -> Seq<char> {
    match o {
        Some(s) => s@,
        None => Seq::empty(),
    }
}

/// An entity player-session query as a wire stub; absent filters become
/// their empty defaults.
pub fn describe_player_sessions_mapper(source: entity::DescribePlayerSessionsRequest) -> (r:
    proto::DescribePlayerSessionsRequest)
    ensures
        r.gameSessionId@ == opt_or_empty(source.game_session_id),
        r.playerId@ == opt_or_empty(source.player_id),
        r.playerSessionId@ == opt_or_empty(source.player_session_id),
        r.playerSessionStatusFilter@ == opt_or_empty(source.player_session_status_filter),
        r.nextToken@ == opt_or_empty(source.next_token),
        r.limit == source.limit,
{
    let game_session_id = match source.game_session_id {
        Some(s) => s,
        None => String::new(),
    };
    let player_id = match source.player_id {
        Some(s) => s,
        None => String::new(),
    };
    let player_session_id = match source.player_session_id {
        Some(s) => s,
        None => String::new(),
    };
    let player_session_status_filter = match source.player_session_status_filter {
        Some(s) => s,
        None => String::new(),
    };
    let next_token = match source.next_token {
        Some(s) => s,
        None => String::new(),
    };
    proto::DescribePlayerSessionsRequest {
        gameSessionId: game_session_id,
        playerId: player_id,
        playerSessionId: player_session_id,
        playerSessionStatusFilter: player_session_status_filter,
        nextToken: next_token,
        limit: source.limit,
    }
}

} // verus!
