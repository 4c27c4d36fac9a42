//! Session behavior: the driver's correlation, the dispatcher's ordering and
//! readiness gating, the credential cache, timeouts, the URI, and ids.

use gamelift_server_sdk::api::Api;
use gamelift_server_sdk::connection_state::{
    ConnectionState, DriverAction, Frame, ServerEventInner,
};
use gamelift_server_sdk::error::Error;
use gamelift_server_sdk::protocol::RequestMessage;
use gamelift_server_sdk::request::GetFleetRoleCredentialsRequest;
use gamelift_server_sdk::responce_result::GetFleetRoleCredentialsResult;
use gamelift_server_sdk::server_parameters::ServerParameters;
use gamelift_server_sdk::server_state::{CallbackCall, CredentialsStep, DispatchStep, ServerState};
use gamelift_server_sdk::web_socket_listener::{
    complete_request, create_uri, is_uuid_v4_str, new_request_id, AwaitOutcome, EventQueue,
};

fn params() -> ServerParameters {
    ServerParameters::new(
        "wss://x/".to_string(),
        "p".to_string(),
        "h".to_string(),
        "f".to_string(),
        "t".to_string(),
    )
}

fn envelope(action: &str, request_id: &str) -> RequestMessage {
    RequestMessage {
        action: action.to_string(),
        request_id: request_id.to_string(),
        content: Vec::new(),
    }
}

#[test]
fn uri_is_bit_exact() {
    assert_eq!(
        create_uri(&params()),
        "wss://x/?pID=p&sdkVersion=5.0.0&sdkLanguage=Rust&Authorization=t&ComputeId=h&FleetId=f"
    );
}

#[test]
fn uri_closes_the_path_with_a_slash() {
    let mut p = params();
    p.web_socket_url = "wss://x".to_string();
    assert!(create_uri(&p).starts_with("wss://x/?pID="));
}

#[test]
fn refreshed_uri_carries_the_new_token() {
    let api = Api::init_sdk(&params());
    let refreshed = api.state.on_refresh_connection(
        gamelift_server_sdk::message::RefreshConnectionMessage {
            refresh_connection_endpoint: "wss://y/".to_string(),
            auth_token: "t2".to_string(),
        },
    );
    let uri = create_uri(&refreshed);
    assert!(uri.starts_with("wss://y/?"));
    assert!(uri.contains("&Authorization=t2&"));
    assert!(uri.contains("&FleetId=f"));
}

#[test]
fn generated_request_ids_are_canonical_version_4() {
    for _ in 0..32 {
        let id = new_request_id();
        assert!(is_uuid_v4_str(id.as_str()), "{} is not canonical", id);
    }
    assert!(is_uuid_v4_str("00000000-0000-4000-8000-000000000000"));
    assert!(!is_uuid_v4_str("00000000-0000-1000-8000-000000000000"));
    assert!(!is_uuid_v4_str("not an id"));
}

#[test]
fn overrides_replace_only_nonempty_values() {
    let p = params().with_overrides(
        Some("wss://env/".to_string()),
        Some(String::new()),
        None,
        None,
        Some("t9".to_string()),
    );
    assert_eq!(p.web_socket_url, "wss://env/");
    assert_eq!(p.process_id, "p");
    assert_eq!(p.host_id, "h");
    assert_eq!(p.auth_token, "t9");
}

#[test]
fn driver_sends_one_frame_and_correlates_one_reply() {
    let mut driver = ConnectionState::new();
    let (frame, ticket) = ConnectionState::send_request(envelope("DescribePlayerSessions", "R-1"), 7);
    assert!(frame.contains("\"RequestId\":\"R-1\""));
    assert!(driver.record_send_result(ticket, true).is_none());

    let reply = "{\"Action\":\"DescribePlayerSessions\",\"RequestId\":\"R-1\",\"StatusCode\":200}";
    match driver.reaction(reply.to_string()) {
        Some(DriverAction::Reply(slot, m)) => {
            assert_eq!(slot, 7);
            assert_eq!(m.status_code, 200);
        },
        _ => panic!("the waiter must be woken exactly once"),
    }
    // the waiter is gone: a second identical reply wakes nobody
    assert!(driver.reaction(reply.to_string()).is_none());
}

#[test]
fn late_reply_with_unknown_id_is_discarded() {
    let mut driver = ConnectionState::new();
    let reply = "{\"Action\":\"DescribePlayerSessions\",\"RequestId\":\"R-9\",\"StatusCode\":200}";
    assert!(driver.reaction(reply.to_string()).is_none());
}

#[test]
fn reply_without_id_is_discarded() {
    let mut driver = ConnectionState::new();
    let (_, t) = ConnectionState::send_request(envelope("HeartbeatServerProcess", "R-1"), 1);
    driver.record_send_result(t, true);
    let reply = "{\"Action\":\"HeartbeatServerProcess\",\"StatusCode\":200}";
    assert!(driver.reaction(reply.to_string()).is_none());
}

#[test]
fn reused_id_fails_the_previous_waiter() {
    let mut driver = ConnectionState::new();
    let (_, t1) = ConnectionState::send_request(envelope("A", "R-1"), 1);
    assert!(driver.record_send_result(t1, true).is_none());
    let (_, t2) = ConnectionState::send_request(envelope("A", "R-1"), 2);
    match driver.record_send_result(t2, true) {
        Some(DriverAction::Fail(slot, e)) => {
            assert_eq!(slot, 1);
            assert!(matches!(e, Error::RequestWasOverwritten));
        },
        _ => panic!("the first waiter must be failed as overwritten"),
    }
}

#[test]
fn failed_write_fails_the_waiter_at_once() {
    let mut driver = ConnectionState::new();
    let (_, t) = ConnectionState::send_request(envelope("A", "R-1"), 5);
    match driver.record_send_result(t, false) {
        Some(DriverAction::Fail(slot, e)) => {
            assert_eq!(slot, 5);
            assert!(matches!(e, Error::ServiceCallFailed(_)));
        },
        _ => panic!("a failed write must fail its waiter"),
    }
}

#[test]
fn terminate_handshake_synthesizes_a_success() {
    let mut driver = ConnectionState::new();
    let (_, t) = ConnectionState::send_request(envelope("TerminateServerProcess", "R-T"), 9);
    assert!(driver.record_send_result(t, true).is_none());
    assert!(driver.listen(Frame::Close).is_none());
    assert!(driver.is_intake_closed());
    let actions = driver.on_stream_end();
    assert_eq!(actions.len(), 1);
    match &actions[0] {
        DriverAction::Reply(slot, m) => {
            assert_eq!(*slot, 9);
            assert_eq!(m.status_code, 200);
            assert_eq!(m.request_id, "R-T");
            assert_eq!(m.action, "TerminateServerProcess");
        },
        _ => panic!("the terminate waiter must get the synthesized success"),
    }
}

#[test]
fn stream_end_fails_every_other_waiter() {
    let mut driver = ConnectionState::new();
    let (_, t1) = ConnectionState::send_request(envelope("A", "R-1"), 1);
    driver.record_send_result(t1, true);
    let (_, t2) = ConnectionState::send_request(envelope("B", "R-2"), 2);
    driver.record_send_result(t2, true);
    let actions = driver.on_stream_end();
    assert_eq!(actions.len(), 2);
    for a in &actions {
        assert!(matches!(a, DriverAction::Fail(_, Error::LocalConnectionAlreadyClosed)));
    }
}

#[test]
fn refresh_event_closes_the_intake() {
    let mut driver = ConnectionState::new();
    let text = "{\"Action\":\"RefreshConnection\",\
                \"RefreshConnectionEndpoint\":\"wss://y/\",\"AuthToken\":\"t2\"}";
    match driver.reaction(text.to_string()) {
        Some(DriverAction::PushEvent(ServerEventInner::OnRefreshConnection(m))) => {
            assert_eq!(m.refresh_connection_endpoint, "wss://y/");
            assert_eq!(m.auth_token, "t2");
        },
        _ => panic!("the refresh event must reach the dispatcher"),
    }
    assert!(driver.is_intake_closed());
}

#[test]
fn event_frames_become_events() {
    let mut driver = ConnectionState::new();
    let create = "{\"Action\":\"CreateGameSession\",\"GameSessionId\":\"gs-1\",\
                  \"GameSessionName\":\"n\",\"MaximumPlayerSessionCount\":8,\"Port\":7777,\
                  \"IpAddress\":\"1.2.3.4\",\"DnsName\":\"d\",\"GameSessionData\":\"\",\
                  \"MatchmakerData\":\"\",\"GameProperties\":{}}";
    match driver.reaction(create.to_string()) {
        Some(DriverAction::PushEvent(ServerEventInner::OnStartGameSession(m))) => {
            assert_eq!(m.game_session_id, "gs-1");
        },
        _ => panic!("a session event frame must become an event"),
    }
    let term = "{\"Action\":\"TerminateProcess\",\"TerminationTime\":1700000000000}";
    match driver.reaction(term.to_string()) {
        Some(DriverAction::PushEvent(ServerEventInner::OnTerminateProcess(m))) => {
            assert_eq!(m.termination_time, 1700000000000);
        },
        _ => panic!("a terminate frame must become an event"),
    }
}

#[test]
fn timeout_fails_with_request_timeout() {
    assert!(matches!(complete_request(AwaitOutcome::TimedOut), Err(Error::RequestTimeout)));
    assert!(matches!(
        complete_request(AwaitOutcome::ChannelClosed),
        Err(Error::LocalConnectionAlreadyClosed)
    ));
}

#[test]
fn bounded_queue_drops_rather_than_blocks() {
    let mut q: EventQueue<u32> = EventQueue::new(2);
    assert!(q.try_push(1));
    assert!(q.try_push(2));
    assert!(!q.try_push(3));
    assert_eq!(q.len(), 2);
    assert_eq!(q.pop(), Some(1));
    assert_eq!(q.pop(), Some(2));
    assert_eq!(q.pop(), None);
}

fn create_event(id: &str) -> ServerEventInner {
    ServerEventInner::OnStartGameSession(gamelift_server_sdk::message::CreateGameSessionMessage {
        game_session_id: id.to_string(),
        name: "n".to_string(),
        fleet_id: String::new(),
        maximum_player_session_count: 8,
        port: 7777,
        ip_address: "1.2.3.4".to_string(),
        game_session_data: String::new(),
        matchmaker_data: String::new(),
        game_properties: Vec::new(),
        dns_name: "d".to_string(),
    })
}

#[test]
fn callbacks_keep_event_order_and_readiness_gates_them() {
    let mut state = ServerState::new(&params());
    state.process_ready(7777, &vec!["test".to_string()]);
    let events = vec![
        create_event("gs-1"),
        ServerEventInner::OnHealthCheck,
        create_event("gs-2"),
        ServerEventInner::OnTerminateProcess(
            gamelift_server_sdk::message::TerminateProcessMessage { termination_time: 9 },
        ),
    ];
    let mut inner_state = state;
    let calls = {
        let mut all: Vec<CallbackCall> = Vec::new();
        for e in events {
            match inner_state.dispatch_event(e) {
                DispatchStep::Invoke(c) => all.push(c),
                _ => {},
            }
        }
        all
    };
    assert_eq!(calls.len(), 4);
    assert!(matches!(&calls[0], CallbackCall::StartGameSession(m) if m.game_session_id == "gs-1"));
    assert!(matches!(&calls[1], CallbackCall::HealthCheck));
    assert!(matches!(&calls[2], CallbackCall::StartGameSession(m) if m.game_session_id == "gs-2"));
    assert!(matches!(&calls[3], CallbackCall::ProcessTerminate));
    assert_eq!(inner_state.get_game_session_id().unwrap(), "gs-2");
    assert_eq!(inner_state.get_termination_time().unwrap(), 9);
}

#[test]
fn batch_dispatch_keeps_order_and_records_the_last_session() {
    let mut state = ServerState::new(&params());
    state.process_ready(7777, &Vec::new());
    let mut inner = state;
    let events = vec![create_event("gs-1"), ServerEventInner::OnHealthCheck, create_event("gs-2")];
    let calls = inner.dispatch_all(events);
    assert_eq!(calls.len(), 3);
    assert!(matches!(&calls[0], CallbackCall::StartGameSession(m) if m.game_session_id == "gs-1"));
    assert!(matches!(&calls[2], CallbackCall::StartGameSession(m) if m.game_session_id == "gs-2"));
    assert_eq!(inner.get_game_session_id().unwrap(), "gs-2");
}

#[test]
fn session_events_are_dropped_when_not_ready() {
    let mut state = ServerState::new(&params());
    assert!(matches!(state.dispatch_event(create_event("gs-1")), DispatchStep::Skip));
    assert!(matches!(state.get_game_session_id(), Err(Error::GameSessionIdNotSet)));
    assert!(matches!(state.get_termination_time(), Err(Error::TerminationTimeNotSet)));
}

#[test]
fn start_event_injects_the_fleet_id() {
    let mut state = ServerState::new(&params());
    state.process_ready(7777, &Vec::new());
    match state.dispatch_event(create_event("gs-1")) {
        DispatchStep::Invoke(CallbackCall::StartGameSession(m)) => {
            assert_eq!(m.fleet_id, "f");
        },
        _ => panic!("a ready process must receive the session"),
    }
}

#[test]
fn session_lifecycle_reaches_activation() {
    let mut state = ServerState::new(&params());
    state.process_ready(7777, &Vec::new());
    state.dispatch_event(create_event("gs-1"));
    let req = state.activate_game_session().expect("the id is recorded");
    assert_eq!(req.game_session_id, "gs-1");
    let msg = RequestMessage {
        action: gamelift_server_sdk::request::ActivateGameSessionRequest::action_name()
            .to_string(),
        request_id: "R-5".to_string(),
        content: req.to_content(),
    };
    assert_eq!(
        msg.encode(),
        "{\"Action\":\"ActivateGameSession\",\"RequestId\":\"R-5\",\"GameSessionId\":\"gs-1\"}"
    );
}

#[test]
fn player_session_requests_need_a_recorded_session() {
    let mut state = ServerState::new(&params());
    assert!(matches!(
        state.accept_player_session("ps-1".to_string()),
        Err(Error::GameSessionIdNotSet)
    ));
    assert!(matches!(
        state.remove_player_session("ps-1".to_string()),
        Err(Error::GameSessionIdNotSet)
    ));
    assert!(matches!(
        state.update_player_session_creation_policy(
            gamelift_server_sdk::data::PlayerSessionCreationPolicy::AcceptAll
        ),
        Err(Error::GameSessionIdNotSet)
    ));
    state.process_ready(7777, &Vec::new());
    state.dispatch_event(create_event("gs-1"));
    let accept = state.accept_player_session("ps-1".to_string()).unwrap();
    assert_eq!(accept.game_session_id, "gs-1");
    assert_eq!(accept.player_session_id, "ps-1");
    let policy = state
        .update_player_session_creation_policy(
            gamelift_server_sdk::data::PlayerSessionCreationPolicy::DenyAll,
        )
        .unwrap();
    assert_eq!(policy.game_session_id, "gs-1");
    assert_eq!(policy.player_session_policy.name(), "DENY_ALL");
}

#[test]
fn errors_describe_themselves() {
    assert_eq!(Error::RequestTimeout.message(), "Request timeout");
    assert_eq!(Error::LocalConnectionAlreadyClosed.message(), "Local connection already closed");
}

#[test]
fn activation_without_a_session_fails() {
    let api = Api::init_sdk(&params());
    assert!(matches!(api.activate_game_session(), Err(Error::GameSessionIdNotSet)));
}

#[test]
fn health_reports_follow_readiness_and_the_callback() {
    let mut state = ServerState::new(&params());
    assert!(state.report_health(Some(true)).is_none());
    state.process_ready(7777, &Vec::new());
    assert!(state.report_health(Some(true)).unwrap().health_status);
    assert!(!state.report_health(Some(false)).unwrap().health_status);
    assert!(!state.report_health(None).unwrap().health_status);
    state.process_ending();
    assert!(state.report_health(Some(true)).is_none());
}

fn credentials(expiration: i64) -> GetFleetRoleCredentialsResult {
    GetFleetRoleCredentialsResult {
        assumed_role_user_arn: "arn:u".to_string(),
        assumed_role_id: "id".to_string(),
        access_key_id: "AK".to_string(),
        secret_access_key: "SECRET-REDACTED".to_string(),
        session_token: "tok".to_string(),
        expiration,
    }
}

#[test]
fn fresh_credentials_are_served_from_the_cache() {
    let mut state = ServerState::new(&params());
    let now: i64 = 1_000_000_000;
    let hour: i64 = 3_600_000;
    let req = || GetFleetRoleCredentialsRequest {
        role_arn: "a".to_string(),
        role_session_name: Some("name".to_string()),
    };
    // first call goes out
    match state.prepare_fleet_role_credentials(req(), now) {
        CredentialsStep::Send(q) => {
            assert_eq!(q.role_arn, "a");
            assert_eq!(q.role_session_name.unwrap(), "name");
        },
        _ => panic!("an empty cache must send"),
    }
    state
        .complete_fleet_role_credentials("a".to_string(), credentials(now + hour))
        .unwrap();
    // a second call within the freshness window is answered from the cache
    match state.prepare_fleet_role_credentials(req(), now + 600_000) {
        CredentialsStep::Cached(c) => assert_eq!(c.expiration, now + hour),
        _ => panic!("fresh credentials must come from the cache"),
    }
    // near expiration the entry is stale and the call goes out again
    match state.prepare_fleet_role_credentials(req(), now + hour - 60_000) {
        CredentialsStep::Send(_) => {},
        _ => panic!("stale credentials must be refetched"),
    }
}

#[test]
fn empty_access_key_is_rejected_and_not_cached() {
    let mut state = ServerState::new(&params());
    let r = state.complete_fleet_role_credentials("a".to_string(), credentials(0));
    assert!(r.is_ok());
    let mut bad = credentials(0);
    bad.access_key_id = String::new();
    let r = state.complete_fleet_role_credentials("b".to_string(), bad);
    assert!(matches!(r, Err(Error::BadRequest(_))));
}

#[test]
fn synthesized_session_name_is_capped_at_sixty_four() {
    let mut p = params();
    p.fleet_id = "f".repeat(40);
    p.host_id = "h".repeat(40);
    let mut state = ServerState::new(&p);
    let req = GetFleetRoleCredentialsRequest { role_arn: "a".to_string(), role_session_name: None };
    match state.prepare_fleet_role_credentials(req, 0) {
        CredentialsStep::Send(q) => {
            let name = q.role_session_name.unwrap();
            assert_eq!(name.chars().count(), 64);
            assert!(name.starts_with(&"f".repeat(40)));
        },
        _ => panic!("a missing session name must be synthesized"),
    }
}

#[test]
fn oversize_session_name_is_rejected() {
    let mut state = ServerState::new(&params());
    let req = GetFleetRoleCredentialsRequest {
        role_arn: "a".to_string(),
        role_session_name: Some("x".repeat(65)),
    };
    match state.prepare_fleet_role_credentials(req, 0) {
        CredentialsStep::Rejected(e) => assert!(matches!(e, Error::BadRequest(_))),
        _ => panic!("an oversize session name must be rejected"),
    }
}

#[test]
fn happy_activation_round_trip() {
    let mut state = ServerState::new(&params());
    let req = state.process_ready(7777, &vec!["test".to_string()]);
    assert_eq!(req.sdk_version, "5.0.0");
    assert_eq!(req.sdk_language, "Rust");
    assert_eq!(req.port, 7777);
    assert_eq!(req.log_paths, vec!["test".to_string()]);
    let reply = gamelift_server_sdk::protocol::ResponceMessage::from_json(
        gamelift_server_sdk::json::from_text(
            "{\"Action\":\"ActivateServerProcess\",\"RequestId\":\"R\",\"StatusCode\":200}",
        )
        .unwrap(),
    )
    .unwrap();
    assert!(gamelift_server_sdk::responce_result::unit_from_response(reply).is_ok());
}

#[test]
fn mapper_round_trips_a_game_session() {
    let src = gamelift_server_sdk::proto::GameSession {
        gameSessionId: "gs".to_string(),
        name: "n".to_string(),
        fleetId: "f".to_string(),
        maxPlayers: 8,
        port: 7777,
        ipAddress: "1.2.3.4".to_string(),
        gameSessionData: "data".to_string(),
        matchmakerData: "mm".to_string(),
        gameProperties: vec![gamelift_server_sdk::proto::GameProperty {
            key: "k".to_string(),
            value: "v".to_string(),
        }],
        dnsName: "d".to_string(),
    };
    let e = gamelift_server_sdk::mapper::game_session_mapper(src);
    assert_eq!(e.game_session_id.unwrap(), "gs");
    assert_eq!(e.max_players, 8);
    let props = e.game_properties.unwrap();
    assert_eq!(props.len(), 1);
    assert_eq!(props[0].key.as_ref().unwrap(), "k");
    assert_eq!(props[0].value.as_ref().unwrap(), "v");
}

#[test]
fn mapper_converts_a_player_session_page() {
    let src = gamelift_server_sdk::proto::DescribePlayerSessionsResponse {
        nextToken: "nt".to_string(),
        playerSessions: vec![gamelift_server_sdk::proto::PlayerSession {
            playerId: "p1".to_string(),
            playerSessionId: "ps1".to_string(),
            gameSessionId: "gs".to_string(),
            fleetId: "f".to_string(),
            ipAddress: "1.2.3.4".to_string(),
            playerData: String::new(),
            port: 7777,
            creationTime: 10,
            terminationTime: 20,
            status: "Active".to_string(),
            dnsName: "d".to_string(),
        }],
    };
    let r = gamelift_server_sdk::mapper::describe_player_session_request_mapper(src);
    assert_eq!(r.next_token, "nt");
    assert_eq!(r.player_sessions.len(), 1);
    assert!(matches!(
        r.player_sessions[0].status,
        gamelift_server_sdk::entity::PlayerSessionStatus::Active
    ));
}
