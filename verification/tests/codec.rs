//! Wire codec behavior: serialization, parsing, the envelope round trip, the
//! typed response decoders, and the legacy naming helpers.

use gamelift_server_sdk::aux_proxy_message_sender::{get_message_type, message_event_name};
use gamelift_server_sdk::error::Error;
use gamelift_server_sdk::json::{from_text, int_from_text, json_int, to_text, Json};
use gamelift_server_sdk::message::{
    CreateGameSessionMessage, RefreshConnectionMessage, TerminateProcessMessage,
    UpdateGameSessionMessage,
};
use gamelift_server_sdk::protocol::{payload_is_empty, RequestMessage, ResponceMessage};
use gamelift_server_sdk::request::{
    AcceptPlayerSessionRequest, ActivateGameSessionRequest, ActivateServerProcessRequest,
    DescribePlayerSessionsRequest, GetComputeCertificateRequest, HeartbeatServerProcessRequest,
    StopMatchBackfillRequest, TerminateServerProcessRequest,
};
use gamelift_server_sdk::responce_result::{
    unit_from_response, DescribePlayerSessionsResult, GetComputeCertificateResult,
    GetFleetRoleCredentialsResult, StartMatchBackfillResult,
};

fn obj(fields: Vec<(&str, Json)>) -> Json {
    Json::Obj(fields.into_iter().map(|(k, v)| (k.to_string(), v)).collect())
}

fn s(v: &str) -> Json {
    Json::Str(v.to_string())
}

fn n(v: i64) -> Json {
    json_int(v)
}

#[test]
fn aux_proxy_message_sender_it_works() {
    let message_type = get_message_type("gamelift_server_sdk::proto::ProcessReady");
    assert_eq!(
        message_event_name(message_type.as_str()),
        "com.amazon.whitewater.auxproxy.pbuffer.ProcessReady"
    );
}

#[test]
fn http_client_it_works() {
    assert_eq!(get_message_type("gamelift_server_sdk::proto::ProcessReady"), "ProcessReady");
}

#[test]
fn serializes_scalars_canonically() {
    assert_eq!(to_text(&Json::Null), "null");
    assert_eq!(to_text(&Json::Bool(true)), "true");
    assert_eq!(to_text(&Json::Bool(false)), "false");
    assert_eq!(to_text(&n(7777)), "7777");
    assert_eq!(to_text(&n(-42)), "-42");
    assert_eq!(to_text(&s("abc")), "\"abc\"");
}

#[test]
fn serializes_structures_canonically() {
    let doc = obj(vec![
        ("A", Json::Arr(vec![n(1), n(2)])),
        ("B", obj(vec![("C", Json::Null)])),
        ("D", Json::Arr(vec![])),
    ]);
    assert_eq!(to_text(&doc), "{\"A\":[1,2],\"B\":{\"C\":null},\"D\":[]}");
}

#[test]
fn escapes_strings() {
    let doc = s("a\"b\\c\nd");
    let text = to_text(&doc);
    assert_eq!(text, "\"a\\\"b\\\\c\\u000ad\"");
    let back = from_text(&text).expect("the escaped text parses");
    assert_eq!(to_text(&back), text);
}

#[test]
fn parses_what_it_serializes() {
    let doc = obj(vec![
        ("Action", s("HeartbeatServerProcess")),
        ("RequestId", s("id-1")),
        ("HealthStatus", Json::Bool(true)),
        ("Nested", obj(vec![("Port", n(7777)), ("Names", Json::Arr(vec![s("x"), s("y")]))])),
    ]);
    let text = to_text(&doc);
    let back = from_text(&text).expect("the canonical text parses");
    assert_eq!(to_text(&back), text);
}

#[test]
fn rejects_malformed_documents() {
    assert!(from_text("{\"A\":").is_none());
    assert!(from_text("tru").is_none());
    assert!(from_text("{\"A\":1}x").is_none());
    assert!(from_text("").is_none());
}

#[test]
fn reads_integers_back() {
    assert_eq!(int_from_text(&"200".to_string()), Some(200));
    assert_eq!(int_from_text(&"-5".to_string()), Some(-5));
    assert_eq!(int_from_text(&"2.5".to_string()), None);
    assert_eq!(int_from_text(&"".to_string()), None);
}

#[test]
fn envelope_round_trips() {
    let msg = RequestMessage {
        action: "AcceptPlayerSession".to_string(),
        request_id: "r-77".to_string(),
        content: vec![
            ("GameSessionId".to_string(), s("gs-1")),
            ("PlayerSessionId".to_string(), s("ps-1")),
        ],
    };
    let text = msg.encode();
    assert_eq!(
        text,
        "{\"Action\":\"AcceptPlayerSession\",\"RequestId\":\"r-77\",\
         \"GameSessionId\":\"gs-1\",\"PlayerSessionId\":\"ps-1\"}"
    );
    let doc = from_text(&text).expect("the envelope parses");
    let m = ResponceMessage::from_json(doc).expect("the envelope decodes");
    assert_eq!(m.action, "AcceptPlayerSession");
    assert_eq!(m.request_id, "r-77");
    let payload = m.rest_data;
    match payload.get(&"GameSessionId".to_string()) {
        Some(Json::Str(v)) => assert_eq!(v, "gs-1"),
        _ => panic!("the payload lost its fields"),
    }
}

#[test]
fn decodes_response_envelope_defaults() {
    let doc = from_text("{}").unwrap();
    let m = ResponceMessage::from_json(doc).unwrap();
    assert_eq!(m.action, "");
    assert_eq!(m.request_id, "");
    assert_eq!(m.status_code, 0);
    assert_eq!(m.error_message, "");
}

#[test]
fn rejects_badly_typed_envelope_fields() {
    let doc = from_text("{\"StatusCode\":\"not a number\"}").unwrap();
    assert!(ResponceMessage::from_json(doc).is_none());
    let doc = from_text("{\"Action\":5}").unwrap();
    assert!(ResponceMessage::from_json(doc).is_none());
}

#[test]
fn empty_object_payload_is_a_unit_response() {
    let doc = from_text("{\"Action\":\"HeartbeatServerProcess\",\"RequestId\":\"r\",\"StatusCode\":200}")
        .unwrap();
    let m = ResponceMessage::from_json(doc).unwrap();
    assert!(payload_is_empty(&m.rest_data));
    assert!(unit_from_response(m).is_ok());
}

#[test]
fn populated_payload_is_not_a_unit_response() {
    let doc = from_text("{\"RequestId\":\"r\",\"StatusCode\":200,\"Extra\":1}").unwrap();
    let m = ResponceMessage::from_json(doc).unwrap();
    let r = unit_from_response(m);
    assert!(matches!(r, Err(Error::InvalidJson(_))));
}

#[test]
fn non_200_fails_with_request_unsuccessful() {
    let doc = from_text(
        "{\"RequestId\":\"r\",\"StatusCode\":500,\"ErrorMessage\":\"broken\"}",
    )
    .unwrap();
    let m = ResponceMessage::from_json(doc).unwrap();
    match unit_from_response(m) {
        Err(Error::RequestUnsuccessful(code, msg)) => {
            assert_eq!(code, 500);
            assert_eq!(msg, "broken");
        },
        _ => panic!("a 500 must fail with its status and message"),
    }
}

#[test]
fn every_registered_response_type_decodes_a_200() {
    let make = |payload: &str| {
        let text = format!("{{\"RequestId\":\"r\",\"StatusCode\":200{}}}", payload);
        ResponceMessage::from_json(from_text(&text).unwrap()).unwrap()
    };
    assert!(unit_from_response(make("")).is_ok());
    let c = GetComputeCertificateResult::from_response(make(
        ",\"CertificatePath\":\"/c\",\"ComputeName\":\"host\"",
    ))
    .unwrap();
    assert_eq!(c.certificate_path, "/c");
    assert_eq!(c.compute_name, "host");
    let b = StartMatchBackfillResult::from_response(make(",\"TicketId\":\"t-9\"")).unwrap();
    assert_eq!(b.ticket_id, "t-9");
    let f = GetFleetRoleCredentialsResult::from_response(make(
        ",\"AssumedRoleUserArn\":\"arn:u\",\"AssumedRoleId\":\"id\",\"AccessKeyId\":\"AK\",\
         \"SecretAccessKey\":\"SECRET-REDACTED\",\"SessionToken\":\"tok\",\"Expiration\":1700000000000",
    ))
    .unwrap();
    assert_eq!(f.access_key_id, "AK");
    assert_eq!(f.expiration, 1700000000000);
    let d = DescribePlayerSessionsResult::from_response(make(
        ",\"NextToken\":\"nt\",\"PlayerSessions\":[{\"PlayerId\":\"p1\",\"Port\":7777,\
         \"Status\":\"ACTIVE\",\"CreationTime\":1000}]",
    ))
    .unwrap();
    assert_eq!(d.next_token, "nt");
    assert_eq!(d.player_sessions.len(), 1);
    assert_eq!(d.player_sessions[0].player_id, "p1");
    assert_eq!(d.player_sessions[0].port, 7777);
    assert_eq!(d.player_sessions[0].creation_time, 1000);
}

#[test]
fn every_registered_response_type_reports_a_500() {
    let make = || {
        ResponceMessage::from_json(
            from_text("{\"RequestId\":\"r\",\"StatusCode\":500,\"ErrorMessage\":\"no\"}").unwrap(),
        )
        .unwrap()
    };
    assert!(matches!(
        GetComputeCertificateResult::from_response(make()),
        Err(Error::RequestUnsuccessful(500, _))
    ));
    assert!(matches!(
        StartMatchBackfillResult::from_response(make()),
        Err(Error::RequestUnsuccessful(500, _))
    ));
    assert!(matches!(
        GetFleetRoleCredentialsResult::from_response(make()),
        Err(Error::RequestUnsuccessful(500, _))
    ));
    assert!(matches!(
        DescribePlayerSessionsResult::from_response(make()),
        Err(Error::RequestUnsuccessful(500, _))
    ));
}

#[test]
fn request_contents_carry_their_fields() {
    let c = AcceptPlayerSessionRequest {
        game_session_id: "gs".to_string(),
        player_session_id: "ps".to_string(),
    }
    .to_content();
    assert_eq!(c.len(), 2);
    assert_eq!(c[0].0, "GameSessionId");
    let c = ActivateGameSessionRequest { game_session_id: "gs".to_string() }.to_content();
    assert_eq!(c.len(), 1);
    let c = HeartbeatServerProcessRequest { health_status: true }.to_content();
    assert!(matches!(c[0].1, Json::Bool(true)));
    let c = TerminateServerProcessRequest {}.to_content();
    assert!(c.is_empty());
    let c = GetComputeCertificateRequest {}.to_content();
    assert!(c.is_empty());
    let c = StopMatchBackfillRequest {
        game_session_arn: "ga".to_string(),
        matchmaking_configuration_arn: "ma".to_string(),
        ticket_id: "t".to_string(),
    }
    .to_content();
    assert_eq!(c.len(), 3);
    let d = DescribePlayerSessionsRequest::default();
    assert_eq!(d.limit, 50);
}

#[test]
fn activation_request_encodes_exactly() {
    let req = ActivateServerProcessRequest {
        sdk_version: "5.0.0".to_string(),
        sdk_language: "Rust".to_string(),
        port: 7777,
        log_paths: vec!["test".to_string()],
    };
    let msg = RequestMessage {
        action: ActivateServerProcessRequest::action_name().to_string(),
        request_id: "R-1".to_string(),
        content: req.to_content(),
    };
    assert_eq!(
        msg.encode(),
        "{\"Action\":\"ActivateServerProcess\",\"RequestId\":\"R-1\",\
         \"SdkVersion\":\"5.0.0\",\"SdkLanguage\":\"Rust\",\"Port\":7777,\
         \"LogPaths\":[\"test\"]}"
    );
}

#[test]
fn event_payloads_decode() {
    let create = from_text(
        "{\"GameSessionId\":\"gs-1\",\"GameSessionName\":\"n\",\
         \"MaximumPlayerSessionCount\":8,\"Port\":7777,\"IpAddress\":\"1.2.3.4\",\
         \"DnsName\":\"d\",\"GameSessionData\":\"\",\"MatchmakerData\":\"\",\
         \"GameProperties\":{}}",
    )
    .unwrap();
    let m = CreateGameSessionMessage::from_json(&create).expect("the session event decodes");
    assert_eq!(m.game_session_id, "gs-1");
    assert_eq!(m.name, "n");
    assert_eq!(m.maximum_player_session_count, 8);
    assert_eq!(m.port, 7777);
    assert_eq!(m.ip_address, "1.2.3.4");
    assert_eq!(m.dns_name, "d");
    assert!(m.game_properties.is_empty());

    let update = from_text(
        "{\"GameSession\":{\"GameSessionId\":\"gs-1\"},\"UpdateReason\":\"BACKFILL_FAILED\",\
         \"BackfillTicketId\":\"t\"}",
    )
    .unwrap();
    let m = UpdateGameSessionMessage::from_json(&update).expect("the update event decodes");
    assert_eq!(m.game_session.game_session_id, "gs-1");
    assert!(matches!(
        m.update_reason,
        gamelift_server_sdk::data::UpdateReason::BackfillFailed
    ));

    let term = from_text("{\"TerminationTime\":-5}").unwrap();
    let m = TerminateProcessMessage::from_json(&term).unwrap();
    assert_eq!(m.termination_time, -5);

    let refresh = from_text(
        "{\"RefreshConnectionEndpoint\":\"wss://y/\",\"AuthToken\":\"t2\"}",
    )
    .unwrap();
    let m = RefreshConnectionMessage::from_json(&refresh).unwrap();
    assert_eq!(m.refresh_connection_endpoint, "wss://y/");
    assert_eq!(m.auth_token, "t2");
}

#[test]
fn player_session_page_caps_at_its_limit() {
    let mut page = DescribePlayerSessionsResult::default();
    for i in 0..1030 {
        let mut p = blank_player_session();
        p.player_id = format!("p{}", i);
        page.add_player_session(p);
    }
    assert_eq!(page.player_sessions.len(), 1024);
    assert_eq!(page.player_sessions[1023].player_id, "p1023");
}

fn blank_player_session() -> gamelift_server_sdk::data::PlayerSession {
    gamelift_server_sdk::data::PlayerSession {
        player_id: String::new(),
        player_session_id: String::new(),
        game_session_id: String::new(),
        fleet_id: String::new(),
        ip_address: String::new(),
        player_data: String::new(),
        port: 0,
        creation_time: 0,
        termination_time: 0,
        status: gamelift_server_sdk::data::PlayerSessionStatus::NotSet,
        dns_name: String::new(),
    }
}
