use lcu_gateway::channel::{ChannelAction, ChannelEvent, ChannelPhase};
use lcu_gateway::event::{decode_event, parse_event_type, Emit, Event, EventType};
use lcu_gateway::gateway::GatewayState;
use lcu_gateway::json::JsonValue;
use lcu_gateway::request::{
    absent_to_null, method_token, or_null, settle_response, Method, RequestError, WireOutcome,
};

#[test]
fn initialize_starts_exactly_once() {
    let mut gw = GatewayState::new();
    assert_eq!(gw.phase, ChannelPhase::NotStarted);
    assert!(gw.initialize());
    assert_eq!(gw.phase, ChannelPhase::Connecting);
    assert!(!gw.initialize());
    assert!(!gw.initialize());
    assert_eq!(gw.phase, ChannelPhase::Connecting);
}

#[test]
fn channel_walks_to_streaming_and_reconnects() {
    let mut gw = GatewayState::new();
    gw.initialize();
    assert_eq!(
        gw.channel_event(ChannelEvent::ConnectSucceeded),
        ChannelAction::Authenticate
    );
    assert_eq!(gw.phase, ChannelPhase::Authenticated);
    assert_eq!(
        gw.channel_event(ChannelEvent::AuthSucceeded),
        ChannelAction::ReadFrames
    );
    assert_eq!(gw.phase, ChannelPhase::Streaming);
    assert_eq!(
        gw.channel_event(ChannelEvent::ConnectionLost),
        ChannelAction::OpenConnection
    );
    assert_eq!(gw.phase, ChannelPhase::Connecting);
    assert!(!gw.initialize());
}

#[test]
fn auth_failure_is_terminal_for_the_channel() {
    let mut gw = GatewayState::new();
    gw.initialize();
    gw.channel_event(ChannelEvent::ConnectSucceeded);
    assert_eq!(
        gw.channel_event(ChannelEvent::AuthFailed),
        ChannelAction::ReportAuthFailure
    );
    assert_eq!(gw.phase, ChannelPhase::Closed);
    assert!(!gw.initialize());
    assert_eq!(
        gw.channel_event(ChannelEvent::ConnectSucceeded),
        ChannelAction::Idle
    );
    assert_eq!(gw.phase, ChannelPhase::Closed);
}

#[test]
fn failed_connect_retries() {
    let mut gw = GatewayState::new();
    gw.initialize();
    assert_eq!(
        gw.channel_event(ChannelEvent::ConnectFailed),
        ChannelAction::OpenConnection
    );
    assert_eq!(gw.phase, ChannelPhase::Connecting);
}

#[test]
fn standard_handlers_cover_gameflow_and_lobby() {
    let mut gw = GatewayState::new();
    gw.install_standard_handlers();
    assert_eq!(gw.registry.subs.len(), 2);

    let phase_update = Event {
        uri: "/lol-gameflow/v1/gameflow-phase".to_string(),
        event_type: EventType::Update,
        data: JsonValue::Str("ChampSelect".to_string()),
    };
    let emits = gw.dispatch_event(&phase_update);
    assert_eq!(emits.len(), 1);
    assert!(matches!(&emits[0], Emit::Gameflow(JsonValue::Str(s)) if s == "ChampSelect"));

    let delete = Event {
        uri: "/lol-lobby/v2/lobby".to_string(),
        event_type: EventType::Delete,
        data: JsonValue::Null,
    };
    let emits = gw.dispatch_event(&delete);
    assert_eq!(emits.len(), 1);
    assert!(matches!(&emits[0], Emit::Lobby(ids) if ids.is_empty()));
}

#[test]
fn rejected_carries_the_status() {
    let r = settle_response(WireOutcome::Response(404, Some(JsonValue::Null)));
    assert!(matches!(r, Err(RequestError::Rejected(404))));
    let r = settle_response(WireOutcome::Response(500, None));
    assert!(matches!(r, Err(RequestError::Rejected(500))));
}

#[test]
fn unparsable_body_is_malformed() {
    let r = settle_response(WireOutcome::Response(200, None));
    assert!(matches!(r, Err(RequestError::Malformed)));
}

#[test]
fn success_passes_the_body_through() {
    let r = settle_response(WireOutcome::Response(200, Some(JsonValue::Int(3))));
    assert!(matches!(r, Ok(JsonValue::Int(3))));
    let r = settle_response(WireOutcome::Response(299, Some(JsonValue::Bool(true))));
    assert!(matches!(r, Ok(JsonValue::Bool(true))));
}

#[test]
fn missing_credential_and_connection_map_to_their_errors() {
    assert!(matches!(
        settle_response(WireOutcome::NoCredential),
        Err(RequestError::Unauthenticated)
    ));
    assert!(matches!(
        settle_response(WireOutcome::ConnectFailed),
        Err(RequestError::Unreachable)
    ));
}

#[test]
fn request_errors_leave_gateway_state_alone() {
    let mut gw = GatewayState::new();
    gw.install_standard_handlers();
    let before = gw.registry.subs.len();
    let phase_before = gw.phase;
    let _ = settle_response(WireOutcome::Response(404, None));
    let _ = settle_response(WireOutcome::Response(200, None));
    assert_eq!(gw.registry.subs.len(), before);
    assert_eq!(gw.phase, phase_before);
}

#[test]
fn absent_read_results_become_null() {
    assert!(matches!(absent_to_null(None), JsonValue::Null));
    assert!(matches!(
        absent_to_null(Some(JsonValue::Int(1))),
        JsonValue::Int(1)
    ));
    assert!(matches!(or_null(Err(RequestError::Malformed)), JsonValue::Null));
    assert!(matches!(or_null(Ok(JsonValue::Bool(false))), JsonValue::Bool(false)));
}

#[test]
fn event_type_parsing_is_case_sensitive_and_exact() {
    assert_eq!(parse_event_type(&"Create".to_string()), Some(EventType::Create));
    assert_eq!(parse_event_type(&"Update".to_string()), Some(EventType::Update));
    assert_eq!(parse_event_type(&"Delete".to_string()), Some(EventType::Delete));
    assert_eq!(parse_event_type(&"delete".to_string()), None);
    assert_eq!(parse_event_type(&"DELETE".to_string()), None);
    assert_eq!(parse_event_type(&"".to_string()), None);
}

#[test]
fn methods_spell_their_wire_verbs() {
    assert_eq!(method_token(Method::Get), "GET");
    assert_eq!(method_token(Method::Put), "PUT");
    assert_eq!(method_token(Method::Post), "POST");
}

fn frame(uri: &str, event_type: &str, data: JsonValue) -> JsonValue {
    JsonValue::Arr(vec![
        JsonValue::Int(8),
        JsonValue::Str("OnJsonApiEvent".to_string()),
        JsonValue::Obj(vec![
            ("uri".to_string(), JsonValue::Str(uri.to_string())),
            ("eventType".to_string(), JsonValue::Str(event_type.to_string())),
            ("data".to_string(), data),
        ]),
    ])
}

#[test]
fn well_formed_frames_decode() {
    let decoded = decode_event(&frame("/lol-lobby/v2/lobby", "Delete", JsonValue::Null))
        .expect("frame should decode");
    assert_eq!(decoded.uri, "/lol-lobby/v2/lobby");
    assert_eq!(decoded.event_type, EventType::Delete);
    assert!(matches!(decoded.data, JsonValue::Null));

    let decoded = decode_event(&frame("/x", "Update", JsonValue::Int(4))).expect("should decode");
    assert_eq!(decoded.event_type, EventType::Update);
    assert!(matches!(decoded.data, JsonValue::Int(4)));
}

#[test]
fn ill_formed_frames_do_not_decode() {
    // not a list
    assert!(decode_event(&JsonValue::Int(1)).is_none());
    // too short
    assert!(decode_event(&JsonValue::Arr(vec![JsonValue::Int(8)])).is_none());
    // body is no object
    assert!(decode_event(&JsonValue::Arr(vec![
        JsonValue::Int(8),
        JsonValue::Null,
        JsonValue::Null,
    ]))
    .is_none());
    // unknown event type word, wrong case
    assert!(decode_event(&frame("/x", "update", JsonValue::Null)).is_none());
    // missing data field
    let no_data = JsonValue::Arr(vec![
        JsonValue::Int(8),
        JsonValue::Null,
        JsonValue::Obj(vec![
            ("uri".to_string(), JsonValue::Str("/x".to_string())),
            ("eventType".to_string(), JsonValue::Str("Update".to_string())),
        ]),
    ]);
    assert!(decode_event(&no_data).is_none());
}

#[test]
fn lookup_reads_object_fields_only() {
    let obj = JsonValue::Obj(vec![
        ("a".to_string(), JsonValue::Int(1)),
        ("b".to_string(), JsonValue::Int(2)),
        ("a".to_string(), JsonValue::Int(3)),
    ]);
    assert!(matches!(obj.lookup(&"a".to_string()), Some(JsonValue::Int(1))));
    assert!(matches!(obj.lookup(&"b".to_string()), Some(JsonValue::Int(2))));
    assert!(obj.lookup(&"c".to_string()).is_none());
    assert!(JsonValue::Int(9).lookup(&"a".to_string()).is_none());
}

#[test]
fn duplicate_copies_the_whole_tree() {
    let v = JsonValue::Obj(vec![(
        "xs".to_string(),
        JsonValue::Arr(vec![JsonValue::Int(1), JsonValue::Str("two".to_string())]),
    )]);
    let copy = v.duplicate();
    match (copy, v) {
        (JsonValue::Obj(c), JsonValue::Obj(o)) => {
            assert_eq!(c.len(), o.len());
            assert_eq!(c[0].0, o[0].0);
            match (&c[0].1, &o[0].1) {
                (JsonValue::Arr(ca), JsonValue::Arr(oa)) => {
                    assert_eq!(ca.len(), oa.len());
                    assert!(matches!(ca[0], JsonValue::Int(1)));
                    assert!(matches!(&ca[1], JsonValue::Str(s) if s == "two"));
                    assert!(matches!(oa[0], JsonValue::Int(1)));
                },
                _ => panic!("expected arrays"),
            }
        },
        _ => panic!("expected objects"),
    }
}
