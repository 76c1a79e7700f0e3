use lcu_gateway::event::{Emit, Event, EventSelector, EventType};
use lcu_gateway::handler::{EventProbe, GameflowForwarder, Handler, RosterReducer};
use lcu_gateway::registry::Registry;

fn member(id: &str) -> lcu_gateway::json::JsonValue {
    lcu_gateway::json::JsonValue::Obj(vec![(
        "puuid".to_string(),
        lcu_gateway::json::JsonValue::Str(id.to_string()),
    )])
}

fn members_event(ids: &[&str]) -> Event {
    Event {
        uri: "/lol-lobby/v2/lobby/members".to_string(),
        event_type: EventType::Update,
        data: lcu_gateway::json::JsonValue::Arr(ids.iter().map(|i| member(i)).collect()),
    }
}

fn lobby_selector() -> EventSelector {
    EventSelector {
        uris: vec![
            "/lol-lobby/v2/lobby/members".to_string(),
            "/lol-lobby/v2/lobby".to_string(),
        ],
    }
}

fn lobby_emits(emits: &[Emit]) -> Vec<Vec<String>> {
    emits
        .iter()
        .filter_map(|e| match e {
            Emit::Lobby(ids) => Some(ids.clone()),
            _ => None,
        })
        .collect()
}

fn diagnostic_count(emits: &[Emit]) -> usize {
    emits
        .iter()
        .filter(|e| matches!(e, Emit::Diagnostic(_)))
        .count()
}

#[test]
fn roster_replaces_whole_snapshot() {
    let mut reg = Registry::new();
    reg.subscribe(lobby_selector(), Handler::Roster(RosterReducer::new()));

    let first = reg.dispatch(&members_event(&["p1", "p2", "p3"]));
    assert_eq!(
        lobby_emits(&first),
        vec![vec!["p1".to_string(), "p2".to_string(), "p3".to_string()]]
    );

    let second = reg.dispatch(&members_event(&["p1", "p3"]));
    assert_eq!(
        lobby_emits(&second),
        vec![vec!["p1".to_string(), "p3".to_string()]]
    );
}

#[test]
fn roster_clears_on_delete_whatever_was_held() {
    let mut reg = Registry::new();
    reg.subscribe(lobby_selector(), Handler::Roster(RosterReducer::new()));
    reg.dispatch(&members_event(&["p1", "p2"]));

    let delete = Event {
        uri: "/lol-lobby/v2/lobby".to_string(),
        event_type: EventType::Delete,
        data: lcu_gateway::json::JsonValue::Null,
    };
    let emits = reg.dispatch(&delete);
    assert_eq!(lobby_emits(&emits), vec![Vec::<String>::new()]);
}

#[test]
fn malformed_record_is_skipped_and_reported() {
    let mut reg = Registry::new();
    reg.subscribe(lobby_selector(), Handler::Roster(RosterReducer::new()));

    let bad = lcu_gateway::json::JsonValue::Obj(vec![(
        "displayName".to_string(),
        lcu_gateway::json::JsonValue::Str("who".to_string()),
    )]);
    let event = Event {
        uri: "/lol-lobby/v2/lobby/members".to_string(),
        event_type: EventType::Update,
        data: lcu_gateway::json::JsonValue::Arr(vec![member("p1"), bad, member("p3")]),
    };
    let emits = reg.dispatch(&event);
    assert_eq!(
        lobby_emits(&emits),
        vec![vec!["p1".to_string(), "p3".to_string()]]
    );
    assert_eq!(diagnostic_count(&emits), 1);
}

#[test]
fn non_list_payload_reports_and_keeps_roster() {
    let mut reg = Registry::new();
    reg.subscribe(lobby_selector(), Handler::Roster(RosterReducer::new()));
    reg.dispatch(&members_event(&["p1"]));

    let odd = Event {
        uri: "/lol-lobby/v2/lobby/members".to_string(),
        event_type: EventType::Update,
        data: lcu_gateway::json::JsonValue::Int(7),
    };
    let emits = reg.dispatch(&odd);
    assert!(lobby_emits(&emits).is_empty());
    assert_eq!(diagnostic_count(&emits), 1);

    let next = reg.dispatch(&members_event(&["p2"]));
    assert_eq!(lobby_emits(&next), vec![vec!["p2".to_string()]]);
}

#[test]
fn registration_order_is_invocation_order() {
    let mut reg = Registry::new();
    let sel = EventSelector { uris: vec!["/resource".to_string()] };
    reg.subscribe(
        EventSelector { uris: vec!["/resource".to_string()] },
        Handler::Probe(EventProbe { remaining: 10 }),
    );
    reg.subscribe(sel, Handler::Gameflow(GameflowForwarder {}));

    let event = Event {
        uri: "/resource".to_string(),
        event_type: EventType::Update,
        data: lcu_gateway::json::JsonValue::Bool(true),
    };
    let emits = reg.dispatch(&event);
    assert_eq!(emits.len(), 2);
    assert!(matches!(&emits[0], Emit::Trace(u) if u == "/resource"));
    assert!(matches!(&emits[1], Emit::Gameflow(_)));
}

#[test]
fn unsubscribing_handler_sees_triggering_event_and_not_the_next() {
    let mut reg = Registry::new();
    let sel = EventSelector { uris: vec!["/resource".to_string()] };
    reg.subscribe(sel, Handler::Probe(EventProbe { remaining: 1 }));

    let event = Event {
        uri: "/resource".to_string(),
        event_type: EventType::Update,
        data: lcu_gateway::json::JsonValue::Null,
    };
    let first = reg.dispatch(&event);
    assert_eq!(first.len(), 1);
    assert!(matches!(&first[0], Emit::Trace(_)));
    assert_eq!(reg.subs.len(), 0);

    let second = reg.dispatch(&event);
    assert!(second.is_empty());
}

#[test]
fn probe_budget_counts_down_per_observed_event() {
    let mut reg = Registry::new();
    let sel = EventSelector { uris: vec!["/resource".to_string()] };
    reg.subscribe(sel, Handler::Probe(EventProbe { remaining: 2 }));

    let event = Event {
        uri: "/resource".to_string(),
        event_type: EventType::Update,
        data: lcu_gateway::json::JsonValue::Null,
    };
    assert_eq!(reg.dispatch(&event).len(), 1);
    assert_eq!(reg.subs.len(), 1);
    assert_eq!(reg.dispatch(&event).len(), 1);
    assert_eq!(reg.subs.len(), 0);
}

#[test]
fn selector_matching_is_exact() {
    let mut reg = Registry::new();
    let sel = EventSelector { uris: vec!["/lol-lobby/v2/lobby".to_string()] };
    reg.subscribe(sel, Handler::Probe(EventProbe { remaining: 10 }));

    let near_miss = Event {
        uri: "/lol-lobby/v2/lobby/members".to_string(),
        event_type: EventType::Update,
        data: lcu_gateway::json::JsonValue::Null,
    };
    assert!(reg.dispatch(&near_miss).is_empty());

    let exact = Event {
        uri: "/lol-lobby/v2/lobby".to_string(),
        event_type: EventType::Update,
        data: lcu_gateway::json::JsonValue::Null,
    };
    assert_eq!(reg.dispatch(&exact).len(), 1);
}

#[test]
fn unsubscribe_removes_only_the_identified_subscription() {
    let mut reg = Registry::new();
    let a = reg.subscribe(
        EventSelector { uris: vec!["/a".to_string()] },
        Handler::Probe(EventProbe { remaining: 10 }),
    );
    let b = reg.subscribe(
        EventSelector { uris: vec!["/b".to_string()] },
        Handler::Probe(EventProbe { remaining: 10 }),
    );
    assert!(a < b);
    assert!(reg.unsubscribe(a));
    assert_eq!(reg.subs.len(), 1);
    assert_eq!(reg.subs[0].id, b);
    assert!(!reg.unsubscribe(a));
}

#[test]
fn independent_handlers_share_a_selector() {
    let mut reg = Registry::new();
    let uri = "/lol-lobby/v2/lobby/members".to_string();
    reg.subscribe(
        EventSelector { uris: vec![uri.clone()] },
        Handler::Probe(EventProbe { remaining: 10 }),
    );
    reg.subscribe(lobby_selector(), Handler::Roster(RosterReducer::new()));

    let emits = reg.dispatch(&members_event(&["p1"]));
    assert_eq!(emits.len(), 2);
    assert!(matches!(&emits[0], Emit::Trace(u) if *u == uri));
    assert!(matches!(&emits[1], Emit::Lobby(ids) if ids == &vec!["p1".to_string()]));
}
