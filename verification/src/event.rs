//! Events, selectors and outbound notifications.
//!
//! An inbound event is a resource change pushed by the control plane:
//! a URI naming the resource, a change kind, and an untyped payload. A
//! selector routes events to subscribers by exact URI equality — no
//! wildcards; a selector may name several URIs so that one subscriber can
//! watch a resource and a related signal (the lobby roster and the lobby's
//! own deletion) with one shared state.
//!
//! `Emit` is everything the gateway sends outward through the host's
//! notifier: the `"lobby"` roster signal, the `"gameflow"` pass-through
//! signal, diagnostics for contained data-integrity faults, and traces
//! from observing subscribers.

use vstd::prelude::*;

use crate::json::{
    json_model, json_model_list, lemma_json_model_list_index, obj_get, JsonModel, JsonValue,
};

verus! {

/// The change kind of an inbound event. On the wire it is a case-sensitive
/// string; `parse_event_type` is the one place that comparison happens.
#[derive(Clone, Copy, PartialEq, Eq, Structural, Debug)]
pub enum EventType {
    Create,
    Update,
    Delete,
}

/// The string an event type is written as on the wire.
pub open spec fn event_type_text(t: EventType) -> Seq<char> {
    match t {
        EventType::Create => "Create"@,
        EventType::Update => "Update"@,
        EventType::Delete => "Delete"@,
    }
}

/// Parse the wire form of an event type: exact, case-sensitive comparison,
/// `None` for anything that is not one of the three known kinds.
pub fn parse_event_type(s: &String) -> (r: Option<EventType>)
    ensures
        r matches Some(t) ==> s@ == event_type_text(t),
        r is None ==> s@ != "Create"@ && s@ != "Update"@ && s@ != "Delete"@,
{
    let create: String = "Create".to_owned();
    let update: String = "Update".to_owned();
    let delete: String = "Delete".to_owned();
    if *s == create {
        Some(EventType::Create)
    } else if *s == update {
        Some(EventType::Update)
    } else if *s == delete {
        Some(EventType::Delete)
    } else {
        None
    }
}

/// One inbound event, as the dispatcher and the handlers see it.
pub struct Event {
    pub uri: String,
    pub event_type: EventType,
    pub data: JsonValue,
}

/// The mathematical shadow of an event.
pub struct EventModel {
    pub uri: Seq<char>,
    pub event_type: EventType,
    pub data: JsonModel,
}

impl View for Event {
    type V = EventModel;

    open spec fn view(&self) -> EventModel {
        EventModel { uri: self.uri@, event_type: self.event_type, data: json_model(self.data) }
    }
}

/// What an event frame decodes to, if anything. A frame is logically the
/// tuple `(opcode, subscription label, body)`: a list of at least three
/// values whose third is an object carrying a string under `uri`, one of the
/// three event-type words under `eventType`, and the payload under `data`.
/// Anything else is no event.
pub open spec fn spec_decode_event(m: JsonModel) -> Option<EventModel> {
    match m {
        JsonModel::Arr(items) => if items.len() < 3 {
            None
        } else {
            match items[2] {
                JsonModel::Obj(pairs) => match obj_get(pairs, "uri"@) {
                    Some(JsonModel::Str(u)) => match obj_get(pairs, "eventType"@) {
                        Some(JsonModel::Str(t)) => match obj_get(pairs, "data"@) {
                            Some(d) => if t == "Create"@ {
                                Some(EventModel { uri: u, event_type: EventType::Create, data: d })
                            } else if t == "Update"@ {
                                Some(EventModel { uri: u, event_type: EventType::Update, data: d })
                            } else if t == "Delete"@ {
                                Some(EventModel { uri: u, event_type: EventType::Delete, data: d })
                            } else {
                                None
                            },
                            None => None,
                        },
                        _ => None,
                    },
                    _ => None,
                },
                _ => None,
            }
        },
        _ => None,
    }
}

/// Decode one inbound frame into an event, exactly as `spec_decode_event`
/// reads it. The read loop hands every decoded frame to the dispatcher and
/// reports the rest as undecodable, never fatal.
pub fn decode_event(frame: &JsonValue) -> (r: Option<Event>)
    ensures
        match r {
            Some(e) => spec_decode_event(json_model(*frame)) == Some(e@),
            None => spec_decode_event(json_model(*frame)) is None,
        },
{
    match frame {
        JsonValue::Arr(items) => {
            proof {
                assert(*frame == JsonValue::Arr(*items));
                lemma_json_model_list_index(items@);
            }
            if items.len() < 3 {
                return None;
            }
            let body = &items[2];
            proof {
                assert(json_model_list(items@)[2] == json_model(items@[2]));
            }
            let uri_found = body.lookup(&"uri".to_owned());
            let uri = match uri_found {
                Some(JsonValue::Str(s)) => s.clone(),
                Some(_) => {
                    return None;
                },
                None => {
                    return None;
                },
            };
            let type_found = body.lookup(&"eventType".to_owned());
            let type_text = match type_found {
                Some(JsonValue::Str(s)) => s.clone(),
                Some(_) => {
                    return None;
                },
                None => {
                    return None;
                },
            };
            let event_type = match parse_event_type(&type_text) {
                Some(t) => t,
                None => {
                    return None;
                },
            };
            proof {
                reveal_strlit("Create");
                reveal_strlit("Update");
                reveal_strlit("Delete");
                assert("Create"@[0] != "Update"@[0] && "Create"@[0] != "Delete"@[0]
                    && "Update"@[0] != "Delete"@[0]);
                assert("Create"@ != "Update"@);
                assert("Create"@ != "Delete"@);
                assert("Update"@ != "Delete"@);
                assert(type_text@ == event_type_text(event_type));
            }
            let data_found = body.lookup(&"data".to_owned());
            let data = match data_found {
                Some(d) => d.duplicate(),
                None => {
                    return None;
                },
            };
            Some(Event { uri, event_type, data })
        },
        _ => None,
    }
}

/// Which events a subscription wants: an event matches when its URI equals
/// one of the selector's URIs. Equality is structural and exact.
pub struct EventSelector {
    pub uris: Vec<String>,
}

/// The selector's URIs, as sequences of characters.
pub open spec fn selector_model(sel: EventSelector) -> Seq<Seq<char>> {
    sel.uris@.map_values(|u: String| u@)
}

impl View for EventSelector {
    type V = Seq<Seq<char>>;

    open spec fn view(&self) -> Seq<Seq<char>> {
        selector_model(*self)
    }
}

/// Whether a selector matches an event URI: exact equality against one of
/// the selector's URIs.
pub open spec fn spec_selector_matches(sel: Seq<Seq<char>>, uri: Seq<char>) -> bool {
    exists|i: int| 0 <= i < sel.len() && sel[i] == uri
}

impl EventSelector {
    /// Decide whether this selector wants events for `uri`.
    pub fn matches(&self, uri: &String) -> (r: bool)
        ensures
            r == spec_selector_matches(self@, uri@),
    {
        let n = self.uris.len();
        let mut i: usize = 0;
        while i < n
            invariant
                n == self.uris@.len(),
                0 <= i <= n,
                forall|j: int| 0 <= j < i ==> (#[trigger] self.uris@[j])@ != uri@,
            decreases n - i,
        {
            if self.uris[i] == *uri {
                assert(self@[i as int] == uri@);
                return true;
            }
            i += 1;
        }
        assert forall|j: int| 0 <= j < self@.len() implies #[trigger] self@[j] != uri@ by {
            assert(self@[j] == self.uris@[j]@);
        }
        false
    }

    /// A selector for exactly one URI.
    pub fn exact(uri: String) -> (r: EventSelector)
        ensures
            r@ =~= seq![uri@],
    {
        let mut uris: Vec<String> = Vec::new();
        uris.push(uri);
        EventSelector { uris }
    }
}

/// One outbound notification: everything the gateway asks the host's
/// notifier to emit.
pub enum Emit {
    /// The `"lobby"` signal: the roster as an ordered sequence of member
    /// identifiers.
    Lobby(Vec<String>),
    /// The `"gameflow"` signal: the raw payload of a gameflow-phase update.
    Gameflow(JsonValue),
    /// A contained fault, reported instead of propagated: a malformed record,
    /// a payload of an unexpected shape.
    Diagnostic(String),
    /// An observing subscriber's record of the URI of an event it saw.
    Trace(String),
}

/// The mathematical shadow of a notification.
pub enum EmitModel {
    Lobby(Seq<Seq<char>>),
    Gameflow(JsonModel),
    Diagnostic(Seq<char>),
    Trace(Seq<char>),
}

impl View for Emit {
    type V = EmitModel;

    open spec fn view(&self) -> EmitModel {
        match *self {
            Emit::Lobby(members) => EmitModel::Lobby(members@.map_values(|m: String| m@)),
            Emit::Gameflow(v) => EmitModel::Gameflow(json_model(v)),
            Emit::Diagnostic(s) => EmitModel::Diagnostic(s@),
            Emit::Trace(s) => EmitModel::Trace(s@),
        }
    }
}

/// The models of a list of notifications, in order.
pub open spec fn emits_model(emits: Seq<Emit>) -> Seq<EmitModel> {
    emits.map_values(|e: Emit| e@)
}

} // verus!
