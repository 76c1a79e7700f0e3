//! Subscribers and their per-event behaviour.
//!
//! Every subscriber exposes one capability: `handle(event)` returns a flow
//! directive — keep the subscription or drop it — together with the
//! notifications the event provoked. The subscribers the gateway ships are a
//! closed set of variants under `Handler`, each with a mathematical step
//! function, so dispatch can be specified as a fold.
//!
//! `RosterReducer` is the derived-state subscriber: it folds membership
//! snapshots into a roster with full-replace semantics, clears the roster
//! when the watched resource is deleted, and contains malformed member
//! records as diagnostics instead of aborting the read loop.

use vstd::prelude::*;

use crate::event::{emits_model, Emit, EmitModel, Event, EventModel, EventType};
use crate::json::{
    json_model, json_model_list, lemma_json_model_list_index, obj_get, JsonModel, JsonValue,
};

verus! {

/// A handler's authoritative instruction to the dispatcher: keep invoking it,
/// or remove its subscription.
#[derive(Clone, Copy, PartialEq, Eq, Structural, Debug)]
pub enum FlowDirective {
    Continue,
    Unsubscribe,
}

/// The object key under which a member record carries its opaque identifier.
pub open spec fn member_id_key() -> Seq<char> {
    "puuid"@
}

/// The diagnostic reported for a member record that lacks an identifier.
pub open spec fn missing_id_text() -> Seq<char> {
    "member record lacks an identifier"@
}

/// The diagnostic reported for a membership payload that is not a record
/// list.
pub open spec fn bad_snapshot_text() -> Seq<char> {
    "membership payload is not a record list"@
}

/// The identifier a member record carries: the string under the identifier
/// key of a record object. Anything else — no object, no such key, a
/// non-string value — carries none.
pub open spec fn record_id(m: JsonModel) -> Option<Seq<char>> {
    match m {
        JsonModel::Obj(pairs) => match obj_get(pairs, member_id_key()) {
            Some(JsonModel::Str(s)) => Some(s),
            _ => None,
        },
        _ => None,
    }
}

/// The identifiers of a snapshot's well-formed records, in record order;
/// malformed records contribute nothing.
pub open spec fn extracted_ids(rows: Seq<JsonModel>) -> Seq<Seq<char>>
    decreases rows.len(),
{
    if rows.len() == 0 {
        Seq::empty()
    } else {
        extracted_ids(rows.drop_last()) + (match record_id(rows.last()) {
            Some(id) => seq![id],
            None => Seq::empty(),
        })
    }
}

/// One diagnostic per malformed record of a snapshot, in record order.
pub open spec fn integrity_diags(rows: Seq<JsonModel>) -> Seq<EmitModel>
    decreases rows.len(),
{
    if rows.len() == 0 {
        Seq::empty()
    } else {
        integrity_diags(rows.drop_last()) + (match record_id(rows.last()) {
            Some(_) => Seq::empty(),
            None => seq![EmitModel::Diagnostic(missing_id_text())],
        })
    }
}

/// Read the identifier out of one member record.
pub fn member_id(rec: &JsonValue) -> (r: Option<String>)
    ensures
        r matches Some(s) ==> record_id(rec@) == Some(s@),
        r is None ==> record_id(rec@) is None,
{
    let key: String = "puuid".to_owned();
    match rec.lookup(&key) {
        Some(found) => match found {
            JsonValue::Str(s) => Some(s.clone()),
            _ => None,
        },
        None => None,
    }
}

/// Extract the identifiers of a snapshot's records: the well-formed records'
/// identifiers in order, and one diagnostic for each malformed record. A
/// malformed record is skipped, never fatal.
pub fn extract_member_ids(rows: &Vec<JsonValue>) -> (r: (Vec<String>, Vec<Emit>))
    ensures
        r.0@.map_values(|s: String| s@) == extracted_ids(json_model_list(rows@)),
        emits_model(r.1@) == integrity_diags(json_model_list(rows@)),
{
    let ghost models = json_model_list(rows@);
    proof {
        lemma_json_model_list_index(rows@);
    }
    let n = rows.len();
    let mut ids: Vec<String> = Vec::new();
    let mut notes: Vec<Emit> = Vec::new();
    let mut i: usize = 0;
    while i < n
        invariant
            n == rows@.len(),
            0 <= i <= n,
            models == json_model_list(rows@),
            models.len() == n,
            forall|k: int| 0 <= k < n ==> #[trigger] models[k] == json_model(rows@[k]),
            ids@.map_values(|s: String| s@) == extracted_ids(models.take(i as int)),
            emits_model(notes@) == integrity_diags(models.take(i as int)),
        decreases n - i,
    {
        let ghost pre = models.take(i as int);
        let ghost post = models.take(i as int + 1);
        proof {
            assert(post.drop_last() =~= pre);
            assert(post.last() == models[i as int]);
        }
        match member_id(&rows[i]) {
            Some(id) => {
                ids.push(id);
                proof {
                    assert(ids@.map_values(|s: String| s@) =~= extracted_ids(post));
                    assert(emits_model(notes@) =~= integrity_diags(post));
                }
            },
            None => {
                notes.push(Emit::Diagnostic("member record lacks an identifier".to_owned()));
                proof {
                    assert(ids@.map_values(|s: String| s@) =~= extracted_ids(post));
                    assert(emits_model(notes@) =~~= integrity_diags(post));
                }
            },
        }
        i += 1;
    }
    proof {
        assert(models.take(n as int) =~= models);
    }
    (ids, notes)
}

/// Copy a list of member identifiers, value for value.
pub fn copy_ids(v: &Vec<String>) -> (r: Vec<String>)
    ensures
        r@.map_values(|s: String| s@) == v@.map_values(|s: String| s@),
{
    let n = v.len();
    let mut out: Vec<String> = Vec::new();
    let mut i: usize = 0;
    while i < n
        invariant
            n == v@.len(),
            0 <= i <= n,
            out@.len() == i,
            forall|j: int| 0 <= j < i ==> (#[trigger] out@[j])@ == v@[j]@,
        decreases n - i,
    {
        out.push(v[i].clone());
        i += 1;
    }
    proof {
        assert(out@.map_values(|s: String| s@) =~= v@.map_values(|s: String| s@));
    }
    out
}

/// The derived-state subscriber: the live roster of lobby members.
///
/// On a `Create`/`Update` delivery whose payload is a record list, it
/// replaces the whole roster with that snapshot's identifiers — no
/// incremental patching, no stale accumulation — and publishes the new
/// roster. On a `Delete` event it clears the roster and publishes the empty
/// roster, whatever was held before. A payload of any other shape changes
/// nothing and is reported as a diagnostic.
pub struct RosterReducer {
    pub members: Vec<String>,
}

impl View for RosterReducer {
    type V = Seq<Seq<char>>;

    open spec fn view(&self) -> Seq<Seq<char>> {
        self.members@.map_values(|s: String| s@)
    }
}

/// The reducer's step: the roster after the event, and what it publishes.
pub open spec fn spec_roster_step(members: Seq<Seq<char>>, e: EventModel) -> (
    Seq<Seq<char>>,
    Seq<EmitModel>,
) {
    if e.event_type == EventType::Delete {
        (Seq::empty(), seq![EmitModel::Lobby(Seq::empty())])
    } else {
        match e.data {
            JsonModel::Arr(rows) => (
                extracted_ids(rows),
                integrity_diags(rows) + seq![EmitModel::Lobby(extracted_ids(rows))],
            ),
            _ => (members, seq![EmitModel::Diagnostic(bad_snapshot_text())]),
        }
    }
}

impl RosterReducer {
    /// A reducer with an empty roster.
    pub fn new() -> (r: RosterReducer)
        ensures
            r@ =~= Seq::<Seq<char>>::empty(),
    {
        RosterReducer { members: Vec::new() }
    }

    /// Fold one event into the roster. The reducer never unsubscribes.
    pub fn handle(&mut self, e: &Event) -> (r: (FlowDirective, Vec<Emit>))
        ensures
            r.0 == FlowDirective::Continue,
            final(self)@ == spec_roster_step(old(self)@, e@).0,
            emits_model(r.1@) == spec_roster_step(old(self)@, e@).1,
    {
        if e.event_type == EventType::Delete {
            self.members = Vec::new();
            let mut emits: Vec<Emit> = Vec::new();
            emits.push(Emit::Lobby(Vec::new()));
            proof {
                assert(final(self)@ =~= spec_roster_step(old(self)@, e@).0);
                assert(emits_model(emits@) =~~= spec_roster_step(old(self)@, e@).1);
            }
            (FlowDirective::Continue, emits)
        } else {
            match &e.data {
                JsonValue::Arr(rows) => {
                    proof {
                        assert(e.data == JsonValue::Arr(*rows));
                        assert(e@.data == JsonModel::Arr(json_model_list(rows@)));
                    }
                    let (ids, mut notes) = extract_member_ids(rows);
                    let published = copy_ids(&ids);
                    self.members = ids;
                    notes.push(Emit::Lobby(published));
                    proof {
                        assert(emits_model(notes@) =~~= spec_roster_step(old(self)@, e@).1);
                    }
                    (FlowDirective::Continue, notes)
                },
                _ => {
                    let mut emits: Vec<Emit> = Vec::new();
                    emits.push(
                        Emit::Diagnostic("membership payload is not a record list".to_owned()),
                    );
                    proof {
                        assert(emits_model(emits@) =~~= spec_roster_step(old(self)@, e@).1);
                    }
                    (FlowDirective::Continue, emits)
                },
            }
        }
    }
}

/// The pass-through subscriber: forwards each event's raw payload outward as
/// the `"gameflow"` signal. Stateless; never unsubscribes.
pub struct GameflowForwarder {}

/// The forwarder's step: one `Gameflow` emission carrying the payload.
pub open spec fn spec_gameflow_step(e: EventModel) -> Seq<EmitModel> {
    seq![EmitModel::Gameflow(e.data)]
}

impl GameflowForwarder {
    /// Forward one event's payload.
    pub fn handle(&self, e: &Event) -> (r: (FlowDirective, Vec<Emit>))
        ensures
            r.0 == FlowDirective::Continue,
            emits_model(r.1@) == spec_gameflow_step(e@),
    {
        let mut emits: Vec<Emit> = Vec::new();
        emits.push(Emit::Gameflow(e.data.duplicate()));
        proof {
            assert(emits_model(emits@) =~~= spec_gameflow_step(e@));
        }
        (FlowDirective::Continue, emits)
    }
}

/// An observing subscriber with a budget: it traces the URI of each event it
/// sees and asks to be unsubscribed when the budget runs out — on the very
/// event that exhausts it, which it still observes.
pub struct EventProbe {
    pub remaining: u64,
}

/// The probe's step: trace the URI; unsubscribe on the last budgeted event.
pub open spec fn spec_probe_step(remaining: u64, e: EventModel) -> (
    u64,
    FlowDirective,
    Seq<EmitModel>,
) {
    if remaining <= 1 {
        (0u64, FlowDirective::Unsubscribe, seq![EmitModel::Trace(e.uri)])
    } else {
        ((remaining - 1) as u64, FlowDirective::Continue, seq![EmitModel::Trace(e.uri)])
    }
}

impl EventProbe {
    /// Observe one event.
    pub fn handle(&mut self, e: &Event) -> (r: (FlowDirective, Vec<Emit>))
        ensures
            final(self).remaining == spec_probe_step(old(self).remaining, e@).0,
            r.0 == spec_probe_step(old(self).remaining, e@).1,
            emits_model(r.1@) == spec_probe_step(old(self).remaining, e@).2,
    {
        let mut emits: Vec<Emit> = Vec::new();
        emits.push(Emit::Trace(e.uri.clone()));
        proof {
            assert(emits_model(emits@) =~~= seq![EmitModel::Trace(e@.uri)]);
        }
        if self.remaining <= 1 {
            self.remaining = 0;
            (FlowDirective::Unsubscribe, emits)
        } else {
            self.remaining = self.remaining - 1;
            (FlowDirective::Continue, emits)
        }
    }
}

/// One subscriber, as the registry owns it: a tagged variant over the closed
/// set of handler kinds, the moral equivalent of a boxed `handle` capability.
pub enum Handler {
    Roster(RosterReducer),
    Gameflow(GameflowForwarder),
    Probe(EventProbe),
}

/// The mathematical shadow of a handler: its kind and its state.
#[verifier::ext_equal]
pub enum HandlerModel {
    Roster(Seq<Seq<char>>),
    Gameflow,
    Probe(u64),
}

impl View for Handler {
    type V = HandlerModel;

    open spec fn view(&self) -> HandlerModel {
        match *self {
            Handler::Roster(r) => HandlerModel::Roster(r@),
            Handler::Gameflow(_) => HandlerModel::Gameflow,
            Handler::Probe(p) => HandlerModel::Probe(p.remaining),
        }
    }
}

/// Any handler's step: the handler afterwards, its directive, and what it
/// emits — the one capability dispatch relies on.
pub open spec fn spec_handler_step(h: HandlerModel, e: EventModel) -> (
    HandlerModel,
    FlowDirective,
    Seq<EmitModel>,
) {
    match h {
        HandlerModel::Roster(members) => {
            let (next, emits) = spec_roster_step(members, e);
            (HandlerModel::Roster(next), FlowDirective::Continue, emits)
        },
        HandlerModel::Gameflow => (HandlerModel::Gameflow, FlowDirective::Continue, spec_gameflow_step(e)),
        HandlerModel::Probe(remaining) => {
            let (next, directive, emits) = spec_probe_step(remaining, e);
            (HandlerModel::Probe(next), directive, emits)
        },
    }
}

impl Handler {
    /// Invoke this handler on one event.
    pub fn handle(&mut self, e: &Event) -> (r: (FlowDirective, Vec<Emit>))
        ensures
            final(self)@ == spec_handler_step(old(self)@, e@).0,
            r.0 == spec_handler_step(old(self)@, e@).1,
            emits_model(r.1@) == spec_handler_step(old(self)@, e@).2,
    {
        match self {
            Handler::Roster(reducer) => reducer.handle(e),
            Handler::Gameflow(forwarder) => forwarder.handle(e),
            Handler::Probe(probe) => probe.handle(e),
        }
    }
}

} // verus!
