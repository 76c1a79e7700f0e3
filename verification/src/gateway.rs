//! The one shared aggregate the host holds.
//!
//! `GatewayState` owns the event channel's phase and the subscription
//! registry. The host keeps exactly one instance behind a mutual-exclusion
//! lock and calls in concurrently; each method here is the short, pure span
//! that runs under that lock. Network work never happens here — the host
//! performs the returned actions with the lock released, so a slow call
//! cannot block an unrelated caller (request settling, in `request`, touches
//! no part of this state at all).

use vstd::prelude::*;

use crate::channel::{
    spec_begin_initialize, spec_channel_step, begin_initialize, channel_step, ChannelAction,
    ChannelEvent, ChannelPhase,
};
use crate::event::{emits_model, Emit, Event, EventSelector};
use crate::handler::{GameflowForwarder, Handler, HandlerModel, RosterReducer};
use crate::registry::{contains_id, remove_id, spec_dispatch, Registry, SubModel};

verus! {

/// The gateway's whole mutable state: channel phase and subscriptions.
/// Exactly one instance exists per process.
pub struct GatewayState {
    pub phase: ChannelPhase,
    pub registry: Registry,
}

impl GatewayState {
    /// Well-formedness of the aggregate.
    pub open spec fn wf(&self) -> bool {
        self.registry.wf()
    }

    /// A fresh gateway: nothing started, nobody subscribed.
    pub fn new() -> (r: GatewayState)
        ensures
            r.wf(),
            r.phase == ChannelPhase::NotStarted,
            r.registry@ =~= Seq::<SubModel>::empty(),
            r.registry.next_id == 0,
    {
        GatewayState { phase: ChannelPhase::NotStarted, registry: Registry::new() }
    }

    /// Bring the event channel up, idempotently: the caller that finds the
    /// channel `NotStarted` gets `true` back and owes the one connection
    /// attempt; every other caller, however the calls interleave, gets
    /// `false` and owes nothing. Every call returns.
    pub fn initialize(&mut self) -> (started: bool)
        requires
            old(self).wf(),
        ensures
            final(self).wf(),
            final(self).registry == old(self).registry,
            (final(self).phase, started) == spec_begin_initialize(old(self).phase),
    {
        let (phase, started) = begin_initialize(self.phase);
        self.phase = phase;
        started
    }

    /// Fold one transport report into the channel phase and learn what the
    /// host must do next.
    pub fn channel_event(&mut self, ev: ChannelEvent) -> (action: ChannelAction)
        requires
            old(self).wf(),
        ensures
            final(self).wf(),
            final(self).registry == old(self).registry,
            (final(self).phase, action) == spec_channel_step(old(self).phase, ev),
    {
        let (phase, action) = channel_step(self.phase, ev);
        self.phase = phase;
        action
    }

    /// Register a handler; see `Registry::subscribe`.
    pub fn subscribe(&mut self, selector: EventSelector, handler: Handler) -> (id: u64)
        requires
            old(self).wf(),
            old(self).registry.next_id < u64::MAX,
        ensures
            final(self).wf(),
            final(self).phase == old(self).phase,
            id == old(self).registry.next_id,
            final(self).registry.next_id == id + 1,
            final(self).registry@ == old(self).registry@.push(
                SubModel { id, selector: selector@, handler: handler@ },
            ),
    {
        self.registry.subscribe(selector, handler)
    }

    /// Drop a subscription; see `Registry::unsubscribe`.
    pub fn unsubscribe(&mut self, id: u64) -> (found: bool)
        requires
            old(self).wf(),
        ensures
            final(self).wf(),
            final(self).phase == old(self).phase,
            final(self).registry.next_id == old(self).registry.next_id,
            found == contains_id(old(self).registry@, id),
            final(self).registry@ == remove_id(old(self).registry@, id),
    {
        self.registry.unsubscribe(id)
    }

    /// Deliver one inbound event to every matching subscriber, in
    /// registration order; see `Registry::dispatch`. The read loop calls this
    /// for event N and does not read event N+1 until it returns.
    pub fn dispatch_event(&mut self, e: &Event) -> (emits: Vec<Emit>)
        requires
            old(self).wf(),
        ensures
            final(self).wf(),
            final(self).phase == old(self).phase,
            final(self).registry.next_id == old(self).registry.next_id,
            final(self).registry@ == spec_dispatch(old(self).registry@, e@).0,
            emits_model(emits@) == spec_dispatch(old(self).registry@, e@).1,
    {
        self.registry.dispatch(e)
    }

    /// Install the two standing subscribers: the gameflow forwarder on the
    /// gameflow-phase resource, then the roster reducer watching the lobby
    /// membership resource and the lobby resource itself (whose deletion
    /// clears the roster).
    pub fn install_standard_handlers(&mut self)
        requires
            old(self).wf(),
            old(self).registry.next_id < u64::MAX - 1,
        ensures
            final(self).wf(),
            final(self).phase == old(self).phase,
            final(self).registry@ == old(self).registry@.push(
                SubModel {
                    id: old(self).registry.next_id,
                    selector: seq!["/lol-gameflow/v1/gameflow-phase"@],
                    handler: HandlerModel::Gameflow,
                },
            ).push(
                SubModel {
                    id: (old(self).registry.next_id + 1) as u64,
                    selector: seq![
                        "/lol-lobby/v2/lobby/members"@,
                        "/lol-lobby/v2/lobby"@,
                    ],
                    handler: HandlerModel::Roster(Seq::<Seq<char>>::empty()),
                },
            ),
    {
        let gameflow_sel = EventSelector::exact("/lol-gameflow/v1/gameflow-phase".to_owned());
        self.subscribe(gameflow_sel, Handler::Gameflow(GameflowForwarder {}));
        let mut lobby_uris: Vec<String> = Vec::new();
        lobby_uris.push("/lol-lobby/v2/lobby/members".to_owned());
        lobby_uris.push("/lol-lobby/v2/lobby".to_owned());
        let lobby_sel = EventSelector { uris: lobby_uris };
        proof {
            assert(lobby_sel@ =~= seq!["/lol-lobby/v2/lobby/members"@, "/lol-lobby/v2/lobby"@]);
        }
        self.subscribe(lobby_sel, Handler::Roster(RosterReducer::new()));
        proof {
            assert(final(self).registry@ =~= old(self).registry@.push(
                SubModel {
                    id: old(self).registry.next_id,
                    selector: seq!["/lol-gameflow/v1/gameflow-phase"@],
                    handler: HandlerModel::Gameflow,
                },
            ).push(
                SubModel {
                    id: (old(self).registry.next_id + 1) as u64,
                    selector: seq!["/lol-lobby/v2/lobby/members"@, "/lol-lobby/v2/lobby"@],
                    handler: HandlerModel::Roster(Seq::<Seq<char>>::empty()),
                },
            ));
        }
    }
}

} // verus!
