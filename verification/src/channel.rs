//! The event channel's connection lifecycle, as a pure state machine.
//!
//! The channel owns exactly one persistent connection to the event stream.
//! The transport work itself (opening a socket, authenticating, reading
//! frames) is the host's job; this module decides, from the current phase and
//! what the transport reported, which phase comes next and what the host must
//! do. Keeping the decisions pure is what makes idempotent bring-up provable:
//! `lemma_concurrent_initialize_once` shows that any number of `initialize`
//! calls, however they interleave with transport events, open at most one
//! connection.

use vstd::prelude::*;

verus! {

/// Lifecycle phase of the persistent event-stream connection.
#[derive(Clone, Copy, PartialEq, Eq, Structural, Debug)]
pub enum ChannelPhase {
    /// No bring-up has been requested yet.
    NotStarted,
    /// A connection attempt is owed or in flight (also the reconnect state).
    Connecting,
    /// The transport is connected; the credential is being presented.
    Authenticated,
    /// Frames are being read and dispatched.
    Streaming,
    /// Terminal: shut down, or the credential was rejected.
    Closed,
}

/// What the transport reported back to the channel.
#[derive(Clone, Copy, PartialEq, Eq, Structural, Debug)]
pub enum ChannelEvent {
    ConnectSucceeded,
    ConnectFailed,
    AuthSucceeded,
    AuthFailed,
    ConnectionLost,
    Shutdown,
}

/// What the host must do next on the channel's behalf.
#[derive(Clone, Copy, PartialEq, Eq, Structural, Debug)]
pub enum ChannelAction {
    /// Open (or re-open) the transport connection.
    OpenConnection,
    /// Present the credential on the fresh connection.
    Authenticate,
    /// Enter the read loop and hand each decoded frame to the dispatcher.
    ReadFrames,
    /// Report terminal authentication failure to the initializer.
    ReportAuthFailure,
    /// Nothing is owed.
    Idle,
}

/// The transition table of the channel:
/// `NotStarted -> Connecting -> Authenticated -> Streaming`, with connection
/// loss looping back to `Connecting` (reconnect with the same credential) and
/// authentication failure terminal for this channel instance. An event that
/// does not apply to the current phase changes nothing.
pub open spec fn spec_channel_step(phase: ChannelPhase, ev: ChannelEvent) -> (ChannelPhase, ChannelAction) {
    match (phase, ev) {
        (_, ChannelEvent::Shutdown) => (ChannelPhase::Closed, ChannelAction::Idle),
        (ChannelPhase::Connecting, ChannelEvent::ConnectSucceeded) => (
            ChannelPhase::Authenticated,
            ChannelAction::Authenticate,
        ),
        (ChannelPhase::Connecting, ChannelEvent::ConnectFailed) => (
            ChannelPhase::Connecting,
            ChannelAction::OpenConnection,
        ),
        (ChannelPhase::Authenticated, ChannelEvent::AuthSucceeded) => (
            ChannelPhase::Streaming,
            ChannelAction::ReadFrames,
        ),
        (ChannelPhase::Authenticated, ChannelEvent::AuthFailed) => (
            ChannelPhase::Closed,
            ChannelAction::ReportAuthFailure,
        ),
        (ChannelPhase::Streaming, ChannelEvent::ConnectionLost) => (
            ChannelPhase::Connecting,
            ChannelAction::OpenConnection,
        ),
        (_, _) => (phase, ChannelAction::Idle),
    }
}

/// Apply one transport report to the channel.
pub fn channel_step(phase: ChannelPhase, ev: ChannelEvent) -> (r: (ChannelPhase, ChannelAction))
    ensures
        r == spec_channel_step(phase, ev),
{
    match (phase, ev) {
        (_, ChannelEvent::Shutdown) => (ChannelPhase::Closed, ChannelAction::Idle),
        (ChannelPhase::Connecting, ChannelEvent::ConnectSucceeded) => (
            ChannelPhase::Authenticated,
            ChannelAction::Authenticate,
        ),
        (ChannelPhase::Connecting, ChannelEvent::ConnectFailed) => (
            ChannelPhase::Connecting,
            ChannelAction::OpenConnection,
        ),
        (ChannelPhase::Authenticated, ChannelEvent::AuthSucceeded) => (
            ChannelPhase::Streaming,
            ChannelAction::ReadFrames,
        ),
        (ChannelPhase::Authenticated, ChannelEvent::AuthFailed) => (
            ChannelPhase::Closed,
            ChannelAction::ReportAuthFailure,
        ),
        (ChannelPhase::Streaming, ChannelEvent::ConnectionLost) => (
            ChannelPhase::Connecting,
            ChannelAction::OpenConnection,
        ),
        (_, _) => (phase, ChannelAction::Idle),
    }
}

/// What one `initialize` call decides: whether this caller must actually
/// start a connection, and the phase the channel is in afterwards.
pub open spec fn spec_begin_initialize(phase: ChannelPhase) -> (ChannelPhase, bool) {
    if phase == ChannelPhase::NotStarted {
        (ChannelPhase::Connecting, true)
    } else {
        (phase, false)
    }
}

/// The atomically-checked guard behind `initialize`: run under the state
/// lock, it claims the one `NotStarted -> Connecting` transition for exactly
/// one caller. Every call returns (there is no failure path here); a caller
/// that gets `false` back owes no work, because bring-up is already past
/// `NotStarted`.
pub fn begin_initialize(phase: ChannelPhase) -> (r: (ChannelPhase, bool))
    ensures
        r == spec_begin_initialize(phase),
        r.1 <==> phase == ChannelPhase::NotStarted,
        r.1 ==> r.0 == ChannelPhase::Connecting,
        !r.1 ==> r.0 == phase,
{
    if phase == ChannelPhase::NotStarted {
        (ChannelPhase::Connecting, true)
    } else {
        (phase, false)
    }
}

/// One operation in a run of the gateway, as the idempotence law sees it:
/// either some caller invokes `initialize`, or the transport reports an event.
#[derive(Clone, Copy, PartialEq, Eq, Structural, Debug)]
pub enum GatewayOp {
    Init,
    Channel(ChannelEvent),
}

/// The phase after one operation.
pub open spec fn spec_op_phase(phase: ChannelPhase, op: GatewayOp) -> ChannelPhase {
    match op {
        GatewayOp::Init => spec_begin_initialize(phase).0,
        GatewayOp::Channel(ev) => spec_channel_step(phase, ev).0,
    }
}

/// The phase after a whole run of operations.
pub open spec fn spec_run_phase(phase: ChannelPhase, ops: Seq<GatewayOp>) -> ChannelPhase
    decreases ops.len(),
{
    if ops.len() == 0 {
        phase
    } else {
        spec_run_phase(spec_op_phase(phase, ops[0]), ops.drop_first())
    }
}

/// How many operations of the run actually started a connection, that is,
/// how many `initialize` calls found the channel `NotStarted`.
pub open spec fn spec_starts_in_run(phase: ChannelPhase, ops: Seq<GatewayOp>) -> nat
    decreases ops.len(),
{
    if ops.len() == 0 {
        0nat
    } else {
        let here: nat = if ops[0] == GatewayOp::Init && phase == ChannelPhase::NotStarted {
            1nat
        } else {
            0nat
        };
        here + spec_starts_in_run(spec_op_phase(phase, ops[0]), ops.drop_first())
    }
}

/// Once the channel has left `NotStarted`, no operation brings it back.
pub proof fn lemma_never_back_to_not_started(phase: ChannelPhase, op: GatewayOp)
    requires
        phase != ChannelPhase::NotStarted,
    ensures
        spec_op_phase(phase, op) != ChannelPhase::NotStarted,
{
}

/// A run that begins past `NotStarted` starts no connection at all.
pub proof fn lemma_no_starts_past_not_started(phase: ChannelPhase, ops: Seq<GatewayOp>)
    requires
        phase != ChannelPhase::NotStarted,
    ensures
        spec_starts_in_run(phase, ops) == 0,
    decreases ops.len(),
{
    if ops.len() > 0 {
        lemma_never_back_to_not_started(phase, ops[0]);
        lemma_no_starts_past_not_started(spec_op_phase(phase, ops[0]), ops.drop_first());
    }
}

/// Idempotent bring-up: in any run whatsoever — any number of `initialize`
/// calls, interleaved anywhere with transport events — at most one operation
/// starts a connection.
pub proof fn lemma_initialize_idempotent(phase: ChannelPhase, ops: Seq<GatewayOp>)
    ensures
        spec_starts_in_run(phase, ops) <= 1,
    decreases ops.len(),
{
    if ops.len() > 0 {
        let next = spec_op_phase(phase, ops[0]);
        if ops[0] == GatewayOp::Init && phase == ChannelPhase::NotStarted {
            lemma_no_starts_past_not_started(next, ops.drop_first());
        } else {
            lemma_initialize_idempotent(next, ops.drop_first());
        }
    }
}

/// A run of nothing but `initialize` calls moves a channel that is already
/// past `NotStarted` nowhere.
pub proof fn lemma_init_run_keeps_phase(phase: ChannelPhase, ops: Seq<GatewayOp>)
    requires
        phase != ChannelPhase::NotStarted,
        forall|i: int| 0 <= i < ops.len() ==> ops[i] == GatewayOp::Init,
    ensures
        spec_run_phase(phase, ops) == phase,
    decreases ops.len(),
{
    if ops.len() > 0 {
        assert(ops[0] == GatewayOp::Init);
        lemma_init_run_keeps_phase(phase, ops.drop_first());
    }
}

/// Concurrent bring-up, exactly: any positive number of `initialize` calls
/// against a fresh channel results in exactly one `NotStarted -> Connecting`
/// transition, and leaves the channel `Connecting`. Each of those calls
/// returns (see `begin_initialize`: it is total), so N callers get N
/// successful returns and one connection.
pub proof fn lemma_concurrent_initialize_once(ops: Seq<GatewayOp>)
    requires
        ops.len() > 0,
        forall|i: int| 0 <= i < ops.len() ==> ops[i] == GatewayOp::Init,
    ensures
        spec_starts_in_run(ChannelPhase::NotStarted, ops) == 1,
        spec_run_phase(ChannelPhase::NotStarted, ops) == ChannelPhase::Connecting,
{
    assert(ops[0] == GatewayOp::Init);
    lemma_no_starts_past_not_started(
        spec_op_phase(ChannelPhase::NotStarted, ops[0]),
        ops.drop_first(),
    );
    lemma_init_run_keeps_phase(ChannelPhase::Connecting, ops.drop_first());
}

} // verus!
