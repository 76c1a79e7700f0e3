//! A verified core for a local client-protocol gateway: it bridges a desktop
//! host to a game client's local control plane, relaying typed request calls
//! and demultiplexing one inbound event stream to many ordered subscribers,
//! with derived state (a live lobby roster) folded out of the raw events.

pub mod channel;
pub mod event;
pub mod gateway;
pub mod handler;
pub mod json;
pub mod registry;
pub mod request;
