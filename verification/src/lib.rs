//! Signaling and relay peer for an overlay of peers that upgrade to direct
//! data channels: signed envelopes, the message schema and its JSON form, the
//! routing and connection tables, and the dispatcher's decisions.

pub mod codec;
pub mod config;
pub mod demux;
pub mod dispatch;
pub mod envelope;
pub mod identity;
pub mod inbox;
pub mod json;
pub mod messages;
pub mod routing;
pub mod session;
pub mod text;
