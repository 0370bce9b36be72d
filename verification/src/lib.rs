//! Runtime and protocol logic for a node in a message-driven distributed
//! cluster: a line-oriented envelope codec, a gossip broadcast engine with
//! per-neighbor acknowledgment tracking, and a grow-only counter engine that
//! commits through compare-and-swap against an external key-value service.

pub mod broadcast;
pub mod codec;
pub mod echo;
pub mod grow_only;
pub mod json;
pub mod msg;
pub mod runtime;
pub mod unique_ids;

pub use json::{Json, Jv};
pub use msg::{
    EmptyBody, Error, ErrorCode, ErrorV, Init, InitOk, InitV, Message, MsgId, MsgV, NodeId,
    Payload,
};
