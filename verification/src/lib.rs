//! Verified core of a rewrite proxy for legacy WebPush notifications: what it
//! decides and computes, apart from sockets, clocks and the log.

pub mod codec;
pub mod curve;
pub mod endpoint;
pub mod fcm;
pub mod fold;
pub mod header;
pub mod net;
pub mod proxy;
pub mod recent;
pub mod text;
pub mod vapid;
