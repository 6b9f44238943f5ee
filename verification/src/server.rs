//! The LAN server: it receives telemetry packets, keeps their history and
//! serves it.

pub mod config;
pub mod discovery;
pub mod http;
pub mod lttb;
pub mod packet;
pub mod persist;
pub mod store;
pub mod udp;
