//! Brewster: a temperature controller for brewing, and the LAN server that
//! keeps its history.

pub mod bytes;
pub mod dns;
pub mod firmware;
pub mod server;
pub mod text;
