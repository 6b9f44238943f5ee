//! Network side of the device.

pub mod exchange;
pub mod http;
pub mod http_laws;
pub mod mdns;
pub mod ntp;
pub mod response;
pub mod udp;
pub mod wifi;
