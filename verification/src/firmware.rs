//! Device side: configuration, sensor, control loop, status, storage and network.

pub mod bounded;
pub mod config;
pub mod controller;
pub mod document_laws;
pub mod error;
pub mod metrics;
pub mod network;
pub mod profile;
pub mod sensor;
pub mod shared;
pub mod status;
pub mod storage;
