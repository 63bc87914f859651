//! The shapes of the messages that the device exchanges.

pub mod device_report;
pub mod heartbeat;
pub mod mcast;
pub mod proto_cmc;
