//! The parts of the device that answer controllers and hand out received audio.

pub mod channel;
pub mod samples_collector;
pub mod cmc_server;
pub mod interface_monitor;
pub mod info_mcast_server;
