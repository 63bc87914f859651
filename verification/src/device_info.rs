//! What the device says about itself.

use vstd::prelude::*;

verus! {

/// The identity of a device on the network.
pub type DeviceId = [u8; 8];

/// The fixed description of the device.
#[derive(Debug, Clone)]
pub struct DeviceInfo {
    pub process_id: u16,
    pub factory_device_id: DeviceId,
    pub vendor_string: String,
    pub manufacturer: String,
    pub model_name: String,
    pub board_name: String,
    pub firmware_version_bytes: Option<[u8; 4]>,
    pub product_version_bytes: Option<[u8; 4]>,
    pub sample_rate: u32,
    pub bits_per_sample: u8,
    pub link_speed: u16,
    pub mac_address: [u8; 6],
    pub ip_address: [u8; 4],
    pub netmask: [u8; 4],
    pub gateway: [u8; 4],
    pub info_request_port: u16,
    pub cmc_port: u16,
    pub rx_channels_count: usize,
}

} // verus!
