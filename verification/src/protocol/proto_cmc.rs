//! The messages by which a controller finds a device and registers with it.

use vstd::prelude::*;
use crate::device_info::DeviceId;

verus! {

/// The port of the protocol.
pub const PORT: u16 = 8800;

/// The start code of every response. A controller rejects a response that repeats the start code
/// of its request.
pub const RESPONSE_START_CODE: u16 = 0x1200;

/// Asks the device to describe itself.
pub const REQUEST_DEVICE_ADVERTISEMENT: u16 = 0x1001;

/// Registers a controller. The device sends it back.
pub const REGISTER_CONTROLLER: u16 = 0x3010;

/// How a device describes itself to a controller.
#[derive(Debug)]
pub struct DeviceAdvertisement {
    pub process_id: u16,
    pub factory_device_id: DeviceId,
    pub unknown1_1: u16,
    pub unknown2_0: u16,
    pub ip_address: [u8; 4],
    pub info_request_port: u16,
    pub unknown3_0: u16,
}

impl Default for DeviceAdvertisement {
    /// An advertisement in which everything is zero.
    fn default() -> (adv: Self)
        ensures
            adv.process_id == 0,
            forall|i: int| 0 <= i < 8 ==> #[trigger] adv.factory_device_id@[i] == 0,
            adv.unknown1_1 == 0,
            adv.unknown2_0 == 0,
            forall|i: int| 0 <= i < 4 ==> #[trigger] adv.ip_address@[i] == 0,
            adv.info_request_port == 0,
            adv.unknown3_0 == 0,
    {
        DeviceAdvertisement {
            process_id: 0,
            factory_device_id: [0u8; 8],
            unknown1_1: 0,
            unknown2_0: 0,
            ip_address: [0u8; 4],
            info_request_port: 0,
            unknown3_0: 0,
        }
    }
}

/// The codes are those that controllers use, so that no request is taken for another and no
/// response for a request.
pub proof fn law_codes_of_the_protocol(code: u16)
    ensures
        code == RESPONSE_START_CODE <==> code == 0x1200,
        code == REQUEST_DEVICE_ADVERTISEMENT <==> code == 0x1001,
        code == REGISTER_CONTROLLER <==> code == 0x3010,
{
}

} // verus!
