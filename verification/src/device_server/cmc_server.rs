//! Answering controllers that look for devices.

use vstd::prelude::*;
use vstd::slice::slice_to_vec;
use crate::device_info::DeviceInfo;
use crate::protocol::proto_cmc::{
    DeviceAdvertisement, REGISTER_CONTROLLER, REQUEST_DEVICE_ADVERTISEMENT, RESPONSE_START_CODE,
};

verus! {

/// What a response holds.
#[derive(Debug)]
pub enum CmcContent {
    /// The description of the device.
    Advertisement(DeviceAdvertisement),
    /// Bytes as they are.
    Echo(Vec<u8>),
}

/// How a request went.
#[derive(Debug, Clone, Copy, PartialEq, Eq, Structural)]
pub enum ResponseCode {
    /// It was carried out.
    Success,
}

/// A response to a request.
#[derive(Debug)]
pub struct CmcResponse {
    pub start_code: u16,
    pub code: ResponseCode,
    pub content: CmcContent,
}

/// How the device describes itself.
pub open spec fn advertisement(self_info: DeviceInfo) -> DeviceAdvertisement {
    DeviceAdvertisement {
        process_id: self_info.process_id,
        factory_device_id: self_info.factory_device_id,
        unknown1_1: 1,
        unknown2_0: 0,
        ip_address: self_info.ip_address,
        info_request_port: self_info.info_request_port,
        unknown3_0: 0,
    }
}

/// Answers a request. A request that is not known gets no answer.
pub fn handle_request(
    self_info: &DeviceInfo,
    opcode1: u16,
    opcode2: u16,
    content: &[u8],
) -> (response: Option<CmcResponse>)
    ensures
        response is Some <==> opcode2 == 0 && (opcode1 == REQUEST_DEVICE_ADVERTISEMENT || opcode1
            == REGISTER_CONTROLLER),
        response matches Some(r) ==> {
            &&& r.start_code == RESPONSE_START_CODE
            &&& r.code == ResponseCode::Success
            &&& opcode1 == REQUEST_DEVICE_ADVERTISEMENT ==> r.content == CmcContent::Advertisement(
                advertisement(*self_info),
            )
            &&& opcode1 == REQUEST_DEVICE_ADVERTISEMENT ==> (
            r.content matches CmcContent::Advertisement(adv) && {
                &&& adv.process_id == self_info.process_id
                &&& adv.factory_device_id@ == self_info.factory_device_id@
                &&& adv.unknown1_1 == 1
                &&& adv.unknown2_0 == 0
                &&& adv.ip_address@ == self_info.ip_address@
                &&& adv.info_request_port == self_info.info_request_port
                &&& adv.unknown3_0 == 0
            })
            &&& opcode1 == REGISTER_CONTROLLER ==> (r.content matches CmcContent::Echo(bytes)
                && bytes@ == content@)
        },
{
    if opcode2 != 0 {
        return None;
    }
    if opcode1 == REQUEST_DEVICE_ADVERTISEMENT {
        let adv = DeviceAdvertisement {
            process_id: self_info.process_id,
            factory_device_id: self_info.factory_device_id,
            unknown1_1: 1,
            unknown2_0: 0,
            ip_address: self_info.ip_address,
            info_request_port: self_info.info_request_port,
            unknown3_0: 0,
        };
        Some(
            CmcResponse {
                start_code: RESPONSE_START_CODE,
                code: ResponseCode::Success,
                content: CmcContent::Advertisement(adv),
            },
        )
    } else if opcode1 == REGISTER_CONTROLLER {
        Some(
            CmcResponse {
                start_code: RESPONSE_START_CODE,
                code: ResponseCode::Success,
                content: CmcContent::Echo(slice_to_vec(content)),
            },
        )
    } else {
        None
    }
}

/// The device advertises its own identity, its own address and the port at which it takes requests,
/// whatever else is known of it. Devices that agree in these advertise the same.
pub proof fn law_device_advertises_itself(self_info: DeviceInfo, other: DeviceInfo)
    ensures
        advertisement(self_info).process_id == self_info.process_id,
        advertisement(self_info).factory_device_id@ == self_info.factory_device_id@,
        advertisement(self_info).ip_address@ == self_info.ip_address@,
        advertisement(self_info).info_request_port == self_info.info_request_port,
        advertisement(self_info).unknown1_1 == 1,
        advertisement(self_info).unknown2_0 == 0,
        advertisement(self_info).unknown3_0 == 0,
        self_info.process_id == other.process_id && self_info.factory_device_id
            == other.factory_device_id && self_info.ip_address == other.ip_address
            && self_info.info_request_port == other.info_request_port ==> advertisement(self_info)
            == advertisement(other),
{
}

} // verus!
