//! The multicast side of the device: what it tells about itself, regularly and when asked.

use vstd::prelude::*;
use vstd::string::StringExecFns;
use vstd::utf8::{encode_utf8, is_continuation_byte};
use crate::byte_utils::{
    be16, overwritten, text_field, u16_at, u32_at, write_str_to_buffer, zeros,
};
use crate::device_info::DeviceInfo;
use crate::hex_text::{hex_bytes, hex_decode, hex_encode, hex_text, hex_value, is_hex};
use crate::protocol::device_report::{
    board_info_content, clock_stats_content, field_holds, fixed_choice_content,
    law_board_info_describes_the_board, law_product_info_describes_the_product,
    network_info_content, product_info_content, write_board_info, write_clock_stats, write_fixed_choice,
    write_network_info, write_product_info, ENCODING_SETTING, SAMPLE_RATE_SETTING,
};
use crate::protocol::heartbeat::{
    latency_content, latency_words, missed_words, utilization_content, write_latency_content,
    write_utilization_content, FlowInfo, Telemetry,
};
use crate::protocol::mcast::{
    law_packet_layout, law_packet_numbers, make_packet, packet_bytes, Datagram, Endpoint, MulticastMessage,
    MAX_CONTENT_LENGTH,
};
use crate::text::{starts_with, trim_ascii, trimmed_ascii};

verus! {

/// The port of the heartbeat group.
pub const DST_PORT_HEARTBEAT: u16 = 8708;

/// The port of the device information group.
pub const DST_PORT_DEVICE_INFO: u16 = 8702;

/// The start code of device information.
pub const DEVICE_INFO_START_CODE: u16 = 0xffff;

/// The start code of heartbeats.
pub const HEARTBEAT_START_CODE: u16 = 0xfffe;

/// How many peaks, of transmit and receive channels together, fit into a heartbeat packet.
pub const MAX_PEAKS: usize = 1392;

/// How many flows fit into a heartbeat packet.
pub const MAX_FLOWS: usize = 178;

/// Sends what the device has to tell, under one running number.
#[derive(Debug)]
pub struct Multicaster<'s> {
    pub self_info: &'s DeviceInfo,
    pub seqnum: u16,
    pub vendor: [u8; 8],
    pub firmware_version_bytes: [u8; 4],
    pub product_version_bytes: [u8; 4],
    pub device_info_destination: Endpoint,
    pub heartbeat_destination: Endpoint,
    /// The running number of the utilization, clock and peaks blocks.
    pub util_block_seqnum: u16,
    /// The running number of the latency and late packets blocks.
    pub latency_block_seqnum: u16,
}

/// What a request asks for.
#[derive(Debug, Clone, Copy, PartialEq, Eq, Structural)]
pub enum InfoRequest {
    TooShort,
    BoardInfo,
    ProductInfo,
    ClockStats,
    NetworkInfo,
    ClearConfig,
    SampleRate,
    Encoding,
    Reboot,
    HeartbeatQuery,
    FactoryReset,
    Unknown,
}

/// What to do about a request.
#[derive(Debug)]
pub enum RequestAction {
    /// Nothing.
    Ignore,
    /// Send this.
    Send(Datagram),
    /// Find out about the clock, and send what `send_clock_stats` makes of it.
    ReportClock,
    /// Send this, and then restart.
    SendAndRestart(Datagram),
}

/// The opcode of device information of the kind `hi`, `lo`.
pub open spec fn info_opcode(hi: u8, lo: u8) -> Seq<u8> {
    seq![0x07u8, 0x2a, hi, lo, 0, 0, 0, 0]
}

/// The opcode of heartbeats.
pub open spec fn heartbeat_opcode() -> Seq<u8> {
    seq![0u8, 8, 0, 1, 0x10, 0, 0, 0]
}

/// Whether the opcode of `request` is a question of the kind `hi`, `lo`, whatever the protocol
/// revision in its second byte and the number in its last one.
pub open spec fn asks(request: Seq<u8>, hi: u8, lo: u8) -> bool {
    &&& request[24] == 0x07
    &&& request[26] == hi
    &&& request[27] == lo
    &&& request[28] == 0
    &&& request[29] == 0
    &&& request[30] == 0
}

/// What a request asks for. Board and product descriptions are only given if the last byte of the
/// opcode is zero.
pub open spec fn request_kind(request: Seq<u8>) -> InfoRequest {
    if request.len() < 32 {
        InfoRequest::TooShort
    } else if asks(request, 0, 0x61) && request[31] == 0 {
        InfoRequest::BoardInfo
    } else if asks(request, 0, 0xc1) && request[31] == 0 {
        InfoRequest::ProductInfo
    } else if asks(request, 0, 0x21) {
        InfoRequest::ClockStats
    } else if asks(request, 0, 0x13) {
        InfoRequest::NetworkInfo
    } else if asks(request, 0, 0x77) {
        InfoRequest::ClearConfig
    } else if asks(request, 0, 0x81) {
        InfoRequest::SampleRate
    } else if asks(request, 0, 0x83) {
        InfoRequest::Encoding
    } else if asks(request, 0, 0x90) {
        InfoRequest::Reboot
    } else if asks(request, 0x10, 0x08) {
        InfoRequest::HeartbeatQuery
    } else if asks(request, 0, 0x91) {
        InfoRequest::FactoryReset
    } else {
        InfoRequest::Unknown
    }
}

/// Finds out what a request asks for.
pub fn classify_request(request: &[u8]) -> (kind: InfoRequest)
    ensures
        kind == request_kind(request@),
{
    if request.len() < 32 {
        return InfoRequest::TooShort;
    }
    if request[24] != 0x07 || request[28] != 0 || request[29] != 0 || request[30] != 0 {
        return InfoRequest::Unknown;
    }
    let hi: u8 = request[26];
    let lo: u8 = request[27];
    if hi == 0x10 && lo == 0x08 {
        return InfoRequest::HeartbeatQuery;
    }
    if hi != 0 {
        return InfoRequest::Unknown;
    }
    if lo == 0x61 && request[31] == 0 {
        InfoRequest::BoardInfo
    } else if lo == 0xc1 && request[31] == 0 {
        InfoRequest::ProductInfo
    } else if lo == 0x21 {
        InfoRequest::ClockStats
    } else if lo == 0x13 {
        InfoRequest::NetworkInfo
    } else if lo == 0x77 {
        InfoRequest::ClearConfig
    } else if lo == 0x81 {
        InfoRequest::SampleRate
    } else if lo == 0x83 {
        InfoRequest::Encoding
    } else if lo == 0x90 {
        InfoRequest::Reboot
    } else if lo == 0x91 {
        InfoRequest::FactoryReset
    } else {
        InfoRequest::Unknown
    }
}

/// A flow after its counts have been told: nothing is counted of it yet.
pub open spec fn flow_after_report(flow: Option<FlowInfo>) -> Option<FlowInfo> {
    match flow {
        Some(_) => Some(FlowInfo { actual_latency_samples: 0, missed_packets: 0 }),
        None => None,
    }
}

/// Whether `after` is `before` once everything in it has been told: nothing is counted yet, of the
/// network and of the same flows.
pub open spec fn counts_start_anew(before: Telemetry, after: Telemetry) -> bool {
    &&& after.tx_bytes == 0
    &&& after.rx_bytes == 0
    &&& after.tx_errors == 0
    &&& after.rx_errors == 0
    &&& match before.flows {
        Some(flows) => {
            &&& after.flows is Some
            &&& after.flows->0@ == flows@.map_values(
                |flow: Option<FlowInfo>| flow_after_report(flow),
            )
        },
        None => after.flows is None,
    }
}

impl<'s> Multicaster<'s> {
    /// Whether the packet `d` is the next one, with this opcode and content.
    pub open spec fn emits(
        self,
        d: Datagram,
        destination: Endpoint,
        start_code: u16,
        opcode: Seq<u8>,
        content: Seq<u8>,
    ) -> bool {
        &&& d.destination == destination
        &&& d.payload@ == packet_bytes(
            start_code,
            self.seqnum,
            self.self_info.process_id,
            self.self_info.factory_device_id@,
            self.vendor@,
            opcode,
            content,
        )
    }

    /// Whether `d` is the next packet and tells device information of the kind `hi`, `lo`.
    pub open spec fn tells(self, d: Datagram, hi: u8, lo: u8, content: Seq<u8>) -> bool {
        self.emits(
            d,
            self.device_info_destination,
            DEVICE_INFO_START_CODE,
            info_opcode(hi, lo),
            content,
        )
    }

    /// Whether `d` is the next packet and is a heartbeat.
    pub open spec fn beats(self, d: Datagram, content: Seq<u8>) -> bool {
        self.emits(
            d,
            self.heartbeat_destination,
            HEARTBEAT_START_CODE,
            heartbeat_opcode(),
            content,
        )
    }

    /// The state after one packet.
    pub open spec fn advanced(self) -> Self {
        Multicaster { seqnum: self.seqnum.wrapping_add(1), ..self }
    }

    /// What is told of the board.
    pub open spec fn board_info(self) -> Seq<u8> {
        board_info_content(self.firmware_version_bytes@, self.self_info.board_name@)
    }

    /// What is told of the product.
    pub open spec fn product_info(self) -> Seq<u8> {
        product_info_content(
            self.self_info.manufacturer@,
            self.self_info.board_name@,
            self.self_info.model_name@,
            self.product_version_bytes@,
        )
    }

    /// The multicast side of the device `self_info`, which has told nothing yet.
    pub fn new(self_info: &'s DeviceInfo) -> (r: Self)
        ensures
            r.self_info == self_info,
            r.seqnum == 1,
            r.vendor@ == overwritten(
                Seq::new(8, |i: int| 0x20u8),
                0,
                text_field(self_info.vendor_string@, 8),
            ),
            r.firmware_version_bytes@ == match self_info.firmware_version_bytes {
                Some(version) => version@,
                None => seq![4u8, 1, 0, 6],
            },
            r.product_version_bytes@ == match self_info.product_version_bytes {
                Some(version) => version@,
                None => seq![4u8, 1, 0, 6],
            },
            r.device_info_destination.address@ == seq![224u8, 0, 0, 231],
            r.device_info_destination.port == DST_PORT_DEVICE_INFO,
            r.heartbeat_destination.address@ == seq![224u8, 0, 0, 233],
            r.heartbeat_destination.port == DST_PORT_HEARTBEAT,
            r.util_block_seqnum == 1,
            r.latency_block_seqnum == 1,
    {
        let mut vendor: [u8; 8] = [32u8; 8];
        assert(vendor@ =~= Seq::new(8, |i: int| 0x20u8));
        write_str_to_buffer(&mut vendor, 0, 8, self_info.vendor_string.as_str());
        let default_version: [u8; 4] = [4, 1, 0, 6];
        assert(default_version@ =~= seq![4u8, 1, 0, 6]);
        let firmware_version_bytes: [u8; 4] = match self_info.firmware_version_bytes {
            Some(version) => version,
            None => default_version,
        };
        let product_version_bytes: [u8; 4] = match self_info.product_version_bytes {
            Some(version) => version,
            None => default_version,
        };
        let device_info_address: [u8; 4] = [224, 0, 0, 231];
        let heartbeat_address: [u8; 4] = [224, 0, 0, 233];
        assert(device_info_address@ =~= seq![224u8, 0, 0, 231]);
        assert(heartbeat_address@ =~= seq![224u8, 0, 0, 233]);
        Multicaster {
            self_info,
            seqnum: 1,
            vendor,
            firmware_version_bytes,
            product_version_bytes,
            device_info_destination: Endpoint {
                address: device_info_address,
                port: DST_PORT_DEVICE_INFO,
            },
            heartbeat_destination: Endpoint {
                address: heartbeat_address,
                port: DST_PORT_HEARTBEAT,
            },
            util_block_seqnum: 1,
            latency_block_seqnum: 1,
        }
    }

    /// Makes the next packet.
    pub fn send(
        &mut self,
        dst: Endpoint,
        start_code: u16,
        opcode: [u8; 8],
        content: &[u8],
    ) -> (d: Datagram)
        requires
            content@.len() <= MAX_CONTENT_LENGTH,
        ensures
            old(self).emits(d, dst, start_code, opcode@, content@),
            *final(self) == old(self).advanced(),
    {
        let payload: Vec<u8> = make_packet(
            start_code,
            self.seqnum,
            self.self_info.process_id,
            self.self_info.factory_device_id,
            self.vendor,
            opcode,
            content,
        );
        self.seqnum = self.seqnum.wrapping_add(1);
        Datagram { destination: dst, payload }
    }

    /// Makes the next packet, of device information of the kind `hi`, `lo`.
    fn tell(&mut self, hi: u8, lo: u8, content: &[u8]) -> (d: Datagram)
        requires
            content@.len() <= MAX_CONTENT_LENGTH,
        ensures
            old(self).tells(d, hi, lo, content@),
            *final(self) == old(self).advanced(),
    {
        let opcode: [u8; 8] = [0x07, 0x2a, hi, lo, 0x00, 0x00, 0x00, 0x00];
        assert(opcode@ =~= info_opcode(hi, lo));
        self.send(self.device_info_destination, DEVICE_INFO_START_CODE, opcode, content)
    }

    /// Tells about the board.
    pub fn send_board_info(&mut self) -> (d: Datagram)
        ensures
            old(self).tells(d, 0x00, 0x60, old(self).board_info()),
            *final(self) == old(self).advanced(),
    {
        let content: Vec<u8> = write_board_info(
            self.firmware_version_bytes,
            self.self_info.board_name.as_str(),
        );
        self.tell(0x00, 0x60, content.as_slice())
    }

    /// Tells about the product.
    pub fn send_product_info(&mut self) -> (d: Datagram)
        ensures
            old(self).tells(d, 0x00, 0xc0, old(self).product_info()),
            *final(self) == old(self).advanced(),
    {
        let content: Vec<u8> = write_product_info(
            self.self_info.manufacturer.as_str(),
            self.self_info.board_name.as_str(),
            self.self_info.model_name.as_str(),
            self.product_version_bytes,
        );
        self.tell(0x00, 0xc0, content.as_slice())
    }

    /// Tells about the network.
    pub fn send_network_info(&mut self) -> (d: Datagram)
        ensures
            old(self).tells(d, 0x00, 0x11, network_info_content(*old(self).self_info)),
            *final(self) == old(self).advanced(),
    {
        let content: Vec<u8> = write_network_info(self.self_info);
        self.tell(0x00, 0x11, content.as_slice())
    }

    /// Tells the sample rate, as the only one that there is.
    pub fn send_sample_rate(&mut self) -> (d: Datagram)
        ensures
            old(self).tells(
                d,
                0x00,
                0x80,
                fixed_choice_content(
                    SAMPLE_RATE_SETTING as int,
                    old(self).self_info.sample_rate as int,
                ),
            ),
            *final(self) == old(self).advanced(),
    {
        let content: Vec<u8> = write_fixed_choice(SAMPLE_RATE_SETTING, self.self_info.sample_rate);
        self.tell(0x00, 0x80, content.as_slice())
    }

    /// Tells the encoding, as the only one that there is.
    pub fn send_encoding(&mut self) -> (d: Datagram)
        ensures
            old(self).tells(
                d,
                0x00,
                0x82,
                fixed_choice_content(
                    ENCODING_SETTING as int,
                    old(self).self_info.bits_per_sample as int,
                ),
            ),
            *final(self) == old(self).advanced(),
    {
        let content: Vec<u8> = write_fixed_choice(
            ENCODING_SETTING,
            self.self_info.bits_per_sample as u32,
        );
        self.tell(0x00, 0x82, content.as_slice())
    }

    /// Tells about the clock, if its frequency offset and its master are known.
    pub fn send_clock_stats(
        &mut self,
        freq_offset: Option<i32>,
        master_clock: Option<Vec<u8>>,
    ) -> (r: Option<Datagram>)
        requires
            master_clock matches Some(mc) ==> mc@.len() == 8,
        ensures
            r is Some <==> freq_offset is Some && master_clock is Some,
            r matches Some(d) ==> old(self).tells(
                d,
                0x00,
                0x20,
                clock_stats_content(
                    freq_offset->0,
                    old(self).self_info.mac_address@,
                    master_clock->0@,
                ),
            ),
            *final(self) == if r is Some {
                old(self).advanced()
            } else {
                *old(self)
            },
    {
        match (freq_offset, master_clock) {
            (Some(freq), Some(mc)) => {
                let content: Vec<u8> = write_clock_stats(
                    freq,
                    self.self_info.mac_address,
                    mc.as_slice(),
                );
                Some(self.tell(0x00, 0x20, content.as_slice()))
            },
            _ => None,
        }
    }

    /// Makes the next packet, a heartbeat.
    fn beat(&mut self, content: &[u8]) -> (d: Datagram)
        requires
            content@.len() <= MAX_CONTENT_LENGTH,
        ensures
            old(self).beats(d, content@),
            *final(self) == old(self).advanced(),
    {
        let opcode: [u8; 8] = [0, 8, 0, 1, 0x10, 0, 0, 0];
        assert(opcode@ =~= heartbeat_opcode());
        self.send(self.heartbeat_destination, HEARTBEAT_START_CODE, opcode, content)
    }

    /// The state after the utilization, clock and peaks blocks have been sent.
    pub open spec fn after_utilization(self) -> Self {
        Multicaster {
            util_block_seqnum: self.util_block_seqnum.wrapping_add(1),
            ..self.advanced()
        }
    }

    /// The state after the latency and late packets blocks have been sent.
    pub open spec fn after_latency(self) -> Self {
        Multicaster {
            latency_block_seqnum: self.latency_block_seqnum.wrapping_add(1),
            ..self.advanced()
        }
    }

    /// Makes the next packet, a heartbeat with the utilization, clock and peaks blocks.
    fn beat_utilization(
        &mut self,
        freq_offset: i32,
        tx_peaks: &[u8],
        rx_peaks: &[u8],
        counted: &Telemetry,
    ) -> (d: Datagram)
        requires
            tx_peaks@.len() + rx_peaks@.len() <= MAX_PEAKS,
        ensures
            old(self).beats(
                d,
                utilization_content(
                    old(self).util_block_seqnum,
                    freq_offset,
                    tx_peaks@,
                    rx_peaks@,
                    old(self).self_info.bits_per_sample,
                    *counted,
                ),
            ),
            *final(self) == old(self).after_utilization(),
    {
        let content: Vec<u8> = write_utilization_content(
            self.util_block_seqnum,
            freq_offset,
            tx_peaks,
            rx_peaks,
            self.self_info.bits_per_sample,
            counted,
        );
        let d: Datagram = self.beat(content.as_slice());
        self.util_block_seqnum = self.util_block_seqnum.wrapping_add(1);
        d
    }

    /// Makes the next packet, a heartbeat with the latency and late packets blocks.
    fn beat_latency(&mut self, flows: &Vec<Option<FlowInfo>>) -> (d: Datagram)
        requires
            flows@.len() <= MAX_FLOWS,
        ensures
            old(self).beats(
                d,
                latency_content(
                    old(self).latency_block_seqnum,
                    old(self).self_info.sample_rate,
                    flows@,
                ),
            ),
            *final(self) == old(self).after_latency(),
    {
        let content: Vec<u8> = write_latency_content(
            self.latency_block_seqnum,
            self.self_info.sample_rate,
            flows,
        );
        let d: Datagram = self.beat(content.as_slice());
        self.latency_block_seqnum = self.latency_block_seqnum.wrapping_add(1);
        d
    }

    /// The state after a heartbeat, with or without a clock and subscribed flows.
    pub open spec fn after_heartbeat(self, clock: bool, subscribed: bool) -> Self {
        if !clock {
            self.advanced()
        } else if subscribed {
            self.after_utilization().after_latency()
        } else {
            self.after_utilization()
        }
    }

    /// Makes the heartbeat packets. Without a clock that is one without any block. With a clock it
    /// is one with the utilization, clock and peaks blocks, and then, if there are subscribed
    /// flows, another one with the latency and late packets blocks; what they tell is counted
    /// anew from then on.
    pub fn send_heartbeat(
        &mut self,
        freq_offset: Option<i32>,
        tx_peaks: &[u8],
        rx_peaks: &[u8],
        telemetry: &mut Telemetry,
    ) -> (packets: Vec<Datagram>)
        requires
            freq_offset is Some ==> tx_peaks@.len() + rx_peaks@.len() <= MAX_PEAKS,
            freq_offset is Some ==> (old(telemetry).flows matches Some(flows) ==> flows@.len()
                <= MAX_FLOWS),
        ensures
            *final(self) == old(self).after_heartbeat(
                freq_offset is Some,
                old(telemetry).flows is Some,
            ),
            freq_offset is None ==> {
                &&& packets@.len() == 1
                &&& old(self).beats(packets@[0], Seq::empty())
                &&& *final(telemetry) == *old(telemetry)
            },
            freq_offset matches Some(freq) ==> {
                &&& packets@.len() == if old(telemetry).flows is Some {
                    2int
                } else {
                    1
                }
                &&& old(self).beats(
                    packets@[0],
                    utilization_content(
                        old(self).util_block_seqnum,
                        freq,
                        tx_peaks@,
                        rx_peaks@,
                        old(self).self_info.bits_per_sample,
                        *old(telemetry),
                    ),
                )
                &&& (old(telemetry).flows matches Some(flows) ==> old(self).after_utilization().beats(
                    packets@[1],
                    latency_content(
                        old(self).latency_block_seqnum,
                        old(self).self_info.sample_rate,
                        flows@,
                    ),
                ))
                &&& counts_start_anew(*old(telemetry), *final(telemetry))
            },
    {
        let mut packets: Vec<Datagram> = Vec::new();
        let freq: i32 = match freq_offset {
            Some(freq) => freq,
            None => {
                let nothing: [u8; 0] = [];
                assert(nothing@ =~= Seq::<u8>::empty());
                packets.push(self.beat(nothing.as_slice()));
                return packets;
            },
        };
        packets.push(self.beat_utilization(freq, tx_peaks, rx_peaks, telemetry));
        telemetry.tx_bytes = 0;
        telemetry.rx_bytes = 0;
        telemetry.tx_errors = 0;
        telemetry.rx_errors = 0;
        match &mut telemetry.flows {
            Some(flows) => {
                packets.push(self.beat_latency(flows));
                reset_flows(flows);
            },
            None => {},
        }
        packets
    }

    /// Passes on a message of another part of the device.
    pub fn relay(&mut self, msg: &MulticastMessage) -> (d: Datagram)
        requires
            msg.content@.len() <= MAX_CONTENT_LENGTH,
        ensures
            old(self).emits(
                d,
                old(self).device_info_destination,
                msg.start_code,
                msg.opcode@,
                msg.content@,
            ),
            *final(self) == old(self).advanced(),
    {
        self.send(
            self.device_info_destination,
            msg.start_code,
            msg.opcode,
            msg.content.as_slice(),
        )
    }

    /// What is told once at the start, without being asked for: about the board, about the product,
    /// and the sample rate.
    pub fn announce(&mut self) -> (packets: Vec<Datagram>)
        ensures
            packets@.len() == 3,
            old(self).tells(packets@[0], 0x00, 0x60, old(self).board_info()),
            old(self).advanced().tells(packets@[1], 0x00, 0xc0, old(self).product_info()),
            old(self).advanced().advanced().tells(
                packets@[2],
                0x00,
                0x80,
                fixed_choice_content(
                    SAMPLE_RATE_SETTING as int,
                    old(self).self_info.sample_rate as int,
                ),
            ),
            *final(self) == old(self).advanced().advanced().advanced(),
    {
        let mut packets: Vec<Datagram> = Vec::new();
        packets.push(self.send_board_info());
        packets.push(self.send_product_info());
        packets.push(self.send_sample_rate());
        packets
    }

    /// Decides about a request.
    pub fn handle_request(&mut self, request: &[u8]) -> (action: RequestAction)
        ensures
            match request_kind(request@) {
                InfoRequest::BoardInfo => action matches RequestAction::Send(d) && old(self).tells(
                    d,
                    0x00,
                    0x60,
                    old(self).board_info(),
                ),
                InfoRequest::ProductInfo => action matches RequestAction::Send(d) && old(
                    self,
                ).tells(d, 0x00, 0xc0, old(self).product_info()),
                InfoRequest::ClockStats => action is ReportClock,
                InfoRequest::NetworkInfo => action matches RequestAction::Send(d) && old(
                    self,
                ).tells(d, 0x00, 0x11, network_info_content(*old(self).self_info)),
                InfoRequest::SampleRate => action matches RequestAction::Send(d) && old(
                    self,
                ).tells(
                    d,
                    0x00,
                    0x80,
                    fixed_choice_content(
                        SAMPLE_RATE_SETTING as int,
                        old(self).self_info.sample_rate as int,
                    ),
                ),
                InfoRequest::Encoding => action matches RequestAction::Send(d) && old(self).tells(
                    d,
                    0x00,
                    0x82,
                    fixed_choice_content(
                        ENCODING_SETTING as int,
                        old(self).self_info.bits_per_sample as int,
                    ),
                ),
                InfoRequest::Reboot => action matches RequestAction::SendAndRestart(d) && old(
                    self,
                ).tells(d, 0x00, 0x92, Seq::empty()),
                _ => action is Ignore,
            },
            *final(self) == if action is Send || action is SendAndRestart {
                old(self).advanced()
            } else {
                *old(self)
            },
    {
        match classify_request(request) {
            InfoRequest::BoardInfo => RequestAction::Send(self.send_board_info()),
            InfoRequest::ProductInfo => RequestAction::Send(self.send_product_info()),
            InfoRequest::ClockStats => RequestAction::ReportClock,
            InfoRequest::NetworkInfo => RequestAction::Send(self.send_network_info()),
            InfoRequest::SampleRate => RequestAction::Send(self.send_sample_rate()),
            InfoRequest::Encoding => RequestAction::Send(self.send_encoding()),
            InfoRequest::Reboot => {
                let nothing: [u8; 0] = [];
                assert(nothing@ =~= Seq::<u8>::empty());
                RequestAction::SendAndRestart(self.tell(0x00, 0x92, nothing.as_slice()))
            },
            // Controllers send the request to clear the configuration on their own when they
            // reconnect, so nothing may come of it. There is nothing that a factory reset could
            // bring back, and a heartbeat query needs no answer.
            InfoRequest::ClearConfig => RequestAction::Ignore,
            InfoRequest::FactoryReset => RequestAction::Ignore,
            InfoRequest::HeartbeatQuery => RequestAction::Ignore,
            InfoRequest::TooShort => RequestAction::Ignore,
            InfoRequest::Unknown => RequestAction::Ignore,
        }
    }
}

/// Begins to count anew for every flow.
fn reset_flows(flows: &mut Vec<Option<FlowInfo>>)
    ensures
        final(flows)@ == old(flows)@.map_values(|flow: Option<FlowInfo>| flow_after_report(flow)),
{
    let mut i: usize = 0;
    while i < flows.len()
        invariant
            i <= flows@.len(),
            flows@.len() == old(flows)@.len(),
            forall|k: int|
                0 <= k < flows@.len() ==> #[trigger] flows@[k] == if k < i {
                    flow_after_report(old(flows)@[k])
                } else {
                    old(flows)@[k]
                },
        decreases flows@.len() - i,
    {
        if flows[i].is_some() {
            flows[i] = Some(FlowInfo { actual_latency_samples: 0, missed_packets: 0 });
        }
        i += 1;
    }
    assert(flows@ =~= old(flows)@.map_values(|flow: Option<FlowInfo>| flow_after_report(flow)));
}

/// How the names of the files begin in which the clock daemon tells about the clock of the
/// interface with the address `mac_address`.
fn clock_stats_prefix(mac_address: &[u8; 6]) -> (prefix: String)
    ensures
        prefix@ == "clock-stats."@ + hex_text(mac_address@) + "0000"@,
{
    let mut prefix: String = "clock-stats.".to_owned();
    let address: String = hex_encode(mac_address.as_slice());
    prefix.append(address.as_str());
    prefix.append("0000");
    prefix
}

/// Whether what is left of the contents of a clock file after trimming can be looked at: it is so
/// short that it is skipped, or it can be cut after sixteen bytes without splitting a character.
pub open spec fn clock_file_is_readable(trimmed: Seq<u8>) -> bool {
    trimmed.len() < 12 || (trimmed.len() >= 16 && (trimmed.len() == 16 || !is_continuation_byte(
        trimmed[16],
    )))
}

/// The identity of the master clock that the contents of a clock file tell: the first sixteen
/// characters, as hexadecimal digits.
pub open spec fn master_clock_in(content: Seq<char>) -> Option<Seq<u8>> {
    let trimmed = trimmed_ascii(encode_utf8(content));
    if trimmed.len() >= 12 && is_hex(trimmed.take(16)) {
        Some(hex_bytes(trimmed.take(16)))
    } else {
        None
    }
}

/// Finds the identity of the master clock in the contents of a clock file.
pub fn master_clock_id(content: &str) -> (id: Option<Vec<u8>>)
    requires
        clock_file_is_readable(trimmed_ascii(encode_utf8(content@))),
    ensures
        id is Some <==> master_clock_in(content@) is Some,
        id matches Some(bytes) ==> bytes@ == master_clock_in(content@)->0 && bytes@.len() == 8,
{
    let trimmed: &[u8] = trim_ascii(content.as_bytes());
    if trimmed.len() < 12 {
        return None;
    }
    let digits: &[u8] = vstd::slice::slice_subrange(trimmed, 0, 16);
    assert(digits@ =~= trimmed@.take(16));
    match hex_decode(digits) {
        Ok(bytes) => Some(bytes),
        Err(_) => None,
    }
}

/// The identity that the first of `contents` to tell one tells.
pub open spec fn first_master_clock(contents: Seq<Seq<char>>) -> Option<Seq<u8>>
    decreases contents.len(),
{
    if contents.len() == 0 {
        None
    } else {
        match first_master_clock(contents.drop_last()) {
            Some(id) => Some(id),
            None => master_clock_in(contents.last()),
        }
    }
}

/// A search for the master clock through the files of the clock daemon.
#[derive(Debug)]
pub struct MasterClockSearch {
    pub prefix: String,
    pub found: Option<Vec<u8>>,
}

impl MasterClockSearch {
    /// An identity has eight bytes.
    pub open spec fn wf(self) -> bool {
        self.found matches Some(id) ==> id@.len() == 8
    }

    /// What has been found so far.
    pub open spec fn result(self) -> Option<Seq<u8>> {
        match self.found {
            Some(id) => Some(id@),
            None => None,
        }
    }

    /// A search for the master of the clock of the interface with the address `mac_address`.
    pub fn new(mac_address: &[u8; 6]) -> (r: Self)
        ensures
            r.prefix@ == "clock-stats."@ + hex_text(mac_address@) + "0000"@,
            r.result() == first_master_clock(Seq::empty()),
            r.wf(),
    {
        MasterClockSearch { prefix: clock_stats_prefix(mac_address), found: None }
    }

    /// Says whether the contents of the file `name` are to be looked at: its name fits, and
    /// nothing has been found yet.
    pub fn wants(&self, name: &str) -> (r: bool)
        ensures
            r == (self.found is None && self.prefix@.len() <= name@.len() && name@.take(
                self.prefix@.len() as int,
            ) == self.prefix@),
    {
        self.found.is_none() && starts_with(name, self.prefix.as_str())
    }

    /// Looks at the contents of a file. What was found before stays.
    pub fn look_at(&mut self, content: &str)
        requires
            old(self).wf(),
            clock_file_is_readable(trimmed_ascii(encode_utf8(content@))),
        ensures
            final(self).prefix == old(self).prefix,
            final(self).result() == match old(self).result() {
                Some(id) => Some(id),
                None => master_clock_in(content@),
            },
            final(self).wf(),
    {
        if self.found.is_none() {
            self.found = master_clock_id(content);
        }
    }
}

/// Looking at one more file continues the search: if it has found what the files so far tell, it
/// has afterwards found what they and the new one tell. What is found is the identity in the
/// first file that tells one, and later files do not change it.
pub proof fn law_first_clock_file_counts(contents: Seq<Seq<char>>, more: Seq<char>, i: int)
    ensures
        first_master_clock(contents.push(more)) == match first_master_clock(contents) {
            Some(id) => Some(id),
            None => master_clock_in(more),
        },
        0 <= i < contents.len() && master_clock_in(contents[i]) is Some && (forall|k: int|
            0 <= k < i ==> master_clock_in(#[trigger] contents[k]) is None)
            ==> first_master_clock(contents) == master_clock_in(contents[i]),
        (forall|k: int| 0 <= k < contents.len() ==> master_clock_in(#[trigger] contents[k]) is None)
            ==> first_master_clock(contents) is None,
    decreases contents.len(),
{
    assert(contents.push(more).drop_last() =~= contents);
    if contents.len() > 0 {
        let before = contents.drop_last();
        assert(forall|k: int| 0 <= k < before.len() ==> before[k] == contents[k]);
        law_first_clock_file_counts(before, more, i);
    }
}

/// Two packets that are sent one after the other carry numbers that follow each other, and come
/// from the same device, process and vendor.
pub proof fn law_packets_are_numbered(
    m: Multicaster,
    first: Datagram,
    second: Datagram,
    first_to: Endpoint,
    second_to: Endpoint,
    first_start: u16,
    second_start: u16,
    first_opcode: [u8; 8],
    second_opcode: [u8; 8],
    first_content: Seq<u8>,
    second_content: Seq<u8>,
)
    requires
        m.emits(first, first_to, first_start, first_opcode@, first_content),
        m.advanced().emits(second, second_to, second_start, second_opcode@, second_content),
    ensures
        first.payload@.subrange(2, 4) == be16(m.seqnum as int),
        second.payload@.subrange(2, 4) == be16(m.seqnum.wrapping_add(1) as int),
        first.payload@.subrange(4, 24) == second.payload@.subrange(4, 24),
{
    law_packet_layout(
        first_start,
        m.seqnum,
        m.self_info.process_id,
        m.self_info.factory_device_id,
        m.vendor,
        first_opcode,
        first_content,
    );
    law_packet_layout(
        second_start,
        m.advanced().seqnum,
        m.self_info.process_id,
        m.self_info.factory_device_id,
        m.vendor,
        second_opcode,
        second_content,
    );
    let a = first.payload@;
    let b = second.payload@;
    assert(a.subrange(4, 24) =~= a.subrange(4, 8) + a.subrange(8, 16) + a.subrange(16, 24));
    assert(b.subrange(4, 24) =~= b.subrange(4, 8) + b.subrange(8, 16) + b.subrange(16, 24));
}

/// The two groups of heartbeat blocks are numbered independently of each other, and packets of any
/// other kind leave both numbers alone.
pub proof fn law_block_numbers_are_independent(m: Multicaster)
    ensures
        m.after_utilization().latency_block_seqnum == m.latency_block_seqnum,
        m.after_utilization().util_block_seqnum == m.util_block_seqnum.wrapping_add(1),
        m.after_latency().util_block_seqnum == m.util_block_seqnum,
        m.after_latency().latency_block_seqnum == m.latency_block_seqnum.wrapping_add(1),
        m.advanced().util_block_seqnum == m.util_block_seqnum,
        m.advanced().latency_block_seqnum == m.latency_block_seqnum,
{
}

/// One thing that a multicaster does.
pub enum Step {
    /// It makes one packet that is not a heartbeat, because it was asked, to announce itself, or to
    /// pass on a message.
    Packet,
    /// It makes the packets of a heartbeat, with or without a clock and subscribed flows.
    Heartbeat { clock: bool, subscribed: bool },
}

impl Step {
    /// How many packets the step makes.
    pub open spec fn packets(self) -> int {
        if self == (Step::Heartbeat { clock: true, subscribed: true }) {
            2
        } else {
            1
        }
    }

    /// How many packets with utilization, clock and peaks blocks the step makes.
    pub open spec fn utilization_packets(self) -> int {
        if self matches Step::Heartbeat { clock, .. } && clock {
            1
        } else {
            0
        }
    }

    /// How many packets with latency and late packets blocks the step makes.
    pub open spec fn latency_packets(self) -> int {
        if self == (Step::Heartbeat { clock: true, subscribed: true }) {
            1
        } else {
            0
        }
    }
}

/// The state after `steps`, one after the other.
pub open spec fn after_steps<'s>(m: Multicaster<'s>, steps: Seq<Step>) -> Multicaster<'s>
    decreases steps.len(),
{
    if steps.len() == 0 {
        m
    } else {
        let before = after_steps(m, steps.drop_last());
        match steps.last() {
            Step::Packet => before.advanced(),
            Step::Heartbeat { clock, subscribed } => before.after_heartbeat(clock, subscribed),
        }
    }
}

/// The sum of `count` over `steps`.
pub open spec fn total(steps: Seq<Step>, count: spec_fn(Step) -> int) -> int
    decreases steps.len(),
{
    if steps.len() == 0 {
        0
    } else {
        total(steps.drop_last(), count) + count(steps.last())
    }
}

/// How many packets `steps` make.
pub open spec fn packets_made(steps: Seq<Step>) -> int {
    total(steps, |step: Step| step.packets())
}

/// Over any mix of packets and heartbeats, the packet number goes up by one for each packet, and
/// wraps around.
#[verifier::rlimit(40)]
pub proof fn law_packet_numbers_count_packets(m: Multicaster, steps: Seq<Step>)
    ensures
        after_steps(m, steps).seqnum == (m.seqnum + packets_made(steps)) % 0x1_0000,
        after_steps(m, steps).self_info == m.self_info,
        after_steps(m, steps).vendor == m.vendor,
        packets_made(steps) >= 0,
    decreases steps.len(),
{
    if steps.len() > 0 {
        law_packet_numbers_count_packets(m, steps.drop_last());
        assert(packets_made(steps) == packets_made(steps.drop_last()) + steps.last().packets());
    }
}

/// The n-th packet of a multicaster that has told nothing yet carries the number n, modulo 65536,
/// whatever it made before: if `n - 1` packets were made, a packet that comes next carries n, and
/// one that follows it in the same heartbeat carries n + 1.
pub proof fn law_nth_packet_carries_its_number(
    m: Multicaster,
    steps: Seq<Step>,
    n: int,
    d: Datagram,
    destination: Endpoint,
    start_code: u16,
    opcode: [u8; 8],
    content: Seq<u8>,
)
    requires
        m.seqnum == 1,
        packets_made(steps) == n - 1,
    ensures
        after_steps(m, steps).emits(d, destination, start_code, opcode@, content)
            ==> d.payload@ == packet_bytes(
            start_code,
            (n % 0x1_0000) as u16,
            m.self_info.process_id,
            m.self_info.factory_device_id@,
            m.vendor@,
            opcode@,
            content,
        ) && d.payload@.subrange(2, 4) == be16(n % 0x1_0000),
        after_steps(m, steps).after_utilization().emits(
            d,
            destination,
            start_code,
            opcode@,
            content,
        ) ==> d.payload@ == packet_bytes(
            start_code,
            ((n + 1) % 0x1_0000) as u16,
            m.self_info.process_id,
            m.self_info.factory_device_id@,
            m.vendor@,
            opcode@,
            content,
        ) && d.payload@.subrange(2, 4) == be16((n + 1) % 0x1_0000),
{
    let now = after_steps(m, steps);
    let next = now.after_utilization();
    law_packet_numbers_count_packets(m, steps);
    assert(now.seqnum == n % 0x1_0000);
    assert(next.seqnum == (n + 1) % 0x1_0000);
    if now.emits(d, destination, start_code, opcode@, content) {
        lemma_carried_number(now, d, destination, start_code, opcode, content);
    }
    if next.emits(d, destination, start_code, opcode@, content) {
        lemma_carried_number(next, d, destination, start_code, opcode, content);
    }
}

/// A packet carries the packet number at its second place.
proof fn lemma_carried_number(
    m: Multicaster,
    d: Datagram,
    destination: Endpoint,
    start_code: u16,
    opcode: [u8; 8],
    content: Seq<u8>,
)
    requires
        m.emits(d, destination, start_code, opcode@, content),
    ensures
        d.payload@.subrange(2, 4) == be16(m.seqnum as int),
{
    law_packet_layout(
        start_code,
        m.seqnum,
        m.self_info.process_id,
        m.self_info.factory_device_id,
        m.vendor,
        opcode,
        content,
    );
}

/// Over any mix of packets and heartbeats, the number of the utilization group goes up by one for
/// each heartbeat with a clock, and that of the latency group by one for each heartbeat with a
/// clock and subscribed flows. Both wrap around.
pub proof fn law_block_numbers_count_heartbeats(m: Multicaster, steps: Seq<Step>)
    ensures
        after_steps(m, steps).util_block_seqnum == (m.util_block_seqnum + total(
            steps,
            |step: Step| step.utilization_packets(),
        )) % 0x1_0000,
        after_steps(m, steps).latency_block_seqnum == (m.latency_block_seqnum + total(
            steps,
            |step: Step| step.latency_packets(),
        )) % 0x1_0000,
    decreases steps.len(),
{
    if steps.len() > 0 {
        law_block_numbers_count_heartbeats(m, steps.drop_last());
    }
}

/// What a heartbeat has told is not told again: until something new is counted, the next one
/// reports zeros for the network and for each of the flows, whatever its numbers and peaks.
#[verifier::rlimit(40)]
pub proof fn law_counts_are_told_once(
    before: Telemetry,
    after: Telemetry,
    util_ctr: u16,
    latency_ctr: u16,
    freq_offset: i32,
    tx_peaks: Seq<u8>,
    rx_peaks: Seq<u8>,
    bits_per_sample: u8,
    sample_rate: u32,
)
    requires
        counts_start_anew(before, after),
    ensures
        utilization_content(
            util_ctr,
            freq_offset,
            tx_peaks,
            rx_peaks,
            bits_per_sample,
            after,
        ).subrange(20, 36) == zeros(16),
        before.flows is Some <==> after.flows is Some,
        (before.flows matches Some(flows) ==> {
            let n = flows@.len() as int;
            let content = latency_content(latency_ctr, sample_rate, after.flows->0@);
            &&& content.len() == 44 + 8 * n
            &&& content.subrange(24, 24 + 4 * n) == zeros((4 * n) as nat)
            &&& content.subrange(44 + 4 * n, 44 + 8 * n) == zeros((4 * n) as nat)
        }),
{
    let first = utilization_content(
        util_ctr,
        freq_offset,
        tx_peaks,
        rx_peaks,
        bits_per_sample,
        after,
    );
    assert(first.subrange(20, 36) =~= zeros(16));
    if before.flows is Some {
        let flows = after.flows->0@;
        let n = flows.len() as int;
        lemma_told_flows_are_zero(flows);
        let content = latency_content(latency_ctr, sample_rate, flows);
        assert(content.subrange(24, 24 + 4 * n) =~= latency_words(flows));
        assert(content.subrange(44 + 4 * n, 44 + 8 * n) =~= missed_words(flows));
    }
}

/// The words of flows of which nothing is counted are zero.
proof fn lemma_told_flows_are_zero(flows: Seq<Option<FlowInfo>>)
    requires
        forall|i: int|
            0 <= i < flows.len() ==> #[trigger] flows[i] == flow_after_report(flows[i]),
    ensures
        latency_words(flows) == zeros(4 * flows.len()),
        missed_words(flows) == zeros(4 * flows.len()),
    decreases flows.len(),
{
    if flows.len() > 0 {
        let before = flows.drop_last();
        assert forall|i: int| 0 <= i < before.len() implies #[trigger] before[i]
            == flow_after_report(before[i]) by {
            assert(before[i] == flows[i]);
        }
        lemma_told_flows_are_zero(before);
        assert(flows[flows.len() - 1] == flow_after_report(flows.last()));
    }
    assert(latency_words(flows) =~= zeros(4 * flows.len()));
    assert(missed_words(flows) =~= zeros(4 * flows.len()));
}

/// No device information that the device sends is taken for a request when it comes back over the
/// group.
pub proof fn law_own_packets_ask_for_nothing(
    m: Multicaster,
    d: Datagram,
    lo: u8,
    content: Seq<u8>,
)
    requires
        m.tells(d, 0x00, lo, content),
        lo == 0x60 || lo == 0xc0 || lo == 0x20 || lo == 0x11 || lo == 0x80 || lo == 0x82 || lo
            == 0x92,
    ensures
        request_kind(d.payload@) is Unknown,
{
    let opcode: [u8; 8] = [0x07, 0x2a, 0x00, lo, 0x00, 0x00, 0x00, 0x00];
    assert(opcode@ =~= info_opcode(0x00, lo));
    law_packet_layout(
        DEVICE_INFO_START_CODE,
        m.seqnum,
        m.self_info.process_id,
        m.self_info.factory_device_id,
        m.vendor,
        opcode,
        content,
    );
    assert(d.payload@.subrange(24, 32)[3] == lo);
    assert(d.payload@[27] == lo);
}

/// A request is known by its opcode alone. The second byte of the opcode never counts, and the last
/// one only for the board and the product.
#[verifier::rlimit(60)]
pub proof fn law_requests_are_known_by_their_opcode(request: Seq<u8>, other: Seq<u8>)
    ensures
        request_kind(request) is TooShort <==> request.len() < 32,
        request.len() >= 32 ==> (request_kind(request) is BoardInfo <==> request.subrange(24, 32) == {
            let op = request.subrange(24, 32);
            seq![0x07u8, op[1], 0x00, 0x61, 0, 0, 0, 0]
        }),
        request.len() >= 32 ==> (request_kind(request) is ProductInfo <==> request.subrange(24, 32) == {
            let op = request.subrange(24, 32);
            seq![0x07u8, op[1], 0x00, 0xc1, 0, 0, 0, 0]
        }),
        request.len() >= 32 ==> (request_kind(request) is ClockStats <==> request.subrange(24, 32) == {
            let op = request.subrange(24, 32);
            seq![0x07u8, op[1], 0x00, 0x21, 0, 0, 0, op[7]]
        }),
        request.len() >= 32 ==> (request_kind(request) is NetworkInfo <==> request.subrange(24, 32) == {
            let op = request.subrange(24, 32);
            seq![0x07u8, op[1], 0x00, 0x13, 0, 0, 0, op[7]]
        }),
        request.len() >= 32 ==> (request_kind(request) is ClearConfig <==> request.subrange(24, 32) == {
            let op = request.subrange(24, 32);
            seq![0x07u8, op[1], 0x00, 0x77, 0, 0, 0, op[7]]
        }),
        request.len() >= 32 ==> (request_kind(request) is SampleRate <==> request.subrange(24, 32) == {
            let op = request.subrange(24, 32);
            seq![0x07u8, op[1], 0x00, 0x81, 0, 0, 0, op[7]]
        }),
        request.len() >= 32 ==> (request_kind(request) is Encoding <==> request.subrange(24, 32) == {
            let op = request.subrange(24, 32);
            seq![0x07u8, op[1], 0x00, 0x83, 0, 0, 0, op[7]]
        }),
        request.len() >= 32 ==> (request_kind(request) is Reboot <==> request.subrange(24, 32) == {
            let op = request.subrange(24, 32);
            seq![0x07u8, op[1], 0x00, 0x90, 0, 0, 0, op[7]]
        }),
        request.len() >= 32 ==> (request_kind(request) is HeartbeatQuery <==> request.subrange(24, 32) == {
            let op = request.subrange(24, 32);
            seq![0x07u8, op[1], 0x10, 0x08, 0, 0, 0, op[7]]
        }),
        request.len() >= 32 ==> (request_kind(request) is FactoryReset <==> request.subrange(24, 32) == {
            let op = request.subrange(24, 32);
            seq![0x07u8, op[1], 0x00, 0x91, 0, 0, 0, op[7]]
        }),
        request.len() >= 32 && other.len() >= 32 && request.subrange(24, 32) == other.subrange(
            24,
            32,
        ) ==> request_kind(request) == request_kind(other),
{
    if request.len() >= 32 {
        let op = request.subrange(24, 32);
        assert(op[0] == request[24] && op[1] == request[25] && op[2] == request[26] && op[3]
            == request[27] && op[4] == request[28] && op[5] == request[29] && op[6] == request[30]
            && op[7] == request[31]);
        let pattern = seq![0x07u8, op[1], 0x00, 0x61, 0, 0, 0, 0];
        assert((op =~= pattern) <==> (op[0] == pattern[0] && op[2] == pattern[2] && op[3]
            == pattern[3] && op[4] == pattern[4] && op[5] == pattern[5] && op[6] == pattern[6]
            && op[7] == pattern[7]));
        let pattern = seq![0x07u8, op[1], 0x00, 0xc1, 0, 0, 0, 0];
        assert((op =~= pattern) <==> (op[0] == pattern[0] && op[2] == pattern[2] && op[3]
            == pattern[3] && op[4] == pattern[4] && op[5] == pattern[5] && op[6] == pattern[6]
            && op[7] == pattern[7]));
        let pattern = seq![0x07u8, op[1], 0x00, 0x21, 0, 0, 0, op[7]];
        assert((op =~= pattern) <==> (op[0] == pattern[0] && op[2] == pattern[2] && op[3]
            == pattern[3] && op[4] == pattern[4] && op[5] == pattern[5] && op[6] == pattern[6]
            && op[7] == pattern[7]));
        let pattern = seq![0x07u8, op[1], 0x00, 0x13, 0, 0, 0, op[7]];
        assert((op =~= pattern) <==> (op[0] == pattern[0] && op[2] == pattern[2] && op[3]
            == pattern[3] && op[4] == pattern[4] && op[5] == pattern[5] && op[6] == pattern[6]
            && op[7] == pattern[7]));
        let pattern = seq![0x07u8, op[1], 0x00, 0x77, 0, 0, 0, op[7]];
        assert((op =~= pattern) <==> (op[0] == pattern[0] && op[2] == pattern[2] && op[3]
            == pattern[3] && op[4] == pattern[4] && op[5] == pattern[5] && op[6] == pattern[6]
            && op[7] == pattern[7]));
        let pattern = seq![0x07u8, op[1], 0x00, 0x81, 0, 0, 0, op[7]];
        assert((op =~= pattern) <==> (op[0] == pattern[0] && op[2] == pattern[2] && op[3]
            == pattern[3] && op[4] == pattern[4] && op[5] == pattern[5] && op[6] == pattern[6]
            && op[7] == pattern[7]));
        let pattern = seq![0x07u8, op[1], 0x00, 0x83, 0, 0, 0, op[7]];
        assert((op =~= pattern) <==> (op[0] == pattern[0] && op[2] == pattern[2] && op[3]
            == pattern[3] && op[4] == pattern[4] && op[5] == pattern[5] && op[6] == pattern[6]
            && op[7] == pattern[7]));
        let pattern = seq![0x07u8, op[1], 0x00, 0x90, 0, 0, 0, op[7]];
        assert((op =~= pattern) <==> (op[0] == pattern[0] && op[2] == pattern[2] && op[3]
            == pattern[3] && op[4] == pattern[4] && op[5] == pattern[5] && op[6] == pattern[6]
            && op[7] == pattern[7]));
        let pattern = seq![0x07u8, op[1], 0x10, 0x08, 0, 0, 0, op[7]];
        assert((op =~= pattern) <==> (op[0] == pattern[0] && op[2] == pattern[2] && op[3]
            == pattern[3] && op[4] == pattern[4] && op[5] == pattern[5] && op[6] == pattern[6]
            && op[7] == pattern[7]));
        let pattern = seq![0x07u8, op[1], 0x00, 0x91, 0, 0, 0, op[7]];
        assert((op =~= pattern) <==> (op[0] == pattern[0] && op[2] == pattern[2] && op[3]
            == pattern[3] && op[4] == pattern[4] && op[5] == pattern[5] && op[6] == pattern[6]
            && op[7] == pattern[7]));
        if other.len() >= 32 && op == other.subrange(24, 32) {
            let same = other.subrange(24, 32);
            assert(same[0] == other[24] && same[1] == other[25] && same[2] == other[26] && same[3]
                == other[27] && same[4] == other[28] && same[5] == other[29] && same[6]
                == other[30] && same[7] == other[31]);
        }
    }
}

/// Device information goes to its group under the running number, carries the identity of the
/// device and its vendor, says by its opcode what it tells, and holds the content behind its header.
pub proof fn law_information_packet(
    m: Multicaster,
    d: Datagram,
    hi: u8,
    lo: u8,
    content: Seq<u8>,
)
    requires
        m.tells(d, hi, lo, content),
    ensures
        d.destination == m.device_info_destination,
        d.payload@.len() == 32 + content.len(),
        u16_at(d.payload@, 0) == 0xffff,
        u16_at(d.payload@, 2) == m.seqnum,
        u32_at(d.payload@, 4) == m.self_info.process_id,
        d.payload@.subrange(8, 16) == m.self_info.factory_device_id@,
        d.payload@.subrange(16, 24) == m.vendor@,
        d.payload@.subrange(24, 32) == seq![0x07u8, 0x2a, hi, lo, 0x00, 0x00, 0x00, 0x00],
        d.payload@.skip(32) == content,
{
    let opcode: [u8; 8] = [0x07, 0x2a, hi, lo, 0x00, 0x00, 0x00, 0x00];
    assert(opcode@ =~= info_opcode(hi, lo));
    assert(opcode@ =~= seq![0x07u8, 0x2a, hi, lo, 0x00, 0x00, 0x00, 0x00]);
    law_packet_of_any_kind(m, d, m.device_info_destination, DEVICE_INFO_START_CODE, opcode, content);
}

/// A heartbeat goes to its group under the running number, carries the identity of the device and
/// its vendor, is marked as a heartbeat, and holds the blocks behind its header.
pub proof fn law_heartbeat_packet(m: Multicaster, d: Datagram, content: Seq<u8>)
    requires
        m.beats(d, content),
    ensures
        d.destination == m.heartbeat_destination,
        d.payload@.len() == 32 + content.len(),
        u16_at(d.payload@, 0) == 0xfffe,
        u16_at(d.payload@, 2) == m.seqnum,
        u32_at(d.payload@, 4) == m.self_info.process_id,
        d.payload@.subrange(8, 16) == m.self_info.factory_device_id@,
        d.payload@.subrange(16, 24) == m.vendor@,
        d.payload@.subrange(24, 32) == seq![0x00u8, 0x08, 0x00, 0x01, 0x10, 0x00, 0x00, 0x00],
        d.payload@.skip(32) == content,
{
    let opcode: [u8; 8] = [0x00, 0x08, 0x00, 0x01, 0x10, 0x00, 0x00, 0x00];
    assert(opcode@ =~= heartbeat_opcode());
    assert(opcode@ =~= seq![0x00u8, 0x08, 0x00, 0x01, 0x10, 0x00, 0x00, 0x00]);
    law_packet_of_any_kind(m, d, m.heartbeat_destination, HEARTBEAT_START_CODE, opcode, content);
}

/// What is passed on or sent with any start code and opcode goes to where it was told to, under the
/// running number, as it is.
pub proof fn law_packet_of_any_kind(
    m: Multicaster,
    d: Datagram,
    destination: Endpoint,
    start_code: u16,
    opcode: [u8; 8],
    content: Seq<u8>,
)
    requires
        m.emits(d, destination, start_code, opcode@, content),
    ensures
        d.destination == destination,
        d.payload@.len() == 32 + content.len(),
        u16_at(d.payload@, 0) == start_code,
        u16_at(d.payload@, 2) == m.seqnum,
        u32_at(d.payload@, 4) == m.self_info.process_id,
        d.payload@.subrange(8, 16) == m.self_info.factory_device_id@,
        d.payload@.subrange(16, 24) == m.vendor@,
        d.payload@.subrange(24, 32) == opcode@,
        d.payload@.skip(32) == content,
{
    law_packet_layout(
        start_code,
        m.seqnum,
        m.self_info.process_id,
        m.self_info.factory_device_id,
        m.vendor,
        opcode,
        content,
    );
    law_packet_numbers(
        start_code,
        m.seqnum,
        m.self_info.process_id,
        m.self_info.factory_device_id,
        m.vendor,
        opcode,
        content,
    );
    assert(d.payload@.skip(32) =~= d.payload@.subrange(32, d.payload@.len() as int));
}

/// What is told of the board and the product is the version and the names of this device: its
/// firmware version and board name, and its product version, manufacturer, board and model names.
pub proof fn law_device_describes_itself(m: Multicaster)
    ensures
        m.board_info().len() == 200,
        m.board_info().subrange(0, 4) == m.firmware_version_bytes@,
        field_holds(m.board_info(), 12, 8, m.self_info.board_name@),
        field_holds(m.board_info(), 0x38, 16, m.self_info.board_name@),
        m.product_info().len() == 336,
        field_holds(m.product_info(), 0, 8, m.self_info.manufacturer@),
        field_holds(m.product_info(), 8, 8, m.self_info.board_name@),
        m.product_info().subrange(0x1c, 0x20) == m.product_version_bytes@,
        field_holds(m.product_info(), 0x2c, 16, m.self_info.manufacturer@),
        field_holds(m.product_info(), 0xac, 16, m.self_info.model_name@),
        m.product_info().subrange(0x12c, 0x130) == m.product_version_bytes@,
{
    law_board_info_describes_the_board(m.firmware_version_bytes@, m.self_info.board_name@);
    law_product_info_describes_the_product(
        m.self_info.manufacturer@,
        m.self_info.board_name@,
        m.self_info.model_name@,
        m.product_version_bytes@,
    );
}

/// A packet moves the packet number on by one and changes nothing else. The packets of a heartbeat
/// move it on once for each, and the numbers of the block groups that they hold.
pub proof fn law_a_step_changes_numbers_only(m: Multicaster, clock: bool, subscribed: bool)
    ensures
        m.advanced() == (Multicaster { seqnum: m.seqnum.wrapping_add(1), ..m }),
        ({
            let next = m.after_heartbeat(clock, subscribed);
            &&& next.seqnum == m.seqnum.wrapping_add(
                if clock && subscribed {
                    2
                } else {
                    1
                },
            )
            &&& next.util_block_seqnum == m.util_block_seqnum.wrapping_add(
                if clock {
                    1
                } else {
                    0
                },
            )
            &&& next.latency_block_seqnum == m.latency_block_seqnum.wrapping_add(
                if clock && subscribed {
                    1
                } else {
                    0
                },
            )
            &&& next.self_info == m.self_info
            &&& next.vendor == m.vendor
            &&& next.firmware_version_bytes == m.firmware_version_bytes
            &&& next.product_version_bytes == m.product_version_bytes
            &&& next.device_info_destination == m.device_info_destination
            &&& next.heartbeat_destination == m.heartbeat_destination
        }),
        m.after_utilization().seqnum == m.seqnum.wrapping_add(1),
        m.after_utilization().self_info == m.self_info,
        m.after_utilization().vendor == m.vendor,
        m.after_utilization().heartbeat_destination == m.heartbeat_destination,
        m.after_utilization().device_info_destination == m.device_info_destination,
        m.after_utilization().firmware_version_bytes == m.firmware_version_bytes,
        m.after_utilization().product_version_bytes == m.product_version_bytes,
{
}

/// After a heartbeat the same flows are there, and nothing is counted of any of them.
pub proof fn law_flows_stay_when_counts_start_anew(before: Telemetry, after: Telemetry, i: int)
    requires
        counts_start_anew(before, after),
    ensures
        after.tx_bytes == 0,
        after.rx_bytes == 0,
        after.tx_errors == 0,
        after.rx_errors == 0,
        before.flows is Some <==> after.flows is Some,
        before.flows matches Some(flows) ==> {
            &&& after.flows->0@.len() == flows@.len()
            &&& 0 <= i < flows@.len() ==> {
                &&& after.flows->0@[i] is Some <==> flows@[i] is Some
                &&& flows@[i] is Some ==> after.flows->0@[i]->0.actual_latency_samples == 0
                    && after.flows->0@[i]->0.missed_packets == 0
            }
        },
{
}

/// A master clock whose identity is written at the beginning of a file, in hexadecimal digits of
/// either case, is found, whatever white space stands around the text and whatever follows the
/// digits.
pub proof fn law_written_master_clock_is_found(content: Seq<char>, id: Seq<u8>)
    requires
        id.len() == 8,
        trimmed_ascii(encode_utf8(content)).len() >= 16,
        forall|i: int|
            0 <= i < 8 ==> (#[trigger] hex_value(trimmed_ascii(encode_utf8(content))[2 * i])) is Some
                && hex_value(trimmed_ascii(encode_utf8(content))[2 * i + 1]) is Some && hex_value(
                trimmed_ascii(encode_utf8(content))[2 * i],
            )->0 * 16 + hex_value(trimmed_ascii(encode_utf8(content))[2 * i + 1])->0 == id[i],
    ensures
        master_clock_in(content) == Some(id),
{
    let text = trimmed_ascii(encode_utf8(content));
    let digits = text.take(16);
    assert forall|k: int| 0 <= k < digits.len() implies hex_value(#[trigger] digits[k]) is Some by {
        let i = k / 2;
        assert(hex_value(text[2 * i]) is Some);
        assert(k == 2 * i || k == 2 * i + 1);
    }
    assert(hex_bytes(digits) =~= id) by {
        assert forall|i: int| 0 <= i < 8 implies hex_bytes(digits)[i] == id[i] by {
            assert(hex_value(text[2 * i]) is Some);
            assert(digits[2 * i] == text[2 * i] && digits[2 * i + 1] == text[2 * i + 1]);
        }
    }
}

/// A file tells no master clock if its text is shorter than twelve bytes or if any of the first
/// sixteen is not a hexadecimal digit.
pub proof fn law_other_files_tell_no_master_clock(content: Seq<char>, i: int)
    requires
        ({
            let text = trimmed_ascii(encode_utf8(content));
            text.len() < 12 || (text.len() >= 16 && 0 <= i < 16 && hex_value(text[i]) is None)
        }),
    ensures
        master_clock_in(content) is None,
{
    let text = trimmed_ascii(encode_utf8(content));
    if text.len() >= 16 {
        assert(text.take(16)[i] == text[i]);
    }
}

/// A file can be looked at if its text is too short for an identity, or if it can be cut behind the
/// sixteenth byte: it ends there, or a character begins there. Other files cannot.
pub proof fn law_readable_clock_files(text: Seq<u8>)
    ensures
        text.len() < 12 ==> clock_file_is_readable(text),
        text.len() == 16 ==> clock_file_is_readable(text),
        text.len() > 16 && !is_continuation_byte(text[16]) ==> clock_file_is_readable(text),
        12 <= text.len() < 16 ==> !clock_file_is_readable(text),
        text.len() > 16 && is_continuation_byte(text[16]) ==> !clock_file_is_readable(text),
{
}

/// What a search has found is the identity that it holds.
pub proof fn law_search_result_is_what_was_found(search: MasterClockSearch)
    ensures
        search.result() is Some <==> search.found is Some,
        search.found matches Some(id) ==> search.result() == Some(id@),
        search.wf() && search.found is Some ==> search.found->0@.len() == 8,
{
}

/// The groups that the device sends to are at their ports, and its packets are told apart by their
/// start codes.
pub proof fn law_ports_and_start_codes(n: u16)
    ensures
        n == DST_PORT_HEARTBEAT <==> n == 8708,
        n == DST_PORT_DEVICE_INFO <==> n == 8702,
        n == DEVICE_INFO_START_CODE <==> n == 0xffff,
        n == HEARTBEAT_START_CODE <==> n == 0xfffe,
{
}

/// The vendor in the header is the beginning of the vendor's UTF-8 bytes, as many as there is room
/// for, and spaces behind it.
pub proof fn law_vendor_is_padded_with_spaces(vendor_string: Seq<char>, i: int)
    requires
        0 <= i < 8,
    ensures
        ({
            let vendor = overwritten(
                Seq::new(8, |k: int| 0x20u8),
                0,
                text_field(vendor_string, 8),
            );
            let bytes = encode_utf8(vendor_string);
            &&& vendor.len() == 8
            &&& vendor[i] == if i < bytes.len() {
                bytes[i]
            } else {
                0x20
            }
        }),
{
}

} // verus!
