use inferno_aoip::device_info::DeviceInfo;
use inferno_aoip::device_server::info_mcast_server::{
    classify_request, master_clock_id, InfoRequest, MasterClockSearch, Multicaster,
    RequestAction, MAX_FLOWS, MAX_PEAKS,
};
use inferno_aoip::protocol::heartbeat::{FlowInfo, Telemetry};
use inferno_aoip::protocol::mcast::{make_packet, Datagram, MulticastMessage, SEND_BUFFER_SIZE};

fn device() -> DeviceInfo {
    DeviceInfo {
        process_id: 2,
        factory_device_id: [0, 0x1d, 0xc1, 1, 2, 3, 0, 0],
        vendor_string: "Acme".to_string(),
        manufacturer: "Acme Audio Works".to_string(),
        model_name: "Box".to_string(),
        board_name: "BoardNameThatIsLong".to_string(),
        firmware_version_bytes: None,
        product_version_bytes: Some([9, 8, 7, 6]),
        sample_rate: 96000,
        bits_per_sample: 24,
        link_speed: 1000,
        mac_address: [0x00, 0x1d, 0xc1, 0x0a, 0xb0, 0xff],
        ip_address: [192, 168, 1, 25],
        netmask: [255, 255, 255, 0],
        gateway: [192, 168, 1, 1],
        info_request_port: 6007,
        cmc_port: 6005,
        rx_channels_count: 2,
    }
}

fn counted() -> Telemetry {
    Telemetry { tx_bytes: 0, rx_bytes: 0, tx_errors: 0, rx_errors: 0, flows: None }
}

fn request(opcode: [u8; 8]) -> Vec<u8> {
    let mut bytes = vec![0xaa; 24];
    bytes.extend_from_slice(&opcode);
    bytes
}

fn header_of(d: &Datagram) -> &[u8] {
    &d.payload[..32]
}

fn content_of(d: &Datagram) -> &[u8] {
    &d.payload[32..]
}

#[test]
fn packet_has_its_fields_in_place() {
    let packet = make_packet(
        0xffff,
        0x0102,
        0x0304,
        [1, 2, 3, 4, 5, 6, 7, 8],
        *b"Acme    ",
        [0x07, 0x2a, 0, 0x60, 0, 0, 0, 0],
        &[0xee, 0xdd],
    );
    let mut expected = vec![0xff, 0xff, 0x01, 0x02, 0, 0, 0x03, 0x04, 1, 2, 3, 4, 5, 6, 7, 8];
    expected.extend_from_slice(b"Acme    ");
    expected.extend_from_slice(&[0x07, 0x2a, 0, 0x60, 0, 0, 0, 0, 0xee, 0xdd]);
    assert_eq!(packet, expected);
}

#[test]
fn new_multicaster_has_padded_vendor_and_default_version() {
    let info = device();
    let m = Multicaster::new(&info);
    assert_eq!(&m.vendor, b"Acme    ");
    assert_eq!(m.firmware_version_bytes, [4, 1, 0, 6]);
    assert_eq!(m.product_version_bytes, [9, 8, 7, 6]);
    assert_eq!(m.device_info_destination.address, [224, 0, 0, 231]);
    assert_eq!(m.device_info_destination.port, 8702);
    assert_eq!(m.heartbeat_destination.address, [224, 0, 0, 233]);
    assert_eq!(m.heartbeat_destination.port, 8708);
    assert_eq!((m.seqnum, m.util_block_seqnum, m.latency_block_seqnum), (1, 1, 1));

    let mut info = device();
    info.vendor_string = "Longer than eight".to_string();
    assert_eq!(&Multicaster::new(&info).vendor, b"Longer t");
}

#[test]
fn announcement_tells_board_product_and_sample_rate() {
    let info = device();
    let mut m = Multicaster::new(&info);
    let packets = m.announce();
    assert_eq!(packets.len(), 3);
    assert_eq!(m.seqnum, 4);

    let mut header = vec![0xff, 0xff, 0, 1, 0, 0, 0, 2, 0, 0x1d, 0xc1, 1, 2, 3, 0, 0];
    header.extend_from_slice(b"Acme    ");
    header.extend_from_slice(&[0x07, 0x2a, 0x00, 0x60, 0, 0, 0, 0]);
    assert_eq!(header_of(&packets[0]), &header[..]);
    assert_eq!(packets[0].destination, m.device_info_destination);

    let mut board = vec![0u8; 200];
    board[0..4].copy_from_slice(&[4, 1, 0, 6]);
    board[4..8].copy_from_slice(&[4, 1, 0, 3]);
    board[12..20].copy_from_slice(b"BoardNam");
    board[0x15] = 0x7c;
    board[0x16] = 0x10;
    board[0x17] = 0x4b;
    board[0x23] = 2;
    board[0x27] = 1;
    board[0x28] = 1;
    board[0x38..0x48].copy_from_slice(b"BoardNameThatIsL");
    board[0xbb] = 0x1f;
    board[0xbf] = 5;
    board[0xc3] = 3;
    board[0xc7] = 3;
    assert_eq!(content_of(&packets[0]), &board[..]);

    assert_eq!(packets[1].payload[2..4], [0, 2]);
    assert_eq!(packets[1].payload[24..32], [0x07, 0x2a, 0x00, 0xc0, 0, 0, 0, 0]);
    let mut product = vec![0u8; 336];
    product[0..8].copy_from_slice(b"Acme Aud");
    product[8..16].copy_from_slice(b"BoardNam");
    product[0x1c..0x20].copy_from_slice(&[9, 8, 7, 6]);
    product[0x2c..0x3c].copy_from_slice(b"Acme Audio Works");
    product[0xac..0xaf].copy_from_slice(b"Box");
    product[0x12c..0x130].copy_from_slice(&[9, 8, 7, 6]);
    assert_eq!(content_of(&packets[1]), &product[..]);

    assert_eq!(packets[2].destination, m.device_info_destination);
    assert_eq!(packets[2].payload[..4], [0xff, 0xff, 0, 3]);
    assert_eq!(packets[2].payload[24..32], [0x07, 0x2a, 0x00, 0x80, 0, 0, 0, 0]);
    assert_eq!(
        content_of(&packets[2]),
        &[
            0x00, 0x18, 0x00, 0x01, 0x00, 0x01, 0x77, 0x00, 0x00, 0x01, 0x77, 0x00, 0x00, 0x01,
            0x00, 0x00, 0x00, 0x01, 0x77, 0x00
        ][..]
    );
}

#[test]
fn requests_are_told_apart() {
    let kinds = [
        ([0x07, 0x38, 0, 0x61, 0, 0, 0, 0], InfoRequest::BoardInfo),
        ([0x07, 0x38, 0, 0x61, 0, 0, 0, 1], InfoRequest::Unknown),
        ([0x07, 0xff, 0, 0xc1, 0, 0, 0, 0], InfoRequest::ProductInfo),
        ([0x07, 0xff, 0, 0xc1, 0, 0, 0, 9], InfoRequest::Unknown),
        ([0x07, 0x38, 0, 0x21, 0, 0, 0, 0x64], InfoRequest::ClockStats),
        ([0x07, 0x38, 0, 0x13, 0, 0, 0, 0x64], InfoRequest::NetworkInfo),
        ([0x07, 0x38, 0, 0x77, 0, 0, 0, 0x64], InfoRequest::ClearConfig),
        ([0x07, 0x3d, 0, 0x81, 0, 0, 0, 0x64], InfoRequest::SampleRate),
        ([0x07, 0x3d, 0, 0x83, 0, 0, 0, 0x64], InfoRequest::Encoding),
        ([0x07, 0x3d, 0, 0x90, 0, 0, 0, 0x64], InfoRequest::Reboot),
        ([0x07, 0x3d, 0x10, 0x08, 0, 0, 0, 0x64], InfoRequest::HeartbeatQuery),
        ([0x07, 0x3d, 0, 0x91, 0, 0, 0, 0x64], InfoRequest::FactoryReset),
        ([0x07, 0x3d, 0, 0x91, 0, 1, 0, 0x64], InfoRequest::Unknown),
        ([0x06, 0x3d, 0, 0x91, 0, 0, 0, 0x64], InfoRequest::Unknown),
        ([0x07, 0x3d, 0x10, 0x61, 0, 0, 0, 0], InfoRequest::Unknown),
        ([0x07, 0x3d, 0, 0x08, 0, 0, 0, 0], InfoRequest::Unknown),
    ];
    for (opcode, kind) in kinds {
        assert_eq!(classify_request(&request(opcode)), kind);
    }
    assert_eq!(classify_request(&[0x07; 31]), InfoRequest::TooShort);
}

fn sent(action: RequestAction) -> Datagram {
    match action {
        RequestAction::Send(d) => d,
        other => panic!("{:?}", other),
    }
}

#[test]
fn requests_are_answered() {
    let info = device();
    let mut m = Multicaster::new(&info);

    let d = sent(m.handle_request(&request([0x07, 0x38, 0, 0x61, 0, 0, 0, 0])));
    assert_eq!(d.payload[24..32], [0x07, 0x2a, 0, 0x60, 0, 0, 0, 0]);
    assert_eq!(d.payload.len(), 232);
    let d = sent(m.handle_request(&request([0x07, 0x38, 0, 0xc1, 0, 0, 0, 0])));
    assert_eq!(d.payload[24..32], [0x07, 0x2a, 0, 0xc0, 0, 0, 0, 0]);
    assert_eq!(d.payload.len(), 368);

    let d = sent(m.handle_request(&request([0x07, 0x38, 0, 0x13, 0, 0, 0, 1])));
    assert_eq!(d.payload[2..4], [0, 3]);
    assert_eq!(d.payload[24..32], [0x07, 0x2a, 0, 0x11, 0, 0, 0, 0]);
    let mut network = vec![0, 1, 0, 0, 0, 0, 0x03, 0xe8, 0, 1];
    network.extend_from_slice(&[0x00, 0x1d, 0xc1, 0x0a, 0xb0, 0xff]);
    network.extend_from_slice(&[192, 168, 1, 25, 255, 255, 255, 0]);
    network.extend_from_slice(&[192, 168, 1, 1, 192, 168, 1, 1]);
    network.extend_from_slice(&[0x00, 0x18, 0x00, 0x30]);
    network.extend_from_slice(&[0; 28]);
    assert_eq!(content_of(&d), &network[..]);

    // 96000 needs more than 16 bits.
    let d = sent(m.handle_request(&request([0x07, 0x38, 0, 0x81, 0, 0, 0, 0x64])));
    assert_eq!(d.payload[24..32], [0x07, 0x2a, 0, 0x80, 0, 0, 0, 0]);
    assert_eq!(
        content_of(&d),
        &[
            0x00, 0x18, 0x00, 0x01, 0x00, 0x01, 0x77, 0x00, 0x00, 0x01, 0x77, 0x00, 0x00, 0x01,
            0x00, 0x00, 0x00, 0x01, 0x77, 0x00
        ][..]
    );

    let d = sent(m.handle_request(&request([0x07, 0x38, 0, 0x83, 0, 0, 0, 0x64])));
    assert_eq!(d.payload[24..32], [0x07, 0x2a, 0, 0x82, 0, 0, 0, 0]);
    assert_eq!(
        content_of(&d),
        &[
            0x00, 0x18, 0x00, 0x03, 0, 0, 0, 24, 0, 0, 0, 24, 0x00, 0x01, 0x00, 0x00, 0, 0, 0, 24
        ][..]
    );
    assert_eq!(m.seqnum, 6);
}

#[test]
fn sample_rate_of_48000_matches_the_capture() {
    let mut info = device();
    info.sample_rate = 48000;
    let mut m = Multicaster::new(&info);
    assert_eq!(
        content_of(&m.send_sample_rate()),
        &[
            0x00, 0x18, 0x00, 0x01, 0x00, 0x00, 0xbb, 0x80, 0x00, 0x00, 0xbb, 0x80, 0x00, 0x01,
            0x00, 0x00, 0x00, 0x00, 0xbb, 0x80
        ][..]
    );
}

#[test]
fn reboot_is_acknowledged_and_others_are_ignored() {
    let info = device();
    let mut m = Multicaster::new(&info);
    match m.handle_request(&request([0x07, 0x38, 0, 0x90, 0, 0, 0, 0])) {
        RequestAction::SendAndRestart(d) => {
            assert_eq!(d.payload[24..], [0x07, 0x2a, 0, 0x92, 0, 0, 0, 0]);
            assert_eq!(d.destination, m.device_info_destination);
        }
        other => panic!("{:?}", other),
    }
    assert_eq!(m.seqnum, 2);
    for opcode in [
        [0x07, 0x38, 0, 0x77, 0, 0, 0, 0],
        [0x07, 0x38, 0, 0x91, 0, 0, 0, 0],
        [0x07, 0x38, 0x10, 0x08, 0, 0, 0, 0],
        [0x01, 0x38, 0, 0x61, 0, 0, 0, 0],
    ] {
        assert!(matches!(m.handle_request(&request(opcode)), RequestAction::Ignore));
    }
    assert!(matches!(m.handle_request(&[]), RequestAction::Ignore));
    assert!(matches!(
        m.handle_request(&request([0x07, 0x38, 0, 0x21, 0, 0, 0, 0x64])),
        RequestAction::ReportClock
    ));
    assert_eq!(m.seqnum, 2);
}

#[test]
fn own_packets_ask_for_nothing() {
    let info = device();
    let mut m = Multicaster::new(&info);
    let mut packets = m.announce();
    packets.push(m.send_network_info());
    packets.push(m.send_sample_rate());
    packets.push(m.send_encoding());
    packets.push(m.send_clock_stats(Some(1), Some(vec![0; 8])).unwrap());
    for d in packets {
        assert_eq!(classify_request(&d.payload), InfoRequest::Unknown);
    }
}

#[test]
fn clock_stats_need_offset_and_master() {
    let info = device();
    let mut m = Multicaster::new(&info);
    assert!(m.send_clock_stats(None, Some(vec![1; 8])).is_none());
    assert!(m.send_clock_stats(Some(5), None).is_none());
    assert_eq!(m.seqnum, 1);

    let d = m.send_clock_stats(Some(-2), Some(vec![1, 2, 3, 4, 5, 6, 7, 8])).unwrap();
    assert_eq!(d.payload[24..32], [0x07, 0x2a, 0, 0x20, 0, 0, 0, 0]);
    let mut content = vec![0x00, 0x03, 0x00, 0x03, 0x00, 0x00, 0x00, 0x9f];
    content.extend_from_slice(&[0xff, 0xff, 0xff, 0xfe]);
    content.extend_from_slice(&[0x00, 0x1d, 0xc1, 0x0a, 0xb0, 0xff, 0, 0]);
    content.extend_from_slice(&[1, 2, 3, 4, 5, 6, 7, 8, 1, 2, 3, 4, 5, 6, 7, 8]);
    content.extend_from_slice(&[0; 76]);
    assert_eq!(content_of(&d), &content[..]);
    assert_eq!(m.seqnum, 2);
}

#[test]
fn clock_files_are_found_by_address() {
    let search = MasterClockSearch::new(&[0x00, 0x1d, 0xc1, 0x0a, 0xb0, 0xff]);
    assert_eq!(search.prefix, "clock-stats.001dc10ab0ff0000");
    assert!(search.wants("clock-stats.001dc10ab0ff0000.1"));
    assert!(search.wants("clock-stats.001dc10ab0ff0000"));
    assert!(!search.wants("clock-stats.001dc10ab0ff000"));
    assert!(!search.wants("clock-stats.001DC10AB0FF0000"));
    assert!(!search.wants(""));
}

#[test]
fn first_clock_file_that_tells_counts() {
    let mut search = MasterClockSearch::new(&[0; 6]);
    search.look_at("not hexadecimal at all");
    search.look_at("short");
    assert_eq!(search.found, None);
    assert!(search.wants("clock-stats.0000000000000000"));
    search.look_at("0102030405060708");
    assert_eq!(search.found, Some(vec![1, 2, 3, 4, 5, 6, 7, 8]));
    assert!(!search.wants("clock-stats.0000000000000000"));
    search.look_at("1112131415161718");
    assert_eq!(search.found, Some(vec![1, 2, 3, 4, 5, 6, 7, 8]));
}

#[test]
fn master_clock_is_read_from_its_digits() {
    let id = vec![0x00, 0x1d, 0xc1, 0xff, 0xfe, 0x11, 0x11, 0x33];
    assert_eq!(master_clock_id("001dc1fffe111133"), Some(id.clone()));
    assert_eq!(master_clock_id(" \t\r\n001DC1FFFE111133 and more\x0c\n"), Some(id));
    assert_eq!(master_clock_id("001dc1fffe11113g"), None);
    assert_eq!(master_clock_id("001dc1fffe1"), None);
    assert_eq!(master_clock_id("   "), None);
    assert_eq!(master_clock_id(""), None);
    // Other white space is not trimmed.
    assert_eq!(master_clock_id("\x0b001dc1fffe111133"), None);
}

#[test]
fn heartbeat_without_a_clock_is_empty() {
    let info = device();
    let mut m = Multicaster::new(&info);
    let mut telemetry = counted();
    telemetry.tx_bytes = 5;
    telemetry.flows =
        Some(vec![Some(FlowInfo { actual_latency_samples: 4, missed_packets: 3 })]);
    let packets = m.send_heartbeat(None, &[], &[], &mut telemetry);
    assert_eq!(packets.len(), 1);
    assert_eq!(packets[0].destination, m.heartbeat_destination);
    assert_eq!(packets[0].payload.len(), 32);
    assert_eq!(packets[0].payload[..4], [0xff, 0xfe, 0, 1]);
    assert_eq!(packets[0].payload[24..32], [0, 8, 0, 1, 0x10, 0, 0, 0]);
    assert_eq!((m.seqnum, m.util_block_seqnum, m.latency_block_seqnum), (2, 1, 1));
    assert_eq!(telemetry.tx_bytes, 5);
    assert_eq!(telemetry.flows.unwrap()[0].unwrap().missed_packets, 3);
}

#[test]
fn heartbeat_tells_and_resets_the_counts() {
    let info = device();
    let mut m = Multicaster::new(&info);
    m.util_block_seqnum = 0x0102;
    m.latency_block_seqnum = u16::MAX;
    let mut telemetry = Telemetry {
        tx_bytes: 0x1_0000_0000,
        rx_bytes: 0x0102_0304,
        tx_errors: 7,
        rx_errors: 8,
        flows: Some(vec![
            Some(FlowInfo { actual_latency_samples: 38, missed_packets: 2 }),
            None,
            Some(FlowInfo { actual_latency_samples: -5, missed_packets: 0x0a0b_0c0d }),
        ]),
    };
    let packets = m.send_heartbeat(Some(-1000), &[10, 11], &[12], &mut telemetry);
    assert_eq!(packets.len(), 2);

    assert_eq!(packets[0].destination, m.heartbeat_destination);
    assert_eq!(packets[0].payload[..4], [0xff, 0xfe, 0, 1]);
    let mut first = vec![0, 36, 0x80, 0x00, 0, 4, 0, 4, 1, 2, 0, 0];
    first.extend_from_slice(&[0x00, 0x10, 0, 0, 0, 0x01, 0x00, 0x10]);
    first.extend_from_slice(&[0xff, 0xff, 0xff, 0xff, 1, 2, 3, 4, 0, 0, 0, 7, 0, 0, 0, 8]);
    first.extend_from_slice(&[0, 16, 0x80, 0x01, 0, 4, 0, 4, 1, 2, 0, 0]);
    first.extend_from_slice(&[0xff, 0xff, 0xfc, 0x18]);
    first.extend_from_slice(&[0, 28, 0x80, 0x02, 0, 4, 0, 16, 1, 2, 0, 0]);
    first.extend_from_slice(&[0, 2, 0, 0, 0, 1, 0, 0, 0, 24, 0, 0, 10, 11, 12, 0]);
    assert_eq!(content_of(&packets[0]), &first[..]);

    assert_eq!(packets[1].destination, m.heartbeat_destination);
    assert_eq!(packets[1].payload[..4], [0xff, 0xfe, 0, 2]);
    assert_eq!(packets[1].payload[24..32], [0, 8, 0, 1, 0x10, 0, 0, 0]);
    let mut second = vec![0, 36, 0x80, 0x03, 0, 4, 0, 24, 0xff, 0xff, 0, 0];
    second.extend_from_slice(&[0, 3, 0, 0, 0, 24, 0, 0, 0x00, 0x01, 0x77, 0x00]);
    second.extend_from_slice(&[0, 0, 0, 38, 0, 0, 0, 0, 0, 0, 0, 0]);
    second.extend_from_slice(&[0, 32, 0x80, 0x04, 0, 4, 0, 20, 0xff, 0xff, 0, 0]);
    second.extend_from_slice(&[0, 3, 0, 0, 0, 20, 0, 0]);
    second.extend_from_slice(&[0, 0, 0, 2, 0, 0, 0, 0, 0x0a, 0x0b, 0x0c, 0x0d]);
    assert_eq!(content_of(&packets[1]), &second[..]);

    assert_eq!((m.seqnum, m.util_block_seqnum, m.latency_block_seqnum), (3, 0x0103, 0));
    assert_eq!(
        (telemetry.tx_bytes, telemetry.rx_bytes, telemetry.tx_errors, telemetry.rx_errors),
        (0, 0, 0, 0)
    );
    let flows = telemetry.flows.as_ref().unwrap();
    assert_eq!(flows[0].unwrap().actual_latency_samples, 0);
    assert_eq!(flows[2].unwrap().missed_packets, 0);
    assert!(flows[1].is_none());

    // Nothing new was counted: everything is zero the second time.
    let packets = m.send_heartbeat(Some(0), &[], &[], &mut telemetry);
    assert_eq!(packets[0].payload[32 + 20..32 + 36], [0; 16]);
    assert_eq!(packets[1].payload[32 + 24..32 + 36], [0; 12]);
}

#[test]
fn peaks_are_padded_to_four_bytes() {
    let info = device();
    let mut m = Multicaster::new(&info);
    let packets = m.send_heartbeat(Some(0), &[1, 2, 3, 4], &[5], &mut counted());
    let block = &content_of(&packets[0])[52..];
    let mut expected = vec![0, 32, 0x80, 0x02, 0, 4, 0, 20, 0, 1, 0, 0];
    expected.extend_from_slice(&[0, 4, 0, 0, 0, 1, 0, 0, 0, 24, 0, 0]);
    expected.extend_from_slice(&[1, 2, 3, 4, 5, 0, 0, 0]);
    assert_eq!(block, &expected[..]);
}

#[test]
fn block_numbers_count_the_heartbeats_that_hold_them() {
    let info = device();
    let mut m = Multicaster::new(&info);
    let mut subscribed = counted();
    // Without a clock nothing is read, however much there is.
    subscribed.flows = Some(vec![None; MAX_FLOWS + 1]);
    m.send_heartbeat(None, &vec![0; MAX_PEAKS + 1], &[], &mut subscribed);
    subscribed.flows = Some(vec![None]);
    m.send_heartbeat(Some(0), &[], &[], &mut subscribed);
    m.send_heartbeat(Some(0), &[], &[], &mut counted());
    m.send_heartbeat(None, &[], &[], &mut counted());
    m.send_heartbeat(Some(0), &[], &[], &mut subscribed);
    assert_eq!((m.util_block_seqnum, m.latency_block_seqnum, m.seqnum), (4, 3, 8));
}

#[test]
fn heartbeat_without_subscriptions_is_one_packet() {
    let info = device();
    let mut m = Multicaster::new(&info);
    let packets = m.send_heartbeat(Some(1), &[], &[], &mut counted());
    assert_eq!(packets.len(), 1);
    assert_eq!(packets[0].payload.len(), 32 + 76);
    assert_eq!((m.seqnum, m.util_block_seqnum, m.latency_block_seqnum), (2, 2, 1));
}

#[test]
fn largest_heartbeat_fills_the_packet() {
    let info = device();
    let mut m = Multicaster::new(&info);
    let peaks = vec![1; MAX_PEAKS];
    let mut telemetry = counted();
    telemetry.flows = Some(vec![None; MAX_FLOWS]);
    let packets = m.send_heartbeat(Some(1), &peaks, &[], &mut telemetry);
    assert_eq!(packets[0].payload.len(), SEND_BUFFER_SIZE);
    assert_eq!(packets[1].payload.len(), SEND_BUFFER_SIZE);
}

#[test]
fn messages_are_relayed_under_the_running_number() {
    let info = device();
    let mut m = Multicaster::new(&info);
    m.seqnum = u16::MAX;
    let msg = MulticastMessage {
        start_code: 0x1234,
        opcode: [1, 2, 3, 4, 5, 6, 7, 8],
        content: vec![9, 9],
    };
    let d = m.relay(&msg);
    assert_eq!(d.destination, m.device_info_destination);
    assert_eq!(d.payload[..4], [0x12, 0x34, 0xff, 0xff]);
    assert_eq!(d.payload[24..], [1, 2, 3, 4, 5, 6, 7, 8, 9, 9]);
    assert_eq!(m.seqnum, 0);
}

#[test]
fn nth_packet_carries_its_number() {
    let info = device();
    let mut m = Multicaster::new(&info);
    let msg = MulticastMessage { start_code: 1, opcode: [0; 8], content: vec![] };
    let mut n: usize = 0;
    while n < 70_000 {
        let mut telemetry = counted();
        telemetry.flows = Some(vec![]);
        let mut packets = m.send_heartbeat(Some(0), &[], &[], &mut telemetry);
        packets.extend(m.send_heartbeat(None, &[], &[], &mut telemetry));
        packets.extend(m.announce());
        packets.push(m.relay(&msg));
        packets.push(sent(m.handle_request(&request([0x07, 0, 0, 0x13, 0, 0, 0, 0]))));
        assert_eq!(packets.len(), 8);
        for d in &packets {
            n += 1;
            assert_eq!(d.payload[2..4], (n as u16).to_be_bytes());
        }
    }
}
