use inferno_aoip::byte_utils::{write_bytes_to_buffer, write_str_to_buffer};
use inferno_aoip::device_info::DeviceInfo;
use inferno_aoip::device_server::cmc_server::{handle_request, CmcContent, ResponseCode};
use inferno_aoip::device_server::interface_monitor::{InterfaceEvent, InterfaceMonitor};
use inferno_aoip::protocol::proto_cmc::{
    DeviceAdvertisement, PORT, REGISTER_CONTROLLER, REQUEST_DEVICE_ADVERTISEMENT,
};
use inferno_aoip::text::{same_text, starts_with, trim, trim_ascii};

fn device() -> DeviceInfo {
    DeviceInfo {
        process_id: 3,
        factory_device_id: [8, 7, 6, 5, 4, 3, 2, 1],
        vendor_string: String::new(),
        manufacturer: String::new(),
        model_name: String::new(),
        board_name: String::new(),
        firmware_version_bytes: None,
        product_version_bytes: None,
        sample_rate: 48000,
        bits_per_sample: 24,
        link_speed: 100,
        mac_address: [0; 6],
        ip_address: [10, 0, 0, 5],
        netmask: [255, 0, 0, 0],
        gateway: [10, 0, 0, 1],
        info_request_port: 6007,
        cmc_port: 6005,
        rx_channels_count: 0,
    }
}

#[test]
fn device_is_advertised() {
    let r = handle_request(&device(), REQUEST_DEVICE_ADVERTISEMENT, 0, &[1, 2]).unwrap();
    assert_eq!(r.start_code, 0x1200);
    assert_eq!(r.code, ResponseCode::Success);
    match r.content {
        CmcContent::Advertisement(adv) => {
            assert_eq!(adv.process_id, 3);
            assert_eq!(adv.factory_device_id, [8, 7, 6, 5, 4, 3, 2, 1]);
            assert_eq!(adv.unknown1_1, 1);
            assert_eq!(adv.unknown2_0, 0);
            assert_eq!(adv.ip_address, [10, 0, 0, 5]);
            assert_eq!(adv.info_request_port, 6007);
            assert_eq!(adv.unknown3_0, 0);
        }
        other => panic!("{:?}", other),
    }
}

#[test]
fn registration_is_echoed() {
    let r = handle_request(&device(), REGISTER_CONTROLLER, 0, &[1, 2, 3]).unwrap();
    assert_eq!(r.start_code, 0x1200);
    assert_eq!(r.code, ResponseCode::Success);
    match r.content {
        CmcContent::Echo(bytes) => assert_eq!(bytes, vec![1, 2, 3]),
        other => panic!("{:?}", other),
    }
}

#[test]
fn unknown_requests_get_no_answer() {
    assert!(handle_request(&device(), 0x1002, 0, &[]).is_none());
    assert!(handle_request(&device(), REQUEST_DEVICE_ADVERTISEMENT, 1, &[]).is_none());
    assert!(handle_request(&device(), REGISTER_CONTROLLER, 0x100, &[]).is_none());
}

#[test]
fn default_advertisement_is_zero() {
    let adv = DeviceAdvertisement::default();
    assert_eq!(PORT, 8800);
    assert_eq!(adv.process_id, 0);
    assert_eq!(adv.factory_device_id, [0; 8]);
    assert_eq!(adv.ip_address, [0; 4]);
    assert_eq!((adv.unknown1_1, adv.unknown2_0, adv.unknown3_0), (0, 0, 0));
}

#[test]
fn operational_states_are_understood() {
    for up in ["up", "up\n", " unknown\n", "lowerup", "\u{a0}up\u{3000}"] {
        assert!(InterfaceMonitor::is_interface_up(Some(up)));
    }
    for down in ["down\n", "", "UP", "up up", "dormant", "u p"] {
        assert!(!InterfaceMonitor::is_interface_up(Some(down)));
    }
    assert!(!InterfaceMonitor::is_interface_up(None));
    assert_eq!(InterfaceMonitor::operstate_path("eth0"), "/sys/class/net/eth0/operstate");
}

#[test]
fn changes_are_told_in_turn() {
    let mut monitor = InterfaceMonitor::new("eth0");
    assert_eq!(monitor.iface, "eth0");
    assert!(monitor.observe(false).is_none());
    assert!(matches!(monitor.observe(true), Some(InterfaceEvent::Up(name)) if name == "eth0"));
    assert!(monitor.observe(true).is_none());
    assert!(matches!(monitor.observe(false), Some(InterfaceEvent::Down(name)) if name == "eth0"));
    assert!(monitor.observe(false).is_none());
    assert!(!monitor.last_state);
}

#[test]
fn text_is_trimmed_and_compared() {
    assert_eq!(trim(" \u{2003}a b\t\n"), "a b");
    assert_eq!(trim("\u{85}\u{1680}\u{2028}\u{202f}\u{205f}"), "");
    assert_eq!(trim("\u{200b}x"), "\u{200b}x");
    assert_eq!(trim_ascii(b"\x0c a\x0b \r\n"), b"a\x0b");
    assert_eq!(trim_ascii(b""), b"");
    assert!(same_text("abc", "abc"));
    assert!(!same_text("abc", "abd"));
    assert!(starts_with("abc", "ab"));
    assert!(starts_with("abc", ""));
    assert!(!starts_with("ab", "abc"));
}

#[test]
fn text_agrees_with_std_on_every_character() {
    for c in '\0'..='\u{ffff}' {
        let s = format!("{}x{}", c, c);
        assert_eq!(trim(&s), s.trim());
    }
}

#[test]
fn text_fields_are_cut_and_keep_their_padding() {
    let mut buffer = [b'.'; 8];
    write_str_to_buffer(&mut buffer, 1, 4, "ab");
    assert_eq!(&buffer, b".ab.....");
    write_str_to_buffer(&mut buffer, 4, 4, "cdefgh");
    assert_eq!(&buffer, b".ab.cdef");
    write_bytes_to_buffer(&mut buffer, 0, &[1, 2]);
    assert_eq!(&buffer, &[1, 2, b'b', b'.', b'c', b'd', b'e', b'f']);
}
