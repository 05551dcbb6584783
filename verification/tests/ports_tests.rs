use raftcli::app_ports::{
    extra_usb_info, filtered_ports, hex4_string, pattern_matches, select_most_likely_port,
    select_remote_port, wildcard_match, PortInfo, PortKind, PortsCmd, RemoteSelection, UsbInfo,
};
use wildmatch::WildMatch;

#[test]
fn wildcard_match_agrees_with_reference_matcher() {
    let cases = [
        ("*", ""),
        ("*", "anything"),
        ("?", ""),
        ("?", "a"),
        ("?", "ab"),
        ("a*c", "abc"),
        ("a*c", "ac"),
        ("a*c", "abcd"),
        ("a?c", "abc"),
        ("a?c", "ac"),
        ("*abc*", "xxabcyy"),
        ("*abc*", "xxabyy"),
        ("abc", "abc"),
        ("abc", "ab"),
        ("*a*b", "aab"),
        ("*a*b", "ba"),
        ("tty*", "ttyUSB0"),
        ("**a", "ba"),
        ("a*?", "ab"),
    ];
    for (pattern, text) in cases {
        assert_eq!(
            wildcard_match(pattern, text),
            WildMatch::new(pattern).matches(text),
            "pattern {:?} against {:?}",
            pattern,
            text
        );
    }
}

#[test]
fn plain_patterns_match_anywhere() {
    assert!(pattern_matches("ttyUSB0", &Some("USB".to_string())));
    assert!(!pattern_matches("ttyS0", &Some("USB".to_string())));
    assert!(pattern_matches("anything", &None));
    // A wildcard pattern must cover the whole name.
    assert!(pattern_matches("ttyUSB0", &Some("tty*".to_string())));
    assert!(!pattern_matches("ttyUSB0", &Some("USB*".to_string())));
}

#[test]
fn hex_identifiers_format_low_and_padded() {
    assert_eq!(hex4_string(0x303a), "303a");
    assert_eq!(hex4_string(0x0403), "0403");
    assert_eq!(hex4_string(0), "0000");
    assert_eq!(hex4_string(0xffff), "ffff");
}

fn usb_port(name: &str, vid: u16) -> PortInfo {
    PortInfo {
        port_name: name.to_string(),
        port_type: PortKind::Usb(UsbInfo {
            vid,
            pid: 0x1001,
            manufacturer: Some("Maker".to_string()),
            serial_number: None,
            product: None,
        }),
    }
}

#[test]
fn selection_prefers_known_vendors_then_names() {
    let ports = vec![
        usb_port("ttyUSB2", 0x1234),
        usb_port("ttyUSB1", 0x303a),
        usb_port("ttyUSB0", 0x1234),
        PortInfo { port_name: "ttyS0".to_string(), port_type: PortKind::Other },
    ];
    let cmd = PortsCmd::new_with_vid(None);
    let arranged = filtered_ports(ports, &cmd);
    // The non-USB port is filtered out; the Espressif port wins although
    // its name sorts after another; the rest follow in name order.
    let names: Vec<&str> = arranged.iter().map(|p| p.port_name.as_str()).collect();
    assert_eq!(names, vec!["ttyUSB1", "ttyUSB0", "ttyUSB2"]);
}

#[test]
fn selection_filters_on_vendor_id() {
    let ports = vec![usb_port("ttyUSB0", 0x1234), usb_port("ttyUSB1", 0x303a)];
    let cmd = PortsCmd::new_with_vid(Some("303a".to_string()));
    let chosen = select_most_likely_port(ports, &cmd);
    assert_eq!(chosen.unwrap().port_name, "ttyUSB1");

    let ports = vec![usb_port("ttyUSB0", 0x1234)];
    let cmd = PortsCmd::new_with_vid(Some("303a".to_string()));
    assert!(select_most_likely_port(ports, &cmd).is_none());
}

#[test]
fn index_picks_one_port() {
    let ports = vec![usb_port("a", 0x1234), usb_port("b", 0x1234), usb_port("c", 0x1234)];
    let mut cmd = PortsCmd::new_with_vid(None);
    cmd.index = Some(1);
    let arranged = filtered_ports(ports, &cmd);
    assert_eq!(arranged.len(), 1);
    assert_eq!(arranged[0].port_name, "b");

    let ports = vec![usb_port("a", 0x1234)];
    let mut cmd = PortsCmd::new_with_vid(None);
    cmd.index = Some(5);
    assert!(filtered_ports(ports, &cmd).is_empty());
}

#[test]
fn usb_info_line_shows_known_fields() {
    let info = UsbInfo {
        vid: 0x0403,
        pid: 0x6001,
        manufacturer: Some("FTDI".to_string()),
        serial_number: None,
        product: Some("Bridge".to_string()),
    };
    assert_eq!(extra_usb_info(&info), "0403:6001 manufacturer 'FTDI' product 'Bridge'");
}

#[test]
fn remote_listing_is_read_correctly() {
    assert!(matches!(select_remote_port("No ports found"), RemoteSelection::NoPorts));
    match select_remote_port("COM7 USB 0403:6001 manufacturer 'FTDI'\n") {
        RemoteSelection::Found(p) => assert_eq!(p.port_name, "COM7"),
        _ => panic!("expected a port"),
    }
    assert!(matches!(select_remote_port("\n\n"), RemoteSelection::TryLocal));
    assert!(matches!(select_remote_port("word"), RemoteSelection::TryLocal));
}
