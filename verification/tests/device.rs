use gcups::device::{
    listing_order, select_device, serial_transport, supported_devices, supported_transport,
    usb_transport, CYPRESS_PID, CYPRESS_VID,
};
use gcups::{DeviceInfo, DeviceSelector, Error, UpsTransport};

#[test]
fn supported_device_ids_include_cypress() {
    assert!(supported_devices().iter().any(|d| {
        d.vid == CYPRESS_VID && d.pid == CYPRESS_PID && d.transport == UpsTransport::CypressHid
    }));
}

#[test]
fn supported_transport_knows_every_documented_id() {
    assert_eq!(supported_transport(0x0001, 0x0000), Some(UpsTransport::Descriptor));
    assert_eq!(supported_transport(0x09d6, 0x0001), Some(UpsTransport::Descriptor));
    assert_eq!(supported_transport(0x0665, 0x5161), Some(UpsTransport::CypressHid));
    assert_eq!(supported_transport(0x067b, 0x2303), Some(UpsTransport::ProlificSerial));
    assert_eq!(supported_transport(0x1234, 0x5678), None);
}

#[test]
fn selector_display_honors_width() {
    // The `list` table pads this column.
    let sel = DeviceSelector::with_location(0x0001, 0x0000, 5, 3);
    assert_eq!(sel.to_string(), "0001:0000@005:003");
    let padded = format!("{:<22}", sel.to_string());
    assert_eq!(padded.len(), 22);
    assert_eq!(padded.trim_end(), "0001:0000@005:003");
}

#[test]
fn selector_parse_reports_each_error() {
    assert_eq!(
        DeviceSelector::parse("0665").unwrap_err(),
        "expected VID:PID or VID:PID@BUS:ADDR"
    );
    assert_eq!(
        DeviceSelector::parse(":5161").unwrap_err(),
        "VID must be 1 to 4 hexadecimal digits"
    );
    assert_eq!(
        DeviceSelector::parse("06651:5161").unwrap_err(),
        "VID must be 1 to 4 hexadecimal digits"
    );
    assert_eq!(
        DeviceSelector::parse("06g5:5161").unwrap_err(),
        "invalid VID: invalid digit found in string"
    );
    assert_eq!(
        DeviceSelector::parse("0665:").unwrap_err(),
        "PID must be 1 to 4 hexadecimal digits"
    );
    assert_eq!(
        DeviceSelector::parse("0665:5161@").unwrap_err(),
        "expected BUS:ADDR after @"
    );
    assert_eq!(
        DeviceSelector::parse("0665:5161@:004").unwrap_err(),
        "bus must not be empty"
    );
    assert_eq!(
        DeviceSelector::parse("0665:5161@256:004").unwrap_err(),
        "invalid bus: number too large to fit in target type"
    );
    assert_eq!(
        DeviceSelector::parse("0665:5161@001:x").unwrap_err(),
        "invalid address: invalid digit found in string"
    );
    // Multi-byte characters count by their UTF-8 length.
    assert_eq!(
        DeviceSelector::parse("\u{e9}\u{e9}\u{e9}:5161").unwrap_err(),
        "VID must be 1 to 4 hexadecimal digits"
    );
}

#[test]
fn selector_parse_trims_and_accepts_plus_and_case() {
    assert_eq!(
        DeviceSelector::parse("  0665:5161\t").unwrap(),
        DeviceSelector::new(0x0665, 0x5161)
    );
    assert_eq!(DeviceSelector::parse("+ff:ABCD").unwrap(), DeviceSelector::new(0xff, 0xabcd));
    assert_eq!(
        DeviceSelector::parse("1:2@+7:255").unwrap(),
        DeviceSelector::with_location(1, 2, 7, 255)
    );
}

#[test]
fn selector_round_trips_through_text() {
    for sel in [
        DeviceSelector::new(0, 0),
        DeviceSelector::new(0xffff, 0xabcd),
        DeviceSelector::with_location(0x067b, 0x2303, 0, 255),
        DeviceSelector::with_port(0x067b, 0x2303, "COM4".to_string()),
        DeviceSelector::with_port(0x067b, 0x2303, "/dev/ttyUSB0".to_string()),
    ] {
        assert_eq!(DeviceSelector::parse(&sel.to_string()).unwrap(), sel);
    }
}

fn cypress(bus: u8, address: u8) -> DeviceInfo {
    DeviceInfo {
        vid: CYPRESS_VID,
        pid: CYPRESS_PID,
        bus,
        address,
        transport: UpsTransport::CypressHid,
    }
}

#[test]
fn select_device_rejects_ambiguous_auto_and_vid_pid() {
    let devices = [cypress(1, 4), cypress(1, 5)];

    assert!(matches!(
        select_device(&devices, &[None, None], None),
        Err(Error::AmbiguousDeviceAuto { count: 2 })
    ));

    assert!(matches!(
        select_device(&devices, &[None, None], Some(DeviceSelector::new(CYPRESS_VID, CYPRESS_PID))),
        Err(Error::AmbiguousDeviceSelector { count: 2, .. })
    ));

    let index = select_device(
        &devices,
        &[None, None],
        Some(DeviceSelector::with_location(CYPRESS_VID, CYPRESS_PID, 1, 5)),
    )
    .unwrap();
    assert_eq!(devices[index].address, 5);
}

#[test]
fn select_device_without_devices_or_matches() {
    assert!(matches!(select_device(&[], &[], None), Err(Error::DeviceNotFound)));
    assert_eq!(select_device(&[cypress(2, 9)], &[None], None).unwrap(), 0);
    let sel = DeviceSelector::new(0x0001, 0x0000);
    assert!(matches!(
        select_device(&[cypress(2, 9)], &[None], Some(sel.clone())),
        Err(Error::DeviceNotFoundBySelector { selector }) if selector == sel
    ));
}

#[test]
fn device_selector_matches_its_device() {
    let d = cypress(3, 7);
    assert!(d.selector().matches(&d, &None));
    assert!(!d.selector().matches(&cypress(3, 8), &None));
    assert!(DeviceSelector::new(CYPRESS_VID, CYPRESS_PID).matches(&cypress(3, 8), &None));
    let com4 = DeviceSelector::with_port(CYPRESS_VID, CYPRESS_PID, "COM4".to_string());
    assert!(com4.matches(&cypress(0, 0), &Some("COM4".to_string())));
    assert!(!com4.matches(&cypress(0, 0), &Some("COM5".to_string())));
    assert!(!com4.matches(&cypress(0, 0), &None));
}

#[test]
fn transport_names() {
    assert_eq!(UpsTransport::Descriptor.to_string(), "MEC0003 descriptor");
    assert_eq!(UpsTransport::ProlificSerial.to_string(), "Prolific serial Q1");
}

#[test]
fn listed_selector_picks_that_device() {
    let devices = [cypress(1, 4), cypress(1, 5), cypress(2, 4)];
    let paths = [None, None, None];
    for (i, d) in devices.iter().enumerate() {
        assert_eq!(select_device(&devices, &paths, Some(d.selector())).unwrap(), i);
        let printed = d.selector().to_string();
        let parsed = DeviceSelector::parse(&printed).unwrap();
        assert_eq!(select_device(&devices, &paths, Some(parsed)).unwrap(), i);
    }
}

fn prolific() -> DeviceInfo {
    DeviceInfo {
        vid: 0x067b,
        pid: 0x2303,
        bus: 0,
        address: 0,
        transport: UpsTransport::ProlificSerial,
    }
}

#[test]
fn serial_port_selectors_parse_print_and_select() {
    let sel: DeviceSelector = "067b:2303@COM4".parse().unwrap();
    assert_eq!(sel, DeviceSelector::with_port(0x067b, 0x2303, "COM4".to_string()));
    assert_eq!(sel.port.as_deref(), Some("COM4"));
    assert_eq!(sel.location, None);
    let sel = DeviceSelector::parse(" 067b:2303@/dev/ttyUSB0 ").unwrap();
    assert_eq!(sel.port.as_deref(), Some("/dev/ttyUSB0"));
    assert_eq!(sel.to_string(), "067b:2303@/dev/ttyUSB0");

    let devices = [cypress(1, 4), prolific(), prolific()];
    let paths = [
        None,
        Some("/dev/ttyUSB0".to_string()),
        Some("/dev/ttyUSB1".to_string()),
    ];
    for i in 0..devices.len() {
        let listed = devices[i].listed_selector(&paths[i]);
        let printed = listed.to_string();
        let parsed = DeviceSelector::parse(&printed).unwrap();
        assert_eq!(parsed, listed);
        assert_eq!(select_device(&devices, &paths, Some(parsed)).unwrap(), i);
    }
    assert_eq!(devices[1].listed_selector(&paths[1]).to_string(), "067b:2303@/dev/ttyUSB0");
    assert_eq!(devices[0].listed_selector(&paths[0]).to_string(), "0665:5161@001:004");
    assert!(matches!(
        select_device(&devices, &paths, Some(DeviceSelector::new(0x067b, 0x2303))),
        Err(Error::AmbiguousDeviceSelector { count: 2, .. })
    ));
    assert!(matches!(
        select_device(&devices, &paths, Some("067b:2303@COM9".parse().unwrap())),
        Err(Error::DeviceNotFoundBySelector { .. })
    ));
}

fn device(transport: UpsTransport, bus: u8, address: u8) -> DeviceInfo {
    DeviceInfo { vid: 1, pid: 2, bus, address, transport }
}

#[test]
fn listing_order_sorts_by_transport_bus_address_path() {
    let devices = [
        device(UpsTransport::ProlificSerial, 0, 0),
        device(UpsTransport::CypressHid, 2, 1),
        device(UpsTransport::ProlificSerial, 0, 0),
        device(UpsTransport::Descriptor, 5, 3),
        device(UpsTransport::CypressHid, 1, 9),
        device(UpsTransport::CypressHid, 1, 4),
        device(UpsTransport::ProlificSerial, 0, 0),
    ];
    let paths = [
        Some("/dev/ttyUSB1".to_string()),
        None,
        Some("/dev/ttyUSB0".to_string()),
        None,
        None,
        None,
        Some("COM3".to_string()),
    ];
    assert_eq!(listing_order(&devices, &paths), vec![3, 5, 4, 1, 2, 0, 6]);
}

#[test]
fn listing_order_keeps_ties_in_found_order() {
    let devices = [device(UpsTransport::CypressHid, 1, 1); 3];
    let paths = [None, None, None];
    assert_eq!(listing_order(&devices, &paths), vec![0, 1, 2]);
    assert_eq!(listing_order(&[], &[]), Vec::<usize>::new());
}

#[test]
fn usb_and_serial_enumeration_split_the_transports() {
    assert_eq!(usb_transport(0x0001, 0x0000), Some(UpsTransport::Descriptor));
    assert_eq!(usb_transport(0x09d6, 0x0001), Some(UpsTransport::Descriptor));
    assert_eq!(usb_transport(0x0665, 0x5161), Some(UpsTransport::CypressHid));
    assert_eq!(usb_transport(0x067b, 0x2303), None);
    assert_eq!(usb_transport(0x1234, 0x5678), None);
    assert_eq!(serial_transport(0x067b, 0x2303), Some(UpsTransport::ProlificSerial));
    assert_eq!(serial_transport(0x0665, 0x5161), None);
}
