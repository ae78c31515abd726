use drivers::xhci_scheme::{choose_lang_id, string_desc_text, string_desc_units};
use drivers::port_id::PortId;
use drivers::xhci_iface::{
    ConfDesc, ConfDescList, DevDesc, EndpDesc, EndpDescList, EndpDirection, HidDescList, IfDesc,
    IfDescList,
};
use drivers::xhci_iface::EndpointStatus;
use drivers::xhci_scheme::{
    def_control_endp_doorbell, endp_direction, endp_doorbell, endp_status_dci,
    endpoint_context_status, get_endp_desc, EndpLookupError,
};
use drivers::xhci_drivers::{
    device_driver_plan, driver_invocation, driver_plan, find_driver, find_interface, replace_bytes,
    DriverConfig, InterfaceWanted,
};

fn entry(name: &str, class: u8, subclass: i16, command: &[&str]) -> DriverConfig {
    DriverConfig {
        name: name.to_string(),
        class,
        subclass,
        command: command.iter().map(|s| s.to_string()).collect(),
    }
}

fn table() -> Vec<DriverConfig> {
    vec![
        entry("SCSI over USB", 8, 6, &["usbscsid", "$SCHEME", "$PORT", "$IF_PROTO"]),
        entry("USB HUB", 9, -1, &["usbhubd", "$SCHEME", "$PORT", "$IF_NUM"]),
        entry("USB HID", 3, -1, &["usbhidd", "$SCHEME", "$PORT", "$IF_NUM"]),
    ]
}

fn iface(number: u8, alternate_setting: u8, class: u8, sub_class: u8, protocol: u8) -> IfDesc {
    IfDesc {
        kind: 4,
        number,
        alternate_setting,
        class,
        sub_class,
        protocol,
        interface_str: None,
        endpoints: EndpDescList::from_vec(Vec::new()),
        hid_descs: HidDescList::from_vec(Vec::new()),
    }
}

fn endp(address: u8, attributes: u8) -> EndpDesc {
    EndpDesc { kind: 5, address, attributes, max_packet_size: 64, interval: 1, ssc: None, sspc: None }
}

fn config(value: u8, interfaces: Vec<IfDesc>) -> ConfDesc {
    ConfDesc {
        kind: 2,
        configuration_value: value,
        configuration: None,
        attributes: 0x80,
        max_power: 50,
        interface_descs: IfDescList::from_vec(interfaces),
    }
}

fn device(usb: u16, configs: Vec<ConfDesc>) -> DevDesc {
    DevDesc {
        kind: 1,
        usb,
        class: 0,
        sub_class: 0,
        protocol: 0,
        packet_size: 64,
        vendor: 0x1234,
        product: 0x5678,
        release: 0x0100,
        manufacturer_str: None,
        product_str: None,
        serial_str: None,
        config_descs: ConfDescList::from_vec(configs),
    }
}

#[test]
fn driver_table_lookup() {
    let t = table();
    assert_eq!(t[0].subclass(), Some(6));
    assert_eq!(t[1].subclass(), None);
    assert_eq!(entry("x", 1, 256, &[]).subclass(), None);
    assert_eq!(find_driver(&t, 8, 6), Some(0));
    // The mass storage entry asks for subclass 6 (SCSI) only.
    assert_eq!(find_driver(&t, 8, 1), None);
    // The hub entry takes any subclass.
    assert_eq!(find_driver(&t, 9, 0), Some(1));
    assert_eq!(find_driver(&t, 3, 1), Some(2));
    assert_eq!(find_driver(&t, 0xFF, 0), None);
}

#[test]
fn driver_plan_skips_alternates_and_unknown_classes() {
    let t = table();
    let ifaces = vec![
        iface(0, 0, 3, 1, 1),
        iface(0, 1, 3, 1, 1),
        iface(1, 0, 0xFF, 0, 0),
        iface(2, 0, 8, 6, 0x50),
    ];
    assert_eq!(driver_plan(&ifaces, &t), vec![(0, 2), (3, 0)]);
    assert_eq!(driver_plan(&[], &t), Vec::<(usize, usize)>::new());
}

#[test]
fn placeholder_replacement() {
    assert_eq!(replace_bytes(b"a$PORTb$PORT", b"$PORT", b"1.2"), b"a1.2b1.2".to_vec());
    assert_eq!(replace_bytes(b"aaa", b"aa", b"X"), b"Xa".to_vec());
    assert_eq!(replace_bytes(b"", b"$PORT", b"1"), Vec::<u8>::new());
    assert_eq!(replace_bytes(b"$POR", b"$PORT", b"1"), b"$POR".to_vec());
}

#[test]
fn driver_command_lines() {
    let t = table();
    let port = PortId { root_hub_port_num: 1, route_string: 0x2 };
    let inv = driver_invocation(&t[0], "usb.0000:00:14.0_xhci", port, 2, 0x50).unwrap();
    assert_eq!(String::from_utf8(inv.program).unwrap(), "/usr/lib/drivers/usbscsid");
    let args: Vec<String> = inv.args.into_iter().map(|a| String::from_utf8(a).unwrap()).collect();
    assert_eq!(args, vec!["usb.0000:00:14.0_xhci", "1.2", "80"]);

    let hub = driver_invocation(&t[1], "usb", PortId { root_hub_port_num: 3, route_string: 0 }, 0, 0)
        .unwrap();
    let args: Vec<String> = hub.args.into_iter().map(|a| String::from_utf8(a).unwrap()).collect();
    assert_eq!(args, vec!["usb", "3", "0"]);

    let absolute = entry("abs", 3, -1, &["/bin/hidd", "--port=$PORT"]);
    let inv = driver_invocation(&absolute, "usb", PortId { root_hub_port_num: 4, route_string: 0 }, 0, 0)
        .unwrap();
    assert_eq!(inv.program, b"/bin/hidd".to_vec());
    assert_eq!(inv.args, vec![b"--port=4".to_vec()]);

    assert!(driver_invocation(&entry("none", 3, -1, &[]), "usb", port, 0, 0).is_none());
}

#[test]
fn device_descriptor_lookups() {
    let mut storage = iface(0, 0, 8, 6, 0x50);
    storage.endpoints = EndpDescList::from_vec(vec![endp(0x81, 2), endp(0x02, 2)]);
    let mut hid = iface(1, 0, 3, 1, 1);
    hid.endpoints = EndpDescList::from_vec(vec![endp(0x83, 3)]);
    let dev = device(0x0210, vec![config(1, vec![storage, hid]), config(2, vec![])]);
    assert_eq!(dev.major_version(), 2);
    assert_eq!(dev.minor_version(), 0x10);

    assert_eq!(get_endp_desc(Some(&dev), Some(1), 0).map(|e| e.address), Some(0x81));
    assert_eq!(get_endp_desc(Some(&dev), Some(1), 1).map(|e| e.address), Some(0x02));
    // Endpoint indices run on into the next interface.
    assert_eq!(get_endp_desc(Some(&dev), Some(1), 2).map(|e| e.address), Some(0x83));
    assert!(get_endp_desc(Some(&dev), Some(1), 3).is_none());
    assert!(get_endp_desc(Some(&dev), Some(2), 0).is_none());
    assert!(get_endp_desc(Some(&dev), Some(7), 0).is_none());
    assert!(get_endp_desc(Some(&dev), None, 0).is_none());
    assert!(get_endp_desc(None, Some(1), 0).is_none());

    assert_eq!(endp_direction(&dev, 0), Some(EndpDirection::In));
    assert_eq!(endp_direction(&dev, 1), Some(EndpDirection::Out));
    assert_eq!(endp_direction(&dev, 2), None);
    assert_eq!(endp_direction(&device(0x0200, vec![]), 0), None);

    let t = table();
    assert_eq!(device_driver_plan(&dev, &t), Some(vec![(0, 0), (1, 2)]));
    assert_eq!(device_driver_plan(&device(0x0200, vec![]), &t), None);
}

#[test]
fn endpoint_status_from_context() {
    assert_eq!(endpoint_context_status(0), Some(EndpointStatus::Disabled));
    assert_eq!(endpoint_context_status(0xFFFF_FF01), Some(EndpointStatus::Enabled));
    assert_eq!(endpoint_context_status(0x0000_0402), Some(EndpointStatus::Halted));
    assert_eq!(endpoint_context_status(3), Some(EndpointStatus::Stopped));
    assert_eq!(endpoint_context_status(4), Some(EndpointStatus::Error));
    assert_eq!(endpoint_context_status(5), None);
    assert_eq!(endpoint_context_status(7), None);

    let mut storage = iface(0, 0, 8, 6, 0x50);
    storage.endpoints = EndpDescList::from_vec(vec![endp(0x81, 2), endp(0x02, 2)]);
    let dev = device(0x0200, vec![config(1, vec![storage])]);
    assert_eq!(endp_status_dci(&dev, 1), Ok(3));
    assert_eq!(endp_status_dci(&dev, 2), Ok(4));
    assert_eq!(endp_status_dci(&dev, 3), Err(EndpLookupError::NoEndpoint));
    assert_eq!(endp_status_dci(&device(0x0200, vec![]), 1), Err(EndpLookupError::NoInterface));
    assert_eq!(
        endp_status_dci(&device(0x0200, vec![config(1, vec![])]), 1),
        Err(EndpLookupError::NoInterface)
    );
}

#[test]
fn endpoint_doorbells() {
    assert_eq!(def_control_endp_doorbell(), 1);
    assert_eq!(endp_doorbell(1, &endp(0x81, 2), 0), 3);
    assert_eq!(endp_doorbell(2, &endp(0x02, 2), 0), 4);
    assert_eq!(endp_doorbell(1, &endp(0x81, 2), 1), 0x0001_0003);
    assert_eq!(endp_doorbell(5, &endp(0x00, 0), 0xFFFF), 0xFFFF_000B);
}

#[test]
fn class_driver_interface_search() {
    let hid = iface(0, 0, 3, 1, 1);
    let storage = iface(1, 0, 8, 6, 0x50);
    let storage_alt = iface(1, 1, 8, 6, 0x50);
    let dev = device(
        0x0300,
        vec![config(1, vec![hid.clone()]), config(2, vec![hid, storage, storage_alt])],
    );
    assert_eq!(find_interface(&dev, InterfaceWanted::BulkOnlyScsi), Some((1, 1)));
    assert_eq!(find_interface(&dev, InterfaceWanted::Number(0)), Some((0, 0)));
    assert_eq!(find_interface(&dev, InterfaceWanted::Number(1)), Some((1, 1)));
    assert_eq!(find_interface(&dev, InterfaceWanted::Number(2)), None);
    assert_eq!(find_interface(&device(0x0200, vec![]), InterfaceWanted::BulkOnlyScsi), None);
    // A UAS interface (protocol 0x62) is not bulk-only.
    let uas = device(0x0300, vec![config(1, vec![iface(0, 0, 8, 6, 0x62)])]);
    assert_eq!(find_interface(&uas, InterfaceWanted::BulkOnlyScsi), None);
}

fn string_desc(units: &[u16]) -> Vec<u8> {
    let mut d = vec![0u8; 256];
    d[0] = (2 + 2 * units.len()) as u8;
    d[1] = 3;
    for (k, u) in units.iter().enumerate() {
        d[2 + 2 * k..4 + 2 * k].copy_from_slice(&u.to_le_bytes());
    }
    d
}

#[test]
fn string_descriptors_and_language() {
    assert_eq!(string_desc_units(&string_desc(&[0x0407, 0x0409])), vec![0x0407, 0x0409]);
    assert_eq!(string_desc_units(&string_desc(&[])), Vec::<u16>::new());
    assert_eq!(choose_lang_id(&[0x0407, 0x0409]), 0x0409);
    assert_eq!(choose_lang_id(&[0x0407, 0x040C]), 0x0407);
    assert_eq!(choose_lang_id(&[]), 0);
    let text: Vec<u16> = "USB Disk ü😀".encode_utf16().collect();
    assert_eq!(string_desc_text(&string_desc(&text)), "USB Disk ü😀");
    // An unpaired surrogate makes the text empty.
    assert_eq!(string_desc_text(&string_desc(&[0x0041, 0xD800])), "");
    // An odd length drops the half unit.
    let mut d = string_desc(&[0x41, 0x42]);
    d[0] = 5;
    assert_eq!(string_desc_text(&d), "A");
}
