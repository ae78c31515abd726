use drivers::usb::{
    bos_capability_descs, BosAnyDevDesc, BosAnyDevDescIter, BosDescriptor, BosDevDescIter,
    BosSuperSpeedPlusDesc, ConfigDescriptor, DescriptorKind, DeviceDescriptor,
    DeviceDescriptor8Byte, EndpointDescriptor, HidDescriptor, HubDescriptorV2, HubDescriptorV3,
    HubPortFeature, HubPortStatus, HubPortStatusV2, HubPortStatusV3, InterfaceDescriptor,
    ReqDirection, ReqRecipient, ReqType, Setup, SuperSpeedCompanionDescriptor,
    SuperSpeedPlusIsochCmpDescriptor,
};
use drivers::xhci_iface::{PortReqDirection, PortReqRecipient, PortReqTy};

#[test]
fn setup_packets() {
    let s = Setup::get_descriptor(DescriptorKind::Device, 0, 0, 18);
    assert_eq!(s, Setup { kind: 0x80, request: 0x06, value: 0x0100, index: 0, length: 18 });
    assert_eq!(s.direction(), ReqDirection::DeviceToHost);
    assert_eq!(s.req_ty(), 0);
    assert_eq!(s.req_recipient(), 0);
    assert!(!s.is_allowed_from_api());
    let class = Setup { kind: 0x21, request: 0xFF, value: 0, index: 0, length: 0 };
    assert_eq!(class.direction(), ReqDirection::HostToDevice);
    assert_eq!(class.req_ty(), 1);
    assert_eq!(class.req_recipient(), 1);
    assert!(class.is_allowed_from_api());
    let vendor = Setup { kind: 0xC0, ..class };
    assert!(vendor.is_allowed_from_api());
    assert_eq!(Setup::get_status().length, 2);
    assert_eq!(Setup::clear_feature(1).request, 0x01);
    assert_eq!(Setup::set_feature(4).value, 4);
    assert_eq!(Setup::set_address(5), Setup { kind: 0, request: 0x05, value: 5, index: 0, length: 0 });
    assert_eq!(Setup::set_descriptor(2, 1, 0x409, 9).value, 0x0201);
    assert_eq!(Setup::get_configuration().length, 1);
    assert_eq!(Setup::set_configuration(1).value, 1);
    assert_eq!(
        Setup::set_interface(2, 1),
        Setup { kind: 1, request: 0x0B, value: 1, index: 2, length: 0 }
    );
    assert_eq!(Setup::get_descriptor(DescriptorKind::BinaryObjectStorage, 0, 0, 5).value, 0x0F00);
    assert_eq!(Setup::get_descriptor(DescriptorKind::Hub, 0, 0, 5).value, 0x2900);
}

#[test]
fn request_kinds_from_port_requests() {
    assert_eq!(ReqType::from(PortReqTy::Vendor), ReqType::Vendor);
    assert_eq!(ReqDirection::from(PortReqDirection::DeviceToHost), ReqDirection::DeviceToHost);
    assert_eq!(ReqRecipient::from(PortReqRecipient::VendorSpecific), ReqRecipient::VendorSpecific);
}

#[test]
fn device_descriptor_versions() {
    let bytes = [18, 1, 0x10, 0x02, 0, 0, 0, 64, 0x86, 0x80, 0x34, 0x12, 0x00, 0x01, 1, 2, 3, 1];
    let d = DeviceDescriptor::from_bytes(&bytes);
    assert_eq!(d.usb, 0x0210);
    assert_eq!(d.major_usb_vers(), 2);
    assert_eq!(d.minor_usb_vers(), 0x10);
    assert_eq!(d.vendor, 0x8086);
    assert_eq!(d.product, 0x1234);
    assert_eq!(d.configurations, 1);
    let short = DeviceDescriptor8Byte::from_bytes(&bytes);
    assert_eq!(short.packet_size, 64);
    assert_eq!(short.major_usb_vers(), 2);
    assert_eq!(short.minor_usb_vers(), 0x10);
}

#[test]
fn other_descriptors_decode() {
    let i = InterfaceDescriptor::from_bytes(&[9, 4, 0, 0, 2, 8, 6, 0x50, 0]);
    assert_eq!(i.endpoints, 2);
    assert_eq!(i.class, 8);
    assert_eq!(i.protocol, 0x50);
    let c = ConfigDescriptor::from_bytes(&[9, 2, 32, 0, 1, 1, 0, 0x80, 50]);
    assert_eq!(c.total_length, 32);
    assert_eq!(c.max_power, 50);
    let e = EndpointDescriptor::from_bytes(&[7, 5, 0x81, 2, 0, 2, 0]);
    assert_eq!(e.max_packet_size, 512);
    let h = HidDescriptor::from_bytes(&[9, 33, 0x11, 0x01, 0, 1, 34, 63, 0, 0, 0, 0]);
    assert_eq!(h.hid_spec_release, 0x0111);
    assert_eq!(h.report_desc_len, 63);
    let s = SuperSpeedCompanionDescriptor::from_bytes(&[6, 48, 15, 0, 0, 4]);
    assert_eq!(s.max_burst, 15);
    assert_eq!(s.bytes_per_interval, 0x0400);
    let p = SuperSpeedPlusIsochCmpDescriptor::from_bytes(&[8, 49, 0, 0, 0, 0, 1, 0]);
    assert_eq!(p.bytes_per_interval, 0x10000);
}

#[test]
fn hub_port_status_bits() {
    let v2 = HubPortStatus::V2(HubPortStatusV2(0x0103));
    assert!(v2.is_powered());
    assert!(v2.is_connected());
    assert!(v2.is_enabled());
    assert!(!v2.is_resetting());
    let v3 = HubPortStatus::V3(HubPortStatusV3(0x0211));
    assert!(v3.is_powered());
    assert!(v3.is_connected());
    assert!(v3.is_resetting());
    assert!(!v3.is_enabled());
    // bit 8 is power for USB 2 hubs, a link state bit for USB 3 hubs
    assert!(!HubPortStatus::V3(HubPortStatusV3(0x0100)).is_powered());
    assert_eq!(HubPortFeature::PortPower.code(), 8);
    assert_eq!(HubPortFeature::CPortReset.code(), 20);
    assert_eq!(HubDescriptorV2::DESCRIPTOR_KIND, 0x29);
    assert_eq!(HubDescriptorV3::DESCRIPTOR_KIND, 0x2A);
    assert_eq!(HubDescriptorV2::default().ports, 0);
    assert_eq!(HubDescriptorV3::default().delay, 0);
    assert_eq!(DescriptorKind::SuperSpeedCompanion.code(), 48);
}

fn bos_data() -> Vec<u8> {
    let mut d = vec![7, 16, 2, 0x02, 0, 0, 0];
    d.extend_from_slice(&[10, 16, 3, 0, 0x0E, 0, 1, 10, 0xFF, 0x07]);
    d
}

#[test]
fn bos_capabilities() {
    let desc = BosDescriptor::from_bytes(&[5, 15, 22, 0, 2]);
    assert_eq!(desc.total_len, 22);
    let caps = bos_capability_descs(desc, &bos_data());
    assert_eq!(caps.len(), 2);
    match caps[0] {
        BosAnyDevDesc::Usb2Ext(u) => assert_eq!(u.attrs, 2),
        _ => panic!("expected the USB 2.0 extension"),
    }
    match caps[1] {
        BosAnyDevDesc::SuperSpeed(s) => {
            assert_eq!(s.speed_supp, 0x0E);
            assert_eq!(s.u2_dev_exit_lat, 0x07FF);
        }
        _ => panic!("expected the SuperSpeed capability"),
    }
    assert!(caps[1].is_superspeed());
    assert!(!caps[1].is_superspeedplus());
    // the count limits the capabilities read
    let one = BosDescriptor { cap_count: 1, ..desc };
    assert_eq!(bos_capability_descs(one, &bos_data()).len(), 1);
}

#[test]
fn bos_unknown_and_empty_capabilities() {
    let data = [4, 16, 0x05, 0, 3, 16, 0, 7, 16, 2, 0, 0, 0, 0];
    let desc = BosDescriptor { len: 5, kind: 15, total_len: 19, cap_count: 3 };
    let caps = bos_capability_descs(desc, &data);
    // type 5 is not decoded, type 0 ends the walk
    assert_eq!(caps, vec![BosAnyDevDesc::Unknown]);
}

#[test]
fn bos_iterators_step_by_length() {
    let data = bos_data();
    let mut it = BosDevDescIter::new(&data);
    let (base, bytes) = it.next().unwrap();
    assert_eq!(base.len, 7);
    assert_eq!(base.cap_ty, 2);
    assert_eq!(bytes.len(), 7);
    assert_eq!(it.next().unwrap().1.len(), 10);
    assert!(it.next().is_none());
    let mut any = BosAnyDevDescIter::new(&data);
    assert!(matches!(any.next(), Some(BosAnyDevDesc::Usb2Ext(_))));
    assert!(matches!(any.next(), Some(BosAnyDevDesc::SuperSpeed(_))));
    assert!(any.next().is_none());
    let ssp = BosSuperSpeedPlusDesc { attrs: 0x21, ..Default::default() };
    assert_eq!(ssp.ssac(), 1);
}

#[test]
fn hub_port_decisions() {
    use_hub_port_decisions();
}

fn use_hub_port_decisions() {
    let v2 = |x: u32| drivers::usb::HubPortStatus::V2(drivers::usb::HubPortStatusV2(x));
    let v3 = |x: u32| drivers::usb::HubPortStatus::V3(drivers::usb::HubPortStatusV3(x));
    let step = drivers::usb::hub_port_step;
    let power = Some(drivers::usb::HubPortFeature::PortPower);
    let reset = Some(drivers::usb::HubPortFeature::PortReset);
    let s = step(v2(0), false);
    assert_eq!((s.set_feature, s.attach_change, s.attached), (power, None, false));
    let s = step(v2(0x100 | 1 | 2), false);
    assert_eq!((s.set_feature, s.attach_change, s.attached), (None, Some(true), true));
    let s = step(v2(0x100 | 1 | 2), true);
    assert_eq!((s.set_feature, s.attach_change, s.attached), (None, None, true));
    let s = step(v2(0x100 | 1), false);
    assert_eq!((s.set_feature, s.attach_change), (reset, None));
    let s = step(v2(0x100 | 1 | 16), true);
    assert_eq!((s.set_feature, s.attach_change, s.attached), (None, Some(false), false));
    let s = step(v3(0x200 | 1 | 2), false);
    assert_eq!((s.set_feature, s.attached), (None, true));
    let s = step(v3(0x100 | 1 | 2), true);
    assert_eq!((s.set_feature, s.attach_change), (power, Some(false)));
}
