use drivers::xhci_scheme::{
    port_req_read, port_req_setup, port_req_write, ControlTransfer, PortReqError, PortReqState,
    TransferKind,
    address_context, control_max_packet_size, control_pipe_word, AddressContext,
    context_entries, endpoint_context_words, input_control_word, slot_context_words, ConfigureError,
    EndpointContextWords,
    bytes_transferred, endp_num_to_dci, handle_event_trb, handle_transfer_event_trb, transfer_plan,
    EventError, NormalTrb, endp_ctx_interval, endp_ctx_max_burst, endp_ctx_max_esit_payload,
    SpeedClass,
};
use drivers::port_id::PortId;
use drivers::xhci_iface::{
    status_result, transfer_result as ctl_transfer_result, ConfigureEndpointsReq, DeviceReqData,
    EndpDesc, EndpointStatus, PortReq, PortReqDirection, PortReqRecipient, PortReqTy, PortState,
    PortTransferStatus, PortTransferStatusKind, SuperSpeedCmp, XhciClientHandle, XhciClientHandleError,
    XhciEndpCtlDirection, XhciEndpCtlReq, XhciEndpCtlRes,
};
use drivers::xhci_scheme::{
    div_round_up, enumeration_action, group_interfaces_exec, parse_config_descriptors,
    port_enabled, slot_port_state, transfer_result, write_dyn_string, AnyDescriptor,
    CtlReadAction, CtlWriteAction, EndpIfError, EndpIfState, EnumerationAction,
};

#[test]
fn port_state_names() {
    for s in [
        PortState::EnabledOrDisabled,
        PortState::Default,
        PortState::Addressed,
        PortState::Configured,
    ] {
        assert_eq!(PortState::from_str(s.as_str()).unwrap(), s);
        assert_eq!(s.as_bytes(), s.as_str().as_bytes().to_vec());
    }
    assert_eq!(PortState::from_str("enabled/disabled").unwrap(), PortState::EnabledOrDisabled);
    assert!(PortState::from_str("resetting").is_err());
}

#[test]
fn endpoint_status_names() {
    for s in [
        EndpointStatus::Disabled,
        EndpointStatus::Enabled,
        EndpointStatus::Halted,
        EndpointStatus::Stopped,
        EndpointStatus::Error,
    ] {
        assert_eq!(EndpointStatus::from_str(s.as_str()).unwrap(), s);
    }
    assert!(EndpointStatus::from_str("halt").is_err());
}

fn handle() -> XhciClientHandle {
    XhciClientHandle::new("usb.0000:00:14.0_xhci".to_string(), PortId { root_hub_port_num: 1, route_string: 0 })
}

#[test]
fn descriptor_and_feature_requests() {
    let h = handle();
    assert_eq!(h.port, PortId { root_hub_port_num: 1, route_string: 0 });
    let mut buf = [0u8; 9];
    let req = h.get_descriptor(PortReqRecipient::Device, 2, 1, 0, &mut buf).unwrap();
    assert_eq!(
        req,
        PortReq {
            direction: PortReqDirection::DeviceToHost,
            req_type: PortReqTy::Standard,
            req_recipient: PortReqRecipient::Device,
            request: 0x06,
            value: 0x0201,
            index: 0,
            length: 9,
            transfers_data: true,
        }
    );
    let req = h.clear_feature(PortReqRecipient::Endpoint, 0x81, 0).unwrap();
    assert_eq!(req.request, 0x01);
    assert_eq!(req.index, 0x81);
    assert_eq!(req.length, 0);
    assert!(!req.transfers_data);
    assert_eq!(req.direction, PortReqDirection::HostToDevice);
}

#[test]
fn oversized_device_request_is_refused() {
    let h = handle();
    let big = vec![0u8; 70000];
    let data = DeviceReqData::Out(&big);
    let r = h.device_request(PortReqTy::Class, PortReqRecipient::Interface, 0xFF, 0, 0, &data);
    assert!(matches!(r, Err(XhciClientHandleError::TransferBufTooLarge(70000))));
    let ok = DeviceReqData::Out(&big[..65535]);
    assert_eq!(
        h.device_request(PortReqTy::Class, PortReqRecipient::Interface, 0xFF, 0, 0, &ok)
            .unwrap()
            .length,
        65535
    );
}

#[test]
fn control_file_responses() {
    let st = PortTransferStatus { kind: PortTransferStatusKind::Success, bytes_transferred: 8 };
    assert_eq!(ctl_transfer_result(XhciEndpCtlRes::TransferResult(st), 8, 8).unwrap(), st);
    assert!(ctl_transfer_result(XhciEndpCtlRes::TransferResult(st), 4, 8).is_err());
    let short = PortTransferStatus { kind: PortTransferStatusKind::ShortPacket, bytes_transferred: 4 };
    assert_eq!(ctl_transfer_result(XhciEndpCtlRes::TransferResult(short), 4, 8).unwrap(), short);
    assert!(ctl_transfer_result(XhciEndpCtlRes::Pending, 0, 0).is_err());
    assert_eq!(status_result(XhciEndpCtlRes::Status(EndpointStatus::Halted)).unwrap(), EndpointStatus::Halted);
    assert!(status_result(XhciEndpCtlRes::Idle).is_err());
    assert_eq!(ConfigureEndpointsReq::default().interface_desc, None);
}

fn config_data() -> Vec<u8> {
    let mut d = vec![9, 4, 0, 0, 2, 8, 6, 0x50, 0];
    d.extend_from_slice(&[7, 5, 0x81, 2, 0, 4, 0]);
    d.extend_from_slice(&[6, 48, 15, 0, 0, 0]);
    d.extend_from_slice(&[7, 5, 0x02, 2, 0, 4, 0]);
    d
}

#[test]
fn configuration_descriptors_group_into_interfaces() {
    let descs = parse_config_descriptors(&config_data());
    assert_eq!(descs.len(), 4);
    assert!(matches!(descs[0], AnyDescriptor::Interface(_)));
    assert!(matches!(descs[2], AnyDescriptor::SuperSpeedCompanion(_)));
    let ifs = group_interfaces_exec(&descs);
    assert_eq!(ifs.len(), 1);
    assert_eq!(ifs[0].desc.class, 8);
    assert_eq!(ifs[0].endpoints.len(), 2);
    assert_eq!(ifs[0].endpoints[0].address, 0x81);
    assert_eq!(ifs[0].endpoints[0].max_packet_size, 1024);
    assert_eq!(ifs[0].endpoints[0].ssc.unwrap().max_burst, 15);
    assert_eq!(ifs[0].endpoints[1].ssc, None);
    assert!(ifs[0].hid_descs.is_empty());
}

#[test]
fn hid_interfaces_keep_their_hid_descriptors() {
    let mut d = vec![9, 4, 0, 0, 1, 3, 1, 1, 0];
    d.extend_from_slice(&[9, 33, 0x11, 0x01, 0, 1, 34, 63, 0]);
    d.extend_from_slice(&[7, 5, 0x81, 3, 8, 0, 10]);
    d.extend_from_slice(&[9, 4, 1, 0, 0, 3, 0, 0, 0]);
    let descs = parse_config_descriptors(&d);
    assert_eq!(descs.len(), 4);
    let ifs = group_interfaces_exec(&descs);
    assert_eq!(ifs.len(), 2);
    assert_eq!(ifs[0].hid_descs.len(), 1);
    assert_eq!(ifs[0].hid_descs[0].desc_len, 63);
    assert_eq!(ifs[0].endpoints.len(), 1);
    assert_eq!(ifs[0].endpoints[0].interval, 10);
    assert_eq!(ifs[1].endpoints.len(), 0);
}

#[test]
fn unknown_descriptor_ends_the_walk() {
    let mut d = config_data();
    d.splice(9..9, [5u8, 36, 1, 2, 3].iter().cloned());
    assert_eq!(parse_config_descriptors(&d).len(), 1);
}

#[test]
fn endpoint_file_state_machine() {
    let mut st = EndpIfState::Init;
    assert_eq!(
        st.on_ctl_write(XhciEndpCtlReq::Transfer { direction: XhciEndpCtlDirection::In, count: 100 }),
        Ok(CtlWriteAction::Nothing)
    );
    assert_eq!(st.on_ctl_write(XhciEndpCtlReq::Status), Err(EndpIfError::BadFd));
    assert_eq!(st.on_ctl_read(), CtlReadAction::Respond(XhciEndpCtlRes::Pending));
    assert_eq!(st.check_data_transfer(XhciEndpCtlDirection::In, 50), Ok(()));
    assert_eq!(st.check_data_transfer(XhciEndpCtlDirection::Out, 50), Err(EndpIfError::BadFd));
    assert_eq!(st.check_data_transfer(XhciEndpCtlDirection::In, 101), Err(EndpIfError::Invalid));
    st.after_data_transfer(1, 50);
    assert_eq!(
        st,
        EndpIfState::WaitingForDataPipe {
            direction: XhciEndpCtlDirection::In,
            bytes_transferred: 50,
            bytes_to_transfer: 100
        }
    );
    assert_eq!(st.check_data_transfer(XhciEndpCtlDirection::In, 51), Err(EndpIfError::Invalid));
    st.after_data_transfer(1, 50);
    let done = PortTransferStatus { kind: PortTransferStatusKind::Success, bytes_transferred: 50 };
    assert_eq!(st, EndpIfState::WaitingForTransferResult(done));
    assert_eq!(st.on_ctl_read(), CtlReadAction::Respond(XhciEndpCtlRes::TransferResult(done)));
    assert_eq!(st, EndpIfState::Init);
    assert_eq!(st.on_ctl_read(), CtlReadAction::Respond(XhciEndpCtlRes::Idle));
}

#[test]
fn endpoint_file_status_reset_and_no_data() {
    let mut st = EndpIfState::Init;
    assert_eq!(st.on_ctl_write(XhciEndpCtlReq::Status), Ok(CtlWriteAction::Nothing));
    assert_eq!(st.on_ctl_read(), CtlReadAction::FetchStatus);
    assert_eq!(st, EndpIfState::Init);
    assert_eq!(
        st.on_ctl_write(XhciEndpCtlReq::Reset { no_clear_feature: true }),
        Ok(CtlWriteAction::Reset { clear_feature: false })
    );
    assert_eq!(
        st.on_ctl_write(XhciEndpCtlReq::Transfer { direction: XhciEndpCtlDirection::NoData, count: 0 }),
        Ok(CtlWriteAction::TransferNoData)
    );
    assert_eq!(st.finish_no_data(6, 0), Ok(()));
    assert_eq!(
        st,
        EndpIfState::WaitingForTransferResult(PortTransferStatus {
            kind: PortTransferStatusKind::Stalled,
            bytes_transferred: 0
        })
    );
    let mut other = EndpIfState::Init;
    assert_eq!(other.finish_no_data(1, 3), Err(EndpIfError::Io));
    // a failed piece ends the transfer early
    let mut st = EndpIfState::WaitingForDataPipe {
        direction: XhciEndpCtlDirection::Out,
        bytes_transferred: 0,
        bytes_to_transfer: 64,
    };
    st.after_data_transfer(13, 10);
    assert_eq!(
        st,
        EndpIfState::WaitingForTransferResult(PortTransferStatus {
            kind: PortTransferStatusKind::ShortPacket,
            bytes_transferred: 10
        })
    );
}

#[test]
fn scheme_helpers() {
    assert_eq!(div_round_up(10, 4), 3);
    assert_eq!(div_round_up(8, 4), 2);
    let mut buf = [0u8; 4];
    assert_eq!(write_dyn_string(b"abcdef", &mut buf, 1), 3);
    assert_eq!(&buf, b"abc\0");
    let mut buf = [9u8; 2];
    assert_eq!(write_dyn_string(b"abc", &mut buf, 5), 0);
    assert_eq!(slot_port_state(3 << 27), Some(PortState::Configured));
    assert_eq!(slot_port_state(0x0000_FFFF), Some(PortState::EnabledOrDisabled));
    assert_eq!(slot_port_state(4 << 27), None);
    assert_eq!(transfer_result(13, 7).kind, PortTransferStatusKind::ShortPacket);
    assert_eq!(transfer_result(99, 7).kind, PortTransferStatusKind::Unknown);
}

#[test]
fn enumeration_decisions() {
    let ccs = 1u32;
    let ped = 2u32;
    let pr = 16u32;
    let pp = 512u32;
    assert_eq!(enumeration_action(5, 4, 0), EnumerationAction::Ignore);
    assert_eq!(enumeration_action(0, 4, ccs | ped | pp), EnumerationAction::Attach { reset_first: false });
    assert_eq!(enumeration_action(0, 4, ccs | pp), EnumerationAction::Attach { reset_first: true });
    assert_eq!(enumeration_action(0, 4, pp), EnumerationAction::Detach);
    assert!(port_enabled(ccs | ped | pp));
    assert!(!port_enabled(ccs | ped | pp | pr));
}

#[test]
fn endpoint_descriptor_into_endp_desc() {
    let e = drivers::usb::EndpointDescriptor { length: 7, kind: 5, address: 0x81, attributes: 3, max_packet_size: 8, interval: 10 };
    let d = EndpDesc::from(e);
    assert_eq!(d.address, 0x81);
    assert_eq!(d.interval, 10);
    assert_eq!(d.ssc, None);
}

#[test]
fn device_req_data_map_buf() {
    let mut buf = [1u8, 2, 3];
    let d = drivers::xhci_iface::DeviceReqData::In(&mut buf);
    assert_eq!(d.map_buf(|b| b.len()), Some(3));
    let out = [9u8, 8];
    let d = drivers::xhci_iface::DeviceReqData::Out(&out);
    assert_eq!(d.map_buf(|b| b[0]), Some(9));
    assert_eq!(drivers::xhci_iface::DeviceReqData::NoData.map_buf(|b| b.len()), None);
}

fn endpoint(address: u8, attributes: u8) -> drivers::xhci_iface::EndpDesc {
    drivers::xhci_iface::EndpDesc {
        kind: 5,
        address,
        attributes,
        max_packet_size: 512,
        interval: 0,
        ssc: None,
        sspc: None,
    }
}

#[test]
fn event_codes_and_context_indices() {
    assert_eq!(handle_event_trb(1), Ok(()));
    assert_eq!(handle_event_trb(13), Err(EventError::Io));
    assert_eq!(handle_transfer_event_trb(13), Ok(()));
    assert_eq!(handle_transfer_event_trb(6), Err(EventError::Io));
    assert_eq!(endp_num_to_dci(1, &endpoint(0x81, 2)), 3);
    assert_eq!(endp_num_to_dci(2, &endpoint(0x02, 2)), 4);
    assert_eq!(endp_num_to_dci(1, &endpoint(0x00, 0)), 3);
}

#[test]
fn transfer_plans() {
    let p = transfer_plan(Some(&[1, 2, 3]), 0x5000, 64, false);
    assert!(p.idt);
    assert_eq!(p.buffer, 0x03_0201);
    assert_eq!(p.td_size, 16);
    assert_eq!(p.trbs, vec![NormalTrb { len: 3, chain: false, ioc: true }]);
    let big = vec![0u8; 70000];
    let p = transfer_plan(Some(&big), 0x5000, 512, true);
    assert!(!p.idt);
    assert_eq!(p.buffer, 0x5000);
    assert_eq!(p.td_size, 0x1F);
    assert_eq!(
        p.trbs,
        vec![
            NormalTrb { len: 65536, chain: true, ioc: false },
            NormalTrb { len: 4464, chain: false, ioc: true },
        ]
    );
    let p = transfer_plan(None, 0x5000, 64, false);
    assert_eq!((p.buffer, p.idt, p.td_size), (0, false, 0));
    assert_eq!(p.trbs, vec![NormalTrb { len: 0, chain: false, ioc: true }]);
    let p = transfer_plan(Some(&[]), 0x5000, 4, false);
    assert_eq!((p.buffer, p.idt), (0x5000, false));
    assert_eq!(bytes_transferred(100, 30), 70);
}

#[test]
fn configuration_contexts() {
    let eps = [endpoint(0x81, 2), endpoint(0x02, 2)];
    assert_eq!(context_entries(&eps), Ok((2, 5)));
    assert_eq!(context_entries(&[]), Ok((0, 2)));
    let many = vec![endpoint(0x81, 3); 31];
    assert_eq!(context_entries(&many), Err(ConfigureError::TooManyEndpoints));
    assert_eq!(slot_context_words(0xFFFF_FFFF, 0xFFFF_FFFF, 5, None), (0x2BFF_FFFF, 0x00FF_FFFF));
    assert_eq!(slot_context_words(0xFFFF_FFFF, 0xFFFF_FFFF, 5, Some(4)), (0x2FFF_FFFF, 0x04FF_FFFF));
    assert_eq!(input_control_word(true, Some(2), None, 1), 0x2_0001);
    assert_eq!(input_control_word(false, Some(2), Some(3), 1), 0);
}

#[test]
fn endpoint_contexts() {
    let bulk_in = endpoint(0x81, 2);
    assert_eq!(
        endpoint_context_words(&bulk_in, false, 0, 0, 0, 0, 0x1_0000_1001),
        Ok(EndpointContextWords { a: 0, b: 0x0200_0036, trl: 0x1001, trh: 1, c: 3072 })
    );
    let mut int_in = endpoint(0x81, 3);
    int_in.max_packet_size = 8;
    assert_eq!(
        endpoint_context_words(&int_in, false, 0, 7, 0, 0x12_3456, 0x2000),
        Ok(EndpointContextWords { a: 0x1207_0000, b: 0x0008_003E, trl: 0x2000, trh: 0, c: 0x3456_0400 })
    );
    assert_eq!(
        endpoint_context_words(&endpoint(0x00, 0), false, 0, 0, 0, 0, 0),
        Err(ConfigureError::ControlEndpoint)
    );
    let mut streams = endpoint(0x02, 2);
    streams.ssc = Some(drivers::xhci_iface::SuperSpeedCmp { kind: 0x30, max_burst: 0, attributes: 5, bytes_per_interval: 0 });
    let w = endpoint_context_words(&streams, false, 3, 0, 0, 0, 0).unwrap();
    assert_eq!(w.a, 0x8C00);
}

#[test]
fn address_device_contexts() {
    assert_eq!(control_max_packet_size(2, 64), 64);
    assert_eq!(control_max_packet_size(3, 9), 512);
    assert_eq!(control_pipe_word(0x1234_5678, 512), 0x0200_5678);
    let behind_hub = drivers::port_id::PortId { root_hub_port_num: 2, route_string: 0x21 };
    assert_eq!(
        address_context(behind_hub, 3, Some(5), 8, 0x1_0000_2000),
        AddressContext {
            slot_a: 0x0830_0021,
            slot_b: 0x0002_0000,
            slot_c: 0x205,
            ep0_b: 0x0008_0026,
            ep0_trl: 0x2001,
            ep0_trh: 1,
            ep0_c: 8,
        }
    );
    let root = drivers::port_id::PortId { root_hub_port_num: 1, route_string: 0 };
    let c = address_context(root, 4, Some(5), 512, 0x3000);
    assert_eq!((c.slot_a, c.slot_c, c.ep0_b), (0x0840_0000, 0, 0x0200_0026));
    assert_eq!(address_context(behind_hub, 3, None, 8, 0).slot_c, 0);
}

fn class_request(direction: drivers::xhci_iface::PortReqDirection, transfers_data: bool) -> drivers::xhci_iface::PortReq {
    drivers::xhci_iface::PortReq {
        direction,
        req_type: drivers::xhci_iface::PortReqTy::Class,
        req_recipient: drivers::xhci_iface::PortReqRecipient::Interface,
        request: 1,
        value: 0x0100,
        index: 0,
        length: 8,
        transfers_data,
    }
}

#[test]
fn port_request_files() {
    let q = class_request(drivers::xhci_iface::PortReqDirection::DeviceToHost, true);
    let (setup, kind) = port_req_setup(&q);
    assert_eq!((setup.kind, setup.request, setup.value, setup.length), (0xA1, 1, 0x0100, 8));
    assert_eq!(kind, TransferKind::In);
    let (st, t, n) = port_req_write(PortReqState::Init, Some(q), 50).unwrap();
    assert_eq!((st, t, n), (PortReqState::WaitingForDeviceBytes(8, setup), None, 50));
    assert_eq!(port_req_read(st, 7), Err(PortReqError::Invalid));
    assert_eq!(port_req_write(st, None, 8), Err(PortReqError::BadFd));
    assert_eq!(
        port_req_read(st, 8),
        Ok((PortReqState::Init, ControlTransfer { setup, kind: TransferKind::In }))
    );
    let out = class_request(drivers::xhci_iface::PortReqDirection::HostToDevice, true);
    let (st, _, _) = port_req_write(PortReqState::Init, Some(out), 50).unwrap();
    let (out_setup, _) = port_req_setup(&out);
    assert_eq!(out_setup.kind, 0x21);
    assert_eq!(port_req_read(st, 8), Err(PortReqError::BadFd));
    assert_eq!(
        port_req_write(st, None, 8),
        Ok((PortReqState::Init, Some(ControlTransfer { setup: out_setup, kind: TransferKind::Out }), 8))
    );
    let none = class_request(drivers::xhci_iface::PortReqDirection::HostToDevice, false);
    let (st, t, _) = port_req_write(PortReqState::Init, Some(none), 50).unwrap();
    assert_eq!(st, PortReqState::Init);
    assert_eq!(t.map(|t| t.kind), Some(TransferKind::NoData));
    assert_eq!(port_req_write(PortReqState::Init, None, 3), Err(PortReqError::BadMessage));
}

fn periodic_endpoint(attributes: u8, interval: u8, max_packet_size: u16) -> EndpDesc {
    EndpDesc {
        kind: 5,
        address: 0x81,
        attributes,
        max_packet_size,
        interval,
        ssc: None,
        sspc: None,
    }
}

#[test]
fn endpoint_context_speed_fields() {
    let full = SpeedClass { lowspeed: false, fullspeed: true, highspeed: false };
    let low = SpeedClass { lowspeed: true, fullspeed: false, highspeed: false };
    let high = SpeedClass { lowspeed: false, fullspeed: false, highspeed: true };
    // A full-speed interrupt endpoint polled every 10 ms: 8 ms, 2^6 periods.
    assert_eq!(endp_ctx_interval(full, &periodic_endpoint(3, 10, 8)), 6);
    assert_eq!(endp_ctx_interval(low, &periodic_endpoint(3, 1, 8)), 3);
    // Full-speed isochronous: bInterval + 2.
    assert_eq!(endp_ctx_interval(full, &periodic_endpoint(1, 4, 8)), 6);
    // High-speed bulk: zero.
    assert_eq!(endp_ctx_interval(high, &periodic_endpoint(2, 4, 512)), 0);
    // Bit 11 of wMaxPacketSize on a high-speed interrupt endpoint.
    assert_eq!(endp_ctx_max_burst(high, 2, &periodic_endpoint(3, 4, 0x0C00 | 64)), 1);
    assert_eq!(endp_ctx_max_burst(high, 2, &periodic_endpoint(3, 4, 0x0400 | 64)), 0);
    let mut ss = periodic_endpoint(3, 4, 1024);
    ss.ssc = Some(SuperSpeedCmp { kind: 0x30, max_burst: 3, attributes: 0, bytes_per_interval: 2048 });
    let superspeed = SpeedClass { lowspeed: false, fullspeed: false, highspeed: false };
    assert_eq!(endp_ctx_max_burst(superspeed, 3, &ss), 3);
    assert_eq!(endp_ctx_max_esit_payload(superspeed, 3, &ss, 1024, 3), 2048);
    assert_eq!(endp_ctx_interval(superspeed, &ss), 3);
    assert_eq!(endp_ctx_max_esit_payload(high, 2, &periodic_endpoint(3, 4, 64), 64, 2), 192);
    assert_eq!(endp_ctx_max_esit_payload(full, 1, &periodic_endpoint(3, 4, 64), 64, 0), 64);
    assert_eq!(endp_ctx_max_esit_payload(full, 1, &periodic_endpoint(1, 4, 64), 64, 0), 1024);
    assert_eq!(endp_ctx_max_esit_payload(high, 1, &periodic_endpoint(1, 4, 64), 64, 0), 3072);
    assert_eq!(endp_ctx_max_esit_payload(high, 2, &periodic_endpoint(2, 4, 512), 512, 0), 0);
}
