use drivers::bot::{
    bulk_endpoint_nums, csw_verdict, data_stage_residue, BotTag, CommandBlockWrapper,
    CommandStatusWrapper, CswVerdict, ProtocolError, SendCommandStatus, SendCommandStatusKind,
    CBW_SIGNATURE, CSW_SIGNATURE,
};
use drivers::xhci_iface::{
    EndpBinaryDirection, EndpDesc, PortTransferStatus, PortTransferStatusKind,
    XhciClientHandleError,
};

#[test]
fn cbw_pads_the_command_block() {
    let w = CommandBlockWrapper::new(7, 36, EndpBinaryDirection::In, 0, &[0x12, 0, 0, 0, 36, 0])
        .unwrap();
    assert_eq!(w.signature, CBW_SIGNATURE);
    assert_eq!(w.tag, 7);
    assert_eq!(w.data_transfer_len, 36);
    assert_eq!(w.flags, 0x80);
    assert_eq!(w.cb_len, 6);
    assert_eq!(&w.command_block[..6], &[0x12, 0, 0, 0, 36, 0]);
    assert!(w.command_block[6..].iter().all(|&b| b == 0));
    let out = CommandBlockWrapper::new(1, 0, EndpBinaryDirection::Out, 2, &[]).unwrap();
    assert_eq!(out.flags, 0);
    assert_eq!(out.lun, 2);
}

#[test]
fn too_large_command_block_is_refused() {
    let r = CommandBlockWrapper::new(1, 0, EndpBinaryDirection::Out, 0, &[0u8; 17]);
    assert!(matches!(r, Err(ProtocolError::TooLargeCommandBlock(17))));
}

#[test]
fn cbw_wire_layout() {
    let w = CommandBlockWrapper::new(0x0102_0304, 512, EndpBinaryDirection::In, 0, &[0x28])
        .unwrap();
    let b = w.to_bytes();
    assert_eq!(b.len(), 31);
    assert_eq!(&b[0..4], b"USBC");
    assert_eq!(&b[4..8], &[4, 3, 2, 1]);
    assert_eq!(&b[8..12], &[0, 2, 0, 0]);
    assert_eq!(b[12], 0x80);
    assert_eq!(b[14], 1);
    assert_eq!(b[15], 0x28);
}

fn csw(tag: u32, residue: u32, status: u8) -> CommandStatusWrapper {
    let mut b = b"USBS".to_vec();
    b.extend_from_slice(&tag.to_le_bytes());
    b.extend_from_slice(&residue.to_le_bytes());
    b.push(status);
    CommandStatusWrapper::from_bytes(&b)
}

#[test]
fn csw_decoding_and_verdicts() {
    let ok = csw(9, 0, 0);
    assert_eq!(ok.signature, CSW_SIGNATURE);
    assert!(ok.is_valid());
    assert_eq!(
        csw_verdict(&ok, 9, None),
        CswVerdict::Done(SendCommandStatus { kind: SendCommandStatusKind::Success, residue: None })
    );
    assert_eq!(
        csw_verdict(&csw(9, 5, 1), 9, None),
        CswVerdict::Done(SendCommandStatus { kind: SendCommandStatusKind::Failed, residue: Some(5) })
    );
    assert_eq!(
        csw_verdict(&csw(9, 5, 0), 9, Some(3)),
        CswVerdict::Done(SendCommandStatus { kind: SendCommandStatusKind::Success, residue: Some(3) })
    );
    assert_eq!(csw_verdict(&csw(9, 0, 2), 9, None), CswVerdict::PhaseError);
    assert_eq!(csw_verdict(&csw(8, 0, 0), 9, None), CswVerdict::Invalid);
    let mut bad = csw(9, 0, 0);
    bad.signature = CBW_SIGNATURE;
    assert!(!bad.is_valid());
    assert_eq!(csw_verdict(&bad, 9, None), CswVerdict::Invalid);
}

#[test]
fn data_stage_residues() {
    let st = |kind, n| PortTransferStatus { kind, bytes_transferred: n };
    assert!(matches!(data_stage_residue(st(PortTransferStatusKind::Success, 512)), Ok(None)));
    assert!(matches!(data_stage_residue(st(PortTransferStatusKind::ShortPacket, 0)), Ok(None)));
    assert!(matches!(
        data_stage_residue(st(PortTransferStatusKind::ShortPacket, 10)),
        Ok(Some(10))
    ));
    assert!(matches!(
        data_stage_residue(st(PortTransferStatusKind::Unknown, 0)),
        Err(ProtocolError::XhciError(XhciClientHandleError::InvalidResponse(_)))
    ));
}

fn endpoint(address: u8, attributes: u8) -> EndpDesc {
    EndpDesc {
        kind: 5,
        address,
        attributes,
        max_packet_size: 512,
        interval: 0,
        ssc: None,
        sspc: None,
    }
}

#[test]
fn bulk_endpoints_are_found_by_direction() {
    let eps = [endpoint(0x02, 2), endpoint(0x81, 2)];
    assert_eq!(bulk_endpoint_nums(&eps), Some((2, 1)));
    assert_eq!(bulk_endpoint_nums(&[endpoint(0x81, 2)]), None);
}

#[test]
fn tags_count_up() {
    let mut t = BotTag { current_tag: 0 };
    assert_eq!(t.next_tag(), 1);
    assert_eq!(t.next_tag(), 2);
    assert_eq!(t.current_tag, 2);
}
