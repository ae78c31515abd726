use drivers::nvme::{
    admin_queue_attributes, chunk_blocks_1, completion_queue_doorbell, completion_succeeded,
    controller_config, controller_ready, doorbell_offset, namespace_from_identify, namespace_ids,
    prp_list, prp_pointers, submission_queue_doorbell, transfer_bytes, try_notify_futures,
    vector_mask_writes, CompletionFutureState, CompletionMessage, IdentifyControllerData,
    IdentifyNamespaceData, LbaFormat, NotifReq, NvmeCmd, NvmeCmdQueue, NvmeComp, NvmeCompQueue,
    NvmeHw, NvmeNamespace, RelativePerformance, Status,
};

#[test]
fn status_codes() {
    assert_eq!(Status::parse(0), Status::GenericCmdStatus(0));
    assert_eq!(Status::parse((1 << 9) | (2 << 1)), Status::CommandSpecificStatus(2));
    assert_eq!(Status::parse((2 << 9) | (0x81 << 1) | 1), Status::IntegrityError(0x81));
    assert_eq!(Status::parse(3 << 9), Status::PathRelatedStatus(0));
    assert_eq!(Status::parse((5 << 9) | (0x7f << 1)), Status::Rsvd(0x7f));
    assert_eq!(Status::parse(7 << 9), Status::Vendor(0));
}

#[test]
fn lba_formats() {
    let f = LbaFormat(0x0209_0008);
    assert_eq!(f.relative_performance(), RelativePerformance::Good);
    assert_eq!(f.log_lba_data_size(), 9);
    assert_eq!(f.lba_data_size(), Some(512));
    assert_eq!(f.metadata_size(), 8);
    assert!(f.is_available());
    assert_eq!(LbaFormat(0x0008_0000).lba_data_size(), None);
    assert_eq!(LbaFormat(0x0020_0000).lba_data_size(), None);
    assert_eq!(LbaFormat(0x001F_0000).lba_data_size(), Some(1 << 31));
    assert!(!LbaFormat(0x0300_0000).is_available());
    assert_eq!(LbaFormat(0x0300_0000).relative_performance(), RelativePerformance::Degraded);
}

fn identify_namespace_bytes() -> Vec<u8> {
    let mut b = vec![0u8; 4096];
    b[0..8].copy_from_slice(&1000u64.to_le_bytes());
    b[8..16].copy_from_slice(&900u64.to_le_bytes());
    b[26] = 0x11;
    b[128..132].copy_from_slice(&0x0009_0000u32.to_le_bytes());
    b[132..136].copy_from_slice(&0x000C_0000u32.to_le_bytes());
    b
}

#[test]
fn namespace_from_identify_data() {
    let data = IdentifyNamespaceData::from_bytes(&identify_namespace_bytes());
    assert_eq!(data.size_in_blocks(), 1000);
    assert_eq!(data.capacity_in_blocks(), 900);
    assert_eq!(data.formatted_lba_size_idx(), 1);
    assert!(data.has_metadata_after_data());
    assert_eq!(data.formatted_lba_size(), LbaFormat(0x000C_0000));
    assert_eq!(
        namespace_from_identify(1, &data),
        Some(NvmeNamespace { id: 1, blocks: 1000, block_size: 4096 })
    );
    let mut bytes = identify_namespace_bytes();
    bytes[26] = 0x02;
    let data = IdentifyNamespaceData::from_bytes(&bytes);
    assert!(!data.has_metadata_after_data());
    assert_eq!(namespace_from_identify(1, &data), None);
}

#[test]
fn identify_controller_strings() {
    let mut b = vec![b' '; 80];
    b[0] = 0x86;
    b[1] = 0x80;
    b[4..8].copy_from_slice(b"SN01");
    b[24..28].copy_from_slice(b"QEMU");
    b[72..76].copy_from_slice(b"1.0 ");
    let d = IdentifyControllerData::from_bytes(&b);
    assert_eq!(d.vid, 0x8086);
    assert_eq!(&d.serial_no[..4], b"SN01");
    assert_eq!(d.model_no.len(), 48);
    assert_eq!(&d.firmware_rev[..4], b"1.0 ");
}

#[test]
fn namespace_list_stops_at_zero() {
    assert_eq!(namespace_ids(&[3, 5, 0, 7]), vec![3, 5]);
    assert_eq!(namespace_ids(&[1, 2]), vec![1, 2]);
    assert_eq!(namespace_ids(&[0]), Vec::<u32>::new());
}

fn comp(status: u16, cid: u16, sq_id: u16) -> NvmeComp {
    NvmeComp { command_specific: 0, rsvd: 0, sq_head: 0, sq_id, cid, status }
}

#[test]
fn completion_queue_follows_the_phase_tag() {
    let mut q = NvmeCompQueue::new();
    assert_eq!(q.complete(), None);
    q.data[0] = comp(1, 4, 1);
    assert_eq!(q.complete(), Some((1, comp(1, 4, 1))));
    assert_eq!(q.head, 1);
    assert!(q.phase);
}

#[test]
fn completion_queue_phase_flips_on_wrap() {
    let mut q = NvmeCompQueue { data: vec![comp(1, 0, 0), comp(1, 1, 0)], head: 0, phase: true };
    assert_eq!(q.complete().map(|x| x.0), Some(1));
    assert_eq!(q.complete().map(|x| x.0), Some(0));
    assert!(!q.phase);
    // the old entries carry the old phase
    assert_eq!(q.complete(), None);
    q.data[0] = comp(0, 7, 0);
    assert_eq!(q.complete(), Some((1, comp(0, 7, 0))));
}

#[test]
fn submission_queue_ring() {
    let mut q = NvmeCmdQueue::new();
    assert!(q.is_empty());
    assert!(!q.is_full());
    let cmd = NvmeCmd { opcode: 2, nsid: 1, ..NvmeCmd::default() };
    assert_eq!(q.submit_unchecked(cmd), 1);
    assert!(!q.is_empty());
    assert_eq!(q.try_submit(1, cmd), Some((1, 1, 2)));
    assert_eq!(q.data[1].cid, 1);
    q.head = 3;
    assert!(q.is_full());
    assert_eq!(q.try_submit(1, cmd), None);
    assert_eq!(q.tail, 2);
    // Going round the ring: with the tail at the last entry and the head at
    // the first, one more entry would make the queue look empty.
    let mut q = NvmeCmdQueue::new();
    q.tail = 63;
    q.head = 0;
    assert!(q.is_full());
    assert_eq!(q.try_submit(1, cmd), None);
    q.head = 1;
    assert!(!q.is_full());
}

#[test]
fn command_ids_in_entries() {
    let mut cmd = NvmeCmd::default();
    NvmeHw::set_sqe_cmdid(&mut cmd, 42);
    assert_eq!(cmd.cid, 42);
    assert_eq!(NvmeHw::get_cqe_cmdid(&comp(0, 9, 0)), 9);
    assert!(comp(1, 0, 0).phase());
    let mut raw = vec![0u8; 16];
    raw[12] = 9;
    raw[14] = 1;
    let c = NvmeComp::from_bytes(&raw, 0);
    assert_eq!(c.cid, 9);
    assert_eq!(c.status, 1);
}

#[test]
fn answered_requests_leave_the_pending_list() {
    let mut pending = vec![
        NotifReq::RequestCompletion { cq_id: 1, sq_id: 1, cmd_id: 4, waker: 10 },
        NotifReq::RequestAvailSubmission { sq_id: 2, waker: 11 },
        NotifReq::RequestCompletion { cq_id: 1, sq_id: 1, cmd_id: 5, waker: 12 },
        NotifReq::RequestAvailSubmission { sq_id: 1, waker: 13 },
    ];
    let woken = try_notify_futures(&mut pending, 1, &comp(1, 4, 1));
    assert_eq!(
        woken,
        vec![
            NotifReq::RequestCompletion { cq_id: 1, sq_id: 1, cmd_id: 4, waker: 10 },
            NotifReq::RequestAvailSubmission { sq_id: 1, waker: 13 },
        ]
    );
    assert_eq!(
        pending,
        vec![
            NotifReq::RequestAvailSubmission { sq_id: 2, waker: 11 },
            NotifReq::RequestCompletion { cq_id: 1, sq_id: 1, cmd_id: 5, waker: 12 },
        ]
    );
    // a completion on another queue answers no completion request
    let woken = try_notify_futures(&mut pending, 2, &comp(1, 5, 1));
    assert!(woken.is_empty());
}

#[test]
fn command_future_submits_then_completes() {
    let mut sq = NvmeCmdQueue::new();
    let cmd = NvmeCmd { opcode: 6, ..NvmeCmd::default() };
    let mut fut = CompletionFutureState::PendingSubmission { sq_id: 0, cmd };
    let out = fut.poll(&mut sq, 0, None, 77);
    assert_eq!(out.ready, None);
    assert_eq!(out.notify, Some(NotifReq::RequestCompletion { cq_id: 0, sq_id: 0, cmd_id: 0, waker: 77 }));
    assert_eq!(out.doorbell, Some((0, 1)));
    assert_eq!(fut, CompletionFutureState::PendingCompletion { cq_id: 0, cmd_id: 0, sq_id: 0 });
    let out = fut.poll(&mut sq, 0, None, 78);
    assert_eq!(out.notify, Some(NotifReq::RequestCompletion { cq_id: 0, sq_id: 0, cmd_id: 0, waker: 78 }));
    let entry = comp(1, 0, 0);
    let out = fut.poll(&mut sq, 0, Some(CompletionMessage { cq_entry: entry }), 78);
    assert_eq!(out.ready, Some(entry));
    assert_eq!(fut, CompletionFutureState::Finished);
}

#[test]
fn command_future_waits_for_room() {
    let mut sq = NvmeCmdQueue::new();
    sq.head = 1;
    let mut fut = CompletionFutureState::PendingSubmission { sq_id: 3, cmd: NvmeCmd::default() };
    let out = fut.poll(&mut sq, 3, None, 5);
    assert_eq!(out.notify, Some(NotifReq::RequestAvailSubmission { sq_id: 3, waker: 5 }));
    assert_eq!(out.doorbell, None);
    assert!(matches!(fut, CompletionFutureState::PendingSubmission { .. }));
}

#[test]
fn transfer_arithmetic() {
    assert_eq!(prp_pointers(4096, 10, 20, 1000), (10, 0));
    assert_eq!(prp_pointers(8192, 10, 20, 1000), (10, 20));
    assert_eq!(prp_pointers(8193, 10, 20, 1000), (10, 1008));
    assert_eq!(transfer_bytes(15, 512), 8192);
    assert_eq!(chunk_blocks_1(8192, 512), 15);
    assert_eq!(chunk_blocks_1(1, 512), 0);
    assert_eq!(chunk_blocks_1(513, 512), 1);
    assert!(completion_succeeded(0));
    assert!(completion_succeeded(1));
    assert!(!completion_succeeded(2));
}

#[test]
fn registers_and_doorbells() {
    assert_eq!(submission_queue_doorbell(3), 6);
    assert_eq!(completion_queue_doorbell(3), 7);
    assert_eq!(doorbell_offset(3, 0), 0x1000 + 12);
    assert_eq!(doorbell_offset(3, 1), 0x1000 + 24);
    assert_eq!(vector_mask_writes(3, true), (8, 0));
    assert_eq!(vector_mask_writes(0, false), (0, 1));
    assert_eq!(admin_queue_attributes(256, 64), (255 << 16) | 63);
    assert_eq!(controller_config(0xFFFF_FFFF), 0xFF46_000F);
    assert_eq!(controller_config(1), 0x0046_0001);
    assert!(controller_ready(1));
    assert!(!controller_ready(2));
    assert_eq!(prp_list(0x10000, 3), vec![0x10000, 0x11000, 0x12000]);
}

#[test]
fn namespace_command_chunks() {
    use_namespace_command_chunks();
}

fn use_namespace_command_chunks() {
    let chunk = |lba: u64, blocks_1: u16, offset: usize, len: usize| drivers::nvme::NvmeChunk { lba, blocks_1, offset, len };
    assert_eq!(
        drivers::nvme::namespace_chunks(10, 20000, 512),
        vec![chunk(10, 15, 0, 8192), chunk(26, 15, 8192, 8192), chunk(42, 7, 16384, 3616)]
    );
    assert!(drivers::nvme::namespace_chunks(0, 0, 512).is_empty());
    assert_eq!(drivers::nvme::namespace_chunks(5, 100, 4096), vec![chunk(5, 0, 0, 100)]);
}

#[test]
fn relative_performance_order() {
    assert!(RelativePerformance::Best > RelativePerformance::Degraded);
    assert!(RelativePerformance::Best > RelativePerformance::Better);
    assert!(RelativePerformance::Better > RelativePerformance::Good);
    assert!(RelativePerformance::Good > RelativePerformance::Degraded);
    assert!(RelativePerformance::Degraded < RelativePerformance::Good);
    assert_eq!(
        RelativePerformance::Good.partial_cmp(&RelativePerformance::Good),
        Some(std::cmp::Ordering::Equal)
    );
    assert_eq!(LbaFormat(0x0100_0000).relative_performance(), RelativePerformance::Better);
    assert_eq!(LbaFormat(0xFCFF_FFFF).relative_performance(), RelativePerformance::Best);
}

#[test]
fn identify_controller_text_trimmed() {
    let mut raw = vec![0u8; 4096];
    raw[4..24].copy_from_slice(b"  S3EVNX0K123456    ");
    raw[24..72].copy_from_slice(format!("{:<48}", "Samsung SSD 970 EVO 500GB").as_bytes());
    raw[72..80].copy_from_slice(b"2B2QEXE7");
    let data = drivers::nvme::IdentifyControllerData::from_bytes(&raw);
    let (serial, model, firmware) = data.strings();
    assert_eq!(serial, "S3EVNX0K123456");
    assert_eq!(model, "Samsung SSD 970 EVO 500GB");
    assert_eq!(firmware, "2B2QEXE7");

    raw[72..80].copy_from_slice(b"\tv1\xFF\n   ");
    let data = drivers::nvme::IdentifyControllerData::from_bytes(&raw);
    assert_eq!(data.strings().2, "v1\u{FFFD}");
    assert_eq!(drivers::nvme::trim_str(" \u{3000}a b\u{A0}\n"), "a b");
    assert_eq!(drivers::nvme::trim_str("   "), "");
}
