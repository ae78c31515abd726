use drivers::scsi::{
    block_geometry, mode_page_iter, u24_be_to_u32, whole_blocks, AnyModePage, BlkDesc, BlkDescSlice,
    FixedFormatSenseData, GeneralModeParamBlkDesc, Inquiry, LongLbaModeParamBlkDesc,
    ModePageControl, ModeParamHeader10, ModeSense10, ModeSense6, Read16, ReadCapacity10,
    ReadCapacity10ParamData, RequestSense, Scsi, ScsiError, SenseKey, ShortLbaModeParamBlkDesc,
    StandardInquiryData, Write16, OPCODE_INQUIRY, OPCODE_READ16, OPCODE_WRITE16,
};

#[test]
fn inquiry_stores_alloc_len_big_endian() {
    let cmd = Inquiry::new(true, 0x80, 0x0102, 7);
    assert_eq!(cmd.opcode, OPCODE_INQUIRY);
    assert_eq!(cmd.evpd, 1);
    assert_eq!(cmd.page_code, 0x80);
    assert_eq!(cmd.alloc_len, 0x0201);
    assert_eq!(cmd.control, 7);
    assert_eq!(Inquiry::new(false, 0, 5, 0).evpd, 0);
}

fn inquiry_bytes(a: u8, version: u8, additional_len: u8) -> Vec<u8> {
    let mut b = vec![0u8; 96];
    b[0] = a;
    b[2] = version;
    b[4] = additional_len;
    for (i, x) in b[16..32].iter_mut().enumerate() {
        *x = b'A' + i as u8;
    }
    b[58] = 0x34;
    b[59] = 0x12;
    b
}

#[test]
fn standard_inquiry_data_fields() {
    let d = StandardInquiryData::from_bytes(&inquiry_bytes(0xE3, 6, 31));
    assert_eq!(d.periph_dev_ty(), 3);
    assert_eq!(d.periph_dev_qual(), 7);
    assert_eq!(d.version(), 6);
    assert_eq!(d.additional_len, 31);
    assert_eq!(d.product_ident, b"ABCDEFGHIJKLMNOP".to_vec());
    assert_eq!(d.version_descs[0], 0x1234);
    assert_eq!(d.version_descs.len(), 8);
}

#[test]
fn inquiry_alloc_len_adds_header() {
    let mut scsi = Scsi::new();
    scsi.inquiry_buffer = inquiry_bytes(0, 5, 31);
    scsi.inquiry_buffer.resize(259, 0);
    assert_eq!(scsi.get_inquiry_alloc_len(), 35);
}

#[test]
fn request_sense_command() {
    let cmd = RequestSense::new(true, RequestSense::MINIMAL_ALLOC_LEN, 0);
    assert_eq!(cmd.opcode, 0x03);
    assert_eq!(cmd.desc, 1);
    assert_eq!(cmd.alloc_len, 252);
}

#[test]
fn fixed_sense_data_key_and_length() {
    let mut b = vec![0u8; 18];
    b[0] = 0x70;
    b[2] = 0x75;
    b[7] = 10;
    b[12] = 0x24;
    let d = FixedFormatSenseData::from_bytes(&b);
    assert_eq!(d.sense_key(), SenseKey::IllegalRequest);
    assert_eq!(d.additional_len(), 17);
    assert_eq!(d.add_sense_code, 0x24);
    b[2] = 0x0F;
    assert_eq!(FixedFormatSenseData::from_bytes(&b).sense_key(), SenseKey::Completed);
    assert_eq!(SenseKey::default(), SenseKey::NoSense);
}

#[test]
fn read16_swaps_lba_and_length() {
    let cmd = Read16::new(0x0102_0304_0506_0708, 0x10, 3);
    assert_eq!(cmd.opcode, OPCODE_READ16);
    assert_eq!(cmd.lba, 0x0807_0605_0403_0201);
    assert_eq!(cmd.transfer_len, 0x1000_0000);
    assert_eq!(cmd.control, 3);
}

#[test]
fn write16_is_big_endian() {
    let cmd = Write16::new(0x0102_0304_0506_0708, 0x10, 0);
    assert_eq!(cmd.opcode, OPCODE_WRITE16);
    assert_eq!(cmd.lba, 0x0807_0605_0403_0201);
    assert_eq!(cmd.transfer_len, 0x1000_0000);
    assert_eq!(u64::from_be(cmd.lba), 0x0102_0304_0506_0708);
}

#[test]
fn mode_sense_commands() {
    let six = ModeSense6::new(true, 0x3F, 2, 0, 0xFF, 0);
    assert_eq!(six.opcode, 0x1A);
    assert_eq!(six.a, 8);
    assert_eq!(six.b, 0xBF);
    assert_eq!(six.alloc_len, 0xFF);
    let ten = ModeSense10::get_block_desc(8, 0);
    assert_eq!(ten.opcode, 0x5A);
    assert_eq!(ten.a, 16);
    assert_eq!(ten.b, 0x3F);
    assert_eq!(ten.alloc_len, 0x0800);
    let saved = ModeSense10::new(true, false, 0x08, ModePageControl::SavedValue, 0, 0x100, 0);
    assert_eq!(saved.a, 8);
    assert_eq!(saved.b, 0xC8);
    assert_eq!(saved.alloc_len, 0x0001);
}

#[test]
fn u24_big_endian() {
    assert_eq!(u24_be_to_u32([1, 2, 3]), 0x010203);
    assert_eq!(u24_be_to_u32([0xFF, 0, 0]), 0xFF0000);
}

#[test]
fn block_descriptors_decode() {
    let short = ShortLbaModeParamBlkDesc::from_bytes(&[0, 0, 0x10, 0, 0, 0, 2, 0], 0);
    assert_eq!(short.block_count(), 0x1000);
    assert_eq!(short.logical_block_len(), 512);
    let general = GeneralModeParamBlkDesc::from_bytes(&[1, 0, 1, 0, 0, 0, 8, 0], 0);
    assert_eq!(general.block_count(), 256);
    assert_eq!(general.logical_block_len(), 2048);
    let long = LongLbaModeParamBlkDesc::from_bytes(
        &[0, 0, 0, 0, 0, 0, 1, 0, 0, 0, 0, 0, 0, 0, 0x10, 0],
        0,
    );
    assert_eq!(long.block_count(), 256);
    assert_eq!(long.logical_block_len(), 4096);
}

#[test]
fn mode_param_header10_fields() {
    let h = ModeParamHeader10::from_bytes(&[0x00, 0x1E, 0, 0, 0x01, 0, 0x00, 0x10]);
    assert_eq!(h.mode_data_len(), 30);
    assert!(h.longlba());
    assert_eq!(h.block_desc_len(), 16);
}

#[test]
fn mode_pages_are_read_until_an_unknown_page() {
    let buf = [
        0x01, 9, 0xC0, 3, 0, 0, 0, 0, 0x00, 0x05, // read-write error recovery
        0x08, 1, // caching
        0x0A, 0, // control: not decoded, ends the walk
        0x01, 9, 0, 0, 0, 0, 0, 0, 0, 0,
    ];
    let pages = mode_page_iter(&buf);
    assert_eq!(pages.len(), 2);
    match pages[0] {
        AnyModePage::RwErrorRecovery(p) => {
            assert_eq!(p.page_length, 9);
            assert_eq!(p.b, 0xC0);
            assert_eq!(p.read_retry_count, 3);
            assert_eq!(p.recovery_time_limit, 0x0500);
        }
        _ => panic!("expected the error recovery page"),
    }
    match pages[1] {
        AnyModePage::Caching(c) => {
            assert_eq!(c.a, 8);
            assert_eq!(c.page_length, 1);
        }
        _ => panic!("expected the caching page"),
    }
}

#[test]
fn mode_pages_stop_at_sub_page_format() {
    assert_eq!(mode_page_iter(&[0x41, 5, 0, 0, 0, 0]).len(), 0);
    assert_eq!(mode_page_iter(&[0x01]).len(), 0);
    // a truncated page ends the walk
    assert_eq!(mode_page_iter(&[0x01, 20, 0, 0]).len(), 0);
}

#[test]
fn long_block_descriptors_from_mode_sense_reply() {
    let mut scsi = Scsi::new();
    scsi.inquiry_buffer = inquiry_bytes(0, 5, 31);
    scsi.inquiry_buffer.resize(259, 0);
    let mut data = vec![0x00, 0x1E, 0, 0, 0x01, 0, 0x00, 0x10];
    data.extend_from_slice(&[0, 0, 0, 0, 0, 0, 0x10, 0, 0, 0, 0, 0, 0, 0, 0x02, 0]);
    scsi.data_buffer = data;
    match scsi.res_blkdesc_mode10() {
        BlkDescSlice::Long(v) => {
            assert_eq!(v.len(), 1);
            let d = BlkDesc::Long(v[0]);
            assert_eq!(d.block_count(), 0x1000);
            assert_eq!(d.block_size(), 512);
        }
        _ => panic!("expected long descriptors"),
    }
}

#[test]
fn short_and_general_block_descriptors() {
    let mut scsi = Scsi::new();
    scsi.inquiry_buffer = inquiry_bytes(0, 5, 31);
    scsi.inquiry_buffer.resize(259, 0);
    let mut data = vec![0x00, 0x0E, 0, 0, 0x00, 0, 0x00, 0x08];
    data.extend_from_slice(&[0, 0, 0x10, 0, 0, 0, 2, 0]);
    scsi.data_buffer = data.clone();
    match scsi.res_blkdesc_mode10() {
        BlkDescSlice::Short(v) => {
            assert_eq!(v.len(), 1);
            assert_eq!(BlkDesc::Short(v[0]).block_count(), 0x1000);
        }
        _ => panic!("expected short descriptors"),
    }
    // not a direct-access device, SPC-3: the general format
    scsi.inquiry_buffer[0] = 1;
    scsi.inquiry_buffer[2] = 3;
    match scsi.res_blkdesc_mode10() {
        BlkDescSlice::General(v) => {
            assert_eq!(v.len(), 1);
            assert_eq!(v[0].density_code, 0);
            assert_eq!(BlkDesc::General(v[0]).block_size(), 512);
        }
        _ => panic!("expected general descriptors"),
    }
    assert!(scsi.res_blkdesc_mode10().get(1).is_none());
}

#[test]
fn mode_pages_after_block_descriptors() {
    let mut scsi = Scsi::new();
    let mut data = vec![0x00, 0x12, 0, 0, 0x00, 0, 0x00, 0x08];
    data.extend_from_slice(&[0, 0, 0x10, 0, 0, 0, 2, 0]);
    data.extend_from_slice(&[0x08, 1]);
    scsi.data_buffer = data;
    let pages = scsi.res_mode_pages10();
    assert_eq!(pages.len(), 1);
    assert!(matches!(pages[0], AnyModePage::Caching(_)));
    assert_eq!(scsi.mode_sense10_alloc_len(), 0x14);
}

#[test]
fn read_capacity_and_geometry() {
    let cmd = ReadCapacity10::new(0);
    assert_eq!(cmd.opcode, 0x25);
    let cap = ReadCapacity10ParamData::from_bytes(&[0, 0, 0x10, 0, 0, 0, 2, 0]);
    assert_eq!(cap.block_count(), 0x1000);
    assert_eq!(cap.logical_block_len(), 512);
    assert_eq!(block_geometry(None, &cap), (512, 0x1000));
    let short = ShortLbaModeParamBlkDesc::from_bytes(&[0, 0, 0, 8, 0, 0, 0x10, 0], 0);
    assert_eq!(block_geometry(Some(BlkDesc::Short(short)), &cap), (4096, 8));
}

#[test]
fn disk_size_is_blocks_times_block_size() {
    let mut scsi = Scsi::new();
    scsi.block_size = 512;
    scsi.block_count = 2048;
    assert_eq!(scsi.get_disk_size(), 1_048_576);
}

#[test]
fn read_and_write_commands_cover_whole_blocks() {
    let mut scsi = Scsi::new();
    scsi.block_size = 512;
    let (cmd, bytes) = scsi.read_command(16, 4096).unwrap();
    assert_eq!(cmd.transfer_len, 0x0800_0000);
    assert_eq!(cmd.lba, 16u64.swap_bytes());
    assert_eq!(bytes, 4096);
    let (cmd, bytes) = scsi.read_command(0, 1000).unwrap();
    assert_eq!(cmd.transfer_len, 0x0100_0000);
    assert_eq!(bytes, 512);
    let (cmd, bytes) = scsi.write_command(7, 1536).unwrap();
    assert_eq!(cmd.lba, 7u64.swap_bytes());
    assert_eq!(cmd.transfer_len, 0x0300_0000);
    assert_eq!(bytes, 1536);
}

#[test]
fn too_many_blocks_overflow() {
    assert_eq!(whole_blocks(1000, 512), Some((1, 512)));
    if usize::BITS > 32 {
        let len = (u32::MAX as usize) + 1;
        assert_eq!(whole_blocks(len, 1), None);
        let mut scsi = Scsi::new();
        scsi.block_size = 1;
        assert!(matches!(scsi.read_command(0, len), Err(ScsiError::Overflow(_))));
    }
}

#[test]
fn scsi_scheme_files() {
    use_scsi_scheme_files();
}

fn use_scsi_scheme_files() {
    use_open();
    let mut scsi = drivers::scsi::Scsi::new();
    scsi.block_size = 512;
    scsi.block_count = 100;
    let d = scsi.stat(drivers::scsi::ScsiHandle::Disk);
    assert_eq!((d.mode, d.size, d.blksize, d.blocks), (drivers::scsi::SCSI_MODE_CHR, 51200, Some(512), Some(100)));
    let l = scsi.stat(drivers::scsi::ScsiHandle::List);
    assert_eq!((l.mode, l.size, l.blksize), (drivers::scsi::SCSI_MODE_DIR, 2, None));
    assert_eq!(scsi.transfer_lba(1024, 4096), Some(2));
    assert_eq!(scsi.transfer_lba(1000, 4096), None);
    assert_eq!(scsi.transfer_lba(1024, 100), None);
    let mut buf = [9u8; 4];
    assert_eq!(drivers::scsi::scsi_fpath(drivers::scsi::ScsiHandle::Disk, &mut buf), 1);
    assert_eq!(buf, [b'0', 9, 9, 9]);
    assert_eq!(drivers::scsi::scsi_fpath(drivers::scsi::ScsiHandle::List, &mut buf), 0);
    let mut empty: [u8; 0] = [];
    assert_eq!(drivers::scsi::scsi_fpath(drivers::scsi::ScsiHandle::Disk, &mut empty), 0);
}

fn use_open() {
    let open = drivers::scsi::scsi_open;
    assert_eq!(open(b"", false, false, 0), Ok(drivers::scsi::ScsiHandle::List));
    assert_eq!(open(b"///", true, true, 0), Ok(drivers::scsi::ScsiHandle::List));
    assert_eq!(open(b"/0", false, false, 0), Ok(drivers::scsi::ScsiHandle::Disk));
    assert_eq!(open(b"0p1", false, false, 0), Err(drivers::scsi::ScsiOpenError::NotSupported));
    assert_eq!(open(b"0", false, false, 1000), Err(drivers::scsi::ScsiOpenError::Access));
    assert_eq!(open(b"0", true, false, 0), Err(drivers::scsi::ScsiOpenError::Access));
}

#[test]
fn short_inquiry_learns_full_length() {
    let mut scsi = Scsi::new();
    scsi.prepare_standard_inquiry(drivers::scsi::MIN_INQUIRY_ALLOC_LEN);
    assert_eq!(&scsi.command_buffer[..6], &[0x12, 0, 0, 0, 5, 0]);
    assert_eq!(&scsi.command_buffer[6..], &[0u8; 10]);
    scsi.inquiry_buffer[4] = 31;
    assert!(matches!(scsi.inquiry_alloc_len_after(Ok(())), Ok(35)));
    assert!(matches!(
        scsi.inquiry_alloc_len_after(Err(drivers::bot::ProtocolError::RecoveryFailed)),
        Err(ScsiError::ProtocolError(drivers::bot::ProtocolError::RecoveryFailed))
    ));
    scsi.prepare_standard_inquiry(0x0102);
    assert_eq!(&scsi.command_buffer[..6], &[0x12, 0, 0, 1, 2, 0]);
}
