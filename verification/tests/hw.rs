use drivers::ata::{
    ata_dma_command, ata_running, atapi_dma_command, free_slot, atapi_capacity, atapi_read_plan, atapi_size, read10_cmd, read_capacity_cmd, AtapiRead,
    busmaster_state, hba_port_type, identify_sectors, identify_string, ide_chunk, ide_task_file,
    pio_word_bytes, prdt_entries, rw_command, AtaCommand, BusmasterState, HbaPortType, PrdtEntry,
    TaskFileHigh, disk_kind, implemented_ports, AhciDiskKind, HBA_SIG_ATA, HBA_SIG_ATAPI, HBA_SIG_PM, HBA_SIG_SEMB,
};
use drivers::dwc3::DWC3;
use drivers::sdhci::{
    block_transfer_plan, buffer_blocks, byte_address, clock_divisor, command_delay_ms,
    host_spec_version, op_cond_result, OpCondError, SdError, SdHostCtrl, CMD_ALL_SEND_CID,
    CMD_APP_CMD, CMD_GO_IDLE, CMD_NEED_APP, CMD_READ_MULTI, CMD_READ_SINGLE, CMD_SEND_CSD,
    CMD_SEND_IF_COND, CMD_SEND_OP_COND, CMD_SEND_REL_ADDR, CMD_WRITE_SINGLE,
};

#[test]
fn sd_clock_divisor_identification_rate() {
    let d = clock_divisor(400_000, 1);
    assert_eq!((d.divisor, d.shift, d.field), (64, 6, 0x4000));
    let d = clock_divisor(400_000, 2);
    assert_eq!((d.divisor, d.shift, d.field), (104, 6, 0x6800));
}

#[test]
fn sd_clock_divisor_fast_clock() {
    let d = clock_divisor(25_000_000, 1);
    assert_eq!((d.divisor, d.shift, d.field), (2, 0, 0x200));
    let d = clock_divisor(100_000, 2);
    assert_eq!(d.divisor, 416);
    assert_eq!(d.field, ((416 & 0xff) << 8) | ((416 & 0x300) >> 2));
}

#[test]
fn sd_host_spec_version() {
    assert_eq!(host_spec_version(0x0002_00ff), 2);
    assert_eq!(host_spec_version(0xff01_0000), 1);
}

#[test]
fn sd_card_size_high_capacity() {
    let mut c = SdHostCtrl::new();
    c.ocr = 0x4000_0000;
    c.csd = [0, 0, 0x1DA3_0000, 0];
    assert_eq!(c.card_size(), 3_978_297_344);
}

#[test]
fn sd_card_size_standard_capacity() {
    let mut c = SdHostCtrl::new();
    c.csd = [0, 0x3ff, 0xC003_8000, 0];
    assert_eq!(c.card_size(), 1_073_741_824);
}

#[test]
fn sd_finish_command_responses() {
    let mut c = SdHostCtrl::new();
    let resp = [0x1122_3344u32, 0x5566_7788, 0x99AA_BBCC, 0xDDEE_FF00];
    assert_eq!(c.finish_command(CMD_GO_IDLE, 0, resp), Ok(0));
    assert_eq!(c.finish_command(CMD_SEND_CSD, 0, resp), Ok(0x1122_3344));
    assert_eq!(c.csd, [0xEEFF_0099, 0xAABB_CC55, 0x6677_8811, 0x2233_4400]);
    assert_eq!(c.finish_command(CMD_ALL_SEND_CID, 0, resp), Ok(0x1122_3344));
    assert_eq!(c.cid, resp);
    assert_eq!(c.finish_command(CMD_SEND_IF_COND, 0x1AA, [0x1AA, 0, 0, 0]), Ok(0));
    assert_eq!(c.finish_command(CMD_SEND_IF_COND, 0x1AA, [0x1AB, 0, 0, 0]), Err(SdError::Invalid));
    assert_eq!(c.finish_command(CMD_SEND_OP_COND, 0, [0x80FF_8000, 0, 0, 0]), Ok(0x80FF_8000));
    assert_eq!(c.finish_command(CMD_SEND_REL_ADDR, 0, [0xABCD_0000, 0, 0, 0]), Ok(0xABCD_0000));
    assert_eq!(c.finish_command(CMD_SEND_REL_ADDR, 0, [0xABCD_8000, 0, 0, 0]), Err(SdError::Invalid));
    assert_eq!(c.finish_command(0x3702_0000, 0, [0xFF, 0, 0, 0]), Ok(0x20));
}

#[test]
fn sd_app_command_prefix() {
    let mut c = SdHostCtrl::new();
    assert_eq!(c.app_command_prefix(CMD_READ_SINGLE), None);
    assert_eq!(c.app_command_prefix(CMD_NEED_APP | 0x0602_0000), Some(CMD_APP_CMD));
    c.rca = 0x1234_0000;
    assert_eq!(c.app_command_prefix(CMD_NEED_APP | 0x0602_0000), Some(0x3702_0000));
}

#[test]
fn sd_delays() {
    assert_eq!(command_delay_ms(CMD_SEND_OP_COND), 1000);
    assert_eq!(command_delay_ms(CMD_SEND_IF_COND), 200);
    assert_eq!(command_delay_ms(CMD_APP_CMD), 200);
    assert_eq!(command_delay_ms(CMD_READ_SINGLE), 0);
}

#[test]
fn sd_op_cond() {
    assert_eq!(op_cond_result(0x00FF_8000, 5), Err(OpCondError::Timeout));
    assert_eq!(op_cond_result(0xC0FF_8000, 0), Err(OpCondError::Timeout));
    assert_eq!(op_cond_result(0x8000_0000, 5), Err(OpCondError::NoVoltage));
    assert_eq!(op_cond_result(0xC0FF_8000, 5), Ok(1));
    assert_eq!(op_cond_result(0x80FF_8000, 5), Ok(0));
}

#[test]
fn sd_transfer_plans() {
    let p = block_transfer_plan(0x0200_0001, 10, 4, false);
    assert_eq!(p.num, 4);
    assert!(p.set_block_count);
    assert_eq!(p.blksizecnt, 0x0004_0200);
    assert_eq!(p.start, Some((CMD_READ_MULTI, 10)));
    assert!(!p.per_block);
    assert!(!p.stop);
    let p = block_transfer_plan(1, 10, 4, false);
    assert!(!p.set_block_count);
    assert!(p.stop);
    let p = block_transfer_plan(1, 7, 0, true);
    assert_eq!(p.num, 1);
    assert_eq!(p.start, Some((CMD_WRITE_SINGLE, 7)));
    let p = block_transfer_plan(0, 7, 3, true);
    assert!(p.per_block);
    assert_eq!(p.start, None);
    assert_eq!(p.blksizecnt, 0x1_0200);
    assert_eq!(byte_address(7, 2), 4608);
    assert_eq!(buffer_blocks(1024), Some(2));
    assert_eq!(buffer_blocks(1000), None);
}

#[test]
fn ata_port_types() {
    assert_eq!(hba_port_type(3, HBA_SIG_ATA), HbaPortType::SATA);
    assert_eq!(hba_port_type(0x123, HBA_SIG_ATAPI), HbaPortType::SATAPI);
    assert_eq!(hba_port_type(3, HBA_SIG_PM), HbaPortType::PM);
    assert_eq!(hba_port_type(3, HBA_SIG_SEMB), HbaPortType::SEMB);
    assert_eq!(hba_port_type(3, 0x1234), HbaPortType::Unknown(0x1234));
    assert_eq!(hba_port_type(1, HBA_SIG_ATA), HbaPortType::NoDevice);
}

#[test]
fn ata_identify() {
    assert_eq!(identify_string(&[0x4142, 0x0043, 0x4400], 0, 3), b"ABCD".to_vec());
    assert_eq!(identify_string(&[0x4142], 1, 1), Vec::<u8>::new());
    let mut words = vec![0u16; 256];
    words[60] = 5;
    words[61] = 1;
    assert_eq!(identify_sectors(&words), (0x1_0005, 28));
    words[100] = 0x10;
    words[103] = 1;
    assert_eq!(identify_sectors(&words), (0x0001_0000_0000_0010, 48));
}

#[test]
fn ata_commands() {
    assert_eq!(rw_command(true, true, true), AtaCommand::WriteDmaExt);
    assert_eq!(rw_command(false, false, false), AtaCommand::ReadPio);
    assert_eq!(AtaCommand::WriteDmaExt.code(), 0x35);
    assert_eq!(AtaCommand::Identify.code(), 0xEC);
    let c = ide_chunk(100, 1024, 1000);
    assert_eq!((c.block, c.sectors), (102, 2));
}

#[test]
fn ata_task_file_48_bit() {
    let t = ide_task_file(1, 0x01_0203_0405, 3, true, false, false);
    assert_eq!(t.device_select, 0xF0);
    assert_eq!(t.high, Some(TaskFileHigh { sector_count: 0, lba_0: 0x02, lba_1: 0x01, lba_2: 0 }));
    assert_eq!((t.sector_count, t.lba_0, t.lba_1, t.lba_2), (3, 0x05, 0x04, 0x03));
    assert_eq!(t.command, 0x24);
    let t = ide_task_file(0, 5, 1, false, true, true);
    assert_eq!(t.device_select, 0xE0);
    assert_eq!(t.high, None);
    assert_eq!(t.command, 0xCA);
}

#[test]
fn ata_dma_descriptors() {
    assert_eq!(
        prdt_entries(0x1000, 2),
        vec![
            PrdtEntry { phys: 0x1000, size: 512, flags: 0 },
            PrdtEntry { phys: 0x1200, size: 512, flags: 0x8000 },
        ]
    );
    assert_eq!(busmaster_state(2), BusmasterState::Error);
    assert_eq!(busmaster_state(3), BusmasterState::Error);
    assert_eq!(busmaster_state(0), BusmasterState::Done);
    assert_eq!(busmaster_state(1), BusmasterState::Busy);
    assert_eq!(pio_word_bytes(0x4433_2211), [0x11, 0x22, 0x33, 0x44]);
}

#[test]
fn dwc3_registers() {
    let d = DWC3::new(0x1000);
    assert_eq!(d.address, 0x1000);
    assert_eq!(d.event_buf_len, None);
    assert_eq!((d.num_usb3_ports, d.num_usb2_ports), (1, 1));
    assert_eq!(DWC3::gctl_scaledown(3), 0x30);
    assert_eq!(DWC3::gctl_scaledown(0x1000_0001), 0x10);
    assert_eq!(DWC3::gusb3pipectl(1), 0xc2c4);
    assert_eq!(DWC3::gevntadrlo(0), 0xc400);
    assert_eq!(DWC3::gevntadrhi(1), 0xc414);
    assert_eq!(DWC3::gevntsiz(0), 0xc408);
    assert_eq!(DWC3::gevntcount(0), 0xc40c);
    assert_eq!(DWC3::global_control(0xFFFF_FFFF), 0xFFFF_FFCF);
    assert_eq!(DWC3::ss_phy_control(0xFFFF_FFFF), 0xF7FD_FFFF);
    assert_eq!(DWC3::event_buffer_registers(0x1_2345_6789, 4096), (0x2345_6789, 1, 4096));
}

#[test]
fn atapi_packets() {
    assert_eq!(read10_cmd(0x0102_0304, 0x0506), [0x28, 0, 1, 2, 3, 4, 0, 5, 6, 0, 0, 0, 0, 0, 0, 0]);
    let cap = read_capacity_cmd();
    assert_eq!(cap[0], 0x25);
    assert!(cap[1..].iter().all(|b| *b == 0));
    assert_eq!(atapi_capacity(&[0, 0, 0x10, 0, 0, 0, 8, 0]), (0x1001, 2048));
    assert_eq!(atapi_size(0x1001, 2048), 0x1001 * 2048);
}

#[test]
fn atapi_read_plans() {
    let (plan, n) = atapi_read_plan(100, 4096, 2048);
    assert_eq!(plan, vec![AtapiRead { lba: 100, count: 2, dma_len: 131072, dest: 0, copy_len: 4096 }]);
    assert_eq!(n, 4096);
    // After a full transfer buffer the position moves on by the block
    // length in blocks, as the driver does.
    let (plan, n) = atapi_read_plan(0, 512 * 600, 512);
    assert_eq!(
        plan,
        vec![
            AtapiRead { lba: 0, count: 256, dma_len: 131072, dest: 0, copy_len: 131072 },
            AtapiRead { lba: 512, count: 88, dma_len: 131072, dest: 262144, copy_len: 45056 },
        ]
    );
    assert_eq!(n, 600 * 512);
    let (plan, n) = atapi_read_plan(5, 100, 2048);
    assert!(plan.is_empty());
    assert_eq!(n, 0);
}

#[test]
fn ahci_slot_setup() {
    let c = ata_dma_command(0x0605_0403_0201, 8, true, 0x1_2345_6000);
    assert_eq!((c.cfl, c.prdtl), (0xC5, 1));
    assert_eq!((c.dba_low, c.dba_high, c.dbc), (0x2345_6000, 1, 4097));
    assert_eq!((c.pm, c.command, c.device), (0x80, 0x35, 0x40));
    assert_eq!([c.lba0, c.lba1, c.lba2, c.lba3, c.lba4, c.lba5], [1, 2, 3, 4, 5, 6]);
    assert_eq!((c.countl, c.counth, c.featurel), (8, 0, 0));
    let r = ata_dma_command(5, 1, false, 0x1000);
    assert_eq!((r.cfl, r.command, r.lba0, r.dbc), (5, 0x25, 5, 513));
    let a = atapi_dma_command(8, 0x2000);
    assert_eq!((a.cfl, a.dbc, a.command, a.featurel, a.device), (0x25, 7, 0xA0, 1, 0));
}

#[test]
fn ahci_slots() {
    assert_eq!(free_slot(0, 0), Some(0));
    assert_eq!(free_slot(0b1011, 0b0100), Some(4));
    assert_eq!(free_slot(0x7FFF_FFFF, 0), Some(31));
    assert_eq!(free_slot(u32::MAX, 0), None);
    assert_eq!(free_slot(0xFFFF_0000, 0x0000_FFFF), None);
    assert!(ata_running(1 << 3, 0, 0, 3));
    assert!(ata_running(0, 0x80, 0, 3));
    assert!(!ata_running(1 << 2, 0, 0, 3));
    assert!(!ata_running(1 << 3, 0, 1 << 30, 3));
}

#[test]
fn ide_status_polling() {
    use_ide_status_polling();
}

fn use_ide_status_polling() {
    use_status();
}

fn use_status() {
    let check = drivers::ata::ide_check_status;
    let poll = drivers::ata::ide_poll_step;
    assert_eq!(check(0x50), Ok(0x50));
    assert_eq!(check(0x21), Err(drivers::ata::IdeError::Error));
    assert_eq!(check(0x20), Err(drivers::ata::IdeError::WriteFault));
    assert_eq!(poll(0x80, true), drivers::ata::IdePoll::Busy);
    assert_eq!(poll(0x58, true), drivers::ata::IdePoll::Ready);
    assert_eq!(poll(0x50, true), drivers::ata::IdePoll::Failed(drivers::ata::IdeError::NotReady));
    assert_eq!(poll(0x50, false), drivers::ata::IdePoll::Ready);
    assert_eq!(poll(0x81, false), drivers::ata::IdePoll::Failed(drivers::ata::IdeError::Error));
}

#[test]
fn ahci_implemented_ports() {
    assert_eq!(implemented_ports(0), Vec::<u32>::new());
    assert_eq!(implemented_ports(0b1011), vec![0, 1, 3]);
    assert_eq!(implemented_ports(0x8000_0001), vec![0, 31]);
    assert_eq!(implemented_ports(u32::MAX).len(), 32);
    assert_eq!(disk_kind(hba_port_type(3, HBA_SIG_ATA)), Some(AhciDiskKind::Ata));
    assert_eq!(disk_kind(hba_port_type(3, HBA_SIG_ATAPI)), Some(AhciDiskKind::Atapi));
    assert_eq!(disk_kind(hba_port_type(3, HBA_SIG_PM)), None);
    assert_eq!(disk_kind(hba_port_type(0, HBA_SIG_ATA)), None);
}
