use drivers::lived::{LiveDisk, LiveError, PAGE_SIZE};
use drivers::partition::{
    gpt_partition, mbr_partition_table, read_mbr_header, LogicalBlockSize, MbrEntry, Partition,
    PartitionTableKind, MBR_LEN,
};

fn mbr_with_entry(attrs: u8, rel: u32, len: u32) -> Vec<u8> {
    let mut s = vec![0u8; MBR_LEN];
    s[446] = attrs;
    s[446 + 4] = 0x83;
    s[446 + 8..446 + 12].copy_from_slice(&rel.to_le_bytes());
    s[446 + 12..446 + 16].copy_from_slice(&len.to_le_bytes());
    s[510] = 0x55;
    s[511] = 0xAA;
    s
}

#[test]
fn mbr_one_bootable_partition() {
    let s = mbr_with_entry(0x80, 1, 3);
    let h = read_mbr_header(&s).expect("signature present");
    assert_eq!(h.first_entry.sys_id, 0x83);
    let parts = h.partitions();
    assert_eq!(parts.len(), 1);
    let t = mbr_partition_table(&h);
    assert_eq!(t.kind, PartitionTableKind::Mbr);
    assert_eq!(t.partitions.len(), 1);
    assert_eq!(t.partitions[0].start_lba, 1);
    assert_eq!(t.partitions[0].size, 3);
    assert!(t.partitions[0].name.is_none());
}

#[test]
fn mbr_bad_signature() {
    let mut s = mbr_with_entry(0x80, 1, 3);
    s[511] = 0;
    assert!(read_mbr_header(&s).is_none());
}

#[test]
fn mbr_invalid_entries_are_skipped() {
    let s = mbr_with_entry(0x12, 1, 3);
    let h = read_mbr_header(&s).unwrap();
    assert!(h.partitions().is_empty());
    let s = mbr_with_entry(0x00, 1, 0);
    let h = read_mbr_header(&s).unwrap();
    assert!(h.partitions().is_empty());
}

#[test]
fn mbr_entry_fields() {
    let mut s = vec![0u8; 16];
    s[0] = 0x80;
    s[1] = 1;
    s[2] = 0x34;
    s[3] = 0x12;
    s[4] = 7;
    s[12] = 0x10;
    let e = MbrEntry::from_bytes(&s, 0);
    assert_eq!(e.start_cs, 0x1234);
    assert_eq!(e.sys_id, 7);
    assert_eq!(e.len, 0x10);
    assert!(e.is_valid());
}

#[test]
fn block_sizes_and_offsets() {
    assert_eq!(LogicalBlockSize::from_disk_block_size(512), Some(LogicalBlockSize::Lb512));
    assert_eq!(LogicalBlockSize::from_disk_block_size(4096), Some(LogicalBlockSize::Lb4096));
    assert_eq!(LogicalBlockSize::from_disk_block_size(1024), None);
    let p = Partition { start_lba: 2048, size: 10, flags: None, name: None, uuid: None };
    assert_eq!(p.to_offset(LogicalBlockSize::Lb512), 1_048_576);
    assert_eq!(p.to_offset(LogicalBlockSize::Lb4096), 8_388_608);
}

#[test]
fn live_disk_reads_what_was_written() {
    let original: Vec<u8> = (0..2 * PAGE_SIZE).map(|i| (i % 251) as u8).collect();
    let mut disk = LiveDisk::new(original.clone());
    assert_eq!(disk.size(), (2 * PAGE_SIZE) as u64);
    assert_eq!(disk.block_size(), PAGE_SIZE as u32);
    let data = vec![0xEEu8; PAGE_SIZE + 100];
    assert_eq!(disk.write(0, &data), Ok(PAGE_SIZE + 100));
    let mut back = vec![0u8; 2 * PAGE_SIZE];
    assert_eq!(disk.read(0, &mut back), Ok(2 * PAGE_SIZE));
    assert_eq!(&back[..PAGE_SIZE + 100], &data[..]);
    assert_eq!(&back[PAGE_SIZE + 100..], &original[PAGE_SIZE + 100..]);
    assert_eq!(disk.original, original);
}

#[test]
fn live_disk_refuses_past_end() {
    let mut disk = LiveDisk::new(vec![0u8; PAGE_SIZE]);
    let mut buf = vec![1u8; 8];
    assert_eq!(disk.read(1, &mut buf), Err(LiveError::Invalid));
    assert_eq!(buf, vec![1u8; 8]);
    assert_eq!(disk.write(0, &vec![0u8; PAGE_SIZE + 1]), Err(LiveError::Invalid));
    assert_eq!(disk.read(0, &mut buf), Ok(8));
}

#[test]
fn gpt_entry_view() {
    let guid = 0xb665_fba9_74d5_4069_a6b9_5ba3_a164_fdfe_u128;
    let p = gpt_partition(34, 990, 0, "bug".to_owned(), guid);
    assert_eq!(p.start_lba, 34);
    assert_eq!(p.size, 957);
    assert_eq!(p.flags, Some(0));
    assert_eq!(p.name.as_deref(), Some("bug"));
    assert_eq!(p.uuid, Some(guid));
    let one = gpt_partition(7, 7, 1, String::new(), 0);
    assert_eq!(one.size, 1);
}

#[test]
fn mbr() {
    // A first sector like that of a disk image with one MBR partition at
    // block 1, three blocks long.
    let sector = mbr_with_entry(0x00, 1, 3);
    let table = mbr_partition_table(&read_mbr_header(&sector).expect("MBR signature"));
    assert_eq!(table.kind, PartitionTableKind::Mbr);
    assert_eq!(
        &table.partitions,
        &[Partition { flags: None, name: None, uuid: None, size: 3, start_lba: 1 }]
    );
}
