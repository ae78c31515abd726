use drivers::block::{
    disk_stat, list_stat, partition_stat, seek_position, FileStat, SeekFrom, MODE_DIR, MODE_FILE,
    block_read, block_read_plan, check_locks, disk_list, fpath, list_read, open_path, parse_disk_path,
    partition_block, BlockPiece, DiskError, DiskInfo, DiskPath, Handle,
};
use drivers::partition::{Partition, PartitionTable, PartitionTableKind};

#[test]
fn read_plan_splits_at_block_boundaries() {
    let plan = block_read_plan(1000, 512, 100);
    assert_eq!(
        plan,
        vec![
            BlockPiece { block: 1, blk_offset: 488, to_copy: 24 },
            BlockPiece { block: 2, blk_offset: 0, to_copy: 76 },
        ]
    );
}

#[test]
fn read_plan_empty_buffer() {
    assert!(block_read_plan(4096, 512, 0).is_empty());
}

#[test]
fn read_plan_whole_blocks() {
    let plan = block_read_plan(0, 512, 1536);
    assert_eq!(plan.len(), 3);
    for (k, p) in plan.iter().enumerate() {
        assert_eq!(*p, BlockPiece { block: k as u64, blk_offset: 0, to_copy: 512 });
    }
}

#[test]
fn read_plan_stops_at_end_of_range() {
    let plan = block_read_plan(u64::MAX - 10, 512, 100);
    let total: usize = plan.iter().map(|p| p.to_copy).sum();
    assert_eq!(total, 10);
}

fn one_partition_table() -> Option<PartitionTable> {
    Some(PartitionTable {
        partitions: vec![Partition { start_lba: 2048, size: 4096, flags: None, name: None, uuid: None }],
        kind: PartitionTableKind::Mbr,
    })
}

#[test]
fn partition_block_maps_and_bounds() {
    let pt = one_partition_table();
    assert_eq!(partition_block(&pt, None, 7, 512), Ok(7));
    assert_eq!(partition_block(&pt, Some(0), 3, 512), Ok(2051));
    assert_eq!(partition_block(&pt, Some(0), 8, 512), Err(DiskError::Overflow));
    assert_eq!(partition_block(&pt, Some(1), 0, 512), Err(DiskError::BadFd));
    assert_eq!(partition_block(&None, Some(0), 0, 512), Err(DiskError::BadFd));
}

#[test]
fn parse_paths() {
    assert_eq!(parse_disk_path(b""), Ok(DiskPath::Root));
    assert_eq!(parse_disk_path(b"/"), Ok(DiskPath::Root));
    assert_eq!(parse_disk_path(b"3"), Ok(DiskPath::Disk(3)));
    assert_eq!(parse_disk_path(b"/0p1/"), Ok(DiskPath::Partition(0, 1)));
    assert_eq!(parse_disk_path(b"12p34"), Ok(DiskPath::Partition(12, 34)));
    assert_eq!(parse_disk_path(b"2p"), Err(DiskError::NoEntry));
    assert_eq!(parse_disk_path(b"x"), Err(DiskError::NoEntry));
    assert_eq!(parse_disk_path(b"4294967296"), Err(DiskError::NoEntry));
}

#[test]
fn listing_text() {
    let disks = [DiskInfo { id: 0, partitions: Some(2) }, DiskInfo { id: 1, partitions: None }];
    assert_eq!(disk_list(&disks), b"0\n0p0\n0p1\n1\n".to_vec());
    assert!(disk_list(&[]).is_empty());
}

#[test]
fn listing_lines_parse_back() {
    let disks = [DiskInfo { id: 5, partitions: Some(3) }];
    let text = disk_list(&disks);
    for line in text.split(|b| *b == b'\n').filter(|l| !l.is_empty()) {
        assert!(parse_disk_path(line).is_ok());
    }
    assert_eq!(parse_disk_path(b"5p2"), Ok(DiskPath::Partition(5, 2)));
}

#[test]
fn locks() {
    let handles = [Handle::Partition(0, 1), Handle::List(Vec::new())];
    assert_eq!(check_locks(&handles, 0, Some(1)), Err(DiskError::NoLock));
    assert_eq!(check_locks(&handles, 0, Some(2)), Ok(()));
    assert_eq!(check_locks(&handles, 0, None), Err(DiskError::NoLock));
    assert_eq!(check_locks(&handles, 1, None), Ok(()));
    let whole = [Handle::Disk(2)];
    assert_eq!(check_locks(&whole, 2, Some(0)), Err(DiskError::NoLock));
}

#[test]
fn list_read_copies_from_offset() {
    let list = b"0\n0p0\n";
    let mut buf = [9u8; 4];
    assert_eq!(list_read(list, &mut buf, 2), 4);
    assert_eq!(&buf, b"0p0\n");
    let mut buf = [9u8; 4];
    assert_eq!(list_read(list, &mut buf, 5), 1);
    assert_eq!(buf, [b'\n', 9, 9, 9]);
    assert_eq!(list_read(list, &mut buf, 100), 0);
}

#[test]
fn fpath_writes_scheme_and_path() {
    let mut buf = [0u8; 32];
    let n = fpath(b"disk.ahci", &Handle::Partition(3, 12), &mut buf);
    assert_eq!(&buf[..n], b"disk.ahci:3p12");
    let n = fpath(b"disk.ahci", &Handle::List(Vec::new()), &mut buf);
    assert_eq!(&buf[..n], b"disk.ahci:");
    let mut small = [0u8; 4];
    assert_eq!(fpath(b"disk", &Handle::Disk(7), &mut small), 4);
    assert_eq!(&small, b"disk");
}

#[test]
fn open_paths() {
    let disks = [DiskInfo { id: 0, partitions: Some(1) }, DiskInfo { id: 1, partitions: None }];
    assert!(matches!(open_path(b"0", false, 1000, &disks, &[]), Err(DiskError::Access)));
    assert!(matches!(open_path(b"", false, 0, &disks, &[]), Err(DiskError::IsDir)));
    match open_path(b"", true, 0, &disks, &[]) {
        Ok(Handle::List(text)) => assert_eq!(text, b"0\n0p0\n1\n".to_vec()),
        other => panic!("unexpected {:?}", other),
    }
    assert!(matches!(open_path(b"0p0", false, 0, &disks, &[]), Ok(Handle::Partition(0, 0))));
    assert!(matches!(open_path(b"0p1", false, 0, &disks, &[]), Err(DiskError::NoEntry)));
    assert!(matches!(open_path(b"1p0", false, 0, &disks, &[]), Err(DiskError::NoEntry)));
    assert!(matches!(open_path(b"2", false, 0, &disks, &[]), Err(DiskError::NoEntry)));
    assert!(matches!(open_path(b"1", false, 0, &disks, &[]), Ok(Handle::Disk(1))));
    let open = [Handle::Disk(0)];
    assert!(matches!(open_path(b"0p0", false, 0, &disks, &open), Err(DiskError::NoLock)));
}

#[test]
fn seeks_stay_on_the_disk() {
    assert_eq!(seek_position(1000, 0, SeekFrom::Start(400)), Some(400));
    assert_eq!(seek_position(1000, 0, SeekFrom::Start(4000)), Some(1000));
    assert_eq!(seek_position(1000, 400, SeekFrom::Current(-500)), Some(0));
    assert_eq!(seek_position(1000, 400, SeekFrom::Current(100)), Some(500));
    assert_eq!(seek_position(1000, 400, SeekFrom::Current(900)), Some(1000));
    assert_eq!(seek_position(1000, 0, SeekFrom::End(-24)), Some(976));
    assert_eq!(seek_position(1000, 0, SeekFrom::End(24)), Some(1000));
    assert_eq!(seek_position(1000, 0, SeekFrom::End(-2000)), Some(0));
    assert_eq!(seek_position(u64::MAX, 0, SeekFrom::Start(0)), None);
}

#[test]
fn file_status() {
    assert_eq!(list_stat(12), FileStat { mode: MODE_DIR, size: 12, blocks: None, blksize: None });
    assert_eq!(
        disk_stat(1 << 20, 512),
        FileStat { mode: MODE_FILE, size: 1 << 20, blocks: Some(2048), blksize: Some(512) }
    );
    assert_eq!(
        partition_stat(3, 4096),
        FileStat { mode: MODE_FILE, size: 12288, blocks: Some(3), blksize: Some(4096) }
    );
}

#[test]
fn block_read_copies_the_bytes_asked_for() {
    let disk: Vec<u8> = (0..2048u32).map(|i| (i % 251) as u8).collect();
    let calls = std::cell::RefCell::new(Vec::new());
    let read = |b: u64| -> Result<Vec<u8>, &'static str> {
        calls.borrow_mut().push(b);
        let start = (b as usize) * 512;
        Ok(disk[start..start + 512].to_vec())
    };
    let mut buf = [0u8; 600];
    assert_eq!(block_read(500, 512, &mut buf, &read), Ok(600));
    assert_eq!(&buf[..], &disk[500..1100]);
    assert_eq!(*calls.borrow(), vec![0, 1, 2]);

    let mut empty: [u8; 0] = [];
    assert_eq!(block_read(500, 512, &mut empty, &read), Ok(0));

    // The first failure is returned at once; later blocks are not read.
    calls.borrow_mut().clear();
    let failing = |b: u64| -> Result<Vec<u8>, &'static str> {
        calls.borrow_mut().push(b);
        if b == 1 { Err("bad block") } else { Ok(vec![7u8; 512]) }
    };
    let mut buf = [0u8; 1024];
    assert_eq!(block_read(0, 512, &mut buf, &failing), Err("bad block"));
    assert_eq!(*calls.borrow(), vec![0, 1]);

    // A read that runs past the end of the byte range stops there.
    let mut buf = [9u8; 16];
    let top = |_b: u64| -> Result<Vec<u8>, &'static str> { Ok(vec![1u8; 512]) };
    assert_eq!(block_read(u64::MAX - 4, 512, &mut buf, &top), Ok(4));
    assert_eq!(&buf[..4], &[1, 1, 1, 1]);
    assert_eq!(&buf[4..], &[9u8; 12]);
}
