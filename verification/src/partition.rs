//! Partition tables: the common view of MBR and GPT partitions, and the MBR
//! itself, read from the first sector of a disk.

use vstd::prelude::*;
use crate::bytes::{
    le16, le32, le_bytes16, le_bytes32, lemma_le16_of_bytes, lemma_le32_of_bytes, read_le16, read_le32,
};

verus! {

/// Sizes of logical blocks that partition tables are read with.
#[derive(Clone, Copy, Debug, PartialEq, Eq, Structural)]
pub enum LogicalBlockSize {
    Lb512,
    Lb4096,
}

pub open spec fn block_size_bytes(b: LogicalBlockSize) -> u64 {
    match b {
        LogicalBlockSize::Lb512 => 512,
        LogicalBlockSize::Lb4096 => 4096,
    }
}

impl LogicalBlockSize {
    /// The size in bytes.
    pub fn bytes(self) -> (r: u64)
        ensures
            r == block_size_bytes(self),
    {
        match self {
            LogicalBlockSize::Lb512 => 512,
            LogicalBlockSize::Lb4096 => 4096,
        }
    }

    /// The block size for a disk's block size, where partition tables can
    /// be read with it.
    pub fn from_disk_block_size(bs: u32) -> (r: Option<Self>)
        ensures
            r == (if bs == 512 {
                Some(LogicalBlockSize::Lb512)
            } else if bs == 4096 {
                Some(LogicalBlockSize::Lb4096)
            } else {
                None
            }),
    {
        if bs == 512 {
            Some(LogicalBlockSize::Lb512)
        } else if bs == 4096 {
            Some(LogicalBlockSize::Lb4096)
        } else {
            None
        }
    }
}

/// A partition of an MBR or GPT table.
#[derive(Clone, Debug, PartialEq, Eq, Hash)]
pub struct Partition {
    /// The first logical block.
    pub start_lba: u64,
    /// The size in blocks.
    pub size: u64,
    pub flags: Option<u64>,
    pub name: Option<String>,
    /// The partition's GUID, as a number.
    pub uuid: Option<u128>,
}

impl Partition {
    /// Byte offset of the partition on the disk.
    pub fn to_offset(&self, sector_size: LogicalBlockSize) -> (r: u64)
        requires
            self.start_lba * block_size_bytes(sector_size) <= u64::MAX,
        ensures
            r == self.start_lba * block_size_bytes(sector_size),
    {
        self.start_lba * sector_size.bytes()
    }
}

#[derive(Clone, Copy, Debug, PartialEq, Eq, Structural)]
pub enum PartitionTableKind {
    Mbr,
    Gpt,
}

/// The partitions of a disk and the kind of table they come from.
#[derive(Clone, Debug, PartialEq, Eq)]
pub struct PartitionTable {
    pub partitions: Vec<Partition>,
    pub kind: PartitionTableKind,
}

/// A partition entry of an MBR (16 bytes).
#[derive(Clone, Copy, Debug, PartialEq, Eq, Structural)]
pub struct MbrEntry {
    pub drive_attrs: u8,
    pub start_head: u8,
    pub start_cs: u16,
    pub sys_id: u8,
    pub end_head: u8,
    pub end_cs: u16,
    pub rel_sector: u32,
    pub len: u32,
}

pub open spec fn mbr_entry_of(s: Seq<u8>, i: int) -> MbrEntry {
    MbrEntry {
        drive_attrs: s[i],
        start_head: s[i + 1],
        start_cs: le16(s, i + 2) as u16,
        sys_id: s[i + 4],
        end_head: s[i + 5],
        end_cs: le16(s, i + 6) as u16,
        rel_sector: le32(s, i + 8) as u32,
        len: le32(s, i + 12) as u32,
    }
}

/// The 16 bytes of a partition entry as an MBR lays it out: boot flag,
/// start head, start cylinder/sector (little endian), system ID, end head,
/// end cylinder/sector, first sector and sector count (32-bit little endian).
pub open spec fn mbr_entry_bytes(e: MbrEntry) -> Seq<u8> {
    seq![e.drive_attrs, e.start_head] + le_bytes16(e.start_cs) + seq![e.sys_id, e.end_head] + le_bytes16(
        e.end_cs,
    ) + le_bytes32(e.rel_sector) + le_bytes32(e.len)
}

/// Reading an entry back from its 16 bytes gives the entry: every field,
/// the 32-bit first sector and count among them, comes whole from its place.
pub proof fn lemma_mbr_entry_round_trip(e: MbrEntry, s: Seq<u8>, i: int)
    requires
        0 <= i,
        i + 16 <= s.len(),
        s.subrange(i, i + 16) == mbr_entry_bytes(e),
    ensures
        mbr_entry_of(s, i) == e,
{
    let b = mbr_entry_bytes(e);
    assert(s[i] == b[0]);
    assert(s[i + 1] == b[1]);
    assert(s[i + 4] == b[4]);
    assert(s[i + 5] == b[5]);
    assert(b.subrange(2, 4) =~= le_bytes16(e.start_cs));
    assert(b.subrange(6, 8) =~= le_bytes16(e.end_cs));
    assert(s.subrange(i + 2, i + 4) =~= s.subrange(i, i + 16).subrange(2, 4));
    assert(s.subrange(i + 6, i + 8) =~= s.subrange(i, i + 16).subrange(6, 8));
    assert(b.subrange(8, 12) =~= le_bytes32(e.rel_sector));
    assert(b.subrange(12, 16) =~= le_bytes32(e.len));
    assert(s.subrange(i + 8, i + 12) =~= s.subrange(i, i + 16).subrange(8, 12));
    assert(s.subrange(i + 12, i + 16) =~= s.subrange(i, i + 16).subrange(12, 16));
    lemma_le16_of_bytes(s, i + 2, e.start_cs);
    lemma_le16_of_bytes(s, i + 6, e.end_cs);
    lemma_le32_of_bytes(s, i + 8, e.rel_sector);
    lemma_le32_of_bytes(s, i + 12, e.len);
}

/// The first sector and the sector count of an entry are the 32-bit
/// little-endian numbers at its bytes 8 to 11 and 12 to 15.
pub proof fn lemma_mbr_entry_sectors(s: Seq<u8>, i: int)
    requires
        0 <= i,
        i + 16 <= s.len(),
    ensures
        mbr_entry_of(s, i).rel_sector == s[i + 8] + 256 * s[i + 9] + 65536 * s[i + 10] + 16777216 * s[i + 11],
        mbr_entry_of(s, i).len == s[i + 12] + 256 * s[i + 13] + 65536 * s[i + 14] + 16777216 * s[i + 15],
{
}

/// An entry describes a partition: it is inactive or bootable and not empty.
pub open spec fn mbr_entry_valid(e: MbrEntry) -> bool {
    (e.drive_attrs == 0 || e.drive_attrs == 0x80) && e.len != 0
}

impl MbrEntry {
    pub fn from_bytes(s: &[u8], i: usize) -> (r: Self)
        requires
            i + 16 <= s@.len(),
        ensures
            r == mbr_entry_of(s@, i as int),
    {
        assert(s@.len() == s.len());
        MbrEntry {
            drive_attrs: s[i],
            start_head: s[i + 1],
            start_cs: read_le16(s, i + 2),
            sys_id: s[i + 4],
            end_head: s[i + 5],
            end_cs: read_le16(s, i + 6),
            rel_sector: read_le32(s, i + 8),
            len: read_le32(s, i + 12),
        }
    }

    pub fn is_valid(&self) -> (r: bool)
        ensures
            r == mbr_entry_valid(*self),
    {
        (self.drive_attrs == 0 || self.drive_attrs == 0x80) && self.len != 0
    }
}

/// Size of the master boot record.
pub const MBR_LEN: usize = 512;

/// The boot signature that ends a master boot record.
pub const MBR_SIGNATURE: u16 = 0xAA55;

/// The master boot record: its four partition entries (the bootstrap code
/// before them is not kept) and its signature.
#[derive(Clone, Copy, Debug, PartialEq, Eq, Structural)]
pub struct MbrHeader {
    pub first_entry: MbrEntry,
    pub second_entry: MbrEntry,
    pub third_entry: MbrEntry,
    pub fourth_entry: MbrEntry,
    pub last_signature: u16,
}

/// The header in the first 512 bytes of `s`, where its signature is right.
pub open spec fn spec_mbr_header(s: Seq<u8>) -> Option<MbrHeader> {
    if le16(s, 510) != MBR_SIGNATURE {
        None
    } else {
        Some(
            MbrHeader {
                first_entry: mbr_entry_of(s, 446),
                second_entry: mbr_entry_of(s, 462),
                third_entry: mbr_entry_of(s, 478),
                fourth_entry: mbr_entry_of(s, 494),
                last_signature: MBR_SIGNATURE,
            },
        )
    }
}

/// Reads the master boot record from the first sector of a disk; `None`
/// where the sector does not end in the boot signature.
pub fn read_mbr_header(sector: &[u8]) -> (r: Option<MbrHeader>)
    requires
        sector@.len() >= MBR_LEN,
    ensures
        r == spec_mbr_header(sector@),
{
    let sig = read_le16(sector, 510);
    if sig != MBR_SIGNATURE {
        return None;
    }
    Some(
        MbrHeader {
            first_entry: MbrEntry::from_bytes(sector, 446),
            second_entry: MbrEntry::from_bytes(sector, 462),
            third_entry: MbrEntry::from_bytes(sector, 478),
            fourth_entry: MbrEntry::from_bytes(sector, 494),
            last_signature: sig,
        },
    )
}

/// The four entries in order.
pub open spec fn mbr_entries(h: MbrHeader) -> Seq<MbrEntry> {
    seq![h.first_entry, h.second_entry, h.third_entry, h.fourth_entry]
}

impl MbrHeader {
    /// The entries that describe partitions, in table order.
    pub fn partitions(&self) -> (r: Vec<MbrEntry>)
        ensures
            r@ == mbr_entries(*self).filter(|e: MbrEntry| mbr_entry_valid(e)),
    {
        let all = [self.first_entry, self.second_entry, self.third_entry, self.fourth_entry];
        let ghost es = mbr_entries(*self);
        assert(all@ =~= es);
        let mut r: Vec<MbrEntry> = Vec::new();
        let mut i: usize = 0;
        proof {
            reveal(Seq::filter);
            assert(es.take(0) =~= Seq::<MbrEntry>::empty());
        }
        while i < 4
            invariant
                i <= 4,
                all@ == es,
                r@ == es.take(i as int).filter(|e: MbrEntry| mbr_entry_valid(e)),
            decreases 4 - i,
        {
            let e = all[i];
            proof {
                assert(es.take(i + 1).drop_last() =~= es.take(i as int));
                es.take(i as int).lemma_filter_push(e, |e: MbrEntry| mbr_entry_valid(e));
                assert(es.take(i + 1) =~= es.take(i as int).push(e));
            }
            if e.is_valid() {
                r.push(e);
            }
            i = i + 1;
        }
        assert(es.take(4) =~= es);
        assert(es.take(0) =~= Seq::<MbrEntry>::empty());
        r
    }
}

/// The partition an MBR entry describes.
pub open spec fn mbr_partition(e: MbrEntry) -> (u64, u64) {
    (e.rel_sector as u64, e.len as u64)
}

/// The partition table of an MBR: its valid entries as partitions with no
/// name, flags or GUID.
pub fn mbr_partition_table(h: &MbrHeader) -> (r: PartitionTable)
    ensures
        r.kind == PartitionTableKind::Mbr,
        ({
            let valid = mbr_entries(*h).filter(|e: MbrEntry| mbr_entry_valid(e));
            &&& r.partitions@.len() == valid.len()
            &&& forall|k: int|
                0 <= k < valid.len() ==> {
                    &&& (#[trigger] r.partitions@[k]).start_lba == valid[k].rel_sector
                    &&& r.partitions@[k].size == valid[k].len
                    &&& r.partitions@[k].flags is None
                    &&& r.partitions@[k].name is None
                    &&& r.partitions@[k].uuid is None
                }
        }),
{
    let entries = h.partitions();
    let mut parts: Vec<Partition> = Vec::new();
    let mut i: usize = 0;
    while i < entries.len()
        invariant
            i <= entries@.len(),
            parts@.len() == i,
            forall|k: int|
                0 <= k < i ==> {
                    &&& (#[trigger] parts@[k]).start_lba == entries@[k].rel_sector
                    &&& parts@[k].size == entries@[k].len
                    &&& parts@[k].flags is None
                    &&& parts@[k].name is None
                    &&& parts@[k].uuid is None
                },
        decreases entries@.len() - i,
    {
        let e = entries[i];
        parts.push(
            Partition { start_lba: e.rel_sector as u64, size: e.len as u64, flags: None, name: None, uuid: None },
        );
        i = i + 1;
    }
    PartitionTable { partitions: parts, kind: PartitionTableKind::Mbr }
}

/// The common view of a GPT partition entry spanning blocks `first_lba` to
/// `last_lba` inclusive, with its flags, name and GUID.
pub fn gpt_partition(first_lba: u64, last_lba: u64, flags: u64, name: String, guid: u128) -> (r: Partition)
    requires
        first_lba <= last_lba,
        last_lba - first_lba < u64::MAX,
    ensures
        r.start_lba == first_lba,
        r.size == last_lba - first_lba + 1,
        r.flags == Some(flags),
        r.name == Some(name),
        r.uuid == Some(guid),
{
    Partition { flags: Some(flags), size: last_lba - first_lba + 1, name: Some(name), uuid: Some(guid), start_lba: first_lba }
}

} // verus!
