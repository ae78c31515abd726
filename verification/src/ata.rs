//! ATA disks behind AHCI and IDE controllers: port classification, the
//! IDENTIFY data, and how a transfer is cut into commands and register
//! writes.

use vstd::prelude::*;
use crate::bytes::{be32, read_be32};

verus! {

/// Signature of an ATA device.
pub const HBA_SIG_ATA: u32 = 0x00000101;
/// Signature of an ATAPI device.
pub const HBA_SIG_ATAPI: u32 = 0xEB140101;
/// Signature of a port multiplier.
pub const HBA_SIG_PM: u32 = 0x96690101;
/// Signature of an enclosure management bridge.
pub const HBA_SIG_SEMB: u32 = 0xC33C0101;
/// Device detection bits of SATA status: present and communicating.
pub const HBA_SSTS_PRESENT: u32 = 0x3;

/// What is attached to an AHCI port.
#[derive(Clone, Copy, Debug, PartialEq, Eq, Structural)]
pub enum HbaPortType {
    NoDevice,
    Unknown(u32),
    SATA,
    SATAPI,
    PM,
    SEMB,
}

/// Classifies a port from its SATA status and signature registers.
pub fn hba_port_type(ssts: u32, sig: u32) -> (r: HbaPortType)
    ensures
        ssts % 4 != 3 ==> r == HbaPortType::NoDevice,
        ssts % 4 == 3 ==> r == (if sig == HBA_SIG_ATA {
            HbaPortType::SATA
        } else if sig == HBA_SIG_ATAPI {
            HbaPortType::SATAPI
        } else if sig == HBA_SIG_PM {
            HbaPortType::PM
        } else if sig == HBA_SIG_SEMB {
            HbaPortType::SEMB
        } else {
            HbaPortType::Unknown(sig)
        }),
{
    proof {
        crate::bits::lemma_u32_bits();
    }
    if ssts & 3 == HBA_SSTS_PRESENT {
        if sig == HBA_SIG_ATA {
            HbaPortType::SATA
        } else if sig == HBA_SIG_ATAPI {
            HbaPortType::SATAPI
        } else if sig == HBA_SIG_PM {
            HbaPortType::PM
        } else if sig == HBA_SIG_SEMB {
            HbaPortType::SEMB
        } else {
            HbaPortType::Unknown(sig)
        }
    } else {
        HbaPortType::NoDevice
    }
}

/// The text of words `from..to` of IDENTIFY data: each word gives its high
/// byte, then its low byte, and zero bytes are left out.
pub open spec fn identify_text(words: Seq<u16>, from: int, to: int) -> Seq<u8>
    decreases to - from,
{
    if to <= from {
        Seq::empty()
    } else {
        let d = words[to - 1];
        let hi = (d / 256) as u8;
        let lo = (d % 256) as u8;
        identify_text(words, from, to - 1) + (if hi != 0 { seq![hi] } else { Seq::empty() }) + (if lo != 0 {
            seq![lo]
        } else {
            Seq::empty()
        })
    }
}

/// IDENTIFY text holds no zero byte, and where the words hold no zero byte
/// it is their bytes in order, each word's high byte first (the byte-swapped
/// ATA string layout).
pub proof fn lemma_identify_text_layout(words: Seq<u16>, from: int, to: int)
    requires
        0 <= from <= to <= words.len(),
    ensures
        forall|i: int| 0 <= i < identify_text(words, from, to).len() ==> identify_text(words, from, to)[i] != 0,
        (forall|w: int| from <= w < to ==> words[w] / 256 != 0 && #[trigger] words[w] % 256 != 0) ==> {
            &&& identify_text(words, from, to).len() == 2 * (to - from)
            &&& forall|i: int|
                0 <= i < 2 * (to - from) ==> #[trigger] identify_text(words, from, to)[i] == (if i % 2 == 0 {
                    words[from + i / 2] / 256
                } else {
                    words[from + i / 2] % 256
                })
        },
    decreases to - from,
{
    if to > from {
        lemma_identify_text_layout(words, from, to - 1);
        let d = words[to - 1];
        let hi = (d / 256) as u8;
        let lo = (d % 256) as u8;
        let prev = identify_text(words, from, to - 1);
        let hs: Seq<u8> = if hi != 0 { seq![hi] } else { Seq::empty() };
        let ls: Seq<u8> = if lo != 0 { seq![lo] } else { Seq::empty() };
        assert(identify_text(words, from, to) == prev + hs + ls);
        if forall|w: int| from <= w < to ==> words[w] / 256 != 0 && #[trigger] words[w] % 256 != 0 {
            assert(words[to - 1] % 256 != 0);
            assert forall|w: int| from <= w < to - 1 implies words[w] / 256 != 0 && #[trigger] words[w] % 256
                != 0 by {
                assert(words[w] % 256 != 0);
            }
            assert forall|i: int| 0 <= i < 2 * (to - from) implies #[trigger] identify_text(words, from, to)[i]
                == (if i % 2 == 0 {
                words[from + i / 2] / 256
            } else {
                words[from + i / 2] % 256
            }) by {
                if i < 2 * (to - 1 - from) {
                    assert(identify_text(words, from, to)[i] == prev[i]);
                } else {
                    assert(i / 2 == to - 1 - from);
                }
            }
        }
    }
}

/// Collects the text of words `from..to` of IDENTIFY data (serial number,
/// firmware revision, model), as character codes.
pub fn identify_string(words: &[u16], from: usize, to: usize) -> (r: Vec<u8>)
    requires
        from <= to <= words@.len(),
    ensures
        r@ == identify_text(words@, from as int, to as int),
{
    let mut r: Vec<u8> = Vec::new();
    let mut w = from;
    while w < to
        invariant
            from <= w <= to,
            to <= words@.len(),
            r@ == identify_text(words@, from as int, w as int),
        decreases to - w,
    {
        let d = words[w];
        let a = (d / 256) as u8;
        let ghost before = r@;
        if a != 0 {
            r.push(a);
        }
        let b = (d % 256) as u8;
        if b != 0 {
            r.push(b);
        }
        w = w + 1;
        assert(r@ =~= identify_text(words@, from as int, w as int));
    }
    r
}

/// The sector count in IDENTIFY data and the addressing it implies: the
/// 48-bit count of words 100..=103 where it is not zero, else the 28-bit
/// count of words 60..=61.
pub fn identify_sectors(words: &[u16]) -> (r: (u64, u32))
    requires
        words@.len() >= 256,
    ensures
        ({
            let s48 = words@[100] + words@[101] * 0x1_0000 + words@[102] * 0x1_0000_0000 + words@[103]
                * 0x1_0000_0000_0000;
            if s48 != 0 {
                r == (s48 as u64, 48u32)
            } else {
                r == ((words@[60] + words@[61] * 0x1_0000) as u64, 28u32)
            }
        }),
{
    let s48 = words[100] as u64 + (words[101] as u64) * 0x1_0000 + (words[102] as u64) * 0x1_0000_0000
        + (words[103] as u64) * 0x1_0000_0000_0000;
    if s48 != 0 {
        (s48, 48)
    } else {
        (words[60] as u64 + (words[61] as u64) * 0x1_0000, 28)
    }
}

/// ATA commands.
#[derive(Clone, Copy, Debug, PartialEq, Eq, Structural)]
pub enum AtaCommand {
    ReadPio,
    ReadPioExt,
    ReadDma,
    ReadDmaExt,
    WritePio,
    WritePioExt,
    WriteDma,
    WriteDmaExt,
    CacheFlush,
    CacheFlushExt,
    Packet,
    IdentifyPacket,
    Identify,
}

pub open spec fn ata_command_code(c: AtaCommand) -> u8 {
    match c {
        AtaCommand::ReadPio => 0x20,
        AtaCommand::ReadPioExt => 0x24,
        AtaCommand::ReadDma => 0xC8,
        AtaCommand::ReadDmaExt => 0x25,
        AtaCommand::WritePio => 0x30,
        AtaCommand::WritePioExt => 0x34,
        AtaCommand::WriteDma => 0xCA,
        AtaCommand::WriteDmaExt => 0x35,
        AtaCommand::CacheFlush => 0xE7,
        AtaCommand::CacheFlushExt => 0xEA,
        AtaCommand::Packet => 0xA0,
        AtaCommand::IdentifyPacket => 0xA1,
        AtaCommand::Identify => 0xEC,
    }
}

impl AtaCommand {
    /// The command's opcode.
    pub fn code(self) -> (r: u8)
        ensures
            r == ata_command_code(self),
    {
        match self {
            AtaCommand::ReadPio => 0x20,
            AtaCommand::ReadPioExt => 0x24,
            AtaCommand::ReadDma => 0xC8,
            AtaCommand::ReadDmaExt => 0x25,
            AtaCommand::WritePio => 0x30,
            AtaCommand::WritePioExt => 0x34,
            AtaCommand::WriteDma => 0xCA,
            AtaCommand::WriteDmaExt => 0x35,
            AtaCommand::CacheFlush => 0xE7,
            AtaCommand::CacheFlushExt => 0xEA,
            AtaCommand::Packet => 0xA0,
            AtaCommand::IdentifyPacket => 0xA1,
            AtaCommand::Identify => 0xEC,
        }
    }
}

/// The command that reads or writes sectors in a transfer mode: PIO or DMA,
/// with 28-bit or 48-bit addresses.
pub open spec fn rw_command_of(write: bool, dma: bool, lba_48: bool) -> AtaCommand {
    if write {
        if dma {
            if lba_48 { AtaCommand::WriteDmaExt } else { AtaCommand::WriteDma }
        } else {
            if lba_48 { AtaCommand::WritePioExt } else { AtaCommand::WritePio }
        }
    } else {
        if dma {
            if lba_48 { AtaCommand::ReadDmaExt } else { AtaCommand::ReadDma }
        } else {
            if lba_48 { AtaCommand::ReadPioExt } else { AtaCommand::ReadPio }
        }
    }
}

/// The opcodes of the ATA commands that read sectors: READ SECTORS (0x20),
/// READ SECTORS EXT (0x24), READ DMA (0xC8), READ DMA EXT (0x25).
pub open spec fn is_read_opcode(op: u8) -> bool {
    op == 0x20 || op == 0x24 || op == 0xC8 || op == 0x25
}

/// The opcodes of the ATA commands that write sectors: WRITE SECTORS (0x30),
/// WRITE SECTORS EXT (0x34), WRITE DMA (0xCA), WRITE DMA EXT (0x35).
pub open spec fn is_write_opcode(op: u8) -> bool {
    op == 0x30 || op == 0x34 || op == 0xCA || op == 0x35
}

/// The opcodes of the sector transfers done by DMA.
pub open spec fn is_dma_opcode(op: u8) -> bool {
    op == 0xC8 || op == 0x25 || op == 0xCA || op == 0x35
}

/// The opcodes of the sector transfers with 48-bit addresses.
pub open spec fn is_ext_opcode(op: u8) -> bool {
    op == 0x24 || op == 0x25 || op == 0x34 || op == 0x35
}

/// The command sent for a sector transfer reads exactly when no write is
/// asked for and writes exactly when one is; it goes by DMA exactly when DMA
/// is asked for, and takes 48-bit addresses exactly when they are asked
/// for. So a read is never sent as a write, nor a write as a read.
pub proof fn lemma_transfer_opcode(write: bool, dma: bool, lba_48: bool)
    ensures
        is_read_opcode(ata_command_code(rw_command_of(write, dma, lba_48))) == !write,
        is_write_opcode(ata_command_code(rw_command_of(write, dma, lba_48))) == write,
        is_dma_opcode(ata_command_code(rw_command_of(write, dma, lba_48))) == dma,
        is_ext_opcode(ata_command_code(rw_command_of(write, dma, lba_48))) == lba_48,
{
}

/// No two commands share an opcode.
pub proof fn lemma_opcodes_distinct(a: AtaCommand, b: AtaCommand)
    ensures
        ata_command_code(a) == ata_command_code(b) ==> a == b,
{
}

/// The read or write command for a transfer mode.
pub fn rw_command(write: bool, dma: bool, lba_48: bool) -> (r: AtaCommand)
    ensures
        r == rw_command_of(write, dma, lba_48),
{
    if write {
        if dma {
            if lba_48 { AtaCommand::WriteDmaExt } else { AtaCommand::WriteDma }
        } else {
            if lba_48 { AtaCommand::WritePioExt } else { AtaCommand::WritePio }
        }
    } else {
        if dma {
            if lba_48 { AtaCommand::ReadDmaExt } else { AtaCommand::ReadDma }
        } else {
            if lba_48 { AtaCommand::ReadPioExt } else { AtaCommand::ReadPio }
        }
    }
}

/// Largest chunk of a transfer that one IDE command moves.
pub const IDE_CHUNK: usize = 65536;

/// Highest block (exclusive) that 48-bit addressing reaches.
pub const LBA48_LIMIT: u64 = 0x1_0000_0000_0000;

/// One command of an IDE transfer: its first block and its sector count.
#[derive(Clone, Copy, Debug, PartialEq, Eq, Structural)]
pub struct IdeChunk {
    pub block: u64,
    pub sectors: usize,
}

/// The command for the chunk of `chunk_len` bytes that follows the first
/// `count` bytes of a transfer starting at `start_block`.
pub fn ide_chunk(start_block: u64, count: usize, chunk_len: usize) -> (r: IdeChunk)
    requires
        start_block + count / 512 < LBA48_LIMIT,
        chunk_len <= IDE_CHUNK,
    ensures
        r.block == start_block + count / 512,
        r.sectors == (chunk_len + 511) / 512,
        r.sectors <= 128,
{
    IdeChunk { block: start_block + (count as u64) / 512, sectors: (chunk_len + 511) / 512 }
}

/// The task file register values of an IDE command.
#[derive(Clone, Copy, Debug, PartialEq, Eq, Structural)]
pub struct TaskFile {
    pub device_select: u8,
    /// The high halves of the sector count and LBA registers, written first
    /// with the high-order byte bit set, in 48-bit mode.
    pub high: Option<TaskFileHigh>,
    pub sector_count: u8,
    pub lba_0: u8,
    pub lba_1: u8,
    pub lba_2: u8,
    pub command: u8,
}

#[derive(Clone, Copy, Debug, PartialEq, Eq, Structural)]
pub struct TaskFileHigh {
    pub sector_count: u8,
    pub lba_0: u8,
    pub lba_1: u8,
    pub lba_2: u8,
}

/// The register values that start a read or write of `sectors` sectors at
/// `block` on drive `dev` of a channel.
pub fn ide_task_file(dev: u8, block: u64, sectors: usize, lba_48: bool, dma: bool, write: bool) -> (r:
    TaskFile)
    requires
        dev < 2,
    ensures
        r.device_select == 0xE0 + 16 * dev,
        lba_48 ==> r.high == Some(
            TaskFileHigh {
                sector_count: (sectors / 256) as u8,
                lba_0: (block / 0x100_0000) as u8,
                lba_1: (block / 0x1_0000_0000) as u8,
                lba_2: (block / 0x100_0000_0000) as u8,
            },
        ),
        !lba_48 ==> r.high is None,
        r.sector_count == sectors as u8,
        r.lba_0 == block as u8,
        r.lba_1 == (block / 0x100) as u8,
        r.lba_2 == (block / 0x1_0000) as u8,
        r.command == ata_command_code(rw_command_of(write, dma, lba_48)),
{
    let device_select: u8 = if dev == 0 { 0xE0 } else { 0xF0 };
    let high = if lba_48 {
        Some(
            TaskFileHigh {
                sector_count: (sectors / 256) as u8,
                lba_0: (block / 0x100_0000) as u8,
                lba_1: (block / 0x1_0000_0000) as u8,
                lba_2: (block / 0x100_0000_0000) as u8,
            },
        )
    } else {
        None
    };
    TaskFile {
        device_select,
        high,
        sector_count: sectors as u8,
        lba_0: block as u8,
        lba_1: (block / 0x100) as u8,
        lba_2: (block / 0x1_0000) as u8,
        command: rw_command(write, dma, lba_48).code(),
    }
}

/// A physical region descriptor of the bus master.
#[derive(Clone, Copy, Debug, PartialEq, Eq, Structural)]
pub struct PrdtEntry {
    pub phys: u32,
    pub size: u16,
    pub flags: u16,
}

/// The descriptors of a DMA transfer of `sectors` sectors from the buffer at
/// `buf_phys`: one per sector, the last marked end of table.
pub fn prdt_entries(buf_phys: usize, sectors: usize) -> (r: Vec<PrdtEntry>)
    requires
        sectors <= 128,
        buf_phys + sectors * 512 <= u32::MAX,
    ensures
        r@.len() == sectors,
        forall|i: int|
            0 <= i < sectors ==> #[trigger] r@[i] == (PrdtEntry {
                phys: (buf_phys + i * 512) as u32,
                size: 512,
                flags: if i + 1 == sectors { 0x8000u16 } else { 0u16 },
            }),
{
    let mut r: Vec<PrdtEntry> = Vec::new();
    let mut i: usize = 0;
    while i < sectors
        invariant
            i <= sectors <= 128,
            buf_phys + sectors * 512 <= u32::MAX,
            r@.len() == i,
            forall|j: int|
                0 <= j < i ==> #[trigger] r@[j] == (PrdtEntry {
                    phys: (buf_phys + j * 512) as u32,
                    size: 512,
                    flags: if j + 1 == sectors { 0x8000u16 } else { 0u16 },
                }),
        decreases sectors - i,
    {
        r.push(
            PrdtEntry {
                phys: (buf_phys + i * 512) as u32,
                size: 512,
                flags: if i + 1 == sectors { 0x8000 } else { 0 },
            },
        );
        i = i + 1;
    }
    r
}

/// What the bus master status register says of a transfer.
#[derive(Clone, Copy, Debug, PartialEq, Eq, Structural)]
pub enum BusmasterState {
    Error,
    Done,
    Busy,
}

/// Reads the bus master status: the error bit (1) wins, else the transfer is
/// done once the active bit (0) is clear.
pub fn busmaster_state(status: u8) -> (r: BusmasterState)
    ensures
        r == (if (status / 2) % 2 == 1 {
            BusmasterState::Error
        } else if status % 2 == 0 {
            BusmasterState::Done
        } else {
            BusmasterState::Busy
        }),
{
    if (status / 2) % 2 == 1 {
        BusmasterState::Error
    } else if status % 2 == 0 {
        BusmasterState::Done
    } else {
        BusmasterState::Busy
    }
}

/// The four bytes of a 32-bit data register read, least significant first.
pub fn pio_word_bytes(data: u32) -> (r: [u8; 4])
    ensures
        r@ == seq![data as u8, (data / 0x100) as u8, (data / 0x1_0000) as u8, (data / 0x100_0000) as u8],
{
    let r = [data as u8, (data / 0x100) as u8, (data / 0x1_0000) as u8, (data / 0x100_0000) as u8];
    assert(r@ =~= seq![data as u8, (data / 0x100) as u8, (data / 0x1_0000) as u8, (data / 0x100_0000) as u8]);
    r
}

/// The ATAPI packet command that reads the capacity of the medium.
pub const SCSI_READ_CAPACITY: u8 = 0x25;
/// The ATAPI packet command that reads blocks with a 32-bit address.
pub const SCSI_READ10: u8 = 0x28;

/// The packet that asks an ATAPI device for its capacity.
pub fn read_capacity_cmd() -> (r: [u8; 16])
    ensures
        r@[0] == SCSI_READ_CAPACITY,
        forall|i: int| 1 <= i < 16 ==> r@[i] == 0,
{
    let mut cmd = [0u8; 16];
    cmd[0] = SCSI_READ_CAPACITY;
    cmd
}

/// The block count and block size in the capacity data of an ATAPI device:
/// the data give the number of the last block, so the count is one more.
pub fn atapi_capacity(buf: &[u8]) -> (r: (u32, u32))
    requires
        buf@.len() >= 8,
        be32(buf@, 0) < u32::MAX,
    ensures
        r == ((be32(buf@, 0) + 1) as u32, be32(buf@, 4) as u32),
{
    (read_be32(buf, 0) + 1, read_be32(buf, 4))
}

/// The size in bytes of a medium of `blk_count` blocks of `blk_size` bytes.
pub fn atapi_size(blk_count: u32, blk_size: u32) -> (r: u64)
    ensures
        r == blk_count * blk_size,
{
    proof {
        vstd::arithmetic::mul::lemma_mul_upper_bound(
            blk_count as int,
            u32::MAX as int,
            blk_size as int,
            u32::MAX as int,
        );
    }
    (blk_count as u64) * (blk_size as u64)
}

/// The READ (10) packet for `count` blocks at `block`: the address and the
/// count big-endian at bytes 2..6 and 7..9.
pub open spec fn read10_bytes(block: u32, count: u16) -> Seq<u8> {
    seq![
        SCSI_READ10,
        0u8,
        (block / 0x100_0000) as u8,
        ((block / 0x1_0000) % 256) as u8,
        ((block / 0x100) % 256) as u8,
        (block % 256) as u8,
        0u8,
        (count / 0x100) as u8,
        (count % 256) as u8,
        0u8,
        0u8,
        0u8,
        0u8,
        0u8,
        0u8,
        0u8,
    ]
}

/// Builds the READ (10) packet for `count` blocks at `block`.
pub fn read10_cmd(block: u32, count: u16) -> (r: [u8; 16])
    ensures
        r@ == read10_bytes(block, count),
{
    let mut cmd = [0u8; 16];
    cmd[0] = SCSI_READ10;
    cmd[2] = (block / 0x100_0000) as u8;
    cmd[3] = ((block / 0x1_0000) % 256) as u8;
    cmd[4] = ((block / 0x100) % 256) as u8;
    cmd[5] = (block % 256) as u8;
    cmd[7] = (count / 0x100) as u8;
    cmd[8] = (count % 256) as u8;
    assert(cmd@ =~= read10_bytes(block, count));
    cmd
}

/// Bytes of the driver's transfer buffer.
pub const ATAPI_BUF_BYTES: u32 = 256 * 512;

/// One packet of an ATAPI read: the READ (10) address and count, the DMA
/// length, and where in the caller's buffer how many bytes are copied.
#[derive(Clone, Copy, Debug, PartialEq, Eq, Structural)]
pub struct AtapiRead {
    pub lba: u32,
    pub count: u16,
    pub dma_len: u32,
    pub dest: usize,
    pub copy_len: usize,
}

/// The packets of a read of `sectors` blocks of `blk_len` bytes at `blk0`,
/// from block `sector` of the request on: full transfer buffers while they
/// fit (the position then moves on by `blk_len` blocks), then the rest.
pub open spec fn atapi_reads(blk0: int, sector: int, sectors: int, blk_len: int) -> Seq<AtapiRead>
    decreases (if sector <= sectors { sectors - sector + 1 } else { 0 }),
{
    let buf_len = (ATAPI_BUF_BYTES as int) / blk_len;
    let buf_size = buf_len * blk_len;
    if blk_len <= 0 || sector < 0 || sector > sectors {
        Seq::empty()
    } else if sectors - sector >= buf_len {
        seq![AtapiRead {
            lba: (blk0 + sector) as u32,
            count: buf_len as u16,
            dma_len: buf_size as u32,
            dest: (sector * blk_len) as usize,
            copy_len: buf_size as usize,
        }] + atapi_reads(blk0, sector + blk_len, sectors, blk_len)
    } else if sector < sectors {
        seq![AtapiRead {
            lba: (blk0 + sector) as u32,
            count: (sectors - sector) as u16,
            dma_len: buf_size as u32,
            dest: (sector * blk_len) as usize,
            copy_len: ((sectors - sector) * blk_len) as usize,
        }]
    } else {
        Seq::empty()
    }
}

/// The position after the packets of `atapi_reads`.
pub open spec fn atapi_end(sector: int, sectors: int, blk_len: int) -> int
    decreases (if sector <= sectors { sectors - sector + 1 } else { 0 }),
{
    let buf_len = (ATAPI_BUF_BYTES as int) / blk_len;
    if blk_len <= 0 || sector < 0 || sector > sectors {
        sector
    } else if sectors - sector >= buf_len {
        atapi_end(sector + blk_len, sectors, blk_len)
    } else {
        sectors
    }
}

/// The read runs without an overflow or a position past the request, and
/// each copy stays inside the caller's buffer of `buffer_len` bytes.
pub open spec fn atapi_read_ok(blk0: int, sector: int, sectors: int, blk_len: int, buffer_len: int) -> bool
    decreases (if sector <= sectors { sectors - sector + 1 } else { 0 }),
{
    let buf_len = (ATAPI_BUF_BYTES as int) / blk_len;
    let buf_size = buf_len * blk_len;
    if blk_len <= 0 || sector < 0 || sector > sectors {
        false
    } else if sectors - sector >= buf_len {
        &&& blk0 + sector <= u32::MAX
        &&& sector * blk_len + buf_size <= buffer_len
        &&& sector + blk_len <= u32::MAX
        &&& atapi_read_ok(blk0, sector + blk_len, sectors, blk_len, buffer_len)
    } else if sector < sectors {
        &&& blk0 + sector <= u32::MAX
        &&& sectors * blk_len <= u32::MAX
    } else {
        sector * blk_len <= u32::MAX
    }
}

/// Plans an ATAPI read of `buffer_len` bytes at `block` on a medium with
/// blocks of `blk_len` bytes: the packets to send in order, and the number
/// of bytes the read gives where every packet succeeds.
pub fn atapi_read_plan(block: u64, buffer_len: usize, blk_len: u32) -> (r: (Vec<AtapiRead>, usize))
    requires
        0 < blk_len <= ATAPI_BUF_BYTES,
        buffer_len <= usize::MAX,
        atapi_read_ok(
            (block % 0x1_0000_0000) as int,
            0,
            ((buffer_len as int) % 0x1_0000_0000) / (blk_len as int),
            blk_len as int,
            buffer_len as int,
        ),
    ensures
        ({
            let sectors = ((buffer_len as int) % 0x1_0000_0000) / (blk_len as int);
            &&& r.0@ == atapi_reads((block % 0x1_0000_0000) as int, 0, sectors as int, blk_len as int)
            &&& r.1 == atapi_end(0, sectors as int, blk_len as int) * blk_len
        }),
{
    let blk0 = (block % 0x1_0000_0000) as u32;
    let sectors = ((buffer_len as u64) % 0x1_0000_0000) as u32 / blk_len;
    let buf_len = ATAPI_BUF_BYTES / blk_len;
    proof {
        assert(buf_len * blk_len <= ATAPI_BUF_BYTES) by (nonlinear_arith)
            requires
                buf_len == ATAPI_BUF_BYTES / blk_len,
                blk_len > 0,
        ;
    }
    let buf_size = buf_len * blk_len;
    let mut plan: Vec<AtapiRead> = Vec::new();
    let mut sector: u32 = 0;
    while sectors - sector >= buf_len
        invariant
            0 < blk_len <= ATAPI_BUF_BYTES,
            buf_len == ATAPI_BUF_BYTES / blk_len,
            buf_size == buf_len * blk_len,
            buf_size <= ATAPI_BUF_BYTES,
            sector <= sectors,
            atapi_read_ok(blk0 as int, sector as int, sectors as int, blk_len as int, buffer_len as int),
            plan@ + atapi_reads(blk0 as int, sector as int, sectors as int, blk_len as int) == atapi_reads(
                blk0 as int,
                0,
                sectors as int,
                blk_len as int,
            ),
            atapi_end(sector as int, sectors as int, blk_len as int) == atapi_end(0, sectors as int, blk_len as int),
        decreases sectors - sector,
    {
        proof {
            assert(sector as int * blk_len as int + buf_size as int <= buffer_len as int);
        }
        let entry = AtapiRead {
            lba: blk0 + sector,
            count: buf_len as u16,
            dma_len: buf_size,
            dest: (sector as usize) * (blk_len as usize),
            copy_len: buf_size as usize,
        };
        proof {
            assert(atapi_reads(blk0 as int, sector as int, sectors as int, blk_len as int) == seq![entry]
                + atapi_reads(blk0 as int, sector + blk_len, sectors as int, blk_len as int));
            assert(plan@.push(entry) + atapi_reads(blk0 as int, sector + blk_len, sectors as int, blk_len as int)
                =~= plan@ + atapi_reads(blk0 as int, sector as int, sectors as int, blk_len as int));
        }
        plan.push(entry);
        proof {
            reveal_with_fuel(atapi_read_ok, 2);
        }
        sector = sector + blk_len;
    }
    if sector < sectors {
        proof {
            assert(sectors as int * blk_len as int <= u32::MAX);
            assert((sectors - sector) as int * blk_len as int <= sectors as int * blk_len as int) by (nonlinear_arith)
                requires
                    sector <= sectors,
                    blk_len > 0,
            ;
            assert(sector as int * blk_len as int <= sectors as int * blk_len as int) by (nonlinear_arith)
                requires
                    sector <= sectors,
                    blk_len > 0,
            ;
        }
        let entry = AtapiRead {
            lba: blk0 + sector,
            count: (sectors - sector) as u16,
            dma_len: buf_size,
            dest: (sector as usize) * (blk_len as usize),
            copy_len: ((sectors - sector) * blk_len) as usize,
        };
        proof {
            assert(atapi_reads(blk0 as int, sector as int, sectors as int, blk_len as int) == seq![entry]);
            assert(plan@.push(entry) =~= plan@ + atapi_reads(blk0 as int, sector as int, sectors as int, blk_len as int));
        }
        plan.push(entry);
        sector = sectors;
    } else {
        proof {
            assert(plan@ + atapi_reads(blk0 as int, sector as int, sectors as int, blk_len as int) =~= plan@);
        }
    }
    (plan, (sector * blk_len) as usize)
}

/// Command FIS register-host-to-device length in dwords.
pub const FIS_REG_H2D_DWORDS: u8 = 5;
/// The error bits of an AHCI port's interrupt status: task file, host bus
/// fatal, host bus data and interface fatal errors.
pub const HBA_PORT_IS_ERR: u32 = 0x7800_0000;

/// What an AHCI command slot is set up with: the command header flags and
/// region count, its one physical region, and the fields of its
/// register-host-to-device FIS (the rest of the command table is zero).
#[derive(Clone, Copy, Debug, PartialEq, Eq, Structural)]
pub struct AhciCommand {
    pub cfl: u8,
    pub prdtl: u16,
    pub dba_low: u32,
    pub dba_high: u32,
    pub dbc: u32,
    pub pm: u8,
    pub command: u8,
    pub device: u8,
    pub lba0: u8,
    pub lba1: u8,
    pub lba2: u8,
    pub lba3: u8,
    pub lba4: u8,
    pub lba5: u8,
    pub countl: u8,
    pub counth: u8,
    pub featurel: u8,
    pub featureh: u8,
}

/// The slot set-up of a 48-bit DMA read or write of `sectors` sectors at
/// `block` through the transfer buffer at `buf_phys`.
pub fn ata_dma_command(block: u64, sectors: usize, write: bool, buf_phys: u64) -> (r: AhciCommand)
    requires
        0 < sectors < 256,
    ensures
        r.cfl == (if write { FIS_REG_H2D_DWORDS | 0xC0 } else { FIS_REG_H2D_DWORDS }),
        r.prdtl == 1,
        r.dba_low == buf_phys % 0x1_0000_0000,
        r.dba_high == buf_phys / 0x1_0000_0000,
        r.dbc == ((sectors * 512) as u32 | 1),
        r.pm == 0x80,
        r.command == (if write { 0x35u8 } else { 0x25u8 }),
        r.device == 0x40,
        r.lba0 == block % 0x100,
        r.lba1 == (block / 0x100) % 0x100,
        r.lba2 == (block / 0x1_0000) % 0x100,
        r.lba3 == (block / 0x100_0000) % 0x100,
        r.lba4 == (block / 0x1_0000_0000) % 0x100,
        r.lba5 == (block / 0x100_0000_0000) % 0x100,
        r.countl == sectors as u8,
        r.counth == 0,
        r.featurel == 0 && r.featureh == 0,
{
    AhciCommand {
        cfl: if write { FIS_REG_H2D_DWORDS | 0xC0 } else { FIS_REG_H2D_DWORDS },
        prdtl: 1,
        dba_low: (buf_phys % 0x1_0000_0000) as u32,
        dba_high: (buf_phys / 0x1_0000_0000) as u32,
        dbc: ((sectors * 512) as u32) | 1,
        pm: 0x80,
        command: if write { AtaCommand::WriteDmaExt.code() } else { AtaCommand::ReadDmaExt.code() },
        device: 0x40,
        lba0: (block % 0x100) as u8,
        lba1: ((block / 0x100) % 0x100) as u8,
        lba2: ((block / 0x1_0000) % 0x100) as u8,
        lba3: ((block / 0x100_0000) % 0x100) as u8,
        lba4: ((block / 0x1_0000_0000) % 0x100) as u8,
        lba5: ((block / 0x100_0000_0000) % 0x100) as u8,
        countl: sectors as u8,
        counth: 0,
        featurel: 0,
        featureh: 0,
    }
}

/// The slot set-up of an ATAPI packet command moving `size` bytes through
/// the transfer buffer at `buf_phys` (the packet itself goes in the command
/// table's ATAPI command area).
pub fn atapi_dma_command(size: u32, buf_phys: u64) -> (r: AhciCommand)
    requires
        size > 0,
    ensures
        r == (AhciCommand {
            cfl: FIS_REG_H2D_DWORDS | 0x20,
            prdtl: 1,
            dba_low: (buf_phys % 0x1_0000_0000) as u32,
            dba_high: (buf_phys / 0x1_0000_0000) as u32,
            dbc: (size - 1) as u32,
            pm: 0x80,
            command: 0xA0,
            device: 0,
            lba0: 0,
            lba1: 0,
            lba2: 0,
            lba3: 0,
            lba4: 0,
            lba5: 0,
            countl: 0,
            counth: 0,
            featurel: 1,
            featureh: 0,
        }),
{
    AhciCommand {
        cfl: FIS_REG_H2D_DWORDS | 0x20,
        prdtl: 1,
        dba_low: (buf_phys % 0x1_0000_0000) as u32,
        dba_high: (buf_phys / 0x1_0000_0000) as u32,
        dbc: size - 1,
        pm: 0x80,
        command: AtaCommand::Packet.code(),
        device: 0,
        lba0: 0,
        lba1: 0,
        lba2: 0,
        lba3: 0,
        lba4: 0,
        lba5: 0,
        countl: 0,
        counth: 0,
        featurel: 1,
        featureh: 0,
    }
}

/// Bit `k` of `v` is set.
pub open spec fn bit32(v: u32, k: nat) -> bool {
    (v as nat / vstd::arithmetic::power2::pow2(k)) % 2 == 1
}

/// The first command slot that is neither active nor issued.
pub fn free_slot(sact: u32, ci: u32) -> (r: Option<u32>)
    ensures
        match r {
            Some(i) => i < 32 && !bit32(sact | ci, i as nat) && forall|j: nat| j < i ==> bit32(sact | ci, j),
            None => forall|j: nat| j < 32 ==> bit32(sact | ci, j),
        },
{
    let slots = sact | ci;
    let mut v: u32 = slots;
    let mut i: u32 = 0;
    proof {
        vstd::arithmetic::power2::lemma2_to64();
    }
    while i < 32
        invariant
            slots == sact | ci,
            i <= 32,
            v as nat == slots as nat / vstd::arithmetic::power2::pow2(i as nat),
            forall|j: nat| j < i ==> bit32(slots, j),
        decreases 32 - i,
    {
        if v % 2 == 0 {
            return Some(i);
        }
        proof {
            vstd::arithmetic::power2::lemma_pow2_pos(i as nat);
            vstd::arithmetic::div_mod::lemma_div_denominator(
                slots as int,
                vstd::arithmetic::power2::pow2(i as nat) as int,
                2,
            );
            vstd::arithmetic::power2::lemma_pow2_unfold((i + 1) as nat);
            vstd::arithmetic::mul::lemma_mul_is_commutative(2, vstd::arithmetic::power2::pow2(i as nat) as int);
        }
        v = v / 2;
        i = i + 1;
    }
    None
}

/// The ports from `i` up, among the 32 of an HBA, whose bit is set in the
/// ports-implemented register `pi`, in increasing order.
pub open spec fn implemented_from(pi: u32, i: nat) -> Seq<u32>
    decreases 32 - i,
{
    if i >= 32 {
        Seq::empty()
    } else if bit32(pi, i) {
        seq![i as u32] + implemented_from(pi, i + 1)
    } else {
        implemented_from(pi, i + 1)
    }
}

/// The ports that the HBA implements, in the order they are probed.
pub fn implemented_ports(pi: u32) -> (r: Vec<u32>)
    ensures
        r@ == implemented_from(pi, 0),
{
    let mut r: Vec<u32> = Vec::new();
    let mut v: u32 = pi;
    let mut i: u32 = 0;
    proof {
        vstd::arithmetic::power2::lemma2_to64();
    }
    while i < 32
        invariant
            i <= 32,
            v as nat == pi as nat / vstd::arithmetic::power2::pow2(i as nat),
            r@ + implemented_from(pi, i as nat) == implemented_from(pi, 0),
        decreases 32 - i,
    {
        let ghost old_r = r@;
        if v % 2 == 1 {
            r.push(i);
            assert(r@ + implemented_from(pi, (i + 1) as nat) =~= old_r + implemented_from(pi, i as nat));
        }
        proof {
            vstd::arithmetic::power2::lemma_pow2_pos(i as nat);
            vstd::arithmetic::div_mod::lemma_div_denominator(
                pi as int,
                vstd::arithmetic::power2::pow2(i as nat) as int,
                2,
            );
            vstd::arithmetic::power2::lemma_pow2_unfold((i + 1) as nat);
            vstd::arithmetic::mul::lemma_mul_is_commutative(2, vstd::arithmetic::power2::pow2(i as nat) as int);
        }
        v = v / 2;
        i = i + 1;
    }
    assert(r@ =~= implemented_from(pi, 0));
    r
}

/// The kind of disk the daemon drives on a port.
#[derive(Clone, Copy, Debug, PartialEq, Eq, Structural)]
pub enum AhciDiskKind {
    Ata,
    Atapi,
}

/// SATA ports carry ATA disks and SATAPI ports ATAPI ones; other ports are
/// left alone.
pub fn disk_kind(t: HbaPortType) -> (r: Option<AhciDiskKind>)
    ensures
        r == (match t {
            HbaPortType::SATA => Some(AhciDiskKind::Ata),
            HbaPortType::SATAPI => Some(AhciDiskKind::Atapi),
            _ => None,
        }),
{
    match t {
        HbaPortType::SATA => Some(AhciDiskKind::Ata),
        HbaPortType::SATAPI => Some(AhciDiskKind::Atapi),
        _ => None,
    }
}

/// Whether the command in `slot` is still running: issued or the device
/// busy, and no error reported.
pub fn ata_running(ci: u32, tfd: u32, is: u32, slot: u32) -> (r: bool)
    requires
        slot < 32,
    ensures
        r == ((bit32(ci, slot as nat) || bit32(tfd, 7)) && is & HBA_PORT_IS_ERR == 0),
{
    let mut v = ci;
    let mut i: u32 = 0;
    proof {
        vstd::arithmetic::power2::lemma2_to64();
    }
    while i < slot
        invariant
            i <= slot < 32,
            v as nat == ci as nat / vstd::arithmetic::power2::pow2(i as nat),
        decreases slot - i,
    {
        proof {
            vstd::arithmetic::power2::lemma_pow2_pos(i as nat);
            vstd::arithmetic::div_mod::lemma_div_denominator(
                ci as int,
                vstd::arithmetic::power2::pow2(i as nat) as int,
                2,
            );
            vstd::arithmetic::power2::lemma_pow2_unfold((i + 1) as nat);
            vstd::arithmetic::mul::lemma_mul_is_commutative(2, vstd::arithmetic::power2::pow2(i as nat) as int);
        }
        v = v / 2;
        i = i + 1;
    }
    let issued = v % 2 == 1;
    let busy = (tfd / 0x80) % 2 == 1;
    (issued || busy) && is & HBA_PORT_IS_ERR == 0
}

/// Why an IDE channel reports a failed command.
#[derive(Clone, Copy, Debug, PartialEq, Eq, Structural)]
pub enum IdeError {
    /// The error bit (0) of the status register is set.
    Error,
    /// The device write fault bit (5) is set.
    WriteFault,
    /// A read found no data ready once the device was no longer busy.
    NotReady,
}

/// Checks an IDE status register value: the error bit wins over the write
/// fault bit; otherwise the status is passed on.
pub fn ide_check_status(status: u8) -> (r: Result<u8, IdeError>)
    ensures
        r == ide_check_status_spec(status),
{
    if status % 2 == 1 {
        Err(IdeError::Error)
    } else if (status / 32) % 2 == 1 {
        Err(IdeError::WriteFault)
    } else {
        Ok(status)
    }
}

/// What one status read while polling an IDE channel decides.
#[derive(Clone, Copy, Debug, PartialEq, Eq, Structural)]
pub enum IdePoll {
    /// The device is still busy: poll again (until the timeout).
    Busy,
    /// The command may go on.
    Ready,
    Failed(IdeError),
}

/// Polls once: a failed status fails, a busy device is polled again, and a
/// read needs its data request bit (3) once the device is not busy.
pub fn ide_poll_step(status: u8, read: bool) -> (r: IdePoll)
    ensures
        r == (match ide_check_status_spec(status) {
            Err(e) => IdePoll::Failed(e),
            Ok(_) => if status >= 0x80 {
                IdePoll::Busy
            } else if read && (status / 8) % 2 == 0 {
                IdePoll::Failed(IdeError::NotReady)
            } else {
                IdePoll::Ready
            },
        }),
{
    match ide_check_status(status) {
        Err(e) => IdePoll::Failed(e),
        Ok(_) => {
            if status >= 0x80 {
                IdePoll::Busy
            } else if read && (status / 8) % 2 == 0 {
                IdePoll::Failed(IdeError::NotReady)
            } else {
                IdePoll::Ready
            }
        },
    }
}

/// What `ide_check_status` gives.
pub open spec fn ide_check_status_spec(status: u8) -> Result<u8, IdeError> {
    if status % 2 == 1 {
        Err(IdeError::Error)
    } else if (status / 32) % 2 == 1 {
        Err(IdeError::WriteFault)
    } else {
        Ok(status)
    }
}

} // verus!
