//! NVMe: identify data, queue entries, the submission and completion queue
//! rings, and the decisions the driver takes around them.

use vstd::prelude::*;
use vstd::arithmetic::power2::pow2;
use vstd::std_specs::cmp::PartialOrdSpecImpl;
use core::cmp::Ordering;
use vstd::string::StrSliceExecFns;
use vstd::utf8::{encode_utf8, valid_utf8};
use crate::bytes::{copy_range, le16, le32, le64, read_le16, read_le32, read_le64};

verus! {

/// Status of a completed command, by status code type.
#[derive(Clone, Copy, Debug, PartialEq, Eq, Structural)]
pub enum Status {
    GenericCmdStatus(u8),
    CommandSpecificStatus(u8),
    IntegrityError(u8),
    PathRelatedStatus(u8),
    Rsvd(u8),
    Vendor(u8),
}

/// The status a raw completion status field stands for: the status code is
/// the byte above the phase bit, the status code type bits 11:9.
pub open spec fn spec_status(raw: u16) -> Status {
    let code = ((raw / 2) % 256) as u8;
    let ty = (raw / 512) % 8;
    if ty == 0 {
        Status::GenericCmdStatus(code)
    } else if ty == 1 {
        Status::CommandSpecificStatus(code)
    } else if ty == 2 {
        Status::IntegrityError(code)
    } else if ty == 3 {
        Status::PathRelatedStatus(code)
    } else if ty <= 6 {
        Status::Rsvd(code)
    } else {
        Status::Vendor(code)
    }
}

/// The status code a status carries.
pub open spec fn status_code(s: Status) -> u8 {
    match s {
        Status::GenericCmdStatus(c) => c,
        Status::CommandSpecificStatus(c) => c,
        Status::IntegrityError(c) => c,
        Status::PathRelatedStatus(c) => c,
        Status::Rsvd(c) => c,
        Status::Vendor(c) => c,
    }
}

/// A status field with phase tag `phase` (bit 0), status code `code` (bits
/// 8:1), status code type `ty` (bits 11:9) and the bits above `more` reads as
/// status code `code` of type `ty`: generic 0, command specific 1, media and
/// data integrity 2, path related 3, vendor specific 7, reserved otherwise.
pub proof fn lemma_status_fields(phase: u16, code: u8, ty: u16, more: u16)
    requires
        phase < 2,
        ty < 8,
        more < 16,
    ensures
        ({
            let st = spec_status((phase + 2 * code + 512 * ty + 4096 * more) as u16);
            &&& status_code(st) == code
            &&& (st is GenericCmdStatus) == (ty == 0)
            &&& (st is CommandSpecificStatus) == (ty == 1)
            &&& (st is IntegrityError) == (ty == 2)
            &&& (st is PathRelatedStatus) == (ty == 3)
            &&& (st is Vendor) == (ty == 7)
            &&& (st is Rsvd) == (4 <= ty <= 6)
        }),
{
    let raw = phase + 2 * code + 512 * ty + 4096 * more;
    assert(raw < 65536 && (raw / 2) % 256 == code && (raw / 512) % 8 == ty) by (nonlinear_arith)
        requires
            raw == phase + 2 * code + 512 * ty + 4096 * more,
            0 <= phase < 2,
            0 <= code < 256,
            0 <= ty < 8,
            0 <= more < 16,
    ;
}

impl Status {
    pub fn parse(raw: u16) -> (r: Self)
        ensures
            r == spec_status(raw),
    {
        let code = (raw >> 1u16) as u8;
        let ty = (raw >> 9u16) & 0b111;
        proof {
            crate::bits::lemma_u16_bits();
            crate::bits::lemma_u16_status_code();
        }
        match ty {
            0 => Status::GenericCmdStatus(code),
            1 => Status::CommandSpecificStatus(code),
            2 => Status::IntegrityError(code),
            3 => Status::PathRelatedStatus(code),
            4 | 5 | 6 => Status::Rsvd(code),
            _ => Status::Vendor(code),
        }
    }
}

/// How fast a namespace performs with an LBA format, best first.
#[derive(Clone, Copy, Debug, PartialEq, Eq, Hash, Structural)]
pub enum RelativePerformance {
    Best,
    Better,
    Good,
    Degraded,
}

pub open spec fn relative_performance_code(p: RelativePerformance) -> int {
    match p {
        RelativePerformance::Best => 0,
        RelativePerformance::Better => 1,
        RelativePerformance::Good => 2,
        RelativePerformance::Degraded => 3,
    }
}

/// Higher performance compares greater: `Best` is above `Better`, `Good`
/// and `Degraded`, the reverse of the order of their codes.
impl PartialOrd for RelativePerformance {
    fn partial_cmp(&self, other: &Self) -> (r: Option<Ordering>) {
        let a: u8 = match self {
            RelativePerformance::Best => 0,
            RelativePerformance::Better => 1,
            RelativePerformance::Good => 2,
            RelativePerformance::Degraded => 3,
        };
        let b: u8 = match other {
            RelativePerformance::Best => 0,
            RelativePerformance::Better => 1,
            RelativePerformance::Good => 2,
            RelativePerformance::Degraded => 3,
        };
        if a < b {
            Some(Ordering::Greater)
        } else if a == b {
            Some(Ordering::Equal)
        } else {
            Some(Ordering::Less)
        }
    }
}

impl PartialOrdSpecImpl for RelativePerformance {
    open spec fn obeys_partial_cmp_spec() -> bool {
        true
    }

    open spec fn partial_cmp_spec(&self, other: &Self) -> Option<Ordering> {
        let a = relative_performance_code(*self);
        let b = relative_performance_code(*other);
        Some(
            if a < b {
                Ordering::Greater
            } else if a == b {
                Ordering::Equal
            } else {
                Ordering::Less
            },
        )
    }
}

/// An LBA format descriptor: metadata size in bits 15:0, log2 of the data
/// size in bits 23:16, relative performance in bits 25:24.
#[derive(Clone, Copy, Debug, PartialEq, Eq, Structural)]
pub struct LbaFormat(pub u32);

pub open spec fn spec_log_lba_data_size(f: LbaFormat) -> int {
    ((f.0 / 65536) % 256) as int
}

pub open spec fn spec_lba_data_size(f: LbaFormat) -> Option<u64> {
    let l = spec_log_lba_data_size(f);
    if 9 <= l < 32 {
        Some(pow2(l as nat) as u64)
    } else {
        None
    }
}

impl LbaFormat {
    pub fn relative_performance(&self) -> (r: RelativePerformance)
        ensures
            relative_performance_code(r) == (self.0 / 16777216) % 4,
    {
        let x = self.0;
        let p = (x >> 24u32) & 0b11;
        proof { crate::bits::lemma_u32_bits(); }
        if p == 0 {
            RelativePerformance::Best
        } else if p == 1 {
            RelativePerformance::Better
        } else if p == 2 {
            RelativePerformance::Good
        } else {
            RelativePerformance::Degraded
        }
    }

    pub fn is_available(&self) -> (r: bool)
        ensures
            r == (spec_log_lba_data_size(*self) != 0),
    {
        self.log_lba_data_size() != 0
    }

    pub fn log_lba_data_size(&self) -> (r: u8)
        ensures
            r == spec_log_lba_data_size(*self),
    {
        let x = self.0;
        proof { crate::bits::lemma_u32_bits(); }
        ((x >> 16u32) & 0xFF) as u8
    }

    /// The data size in bytes, where it is at least 512 and below 2^32.
    pub fn lba_data_size(&self) -> (r: Option<u64>)
        ensures
            r == spec_lba_data_size(*self),
    {
        let l = self.log_lba_data_size();
        if l < 9 {
            return None;
        }
        if l >= 32 {
            return None;
        }
        let shift = l as u64;
        proof {
            vstd::bits::lemma_u64_pow2_no_overflow(shift as nat);
            vstd::bits::lemma_u64_shl_is_mul(1, shift);
        }
        Some(1u64 << shift)
    }

    pub fn metadata_size(&self) -> (r: u16)
        ensures
            r == self.0 % 65536,
    {
        (self.0 % 65536) as u16
    }
}

/// The Identify Controller data structure, as far as the driver reads it.
#[derive(Clone, Debug)]
pub struct IdentifyControllerData {
    /// PCI vendor ID.
    pub vid: u16,
    /// PCI subsystem vendor ID.
    pub ssvid: u16,
    /// ASCII.
    pub serial_no: Vec<u8>,
    /// ASCII.
    pub model_no: Vec<u8>,
    /// ASCII.
    pub firmware_rev: Vec<u8>,
}

/// Size of the identify data structures.
pub const IDENTIFY_DATA_LEN: usize = 4096;

impl IdentifyControllerData {
    pub fn from_bytes(s: &[u8]) -> (r: Self)
        requires
            s@.len() >= 80,
        ensures
            r.vid == le16(s@, 0),
            r.ssvid == le16(s@, 2),
            r.serial_no@ == s@.subrange(4, 24),
            r.model_no@ == s@.subrange(24, 72),
            r.firmware_rev@ == s@.subrange(72, 80),
    {
        IdentifyControllerData {
            vid: read_le16(s, 0),
            ssvid: read_le16(s, 2),
            serial_no: copy_range(s, 4, 20),
            model_no: copy_range(s, 24, 48),
            firmware_rev: copy_range(s, 72, 8),
        }
    }
}

/// What `String::from_utf8_lossy` makes of `bytes`: their text, with each
/// ill-formed part replaced by U+FFFD.
pub uninterp spec fn utf8_lossy(bytes: Seq<u8>) -> Seq<char>;

/// `String::from_utf8_lossy`, made an owned string. Its result is named, as
/// a function of the bytes alone; of it is stated only what the
/// documentation gives plainly: well-formed UTF-8 comes out as the text it
/// encodes. Which characters come out of ill-formed input is left unsaid.
#[verifier::external_body]
fn from_utf8_lossy(bytes: &[u8]) -> (r: String)
    ensures
        r@ == utf8_lossy(bytes@),
        valid_utf8(bytes@) ==> encode_utf8(r@) == bytes@,
{
    String::from_utf8_lossy(bytes).into_owned()
}

/// White space as `char::is_whitespace` has it: the Unicode White_Space
/// characters.
pub open spec fn is_white_space(c: char) -> bool {
    let u = c as u32;
    (9 <= u <= 13) || u == 32 || u == 0x85 || u == 0xA0 || u == 0x1680 || (0x2000 <= u <= 0x200A) || u
        == 0x2028 || u == 0x2029 || u == 0x202F || u == 0x205F || u == 0x3000
}

fn white_space(c: char) -> (r: bool)
    ensures
        r == is_white_space(c),
{
    let u = c as u32;
    (9 <= u && u <= 13) || u == 32 || u == 0x85 || u == 0xA0 || u == 0x1680 || (0x2000 <= u && u <= 0x200A)
        || u == 0x2028 || u == 0x2029 || u == 0x202F || u == 0x205F || u == 0x3000
}

/// `s` without its leading white space.
pub open spec fn trim_start(s: Seq<char>) -> Seq<char>
    decreases s.len(),
{
    if s.len() > 0 && is_white_space(s[0]) {
        trim_start(s.drop_first())
    } else {
        s
    }
}

/// `s` without its trailing white space.
pub open spec fn trim_end(s: Seq<char>) -> Seq<char>
    decreases s.len(),
{
    if s.len() > 0 && is_white_space(s.last()) {
        trim_end(s.drop_last())
    } else {
        s
    }
}

/// `s` without leading and trailing white space, as `str::trim` gives it.
pub open spec fn trim(s: Seq<char>) -> Seq<char> {
    trim_end(trim_start(s))
}

/// `s` trimmed of white space at both ends.
pub fn trim_str(s: &str) -> (r: String)
    ensures
        r@ == trim(s@),
{
    let n = s.unicode_len();
    let mut i: usize = 0;
    assert(s@.subrange(0, n as int) =~= s@);
    while i < n && white_space(s.get_char(i))
        invariant
            n == s@.len(),
            i <= n,
            trim_start(s@) == trim_start(s@.subrange(i as int, n as int)),
        decreases n - i,
    {
        assert(s@.subrange(i as int, n as int).drop_first() =~= s@.subrange(i + 1, n as int));
        i = i + 1;
    }
    assert(trim_start(s@) == s@.subrange(i as int, n as int));
    let mut j: usize = n;
    while j > i && white_space(s.get_char(j - 1))
        invariant
            n == s@.len(),
            i <= j <= n,
            trim_end(s@.subrange(i as int, n as int)) == trim_end(s@.subrange(i as int, j as int)),
        decreases j - i,
    {
        assert(s@.subrange(i as int, j as int).drop_last() =~= s@.subrange(i as int, j - 1));
        j = j - 1;
    }
    assert(trim_end(s@.subrange(i as int, j as int)) == s@.subrange(i as int, j as int));
    let t = s.substring_char(i, j);
    t.to_owned()
}

impl IdentifyControllerData {
    /// The serial number, model and firmware revision, in that order: each
    /// field read as text, with ill-formed bytes replaced, and trimmed of
    /// white space.
    pub fn strings(&self) -> (r: (String, String, String))
        ensures
            r.0@ == trim(utf8_lossy(self.serial_no@)),
            r.1@ == trim(utf8_lossy(self.model_no@)),
            r.2@ == trim(utf8_lossy(self.firmware_rev@)),
    {
        let serial = from_utf8_lossy(self.serial_no.as_slice());
        let model = from_utf8_lossy(self.model_no.as_slice());
        let firmware = from_utf8_lossy(self.firmware_rev.as_slice());
        (trim_str(serial.as_str()), trim_str(model.as_str()), trim_str(firmware.as_str()))
    }
}

/// The Identify Namespace data structure.
#[derive(Clone, Debug)]
pub struct IdentifyNamespaceData {
    pub nsze: u64,
    pub ncap: u64,
    pub nuse: u64,
    pub nsfeat: u8,
    pub nlbaf: u8,
    pub flbas: u8,
    pub mc: u8,
    pub dpc: u8,
    pub dps: u8,
    pub nmic: u8,
    pub rescap: u8,
    pub fpi: u8,
    pub dlfeat: u8,
    pub nawun: u16,
    pub nawupf: u16,
    pub nacwu: u16,
    pub nabsn: u16,
    pub nabo: u16,
    pub nabspf: u16,
    pub noiob: u16,
    pub nvmcap: u128,
    pub npwg: u16,
    pub npwa: u16,
    pub npdg: u16,
    pub npda: u16,
    pub nows: u16,
    pub anagrpid: u32,
    pub nsattr: u8,
    pub nvmsetid: u16,
    pub endgid: u16,
    pub nguid: Vec<u8>,
    pub eui64: u64,
    /// The sixteen LBA formats.
    pub lba_format_support: Vec<LbaFormat>,
    pub vendor_specific: Vec<u8>,
}

impl IdentifyNamespaceData {
    pub open spec fn wf(&self) -> bool {
        self.lba_format_support@.len() == 16
    }

    pub fn size_in_blocks(&self) -> (r: u64)
        ensures
            r == self.nsze,
    {
        self.nsze
    }

    pub fn capacity_in_blocks(&self) -> (r: u64)
        ensures
            r == self.ncap,
    {
        self.ncap
    }

    /// Index of the LBA format in use, within 0..=15.
    pub fn formatted_lba_size_idx(&self) -> (r: usize)
        ensures
            r == self.flbas % 16,
            r < 16,
    {
        let f = self.flbas;
        proof { crate::bits::lemma_u8_bits(); }
        (f & 0xF) as usize
    }

    /// The LBA format in use.
    pub fn formatted_lba_size(&self) -> (r: LbaFormat)
        requires
            self.wf(),
        ensures
            r == self.lba_format_support@[(self.flbas % 16) as int],
    {
        self.lba_format_support[self.formatted_lba_size_idx()]
    }

    pub fn has_metadata_after_data(&self) -> (r: bool)
        ensures
            r == ((self.flbas / 16) % 2 == 1),
    {
        let f = self.flbas;
        assert((f & (1u8 << 4u8) != 0) == ((f / 16) % 2 == 1)) by (bit_vector);
        (f & (1u8 << 4u8)) != 0
    }

    /// Reads the structure from its 4096 bytes.
    pub fn from_bytes(s: &[u8]) -> (r: Self)
        requires
            s@.len() >= IDENTIFY_DATA_LEN,
        ensures
            r.wf(),
            r.nsze == le64(s@, 0),
            r.ncap == le64(s@, 8),
            r.nuse == le64(s@, 16),
            r.nsfeat == s@[24],
            r.nlbaf == s@[25],
            r.flbas == s@[26],
            r.mc == s@[27],
            r.nvmcap == le64(s@, 48) + 18446744073709551616 * le64(s@, 56),
            r.nguid@ == s@.subrange(104, 120),
            r.eui64 == le64(s@, 120),
            forall|k: int| 0 <= k < 16 ==> (#[trigger] r.lba_format_support@[k]).0 == le32(s@, 128 + 4 * k),
            r.vendor_specific@ == s@.subrange(384, 4096),
    {
        let mut formats: Vec<LbaFormat> = Vec::new();
        let mut k: usize = 0;
        while k < 16
            invariant
                k <= 16,
                s@.len() >= 4096,
                formats@.len() == k,
                forall|j: int| 0 <= j < k ==> (#[trigger] formats@[j]).0 == le32(s@, 128 + 4 * j),
            decreases 16 - k,
        {
            formats.push(LbaFormat(read_le32(s, 128 + 4 * k)));
            k = k + 1;
        }
        let lo = read_le64(s, 48) as u128;
        let hi = read_le64(s, 56) as u128;
        IdentifyNamespaceData {
            nsze: read_le64(s, 0),
            ncap: read_le64(s, 8),
            nuse: read_le64(s, 16),
            nsfeat: s[24],
            nlbaf: s[25],
            flbas: s[26],
            mc: s[27],
            dpc: s[28],
            dps: s[29],
            nmic: s[30],
            rescap: s[31],
            fpi: s[32],
            dlfeat: s[33],
            nawun: read_le16(s, 34),
            nawupf: read_le16(s, 36),
            nacwu: read_le16(s, 38),
            nabsn: read_le16(s, 40),
            nabo: read_le16(s, 42),
            nabspf: read_le16(s, 44),
            noiob: read_le16(s, 46),
            nvmcap: lo + 18446744073709551616 * hi,
            npwg: read_le16(s, 64),
            npwa: read_le16(s, 66),
            npdg: read_le16(s, 68),
            npda: read_le16(s, 70),
            nows: read_le16(s, 72),
            anagrpid: read_le32(s, 92),
            nsattr: s[99],
            nvmsetid: read_le16(s, 100),
            endgid: read_le16(s, 102),
            nguid: copy_range(s, 104, 16),
            eui64: read_le64(s, 120),
            lba_format_support: formats,
            vendor_specific: copy_range(s, 384, 3712),
        }
    }
}

/// A namespace: its identifier, its size in blocks and its block size.
#[derive(Clone, Copy, Debug, PartialEq, Eq, Structural)]
pub struct NvmeNamespace {
    pub id: u32,
    pub blocks: u64,
    pub block_size: u64,
}

/// The namespace that identify data describe, or `None` where the LBA
/// format in use has a data size outside 512..2^32 (the driver gives up on
/// such a namespace).
pub fn namespace_from_identify(nsid: u32, data: &IdentifyNamespaceData) -> (r: Option<NvmeNamespace>)
    requires
        data.wf(),
    ensures
        r == (match spec_lba_data_size(data.lba_format_support@[(data.flbas % 16) as int]) {
            Some(bs) => Some(NvmeNamespace { id: nsid, blocks: data.nsze, block_size: bs }),
            None => None,
        }),
{
    let size = data.size_in_blocks();
    match data.formatted_lba_size().lba_data_size() {
        Some(block_size) => Some(NvmeNamespace { id: nsid, blocks: size, block_size }),
        None => None,
    }
}

/// The namespace identifiers of an identify namespace list: the entries up
/// to the first zero.
pub fn namespace_ids(list: &[u32]) -> (r: Vec<u32>)
    ensures
        r@ == list@.take(r@.len() as int),
        r@.len() == list@.len() || list@[r@.len() as int] == 0,
        forall|i: int| 0 <= i < r@.len() ==> r@[i] != 0,
{
    let mut r: Vec<u32> = Vec::new();
    let mut i: usize = 0;
    while i < list.len()
        invariant
            i <= list@.len(),
            r@ == list@.take(i as int),
            forall|j: int| 0 <= j < i ==> list@[j] != 0,
        decreases list@.len() - i,
    {
        if list[i] == 0 {
            return r;
        }
        r.push(list[i]);
        i = i + 1;
        assert(r@ =~= list@.take(i as int));
    }
    r
}

/// How to handle full submission queues.
#[derive(Clone, Copy, Debug, PartialEq, Eq, Structural)]
pub enum FullSqHandling {
    /// Return an error immediately prior to posting the command.
    ErrorDirectly,
    /// Wait to be notified when a command on the same submission queue has
    /// been completed.
    Wait,
}

/// A submission queue entry.
#[derive(Clone, Copy, Debug, Default, PartialEq, Eq, Structural)]
pub struct NvmeCmd {
    pub opcode: u8,
    pub flags: u8,
    /// Command identifier.
    pub cid: u16,
    /// Namespace identifier.
    pub nsid: u32,
    pub rsvd: u64,
    /// Metadata pointer.
    pub mptr: u64,
    /// Data pointers.
    pub dptr0: u64,
    pub dptr1: u64,
    pub cdw10: u32,
    pub cdw11: u32,
    pub cdw12: u32,
    pub cdw13: u32,
    pub cdw14: u32,
    pub cdw15: u32,
}

/// A completion queue entry.
#[derive(Clone, Copy, Debug, PartialEq, Eq, Structural)]
pub struct NvmeComp {
    pub command_specific: u32,
    pub rsvd: u32,
    pub sq_head: u16,
    pub sq_id: u16,
    pub cid: u16,
    /// Bit 0 is the phase tag; the status field is above it.
    pub status: u16,
}

/// Size of a completion queue entry.
pub const NVME_COMP_LEN: usize = 16;

impl NvmeComp {
    pub fn from_bytes(s: &[u8], i: usize) -> (r: Self)
        requires
            i + NVME_COMP_LEN <= s@.len(),
        ensures
            r.command_specific == le32(s@, i as int),
            r.rsvd == le32(s@, i + 4),
            r.sq_head == le16(s@, i + 8),
            r.sq_id == le16(s@, i + 10),
            r.cid == le16(s@, i + 12),
            r.status == le16(s@, i + 14),
    {
        assert(s@.len() == s.len());
        NvmeComp {
            command_specific: read_le32(s, i),
            rsvd: read_le32(s, i + 4),
            sq_head: read_le16(s, i + 8),
            sq_id: read_le16(s, i + 10),
            cid: read_le16(s, i + 12),
            status: read_le16(s, i + 14),
        }
    }

    /// The phase tag of the entry.
    pub fn phase(&self) -> (r: bool)
        ensures
            r == (self.status % 2 == 1),
    {
        let s = self.status;
        proof { crate::bits::lemma_u16_bits(); }
        (self.status & 1) == 1
    }
}

/// The driver's executor's view of its queue entries.
pub struct NvmeHw;

impl NvmeHw {
    /// Stores the command identifier in a submission entry.
    pub fn set_sqe_cmdid(sqe: &mut NvmeCmd, id: u16)
        ensures
            *final(sqe) == (NvmeCmd { cid: id, ..*old(sqe) }),
    {
        sqe.cid = id;
    }

    /// The command identifier of a completion entry.
    pub fn get_cqe_cmdid(cqe: &NvmeComp) -> (r: u16)
        ensures
            r == cqe.cid,
    {
        cqe.cid
    }
}

/// Number of entries of a completion queue.
pub const COMP_QUEUE_ENTRIES: usize = 256;

/// Number of entries of a submission queue.
pub const CMD_QUEUE_ENTRIES: usize = 64;

/// A completion queue: the ring that the controller writes, the head the
/// driver reads at and the phase tag that marks new entries.
pub struct NvmeCompQueue {
    pub data: Vec<NvmeComp>,
    pub head: u16,
    pub phase: bool,
}

/// Position of a completion queue in its cycle of two rounds: the phase tag
/// flips each time the head wraps around.
pub open spec fn comp_ring_pos(len: nat, head: u16, phase: bool) -> nat {
    if phase {
        head as nat
    } else {
        len + head as nat
    }
}

impl NvmeCompQueue {
    pub open spec fn wf(&self) -> bool {
        &&& 0 < self.data@.len() <= u16::MAX
        &&& self.head < self.data@.len()
    }

    /// An empty queue of 256 zeroed entries, expecting phase 1.
    pub fn new() -> (r: Self)
        ensures
            r.wf(),
            r.data@.len() == COMP_QUEUE_ENTRIES,
            r.head == 0,
            r.phase,
    {
        let zero = NvmeComp { command_specific: 0, rsvd: 0, sq_head: 0, sq_id: 0, cid: 0, status: 0 };
        NvmeCompQueue { data: vec![zero; COMP_QUEUE_ENTRIES], head: 0, phase: true }
    }

    /// Takes the entry at the head if the controller has written it (its
    /// phase tag matches), and gives the new head with it.
    pub fn complete(&mut self) -> (r: Option<(u16, NvmeComp)>)
        requires
            old(self).wf(),
        ensures
            final(self).wf(),
            final(self).data == old(self).data,
            ({
                let e = old(self).data@[old(self).head as int];
                let len = old(self).data@.len();
                if (e.status % 2 == 1) == old(self).phase {
                    &&& final(self).head == (old(self).head + 1) % (len as int)
                    &&& final(self).phase == (if final(self).head == 0 { !old(self).phase } else { old(self).phase })
                    &&& r == Some((final(self).head, e))
                    &&& comp_ring_pos(len, final(self).head, final(self).phase) == (comp_ring_pos(
                        len,
                        old(self).head,
                        old(self).phase,
                    ) + 1) % (2 * len)
                } else {
                    &&& r is None
                    &&& final(self).head == old(self).head
                    &&& final(self).phase == old(self).phase
                }
            }),
    {
        let entry = self.data[self.head as usize];
        if entry.phase() == self.phase {
            let ghost old_head = self.head;
            let ghost old_phase = self.phase;
            let len = self.data.len() as u16;
            self.head = (self.head + 1) % len;
            if self.head == 0 {
                self.phase = !self.phase;
            }
            proof {
                let l = len as int;
                if old_head + 1 < l {
                    vstd::arithmetic::div_mod::lemma_small_mod((old_head + 1) as nat, l as nat);
                    vstd::arithmetic::div_mod::lemma_small_mod(
                        (comp_ring_pos(l as nat, old_head, old_phase) + 1) as nat,
                        (2 * l) as nat,
                    );
                } else {
                    vstd::arithmetic::div_mod::lemma_mod_self_0(l);
                    if old_phase {
                        vstd::arithmetic::div_mod::lemma_small_mod(l as nat, (2 * l) as nat);
                    } else {
                        vstd::arithmetic::div_mod::lemma_mod_self_0(2 * l);
                    }
                }
            }
            Some((self.head, entry))
        } else {
            None
        }
    }
}

/// A submission queue: the ring the driver writes at its tail, and the head
/// up to which the controller has fetched.
pub struct NvmeCmdQueue {
    pub data: Vec<NvmeCmd>,
    pub tail: u16,
    pub head: u16,
}

impl NvmeCmdQueue {
    pub open spec fn wf(&self) -> bool {
        &&& 0 < self.data@.len() <= u16::MAX
        &&& self.tail < self.data@.len()
    }

    /// An empty queue of 64 zeroed entries.
    pub fn new() -> (r: Self)
        ensures
            r.wf(),
            r.data@.len() == CMD_QUEUE_ENTRIES,
            r.tail == 0,
            r.head == 0,
    {
        let zero = NvmeCmd {
            opcode: 0,
            flags: 0,
            cid: 0,
            nsid: 0,
            rsvd: 0,
            mptr: 0,
            dptr0: 0,
            dptr1: 0,
            cdw10: 0,
            cdw11: 0,
            cdw12: 0,
            cdw13: 0,
            cdw14: 0,
            cdw15: 0,
        };
        NvmeCmdQueue { data: vec![zero; CMD_QUEUE_ENTRIES], tail: 0, head: 0 }
    }

    pub fn is_empty(&self) -> (r: bool)
        ensures
            r == (self.head == self.tail),
    {
        self.head == self.tail
    }

    /// Whether one more entry would make the tail catch up with the head,
    /// so that the queue would look empty.
    pub open spec fn full(&self) -> bool {
        (self.tail + 1) % (self.data@.len() as int) == self.head
    }

    /// Whether the head is right after the tail, going round the ring.
    pub fn is_full(&self) -> (r: bool)
        requires
            self.wf(),
        ensures
            r == self.full(),
    {
        let len = self.data.len() as u16;
        (self.tail + 1) % len == self.head
    }

    /// Writes `entry` at the tail and advances the tail; gives the new tail.
    /// The caller makes sure that the queue has room.
    pub fn submit_unchecked(&mut self, entry: NvmeCmd) -> (r: u16)
        requires
            old(self).wf(),
        ensures
            final(self).wf(),
            final(self).data@ == old(self).data@.update(old(self).tail as int, entry),
            final(self).tail == (old(self).tail + 1) % (old(self).data@.len() as int),
            final(self).head == old(self).head,
            r == final(self).tail,
    {
        let t = self.tail as usize;
        self.data.set(t, entry);
        let len = self.data.len() as u16;
        self.tail = (self.tail + 1) % len;
        self.tail
    }

    /// Submits `cmd` under the command identifier of the slot it goes to,
    /// unless the queue is full. Gives the queue, the command identifier and
    /// the new tail, which the doorbell is then rung with.
    pub fn try_submit(&mut self, sq_id: u16, cmd: NvmeCmd) -> (r: Option<(u16, u16, u16)>)
        requires
            old(self).wf(),
        ensures
            final(self).wf(),
            old(self).full() <==> r is None,
            r is None ==> *final(self) == *old(self),
            r matches Some((q, cid, tail)) ==> {
                &&& q == sq_id
                &&& cid == old(self).tail
                &&& final(self).data@ == old(self).data@.update(
                    old(self).tail as int,
                    NvmeCmd { cid: old(self).tail, ..cmd },
                )
                &&& tail == final(self).tail
                &&& final(self).tail == (old(self).tail + 1) % (old(self).data@.len() as int)
                &&& final(self).head == old(self).head
            },
    {
        if self.is_full() {
            return None;
        }
        let cmd_id = self.tail;
        let mut entry = cmd;
        NvmeHw::set_sqe_cmdid(&mut entry, cmd_id);
        let tail = self.submit_unchecked(entry);
        Some((sq_id, cmd_id, tail))
    }
}

/// The doorbell register index of a submission queue's tail.
pub fn submission_queue_doorbell(qid: u16) -> (r: usize)
    ensures
        r == 2 * qid,
{
    2 * (qid as usize)
}

/// The doorbell register index of a completion queue's head.
pub fn completion_queue_doorbell(qid: u16) -> (r: usize)
    ensures
        r == 2 * qid + 1,
{
    2 * (qid as usize) + 1
}

/// Byte offset of doorbell register `index` from the register base, with
/// the doorbell stride field `dstrd` of the capabilities.
pub fn doorbell_offset(index: usize, dstrd: u8) -> (r: u64)
    requires
        dstrd < 16,
        index <= 131071,
    ensures
        r == 0x1000 + index * 4 * pow2(dstrd as nat),
{
    proof {
        vstd::bits::lemma_u64_pow2_no_overflow(dstrd as nat);
        vstd::arithmetic::power2::lemma_pow2_strictly_increases(dstrd as nat, 16);
        vstd::arithmetic::power2::lemma2_to64();
        vstd::bits::lemma_u64_shl_is_mul(4, dstrd as u64);
    }
    let stride = 4u64 << (dstrd as u64);
    assert(stride <= 262144);
    assert(index * stride <= 131071 * 262144) by (nonlinear_arith)
        requires
            index <= 131071,
            stride <= 262144,
    ;
    let off = 0x1000u64 + (index as u64) * stride;
    assert(off == 0x1000 + index * 4 * pow2(dstrd as nat)) by (nonlinear_arith)
        requires
            off == 0x1000 + index * stride,
            stride == 4 * pow2(dstrd as nat),
    ;
    off
}

/// Where the data of a transfer of `bytes` bytes is described: by the first
/// list entry alone up to one page, by the first two up to two pages, and
/// else by the first entry and a pointer to the rest of the list at
/// `list_phys + 8`.
pub fn prp_pointers(bytes: u64, prp0: u64, prp1: u64, list_phys: u64) -> (r: (u64, u64))
    requires
        list_phys + 8 <= u64::MAX,
    ensures
        r == (if bytes <= 4096 {
            (prp0, 0u64)
        } else if bytes <= 8192 {
            (prp0, prp1)
        } else {
            (prp0, (list_phys + 8) as u64)
        }),
{
    if bytes <= 4096 {
        (prp0, 0)
    } else if bytes <= 8192 {
        (prp0, prp1)
    } else {
        (prp0, list_phys + 8)
    }
}

/// Size in bytes of a transfer of `blocks_1 + 1` blocks.
pub fn transfer_bytes(blocks_1: u16, block_size: u64) -> (r: u64)
    requires
        (blocks_1 + 1) * block_size <= u64::MAX,
    ensures
        r == (blocks_1 + 1) * block_size,
{
    (blocks_1 as u64 + 1) * block_size
}

/// The 0's based block count of a chunk of `chunk_len` bytes: the blocks it
/// covers, rounded up, less one.
pub fn chunk_blocks_1(chunk_len: usize, block_size: usize) -> (r: u16)
    requires
        block_size > 0,
        chunk_len > 0,
        chunk_len + block_size - 1 <= usize::MAX,
        (chunk_len + block_size - 1) / (block_size as int) <= 0x1_0000,
    ensures
        r + 1 == (chunk_len + block_size - 1) / (block_size as int),
{
    let blocks = (chunk_len + (block_size - 1)) / block_size;
    assert(blocks >= 1) by (nonlinear_arith)
        requires
            blocks == (chunk_len + block_size - 1) / (block_size as int),
            chunk_len > 0,
            block_size > 0,
    ;
    (blocks - 1) as u16
}

/// Whether a completion reports success: its status field (above the phase
/// tag) is zero.
pub fn completion_succeeded(status: u16) -> (r: bool)
    ensures
        r == (status / 2 == 0),
{
    let s = status;
    proof { crate::bits::lemma_u16_bits(); }
    (status >> 1u16) == 0
}

/// The writes that mask (into the mask-set register) or unmask (into the
/// mask-clear register) an interrupt vector: the bit of the vector in one of
/// the two and nothing in the other.
pub fn vector_mask_writes(vector: u16, masked: bool) -> (r: (u32, u32))
    requires
        vector % 256 < 32,
    ensures
        r == (if masked {
            (pow2((vector % 256) as nat) as u32, 0u32)
        } else {
            (0u32, pow2((vector % 256) as nat) as u32)
        }),
{
    let v = (vector % 256) as u32;
    proof {
        vstd::bits::lemma_u32_pow2_no_overflow(v as nat);
        vstd::bits::lemma_u32_shl_is_mul(1, v);
    }
    let bit = 1u32 << v;
    if masked {
        (bit, 0)
    } else {
        (0, bit)
    }
}

/// A notification request: a task wants to hear of a completion, or of
/// room in a submission queue. `waker` identifies the task.
#[derive(Clone, Copy, Debug, PartialEq, Eq, Structural)]
pub enum NotifReq {
    RequestCompletion { cq_id: u16, sq_id: u16, cmd_id: u16, waker: usize },
    RequestAvailSubmission { sq_id: u16, waker: usize },
}

/// What a completed command's task receives.
#[derive(Clone, Copy, Debug, PartialEq, Eq, Structural)]
pub struct CompletionMessage {
    pub cq_entry: NvmeComp,
}

/// Whether the completion `entry` seen on completion queue `cq_id` answers
/// the request `req`.
pub open spec fn answers(req: NotifReq, cq_id: u16, entry: NvmeComp) -> bool {
    match req {
        NotifReq::RequestCompletion { cq_id: c, sq_id, cmd_id, .. } => c == cq_id && sq_id == entry.sq_id
            && cmd_id == entry.cid,
        NotifReq::RequestAvailSubmission { sq_id, .. } => sq_id == entry.sq_id,
    }
}

/// The requests of `reqs` that `entry` does not answer, in order.
pub open spec fn unanswered(reqs: Seq<NotifReq>, cq_id: u16, entry: NvmeComp) -> Seq<NotifReq>
    decreases reqs.len(),
{
    if reqs.len() == 0 {
        Seq::empty()
    } else {
        let rest = unanswered(reqs.drop_last(), cq_id, entry);
        if answers(reqs.last(), cq_id, entry) {
            rest
        } else {
            rest.push(reqs.last())
        }
    }
}

/// The requests of `reqs` that `entry` answers, in order.
pub open spec fn answered(reqs: Seq<NotifReq>, cq_id: u16, entry: NvmeComp) -> Seq<NotifReq>
    decreases reqs.len(),
{
    if reqs.len() == 0 {
        Seq::empty()
    } else {
        let rest = answered(reqs.drop_last(), cq_id, entry);
        if answers(reqs.last(), cq_id, entry) {
            rest.push(reqs.last())
        } else {
            rest
        }
    }
}

/// Takes out of the pending requests those that the completion `entry` on
/// queue `cq_id` answers, and gives them back in order; the tasks behind
/// them are then woken (with the entry, for completion requests).
pub fn try_notify_futures(pending: &mut Vec<NotifReq>, cq_id: u16, entry: &NvmeComp) -> (r: Vec<NotifReq>)
    ensures
        final(pending)@ == unanswered(old(pending)@, cq_id, *entry),
        r@ == answered(old(pending)@, cq_id, *entry),
{
    let ghost orig = pending@;
    let mut woken: Vec<NotifReq> = Vec::new();
    let mut i: usize = 0;
    let ghost mut j: int = 0;
    assert(orig.take(0) =~= Seq::<NotifReq>::empty());
    assert(orig.skip(0) =~= orig);
    while i < pending.len()
        invariant
            0 <= j <= orig.len(),
            pending@ == unanswered(orig.take(j), cq_id, *entry) + orig.skip(j),
            i == unanswered(orig.take(j), cq_id, *entry).len(),
            woken@ == answered(orig.take(j), cq_id, *entry),
        decreases pending@.len() - i,
    {
        let req = pending[i];
        assert(req == orig[j]);
        assert(orig.take(j + 1).drop_last() =~= orig.take(j));
        assert(orig.take(j + 1).last() == orig[j]);
        let hit = match req {
            NotifReq::RequestCompletion { cq_id: c, sq_id, cmd_id, .. } => c == cq_id && sq_id
                == entry.sq_id && cmd_id == entry.cid,
            NotifReq::RequestAvailSubmission { sq_id, .. } => sq_id == entry.sq_id,
        };
        if hit {
            let removed = pending.remove(i);
            woken.push(removed);
            proof {
                assert(pending@ =~= unanswered(orig.take(j + 1), cq_id, *entry) + orig.skip(j + 1));
            }
        } else {
            i = i + 1;
            proof {
                assert(pending@ =~= unanswered(orig.take(j + 1), cq_id, *entry) + orig.skip(j + 1));
            }
        }
        proof {
            j = j + 1;
        }
    }
    proof {
        assert(j == orig.len()) by {
            if j < orig.len() {
                assert(pending@.len() > i);
            }
        }
        assert(orig.take(j) =~= orig);
        assert(orig.skip(j) =~= Seq::<NotifReq>::empty());
        assert(pending@ =~= unanswered(orig, cq_id, *entry));
    }
    woken
}

/// Where a command's future is.
#[derive(Clone, Copy, Debug, PartialEq, Eq, Structural)]
pub enum CompletionFutureState {
    /// Not submitted yet: waiting for room in submission queue `sq_id`.
    PendingSubmission { sq_id: u16, cmd: NvmeCmd },
    /// Submitted under `cmd_id`; waiting for its completion on `cq_id`.
    PendingCompletion { cq_id: u16, cmd_id: u16, sq_id: u16 },
    Finished,
}

/// What one poll of a command's future does besides changing its state.
#[derive(Clone, Copy, Debug)]
pub struct PollOutcome {
    /// The completion, when the future is ready.
    pub ready: Option<NvmeComp>,
    /// The notification request sent to the completion reactor.
    pub notify: Option<NotifReq>,
    /// The submission queue doorbell to ring, with the new tail.
    pub doorbell: Option<(u16, u16)>,
}

impl CompletionFutureState {
    /// Polls the future of a command whose submission queue is `sq` (paired
    /// with completion queue `cq_id`), given the completion message that the
    /// reactor may have left, on behalf of task `waker`.
    pub fn poll(&mut self, sq: &mut NvmeCmdQueue, cq_id: u16, message: Option<CompletionMessage>, waker: usize) -> (r:
        PollOutcome)
        requires
            old(sq).wf(),
            !(*old(self) is Finished),
        ensures
            final(sq).wf(),
            match *old(self) {
                CompletionFutureState::PendingSubmission { sq_id, cmd } => if old(sq).full() {
                    &&& *final(self) == *old(self)
                    &&& *final(sq) == *old(sq)
                    &&& r == (PollOutcome {
                        ready: None,
                        notify: Some(NotifReq::RequestAvailSubmission { sq_id, waker }),
                        doorbell: None,
                    })
                } else {
                    &&& final(sq).data@ == old(sq).data@.update(
                        old(sq).tail as int,
                        NvmeCmd { cid: old(sq).tail, ..cmd },
                    )
                    &&& final(sq).tail == (old(sq).tail + 1) % (old(sq).data@.len() as int)
                    &&& final(sq).head == old(sq).head
                    &&& *final(self) == CompletionFutureState::PendingCompletion {
                        cq_id,
                        cmd_id: old(sq).tail,
                        sq_id,
                    }
                    &&& r == (PollOutcome {
                        ready: None,
                        notify: Some(
                            NotifReq::RequestCompletion { cq_id, sq_id, cmd_id: old(sq).tail, waker },
                        ),
                        doorbell: Some((sq_id, final(sq).tail)),
                    })
                },
                CompletionFutureState::PendingCompletion { cq_id: c, cmd_id, sq_id } => {
                    &&& *final(sq) == *old(sq)
                    &&& match message {
                        Some(m) => *final(self) == CompletionFutureState::Finished && r == (PollOutcome {
                            ready: Some(m.cq_entry),
                            notify: None,
                            doorbell: None,
                        }),
                        None => *final(self) == *old(self) && r == (PollOutcome {
                            ready: None,
                            notify: Some(NotifReq::RequestCompletion { cq_id: c, sq_id, cmd_id, waker }),
                            doorbell: None,
                        }),
                    }
                },
                CompletionFutureState::Finished => false,
            },
    {
        match *self {
            CompletionFutureState::PendingSubmission { sq_id, cmd } => {
                if sq.is_full() {
                    return PollOutcome {
                        ready: None,
                        notify: Some(NotifReq::RequestAvailSubmission { sq_id, waker }),
                        doorbell: None,
                    };
                }
                let cmd_id = sq.tail;
                let mut entry = cmd;
                NvmeHw::set_sqe_cmdid(&mut entry, cmd_id);
                let tail = sq.submit_unchecked(entry);
                *self = CompletionFutureState::PendingCompletion { cq_id, cmd_id, sq_id };
                PollOutcome {
                    ready: None,
                    notify: Some(NotifReq::RequestCompletion { cq_id, sq_id, cmd_id, waker }),
                    doorbell: Some((sq_id, tail)),
                }
            },
            CompletionFutureState::PendingCompletion { cq_id: c, cmd_id, sq_id } => {
                match message {
                    Some(m) => {
                        *self = CompletionFutureState::Finished;
                        PollOutcome { ready: Some(m.cq_entry), notify: None, doorbell: None }
                    },
                    None => PollOutcome {
                        ready: None,
                        notify: Some(NotifReq::RequestCompletion { cq_id: c, sq_id, cmd_id, waker }),
                        doorbell: None,
                    },
                }
            },
            CompletionFutureState::Finished => PollOutcome { ready: None, notify: None, doorbell: None },
        }
    }
}

/// The admin queue attributes register: completion queue size less one in
/// bits 27:16, submission queue size less one in bits 11:0.
pub fn admin_queue_attributes(acq_len: u32, asq_len: u32) -> (r: u32)
    requires
        1 <= acq_len <= 4096,
        1 <= asq_len <= 4096,
    ensures
        r == (acq_len - 1) * 65536 + (asq_len - 1),
{
    let a = acq_len - 1;
    let b = asq_len - 1;
    assert(a < 4096 && b < 4096 ==> (a << 16u32) | b == a * 65536 + b) by (bit_vector);
    (a << 16u32) | b
}

/// The controller configuration before enabling: the entry sizes (I/O
/// completion queue entries of 2^4 bytes, submission entries of 2^6),
/// round-robin arbitration, 4 KiB pages and the NVM command set, keeping the
/// enable bit and the reserved high byte.
pub fn controller_config(cc: u32) -> (r: u32)
    ensures
        r == (cc & 0xFF00_000F) | 0x0046_0000,
{
    assert((4u32 << 20u32) | (6u32 << 16u32) == 0x0046_0000u32) by (bit_vector);
    (cc & 0xFF00_000F) | ((4u32 << 20u32) | (6u32 << 16u32))
}

/// The physical region page list of the driver's transfer buffer: one entry
/// per 4 KiB page.
pub fn prp_list(buffer_phys: u64, pages: usize) -> (r: Vec<u64>)
    requires
        buffer_phys + pages * 4096 <= u64::MAX,
    ensures
        r@.len() == pages,
        forall|i: int| 0 <= i < pages ==> #[trigger] r@[i] == buffer_phys + i * 4096,
{
    let mut r: Vec<u64> = Vec::new();
    let mut i: usize = 0;
    while i < pages
        invariant
            i <= pages,
            buffer_phys + pages * 4096 <= u64::MAX,
            r@.len() == i,
            forall|j: int| 0 <= j < i ==> #[trigger] r@[j] == buffer_phys + j * 4096,
        decreases pages - i,
    {
        assert(buffer_phys + i * 4096 <= u64::MAX) by (nonlinear_arith)
            requires
                buffer_phys + pages * 4096 <= u64::MAX,
                i < pages,
        ;
        r.push(buffer_phys + (i as u64) * 4096);
        i = i + 1;
    }
    r
}

/// Whether the controller reports ready (bit 0 of its status).
pub fn controller_ready(csts: u32) -> (r: bool)
    ensures
        r == (csts % 2 == 1),
{
    csts % 2 == 1
}

/// Bytes that one read or write command of a namespace moves at most.
pub const NVME_CHUNK: usize = 8192;

/// One command of a namespace read or write: its first block, its 0's
/// based block count, and the part of the caller's buffer it moves.
#[derive(Clone, Copy, Debug, PartialEq, Eq, Structural)]
pub struct NvmeChunk {
    pub lba: u64,
    pub blocks_1: u16,
    pub offset: usize,
    pub len: usize,
}

/// The blocks a chunk of `len` bytes covers.
pub open spec fn chunk_blocks(len: nat, bs: nat) -> nat {
    ((len + bs - 1) / (bs as int)) as nat
}

/// The commands that move `left` bytes from buffer offset `offset` on,
/// starting at block `lba`: chunks of 8 KiB (the last one shorter), each
/// starting at the block after the blocks of the one before.
pub open spec fn nvme_chunks(lba: int, offset: nat, left: nat, bs: nat) -> Seq<NvmeChunk>
    decreases left,
{
    if left == 0 || bs == 0 {
        Seq::empty()
    } else {
        let len: nat = if left < NVME_CHUNK { left } else { NVME_CHUNK as nat };
        let blocks = chunk_blocks(len, bs);
        seq![NvmeChunk { lba: lba as u64, blocks_1: (blocks - 1) as u16, offset: offset as usize, len: len as usize }]
            + nvme_chunks(lba + blocks, offset + len, (left - len) as nat, bs)
    }
}

/// The block after the last one that the commands for `left` bytes touch.
pub open spec fn nvme_chunks_end(lba: int, left: nat, bs: nat) -> int
    decreases left,
{
    if left == 0 || bs == 0 {
        lba
    } else {
        let len: nat = if left < NVME_CHUNK { left } else { NVME_CHUNK as nat };
        nvme_chunks_end(lba + chunk_blocks(len, bs), (left - len) as nat, bs)
    }
}

proof fn lemma_nvme_chunks_end_grows(lba: int, left: nat, bs: nat)
    ensures
        nvme_chunks_end(lba, left, bs) >= lba,
    decreases left,
{
    if left > 0 && bs > 0 {
        let len: nat = if left < NVME_CHUNK { left } else { NVME_CHUNK as nat };
        lemma_nvme_chunks_end_grows(lba + chunk_blocks(len, bs), (left - len) as nat, bs);
    }
}

/// Plans a namespace read or write of `buf_len` bytes at block `lba` with
/// blocks of `block_size` bytes.
pub fn namespace_chunks(lba: u64, buf_len: usize, block_size: usize) -> (r: Vec<NvmeChunk>)
    requires
        0 < block_size <= 0x1000_0000,
        nvme_chunks_end(lba as int, buf_len as nat, block_size as nat) <= u64::MAX,
    ensures
        r@ == nvme_chunks(lba as int, 0, buf_len as nat, block_size as nat),
{
    let mut out: Vec<NvmeChunk> = Vec::new();
    let mut cur: u64 = lba;
    let mut offset: usize = 0;
    while offset < buf_len
        invariant
            0 < block_size <= 0x1000_0000,
            offset <= buf_len,
            nvme_chunks_end(cur as int, (buf_len - offset) as nat, block_size as nat) <= u64::MAX,
            out@ + nvme_chunks(cur as int, offset as nat, (buf_len - offset) as nat, block_size as nat)
                == nvme_chunks(lba as int, 0, buf_len as nat, block_size as nat),
        decreases buf_len - offset,
    {
        let left = buf_len - offset;
        let len = if left < NVME_CHUNK { left } else { NVME_CHUNK };
        let blocks = (len + (block_size - 1)) / block_size;
        proof {
            assert(blocks >= 1 && blocks <= len) by (nonlinear_arith)
                requires
                    blocks == (len + block_size - 1) / (block_size as int),
                    len > 0,
                    block_size > 0,
            ;
            lemma_nvme_chunks_end_grows(cur + blocks, (left - len) as nat, block_size as nat);
        }
        let chunk = NvmeChunk { lba: cur, blocks_1: (blocks - 1) as u16, offset, len };
        assert(out@.push(chunk) + nvme_chunks(cur + blocks, (offset + len) as nat, (left - len) as nat, block_size as nat)
            =~= out@ + nvme_chunks(cur as int, offset as nat, left as nat, block_size as nat));
        out.push(chunk);
        cur = cur + blocks as u64;
        offset = offset + len;
    }
    out
}

} // verus!
