//! SCSI command blocks and the parameter data that devices return for them.
//!
//! Every record here is laid out as the device sees it in memory. Fields
//! that the standard defines as big endian hold their raw in-memory value,
//! which on a little-endian host is the byte-swapped number; the accessor
//! methods give the number itself.

use vstd::prelude::*;
use crate::bot::ProtocolError;
use crate::bytes::{copy_range, le16, le32, le64, read_le16, read_le32, read_le64, spec_swap16, spec_swap32, spec_swap64, swap16, swap32, swap64};

verus! {

/// INQUIRY.
pub const OPCODE_INQUIRY: u8 = 0x12;
/// REQUEST SENSE.
pub const OPCODE_REQUEST_SENSE: u8 = 0x03;
/// READ (16).
pub const OPCODE_READ16: u8 = 0x88;
/// WRITE (16).
pub const OPCODE_WRITE16: u8 = 0x8A;
/// MODE SENSE (6).
pub const OPCODE_MODE_SENSE6: u8 = 0x1A;
/// MODE SENSE (10).
pub const OPCODE_MODE_SENSE10: u8 = 0x5A;
/// READ CAPACITY (10).
pub const OPCODE_READ_CAPACITY10: u8 = 0x25;

/// Additional sense code of ILLEGAL REQUEST for an invalid field in the CDB.
pub const ADD_SENSE_CODE05_INVAL_CDB_FIELD: u8 = 0x24;

/// The INQUIRY command block.
#[derive(Clone, Copy, Debug, PartialEq, Eq, Structural)]
pub struct Inquiry {
    pub opcode: u8,
    /// Bit 0 is EVPD; the other bits are reserved or obsolete.
    pub evpd: u8,
    pub page_code: u8,
    /// Big endian.
    pub alloc_len: u16,
    pub control: u8,
}

impl Inquiry {
    pub fn new(evpd: bool, page_code: u8, alloc_len: u16, control: u8) -> (r: Self)
        ensures
            r.opcode == OPCODE_INQUIRY,
            r.evpd == (if evpd { 1u8 } else { 0u8 }),
            r.page_code == page_code,
            r.alloc_len == spec_swap16(alloc_len),
            r.control == control,
    {
        Inquiry {
            opcode: OPCODE_INQUIRY,
            evpd: if evpd { 1 } else { 0 },
            page_code,
            alloc_len: swap16(alloc_len),
            control,
        }
    }
}

/// The standard INQUIRY data (96 bytes).
#[derive(Clone, Debug)]
pub struct StandardInquiryData {
    /// Peripheral device type (bits 4:0) and peripheral device qualifier (bits 7:5).
    pub a: u8,
    /// Removable medium (bit 7).
    pub rmb: u8,
    /// Version of the SCSI command set.
    pub version: u8,
    pub b: u8,
    pub additional_len: u8,
    pub c: u8,
    pub d: u8,
    pub e: u8,
    pub t10_vendor_info: u64,
    pub product_ident: Vec<u8>,
    pub product_rev_label: u32,
    pub driver_serial_no: Vec<u8>,
    pub vendor_uniq: Vec<u8>,
    pub version_descs: Vec<u16>,
}

/// Size of the standard INQUIRY data.
pub const STANDARD_INQUIRY_DATA_LEN: usize = 96;

/// `r` holds the fields of the record at the start of `s`.
pub open spec fn inquiry_data_of(r: StandardInquiryData, s: Seq<u8>) -> bool {
    &&& r.a == s[0]
    &&& r.rmb == s[1]
    &&& r.version == s[2]
    &&& r.b == s[3]
    &&& r.additional_len == s[4]
    &&& r.c == s[5]
    &&& r.d == s[6]
    &&& r.e == s[7]
    &&& r.t10_vendor_info == le64(s, 8)
    &&& r.product_ident@ == s.subrange(16, 32)
    &&& r.product_rev_label == le32(s, 32)
    &&& r.driver_serial_no@ == s.subrange(36, 44)
    &&& r.vendor_uniq@ == s.subrange(44, 56)
    &&& r.version_descs.len() == 8
    &&& forall|k: int| 0 <= k < 8 ==> #[trigger] r.version_descs[k] == le16(s, 58 + 2 * k)
}

impl StandardInquiryData {
    pub fn periph_dev_ty(&self) -> (r: u8)
        ensures
            r == self.a % 32,
    {
        let a = self.a;
        proof { crate::bits::lemma_u8_bits(); }
        a & 0x1F
    }

    pub fn periph_dev_qual(&self) -> (r: u8)
        ensures
            r == self.a / 32,
    {
        let a = self.a;
        proof { crate::bits::lemma_u8_bits(); }
        (a & 0xE0) >> 5
    }

    pub fn version(&self) -> (r: u8)
        ensures
            r == self.version,
    {
        self.version
    }

    /// Reads the record from the first 96 bytes of `s`.
    pub fn from_bytes(s: &[u8]) -> (r: Self)
        requires
            s@.len() >= STANDARD_INQUIRY_DATA_LEN,
        ensures
            inquiry_data_of(r, s@),
    {
        let mut version_descs: Vec<u16> = Vec::new();
        let mut k: usize = 0;
        while k < 8
            invariant
                k <= 8,
                s@.len() >= 96,
                version_descs@.len() == k,
                forall|j: int| 0 <= j < k ==> #[trigger] version_descs@[j] == le16(s@, 58 + 2 * j),
            decreases 8 - k,
        {
            version_descs.push(read_le16(s, 58 + 2 * k));
            k = k + 1;
        }
        StandardInquiryData {
            a: s[0],
            rmb: s[1],
            version: s[2],
            b: s[3],
            additional_len: s[4],
            c: s[5],
            d: s[6],
            e: s[7],
            t10_vendor_info: read_le64(s, 8),
            product_ident: copy_range(s, 16, 16),
            product_rev_label: read_le32(s, 32),
            driver_serial_no: copy_range(s, 36, 8),
            vendor_uniq: copy_range(s, 44, 12),
            version_descs,
        }
    }
}

/// Peripheral device type of a direct-access block device.
pub const PERIPH_DEVICE_TYPE_DIRECT_ACCESS: u8 = 0;

#[derive(Clone, Copy, Debug, PartialEq, Eq, Structural)]
pub enum PeriphDeviceType {
    DirectAccess,
    SeqAccess,
}

#[derive(Clone, Copy, Debug, PartialEq, Eq, Structural)]
pub enum InquiryVersion {
    NoConformance,
    Spc,
    Spc2,
    Spc3,
    Spc4,
    Spc5,
}

/// Version number of SPC-3 in the INQUIRY data.
pub const INQUIRY_VERSION_SPC3: u8 = 3;

/// The REQUEST SENSE command block.
#[derive(Clone, Copy, Debug, PartialEq, Eq, Structural)]
pub struct RequestSense {
    pub opcode: u8,
    /// Bit 0 is DESC.
    pub desc: u8,
    pub rsvd: u16,
    pub alloc_len: u8,
    pub control: u8,
}

impl RequestSense {
    pub const MINIMAL_ALLOC_LEN: u8 = 252;

    pub fn new(desc: bool, alloc_len: u8, control: u8) -> (r: Self)
        ensures
            r.opcode == OPCODE_REQUEST_SENSE,
            r.desc == (if desc { 1u8 } else { 0u8 }),
            r.rsvd == 0,
            r.alloc_len == alloc_len,
            r.control == control,
    {
        RequestSense {
            opcode: OPCODE_REQUEST_SENSE,
            desc: if desc { 1 } else { 0 },
            rsvd: 0,
            alloc_len,
            control,
        }
    }
}

/// Sense data in fixed format (18 bytes).
#[derive(Clone, Copy, Debug)]
pub struct FixedFormatSenseData {
    pub a: u8,
    pub obsolete: u8,
    /// The sense key is in bits 3:0.
    pub b: u8,
    pub info: u32,
    pub add_sense_len: u8,
    pub command_specific_info: u32,
    pub add_sense_code: u8,
    pub add_sense_code_qual: u8,
    pub field_replacable_unit_code: u8,
    /// Big endian.
    pub sense_key_specific: [u8; 3],
}

/// Size of fixed-format sense data.
pub const FIXED_FORMAT_SENSE_DATA_LEN: usize = 18;

#[derive(Clone, Copy, Debug, PartialEq, Eq, Hash, Structural)]
pub enum SenseKey {
    NoSense,
    RecoveredError,
    NotReady,
    MediumError,
    HardwareError,
    IllegalRequest,
    UnitAttention,
    DataProtect,
    BlankCheck,
    VendorSpecific,
    CopyAborted,
    AbortedCommand,
    Reserved,
    VolumeOverflow,
    Miscompare,
    Completed,
}

/// The number that stands for a sense key in sense data.
pub open spec fn sense_key_code(k: SenseKey) -> int {
    match k {
        SenseKey::NoSense => 0x00,
        SenseKey::RecoveredError => 0x01,
        SenseKey::NotReady => 0x02,
        SenseKey::MediumError => 0x03,
        SenseKey::HardwareError => 0x04,
        SenseKey::IllegalRequest => 0x05,
        SenseKey::UnitAttention => 0x06,
        SenseKey::DataProtect => 0x07,
        SenseKey::BlankCheck => 0x08,
        SenseKey::VendorSpecific => 0x09,
        SenseKey::CopyAborted => 0x0A,
        SenseKey::AbortedCommand => 0x0B,
        SenseKey::Reserved => 0x0C,
        SenseKey::VolumeOverflow => 0x0D,
        SenseKey::Miscompare => 0x0E,
        SenseKey::Completed => 0x0F,
    }
}

/// The sense keys in the order SPC numbers them from 0.
pub open spec fn sense_keys() -> Seq<SenseKey> {
    seq![
        SenseKey::NoSense,
        SenseKey::RecoveredError,
        SenseKey::NotReady,
        SenseKey::MediumError,
        SenseKey::HardwareError,
        SenseKey::IllegalRequest,
        SenseKey::UnitAttention,
        SenseKey::DataProtect,
        SenseKey::BlankCheck,
        SenseKey::VendorSpecific,
        SenseKey::CopyAborted,
        SenseKey::AbortedCommand,
        SenseKey::Reserved,
        SenseKey::VolumeOverflow,
        SenseKey::Miscompare,
        SenseKey::Completed,
    ]
}

/// Sense key `k` in SPC's list has number `k`, and no two sense keys share a
/// number: reading the key from sense data finds the one the device sent.
pub proof fn lemma_sense_key_numbering(k: int, a: SenseKey, b: SenseKey)
    ensures
        0 <= k < 16 ==> sense_key_code(sense_keys()[k]) == k,
        sense_key_code(a) == sense_key_code(b) ==> a == b,
{
}

impl Default for SenseKey {
    fn default() -> (r: Self)
        ensures
            r == SenseKey::NoSense,
    {
        SenseKey::NoSense
    }
}

/// `r` holds the fields of the record at the start of `s`.
pub open spec fn sense_data_of(r: FixedFormatSenseData, s: Seq<u8>) -> bool {
    &&& r.a == s[0]
    &&& r.obsolete == s[1]
    &&& r.b == s[2]
    &&& r.info == le32(s, 3)
    &&& r.add_sense_len == s[7]
    &&& r.command_specific_info == le32(s, 8)
    &&& r.add_sense_code == s[12]
    &&& r.add_sense_code_qual == s[13]
    &&& r.field_replacable_unit_code == s[14]
    &&& r.sense_key_specific@ == s.subrange(15, 18)
}

impl FixedFormatSenseData {
    pub fn additional_len(&self) -> (r: u16)
        ensures
            r == self.add_sense_len + 7,
    {
        self.add_sense_len as u16 + 7
    }

    pub fn sense_key(&self) -> (r: SenseKey)
        ensures
            sense_key_code(r) == self.b % 16,
    {
        let raw = self.b & 0b1111;
        let b = self.b;
        proof { crate::bits::lemma_u8_bits(); }
        match raw {
            0 => SenseKey::NoSense,
            1 => SenseKey::RecoveredError,
            2 => SenseKey::NotReady,
            3 => SenseKey::MediumError,
            4 => SenseKey::HardwareError,
            5 => SenseKey::IllegalRequest,
            6 => SenseKey::UnitAttention,
            7 => SenseKey::DataProtect,
            8 => SenseKey::BlankCheck,
            9 => SenseKey::VendorSpecific,
            10 => SenseKey::CopyAborted,
            11 => SenseKey::AbortedCommand,
            12 => SenseKey::Reserved,
            13 => SenseKey::VolumeOverflow,
            14 => SenseKey::Miscompare,
            _ => SenseKey::Completed,
        }
    }

    /// Reads the record from the first 18 bytes of `s`.
    pub fn from_bytes(s: &[u8]) -> (r: Self)
        requires
            s@.len() >= FIXED_FORMAT_SENSE_DATA_LEN,
        ensures
            sense_data_of(r, s@),
    {
        let r = FixedFormatSenseData {
            a: s[0],
            obsolete: s[1],
            b: s[2],
            info: read_le32(s, 3),
            add_sense_len: s[7],
            command_specific_info: read_le32(s, 8),
            add_sense_code: s[12],
            add_sense_code_qual: s[13],
            field_replacable_unit_code: s[14],
            sense_key_specific: [s[15], s[16], s[17]],
        };
        assert(r.sense_key_specific@ =~= s@.subrange(15, 18));
        r
    }
}

/// The READ (16) command block.
#[derive(Clone, Copy, Debug, PartialEq, Eq, Structural)]
pub struct Read16 {
    pub opcode: u8,
    pub a: u8,
    /// Big endian.
    pub lba: u64,
    /// Big endian.
    pub transfer_len: u32,
    pub b: u8,
    pub control: u8,
}

impl Read16 {
    pub fn new(lba: u64, transfer_len: u32, control: u8) -> (r: Self)
        ensures
            r.opcode == OPCODE_READ16,
            r.a == 0,
            r.lba == spec_swap64(lba),
            r.transfer_len == spec_swap32(transfer_len),
            r.b == 0,
            r.control == control,
    {
        Read16 {
            opcode: OPCODE_READ16,
            a: 0,
            lba: swap64(lba),
            transfer_len: swap32(transfer_len),
            b: 0,
            control,
        }
    }
}

/// The WRITE (16) command block.
#[derive(Clone, Copy, Debug, PartialEq, Eq, Structural)]
pub struct Write16 {
    pub opcode: u8,
    pub a: u8,
    pub lba: u64,
    pub transfer_len: u32,
    pub b: u8,
    pub control: u8,
}

impl Write16 {
    /// Stores `lba` and `transfer_len` big endian, as the command block
    /// carries them.
    pub fn new(lba: u64, transfer_len: u32, control: u8) -> (r: Self)
        ensures
            r.opcode == OPCODE_WRITE16,
            r.a == 0,
            r.lba == spec_swap64(lba),
            r.transfer_len == spec_swap32(transfer_len),
            r.b == 0,
            r.control == control,
    {
        Write16 {
            opcode: OPCODE_WRITE16,
            a: 0,
            lba: swap64(lba),
            transfer_len: swap32(transfer_len),
            b: 0,
            control,
        }
    }
}

/// The MODE SENSE (6) command block.
#[derive(Clone, Copy, Debug, PartialEq, Eq, Structural)]
pub struct ModeSense6 {
    pub opcode: u8,
    pub a: u8,
    pub b: u8,
    pub subpage_code: u8,
    pub alloc_len: u8,
    pub control: u8,
}

impl ModeSense6 {
    /// `page_code` is held in the low six bits of the second flag byte and
    /// `pc` in its two high bits.
    pub fn new(dbd: bool, page_code: u8, pc: u8, subpage_code: u8, alloc_len: u8, control: u8) -> (r: Self)
        requires
            pc < 4,
        ensures
            r.opcode == OPCODE_MODE_SENSE6,
            r.a == (if dbd { 8u8 } else { 0u8 }),
            r.b == page_code | ((pc * 64) as u8),
            r.subpage_code == subpage_code,
            r.alloc_len == alloc_len,
            r.control == control,
    {
        proof { crate::bits::lemma_u8_bits(); }
        proof { crate::bits::lemma_u8_bits(); }
        ModeSense6 {
            opcode: OPCODE_MODE_SENSE6,
            a: if dbd { 1u8 << 3u8 } else { 0 },
            b: page_code | (pc << 6u8),
            subpage_code,
            alloc_len,
            control,
        }
    }
}

/// Which values a MODE SENSE returns.
#[derive(Clone, Copy, Debug, PartialEq, Eq, Structural)]
pub enum ModePageControl {
    CurrentValues,
    ChangeableChanges,
    DefaultValues,
    SavedValue,
}

pub open spec fn mode_page_control_code(pc: ModePageControl) -> u8 {
    match pc {
        ModePageControl::CurrentValues => 0,
        ModePageControl::ChangeableChanges => 1,
        ModePageControl::DefaultValues => 2,
        ModePageControl::SavedValue => 3,
    }
}

impl ModePageControl {
    pub fn code(self) -> (r: u8)
        ensures
            r == mode_page_control_code(self),
    {
        match self {
            ModePageControl::CurrentValues => 0,
            ModePageControl::ChangeableChanges => 1,
            ModePageControl::DefaultValues => 2,
            ModePageControl::SavedValue => 3,
        }
    }
}

/// The MODE SENSE (10) command block.
#[derive(Clone, Copy, Debug)]
pub struct ModeSense10 {
    pub opcode: u8,
    pub a: u8,
    pub b: u8,
    pub subpage_code: u8,
    pub rsvd: [u8; 3],
    /// Big endian.
    pub alloc_len: u16,
    pub control: u8,
}

impl ModeSense10 {
    pub fn new(
        dbd: bool,
        llbaa: bool,
        page_code: u8,
        pc: ModePageControl,
        subpage_code: u8,
        alloc_len: u16,
        control: u8,
    ) -> (r: Self)
        ensures
            r.opcode == OPCODE_MODE_SENSE10,
            r.a == (if dbd { 8u8 } else { 0u8 }) | (if llbaa { 16u8 } else { 0u8 }),
            r.b == page_code | ((mode_page_control_code(pc) * 64) as u8),
            r.subpage_code == subpage_code,
            r.rsvd@ == seq![0u8, 0u8, 0u8],
            r.alloc_len == spec_swap16(alloc_len),
            r.control == control,
    {
        let code = pc.code();
        proof { crate::bits::lemma_u8_bits(); }
        proof { crate::bits::lemma_u8_bits(); }
        let d: u8 = if dbd { 1u8 << 3u8 } else { 0 };
        let l: u8 = if llbaa { 1u8 << 4u8 } else { 0 };
        ModeSense10 {
            opcode: OPCODE_MODE_SENSE10,
            a: d | l,
            b: page_code | (code << 6u8),
            subpage_code,
            rsvd: [0u8; 3],
            alloc_len: swap16(alloc_len),
            control,
        }
    }

    /// Asks for all mode pages with long-LBA block descriptors, current values.
    pub fn get_block_desc(alloc_len: u16, control: u8) -> (r: Self)
        ensures
            r.opcode == OPCODE_MODE_SENSE10,
            r.a == 16,
            r.b == 0x3F,
            r.subpage_code == 0,
            r.rsvd@ == seq![0u8, 0u8, 0u8],
            r.alloc_len == spec_swap16(alloc_len),
            r.control == control,
    {
        let r = Self::new(false, true, 0x3F, ModePageControl::CurrentValues, 0x00, alloc_len, control);
        proof { crate::bits::lemma_u8_bits(); }
        proof { crate::bits::lemma_u8_bits(); }
        r
    }
}

/// The 24-bit big-endian number in `b`.
pub open spec fn u24_be(b: [u8; 3]) -> int {
    b@[0] * 65536 + b@[1] * 256 + b@[2]
}

pub fn u24_be_to_u32(u24: [u8; 3]) -> (r: u32)
    ensures
        r == u24_be(u24),
{
    let b0 = u24[0] as u32;
    let b1 = u24[1] as u32;
    let b2 = u24[2] as u32;
    proof { crate::bits::lemma_u32_bits(); }
    (b0 << 16u32) | (b1 << 8u32) | b2
}

/// Short LBA mode parameter block descriptor (8 bytes).
#[derive(Clone, Copy, Debug)]
pub struct ShortLbaModeParamBlkDesc {
    /// Big endian.
    pub block_count: u32,
    pub rsvd: u8,
    pub logical_block_len: [u8; 3],
}

impl ShortLbaModeParamBlkDesc {
    pub fn block_count(&self) -> (r: u32)
        ensures
            r == spec_swap32(self.block_count),
    {
        swap32(self.block_count)
    }

    pub fn logical_block_len(&self) -> (r: u32)
        ensures
            r == u24_be(self.logical_block_len),
    {
        u24_be_to_u32(self.logical_block_len)
    }

    pub fn from_bytes(s: &[u8], i: usize) -> (r: Self)
        requires
            i + 8 <= s@.len(),
        ensures
            r.block_count == le32(s@, i as int),
            r.rsvd == s@[i + 4],
            r.logical_block_len@ == s@.subrange(i + 5, i + 8),
    {
        assert(s@.len() == s.len());
        let r = ShortLbaModeParamBlkDesc {
            block_count: read_le32(s, i),
            rsvd: s[i + 4],
            logical_block_len: [s[i + 5], s[i + 6], s[i + 7]],
        };
        assert(r.logical_block_len@ =~= s@.subrange(i + 5, i + 8));
        r
    }
}

/// Mode parameter block descriptor for devices that are not direct-access (8 bytes).
#[derive(Clone, Copy, Debug)]
pub struct GeneralModeParamBlkDesc {
    pub density_code: u8,
    pub block_count: [u8; 3],
    pub rsvd: u8,
    pub block_length: [u8; 3],
}

impl GeneralModeParamBlkDesc {
    pub fn block_count(&self) -> (r: u32)
        ensures
            r == u24_be(self.block_count),
    {
        u24_be_to_u32(self.block_count)
    }

    pub fn logical_block_len(&self) -> (r: u32)
        ensures
            r == u24_be(self.block_length),
    {
        u24_be_to_u32(self.block_length)
    }

    pub fn from_bytes(s: &[u8], i: usize) -> (r: Self)
        requires
            i + 8 <= s@.len(),
        ensures
            r.density_code == s@[i as int],
            r.block_count@ == s@.subrange(i + 1, i + 4),
            r.rsvd == s@[i + 4],
            r.block_length@ == s@.subrange(i + 5, i + 8),
    {
        assert(s@.len() == s.len());
        let r = GeneralModeParamBlkDesc {
            density_code: s[i],
            block_count: [s[i + 1], s[i + 2], s[i + 3]],
            rsvd: s[i + 4],
            block_length: [s[i + 5], s[i + 6], s[i + 7]],
        };
        assert(r.block_count@ =~= s@.subrange(i + 1, i + 4));
        assert(r.block_length@ =~= s@.subrange(i + 5, i + 8));
        r
    }
}

/// Long LBA mode parameter block descriptor (16 bytes).
#[derive(Clone, Copy, Debug, PartialEq, Eq, Structural)]
pub struct LongLbaModeParamBlkDesc {
    /// Big endian.
    pub block_count: u64,
    pub rsvd: u32,
    /// Big endian.
    pub logical_block_len: u32,
}

impl LongLbaModeParamBlkDesc {
    pub fn block_count(&self) -> (r: u64)
        ensures
            r == spec_swap64(self.block_count),
    {
        swap64(self.block_count)
    }

    pub fn logical_block_len(&self) -> (r: u32)
        ensures
            r == spec_swap32(self.logical_block_len),
    {
        swap32(self.logical_block_len)
    }

    pub fn from_bytes(s: &[u8], i: usize) -> (r: Self)
        requires
            i + 16 <= s@.len(),
        ensures
            r.block_count == le64(s@, i as int),
            r.rsvd == le32(s@, i + 8),
            r.logical_block_len == le32(s@, i + 12),
    {
        assert(s@.len() == s.len());
        LongLbaModeParamBlkDesc {
            block_count: read_le64(s, i),
            rsvd: read_le32(s, i + 8),
            logical_block_len: read_le32(s, i + 12),
        }
    }
}

/// Mode parameter header of MODE SENSE (6).
#[derive(Clone, Copy, Debug, PartialEq, Eq, Structural)]
pub struct ModeParamHeader6 {
    pub mode_data_len: u8,
    pub medium_ty: u8,
    pub a: u8,
    pub block_desc_len: u8,
}

/// Mode parameter header of MODE SENSE (10) (8 bytes).
#[derive(Clone, Copy, Debug, PartialEq, Eq, Structural)]
pub struct ModeParamHeader10 {
    /// Big endian.
    pub mode_data_len: u16,
    pub medium_ty: u8,
    pub a: u8,
    /// LONGLBA is bit 0.
    pub b: u8,
    pub rsvd: u8,
    /// Big endian.
    pub block_desc_len: u16,
}

/// Size of the MODE SENSE (10) parameter header.
pub const MODE_PARAM_HEADER10_LEN: usize = 8;

/// `r` holds the fields of the record at the start of `s`.
pub open spec fn mode_header10_of(r: ModeParamHeader10, s: Seq<u8>) -> bool {
    &&& r.mode_data_len == le16(s, 0)
    &&& r.medium_ty == s[2]
    &&& r.a == s[3]
    &&& r.b == s[4]
    &&& r.rsvd == s[5]
    &&& r.block_desc_len == le16(s, 6)
}

impl ModeParamHeader10 {
    pub fn mode_data_len(&self) -> (r: u16)
        ensures
            r == spec_swap16(self.mode_data_len),
    {
        swap16(self.mode_data_len)
    }

    pub fn block_desc_len(&self) -> (r: u16)
        ensures
            r == spec_swap16(self.block_desc_len),
    {
        swap16(self.block_desc_len)
    }

    pub fn longlba(&self) -> (r: bool)
        ensures
            r == (self.b % 2 == 1),
    {
        let b = self.b;
        proof { crate::bits::lemma_u8_bits(); }
        (self.b & 0x01) != 0
    }

    pub fn from_bytes(s: &[u8]) -> (r: Self)
        requires
            s@.len() >= MODE_PARAM_HEADER10_LEN,
        ensures
            mode_header10_of(r, s@),
    {
        ModeParamHeader10 {
            mode_data_len: read_le16(s, 0),
            medium_ty: s[2],
            a: s[3],
            b: s[4],
            rsvd: s[5],
            block_desc_len: read_le16(s, 6),
        }
    }
}

/// The READ CAPACITY (10) command block.
#[derive(Clone, Copy, Debug)]
pub struct ReadCapacity10 {
    pub opcode: u8,
    pub rsvd1: u8,
    pub obsolete_lba: u32,
    pub rsvd2: [u8; 3],
    pub control: u8,
}

impl ReadCapacity10 {
    pub fn new(control: u8) -> (r: Self)
        ensures
            r.opcode == OPCODE_READ_CAPACITY10,
            r.rsvd1 == 0,
            r.obsolete_lba == 0,
            r.rsvd2@ == seq![0u8, 0u8, 0u8],
            r.control == control,
    {
        ReadCapacity10 { opcode: OPCODE_READ_CAPACITY10, rsvd1: 0, obsolete_lba: 0, rsvd2: [0u8; 3], control }
    }
}

/// READ CAPACITY (10) parameter data (8 bytes).
#[derive(Clone, Copy, Debug, PartialEq, Eq, Structural)]
pub struct ReadCapacity10ParamData {
    /// Big endian.
    pub max_lba: u32,
    /// Big endian.
    pub block_len: u32,
}

impl ReadCapacity10ParamData {
    pub fn block_count(&self) -> (r: u32)
        ensures
            r == spec_swap32(self.max_lba),
    {
        swap32(self.max_lba)
    }

    pub fn logical_block_len(&self) -> (r: u32)
        ensures
            r == spec_swap32(self.block_len),
    {
        swap32(self.block_len)
    }

    pub fn from_bytes(s: &[u8]) -> (r: Self)
        requires
            s@.len() >= 8,
        ensures
            r.max_lba == le32(s@, 0),
            r.block_len == le32(s@, 4),
    {
        ReadCapacity10ParamData { max_lba: read_le32(s, 0), block_len: read_le32(s, 4) }
    }
}

/// Read-write error recovery mode page (10 bytes).
#[derive(Clone, Copy, Debug)]
pub struct RwErrorRecoveryPage {
    pub a: u8,
    pub page_length: u8,
    pub b: u8,
    pub read_retry_count: u8,
    pub obsolete: [u8; 3],
    pub rsvd: u8,
    pub recovery_time_limit: u16,
}

/// Size of the read-write error recovery page.
pub const RW_ERROR_RECOVERY_PAGE_LEN: usize = 10;

impl RwErrorRecoveryPage {
    /// Reads the page from the 10 bytes of `s` that start at `i`.
    pub fn from_bytes(s: &[u8], i: usize) -> (r: Self)
        requires
            i + RW_ERROR_RECOVERY_PAGE_LEN <= s@.len(),
        ensures
            rw_page_matches(r, s@.skip(i as int)),
    {
        assert(s@.len() == s.len());
        let r = RwErrorRecoveryPage {
            a: s[i],
            page_length: s[i + 1],
            b: s[i + 2],
            read_retry_count: s[i + 3],
            obsolete: [s[i + 4], s[i + 5], s[i + 6]],
            rsvd: s[i + 7],
            recovery_time_limit: read_le16(s, i + 8),
        };
        assert(r.obsolete@ =~= s@.skip(i as int).subrange(4, 7));
        r
    }
}

/// `p` holds the first ten bytes of `s`.
pub open spec fn rw_page_matches(p: RwErrorRecoveryPage, s: Seq<u8>) -> bool {
    &&& p.a == s[0]
    &&& p.page_length == s[1]
    &&& p.b == s[2]
    &&& p.read_retry_count == s[3]
    &&& p.obsolete@ == s.subrange(4, 7)
    &&& p.rsvd == s[7]
    &&& p.recovery_time_limit == le16(s, 8)
}

/// Caching mode page (its first two bytes).
#[derive(Clone, Copy, Debug, PartialEq, Eq, Structural)]
pub struct CachingModePage {
    pub a: u8,
    pub page_length: u8,
}

/// Size of the caching mode page.
pub const CACHING_MODE_PAGE_LEN: usize = 2;

/// A mode page that the driver knows.
#[derive(Clone, Copy, Debug)]
pub enum AnyModePage {
    RwErrorRecovery(RwErrorRecoveryPage),
    Caching(CachingModePage),
}

/// The SPF bit (bit 6) of a mode page's first byte: the page is in sub-page format.
pub open spec fn spf_bit(a: u8) -> bool {
    (a / 64) % 2 == 1
}

/// Length of the page at the start of `buf`, where the page is complete and
/// in page-0 format.
pub open spec fn page_len_at(buf: Seq<u8>) -> Option<nat> {
    if buf.len() < 2 || spf_bit(buf[0]) {
        None
    } else {
        let n = (buf[1] + 1) as nat;
        if buf.len() < n {
            None
        } else {
            Some(n)
        }
    }
}

/// `page` is a page that the driver decodes: read-write error recovery
/// (code 1, at least 10 bytes) or caching (code 8, at least 2 bytes).
pub open spec fn known_page(page: Seq<u8>) -> bool {
    ||| (page[0] % 32 == 1 && page.len() >= 10)
    ||| (page[0] % 32 == 8 && page.len() >= 2)
}

/// The byte ranges of the pages that iterating over `buf` yields: pages are
/// taken one after another until the data end, a page in sub-page format, a
/// truncated page or a page the driver does not decode.
pub open spec fn mode_page_spans(buf: Seq<u8>) -> Seq<Seq<u8>>
    decreases buf.len(),
{
    match page_len_at(buf) {
        Some(n) => if known_page(buf.take(n as int)) {
            seq![buf.take(n as int)] + mode_page_spans(buf.skip(n as int))
        } else {
            Seq::empty()
        },
        None => Seq::empty(),
    }
}

/// Iterating over `buf` never meets a page in sub-page format that has only
/// its first two bytes (whose length field would be read out of bounds).
pub open spec fn mode_pages_in_bounds(buf: Seq<u8>) -> bool
    decreases buf.len(),
{
    if buf.len() == 2 && spf_bit(buf[0]) {
        false
    } else {
        match page_len_at(buf) {
            Some(n) => if known_page(buf.take(n as int)) {
                mode_pages_in_bounds(buf.skip(n as int))
            } else {
                true
            },
            None => true,
        }
    }
}

/// `p` is the decoded form of the page bytes `s`.
pub open spec fn mode_page_matches(p: AnyModePage, s: Seq<u8>) -> bool {
    match p {
        AnyModePage::RwErrorRecovery(x) => s[0] % 32 == 1 && rw_page_matches(x, s),
        AnyModePage::Caching(c) => s[0] % 32 == 8 && c.a == s[0] && c.page_length == s[1],
    }
}

/// The mode pages of `buffer`, in order, as a `for` loop over the pages sees them.
pub fn mode_page_iter(buffer: &[u8]) -> (r: Vec<AnyModePage>)
    requires
        mode_pages_in_bounds(buffer@),
    ensures
        r@.len() == mode_page_spans(buffer@).len(),
        forall|k: int| 0 <= k < r@.len() ==> mode_page_matches(#[trigger] r@[k], mode_page_spans(buffer@)[k]),
{
    let mut r: Vec<AnyModePage> = Vec::new();
    let mut pos: usize = 0;
    let ghost mut done: Seq<Seq<u8>> = Seq::empty();
    let len = buffer.len();
    assert(buffer@.skip(0) =~= buffer@);
    loop
        invariant
            len == buffer@.len(),
            pos <= len,
            mode_page_spans(buffer@) == done + mode_page_spans(buffer@.skip(pos as int)),
            mode_pages_in_bounds(buffer@.skip(pos as int)),
            r@.len() == done.len(),
            forall|k: int| 0 <= k < r@.len() ==> mode_page_matches(#[trigger] r@[k], done[k]),
        ensures
            mode_page_spans(buffer@) == done,
            r@.len() == done.len(),
            forall|k: int| 0 <= k < r@.len() ==> mode_page_matches(#[trigger] r@[k], done[k]),
        decreases len - pos,
    {
        let ghost rest = buffer@.skip(pos as int);
        let rest_len = len - pos;
        if rest_len < 2 {
            assert(done + Seq::<Seq<u8>>::empty() =~= done);
            break;
        }
        let a = buffer[pos];
        proof { crate::bits::lemma_u8_bits(); }
        assert(rest[0] == a);
        if a & 0x40 != 0 {
            assert(done + Seq::<Seq<u8>>::empty() =~= done);
            break;
        }
        let page_len: usize = buffer[pos + 1] as usize + 1;
        if rest_len < page_len {
            assert(done + Seq::<Seq<u8>>::empty() =~= done);
            break;
        }
        let code = a & 0x1F;
        proof { crate::bits::lemma_u8_bits(); }
        let ghost page = rest.take(page_len as int);
        assert(page =~= buffer@.subrange(pos as int, pos + page_len));
        if code == 1 && page_len >= RW_ERROR_RECOVERY_PAGE_LEN {
            let p = RwErrorRecoveryPage::from_bytes(buffer, pos);
            assert(buffer@.skip(pos as int).subrange(4, 7) =~= page.subrange(4, 7));
            r.push(AnyModePage::RwErrorRecovery(p));
        } else if code == 8 && page_len >= CACHING_MODE_PAGE_LEN {
            r.push(AnyModePage::Caching(CachingModePage { a, page_length: buffer[pos + 1] }));
        } else {
            assert(done + Seq::<Seq<u8>>::empty() =~= done);
            break;
        }
        proof {
            assert(rest.skip(page_len as int) =~= buffer@.skip(pos + page_len));
            assert(mode_page_spans(rest) == seq![page] + mode_page_spans(rest.skip(page_len as int)));
            done = done.push(page);
            assert(seq![page] + mode_page_spans(buffer@.skip(pos + page_len)) =~= seq![page] + mode_page_spans(rest.skip(page_len as int)));
            assert(done.take(done.len() - 1) + seq![page] =~= done);
        }
        pos = pos + page_len;
        proof {
            assert(mode_page_spans(buffer@) =~= done + mode_page_spans(buffer@.skip(pos as int)));
        }
    }
    r
}

/// A mode parameter block descriptor of one of the three formats.
#[derive(Clone, Copy, Debug)]
pub enum BlkDesc {
    Short(ShortLbaModeParamBlkDesc),
    General(GeneralModeParamBlkDesc),
    Long(LongLbaModeParamBlkDesc),
}

/// The block descriptors of a MODE SENSE reply, all of one format.
#[derive(Clone, Debug)]
pub enum BlkDescSlice {
    Short(Vec<ShortLbaModeParamBlkDesc>),
    General(Vec<GeneralModeParamBlkDesc>),
    Long(Vec<LongLbaModeParamBlkDesc>),
}

pub open spec fn blk_desc_block_size(d: BlkDesc) -> int {
    match d {
        BlkDesc::Short(s) => u24_be(s.logical_block_len),
        BlkDesc::General(g) => u24_be(g.block_length),
        BlkDesc::Long(l) => spec_swap32(l.logical_block_len),
    }
}

pub open spec fn blk_desc_block_count(d: BlkDesc) -> int {
    match d {
        BlkDesc::Short(s) => spec_swap32(s.block_count),
        BlkDesc::General(g) => u24_be(g.block_count),
        BlkDesc::Long(l) => spec_swap64(l.block_count),
    }
}

impl BlkDesc {
    pub fn block_size(&self) -> (r: u32)
        ensures
            r == blk_desc_block_size(*self),
    {
        match self {
            BlkDesc::Short(s) => s.logical_block_len(),
            BlkDesc::General(g) => g.logical_block_len(),
            BlkDesc::Long(l) => l.logical_block_len(),
        }
    }

    pub fn block_count(&self) -> (r: u64)
        ensures
            r == blk_desc_block_count(*self),
    {
        match self {
            BlkDesc::Short(s) => s.block_count() as u64,
            BlkDesc::General(g) => g.block_count() as u64,
            BlkDesc::Long(l) => l.block_count(),
        }
    }
}

impl BlkDescSlice {
    pub open spec fn spec_len(&self) -> nat {
        match self {
            BlkDescSlice::Short(v) => v@.len(),
            BlkDescSlice::General(v) => v@.len(),
            BlkDescSlice::Long(v) => v@.len(),
        }
    }

    /// The descriptor at `idx`, if there is one.
    pub fn get(&self, idx: usize) -> (r: Option<BlkDesc>)
        ensures
            r is None <==> idx >= self.spec_len(),
            r is Some ==> (match self {
                BlkDescSlice::Short(v) => r == Some(BlkDesc::Short(v@[idx as int])),
                BlkDescSlice::General(v) => r == Some(BlkDesc::General(v@[idx as int])),
                BlkDescSlice::Long(v) => r == Some(BlkDesc::Long(v@[idx as int])),
            }),
    {
        match self {
            BlkDescSlice::Short(v) => if idx < v.len() {
                Some(BlkDesc::Short(v[idx]))
            } else {
                None
            },
            BlkDescSlice::General(v) => if idx < v.len() {
                Some(BlkDesc::General(v[idx]))
            } else {
                None
            },
            BlkDescSlice::Long(v) => if idx < v.len() {
                Some(BlkDesc::Long(v[idx]))
            } else {
                None
            },
        }
    }
}

/// Why a SCSI operation failed.
#[derive(Clone, Copy, Debug)]
pub enum ScsiError {
    ProtocolError(ProtocolError),
    Overflow(&'static str),
}

/// Size of the command block buffer.
pub const COMMAND_BUFFER_LEN: usize = 16;

/// Size of the INQUIRY buffer: a header of 4 bytes and at most 255 more.
pub const INQUIRY_BUFFER_LEN: usize = 259;

/// Allocation length of the first INQUIRY, which learns the full length.
pub const MIN_INQUIRY_ALLOC_LEN: u16 = 5;

/// Length of the INQUIRY command block.
pub const INQUIRY_CMD_LEN: usize = 6;

/// The 6 bytes of the INQUIRY command for the standard data (no vital
/// product data page), with allocation length `alloc_len` big endian.
pub open spec fn inquiry_cmd_bytes(alloc_len: u16) -> Seq<u8> {
    seq![OPCODE_INQUIRY, 0u8, 0u8, (alloc_len / 256) as u8, (alloc_len % 256) as u8, 0u8]
}

/// A SCSI target behind some transport, with the buffers its commands and
/// replies go through and the geometry found for it.
pub struct Scsi {
    pub command_buffer: Vec<u8>,
    pub inquiry_buffer: Vec<u8>,
    pub data_buffer: Vec<u8>,
    pub block_size: u32,
    pub block_count: u64,
}

/// The block descriptors that `data` holds after a MODE SENSE (10) header,
/// in the format that the header and the INQUIRY data call for.
pub open spec fn blk_descs_match(r: BlkDescSlice, data: Seq<u8>, inquiry: Seq<u8>) -> bool {
    let longlba = data[4] % 2 == 1;
    let bdl = le16(data, 6);
    let len = spec_swap16(bdl as u16);
    let general = inquiry[0] % 32 != PERIPH_DEVICE_TYPE_DIRECT_ACCESS && inquiry[2] == INQUIRY_VERSION_SPC3;
    match r {
        BlkDescSlice::Long(v) => longlba && v@.len() == len / 16 && forall|k: int|
            0 <= k < v@.len() ==> {
                &&& (#[trigger] v@[k]).block_count == le64(data, 8 + 16 * k)
                &&& v@[k].rsvd == le32(data, 8 + 16 * k + 8)
                &&& v@[k].logical_block_len == le32(data, 8 + 16 * k + 12)
            },
        BlkDescSlice::General(v) => !longlba && general && v@.len() == len / 8 && forall|k: int|
            0 <= k < v@.len() ==> {
                &&& (#[trigger] v@[k]).density_code == data[8 + 8 * k]
                &&& v@[k].block_count@ == data.subrange(8 + 8 * k + 1, 8 + 8 * k + 4)
                &&& v@[k].rsvd == data[8 + 8 * k + 4]
                &&& v@[k].block_length@ == data.subrange(8 + 8 * k + 5, 8 + 8 * k + 8)
            },
        BlkDescSlice::Short(v) => !longlba && !general && v@.len() == len / 8 && forall|k: int|
            0 <= k < v@.len() ==> {
                &&& (#[trigger] v@[k]).block_count == le32(data, 8 + 8 * k)
                &&& v@[k].rsvd == data[8 + 8 * k + 4]
                &&& v@[k].logical_block_len@ == data.subrange(8 + 8 * k + 5, 8 + 8 * k + 8)
            },
    }
}

impl Scsi {
    /// A target with empty buffers and no geometry yet.
    pub fn new() -> (r: Self)
        ensures
            r.command_buffer@ == Seq::new(16, |i: int| 0u8),
            r.inquiry_buffer@ == Seq::new(259, |i: int| 0u8),
            r.data_buffer@.len() == 0,
            r.block_size == 0,
            r.block_count == 0,
    {
        let r = Scsi {
            command_buffer: vec![0u8; COMMAND_BUFFER_LEN],
            inquiry_buffer: vec![0u8; INQUIRY_BUFFER_LEN],
            data_buffer: Vec::new(),
            block_size: 0,
            block_count: 0,
        };
        assert(r.command_buffer@ =~= Seq::new(16, |i: int| 0u8));
        assert(r.inquiry_buffer@ =~= Seq::new(259, |i: int| 0u8));
        r
    }

    /// The standard INQUIRY data in the INQUIRY buffer.
    pub fn res_standard_inquiry_data(&self) -> (r: StandardInquiryData)
        requires
            self.inquiry_buffer@.len() >= STANDARD_INQUIRY_DATA_LEN,
        ensures
            inquiry_data_of(r, self.inquiry_buffer@),
    {
        StandardInquiryData::from_bytes(self.inquiry_buffer.as_slice())
    }

    /// Puts the INQUIRY command for the first `max_inquiry_len` bytes of the
    /// standard INQUIRY data at the start of the command buffer. It goes out
    /// as the first `INQUIRY_CMD_LEN` bytes of that buffer, and the reply comes
    /// into the first `max_inquiry_len` bytes of the INQUIRY buffer.
    pub fn prepare_standard_inquiry(&mut self, max_inquiry_len: u16)
        requires
            old(self).command_buffer@.len() >= INQUIRY_CMD_LEN,
            max_inquiry_len <= old(self).inquiry_buffer@.len(),
        ensures
            final(self).command_buffer@.len() == old(self).command_buffer@.len(),
            final(self).command_buffer@.take(INQUIRY_CMD_LEN as int) == inquiry_cmd_bytes(max_inquiry_len),
            final(self).command_buffer@.skip(INQUIRY_CMD_LEN as int) == old(self).command_buffer@.skip(
                INQUIRY_CMD_LEN as int,
            ),
            final(self).inquiry_buffer == old(self).inquiry_buffer,
            final(self).data_buffer == old(self).data_buffer,
            final(self).block_size == old(self).block_size,
            final(self).block_count == old(self).block_count,
    {
        let cmd = Inquiry::new(false, 0, max_inquiry_len, 0);
        proof { crate::bits::lemma_u16_bits(); }
        let len_hi = (max_inquiry_len >> 8u16) & 0xFF;
        let len_lo = max_inquiry_len % 256;
        self.command_buffer.set(0, cmd.opcode);
        self.command_buffer.set(1, cmd.evpd);
        self.command_buffer.set(2, cmd.page_code);
        self.command_buffer.set(3, len_hi as u8);
        self.command_buffer.set(4, len_lo as u8);
        self.command_buffer.set(5, cmd.control);
        assert(self.command_buffer@.take(INQUIRY_CMD_LEN as int) =~= inquiry_cmd_bytes(max_inquiry_len));
        assert(self.command_buffer@.skip(INQUIRY_CMD_LEN as int) =~= old(self).command_buffer@.skip(
            INQUIRY_CMD_LEN as int,
        ));
    }

    /// The full length of the standard INQUIRY data once the short INQUIRY
    /// was sent: `sent` is what the transport answered, and on success the
    /// header it read is in the INQUIRY buffer.
    pub fn inquiry_alloc_len_after(&self, sent: Result<(), ProtocolError>) -> (r: Result<u16, ScsiError>)
        requires
            self.inquiry_buffer@.len() >= STANDARD_INQUIRY_DATA_LEN,
        ensures
            r == (match sent {
                Ok(()) => Ok::<u16, ScsiError>((4 + self.inquiry_buffer@[4]) as u16),
                Err(e) => Err::<u16, ScsiError>(ScsiError::ProtocolError(e)),
            }),
    {
        match sent {
            Ok(()) => Ok(self.get_inquiry_alloc_len()),
            Err(e) => Err(ScsiError::ProtocolError(e)),
        }
    }

    /// The full length of the standard INQUIRY data, from the header that a
    /// short INQUIRY left in the buffer.
    pub fn get_inquiry_alloc_len(&self) -> (r: u16)
        requires
            self.inquiry_buffer@.len() >= STANDARD_INQUIRY_DATA_LEN,
        ensures
            r == 4 + self.inquiry_buffer@[4],
    {
        let d = self.res_standard_inquiry_data();
        4 + d.additional_len as u16
    }

    /// The fixed-format sense data in the data buffer.
    pub fn res_ff_sense_data(&self) -> (r: FixedFormatSenseData)
        requires
            self.data_buffer@.len() >= FIXED_FORMAT_SENSE_DATA_LEN,
        ensures
            sense_data_of(r, self.data_buffer@),
    {
        FixedFormatSenseData::from_bytes(self.data_buffer.as_slice())
    }

    /// The MODE SENSE (10) header in the data buffer.
    pub fn res_mode_param_header10(&self) -> (r: ModeParamHeader10)
        requires
            self.data_buffer@.len() >= MODE_PARAM_HEADER10_LEN,
        ensures
            mode_header10_of(r, self.data_buffer@),
    {
        ModeParamHeader10::from_bytes(self.data_buffer.as_slice())
    }

    /// The allocation length that fetches the whole MODE SENSE (10) reply:
    /// the mode data length and the two bytes of the length field itself.
    pub fn mode_sense10_alloc_len(&self) -> (r: u16)
        requires
            self.data_buffer@.len() >= MODE_PARAM_HEADER10_LEN,
            spec_swap16(le16(self.data_buffer@, 0) as u16) + 2 <= u16::MAX,
        ensures
            r == spec_swap16(le16(self.data_buffer@, 0) as u16) + 2,
    {
        self.res_mode_param_header10().mode_data_len() + 2
    }

    /// The block descriptors of the MODE SENSE (10) reply in the data buffer.
    pub fn res_blkdesc_mode10(&self) -> (r: BlkDescSlice)
        requires
            self.data_buffer@.len() >= MODE_PARAM_HEADER10_LEN + spec_swap16(
                le16(self.data_buffer@, 6) as u16,
            ),
            self.inquiry_buffer@.len() >= STANDARD_INQUIRY_DATA_LEN,
        ensures
            blk_descs_match(r, self.data_buffer@, self.inquiry_buffer@),
    {
        let header = self.res_mode_param_header10();
        let len = header.block_desc_len() as usize;
        let data = self.data_buffer.as_slice();
        if header.longlba() {
            let count = len / 16;
            let mut v: Vec<LongLbaModeParamBlkDesc> = Vec::new();
            let mut k: usize = 0;
            while k < count
                invariant
                    k <= count,
                    count == len / 16,
                    8 + len <= data@.len(),
                    v@.len() == k,
                    forall|j: int| 0 <= j < k ==> {
                        &&& (#[trigger] v@[j]).block_count == le64(data@, 8 + 16 * j)
                        &&& v@[j].rsvd == le32(data@, 8 + 16 * j + 8)
                        &&& v@[j].logical_block_len == le32(data@, 8 + 16 * j + 12)
                    },
                decreases count - k,
            {
                v.push(LongLbaModeParamBlkDesc::from_bytes(data, 8 + 16 * k));
                k = k + 1;
            }
            BlkDescSlice::Long(v)
        } else {
            let inquiry = self.res_standard_inquiry_data();
            let count = len / 8;
            if inquiry.periph_dev_ty() != PERIPH_DEVICE_TYPE_DIRECT_ACCESS && inquiry.version()
                == INQUIRY_VERSION_SPC3 {
                let mut v: Vec<GeneralModeParamBlkDesc> = Vec::new();
                let mut k: usize = 0;
                while k < count
                    invariant
                        k <= count,
                        count == len / 8,
                        8 + len <= data@.len(),
                        v@.len() == k,
                        forall|j: int| 0 <= j < k ==> {
                            &&& (#[trigger] v@[j]).density_code == data@[8 + 8 * j]
                            &&& v@[j].block_count@ == data@.subrange(8 + 8 * j + 1, 8 + 8 * j + 4)
                            &&& v@[j].rsvd == data@[8 + 8 * j + 4]
                            &&& v@[j].block_length@ == data@.subrange(8 + 8 * j + 5, 8 + 8 * j + 8)
                        },
                    decreases count - k,
                {
                    v.push(GeneralModeParamBlkDesc::from_bytes(data, 8 + 8 * k));
                    k = k + 1;
                }
                BlkDescSlice::General(v)
            } else {
                let mut v: Vec<ShortLbaModeParamBlkDesc> = Vec::new();
                let mut k: usize = 0;
                while k < count
                    invariant
                        k <= count,
                        count == len / 8,
                        8 + len <= data@.len(),
                        v@.len() == k,
                        forall|j: int| 0 <= j < k ==> {
                            &&& (#[trigger] v@[j]).block_count == le32(data@, 8 + 8 * j)
                            &&& v@[j].rsvd == data@[8 + 8 * j + 4]
                            &&& v@[j].logical_block_len@ == data@.subrange(
                                8 + 8 * j + 5,
                                8 + 8 * j + 8,
                            )
                        },
                    decreases count - k,
                {
                    v.push(ShortLbaModeParamBlkDesc::from_bytes(data, 8 + 8 * k));
                    k = k + 1;
                }
                BlkDescSlice::Short(v)
            }
        }
    }

    /// The mode pages that follow the block descriptors of the MODE SENSE (10)
    /// reply in the data buffer.
    pub fn res_mode_pages10(&self) -> (r: Vec<AnyModePage>)
        requires
            self.data_buffer@.len() >= MODE_PARAM_HEADER10_LEN + spec_swap16(
                le16(self.data_buffer@, 6) as u16,
            ),
            mode_pages_in_bounds(
                self.data_buffer@.skip(8 + spec_swap16(le16(self.data_buffer@, 6) as u16)),
            ),
        ensures
            ({
                let spans = mode_page_spans(
                    self.data_buffer@.skip(8 + spec_swap16(le16(self.data_buffer@, 6) as u16)),
                );
                &&& r@.len() == spans.len()
                &&& forall|k: int| 0 <= k < r@.len() ==> mode_page_matches(#[trigger] r@[k], spans[k])
            }),
    {
        let header = self.res_mode_param_header10();
        let start = MODE_PARAM_HEADER10_LEN + header.block_desc_len() as usize;
        let rest = copy_range(self.data_buffer.as_slice(), start, self.data_buffer.len() - start);
        assert(rest@ =~= self.data_buffer@.skip(start as int));
        mode_page_iter(rest.as_slice())
    }

    /// The READ CAPACITY (10) parameter data in the data buffer.
    pub fn res_read_capacity10(&self) -> (r: ReadCapacity10ParamData)
        requires
            self.data_buffer@.len() >= 8,
        ensures
            r.max_lba == le32(self.data_buffer@, 0),
            r.block_len == le32(self.data_buffer@, 4),
    {
        ReadCapacity10ParamData::from_bytes(self.data_buffer.as_slice())
    }

    /// Size of the disk in bytes.
    pub fn get_disk_size(&self) -> (r: u64)
        requires
            self.block_count * self.block_size <= u64::MAX,
        ensures
            r == self.block_count * self.block_size,
    {
        self.block_count * self.block_size as u64
    }

    /// The READ (16) command for as many whole blocks as fit in `buffer_len`
    /// bytes, with the number of bytes it reads.
    pub fn read_command(&self, lba: u64, buffer_len: usize) -> (r: Result<(Read16, usize), ScsiError>)
        requires
            self.block_size > 0,
        ensures
            (buffer_len as int) / (self.block_size as int) > u32::MAX <==> r is Err,
            r matches Ok((cmd, bytes)) ==> {
                &&& cmd.opcode == OPCODE_READ16
                &&& cmd.lba == spec_swap64(lba)
                &&& cmd.transfer_len == spec_swap32(
                    ((buffer_len as int) / (self.block_size as int)) as u32,
                )
                &&& cmd.control == 0
                &&& bytes == ((buffer_len as int) / (self.block_size as int)) * self.block_size
            },
            r matches Err(e) ==> e matches ScsiError::Overflow(_),
    {
        let (transfer_len, bytes) = match whole_blocks(buffer_len, self.block_size) {
            Some(x) => x,
            None => {
                return Err(ScsiError::Overflow("number of blocks to read couldn't fit inside a u32"));
            },
        };
        Ok((Read16::new(lba, transfer_len, 0), bytes))
    }

    /// The WRITE (16) command for as many whole blocks as fit in `buffer_len`
    /// bytes, with the number of bytes it writes.
    pub fn write_command(&self, lba: u64, buffer_len: usize) -> (r: Result<(Write16, usize), ScsiError>)
        requires
            self.block_size > 0,
        ensures
            (buffer_len as int) / (self.block_size as int) > u32::MAX <==> r is Err,
            r matches Ok((cmd, bytes)) ==> {
                &&& cmd.opcode == OPCODE_WRITE16
                &&& cmd.lba == spec_swap64(lba)
                &&& cmd.transfer_len == spec_swap32(((buffer_len as int) / (self.block_size as int)) as u32)
                &&& cmd.control == 0
                &&& bytes == ((buffer_len as int) / (self.block_size as int)) * self.block_size
            },
            r matches Err(e) ==> e matches ScsiError::Overflow(_),
    {
        let (transfer_len, bytes) = match whole_blocks(buffer_len, self.block_size) {
            Some(x) => x,
            None => {
                return Err(ScsiError::Overflow("number of blocks to write couldn't fit inside a u32"));
            },
        };
        Ok((Write16::new(lba, transfer_len, 0), bytes))
    }
}

/// The number of whole blocks of `block_size` bytes in `len` bytes, and
/// their size in bytes; `None` where the count does not fit in a `u32`.
pub fn whole_blocks(len: usize, block_size: u32) -> (r: Option<(u32, usize)>)
    requires
        block_size > 0,
    ensures
        r is None <==> (len as int) / (block_size as int) > u32::MAX,
        r matches Some((n, bytes)) ==> n == (len as int) / (block_size as int) && bytes == n * block_size,
{
    let blocks = len as u64 / block_size as u64;
    if blocks > u32::MAX as u64 {
        return None;
    }
    let bs = block_size as u64;
    let l = len as u64;
    assert(blocks * bs <= l) by (nonlinear_arith)
        requires
            blocks == l / bs,
            bs > 0,
    ;
    let bytes = (blocks * bs) as usize;
    Some((blocks as u32, bytes))
}

/// The geometry of a target: from its first block descriptor where the
/// MODE SENSE reply has one, else from READ CAPACITY (10).
pub fn block_geometry(first: Option<BlkDesc>, capacity: &ReadCapacity10ParamData) -> (r: (u32, u64))
    ensures
        first matches Some(d) ==> r == (blk_desc_block_size(d) as u32, blk_desc_block_count(d) as u64),
        first is None ==> r == (spec_swap32(capacity.block_len) as u32, spec_swap32(capacity.max_lba) as u64),
{
    match first {
        Some(d) => (d.block_size(), d.block_count()),
        None => (capacity.logical_block_len(), capacity.block_count() as u64),
    }
}

/// An open file of the SCSI disk scheme: the listing or the one disk.
#[derive(Clone, Copy, Debug, PartialEq, Eq, Structural)]
pub enum ScsiHandle {
    List,
    Disk,
}

/// Why the SCSI disk scheme refuses to open a path.
#[derive(Clone, Copy, Debug, PartialEq, Eq, Structural)]
pub enum ScsiOpenError {
    /// Only the superuser may open it, and a directory only to read its
    /// status.
    Access,
    /// Partitions are not served.
    NotSupported,
}

/// `s` without the slashes at its start.
pub open spec fn without_leading_slashes(s: Seq<u8>) -> Seq<u8>
    decreases s.len(),
{
    if s.len() > 0 && s[0] == 47u8 {
        without_leading_slashes(s.drop_first())
    } else {
        s
    }
}

/// Opens `path` for a caller of user id `uid` who asks for a directory
/// (`directory`) or a status (`stat`): the root is the listing, a path with
/// a `p` a partition, any other path the disk.
pub fn scsi_open(path: &[u8], directory: bool, stat: bool, uid: u32) -> (r: Result<ScsiHandle, ScsiOpenError>)
    ensures
        r == (if uid != 0 || (directory && !stat) {
            Err(ScsiOpenError::Access)
        } else if without_leading_slashes(path@).len() == 0 {
            Ok(ScsiHandle::List)
        } else if without_leading_slashes(path@).contains(112u8) {
            Err(ScsiOpenError::NotSupported)
        } else {
            Ok(ScsiHandle::Disk)
        }),
{
    if uid != 0 || (directory && !stat) {
        return Err(ScsiOpenError::Access);
    }
    let mut start: usize = 0;
    assert(path@.skip(0) =~= path@);
    while start < path.len() && path[start] == 47u8
        invariant
            start <= path@.len(),
            without_leading_slashes(path@) == without_leading_slashes(path@.skip(start as int)),
        decreases path@.len() - start,
    {
        assert(path@.skip(start as int).drop_first() =~= path@.skip(start + 1));
        start = start + 1;
    }
    let ghost t = path@.skip(start as int);
    assert(without_leading_slashes(t) == t);
    if start == path.len() {
        assert(t.len() == 0);
        return Ok(ScsiHandle::List);
    }
    let mut i: usize = start;
    while i < path.len()
        invariant
            start <= i <= path@.len(),
            start < path@.len(),
            t == path@.skip(start as int),
            without_leading_slashes(path@) == t,
            uid == 0 && !(directory && !stat),
            forall|j: int| start <= j < i ==> path@[j] != 112u8,
        decreases path@.len() - i,
    {
        if path[i] == 112u8 {
            assert(t[i - start] == 112u8);
            return Err(ScsiOpenError::NotSupported);
        }
        i = i + 1;
    }
    assert(!t.contains(112u8)) by {
        if t.contains(112u8) {
            let j = choose|j: int| 0 <= j < t.len() && t[j] == 112u8;
            assert(path@[start + j] == 112u8);
        }
    }
    Ok(ScsiHandle::Disk)
}

/// The contents of the listing: the one disk.
pub open spec fn scsi_list() -> Seq<u8> {
    seq![48u8, 10u8]
}

/// Character device mode of a status record.
pub const SCSI_MODE_CHR: u16 = 0o020000;
/// Directory mode of a status record.
pub const SCSI_MODE_DIR: u16 = 0o040000;

/// The status of a file of the SCSI disk scheme: mode and size, and for the
/// disk its block size and block count (`None`: the record keeps what it
/// held).
#[derive(Clone, Copy, Debug, PartialEq, Eq, Structural)]
pub struct ScsiStat {
    pub mode: u16,
    pub size: u64,
    pub blksize: Option<u32>,
    pub blocks: Option<u64>,
}

impl Scsi {
    /// The status of a file of the scheme.
    pub fn stat(&self, h: ScsiHandle) -> (r: ScsiStat)
        requires
            self.block_count * self.block_size <= u64::MAX,
        ensures
            r == (match h {
                ScsiHandle::Disk => ScsiStat {
                    mode: SCSI_MODE_CHR,
                    size: (self.block_count * self.block_size) as u64,
                    blksize: Some(self.block_size),
                    blocks: Some(self.block_count),
                },
                ScsiHandle::List => ScsiStat { mode: SCSI_MODE_DIR, size: 2, blksize: None, blocks: None },
            }),
    {
        match h {
            ScsiHandle::Disk => ScsiStat {
                mode: SCSI_MODE_CHR,
                size: self.get_disk_size(),
                blksize: Some(self.block_size),
                blocks: Some(self.block_count),
            },
            ScsiHandle::List => ScsiStat { mode: SCSI_MODE_DIR, size: 2, blksize: None, blocks: None },
        }
    }

    /// The first block of a disk transfer of `len` bytes at byte `offset`,
    /// which must both be whole blocks.
    pub fn transfer_lba(&self, offset: u64, len: usize) -> (r: Option<u64>)
        requires
            self.block_size > 0,
        ensures
            r == (if offset % (self.block_size as u64) != 0 || (len as u64) % (self.block_size as u64) != 0 {
                None
            } else {
                Some(offset / (self.block_size as u64))
            }),
    {
        let bs = self.block_size as u64;
        if offset % bs != 0 || (len as u64) % bs != 0 {
            return None;
        }
        Some(offset / bs)
    }
}

/// The path of a file of the SCSI disk scheme: `0` for the disk, nothing for
/// the listing.
pub open spec fn scsi_path(h: ScsiHandle) -> Seq<u8> {
    match h {
        ScsiHandle::Disk => seq![48u8],
        ScsiHandle::List => Seq::empty(),
    }
}

/// Copies as much of the file's path as fits into `buf`.
pub fn scsi_fpath(h: ScsiHandle, buf: &mut [u8]) -> (r: usize)
    ensures
        r == (if scsi_path(h).len() < old(buf)@.len() { scsi_path(h).len() } else { old(buf)@.len() }),
        final(buf)@ == scsi_path(h).take(r as int) + old(buf)@.skip(r as int),
{
    match h {
        ScsiHandle::Disk => {
            if buf.len() == 0 {
                assert(old(buf)@.skip(0) =~= old(buf)@);
                return 0;
            }
            buf[0] = 48u8;
            assert(buf@ =~= seq![48u8].take(1) + old(buf)@.skip(1));
            1
        },
        ScsiHandle::List => {
            assert(old(buf)@.skip(0) =~= old(buf)@);
            0
        },
    }
}

} // verus!
