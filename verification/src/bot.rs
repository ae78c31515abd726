//! The USB mass-storage Bulk-Only Transport: command block wrappers, command
//! status wrappers, and the decisions that the transport takes on the
//! results of its three transfer stages.

use vstd::prelude::*;
use crate::bytes::{le32, le_bytes16, le_bytes32, lemma_le32_of_bytes, push_le32, read_le32};
use crate::xhci_iface::{
    spec_endp_direction, EndpBinaryDirection, EndpDesc, EndpDirection, Invalid, PortTransferStatus,
    PortTransferStatusKind, XhciClientHandleError,
};

verus! {

/// "USBC", little endian.
pub const CBW_SIGNATURE: u32 = 0x43425355;

/// Position of the direction bit in a CBW's flags.
pub const CBW_FLAGS_DIRECTION_SHIFT: u8 = 7;

/// The direction bit of a CBW's flags: 0 is host to device, 1 device to host.
pub const CBW_FLAGS_DIRECTION_BIT: u8 = 0x80;

/// "USBS", little endian.
pub const CSW_SIGNATURE: u32 = 0x53425355;

/// The ENDPOINT_HALT feature selector.
pub const FEATURE_ENDPOINT_HALT: u16 = 0;

/// Size of a command block wrapper on the wire.
pub const CBW_LEN: usize = 31;

/// Size of a command status wrapper on the wire.
pub const CSW_LEN: usize = 13;

/// Why a transport operation failed.
#[derive(Clone, Copy, Debug)]
pub enum ProtocolError {
    TooLargeCommandBlock(usize),
    RecoveryFailed,
    ProtocolError(&'static str),
    XhciError(XhciClientHandleError),
}

/// A command block wrapper.
#[derive(Clone, Copy, Debug)]
pub struct CommandBlockWrapper {
    pub signature: u32,
    pub tag: u32,
    pub data_transfer_len: u32,
    /// The direction is bit 7; the other bits are reserved.
    pub flags: u8,
    /// Bits 7:5 are reserved.
    pub lun: u8,
    pub cb_len: u8,
    pub command_block: [u8; 16],
}

impl CommandBlockWrapper {
    /// Wraps the command block `cb`, padded with zeros to 16 bytes.
    pub fn new(tag: u32, data_transfer_len: u32, direction: EndpBinaryDirection, lun: u8, cb: &[u8]) -> (r:
        Result<Self, ProtocolError>)
        ensures
            cb@.len() > 16 <==> r is Err,
            r matches Err(e) ==> e == ProtocolError::TooLargeCommandBlock(cb@.len() as usize),
            r matches Ok(w) ==> {
                &&& w.signature == CBW_SIGNATURE
                &&& w.tag == tag
                &&& w.data_transfer_len == data_transfer_len
                &&& w.flags == (if direction == EndpBinaryDirection::In { 0x80u8 } else { 0u8 })
                &&& w.lun == lun
                &&& w.cb_len == cb@.len()
                &&& w.command_block@ == cb@ + Seq::new((16 - cb@.len()) as nat, |i: int| 0u8)
            },
    {
        let mut command_block = [0u8; 16];
        if cb.len() > 16 {
            return Err(ProtocolError::TooLargeCommandBlock(cb.len()));
        }
        let n = cb.len();
        let mut k: usize = 0;
        while k < n
            invariant
                n == cb@.len(),
                n <= 16,
                k <= n,
                command_block@.len() == 16,
                forall|j: int| 0 <= j < k ==> command_block@[j] == cb@[j],
                forall|j: int| k <= j < 16 ==> command_block@[j] == 0u8,
            decreases n - k,
        {
            command_block[k] = cb[k];
            k = k + 1;
        }
        assert(command_block@ =~= cb@ + Seq::new((16 - cb@.len()) as nat, |i: int| 0u8));
        let dir: u8 = match direction {
            EndpBinaryDirection::Out => 0,
            EndpBinaryDirection::In => 1,
        };
        assert(dir <= 1 ==> dir << 7u8 == dir * 128) by (bit_vector);
        Ok(CommandBlockWrapper {
            signature: CBW_SIGNATURE,
            tag,
            data_transfer_len,
            flags: dir << CBW_FLAGS_DIRECTION_SHIFT,
            lun,
            cb_len: n as u8,
            command_block,
        })
    }

    /// The 31 bytes of the wrapper as they go on the wire.
    pub fn to_bytes(&self) -> (r: Vec<u8>)
        ensures
            r@ == cbw_bytes(*self),
    {
        let mut r: Vec<u8> = Vec::new();
        push_le32(&mut r, self.signature);
        push_le32(&mut r, self.tag);
        push_le32(&mut r, self.data_transfer_len);
        r.push(self.flags);
        r.push(self.lun);
        r.push(self.cb_len);
        let ghost head = r@;
        let mut k: usize = 0;
        while k < 16
            invariant
                k <= 16,
                r@ == head + self.command_block@.take(k as int),
            decreases 16 - k,
        {
            r.push(self.command_block[k]);
            k = k + 1;
            assert(r@ =~= head + self.command_block@.take(k as int));
        }
        assert(self.command_block@.take(16) =~= self.command_block@);
        r
    }
}

/// The wire form of a command block wrapper.
pub open spec fn cbw_bytes(w: CommandBlockWrapper) -> Seq<u8> {
    le_bytes32(w.signature) + le_bytes32(w.tag) + le_bytes32(w.data_transfer_len) + seq![
        w.flags,
        w.lun,
        w.cb_len,
    ] + w.command_block@
}

/// The wrapper's fields on the wire: signature, tag and data length as
/// 32-bit little-endian numbers at bytes 0, 4 and 8, then the flags, the LUN,
/// the length of the command block, and the 16 bytes of the block.
pub proof fn lemma_cbw_layout(w: CommandBlockWrapper)
    requires
        w.command_block@.len() == 16,
    ensures
        cbw_bytes(w).len() == 31,
        le32(cbw_bytes(w), 0) == w.signature,
        le32(cbw_bytes(w), 4) == w.tag,
        le32(cbw_bytes(w), 8) == w.data_transfer_len,
        cbw_bytes(w)[12] == w.flags,
        cbw_bytes(w)[13] == w.lun,
        cbw_bytes(w)[14] == w.cb_len,
        cbw_bytes(w).subrange(15, 31) == w.command_block@,
        w.signature == CBW_SIGNATURE ==> cbw_bytes(w).subrange(0, 4) == seq![0x55u8, 0x53, 0x42, 0x43],
{
    let b = cbw_bytes(w);
    assert(b.subrange(0, 4) =~= le_bytes32(w.signature));
    assert(b.subrange(4, 8) =~= le_bytes32(w.tag));
    assert(b.subrange(8, 12) =~= le_bytes32(w.data_transfer_len));
    lemma_le32_of_bytes(b, 0, w.signature);
    lemma_le32_of_bytes(b, 4, w.tag);
    lemma_le32_of_bytes(b, 8, w.data_transfer_len);
    assert(b.subrange(15, 31) =~= w.command_block@);
    if w.signature == CBW_SIGNATURE {
        assert(le_bytes32(CBW_SIGNATURE) =~= le_bytes16(0x5355) + le_bytes16(0x4342));
        assert(b.subrange(0, 4) =~= seq![0x55u8, 0x53, 0x42, 0x43]);
    }
}

/// The status a device reports for a command.
#[derive(Clone, Copy, Debug, PartialEq, Eq, Structural)]
pub enum CswStatus {
    Passed,
    Failed,
    PhaseError,
}

pub open spec fn csw_status_code(s: CswStatus) -> u8 {
    match s {
        CswStatus::Passed => 0,
        CswStatus::Failed => 1,
        CswStatus::PhaseError => 2,
    }
}

/// A command status wrapper.
#[derive(Clone, Copy, Debug, PartialEq, Eq, Structural)]
pub struct CommandStatusWrapper {
    pub signature: u32,
    pub tag: u32,
    pub data_residue: u32,
    pub status: u8,
}

/// The wrapper that the 13 bytes of `s` hold.
pub open spec fn csw_of(s: Seq<u8>) -> CommandStatusWrapper {
    CommandStatusWrapper {
        signature: le32(s, 0) as u32,
        tag: le32(s, 4) as u32,
        data_residue: le32(s, 8) as u32,
        status: s[12],
    }
}

/// The wire form of a status wrapper: signature, tag and residue as 32-bit
/// little-endian numbers, then the status byte.
pub open spec fn csw_bytes(w: CommandStatusWrapper) -> Seq<u8> {
    le_bytes32(w.signature) + le_bytes32(w.tag) + le_bytes32(w.data_residue) + seq![w.status]
}

/// Reading a status wrapper from its wire form gives it back.
pub proof fn lemma_csw_round_trip(w: CommandStatusWrapper, s: Seq<u8>)
    requires
        s.len() >= 13,
        s.subrange(0, 13) == csw_bytes(w),
    ensures
        csw_of(s) == w,
{
    let b = csw_bytes(w);
    assert(s.subrange(0, 4) =~= s.subrange(0, 13).subrange(0, 4));
    assert(s.subrange(4, 8) =~= s.subrange(0, 13).subrange(4, 8));
    assert(s.subrange(8, 12) =~= s.subrange(0, 13).subrange(8, 12));
    assert(b.subrange(0, 4) =~= le_bytes32(w.signature));
    assert(b.subrange(4, 8) =~= le_bytes32(w.tag));
    assert(b.subrange(8, 12) =~= le_bytes32(w.data_residue));
    lemma_le32_of_bytes(s, 0, w.signature);
    lemma_le32_of_bytes(s, 4, w.tag);
    lemma_le32_of_bytes(s, 8, w.data_residue);
    assert(s[12] == b[12]);
}

impl CommandStatusWrapper {
    pub fn is_valid(&self) -> (r: bool)
        ensures
            r == (self.signature == CSW_SIGNATURE),
    {
        self.signature == CSW_SIGNATURE
    }

    /// Reads a wrapper from its 13 bytes.
    pub fn from_bytes(s: &[u8]) -> (r: Self)
        requires
            s@.len() >= CSW_LEN,
        ensures
            r == csw_of(s@),
    {
        CommandStatusWrapper {
            signature: read_le32(s, 0),
            tag: read_le32(s, 4),
            data_residue: read_le32(s, 8),
            status: s[12],
        }
    }
}

/// Whether the device ran a command.
#[derive(Clone, Copy, Debug, PartialEq, Eq, Structural)]
pub enum SendCommandStatusKind {
    Success,
    Failed,
}

/// The outcome of a command: whether it ran, and how many of the bytes that
/// were asked for did not move (never zero when present).
#[derive(Clone, Copy, Debug, PartialEq, Eq, Structural)]
pub struct SendCommandStatus {
    pub kind: SendCommandStatusKind,
    pub residue: Option<u32>,
}

/// `Some(x)` unless `x` is zero, as `NonZeroU32::new` does.
pub open spec fn nonzero(x: u32) -> Option<u32> {
    if x == 0 {
        None
    } else {
        Some(x)
    }
}

/// The residue that the data stage reports, from its transfer status. A
/// stalled data stage is not handled here: the transport stops on it.
pub fn data_stage_residue(status: PortTransferStatus) -> (r: Result<Option<u32>, ProtocolError>)
    requires
        status.kind != PortTransferStatusKind::Stalled,
    ensures
        status.kind == PortTransferStatusKind::Success ==> r == Ok::<Option<u32>, ProtocolError>(None),
        status.kind == PortTransferStatusKind::ShortPacket ==> r == Ok::<Option<u32>, ProtocolError>(
            nonzero(status.bytes_transferred),
        ),
        status.kind == PortTransferStatusKind::Unknown ==> r matches Err(
            ProtocolError::XhciError(XhciClientHandleError::InvalidResponse(_)),
        ),
{
    match status.kind {
        PortTransferStatusKind::Success => Ok(None),
        PortTransferStatusKind::ShortPacket => if status.bytes_transferred == 0 {
            Ok(None)
        } else {
            Ok(Some(status.bytes_transferred))
        },
        _ => Err(
            ProtocolError::XhciError(
                XhciClientHandleError::InvalidResponse(Invalid("unknown transfer status")),
            ),
        ),
    }
}

/// What the transport concludes from the status wrapper of a command.
#[derive(Clone, Copy, Debug, PartialEq, Eq, Structural)]
pub enum CswVerdict {
    /// The command ran (or failed) as reported.
    Done(SendCommandStatus),
    /// The wrapper is not valid or answers another command: the transport
    /// must go through reset recovery.
    Invalid,
    /// The device reported a phase error or a reserved status.
    PhaseError,
}

/// Judges the status wrapper `csw` of the command whose wrapper had tag
/// `cbw_tag`. A residue seen in the data stage wins over the one in `csw`.
pub fn csw_verdict(csw: &CommandStatusWrapper, cbw_tag: u32, early_residue: Option<u32>) -> (r: CswVerdict)
    ensures
        r == (if csw.signature != CSW_SIGNATURE || csw.tag != cbw_tag {
            CswVerdict::Invalid
        } else if csw.status == 0 {
            CswVerdict::Done(
                SendCommandStatus {
                    kind: SendCommandStatusKind::Success,
                    residue: if early_residue is Some { early_residue } else { nonzero(csw.data_residue) },
                },
            )
        } else if csw.status == 1 {
            CswVerdict::Done(
                SendCommandStatus {
                    kind: SendCommandStatusKind::Failed,
                    residue: if early_residue is Some { early_residue } else { nonzero(csw.data_residue) },
                },
            )
        } else {
            CswVerdict::PhaseError
        }),
{
    let residue = match early_residue {
        Some(x) => Some(x),
        None => if csw.data_residue == 0 {
            None
        } else {
            Some(csw.data_residue)
        },
    };
    if !csw.is_valid() || csw.tag != cbw_tag {
        return CswVerdict::Invalid;
    }
    if csw.status == 0 {
        CswVerdict::Done(SendCommandStatus { kind: SendCommandStatusKind::Success, residue })
    } else if csw.status == 1 {
        CswVerdict::Done(SendCommandStatus { kind: SendCommandStatusKind::Failed, residue })
    } else {
        CswVerdict::PhaseError
    }
}

/// Index of the first endpoint of `eps` with direction `d`, if any.
pub open spec fn first_with_direction(eps: Seq<EndpDesc>, d: EndpDirection) -> Option<nat>
    decreases eps.len(),
{
    if eps.len() == 0 {
        None
    } else if spec_endp_direction(eps[0]) == d {
        Some(0)
    } else {
        match first_with_direction(eps.skip(1), d) {
            Some(i) => Some(i + 1),
            None => None,
        }
    }
}

/// Position of the first endpoint of `eps` with direction `d`.
pub fn find_endpoint(eps: &[EndpDesc], d: EndpDirection) -> (r: Option<usize>)
    ensures
        r matches Some(i) ==> first_with_direction(eps@, d) == Some(i as nat) && i < eps@.len(),
        r is None ==> first_with_direction(eps@, d) is None,
{
    let mut i: usize = 0;
    assert(eps@.skip(0) =~= eps@);
    while i < eps.len()
        invariant
            i <= eps@.len(),
            first_with_direction(eps@, d) == (match first_with_direction(eps@.skip(i as int), d) {
                Some(j) => Some((j + i) as nat),
                None => None,
            }),
        decreases eps@.len() - i,
    {
        assert(eps@.skip(i as int)[0] == eps@[i as int]);
        if eps[i].direction() == d {
            return Some(i);
        }
        assert(eps@.skip(i as int).skip(1) =~= eps@.skip(i + 1));
        i = i + 1;
    }
    None
}

/// The endpoint numbers of the bulk IN and bulk OUT endpoints of an
/// interface: one more than the position of the first IN and of the first
/// OUT endpoint among its endpoints. `None` where one of them is missing.
pub fn bulk_endpoint_nums(eps: &[EndpDesc]) -> (r: Option<(u8, u8)>)
    ensures
        r matches Some((i, o)) ==> {
            &&& first_with_direction(eps@, EndpDirection::In) matches Some(a)
            &&& first_with_direction(eps@, EndpDirection::Out) matches Some(b)
            &&& i == (a + 1) % 256
            &&& o == (b + 1) % 256
        },
        r is None ==> (first_with_direction(eps@, EndpDirection::In) is None || first_with_direction(
            eps@,
            EndpDirection::Out,
        ) is None),
{
    let n = eps.len();
    let i = find_endpoint(eps, EndpDirection::In);
    let o = find_endpoint(eps, EndpDirection::Out);
    match (i, o) {
        (Some(a), Some(b)) => {
            let x = ((a % 256 + 1) % 256) as u8;
            let y = ((b % 256 + 1) % 256) as u8;
            Some((x, y))
        },
        _ => None,
    }
}

/// The transport's tag counter.
pub struct BotTag {
    pub current_tag: u32,
}

impl BotTag {
    /// Advances the counter and gives the tag of the next command.
    pub fn next_tag(&mut self) -> (r: u32)
        requires
            old(self).current_tag < u32::MAX,
        ensures
            r == old(self).current_tag + 1,
            final(self).current_tag == r,
    {
        self.current_tag = self.current_tag + 1;
        self.current_tag
    }
}

} // verus!
