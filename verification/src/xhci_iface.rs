//! The client side of the xHCI daemon's interface: endpoint descriptors as
//! the daemon reports them, device requests, endpoint states and transfer
//! results, and the requests a client sends.

use vstd::prelude::*;
use smallvec::SmallVec;
use vstd::utf8::{encode_utf8, is_ascii_chars, is_ascii_chars_encode_utf8};
use vstd::string::StringSliceAdditionalSpecFns;
use crate::port_id::PortId;

verus! {

/// Mask of the transfer type in an endpoint's attributes.
pub const ENDP_ATTR_TY_MASK: u8 = 0x03;

/// The transfer type of an endpoint.
#[derive(Clone, Copy, Debug, PartialEq, Eq, Structural)]
pub enum EndpointTy {
    Ctrl,
    Isoch,
    Bulk,
    Interrupt,
}

#[derive(Clone, Copy, Debug, PartialEq, Eq, Structural)]
pub struct SuperSpeedCmp {
    pub kind: u8,
    pub max_burst: u8,
    pub attributes: u8,
    pub bytes_per_interval: u16,
}

#[derive(Clone, Copy, Debug, PartialEq, Eq, Structural)]
pub struct SuperSpeedPlusIsochCmp {
    pub kind: u8,
    pub bytes_per_interval: u32,
}

#[derive(Clone, Copy, Debug, PartialEq, Eq, Structural)]
pub struct HidDesc {
    pub kind: u8,
    pub hid_spec_release: u16,
    pub country: u8,
    pub desc_count: u8,
    pub desc_ty: u8,
    pub desc_len: u16,
    pub optional_desc_ty: u8,
    pub optional_desc_len: u16,
}

/// The configurations of a device, in a `SmallVec` that keeps up to 1 of them
/// inline.
#[verifier::external_body]
#[derive(Debug)]
pub struct ConfDescList {
    items: SmallVec<[ConfDesc; 1]>,
}

/// What a `ConfDescList` holds, in order.
pub uninterp spec fn conf_desc_items(v: ConfDescList) -> Seq<ConfDesc>;

impl View for ConfDescList {
    type V = Seq<ConfDesc>;

    open spec fn view(&self) -> Seq<ConfDesc> {
        conf_desc_items(*self)
    }
}

impl ConfDescList {
    /// `SmallVec::from_vec`: the items of `v`, in order.
    #[verifier::external_body]
    fn wrap_vec(v: Vec<ConfDesc>) -> (r: Self)
        ensures
            conf_desc_items(r) == v@,
    {
        ConfDescList { items: SmallVec::from_vec(v) }
    }

    /// A list of the items of `v`, in order.
    pub fn from_vec(v: Vec<ConfDesc>) -> (r: Self)
        ensures
            r@ == v@,
    {
        Self::wrap_vec(v)
    }

    /// `SmallVec::as_slice`: the items, in order.
    #[verifier::external_body]
    pub fn as_slice(&self) -> (r: &[ConfDesc])
        ensures
            r@ == conf_desc_items(*self),
    {
        self.items.as_slice()
    }
}

impl Clone for ConfDescList {
    /// `SmallVec::clone`, which clones each item in order.
    #[verifier::external_body]
    fn clone(&self) -> (r: Self)
        ensures
            conf_desc_items(r).len() == conf_desc_items(*self).len(),
            forall|i: int| 0 <= i < conf_desc_items(*self).len() ==> cloned::<ConfDesc>(conf_desc_items(*self)[i], #[trigger] conf_desc_items(r)[i]),
    {
        ConfDescList { items: self.items.clone() }
    }
}

/// The interfaces of a configuration, in a `SmallVec` that keeps up to 1 of them
/// inline.
#[verifier::external_body]
#[derive(Debug)]
pub struct IfDescList {
    items: SmallVec<[IfDesc; 1]>,
}

/// What a `IfDescList` holds, in order.
pub uninterp spec fn if_desc_items(v: IfDescList) -> Seq<IfDesc>;

impl View for IfDescList {
    type V = Seq<IfDesc>;

    open spec fn view(&self) -> Seq<IfDesc> {
        if_desc_items(*self)
    }
}

impl IfDescList {
    /// `SmallVec::from_vec`: the items of `v`, in order.
    #[verifier::external_body]
    fn wrap_vec(v: Vec<IfDesc>) -> (r: Self)
        ensures
            if_desc_items(r) == v@,
    {
        IfDescList { items: SmallVec::from_vec(v) }
    }

    /// A list of the items of `v`, in order.
    pub fn from_vec(v: Vec<IfDesc>) -> (r: Self)
        ensures
            r@ == v@,
    {
        Self::wrap_vec(v)
    }

    /// `SmallVec::as_slice`: the items, in order.
    #[verifier::external_body]
    pub fn as_slice(&self) -> (r: &[IfDesc])
        ensures
            r@ == if_desc_items(*self),
    {
        self.items.as_slice()
    }
}

impl Clone for IfDescList {
    /// `SmallVec::clone`, which clones each item in order.
    #[verifier::external_body]
    fn clone(&self) -> (r: Self)
        ensures
            if_desc_items(r).len() == if_desc_items(*self).len(),
            forall|i: int| 0 <= i < if_desc_items(*self).len() ==> cloned::<IfDesc>(if_desc_items(*self)[i], #[trigger] if_desc_items(r)[i]),
    {
        IfDescList { items: self.items.clone() }
    }
}

/// The endpoints of an interface, in a `SmallVec` that keeps up to 4 of them
/// inline.
#[verifier::external_body]
#[derive(Debug)]
pub struct EndpDescList {
    items: SmallVec<[EndpDesc; 4]>,
}

/// What a `EndpDescList` holds, in order.
pub uninterp spec fn endp_desc_items(v: EndpDescList) -> Seq<EndpDesc>;

impl View for EndpDescList {
    type V = Seq<EndpDesc>;

    open spec fn view(&self) -> Seq<EndpDesc> {
        endp_desc_items(*self)
    }
}

impl EndpDescList {
    /// `SmallVec::from_vec`: the items of `v`, in order.
    #[verifier::external_body]
    fn wrap_vec(v: Vec<EndpDesc>) -> (r: Self)
        ensures
            endp_desc_items(r) == v@,
    {
        EndpDescList { items: SmallVec::from_vec(v) }
    }

    /// A list of the items of `v`, in order.
    pub fn from_vec(v: Vec<EndpDesc>) -> (r: Self)
        ensures
            r@ == v@,
    {
        Self::wrap_vec(v)
    }

    /// `SmallVec::as_slice`: the items, in order.
    #[verifier::external_body]
    pub fn as_slice(&self) -> (r: &[EndpDesc])
        ensures
            r@ == endp_desc_items(*self),
    {
        self.items.as_slice()
    }
}

impl Clone for EndpDescList {
    /// `SmallVec::clone`, which copies each item; the items are the same.
    #[verifier::external_body]
    fn clone(&self) -> (r: Self)
        ensures
            endp_desc_items(r) == endp_desc_items(*self),
    {
        EndpDescList { items: self.items.clone() }
    }
}

/// The HID descriptors of an interface, in a `SmallVec` that keeps up to 1 of them
/// inline.
#[verifier::external_body]
#[derive(Debug)]
pub struct HidDescList {
    items: SmallVec<[HidDesc; 1]>,
}

/// What a `HidDescList` holds, in order.
pub uninterp spec fn hid_desc_items(v: HidDescList) -> Seq<HidDesc>;

impl View for HidDescList {
    type V = Seq<HidDesc>;

    open spec fn view(&self) -> Seq<HidDesc> {
        hid_desc_items(*self)
    }
}

impl HidDescList {
    /// `SmallVec::from_vec`: the items of `v`, in order.
    #[verifier::external_body]
    fn wrap_vec(v: Vec<HidDesc>) -> (r: Self)
        ensures
            hid_desc_items(r) == v@,
    {
        HidDescList { items: SmallVec::from_vec(v) }
    }

    /// A list of the items of `v`, in order.
    pub fn from_vec(v: Vec<HidDesc>) -> (r: Self)
        ensures
            r@ == v@,
    {
        Self::wrap_vec(v)
    }

    /// `SmallVec::as_slice`: the items, in order.
    #[verifier::external_body]
    pub fn as_slice(&self) -> (r: &[HidDesc])
        ensures
            r@ == hid_desc_items(*self),
    {
        self.items.as_slice()
    }
}

impl Clone for HidDescList {
    /// `SmallVec::clone`, which copies each item; the items are the same.
    #[verifier::external_body]
    fn clone(&self) -> (r: Self)
        ensures
            hid_desc_items(r) == hid_desc_items(*self),
    {
        HidDescList { items: self.items.clone() }
    }
}

/// A device's descriptors as the daemon hands them to class drivers: the
/// device descriptor, its strings, and its configurations.
#[derive(Clone, Debug)]
pub struct DevDesc {
    pub kind: u8,
    pub usb: u16,
    pub class: u8,
    pub sub_class: u8,
    pub protocol: u8,
    pub packet_size: u8,
    pub vendor: u16,
    pub product: u16,
    pub release: u16,
    pub manufacturer_str: Option<String>,
    pub product_str: Option<String>,
    pub serial_str: Option<String>,
    pub config_descs: ConfDescList,
}

impl DevDesc {
    /// The major USB version, the high byte of `bcdUSB`.
    pub fn major_version(&self) -> (r: u8)
        ensures
            r == self.usb / 256,
    {
        proof { crate::bits::lemma_u16_bits(); }
        ((self.usb >> 8u16) & 0xFF) as u8
    }

    /// The minor USB version, the low byte of `bcdUSB`.
    pub fn minor_version(&self) -> (r: u8)
        ensures
            r == self.usb % 256,
    {
        (self.usb % 256) as u8
    }
}

/// A configuration with its interfaces.
#[derive(Clone, Debug)]
pub struct ConfDesc {
    pub kind: u8,
    pub configuration_value: u8,
    pub configuration: Option<String>,
    pub attributes: u8,
    pub max_power: u8,
    pub interface_descs: IfDescList,
}

/// An interface with its endpoints and HID descriptors.
#[derive(Clone, Debug)]
pub struct IfDesc {
    pub kind: u8,
    pub number: u8,
    pub alternate_setting: u8,
    pub class: u8,
    pub sub_class: u8,
    pub protocol: u8,
    pub interface_str: Option<String>,
    pub endpoints: EndpDescList,
    pub hid_descs: HidDescList,
}

/// An endpoint descriptor with its SuperSpeed companions.
#[derive(Clone, Copy, Debug, PartialEq, Eq, Structural)]
pub struct EndpDesc {
    pub kind: u8,
    pub address: u8,
    pub attributes: u8,
    pub max_packet_size: u16,
    pub interval: u8,
    pub ssc: Option<SuperSpeedCmp>,
    pub sspc: Option<SuperSpeedPlusIsochCmp>,
}

#[derive(Clone, Copy, Debug, PartialEq, Eq, Structural)]
pub enum EndpDirection {
    Out,
    In,
    Bidirectional,
}

#[derive(Clone, Copy, Debug, PartialEq, Eq, Structural)]
pub enum EndpBinaryDirection {
    Out,
    In,
}

pub open spec fn spec_endp_ty(attributes: u8) -> EndpointTy {
    let t = attributes % 4;
    if t == 0 {
        EndpointTy::Ctrl
    } else if t == 1 {
        EndpointTy::Isoch
    } else if t == 2 {
        EndpointTy::Bulk
    } else {
        EndpointTy::Interrupt
    }
}

pub open spec fn spec_endp_direction(d: EndpDesc) -> EndpDirection {
    if spec_endp_ty(d.attributes) == EndpointTy::Ctrl {
        EndpDirection::Bidirectional
    } else if d.address >= 0x80 {
        EndpDirection::In
    } else {
        EndpDirection::Out
    }
}

/// The endpoint type of the xHCI endpoint context (xHCI table 6-9).
pub open spec fn xhci_ep_type_of(d: EndpDesc) -> u8 {
    match (spec_endp_direction(d), spec_endp_ty(d.attributes)) {
        (EndpDirection::Out, EndpointTy::Isoch) => 1u8,
        (EndpDirection::Out, EndpointTy::Bulk) => 2u8,
        (EndpDirection::Out, EndpointTy::Interrupt) => 3u8,
        (EndpDirection::In, EndpointTy::Isoch) => 5u8,
        (EndpDirection::In, EndpointTy::Bulk) => 6u8,
        (EndpDirection::In, EndpointTy::Interrupt) => 7u8,
        _ => 4u8,
    }
}

/// The xHCI endpoint type is the USB transfer type of the attributes' low
/// two bits (isochronous 1, bulk 2, interrupt 3), plus 4 for IN endpoints;
/// control endpoints are type 4.
pub proof fn lemma_xhci_ep_type_formula(d: EndpDesc)
    ensures
        xhci_ep_type_of(d) == (if d.attributes % 4 == 0 {
            4
        } else {
            d.attributes % 4 + (if d.address >= 0x80 { 4int } else { 0 })
        }),
{
}

impl EndpDesc {
    /// The transfer type, from the low two bits of the attributes.
    pub fn ty(self) -> (r: EndpointTy)
        ensures
            r == spec_endp_ty(self.attributes),
    {
        let a = self.attributes;
        let t = a & ENDP_ATTR_TY_MASK;
        proof { crate::bits::lemma_u8_bits(); }
        if t == 0 {
            EndpointTy::Ctrl
        } else if t == 1 {
            EndpointTy::Isoch
        } else if t == 2 {
            EndpointTy::Bulk
        } else {
            EndpointTy::Interrupt
        }
    }

    pub fn is_control(&self) -> (r: bool)
        ensures
            r == (spec_endp_ty(self.attributes) == EndpointTy::Ctrl),
    {
        self.ty() == EndpointTy::Ctrl
    }

    pub fn is_interrupt(&self) -> (r: bool)
        ensures
            r == (spec_endp_ty(self.attributes) == EndpointTy::Interrupt),
    {
        self.ty() == EndpointTy::Interrupt
    }

    pub fn is_bulk(&self) -> (r: bool)
        ensures
            r == (spec_endp_ty(self.attributes) == EndpointTy::Bulk),
    {
        self.ty() == EndpointTy::Bulk
    }

    pub fn is_isoch(&self) -> (r: bool)
        ensures
            r == (spec_endp_ty(self.attributes) == EndpointTy::Isoch),
    {
        self.ty() == EndpointTy::Isoch
    }

    /// Control endpoints go both ways; the others go the way bit 7 of the
    /// address says.
    pub fn direction(&self) -> (r: EndpDirection)
        ensures
            r == spec_endp_direction(*self),
    {
        if self.is_control() {
            return EndpDirection::Bidirectional;
        }
        let addr = self.address;
        proof { crate::bits::lemma_u8_bits(); }
        if addr & 0x80 != 0 {
            EndpDirection::In
        } else {
            EndpDirection::Out
        }
    }

    /// The endpoint type code of the xHCI endpoint context (xHCI table 6-9).
    pub fn xhci_ep_type(&self) -> (r: Option<u8>)
        ensures
            r == Some(xhci_ep_type_of(*self)),
    {
        let dir = self.direction();
        let ty = self.ty();
        match dir {
            EndpDirection::Out => match ty {
                EndpointTy::Isoch => Some(1),
                EndpointTy::Bulk => Some(2),
                EndpointTy::Interrupt => Some(3),
                EndpointTy::Ctrl => None,
            },
            EndpDirection::In => match ty {
                EndpointTy::Isoch => Some(5),
                EndpointTy::Bulk => Some(6),
                EndpointTy::Interrupt => Some(7),
                EndpointTy::Ctrl => None,
            },
            EndpDirection::Bidirectional => Some(4),
        }
    }

    pub fn is_superspeed(&self) -> (r: bool)
        ensures
            r == self.ssc.is_some(),
    {
        self.ssc.is_some()
    }

    pub fn is_superspeedplus(&self) -> (r: bool)
        ensures
            r == self.sspc.is_some(),
    {
        self.sspc.is_some()
    }

    /// The usage bits (bits 5:4) of an interrupt endpoint's attributes, as the
    /// driver takes them: bit 5 only, shifted to bit 1.
    pub fn interrupt_usage_bits(&self) -> (r: u8)
        requires
            spec_endp_ty(self.attributes) == EndpointTy::Interrupt,
        ensures
            r == (if self.attributes & 0x20u8 != 0 { 2u8 } else { 0u8 }),
    {
        let a = self.attributes;
        assert((a & 0x20u8) >> 4u8 == (if a & 0x20u8 != 0 { 2u8 } else { 0u8 })) by (bit_vector);
        (a & 0x20) >> 4
    }

    /// Interrupt endpoints with periodic usage and isochronous endpoints.
    pub fn is_periodic(&self) -> (r: bool)
        ensures
            r == (if spec_endp_ty(self.attributes) == EndpointTy::Interrupt {
                self.attributes & 0x20u8 == 0
            } else {
                spec_endp_ty(self.attributes) == EndpointTy::Isoch
            }),
    {
        if self.is_interrupt() {
            self.interrupt_usage_bits() == 0
        } else {
            self.is_isoch()
        }
    }

    /// Base-2 log of the number of streams of a SuperSpeed bulk endpoint;
    /// `None` when zero or not applicable.
    pub fn log_max_streams(&self) -> (r: Option<u8>)
        ensures
            r == (match self.ssc {
                Some(ssc) => if spec_endp_ty(self.attributes) == EndpointTy::Bulk && ssc.attributes
                    % 32 != 0 {
                    Some((ssc.attributes % 32) as u8)
                } else {
                    None
                },
                None => None,
            }),
    {
        match self.ssc {
            Some(ssc) => {
                if self.is_bulk() {
                    let a = ssc.attributes;
                    let raw = a & 0x1F;
                    proof { crate::bits::lemma_u8_bits(); }
                    if raw != 0 {
                        Some(raw)
                    } else {
                        None
                    }
                } else {
                    None
                }
            },
            None => None,
        }
    }

    /// The Mult field of an isochronous endpoint without the large ESIT
    /// payload capability; zero otherwise.
    pub fn isoch_mult(&self, lec: bool) -> (r: u8)
        ensures
            r == (if !lec && spec_endp_ty(self.attributes) == EndpointTy::Isoch && self.sspc is None {
                match self.ssc {
                    Some(ssc) => (ssc.attributes % 4) as u8,
                    None => 0u8,
                }
            } else {
                0u8
            }),
    {
        if !lec && self.is_isoch() {
            if self.is_superspeedplus() {
                return 0;
            }
            match self.ssc {
                Some(ssc) => {
                    let a = ssc.attributes;
                    proof { crate::bits::lemma_u8_bits(); }
                    a & 0x3
                },
                None => 0,
            }
        } else {
            0
        }
    }

    pub fn max_burst(&self) -> (r: u8)
        ensures
            r == (match self.ssc {
                Some(ssc) => ssc.max_burst,
                None => 0u8,
            }),
    {
        match self.ssc {
            Some(ssc) => ssc.max_burst,
            None => 0,
        }
    }

    pub fn has_ssp_companion(&self) -> (r: bool)
        ensures
            r == (match self.ssc {
                Some(ssc) => ssc.attributes >= 0x80,
                None => false,
            }),
    {
        match self.ssc {
            Some(ssc) => {
                let a = ssc.attributes;
                proof { crate::bits::lemma_u8_bits(); }
                a & 0x80 != 0
            },
            None => false,
        }
    }
}

#[derive(Clone, Copy, Debug, PartialEq, Eq, Structural)]
pub enum PortReqDirection {
    HostToDevice,
    DeviceToHost,
}

#[derive(Clone, Copy, Debug, PartialEq, Eq, Structural)]
pub enum PortReqTy {
    Class,
    Vendor,
    Standard,
}

#[derive(Clone, Copy, Debug, PartialEq, Eq, Structural)]
pub enum PortReqRecipient {
    Device,
    Interface,
    Endpoint,
    Other,
    VendorSpecific,
}

/// A device request that a client asks the daemon to send on the default
/// control endpoint.
#[derive(Clone, Copy, Debug, PartialEq, Eq, Structural)]
pub struct PortReq {
    pub direction: PortReqDirection,
    pub req_type: PortReqTy,
    pub req_recipient: PortReqRecipient,
    pub request: u8,
    pub value: u16,
    pub index: u16,
    pub length: u16,
    pub transfers_data: bool,
}

/// The direction implied by a binary direction.
pub fn endp_direction_from_binary(b: EndpBinaryDirection) -> (r: EndpDirection)
    ensures
        r == (match b {
            EndpBinaryDirection::In => EndpDirection::In,
            EndpBinaryDirection::Out => EndpDirection::Out,
        }),
{
    match b {
        EndpBinaryDirection::In => EndpDirection::In,
        EndpBinaryDirection::Out => EndpDirection::Out,
    }
}

/// The endpoint direction a request direction stands for.
pub fn binary_direction_from_req(d: PortReqDirection) -> (r: EndpBinaryDirection)
    ensures
        r == (match d {
            PortReqDirection::DeviceToHost => EndpBinaryDirection::In,
            PortReqDirection::HostToDevice => EndpBinaryDirection::Out,
        }),
{
    match d {
        PortReqDirection::DeviceToHost => EndpBinaryDirection::In,
        PortReqDirection::HostToDevice => EndpBinaryDirection::Out,
    }
}

/// An input or response that the daemon's interface did not expect, with
/// what was wrong with it.
#[derive(Clone, Copy, Debug)]
pub struct Invalid(pub &'static str);

/// What can go wrong when a client talks to the daemon, as far as the
/// client's own logic decides it.
#[derive(Clone, Copy, Debug)]
pub enum XhciClientHandleError {
    InvalidResponse(Invalid),
    TransferBufTooLarge(usize),
    UnexpectedShortPacket(usize),
}

#[derive(Clone, Copy, Debug, PartialEq, Eq, Structural)]
pub enum EndpointStatus {
    Disabled,
    Enabled,
    Halted,
    Stopped,
    Error,
}

#[derive(Clone, Copy, Debug, PartialEq, Eq, Structural)]
pub enum PortTransferStatusKind {
    Success,
    ShortPacket,
    Stalled,
    Unknown,
}

#[derive(Clone, Copy, Debug, PartialEq, Eq, Structural)]
pub struct PortTransferStatus {
    pub kind: PortTransferStatusKind,
    pub bytes_transferred: u32,
}

impl Default for PortTransferStatus {
    fn default() -> (r: Self)
        ensures
            r == (PortTransferStatus { kind: PortTransferStatusKind::Success, bytes_transferred: 0 }),
    {
        PortTransferStatus { kind: PortTransferStatusKind::Success, bytes_transferred: 0 }
    }
}

pub open spec fn endpoint_status_text(s: EndpointStatus) -> Seq<char> {
    match s {
        EndpointStatus::Disabled => "disabled"@,
        EndpointStatus::Enabled => "enabled"@,
        EndpointStatus::Halted => "halted"@,
        EndpointStatus::Stopped => "stopped"@,
        EndpointStatus::Error => "error"@,
    }
}

impl EndpointStatus {
    /// The name of the state, as the daemon writes it.
    pub fn as_str(&self) -> (r: &'static str)
        ensures
            r@ == endpoint_status_text(*self),
    {
        match self {
            EndpointStatus::Disabled => "disabled",
            EndpointStatus::Enabled => "enabled",
            EndpointStatus::Halted => "halted",
            EndpointStatus::Stopped => "stopped",
            EndpointStatus::Error => "error",
        }
    }
}

/// The data stage of a device request: a buffer to fill, a buffer to send,
/// or none.
pub enum DeviceReqData<'a> {
    In(&'a mut [u8]),
    Out(&'a [u8]),
    NoData,
}

impl<'a> DeviceReqData<'a> {
    pub fn len(&self) -> (r: usize)
        ensures
            r == (match self {
                DeviceReqData::In(b) => b@.len(),
                DeviceReqData::Out(b) => b@.len(),
                DeviceReqData::NoData => 0,
            }),
    {
        match self {
            DeviceReqData::In(buf) => buf.len(),
            DeviceReqData::Out(buf) => buf.len(),
            DeviceReqData::NoData => 0,
        }
    }

    pub fn is_empty(&self) -> (r: bool)
        ensures
            r == (match self {
                DeviceReqData::In(b) => b@.len() == 0,
                DeviceReqData::Out(b) => b@.len() == 0,
                DeviceReqData::NoData => true,
            }),
    {
        self.len() == 0
    }

    /// `f` applied to the buffer of the data stage, where there is one.
    pub fn map_buf<T, F: Fn(&[u8]) -> T>(&self, f: F) -> (r: Option<T>)
        requires
            match self {
                DeviceReqData::In(b) => f.requires((&**b,)),
                DeviceReqData::Out(b) => f.requires((*b,)),
                DeviceReqData::NoData => true,
            },
        ensures
            match self {
                DeviceReqData::In(b) => r matches Some(v) && f.ensures((&**b,), v),
                DeviceReqData::Out(b) => r matches Some(v) && f.ensures((*b,), v),
                DeviceReqData::NoData => r is None,
            },
    {
        match self {
            DeviceReqData::In(sbuf) => Some(f(sbuf)),
            DeviceReqData::Out(dbuf) => Some(f(dbuf)),
            DeviceReqData::NoData => None,
        }
    }

    /// Host to device unless data come in.
    pub fn direction(&self) -> (r: PortReqDirection)
        ensures
            r == (match self {
                DeviceReqData::In(_) => PortReqDirection::DeviceToHost,
                _ => PortReqDirection::HostToDevice,
            }),
    {
        match self {
            DeviceReqData::Out(_) => PortReqDirection::HostToDevice,
            DeviceReqData::NoData => PortReqDirection::HostToDevice,
            DeviceReqData::In(_) => PortReqDirection::DeviceToHost,
        }
    }
}

/// Whether `a` and `b` hold the same bytes.
pub fn bytes_eq(a: &[u8], b: &[u8]) -> (r: bool)
    ensures
        r == (a@ == b@),
{
    if a.len() != b.len() {
        return false;
    }
    let mut i: usize = 0;
    while i < a.len()
        invariant
            a@.len() == b@.len(),
            i <= a@.len(),
            forall|j: int| 0 <= j < i ==> a@[j] == b@[j],
        decreases a@.len() - i,
    {
        if a[i] != b[i] {
            return false;
        }
        i = i + 1;
    }
    assert(a@ =~= b@);
    true
}

/// The state of a port's device, as the daemon reports it.
#[derive(Clone, Copy, Debug, PartialEq, Eq, Hash, Structural)]
pub enum PortState {
    EnabledOrDisabled,
    Default,
    Addressed,
    Configured,
}

pub open spec fn port_state_text(s: PortState) -> Seq<char> {
    match s {
        PortState::EnabledOrDisabled => "enabled_or_disabled"@,
        PortState::Default => "default"@,
        PortState::Addressed => "addressed"@,
        PortState::Configured => "configured"@,
    }
}

/// The ASCII bytes of "enabled_or_disabled".
pub open spec fn text_enabled_or_disabled() -> Seq<u8> {
    seq![101u8, 110, 97, 98, 108, 101, 100, 95, 111, 114, 95, 100, 105, 115, 97, 98, 108, 101, 100]
}

/// The ASCII bytes of "enabled/disabled".
pub open spec fn text_enabled_slash_disabled() -> Seq<u8> {
    seq![101u8, 110, 97, 98, 108, 101, 100, 47, 100, 105, 115, 97, 98, 108, 101, 100]
}

/// The ASCII bytes of "default".
pub open spec fn text_default() -> Seq<u8> {
    seq![100u8, 101, 102, 97, 117, 108, 116]
}

/// The ASCII bytes of "addressed".
pub open spec fn text_addressed() -> Seq<u8> {
    seq![97u8, 100, 100, 114, 101, 115, 115, 101, 100]
}

/// The ASCII bytes of "configured".
pub open spec fn text_configured() -> Seq<u8> {
    seq![99u8, 111, 110, 102, 105, 103, 117, 114, 101, 100]
}

/// The bytes of each port state's name.
pub open spec fn port_state_bytes(s: PortState) -> Seq<u8> {
    match s {
        PortState::EnabledOrDisabled => text_enabled_or_disabled(),
        PortState::Default => text_default(),
        PortState::Addressed => text_addressed(),
        PortState::Configured => text_configured(),
    }
}

/// The port state a name stands for; the older name "enabled/disabled" is
/// accepted too.
pub open spec fn spec_parse_port_state(t: Seq<u8>) -> Result<PortState, Invalid> {
    if t == text_enabled_or_disabled() || t == text_enabled_slash_disabled() {
        Ok(PortState::EnabledOrDisabled)
    } else if t == text_default() {
        Ok(PortState::Default)
    } else if t == text_addressed() {
        Ok(PortState::Addressed)
    } else if t == text_configured() {
        Ok(PortState::Configured)
    } else {
        Err(Invalid("read reserved port state"))
    }
}

impl PortState {
    pub fn as_str(&self) -> (r: &'static str)
        ensures
            r@ == port_state_text(*self),
    {
        match self {
            PortState::EnabledOrDisabled => "enabled_or_disabled",
            PortState::Default => "default",
            PortState::Addressed => "addressed",
            PortState::Configured => "configured",
        }
    }

    /// The bytes of the state's name.
    pub fn as_bytes(&self) -> (r: Vec<u8>)
        ensures
            r@ == port_state_bytes(*self),
    {
        let r = match self {
            PortState::EnabledOrDisabled => vec![101u8, 110, 97, 98, 108, 101, 100, 95, 111, 114, 95, 100, 105, 115, 97, 98, 108, 101, 100],
            PortState::Default => vec![100u8, 101, 102, 97, 117, 108, 116],
            PortState::Addressed => vec![97u8, 100, 100, 114, 101, 115, 115, 101, 100],
            PortState::Configured => vec![99u8, 111, 110, 102, 105, 103, 117, 114, 101, 100],
        };
        assert(r@ =~= port_state_bytes(*self));
        r
    }

    /// Parses a state name, as the daemon's state file holds it.
    pub fn from_str(s: &str) -> (r: Result<Self, Invalid>)
        ensures
            match spec_parse_port_state(s.spec_bytes()) {
                Ok(x) => r matches Ok(y) && y == x,
                Err(_) => r is Err,
            },
    {
        parse_port_state(s.as_bytes())
    }
}

/// Parses a state name given as bytes.
pub fn parse_port_state(t: &[u8]) -> (r: Result<PortState, Invalid>)
    ensures
        match spec_parse_port_state(t@) {
            Ok(x) => r matches Ok(y) && y == x,
            Err(_) => r is Err,
        },
{
    let a = vec![101u8, 110, 97, 98, 108, 101, 100, 95, 111, 114, 95, 100, 105, 115, 97, 98, 108, 101, 100];
    let b = vec![101u8, 110, 97, 98, 108, 101, 100, 47, 100, 105, 115, 97, 98, 108, 101, 100];
    let c = vec![100u8, 101, 102, 97, 117, 108, 116];
    let d = vec![97u8, 100, 100, 114, 101, 115, 115, 101, 100];
    let e = vec![99u8, 111, 110, 102, 105, 103, 117, 114, 101, 100];
    assert(a@ =~= text_enabled_or_disabled());
    assert(b@ =~= text_enabled_slash_disabled());
    assert(c@ =~= text_default());
    assert(d@ =~= text_addressed());
    assert(e@ =~= text_configured());
    if bytes_eq(t, a.as_slice()) || bytes_eq(t, b.as_slice()) {
        Ok(PortState::EnabledOrDisabled)
    } else if bytes_eq(t, c.as_slice()) {
        Ok(PortState::Default)
    } else if bytes_eq(t, d.as_slice()) {
        Ok(PortState::Addressed)
    } else if bytes_eq(t, e.as_slice()) {
        Ok(PortState::Configured)
    } else {
        Err(Invalid("read reserved port state"))
    }
}

/// Reading back the name of a port state gives the state.
pub proof fn lemma_port_state_name_roundtrip(s: PortState)
    ensures
        spec_parse_port_state(port_state_bytes(s)) == Ok::<PortState, Invalid>(s),
{
    assert(text_default() != text_enabled_or_disabled());
    assert(text_default() != text_enabled_slash_disabled());
    assert(text_addressed() != text_enabled_or_disabled());
    assert(text_addressed() != text_enabled_slash_disabled());
    assert(text_addressed() != text_default());
    assert(text_configured() != text_enabled_or_disabled());
    assert(text_configured() != text_enabled_slash_disabled());
    assert(text_configured() != text_default());
    assert(text_configured() != text_addressed());
}

/// The bytes of each endpoint state's name.
pub open spec fn endpoint_status_bytes(s: EndpointStatus) -> Seq<u8> {
    match s {
        EndpointStatus::Disabled => seq![100u8, 105, 115, 97, 98, 108, 101, 100],
        EndpointStatus::Enabled => seq![101u8, 110, 97, 98, 108, 101, 100],
        EndpointStatus::Halted => seq![104u8, 97, 108, 116, 101, 100],
        EndpointStatus::Stopped => seq![115u8, 116, 111, 112, 112, 101, 100],
        EndpointStatus::Error => seq![101u8, 114, 114, 111, 114],
    }
}

/// The endpoint state a name stands for.
pub open spec fn spec_parse_endpoint_status(t: Seq<u8>) -> Option<EndpointStatus> {
    if t == endpoint_status_bytes(EndpointStatus::Disabled) {
        Some(EndpointStatus::Disabled)
    } else if t == endpoint_status_bytes(EndpointStatus::Enabled) {
        Some(EndpointStatus::Enabled)
    } else if t == endpoint_status_bytes(EndpointStatus::Halted) {
        Some(EndpointStatus::Halted)
    } else if t == endpoint_status_bytes(EndpointStatus::Stopped) {
        Some(EndpointStatus::Stopped)
    } else if t == endpoint_status_bytes(EndpointStatus::Error) {
        Some(EndpointStatus::Error)
    } else {
        None
    }
}

impl EndpointStatus {
    /// Parses an endpoint state name.
    pub fn from_str(s: &str) -> (r: Result<Self, Invalid>)
        ensures
            match spec_parse_endpoint_status(s.spec_bytes()) {
                Some(x) => r matches Ok(y) && y == x,
                None => r is Err,
            },
    {
        let t = s.as_bytes();
        let names = [
            vec![100u8, 105, 115, 97, 98, 108, 101, 100],
            vec![101u8, 110, 97, 98, 108, 101, 100],
            vec![104u8, 97, 108, 116, 101, 100],
            vec![115u8, 116, 111, 112, 112, 101, 100],
            vec![101u8, 114, 114, 111, 114],
        ];
        assert(names[0]@ =~= endpoint_status_bytes(EndpointStatus::Disabled));
        assert(names[1]@ =~= endpoint_status_bytes(EndpointStatus::Enabled));
        assert(names[2]@ =~= endpoint_status_bytes(EndpointStatus::Halted));
        assert(names[3]@ =~= endpoint_status_bytes(EndpointStatus::Stopped));
        assert(names[4]@ =~= endpoint_status_bytes(EndpointStatus::Error));
        if bytes_eq(t, names[0].as_slice()) {
            Ok(EndpointStatus::Disabled)
        } else if bytes_eq(t, names[1].as_slice()) {
            Ok(EndpointStatus::Enabled)
        } else if bytes_eq(t, names[2].as_slice()) {
            Ok(EndpointStatus::Halted)
        } else if bytes_eq(t, names[3].as_slice()) {
            Ok(EndpointStatus::Stopped)
        } else if bytes_eq(t, names[4].as_slice()) {
            Ok(EndpointStatus::Error)
        } else {
            Err(Invalid("read reserved endpoint state"))
        }
    }
}

/// Reading back the name of an endpoint state gives the state.
pub proof fn lemma_endpoint_status_name_roundtrip(s: EndpointStatus)
    ensures
        spec_parse_endpoint_status(endpoint_status_bytes(s)) == Some(s),
{
    let d = endpoint_status_bytes(EndpointStatus::Disabled);
    let e = endpoint_status_bytes(EndpointStatus::Enabled);
    let h = endpoint_status_bytes(EndpointStatus::Halted);
    let st = endpoint_status_bytes(EndpointStatus::Stopped);
    let er = endpoint_status_bytes(EndpointStatus::Error);
    assert(e != d);
    assert(h != d);
    assert(h != e);
    assert(st != d);
    assert(st != e);
    assert(st != h);
    assert(er != d);
    assert(er != e);
    assert(er != h);
    assert(er != st);
}

proof fn lemma_ascii_encode(chars: Seq<char>, bytes: Seq<u8>)
    requires
        chars.len() == bytes.len(),
        is_ascii_chars(chars),
        forall|i: int| 0 <= i < chars.len() ==> chars[i] as u8 == bytes[i],
    ensures
        encode_utf8(chars) == bytes,
{
    is_ascii_chars_encode_utf8(chars);
    assert(encode_utf8(chars) =~= bytes);
}

/// The name that `PortState::as_str` gives each state is, as bytes, the
/// name that `PortState::from_str` reads back to that state.
pub proof fn lemma_port_state_text_roundtrip(s: PortState)
    ensures
        encode_utf8(port_state_text(s)) == port_state_bytes(s),
        spec_parse_port_state(encode_utf8(port_state_text(s))) == Ok::<PortState, Invalid>(s),
{
    reveal_strlit("enabled_or_disabled");
    reveal_strlit("default");
    reveal_strlit("addressed");
    reveal_strlit("configured");
    lemma_ascii_encode(port_state_text(s), port_state_bytes(s));
    lemma_port_state_name_roundtrip(s);
}

/// The name that `EndpointStatus::as_str` gives each state is, as bytes,
/// the name that `EndpointStatus::from_str` reads back to that state.
pub proof fn lemma_endpoint_status_text_roundtrip(s: EndpointStatus)
    ensures
        encode_utf8(endpoint_status_text(s)) == endpoint_status_bytes(s),
        spec_parse_endpoint_status(encode_utf8(endpoint_status_text(s))) == Some(s),
{
    reveal_strlit("disabled");
    reveal_strlit("enabled");
    reveal_strlit("halted");
    reveal_strlit("stopped");
    reveal_strlit("error");
    lemma_ascii_encode(endpoint_status_text(s), endpoint_status_bytes(s));
    lemma_endpoint_status_name_roundtrip(s);
}

/// A client's handle on one port of the daemon's scheme.
#[derive(Debug)]
pub struct XhciClientHandle {
    pub scheme: String,
    pub port: PortId,
}

/// The request that the daemon is asked to send for a device request with
/// the data stage `data`.
pub open spec fn port_req_for(
    data_len: nat,
    direction: PortReqDirection,
    no_data: bool,
    req_type: PortReqTy,
    req_recipient: PortReqRecipient,
    request: u8,
    value: u16,
    index: u16,
) -> PortReq {
    PortReq {
        direction,
        req_type,
        req_recipient,
        request,
        value,
        index,
        length: data_len as u16,
        transfers_data: !no_data,
    }
}

impl XhciClientHandle {
    pub fn new(scheme: String, port: PortId) -> (r: Self)
        ensures
            r.scheme@ == scheme@,
            r.port == port,
    {
        XhciClientHandle { scheme, port }
    }

    /// The request to send for a device request; refused where the data
    /// stage is longer than a request's length field holds.
    pub fn device_request(
        &self,
        req_type: PortReqTy,
        req_recipient: PortReqRecipient,
        request: u8,
        value: u16,
        index: u16,
        data: &DeviceReqData,
    ) -> (r: Result<PortReq, XhciClientHandleError>)
        ensures
            ({
                let len = match data {
                    DeviceReqData::In(b) => b@.len(),
                    DeviceReqData::Out(b) => b@.len(),
                    DeviceReqData::NoData => 0,
                };
                &&& len > u16::MAX <==> r is Err
                &&& r matches Err(e) ==> e matches XhciClientHandleError::TransferBufTooLarge(n) && n == len
                &&& r matches Ok(req) ==> req == port_req_for(
                    len,
                    if data is In { PortReqDirection::DeviceToHost } else { PortReqDirection::HostToDevice },
                    data is NoData,
                    req_type,
                    req_recipient,
                    request,
                    value,
                    index,
                )
            }),
    {
        let len = data.len();
        if len > 65535 {
            return Err(XhciClientHandleError::TransferBufTooLarge(len));
        }
        let transfers_data = match data {
            DeviceReqData::NoData => false,
            _ => true,
        };
        Ok(
            PortReq {
                direction: data.direction(),
                req_type,
                req_recipient,
                request,
                value,
                index,
                length: len as u16,
                transfers_data,
            },
        )
    }

    /// The GET_DESCRIPTOR request that reads descriptor `ty`, `idx` into
    /// `buffer`.
    pub fn get_descriptor(&self, recipient: PortReqRecipient, ty: u8, idx: u8, windex: u16, buffer: &mut [u8]) -> (r:
        Result<PortReq, XhciClientHandleError>)
        ensures
            old(buffer)@.len() > u16::MAX <==> r is Err,
            r matches Err(e) ==> e matches XhciClientHandleError::TransferBufTooLarge(n) && n == old(
                buffer,
            )@.len(),
            r matches Ok(req) ==> req == port_req_for(
                old(buffer)@.len(),
                PortReqDirection::DeviceToHost,
                false,
                PortReqTy::Standard,
                recipient,
                0x06,
                (ty * 256 + idx) as u16,
                windex,
            ),
    {
        let t = ty as u16;
        let i = idx as u16;
        proof {
            crate::bits::lemma_u16_bits();
        }
        let value = (t << 8u16) | i;
        let data = DeviceReqData::In(buffer);
        self.device_request(PortReqTy::Standard, recipient, 0x06, value, windex, &data)
    }

    /// The CLEAR_FEATURE request for feature `feature_sel` of `recipient`
    /// `index`.
    pub fn clear_feature(&self, recipient: PortReqRecipient, index: u16, feature_sel: u16) -> (r: Result<
        PortReq,
        XhciClientHandleError,
    >)
        ensures
            r == Ok::<PortReq, XhciClientHandleError>(
                port_req_for(0, PortReqDirection::HostToDevice, true, PortReqTy::Standard, recipient, 0x01, feature_sel, index),
            ),
    {
        let data = DeviceReqData::NoData;
        self.device_request(PortReqTy::Standard, recipient, 0x01, feature_sel, index, &data)
    }
}

/// The direction of a transfer on an endpoint.
#[derive(Clone, Copy, Debug, PartialEq, Eq, Hash, Structural)]
pub enum XhciEndpCtlDirection {
    /// Host to device.
    Out,
    /// Device to host.
    In,
    /// No data, and no I/O on the data file at all.
    NoData,
}

/// A request to an endpoint's control file.
#[derive(Clone, Copy, Debug, PartialEq, Eq, Structural)]
pub enum XhciEndpCtlReq {
    /// A transfer of `count` bytes on the data file follows (none for
    /// `NoData`).
    Transfer { direction: XhciEndpCtlDirection, count: u32 },
    /// The endpoint is to be reset; without the CLEAR_FEATURE(ENDPOINT_HALT)
    /// where `no_clear_feature`.
    Reset { no_clear_feature: bool },
    /// The endpoint's state is to be read from the control file.
    Status,
}

/// A response of an endpoint's control file.
#[derive(Clone, Copy, Debug, PartialEq, Eq, Structural)]
pub enum XhciEndpCtlRes {
    Status(EndpointStatus),
    TransferResult(PortTransferStatus),
    Pending,
    Idle,
}

/// The result of a transfer from the response that followed it and the
/// number of bytes that moved on the data file.
pub fn transfer_result(res: XhciEndpCtlRes, bytes_moved: usize, expected_len: u32) -> (r: Result<
    PortTransferStatus,
    XhciClientHandleError,
>)
    ensures
        match res {
            XhciEndpCtlRes::TransferResult(st) => if st.kind == PortTransferStatusKind::Success && bytes_moved
                != expected_len {
                r matches Err(XhciClientHandleError::InvalidResponse(_))
            } else {
                r == Ok::<PortTransferStatus, XhciClientHandleError>(st)
            },
            _ => r matches Err(XhciClientHandleError::InvalidResponse(_)),
        },
{
    match res {
        XhciEndpCtlRes::TransferResult(st) => {
            if st.kind == PortTransferStatusKind::Success && bytes_moved != expected_len as usize {
                Err(XhciClientHandleError::InvalidResponse(Invalid("no short packet, but fewer bytes were read/written")))
            } else {
                Ok(st)
            }
        },
        _ => Err(XhciClientHandleError::InvalidResponse(Invalid("expected transfer result"))),
    }
}

/// The endpoint state from the response to a status request.
pub fn status_result(res: XhciEndpCtlRes) -> (r: Result<EndpointStatus, XhciClientHandleError>)
    ensures
        match res {
            XhciEndpCtlRes::Status(s) => r == Ok::<EndpointStatus, XhciClientHandleError>(s),
            _ => r matches Err(XhciClientHandleError::InvalidResponse(_)),
        },
{
    match res {
        XhciEndpCtlRes::Status(s) => Ok(s),
        _ => Err(XhciClientHandleError::InvalidResponse(Invalid("expected status response"))),
    }
}

/// A request to configure a port's endpoints.
#[derive(Clone, Copy, Debug, PartialEq, Eq, Structural)]
pub struct ConfigureEndpointsReq {
    /// Index into the configuration descriptors of the device descriptor.
    pub config_desc: u8,
    pub interface_desc: Option<u8>,
    pub alternate_setting: Option<u8>,
    pub hub_ports: Option<u8>,
}

impl Default for ConfigureEndpointsReq {
    fn default() -> (r: Self)
        ensures
            r == (ConfigureEndpointsReq {
                config_desc: 0,
                interface_desc: None,
                alternate_setting: None,
                hub_ports: None,
            }),
    {
        ConfigureEndpointsReq { config_desc: 0, interface_desc: None, alternate_setting: None, hub_ports: None }
    }
}

} // verus!
