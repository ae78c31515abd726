//! USB descriptors and setup packets, as the host controller driver reads
//! and writes them (USB 2.0 and 3.2, chapter 9).

use vstd::prelude::*;
use crate::bytes::{
    le16, le32, le_bytes16, le_bytes32, lemma_le16_of_bytes, lemma_le32_of_bytes, read_le16, read_le32,
};
use crate::xhci_iface::{PortReqDirection, PortReqRecipient, PortReqTy};

verus! {

/// The kinds of descriptor a device reports.
#[derive(Clone, Copy, Debug, PartialEq, Eq, Structural)]
pub enum DescriptorKind {
    NoDescriptor,
    Device,
    Configuration,
    String,
    Interface,
    Endpoint,
    DeviceQualifier,
    OtherSpeedConfiguration,
    InterfacePower,
    OnTheGo,
    BinaryObjectStorage,
    Hid,
    Hub,
    SuperSpeedCompanion,
}

/// The descriptor type number of a kind.
pub open spec fn descriptor_kind_code(k: DescriptorKind) -> u8 {
    match k {
        DescriptorKind::NoDescriptor => 0,
        DescriptorKind::Device => 1,
        DescriptorKind::Configuration => 2,
        DescriptorKind::String => 3,
        DescriptorKind::Interface => 4,
        DescriptorKind::Endpoint => 5,
        DescriptorKind::DeviceQualifier => 6,
        DescriptorKind::OtherSpeedConfiguration => 7,
        DescriptorKind::InterfacePower => 8,
        DescriptorKind::OnTheGo => 9,
        DescriptorKind::BinaryObjectStorage => 15,
        DescriptorKind::Hid => 33,
        DescriptorKind::Hub => 41,
        DescriptorKind::SuperSpeedCompanion => 48,
    }
}

/// The standard descriptor types, in the order the USB specification
/// numbers them from 1.
pub open spec fn standard_descriptor_kinds() -> Seq<DescriptorKind> {
    seq![
        DescriptorKind::Device,
        DescriptorKind::Configuration,
        DescriptorKind::String,
        DescriptorKind::Interface,
        DescriptorKind::Endpoint,
        DescriptorKind::DeviceQualifier,
        DescriptorKind::OtherSpeedConfiguration,
        DescriptorKind::InterfacePower,
        DescriptorKind::OnTheGo,
    ]
}

/// The standard descriptor types are numbered 1, 2, 3, ... in order, and no
/// two descriptor types share a number.
pub proof fn lemma_descriptor_kind_numbering(k: int, a: DescriptorKind, b: DescriptorKind)
    ensures
        0 <= k < 9 ==> descriptor_kind_code(standard_descriptor_kinds()[k]) == k + 1,
        descriptor_kind_code(a) == descriptor_kind_code(b) ==> a == b,
{
}

impl DescriptorKind {
    pub fn code(self) -> (r: u8)
        ensures
            r == descriptor_kind_code(self),
    {
        match self {
            DescriptorKind::NoDescriptor => 0,
            DescriptorKind::Device => 1,
            DescriptorKind::Configuration => 2,
            DescriptorKind::String => 3,
            DescriptorKind::Interface => 4,
            DescriptorKind::Endpoint => 5,
            DescriptorKind::DeviceQualifier => 6,
            DescriptorKind::OtherSpeedConfiguration => 7,
            DescriptorKind::InterfacePower => 8,
            DescriptorKind::OnTheGo => 9,
            DescriptorKind::BinaryObjectStorage => 15,
            DescriptorKind::Hid => 33,
            DescriptorKind::Hub => 41,
            DescriptorKind::SuperSpeedCompanion => 48,
        }
    }
}

/// A setup packet.
#[derive(Clone, Copy, Debug, Default, PartialEq, Eq, Structural)]
pub struct Setup {
    /// bmRequestType: direction (bit 7), type (bits 6:5), recipient (bits 4:0).
    pub kind: u8,
    pub request: u8,
    pub value: u16,
    pub index: u16,
    pub length: u16,
}

#[derive(Clone, Copy, Debug, PartialEq, Eq, Structural)]
pub enum ReqDirection {
    HostToDevice,
    DeviceToHost,
}

#[derive(Clone, Copy, Debug, PartialEq, Eq, Structural)]
pub enum ReqType {
    /// Standard requests, which xhcid sends itself when needed.
    Standard,
    /// Class-specific requests, open to clients.
    Class,
    /// Vendor-specific requests, open to clients.
    Vendor,
    Reserved,
}

#[derive(Clone, Copy, Debug, PartialEq, Eq, Structural)]
pub enum ReqRecipient {
    Device,
    Interface,
    Endpoint,
    Other,
    VendorSpecific,
}

impl From<PortReqDirection> for ReqDirection {
    fn from(d: PortReqDirection) -> (r: Self) {
        match d {
            PortReqDirection::DeviceToHost => ReqDirection::DeviceToHost,
            PortReqDirection::HostToDevice => ReqDirection::HostToDevice,
        }
    }
}

impl vstd::std_specs::convert::FromSpecImpl<PortReqDirection> for ReqDirection {
    open spec fn obeys_from_spec() -> bool {
        true
    }

    open spec fn from_spec(d: PortReqDirection) -> Self {
        match d {
            PortReqDirection::DeviceToHost => ReqDirection::DeviceToHost,
            PortReqDirection::HostToDevice => ReqDirection::HostToDevice,
        }
    }
}

impl From<PortReqTy> for ReqType {
    fn from(d: PortReqTy) -> (r: Self) {
        match d {
            PortReqTy::Standard => ReqType::Standard,
            PortReqTy::Class => ReqType::Class,
            PortReqTy::Vendor => ReqType::Vendor,
        }
    }
}

impl vstd::std_specs::convert::FromSpecImpl<PortReqTy> for ReqType {
    open spec fn obeys_from_spec() -> bool {
        true
    }

    open spec fn from_spec(d: PortReqTy) -> Self {
        match d {
            PortReqTy::Standard => ReqType::Standard,
            PortReqTy::Class => ReqType::Class,
            PortReqTy::Vendor => ReqType::Vendor,
        }
    }
}

impl From<PortReqRecipient> for ReqRecipient {
    fn from(d: PortReqRecipient) -> (r: Self) {
        match d {
            PortReqRecipient::Device => ReqRecipient::Device,
            PortReqRecipient::Interface => ReqRecipient::Interface,
            PortReqRecipient::Endpoint => ReqRecipient::Endpoint,
            PortReqRecipient::Other => ReqRecipient::Other,
            PortReqRecipient::VendorSpecific => ReqRecipient::VendorSpecific,
        }
    }
}

impl vstd::std_specs::convert::FromSpecImpl<PortReqRecipient> for ReqRecipient {
    open spec fn obeys_from_spec() -> bool {
        true
    }

    open spec fn from_spec(d: PortReqRecipient) -> Self {
        match d {
            PortReqRecipient::Device => ReqRecipient::Device,
            PortReqRecipient::Interface => ReqRecipient::Interface,
            PortReqRecipient::Endpoint => ReqRecipient::Endpoint,
            PortReqRecipient::Other => ReqRecipient::Other,
            PortReqRecipient::VendorSpecific => ReqRecipient::VendorSpecific,
        }
    }
}

/// The number of a request type in bmRequestType.
pub open spec fn req_type_code(t: ReqType) -> u8 {
    match t {
        ReqType::Standard => 0,
        ReqType::Class => 1,
        ReqType::Vendor => 2,
        ReqType::Reserved => 3,
    }
}

/// The number of a recipient in bmRequestType.
pub open spec fn req_recipient_code(r: ReqRecipient) -> u8 {
    match r {
        ReqRecipient::Device => 0,
        ReqRecipient::Interface => 1,
        ReqRecipient::Endpoint => 2,
        ReqRecipient::Other => 3,
        ReqRecipient::VendorSpecific => 31,
    }
}

/// The standard requests.
#[derive(Clone, Copy, Debug, PartialEq, Eq, Structural)]
pub enum SetupReq {
    GetStatus,
    ClearFeature,
    SetFeature,
    SetAddress,
    GetDescriptor,
    SetDescriptor,
    GetConfiguration,
    SetConfiguration,
    GetInterface,
    SetInterface,
    SynchFrame,
}

pub open spec fn setup_req_code(r: SetupReq) -> u8 {
    match r {
        SetupReq::GetStatus => 0x00,
        SetupReq::ClearFeature => 0x01,
        SetupReq::SetFeature => 0x03,
        SetupReq::SetAddress => 0x05,
        SetupReq::GetDescriptor => 0x06,
        SetupReq::SetDescriptor => 0x07,
        SetupReq::GetConfiguration => 0x08,
        SetupReq::SetConfiguration => 0x09,
        SetupReq::GetInterface => 0x0A,
        SetupReq::SetInterface => 0x0B,
        SetupReq::SynchFrame => 0x0C,
    }
}

/// Each standard request that sets something is numbered one above the
/// request that gets it (two above Clear Feature for Set Feature), and no
/// two requests share a number.
pub proof fn lemma_setup_request_numbering(a: SetupReq, b: SetupReq)
    ensures
        setup_req_code(SetupReq::SetFeature) == setup_req_code(SetupReq::ClearFeature) + 2,
        setup_req_code(SetupReq::SetDescriptor) == setup_req_code(SetupReq::GetDescriptor) + 1,
        setup_req_code(SetupReq::SetConfiguration) == setup_req_code(SetupReq::GetConfiguration) + 1,
        setup_req_code(SetupReq::SetInterface) == setup_req_code(SetupReq::GetInterface) + 1,
        setup_req_code(a) == setup_req_code(b) ==> a == b,
{
}

pub const USB_SETUP_DIR_BIT: u8 = 0x80;
pub const USB_SETUP_DIR_SHIFT: u8 = 7;
pub const USB_SETUP_REQ_TY_MASK: u8 = 0x60;
pub const USB_SETUP_REQ_TY_SHIFT: u8 = 5;
pub const USB_SETUP_RECIPIENT_MASK: u8 = 0x1F;
pub const USB_SETUP_RECIPIENT_SHIFT: u8 = 0;

/// The request type bits of bmRequestType.
pub open spec fn spec_req_ty(kind: u8) -> u8 {
    ((kind / 32) % 4) as u8
}

/// The wValue of a descriptor request: the type in the high byte, the index
/// in the low one.
pub open spec fn descriptor_value(kind: u8, index: u8) -> u16 {
    (kind * 256 + index) as u16
}

fn descriptor_value_of(kind: u8, index: u8) -> (r: u16)
    ensures
        r == descriptor_value(kind, index),
{
    let k = kind as u16;
    let i = index as u16;
    proof { crate::bits::lemma_u16_bits(); }
    (k << 8u16) | i
}

impl Setup {
    pub fn direction(&self) -> (r: ReqDirection)
        ensures
            r == (if self.kind >= 0x80 { ReqDirection::DeviceToHost } else { ReqDirection::HostToDevice }),
    {
        let k = self.kind;
        proof { crate::bits::lemma_u8_bits(); }
        if self.kind & USB_SETUP_DIR_BIT == 0 {
            ReqDirection::HostToDevice
        } else {
            ReqDirection::DeviceToHost
        }
    }

    pub fn req_ty(&self) -> (r: u8)
        ensures
            r == spec_req_ty(self.kind),
    {
        let k = self.kind;
        proof { crate::bits::lemma_u8_bits(); }
        (self.kind & USB_SETUP_REQ_TY_MASK) >> USB_SETUP_REQ_TY_SHIFT
    }

    pub fn req_recipient(&self) -> (r: u8)
        ensures
            r == self.kind % 32,
    {
        let k = self.kind;
        proof { crate::bits::lemma_u8_bits(); }
        (self.kind & USB_SETUP_RECIPIENT_MASK) >> USB_SETUP_RECIPIENT_SHIFT
    }

    /// Clients may send class and vendor requests only.
    pub fn is_allowed_from_api(&self) -> (r: bool)
        ensures
            r == (spec_req_ty(self.kind) == req_type_code(ReqType::Class) || spec_req_ty(self.kind)
                == req_type_code(ReqType::Vendor)),
    {
        self.req_ty() == 1 || self.req_ty() == 2
    }

    pub fn get_status() -> (r: Self)
        ensures
            r == (Setup { kind: 0x80, request: 0x00, value: 0, index: 0, length: 2 }),
    {
        Setup { kind: 0b1000_0000, request: 0x00, value: 0, index: 0, length: 2 }
    }

    pub fn clear_feature(feature: u16) -> (r: Self)
        ensures
            r == (Setup { kind: 0, request: 0x01, value: feature, index: 0, length: 0 }),
    {
        Setup { kind: 0b0000_0000, request: 0x01, value: feature, index: 0, length: 0 }
    }

    pub fn set_feature(feature: u16) -> (r: Self)
        ensures
            r == (Setup { kind: 0, request: 0x03, value: feature, index: 0, length: 0 }),
    {
        Setup { kind: 0b0000_0000, request: 0x03, value: feature, index: 0, length: 0 }
    }

    pub fn set_address(address: u16) -> (r: Self)
        ensures
            r == (Setup { kind: 0, request: 0x05, value: address, index: 0, length: 0 }),
    {
        Setup { kind: 0b0000_0000, request: 0x05, value: address, index: 0, length: 0 }
    }

    pub fn get_descriptor(kind: DescriptorKind, index: u8, language: u16, length: u16) -> (r: Self)
        ensures
            r == (Setup {
                kind: 0x80,
                request: 0x06,
                value: descriptor_value(descriptor_kind_code(kind), index),
                index: language,
                length,
            }),
    {
        Setup {
            kind: 0b1000_0000,
            request: 0x06,
            value: descriptor_value_of(kind.code(), index),
            index: language,
            length: length,
        }
    }

    pub fn set_descriptor(kind: u8, index: u8, language: u16, length: u16) -> (r: Self)
        ensures
            r == (Setup {
                kind: 0,
                request: 0x07,
                value: descriptor_value(kind, index),
                index: language,
                length,
            }),
    {
        Setup {
            kind: 0b0000_0000,
            request: 0x07,
            value: descriptor_value_of(kind, index),
            index: language,
            length: length,
        }
    }

    pub fn get_configuration() -> (r: Self)
        ensures
            r == (Setup { kind: 0x80, request: 0x08, value: 0, index: 0, length: 1 }),
    {
        Setup { kind: 0b1000_0000, request: 0x08, value: 0, index: 0, length: 1 }
    }

    pub fn set_configuration(value: u8) -> (r: Self)
        ensures
            r == (Setup { kind: 0, request: 0x09, value: value as u16, index: 0, length: 0 }),
    {
        Setup { kind: 0b0000_0000, request: 0x09, value: value as u16, index: 0, length: 0 }
    }

    pub fn set_interface(interface: u8, alternate_setting: u8) -> (r: Self)
        ensures
            r == (Setup {
                kind: 1,
                request: 0x0B,
                value: alternate_setting as u16,
                index: interface as u16,
                length: 0,
            }),
    {
        Setup {
            kind: 0b0000_0001,
            request: 0x0B,
            value: alternate_setting as u16,
            index: interface as u16,
            length: 0,
        }
    }
}

/// The standard device descriptor (18 bytes).
#[derive(Clone, Copy, Debug, Default, PartialEq, Eq, Structural)]
pub struct DeviceDescriptor {
    pub length: u8,
    pub kind: u8,
    /// bcdUSB.
    pub usb: u16,
    pub class: u8,
    pub sub_class: u8,
    pub protocol: u8,
    pub packet_size: u8,
    pub vendor: u16,
    pub product: u16,
    pub release: u16,
    pub manufacturer_str: u8,
    pub product_str: u8,
    pub serial_str: u8,
    pub configurations: u8,
}

impl DeviceDescriptor {
    pub fn minor_usb_vers(&self) -> (r: u8)
        ensures
            r == self.usb % 256,
    {
        (self.usb % 256) as u8
    }

    pub fn major_usb_vers(&self) -> (r: u8)
        ensures
            r == self.usb / 256,
    {
        let u = self.usb;
        proof { crate::bits::lemma_u16_bits(); }
        ((self.usb >> 8u16) & 0xFF) as u8
    }

    pub fn from_bytes(s: &[u8]) -> (r: Self)
        requires
            s@.len() >= 18,
        ensures
            r == device_descriptor_of(s@),
    {
        DeviceDescriptor {
            length: s[0],
            kind: s[1],
            usb: read_le16(s, 2),
            class: s[4],
            sub_class: s[5],
            protocol: s[6],
            packet_size: s[7],
            vendor: read_le16(s, 8),
            product: read_le16(s, 10),
            release: read_le16(s, 12),
            manufacturer_str: s[14],
            product_str: s[15],
            serial_str: s[16],
            configurations: s[17],
        }
    }
}

/// The first eight bytes of the device descriptor.
#[derive(Clone, Copy, Debug, Default, PartialEq, Eq, Structural)]
pub struct DeviceDescriptor8Byte {
    pub length: u8,
    pub kind: u8,
    pub usb: u16,
    pub class: u8,
    pub sub_class: u8,
    pub protocol: u8,
    pub packet_size: u8,
}

impl DeviceDescriptor8Byte {
    pub fn minor_usb_vers(&self) -> (r: u8)
        ensures
            r == self.usb % 256,
    {
        (self.usb % 256) as u8
    }

    pub fn major_usb_vers(&self) -> (r: u8)
        ensures
            r == self.usb / 256,
    {
        let u = self.usb;
        proof { crate::bits::lemma_u16_bits(); }
        ((self.usb >> 8u16) & 0xFF) as u8
    }

    pub fn from_bytes(s: &[u8]) -> (r: Self)
        requires
            s@.len() >= 8,
        ensures
            r == (DeviceDescriptor8Byte {
                length: s@[0],
                kind: s@[1],
                usb: le16(s@, 2) as u16,
                class: s@[4],
                sub_class: s@[5],
                protocol: s@[6],
                packet_size: s@[7],
            }),
    {
        DeviceDescriptor8Byte {
            length: s[0],
            kind: s[1],
            usb: read_le16(s, 2),
            class: s[4],
            sub_class: s[5],
            protocol: s[6],
            packet_size: s[7],
        }
    }
}

/// The device qualifier descriptor of USB 2.0.
#[derive(Clone, Copy, Debug, PartialEq, Eq, Structural)]
pub struct DeviceQualifier {
    pub length: u8,
    pub kind: u8,
    pub usb: u16,
    pub class: u8,
    pub sub_class: u8,
    pub protocol: u8,
    pub pkgsz_other_speed: u8,
    pub num_other_speed_cfgs: u8,
    pub rsvd: u8,
}

/// The interface descriptor (9 bytes).
#[derive(Clone, Copy, Debug, Default, PartialEq, Eq, Structural)]
pub struct InterfaceDescriptor {
    pub length: u8,
    pub kind: u8,
    pub number: u8,
    pub alternate_setting: u8,
    pub endpoints: u8,
    pub class: u8,
    pub sub_class: u8,
    pub protocol: u8,
    pub interface_str: u8,
}

impl InterfaceDescriptor {
    pub fn from_bytes(s: &[u8]) -> (r: Self)
        requires
            s@.len() >= 9,
        ensures
            r == interface_descriptor_of(s@),
    {
        InterfaceDescriptor {
            length: s[0],
            kind: s[1],
            number: s[2],
            alternate_setting: s[3],
            endpoints: s[4],
            class: s[5],
            sub_class: s[6],
            protocol: s[7],
            interface_str: s[8],
        }
    }
}

/// The hub descriptor of USB 2.0, without its port bitmaps.
#[derive(Clone, Copy, Debug, PartialEq, Eq, Structural)]
pub struct HubDescriptorV2 {
    pub length: u8,
    pub kind: u8,
    pub ports: u8,
    pub characteristics: u16,
    pub power_on_good: u8,
    pub current: u8,
}

impl HubDescriptorV2 {
    pub const DESCRIPTOR_KIND: u8 = 0x29;
}

impl Default for HubDescriptorV2 {
    fn default() -> (r: Self)
        ensures
            r == (HubDescriptorV2 {
                length: 0,
                kind: 0,
                ports: 0,
                characteristics: 0,
                power_on_good: 0,
                current: 0,
            }),
    {
        HubDescriptorV2 { length: 0, kind: 0, ports: 0, characteristics: 0, power_on_good: 0, current: 0 }
    }
}

/// The hub descriptor of USB 3, without its port bitmap.
#[derive(Clone, Copy, Debug, PartialEq, Eq, Structural)]
pub struct HubDescriptorV3 {
    pub length: u8,
    pub kind: u8,
    pub ports: u8,
    pub characteristics: u16,
    pub power_on_good: u8,
    pub current: u8,
    pub decode_latency: u8,
    pub delay: u16,
}

impl HubDescriptorV3 {
    pub const DESCRIPTOR_KIND: u8 = 0x2A;
}

impl Default for HubDescriptorV3 {
    fn default() -> (r: Self)
        ensures
            r == (HubDescriptorV3 {
                length: 0,
                kind: 0,
                ports: 0,
                characteristics: 0,
                power_on_good: 0,
                current: 0,
                decode_latency: 0,
                delay: 0,
            }),
    {
        HubDescriptorV3 {
            length: 0,
            kind: 0,
            ports: 0,
            characteristics: 0,
            power_on_good: 0,
            current: 0,
            decode_latency: 0,
            delay: 0,
        }
    }
}

/// Port features that USB 2.0 and 3 hubs share.
#[derive(Clone, Copy, Debug, PartialEq, Eq, Structural)]
pub enum HubPortFeature {
    PortConnection,
    PortOverCurrent,
    PortReset,
    PortLinkState,
    PortPower,
    CPortConnection,
    CPortOverCurrent,
    CPortReset,
}

pub open spec fn hub_port_feature_code(f: HubPortFeature) -> u16 {
    match f {
        HubPortFeature::PortConnection => 0,
        HubPortFeature::PortOverCurrent => 3,
        HubPortFeature::PortReset => 4,
        HubPortFeature::PortLinkState => 5,
        HubPortFeature::PortPower => 8,
        HubPortFeature::CPortConnection => 16,
        HubPortFeature::CPortOverCurrent => 19,
        HubPortFeature::CPortReset => 20,
    }
}

/// The change feature of a port status bit is the feature of that bit plus
/// 16, and no two features share a selector.
pub proof fn lemma_hub_feature_numbering(a: HubPortFeature, b: HubPortFeature)
    ensures
        hub_port_feature_code(HubPortFeature::CPortConnection) == hub_port_feature_code(
            HubPortFeature::PortConnection,
        ) + 16,
        hub_port_feature_code(HubPortFeature::CPortOverCurrent) == hub_port_feature_code(
            HubPortFeature::PortOverCurrent,
        ) + 16,
        hub_port_feature_code(HubPortFeature::CPortReset) == hub_port_feature_code(HubPortFeature::PortReset)
            + 16,
        hub_port_feature_code(a) == hub_port_feature_code(b) ==> a == b,
{
}

impl HubPortFeature {
    /// The feature selector.
    pub fn code(self) -> (r: u16)
        ensures
            r == hub_port_feature_code(self),
    {
        match self {
            HubPortFeature::PortConnection => 0,
            HubPortFeature::PortOverCurrent => 3,
            HubPortFeature::PortReset => 4,
            HubPortFeature::PortLinkState => 5,
            HubPortFeature::PortPower => 8,
            HubPortFeature::CPortConnection => 16,
            HubPortFeature::CPortOverCurrent => 19,
            HubPortFeature::CPortReset => 20,
        }
    }
}

/// wPortStatus of a USB 2.0 hub port.
#[derive(Clone, Copy, Debug, Default, PartialEq, Eq, Structural)]
pub struct HubPortStatusV2(pub u32);

impl HubPortStatusV2 {
    pub const CONNECTION: u32 = 1;
    pub const ENABLE: u32 = 2;
    pub const SUSPEND: u32 = 4;
    pub const OVER_CURRENT: u32 = 8;
    pub const RESET: u32 = 16;
    pub const POWER: u32 = 256;
    pub const LOW_SPEED: u32 = 512;
    pub const HIGH_SPEED: u32 = 1024;
    pub const TEST: u32 = 2048;
    pub const INDICATOR: u32 = 4096;
    pub const CONNECTION_CHANGED: u32 = 65536;
    pub const ENABLE_CHANGED: u32 = 131072;
    pub const SUSPEND_CHANGED: u32 = 262144;
    pub const OVER_CURRENT_CHANGED: u32 = 524288;
    pub const RESET_CHANGED: u32 = 1048576;
}

/// wPortStatus of a USB 3 hub port.
#[derive(Clone, Copy, Debug, Default, PartialEq, Eq, Structural)]
pub struct HubPortStatusV3(pub u32);

impl HubPortStatusV3 {
    pub const CONNECTION: u32 = 1;
    pub const ENABLE: u32 = 2;
    pub const OVER_CURRENT: u32 = 8;
    pub const RESET: u32 = 16;
    pub const LINK_STATE_0: u32 = 32;
    pub const LINK_STATE_1: u32 = 64;
    pub const LINK_STATE_2: u32 = 128;
    pub const LINK_STATE_3: u32 = 256;
    pub const POWER: u32 = 512;
    pub const SPEED_0: u32 = 1024;
    pub const SPEED_1: u32 = 2048;
    pub const SPEED_2: u32 = 4096;
    pub const CONNECTION_CHANGED: u32 = 65536;
    pub const OVER_CURRENT_CHANGED: u32 = 524288;
    pub const RESET_CHANGED: u32 = 1048576;
    pub const BH_RESET_CHANGED: u32 = 2097152;
    pub const LINK_STATE_CHANGED: u32 = 4194304;
    pub const CONFIG_ERROR: u32 = 8388608;
}

/// The status of a hub port, in the format of the hub's USB version.
#[derive(Clone, Copy, Debug, PartialEq, Eq, Structural)]
pub enum HubPortStatus {
    V2(HubPortStatusV2),
    V3(HubPortStatusV3),
}

/// Bit `k` of `x`.
pub open spec fn bit(x: u32, k: nat) -> bool {
    (x / vstd::arithmetic::power2::pow2(k) as u32) % 2 == 1
}

/// Whether `x` has bit `k` set (for the bit positions that hub statuses use).
pub fn has_bit(x: u32, k: u32) -> (r: bool)
    requires
        k < 32,
    ensures
        r == ((x / vstd::arithmetic::power2::pow2(k as nat) as u32) % 2 == 1),
{
    proof {
        vstd::bits::lemma_u32_pow2_no_overflow(k as nat);
        vstd::bits::lemma_u32_shl_is_mul(1, k);
    }
    let m = 1u32 << k;
    assert((x & m == m) == ((x / m) % 2 == 1)) by (bit_vector)
        requires
            m == 1u32 << k,
            k < 32,
    ;
    x & m == m
}

impl HubPortStatus {
    pub fn is_powered(&self) -> (r: bool)
        ensures
            r == (match self {
                HubPortStatus::V2(x) => bit(x.0, 8),
                HubPortStatus::V3(x) => bit(x.0, 9),
            }),
    {
        match self {
            HubPortStatus::V2(x) => has_bit(x.0, 8),
            HubPortStatus::V3(x) => has_bit(x.0, 9),
        }
    }

    pub fn is_connected(&self) -> (r: bool)
        ensures
            r == (match self {
                HubPortStatus::V2(x) => bit(x.0, 0),
                HubPortStatus::V3(x) => bit(x.0, 0),
            }),
    {
        match self {
            HubPortStatus::V2(x) => has_bit(x.0, 0),
            HubPortStatus::V3(x) => has_bit(x.0, 0),
        }
    }

    pub fn is_resetting(&self) -> (r: bool)
        ensures
            r == (match self {
                HubPortStatus::V2(x) => bit(x.0, 4),
                HubPortStatus::V3(x) => bit(x.0, 4),
            }),
    {
        match self {
            HubPortStatus::V2(x) => has_bit(x.0, 4),
            HubPortStatus::V3(x) => has_bit(x.0, 4),
        }
    }

    pub fn is_enabled(&self) -> (r: bool)
        ensures
            r == (match self {
                HubPortStatus::V2(x) => bit(x.0, 1),
                HubPortStatus::V3(x) => bit(x.0, 1),
            }),
    {
        match self {
            HubPortStatus::V2(x) => has_bit(x.0, 1),
            HubPortStatus::V3(x) => has_bit(x.0, 1),
        }
    }
}

/// What a hub driver does for one port on one poll: the port feature it
/// sets, if any, whether it asks the host controller to attach (`true`) or
/// detach (`false`) the port's device, and whether the device counts as
/// attached afterwards.
#[derive(Clone, Copy, Debug, PartialEq, Eq, Structural)]
pub struct HubPortStep {
    pub set_feature: Option<HubPortFeature>,
    pub attach_change: Option<bool>,
    pub attached: bool,
}

/// A port's device is ready once the port is powered, connected, out of
/// reset and enabled.
pub open spec fn hub_port_ready(status: HubPortStatus) -> bool {
    match status {
        HubPortStatus::V2(x) => bit(x.0, 8) && bit(x.0, 0) && !bit(x.0, 4) && bit(x.0, 1),
        HubPortStatus::V3(x) => bit(x.0, 9) && bit(x.0, 0) && !bit(x.0, 4) && bit(x.0, 1),
    }
}

/// Decides on a port with status `status` whose device is `attached`: power
/// an unpowered port, reset a connected port that is not enabled, and attach
/// the device of a ready port (detach it otherwise), asking only where that
/// changes anything.
pub fn hub_port_step(status: HubPortStatus, attached: bool) -> (r: HubPortStep)
    ensures
        r.attached == hub_port_ready(status),
        r.attach_change == (if r.attached == attached { None } else { Some(r.attached) }),
        r.set_feature == (match status {
            HubPortStatus::V2(x) => if !bit(x.0, 8) {
                Some(HubPortFeature::PortPower)
            } else if bit(x.0, 0) && !bit(x.0, 4) && !bit(x.0, 1) {
                Some(HubPortFeature::PortReset)
            } else {
                None
            },
            HubPortStatus::V3(x) => if !bit(x.0, 9) {
                Some(HubPortFeature::PortPower)
            } else if bit(x.0, 0) && !bit(x.0, 4) && !bit(x.0, 1) {
                Some(HubPortFeature::PortReset)
            } else {
                None
            },
        }),
{
    let (feature, ready) = if !status.is_powered() {
        (Some(HubPortFeature::PortPower), false)
    } else if !status.is_connected() {
        (None, false)
    } else if status.is_resetting() {
        (None, false)
    } else if !status.is_enabled() {
        (Some(HubPortFeature::PortReset), false)
    } else {
        (None, true)
    };
    HubPortStep {
        set_feature: feature,
        attach_change: if ready == attached { None } else { Some(ready) },
        attached: ready,
    }
}

/// The BOS descriptor header (5 bytes).
#[derive(Clone, Copy, Debug, Default, PartialEq, Eq, Structural)]
pub struct BosDescriptor {
    pub len: u8,
    pub kind: u8,
    pub total_len: u16,
    pub cap_count: u8,
}

/// Size of the BOS descriptor header.
pub const BOS_DESCRIPTOR_LEN: usize = 5;

impl BosDescriptor {
    pub fn from_bytes(s: &[u8]) -> (r: Self)
        requires
            s@.len() >= BOS_DESCRIPTOR_LEN,
        ensures
            r == (BosDescriptor { len: s@[0], kind: s@[1], total_len: le16(s@, 2) as u16, cap_count: s@[4] }),
    {
        BosDescriptor { len: s[0], kind: s[1], total_len: read_le16(s, 2), cap_count: s[4] }
    }
}

/// The header that all device capability descriptors share (3 bytes).
#[derive(Clone, Copy, Debug, Default, PartialEq, Eq, Structural)]
pub struct BosDevDescriptorBase {
    pub len: u8,
    pub kind: u8,
    pub cap_ty: u8,
}

/// The SuperSpeed USB device capability (10 bytes).
#[derive(Clone, Copy, Debug, Default, PartialEq, Eq, Structural)]
pub struct BosSuperSpeedDesc {
    pub len: u8,
    pub kind: u8,
    pub cap_ty: u8,
    pub attrs: u8,
    pub speed_supp: u16,
    pub func_supp: u8,
    pub u1_dev_exit_lat: u8,
    pub u2_dev_exit_lat: u16,
}

/// The SuperSpeedPlus USB device capability, without its sublink speed
/// attributes (14 bytes).
#[derive(Clone, Copy, Debug, Default, PartialEq, Eq, Structural)]
pub struct BosSuperSpeedPlusDesc {
    pub len: u8,
    pub kind: u8,
    pub cap_ty: u8,
    pub rsvd0: u8,
    pub attrs: u32,
    pub func_supp: u32,
    pub rsvd1: u16,
}

impl BosSuperSpeedPlusDesc {
    /// The sublink speed attribute count, less one.
    pub fn ssac(&self) -> (r: u8)
        ensures
            r == self.attrs % 16,
    {
        let a = self.attrs;
        proof { crate::bits::lemma_u32_bits(); }
        (self.attrs & 0x0000_000F) as u8
    }
}

/// The USB 2.0 extension device capability (7 bytes).
#[derive(Clone, Copy, Debug, Default, PartialEq, Eq, Structural)]
pub struct BosUsb2ExtDesc {
    pub len: u8,
    pub kind: u8,
    pub cap_ty: u8,
    pub attrs: u32,
}

/// Device capability types that the driver decodes.
#[derive(Clone, Copy, Debug, PartialEq, Eq, Structural)]
pub enum DeviceCapability {
    Usb2Ext,
    SuperSpeed,
    SuperSpeedPlus,
}

pub open spec fn device_capability_code(c: DeviceCapability) -> u8 {
    match c {
        DeviceCapability::Usb2Ext => 0x02,
        DeviceCapability::SuperSpeed => 0x03,
        DeviceCapability::SuperSpeedPlus => 0x0A,
    }
}

/// Splits the device capability descriptors that follow a BOS header.
pub struct BosDevDescIter<'a> {
    pub bytes: &'a [u8],
}

/// The next descriptor of `bytes` by its own length field, where its header
/// is there and its length does not run past the end.
pub open spec fn bos_next(bytes: Seq<u8>) -> Option<(BosDevDescriptorBase, Seq<u8>, Seq<u8>)> {
    if bytes.len() < 3 || bytes[0] > bytes.len() {
        None
    } else {
        Some((
            BosDevDescriptorBase { len: bytes[0], kind: bytes[1], cap_ty: bytes[2] },
            bytes.take(bytes[0] as int),
            bytes.skip(bytes[0] as int),
        ))
    }
}

impl<'a> BosDevDescIter<'a> {
    pub fn new(bytes: &'a [u8]) -> (r: Self)
        ensures
            r.bytes@ == bytes@,
    {
        BosDevDescIter { bytes }
    }

    /// The next descriptor's header and bytes. A descriptor whose length is
    /// zero is given again and again.
    pub fn next(&mut self) -> (r: Option<(BosDevDescriptorBase, &'a [u8])>)
        ensures
            match bos_next(old(self).bytes@) {
                Some((base, desc, rest)) => r matches Some((b, d)) && b == base && d@ == desc
                    && final(self).bytes@ == rest,
                None => r is None && final(self).bytes@ == old(self).bytes@,
            },
    {
        if self.bytes.len() < 3 {
            return None;
        }
        let desc = BosDevDescriptorBase { len: self.bytes[0], kind: self.bytes[1], cap_ty: self.bytes[2] };
        let n = desc.len as usize;
        if n > self.bytes.len() {
            return None;
        }
        let (head, rest) = self.bytes.split_at(n);
        self.bytes = rest;
        Some((desc, head))
    }
}

/// A device capability descriptor, decoded where the driver knows its type.
#[derive(Clone, Copy, Debug, PartialEq, Eq, Structural)]
pub enum BosAnyDevDesc {
    Usb2Ext(BosUsb2ExtDesc),
    SuperSpeed(BosSuperSpeedDesc),
    SuperSpeedPlus(BosSuperSpeedPlusDesc),
    Unknown,
}

impl BosAnyDevDesc {
    pub fn is_superspeed(&self) -> (r: bool)
        ensures
            r == (*self is SuperSpeed),
    {
        match self {
            BosAnyDevDesc::SuperSpeed(_) => true,
            _ => false,
        }
    }

    pub fn is_superspeedplus(&self) -> (r: bool)
        ensures
            r == (*self is SuperSpeedPlus),
    {
        match self {
            BosAnyDevDesc::SuperSpeedPlus(_) => true,
            _ => false,
        }
    }
}

pub open spec fn usb2_ext_of(d: Seq<u8>) -> BosUsb2ExtDesc {
    BosUsb2ExtDesc { len: d[0], kind: d[1], cap_ty: d[2], attrs: le32(d, 3) as u32 }
}

pub open spec fn superspeed_of(d: Seq<u8>) -> BosSuperSpeedDesc {
    BosSuperSpeedDesc {
        len: d[0],
        kind: d[1],
        cap_ty: d[2],
        attrs: d[3],
        speed_supp: le16(d, 4) as u16,
        func_supp: d[6],
        u1_dev_exit_lat: d[7],
        u2_dev_exit_lat: le16(d, 8) as u16,
    }
}

pub open spec fn superspeed_plus_of(d: Seq<u8>) -> BosSuperSpeedPlusDesc {
    BosSuperSpeedPlusDesc {
        len: d[0],
        kind: d[1],
        cap_ty: d[2],
        rsvd0: d[3],
        attrs: le32(d, 4) as u32,
        func_supp: le32(d, 8) as u32,
        rsvd1: le16(d, 12) as u16,
    }
}

/// The decoded form of one capability descriptor `d` of type `cap_ty`, or
/// `None` where iteration stops on it: a known type whose descriptor is too
/// short for its record, or type zero.
pub open spec fn bos_decode(cap_ty: u8, d: Seq<u8>) -> Option<BosAnyDevDesc> {
    if cap_ty == 0x02 {
        if d.len() >= 7 {
            Some(BosAnyDevDesc::Usb2Ext(usb2_ext_of(d)))
        } else {
            None
        }
    } else if cap_ty == 0x03 {
        if d.len() >= 10 {
            Some(BosAnyDevDesc::SuperSpeed(superspeed_of(d)))
        } else {
            None
        }
    } else if cap_ty == 0x0A {
        if d.len() >= 14 {
            Some(BosAnyDevDesc::SuperSpeedPlus(superspeed_plus_of(d)))
        } else {
            None
        }
    } else if cap_ty == 0 {
        None
    } else {
        Some(BosAnyDevDesc::Unknown)
    }
}

/// The first `count` capabilities of `bytes`, as far as they can be decoded.
pub open spec fn bos_caps(bytes: Seq<u8>, count: nat) -> Seq<BosAnyDevDesc>
    decreases count,
{
    if count == 0 {
        Seq::empty()
    } else {
        match bos_next(bytes) {
            Some((base, d, rest)) => match bos_decode(base.cap_ty, d) {
                Some(x) => seq![x] + bos_caps(rest, (count - 1) as nat),
                None => Seq::empty(),
            },
            None => Seq::empty(),
        }
    }
}

/// Decodes the capability descriptors of a BOS descriptor one by one.
pub struct BosAnyDevDescIter<'a> {
    pub inner: BosDevDescIter<'a>,
}

impl<'a> BosAnyDevDescIter<'a> {
    pub fn new(bytes: &'a [u8]) -> (r: Self)
        ensures
            r.inner.bytes@ == bytes@,
    {
        BosAnyDevDescIter { inner: BosDevDescIter::new(bytes) }
    }

    /// The next capability; `None` where iteration stops.
    pub fn next(&mut self) -> (r: Option<BosAnyDevDesc>)
        ensures
            match bos_next(old(self).inner.bytes@) {
                Some((base, d, rest)) => r == bos_decode(base.cap_ty, d) && final(self).inner.bytes@ == rest,
                None => r is None && final(self).inner.bytes@ == old(self).inner.bytes@,
            },
    {
        let (base, slice) = match self.inner.next() {
            Some(x) => x,
            None => {
                return None;
            },
        };
        if base.cap_ty == 0x02 {
            if slice.len() < 7 {
                return None;
            }
            Some(
                BosAnyDevDesc::Usb2Ext(
                    BosUsb2ExtDesc {
                        len: slice[0],
                        kind: slice[1],
                        cap_ty: slice[2],
                        attrs: read_le32(slice, 3),
                    },
                ),
            )
        } else if base.cap_ty == 0x03 {
            if slice.len() < 10 {
                return None;
            }
            Some(
                BosAnyDevDesc::SuperSpeed(
                    BosSuperSpeedDesc {
                        len: slice[0],
                        kind: slice[1],
                        cap_ty: slice[2],
                        attrs: slice[3],
                        speed_supp: read_le16(slice, 4),
                        func_supp: slice[6],
                        u1_dev_exit_lat: slice[7],
                        u2_dev_exit_lat: read_le16(slice, 8),
                    },
                ),
            )
        } else if base.cap_ty == 0x0A {
            if slice.len() < 14 {
                return None;
            }
            Some(
                BosAnyDevDesc::SuperSpeedPlus(
                    BosSuperSpeedPlusDesc {
                        len: slice[0],
                        kind: slice[1],
                        cap_ty: slice[2],
                        rsvd0: slice[3],
                        attrs: read_le32(slice, 4),
                        func_supp: read_le32(slice, 8),
                        rsvd1: read_le16(slice, 12),
                    },
                ),
            )
        } else if base.cap_ty == 0 {
            None
        } else {
            Some(BosAnyDevDesc::Unknown)
        }
    }
}

/// The capabilities of a BOS descriptor `desc` whose remaining bytes are
/// `data`: at most `cap_count` of them, within the total length less the
/// header.
pub fn bos_capability_descs(desc: BosDescriptor, data: &[u8]) -> (r: Vec<BosAnyDevDesc>)
    requires
        desc.total_len >= BOS_DESCRIPTOR_LEN,
        desc.total_len - BOS_DESCRIPTOR_LEN <= data@.len(),
    ensures
        r@ == bos_caps(data@.take(desc.total_len - BOS_DESCRIPTOR_LEN), desc.cap_count as nat),
{
    let n = desc.total_len as usize - BOS_DESCRIPTOR_LEN;
    let bytes = &data[0..n];
    let mut it = BosAnyDevDescIter::new(bytes);
    let mut r: Vec<BosAnyDevDesc> = Vec::new();
    let count = desc.cap_count as usize;
    let mut k: usize = 0;
    assert(bytes@ =~= data@.take(n as int));
    while k < count
        invariant_except_break
            bos_caps(bytes@, count as nat) == r@ + bos_caps(it.inner.bytes@, (count - k) as nat),
        invariant
            k <= count,
            count == desc.cap_count,
        ensures
            bos_caps(bytes@, count as nat) == r@,
        decreases count - k,
    {
        let ghost before = it.inner.bytes@;
        match it.next() {
            Some(x) => {
                r.push(x);
                proof {
                    assert(bos_caps(before, (count - k) as nat) == seq![x] + bos_caps(
                        it.inner.bytes@,
                        (count - k - 1) as nat,
                    ));
                    assert(r@ + bos_caps(it.inner.bytes@, (count - k - 1) as nat) =~= r@.drop_last()
                        + (seq![x] + bos_caps(it.inner.bytes@, (count - k - 1) as nat)));
                }
            },
            None => {
                proof {
                    assert(bos_caps(before, (count - k) as nat) == Seq::<BosAnyDevDesc>::empty());
                    assert(r@ + Seq::<BosAnyDevDesc>::empty() =~= r@);
                    assert(bos_caps(bytes@, count as nat) == r@);
                }
                break;
            },
        }
        k = k + 1;
    }
    proof {
        if k == count {
            assert(r@ + Seq::<BosAnyDevDesc>::empty() =~= r@);
        }
    }
    r
}

/// The configuration descriptor (9 bytes).
#[derive(Clone, Copy, Debug, Default, PartialEq, Eq, Structural)]
pub struct ConfigDescriptor {
    pub length: u8,
    pub kind: u8,
    pub total_length: u16,
    pub interfaces: u8,
    pub configuration_value: u8,
    pub configuration_str: u8,
    pub attributes: u8,
    pub max_power: u8,
}

pub const CONFIG_DESCRIPTOR_LEN: usize = 9;

impl ConfigDescriptor {
    pub fn from_bytes(s: &[u8]) -> (r: Self)
        requires
            s@.len() >= CONFIG_DESCRIPTOR_LEN,
        ensures
            r == config_descriptor_of(s@),
    {
        ConfigDescriptor {
            length: s[0],
            kind: s[1],
            total_length: read_le16(s, 2),
            interfaces: s[4],
            configuration_value: s[5],
            configuration_str: s[6],
            attributes: s[7],
            max_power: s[8],
        }
    }
}

/// The endpoint descriptor (7 bytes).
#[derive(Clone, Copy, Debug, Default, PartialEq, Eq, Structural)]
pub struct EndpointDescriptor {
    pub length: u8,
    pub kind: u8,
    pub address: u8,
    pub attributes: u8,
    pub max_packet_size: u16,
    pub interval: u8,
}

pub const ENDPOINT_DESCRIPTOR_LEN: usize = 7;

impl EndpointDescriptor {
    pub fn from_bytes(s: &[u8]) -> (r: Self)
        requires
            s@.len() >= ENDPOINT_DESCRIPTOR_LEN,
        ensures
            r == endpoint_descriptor_of(s@),
    {
        EndpointDescriptor {
            length: s[0],
            kind: s[1],
            address: s[2],
            attributes: s[3],
            max_packet_size: read_le16(s, 4),
            interval: s[6],
        }
    }
}

/// The HID class descriptor with one optional descriptor entry (12 bytes).
#[derive(Clone, Copy, Debug, Default, PartialEq, Eq, Structural)]
pub struct HidDescriptor {
    pub length: u8,
    pub kind: u8,
    pub hid_spec_release: u16,
    pub country_code: u8,
    pub num_descriptors: u8,
    pub report_desc_ty: u8,
    pub report_desc_len: u16,
    pub optional_desc_ty: u8,
    pub optional_desc_len: u16,
}

pub const HID_DESCRIPTOR_LEN: usize = 12;

impl HidDescriptor {
    pub fn from_bytes(s: &[u8]) -> (r: Self)
        requires
            s@.len() >= HID_DESCRIPTOR_LEN,
        ensures
            r == hid_descriptor_of(s@),
    {
        HidDescriptor {
            length: s[0],
            kind: s[1],
            hid_spec_release: read_le16(s, 2),
            country_code: s[4],
            num_descriptors: s[5],
            report_desc_ty: s[6],
            report_desc_len: read_le16(s, 7),
            optional_desc_ty: s[9],
            optional_desc_len: read_le16(s, 10),
        }
    }
}

/// The SuperSpeed endpoint companion descriptor (6 bytes).
#[derive(Clone, Copy, Debug, Default, PartialEq, Eq, Structural)]
pub struct SuperSpeedCompanionDescriptor {
    pub length: u8,
    pub kind: u8,
    pub max_burst: u8,
    pub attributes: u8,
    pub bytes_per_interval: u16,
}

pub const SUPERSPEED_COMPANION_DESCRIPTOR_LEN: usize = 6;

impl SuperSpeedCompanionDescriptor {
    pub fn from_bytes(s: &[u8]) -> (r: Self)
        requires
            s@.len() >= SUPERSPEED_COMPANION_DESCRIPTOR_LEN,
        ensures
            r == ss_companion_of(s@),
    {
        SuperSpeedCompanionDescriptor {
            length: s[0],
            kind: s[1],
            max_burst: s[2],
            attributes: s[3],
            bytes_per_interval: read_le16(s, 4),
        }
    }
}

/// The SuperSpeedPlus isochronous endpoint companion descriptor (8 bytes).
#[derive(Clone, Copy, Debug, Default, PartialEq, Eq, Structural)]
pub struct SuperSpeedPlusIsochCmpDescriptor {
    pub length: u8,
    pub kind: u8,
    pub reserved: u16,
    pub bytes_per_interval: u32,
}

pub const SUPERSPEEDPLUS_ISOCH_CMP_DESCRIPTOR_LEN: usize = 8;

impl SuperSpeedPlusIsochCmpDescriptor {
    pub fn from_bytes(s: &[u8]) -> (r: Self)
        requires
            s@.len() >= SUPERSPEEDPLUS_ISOCH_CMP_DESCRIPTOR_LEN,
        ensures
            r == ssp_isoch_companion_of(s@),
    {
        SuperSpeedPlusIsochCmpDescriptor {
            length: s[0],
            kind: s[1],
            reserved: read_le16(s, 2),
            bytes_per_interval: read_le32(s, 4),
        }
    }
}

/// The bytes of an interface descriptor: bLength, bDescriptorType, bInterfaceNumber, bAlternateSetting, bNumEndpoints, bInterfaceClass, bInterfaceSubClass, bInterfaceProtocol, iInterface; multi-byte fields little endian.
pub open spec fn interface_descriptor_bytes(d: InterfaceDescriptor) -> Seq<u8> {
    seq![d.length, d.kind, d.number, d.alternate_setting, d.endpoints, d.class, d.sub_class, d.protocol, d.interface_str]
}

/// Reading a descriptor from the bytes that lay out `d` gives `d`: every
/// field comes from its own place in the layout.
pub proof fn lemma_interface_descriptor_round_trip(d: InterfaceDescriptor, s: Seq<u8>)
    requires
        s.len() >= 9,
        s.subrange(0, 9) == interface_descriptor_bytes(d),
    ensures
        interface_descriptor_of(s) == d,
{
    let e = interface_descriptor_bytes(d);
    assert(s[0] == e[0]);
    assert(s[1] == e[1]);
    assert(s[2] == e[2]);
    assert(s[3] == e[3]);
    assert(s[4] == e[4]);
    assert(s[5] == e[5]);
    assert(s[6] == e[6]);
    assert(s[7] == e[7]);
    assert(s[8] == e[8]);
}

/// The bytes of a device descriptor: bLength, bDescriptorType, bcdUSB, bDeviceClass, bDeviceSubClass, bDeviceProtocol, bMaxPacketSize0, idVendor, idProduct, bcdDevice, iManufacturer, iProduct, iSerialNumber, bNumConfigurations; multi-byte fields little endian.
pub open spec fn device_descriptor_bytes(d: DeviceDescriptor) -> Seq<u8> {
    seq![d.length, d.kind] + le_bytes16(d.usb) + seq![d.class, d.sub_class, d.protocol, d.packet_size] + le_bytes16(d.vendor) + le_bytes16(d.product) + le_bytes16(d.release) + seq![d.manufacturer_str, d.product_str, d.serial_str, d.configurations]
}

/// Reading a descriptor from the bytes that lay out `d` gives `d`: every
/// field comes from its own place in the layout.
pub proof fn lemma_device_descriptor_round_trip(d: DeviceDescriptor, s: Seq<u8>)
    requires
        s.len() >= 18,
        s.subrange(0, 18) == device_descriptor_bytes(d),
    ensures
        device_descriptor_of(s) == d,
{
    let e = device_descriptor_bytes(d);
    assert(s[0] == e[0]);
    assert(s[1] == e[1]);
    assert(s.subrange(2, 4) =~= s.subrange(0, 18).subrange(2, 4));
    assert(e.subrange(2, 4) =~= le_bytes16(d.usb));
    lemma_le16_of_bytes(s, 2, d.usb);
    assert(s[4] == e[4]);
    assert(s[5] == e[5]);
    assert(s[6] == e[6]);
    assert(s[7] == e[7]);
    assert(s.subrange(8, 10) =~= s.subrange(0, 18).subrange(8, 10));
    assert(e.subrange(8, 10) =~= le_bytes16(d.vendor));
    lemma_le16_of_bytes(s, 8, d.vendor);
    assert(s.subrange(10, 12) =~= s.subrange(0, 18).subrange(10, 12));
    assert(e.subrange(10, 12) =~= le_bytes16(d.product));
    lemma_le16_of_bytes(s, 10, d.product);
    assert(s.subrange(12, 14) =~= s.subrange(0, 18).subrange(12, 14));
    assert(e.subrange(12, 14) =~= le_bytes16(d.release));
    lemma_le16_of_bytes(s, 12, d.release);
    assert(s[14] == e[14]);
    assert(s[15] == e[15]);
    assert(s[16] == e[16]);
    assert(s[17] == e[17]);
}

/// The bytes of a configuration descriptor: bLength, bDescriptorType, wTotalLength, bNumInterfaces, bConfigurationValue, iConfiguration, bmAttributes, bMaxPower; multi-byte fields little endian.
pub open spec fn config_descriptor_bytes(d: ConfigDescriptor) -> Seq<u8> {
    seq![d.length, d.kind] + le_bytes16(d.total_length) + seq![d.interfaces, d.configuration_value, d.configuration_str, d.attributes, d.max_power]
}

/// Reading a descriptor from the bytes that lay out `d` gives `d`: every
/// field comes from its own place in the layout.
pub proof fn lemma_config_descriptor_round_trip(d: ConfigDescriptor, s: Seq<u8>)
    requires
        s.len() >= 9,
        s.subrange(0, 9) == config_descriptor_bytes(d),
    ensures
        config_descriptor_of(s) == d,
{
    let e = config_descriptor_bytes(d);
    assert(s[0] == e[0]);
    assert(s[1] == e[1]);
    assert(s.subrange(2, 4) =~= s.subrange(0, 9).subrange(2, 4));
    assert(e.subrange(2, 4) =~= le_bytes16(d.total_length));
    lemma_le16_of_bytes(s, 2, d.total_length);
    assert(s[4] == e[4]);
    assert(s[5] == e[5]);
    assert(s[6] == e[6]);
    assert(s[7] == e[7]);
    assert(s[8] == e[8]);
}

/// The bytes of an endpoint descriptor: bLength, bDescriptorType, bEndpointAddress, bmAttributes, wMaxPacketSize, bInterval; multi-byte fields little endian.
pub open spec fn endpoint_descriptor_bytes(d: EndpointDescriptor) -> Seq<u8> {
    seq![d.length, d.kind, d.address, d.attributes] + le_bytes16(d.max_packet_size) + seq![d.interval]
}

/// Reading a descriptor from the bytes that lay out `d` gives `d`: every
/// field comes from its own place in the layout.
pub proof fn lemma_endpoint_descriptor_round_trip(d: EndpointDescriptor, s: Seq<u8>)
    requires
        s.len() >= 7,
        s.subrange(0, 7) == endpoint_descriptor_bytes(d),
    ensures
        endpoint_descriptor_of(s) == d,
{
    let e = endpoint_descriptor_bytes(d);
    assert(s[0] == e[0]);
    assert(s[1] == e[1]);
    assert(s[2] == e[2]);
    assert(s[3] == e[3]);
    assert(s.subrange(4, 6) =~= s.subrange(0, 7).subrange(4, 6));
    assert(e.subrange(4, 6) =~= le_bytes16(d.max_packet_size));
    lemma_le16_of_bytes(s, 4, d.max_packet_size);
    assert(s[6] == e[6]);
}

/// The bytes of a HID descriptor: bLength, bDescriptorType, bcdHID, bCountryCode, bNumDescriptors, bDescriptorType and wDescriptorLength of the report descriptor, then of an optional one; multi-byte fields little endian.
pub open spec fn hid_descriptor_bytes(d: HidDescriptor) -> Seq<u8> {
    seq![d.length, d.kind] + le_bytes16(d.hid_spec_release) + seq![d.country_code, d.num_descriptors, d.report_desc_ty] + le_bytes16(d.report_desc_len) + seq![d.optional_desc_ty] + le_bytes16(d.optional_desc_len)
}

/// Reading a descriptor from the bytes that lay out `d` gives `d`: every
/// field comes from its own place in the layout.
pub proof fn lemma_hid_descriptor_round_trip(d: HidDescriptor, s: Seq<u8>)
    requires
        s.len() >= 12,
        s.subrange(0, 12) == hid_descriptor_bytes(d),
    ensures
        hid_descriptor_of(s) == d,
{
    let e = hid_descriptor_bytes(d);
    assert(s[0] == e[0]);
    assert(s[1] == e[1]);
    assert(s.subrange(2, 4) =~= s.subrange(0, 12).subrange(2, 4));
    assert(e.subrange(2, 4) =~= le_bytes16(d.hid_spec_release));
    lemma_le16_of_bytes(s, 2, d.hid_spec_release);
    assert(s[4] == e[4]);
    assert(s[5] == e[5]);
    assert(s[6] == e[6]);
    assert(s.subrange(7, 9) =~= s.subrange(0, 12).subrange(7, 9));
    assert(e.subrange(7, 9) =~= le_bytes16(d.report_desc_len));
    lemma_le16_of_bytes(s, 7, d.report_desc_len);
    assert(s[9] == e[9]);
    assert(s.subrange(10, 12) =~= s.subrange(0, 12).subrange(10, 12));
    assert(e.subrange(10, 12) =~= le_bytes16(d.optional_desc_len));
    lemma_le16_of_bytes(s, 10, d.optional_desc_len);
}

/// An interface descriptor holds nothing but its nine bytes: laying out
/// what was read gives back the bytes it was read from.
pub proof fn lemma_interface_descriptor_bytes_read(s: Seq<u8>)
    requires
        s.len() >= 9,
    ensures
        interface_descriptor_bytes(interface_descriptor_of(s)) == s.subrange(0, 9),
{
    assert(interface_descriptor_bytes(interface_descriptor_of(s)) =~= s.subrange(0, 9));
}

/// The bytes of a SuperSpeed endpoint companion descriptor: bLength, bDescriptorType, bMaxBurst, bmAttributes, wBytesPerInterval; multi-byte fields little endian.
pub open spec fn ss_companion_bytes(d: SuperSpeedCompanionDescriptor) -> Seq<u8> {
    seq![d.length, d.kind, d.max_burst, d.attributes] + le_bytes16(d.bytes_per_interval)
}

/// Reading a descriptor from the bytes that lay out `d` gives `d`.
pub proof fn lemma_ss_companion_round_trip(d: SuperSpeedCompanionDescriptor, s: Seq<u8>)
    requires
        s.len() >= 6,
        s.subrange(0, 6) == ss_companion_bytes(d),
    ensures
        ss_companion_of(s) == d,
{
    let e = ss_companion_bytes(d);
    assert(s[0] == e[0]);
    assert(s[1] == e[1]);
    assert(s[2] == e[2]);
    assert(s[3] == e[3]);
    assert(s.subrange(4, 6) =~= s.subrange(0, 6).subrange(4, 6));
    assert(e.subrange(4, 6) =~= le_bytes16(d.bytes_per_interval));
    lemma_le16_of_bytes(s, 4, d.bytes_per_interval);
}

/// The bytes of a SuperSpeedPlus isochronous endpoint companion descriptor: bLength, bDescriptorType, wReserved, dwBytesPerInterval; multi-byte fields little endian.
pub open spec fn ssp_isoch_companion_bytes(d: SuperSpeedPlusIsochCmpDescriptor) -> Seq<u8> {
    seq![d.length, d.kind] + le_bytes16(d.reserved) + le_bytes32(d.bytes_per_interval)
}

/// Reading a descriptor from the bytes that lay out `d` gives `d`.
pub proof fn lemma_ssp_isoch_companion_round_trip(d: SuperSpeedPlusIsochCmpDescriptor, s: Seq<u8>)
    requires
        s.len() >= 8,
        s.subrange(0, 8) == ssp_isoch_companion_bytes(d),
    ensures
        ssp_isoch_companion_of(s) == d,
{
    let e = ssp_isoch_companion_bytes(d);
    assert(s[0] == e[0]);
    assert(s[1] == e[1]);
    assert(s.subrange(2, 4) =~= s.subrange(0, 8).subrange(2, 4));
    assert(e.subrange(2, 4) =~= le_bytes16(d.reserved));
    lemma_le16_of_bytes(s, 2, d.reserved);
    assert(s.subrange(4, 8) =~= s.subrange(0, 8).subrange(4, 8));
    assert(e.subrange(4, 8) =~= le_bytes32(d.bytes_per_interval));
    lemma_le32_of_bytes(s, 4, d.bytes_per_interval);
}

/// The records that the descriptor readers give for a byte sequence.
pub open spec fn device_descriptor_of(s: Seq<u8>) -> DeviceDescriptor {
    DeviceDescriptor {
        length: s[0],
        kind: s[1],
        usb: le16(s, 2) as u16,
        class: s[4],
        sub_class: s[5],
        protocol: s[6],
        packet_size: s[7],
        vendor: le16(s, 8) as u16,
        product: le16(s, 10) as u16,
        release: le16(s, 12) as u16,
        manufacturer_str: s[14],
        product_str: s[15],
        serial_str: s[16],
        configurations: s[17],
    }
}

pub open spec fn interface_descriptor_of(s: Seq<u8>) -> InterfaceDescriptor {
    InterfaceDescriptor {
        length: s[0],
        kind: s[1],
        number: s[2],
        alternate_setting: s[3],
        endpoints: s[4],
        class: s[5],
        sub_class: s[6],
        protocol: s[7],
        interface_str: s[8],
    }
}

pub open spec fn config_descriptor_of(s: Seq<u8>) -> ConfigDescriptor {
    ConfigDescriptor {
        length: s[0],
        kind: s[1],
        total_length: le16(s, 2) as u16,
        interfaces: s[4],
        configuration_value: s[5],
        configuration_str: s[6],
        attributes: s[7],
        max_power: s[8],
    }
}

pub open spec fn endpoint_descriptor_of(s: Seq<u8>) -> EndpointDescriptor {
    EndpointDescriptor {
        length: s[0],
        kind: s[1],
        address: s[2],
        attributes: s[3],
        max_packet_size: le16(s, 4) as u16,
        interval: s[6],
    }
}

pub open spec fn hid_descriptor_of(s: Seq<u8>) -> HidDescriptor {
    HidDescriptor {
        length: s[0],
        kind: s[1],
        hid_spec_release: le16(s, 2) as u16,
        country_code: s[4],
        num_descriptors: s[5],
        report_desc_ty: s[6],
        report_desc_len: le16(s, 7) as u16,
        optional_desc_ty: s[9],
        optional_desc_len: le16(s, 10) as u16,
    }
}

pub open spec fn ss_companion_of(s: Seq<u8>) -> SuperSpeedCompanionDescriptor {
    SuperSpeedCompanionDescriptor {
        length: s[0],
        kind: s[1],
        max_burst: s[2],
        attributes: s[3],
        bytes_per_interval: le16(s, 4) as u16,
    }
}

pub open spec fn ssp_isoch_companion_of(s: Seq<u8>) -> SuperSpeedPlusIsochCmpDescriptor {
    SuperSpeedPlusIsochCmpDescriptor {
        length: s[0],
        kind: s[1],
        reserved: le16(s, 2) as u16,
        bytes_per_interval: le32(s, 4) as u32,
    }
}

} // verus!
