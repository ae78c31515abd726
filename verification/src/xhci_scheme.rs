//! The xHCI daemon's side of its scheme: reading the descriptors of a
//! configuration into interfaces and endpoints, and the state machine of an
//! endpoint's control and data files.

use vstd::prelude::*;
use crate::usb::{
    bit, has_bit,
    config_descriptor_of, device_descriptor_of, endpoint_descriptor_of, hid_descriptor_of,
    interface_descriptor_of, ss_companion_of, ssp_isoch_companion_of, ConfigDescriptor,
    DeviceDescriptor, EndpointDescriptor, HidDescriptor, InterfaceDescriptor,
    SuperSpeedCompanionDescriptor, SuperSpeedPlusIsochCmpDescriptor, Setup,
};
use crate::port_id::{pow16, route_depth, PortId};
use crate::bytes::{le16, le64, read_le16, read_le64};
use crate::xhci_iface::{
    spec_endp_direction, spec_endp_ty, EndpDirection, EndpointTy, PortReq, PortReqDirection,
    PortReqRecipient, PortReqTy,
    PortState, EndpDesc, EndpointStatus, HidDesc, PortTransferStatus, PortTransferStatusKind, SuperSpeedCmp,
    SuperSpeedPlusIsochCmp, XhciEndpCtlDirection, XhciEndpCtlReq, XhciEndpCtlRes, ConfDesc, DevDesc,
    IfDesc, xhci_ep_type_of,
};

verus! {

/// Completion code of a successful TRB.
pub const TRB_COMPLETION_SUCCESS: u8 = 1;
/// Completion code of a stalled transfer.
pub const TRB_COMPLETION_STALL: u8 = 6;
/// Completion code of a short packet.
pub const TRB_COMPLETION_SHORT_PACKET: u8 = 13;

/// `a / b`, rounded up.
pub fn div_round_up(a: u64, b: u64) -> (r: u64)
    requires
        b > 0,
    ensures
        r == (if a % b != 0 { a / b + 1 } else { (a / b) as int }),
        r * b >= a,
{
    if a % b != 0 {
        assert(a / b < a || b == 1) by (nonlinear_arith)
            requires
                b > 0,
                a % b != 0,
        ;
        assert((a / b + 1) * b >= a) by (nonlinear_arith)
            requires
                b > 0,
        ;
        a / b + 1
    } else {
        assert((a / b) * b == a) by (nonlinear_arith)
            requires
                b > 0,
                a % b == 0,
        ;
        a / b
    }
}

/// Copies into `buf` the part of `string` that a read at `offset` returns:
/// as much as fits, less the offset.
pub fn write_dyn_string(string: &[u8], buf: &mut [u8], offset: usize) -> (r: usize)
    ensures
        ({
            let max: int = if string@.len() < old(buf)@.len() { string@.len() as int } else { old(buf)@.len() as int };
            r == (if offset > max { offset as int } else { max }) - offset
        }),
        final(buf)@.len() == old(buf)@.len(),
        final(buf)@.take(r as int) == string@.take(r as int),
        final(buf)@.skip(r as int) == old(buf)@.skip(r as int),
{
    let max_bytes = if string.len() < buf.len() { string.len() } else { buf.len() };
    let n = (if offset > max_bytes { offset } else { max_bytes }) - offset;
    let mut i: usize = 0;
    while i < n
        invariant
            n <= string@.len(),
            n <= buf@.len(),
            buf@.len() == old(buf)@.len(),
            i <= n,
            forall|j: int| 0 <= j < i ==> buf@[j] == string@[j],
            forall|j: int| i <= j < buf@.len() ==> buf@[j] == old(buf)@[j],
        decreases n - i,
    {
        buf[i] = string[i];
        i = i + 1;
    }
    assert(buf@.take(n as int) =~= string@.take(n as int));
    assert(buf@.skip(n as int) =~= old(buf)@.skip(n as int));
    n
}

/// Any descriptor that can follow a configuration descriptor.
#[derive(Clone, Copy, Debug, PartialEq, Eq, Structural)]
pub enum AnyDescriptor {
    Device(DeviceDescriptor),
    Config(ConfigDescriptor),
    Interface(InterfaceDescriptor),
    Endpoint(EndpointDescriptor),
    Hid(HidDescriptor),
    SuperSpeedCompanion(SuperSpeedCompanionDescriptor),
    SuperSpeedPlusCompanion(SuperSpeedPlusIsochCmpDescriptor),
}

/// The descriptor at the start of `bytes` and its length field, where the
/// header is there, the length fits, the type is one that is read, and
/// enough bytes remain for its record.
pub open spec fn spec_parse_descriptor(bytes: Seq<u8>) -> Option<(AnyDescriptor, nat)> {
    if bytes.len() < 2 || bytes.len() < bytes[0] {
        None
    } else {
        let len = bytes[0] as nat;
        let kind = bytes[1];
        if kind == 1 && bytes.len() >= 18 {
            Some((AnyDescriptor::Device(device_descriptor_of(bytes)), len))
        } else if kind == 2 && bytes.len() >= 9 {
            Some((AnyDescriptor::Config(config_descriptor_of(bytes)), len))
        } else if kind == 4 && bytes.len() >= 9 {
            Some((AnyDescriptor::Interface(interface_descriptor_of(bytes)), len))
        } else if kind == 5 && bytes.len() >= 7 {
            Some((AnyDescriptor::Endpoint(endpoint_descriptor_of(bytes)), len))
        } else if kind == 33 && bytes.len() >= 12 {
            Some((AnyDescriptor::Hid(hid_descriptor_of(bytes)), len))
        } else if kind == 48 && bytes.len() >= 6 {
            Some((AnyDescriptor::SuperSpeedCompanion(ss_companion_of(bytes)), len))
        } else if kind == 49 && bytes.len() >= 8 {
            Some((AnyDescriptor::SuperSpeedPlusCompanion(ssp_isoch_companion_of(bytes)), len))
        } else {
            None
        }
    }
}

impl AnyDescriptor {
    /// Reads the descriptor at the start of `bytes`, with its length.
    pub fn parse(bytes: &[u8]) -> (r: Option<(Self, usize)>)
        ensures
            match spec_parse_descriptor(bytes@) {
                Some((d, n)) => r == Some((d, n as usize)),
                None => r is None,
            },
    {
        if bytes.len() < 2 {
            return None;
        }
        let len = bytes[0];
        let kind = bytes[1];
        if bytes.len() < len as usize {
            return None;
        }
        let d = if kind == 1 && bytes.len() >= 18 {
            AnyDescriptor::Device(DeviceDescriptor::from_bytes(bytes))
        } else if kind == 2 && bytes.len() >= 9 {
            AnyDescriptor::Config(ConfigDescriptor::from_bytes(bytes))
        } else if kind == 4 && bytes.len() >= 9 {
            AnyDescriptor::Interface(InterfaceDescriptor::from_bytes(bytes))
        } else if kind == 5 && bytes.len() >= 7 {
            AnyDescriptor::Endpoint(EndpointDescriptor::from_bytes(bytes))
        } else if kind == 33 && bytes.len() >= 12 {
            AnyDescriptor::Hid(HidDescriptor::from_bytes(bytes))
        } else if kind == 48 && bytes.len() >= 6 {
            AnyDescriptor::SuperSpeedCompanion(SuperSpeedCompanionDescriptor::from_bytes(bytes))
        } else if kind == 49 && bytes.len() >= 8 {
            AnyDescriptor::SuperSpeedPlusCompanion(SuperSpeedPlusIsochCmpDescriptor::from_bytes(bytes))
        } else {
            return None;
        };
        Some((d, len as usize))
    }
}

/// The descriptors that follow a configuration descriptor, read one after
/// another until one cannot be read; `None` where a descriptor of length
/// zero would be read again and again.
pub open spec fn config_descriptors(data: Seq<u8>) -> Option<Seq<AnyDescriptor>>
    decreases data.len(),
{
    match spec_parse_descriptor(data) {
        None => Some(Seq::empty()),
        Some((d, n)) => if n == 0 {
            None
        } else {
            match config_descriptors(data.skip(n as int)) {
                Some(rest) => Some(seq![d] + rest),
                None => None,
            }
        },
    }
}

/// Reads the descriptors of the data area of a configuration descriptor.
pub fn parse_config_descriptors(data: &[u8]) -> (r: Vec<AnyDescriptor>)
    requires
        config_descriptors(data@) is Some,
    ensures
        config_descriptors(data@) == Some(r@),
{
    let mut r: Vec<AnyDescriptor> = Vec::new();
    let mut i: usize = 0;
    assert(data@.skip(0) =~= data@);
    loop
        invariant
            i <= data@.len(),
            config_descriptors(data@.skip(i as int)) is Some,
            config_descriptors(data@) == Some(r@ + config_descriptors(data@.skip(i as int)).unwrap()),
        decreases data@.len() - i,
    {
        let rest = &data[i..data.len()];
        assert(rest@ =~= data@.skip(i as int));
        match AnyDescriptor::parse(rest) {
            Some((d, n)) => {
                proof {
                    assert(rest@.skip(n as int) =~= data@.skip(i + n));
                    let tail = config_descriptors(data@.skip(i + n)).unwrap();
                    assert(r@.push(d) + tail =~= r@ + (seq![d] + tail));
                }
                r.push(d);
                i = i + n;
            },
            None => {
                assert(r@ + Seq::<AnyDescriptor>::empty() =~= r@);
                return r;
            },
        }
    }
}

/// The endpoint a driver sees for an endpoint descriptor, before companions.
pub open spec fn endp_desc_of(d: EndpointDescriptor) -> EndpDesc {
    EndpDesc {
        kind: d.kind,
        address: d.address,
        attributes: d.attributes,
        max_packet_size: d.max_packet_size,
        interval: d.interval,
        ssc: None,
        sspc: None,
    }
}

pub open spec fn hid_desc_of(d: HidDescriptor) -> HidDesc {
    HidDesc {
        kind: d.kind,
        hid_spec_release: d.hid_spec_release,
        country: d.country_code,
        desc_count: d.num_descriptors,
        desc_ty: d.report_desc_ty,
        desc_len: d.report_desc_len,
        optional_desc_ty: d.optional_desc_ty,
        optional_desc_len: d.optional_desc_len,
    }
}

pub open spec fn ss_cmp_of(d: SuperSpeedCompanionDescriptor) -> SuperSpeedCmp {
    SuperSpeedCmp {
        kind: d.kind,
        max_burst: d.max_burst,
        attributes: d.attributes,
        bytes_per_interval: d.bytes_per_interval,
    }
}

pub open spec fn ssp_cmp_of(d: SuperSpeedPlusIsochCmpDescriptor) -> SuperSpeedPlusIsochCmp {
    SuperSpeedPlusIsochCmp { kind: d.kind, bytes_per_interval: d.bytes_per_interval }
}

impl From<EndpointDescriptor> for EndpDesc {
    fn from(d: EndpointDescriptor) -> (r: Self) {
        EndpDesc {
            kind: d.kind,
            address: d.address,
            attributes: d.attributes,
            max_packet_size: d.max_packet_size,
            interval: d.interval,
            ssc: None,
            sspc: None,
        }
    }
}

impl vstd::std_specs::convert::FromSpecImpl<EndpointDescriptor> for EndpDesc {
    open spec fn obeys_from_spec() -> bool {
        true
    }

    open spec fn from_spec(d: EndpointDescriptor) -> Self {
        endp_desc_of(d)
    }
}

impl From<HidDescriptor> for HidDesc {
    fn from(d: HidDescriptor) -> (r: Self) {
        HidDesc {
            kind: d.kind,
            hid_spec_release: d.hid_spec_release,
            country: d.country_code,
            desc_count: d.num_descriptors,
            desc_ty: d.report_desc_ty,
            desc_len: d.report_desc_len,
            optional_desc_ty: d.optional_desc_ty,
            optional_desc_len: d.optional_desc_len,
        }
    }
}

impl vstd::std_specs::convert::FromSpecImpl<HidDescriptor> for HidDesc {
    open spec fn obeys_from_spec() -> bool {
        true
    }

    open spec fn from_spec(d: HidDescriptor) -> Self {
        hid_desc_of(d)
    }
}

impl From<SuperSpeedCompanionDescriptor> for SuperSpeedCmp {
    fn from(d: SuperSpeedCompanionDescriptor) -> (r: Self) {
        SuperSpeedCmp {
            kind: d.kind,
            max_burst: d.max_burst,
            attributes: d.attributes,
            bytes_per_interval: d.bytes_per_interval,
        }
    }
}

impl vstd::std_specs::convert::FromSpecImpl<SuperSpeedCompanionDescriptor> for SuperSpeedCmp {
    open spec fn obeys_from_spec() -> bool {
        true
    }

    open spec fn from_spec(d: SuperSpeedCompanionDescriptor) -> Self {
        ss_cmp_of(d)
    }
}

impl From<SuperSpeedPlusIsochCmpDescriptor> for SuperSpeedPlusIsochCmp {
    fn from(d: SuperSpeedPlusIsochCmpDescriptor) -> (r: Self) {
        SuperSpeedPlusIsochCmp { kind: d.kind, bytes_per_interval: d.bytes_per_interval }
    }
}

impl vstd::std_specs::convert::FromSpecImpl<SuperSpeedPlusIsochCmpDescriptor> for SuperSpeedPlusIsochCmp {
    open spec fn obeys_from_spec() -> bool {
        true
    }

    open spec fn from_spec(d: SuperSpeedPlusIsochCmpDescriptor) -> Self {
        ssp_cmp_of(d)
    }
}

/// An endpoint with the companion descriptors that directly follow it in
/// `s`, and what remains of `s` after them.
pub open spec fn with_companions(e: EndpDesc, s: Seq<AnyDescriptor>) -> (EndpDesc, Seq<AnyDescriptor>)
    decreases s.len(),
{
    if s.len() == 0 {
        (e, s)
    } else {
        match s[0] {
            AnyDescriptor::SuperSpeedCompanion(n) => with_companions(
                EndpDesc { ssc: Some(ss_cmp_of(n)), ..e },
                s.skip(1),
            ),
            AnyDescriptor::SuperSpeedPlusCompanion(n) => with_companions(
                EndpDesc { sspc: Some(ssp_cmp_of(n)), ..e },
                s.skip(1),
            ),
            _ => (e, s),
        }
    }
}

pub proof fn lemma_with_companions_len(e: EndpDesc, s: Seq<AnyDescriptor>)
    ensures
        with_companions(e, s).1.len() <= s.len(),
    decreases s.len(),
{
    if s.len() > 0 {
        match s[0] {
            AnyDescriptor::SuperSpeedCompanion(n) => lemma_with_companions_len(
                EndpDesc { ssc: Some(ss_cmp_of(n)), ..e },
                s.skip(1),
            ),
            AnyDescriptor::SuperSpeedPlusCompanion(n) => lemma_with_companions_len(
                EndpDesc { sspc: Some(ssp_cmp_of(n)), ..e },
                s.skip(1),
            ),
            _ => {},
        }
    }
}

/// The endpoints (with their companions) and HID descriptors of an
/// interface that wants `want` endpoints and has class `class`, taken from
/// the descriptors `s` that follow it; and what remains of `s`. A HID
/// descriptor counts for a HID interface (class 3) only; any other
/// descriptor ends the interface and is dropped.
pub open spec fn take_endpoints(
    s: Seq<AnyDescriptor>,
    want: nat,
    class: u8,
    eps: Seq<EndpDesc>,
    hids: Seq<HidDesc>,
) -> (Seq<EndpDesc>, Seq<HidDesc>, Seq<AnyDescriptor>)
    decreases s.len(),
{
    if eps.len() >= want || s.len() == 0 {
        (eps, hids, s)
    } else {
        match s[0] {
            AnyDescriptor::Endpoint(n) => {
                let (e, rest) = with_companions(endp_desc_of(n), s.skip(1));
                proof {
                    lemma_with_companions_len(endp_desc_of(n), s.skip(1));
                }
                take_endpoints(rest, want, class, eps.push(e), hids)
            },
            AnyDescriptor::Hid(h) => if class == 3 {
                take_endpoints(s.skip(1), want, class, eps, hids.push(hid_desc_of(h)))
            } else {
                (eps, hids, s.skip(1))
            },
            _ => (eps, hids, s.skip(1)),
        }
    }
}

pub proof fn lemma_take_endpoints_len(
    s: Seq<AnyDescriptor>,
    want: nat,
    class: u8,
    eps: Seq<EndpDesc>,
    hids: Seq<HidDesc>,
)
    ensures
        take_endpoints(s, want, class, eps, hids).2.len() <= s.len(),
    decreases s.len(),
{
    if eps.len() >= want || s.len() == 0 {
    } else {
        match s[0] {
            AnyDescriptor::Endpoint(n) => {
                lemma_with_companions_len(endp_desc_of(n), s.skip(1));
                let (e, rest) = with_companions(endp_desc_of(n), s.skip(1));
                lemma_take_endpoints_len(rest, want, class, eps.push(e), hids);
            },
            AnyDescriptor::Hid(h) => if class == 3 {
                lemma_take_endpoints_len(s.skip(1), want, class, eps, hids.push(hid_desc_of(h)));
            },
            _ => {},
        }
    }
}

/// The interfaces of a configuration, each with its endpoints and HID
/// descriptors, from the descriptors that follow the configuration
/// descriptor; descriptors found where an interface was expected are skipped.
pub open spec fn group_interfaces(s: Seq<AnyDescriptor>) -> Seq<
    (InterfaceDescriptor, Seq<EndpDesc>, Seq<HidDesc>),
>
    decreases s.len(),
{
    if s.len() == 0 {
        Seq::empty()
    } else {
        match s[0] {
            AnyDescriptor::Interface(i) => {
                let (eps, hids, rest) = take_endpoints(
                    s.skip(1),
                    i.endpoints as nat,
                    i.class,
                    Seq::empty(),
                    Seq::empty(),
                );
                proof {
                    lemma_take_endpoints_len(
                        s.skip(1),
                        i.endpoints as nat,
                        i.class,
                        Seq::empty(),
                        Seq::empty(),
                    );
                }
                seq![(i, eps, hids)] + group_interfaces(rest)
            },
            _ => group_interfaces(s.skip(1)),
        }
    }
}

/// An interface of a configuration, with its endpoints and HID descriptors.
#[derive(Clone, Debug)]
pub struct InterfaceGroup {
    pub desc: InterfaceDescriptor,
    pub endpoints: Vec<EndpDesc>,
    pub hid_descs: Vec<HidDesc>,
}

fn collect_companions(e: EndpDesc, s: &[AnyDescriptor], pos: usize) -> (r: (EndpDesc, usize))
    requires
        pos <= s@.len(),
    ensures
        pos <= r.1 <= s@.len(),
        with_companions(e, s@.skip(pos as int)) == (r.0, s@.skip(r.1 as int)),
{
    let mut cur = e;
    let mut i = pos;
    while i < s.len()
        invariant
            pos <= i <= s@.len(),
            with_companions(e, s@.skip(pos as int)) == with_companions(cur, s@.skip(i as int)),
        decreases s@.len() - i,
    {
        assert(s@.skip(i as int)[0] == s@[i as int]);
        assert(s@.skip(i as int).skip(1) =~= s@.skip(i + 1));
        match s[i] {
            AnyDescriptor::SuperSpeedCompanion(n) => {
                cur = EndpDesc { ssc: Some(SuperSpeedCmp::from(n)), ..cur };
            },
            AnyDescriptor::SuperSpeedPlusCompanion(n) => {
                cur = EndpDesc { sspc: Some(SuperSpeedPlusIsochCmp::from(n)), ..cur };
            },
            _ => {
                return (cur, i);
            },
        }
        i = i + 1;
    }
    assert(s@.skip(i as int).len() == 0);
    (cur, i)
}

fn collect_endpoints(s: &[AnyDescriptor], pos: usize, want: u8, class: u8) -> (r: (
    Vec<EndpDesc>,
    Vec<HidDesc>,
    usize,
))
    requires
        pos <= s@.len(),
    ensures
        pos <= r.2 <= s@.len(),
        ({
            let t = take_endpoints(
                s@.skip(pos as int),
                want as nat,
                class,
                Seq::<EndpDesc>::empty(),
                Seq::<HidDesc>::empty(),
            );
            &&& t.0 == r.0@
            &&& t.1 == r.1@
            &&& t.2 == s@.skip(r.2 as int)
        }),
{
    let mut eps: Vec<EndpDesc> = Vec::new();
    let mut hids: Vec<HidDesc> = Vec::new();
    let mut i = pos;
    let ghost goal = take_endpoints(
        s@.skip(pos as int),
        want as nat,
        class,
        Seq::<EndpDesc>::empty(),
        Seq::<HidDesc>::empty(),
    );
    assert(eps@ =~= Seq::<EndpDesc>::empty());
    assert(hids@ =~= Seq::<HidDesc>::empty());
    loop
        invariant
            pos <= i <= s@.len(),
            goal == take_endpoints(
                s@.skip(pos as int),
                want as nat,
                class,
                Seq::<EndpDesc>::empty(),
                Seq::<HidDesc>::empty(),
            ),
            goal.0 == take_endpoints(s@.skip(i as int), want as nat, class, eps@, hids@).0,
            goal.1 == take_endpoints(s@.skip(i as int), want as nat, class, eps@, hids@).1,
            goal.2 == take_endpoints(s@.skip(i as int), want as nat, class, eps@, hids@).2,
        decreases s@.len() - i,
    {
        if eps.len() >= want as usize || i >= s.len() {
            assert(eps@.len() >= want || s@.skip(i as int).len() == 0);
            return (eps, hids, i);
        }
        assert(s@.skip(i as int)[0] == s@[i as int]);
        assert(s@.skip(i as int).skip(1) =~= s@.skip(i + 1));
        match s[i] {
            AnyDescriptor::Endpoint(n) => {
                let (e, next) = collect_companions(EndpDesc::from(n), s, i + 1);
                eps.push(e);
                i = next;
            },
            AnyDescriptor::Hid(h) => {
                if class == 3 {
                    hids.push(HidDesc::from(h));
                    i = i + 1;
                } else {
                    assert(goal.0 == eps@ && goal.1 == hids@ && goal.2 == s@.skip(i + 1));
                    return (eps, hids, i + 1);
                }
            },
            _ => {
                assert(goal.0 == eps@ && goal.1 == hids@ && goal.2 == s@.skip(i + 1));
                return (eps, hids, i + 1);
            },
        }
    }
}

/// Groups the descriptors of a configuration into its interfaces.
pub fn group_interfaces_exec(s: &[AnyDescriptor]) -> (r: Vec<InterfaceGroup>)
    ensures
        r@.len() == group_interfaces(s@).len(),
        forall|k: int|
            0 <= k < r@.len() ==> {
                &&& (#[trigger] r@[k]).desc == group_interfaces(s@)[k].0
                &&& r@[k].endpoints@ == group_interfaces(s@)[k].1
                &&& r@[k].hid_descs@ == group_interfaces(s@)[k].2
            },
{
    let mut r: Vec<InterfaceGroup> = Vec::new();
    let mut i: usize = 0;
    let ghost mut done: Seq<(InterfaceDescriptor, Seq<EndpDesc>, Seq<HidDesc>)> = Seq::empty();
    assert(s@.skip(0) =~= s@);
    while i < s.len()
        invariant
            i <= s@.len(),
            group_interfaces(s@) == done + group_interfaces(s@.skip(i as int)),
            r@.len() == done.len(),
            forall|k: int|
                0 <= k < r@.len() ==> {
                    &&& (#[trigger] r@[k]).desc == done[k].0
                    &&& r@[k].endpoints@ == done[k].1
                    &&& r@[k].hid_descs@ == done[k].2
                },
        decreases s@.len() - i,
    {
        assert(s@.skip(i as int)[0] == s@[i as int]);
        assert(s@.skip(i as int).skip(1) =~= s@.skip(i + 1));
        match s[i] {
            AnyDescriptor::Interface(idesc) => {
                let (eps, hids, next) = collect_endpoints(s, i + 1, idesc.endpoints, idesc.class);
                let ghost item = (idesc, eps@, hids@);
                proof {
                    assert(group_interfaces(s@.skip(i as int)) == seq![item] + group_interfaces(
                        s@.skip(next as int),
                    ));
                    assert(done.push(item) + group_interfaces(s@.skip(next as int)) =~= done + (seq![item]
                        + group_interfaces(s@.skip(next as int))));
                    done = done.push(item);
                }
                r.push(InterfaceGroup { desc: idesc, endpoints: eps, hid_descs: hids });
                i = next;
            },
            _ => {
                i = i + 1;
            },
        }
    }
    assert(s@.skip(i as int) =~= Seq::<AnyDescriptor>::empty());
    assert(done + Seq::<(InterfaceDescriptor, Seq<EndpDesc>, Seq<HidDesc>)>::empty() =~= done);
    r
}

/// Whether a walk over something goes on.
#[derive(Clone, Copy, Debug, PartialEq, Eq, Structural)]
pub enum ControlFlow {
    Continue,
    Break,
}

/// The kinds of file under an endpoint's directory.
#[derive(Clone, Debug)]
pub enum EndpointHandleTy {
    /// Data moved by transfers that the control file set up.
    Data,
    /// Requests and responses.
    Ctl,
    /// The directory itself, with its listing.
    Root(Vec<u8>),
}

/// Where a port's request file is in its transfer.
#[derive(Clone, Copy, Debug, PartialEq, Eq, Structural)]
pub enum PortTransferState {
    /// Ready to read or write another transfer.
    Ready,
    /// The transfer has completed and its status has to be read.
    WaitingForStatusReq(PortTransferStatus),
}

/// The state field of a slot context.
#[derive(Clone, Copy, Debug, PartialEq, Eq, Structural)]
pub enum SlotState {
    EnabledOrDisabled,
    Default,
    Addressed,
    Configured,
}

/// Bits of the slot state in dword 3 of a slot context.
pub const SLOT_CONTEXT_STATE_MASK: u32 = 0xF800_0000;
pub const SLOT_CONTEXT_STATE_SHIFT: u32 = 27;

/// The port state that dword 3 of a slot context shows, if it is one.
pub fn slot_port_state(d: u32) -> (r: Option<PortState>)
    ensures
        r == (if d / 0x800_0000 == 0 {
            Some(PortState::EnabledOrDisabled)
        } else if d / 0x800_0000 == 1 {
            Some(PortState::Default)
        } else if d / 0x800_0000 == 2 {
            Some(PortState::Addressed)
        } else if d / 0x800_0000 == 3 {
            Some(PortState::Configured)
        } else {
            None
        }),
{
    assert((d & 0xF800_0000) >> 27u32 == d / 0x800_0000) by (bit_vector);
    let state = ((d & SLOT_CONTEXT_STATE_MASK) >> SLOT_CONTEXT_STATE_SHIFT) as u8;
    if state == 0 {
        Some(PortState::EnabledOrDisabled)
    } else if state == 1 {
        Some(PortState::Default)
    } else if state == 2 {
        Some(PortState::Addressed)
    } else if state == 3 {
        Some(PortState::Configured)
    } else {
        None
    }
}

/// Types of stream context.
#[derive(Clone, Copy, Debug, PartialEq, Eq, Structural)]
pub enum StreamContextType {
    SecondaryRing,
    PrimaryRing,
    PrimarySsa8,
    PrimarySsa16,
    PrimarySsa32,
    PrimarySsa64,
    PrimarySsa128,
    PrimarySsa256,
}

/// How the controller tells the driver of events.
#[derive(Clone, Copy, Debug, PartialEq, Eq, Structural)]
pub enum InterruptMethod {
    /// No interrupts; the event rings are polled.
    Polling,
    /// The legacy INTx# pin.
    Intx,
    /// (Extended) message signalled interrupts.
    Msi,
}

/// A port whose device is to be enumerated.
#[derive(Clone, Copy, Debug, PartialEq, Eq, Structural)]
pub struct DeviceEnumerationRequest {
    pub port_id: PortId,
}

/// The transfer status for a TRB completion code and a byte count.
pub fn transfer_result(completion_code: u8, bytes_transferred: u32) -> (r: PortTransferStatus)
    ensures
        r.bytes_transferred == bytes_transferred,
        r.kind == (if completion_code == TRB_COMPLETION_SUCCESS {
            PortTransferStatusKind::Success
        } else if completion_code == TRB_COMPLETION_SHORT_PACKET {
            PortTransferStatusKind::ShortPacket
        } else if completion_code == TRB_COMPLETION_STALL {
            PortTransferStatusKind::Stalled
        } else {
            PortTransferStatusKind::Unknown
        }),
{
    let kind = if completion_code == TRB_COMPLETION_SUCCESS {
        PortTransferStatusKind::Success
    } else if completion_code == TRB_COMPLETION_SHORT_PACKET {
        PortTransferStatusKind::ShortPacket
    } else if completion_code == TRB_COMPLETION_STALL {
        PortTransferStatusKind::Stalled
    } else {
        PortTransferStatusKind::Unknown
    };
    PortTransferStatus { kind, bytes_transferred }
}

/// Where an endpoint's control and data files are in a request.
#[derive(Clone, Copy, Debug, PartialEq, Eq, Structural)]
pub enum EndpIfState {
    Init,
    WaitingForDataPipe { direction: XhciEndpCtlDirection, bytes_transferred: u32, bytes_to_transfer: u32 },
    WaitingForStatus,
    WaitingForTransferResult(PortTransferStatus),
}

/// Why the daemon refuses an operation on an endpoint's files.
#[derive(Clone, Copy, Debug, PartialEq, Eq, Structural)]
pub enum EndpIfError {
    /// The file is not in a state that allows the operation.
    BadFd,
    /// More data than the transfer has left.
    Invalid,
    /// The transfer moved data where none was asked for.
    Io,
}

/// What the daemon does for a request written to an endpoint's control file.
#[derive(Clone, Copy, Debug, PartialEq, Eq, Structural)]
pub enum CtlWriteAction {
    /// Nothing more than the state change.
    Nothing,
    /// Reset the endpoint, clearing the halt feature where asked.
    Reset { clear_feature: bool },
    /// Run a transfer without data now; its result is then recorded.
    TransferNoData,
}

/// What a read of an endpoint's control file answers.
#[derive(Clone, Copy, Debug, PartialEq, Eq, Structural)]
pub enum CtlReadAction {
    /// This response.
    Respond(XhciEndpCtlRes),
    /// The endpoint's current status, which the daemon reads from its context.
    FetchStatus,
}

impl EndpIfState {
    /// A data transfer never has more bytes done than it was set up for.
    pub open spec fn wf(&self) -> bool {
        match *self {
            EndpIfState::WaitingForDataPipe { bytes_transferred, bytes_to_transfer, direction } => bytes_transferred
                <= bytes_to_transfer && direction != XhciEndpCtlDirection::NoData,
            _ => true,
        }
    }

    /// Takes a request written to the control file.
    pub fn on_ctl_write(&mut self, req: XhciEndpCtlReq) -> (r: Result<CtlWriteAction, EndpIfError>)
        requires
            old(self).wf(),
        ensures
            final(self).wf(),
            *old(self) != EndpIfState::Init ==> r == Err::<CtlWriteAction, EndpIfError>(EndpIfError::BadFd)
                && *final(self) == *old(self),
            *old(self) == EndpIfState::Init ==> match req {
                XhciEndpCtlReq::Status => r == Ok::<CtlWriteAction, EndpIfError>(CtlWriteAction::Nothing)
                    && *final(self) == EndpIfState::WaitingForStatus,
                XhciEndpCtlReq::Reset { no_clear_feature } => r == Ok::<CtlWriteAction, EndpIfError>(
                    CtlWriteAction::Reset { clear_feature: !no_clear_feature },
                ) && *final(self) == EndpIfState::Init,
                XhciEndpCtlReq::Transfer { direction, count } => if direction == XhciEndpCtlDirection::NoData {
                    r == Ok::<CtlWriteAction, EndpIfError>(CtlWriteAction::TransferNoData) && *final(self)
                        == EndpIfState::Init
                } else {
                    r == Ok::<CtlWriteAction, EndpIfError>(CtlWriteAction::Nothing) && *final(self)
                        == (EndpIfState::WaitingForDataPipe {
                        direction,
                        bytes_transferred: 0,
                        bytes_to_transfer: count,
                    })
                },
            },
    {
        match *self {
            EndpIfState::Init => {},
            _ => {
                return Err(EndpIfError::BadFd);
            },
        }
        match req {
            XhciEndpCtlReq::Status => {
                *self = EndpIfState::WaitingForStatus;
                Ok(CtlWriteAction::Nothing)
            },
            XhciEndpCtlReq::Reset { no_clear_feature } => Ok(
                CtlWriteAction::Reset { clear_feature: !no_clear_feature },
            ),
            XhciEndpCtlReq::Transfer { direction, count } => {
                match direction {
                    XhciEndpCtlDirection::NoData => Ok(CtlWriteAction::TransferNoData),
                    _ => {
                        *self = EndpIfState::WaitingForDataPipe {
                            direction,
                            bytes_to_transfer: count,
                            bytes_transferred: 0,
                        };
                        Ok(CtlWriteAction::Nothing)
                    },
                }
            },
        }
    }

    /// Records the outcome of a transfer without data.
    pub fn finish_no_data(&mut self, completion_code: u8, bytes_transferred: u32) -> (r: Result<(), EndpIfError>)
        requires
            old(self).wf(),
        ensures
            final(self).wf(),
            bytes_transferred > 0 ==> r == Err::<(), EndpIfError>(EndpIfError::Io) && *final(self) == *old(self),
            bytes_transferred == 0 ==> r is Ok && *final(self) == EndpIfState::WaitingForTransferResult(
                PortTransferStatus { kind: transfer_result_kind(completion_code), bytes_transferred: 0 },
            ),
    {
        if bytes_transferred > 0 {
            return Err(EndpIfError::Io);
        }
        *self = EndpIfState::WaitingForTransferResult(transfer_result(completion_code, 0));
        Ok(())
    }

    /// Answers a read of the control file.
    pub fn on_ctl_read(&mut self) -> (r: CtlReadAction)
        requires
            old(self).wf(),
        ensures
            final(self).wf(),
            match *old(self) {
                EndpIfState::Init => r == CtlReadAction::Respond(XhciEndpCtlRes::Idle) && *final(self)
                    == EndpIfState::Init,
                EndpIfState::WaitingForStatus => r == CtlReadAction::FetchStatus && *final(self)
                    == EndpIfState::Init,
                EndpIfState::WaitingForDataPipe { .. } => r == CtlReadAction::Respond(XhciEndpCtlRes::Pending)
                    && *final(self) == *old(self),
                EndpIfState::WaitingForTransferResult(st) => r == CtlReadAction::Respond(
                    XhciEndpCtlRes::TransferResult(st),
                ) && *final(self) == EndpIfState::Init,
            },
    {
        match *self {
            EndpIfState::Init => CtlReadAction::Respond(XhciEndpCtlRes::Idle),
            EndpIfState::WaitingForStatus => {
                *self = EndpIfState::Init;
                CtlReadAction::FetchStatus
            },
            EndpIfState::WaitingForDataPipe { .. } => CtlReadAction::Respond(XhciEndpCtlRes::Pending),
            EndpIfState::WaitingForTransferResult(st) => {
                *self = EndpIfState::Init;
                CtlReadAction::Respond(XhciEndpCtlRes::TransferResult(st))
            },
        }
    }

    /// Whether a data file transfer of `len` bytes in `direction` may go
    /// ahead: the endpoint waits for data in that direction and has that
    /// many bytes left.
    pub fn check_data_transfer(&self, direction: XhciEndpCtlDirection, len: usize) -> (r: Result<(), EndpIfError>)
        requires
            self.wf(),
        ensures
            match *self {
                EndpIfState::WaitingForDataPipe { direction: d, bytes_transferred, bytes_to_transfer } => if d
                    != direction {
                    r == Err::<(), EndpIfError>(EndpIfError::BadFd)
                } else if len > bytes_to_transfer - bytes_transferred {
                    r == Err::<(), EndpIfError>(EndpIfError::Invalid)
                } else {
                    r is Ok
                },
                _ => r == Err::<(), EndpIfError>(EndpIfError::BadFd),
            },
    {
        match *self {
            EndpIfState::WaitingForDataPipe { direction: d, bytes_transferred, bytes_to_transfer } => {
                if d != direction {
                    return Err(EndpIfError::BadFd);
                }
                if len > (bytes_to_transfer - bytes_transferred) as usize {
                    return Err(EndpIfError::Invalid);
                }
                Ok(())
            },
            _ => Err(EndpIfError::BadFd),
        }
    }

    /// Records that `n` more bytes moved on the data file with completion
    /// code `completion_code`: the transfer is over once all bytes moved or
    /// it did not succeed.
    pub fn after_data_transfer(&mut self, completion_code: u8, n: u32)
        requires
            old(self).wf(),
            *old(self) is WaitingForDataPipe,
            n <= (*old(self))->bytes_to_transfer - (*old(self))->bytes_transferred,
        ensures
            final(self).wf(),
            ({
                let done = (*old(self))->bytes_transferred + n;
                if done == (*old(self))->bytes_to_transfer || completion_code != TRB_COMPLETION_SUCCESS {
                    *final(self) == EndpIfState::WaitingForTransferResult(
                        PortTransferStatus { kind: transfer_result_kind(completion_code), bytes_transferred: n },
                    )
                } else {
                    *final(self) == EndpIfState::WaitingForDataPipe {
                        direction: (*old(self))->direction,
                        bytes_transferred: done as u32,
                        bytes_to_transfer: (*old(self))->bytes_to_transfer,
                    }
                }
            }),
    {
        match *self {
            EndpIfState::WaitingForDataPipe { direction, bytes_transferred, bytes_to_transfer } => {
                if bytes_transferred + n == bytes_to_transfer || completion_code != TRB_COMPLETION_SUCCESS {
                    *self = EndpIfState::WaitingForTransferResult(transfer_result(completion_code, n));
                } else {
                    *self = EndpIfState::WaitingForDataPipe {
                        direction,
                        bytes_transferred: bytes_transferred + n,
                        bytes_to_transfer,
                    };
                }
            },
            _ => {},
        }
    }
}

/// The transfer status kind for a TRB completion code.
pub open spec fn transfer_result_kind(completion_code: u8) -> PortTransferStatusKind {
    if completion_code == TRB_COMPLETION_SUCCESS {
        PortTransferStatusKind::Success
    } else if completion_code == TRB_COMPLETION_SHORT_PACKET {
        PortTransferStatusKind::ShortPacket
    } else if completion_code == TRB_COMPLETION_STALL {
        PortTransferStatusKind::Stalled
    } else {
        PortTransferStatusKind::Unknown
    }
}

/// Port status bits that device enumeration looks at.
pub const PORT_CCS: u32 = 0;
pub const PORT_PED: u32 = 1;
pub const PORT_PR: u32 = 4;
pub const PORT_PP: u32 = 9;

/// What the device enumerator does for a request on a port.
#[derive(Clone, Copy, Debug, PartialEq, Eq, Structural)]
pub enum EnumerationAction {
    /// The port index is out of range: the request is dropped.
    Ignore,
    /// A device is connected: attach it, after resetting the port where it
    /// is not enabled yet (a USB 2 port).
    Attach { reset_first: bool },
    /// No device is connected: detach what was there.
    Detach,
}

/// A port whose device is connected but not enabled must be in the disabled
/// state: powered, connected, not enabled, not resetting.
pub open spec fn enumeration_consistent(flags: u32) -> bool {
    bit(flags, 0) && !bit(flags, 1) ==> (bit(flags, 9) && !bit(flags, 4))
}

/// Decides on an enumeration request for the port at `port_index` among
/// `port_count` ports whose status is `flags`.
pub fn enumeration_action(port_index: usize, port_count: usize, flags: u32) -> (r: EnumerationAction)
    requires
        port_index < port_count ==> enumeration_consistent(flags),
    ensures
        port_index >= port_count ==> r == EnumerationAction::Ignore,
        port_index < port_count ==> r == (if bit(flags, 0) {
            EnumerationAction::Attach { reset_first: !bit(flags, 1) }
        } else {
            EnumerationAction::Detach
        }),
{
    if port_index >= port_count {
        return EnumerationAction::Ignore;
    }
    if has_bit(flags, PORT_CCS) {
        EnumerationAction::Attach { reset_first: !has_bit(flags, PORT_PED) }
    } else {
        EnumerationAction::Detach
    }
}

/// Whether a port is enabled after a reset: powered, connected, enabled,
/// not resetting.
pub fn port_enabled(flags: u32) -> (r: bool)
    ensures
        r == (bit(flags, 9) && bit(flags, 0) && bit(flags, 1) && !bit(flags, 4)),
{
    has_bit(flags, PORT_PP) && has_bit(flags, PORT_CCS) && has_bit(flags, PORT_PED) && !has_bit(
        flags,
        PORT_PR,
    )
}

/// Why a command or transfer is reported failed.
#[derive(Clone, Copy, Debug, PartialEq, Eq, Structural)]
pub enum EventError {
    /// The event's completion code is not a success.
    Io,
}

/// A command succeeded where its event carries the success code.
pub fn handle_event_trb(completion_code: u8) -> (r: Result<(), EventError>)
    ensures
        r is Ok <==> completion_code == TRB_COMPLETION_SUCCESS,
        r matches Err(e) ==> e == EventError::Io,
{
    if completion_code == TRB_COMPLETION_SUCCESS {
        Ok(())
    } else {
        Err(EventError::Io)
    }
}

/// A transfer succeeded where its event carries the success or the
/// short-packet code.
pub fn handle_transfer_event_trb(completion_code: u8) -> (r: Result<(), EventError>)
    ensures
        r is Ok <==> (completion_code == TRB_COMPLETION_SUCCESS || completion_code
            == TRB_COMPLETION_SHORT_PACKET),
        r matches Err(e) ==> e == EventError::Io,
{
    if completion_code == TRB_COMPLETION_SUCCESS || completion_code == TRB_COMPLETION_SHORT_PACKET {
        Ok(())
    } else {
        Err(EventError::Io)
    }
}

/// The device context index of endpoint `endp_num`: control and IN
/// endpoints take the odd index, OUT endpoints the even one.
pub fn endp_num_to_dci(endp_num: u8, desc: &EndpDesc) -> (r: u8)
    requires
        0 < endp_num < 128,
    ensures
        r == (if spec_endp_ty(desc.attributes) == EndpointTy::Ctrl || spec_endp_direction(*desc)
            == EndpDirection::In {
            endp_num * 2 + 1
        } else {
            endp_num * 2
        }),
{
    if desc.ty() == EndpointTy::Ctrl || desc.direction() == EndpDirection::In {
        endp_num * 2 + 1
    } else {
        endp_num * 2
    }
}

/// The doorbell value that rings the default control endpoint.
pub fn def_control_endp_doorbell() -> (r: u32)
    ensures
        r == 1,
{
    1
}

/// The doorbell value for endpoint `endp_num`: its device context index,
/// with the stream in the task field.
pub fn endp_doorbell(endp_num: u8, desc: &EndpDesc, stream_id: u16) -> (r: u32)
    requires
        0 < endp_num < 128,
    ensures
        r == stream_id as int * 65536 + (if spec_endp_ty(desc.attributes) == EndpointTy::Ctrl
            || spec_endp_direction(*desc) == EndpDirection::In {
            endp_num * 2 + 1
        } else {
            endp_num * 2
        }),
{
    let db_target = endp_num_to_dci(endp_num, desc);
    proof { crate::bits::lemma_u32_bits(); }
    ((stream_id as u32) << 16u32) | (db_target as u32)
}

/// Largest transfer one normal TRB carries.
pub const MAX_TRB_TRANSFER: usize = 65536;

/// One normal TRB of a transfer: its length, and whether it chains to the
/// next or interrupts on completion.
#[derive(Clone, Copy, Debug, PartialEq, Eq, Structural)]
pub struct NormalTrb {
    pub len: u32,
    pub chain: bool,
    pub ioc: bool,
}

/// The TRBs of a transfer of `left` bytes: full ones chained, the last one
/// (possibly empty) interrupting on completion.
pub open spec fn normal_trbs(left: nat) -> Seq<NormalTrb>
    decreases left,
{
    if left <= MAX_TRB_TRANSFER {
        seq![NormalTrb { len: left as u32, chain: false, ioc: true }]
    } else {
        seq![NormalTrb { len: MAX_TRB_TRANSFER as u32, chain: true, ioc: false }] + normal_trbs(
            (left - MAX_TRB_TRANSFER) as nat,
        )
    }
}

/// How a transfer on a bulk or interrupt endpoint is queued: the data
/// pointer of its TRBs (or, for up to eight outgoing bytes on an endpoint
/// with packets of eight bytes or more, the bytes themselves), whether the
/// data are immediate, the TD size estimate, and the TRBs.
#[derive(Clone, Debug)]
pub struct TransferPlan {
    pub buffer: u64,
    pub idt: bool,
    pub td_size: u8,
    pub trbs: Vec<NormalTrb>,
}

/// `b` padded with zeros to eight bytes.
pub open spec fn pad8(b: Seq<u8>) -> Seq<u8> {
    b + Seq::new((8 - b.len()) as nat, |i: int| 0u8)
}

/// The TD size estimate for `len` bytes: sixteen per started 64 KiB, at
/// most 0x1F.
pub open spec fn td_size_of(len: nat) -> u8 {
    let n = (if len % (MAX_TRB_TRANSFER as nat) != 0 {
        len / (MAX_TRB_TRANSFER as nat) + 1
    } else {
        len / (MAX_TRB_TRANSFER as nat)
    }) * 16;
    if n < 0x1F {
        n as u8
    } else {
        0x1F
    }
}

/// Plans a transfer of `data` (none for a transfer without data) through the
/// DMA buffer at `buf_phys`, on an endpoint with packets of
/// `max_packet_size` bytes, reading where `dir_in`.
pub fn transfer_plan(data: Option<&[u8]>, buf_phys: u64, max_packet_size: u16, dir_in: bool) -> (r: TransferPlan)
    ensures
        ({
            let len: nat = match data {
                Some(b) => b@.len(),
                None => 0,
            };
            let immediate = len <= 8 && max_packet_size >= 8 && !dir_in;
            &&& r.idt == (immediate && data is Some)
            &&& r.buffer == (if immediate {
                match data {
                    Some(b) => le64(pad8(b@), 0) as u64,
                    None => 0u64,
                }
            } else {
                if data is Some { buf_phys } else { 0u64 }
            })
            &&& r.td_size == td_size_of(len)
            &&& r.trbs@ == normal_trbs(len)
        }),
{
    let len: usize = match data {
        Some(b) => b.len(),
        None => 0,
    };
    let immediate = len <= 8 && max_packet_size >= 8 && !dir_in;
    let (buffer, idt) = if immediate {
        match data {
            Some(b) => {
                let mut bytes = [0u8; 8];
                let mut i: usize = 0;
                while i < b.len()
                    invariant
                        b@.len() <= 8,
                        i <= b@.len(),
                        bytes@.len() == 8,
                        forall|j: int| 0 <= j < i ==> bytes@[j] == b@[j],
                        forall|j: int| i <= j < 8 ==> bytes@[j] == 0,
                    decreases b@.len() - i,
                {
                    bytes[i] = b[i];
                    i = i + 1;
                }
                assert(bytes@ =~= pad8(b@));
                (read_le64(&bytes, 0), true)
            },
            None => (0u64, false),
        }
    } else {
        (if data.is_some() { buf_phys } else { 0u64 }, false)
    };
    let blocks = if len % MAX_TRB_TRANSFER != 0 {
        len / MAX_TRB_TRANSFER + 1
    } else {
        len / MAX_TRB_TRANSFER
    };
    assert(blocks >= 2 ==> blocks * 16 >= 32) by (nonlinear_arith);
    let td_size: u8 = if blocks < 2 { (blocks * 16) as u8 } else { 0x1F };
    let mut trbs: Vec<NormalTrb> = Vec::new();
    let mut left = len;
    loop
        invariant_except_break
            left <= len,
            trbs@ + normal_trbs(left as nat) == normal_trbs(len as nat),
        ensures
            trbs@ == normal_trbs(len as nat),
        decreases left,
    {
        let n = if left < MAX_TRB_TRANSFER { left } else { MAX_TRB_TRANSFER };
        let ioc = left <= MAX_TRB_TRANSFER;
        let trb = NormalTrb { len: n as u32, chain: !ioc, ioc };
        proof {
            if left <= MAX_TRB_TRANSFER {
                assert(normal_trbs(left as nat) == seq![trb]);
            } else {
                assert(normal_trbs(left as nat) == seq![trb] + normal_trbs((left - n) as nat));
            }
            assert(trbs@.push(trb) + normal_trbs((left - n) as nat) =~= trbs@ + seq![trb] + normal_trbs(
                (left - n) as nat,
            ));
        }
        trbs.push(trb);
        left = left - n;
        if left == 0 {
            proof {
                if !ioc {
                    assert(false);
                }
                assert(trbs@ =~= normal_trbs(len as nat));
            }
            break;
        }
        proof {
            if ioc {
                assert(n == left + n);
            }
        }
    }
    TransferPlan { buffer, idt, td_size, trbs }
}

/// The bytes a transfer of `len` bytes moved, from the residue that its
/// event reports.
pub fn bytes_transferred(len: u32, residue: u32) -> (r: u32)
    requires
        residue <= len,
    ensures
        r == len - residue,
{
    len - residue
}

/// Why endpoints cannot be configured.
#[derive(Clone, Copy, Debug, PartialEq, Eq, Structural)]
pub enum ConfigureError {
    /// The configuration has 31 endpoints or more.
    TooManyEndpoints,
    /// A control endpoint other than endpoint zero was to be configured.
    ControlEndpoint,
}

/// The context entries that the endpoints `endpoints[..n]` of a
/// configuration need: one more than the largest device context index they
/// take (endpoint `k + 1` being `endpoints[k]`), and at least two.
pub open spec fn needed_entries(endpoints: Seq<EndpDesc>, n: int) -> int
    decreases n,
{
    if n <= 0 {
        1
    } else {
        let d = endpoints[n - 1];
        let dci = if spec_endp_ty(d.attributes) == EndpointTy::Ctrl || spec_endp_direction(d)
            == EndpDirection::In {
            n * 2 + 1
        } else {
            n * 2
        };
        let rest = needed_entries(endpoints, n - 1);
        if dci > rest {
            dci
        } else {
            rest
        }
    }
}

/// The number of endpoints of a configuration (its interfaces' endpoints in
/// order) and the context entries of its slot context; refused at 31
/// endpoints or more.
pub fn context_entries(endpoints: &[EndpDesc]) -> (r: Result<(u8, u8), ConfigureError>)
    requires
        endpoints@.len() <= 126,
    ensures
        endpoints@.len() >= 31 ==> r == Err::<(u8, u8), ConfigureError>(ConfigureError::TooManyEndpoints),
        endpoints@.len() < 31 ==> r == Ok::<(u8, u8), ConfigureError>(
            (endpoints@.len() as u8, (needed_entries(endpoints@, endpoints@.len() as int) + 1) as u8),
        ),
{
    let mut count: u8 = 0;
    let mut entries: u8 = 1;
    let mut i: usize = 0;
    while i < endpoints.len()
        invariant
            endpoints@.len() <= 126,
            i <= endpoints@.len(),
            count == i,
            entries == needed_entries(endpoints@, i as int),
            entries <= 2 * i + 1,
        decreases endpoints@.len() - i,
    {
        count = count + 1;
        let entry = endp_num_to_dci(count, &endpoints[i]);
        if entry > entries {
            entries = entry;
        }
        i = i + 1;
    }
    let entries = entries + 1;
    if count >= 31 {
        return Err(ConfigureError::TooManyEndpoints);
    }
    Ok((count, entries))
}

/// The two slot context words with the context entries set to `entries`
/// and the hub fields set for `hub_ports` (cleared for a device that is no
/// hub).
pub fn slot_context_words(a: u32, b: u32, entries: u8, hub_ports: Option<u8>) -> (r: (u32, u32))
    ensures
        r == (match hub_ports {
            Some(n) => (
                ((a & !0xF800_0000u32) | (((entries as u32) << 27u32) & 0xF800_0000u32)) & !0x0400_0000u32
                    | 0x0400_0000u32,
                (b & !0xFF00_0000u32) | (((n as u32) << 24u32) & 0xFF00_0000u32),
            ),
            None => (
                ((a & !0xF800_0000u32) | (((entries as u32) << 27u32) & 0xF800_0000u32)) & !0x0400_0000u32,
                b & !0xFF00_0000u32,
            ),
        }),
{
    let mut a = a & !0xF800_0000u32;
    a = a | (((entries as u32) << 27u32) & 0xF800_0000u32);
    a = a & !0x0400_0000u32;
    let mut b = b & !0xFF00_0000u32;
    match hub_ports {
        Some(n) => {
            a = a | 0x0400_0000u32;
            b = b | (((n as u32) << 24u32) & 0xFF00_0000u32);
        },
        None => {},
    }
    (a, b)
}

/// The input control context word that selects the configuration,
/// interface and alternate setting, where the controller has the
/// configuration information capability.
pub fn input_control_word(cie: bool, alternate_setting: Option<u8>, interface_desc: Option<u8>, config_value: u8) -> (r: u32)
    ensures
        r == (if cie {
            ((match alternate_setting { Some(v) => v, None => 0u8 }) as u32) << 16u32 | ((match interface_desc {
                Some(v) => v,
                None => 0u8,
            }) as u32) << 8u32 | config_value as u32
        } else {
            0u32
        }),
{
    if cie {
        let alt: u8 = match alternate_setting {
            Some(v) => v,
            None => 0,
        };
        let ifn: u8 = match interface_desc {
            Some(v) => v,
            None => 0,
        };
        (alt as u32) << 16u32 | (ifn as u32) << 8u32 | config_value as u32
    } else {
        0
    }
}

/// The words of an endpoint context.
#[derive(Clone, Copy, Debug, PartialEq, Eq, Structural)]
pub struct EndpointContextWords {
    pub a: u32,
    pub b: u32,
    pub trl: u32,
    pub trh: u32,
    pub c: u32,
}

/// The primary stream field of a SuperSpeed bulk endpoint with streams: the
/// smaller of its stream count and the controller's largest stream array,
/// less one; zero without streams.
pub open spec fn primary_streams(d: EndpDesc, log_max_psa_size: u8) -> int {
    match d.ssc {
        Some(ssc) => if spec_endp_ty(d.attributes) == EndpointTy::Bulk && ssc.attributes % 32 != 0
            && log_max_psa_size != 0 {
            (if ssc.attributes % 32 < log_max_psa_size + 1 {
                (ssc.attributes % 32) as int
            } else {
                log_max_psa_size + 1
            }) - 1
        } else {
            0
        },
        None => 0,
    }
}

/// The endpoints of `ifaces`, one interface after the other.
pub open spec fn all_endpoints(ifaces: Seq<IfDesc>) -> Seq<EndpDesc>
    decreases ifaces.len(),
{
    if ifaces.len() == 0 {
        Seq::empty()
    } else {
        all_endpoints(ifaces.drop_last()) + ifaces.last().endpoints@
    }
}

proof fn lemma_all_endpoints_concat(a: Seq<IfDesc>, b: Seq<IfDesc>)
    ensures
        all_endpoints(a + b) == all_endpoints(a) + all_endpoints(b),
    decreases b.len(),
{
    if b.len() == 0 {
        assert(a + b =~= a);
        assert(all_endpoints(a) + all_endpoints(b) =~= all_endpoints(a));
    } else {
        lemma_all_endpoints_concat(a, b.drop_last());
        assert((a + b).drop_last() =~= a + b.drop_last());
        assert(all_endpoints(a + b) =~= all_endpoints(a) + all_endpoints(b));
    }
}

/// The first configuration, from `k` on, whose value is `value`.
pub open spec fn config_with_value(cs: Seq<ConfDesc>, value: u8, k: nat) -> Option<nat>
    decreases cs.len() - k,
{
    if k >= cs.len() {
        None
    } else if cs[k as int].configuration_value == value {
        Some(k)
    } else {
        config_with_value(cs, value, k + 1)
    }
}

/// The endpoint descriptor of endpoint index `endp_idx`, counting the
/// endpoints of the selected configuration's interfaces one after the other.
pub open spec fn spec_get_endp_desc(dev: Option<DevDesc>, cfg_idx: Option<u8>, endp_idx: u8) -> Option<
    EndpDesc,
> {
    match (dev, cfg_idx) {
        (Some(d), Some(v)) => match config_with_value(d.config_descs@, v, 0) {
            Some(c) => {
                let eps = all_endpoints(d.config_descs@[c as int].interface_descs@);
                if endp_idx < eps.len() {
                    Some(eps[endp_idx as int])
                } else {
                    None
                }
            },
            None => None,
        },
        _ => None,
    }
}

/// The descriptor of an endpoint of the port's current configuration.
pub fn get_endp_desc(dev: Option<&DevDesc>, cfg_idx: Option<u8>, endp_idx: u8) -> (r: Option<EndpDesc>)
    ensures
        r == spec_get_endp_desc(
            match dev {
                Some(d) => Some(*d),
                None => None,
            },
            cfg_idx,
            endp_idx,
        ),
{
    let d = match dev {
        Some(d) => d,
        None => return None,
    };
    let v = match cfg_idx {
        Some(v) => v,
        None => return None,
    };
    let cs = d.config_descs.as_slice();
    let mut c: usize = 0;
    while c < cs.len() && cs[c].configuration_value != v
        invariant
            c <= cs@.len(),
            config_with_value(cs@, v, 0) == config_with_value(cs@, v, c as nat),
        decreases cs.len() - c,
    {
        c = c + 1;
    }
    if c == cs.len() {
        return None;
    }
    let ifaces = cs[c].interface_descs.as_slice();
    let ghost all = all_endpoints(ifaces@);
    let mut count: usize = 0;
    let mut i: usize = 0;
    while i < ifaces.len()
        invariant
            dev == Some(d),
            cfg_idx == Some(v),
            c < cs@.len(),
            cs@ == d.config_descs@,
            config_with_value(cs@, v, 0) == Some(c as nat),
            ifaces@ == cs@[c as int].interface_descs@,
            all == all_endpoints(ifaces@),
            i <= ifaces@.len(),
            count == all_endpoints(ifaces@.take(i as int)).len(),
            count <= endp_idx,
        decreases ifaces.len() - i,
    {
        proof {
            lemma_all_endpoints_concat(ifaces@.take(i + 1), ifaces@.skip(i + 1));
            assert(ifaces@.take(i + 1) + ifaces@.skip(i + 1) =~= ifaces@);
            assert(ifaces@.take(i + 1).drop_last() =~= ifaces@.take(i as int));
        }
        let eps = ifaces[i].endpoints.as_slice();
        let mut j: usize = 0;
        while j < eps.len()
            invariant
                dev == Some(d),
                cfg_idx == Some(v),
                c < cs@.len(),
                cs@ == d.config_descs@,
                config_with_value(cs@, v, 0) == Some(c as nat),
                ifaces@ == cs@[c as int].interface_descs@,
                i < ifaces@.len(),
                eps@ == ifaces@[i as int].endpoints@,
                j <= eps@.len(),
                count == all_endpoints(ifaces@.take(i as int)).len() + j,
                count <= endp_idx,
                all_endpoints(ifaces@.take(i + 1)) == all_endpoints(ifaces@.take(i as int)) + eps@,
                all == all_endpoints(ifaces@),
                all == all_endpoints(ifaces@.take(i + 1)) + all_endpoints(ifaces@.skip(i + 1)),
            decreases eps.len() - j,
        {
            if endp_idx as usize == count {
                assert(all[count as int] == eps@[j as int]);
                return Some(eps[j]);
            }
            count = count + 1;
            j = j + 1;
        }
        i = i + 1;
    }
    assert(ifaces@.take(i as int) =~= ifaces@);
    None
}

/// The direction of endpoint `endp_num` of the first interface of the
/// device's first configuration.
pub fn endp_direction(dev: &DevDesc, endp_num: u8) -> (r: Option<EndpDirection>)
    ensures
        r == (if dev.config_descs@.len() > 0 && dev.config_descs@[0].interface_descs@.len() > 0
            && endp_num < dev.config_descs@[0].interface_descs@[0].endpoints@.len() {
            Some(spec_endp_direction(dev.config_descs@[0].interface_descs@[0].endpoints@[endp_num as int]))
        } else {
            None
        }),
{
    let cs = dev.config_descs.as_slice();
    if cs.len() == 0 {
        return None;
    }
    let ifaces = cs[0].interface_descs.as_slice();
    if ifaces.len() == 0 {
        return None;
    }
    let eps = ifaces[0].endpoints.as_slice();
    if (endp_num as usize) < eps.len() {
        Some(eps[endp_num as usize].direction())
    } else {
        None
    }
}

/// The state field of an endpoint context's first dword.
pub const ENDPOINT_CONTEXT_STATUS_MASK: u32 = 0x7;

/// An endpoint's state as its context reports it; `None` for the reserved
/// values.
pub fn endpoint_context_status(a: u32) -> (r: Option<EndpointStatus>)
    ensures
        r == (match a % 8 {
            0 => Some(EndpointStatus::Disabled),
            1 => Some(EndpointStatus::Enabled),
            2 => Some(EndpointStatus::Halted),
            3 => Some(EndpointStatus::Stopped),
            4 => Some(EndpointStatus::Error),
            _ => None,
        }),
{
    proof { crate::bits::lemma_u32_bits(); }
    let raw = a & ENDPOINT_CONTEXT_STATUS_MASK;
    match raw {
        0 => Some(EndpointStatus::Disabled),
        1 => Some(EndpointStatus::Enabled),
        2 => Some(EndpointStatus::Halted),
        3 => Some(EndpointStatus::Stopped),
        4 => Some(EndpointStatus::Error),
        _ => None,
    }
}

/// Why the context of an endpoint cannot be found.
#[derive(Clone, Copy, Debug, PartialEq, Eq, Structural)]
pub enum EndpLookupError {
    /// The device has no configuration, or it no interface.
    NoInterface,
    /// The first interface has no such endpoint.
    NoEndpoint,
}

/// The device context index of endpoint `endp_num` (counted from one) of the
/// first interface of the device's first configuration.
pub fn endp_status_dci(dev: &DevDesc, endp_num: u8) -> (r: Result<u8, EndpLookupError>)
    requires
        0 < endp_num < 128,
    ensures
        r == (if dev.config_descs@.len() == 0 || dev.config_descs@[0].interface_descs@.len() == 0 {
            Err(EndpLookupError::NoInterface)
        } else if endp_num - 1 >= dev.config_descs@[0].interface_descs@[0].endpoints@.len() {
            Err(EndpLookupError::NoEndpoint)
        } else {
            let d = dev.config_descs@[0].interface_descs@[0].endpoints@[endp_num - 1];
            Ok(
                if spec_endp_ty(d.attributes) == EndpointTy::Ctrl || spec_endp_direction(d)
                    == EndpDirection::In {
                    (endp_num * 2 + 1) as u8
                } else {
                    (endp_num * 2) as u8
                },
            )
        }),
{
    let cs = dev.config_descs.as_slice();
    if cs.len() == 0 {
        return Err(EndpLookupError::NoInterface);
    }
    let ifaces = cs[0].interface_descs.as_slice();
    if ifaces.len() == 0 {
        return Err(EndpLookupError::NoInterface);
    }
    let eps = ifaces[0].endpoints.as_slice();
    let idx = (endp_num - 1) as usize;
    if idx >= eps.len() {
        return Err(EndpLookupError::NoEndpoint);
    }
    Ok(endp_num_to_dci(endp_num, &eps[idx]))
}

/// Size of the buffer a string descriptor is read into: its length and type
/// bytes and room for 127 UTF-16 code units.
pub const STRING_DESC_BUF_LEN: usize = 256;

/// The UTF-16 code units a string descriptor holds, as its length byte
/// counts them (the length includes the two header bytes).
pub open spec fn string_desc_units_spec(desc: Seq<u8>) -> Seq<u16> {
    if desc[0] > 2 {
        Seq::new(((desc[0] - 2) / 2) as nat, |k: int| le16(desc, 2 + 2 * k) as u16)
    } else {
        Seq::empty()
    }
}

/// The code units of the string descriptor read into `desc`. String
/// descriptor 0 holds the device's language IDs this way.
pub fn string_desc_units(desc: &[u8]) -> (r: Vec<u16>)
    requires
        desc@.len() >= STRING_DESC_BUF_LEN,
    ensures
        r@ == string_desc_units_spec(desc@),
{
    let len = desc[0] as usize;
    let mut r: Vec<u16> = Vec::new();
    if len <= 2 {
        return r;
    }
    let count = (len - 2) / 2;
    let mut k: usize = 0;
    while k < count
        invariant
            desc@.len() >= STRING_DESC_BUF_LEN,
            len == desc@[0],
            count == (len - 2) / 2,
            k <= count,
            r@ == Seq::new(k as nat, |i: int| le16(desc@, 2 + 2 * i) as u16),
        decreases count - k,
    {
        r.push(read_le16(desc, 2 + 2 * k));
        k = k + 1;
        assert(r@ =~= Seq::new(k as nat, |i: int| le16(desc@, 2 + 2 * i) as u16));
    }
    r
}

/// The language strings are read in: US English (0x409) where the device
/// offers it, else the first language it offers, else 0.
pub fn choose_lang_id(lang_ids: &[u16]) -> (r: u16)
    ensures
        r == (if lang_ids@.contains(0x409u16) {
            0x409u16
        } else if lang_ids@.len() > 0 {
            lang_ids@[0]
        } else {
            0u16
        }),
{
    let mut k: usize = 0;
    while k < lang_ids.len()
        invariant
            k <= lang_ids@.len(),
            forall|i: int| 0 <= i < k ==> lang_ids@[i] != 0x409u16,
        decreases lang_ids.len() - k,
    {
        if lang_ids[k] == 0x409 {
            return 0x409;
        }
        k = k + 1;
    }
    if lang_ids.len() > 0 {
        lang_ids[0]
    } else {
        0
    }
}

/// Whether the device names any string, so that its language IDs are read;
/// where it names none, the language is 0.
pub fn wants_lang_ids(dd: &DeviceDescriptor) -> (r: bool)
    ensures
        r == (dd.manufacturer_str > 0 || dd.product_str > 0 || dd.serial_str > 0),
{
    dd.manufacturer_str > 0 || dd.product_str > 0 || dd.serial_str > 0
}

/// The text that UTF-16 code units encode: a unit outside the surrogates
/// stands for itself, a high surrogate followed by a low one for a
/// supplementary character; `None` where a surrogate is unpaired.
pub open spec fn decode_utf16(u: Seq<u16>) -> Option<Seq<char>>
    decreases u.len(),
{
    if u.len() == 0 {
        Some(Seq::empty())
    } else if u[0] < 0xD800 || u[0] > 0xDFFF {
        match decode_utf16(u.drop_first()) {
            Some(rest) => Some(seq![u[0] as char] + rest),
            None => None,
        }
    } else if u[0] <= 0xDBFF && u.len() >= 2 && 0xDC00 <= u[1] <= 0xDFFF {
        match decode_utf16(u.skip(2)) {
            Some(rest) => Some(seq![(0x10000 + (u[0] - 0xD800) * 0x400 + (u[1] - 0xDC00)) as char] + rest),
            None => None,
        }
    } else {
        None
    }
}

/// `String::from_utf16`, which decodes UTF-16 and refuses unpaired
/// surrogates; the refusal is made `None`.
#[verifier::external_body]
fn from_utf16(v: &[u16]) -> (r: Option<String>)
    ensures
        match decode_utf16(v@) {
            Some(t) => r matches Some(s) && s@ == t,
            None => r is None,
        },
{
    String::from_utf16(v).ok()
}

/// The text of the string descriptor read into `desc`; empty where its code
/// units are not valid UTF-16.
pub fn string_desc_text(desc: &[u8]) -> (r: String)
    requires
        desc@.len() >= STRING_DESC_BUF_LEN,
    ensures
        r@ == (match decode_utf16(string_desc_units_spec(desc@)) {
            Some(t) => t,
            None => Seq::empty(),
        }),
{
    let units = string_desc_units(desc);
    match from_utf16(units.as_slice()) {
        Some(s) => s,
        None => String::new(),
    }
}

/// How the protocol speed of a port classifies it: the three predicates of
/// the controller's speed entry that the endpoint context depends on.
#[derive(Clone, Copy, Debug, PartialEq, Eq, Structural)]
pub struct SpeedClass {
    pub lowspeed: bool,
    pub fullspeed: bool,
    pub highspeed: bool,
}

/// Where an endpoint's interval is worked out from `bInterval` less one,
/// which a zero `bInterval` (or, for full-speed isochronous endpoints, one
/// above 253) would take out of range.
pub open spec fn interval_defined(speed: SpeedClass, d: EndpDesc) -> bool {
    let intr = spec_endp_ty(d.attributes) == EndpointTy::Interrupt;
    let iso = spec_endp_ty(d.attributes) == EndpointTy::Isoch;
    if (speed.lowspeed || speed.fullspeed) && intr {
        d.interval >= 1
    } else if speed.fullspeed && iso {
        1 <= d.interval <= 253
    } else if (speed.fullspeed || d.ssc is Some || d.sspc is Some) && (intr || iso) {
        d.interval >= 1
    } else {
        true
    }
}

/// The endpoint context's interval, as the base-2 logarithm of 125 µs
/// periods: for low- and full-speed interrupt endpoints the millisecond
/// `bInterval` rounded down to a power of two; for full-speed isochronous
/// endpoints `bInterval + 2`; for other periodic endpoints of a full-speed or
/// SuperSpeed(Plus) port `bInterval - 1`; zero otherwise.
pub open spec fn spec_endp_ctx_interval(speed: SpeedClass, d: EndpDesc) -> int {
    let intr = spec_endp_ty(d.attributes) == EndpointTy::Interrupt;
    let iso = spec_endp_ty(d.attributes) == EndpointTy::Isoch;
    if (speed.lowspeed || speed.fullspeed) && intr {
        8 - d.interval.leading_zeros() - 1 + 3
    } else if speed.fullspeed && iso {
        d.interval - 1 + 3
    } else if (speed.fullspeed || d.ssc is Some || d.sspc is Some) && (intr || iso) {
        d.interval - 1
    } else {
        0
    }
}

pub fn endp_ctx_interval(speed: SpeedClass, d: &EndpDesc) -> (r: u8)
    requires
        interval_defined(speed, *d),
    ensures
        r == spec_endp_ctx_interval(speed, *d),
{
    broadcast use vstd::std_specs::bits::axiom_u8_leading_zeros;
    if (speed.lowspeed || speed.fullspeed) && d.is_interrupt() {
        let last_power_of_two = 8 - d.interval.leading_zeros() as u8;
        last_power_of_two - 1 + 3
    } else if speed.fullspeed && d.is_isoch() {
        d.interval - 1 + 3
    } else if (speed.fullspeed || d.is_superspeed() || d.is_superspeedplus()) && (d.is_interrupt()
        || d.is_isoch()) {
        d.interval - 1
    } else {
        0
    }
}

/// Where the burst size of a high-speed periodic endpoint is read, the
/// device must be a USB 2 device.
pub open spec fn max_burst_defined(speed: SpeedClass, major_version: u8, d: EndpDesc) -> bool {
    (speed.highspeed && (spec_endp_ty(d.attributes) == EndpointTy::Interrupt || spec_endp_ty(
        d.attributes,
    ) == EndpointTy::Isoch)) ==> major_version == 2
}

/// The endpoint context's burst size: for high-speed periodic endpoints bit
/// 11 of `wMaxPacketSize`; for SuperSpeed endpoints the companion's burst
/// size; zero otherwise.
pub fn endp_ctx_max_burst(speed: SpeedClass, major_version: u8, d: &EndpDesc) -> (r: u8)
    requires
        max_burst_defined(speed, major_version, *d),
    ensures
        r == (if speed.highspeed && (spec_endp_ty(d.attributes) == EndpointTy::Interrupt
            || spec_endp_ty(d.attributes) == EndpointTy::Isoch) {
            ((d.max_packet_size & 0x0C00u16) >> 11u16) as u8
        } else {
            match d.ssc {
                Some(ssc) => ssc.max_burst,
                None => 0u8,
            }
        }),
{
    if speed.highspeed && (d.is_interrupt() || d.is_isoch()) {
        ((d.max_packet_size & 0x0C00) >> 11) as u8
    } else if d.is_superspeed() {
        d.max_burst()
    } else {
        0
    }
}

/// The largest payload an endpoint moves in one service interval.
pub open spec fn spec_max_esit_payload(
    speed: SpeedClass,
    major_version: u8,
    d: EndpDesc,
    max_packet_size: u16,
    max_burst_size: u8,
) -> int {
    let intr = spec_endp_ty(d.attributes) == EndpointTy::Interrupt;
    let iso = spec_endp_ty(d.attributes) == EndpointTy::Isoch;
    let periodic = if intr { d.attributes & 0x20u8 == 0 } else { iso };
    if major_version == 2 && periodic {
        max_packet_size * (max_burst_size + 1)
    } else if d.ssc is Some {
        if d.ssc.unwrap().attributes >= 0x80 {
            d.sspc.unwrap().bytes_per_interval as int
        } else {
            d.ssc.unwrap().bytes_per_interval as int
        }
    } else if speed.fullspeed && intr {
        64
    } else if speed.fullspeed && iso {
        1024
    } else if speed.highspeed && (intr || iso) {
        3072
    } else {
        0
    }
}

/// The endpoint context's largest payload per service interval: for the
/// periodic endpoints of a USB 2 device the packet size times the burst; the
/// SuperSpeedPlus or SuperSpeed companion's bytes per interval where there is
/// one; else the largest the port's speed allows for the endpoint's kind.
pub fn endp_ctx_max_esit_payload(
    speed: SpeedClass,
    major_version: u8,
    d: &EndpDesc,
    max_packet_size: u16,
    max_burst_size: u8,
) -> (r: u32)
    requires
        d.ssc matches Some(ssc) && ssc.attributes >= 0x80 ==> d.sspc is Some,
    ensures
        r == spec_max_esit_payload(speed, major_version, *d, max_packet_size, max_burst_size),
{
    if major_version == 2 && d.is_periodic() {
        proof {
            assert(max_packet_size * (max_burst_size + 1) <= 65535 * 256) by (nonlinear_arith)
                requires
                    max_packet_size <= 65535,
                    max_burst_size + 1 <= 256,
            ;
        }
        (max_packet_size as u32) * (max_burst_size as u32 + 1)
    } else if d.has_ssp_companion() {
        match d.sspc {
            Some(c) => c.bytes_per_interval,
            None => 0,
        }
    } else if d.is_superspeed() {
        match d.ssc {
            Some(c) => c.bytes_per_interval as u32,
            None => 0,
        }
    } else if speed.fullspeed && d.is_interrupt() {
        64
    } else if speed.fullspeed && d.is_isoch() {
        1024
    } else if speed.highspeed && (d.is_interrupt() || d.is_isoch()) {
        3 * 1024
    } else {
        0
    }
}

/// The context of a non-control endpoint `d`: `interval`, `max_burst` and
/// `max_esit_payload` as worked out for the port's speed, and `ring_ptr` the
/// dequeue pointer of its ring or stream array.
pub fn endpoint_context_words(
    d: &EndpDesc,
    lec: bool,
    log_max_psa_size: u8,
    interval: u8,
    max_burst: u8,
    max_esit_payload: u32,
    ring_ptr: u64,
) -> (r: Result<EndpointContextWords, ConfigureError>)
    requires
        log_max_psa_size < 255,
    ensures
        spec_endp_ty(d.attributes) == EndpointTy::Ctrl ==> r == Err::<EndpointContextWords, ConfigureError>(
            ConfigureError::ControlEndpoint,
        ),
        spec_endp_ty(d.attributes) != EndpointTy::Ctrl ==> {
            let ps = primary_streams(*d, log_max_psa_size);
            let mult: u8 = if !lec && spec_endp_ty(d.attributes) == EndpointTy::Isoch && d.sspc is None {
                match d.ssc {
                    Some(ssc) => (ssc.attributes % 4) as u8,
                    None => 0u8,
                }
            } else {
                0u8
            };
            let ep_ty: u8 = xhci_ep_type_of(*d);
            let avg: u32 = if spec_endp_ty(d.attributes) == EndpointTy::Interrupt { 1024 } else { 3072 };
            r == Ok::<EndpointContextWords, ConfigureError>(
                EndpointContextWords {
                    a: (mult as u32) << 8u32 | (ps as u32) << 10u32 | (if ps != 0 { 1u32 } else { 0u32 })
                        << 15u32 | (interval as u32) << 16u32 | ((((max_esit_payload & 0x00FF_0000u32)
                        >> 16u32) as u8) as u32) << 24u32,
                    b: 3u32 << 1u32 | (ep_ty as u32) << 3u32 | (max_burst as u32) << 8u32 | ((
                    d.max_packet_size & 0x07FF) as u32) << 16u32,
                    trl: ring_ptr as u32,
                    trh: (ring_ptr >> 32u64) as u32,
                    c: avg | ((max_esit_payload as u16) as u32) << 16u32,
                },
            )
        },
{
    let ps: u8 = match d.log_max_streams() {
        Some(l) => {
            if log_max_psa_size != 0 {
                (if l < log_max_psa_size + 1 { l } else { log_max_psa_size + 1 }) - 1
            } else {
                0
            }
        },
        None => 0,
    };
    let linear = ps != 0;
    let mult = d.isoch_mult(lec);
    let mps = d.max_packet_size & 0x07FF;
    let esit_lo = max_esit_payload as u16;
    let esit_hi = ((max_esit_payload & 0x00FF_0000u32) >> 16u32) as u8;
    let ep_ty = match d.xhci_ep_type() {
        Some(t) => t,
        None => 4,
    };
    let avg: u32 = match d.ty() {
        EndpointTy::Ctrl => {
            return Err(ConfigureError::ControlEndpoint);
        },
        EndpointTy::Bulk | EndpointTy::Isoch => 3072,
        EndpointTy::Interrupt => 1024,
    };
    Ok(
        EndpointContextWords {
            a: (mult as u32) << 8u32 | (ps as u32) << 10u32 | (if linear { 1u32 } else { 0u32 }) << 15u32
                | (interval as u32) << 16u32 | (esit_hi as u32) << 24u32,
            b: 3u32 << 1u32 | (ep_ty as u32) << 3u32 | (max_burst as u32) << 8u32 | (mps as u32) << 16u32,
            trl: ring_ptr as u32,
            trh: (ring_ptr >> 32u64) as u32,
            c: avg | (esit_lo as u32) << 16u32,
        },
    )
}

/// The maximum packet size of the default control pipe from the device
/// descriptor's packet size field: bytes up to USB 2, a power of two after.
pub fn control_max_packet_size(major_usb_vers: u8, packet_size: u8) -> (r: u32)
    requires
        major_usb_vers > 2 ==> packet_size < 32,
    ensures
        r == (if major_usb_vers <= 2 { packet_size as u32 } else { 1u32 << packet_size }),
{
    if major_usb_vers <= 2 {
        packet_size as u32
    } else {
        1u32 << packet_size
    }
}

/// The second word of the default control pipe's context with its maximum
/// packet size replaced.
pub fn control_pipe_word(b: u32, max_packet_size: u32) -> (r: u32)
    ensures
        r == (b & 0x0000_FFFFu32) | (max_packet_size << 16u32),
{
    (b & 0x0000_FFFF) | (max_packet_size << 16u32)
}

/// The slot and default control pipe words that address a device.
#[derive(Clone, Copy, Debug, PartialEq, Eq, Structural)]
pub struct AddressContext {
    pub slot_a: u32,
    pub slot_b: u32,
    pub slot_c: u32,
    pub ep0_b: u32,
    pub ep0_trl: u32,
    pub ep0_trh: u32,
    pub ep0_c: u32,
}

/// The parent hub's slot and the port of that hub, for a device behind a
/// hub whose slot is known.
pub open spec fn parent_info(port: PortId, parent_slot: Option<u8>) -> (u8, u8) {
    let d = route_depth(port.route_string as nat);
    if d == 0 {
        (0u8, 0u8)
    } else {
        match parent_slot {
            Some(s) => (s, (port.route_string as nat / pow16((d - 1) as nat)) as u8),
            None => (0u8, 0u8),
        }
    }
}

/// The input context words of an Address Device command for the device at
/// `port` of speed `speed`: one context entry, no hub, the parent hub's slot
/// (`parent_slot`, where the hub's state is known) and port, and a control
/// pipe of `max_packet_size` bytes on the ring whose dequeue pointer is
/// `ring_ptr`.
pub fn address_context(port: PortId, speed: u8, parent_slot: Option<u8>, max_packet_size: u32, ring_ptr: u64) -> (r: AddressContext)
    requires
        port.route_string < 0x10_0000,
    ensures
        ({
            let (hub_slot, hub_port) = parent_info(port, parent_slot);
            r == (AddressContext {
                slot_a: port.route_string | (speed as u32) << 20u32 | 1u32 << 27u32,
                slot_b: (port.root_hub_port_num as u32) << 16u32,
                slot_c: hub_slot as u32 | (hub_port as u32) << 8u32,
                ep0_b: 3u32 << 1u32 | 4u32 << 3u32 | max_packet_size << 16u32,
                ep0_trl: (ring_ptr as u32) | 1u32,
                ep0_trh: (ring_ptr >> 32u64) as u32,
                ep0_c: 8,
            })
        }),
{
    let (hub_slot, hub_port) = match port.parent() {
        Some((_, port_num)) => match parent_slot {
            Some(s) => (s, port_num),
            None => (0u8, 0u8),
        },
        None => (0u8, 0u8),
    };
    AddressContext {
        slot_a: port.route_string | (speed as u32) << 20u32 | 1u32 << 27u32,
        slot_b: (port.root_hub_port_num as u32) << 16u32,
        slot_c: hub_slot as u32 | (hub_port as u32) << 8u32,
        ep0_b: 3u32 << 1u32 | 4u32 << 3u32 | max_packet_size << 16u32,
        ep0_trl: (ring_ptr as u32) | 1u32,
        ep0_trh: (ring_ptr >> 32u64) as u32,
        ep0_c: 8,
    }
}

/// The data stage of a control transfer.
#[derive(Clone, Copy, Debug, PartialEq, Eq, Structural)]
pub enum TransferKind {
    NoData,
    Out,
    In,
}

/// The bmRequestType bits of a client request's direction, type and
/// recipient.
pub open spec fn port_req_kind(req: PortReq) -> u8 {
    let d: u8 = match req.direction {
        PortReqDirection::HostToDevice => 0,
        PortReqDirection::DeviceToHost => 1,
    };
    let t: u8 = match req.req_type {
        PortReqTy::Standard => 0,
        PortReqTy::Class => 1,
        PortReqTy::Vendor => 2,
    };
    let rc: u8 = match req.req_recipient {
        PortReqRecipient::Device => 0,
        PortReqRecipient::Interface => 1,
        PortReqRecipient::Endpoint => 2,
        PortReqRecipient::Other => 3,
        PortReqRecipient::VendorSpecific => 31,
    };
    (d << 7u8) | (t << 5u8) | rc
}

/// The setup packet of a client request, and the data stage it has: none
/// where it moves no data, else in the request's direction.
pub fn port_req_setup(req: &PortReq) -> (r: (Setup, TransferKind))
    ensures
        r.0 == (Setup {
            kind: port_req_kind(*req),
            request: req.request,
            value: req.value,
            index: req.index,
            length: req.length,
        }),
        r.1 == (if !req.transfers_data {
            TransferKind::NoData
        } else if req.direction == PortReqDirection::DeviceToHost {
            TransferKind::In
        } else {
            TransferKind::Out
        }),
{
    let d: u8 = match req.direction {
        PortReqDirection::HostToDevice => 0,
        PortReqDirection::DeviceToHost => 1,
    };
    let t: u8 = match req.req_type {
        PortReqTy::Standard => 0,
        PortReqTy::Class => 1,
        PortReqTy::Vendor => 2,
    };
    let rc: u8 = match req.req_recipient {
        PortReqRecipient::Device => 0,
        PortReqRecipient::Interface => 1,
        PortReqRecipient::Endpoint => 2,
        PortReqRecipient::Other => 3,
        PortReqRecipient::VendorSpecific => 31,
    };
    let setup = Setup {
        kind: (d << 7u8) | (t << 5u8) | rc,
        request: req.request,
        value: req.value,
        index: req.index,
        length: req.length,
    };
    let kind = if !req.transfers_data {
        TransferKind::NoData
    } else {
        match req.direction {
            PortReqDirection::DeviceToHost => TransferKind::In,
            PortReqDirection::HostToDevice => TransferKind::Out,
        }
    };
    (setup, kind)
}

/// Where a request file stands: waiting for a request, or for the data of
/// one (the buffer length and the setup packet).
#[derive(Clone, Copy, Debug, PartialEq, Eq, Structural)]
pub enum PortReqState {
    Init,
    WaitingForDeviceBytes(usize, Setup),
    WaitingForHostBytes(usize, Setup),
}

/// A control transfer to run.
#[derive(Clone, Copy, Debug, PartialEq, Eq, Structural)]
pub struct ControlTransfer {
    pub setup: Setup,
    pub kind: TransferKind,
}

/// Why a request file refuses a read or write.
#[derive(Clone, Copy, Debug, PartialEq, Eq, Structural)]
pub enum PortReqError {
    /// The bytes written are no request.
    BadMessage,
    /// The file does not take this operation now.
    BadFd,
    /// The buffer does not have the request's length.
    Invalid,
}

/// What a write of `buf_len` bytes to a request file in state `st` does;
/// `req` is the request the bytes hold, where they hold one.
pub open spec fn spec_port_req_write(st: PortReqState, req: Option<PortReq>, buf_len: usize) -> Result<
    (PortReqState, Option<ControlTransfer>, usize),
    PortReqError,
> {
    match st {
        PortReqState::Init => match req {
            None => Err(PortReqError::BadMessage),
            Some(q) => {
                let setup = Setup {
                    kind: port_req_kind(q),
                    request: q.request,
                    value: q.value,
                    index: q.index,
                    length: q.length,
                };
                Ok(
                    if !q.transfers_data {
                        (PortReqState::Init, Some(ControlTransfer { setup, kind: TransferKind::NoData }), buf_len)
                    } else if q.direction == PortReqDirection::DeviceToHost {
                        (PortReqState::WaitingForDeviceBytes(q.length as usize, setup), None, buf_len)
                    } else {
                        (PortReqState::WaitingForHostBytes(q.length as usize, setup), None, buf_len)
                    },
                )
            },
        },
        PortReqState::WaitingForHostBytes(len, setup) => if buf_len != len {
            Err(PortReqError::Invalid)
        } else {
            Ok((PortReqState::Init, Some(ControlTransfer { setup, kind: TransferKind::Out }), buf_len))
        },
        PortReqState::WaitingForDeviceBytes(_, _) => Err(PortReqError::BadFd),
    }
}

/// A write of `buf_len` bytes to a request file in state `st`; `req` is
/// the request they hold, where they hold one. Gives the new state, the
/// transfer to run (with the bytes written as its data for an OUT
/// transfer), and the number of bytes taken.
pub fn port_req_write(st: PortReqState, req: Option<PortReq>, buf_len: usize) -> (r: Result<
    (PortReqState, Option<ControlTransfer>, usize),
    PortReqError,
>)
    ensures
        r == spec_port_req_write(st, req, buf_len),
{
    match st {
        PortReqState::Init => match req {
            None => Err(PortReqError::BadMessage),
            Some(q) => {
                let (setup, kind) = port_req_setup(&q);
                match kind {
                    TransferKind::NoData => Ok(
                        (PortReqState::Init, Some(ControlTransfer { setup, kind: TransferKind::NoData }), buf_len),
                    ),
                    TransferKind::In => Ok((PortReqState::WaitingForDeviceBytes(q.length as usize, setup), None, buf_len)),
                    TransferKind::Out => Ok((PortReqState::WaitingForHostBytes(q.length as usize, setup), None, buf_len)),
                }
            },
        },
        PortReqState::WaitingForHostBytes(len, setup) => {
            if buf_len != len {
                Err(PortReqError::Invalid)
            } else {
                Ok((PortReqState::Init, Some(ControlTransfer { setup, kind: TransferKind::Out }), buf_len))
            }
        },
        PortReqState::WaitingForDeviceBytes(_, _) => Err(PortReqError::BadFd),
    }
}

/// What a read of `buf_len` bytes from a request file in state `st` does.
pub open spec fn spec_port_req_read(st: PortReqState, buf_len: usize) -> Result<(PortReqState, ControlTransfer), PortReqError> {
    match st {
        PortReqState::WaitingForDeviceBytes(len, setup) => if buf_len != len {
            Err(PortReqError::Invalid)
        } else {
            Ok((PortReqState::Init, ControlTransfer { setup, kind: TransferKind::In }))
        },
        _ => Err(PortReqError::BadFd),
    }
}

/// A read of `buf_len` bytes from a request file in state `st`: the new
/// state and the IN transfer whose data the read returns.
pub fn port_req_read(st: PortReqState, buf_len: usize) -> (r: Result<(PortReqState, ControlTransfer), PortReqError>)
    ensures
        r == spec_port_req_read(st, buf_len),
{
    match st {
        PortReqState::WaitingForDeviceBytes(len, setup) => {
            if buf_len != len {
                Err(PortReqError::Invalid)
            } else {
                Ok((PortReqState::Init, ControlTransfer { setup, kind: TransferKind::In }))
            }
        },
        _ => Err(PortReqError::BadFd),
    }
}

/// A request written to a request file runs exactly one control transfer
/// with the request's setup packet: at once where it moves no data, else on
/// the one read or write of its length that follows, in its direction;
/// after that transfer the file takes a new request.
pub proof fn lemma_port_request_round_trip(q: PortReq, req_len: usize)
    ensures
        ({
            let setup = Setup {
                kind: port_req_kind(q),
                request: q.request,
                value: q.value,
                index: q.index,
                length: q.length,
            };
            match spec_port_req_write(PortReqState::Init, Some(q), req_len) {
                Ok((st, t, _)) => if !q.transfers_data {
                    st == PortReqState::Init && t == Some(ControlTransfer { setup, kind: TransferKind::NoData })
                } else if q.direction == PortReqDirection::DeviceToHost {
                    &&& t is None
                    &&& spec_port_req_read(st, q.length as usize) == Ok::<(PortReqState, ControlTransfer), PortReqError>(
                        (PortReqState::Init, ControlTransfer { setup, kind: TransferKind::In }),
                    )
                    &&& spec_port_req_write(st, None, q.length as usize) is Err
                } else {
                    &&& t is None
                    &&& spec_port_req_write(st, None, q.length as usize) == Ok::<
                        (PortReqState, Option<ControlTransfer>, usize),
                        PortReqError,
                    >((PortReqState::Init, Some(ControlTransfer { setup, kind: TransferKind::Out }), q.length as usize))
                    &&& spec_port_req_read(st, q.length as usize) is Err
                },
                Err(_) => false,
            }
        }),
{
}

} // verus!
