//! Identifiers of USB ports: a root hub port number followed by the route
//! string, four bits per hub passed on the way (USB 3 section 8.9), written
//! as dot-separated decimal numbers such as `1.3.2`.

use vstd::prelude::*;
use vstd::string::StringSliceAdditionalSpecFns;
use crate::decimal::{
    all_digits, decimal, is_digit, lemma_decimal_digits, lemma_parse_decimal, parse_u8,
    push_decimal, spec_parse_unsigned,
};

verus! {

#[derive(Clone, Copy, Debug, PartialEq, Eq, Structural)]
pub struct PortId {
    pub root_hub_port_num: u8,
    pub route_string: u32,
}

/// Why a port identifier was refused.
#[derive(Clone, Copy, Debug, PartialEq, Eq, Structural)]
pub enum PortIdError {
    /// A component is not a decimal `u8`.
    InvalidNumber,
    /// A component is zero.
    ZeroComponent,
    /// More than five route string components.
    TooManyComponents,
    /// A route string component does not fit in four bits.
    ComponentTooLarge(u8),
}

pub open spec fn pow16(d: nat) -> nat
    decreases d,
{
    if d == 0 {
        1
    } else {
        16 * pow16((d - 1) as nat)
    }
}

/// Number of hubs in a route string: its count of four-bit groups up to the
/// highest non-zero one.
pub open spec fn route_depth(r: nat) -> nat
    decreases r,
{
    if r == 0 {
        0
    } else {
        1 + route_depth(r / 16)
    }
}

/// Every four-bit group of the route string, up to its depth, is non-zero.
pub open spec fn route_components_nonzero(r: nat) -> bool
    decreases r,
{
    r == 0 || (r % 16 != 0 && route_components_nonzero(r / 16))
}

/// A port identifier that its text form can describe.
pub open spec fn port_id_valid(p: PortId) -> bool {
    &&& p.root_hub_port_num != 0
    &&& route_depth(p.route_string as nat) <= 5
    &&& route_components_nonzero(p.route_string as nat)
}

/// The text form of the route string: `.n` for each group, lowest first.
pub open spec fn route_text(r: nat) -> Seq<u8>
    decreases r,
{
    if r == 0 {
        Seq::empty()
    } else {
        seq![46u8] + decimal(r % 16) + route_text(r / 16)
    }
}

/// The text form of a port identifier.
pub open spec fn port_id_text(p: PortId) -> Seq<u8> {
    decimal(p.root_hub_port_num as nat) + route_text(p.route_string as nat)
}

/// Index of the first `.` in `s`, if there is one.
pub open spec fn first_dot(s: Seq<u8>) -> Option<nat>
    decreases s.len(),
{
    if s.len() == 0 {
        None
    } else if s[0] == 46u8 {
        Some(0)
    } else {
        match first_dot(s.drop_first()) {
            Some(k) => Some(k + 1),
            None => None,
        }
    }
}

/// The parts of `s` between dots, as `str::split('.')` gives them.
pub open spec fn split_dots(s: Seq<u8>) -> Seq<Seq<u8>>
    decreases s.len(),
{
    match first_dot(s) {
        Some(k) => if k < s.len() {
            seq![s.take(k as int)] + split_dots(s.skip(k as int + 1))
        } else {
            seq![s]
        },
        None => seq![s],
    }
}

/// Parses the parts that remain from part `i` on, with the root port and the
/// route string found so far.
pub open spec fn parse_parts(parts: Seq<Seq<u8>>, i: nat, root: u8, route: nat) -> Result<
    PortId,
    PortIdError,
>
    decreases parts.len(),
{
    if parts.len() == 0 {
        Ok(PortId { root_hub_port_num: root, route_string: route as u32 })
    } else {
        match spec_parse_unsigned(parts[0], 255) {
            None => Err(PortIdError::InvalidNumber),
            Some(v) => if v == 0 {
                Err(PortIdError::ZeroComponent)
            } else if i == 0 {
                parse_parts(parts.drop_first(), 1, v as u8, route)
            } else if i - 1 >= 5 {
                Err(PortIdError::TooManyComponents)
            } else if v >= 16 {
                Err(PortIdError::ComponentTooLarge(v as u8))
            } else {
                parse_parts(parts.drop_first(), i + 1, root, route + v * pow16((i - 1) as nat))
            },
        }
    }
}

/// What parsing the text `s` gives.
pub open spec fn spec_parse_port_id(s: Seq<u8>) -> Result<PortId, PortIdError> {
    parse_parts(split_dots(s), 0, 0, 0)
}

/// The values of `16^d` for the depths a `u32` route string can have.
fn pow16_u32(d: u8) -> (r: u32)
    requires
        d <= 7,
    ensures
        r == pow16(d as nat),
{
    reveal_with_fuel(pow16, 8);
    if d == 0 {
        1
    } else if d == 1 {
        0x10
    } else if d == 2 {
        0x100
    } else if d == 3 {
        0x1000
    } else if d == 4 {
        0x1_0000
    } else if d == 5 {
        0x10_0000
    } else if d == 6 {
        0x100_0000
    } else {
        0x1000_0000
    }
}

/// A route string lies below `16` to the power of its depth, and reaches the
/// power below.
pub proof fn lemma_route_depth_bounds(r: nat)
    ensures
        r < pow16(route_depth(r)),
        r > 0 ==> pow16((route_depth(r) - 1) as nat) <= r,
    decreases r,
{
    if r > 0 {
        lemma_route_depth_bounds(r / 16);
        if r / 16 > 0 {
            assert(pow16(route_depth(r / 16)) == pow16((route_depth(r) - 1) as nat));
        }
    }
}

proof fn lemma_depth_u32(r: u32)
    ensures
        route_depth(r as nat) <= 8,
{
    lemma_route_depth_bounds(r as nat);
    reveal_with_fuel(pow16, 10);
    if route_depth(r as nat) > 8 {
        lemma_pow16_monotone(9, (route_depth(r as nat) - 1) as nat);
    }
}

proof fn lemma_pow16_monotone(a: nat, b: nat)
    requires
        a <= b,
    ensures
        pow16(a) <= pow16(b),
    decreases b,
{
    if a < b {
        lemma_pow16_monotone(a, (b - 1) as nat);
    }
}

impl PortId {
    /// Index of the root hub port (its number minus one).
    pub fn root_hub_port_index(&self) -> (r: usize)
        requires
            self.root_hub_port_num != 0,
        ensures
            r == self.root_hub_port_num - 1,
    {
        (self.root_hub_port_num - 1) as usize
    }

    /// Number of hubs between the root hub and the port.
    pub fn hub_depth(&self) -> (r: u8)
        ensures
            r == route_depth(self.route_string as nat),
    {
        let mut hub_depth: u8 = 0;
        let mut route_string = self.route_string;
        proof {
            lemma_depth_u32(route_string);
        }
        while route_string != 0
            invariant
                hub_depth + route_depth(route_string as nat) == route_depth(self.route_string as nat),
                route_depth(self.route_string as nat) <= 8,
            decreases route_string,
        {
            assert(route_string >> 4u32 == route_string / 16) by (bit_vector);
            route_string = route_string >> 4;
            hub_depth = hub_depth + 1;
        }
        hub_depth
    }

    /// The port one hub further down, behind downstream port `value` of this
    /// port's hub.
    pub fn child(&self, value: u8) -> (r: Result<Self, PortIdError>)
        ensures
            route_depth(self.route_string as nat) >= 5 ==> r == Err::<Self, PortIdError>(
                PortIdError::TooManyComponents,
            ),
            route_depth(self.route_string as nat) < 5 && value >= 16 ==> r == Err::<
                Self,
                PortIdError,
            >(PortIdError::ComponentTooLarge(value)),
            route_depth(self.route_string as nat) < 5 && value < 16 ==> r == Ok::<
                Self,
                PortIdError,
            >(
                PortId {
                    root_hub_port_num: self.root_hub_port_num,
                    route_string: (self.route_string + value * pow16(
                        route_depth(self.route_string as nat),
                    )) as u32,
                },
            ),
    {
        let depth = self.hub_depth();
        if depth >= 5 {
            return Err(PortIdError::TooManyComponents);
        }
        if value & 0xF0 != 0 {
            assert(value & 0xF0u8 != 0 ==> value >= 16) by (bit_vector);
            return Err(PortIdError::ComponentTooLarge(value));
        }
        assert(value & 0xF0u8 == 0 ==> value < 16) by (bit_vector);
        let mult = pow16_u32(depth);
        proof {
            lemma_route_depth_bounds(self.route_string as nat);
            reveal_with_fuel(pow16, 6);
            assert(mult <= 0x1_0000);
            assert(self.route_string < mult);
            assert(self.route_string + value * mult < 16 * mult) by (nonlinear_arith)
                requires
                    self.route_string < mult,
                    value < 16,
            ;
        }
        Ok(PortId {
            root_hub_port_num: self.root_hub_port_num,
            route_string: self.route_string + (value as u32) * mult,
        })
    }

    /// The port of the hub that this port hangs off, with this port's number
    /// on that hub; `None` for a root hub port.
    pub fn parent(&self) -> (r: Option<(Self, u8)>)
        ensures
            ({
                let route = self.route_string as nat;
                let d = route_depth(route);
                if d == 0 {
                    r is None
                } else {
                    r == Some((
                        PortId {
                            root_hub_port_num: self.root_hub_port_num,
                            route_string: (route % pow16((d - 1) as nat)) as u32,
                        },
                        (route / pow16((d - 1) as nat)) as u8,
                    ))
                }
            }),
    {
        let depth = self.hub_depth();
        if depth == 0 {
            return None;
        }
        proof {
            lemma_depth_u32(self.route_string);
            lemma_route_depth_bounds(self.route_string as nat);
        }
        let parent_depth = depth - 1;
        let pow = pow16_u32(parent_depth);
        proof {
            assert(pow16(depth as nat) == 16 * pow16(parent_depth as nat));
            assert((self.route_string as int) / (pow as int) < 16) by (nonlinear_arith)
                requires
                    self.route_string < 16 * pow,
                    pow > 0,
            ;
        }
        Some((
            PortId {
                root_hub_port_num: self.root_hub_port_num,
                route_string: self.route_string % pow,
            },
            (self.route_string / pow) as u8,
        ))
    }

    /// Parses a port identifier from its text form, as `PortId`'s `FromStr`
    /// does.
    pub fn from_str(s: &str) -> (r: Result<Self, PortIdError>)
        ensures
            r == spec_parse_port_id(s.spec_bytes()),
    {
        parse_port_id(s.as_bytes())
    }

    /// The text form, as `PortId`'s `Display` writes it.
    #[verifier::spinoff_prover]
    #[verifier::rlimit(30)]
    pub fn to_ascii(&self) -> (r: Vec<u8>)
        ensures
            r@ == port_id_text(*self),
    {
        let mut out: Vec<u8> = Vec::new();
        push_decimal(&mut out, self.root_hub_port_num as u32);
        let mut route_string = self.route_string;
        assert(out@ =~= decimal(self.root_hub_port_num as nat));
        while route_string != 0
            invariant
                out@ + route_text(route_string as nat) == port_id_text(*self),
            decreases route_string,
        {
            let ghost before = out@;
            out.push(46u8);
            push_decimal(&mut out, route_string % 16);
            proof {
                assert(out@ =~= before + seq![46u8] + decimal((route_string % 16) as nat));
                assert(route_text(route_string as nat) == seq![46u8] + decimal(
                    (route_string % 16) as nat,
                ) + route_text((route_string / 16) as nat));
                assert(out@ + route_text((route_string / 16) as nat) =~= before + route_text(
                    route_string as nat,
                ));
            }
            route_string = route_string / 16;
        }
        assert(out@ + Seq::<u8>::empty() =~= out@);
        out
    }
}

/// Parses the text form of a port identifier.
pub fn parse_port_id(s: &[u8]) -> (r: Result<PortId, PortIdError>)
    ensures
        r == spec_parse_port_id(s@),
{
    let mut root: u8 = 0;
    let mut route: u32 = 0;
    let mut i: usize = 0;
    let mut start: usize = 0;
    assert(s@.skip(0) =~= s@);
    loop
        invariant
            start <= s@.len(),
            spec_parse_port_id(s@) == parse_parts(
                split_dots(s@.skip(start as int)),
                i as nat,
                root,
                route as nat,
            ),
            i <= 6,
            i == 0 ==> route == 0,
            i >= 1 ==> route < pow16((i - 1) as nat),
        decreases s@.len() - start,
    {
        let ghost rest = s@.skip(start as int);
        let ghost old_start = start;
        let ghost parts = split_dots(rest);
        let end = find_dot(s, start);
        let part = sub_slice(s, start, end);
        proof {
            lemma_split_dots_step(rest, (end - start) as nat);
            assert(part@ =~= rest.take(end - start));
            assert(parts[0] == part@);
        }
        let value = match parse_u8(part) {
            Some(v) => v,
            None => return Err(PortIdError::InvalidNumber),
        };
        if value == 0 {
            return Err(PortIdError::ZeroComponent);
        }
        if i == 0 {
            root = value;
            assert(pow16(0) == 1);
        } else {
            let depth = i - 1;
            if depth >= 5 {
                return Err(PortIdError::TooManyComponents);
            }
            if value & 0xF0 != 0 {
                assert(value & 0xF0u8 != 0 ==> value >= 16) by (bit_vector);
                return Err(PortIdError::ComponentTooLarge(value));
            }
            assert(value & 0xF0u8 == 0 ==> value < 16) by (bit_vector);
            let mult = pow16_u32(depth as u8);
            proof {
                reveal_with_fuel(pow16, 6);
                assert(mult <= 0x1_0000);
                assert(route + value * mult < 16 * mult) by (nonlinear_arith)
                    requires
                        route < mult,
                        value < 16,
                ;
            }
            let ghost old_route = route;
            route = route + (value as u32) * mult;
            assert(pow16((depth + 1) as nat) == 16 * pow16(depth as nat));
            assert(route < pow16((depth + 1) as nat));
        }
        i = i + 1;
        assert(route < pow16((i - 1) as nat));
        proof {
            assert(spec_parse_port_id(s@) == parse_parts(parts.drop_first(), i as nat, root, route as nat));
        }
        if end == s.len() {
            assert(parts.drop_first() =~= Seq::<Seq<u8>>::empty());
            return Ok(PortId { root_hub_port_num: root, route_string: route });
        }
        start = end + 1;
        proof {
            assert(rest.skip((end - old_start) as int + 1) =~= s@.skip(start as int));
        }
    }
}

/// Index of the first `.` at or after `start`, or the length of `s`.
fn find_dot(s: &[u8], start: usize) -> (r: usize)
    requires
        start <= s@.len(),
    ensures
        start <= r <= s@.len(),
        match first_dot(s@.skip(start as int)) {
            Some(k) => r == start + k,
            None => r == s@.len(),
        },
{
    let mut i = start;
    while i < s.len()
        invariant
            start <= i <= s@.len(),
            first_dot(s@.skip(start as int)) == (match first_dot(s@.skip(i as int)) {
                Some(k) => Some((k + (i - start)) as nat),
                None => None::<nat>,
            }),
        decreases s@.len() - i,
    {
        if s[i] == 46u8 {
            assert(s@.skip(i as int)[0] == 46u8);
            return i;
        }
        assert(s@.skip(i as int).drop_first() =~= s@.skip(i + 1));
        i = i + 1;
    }
    assert(s@.skip(i as int).len() == 0);
    i
}

fn sub_slice(s: &[u8], start: usize, end: usize) -> (r: &[u8])
    requires
        start <= end <= s@.len(),
    ensures
        r@ == s@.subrange(start as int, end as int),
{
    let (head, _) = s.split_at(end);
    let (_, mid) = head.split_at(start);
    mid
}

proof fn lemma_first_dot_bound(s: Seq<u8>)
    ensures
        first_dot(s) matches Some(k) ==> k < s.len() && s[k as int] == 46u8 && forall|j: int|
            0 <= j < k ==> s[j] != 46u8,
        first_dot(s) is None ==> forall|j: int| 0 <= j < s.len() ==> s[j] != 46u8,
    decreases s.len(),
{
    if s.len() > 0 {
        lemma_first_dot_bound(s.drop_first());
        assert forall|j: int| 1 <= j < s.len() implies s[j] == s.drop_first()[j - 1] by {}
    }
}

proof fn lemma_split_dots_step(rest: Seq<u8>, k: nat)
    requires
        k <= rest.len(),
        match first_dot(rest) {
            Some(d) => k == d,
            None => k == rest.len(),
        },
    ensures
        split_dots(rest)[0] == rest.take(k as int),
        split_dots(rest).len() >= 1,
        k < rest.len() ==> split_dots(rest).drop_first() == split_dots(rest.skip(k as int + 1)),
        k == rest.len() ==> split_dots(rest).len() == 1,
{
    lemma_first_dot_bound(rest);
    if k == rest.len() {
        assert(rest.take(k as int) =~= rest);
    } else {
        assert((seq![rest.take(k as int)] + split_dots(rest.skip(k as int + 1))).drop_first() =~= split_dots(
            rest.skip(k as int + 1),
        ));
    }
}

// ---------------------------------------------------------------------------
// Laws.

/// Splitting `a + "." + b`, where `a` holds no dot, gives `a` and then the
/// parts of `b`.
proof fn lemma_split_dots_concat(a: Seq<u8>, b: Seq<u8>)
    requires
        forall|j: int| 0 <= j < a.len() ==> a[j] != 46u8,
    ensures
        split_dots(a + seq![46u8] + b) == seq![a] + split_dots(b),
    decreases a.len(),
{
    let s = a + seq![46u8] + b;
    lemma_first_dot_after(a, seq![46u8] + b);
    assert(s =~= a + (seq![46u8] + b));
    assert(first_dot(s) == Some(a.len()));
    assert(s.take(a.len() as int) =~= a);
    assert(s.skip(a.len() as int + 1) =~= b);
}

proof fn lemma_first_dot_after(a: Seq<u8>, b: Seq<u8>)
    requires
        forall|j: int| 0 <= j < a.len() ==> a[j] != 46u8,
    ensures
        first_dot(a + b) == (match first_dot(b) {
            Some(k) => Some(k + a.len()),
            None => None::<nat>,
        }),
    decreases a.len(),
{
    if a.len() > 0 {
        lemma_first_dot_after(a.drop_first(), b);
        assert((a + b).drop_first() =~= a.drop_first() + b);
    } else {
        assert(a + b =~= b);
    }
}

proof fn lemma_split_dots_no_dot(a: Seq<u8>)
    requires
        forall|j: int| 0 <= j < a.len() ==> a[j] != 46u8,
    ensures
        split_dots(a) == seq![a],
{
    lemma_first_dot_after(a, Seq::empty());
    assert(a + Seq::<u8>::empty() =~= a);
}

proof fn lemma_decimal_no_dot(n: nat)
    ensures
        forall|j: int| 0 <= j < decimal(n).len() ==> decimal(n)[j] != 46u8,
{
    lemma_decimal_digits(n);
    assert forall|j: int| 0 <= j < decimal(n).len() implies decimal(n)[j] != 46u8 by {
        assert(is_digit(decimal(n)[j]));
    }
}

/// The parts of the route string's text, after the dot that precedes it.
pub open spec fn route_parts(r: nat) -> Seq<Seq<u8>>
    decreases r,
{
    if r == 0 {
        Seq::empty()
    } else {
        seq![decimal(r % 16)] + route_parts(r / 16)
    }
}

proof fn lemma_split_route_text(head: nat, r: nat)
    ensures
        split_dots(decimal(head) + route_text(r)) == seq![decimal(head)] + route_parts(r),
    decreases r,
{
    lemma_decimal_no_dot(head);
    if r == 0 {
        assert(decimal(head) + route_text(r) =~= decimal(head));
        lemma_split_dots_no_dot(decimal(head));
        assert(seq![decimal(head)] + route_parts(r) =~= seq![decimal(head)]);
    } else {
        lemma_split_route_text(r % 16, r / 16);
        let b = decimal(r % 16) + route_text(r / 16);
        assert(decimal(head) + route_text(r) =~= decimal(head) + seq![46u8] + b);
        lemma_split_dots_concat(decimal(head), b);
        assert(seq![decimal(head)] + route_parts(r) =~= seq![decimal(head)] + (seq![decimal(r % 16)]
            + route_parts(r / 16)));
    }
}

proof fn lemma_parse_route_parts(r: nat, i: nat, root: u8, acc: nat)
    requires
        i >= 1,
        route_components_nonzero(r),
        route_depth(r) + i - 1 <= 5,
        r * pow16((i - 1) as nat) + acc <= u32::MAX,
    ensures
        parse_parts(route_parts(r), i, root, acc) == Ok::<PortId, PortIdError>(
            PortId { root_hub_port_num: root, route_string: (acc + r * pow16((i - 1) as nat)) as u32 },
        ),
    decreases r,
{
    if r == 0 {
        assert(route_parts(0) =~= Seq::<Seq<u8>>::empty());
    } else {
        let n = r % 16;
        let p = pow16((i - 1) as nat);
        lemma_parse_decimal(n, 255);
        assert(route_parts(r).drop_first() =~= route_parts(r / 16));
        assert(r == 16 * (r / 16) + n);
        assert(r * p == n * p + (r / 16) * (16 * p)) by (nonlinear_arith)
            requires
                r == 16 * (r / 16) + n,
        ;
        assert(pow16(i) == 16 * p);
        assert(n * p <= r * p) by (nonlinear_arith)
            requires
                n <= r,
        ;
        assert(route_parts(r)[0] == decimal(n));
        assert(route_depth(r) == 1 + route_depth(r / 16));
        assert(route_components_nonzero(r / 16));
        assert(n != 0);
        assert(((i + 1) - 1) as nat == i);
        lemma_parse_route_parts(r / 16, i + 1, root, (acc + n * p) as nat);
        assert(parse_parts(route_parts(r), i, root, acc) == parse_parts(
            route_parts(r / 16),
            i + 1,
            root,
            (acc + n * p) as nat,
        ));
        assert(acc + n * p + (r / 16) * pow16(i) == acc + r * p);
    }
}

/// The text form of a valid port identifier parses back to it.
pub proof fn lemma_port_id_text_roundtrip(p: PortId)
    requires
        port_id_valid(p),
    ensures
        spec_parse_port_id(port_id_text(p)) == Ok::<PortId, PortIdError>(p),
{
    let root = p.root_hub_port_num;
    let r = p.route_string as nat;
    lemma_split_route_text(root as nat, r);
    lemma_parse_decimal(root as nat, 255);
    let parts = seq![decimal(root as nat)] + route_parts(r);
    assert(parts.drop_first() =~= route_parts(r));
    assert(pow16(0) == 1);
    assert(r * pow16(0) == r);
    lemma_parse_route_parts(r, 1, root, 0);
}

/// Going down to a child port and back up to its parent gives the port and
/// the child's port number back (port number 0 does not name a child).
pub proof fn lemma_child_parent(p: PortId, value: u8)
    requires
        route_depth(p.route_string as nat) < 5,
        0 < value < 16,
    ensures
        ({
            let d = route_depth(p.route_string as nat);
            let c = PortId {
                root_hub_port_num: p.root_hub_port_num,
                route_string: (p.route_string + value * pow16(d)) as u32,
            };
            &&& route_depth(c.route_string as nat) == d + 1
            &&& (c.route_string as nat) % pow16(d) == p.route_string
            &&& (c.route_string as nat) / pow16(d) == value
        }),
{
    let r = p.route_string as nat;
    let d = route_depth(r);
    lemma_route_depth_bounds(r);
    let m = pow16(d);
    reveal_with_fuel(pow16, 6);
    lemma_pow16_monotone(d, 4);
    assert(m <= 0x1_0000);
    let c: nat = (r + value * m) as nat;
    assert(c < 16 * m) by (nonlinear_arith)
        requires
            c == r + value * m,
            r < m,
            value < 16,
    ;
    assert((c as int) % (m as int) == r && (c as int) / (m as int) == value) by (nonlinear_arith)
        requires
            c == r + value * m,
            r < m,
            0 < m,
    {
        vstd::arithmetic::div_mod::lemma_fundamental_div_mod_converse(c as int, m as int, value as int, r as int);
    }
    assert(value * m >= m) by (nonlinear_arith)
        requires
            value >= 1,
            m > 0,
    ;
    assert(pow16(d + 1) == 16 * m);
    assert(pow16(((d + 1) - 1) as nat) == m);
    lemma_depth_of_bounds(c, d + 1);
}

/// A number with its top group at position `d - 1` has depth `d`.
proof fn lemma_depth_of_bounds(c: nat, d: nat)
    requires
        d >= 1,
        pow16((d - 1) as nat) <= c < pow16(d),
    ensures
        route_depth(c) == d,
    decreases d,
{
    reveal_with_fuel(pow16, 2);
    if d == 1 {
        assert(c / 16 == 0);
        assert(route_depth(0) == 0);
    } else {
        let q = c / 16;
        let p = pow16((d - 2) as nat);
        assert(pow16((d - 1) as nat) == 16 * p);
        assert(pow16(d) == 16 * (16 * p));
        assert(p <= q < 16 * p) by (nonlinear_arith)
            requires
                16 * p <= c < 16 * (16 * p),
                q == c / 16,
        ;
        lemma_depth_of_bounds(q, (d - 1) as nat);
    }
}

} // verus!
