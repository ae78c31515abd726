//! Choosing the class driver of each interface of a configured device, and
//! the command line that starts it.

use vstd::prelude::*;
use vstd::string::StringSliceAdditionalSpecFns;
use vstd::utf8::encode_utf8;
use crate::decimal::{decimal, push_decimal};
use crate::port_id::{port_id_text, PortId};
use crate::xhci_iface::{ConfDesc, DevDesc, IfDesc};

verus! {

/// One entry of the drivers table: the interface class it serves, the
/// subclass (where it is 0 to 255; other values match any subclass), and the
/// program with its arguments.
#[derive(Clone, Debug)]
pub struct DriverConfig {
    pub name: String,
    pub class: u8,
    pub subclass: i16,
    pub command: Vec<String>,
}

impl DriverConfig {
    /// The subclass the entry asks for, if it asks for one.
    pub fn subclass(&self) -> (r: Option<u8>)
        ensures
            r == (if 0 <= self.subclass <= 255 {
                Some(self.subclass as u8)
            } else {
                None
            }),
    {
        if 0 <= self.subclass && self.subclass <= 255 {
            Some(self.subclass as u8)
        } else {
            None
        }
    }
}

/// Whether the entry `d` serves an interface of `class` and `sub_class`.
pub open spec fn driver_matches(d: DriverConfig, class: u8, sub_class: u8) -> bool {
    d.class == class && (0 <= d.subclass <= 255 ==> d.subclass == sub_class as i16)
}

/// The first entry from `k` on that serves the interface.
pub open spec fn first_driver_from(drivers: Seq<DriverConfig>, class: u8, sub_class: u8, k: nat) -> Option<
    nat,
>
    decreases drivers.len() - k,
{
    if k >= drivers.len() {
        None
    } else if driver_matches(drivers[k as int], class, sub_class) {
        Some(k)
    } else {
        first_driver_from(drivers, class, sub_class, k + 1)
    }
}

/// The first entry of the table that serves an interface of `class` and
/// `sub_class`.
pub fn find_driver(drivers: &[DriverConfig], class: u8, sub_class: u8) -> (r: Option<usize>)
    ensures
        r == (match first_driver_from(drivers@, class, sub_class, 0) {
            Some(k) => Some(k as usize),
            None => None::<usize>,
        }),
        match r {
            Some(k) => k < drivers@.len() && driver_matches(drivers@[k as int], class, sub_class)
                && forall|j: int| 0 <= j < k ==> !driver_matches(#[trigger] drivers@[j], class, sub_class),
            None => forall|j: int|
                0 <= j < drivers@.len() ==> !driver_matches(#[trigger] drivers@[j], class, sub_class),
        },
{
    let mut k: usize = 0;
    while k < drivers.len()
        invariant
            k <= drivers@.len(),
            first_driver_from(drivers@, class, sub_class, 0) == first_driver_from(
                drivers@,
                class,
                sub_class,
                k as nat,
            ),
            forall|j: int| 0 <= j < k ==> !driver_matches(#[trigger] drivers@[j], class, sub_class),
        decreases drivers.len() - k,
    {
        let d = &drivers[k];
        let sub_ok = match d.subclass() {
            Some(s) => s == sub_class,
            None => true,
        };
        if d.class == class && sub_ok {
            return Some(k);
        }
        k = k + 1;
    }
    None
}

/// The interfaces, by index, that get a driver, each with the entry that
/// serves it: only default alternate settings are considered.
pub open spec fn driver_plan_from(
    ifaces: Seq<IfDesc>,
    drivers: Seq<DriverConfig>,
    i: nat,
) -> Seq<(usize, usize)>
    decreases ifaces.len() - i,
{
    if i >= ifaces.len() {
        Seq::empty()
    } else if ifaces[i as int].alternate_setting == 0 {
        match first_driver_from(drivers, ifaces[i as int].class, ifaces[i as int].sub_class, 0) {
            Some(k) => seq![(i as usize, k as usize)] + driver_plan_from(ifaces, drivers, i + 1),
            None => driver_plan_from(ifaces, drivers, i + 1),
        }
    } else {
        driver_plan_from(ifaces, drivers, i + 1)
    }
}

/// For each interface of the device's first configuration, in order, the
/// table entry whose driver is started for it.
pub fn driver_plan(ifaces: &[IfDesc], drivers: &[DriverConfig]) -> (r: Vec<(usize, usize)>)
    ensures
        r@ == driver_plan_from(ifaces@, drivers@, 0),
{
    let mut r: Vec<(usize, usize)> = Vec::new();
    let mut i: usize = 0;
    while i < ifaces.len()
        invariant
            i <= ifaces@.len(),
            r@ + driver_plan_from(ifaces@, drivers@, i as nat) == driver_plan_from(ifaces@, drivers@, 0),
        decreases ifaces.len() - i,
    {
        let ghost before = r@;
        let d = &ifaces[i];
        if d.alternate_setting == 0 {
            match find_driver(drivers, d.class, d.sub_class) {
                Some(k) => {
                    r.push((i, k));
                    assert(r@ + driver_plan_from(ifaces@, drivers@, (i + 1) as nat) =~= before
                        + driver_plan_from(ifaces@, drivers@, i as nat));
                },
                None => {},
            }
        }
        i = i + 1;
    }
    assert(r@ =~= driver_plan_from(ifaces@, drivers@, 0));
    r
}

/// The drivers to start for a device: those of its first configuration's
/// interfaces; `None` where it has no configuration.
pub fn device_driver_plan(dev: &DevDesc, drivers: &[DriverConfig]) -> (r: Option<Vec<(usize, usize)>>)
    ensures
        (dev.config_descs@.len() == 0) == (r is None),
        match r {
            Some(p) => p@ == driver_plan_from(dev.config_descs@[0].interface_descs@, drivers@, 0),
            None => true,
        },
{
    let cs = dev.config_descs.as_slice();
    if cs.len() == 0 {
        return None;
    }
    Some(driver_plan(cs[0].interface_descs.as_slice(), drivers))
}

/// `s` with every occurrence of `pat`, left to right and not overlapping,
/// replaced by `rep`.
pub open spec fn replace_all(s: Seq<u8>, pat: Seq<u8>, rep: Seq<u8>) -> Seq<u8>
    decreases s.len(),
{
    if pat.len() == 0 || s.len() < pat.len() {
        s
    } else if s.take(pat.len() as int) == pat {
        rep + replace_all(s.skip(pat.len() as int), pat, rep)
    } else {
        seq![s[0]] + replace_all(s.skip(1), pat, rep)
    }
}

fn matches_at(s: &[u8], i: usize, pat: &[u8]) -> (r: bool)
    requires
        i <= s@.len(),
    ensures
        r == (pat@.len() <= s@.len() - i && s@.skip(i as int).take(pat@.len() as int) == pat@),
{
    if pat.len() > s.len() - i {
        return false;
    }
    let n: usize = s.len();
    let mut k: usize = 0;
    while k < pat.len()
        invariant
            k <= pat@.len(),
            n == s@.len(),
            i + pat@.len() <= n,
            forall|j: int| 0 <= j < k ==> s@[i + j] == pat@[j],
        decreases pat.len() - k,
    {
        let j: usize = i + k;
        if s[j] != pat[k] {
            assert(s@.skip(i as int).take(pat@.len() as int)[k as int] != pat@[k as int]);
            return false;
        }
        k = k + 1;
    }
    assert(s@.skip(i as int).take(pat@.len() as int) =~= pat@);
    true
}

fn push_all(out: &mut Vec<u8>, s: &[u8])
    ensures
        final(out)@ == old(out)@ + s@,
{
    let mut k: usize = 0;
    while k < s.len()
        invariant
            k <= s@.len(),
            out@ == old(out)@ + s@.take(k as int),
        decreases s.len() - k,
    {
        out.push(s[k]);
        k = k + 1;
        assert(s@.take(k as int) =~= s@.take(k - 1).push(s@[k - 1]));
    }
    assert(s@.take(k as int) =~= s@);
}

/// `s` with every occurrence of the nonempty `pat` replaced by `rep`, as
/// `str::replace` does.
pub fn replace_bytes(s: &[u8], pat: &[u8], rep: &[u8]) -> (r: Vec<u8>)
    requires
        pat@.len() > 0,
    ensures
        r@ == replace_all(s@, pat@, rep@),
{
    let mut out: Vec<u8> = Vec::new();
    let mut i: usize = 0;
    assert(s@.skip(0) =~= s@);
    while i < s.len()
        invariant
            i <= s@.len(),
            pat@.len() > 0,
            out@ + replace_all(s@.skip(i as int), pat@, rep@) == replace_all(s@, pat@, rep@),
        decreases s.len() - i,
    {
        let ghost before = out@;
        let ghost rest = s@.skip(i as int);
        if matches_at(s, i, pat) {
            push_all(&mut out, rep);
            assert(rest.skip(pat@.len() as int) =~= s@.skip(i + pat@.len()));
            assert(out@ + replace_all(s@.skip(i + pat@.len()), pat@, rep@) =~= before + replace_all(
                rest,
                pat@,
                rep@,
            ));
            i = i + pat.len();
        } else {
            out.push(s[i]);
            assert(rest.skip(1) =~= s@.skip(i + 1));
            assert(rest =~= seq![s@[i as int]] + s@.skip(i + 1));
            assert(out@ + replace_all(s@.skip(i + 1), pat@, rep@) =~= before + replace_all(
                rest,
                pat@,
                rep@,
            ));
            i = i + 1;
        }
    }
    assert(s@.skip(i as int) =~= Seq::<u8>::empty());
    assert(out@ + replace_all(s@.skip(i as int), pat@, rep@) =~= out@);
    out
}

/// `$SCHEME`
pub open spec fn scheme_placeholder() -> Seq<u8> {
    seq![36u8, 83, 67, 72, 69, 77, 69]
}

/// `$PORT`
pub open spec fn port_placeholder() -> Seq<u8> {
    seq![36u8, 80, 79, 82, 84]
}

/// `$IF_NUM`
pub open spec fn if_num_placeholder() -> Seq<u8> {
    seq![36u8, 73, 70, 95, 78, 85, 77]
}

/// `$IF_PROTO`
pub open spec fn if_proto_placeholder() -> Seq<u8> {
    seq![36u8, 73, 70, 95, 80, 82, 79, 84, 79]
}

/// `/usr/lib/drivers/`, where programs named without a path are found.
pub open spec fn drivers_dir() -> Seq<u8> {
    seq![47u8, 117, 115, 114, 47, 108, 105, 98, 47, 100, 114, 105, 118, 101, 114, 115, 47]
}

/// An argument of a driver's command with its placeholders filled in: the
/// scheme's name, the port, and the interface's number and protocol.
pub open spec fn substitute_arg(
    arg: Seq<u8>,
    scheme: Seq<u8>,
    port: PortId,
    if_num: u8,
    if_proto: u8,
) -> Seq<u8> {
    let a = replace_all(arg, scheme_placeholder(), scheme);
    let b = replace_all(a, port_placeholder(), port_id_text(port));
    let c = replace_all(b, if_num_placeholder(), decimal(if_num as nat));
    replace_all(c, if_proto_placeholder(), decimal(if_proto as nat))
}

/// The program a command names: itself where it starts with `/`, else the
/// drivers directory's program of that name.
pub open spec fn driver_program(cmd: Seq<u8>) -> Seq<u8> {
    if cmd.len() > 0 && cmd[0] == 47 {
        cmd
    } else {
        drivers_dir() + cmd
    }
}

/// A driver's program and arguments, as bytes of UTF-8 text.
pub struct DriverInvocation {
    pub program: Vec<u8>,
    pub args: Vec<Vec<u8>>,
}

/// The command line that starts the driver `d` for interface `if_num` (of
/// protocol `if_proto`) on `port` of the controller named `scheme`; `None`
/// where the entry's command is empty.
pub fn driver_invocation(d: &DriverConfig, scheme: &str, port: PortId, if_num: u8, if_proto: u8) -> (r:
    Option<DriverInvocation>)
    ensures
        (d.command@.len() == 0) == (r is None),
        match r {
            Some(inv) => {
                &&& inv.program@ == driver_program(encode_utf8(d.command@[0]@))
                &&& inv.args@.len() == d.command@.len() - 1
                &&& forall|k: int|
                    0 <= k < inv.args@.len() ==> (#[trigger] inv.args@[k])@ == substitute_arg(
                        encode_utf8(d.command@[k + 1]@),
                        scheme.spec_bytes(),
                        port,
                        if_num,
                        if_proto,
                    )
            },
            None => true,
        },
{
    if d.command.len() == 0 {
        return None;
    }
    let cmd = d.command[0].as_str().as_bytes();
    let mut program: Vec<u8> = Vec::new();
    if cmd.len() > 0 && cmd[0] == 47 {
        push_all(&mut program, cmd);
    } else {
        let dir: Vec<u8> = vec![47u8, 117, 115, 114, 47, 108, 105, 98, 47, 100, 114, 105, 118, 101, 114, 115, 47];
        assert(dir@ =~= drivers_dir());
        push_all(&mut program, dir.as_slice());
        push_all(&mut program, cmd);
    }
    let scheme_ph: Vec<u8> = vec![36u8, 83, 67, 72, 69, 77, 69];
    let port_ph: Vec<u8> = vec![36u8, 80, 79, 82, 84];
    let num_ph: Vec<u8> = vec![36u8, 73, 70, 95, 78, 85, 77];
    let proto_ph: Vec<u8> = vec![36u8, 73, 70, 95, 80, 82, 79, 84, 79];
    assert(scheme_ph@ =~= scheme_placeholder());
    assert(port_ph@ =~= port_placeholder());
    assert(num_ph@ =~= if_num_placeholder());
    assert(proto_ph@ =~= if_proto_placeholder());
    let port_text = port.to_ascii();
    let mut num_text: Vec<u8> = Vec::new();
    push_decimal(&mut num_text, if_num as u32);
    let mut proto_text: Vec<u8> = Vec::new();
    push_decimal(&mut proto_text, if_proto as u32);
    assert(num_text@ =~= decimal(if_num as nat));
    assert(proto_text@ =~= decimal(if_proto as nat));
    let scheme_bytes = scheme.as_bytes();
    let mut args: Vec<Vec<u8>> = Vec::new();
    let mut k: usize = 1;
    while k < d.command.len()
        invariant
            1 <= k <= d.command@.len(),
            args@.len() == k - 1,
            scheme_ph@ == scheme_placeholder(),
            port_ph@ == port_placeholder(),
            num_ph@ == if_num_placeholder(),
            proto_ph@ == if_proto_placeholder(),
            port_text@ == port_id_text(port),
            num_text@ == decimal(if_num as nat),
            proto_text@ == decimal(if_proto as nat),
            scheme_bytes@ == scheme.spec_bytes(),
            forall|j: int|
                0 <= j < args@.len() ==> (#[trigger] args@[j])@ == substitute_arg(
                    encode_utf8(d.command@[j + 1]@),
                    scheme.spec_bytes(),
                    port,
                    if_num,
                    if_proto,
                ),
        decreases d.command.len() - k,
    {
        let arg = d.command[k].as_str().as_bytes();
        let a = replace_bytes(arg, scheme_ph.as_slice(), scheme_bytes);
        let b = replace_bytes(a.as_slice(), port_ph.as_slice(), port_text.as_slice());
        let c = replace_bytes(b.as_slice(), num_ph.as_slice(), num_text.as_slice());
        let e = replace_bytes(c.as_slice(), proto_ph.as_slice(), proto_text.as_slice());
        args.push(e);
        k = k + 1;
    }
    Some(DriverInvocation { program, args })
}


/// Which interface a class driver looks for in the device's descriptors.
#[derive(Clone, Copy, Debug, PartialEq, Eq, Structural)]
pub enum InterfaceWanted {
    /// The interface it was started for, by number (the hub driver).
    Number(u8),
    /// A SCSI mass storage interface with bulk-only transport (class 8,
    /// subclass 6, protocol 0x50).
    BulkOnlyScsi,
}

pub open spec fn interface_wanted(w: InterfaceWanted, d: IfDesc) -> bool {
    match w {
        InterfaceWanted::Number(n) => d.number == n,
        InterfaceWanted::BulkOnlyScsi => d.class == 8 && d.sub_class == 6 && d.protocol == 0x50,
    }
}

/// The first wanted interface of a configuration's interfaces.
pub open spec fn wanted_from(ifaces: Seq<IfDesc>, w: InterfaceWanted, k: nat) -> Option<nat>
    decreases ifaces.len() - k,
{
    if k >= ifaces.len() {
        None
    } else if interface_wanted(w, ifaces[k as int]) {
        Some(k)
    } else {
        wanted_from(ifaces, w, k + 1)
    }
}

/// The first configuration, from `k` on, with a wanted interface, and that
/// interface.
pub open spec fn config_interface_from(cs: Seq<ConfDesc>, w: InterfaceWanted, k: nat) -> Option<
    (nat, nat),
>
    decreases cs.len() - k,
{
    if k >= cs.len() {
        None
    } else {
        match wanted_from(cs[k as int].interface_descs@, w, 0) {
            Some(i) => Some((k, i)),
            None => config_interface_from(cs, w, k + 1),
        }
    }
}

fn find_wanted(ifaces: &[IfDesc], w: InterfaceWanted) -> (r: Option<usize>)
    ensures
        r == (match wanted_from(ifaces@, w, 0) {
            Some(i) => Some(i as usize),
            None => None::<usize>,
        }),
{
    let mut k: usize = 0;
    while k < ifaces.len()
        invariant
            k <= ifaces@.len(),
            wanted_from(ifaces@, w, 0) == wanted_from(ifaces@, w, k as nat),
        decreases ifaces.len() - k,
    {
        let d = &ifaces[k];
        let hit = match w {
            InterfaceWanted::Number(n) => d.number == n,
            InterfaceWanted::BulkOnlyScsi => d.class == 8 && d.sub_class == 6 && d.protocol == 0x50,
        };
        if hit {
            return Some(k);
        }
        k = k + 1;
    }
    None
}

/// The configuration and interface, by index, a class driver uses: the first
/// configuration that has a wanted interface, and its first such interface.
pub fn find_interface(desc: &DevDesc, w: InterfaceWanted) -> (r: Option<(usize, usize)>)
    ensures
        r == (match config_interface_from(desc.config_descs@, w, 0) {
            Some((c, i)) => Some((c as usize, i as usize)),
            None => None::<(usize, usize)>,
        }),
{
    let cs = desc.config_descs.as_slice();
    let mut k: usize = 0;
    while k < cs.len()
        invariant
            k <= cs@.len(),
            cs@ == desc.config_descs@,
            config_interface_from(cs@, w, 0) == config_interface_from(cs@, w, k as nat),
        decreases cs.len() - k,
    {
        match find_wanted(cs[k].interface_descs.as_slice(), w) {
            Some(i) => {
                return Some((k, i));
            },
            None => {},
        }
        k = k + 1;
    }
    None
}

} // verus!
