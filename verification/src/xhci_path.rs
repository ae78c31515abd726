//! The paths of the xHCI driver's scheme: which file a path names, found by
//! matching the path against the scheme's regular expressions in turn and
//! reading the port and endpoint numbers from their capture groups.

use vstd::prelude::*;
use vstd::string::StringSliceAdditionalSpecFns;
use vstd::utf8::encode_utf8;
use crate::decimal::{parse_u8, spec_parse_unsigned};
use crate::port_id::{port_id_text, spec_parse_port_id, PortId};
use crate::decimal::{decimal, push_decimal};
use crate::xhci_scheme::{EndpointHandleTy, PortReqState};

verus! {

/// What `regex::Regex::captures` finds when the regex compiled from
/// `pattern` searches `haystack`: `None` where it does not match (or the
/// pattern does not compile), else the text of each capture group, group 0
/// being the whole match and `None` standing for a group that took no part.
pub uninterp spec fn regex_captures(pattern: Seq<char>, haystack: Seq<char>) -> Option<Seq<Option<Seq<char>>>>;

/// Compiles `pattern` with `regex::Regex::new` and runs
/// `regex::Regex::captures` on `haystack`, handing back the text of each
/// capture group (`Captures::iter`, `Match::as_str`). The contract claims only
/// that the result is the one that `regex_captures` names for these two
/// strings; nothing is said of what a regular expression matches.
#[verifier::external_body]
fn captures(pattern: &str, haystack: &str) -> (r: Option<Vec<Option<String>>>)
    ensures
        r.deep_view() == regex_captures(pattern@, haystack@),
{
    let re = regex::Regex::new(pattern).ok()?;
    let caps = re.captures(haystack)?;
    Some(caps.iter().map(|m| m.map(|m| m.as_str().to_string())).collect())
}

/// The file of the scheme that a path names, with the numbers read from it.
#[derive(Debug)]
pub enum SchemeParameters {
    /// The scheme's root.
    TopLevel,
    /// `port<n>`
    Port(PortId),
    /// `port<n>/descriptors`
    PortDesc(PortId),
    /// `port<n>/state`
    PortState(PortId),
    /// `port<n>/request`
    PortReq(PortId),
    /// `port<n>/endpoints`
    Endpoints(PortId),
    /// `port<n>/endpoints/<n>` (handle type `root`) or
    /// `port<n>/endpoints/<n>/(ctl|data)`
    Endpoint(PortId, u8, String),
    /// `port<n>/configure`
    ConfigureEndpoints(PortId),
    /// `port<n>/attach`
    AttachDevice(PortId),
    /// `port<n>/detach`
    DetachDevice(PortId),
}

/// Why a path was refused.
#[derive(Clone, Copy, Debug, PartialEq, Eq, Structural)]
pub enum PathError {
    /// The path names no file of the scheme.
    NoEntry,
}

/// How many patterns the scheme's paths are matched against.
pub const PATTERN_COUNT: usize = 10;

/// The scheme's patterns, in the order they are tried.
pub open spec fn scheme_pattern(k: int) -> Seq<char> {
    if k == 0 {
        "^port([\\d\\.]+)/configure$"@
    } else if k == 1 {
        "^port([\\d\\.]+)/attach$"@
    } else if k == 2 {
        "^port([\\d\\.]+)/detach$"@
    } else if k == 3 {
        "^port([\\d\\.]+)/descriptors$"@
    } else if k == 4 {
        "^port([\\d\\.]+)/state$"@
    } else if k == 5 {
        "^port([\\d\\.]+)/request$"@
    } else if k == 6 {
        "^port([\\d\\.]+)/endpoints$"@
    } else if k == 7 {
        "^port([\\d\\.]+)/endpoints/(\\d{1,3})$"@
    } else if k == 8 {
        "port([\\d\\.]+)/endpoints/(\\d{1,3})/(ctl|data)$"@
    } else {
        "^$"@
    }
}

/// Pattern `k` of the scheme.
pub fn pattern(k: usize) -> (r: &'static str)
    requires
        k < PATTERN_COUNT,
    ensures
        r@ == scheme_pattern(k as int),
{
    if k == 0 {
        "^port([\\d\\.]+)/configure$"
    } else if k == 1 {
        "^port([\\d\\.]+)/attach$"
    } else if k == 2 {
        "^port([\\d\\.]+)/detach$"
    } else if k == 3 {
        "^port([\\d\\.]+)/descriptors$"
    } else if k == 4 {
        "^port([\\d\\.]+)/state$"
    } else if k == 5 {
        "^port([\\d\\.]+)/request$"
    } else if k == 6 {
        "^port([\\d\\.]+)/endpoints$"
    } else if k == 7 {
        "^port([\\d\\.]+)/endpoints/(\\d{1,3})$"
    } else if k == 8 {
        "port([\\d\\.]+)/endpoints/(\\d{1,3})/(ctl|data)$"
    } else {
        "^$"
    }
}

/// Capture group `i`, where the match has one and it took part.
pub open spec fn group(caps: Seq<Option<Seq<char>>>, i: int) -> Option<Seq<char>> {
    if 0 <= i < caps.len() {
        caps[i]
    } else {
        None
    }
}

/// The port identifier written in capture group `i`.
pub open spec fn group_port(caps: Seq<Option<Seq<char>>>, i: int) -> Option<PortId> {
    match group(caps, i) {
        Some(t) => match spec_parse_port_id(encode_utf8(t)) {
            Ok(p) => Some(p),
            Err(_) => None,
        },
        None => None,
    }
}

/// The `u8` written in capture group `i`.
pub open spec fn group_u8(caps: Seq<Option<Seq<char>>>, i: int) -> Option<u8> {
    match group(caps, i) {
        Some(t) => match spec_parse_unsigned(encode_utf8(t), 255) {
            Some(v) => Some(v as u8),
            None => None,
        },
        None => None,
    }
}

/// The file that a path matched by pattern `k < 7` names, for its port.
pub open spec fn port_file(k: int, p: PortId) -> SchemeParameters {
    if k == 0 {
        SchemeParameters::ConfigureEndpoints(p)
    } else if k == 1 {
        SchemeParameters::AttachDevice(p)
    } else if k == 2 {
        SchemeParameters::DetachDevice(p)
    } else if k == 3 {
        SchemeParameters::PortDesc(p)
    } else if k == 4 {
        SchemeParameters::PortState(p)
    } else if k == 5 {
        SchemeParameters::PortReq(p)
    } else {
        SchemeParameters::Endpoints(p)
    }
}

/// `r` is what a path matched by pattern `k`, with capture groups `caps`,
/// names: the port in group 1 (and the endpoint in group 2, the handle type
/// in group 3) must parse, else the path names nothing.
pub open spec fn params_from(k: int, caps: Seq<Option<Seq<char>>>, r: Result<SchemeParameters, PathError>) -> bool {
    if 0 <= k < 7 {
        r == match group_port(caps, 1) {
            Some(p) => Ok::<SchemeParameters, PathError>(port_file(k, p)),
            None => Err(PathError::NoEntry),
        }
    } else if k == 7 {
        match (group_port(caps, 1), group_u8(caps, 2)) {
            (Some(p), Some(n)) => r matches Ok(SchemeParameters::Endpoint(p2, n2, s)) && p2 == p && n2 == n
                && s@ == "root"@,
            _ => r == Err::<SchemeParameters, PathError>(PathError::NoEntry),
        }
    } else if k == 8 {
        match (group_port(caps, 1), group_u8(caps, 2), group(caps, 3)) {
            (Some(p), Some(n), Some(t)) => r matches Ok(SchemeParameters::Endpoint(p2, n2, s)) && p2 == p && n2
                == n && s@ == t,
            _ => r == Err::<SchemeParameters, PathError>(PathError::NoEntry),
        }
    } else if k == 9 {
        r matches Ok(SchemeParameters::TopLevel)
    } else {
        r == Err::<SchemeParameters, PathError>(PathError::NoEntry)
    }
}

/// The port identifier in capture group `i`.
fn port_in_group(caps: &Vec<Option<String>>, i: usize) -> (r: Option<PortId>)
    ensures
        r == group_port(caps.deep_view(), i as int),
{
    if i >= caps.len() {
        return None;
    }
    match &caps[i] {
        Some(s) => {
            let t = s.as_str();
            assert(t@ == caps.deep_view()[i as int]->0);
            match PortId::from_str(t) {
                Ok(p) => Some(p),
                Err(_) => None,
            }
        },
        None => None,
    }
}

/// The `u8` in capture group `i`.
fn u8_in_group(caps: &Vec<Option<String>>, i: usize) -> (r: Option<u8>)
    ensures
        r == group_u8(caps.deep_view(), i as int),
{
    if i >= caps.len() {
        return None;
    }
    match &caps[i] {
        Some(s) => {
            let t = s.as_str();
            assert(t@ == caps.deep_view()[i as int]->0);
            parse_u8(t.as_bytes())
        },
        None => None,
    }
}

/// The file named by a path that pattern `k` matched with capture groups
/// `caps`.
pub fn params_from_captures(k: usize, caps: &Vec<Option<String>>) -> (r: Result<SchemeParameters, PathError>)
    ensures
        params_from(k as int, caps.deep_view(), r),
{
    if k == 9 {
        return Ok(SchemeParameters::TopLevel);
    }
    if k >= PATTERN_COUNT {
        return Err(PathError::NoEntry);
    }
    let port = match port_in_group(caps, 1) {
        Some(p) => p,
        None => {
            return Err(PathError::NoEntry);
        },
    };
    if k == 0 {
        Ok(SchemeParameters::ConfigureEndpoints(port))
    } else if k == 1 {
        Ok(SchemeParameters::AttachDevice(port))
    } else if k == 2 {
        Ok(SchemeParameters::DetachDevice(port))
    } else if k == 3 {
        Ok(SchemeParameters::PortDesc(port))
    } else if k == 4 {
        Ok(SchemeParameters::PortState(port))
    } else if k == 5 {
        Ok(SchemeParameters::PortReq(port))
    } else if k == 6 {
        Ok(SchemeParameters::Endpoints(port))
    } else {
        let endpoint = match u8_in_group(caps, 2) {
            Some(n) => n,
            None => {
                return Err(PathError::NoEntry);
            },
        };
        if k == 7 {
            Ok(SchemeParameters::Endpoint(port, endpoint, "root".to_owned()))
        } else {
            if caps.len() <= 3 {
                return Err(PathError::NoEntry);
            }
            match &caps[3] {
                Some(s) => {
                    let ty = s.clone();
                    assert(ty@ == caps.deep_view()[3]->0);
                    Ok(SchemeParameters::Endpoint(port, endpoint, ty))
                },
                None => Err(PathError::NoEntry),
            }
        }
    }
}

/// The first pattern from `k` on that matches `text`, with its capture
/// groups.
pub open spec fn first_match(k: int, text: Seq<char>) -> Option<(int, Seq<Option<Seq<char>>>)>
    decreases PATTERN_COUNT - k,
{
    if k < 0 || k >= PATTERN_COUNT {
        None
    } else {
        match regex_captures(scheme_pattern(k), text) {
            Some(c) => Some((k, c)),
            None => first_match(k + 1, text),
        }
    }
}

impl SchemeParameters {
    /// The file that a path of the scheme names: the path is matched against
    /// the scheme's patterns in turn, and the first that matches decides.
    pub fn from_scheme(scheme: &str) -> (r: Result<Self, PathError>)
        ensures
            match first_match(0, scheme@) {
                Some((k, c)) => params_from(k, c, r),
                None => r == Err::<SchemeParameters, PathError>(PathError::NoEntry),
            },
    {
        let mut k: usize = 0;
        while k < PATTERN_COUNT
            invariant
                k <= PATTERN_COUNT,
                first_match(0, scheme@) == first_match(k as int, scheme@),
            decreases PATTERN_COUNT - k,
        {
            let p = pattern(k);
            match captures(p, scheme) {
                Some(caps) => {
                    return params_from_captures(k, &caps);
                },
                None => {},
            }
            k = k + 1;
        }
        Err(PathError::NoEntry)
    }
}

/// An open file of the scheme, with its contents where it has them.
pub enum Handle {
    TopLevel(Vec<u8>),
    Port(PortId, Vec<u8>),
    PortDesc(PortId, Vec<u8>),
    PortState(PortId),
    PortReq(PortId, PortReqState),
    Endpoints(PortId, Vec<u8>),
    Endpoint(PortId, u8, EndpointHandleTy),
    ConfigureEndpoints(PortId),
    AttachDevice(PortId),
    DetachDevice(PortId),
}

/// How a file of the scheme reports itself: a directory, a file with a
/// size, or a character device.
#[derive(Clone, Copy, Debug, PartialEq, Eq, Structural)]
pub enum HandleType {
    Directory,
    File,
    Character,
}

/// The bytes of `s`.
pub open spec fn text(s: &str) -> Seq<u8> {
    encode_utf8(s@)
}

/// `port<n>` followed by `rest`.
pub open spec fn port_path(p: PortId, rest: Seq<u8>) -> Seq<u8> {
    text("port") + port_id_text(p) + rest
}

/// The path of the scheme that a handle was opened with.
pub open spec fn handle_path(h: Handle) -> Seq<u8> {
    match h {
        Handle::TopLevel(_) => Seq::empty(),
        Handle::Port(p, _) => port_path(p, Seq::empty()),
        Handle::PortDesc(p, _) => port_path(p, text("/descriptors")),
        Handle::PortState(p) => port_path(p, text("/state")),
        Handle::PortReq(p, _) => port_path(p, text("/request")),
        Handle::Endpoints(p, _) => port_path(p, text("/endpoints")),
        Handle::Endpoint(p, n, ty) => port_path(
            p,
            text("/endpoints/") + decimal(n as nat) + match ty {
                EndpointHandleTy::Data => text("/data"),
                EndpointHandleTy::Ctl => text("/ctl"),
                EndpointHandleTy::Root(_) => Seq::empty(),
            },
        ),
        Handle::ConfigureEndpoints(p) => port_path(p, text("/configure")),
        Handle::AttachDevice(p) => port_path(p, text("/attach")),
        Handle::DetachDevice(p) => port_path(p, text("/detach")),
    }
}

fn push_text(out: &mut Vec<u8>, s: &str)
    ensures
        final(out)@ == old(out)@ + text(s),
{
    let b = s.as_bytes();
    let mut i: usize = 0;
    let ghost start = out@;
    while i < b.len()
        invariant
            i <= b@.len(),
            b@ == text(s),
            out@ == start + b@.take(i as int),
        decreases b@.len() - i,
    {
        out.push(b[i]);
        i = i + 1;
        assert(out@ =~= start + b@.take(i as int));
    }
    assert(b@.take(b@.len() as int) =~= b@);
}

fn push_port(out: &mut Vec<u8>, p: &PortId)
    ensures
        final(out)@ == old(out)@ + text("port") + port_id_text(*p),
{
    push_text(out, "port");
    let mut t = p.to_ascii();
    out.append(&mut t);
}

impl Handle {
    /// The path the handle was opened with, as bytes.
    pub fn to_scheme(&self) -> (r: Vec<u8>)
        ensures
            r@ == handle_path(*self),
    {
        let mut out: Vec<u8> = Vec::new();
        match self {
            Handle::TopLevel(_) => {},
            Handle::Port(p, _) => {
                push_port(&mut out, p);
            },
            Handle::PortDesc(p, _) => {
                push_port(&mut out, p);
                push_text(&mut out, "/descriptors");
            },
            Handle::PortState(p) => {
                push_port(&mut out, p);
                push_text(&mut out, "/state");
            },
            Handle::PortReq(p, _) => {
                push_port(&mut out, p);
                push_text(&mut out, "/request");
            },
            Handle::Endpoints(p, _) => {
                push_port(&mut out, p);
                push_text(&mut out, "/endpoints");
            },
            Handle::Endpoint(p, n, ty) => {
                push_port(&mut out, p);
                push_text(&mut out, "/endpoints/");
                push_decimal(&mut out, *n as u32);
                match ty {
                    EndpointHandleTy::Data => push_text(&mut out, "/data"),
                    EndpointHandleTy::Ctl => push_text(&mut out, "/ctl"),
                    EndpointHandleTy::Root(_) => {},
                }
            },
            Handle::ConfigureEndpoints(p) => {
                push_port(&mut out, p);
                push_text(&mut out, "/configure");
            },
            Handle::AttachDevice(p) => {
                push_port(&mut out, p);
                push_text(&mut out, "/attach");
            },
            Handle::DetachDevice(p) => {
                push_port(&mut out, p);
                push_text(&mut out, "/detach");
            },
        }
        proof {
            match self {
                Handle::Endpoint(p, n, ty) => {
                    let e = match ty {
                        EndpointHandleTy::Data => text("/data"),
                        EndpointHandleTy::Ctl => text("/ctl"),
                        EndpointHandleTy::Root(_) => Seq::empty(),
                    };
                    assert(out@ =~= port_path(*p, text("/endpoints/") + decimal(*n as nat) + e));
                },
                Handle::TopLevel(_) => {
                    assert(out@ =~= Seq::<u8>::empty());
                },
                Handle::Port(p, _) => {
                    assert(out@ =~= port_path(*p, Seq::empty()));
                },
                _ => {},
            }
        }
        out
    }

    /// Whether the file is a directory, a file or a character device.
    pub fn get_handle_type(&self) -> (r: HandleType)
        ensures
            r == (match *self {
                Handle::TopLevel(_) | Handle::Port(_, _) | Handle::Endpoints(_, _) => HandleType::Directory,
                Handle::PortDesc(_, _) => HandleType::File,
                Handle::Endpoint(_, _, EndpointHandleTy::Root(_)) => HandleType::Directory,
                _ => HandleType::Character,
            }),
    {
        match self {
            Handle::TopLevel(_) => HandleType::Directory,
            Handle::Port(_, _) => HandleType::Directory,
            Handle::Endpoints(_, _) => HandleType::Directory,
            Handle::PortDesc(_, _) => HandleType::File,
            Handle::PortReq(_, _) => HandleType::Character,
            Handle::PortState(_) => HandleType::Character,
            Handle::ConfigureEndpoints(_) => HandleType::Character,
            Handle::AttachDevice(_) => HandleType::Character,
            Handle::DetachDevice(_) => HandleType::Character,
            Handle::Endpoint(_, _, st) => match st {
                EndpointHandleTy::Data => HandleType::Character,
                EndpointHandleTy::Ctl => HandleType::Character,
                EndpointHandleTy::Root(_) => HandleType::Directory,
            },
        }
    }

    /// The size of the file's contents, where it has contents: the listings,
    /// the descriptors, and the buffer of a request waiting for its data.
    pub fn get_buf_len(&self) -> (r: Option<usize>)
        ensures
            r == (match *self {
                Handle::TopLevel(b) => Some(b@.len() as usize),
                Handle::Port(_, b) => Some(b@.len() as usize),
                Handle::Endpoints(_, b) => Some(b@.len() as usize),
                Handle::PortDesc(_, b) => Some(b@.len() as usize),
                Handle::PortReq(_, PortReqState::WaitingForDeviceBytes(n, _)) => Some(n),
                Handle::PortReq(_, PortReqState::WaitingForHostBytes(n, _)) => Some(n),
                Handle::Endpoint(_, _, EndpointHandleTy::Root(b)) => Some(b@.len() as usize),
                _ => None,
            }),
    {
        match self {
            Handle::TopLevel(buf) => Some(buf.len()),
            Handle::Port(_, buf) => Some(buf.len()),
            Handle::Endpoints(_, buf) => Some(buf.len()),
            Handle::PortDesc(_, buf) => Some(buf.len()),
            Handle::PortReq(_, PortReqState::WaitingForDeviceBytes(n, _)) => Some(*n),
            Handle::PortReq(_, PortReqState::WaitingForHostBytes(n, _)) => Some(*n),
            Handle::PortReq(_, _) => None,
            Handle::PortState(_) => None,
            Handle::ConfigureEndpoints(_) => None,
            Handle::AttachDevice(_) => None,
            Handle::DetachDevice(_) => None,
            Handle::Endpoint(_, _, st) => match st {
                EndpointHandleTy::Data => None,
                EndpointHandleTy::Ctl => None,
                EndpointHandleTy::Root(buf) => Some(buf.len()),
            },
        }
    }
}

} // verus!
