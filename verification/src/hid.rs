//! USB HID report descriptors: the short-item parser, the nesting of main
//! items into collections, the global/local item state, and bit-level views
//! into input reports.

use vstd::prelude::*;
use crate::bytes::{
    le16, le32, le_bytes16, le_bytes32, lemma_le16_of_bytes, lemma_le32_of_bytes, read_le16, read_le32,
};

verus! {

/// Flags of an Input/Output/Feature main item (bit positions of its data).
pub const MAIN_ITEM_FLAG_CONSTANT: u32 = 0x1;
pub const MAIN_ITEM_FLAG_VARIABLE: u32 = 0x2;
pub const MAIN_ITEM_FLAG_RELATIVE: u32 = 0x4;
pub const MAIN_ITEM_FLAG_WRAP: u32 = 0x8;
pub const MAIN_ITEM_FLAG_NONLINEAR: u32 = 0x10;
pub const MAIN_ITEM_FLAG_NO_PREFERRED_STATE: u32 = 0x20;
pub const MAIN_ITEM_FLAG_NULL_STATE: u32 = 0x40;
pub const MAIN_ITEM_FLAG_VOLATILE: u32 = 0x80;
pub const MAIN_ITEM_FLAG_BUFFERED_BYTES: u32 = 0x100;

/// Descriptor type of a HID report descriptor.
pub const REPORT_DESC_TY: u8 = 34;

/// Collection kinds carried by a Collection main item.
#[derive(Clone, Copy, Debug, PartialEq, Eq, Structural)]
pub enum MainCollectionFlags {
    Physical,
    Application,
    Logical,
    Report,
    NamedArray,
    UsageSwitch,
    UsageModifier,
}

impl MainCollectionFlags {
    /// The collection kind's number in a Collection item.
    pub fn code(&self) -> (r: u8)
        ensures
            r == spec_collection_code(*self),
    {
        match self {
            MainCollectionFlags::Physical => 0,
            MainCollectionFlags::Application => 1,
            MainCollectionFlags::Logical => 2,
            MainCollectionFlags::Report => 3,
            MainCollectionFlags::NamedArray => 4,
            MainCollectionFlags::UsageSwitch => 5,
            MainCollectionFlags::UsageModifier => 6,
        }
    }
}

pub open spec fn spec_collection_code(f: MainCollectionFlags) -> u8 {
    match f {
        MainCollectionFlags::Physical => 0,
        MainCollectionFlags::Application => 1,
        MainCollectionFlags::Logical => 2,
        MainCollectionFlags::Report => 3,
        MainCollectionFlags::NamedArray => 4,
        MainCollectionFlags::UsageSwitch => 5,
        MainCollectionFlags::UsageModifier => 6,
    }
}

/// The three kinds of reports a HID device exchanges.
#[derive(Clone, Copy, Debug, PartialEq, Eq, Structural)]
pub enum ReportTy {
    Input,
    Output,
    Feature,
}

#[derive(Clone, Copy, Debug, PartialEq, Eq, Structural)]
pub enum MainItem {
    Input(u32),
    Output(u32),
    Feature(u32),
    Collection(u8),
    EndOfCollection,
}

impl MainItem {
    /// The report kind of an Input/Output/Feature item.
    pub fn report_ty(&self) -> (r: Option<ReportTy>)
        ensures
            r == (match *self {
                MainItem::Input(_) => Some(ReportTy::Input),
                MainItem::Output(_) => Some(ReportTy::Output),
                MainItem::Feature(_) => Some(ReportTy::Feature),
                _ => None,
            }),
    {
        match self {
            MainItem::Input(_) => Some(ReportTy::Input),
            MainItem::Output(_) => Some(ReportTy::Output),
            MainItem::Feature(_) => Some(ReportTy::Feature),
            _ => None,
        }
    }
}

#[derive(Clone, Copy, Debug, PartialEq, Eq, Structural)]
pub enum GlobalItem {
    UsagePage(u32),
    LogicalMinimum(u32),
    LogicalMaximum(u32),
    PhysicalMinimum(u32),
    PhysicalMaximum(u32),
    UnitExponent(u32),
    Unit(u32),
    ReportSize(u32),
    ReportId(u32),
    ReportCount(u32),
    Push,
    Pop,
}

/// The global item values in effect at a point of a report descriptor.
#[derive(Clone, Copy, Debug, PartialEq, Eq, Structural)]
pub struct GlobalItemsState {
    pub usage_page: Option<u32>,
    pub logical_min: Option<u32>,
    pub logical_max: Option<u32>,
    pub physical_min: Option<u32>,
    pub physical_max: Option<u32>,
    pub unit_exponent: Option<u32>,
    pub unit: Option<u32>,
    pub report_size: Option<u32>,
    pub report_id: Option<u32>,
    pub report_count: Option<u32>,
}

impl Default for GlobalItemsState {
    fn default() -> (r: Self)
        ensures
            r == spec_empty_global_state(),
    {
        GlobalItemsState {
            usage_page: None,
            logical_min: None,
            logical_max: None,
            physical_min: None,
            physical_max: None,
            unit_exponent: None,
            unit: None,
            report_size: None,
            report_id: None,
            report_count: None,
        }
    }
}

pub open spec fn spec_empty_global_state() -> GlobalItemsState {
    GlobalItemsState {
        usage_page: None,
        logical_min: None,
        logical_max: None,
        physical_min: None,
        physical_max: None,
        unit_exponent: None,
        unit: None,
        report_size: None,
        report_id: None,
        report_count: None,
    }
}

/// A Pop global item found no pushed state.
#[derive(Clone, Copy, Debug, PartialEq, Eq, Structural)]
pub struct Invalid;

#[derive(Clone, Copy, Debug, PartialEq, Eq, Structural)]
pub enum LocalItem {
    Usage(u32),
    UsageMinimum(u32),
    UsageMaximum(u32),
    DesignatorIndex(u32),
    DesignatorMinimum(u32),
    DesignatorMaximum(u32),
    StringIndex(u32),
    StringMinimum(u32),
    StringMaximum(u32),
    Delimeter(u32),
}

/// The local item values collected since the last main item.
#[derive(Clone, Copy, Debug, PartialEq, Eq, Structural)]
pub struct LocalItemsState {
    pub usage: Option<u32>,
    pub usage_min: Option<u32>,
    pub usage_max: Option<u32>,
    pub desig_idx: Option<u32>,
    pub desig_min: Option<u32>,
    pub desig_max: Option<u32>,
    pub str_idx: Option<u32>,
    pub str_min: Option<u32>,
    pub str_max: Option<u32>,
}

impl Default for LocalItemsState {
    fn default() -> (r: Self)
        ensures
            r == spec_empty_local_state(),
    {
        LocalItemsState {
            usage: None,
            usage_min: None,
            usage_max: None,
            desig_idx: None,
            desig_min: None,
            desig_max: None,
            str_idx: None,
            str_min: None,
            str_max: None,
        }
    }
}

pub open spec fn spec_empty_local_state() -> LocalItemsState {
    LocalItemsState {
        usage: None,
        usage_min: None,
        usage_max: None,
        desig_idx: None,
        desig_min: None,
        desig_max: None,
        str_idx: None,
        str_min: None,
        str_max: None,
    }
}

#[derive(Clone, Copy, Debug, PartialEq, Eq, Structural)]
pub enum ReportItem {
    Main(MainItem),
    Global(GlobalItem),
    Local(LocalItem),
}

impl ReportItem {
    pub fn as_main_item(&self) -> (r: Option<&MainItem>)
        ensures
            r == (match *self {
                ReportItem::Main(m) => Some(&m),
                _ => None,
            }),
    {
        match self {
            ReportItem::Main(m) => Some(m),
            _ => None,
        }
    }

    /// Number of data bytes that the 2-bit size field of a short item announces.
    pub fn size(size: u8) -> (r: u8)
        requires
            size < 4,
        ensures
            r == spec_item_size(size),
    {
        if size == 0 {
            0
        } else if size == 1 {
            1
        } else if size == 2 {
            2
        } else {
            4
        }
    }

    /// Parses a short item whose prefix byte had the given size, type and tag
    /// fields; `bytes` are the bytes after the prefix. Returns the item and the
    /// number of descriptor bytes it occupies, prefix included, or `None` for an
    /// unknown tag.
    pub fn parse_short(size: u8, ty: u8, tag: u8, bytes: &[u8]) -> (r: Option<(ReportItem, usize)>)
        requires
            short_item_safe(size, ty, tag, bytes@),
        ensures
            r == spec_parse_short(size, ty, tag, bytes@),
    {
        let real_size = Self::size(size);
        let value = item_value(bytes, real_size);
        let len: usize = 1 + real_size as usize;
        if ty == 0 {
            if tag == 8 {
                Some((ReportItem::Main(MainItem::Input(value)), len))
            } else if tag == 9 {
                Some((ReportItem::Main(MainItem::Output(value)), len))
            } else if tag == 11 {
                Some((ReportItem::Main(MainItem::Feature(value)), len))
            } else if tag == 10 {
                Some((ReportItem::Main(MainItem::Collection(bytes[0])), 2))
            } else if tag == 12 {
                Some((ReportItem::Main(MainItem::EndOfCollection), len))
            } else {
                None
            }
        } else if ty == 1 {
            if tag == 0 {
                Some((ReportItem::Global(GlobalItem::UsagePage(value)), len))
            } else if tag == 1 {
                Some((ReportItem::Global(GlobalItem::LogicalMinimum(value)), len))
            } else if tag == 2 {
                Some((ReportItem::Global(GlobalItem::LogicalMaximum(value)), len))
            } else if tag == 3 {
                Some((ReportItem::Global(GlobalItem::PhysicalMinimum(value)), len))
            } else if tag == 4 {
                Some((ReportItem::Global(GlobalItem::PhysicalMaximum(value)), len))
            } else if tag == 5 {
                Some((ReportItem::Global(GlobalItem::UnitExponent(value)), len))
            } else if tag == 6 {
                Some((ReportItem::Global(GlobalItem::Unit(value)), len))
            } else if tag == 7 {
                Some((ReportItem::Global(GlobalItem::ReportSize(value)), len))
            } else if tag == 8 {
                Some((ReportItem::Global(GlobalItem::ReportId(value)), len))
            } else if tag == 9 {
                Some((ReportItem::Global(GlobalItem::ReportCount(value)), len))
            } else if tag == 10 {
                Some((ReportItem::Global(GlobalItem::Push), 1))
            } else if tag == 11 {
                Some((ReportItem::Global(GlobalItem::Pop), 1))
            } else {
                None
            }
        } else {
            if tag == 0 {
                Some((ReportItem::Local(LocalItem::Usage(value)), len))
            } else if tag == 1 {
                Some((ReportItem::Local(LocalItem::UsageMinimum(value)), len))
            } else if tag == 2 {
                Some((ReportItem::Local(LocalItem::UsageMaximum(value)), len))
            } else if tag == 3 {
                Some((ReportItem::Local(LocalItem::DesignatorIndex(value)), len))
            } else if tag == 4 {
                Some((ReportItem::Local(LocalItem::DesignatorMinimum(value)), len))
            } else if tag == 5 {
                Some((ReportItem::Local(LocalItem::DesignatorMaximum(value)), len))
            } else if tag == 7 {
                Some((ReportItem::Local(LocalItem::StringIndex(value)), len))
            } else if tag == 8 {
                Some((ReportItem::Local(LocalItem::StringMinimum(value)), len))
            } else if tag == 9 {
                Some((ReportItem::Local(LocalItem::StringMaximum(value)), len))
            } else if tag == 10 {
                Some((ReportItem::Local(LocalItem::Delimeter(value)), len))
            } else {
                None
            }
        }
    }
}

/// Data byte count announced by the 2-bit size field.
pub open spec fn spec_item_size(size: u8) -> nat {
    if size == 0 {
        0
    } else if size == 1 {
        1
    } else if size == 2 {
        2
    } else {
        4
    }
}

/// The little-endian value of the first `n` data bytes, zero-extended.
pub open spec fn spec_item_value(bytes: Seq<u8>, n: nat) -> u32 {
    if n == 0 {
        0
    } else if n == 1 {
        bytes[0] as u32
    } else if n == 2 {
        le16(bytes, 0) as u32
    } else {
        le32(bytes, 0) as u32
    }
}

fn item_value(bytes: &[u8], n: u8) -> (r: u32)
    requires
        n == 0 || n == 1 || n == 2 || n == 4,
        n <= bytes@.len(),
    ensures
        r == spec_item_value(bytes@, n as nat),
{
    if n == 0 {
        0
    } else if n == 1 {
        bytes[0] as u32
    } else if n == 2 {
        read_le16(bytes, 0) as u32
    } else {
        read_le32(bytes, 0)
    }
}

/// The value of an item's data is the little-endian number its data bytes
/// make: one byte is itself, two bytes `b0 + 256 * b1`, four bytes
/// `b0 + 256 * b1 + 65536 * b2 + 16777216 * b3`; no data is zero.
pub proof fn lemma_item_value_bytes(bytes: Seq<u8>)
    ensures
        spec_item_value(bytes, 0) == 0,
        bytes.len() >= 1 ==> spec_item_value(bytes, 1) == bytes[0],
        bytes.len() >= 2 ==> spec_item_value(bytes, 2) == bytes[0] + 256 * bytes[1],
        bytes.len() >= 4 ==> spec_item_value(bytes, 4) == bytes[0] + 256 * bytes[1] + 65536 * bytes[2]
            + 16777216 * bytes[3],
{
}

/// The `n` data bytes that carry `v`, least significant first.
pub open spec fn data_bytes(v: u32, n: nat) -> Seq<u8> {
    if n == 0 {
        Seq::empty()
    } else if n == 1 {
        seq![v as u8]
    } else if n == 2 {
        le_bytes16(v as u16)
    } else {
        le_bytes32(v)
    }
}

/// `v` can be carried in `n` data bytes.
pub open spec fn fits_data(v: u32, n: nat) -> bool {
    &&& n == 0 ==> v == 0
    &&& n == 1 ==> v < 256
    &&& n == 2 ==> v < 65536
}

/// The number that an item carries: its data value, for the main items that
/// carry flags, the global items but Push and Pop, and all local items.
pub open spec fn item_number(item: ReportItem) -> Option<u32> {
    match item {
        ReportItem::Main(MainItem::Input(x)) => Some(x),
        ReportItem::Main(MainItem::Output(x)) => Some(x),
        ReportItem::Main(MainItem::Feature(x)) => Some(x),
        ReportItem::Main(_) => None,
        ReportItem::Global(GlobalItem::UsagePage(x)) => Some(x),
        ReportItem::Global(GlobalItem::LogicalMinimum(x)) => Some(x),
        ReportItem::Global(GlobalItem::LogicalMaximum(x)) => Some(x),
        ReportItem::Global(GlobalItem::PhysicalMinimum(x)) => Some(x),
        ReportItem::Global(GlobalItem::PhysicalMaximum(x)) => Some(x),
        ReportItem::Global(GlobalItem::UnitExponent(x)) => Some(x),
        ReportItem::Global(GlobalItem::Unit(x)) => Some(x),
        ReportItem::Global(GlobalItem::ReportSize(x)) => Some(x),
        ReportItem::Global(GlobalItem::ReportId(x)) => Some(x),
        ReportItem::Global(GlobalItem::ReportCount(x)) => Some(x),
        ReportItem::Global(_) => None,
        ReportItem::Local(LocalItem::Usage(x)) => Some(x),
        ReportItem::Local(LocalItem::UsageMinimum(x)) => Some(x),
        ReportItem::Local(LocalItem::UsageMaximum(x)) => Some(x),
        ReportItem::Local(LocalItem::DesignatorIndex(x)) => Some(x),
        ReportItem::Local(LocalItem::DesignatorMinimum(x)) => Some(x),
        ReportItem::Local(LocalItem::DesignatorMaximum(x)) => Some(x),
        ReportItem::Local(LocalItem::StringIndex(x)) => Some(x),
        ReportItem::Local(LocalItem::StringMinimum(x)) => Some(x),
        ReportItem::Local(LocalItem::StringMaximum(x)) => Some(x),
        ReportItem::Local(LocalItem::Delimeter(x)) => Some(x),
    }
}

/// An item whose data bytes carry `v` carries `v`, whatever its kind and
/// however many data bytes its prefix announces, and the next item starts
/// after those bytes.
pub proof fn lemma_item_carries_its_data(desc: Seq<u8>, offset: int, v: u32)
    requires
        0 <= offset < desc.len(),
        offset + 1 + spec_item_size(prefix_size(desc[offset])) <= desc.len(),
        fits_data(v, spec_item_size(prefix_size(desc[offset]))),
        desc.subrange(offset + 1, offset + 1 + spec_item_size(prefix_size(desc[offset])) as int) == data_bytes(
            v,
            spec_item_size(prefix_size(desc[offset])),
        ),
    ensures
        match spec_flat_next(desc, offset) {
            Some((item, next)) => item_number(item) is Some ==> item_number(item) == Some(v) && next == offset + 1
                + spec_item_size(prefix_size(desc[offset])),
            None => true,
        },
{
    let n = spec_item_size(prefix_size(desc[offset]));
    let bytes = desc.subrange(offset + 1, desc.len() as int);
    let d = data_bytes(v, n);
    assert(bytes.subrange(0, n as int) =~= d);
    if n == 1 {
        assert(bytes[0] == d[0]);
    } else if n == 2 {
        lemma_le16_of_bytes(bytes, 0, v as u16);
    } else if n == 4 {
        lemma_le32_of_bytes(bytes, 0, v);
    }
    assert(spec_item_value(bytes, n) == v);
}

/// Inputs on which parsing a short item completes: the parser copies the announced data bytes whatever the tag, reads the byte after the
/// prefix of a Collection item, and rejects the long-item type.
pub open spec fn short_item_safe(size: u8, ty: u8, tag: u8, bytes: Seq<u8>) -> bool {
    &&& size < 4
    &&& ty < 3
    &&& tag < 16
    &&& spec_item_size(size) <= bytes.len()
    &&& (ty == 0 && tag == 10 ==> bytes.len() >= 1)
}

pub open spec fn spec_parse_short(size: u8, ty: u8, tag: u8, bytes: Seq<u8>) -> Option<(ReportItem, usize)> {
    let n = spec_item_size(size);
    let value = spec_item_value(bytes, n);
    let len = (1 + n) as usize;
    if ty == 0 {
        if tag == 8 {
            Some((ReportItem::Main(MainItem::Input(value)), len))
        } else if tag == 9 {
            Some((ReportItem::Main(MainItem::Output(value)), len))
        } else if tag == 11 {
            Some((ReportItem::Main(MainItem::Feature(value)), len))
        } else if tag == 10 {
            Some((ReportItem::Main(MainItem::Collection(bytes[0])), 2usize))
        } else if tag == 12 {
            Some((ReportItem::Main(MainItem::EndOfCollection), len))
        } else {
            None
        }
    } else if ty == 1 {
        if tag == 0 {
            Some((ReportItem::Global(GlobalItem::UsagePage(value)), len))
        } else if tag == 1 {
            Some((ReportItem::Global(GlobalItem::LogicalMinimum(value)), len))
        } else if tag == 2 {
            Some((ReportItem::Global(GlobalItem::LogicalMaximum(value)), len))
        } else if tag == 3 {
            Some((ReportItem::Global(GlobalItem::PhysicalMinimum(value)), len))
        } else if tag == 4 {
            Some((ReportItem::Global(GlobalItem::PhysicalMaximum(value)), len))
        } else if tag == 5 {
            Some((ReportItem::Global(GlobalItem::UnitExponent(value)), len))
        } else if tag == 6 {
            Some((ReportItem::Global(GlobalItem::Unit(value)), len))
        } else if tag == 7 {
            Some((ReportItem::Global(GlobalItem::ReportSize(value)), len))
        } else if tag == 8 {
            Some((ReportItem::Global(GlobalItem::ReportId(value)), len))
        } else if tag == 9 {
            Some((ReportItem::Global(GlobalItem::ReportCount(value)), len))
        } else if tag == 10 {
            Some((ReportItem::Global(GlobalItem::Push), 1usize))
        } else if tag == 11 {
            Some((ReportItem::Global(GlobalItem::Pop), 1usize))
        } else {
            None
        }
    } else {
        if tag == 0 {
            Some((ReportItem::Local(LocalItem::Usage(value)), len))
        } else if tag == 1 {
            Some((ReportItem::Local(LocalItem::UsageMinimum(value)), len))
        } else if tag == 2 {
            Some((ReportItem::Local(LocalItem::UsageMaximum(value)), len))
        } else if tag == 3 {
            Some((ReportItem::Local(LocalItem::DesignatorIndex(value)), len))
        } else if tag == 4 {
            Some((ReportItem::Local(LocalItem::DesignatorMinimum(value)), len))
        } else if tag == 5 {
            Some((ReportItem::Local(LocalItem::DesignatorMaximum(value)), len))
        } else if tag == 7 {
            Some((ReportItem::Local(LocalItem::StringIndex(value)), len))
        } else if tag == 8 {
            Some((ReportItem::Local(LocalItem::StringMinimum(value)), len))
        } else if tag == 9 {
            Some((ReportItem::Local(LocalItem::StringMaximum(value)), len))
        } else if tag == 10 {
            Some((ReportItem::Local(LocalItem::Delimeter(value)), len))
        } else {
            None
        }
    }
}

/// What a global item does to the global state and the push stack; `None`
/// when a Pop finds the stack empty.
pub open spec fn spec_global_step(
    state: GlobalItemsState,
    stack: Seq<GlobalItemsState>,
    item: ReportItem,
) -> Option<(GlobalItemsState, Seq<GlobalItemsState>)> {
    match item {
        ReportItem::Global(g) => match g {
            GlobalItem::UsagePage(u) => Some((GlobalItemsState { usage_page: Some(u), ..state }, stack)),
            GlobalItem::LogicalMinimum(m) => Some((GlobalItemsState { logical_min: Some(m), ..state }, stack)),
            GlobalItem::LogicalMaximum(m) => Some((GlobalItemsState { logical_max: Some(m), ..state }, stack)),
            GlobalItem::PhysicalMinimum(m) => Some((GlobalItemsState { physical_min: Some(m), ..state }, stack)),
            GlobalItem::PhysicalMaximum(m) => Some((GlobalItemsState { physical_max: Some(m), ..state }, stack)),
            GlobalItem::UnitExponent(e) => Some((GlobalItemsState { unit_exponent: Some(e), ..state }, stack)),
            GlobalItem::Unit(u) => Some((GlobalItemsState { unit: Some(u), ..state }, stack)),
            GlobalItem::ReportSize(s) => Some((GlobalItemsState { report_size: Some(s), ..state }, stack)),
            GlobalItem::ReportId(i) => Some((GlobalItemsState { report_id: Some(i), ..state }, stack)),
            GlobalItem::ReportCount(c) => Some((GlobalItemsState { report_count: Some(c), ..state }, stack)),
            GlobalItem::Push => Some((state, stack.push(state))),
            GlobalItem::Pop => if stack.len() == 0 {
                None
            } else {
                Some((stack.last(), stack.drop_last()))
            },
        },
        _ => Some((state, stack)),
    }
}

/// Applies a global item to the state; local and main items leave it as it is.
pub fn update_global_state(
    current_state: &mut GlobalItemsState,
    stack: &mut Vec<GlobalItemsState>,
    report_item: &ReportItem,
) -> (r: Result<(), Invalid>)
    ensures
        match spec_global_step(*old(current_state), old(stack)@, *report_item) {
            Some((s, st)) => r is Ok && *final(current_state) == s && final(stack)@ == st,
            None => r is Err && *final(current_state) == *old(current_state) && final(stack)@
                == old(stack)@,
        },
{
    match report_item {
        ReportItem::Global(global) => match global {
            GlobalItem::UsagePage(u) => current_state.usage_page = Some(*u),
            GlobalItem::LogicalMinimum(m) => current_state.logical_min = Some(*m),
            GlobalItem::LogicalMaximum(m) => current_state.logical_max = Some(*m),
            GlobalItem::PhysicalMinimum(m) => current_state.physical_min = Some(*m),
            GlobalItem::PhysicalMaximum(m) => current_state.physical_max = Some(*m),
            GlobalItem::UnitExponent(e) => current_state.unit_exponent = Some(*e),
            GlobalItem::Unit(u) => current_state.unit = Some(*u),
            GlobalItem::ReportSize(s) => current_state.report_size = Some(*s),
            GlobalItem::ReportId(i) => current_state.report_id = Some(*i),
            GlobalItem::ReportCount(c) => current_state.report_count = Some(*c),
            GlobalItem::Push => stack.push(*current_state),
            GlobalItem::Pop => match stack.pop() {
                Some(s) => *current_state = s,
                None => return Err(Invalid),
            },
        },
        ReportItem::Local(_) => {},
        ReportItem::Main(_) => {},
    }
    Ok(())
}

/// A Push followed by a Pop gives back the global state and the stack that
/// were there before the Push, whatever the state and the stack.
pub proof fn lemma_push_pop_restores(state: GlobalItemsState, stack: Seq<GlobalItemsState>)
    ensures
        ({
            let (s1, st1) = spec_global_step(state, stack, ReportItem::Global(GlobalItem::Push)).unwrap();
            spec_global_step(s1, st1, ReportItem::Global(GlobalItem::Pop)) == Some((state, stack))
        }),
{
    assert(stack.push(state).drop_last() =~= stack);
}

/// Whether an item pushes or pops the global state.
pub open spec fn is_push_or_pop(item: ReportItem) -> bool {
    item == ReportItem::Global(GlobalItem::Push) || item == ReportItem::Global(GlobalItem::Pop)
}

/// The global state and stack after `items`, one after the other; `None`
/// where one of them is refused.
pub open spec fn global_steps(
    state: GlobalItemsState,
    stack: Seq<GlobalItemsState>,
    items: Seq<ReportItem>,
) -> Option<(GlobalItemsState, Seq<GlobalItemsState>)>
    decreases items.len(),
{
    if items.len() == 0 {
        Some((state, stack))
    } else {
        match spec_global_step(state, stack, items[0]) {
            Some((s, st)) => global_steps(s, st, items.skip(1)),
            None => None,
        }
    }
}

proof fn lemma_global_steps_keep_stack(
    state: GlobalItemsState,
    stack: Seq<GlobalItemsState>,
    items: Seq<ReportItem>,
)
    requires
        forall|k: int| 0 <= k < items.len() ==> !is_push_or_pop(#[trigger] items[k]),
    ensures
        global_steps(state, stack, items) is Some,
        global_steps(state, stack, items).unwrap().1 == stack,
    decreases items.len(),
{
    if items.len() > 0 {
        assert(!is_push_or_pop(items[0]));
        let (s, st) = spec_global_step(state, stack, items[0]).unwrap();
        assert forall|k: int| 0 <= k < items.skip(1).len() implies !is_push_or_pop(#[trigger] items.skip(1)[k]) by {
            assert(items.skip(1)[k] == items[k + 1]);
        }
        lemma_global_steps_keep_stack(s, st, items.skip(1));
    }
}

proof fn lemma_global_steps_concat(
    state: GlobalItemsState,
    stack: Seq<GlobalItemsState>,
    a: Seq<ReportItem>,
    b: Seq<ReportItem>,
)
    ensures
        global_steps(state, stack, a + b) == match global_steps(state, stack, a) {
            Some((s, st)) => global_steps(s, st, b),
            None => None,
        },
    decreases a.len(),
{
    if a.len() == 0 {
        assert(a + b =~= b);
    } else {
        assert((a + b)[0] == a[0]);
        assert((a + b).skip(1) =~= a.skip(1) + b);
        match spec_global_step(state, stack, a[0]) {
            Some((s, st)) => lemma_global_steps_concat(s, st, a.skip(1), b),
            None => {},
        }
    }
}

/// A Push, then any items that neither push nor pop, then a Pop give back
/// the global state and the stack that were there before the Push, whatever
/// they were.
pub proof fn lemma_push_items_pop_restores(
    state: GlobalItemsState,
    stack: Seq<GlobalItemsState>,
    items: Seq<ReportItem>,
)
    requires
        forall|k: int| 0 <= k < items.len() ==> !is_push_or_pop(#[trigger] items[k]),
    ensures
        global_steps(
            state,
            stack,
            seq![ReportItem::Global(GlobalItem::Push)] + items + seq![ReportItem::Global(GlobalItem::Pop)],
        ) == Some((state, stack)),
{
    let push = seq![ReportItem::Global(GlobalItem::Push)];
    let pop = seq![ReportItem::Global(GlobalItem::Pop)];
    lemma_global_steps_concat(state, stack, push + items, pop);
    lemma_global_steps_concat(state, stack, push, items);
    assert(global_steps(state, stack, push) == global_steps(state, stack.push(state), push.skip(1)));
    assert(push.skip(1) =~= Seq::<ReportItem>::empty());
    lemma_global_steps_keep_stack(state, stack.push(state), items);
    let (s1, st1) = global_steps(state, stack.push(state), items).unwrap();
    assert(st1 == stack.push(state));
    assert(pop.skip(1) =~= Seq::<ReportItem>::empty());
    assert(stack.push(state).drop_last() =~= stack);
    assert(global_steps(s1, st1, pop) == global_steps(state, stack, pop.skip(1)));
}

/// What a local item does to the local state.
pub open spec fn spec_local_step(state: LocalItemsState, item: ReportItem) -> LocalItemsState {
    match item {
        ReportItem::Local(l) => match l {
            LocalItem::Usage(u) => LocalItemsState { usage: Some(u), ..state },
            LocalItem::UsageMinimum(m) => LocalItemsState { usage_min: Some(m), ..state },
            LocalItem::UsageMaximum(m) => LocalItemsState { usage_max: Some(m), ..state },
            LocalItem::DesignatorIndex(i) => LocalItemsState { desig_idx: Some(i), ..state },
            LocalItem::DesignatorMinimum(m) => LocalItemsState { desig_min: Some(m), ..state },
            LocalItem::DesignatorMaximum(m) => LocalItemsState { desig_max: Some(m), ..state },
            LocalItem::StringIndex(i) => LocalItemsState { str_idx: Some(i), ..state },
            LocalItem::StringMinimum(m) => LocalItemsState { str_min: Some(m), ..state },
            LocalItem::StringMaximum(m) => LocalItemsState { str_max: Some(m), ..state },
            LocalItem::Delimeter(_) => state,
        },
        _ => state,
    }
}

/// Applies a local item to the local state; other items leave it as it is.
/// Delimiter items are not handled: the driver stops on them.
pub fn update_local_state(current_state: &mut LocalItemsState, report_item: &ReportItem)
    requires
        !(*report_item matches ReportItem::Local(LocalItem::Delimeter(_))),
    ensures
        *final(current_state) == spec_local_step(*old(current_state), *report_item),
{
    match report_item {
        ReportItem::Local(local) => match local {
            LocalItem::Usage(u) => current_state.usage = Some(*u),
            LocalItem::UsageMinimum(m) => current_state.usage_min = Some(*m),
            LocalItem::UsageMaximum(m) => current_state.usage_max = Some(*m),
            LocalItem::DesignatorIndex(i) => current_state.desig_idx = Some(*i),
            LocalItem::DesignatorMinimum(m) => current_state.desig_min = Some(*m),
            LocalItem::DesignatorMaximum(m) => current_state.desig_max = Some(*m),
            LocalItem::StringIndex(i) => current_state.str_idx = Some(*i),
            LocalItem::StringMinimum(m) => current_state.str_min = Some(*m),
            LocalItem::StringMaximum(m) => current_state.str_max = Some(*m),
            LocalItem::Delimeter(_) => {},
        },
        _ => {},
    }
}


/// The size, type and tag fields of a short item's prefix byte.
pub open spec fn prefix_size(first: u8) -> u8 {
    first % 4
}

pub open spec fn prefix_ty(first: u8) -> u8 {
    (first / 4) % 4
}

pub open spec fn prefix_tag(first: u8) -> u8 {
    first / 16
}

/// The item that starts at `offset` of the descriptor and the offset after
/// it; `None` at the end of the descriptor or at an unknown tag.
pub open spec fn spec_flat_next(desc: Seq<u8>, offset: int) -> Option<(ReportItem, int)> {
    if offset < 0 || offset >= desc.len() {
        None
    } else {
        let first = desc[offset];
        match spec_parse_short(
            prefix_size(first),
            prefix_ty(first),
            prefix_tag(first),
            desc.subrange(offset + 1, desc.len() as int),
        ) {
            Some((item, len)) => Some((item, offset + len)),
            None => None,
        }
    }
}

/// The item at `offset` can be parsed without the parser stopping: it is a
/// short item whose announced data lie within the descriptor. (Long items
/// are not handled and stop the driver.)
pub open spec fn flat_item_safe(desc: Seq<u8>, offset: int) -> bool {
    offset >= desc.len() || (0 <= offset && {
        let first = desc[offset];
        short_item_safe(
            prefix_size(first),
            prefix_ty(first),
            prefix_tag(first),
            desc.subrange(offset + 1, desc.len() as int),
        )
    })
}

/// Every item reached from `offset` on is safe to parse.
pub open spec fn flat_safe(desc: Seq<u8>, offset: int) -> bool
    decreases desc.len() - offset,
{
    if offset < 0 || offset >= desc.len() {
        true
    } else {
        flat_item_safe(desc, offset) && match spec_flat_next(desc, offset) {
            Some((_, next)) => if offset < next <= desc.len() {
                flat_safe(desc, next)
            } else {
                false
            },
            None => true,
        }
    }
}

/// The items found from `offset` on, up to the end or the first unknown tag.
pub open spec fn flat_items(desc: Seq<u8>, offset: int) -> Seq<ReportItem>
    decreases desc.len() - offset,
{
    if offset < 0 || offset >= desc.len() {
        Seq::empty()
    } else {
        match spec_flat_next(desc, offset) {
            Some((item, next)) => if offset < next <= desc.len() {
                seq![item] + flat_items(desc, next)
            } else {
                Seq::empty()
            },
            None => Seq::empty(),
        }
    }
}

/// Offset reached after `k` items from `offset`.
pub open spec fn offset_after(desc: Seq<u8>, offset: int, k: nat) -> int
    decreases k,
{
    if k == 0 {
        offset
    } else {
        match spec_flat_next(desc, offset) {
            Some((_, next)) => offset_after(desc, next, (k - 1) as nat),
            None => offset,
        }
    }
}

proof fn lemma_parse_len_positive(size: u8, ty: u8, tag: u8, bytes: Seq<u8>)
    requires
        short_item_safe(size, ty, tag, bytes),
    ensures
        spec_parse_short(size, ty, tag, bytes) matches Some((_, len)) ==> 1 <= len <= 1 + bytes.len()
            && len >= 1,
{
}

/// One item is taken from the front of the items when the parser moves on.
proof fn lemma_flat_step(desc: Seq<u8>, offset: int)
    requires
        0 <= offset < desc.len(),
        flat_safe(desc, offset),
    ensures
        spec_flat_next(desc, offset) matches Some((item, next)) ==> {
            &&& offset < next <= desc.len()
            &&& flat_safe(desc, next)
            &&& flat_items(desc, offset) == seq![item] + flat_items(desc, next)
        },
        spec_flat_next(desc, offset) is None ==> flat_items(desc, offset) == Seq::<ReportItem>::empty(),
{
    let first = desc[offset];
    lemma_parse_len_positive(
        prefix_size(first),
        prefix_ty(first),
        prefix_tag(first),
        desc.subrange(offset + 1, desc.len() as int),
    );
}

/// Iterates over the items of a report descriptor, one at a time.
pub struct ReportFlatIter<'a> {
    pub desc: &'a [u8],
    pub offset: usize,
}

impl<'a> ReportFlatIter<'a> {
    pub fn new(desc: &'a [u8]) -> (r: Self)
        ensures
            r.desc@ == desc@,
            r.offset == 0,
    {
        ReportFlatIter { desc, offset: 0 }
    }

    /// The next item, or `None` at the end or at an unknown tag (the offset
    /// then stays where it is).
    pub fn next(&mut self) -> (r: Option<ReportItem>)
        requires
            flat_safe(old(self).desc@, old(self).offset as int),
        ensures
            final(self).desc == old(self).desc,
            flat_safe(final(self).desc@, final(self).offset as int),
            match spec_flat_next(old(self).desc@, old(self).offset as int) {
                Some((item, next)) => r == Some(item) && final(self).offset == next,
                None => r is None && final(self).offset == old(self).offset,
            },
            match r {
                Some(item) => flat_items(old(self).desc@, old(self).offset as int) == seq![item]
                    + flat_items(final(self).desc@, final(self).offset as int),
                None => flat_items(old(self).desc@, old(self).offset as int) == Seq::<
                    ReportItem,
                >::empty(),
            },
    {
        if self.offset >= self.desc.len() {
            return None;
        }
        proof {
            lemma_flat_step(self.desc@, self.offset as int);
        }
        let first = self.desc[self.offset];
        let size = first % 4;
        let ty = (first / 4) % 4;
        let tag = first / 16;
        let data = slice_from(self.desc, self.offset + 1);
        match ReportItem::parse_short(size, ty, tag, data) {
            Some((item, len)) => {
                self.offset = self.offset + len;
                Some(item)
            },
            None => None,
        }
    }
}

/// Whether every item of the descriptor up to its end or its first unknown
/// tag is a short item whose data lie within the descriptor, so that it can
/// be parsed.
pub fn descriptor_parsable(desc: &[u8]) -> (r: bool)
    ensures
        r == flat_safe(desc@, 0),
{
    let mut offset: usize = 0;
    while offset < desc.len()
        invariant
            offset <= desc@.len(),
            flat_safe(desc@, 0) == flat_safe(desc@, offset as int),
        decreases desc@.len() - offset,
    {
        let first = desc[offset];
        let size = first % 4;
        let ty = (first / 4) % 4;
        let tag = first / 16;
        let data = slice_from(desc, offset + 1);
        let n = ReportItem::size(size) as usize;
        if ty >= 3 || n > data.len() || (ty == 0 && tag == 10 && data.len() < 1) {
            return false;
        }
        match ReportItem::parse_short(size, ty, tag, data) {
            Some((_, len)) => {
                if len == 0 || len > desc.len() - offset {
                    return false;
                }
                offset = offset + len;
            },
            None => {
                return true;
            },
        }
    }
    true
}

/// The part of `s` from `start` on.
fn slice_from(s: &[u8], start: usize) -> (r: &[u8])
    requires
        start <= s@.len(),
    ensures
        r@ == s@.subrange(start as int, s@.len() as int),
{
    let (_, tail) = s.split_at(start);
    tail
}


/// An item of a report descriptor with its collections nested: an item that
/// is neither a Collection nor an End Of Collection, or a whole collection.
#[derive(Debug)]
pub enum ReportIterItem {
    Item(ReportItem),
    Collection(u8, Vec<ReportIterItem>),
}

impl ReportIterItem {
    pub fn as_item(&self) -> (r: Option<&ReportItem>)
        ensures
            r == (match *self {
                ReportIterItem::Item(i) => Some(&i),
                _ => None,
            }),
    {
        match self {
            ReportIterItem::Item(i) => Some(i),
            _ => None,
        }
    }

    pub fn as_collection(&self) -> (r: Option<(u8, &[ReportIterItem])>)
        ensures
            match *self {
                ReportIterItem::Collection(n, c) => r matches Some((m, s)) && m == n && s@ == c@,
                _ => r is None,
            },
    {
        match self {
            ReportIterItem::Collection(n, c) => Some((*n, c.as_slice())),
            _ => None,
        }
    }
}

/// Whether an item opens or closes a collection.
pub open spec fn is_collection_marker(item: ReportItem) -> bool {
    item matches ReportItem::Main(MainItem::Collection(_)) || item matches ReportItem::Main(
        MainItem::EndOfCollection,
    )
}

/// The descriptor items that a nested item stands for, in order.
pub open spec fn tokens(item: ReportIterItem) -> Seq<ReportItem>
    decreases item,
{
    match item {
        ReportIterItem::Item(i) => seq![i],
        ReportIterItem::Collection(n, c) => seq![ReportItem::Main(MainItem::Collection(n))]
            + tokens_seq(c@) + seq![ReportItem::Main(MainItem::EndOfCollection)],
    }
}

/// The descriptor items that a sequence of nested items stands for.
pub open spec fn tokens_seq(s: Seq<ReportIterItem>) -> Seq<ReportItem>
    decreases s,
{
    if s.len() == 0 {
        Seq::empty()
    } else {
        tokens_seq(s.drop_last()) + tokens(s.last())
    }
}

/// A nested item is well formed when no plain item is a collection marker.
pub open spec fn wf_tree(item: ReportIterItem) -> bool
    decreases item,
{
    match item {
        ReportIterItem::Item(i) => !is_collection_marker(i),
        ReportIterItem::Collection(_, c) => wf_tree_seq(c@),
    }
}

pub open spec fn wf_tree_seq(s: Seq<ReportIterItem>) -> bool
    decreases s,
{
    if s.len() == 0 {
        true
    } else {
        wf_tree_seq(s.drop_last()) && wf_tree(s.last())
    }
}

/// How a scan for the next complete top-level item ends.
pub enum ScanEnd {
    /// The item ends just before this index.
    Done(int),
    /// An End Of Collection with no collection open, at this index.
    Unbalanced(int),
    /// The items ran out (possibly inside an open collection).
    Exhausted,
}

/// Scans `items` from `i` with `depth` collections open, for the end of the
/// current top-level item.
pub open spec fn scan(items: Seq<ReportItem>, i: int, depth: nat) -> ScanEnd
    decreases items.len() - i,
{
    if i < 0 || i >= items.len() {
        ScanEnd::Exhausted
    } else {
        match items[i] {
            ReportItem::Main(MainItem::Collection(_)) => scan(items, i + 1, depth + 1),
            ReportItem::Main(MainItem::EndOfCollection) => if depth == 0 {
                ScanEnd::Unbalanced(i)
            } else if depth == 1 {
                ScanEnd::Done(i + 1)
            } else {
                scan(items, i + 1, (depth - 1) as nat)
            },
            _ => if depth == 0 {
                ScanEnd::Done(i + 1)
            } else {
                scan(items, i + 1, depth)
            },
        }
    }
}

/// The descriptor items that the open collections of a partial nesting
/// stand for.
pub open spec fn open_tokens(stack: Seq<(u8, Vec<ReportIterItem>)>) -> Seq<ReportItem>
    decreases stack.len(),
{
    if stack.len() == 0 {
        Seq::empty()
    } else {
        open_tokens(stack.drop_last()) + seq![ReportItem::Main(MainItem::Collection(stack.last().0))]
            + tokens_seq(stack.last().1@)
    }
}

pub open spec fn open_wf(stack: Seq<(u8, Vec<ReportIterItem>)>) -> bool {
    forall|k: int| 0 <= k < stack.len() ==> #[trigger] wf_tree_seq(stack[k].1@)
}

proof fn lemma_tokens_seq_push(s: Seq<ReportIterItem>, x: ReportIterItem)
    ensures
        tokens_seq(s.push(x)) == tokens_seq(s) + tokens(x),
        wf_tree_seq(s.push(x)) == (wf_tree_seq(s) && wf_tree(x)),
{
    assert(s.push(x).drop_last() =~= s);
}

proof fn lemma_open_tokens_push(stack: Seq<(u8, Vec<ReportIterItem>)>, top: (u8, Vec<ReportIterItem>))
    ensures
        open_tokens(stack.push(top)) == open_tokens(stack) + seq![
            ReportItem::Main(MainItem::Collection(top.0)),
        ] + tokens_seq(top.1@),
{
    assert(stack.push(top).drop_last() =~= stack);
}

/// Groups the items of a report descriptor into top-level items and whole
/// collections.
pub struct ReportIter<'a> {
    pub flat: ReportFlatIter<'a>,
    pub error: bool,
    pub open_collections: Vec<(u8, Vec<ReportIterItem>)>,
}

impl<'a> ReportIter<'a> {
    pub fn new(flat: ReportFlatIter<'a>) -> (r: Self)
        ensures
            r.flat == flat,
            !r.error,
            r.open_collections@.len() == 0,
    {
        ReportIter { flat, error: false, open_collections: Vec::new() }
    }

    /// The next top-level item, or `None` when the items run out (a
    /// collection left open is dropped) or an End Of Collection closes no
    /// collection (after which every call gives `None`).
    #[verifier::rlimit(40)]
    pub fn next(&mut self) -> (r: Option<ReportIterItem>)
        requires
            flat_safe(old(self).flat.desc@, old(self).flat.offset as int),
        ensures
            final(self).flat.desc@ == old(self).flat.desc@,
            flat_safe(final(self).flat.desc@, final(self).flat.offset as int),
            ({
                let desc = old(self).flat.desc@;
                let off = old(self).flat.offset as int;
                let items = flat_items(desc, off);
                if old(self).error {
                    r is None && final(self).error && final(self).flat.offset == off
                } else {
                    match scan(items, 0, 0) {
                        ScanEnd::Done(e) => r matches Some(it) && wf_tree(it) && tokens(it)
                            == items.take(e) && !final(self).error && final(self).flat.offset
                            == offset_after(desc, off, e as nat) && flat_items(desc, final(self).flat.offset as int)
                            == items.skip(e),
                        ScanEnd::Unbalanced(k) => r is None && final(self).error,
                        ScanEnd::Exhausted => r is None && !final(self).error && flat_items(
                            desc,
                            final(self).flat.offset as int,
                        ).len() == 0,
                    }
                }
            }),
    {
        let ghost d0 = self.flat.desc;
        if self.error {
            return None;
        }
        self.open_collections.clear();
        assert(self.flat.desc == d0);
        let ghost desc = self.flat.desc@;
        let ghost off0 = self.flat.offset as int;
        let ghost items = flat_items(desc, off0);
        let ghost mut j: nat = 0;
        assert(items.take(0) =~= Seq::<ReportItem>::empty());
        assert(items.skip(0) =~= items);
        loop
            invariant
                self.flat.desc == d0,
                d0@ == desc,
                old(self).flat.desc@ == desc,
                old(self).flat.offset == off0,
                !old(self).error,
                !self.error,
                items == flat_items(desc, off0),
                j <= items.len(),
                flat_safe(desc, self.flat.offset as int),
                flat_items(desc, self.flat.offset as int) == items.skip(j as int),
                self.flat.offset == offset_after(desc, off0, j),
                scan(items, 0, 0) == scan(items, j as int, self.open_collections@.len()),
                open_tokens(self.open_collections@) == items.take(j as int),
                open_wf(self.open_collections@),
            decreases desc.len() - self.flat.offset,
        {
            let ghost old_off = self.flat.offset as int;
            let ghost old_stack = self.open_collections@;
            let item = match self.flat.next() {
                Some(it) => it,
                None => {
                    assert(items.skip(j as int).len() == 0);
                    assert(j == items.len());
                    return None;
                },
            };
            proof {
                assert(items.skip(j as int).len() > 0);
                assert(j < items.len());
                assert(items.skip(j as int)[0] == item);
                assert(items.skip(j as int)[0] == items[j as int]);
                assert(items.skip(j as int).drop_first() =~= items.skip(j + 1 as int));
                assert(flat_items(desc, self.flat.offset as int) =~= items.skip(j as int).drop_first());
                assert(items.take(j + 1 as int) =~= items.take(j as int) + seq![item]);
                lemma_offset_after_step(desc, off0, j);
                j = j + 1;
            }
            proof {
                lemma_scan_unfold(items, j - 1, self.open_collections@.len(), item);
            }
            match nest_step(&mut self.open_collections, item) {
                NestStep::Open => {
                    assert(open_tokens(self.open_collections@) =~= items.take(j as int));
                },
                NestStep::Finished(it) => {
                    assert(items.take(j as int) =~= tokens(it));
                    return Some(it);
                },
                NestStep::Unbalanced => {
                    self.error = true;
                    return None;
                },
            }
        }
    }
}

/// What one more item does to a partial nesting.
pub enum NestStep {
    /// The item went into an open collection, or opened one.
    Open,
    /// The item completed a top-level item.
    Finished(ReportIterItem),
    /// The item closes a collection that was never opened.
    Unbalanced,
}

/// Depth after one item in a scan, or where the scan stops there.
pub open spec fn scan_step(item: ReportItem, depth: nat) -> (bool, bool, nat) {
    match item {
        ReportItem::Main(MainItem::Collection(_)) => (false, false, depth + 1),
        ReportItem::Main(MainItem::EndOfCollection) => if depth == 0 {
            (false, true, 0)
        } else if depth == 1 {
            (true, false, 0)
        } else {
            (false, false, (depth - 1) as nat)
        },
        _ => if depth == 0 {
            (true, false, 0)
        } else {
            (false, false, depth)
        },
    }
}

proof fn lemma_scan_unfold(items: Seq<ReportItem>, i: int, depth: nat, item: ReportItem)
    requires
        0 <= i < items.len(),
        items[i] == item,
    ensures
        scan(items, i, depth) == (if scan_step(item, depth).0 {
            ScanEnd::Done(i + 1)
        } else if scan_step(item, depth).1 {
            ScanEnd::Unbalanced(i)
        } else {
            scan(items, i + 1, scan_step(item, depth).2)
        }),
{
}

/// Puts one more item into a partial nesting.
fn nest_step(stack: &mut Vec<(u8, Vec<ReportIterItem>)>, item: ReportItem) -> (r: NestStep)
    requires
        open_wf(old(stack)@),
    ensures
        open_wf(final(stack)@),
        match r {
            NestStep::Open => !scan_step(item, old(stack)@.len()).0 && !scan_step(
                item,
                old(stack)@.len(),
            ).1 && final(stack)@.len() == scan_step(item, old(stack)@.len()).2 && open_tokens(
                final(stack)@,
            ) == open_tokens(old(stack)@) + seq![item],
            NestStep::Finished(it) => scan_step(item, old(stack)@.len()).0 && final(stack)@.len()
                == 0 && wf_tree(it) && tokens(it) == open_tokens(old(stack)@) + seq![item],
            NestStep::Unbalanced => scan_step(item, old(stack)@.len()).1,
        },
{
    let ghost old_stack = stack@;
    match item {
        ReportItem::Main(MainItem::Collection(m)) => {
            stack.push((m, Vec::new()));
            proof {
                let top = stack@.last();
                assert(stack@ == old_stack.push(top));
                lemma_open_tokens_push(old_stack, top);
                assert(top.1@ =~= Seq::<ReportIterItem>::empty());
                assert(tokens_seq(Seq::<ReportIterItem>::empty()) == Seq::<ReportItem>::empty());
                assert(open_tokens(stack@) =~= open_tokens(old_stack) + seq![item]);
                assert forall|k: int| 0 <= k < stack@.len() implies #[trigger] wf_tree_seq(stack@[k].1@) by {
                    if k < old_stack.len() {
                        assert(stack@[k] == old_stack[k]);
                    }
                }
            }
            NestStep::Open
        },
        ReportItem::Main(MainItem::EndOfCollection) => {
            let (value, finished_collection) = match stack.pop() {
                Some(finished) => finished,
                None => {
                    return NestStep::Unbalanced;
                },
            };
            let finished = ReportIterItem::Collection(value, finished_collection);
            proof {
                assert(old_stack == stack@.push((value, finished_collection)));
                lemma_open_tokens_push(stack@, (value, finished_collection));
                assert(wf_tree_seq(old_stack[old_stack.len() - 1].1@));
                assert forall|k: int| 0 <= k < stack@.len() implies #[trigger] wf_tree_seq(stack@[k].1@) by {
                    assert(stack@[k] == old_stack[k]);
                }
                assert(tokens(finished) =~= seq![ReportItem::Main(MainItem::Collection(value))]
                    + tokens_seq(finished_collection@) + seq![item]);
            }
            if stack.len() == 0 {
                proof {
                    assert(open_tokens(stack@) == Seq::<ReportItem>::empty());
                    assert(tokens(finished) =~= open_tokens(old_stack) + seq![item]);
                }
                return NestStep::Finished(finished);
            }
            push_child(stack, finished);
            assert(open_tokens(stack@) =~= open_tokens(old_stack) + seq![item]);
            NestStep::Open
        },
        other => {
            if stack.len() == 0 {
                proof {
                    assert(open_tokens(stack@) == Seq::<ReportItem>::empty());
                    assert(tokens(ReportIterItem::Item(other)) =~= open_tokens(old_stack) + seq![item]);
                }
                return NestStep::Finished(ReportIterItem::Item(other));
            }
            push_child(stack, ReportIterItem::Item(other));
            NestStep::Open
        },
    }
}

/// Adds a finished item to the innermost open collection.
fn push_child(stack: &mut Vec<(u8, Vec<ReportIterItem>)>, child: ReportIterItem)
    requires
        old(stack)@.len() > 0,
        open_wf(old(stack)@),
        wf_tree(child),
    ensures
        final(stack)@.len() == old(stack)@.len(),
        open_tokens(final(stack)@) == open_tokens(old(stack)@) + tokens(child),
        open_wf(final(stack)@),
{
    let ghost old_stack = stack@;
    let (pv, mut pc) = stack.pop().unwrap();
    let ghost pc_old = pc;
    pc.push(child);
    stack.push((pv, pc));
    proof {
        let s2 = stack@.drop_last();
        assert(s2 =~= old_stack.drop_last());
        assert(old_stack =~= s2.push((pv, pc_old)));
        assert(stack@ =~= s2.push((pv, pc)));
        lemma_open_tokens_push(s2, (pv, pc));
        lemma_open_tokens_push(s2, (pv, pc_old));
        lemma_tokens_seq_push(pc_old@, child);
        assert(wf_tree_seq(old_stack[old_stack.len() - 1].1@));
        assert forall|k: int| 0 <= k < stack@.len() implies #[trigger] wf_tree_seq(stack@[k].1@) by {
            if k < stack@.len() - 1 {
                assert(stack@[k] == old_stack[k]);
            }
        }
    }
}

proof fn lemma_offset_after_step(desc: Seq<u8>, off0: int, j: nat)
    requires
        spec_flat_next(desc, offset_after(desc, off0, j)) is Some,
    ensures
        offset_after(desc, off0, j + 1) == spec_flat_next(desc, offset_after(desc, off0, j)).unwrap().1,
    decreases j,
{
    reveal_with_fuel(offset_after, 2);
    if j > 0 {
        let n = spec_flat_next(desc, off0);
        if n is Some {
            lemma_offset_after_step(desc, n.unwrap().1, (j - 1) as nat);
        }
    }
}


proof fn lemma_scan_done_range(items: Seq<ReportItem>, i: int, depth: nat)
    ensures
        scan(items, i, depth) matches ScanEnd::Done(e) ==> 0 <= i < e <= items.len(),
    decreases items.len() - i,
{
    if 0 <= i < items.len() {
        lemma_scan_done_range(items, i + 1, depth + 1);
        lemma_scan_done_range(items, i + 1, depth);
        if depth > 0 {
            lemma_scan_done_range(items, i + 1, (depth - 1) as nat);
        }
    }
}

/// Number of items that make up the complete top-level items at the front
/// of `items` (the nesting stops at an unbalanced End Of Collection or at a
/// collection left open).
pub open spec fn nested_len(items: Seq<ReportItem>) -> nat
    decreases items.len(),
{
    match scan(items, 0, 0) {
        ScanEnd::Done(e) => if 0 < e <= items.len() {
            e as nat + nested_len(items.skip(e))
        } else {
            0
        },
        _ => 0,
    }
}

/// All top-level items of a report descriptor, with their collections nested,
/// in order.
pub fn report_items(desc: &[u8]) -> (r: Vec<ReportIterItem>)
    requires
        flat_safe(desc@, 0),
    ensures
        wf_tree_seq(r@),
        tokens_seq(r@) == flat_items(desc@, 0).take(nested_len(flat_items(desc@, 0)) as int),
{
    let mut iter = ReportIter::new(ReportFlatIter::new(desc));
    let mut out: Vec<ReportIterItem> = Vec::new();
    let ghost items = flat_items(desc@, 0);
    let ghost mut c: nat = 0;
    assert(items.take(0) =~= Seq::<ReportItem>::empty());
    assert(items.skip(0) =~= items);
    loop
        invariant
            iter.flat.desc@ == desc@,
            !iter.error,
            flat_safe(desc@, iter.flat.offset as int),
            items == flat_items(desc@, 0),
            c <= items.len(),
            flat_items(desc@, iter.flat.offset as int) == items.skip(c as int),
            nested_len(items) == c + nested_len(items.skip(c as int)),
            wf_tree_seq(out@),
            tokens_seq(out@) == items.take(c as int),
        decreases items.len() - c,
    {
        let ghost rem = items.skip(c as int);
        match iter.next() {
            Some(it) => {
                proof {
                    let e = match scan(rem, 0, 0) {
                        ScanEnd::Done(e) => e,
                        _ => 0,
                    };
                    lemma_scan_done_range(rem, 0, 0);
                    assert(rem.skip(e) =~= items.skip(c + e));
                    assert(items.take(c + e) =~= items.take(c as int) + rem.take(e));
                    lemma_tokens_seq_push(out@, it);
                    c = c + e as nat;
                }
                out.push(it);
            },
            None => {
                assert(nested_len(rem) == 0);
                assert(items.take(c as int) =~= items.take(nested_len(items) as int));
                return out;
            },
        }
    }
}


/// Rounds `num / denom` up.
pub fn div_round_up(num: u32, denom: u32) -> (r: u32)
    requires
        denom != 0,
    ensures
        r == (if num % denom == 0 { (num / denom) as int } else { num / denom + 1 }),
        r * denom >= num,
        r == 0 || (r - 1) * denom < num,
{
    proof {
        lemma_div_round_up(num as int, denom as int);
    }
    if num % denom == 0 {
        num / denom
    } else {
        num / denom + 1
    }
}

proof fn lemma_div_round_up(num: int, denom: int)
    requires
        0 <= num,
        0 < denom,
    ensures
        (num / denom) * denom <= num,
        num % denom == 0 ==> (num / denom) * denom == num,
        num % denom != 0 ==> num < (num / denom + 1) * denom,
        num % denom != 0 ==> denom >= 2 && num / denom < num,
        num % denom == 0 && num > 0 ==> (num / denom - 1) * denom < num,
        num % denom != 0 ==> (num / denom) * denom < num,
{
    let q = num / denom;
    let r = num % denom;
    vstd::arithmetic::div_mod::lemma_fundamental_div_mod(num, denom);
    vstd::arithmetic::div_mod::lemma_mod_bound(num, denom);
    assert(q * denom <= num && (r == 0 ==> q * denom == num) && (r != 0 ==> num < (q + 1) * denom)
        && (r != 0 ==> denom >= 2 && q < num && q * denom < num) && (r == 0 && num > 0 ==> (q - 1) * denom < num))
        by (nonlinear_arith)
        requires
            num == denom * q + r,
            0 <= r < denom,
            0 <= num,
            0 < denom,
    ;
}

/// A window of `len` bits, starting `offset` bits into `data`, bits counted
/// from the least significant bit of each byte.
pub struct BinaryView<'a> {
    pub data: &'a [u8],
    pub offset: usize,
    pub len: usize,
}

/// Bit `k` (0 = least significant) of `byte`.
pub open spec fn byte_bit(byte: u8, k: u8) -> bool {
    byte & (1u8 << k) != 0u8
}

/// The bit at absolute bit position `b` of `data`.
pub open spec fn data_bit(data: Seq<u8>, b: int) -> bool {
    byte_bit(data[b / 8], (b % 8) as u8)
}

/// What `BinaryView::get` reads at absolute bit position `b`.
pub open spec fn spec_view_get(data: Seq<u8>, offset: int, len: int, b: int) -> Option<bool> {
    if b >= offset + len || b / 8 >= data.len() {
        None
    } else {
        Some(data_bit(data, b))
    }
}

/// The byte assembled from the bits of `lo` from bit `k` on, followed by the
/// low `k` bits of `hi`.
pub open spec fn join_bits(lo: u8, hi: u8, k: u8) -> u8 {
    if k == 0 {
        lo
    } else {
        (lo >> k) | ((hi & ((1u8 << k) - 1u8) as u8) << (8u8 - k) as u8)
    }
}

/// What `BinaryView::read_u8` reads from absolute bit position `b`.
pub open spec fn spec_view_read_u8(data: Seq<u8>, offset: int, len: int, b: int) -> Option<u8> {
    let first = b / 8;
    let k = (b % 8) as u8;
    if b >= offset + len || first >= data.len() {
        None
    } else if k == 0 {
        Some(data[first])
    } else if first + 1 >= data.len() {
        None
    } else {
        Some(join_bits(data[first], data[first + 1], k))
    }
}

impl<'a> BinaryView<'a> {
    pub fn new(data: &'a [u8], offset: usize, len: usize) -> (r: Self)
        ensures
            r.data@ == data@,
            r.offset == offset,
            r.len == len,
    {
        BinaryView { data, offset, len }
    }

    /// The bit `bit_index` bits into the window, if it lies in the window
    /// and in the data.
    pub fn get(&self, bit_index: usize) -> (r: Option<bool>)
        requires
            self.offset + bit_index <= usize::MAX,
            self.offset + self.len <= usize::MAX,
        ensures
            r == spec_view_get(self.data@, self.offset as int, self.len as int, self.offset + bit_index),
    {
        let bit_index = self.offset + bit_index;
        if bit_index >= self.offset + self.len {
            return None;
        }
        let byte_index = bit_index / 8;
        let bits_from_first = (bit_index % 8) as u8;
        if byte_index >= self.data.len() {
            return None;
        }
        let byte = self.data[byte_index];
        Some(byte & (1u8 << bits_from_first) != 0)
    }

    /// The eight bits starting `bit_index` bits into the window, as a byte
    /// (the first bit is the least significant). Only the first bit has to lie
    /// in the window; all eight have to lie in the data.
    pub fn read_u8(&self, bit_index: usize) -> (r: Option<u8>)
        requires
            self.offset + bit_index <= usize::MAX,
            self.offset + self.len <= usize::MAX,
        ensures
            r == spec_view_read_u8(self.data@, self.offset as int, self.len as int, self.offset + bit_index),
    {
        let bit_index = self.offset + bit_index;
        if bit_index >= self.offset + self.len {
            return None;
        }
        let first = bit_index / 8;
        let bits_from_first = (bit_index % 8) as u8;
        if first >= self.data.len() {
            return None;
        }
        let first_byte = self.data[first];
        let lo = first_byte >> bits_from_first;
        let hi = if bits_from_first > 0 {
            if first + 1 >= self.data.len() {
                return None;
            }
            assert(0 < bits_from_first < 8 ==> 1u8 << bits_from_first >= 1u8) by (bit_vector);
            let h = self.data[first + 1] & ((1u8 << bits_from_first) - 1);
            let bits_to_next = 8 - bits_from_first;
            h << bits_to_next
        } else {
            0
        };
        proof {
            if bits_from_first == 0 {
                assert(first_byte >> 0u8 == first_byte) by (bit_vector);
                assert(first_byte | 0u8 == first_byte) by (bit_vector);
            }
        }
        Some(lo | hi)
    }
}

/// Bit `j` of the byte that `read_u8` assembles is the data bit `j` places on
/// from where the read starts.
pub proof fn lemma_join_bits(lo: u8, hi: u8, k: u8, j: u8)
    requires
        k < 8,
        j < 8,
    ensures
        byte_bit(join_bits(lo, hi, k), j) == (if k + j < 8 {
            byte_bit(lo, (k + j) as u8)
        } else {
            byte_bit(hi, (k + j - 8) as u8)
        }),
{
    if k == 0 {
    } else {
        assert(0 < k < 8 && j < 8 ==> ((((lo >> k) | ((hi & ((1u8 << k) - 1u8) as u8) << (8u8 - k) as u8)) & (1u8 << j)
            != 0u8) == (if k + j < 8 {
            lo & (1u8 << ((k + j) as u8)) != 0u8
        } else {
            hi & (1u8 << ((k + j - 8u8) as u8)) != 0u8
        }))) by (bit_vector);
    }
}

/// Reading a byte at a bit position gives, bit for bit, what reading single
/// bits there gives, as far as the window and the data reach.
pub proof fn lemma_read_u8_matches_get(data: Seq<u8>, offset: int, len: int, b: int, j: int)
    requires
        0 <= b,
        0 <= j < 8,
        spec_view_read_u8(data, offset, len, b) is Some,
        spec_view_get(data, offset, len, b + j) is Some,
    ensures
        byte_bit(spec_view_read_u8(data, offset, len, b).unwrap(), j as u8)
            == spec_view_get(data, offset, len, b + j).unwrap(),
{
    let k = (b % 8) as u8;
    let first = b / 8;
    lemma_join_bits(data[first], if first + 1 < data.len() { data[first + 1] } else { 0 }, k, j as u8);
    assert((b + j) / 8 == if k + j < 8 { first } else { first + 1 });
    assert((b + j) % 8 == if k + j < 8 { k + j } else { k + j - 8 });
    if k == 0 {
        assert(join_bits(data[first], 0, 0) == data[first]);
    }
}

/// The number that the 8 bits of `data` from absolute bit position `b`
/// make, the first bit the least significant.
pub open spec fn bits_value(data: Seq<u8>, b: int) -> int {
    (if data_bit(data, b) { 1int } else { 0 }) + (if data_bit(data, b + 1) { 2int } else { 0 }) + (if data_bit(
        data,
        b + 2,
    ) {
        4int
    } else {
        0
    }) + (if data_bit(data, b + 3) { 8int } else { 0 }) + (if data_bit(data, b + 4) { 16int } else { 0 })
        + (if data_bit(data, b + 5) { 32int } else { 0 }) + (if data_bit(data, b + 6) { 64int } else { 0 })
        + (if data_bit(data, b + 7) { 128int } else { 0 })
}

proof fn lemma_byte_of_bits(x: u8)
    by (bit_vector)
    ensures
        x == (if byte_bit(x, 0) { 1u8 } else { 0u8 }) + (if byte_bit(x, 1) { 2u8 } else { 0u8 }) + (if byte_bit(
            x,
            2,
        ) {
            4u8
        } else {
            0u8
        }) + (if byte_bit(x, 3) { 8u8 } else { 0u8 }) + (if byte_bit(x, 4) { 16u8 } else { 0u8 }) + (if byte_bit(
            x,
            5,
        ) {
            32u8
        } else {
            0u8
        }) + (if byte_bit(x, 6) { 64u8 } else { 0u8 }) + (if byte_bit(x, 7) { 128u8 } else { 0u8 }),
{
}

proof fn lemma_read_u8_bit(data: Seq<u8>, offset: int, len: int, b: int, j: int)
    requires
        0 <= b,
        0 <= j < 8,
        spec_view_read_u8(data, offset, len, b) is Some,
    ensures
        (b + j) / 8 < data.len(),
        byte_bit(spec_view_read_u8(data, offset, len, b).unwrap(), j as u8) == data_bit(data, b + j),
{
    let k = (b % 8) as u8;
    let first = b / 8;
    lemma_join_bits(data[first], if first + 1 < data.len() { data[first + 1] } else { 0 }, k, j as u8);
    assert((b + j) / 8 == if k + j < 8 { first } else { first + 1 });
    assert((b + j) % 8 == if k + j < 8 { k + j } else { k + j - 8 });
    if k == 0 {
        assert(join_bits(data[first], 0, 0) == data[first]);
    }
}

/// `BinaryView::read_u8` gives a byte exactly where the view goes on past
/// the bit and the data holds the byte it ends in; the byte is then the
/// number that the 8 bits from there make, the first the least significant.
pub proof fn lemma_read_u8_value(data: Seq<u8>, offset: int, len: int, b: int)
    requires
        0 <= b,
    ensures
        (spec_view_read_u8(data, offset, len, b) is Some) == (b < offset + len && (b + 7) / 8 < data.len()),
        spec_view_read_u8(data, offset, len, b) matches Some(x) ==> x as int == bits_value(data, b),
{
    assert((b + 7) / 8 == if b % 8 == 0 { b / 8 } else { b / 8 + 1 });
    if spec_view_read_u8(data, offset, len, b) is Some {
        let x = spec_view_read_u8(data, offset, len, b).unwrap();
        lemma_read_u8_bit(data, offset, len, b, 0);
        lemma_read_u8_bit(data, offset, len, b, 1);
        lemma_read_u8_bit(data, offset, len, b, 2);
        lemma_read_u8_bit(data, offset, len, b, 3);
        lemma_read_u8_bit(data, offset, len, b, 4);
        lemma_read_u8_bit(data, offset, len, b, 5);
        lemma_read_u8_bit(data, offset, len, b, 6);
        lemma_read_u8_bit(data, offset, len, b, 7);
        lemma_byte_of_bits(x);
    }
}

} // verus!
