//! The input side of the HID driver: which key a keyboard usage names, which
//! key presses and releases a new report brings, where the input fields of a
//! report lie, and what a report says to the display.

use vstd::prelude::*;
use crate::hid::{
    byte_bit, div_round_up, spec_empty_global_state, spec_empty_local_state, spec_global_step,
    spec_local_step, spec_view_get, spec_view_read_u8, update_global_state, update_local_state,
    BinaryView, GlobalItemsState, LocalItem, LocalItemsState, MainItem, ReportItem, ReportIterItem,
    MAIN_ITEM_FLAG_VARIABLE,
};

verus! {

/// The keys that keyboard usages (usage page 7) stand for.
#[derive(Clone, Copy, Debug, PartialEq, Eq, Structural)]
pub enum HidKey {
    A,
    B,
    C,
    D,
    E,
    F,
    G,
    H,
    I,
    J,
    K,
    L,
    M,
    N,
    O,
    P,
    Q,
    R,
    S,
    T,
    U,
    V,
    W,
    X,
    Y,
    Z,
    Key1,
    Key2,
    Key3,
    Key4,
    Key5,
    Key6,
    Key7,
    Key8,
    Key9,
    Key0,
    Enter,
    Esc,
    Bksp,
    Tab,
    Space,
    Minus,
    Equals,
    BraceOpen,
    BraceClose,
    Backslash,
    Semicolon,
    Quote,
    Tick,
    Comma,
    Period,
    Slash,
    Caps,
    F1,
    F2,
    F3,
    F4,
    F5,
    F6,
    F7,
    F8,
    F9,
    F10,
    F11,
    F12,
    Home,
    Pgup,
    Del,
    End,
    Pgdn,
    Right,
    Left,
    Down,
    Up,
    Num1,
    Num2,
    Num3,
    Num4,
    Num5,
    Num6,
    Num7,
    Num8,
    Num9,
    Num0,
    Ctrl,
    LeftShift,
    Alt,
    LeftSuper,
    RightShift,
    AltGr,
}

/// The key of a keyboard usage, where the driver knows it.
pub open spec fn spec_usage_key(usage_page: u32, usage: u8) -> Option<HidKey> {
    if usage_page != 7 {
        None
    } else {
        match usage {
            0x04 => Some(HidKey::A),
            0x05 => Some(HidKey::B),
            0x06 => Some(HidKey::C),
            0x07 => Some(HidKey::D),
            0x08 => Some(HidKey::E),
            0x09 => Some(HidKey::F),
            0x0A => Some(HidKey::G),
            0x0B => Some(HidKey::H),
            0x0C => Some(HidKey::I),
            0x0D => Some(HidKey::J),
            0x0E => Some(HidKey::K),
            0x0F => Some(HidKey::L),
            0x10 => Some(HidKey::M),
            0x11 => Some(HidKey::N),
            0x12 => Some(HidKey::O),
            0x13 => Some(HidKey::P),
            0x14 => Some(HidKey::Q),
            0x15 => Some(HidKey::R),
            0x16 => Some(HidKey::S),
            0x17 => Some(HidKey::T),
            0x18 => Some(HidKey::U),
            0x19 => Some(HidKey::V),
            0x1A => Some(HidKey::W),
            0x1B => Some(HidKey::X),
            0x1C => Some(HidKey::Y),
            0x1D => Some(HidKey::Z),
            0x1E => Some(HidKey::Key1),
            0x1F => Some(HidKey::Key2),
            0x20 => Some(HidKey::Key3),
            0x21 => Some(HidKey::Key4),
            0x22 => Some(HidKey::Key5),
            0x23 => Some(HidKey::Key6),
            0x24 => Some(HidKey::Key7),
            0x25 => Some(HidKey::Key8),
            0x26 => Some(HidKey::Key9),
            0x27 => Some(HidKey::Key0),
            0x28 => Some(HidKey::Enter),
            0x29 => Some(HidKey::Esc),
            0x2A => Some(HidKey::Bksp),
            0x2B => Some(HidKey::Tab),
            0x2C => Some(HidKey::Space),
            0x2D => Some(HidKey::Minus),
            0x2E => Some(HidKey::Equals),
            0x2F => Some(HidKey::BraceOpen),
            0x30 => Some(HidKey::BraceClose),
            0x31 => Some(HidKey::Backslash),
            0x33 => Some(HidKey::Semicolon),
            0x34 => Some(HidKey::Quote),
            0x35 => Some(HidKey::Tick),
            0x36 => Some(HidKey::Comma),
            0x37 => Some(HidKey::Period),
            0x38 => Some(HidKey::Slash),
            0x39 => Some(HidKey::Caps),
            0x3A => Some(HidKey::F1),
            0x3B => Some(HidKey::F2),
            0x3C => Some(HidKey::F3),
            0x3D => Some(HidKey::F4),
            0x3E => Some(HidKey::F5),
            0x3F => Some(HidKey::F6),
            0x40 => Some(HidKey::F7),
            0x41 => Some(HidKey::F8),
            0x42 => Some(HidKey::F9),
            0x43 => Some(HidKey::F10),
            0x44 => Some(HidKey::F11),
            0x45 => Some(HidKey::F12),
            0x4A => Some(HidKey::Home),
            0x4B => Some(HidKey::Pgup),
            0x4C => Some(HidKey::Del),
            0x4D => Some(HidKey::End),
            0x4E => Some(HidKey::Pgdn),
            0x4F => Some(HidKey::Right),
            0x50 => Some(HidKey::Left),
            0x51 => Some(HidKey::Down),
            0x52 => Some(HidKey::Up),
            0x59 => Some(HidKey::Num1),
            0x5A => Some(HidKey::Num2),
            0x5B => Some(HidKey::Num3),
            0x5C => Some(HidKey::Num4),
            0x5D => Some(HidKey::Num5),
            0x5E => Some(HidKey::Num6),
            0x5F => Some(HidKey::Num7),
            0x60 => Some(HidKey::Num8),
            0x61 => Some(HidKey::Num9),
            0x62 => Some(HidKey::Num0),
            0xE0 => Some(HidKey::Ctrl),
            0xE1 => Some(HidKey::LeftShift),
            0xE2 => Some(HidKey::Alt),
            0xE3 => Some(HidKey::LeftSuper),
            0xE4 => Some(HidKey::Ctrl),
            0xE5 => Some(HidKey::RightShift),
            0xE6 => Some(HidKey::AltGr),
            _ => None,
        }
    }
}

/// The letter keys, A to Z.
pub open spec fn letter_keys() -> Seq<HidKey> {
    seq![HidKey::A, HidKey::B, HidKey::C, HidKey::D, HidKey::E, HidKey::F, HidKey::G, HidKey::H, HidKey::I, HidKey::J, HidKey::K, HidKey::L, HidKey::M, HidKey::N, HidKey::O, HidKey::P, HidKey::Q, HidKey::R, HidKey::S, HidKey::T, HidKey::U, HidKey::V, HidKey::W, HidKey::X, HidKey::Y, HidKey::Z]
}

/// The digit keys of the main block in usage order: 1 to 9, then 0.
pub open spec fn digit_keys() -> Seq<HidKey> {
    seq![HidKey::Key1, HidKey::Key2, HidKey::Key3, HidKey::Key4, HidKey::Key5, HidKey::Key6, HidKey::Key7, HidKey::Key8, HidKey::Key9, HidKey::Key0]
}

/// The function keys F1 to F12.
pub open spec fn function_keys() -> Seq<HidKey> {
    seq![HidKey::F1, HidKey::F2, HidKey::F3, HidKey::F4, HidKey::F5, HidKey::F6, HidKey::F7, HidKey::F8, HidKey::F9, HidKey::F10, HidKey::F11, HidKey::F12]
}

/// The keypad digit keys in usage order: 1 to 9, then 0.
pub open spec fn keypad_digit_keys() -> Seq<HidKey> {
    seq![HidKey::Num1, HidKey::Num2, HidKey::Num3, HidKey::Num4, HidKey::Num5, HidKey::Num6, HidKey::Num7, HidKey::Num8, HidKey::Num9, HidKey::Num0]
}

/// Keyboard usages map to keys as the HID usage tables lay them out: usage
/// 0x04 + k is the (k+1)-th letter, 0x1E + k the (k+1)-th digit key (1 to 9,
/// then 0), 0x3A + k function key F(k+1), and 0x59 + k the (k+1)-th keypad
/// digit (1 to 9, then 0). No other usage page gives a key.
pub proof fn lemma_usage_key_layout(page: u32, k: int)
    ensures
        page != 7 ==> forall|u: u8| spec_usage_key(page, u) is None,
        0 <= k < 26 ==> spec_usage_key(7, (0x04 + k) as u8) == Some(letter_keys()[k]),
        0 <= k < 10 ==> spec_usage_key(7, (0x1E + k) as u8) == Some(digit_keys()[k]),
        0 <= k < 12 ==> spec_usage_key(7, (0x3A + k) as u8) == Some(function_keys()[k]),
        0 <= k < 10 ==> spec_usage_key(7, (0x59 + k) as u8) == Some(keypad_digit_keys()[k]),
{
}

/// The inverse of the usage table: the usage a key comes from (left Control
/// for Control).
spec fn key_usage(key: HidKey) -> u8 {
    match key {
        HidKey::A => 0x04,
        HidKey::B => 0x05,
        HidKey::C => 0x06,
        HidKey::D => 0x07,
        HidKey::E => 0x08,
        HidKey::F => 0x09,
        HidKey::G => 0x0A,
        HidKey::H => 0x0B,
        HidKey::I => 0x0C,
        HidKey::J => 0x0D,
        HidKey::K => 0x0E,
        HidKey::L => 0x0F,
        HidKey::M => 0x10,
        HidKey::N => 0x11,
        HidKey::O => 0x12,
        HidKey::P => 0x13,
        HidKey::Q => 0x14,
        HidKey::R => 0x15,
        HidKey::S => 0x16,
        HidKey::T => 0x17,
        HidKey::U => 0x18,
        HidKey::V => 0x19,
        HidKey::W => 0x1A,
        HidKey::X => 0x1B,
        HidKey::Y => 0x1C,
        HidKey::Z => 0x1D,
        HidKey::Key1 => 0x1E,
        HidKey::Key2 => 0x1F,
        HidKey::Key3 => 0x20,
        HidKey::Key4 => 0x21,
        HidKey::Key5 => 0x22,
        HidKey::Key6 => 0x23,
        HidKey::Key7 => 0x24,
        HidKey::Key8 => 0x25,
        HidKey::Key9 => 0x26,
        HidKey::Key0 => 0x27,
        HidKey::Enter => 0x28,
        HidKey::Esc => 0x29,
        HidKey::Bksp => 0x2A,
        HidKey::Tab => 0x2B,
        HidKey::Space => 0x2C,
        HidKey::Minus => 0x2D,
        HidKey::Equals => 0x2E,
        HidKey::BraceOpen => 0x2F,
        HidKey::BraceClose => 0x30,
        HidKey::Backslash => 0x31,
        HidKey::Semicolon => 0x33,
        HidKey::Quote => 0x34,
        HidKey::Tick => 0x35,
        HidKey::Comma => 0x36,
        HidKey::Period => 0x37,
        HidKey::Slash => 0x38,
        HidKey::Caps => 0x39,
        HidKey::F1 => 0x3A,
        HidKey::F2 => 0x3B,
        HidKey::F3 => 0x3C,
        HidKey::F4 => 0x3D,
        HidKey::F5 => 0x3E,
        HidKey::F6 => 0x3F,
        HidKey::F7 => 0x40,
        HidKey::F8 => 0x41,
        HidKey::F9 => 0x42,
        HidKey::F10 => 0x43,
        HidKey::F11 => 0x44,
        HidKey::F12 => 0x45,
        HidKey::Home => 0x4A,
        HidKey::Pgup => 0x4B,
        HidKey::Del => 0x4C,
        HidKey::End => 0x4D,
        HidKey::Pgdn => 0x4E,
        HidKey::Right => 0x4F,
        HidKey::Left => 0x50,
        HidKey::Down => 0x51,
        HidKey::Up => 0x52,
        HidKey::Num1 => 0x59,
        HidKey::Num2 => 0x5A,
        HidKey::Num3 => 0x5B,
        HidKey::Num4 => 0x5C,
        HidKey::Num5 => 0x5D,
        HidKey::Num6 => 0x5E,
        HidKey::Num7 => 0x5F,
        HidKey::Num8 => 0x60,
        HidKey::Num9 => 0x61,
        HidKey::Num0 => 0x62,
        HidKey::Ctrl => 0xE0,
        HidKey::LeftShift => 0xE1,
        HidKey::Alt => 0xE2,
        HidKey::LeftSuper => 0xE3,
        HidKey::RightShift => 0xE5,
        HidKey::AltGr => 0xE6,
    }
}

proof fn lemma_usage_of_key(u: u8)
    ensures
        spec_usage_key(7, u) matches Some(key) ==> (key_usage(key) == u || (key == HidKey::Ctrl && u == 0xE4)),
{
}

/// Different usages give different keys, but for left and right Control
/// (0xE0 and 0xE4), which both give Control.
pub proof fn lemma_usage_key_distinct(u1: u8, u2: u8)
    ensures
        spec_usage_key(7, u1) is Some && spec_usage_key(7, u1) == spec_usage_key(7, u2) ==> u1 == u2 || (
        spec_usage_key(7, u1) == Some(HidKey::Ctrl) && (u1 == 0xE0 || u1 == 0xE4) && (u2 == 0xE0 || u2 == 0xE4)),
{
    lemma_usage_of_key(u1);
    lemma_usage_of_key(u2);
}

/// The key of a keyboard usage, where the driver knows it.
pub fn usage_key(usage_page: u32, usage: u8) -> (r: Option<HidKey>)
    ensures
        r == spec_usage_key(usage_page, usage),
{
    if usage_page != 7 {
        return None;
    }
    match usage {
        0x04 => Some(HidKey::A),
        0x05 => Some(HidKey::B),
        0x06 => Some(HidKey::C),
        0x07 => Some(HidKey::D),
        0x08 => Some(HidKey::E),
        0x09 => Some(HidKey::F),
        0x0A => Some(HidKey::G),
        0x0B => Some(HidKey::H),
        0x0C => Some(HidKey::I),
        0x0D => Some(HidKey::J),
        0x0E => Some(HidKey::K),
        0x0F => Some(HidKey::L),
        0x10 => Some(HidKey::M),
        0x11 => Some(HidKey::N),
        0x12 => Some(HidKey::O),
        0x13 => Some(HidKey::P),
        0x14 => Some(HidKey::Q),
        0x15 => Some(HidKey::R),
        0x16 => Some(HidKey::S),
        0x17 => Some(HidKey::T),
        0x18 => Some(HidKey::U),
        0x19 => Some(HidKey::V),
        0x1A => Some(HidKey::W),
        0x1B => Some(HidKey::X),
        0x1C => Some(HidKey::Y),
        0x1D => Some(HidKey::Z),
        0x1E => Some(HidKey::Key1),
        0x1F => Some(HidKey::Key2),
        0x20 => Some(HidKey::Key3),
        0x21 => Some(HidKey::Key4),
        0x22 => Some(HidKey::Key5),
        0x23 => Some(HidKey::Key6),
        0x24 => Some(HidKey::Key7),
        0x25 => Some(HidKey::Key8),
        0x26 => Some(HidKey::Key9),
        0x27 => Some(HidKey::Key0),
        0x28 => Some(HidKey::Enter),
        0x29 => Some(HidKey::Esc),
        0x2A => Some(HidKey::Bksp),
        0x2B => Some(HidKey::Tab),
        0x2C => Some(HidKey::Space),
        0x2D => Some(HidKey::Minus),
        0x2E => Some(HidKey::Equals),
        0x2F => Some(HidKey::BraceOpen),
        0x30 => Some(HidKey::BraceClose),
        0x31 => Some(HidKey::Backslash),
        0x33 => Some(HidKey::Semicolon),
        0x34 => Some(HidKey::Quote),
        0x35 => Some(HidKey::Tick),
        0x36 => Some(HidKey::Comma),
        0x37 => Some(HidKey::Period),
        0x38 => Some(HidKey::Slash),
        0x39 => Some(HidKey::Caps),
        0x3A => Some(HidKey::F1),
        0x3B => Some(HidKey::F2),
        0x3C => Some(HidKey::F3),
        0x3D => Some(HidKey::F4),
        0x3E => Some(HidKey::F5),
        0x3F => Some(HidKey::F6),
        0x40 => Some(HidKey::F7),
        0x41 => Some(HidKey::F8),
        0x42 => Some(HidKey::F9),
        0x43 => Some(HidKey::F10),
        0x44 => Some(HidKey::F11),
        0x45 => Some(HidKey::F12),
        0x4A => Some(HidKey::Home),
        0x4B => Some(HidKey::Pgup),
        0x4C => Some(HidKey::Del),
        0x4D => Some(HidKey::End),
        0x4E => Some(HidKey::Pgdn),
        0x4F => Some(HidKey::Right),
        0x50 => Some(HidKey::Left),
        0x51 => Some(HidKey::Down),
        0x52 => Some(HidKey::Up),
        0x59 => Some(HidKey::Num1),
        0x5A => Some(HidKey::Num2),
        0x5B => Some(HidKey::Num3),
        0x5C => Some(HidKey::Num4),
        0x5D => Some(HidKey::Num5),
        0x5E => Some(HidKey::Num6),
        0x5F => Some(HidKey::Num7),
        0x60 => Some(HidKey::Num8),
        0x61 => Some(HidKey::Num9),
        0x62 => Some(HidKey::Num0),
        0xE0 => Some(HidKey::Ctrl),
        0xE1 => Some(HidKey::LeftShift),
        0xE2 => Some(HidKey::Alt),
        0xE3 => Some(HidKey::LeftSuper),
        0xE4 => Some(HidKey::Ctrl),
        0xE5 => Some(HidKey::RightShift),
        0xE6 => Some(HidKey::AltGr),
        _ => None,
    }
}

/// A key of a report: its usage page and usage.
#[derive(Clone, Copy, Debug, PartialEq, Eq, Structural)]
pub struct KeyUsage {
    pub page: u32,
    pub usage: u8,
}

/// A key event to send: the key, whether it went down or up, and for a
/// key going down whether a shift key is held.
#[derive(Clone, Copy, Debug, PartialEq, Eq, Structural)]
pub struct KeyChange {
    pub key: KeyUsage,
    pub pressed: bool,
    pub shift: Option<bool>,
}

/// A left or right shift key is among `keys`.
pub open spec fn shift_held(keys: Seq<KeyUsage>) -> bool {
    keys.contains(KeyUsage { page: 7, usage: 0xE1 }) || keys.contains(KeyUsage { page: 7, usage: 0xE5 })
}

/// The keys of `last` that `pressed` no longer holds, released in order.
pub open spec fn releases(last: Seq<KeyUsage>, pressed: Seq<KeyUsage>) -> Seq<KeyChange>
    decreases last.len(),
{
    if last.len() == 0 {
        Seq::empty()
    } else {
        releases(last.drop_last(), pressed) + (if pressed.contains(last.last()) {
            Seq::empty()
        } else {
            seq![KeyChange { key: last.last(), pressed: false, shift: None }]
        })
    }
}

/// The keys of `pressed` that `last` did not hold, pressed in order.
pub open spec fn presses(pressed: Seq<KeyUsage>, last: Seq<KeyUsage>, shift: bool) -> Seq<KeyChange>
    decreases pressed.len(),
{
    if pressed.len() == 0 {
        Seq::empty()
    } else {
        presses(pressed.drop_last(), last, shift) + (if last.contains(pressed.last()) {
            Seq::empty()
        } else {
            seq![KeyChange { key: pressed.last(), pressed: true, shift: Some(shift) }]
        })
    }
}

/// Whether `k` is among `keys`.
fn contains_key(keys: &[KeyUsage], k: KeyUsage) -> (r: bool)
    ensures
        r == keys@.contains(k),
{
    let mut i: usize = 0;
    while i < keys.len()
        invariant
            i <= keys@.len(),
            forall|j: int| 0 <= j < i ==> keys@[j] != k,
        decreases keys@.len() - i,
    {
        if keys[i].page == k.page && keys[i].usage == k.usage {
            assert(keys@[i as int] == k);
            return true;
        }
        i = i + 1;
    }
    false
}

/// The key events between the keys `last` held by the previous report and
/// the keys `pressed` in the new one: first the releases, then the presses,
/// which carry whether a shift key is held in the new report.
pub fn key_changes(last: &[KeyUsage], pressed: &[KeyUsage]) -> (r: Vec<KeyChange>)
    ensures
        r@ == releases(last@, pressed@) + presses(pressed@, last@, shift_held(pressed@)),
{
    let mut r: Vec<KeyChange> = Vec::new();
    let mut i: usize = 0;
    while i < last.len()
        invariant
            i <= last@.len(),
            r@ == releases(last@.take(i as int), pressed@),
        decreases last@.len() - i,
    {
        assert(last@.take(i + 1).drop_last() =~= last@.take(i as int));
        let k = last[i];
        if !contains_key(pressed, k) {
            r.push(KeyChange { key: k, pressed: false, shift: None });
        }
        i = i + 1;
    }
    assert(last@.take(last@.len() as int) =~= last@);
    let shift = contains_key(pressed, KeyUsage { page: 7, usage: 0xE1 }) || contains_key(
        pressed,
        KeyUsage { page: 7, usage: 0xE5 },
    );
    let ghost rel = r@;
    let mut j: usize = 0;
    while j < pressed.len()
        invariant
            j <= pressed@.len(),
            rel == releases(last@, pressed@),
            r@ == rel + presses(pressed@.take(j as int), last@, shift),
        decreases pressed@.len() - j,
    {
        assert(pressed@.take(j + 1).drop_last() =~= pressed@.take(j as int));
        let k = pressed[j];
        if !contains_key(last, k) {
            r.push(KeyChange { key: k, pressed: true, shift: Some(shift) });
        }
        j = j + 1;
        assert(r@ =~= rel + presses(pressed@.take(j as int), last@, shift));
    }
    assert(pressed@.take(pressed@.len() as int) =~= pressed@);
    r
}

/// Some change of `changes` concerns `k`, going down where `down`.
pub open spec fn has_change(changes: Seq<KeyChange>, k: KeyUsage, down: bool) -> bool {
    exists|i: int| 0 <= i < changes.len() && (#[trigger] changes[i]).key == k && changes[i].pressed == down
}

proof fn lemma_has_change_concat(a: Seq<KeyChange>, b: Seq<KeyChange>, k: KeyUsage, down: bool)
    ensures
        has_change(a + b, k, down) == (has_change(a, k, down) || has_change(b, k, down)),
{
    if has_change(a + b, k, down) {
        let i = choose|i: int| 0 <= i < (a + b).len() && (#[trigger] (a + b)[i]).key == k && (a + b)[i].pressed == down;
        if i < a.len() {
            assert(a[i] == (a + b)[i]);
        } else {
            assert(b[i - a.len()] == (a + b)[i]);
        }
    }
    if has_change(a, k, down) {
        let i = choose|i: int| 0 <= i < a.len() && (#[trigger] a[i]).key == k && a[i].pressed == down;
        assert((a + b)[i] == a[i]);
    }
    if has_change(b, k, down) {
        let i = choose|i: int| 0 <= i < b.len() && (#[trigger] b[i]).key == k && b[i].pressed == down;
        assert((a + b)[a.len() + i] == b[i]);
    }
}

proof fn lemma_releases(last: Seq<KeyUsage>, pressed: Seq<KeyUsage>, k: KeyUsage)
    ensures
        has_change(releases(last, pressed), k, false) == (last.contains(k) && !pressed.contains(k)),
        !has_change(releases(last, pressed), k, true),
    decreases last.len(),
{
    if last.len() > 0 {
        let init = last.drop_last();
        lemma_releases(init, pressed, k);
        let tail = if pressed.contains(last.last()) {
            Seq::<KeyChange>::empty()
        } else {
            seq![KeyChange { key: last.last(), pressed: false, shift: None }]
        };
        lemma_has_change_concat(releases(init, pressed), tail, k, false);
        lemma_has_change_concat(releases(init, pressed), tail, k, true);
        if tail.len() == 1 {
            assert(tail[0].key == last.last());
        }
        assert(last =~= init.push(last.last()));
        if last.contains(k) {
            let i = choose|i: int| 0 <= i < last.len() && last[i] == k;
            if i < init.len() {
                assert(init[i] == k);
            }
        }
        if init.contains(k) {
            let i = choose|i: int| 0 <= i < init.len() && init[i] == k;
            assert(last[i] == k);
        }
    } else {
        assert(!last.contains(k));
    }
}

proof fn lemma_presses(pressed: Seq<KeyUsage>, last: Seq<KeyUsage>, shift: bool, k: KeyUsage)
    ensures
        has_change(presses(pressed, last, shift), k, true) == (pressed.contains(k) && !last.contains(k)),
        !has_change(presses(pressed, last, shift), k, false),
    decreases pressed.len(),
{
    if pressed.len() > 0 {
        let init = pressed.drop_last();
        lemma_presses(init, last, shift, k);
        let tail = if last.contains(pressed.last()) {
            Seq::<KeyChange>::empty()
        } else {
            seq![KeyChange { key: pressed.last(), pressed: true, shift: Some(shift) }]
        };
        lemma_has_change_concat(presses(init, last, shift), tail, k, false);
        lemma_has_change_concat(presses(init, last, shift), tail, k, true);
        if tail.len() == 1 {
            assert(tail[0].key == pressed.last());
        }
        assert(pressed =~= init.push(pressed.last()));
        if pressed.contains(k) {
            let i = choose|i: int| 0 <= i < pressed.len() && pressed[i] == k;
            if i < init.len() {
                assert(init[i] == k);
            }
        }
        if init.contains(k) {
            let i = choose|i: int| 0 <= i < init.len() && init[i] == k;
            assert(pressed[i] == k);
        }
    } else {
        assert(!pressed.contains(k));
    }
}

/// Sending the key events of a new report leaves exactly the keys of that
/// report held: a key is held afterwards when it was held and not released,
/// or was pressed, and that is so exactly for the keys the report holds.
pub proof fn lemma_key_changes_track_report(last: Seq<KeyUsage>, pressed: Seq<KeyUsage>, k: KeyUsage)
    ensures
        ({
            let changes = releases(last, pressed) + presses(pressed, last, shift_held(pressed));
            (last.contains(k) && !has_change(changes, k, false)) || has_change(changes, k, true)
        }) == pressed.contains(k),
{
    let shift = shift_held(pressed);
    lemma_releases(last, pressed, k);
    lemma_presses(pressed, last, shift, k);
    lemma_has_change_concat(releases(last, pressed), presses(pressed, last, shift), k, false);
    lemma_has_change_concat(releases(last, pressed), presses(pressed, last, shift), k, true);
}

/// A main item of a report descriptor with the global and local item
/// values in effect for it.
#[derive(Clone, Copy, Debug, PartialEq, Eq, Structural)]
pub struct ReportMainItem {
    pub global: GlobalItemsState,
    pub local: LocalItemsState,
    pub item: MainItem,
}

/// An input field of a report: its length and position in bits, the item
/// values in effect for it, and its main item flags.
#[derive(Clone, Copy, Debug, PartialEq, Eq, Structural)]
pub struct InputField {
    pub bit_length: u32,
    pub bit_offset: u32,
    pub global: GlobalItemsState,
    pub local: LocalItemsState,
    pub flags: u32,
}

/// The bits an input item with a report size and count takes, and its
/// flags.
pub open spec fn input_bits(m: ReportMainItem) -> Option<(int, u32)> {
    match (m.item, m.global.report_size, m.global.report_count) {
        (MainItem::Input(flags), Some(size), Some(count)) => Some((size * count, flags)),
        _ => None,
    }
}

/// The input fields of `items`, laid out one after the other from bit
/// `offset` on.
pub open spec fn input_fields_from(items: Seq<ReportMainItem>, offset: int) -> Seq<InputField>
    decreases items.len(),
{
    if items.len() == 0 {
        Seq::empty()
    } else {
        let m = items[0];
        match input_bits(m) {
            Some((n, flags)) => seq![
                InputField {
                    bit_length: n as u32,
                    bit_offset: offset as u32,
                    global: m.global,
                    local: m.local,
                    flags,
                },
            ] + input_fields_from(items.drop_first(), offset + n),
            None => input_fields_from(items.drop_first(), offset),
        }
    }
}

/// The bits that the input fields of `items` take together.
pub open spec fn total_input_bits(items: Seq<ReportMainItem>) -> int
    decreases items.len(),
{
    if items.len() == 0 {
        0
    } else {
        (match input_bits(items[0]) {
            Some((n, _)) => n,
            None => 0,
        }) + total_input_bits(items.drop_first())
    }
}

proof fn lemma_total_input_bits_nonneg(items: Seq<ReportMainItem>)
    ensures
        total_input_bits(items) >= 0,
    decreases items.len(),
{
    if items.len() > 0 {
        lemma_total_input_bits_nonneg(items.drop_first());
        if let Some((n, _)) = input_bits(items[0]) {
            let m = items[0];
            assert(n == m.global.report_size.unwrap() * m.global.report_count.unwrap());
            assert(n >= 0) by (nonlinear_arith)
                requires
                    n == m.global.report_size.unwrap() * m.global.report_count.unwrap(),
            ;
        }
    }
}

/// Whether the input fields of `items` take no more than 2^32 - 1 bits
/// together, so that they can be laid out.
pub fn total_input_bits_fit(items: &[ReportMainItem]) -> (r: bool)
    ensures
        r == (total_input_bits(items@) <= u32::MAX),
{
    let mut total: u64 = 0;
    let mut i: usize = items.len();
    assert(items@.skip(items@.len() as int) =~= Seq::<ReportMainItem>::empty());
    while i > 0
        invariant
            i <= items@.len(),
            total == total_input_bits(items@.skip(i as int)),
            total <= u32::MAX,
        decreases i,
    {
        let m = items[i - 1];
        let ghost rest = items@.skip(i - 1);
        assert(rest[0] == m);
        assert(rest.drop_first() =~= items@.skip(i as int));
        let n: u64 = match (m.item, m.global.report_size, m.global.report_count) {
            (MainItem::Input(_), Some(size), Some(count)) => {
                proof {
                    assert(size * count <= u32::MAX * u32::MAX) by (nonlinear_arith)
                        requires
                            size <= u32::MAX,
                            count <= u32::MAX,
                    ;
                    assert(size * count >= 0) by (nonlinear_arith);
                }
                size as u64 * count as u64
            },
            _ => 0,
        };
        if n > u32::MAX as u64 - total {
            proof {
                lemma_total_input_bits_nonneg(items@.skip(0));
                lemma_total_bits_prefix(items@, (i - 1) as int);
            }
            return false;
        }
        total = total + n;
        i = i - 1;
    }
    assert(items@.skip(0) =~= items@);
    true
}

/// The bits of all items are at least the bits of the items from `k` on.
proof fn lemma_total_bits_prefix(items: Seq<ReportMainItem>, k: int)
    requires
        0 <= k <= items.len(),
    ensures
        total_input_bits(items) >= total_input_bits(items.skip(k)),
    decreases k,
{
    if k > 0 {
        lemma_total_bits_prefix(items, k - 1);
        let rest = items.skip(k - 1);
        assert(rest.drop_first() =~= items.skip(k));
        if let Some((n, _)) = input_bits(rest[0]) {
            let m = rest[0];
            assert(n >= 0) by (nonlinear_arith)
                requires
                    n == m.global.report_size.unwrap() * m.global.report_count.unwrap(),
            ;
        }
    } else {
        assert(items.skip(0) =~= items);
    }
}

/// Lays out the input fields of a report from its main items: each input
/// item with a report size and count takes size times count bits, after
/// the fields before it. Gives the fields and the report's length in bytes.
pub fn input_fields(items: &[ReportMainItem]) -> (r: (Vec<InputField>, u32))
    requires
        total_input_bits(items@) <= u32::MAX,
    ensures
        r.0@ == input_fields_from(items@, 0),
        r.1 == (if total_input_bits(items@) % 8 == 0 {
            total_input_bits(items@) / 8
        } else {
            total_input_bits(items@) / 8 + 1
        }),
{
    let mut fields: Vec<InputField> = Vec::new();
    let mut offset: u32 = 0;
    let mut i: usize = 0;
    assert(items@.skip(0) =~= items@);
    while i < items.len()
        invariant
            i <= items@.len(),
            total_input_bits(items@) <= u32::MAX,
            fields@ + input_fields_from(items@.skip(i as int), offset as int) == input_fields_from(items@, 0),
            offset + total_input_bits(items@.skip(i as int)) == total_input_bits(items@),
        decreases items@.len() - i,
    {
        let m = items[i];
        let ghost rest = items@.skip(i as int);
        assert(rest[0] == m);
        assert(rest.drop_first() =~= items@.skip(i + 1));
        proof {
            lemma_total_input_bits_nonneg(items@.skip(i + 1));
        }
        match (m.item, m.global.report_size, m.global.report_count) {
            (MainItem::Input(flags), Some(size), Some(count)) => {
                proof {
                    assert(size * count >= 0) by (nonlinear_arith);
                }
                let n = size * count;
                let f = InputField { bit_length: n, bit_offset: offset, global: m.global, local: m.local, flags };
                assert(fields@.push(f) + input_fields_from(items@.skip(i + 1), offset + n) =~= fields@
                    + input_fields_from(rest, offset as int));
                fields.push(f);
                offset = offset + n;
            },
            _ => {},
        }
        i = i + 1;
    }
    assert(items@.skip(i as int) =~= Seq::<ReportMainItem>::empty());
    (fields, div_round_up(offset, 8))
}

/// The state of the three mouse buttons.
#[derive(Clone, Copy, Debug, PartialEq, Eq, Structural)]
pub struct Buttons {
    pub left: bool,
    pub right: bool,
    pub middle: bool,
}

/// What the driver sends to the display for a report, besides key events.
#[derive(Clone, Copy, Debug, PartialEq, Eq, Structural)]
pub enum HidEvent {
    /// An absolute pointer position.
    Mouse { x: i32, y: i32 },
    /// A relative pointer movement.
    MouseRelative { dx: i32, dy: i32 },
    Scroll { x: i32, y: i32 },
    Button(Buttons),
}

/// The field is a variable (not an array) field.
pub open spec fn is_variable(f: InputField) -> bool {
    f.flags & MAIN_ITEM_FLAG_VARIABLE != 0
}

pub open spec fn size_count(f: InputField, size: u32, count: u32) -> bool {
    f.global.report_size == Some(size) && f.global.report_count == Some(count)
}

/// Eight one-bit keyboard modifier fields (usages 224 to 231).
pub open spec fn is_modifier_field(f: InputField) -> bool {
    &&& size_count(f, 1, 8)
    &&& f.global.usage_page == Some(7u32)
    &&& f.local.usage_min == Some(224u32)
    &&& f.local.usage_max == Some(231u32)
    &&& f.global.logical_min == Some(0u32)
    &&& f.global.logical_max == Some(1u32)
}

/// Two 16-bit generic desktop fields: an absolute position.
pub open spec fn is_touch_field(f: InputField) -> bool {
    size_count(f, 16, 2) && f.global.usage_page == Some(1u32)
}

/// Three 8-bit generic desktop fields: a relative movement and a wheel.
pub open spec fn is_mouse_field(f: InputField) -> bool {
    size_count(f, 8, 3) && f.global.usage_page == Some(1u32)
}

/// Three one-bit button fields.
pub open spec fn is_button_field(f: InputField) -> bool {
    size_count(f, 1, 3) && f.global.usage_page == Some(9u32)
}

/// The byte read `bit` bits into field `f` of `report`.
pub open spec fn field_u8(report: Seq<u8>, f: InputField, bit: int) -> Option<u8> {
    spec_view_read_u8(report, f.bit_offset as int, f.bit_length as int, f.bit_offset + bit)
}

/// The bit read `bit` bits into field `f` of `report`.
pub open spec fn field_bit(report: Seq<u8>, f: InputField, bit: int) -> Option<bool> {
    spec_view_get(report, f.bit_offset as int, f.bit_length as int, f.bit_offset + bit)
}

/// The usage of element `i` of an array field of bytes.
pub open spec fn array_usage(report: Seq<u8>, f: InputField, i: int) -> Option<u8> {
    spec_view_read_u8(report, f.bit_offset + i * 8, 8, f.bit_offset + i * 8)
}

pub open spec fn some_u8(o: Option<u8>) -> u8 {
    match o {
        Some(v) => v,
        None => 0,
    }
}

pub open spec fn some_bool(o: Option<bool>) -> bool {
    match o {
        Some(v) => v,
        None => false,
    }
}

/// The 16-bit value of the two bytes read at `bit` and `bit + 8`.
pub open spec fn field_u16(report: Seq<u8>, f: InputField, bit: int) -> int {
    some_u8(field_u8(report, f, bit)) + 256 * some_u8(field_u8(report, f, bit + 8))
}

/// The reads that the driver makes of field `f` find their bits in the
/// report (else the driver stops), and a position doubled stays within 16
/// bits.
pub open spec fn field_readable(report: Seq<u8>, f: InputField) -> bool {
    &&& f.bit_offset + f.bit_length + 32 <= usize::MAX
    &&& if is_variable(f) {
        if is_modifier_field(f) {
            field_u8(report, f, 0) is Some
        } else if is_touch_field(f) {
            &&& field_u8(report, f, 0) is Some
            &&& field_u8(report, f, 8) is Some
            &&& field_u8(report, f, 16) is Some
            &&& field_u8(report, f, 24) is Some
            &&& field_u16(report, f, 0) * 2 <= u16::MAX
            &&& field_u16(report, f, 16) * 2 <= u16::MAX
        } else if is_mouse_field(f) {
            &&& field_u8(report, f, 0) is Some
            &&& field_u8(report, f, 8) is Some
            &&& field_u8(report, f, 16) is Some
        } else if is_button_field(f) {
            &&& field_bit(report, f, 0) is Some
            &&& field_bit(report, f, 1) is Some
            &&& field_bit(report, f, 2) is Some
        } else {
            true
        }
    } else {
        f.global.report_size == Some(8u32) ==> match f.global.report_count {
            Some(c) => {
                &&& f.bit_offset + c * 8 + 8 <= usize::MAX
                &&& forall|i: int| 0 <= i < c ==> #[trigger] array_usage(report, f, i) is Some
            },
            None => true,
        }
    }
}

/// The modifier keys whose bits are set among the first `n` bits of
/// `bits`.
pub open spec fn modifier_keys(bits: u8, n: nat) -> Seq<KeyUsage>
    decreases n,
{
    if n == 0 {
        Seq::empty()
    } else {
        modifier_keys(bits, (n - 1) as nat) + (if byte_bit(bits, (n - 1) as u8) {
            seq![KeyUsage { page: 7, usage: (0xE0 + n - 1) as u8 }]
        } else {
            Seq::empty()
        })
    }
}

/// The keys of a modifier byte are the modifier usages 0xE0 to 0xE7 whose
/// bit is set: bit `k` stands for usage `0xE0 + k`, and nothing else is
/// among them.
pub proof fn lemma_modifier_keys_bits(bits: u8, n: nat, key: KeyUsage)
    requires
        n <= 8,
    ensures
        modifier_keys(bits, n).contains(key) <==> (key.page == 7 && 0xE0 <= key.usage < 0xE0 + n && byte_bit(
            bits,
            (key.usage - 0xE0) as u8,
        )),
    decreases n,
{
    broadcast use vstd::seq_lib::lemma_seq_concat_contains_all_elements, vstd::seq_lib::lemma_seq_contains;
    if n > 0 {
        lemma_modifier_keys_bits(bits, (n - 1) as nat, key);
        let last = KeyUsage { page: 7, usage: (0xE0 + n - 1) as u8 };
        if byte_bit(bits, (n - 1) as u8) {
            assert(seq![last].contains(key) <==> key == last) by {
                if key == last {
                    assert(seq![last][0] == key);
                }
            }
        } else {
            assert(!Seq::<KeyUsage>::empty().contains(key));
        }
    } else {
        assert(!Seq::<KeyUsage>::empty().contains(key));
    }
}

/// A shift key is held by a modifier byte exactly when its left shift bit
/// (1) or right shift bit (5) is set.
pub proof fn lemma_modifier_shift(bits: u8)
    ensures
        shift_held(modifier_keys(bits, 8)) == (byte_bit(bits, 1) || byte_bit(bits, 5)),
{
    lemma_modifier_keys_bits(bits, 8, KeyUsage { page: 7, usage: 0xE1 });
    lemma_modifier_keys_bits(bits, 8, KeyUsage { page: 7, usage: 0xE5 });
}

/// The keys named by the first `n` elements of an array field of bytes
/// (zero names no key).
pub open spec fn array_keys(report: Seq<u8>, f: InputField, n: nat) -> Seq<KeyUsage>
    decreases n,
{
    if n == 0 {
        Seq::empty()
    } else {
        let u = some_u8(array_usage(report, f, n - 1));
        array_keys(report, f, (n - 1) as nat) + (if u != 0 {
            seq![KeyUsage { page: match f.global.usage_page { Some(p) => p, None => 0 }, usage: u }]
        } else {
            Seq::empty()
        })
    }
}

/// The keys that field `f` of `report` holds down.
pub open spec fn field_keys(report: Seq<u8>, f: InputField) -> Seq<KeyUsage> {
    if is_variable(f) {
        if is_modifier_field(f) {
            modifier_keys(some_u8(field_u8(report, f, 0)), 8)
        } else {
            Seq::empty()
        }
    } else if f.global.report_size == Some(8u32) {
        array_keys(report, f, match f.global.report_count { Some(c) => c as nat, None => 0 })
    } else {
        Seq::empty()
    }
}

/// The buttons that field `f` of `report` reports.
pub open spec fn field_buttons_read(report: Seq<u8>, f: InputField) -> Buttons {
    Buttons {
        left: some_bool(field_bit(report, f, 0)),
        right: some_bool(field_bit(report, f, 1)),
        middle: some_bool(field_bit(report, f, 2)),
    }
}

/// The events that field `f` of `report` gives, with the buttons last
/// reported `b`, and the buttons reported after it.
pub open spec fn field_events(report: Seq<u8>, f: InputField, b: Buttons) -> (Seq<HidEvent>, Buttons) {
    if !is_variable(f) || is_modifier_field(f) {
        (Seq::empty(), b)
    } else if is_touch_field(f) {
        let x = field_u16(report, f, 0) * 2;
        let y = field_u16(report, f, 16) * 2;
        (if x != 0 || y != 0 { seq![HidEvent::Mouse { x: x as i32, y: y as i32 }] } else { Seq::empty() }, b)
    } else if is_mouse_field(f) {
        let dx = (some_u8(field_u8(report, f, 0)) as i8) as i32;
        let dy = (some_u8(field_u8(report, f, 8)) as i8) as i32;
        let dz = (some_u8(field_u8(report, f, 16)) as i8) as i32;
        (
            (if dx != 0 || dy != 0 {
                seq![HidEvent::MouseRelative { dx, dy }]
            } else {
                Seq::empty()
            }) + (if dz != 0 { seq![HidEvent::Scroll { x: dz, y: 0 }] } else { Seq::empty() }),
            b,
        )
    } else if is_button_field(f) {
        let nb = field_buttons_read(report, f);
        if nb != b {
            (seq![HidEvent::Button(nb)], nb)
        } else {
            (Seq::empty(), b)
        }
    } else {
        (Seq::empty(), b)
    }
}

/// The two's-complement value of a byte: 0 to 127 as they are, 128 to 255
/// less 256.
pub open spec fn signed_byte(u: u8) -> int {
    if u < 128 {
        u as int
    } else {
        u - 256
    }
}

proof fn lemma_byte_as_i8(u: u8)
    ensures
        (u as i8) as i32 == signed_byte(u),
{
    assert(((u as i8) as i32) == (if u < 128 { u as int } else { (u as int) - 256 })) by (bit_vector);
}

/// A mouse field moves the pointer by its first two bytes and scrolls by its
/// third, each read as a signed byte (so 0xFF is one step back), and gives
/// no motion or scroll event where they are zero.
pub proof fn lemma_mouse_motion_signed(report: Seq<u8>, f: InputField, b: Buttons)
    requires
        is_variable(f),
        !is_modifier_field(f),
        !is_touch_field(f),
        is_mouse_field(f),
    ensures
        ({
            let dx = signed_byte(some_u8(field_u8(report, f, 0)));
            let dy = signed_byte(some_u8(field_u8(report, f, 8)));
            let dz = signed_byte(some_u8(field_u8(report, f, 16)));
            field_events(report, f, b) == ((if dx != 0 || dy != 0 {
                seq![HidEvent::MouseRelative { dx: dx as i32, dy: dy as i32 }]
            } else {
                Seq::empty()
            }) + (if dz != 0 { seq![HidEvent::Scroll { x: dz as i32, y: 0 }] } else { Seq::empty() }), b)
        }),
{
    lemma_byte_as_i8(some_u8(field_u8(report, f, 0)));
    lemma_byte_as_i8(some_u8(field_u8(report, f, 8)));
    lemma_byte_as_i8(some_u8(field_u8(report, f, 16)));
}

/// The keys held in `report` by the input fields `fields`.
pub open spec fn report_keys(report: Seq<u8>, fields: Seq<InputField>) -> Seq<KeyUsage>
    decreases fields.len(),
{
    if fields.len() == 0 {
        Seq::empty()
    } else {
        report_keys(report, fields.drop_last()) + field_keys(report, fields.last())
    }
}

/// The events `report` gives through `fields`, with the buttons last
/// reported `b`, and the buttons reported after it.
pub open spec fn report_events(report: Seq<u8>, fields: Seq<InputField>, b: Buttons) -> (Seq<HidEvent>, Buttons)
    decreases fields.len(),
{
    if fields.len() == 0 {
        (Seq::empty(), b)
    } else {
        let (ev, b1) = report_events(report, fields.drop_last(), b);
        let (ev2, b2) = field_events(report, fields.last(), b1);
        (ev + ev2, b2)
    }
}

/// What a report says: the keys it holds, the events to send, and the
/// buttons it reports.
#[derive(Clone, Debug)]
pub struct ReportOutcome {
    pub keys: Vec<KeyUsage>,
    pub events: Vec<HidEvent>,
    pub buttons: Buttons,
}

fn read_field_u8(report: &[u8], f: &InputField, bit: usize) -> (r: u8)
    requires
        f.bit_offset + f.bit_length + 32 <= usize::MAX,
        bit <= 24,
        field_u8(report@, *f, bit as int) is Some,
    ensures
        r == some_u8(field_u8(report@, *f, bit as int)),
{
    let view = BinaryView::new(report, f.bit_offset as usize, f.bit_length as usize);
    match view.read_u8(bit) {
        Some(v) => v,
        None => 0,
    }
}

fn read_field_bit(report: &[u8], f: &InputField, bit: usize) -> (r: bool)
    requires
        f.bit_offset + f.bit_length + 32 <= usize::MAX,
        bit <= 24,
        field_bit(report@, *f, bit as int) is Some,
    ensures
        r == some_bool(field_bit(report@, *f, bit as int)),
{
    let view = BinaryView::new(report, f.bit_offset as usize, f.bit_length as usize);
    match view.get(bit) {
        Some(v) => v,
        None => false,
    }
}

/// The keys field `f` of `report` holds down.
fn field_keys_exec(report: &[u8], f: &InputField) -> (r: Vec<KeyUsage>)
    requires
        field_readable(report@, *f),
    ensures
        r@ == field_keys(report@, *f),
{
    let mut keys: Vec<KeyUsage> = Vec::new();
    if f.flags & MAIN_ITEM_FLAG_VARIABLE != 0 {
        let modifier = f.global.report_count == Some(8u32) && f.global.report_size == Some(1u32)
            && f.global.usage_page == Some(7u32) && f.local.usage_min == Some(224u32) && f.local.usage_max
            == Some(231u32) && f.global.logical_min == Some(0u32) && f.global.logical_max == Some(1u32);
        if modifier {
            let bits = read_field_u8(report, f, 0);
            let mut bit: u8 = 0;
            while bit < 8
                invariant
                    bit <= 8,
                    keys@ == modifier_keys(bits, bit as nat),
                decreases 8 - bit,
            {
                if bits & (1u8 << bit) != 0 {
                    keys.push(KeyUsage { page: 7, usage: 0xE0 + bit });
                }
                bit = bit + 1;
            }
        }
    } else {
        match (f.global.report_size, f.global.report_count) {
            (Some(8u32), Some(count)) => {
                let page = match f.global.usage_page {
                    Some(p) => p,
                    None => 0,
                };
                let mut i: u32 = 0;
                while i < count
                    invariant
                        i <= count,
                        f.global.report_count == Some(count),
                        f.global.report_size == Some(8u32),
                        page == (match f.global.usage_page { Some(p) => p, None => 0 }),
                        f.bit_offset + count * 8 + 8 <= usize::MAX,
                        forall|j: int| 0 <= j < count ==> #[trigger] array_usage(report@, *f, j) is Some,
                        keys@ == array_keys(report@, *f, i as nat),
                    decreases count - i,
                {
                    assert(array_usage(report@, *f, i as int) is Some);
                    assert(i * 8 <= count * 8) by (nonlinear_arith)
                        requires
                            i <= count,
                    ;
                    let at = f.bit_offset as usize + (i as usize) * 8;
                    let view = BinaryView::new(report, at, 8);
                    let u = match view.read_u8(0) {
                        Some(v) => v,
                        None => 0,
                    };
                    if u != 0 {
                        keys.push(KeyUsage { page, usage: u });
                    }
                    i = i + 1;
                }
            },
            _ => {},
        }
    }
    keys
}

/// The events field `f` of `report` gives, and the buttons it leaves.
fn field_events_exec(report: &[u8], f: &InputField, b: Buttons) -> (r: (Vec<HidEvent>, Buttons))
    requires
        field_readable(report@, *f),
    ensures
        (r.0@, r.1) == field_events(report@, *f, b),
{
    let mut events: Vec<HidEvent> = Vec::new();
    if f.flags & MAIN_ITEM_FLAG_VARIABLE == 0 {
        return (events, b);
    }
    let size = f.global.report_size;
    let count = f.global.report_count;
    let page = f.global.usage_page;
    let modifier = count == Some(8u32) && size == Some(1u32) && page == Some(7u32) && f.local.usage_min == Some(
        224u32,
    ) && f.local.usage_max == Some(231u32) && f.global.logical_min == Some(0u32) && f.global.logical_max == Some(
        1u32,
    );
    if modifier {
        (events, b)
    } else if count == Some(2u32) && size == Some(16u32) && page == Some(1u32) {
        let x0 = read_field_u8(report, f, 0);
        let x1 = read_field_u8(report, f, 8);
        let y0 = read_field_u8(report, f, 16);
        let y1 = read_field_u8(report, f, 24);
        let raw_x = x0 as u16 + 256 * (x1 as u16);
        let raw_y = y0 as u16 + 256 * (y1 as u16);
        let x = raw_x * 2;
        let y = raw_y * 2;
        if x != 0 || y != 0 {
            events.push(HidEvent::Mouse { x: x as i32, y: y as i32 });
        }
        (events, b)
    } else if count == Some(3u32) && size == Some(8u32) && page == Some(1u32) {
        let dx = read_field_u8(report, f, 0) as i8 as i32;
        let dy = read_field_u8(report, f, 8) as i8 as i32;
        let dz = read_field_u8(report, f, 16) as i8 as i32;
        if dx != 0 || dy != 0 {
            events.push(HidEvent::MouseRelative { dx, dy });
        }
        if dz != 0 {
            events.push(HidEvent::Scroll { x: dz, y: 0 });
        }
        proof {
            let e1 = if dx != 0 || dy != 0 {
                seq![HidEvent::MouseRelative { dx, dy }]
            } else {
                Seq::<HidEvent>::empty()
            };
            let e2 = if dz != 0 { seq![HidEvent::Scroll { x: dz, y: 0 }] } else { Seq::<HidEvent>::empty() };
            assert(events@ =~= e1 + e2);
        }
        (events, b)
    } else if count == Some(3u32) && size == Some(1u32) && page == Some(9u32) {
        let nb = Buttons {
            left: read_field_bit(report, f, 0),
            right: read_field_bit(report, f, 1),
            middle: read_field_bit(report, f, 2),
        };
        if nb.left != b.left || nb.right != b.right || nb.middle != b.middle {
            events.push(HidEvent::Button(nb));
            (events, nb)
        } else {
            (events, b)
        }
    } else {
        (events, b)
    }
}

/// Reads a report through its input fields: the keys it holds, and the
/// pointer, wheel and button events to send given the buttons last
/// reported `buttons`.
pub fn process_report(fields: &[InputField], report: &[u8], buttons: Buttons) -> (r: ReportOutcome)
    requires
        forall|i: int| 0 <= i < fields@.len() ==> field_readable(report@, #[trigger] fields@[i]),
    ensures
        r.keys@ == report_keys(report@, fields@),
        (r.events@, r.buttons) == report_events(report@, fields@, buttons),
{
    let mut keys: Vec<KeyUsage> = Vec::new();
    let mut events: Vec<HidEvent> = Vec::new();
    let mut b = buttons;
    let mut i: usize = 0;
    while i < fields.len()
        invariant
            i <= fields@.len(),
            forall|j: int| 0 <= j < fields@.len() ==> field_readable(report@, #[trigger] fields@[j]),
            keys@ == report_keys(report@, fields@.take(i as int)),
            (events@, b) == report_events(report@, fields@.take(i as int), buttons),
        decreases fields@.len() - i,
    {
        let f = &fields[i];
        assert(field_readable(report@, fields@[i as int]));
        assert(fields@.take(i + 1).drop_last() =~= fields@.take(i as int));
        assert(fields@.take(i + 1).last() == fields@[i as int]);
        let mut k = field_keys_exec(report, f);
        keys.append(&mut k);
        let (mut ev, nb) = field_events_exec(report, f, b);
        events.append(&mut ev);
        b = nb;
        i = i + 1;
    }
    assert(fields@.take(fields@.len() as int) =~= fields@);
    ReportOutcome { keys, events, buttons: b }
}

/// The number of items of a nested item, itself included.
pub open spec fn item_size(it: ReportIterItem) -> nat
    decreases it,
{
    match it {
        ReportIterItem::Item(_) => 1,
        ReportIterItem::Collection(_, c) => 1 + forest_size(c@),
    }
}

/// The number of items of a sequence of nested items.
pub open spec fn forest_size(s: Seq<ReportIterItem>) -> nat
    decreases s,
{
    if s.len() == 0 {
        0
    } else {
        forest_size(s.drop_last()) + item_size(s.last())
    }
}

pub proof fn lemma_forest_size_concat(a: Seq<ReportIterItem>, b: Seq<ReportIterItem>)
    ensures
        forest_size(a + b) == forest_size(a) + forest_size(b),
    decreases b.len(),
{
    if b.len() == 0 {
        assert(a + b =~= a);
    } else {
        lemma_forest_size_concat(a, b.drop_last());
        assert((a + b).drop_last() =~= a + b.drop_last());
        assert((a + b).last() == b.last());
    }
}

pub proof fn lemma_forest_size_first(s: Seq<ReportIterItem>)
    requires
        s.len() > 0,
    ensures
        forest_size(s) == item_size(s[0]) + forest_size(s.drop_first()),
        item_size(s[0]) >= 1,
{
    let one = seq![s[0]];
    lemma_forest_size_concat(one, s.drop_first());
    assert(one + s.drop_first() =~= s);
    assert(one.drop_last() =~= Seq::<ReportIterItem>::empty());
    assert(forest_size(one) == forest_size(one.drop_last()) + item_size(one.last()));
    assert(forest_size(Seq::<ReportIterItem>::empty()) == 0);
    match s[0] {
        ReportIterItem::Item(_) => {},
        ReportIterItem::Collection(_, c) => {},
    }
}

/// A local item that the driver cannot apply.
pub open spec fn is_delimiter(i: ReportItem) -> bool {
    i matches ReportItem::Local(LocalItem::Delimeter(_))
}

/// The main items found from the queue `q` of nested items on, breadth
/// first: the items of a collection are visited in order and its nested
/// collections are queued after everything queued so far. Global and local
/// items update the states that each main item is taken with (the local
/// state starts afresh after a main item); `None` where a Pop finds no
/// pushed state or a Delimiter item comes.
pub open spec fn walk_items(
    q: Seq<ReportIterItem>,
    g: GlobalItemsState,
    stack: Seq<GlobalItemsState>,
    l: LocalItemsState,
) -> Option<Seq<ReportMainItem>>
    decreases forest_size(q),
{
    if q.len() == 0 {
        Some(Seq::empty())
    } else {
        let rest = q.drop_first();
        proof {
            lemma_forest_size_first(q);
        }
        match q[0] {
            ReportIterItem::Item(i) => match i {
                ReportItem::Global(_) => match spec_global_step(g, stack, i) {
                    Some((g2, s2)) => walk_items(rest, g2, s2, l),
                    None => None,
                },
                ReportItem::Main(m) => match walk_items(rest, g, stack, spec_empty_local_state()) {
                    Some(t) => Some(seq![ReportMainItem { global: g, local: l, item: m }] + t),
                    None => None,
                },
                ReportItem::Local(_) => if is_delimiter(i) {
                    None
                } else {
                    walk_items(rest, g, stack, spec_local_step(l, i))
                },
            },
            ReportIterItem::Collection(_, c) => {
                proof {
                    lemma_forest_size_concat(rest, c@);
                }
                walk_items(rest + c@, g, stack, l)
            },
        }
    }
}

/// The first application collection (kind 1) among the top-level items
/// `items`, with the global state and stack in effect there; the items
/// before it update the states, and other collections are passed over.
/// `None` where there is none, or a Pop or Delimiter item stops the driver
/// first.
pub open spec fn find_application(
    items: Seq<ReportIterItem>,
    g: GlobalItemsState,
    stack: Seq<GlobalItemsState>,
    l: LocalItemsState,
) -> Option<(Seq<ReportIterItem>, GlobalItemsState, Seq<GlobalItemsState>)>
    decreases items.len(),
{
    if items.len() == 0 {
        None
    } else {
        match items[0] {
            ReportIterItem::Item(i) => if is_delimiter(i) {
                None
            } else {
                match spec_global_step(g, stack, i) {
                    Some((g2, s2)) => find_application(items.drop_first(), g2, s2, spec_local_step(l, i)),
                    None => None,
                }
            },
            ReportIterItem::Collection(n, c) => if n == 1 {
                Some((c@, g, stack))
            } else {
                find_application(items.drop_first(), g, stack, spec_empty_local_state())
            },
        }
    }
}

/// The main items of the application collection of a report descriptor
/// with the item states in effect for each, as the HID driver collects
/// them before reading reports.
pub open spec fn spec_application_items(desc: Seq<ReportIterItem>) -> Option<Seq<ReportMainItem>> {
    match find_application(desc, spec_empty_global_state(), Seq::empty(), spec_empty_local_state()) {
        Some((c, g, stack)) => walk_items(c, g, stack, spec_empty_local_state()),
        None => None,
    }
}

/// Collects the main items of the application collection of a nested
/// report descriptor, or `None` where the driver would stop: no application
/// collection, a Pop without a pushed state, or a Delimiter item.
pub fn application_items(desc: &[ReportIterItem]) -> (r: Option<Vec<ReportMainItem>>)
    ensures
        match spec_application_items(desc@) {
            Some(s) => r matches Some(v) && v@ == s,
            None => r is None,
        },
{
    let mut g = GlobalItemsState::default();
    let mut l = LocalItemsState::default();
    let mut stack: Vec<GlobalItemsState> = Vec::new();
    let mut i: usize = 0;
    let mut app: Option<&Vec<ReportIterItem>> = None;
    assert(desc@.skip(0) =~= desc@);
    while i < desc.len()
        invariant_except_break
            i <= desc@.len(),
            app is None,
            find_application(desc@, spec_empty_global_state(), Seq::empty(), spec_empty_local_state())
                == find_application(desc@.skip(i as int), g, stack@, l),
        ensures
            match find_application(desc@, spec_empty_global_state(), Seq::empty(), spec_empty_local_state()) {
                Some((c, g0, s0)) => app matches Some(v) && v@ == c && g == g0 && stack@ == s0,
                None => app is None,
            },
        decreases desc@.len() - i,
    {
        let ghost rest = desc@.skip(i as int);
        assert(rest[0] == desc@[i as int]);
        assert(rest.drop_first() =~= desc@.skip(i + 1));
        match &desc[i] {
            ReportIterItem::Item(item) => {
                let is_delim = match item {
                    ReportItem::Local(LocalItem::Delimeter(_)) => true,
                    _ => false,
                };
                if is_delim {
                    break;
                }
                match update_global_state(&mut g, &mut stack, item) {
                    Ok(()) => {},
                    Err(_) => {
                        break;
                    },
                }
                update_local_state(&mut l, item);
            },
            ReportIterItem::Collection(n, c) => {
                if *n == 1 {
                    app = Some(c);
                    break;
                }
                l = LocalItemsState::default();
            },
        }
        i = i + 1;
    }
    let app = match app {
        Some(c) => c,
        None => {
            return None;
        },
    };
    let mut queue: Vec<&ReportIterItem> = Vec::new();
    let mut k: usize = 0;
    while k < app.len()
        invariant
            k <= app@.len(),
            queue@.len() == k,
            forall|j: int| 0 <= j < k ==> *queue@[j] == app@[j],
        decreases app@.len() - k,
    {
        queue.push(&app[k]);
        k = k + 1;
    }
    let ghost q0: Seq<ReportIterItem> = app@;
    let ghost target = walk_items(q0, g, stack@, spec_empty_local_state());
    let mut l = LocalItemsState::default();
    let mut out: Vec<ReportMainItem> = Vec::new();
    let mut head: usize = 0;
    let ghost mut gq: Seq<ReportIterItem> = q0;
    assert(forall|j: int| 0 <= j < gq.len() ==> gq[j] == *queue@[j]);
    while head < queue.len()
        invariant_except_break
            head <= queue@.len(),
            gq.len() == queue@.len() - head,
            forall|j: int| 0 <= j < gq.len() ==> gq[j] == *queue@[head + j],
            target == match walk_items(gq, g, stack@, l) {
                Some(t) => Some(out@ + t),
                None => None::<Seq<ReportMainItem>>,
            },
        ensures
            match target {
                Some(t) => head >= queue@.len() && out@ == t,
                None => true,
            },
            target is None ==> head < queue@.len(),
        decreases forest_size(gq),
    {
        proof {
            lemma_forest_size_first(gq);
        }
        let it = queue[head];
        assert(*it == gq[0]);
        let ghost rest = gq.drop_first();
        match it {
            ReportIterItem::Item(item) => match item {
                ReportItem::Global(_) => {
                    match update_global_state(&mut g, &mut stack, item) {
                        Ok(()) => {},
                        Err(_) => {
                            break;
                        },
                    }
                    proof {
                        gq = rest;
                    }
                },
                ReportItem::Main(m) => {
                    let ghost before = out@;
                    let ghost l0 = l;
                    out.push(ReportMainItem { global: g, local: l, item: *m });
                    l = LocalItemsState::default();
                    proof {
                        match walk_items(rest, g, stack@, l) {
                            Some(t) => {
                                assert(before + (seq![ReportMainItem { global: g, local: l0, item: *m }]) + t
                                    =~= out@ + t);
                            },
                            None => {},
                        }
                        gq = rest;
                    }
                },
                ReportItem::Local(loc) => {
                    let is_delim = match loc {
                        LocalItem::Delimeter(_) => true,
                        _ => false,
                    };
                    if is_delim {
                        break;
                    }
                    update_local_state(&mut l, item);
                    proof {
                        gq = rest;
                    }
                },
            },
            ReportIterItem::Collection(_, c) => {
                let mut j: usize = 0;
                let ghost qlen = queue@.len();
                while j < c.len()
                    invariant
                        j <= c@.len(),
                        queue@.len() == qlen + j,
                        head < qlen,
                        forall|x: int| 0 <= x < gq.len() ==> gq[x] == *queue@[head + x],
                        forall|x: int| 0 <= x < j ==> *queue@[qlen + x] == c@[x],
                        gq.len() == qlen - head,
                    decreases c@.len() - j,
                {
                    queue.push(&c[j]);
                    j = j + 1;
                }
                proof {
                    lemma_forest_size_concat(rest, c@);
                    gq = rest + c@;
                }
            },
        }
        head = head + 1;
    }
    if head < queue.len() {
        return None;
    }
    Some(out)
}

} // verus!
