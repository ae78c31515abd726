use drivers::hid::{descriptor_parsable, report_items, GlobalItemsState, LocalItemsState, MainItem};
use drivers::hid_input::{
    application_items, input_fields, key_changes, process_report, usage_key, Buttons, HidEvent, HidKey, InputField,
    KeyChange, KeyUsage, ReportMainItem,
};

fn global(page: u32, size: u32, count: u32) -> GlobalItemsState {
    GlobalItemsState {
        usage_page: Some(page),
        logical_min: Some(0),
        logical_max: Some(1),
        physical_min: None,
        physical_max: None,
        unit_exponent: None,
        unit: None,
        report_size: Some(size),
        report_id: None,
        report_count: Some(count),
    }
}

fn local(min: Option<u32>, max: Option<u32>) -> LocalItemsState {
    LocalItemsState {
        usage: None,
        usage_min: min,
        usage_max: max,
        desig_idx: None,
        desig_min: None,
        desig_max: None,
        str_idx: None,
        str_min: None,
        str_max: None,
    }
}

fn key(usage: u8) -> KeyUsage {
    KeyUsage { page: 7, usage }
}

#[test]
fn keyboard_usages() {
    assert_eq!(usage_key(7, 0x04), Some(HidKey::A));
    assert_eq!(usage_key(7, 0x27), Some(HidKey::Key0));
    assert_eq!(usage_key(7, 0xE3), Some(HidKey::LeftSuper));
    assert_eq!(usage_key(7, 0xE4), Some(HidKey::Ctrl));
    assert_eq!(usage_key(7, 0x32), None);
    assert_eq!(usage_key(1, 0x04), None);
}

#[test]
fn key_events_between_reports() {
    let last = [key(4), key(5)];
    let pressed = [key(5), key(0xE1), key(6)];
    assert_eq!(
        key_changes(&last, &pressed),
        vec![
            KeyChange { key: key(4), pressed: false, shift: None },
            KeyChange { key: key(0xE1), pressed: true, shift: Some(true) },
            KeyChange { key: key(6), pressed: true, shift: Some(true) },
        ]
    );
    assert!(key_changes(&pressed, &pressed).is_empty());
    assert_eq!(
        key_changes(&[], &[key(9)]),
        vec![KeyChange { key: key(9), pressed: true, shift: Some(false) }]
    );
}

#[test]
fn key_events_leave_the_report_keys_held() {
    let last = [key(4), key(5), key(7)];
    let pressed = [key(5), key(8)];
    let mut held: Vec<KeyUsage> = last.to_vec();
    for c in key_changes(&last, &pressed) {
        if c.pressed {
            held.push(c.key);
        } else {
            held.retain(|k| *k != c.key);
        }
    }
    held.sort_by_key(|k| (k.page, k.usage));
    assert_eq!(held, vec![key(5), key(8)]);
}

fn keyboard_fields() -> Vec<InputField> {
    let items = [
        ReportMainItem { global: global(7, 1, 8), local: local(Some(224), Some(231)), item: MainItem::Input(2) },
        ReportMainItem { global: global(7, 8, 1), local: local(None, None), item: MainItem::Input(1) },
        ReportMainItem { global: global(8, 1, 5), local: local(None, None), item: MainItem::Output(2) },
        ReportMainItem { global: global(7, 8, 6), local: local(Some(0), Some(101)), item: MainItem::Input(0) },
    ];
    let (fields, bytes) = input_fields(&items);
    assert_eq!(bytes, 8);
    fields
}

#[test]
fn input_layout() {
    let fields = keyboard_fields();
    assert_eq!(fields.len(), 3);
    assert_eq!((fields[0].bit_offset, fields[0].bit_length, fields[0].flags), (0, 8, 2));
    assert_eq!((fields[1].bit_offset, fields[1].bit_length), (8, 8));
    assert_eq!((fields[2].bit_offset, fields[2].bit_length), (16, 48));
    let (none, bytes) = input_fields(&[]);
    assert!(none.is_empty());
    assert_eq!(bytes, 0);
}

#[test]
fn keyboard_report() {
    let fields = keyboard_fields();
    let off = Buttons { left: false, right: false, middle: false };
    let out = process_report(&fields, &[0x02, 0, 0x04, 0x05, 0, 0, 0, 0], off);
    assert_eq!(out.keys, vec![key(0xE1), key(4), key(5)]);
    assert!(out.events.is_empty());
    assert_eq!(out.buttons, off);
}

#[test]
fn mouse_and_touch_reports() {
    let buttons = InputField { bit_length: 3, bit_offset: 0, global: global(9, 1, 3), local: local(None, None), flags: 2 };
    let motion = InputField { bit_length: 24, bit_offset: 8, global: global(1, 8, 3), local: local(None, None), flags: 6 };
    let off = Buttons { left: false, right: false, middle: false };
    let out = process_report(&[buttons, motion], &[0b101, 0x01, 0xFF, 0x02], off);
    let now = Buttons { left: true, right: false, middle: true };
    assert_eq!(
        out.events,
        vec![
            HidEvent::Button(now),
            HidEvent::MouseRelative { dx: 1, dy: -1 },
            HidEvent::Scroll { x: 2, y: 0 },
        ]
    );
    assert_eq!(out.buttons, now);
    let again = process_report(&[buttons], &[0b101], now);
    assert!(again.events.is_empty());
    let touch = InputField { bit_length: 32, bit_offset: 0, global: global(1, 16, 2), local: local(None, None), flags: 2 };
    let out = process_report(&[touch], &[0x10, 0x00, 0x20, 0x00], off);
    assert_eq!(out.events, vec![HidEvent::Mouse { x: 32, y: 64 }]);
    let out = process_report(&[touch], &[0, 0, 0, 0], off);
    assert!(out.events.is_empty());
}

const KEYBOARD: [u8; 45] = [
    0x05, 0x01, 0x09, 0x06, 0xA1, 0x01, 0x05, 0x07, 0x19, 0xE0, 0x29, 0xE7, 0x15, 0x00, 0x25, 0x01,
    0x75, 0x01, 0x95, 0x08, 0x81, 0x02, 0x95, 0x01, 0x75, 0x08, 0x81, 0x01, 0x95, 0x06, 0x75, 0x08,
    0x15, 0x00, 0x25, 0x65, 0x05, 0x07, 0x19, 0x00, 0x29, 0x65, 0x81, 0x00, 0xC0,
];

#[test]
fn keyboard_descriptor_end_to_end() {
    assert!(descriptor_parsable(&KEYBOARD));
    let nested = report_items(&KEYBOARD);
    let items = application_items(&nested).expect("application collection");
    assert_eq!(items.len(), 3);
    assert_eq!(items[0].item, MainItem::Input(2));
    assert_eq!(items[0].local.usage_min, Some(224));
    assert_eq!(items[1].local.usage_min, None);
    assert_eq!(items[2].global.logical_max, Some(0x65));
    let (fields, bytes) = input_fields(&items);
    assert_eq!(bytes, 8);
    let off = Buttons { left: false, right: false, middle: false };
    let out = process_report(&fields, &[0x20, 0, 0x1D, 0, 0, 0, 0, 0], off);
    assert_eq!(out.keys, vec![key(0xE5), key(0x1D)]);
    assert_eq!(usage_key(7, 0x1D), Some(HidKey::Z));
}

#[test]
fn descriptors_the_driver_rejects() {
    // No application collection.
    let nested = report_items(&[0x05, 0x01, 0xA1, 0x02, 0xC0]);
    assert!(application_items(&nested).is_none());
    // A Pop without a Push inside the application collection.
    let nested = report_items(&[0xA1, 0x01, 0xB4, 0xC0]);
    assert!(application_items(&nested).is_none());
}

#[test]
fn input_report_length_limit() {
    let fits = drivers::hid_input::total_input_bits_fit;
    let big = ReportMainItem { global: global(1, 0xFFFF_FFFF, 2), local: local(None, None), item: MainItem::Input(2) };
    assert!(!fits(&[big]));
    let one = ReportMainItem { global: global(1, 0xFFFF_FFFF, 1), local: local(None, None), item: MainItem::Input(2) };
    assert!(fits(&[one]));
    assert!(!fits(&[one, ReportMainItem { global: global(1, 1, 1), local: local(None, None), item: MainItem::Input(0) }]));
    let out = ReportMainItem { global: global(1, 0xFFFF_FFFF, 2), local: local(None, None), item: MainItem::Output(2) };
    assert!(fits(&[out]));
    assert!(fits(&[]));
}
