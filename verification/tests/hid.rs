use drivers::hid::{
    div_round_up, report_items, update_global_state, update_local_state, BinaryView, GlobalItem,
    GlobalItemsState, LocalItem, LocalItemsState, MainItem, ReportFlatIter, ReportItem,
    ReportIter, ReportIterItem, ReportTy,
};

#[test]
fn binary_view() {
    // 0000 1000 1100 0111
    //  E             S
    let view = BinaryView::new(&[0xC7, 0x08], 3, 11);
    assert_eq!(view.get(0), Some(false));
    assert_eq!(view.get(2), Some(false));
    assert_eq!(view.get(3), Some(true));
    assert_eq!(view.get(7), Some(false));
    assert_eq!(view.get(17), None);

    assert_eq!(view.read_u8(0), Some(0b0001_1000));
    assert_eq!(view.read_u8(1), Some(0b1000_1100));
    assert_eq!(view.read_u8(2), Some(0b0100_0110));
    assert_eq!(view.read_u8(3), Some(0b0010_0011));
    assert_eq!(view.read_u8(7), None);

    //  0000 1000 1100 0111
    // E        S
    let view = BinaryView::new(&[0xC7, 0x08], 8, 8);
    assert_eq!(view.read_u8(0), Some(0b0000_1000));
}

#[test]
fn read_u8_bits_agree_with_get() {
    let data = [0b1011_0110u8, 0b0101_1001, 0xFF];
    let view = BinaryView::new(&data, 2, 20);
    for i in 0..10usize {
        let byte = view.read_u8(i).unwrap();
        for j in 0..8usize {
            assert_eq!(Some(byte & (1 << j) != 0), view.get(i + j));
        }
    }
}

#[test]
fn div_round_up_values() {
    assert_eq!(div_round_up(0, 8), 0);
    assert_eq!(div_round_up(1, 8), 1);
    assert_eq!(div_round_up(8, 8), 1);
    assert_eq!(div_round_up(9, 8), 2);
    assert_eq!(div_round_up(64, 8), 8);
}

// A boot keyboard descriptor, shortened: usage page, usage, application
// collection with modifier bits and a key array, end of collection.
const KEYBOARD: [u8; 24] = [
    0x05, 0x01, // usage page (generic desktop)
    0x09, 0x06, // usage (keyboard)
    0xA1, 0x01, // collection (application)
    0x05, 0x07, //   usage page (keyboard)
    0x19, 0xE0, //   usage minimum
    0x29, 0xE7, //   usage maximum
    0x75, 0x01, //   report size 1
    0x95, 0x08, //   report count 8
    0x81, 0x02, //   input (variable)
    0x95, 0x06, //   report count 6
    0x75, 0x08, //   report size 8
    0xC0, // end collection
    0x00,
];

#[test]
fn flat_items_of_keyboard_descriptor() {
    let mut flat = ReportFlatIter::new(&KEYBOARD[..23]);
    assert_eq!(flat.next(), Some(ReportItem::Global(GlobalItem::UsagePage(1))));
    assert_eq!(flat.next(), Some(ReportItem::Local(LocalItem::Usage(6))));
    assert_eq!(flat.next(), Some(ReportItem::Main(MainItem::Collection(1))));
    assert_eq!(flat.next(), Some(ReportItem::Global(GlobalItem::UsagePage(7))));
    assert_eq!(flat.next(), Some(ReportItem::Local(LocalItem::UsageMinimum(0xE0))));
    assert_eq!(flat.next(), Some(ReportItem::Local(LocalItem::UsageMaximum(0xE7))));
    assert_eq!(flat.next(), Some(ReportItem::Global(GlobalItem::ReportSize(1))));
    assert_eq!(flat.next(), Some(ReportItem::Global(GlobalItem::ReportCount(8))));
    assert_eq!(flat.next(), Some(ReportItem::Main(MainItem::Input(2))));
    assert_eq!(flat.next(), Some(ReportItem::Global(GlobalItem::ReportCount(6))));
    assert_eq!(flat.next(), Some(ReportItem::Global(GlobalItem::ReportSize(8))));
    assert_eq!(flat.next(), Some(ReportItem::Main(MainItem::EndOfCollection)));
    assert_eq!(flat.next(), None);
}

#[test]
fn nesting_of_keyboard_descriptor() {
    let items = report_items(&KEYBOARD[..23]);
    assert_eq!(items.len(), 3);
    assert_eq!(items[0].as_item(), Some(&ReportItem::Global(GlobalItem::UsagePage(1))));
    assert_eq!(items[1].as_item(), Some(&ReportItem::Local(LocalItem::Usage(6))));
    let (kind, children) = items[2].as_collection().unwrap();
    assert_eq!(kind, 1);
    assert_eq!(children.len(), 8);
    assert_eq!(children[5].as_item(), Some(&ReportItem::Main(MainItem::Input(2))));
    assert_eq!(
        children[5].as_item().unwrap().as_main_item().unwrap().report_ty(),
        Some(ReportTy::Input)
    );
}

#[test]
fn unbalanced_end_stops_nesting() {
    // item, end of collection without a collection, item
    let desc = [0x09, 0x01, 0xC0, 0x09, 0x02];
    let mut iter = ReportIter::new(ReportFlatIter::new(&desc));
    assert!(matches!(iter.next(), Some(ReportIterItem::Item(ReportItem::Local(LocalItem::Usage(1))))));
    assert!(iter.next().is_none());
    assert!(iter.error);
    assert!(iter.next().is_none());
}

#[test]
fn open_collection_is_dropped_at_end() {
    let desc = [0x09, 0x01, 0xA1, 0x00, 0x09, 0x02];
    let items = report_items(&desc);
    assert_eq!(items.len(), 1);
}

#[test]
fn push_then_pop_restores_global_state() {
    let mut state = GlobalItemsState::default();
    let mut stack = Vec::new();
    update_global_state(&mut state, &mut stack, &ReportItem::Global(GlobalItem::ReportSize(8))).unwrap();
    let before = state;
    update_global_state(&mut state, &mut stack, &ReportItem::Global(GlobalItem::Push)).unwrap();
    update_global_state(&mut state, &mut stack, &ReportItem::Global(GlobalItem::ReportSize(16))).unwrap();
    assert_eq!(state.report_size, Some(16));
    update_global_state(&mut state, &mut stack, &ReportItem::Global(GlobalItem::Pop)).unwrap();
    assert_eq!(state, before);
    assert!(stack.is_empty());
    assert!(update_global_state(&mut state, &mut stack, &ReportItem::Global(GlobalItem::Pop)).is_err());
    assert_eq!(state, before);
}

#[test]
fn local_state_records_usages() {
    let mut local = LocalItemsState::default();
    update_local_state(&mut local, &ReportItem::Local(LocalItem::UsageMinimum(224)));
    update_local_state(&mut local, &ReportItem::Local(LocalItem::UsageMaximum(231)));
    update_local_state(&mut local, &ReportItem::Main(MainItem::Input(2)));
    assert_eq!(local.usage_min, Some(224));
    assert_eq!(local.usage_max, Some(231));
    assert_eq!(local.usage, None);
}

#[test]
fn descriptor_parsability() {
    assert!(drivers::hid::descriptor_parsable(&[]));
    assert!(drivers::hid::descriptor_parsable(&[0x05, 0x01, 0x09, 0x06, 0xA1, 0x01, 0xC0]));
    assert!(!drivers::hid::descriptor_parsable(&[0x05]));
    assert!(!drivers::hid::descriptor_parsable(&[0xFE, 0x00, 0x00]));
    assert!(!drivers::hid::descriptor_parsable(&[0x05, 0x01, 0x0C]));
}
