use wg_element::element::ElementIdRange;

#[test]
fn range_counts() {
    let range = ElementIdRange::new(0x4E, 0xA6);
    assert!(range.contains(0x4E));
    assert!(range.contains(0xA6));
    assert!(!range.contains(0x4D));
    assert!(!range.contains(0xA7));
    assert_eq!(range.slots_count(), 89);
    assert_eq!(range.sub_slots_count(50), 0);
    assert_eq!(range.sub_slots_count(89), 0);
    assert_eq!(range.sub_slots_count(90), 1);
    assert_eq!(range.sub_slots_count(89 + 255), 2);
    assert_eq!(range.full_slots_count(90), 88);
    assert_eq!(range.full_slots_count(10), 89);
}

#[test]
fn sub_slots_count_wraps_to_a_byte() {
    let range = ElementIdRange::new(0, 254);
    // 65535 - 255 = 65280 excess ids, 65280 / 255 + 1 = 257 sub slots.
    assert_eq!(range.sub_slots_count(u16::MAX), 1);
}

#[test]
fn exposed_ids_in_full_slots() {
    let range = ElementIdRange::new(0x4E, 0xA6);
    assert_eq!(range.from_exposed_id(90, 0), (0x4E, None));
    assert_eq!(range.from_exposed_id(90, 87), (0xA5, None));
    assert_eq!(range.to_exposed_id_checked(90, 0xA5), Some(87));
    assert_eq!(range.to_exposed_id(90, 0xA5, || panic!("no sub-id needed")), 87);
}

#[test]
fn exposed_ids_in_sub_slots() {
    let range = ElementIdRange::new(0x4E, 0xA6);
    assert_eq!(range.from_exposed_id(90, 88), (0xA6, Some(0)));
    assert_eq!(range.from_exposed_id(90, 89), (0xA6, Some(1)));
    assert_eq!(range.to_exposed_id_checked(90, 0xA6), None);
    assert_eq!(range.to_exposed_id(90, 0xA6, || 1), 89);
    assert_eq!(range.to_exposed_id(90, 0xA6, || 0), 88);
}

#[test]
fn several_sub_slots_roundtrip() {
    let range = ElementIdRange::new(0, 9);
    // 990 excess ids need 990 / 255 + 1 = 4 sub slots, leaving 6 full ones.
    assert_eq!(range.sub_slots_count(1000), 4);
    assert_eq!(range.full_slots_count(1000), 6);
    assert_eq!(range.from_exposed_id(1000, 999), (9, Some(225)));
    assert_eq!(range.to_exposed_id(1000, 9, || 225), 999);
    for exposed in 0..1000u16 {
        let (elt, sub) = range.from_exposed_id(1000, exposed);
        assert!(range.contains(elt));
        let back = range.to_exposed_id(1000, elt, || sub.expect("sub-id"));
        assert_eq!(back, exposed);
    }
}
