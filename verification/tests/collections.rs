use kernel::collections::SlotList;

#[test]
fn freed_slots_are_reused() {
    let mut list: SlotList<u32> = SlotList::new();
    assert_eq!(list.insert(10), 0);
    assert_eq!(list.insert(11), 1);
    assert_eq!(list.insert(12), 2);
    assert_eq!(list.remove(1), Some(11));
    assert_eq!(list.get(1), None);
    assert_eq!(list.insert(13), 1);
    assert_eq!(list.get(1), Some(&13));
    assert_eq!(list.replace(5, 20), None);
    assert_eq!(list.len(), 6);
    assert_eq!(list.insert(14), 3);
    assert_eq!(list.remove(9), None);
}
