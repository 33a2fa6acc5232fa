use westonite::registry::{RawId, SlotTable};

#[test]
fn stale_id_resolves_none_after_invalidation() {
    let mut t = SlotTable::new();
    let id = t.insert(0x1000);
    assert!(t.resolve(id).is_some());
    t.invalidate_ptr(0x1000).unwrap();
    assert!(t.resolve(id).is_none());
}

#[test]
fn recycled_slot_does_not_resurrect_old_id() {
    let mut t = SlotTable::new();
    let old = t.insert(0x1000);
    t.invalidate_ptr(0x1000).unwrap();
    let new = t.insert(0x1000);
    assert_ne!(old, new);
    assert!(t.resolve(old).is_none());
    assert_eq!(t.resolve(new), Some(0x1000));
}

#[test]
fn invalidate_unknown_ptr_is_noop() {
    let mut t = SlotTable::new();
    assert!(t.invalidate_ptr(0x2000).is_none());
}

#[test]
fn generation_zero_is_never_live() {
    let mut t = SlotTable::new();
    let id = t.insert(0x1000);
    assert_ne!(id.generation, 0);
    let forged = RawId {
        slot: id.slot,
        generation: 0,
    };
    assert!(t.resolve(forged).is_none());
    t.invalidate_ptr(0x1000).unwrap();
    let recycled = t.insert(0x3000);
    assert_ne!(recycled.generation, 0);
    assert!(t.resolve(forged).is_none());
}

#[test]
fn id_of_finds_live_entries_only() {
    let mut t = SlotTable::new();
    let a = t.insert(0x1000);
    let b = t.insert(0x2000);
    assert_eq!(t.id_of(0x2000), Some(b));
    assert_eq!(t.id_of(0x1000), Some(a));
    assert_eq!(t.id_of(0x3000), None);
    assert_eq!(t.live_ids(), vec![a, b]);
    t.invalidate_ptr(0x1000).unwrap();
    assert_eq!(t.id_of(0x1000), None);
    assert_eq!(t.live_ids(), vec![b]);
}

#[test]
fn invalidation_bumps_generation_and_recycles_last_freed_slot() {
    let mut t = SlotTable::new();
    let a = t.insert(0x10);
    let b = t.insert(0x20);
    assert_eq!(a, RawId { slot: 0, generation: 1 });
    assert_eq!(b, RawId { slot: 1, generation: 1 });
    assert_eq!(t.invalidate_ptr(0x10), Some(a));
    assert_eq!(t.invalidate_ptr(0x20), Some(b));
    let c = t.insert(0x30);
    assert_eq!(c, RawId { slot: 1, generation: 2 });
    let d = t.insert(0x40);
    assert_eq!(d, RawId { slot: 0, generation: 2 });
}

#[test]
fn ids_are_never_handed_out_twice() {
    let mut t = SlotTable::new();
    let mut seen: Vec<RawId> = Vec::new();
    for round in 0..50usize {
        let a = t.insert(0x1000 + round);
        let b = t.insert(0x9000 + round);
        assert!(!seen.contains(&a) && !seen.contains(&b) && a != b);
        seen.push(a);
        seen.push(b);
        if round % 3 != 2 {
            t.invalidate_ptr(0x1000 + round);
        }
        if round % 2 == 0 {
            t.invalidate_ptr(0x9000 + round);
        }
    }
}

#[test]
fn insert_leaves_other_ids_alone() {
    let mut t = SlotTable::new();
    let a = t.insert(0x10);
    let b = t.insert(0x20);
    t.invalidate_ptr(0x10);
    let c = t.insert(0x30);
    assert_ne!(c, a);
    assert_eq!(t.resolve(a), None);
    assert_eq!(t.resolve(b), Some(0x20));
    assert_eq!(t.resolve(c), Some(0x30));
}
