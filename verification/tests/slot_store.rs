use traybridge::slots::{SlotError, SlotStore, MAX_SLOT_ID};

#[test]
fn slot_ids_are_stable_and_distinct() {
    let mut store = SlotStore::new();
    let a = store.get_or_create("org.example.app").unwrap();
    let b = store.get_or_create("org.example.other").unwrap();
    assert_eq!(a, 1);
    assert_eq!(b, 2);
    assert_ne!(a, b);
    assert_eq!(store.get_or_create("org.example.app").unwrap(), a);
    assert_eq!(store.get_or_create("org.example.other").unwrap(), b);
}

#[test]
fn slot_ids_survive_a_restart() {
    let mut store = SlotStore::new();
    let a = store.get_or_create("org.example.app").unwrap();
    let persisted = store.snapshot().clone();
    let next = store.next_id();

    // a second process instance rebuilt from the same persistent table
    let mut store2 = SlotStore::from_entries(persisted, next).unwrap();
    assert_eq!(store2.get_or_create("org.example.app").unwrap(), a);
    let c = store2.get_or_create("org.example.new").unwrap();
    assert_ne!(c, a);
}

#[test]
fn corrupt_tables_are_rejected() {
    let dup_ident = vec![(String::from("a"), 1u16), (String::from("a"), 2u16)];
    assert_eq!(
        SlotStore::from_entries(dup_ident, 3).unwrap_err(),
        SlotError::Corrupt
    );
    let dup_id = vec![(String::from("a"), 1u16), (String::from("b"), 1u16)];
    assert_eq!(
        SlotStore::from_entries(dup_id, 3).unwrap_err(),
        SlotError::Corrupt
    );
    let unminted = vec![(String::from("a"), 5u16)];
    assert_eq!(
        SlotStore::from_entries(unminted, 3).unwrap_err(),
        SlotError::Corrupt
    );
    assert_eq!(
        SlotStore::from_entries(Vec::new(), 0).unwrap_err(),
        SlotError::Corrupt
    );
}

#[test]
fn minting_stops_when_ids_run_out() {
    let mut store = SlotStore::from_entries(Vec::new(), MAX_SLOT_ID + 1).unwrap();
    assert_eq!(
        store.get_or_create("org.example.app").unwrap_err(),
        SlotError::Full
    );
}
