use traybridge::registry::{
    decode_command, decode_notify, slot_of_command, ClickKind, CommandError, HostRegistry,
    RegistryError,
};
use traybridge::slots::{SlotStore, MAX_SLOT_ID};

#[test]
fn duplicate_registration_is_a_no_op() {
    let mut reg = HostRegistry::new();
    let mut store = SlotStore::new();
    let first = reg
        .insert_item(&mut store, "org.example.app", String::from(":1.7"), String::from("/Item"))
        .unwrap();
    assert!(first);
    let second = reg
        .insert_item(&mut store, "org.example.app", String::from(":1.7"), String::from("/Item"))
        .unwrap();
    assert!(!second);
    assert_eq!(reg.registered_items(), vec![String::from(":1.7/Item")]);
}

#[test]
fn unregistering_an_unknown_item_is_a_no_op() {
    let mut reg = HostRegistry::new();
    assert!(reg.remove_item(":1.99", "/Nope").is_none());
    assert_eq!(reg.registered_items().len(), 0);
}

#[test]
fn removing_a_registered_item_returns_its_indicator() {
    let mut reg = HostRegistry::new();
    let mut store = SlotStore::new();
    reg.insert_item(&mut store, "a", String::from(":1.1"), String::from("/A"))
        .unwrap();
    reg.insert_item(&mut store, "b", String::from(":1.2"), String::from("/B"))
        .unwrap();
    let ind = reg.remove_item(":1.1", "/A").unwrap();
    assert_eq!(ind.slot_id, 1);
    assert_eq!(reg.registered_items(), vec![String::from(":1.2/B")]);
}

#[test]
fn service_disappearance_retires_all_its_items() {
    let mut reg = HostRegistry::new();
    let mut store = SlotStore::new();
    reg.insert_item(&mut store, "a", String::from(":1.1"), String::from("/A"))
        .unwrap();
    reg.insert_item(&mut store, "b", String::from(":1.1"), String::from("/B"))
        .unwrap();
    reg.insert_item(&mut store, "c", String::from(":1.2"), String::from("/C"))
        .unwrap();
    let removed = reg.handle_service_disappeared(":1.1");
    assert_eq!(removed.len(), 2);
    assert_eq!(removed[0].key.destination, ":1.1");
    assert_eq!(removed[0].key.path, "/A");
    assert_eq!(removed[1].key.path, "/B");
    assert_eq!(reg.registered_items(), vec![String::from(":1.2/C")]);
    // disappearance of an unknown name removes nothing
    assert_eq!(reg.handle_service_disappeared(":1.9").len(), 0);
}

#[test]
fn two_items_sharing_an_identity_conflict_on_the_slot() {
    let mut reg = HostRegistry::new();
    let mut store = SlotStore::new();
    reg.insert_item(&mut store, "same.app", String::from(":1.1"), String::from("/A"))
        .unwrap();
    let err = reg
        .insert_item(&mut store, "same.app", String::from(":1.2"), String::from("/B"))
        .unwrap_err();
    assert_eq!(err, RegistryError::SlotInUse);
}

#[test]
fn slot_lookup_routes_to_the_owner() {
    let mut reg = HostRegistry::new();
    let mut store = SlotStore::new();
    reg.insert_item(&mut store, "a", String::from(":1.1"), String::from("/A"))
        .unwrap();
    reg.insert_item(&mut store, "b", String::from(":1.2"), String::from("/B"))
        .unwrap();
    let item = reg.get_by_slot(2).unwrap();
    assert_eq!(item.key.destination, ":1.2");
    assert!(reg.get_by_slot(9).is_none());
}

#[test]
fn notify_messages_decode_slot_and_click() {
    // slot 3 in the high word, left-button-up code in the low word
    let lparam: u64 = (3 << 16) | 0x0202;
    // x = 640, y = 480 packed in the half-words
    let wparam: u64 = (640 << 16) | 480;
    let ev = decode_notify(wparam, lparam);
    assert_eq!(ev.slot, 3);
    assert_eq!(ev.x, 640);
    assert_eq!(ev.y, 480);
    assert_eq!(ev.kind, ClickKind::Left);
    assert_eq!(decode_notify(0, 0x0205).kind, ClickKind::Right);
    assert_eq!(decode_notify(0, 0x0200).kind, ClickKind::Other);
}

#[test]
fn command_messages_decode_menu_ids() {
    assert_eq!(decode_command(305).unwrap(), 305);
    assert_eq!(slot_of_command(305), 3);
    assert_eq!(
        decode_command((1u64 << 16) | 305).unwrap_err(),
        CommandError::Accelerator
    );
    assert_eq!(
        decode_command((2u64 << 16) | 305).unwrap_err(),
        CommandError::Control
    );
}

#[test]
fn registration_fails_when_slot_ids_run_out() {
    let mut reg = HostRegistry::new();
    let mut store = SlotStore::from_entries(Vec::new(), MAX_SLOT_ID + 1).unwrap();
    let err = reg
        .insert_item(&mut store, "late.app", String::from(":1.1"), String::from("/A"))
        .unwrap_err();
    assert_eq!(err, RegistryError::SlotsExhausted);
    assert_eq!(reg.registered_items().len(), 0);
}
