use traybridge::labels::translate_label;
use traybridge::menu::{build_menu, MenuEntry, MenuItem, ToggleMark};
use traybridge::menu_ids::{MenuError, MenuIdMap};

#[test]
fn access_key_label_translation() {
    assert_eq!(translate_label("_File"), "&File");
    assert_eq!(translate_label("&&"), "&&&&");
    assert_eq!(translate_label("a__b"), "a_b");
}

#[test]
fn access_key_label_edges() {
    assert_eq!(translate_label(""), "");
    assert_eq!(translate_label("_1x"), "1x");
    assert_eq!(translate_label("ab_"), "ab");
    assert_eq!(translate_label("Save _As"), "Save &As");
}

#[test]
fn menu_id_lookup_is_idempotent() {
    let mut ids = MenuIdMap::new(3);
    let a = ids.map_id(42).unwrap();
    assert_eq!(a, 300);
    assert_eq!(ids.map_id(42).unwrap(), a);
    let b = ids.map_id(-7).unwrap();
    assert_eq!(b, 301);
    assert_ne!(a, b);
    assert_eq!(ids.unmap_id(a), Some(42));
    assert_eq!(ids.unmap_id(b), Some(-7));
    assert_eq!(ids.unmap_id(302), None);
}

#[test]
fn menu_ids_confined_to_block() {
    let mut ids = MenuIdMap::new(7);
    for r in 0..100i32 {
        let native = ids.map_id(r).unwrap();
        assert!((700..800).contains(&native));
    }
}

#[test]
fn menu_id_exhaustion_fails_the_build_only() {
    let mut ids = MenuIdMap::new(0);
    for r in 0..100i32 {
        ids.map_id(r).unwrap();
    }
    assert_eq!(ids.map_id(1000).unwrap_err(), MenuError::IdsExhausted);
    // previously assigned ids survive
    assert_eq!(ids.map_id(0).unwrap(), 0);
    assert_eq!(ids.unmap_id(99), Some(99));
}

fn leaf(id: i32) -> MenuItem {
    MenuItem {
        id,
        item_type: None,
        visible: None,
        enabled: None,
        label: None,
        toggle_type: None,
        toggle_state: None,
        children: Vec::new(),
    }
}

#[test]
fn build_menu_translates_the_layout() {
    let mut quit = leaf(11);
    quit.label = Some(String::from("_Quit"));
    quit.enabled = Some(false);

    let mut checked = leaf(12);
    checked.label = Some(String::from("Enabled"));
    checked.toggle_type = Some(String::from("checkmark"));
    checked.toggle_state = Some(1);

    let mut sep = leaf(13);
    sep.item_type = Some(String::from("separator"));

    let mut radio_off = leaf(14);
    radio_off.toggle_type = Some(String::from("radio"));
    radio_off.toggle_state = Some(0);

    let mut sub = leaf(15);
    sub.label = Some(String::from("More"));
    sub.children = vec![radio_off];

    let mut root = leaf(0);
    root.children = vec![quit, sep, checked, sub];

    let mut ids = MenuIdMap::new(2);
    let entries = build_menu(&mut ids, &root).unwrap();
    assert_eq!(entries.len(), 4);

    match &entries[0] {
        MenuEntry::Leaf { command_id, label, enabled, mark } => {
            assert_eq!(*command_id, 200);
            assert_eq!(label, "&Quit");
            assert!(!enabled);
            assert_eq!(*mark, ToggleMark::Plain);
        }
        _ => panic!("expected a command entry"),
    }
    assert!(matches!(entries[1], MenuEntry::Separator));
    match &entries[2] {
        MenuEntry::Leaf { command_id, label, enabled, mark } => {
            assert_eq!(*command_id, 201);
            assert_eq!(label, "Enabled");
            assert!(enabled);
            assert_eq!(*mark, ToggleMark::Checkmark(true));
        }
        _ => panic!("expected a command entry"),
    }
    match &entries[3] {
        MenuEntry::Submenu { label, enabled, entries } => {
            assert_eq!(label, "More");
            assert!(enabled);
            assert_eq!(entries.len(), 1);
            match &entries[0] {
                MenuEntry::Leaf { command_id, mark, .. } => {
                    assert_eq!(*command_id, 202);
                    assert_eq!(*mark, ToggleMark::Radio(false));
                }
                _ => panic!("expected a command entry"),
            }
        }
        _ => panic!("expected a submenu"),
    }

    // rebuilding reuses the same ids for the same remote items
    let mut root2 = leaf(0);
    root2.children = vec![leaf(11)];
    let entries2 = build_menu(&mut ids, &root2).unwrap();
    match &entries2[0] {
        MenuEntry::Leaf { command_id, .. } => assert_eq!(*command_id, 200),
        _ => panic!("expected a command entry"),
    }
}
