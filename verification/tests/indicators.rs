use traybridge::icon::NativeIcon;
use traybridge::indicator::{plan_refresh, ActivateAction, Indicator, SecondaryAction};
use traybridge::item::{Pixmap, ToolTip};
use traybridge::tray::{TrayOp, TraySlot};

fn tooltip(title: &str, description: &str) -> ToolTip {
    ToolTip {
        icon_name: String::new(),
        icon_data: Vec::new(),
        title: String::from(title),
        description: String::from(description),
    }
}

fn pixmap(width: i32, height: i32) -> Pixmap {
    Pixmap { width, height, image_data: vec![0; (width * height * 4) as usize] }
}

#[test]
fn needs_attention_selects_the_attention_set() {
    let plan = plan_refresh(
        "NeedsAttention",
        &tooltip("", ""),
        "Title",
        String::from("normal-icon"),
        vec![pixmap(16, 16)],
        String::from("attention-icon"),
        vec![pixmap(32, 32)],
    );
    assert!(plan.attention);
    assert_eq!(plan.icon_name, "attention-icon");
    assert_eq!(plan.pixmap.unwrap().width, 32);
}

#[test]
fn other_statuses_select_the_normal_set() {
    let plan = plan_refresh(
        "Active",
        &tooltip("", ""),
        "Title",
        String::from("normal-icon"),
        vec![pixmap(16, 16)],
        String::from("attention-icon"),
        vec![pixmap(32, 32)],
    );
    assert!(!plan.attention);
    assert_eq!(plan.icon_name, "normal-icon");
    assert_eq!(plan.pixmap.unwrap().width, 16);
}

#[test]
fn icon_name_is_the_fallback_without_pixmaps() {
    let plan = plan_refresh(
        "Active",
        &tooltip("", ""),
        "Title",
        String::from("normal-icon"),
        Vec::new(),
        String::from("attention-icon"),
        Vec::new(),
    );
    assert!(plan.pixmap.is_none());
    assert_eq!(plan.icon_name, "normal-icon");
}

#[test]
fn tooltip_text_composition() {
    let both = plan_refresh(
        "Active",
        &tooltip("App", "doing things"),
        "Plain",
        String::new(),
        Vec::new(),
        String::new(),
        Vec::new(),
    );
    assert_eq!(both.tooltip_text, "App: doing things");
    let title_only = plan_refresh(
        "Active",
        &tooltip("App", ""),
        "Plain",
        String::new(),
        Vec::new(),
        String::new(),
        Vec::new(),
    );
    assert_eq!(title_only.tooltip_text, "App");
    let neither = plan_refresh(
        "Active",
        &tooltip("", "desc"),
        "Plain",
        String::new(),
        Vec::new(),
        String::new(),
        Vec::new(),
    );
    assert_eq!(neither.tooltip_text, "Plain");
}

#[test]
fn menu_only_item_prefers_its_menu_on_activation() {
    let mut ind = Indicator::new(5);
    assert_eq!(ind.activation(true), ActivateAction::RemoteContextMenu);
    assert_eq!(ind.activation(false), ActivateAction::RemoteActivate);
    ind.ensure_menu(true);
    // the menu is built: primary activation shows it, no remote call is made
    assert_eq!(ind.activation(true), ActivateAction::ShowMenu);
    assert_eq!(ind.secondary_activation(), SecondaryAction::ShowMenu);
}

#[test]
fn secondary_activation_without_a_menu_is_forwarded() {
    let ind = Indicator::new(5);
    assert_eq!(
        ind.secondary_activation(),
        SecondaryAction::RemoteSecondaryActivate
    );
}

#[test]
fn menu_bridge_is_created_once() {
    let mut ind = Indicator::new(4);
    ind.ensure_menu(false);
    assert!(ind.menu.is_none());
    ind.ensure_menu(true);
    let mut menu = ind.menu.take().unwrap();
    let id = menu.map_id(9).unwrap();
    assert_eq!(id, 400);
    ind.menu = Some(menu);
    // a later sighting does not rebuild the bridge
    ind.ensure_menu(true);
    assert_eq!(ind.dispatch_menu_command(400), Some(9));
    assert_eq!(ind.dispatch_menu_command(401), None);
}

#[test]
fn dispatch_without_a_menu_is_ignored() {
    let ind = Indicator::new(4);
    assert_eq!(ind.dispatch_menu_command(400), None);
}

fn icon(width: u32, height: u32) -> NativeIcon {
    NativeIcon { width, height, bgra: vec![0; (width * height * 4) as usize] }
}

#[test]
fn tray_update_registers_then_modifies() {
    let mut slot = TraySlot::new(3);
    let (op, released) = slot.update(Some(icon(16, 16)), Some("hello"));
    assert_eq!(op, TrayOp::Add);
    assert!(released.is_none());
    assert_eq!(slot.tooltip, "hello");
    // the second update is a modify; the replaced icon comes back so it can
    // be released after the native call
    let (op2, released2) = slot.update(Some(icon(32, 32)), None);
    assert_eq!(op2, TrayOp::Modify);
    assert_eq!(released2.unwrap().width, 16);
    assert_eq!(slot.tooltip, "hello");
    assert_eq!(slot.icon.as_ref().unwrap().width, 32);
    let (id, last) = slot.release();
    assert_eq!(id, 3);
    assert_eq!(last.unwrap().width, 32);
}

#[test]
fn tray_update_keeps_missing_fields() {
    let mut slot = TraySlot::new(1);
    let (op, _) = slot.update(None, None);
    assert_eq!(op, TrayOp::Add);
    assert!(slot.icon.is_none());
    assert_eq!(slot.tooltip, "");
}
