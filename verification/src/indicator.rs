//! One live mirrored tray item: its native tray slot, its lazily created
//! menu id map, and the pure decisions of its refresh and click handling.
//! The bus reads, native calls and the signal-driven refresh loop live at
//! the edge; they feed property values in and carry the returned plans and
//! actions out.

use crate::icon::NativeIcon;
use crate::item::{Pixmap, ToolTip};
use crate::menu_ids::{MenuIdMap, MAX_MENU_SLOT};
use crate::text::str_eq;
use crate::tray::{TrayOp, TraySlot};
use vstd::prelude::*;
use vstd::string::StringExecFns;

verus! {

/// The status value on which the attention icon set is preferred.
pub open spec fn needs_attention(status: Seq<char>) -> bool {
    status == "NeedsAttention"@
}

/// The tooltip text shown for an item: "title: description" when the remote
/// tooltip has both, the tooltip title alone when only it is set, and the
/// item's plain title otherwise.
pub open spec fn tooltip_text_spec(
    tt_title: Seq<char>,
    tt_desc: Seq<char>,
    item_title: Seq<char>,
) -> Seq<char> {
    if tt_title.len() > 0 && tt_desc.len() > 0 {
        tt_title + ": "@ + tt_desc
    } else if tt_title.len() > 0 {
        tt_title
    } else {
        item_title
    }
}

/// What one refresh cycle should apply to the native slot.
pub struct RefreshPlan {
    /// Whether the attention icon set was selected.
    pub attention: bool,
    /// The icon name of the selected set, for the icon-lookup collaborator
    /// when no raw pixmap is available.
    pub icon_name: String,
    /// The first pixmap of the selected set, when it offers any (first
    /// available is the selection policy).
    pub pixmap: Option<Pixmap>,
    /// The composed tooltip text.
    pub tooltip_text: String,
}

/// Decides one refresh cycle from the remote item's current properties:
/// when the status asks for attention the attention icon name and pixmaps
/// are preferred over the normal ones, the first offered pixmap wins, and
/// the tooltip text is composed from the tooltip structure with the plain
/// title as fallback.
pub fn plan_refresh(
    status: &str,
    tooltip: &ToolTip,
    title: &str,
    icon_name: String,
    icon_pixmaps: Vec<Pixmap>,
    attention_icon_name: String,
    attention_icon_pixmaps: Vec<Pixmap>,
) -> (r: RefreshPlan)
    ensures
        r.attention == needs_attention(status@),
        r.icon_name@ == (if needs_attention(status@) {
            attention_icon_name@
        } else {
            icon_name@
        }),
        ({
            let chosen = if needs_attention(status@) {
                attention_icon_pixmaps@
            } else {
                icon_pixmaps@
            };
            match r.pixmap {
                Some(p) => chosen.len() > 0 && p == chosen[0],
                None => chosen.len() == 0,
            }
        }),
        r.tooltip_text@ == tooltip_text_spec(tooltip.title@, tooltip.description@, title@),
{
    let attention = str_eq(status, "NeedsAttention");
    let (name, mut pixmaps) = if attention {
        (attention_icon_name, attention_icon_pixmaps)
    } else {
        (icon_name, icon_pixmaps)
    };
    let pixmap = if pixmaps.len() == 0 {
        None
    } else {
        Some(pixmaps.remove(0))
    };
    let tooltip_text = if !tooltip.title.as_str().is_empty() && !tooltip.description.as_str()
        .is_empty() {
        let mut s = tooltip.title.clone();
        s.append(": ");
        s.append(tooltip.description.as_str());
        s
    } else if !tooltip.title.as_str().is_empty() {
        tooltip.title.clone()
    } else {
        title.to_owned()
    };
    RefreshPlan { attention, icon_name: name, pixmap, tooltip_text }
}

/// What a primary activation turns into: show the built context menu,
/// forward a remote context-menu request, or forward a remote activation.
#[derive(Clone, Copy, Debug, PartialEq, Eq, Structural)]
pub enum ActivateAction {
    ShowMenu,
    RemoteContextMenu,
    RemoteActivate,
}

/// A menu-only item shows its menu when one is built and otherwise asks the
/// remote side to show its own; a normal item is activated remotely.
pub open spec fn activation_decision(item_is_menu: bool, has_menu: bool) -> ActivateAction {
    if item_is_menu {
        if has_menu {
            ActivateAction::ShowMenu
        } else {
            ActivateAction::RemoteContextMenu
        }
    } else {
        ActivateAction::RemoteActivate
    }
}

/// What a secondary activation turns into.
#[derive(Clone, Copy, Debug, PartialEq, Eq, Structural)]
pub enum SecondaryAction {
    ShowMenu,
    RemoteSecondaryActivate,
}

/// One live mirrored tray item.
pub struct Indicator {
    pub slot_id: u16,
    pub tray: TraySlot,
    pub menu: Option<MenuIdMap>,
}

impl Indicator {
    /// The tray slot carries the indicator's own id, and the menu id map,
    /// once created, mints from this indicator's reserved block.
    pub open spec fn wf(self) -> bool {
        &&& self.slot_id <= MAX_MENU_SLOT
        &&& self.tray.id == self.slot_id
        &&& match self.menu {
            Some(m) => m.wf() && m.slot() == self.slot_id,
            None => true,
        }
    }

    /// A fresh indicator bound to a native slot id: tray not yet registered,
    /// no menu bridge yet.
    pub fn new(slot_id: u16) -> (r: Self)
        requires
            slot_id <= MAX_MENU_SLOT,
        ensures
            r.wf(),
            r.slot_id == slot_id,
            !r.tray.shown,
            r.menu is None,
    {
        Indicator { slot_id, tray: TraySlot::new(slot_id), menu: None }
    }

    /// Called after each refresh with whether the remote item currently
    /// exposes a menu object path: the id map is created on the first
    /// sighting and deliberately kept as it is on later ones (a changed
    /// menu path does not rebuild the bridge).
    pub fn ensure_menu(&mut self, has_menu_path: bool)
        requires
            old(self).wf(),
        ensures
            final(self).wf(),
            final(self).slot_id == old(self).slot_id,
            final(self).tray == old(self).tray,
            old(self).menu is Some ==> final(self).menu == old(self).menu,
            !has_menu_path ==> final(self).menu == old(self).menu,
            old(self).menu is None && has_menu_path ==> (final(self).menu matches Some(m)
                && m.slot() == old(self).slot_id && m.assigned() == Map::<u16, i32>::empty()),
    {
        if has_menu_path && self.menu.is_none() {
            self.menu = Some(MenuIdMap::new(self.slot_id));
        }
    }

    /// Decides a primary activation for the current menu state.
    pub fn activation(&self, item_is_menu: bool) -> (r: ActivateAction)
        ensures
            r == activation_decision(item_is_menu, self.menu is Some),
    {
        if item_is_menu {
            if self.menu.is_some() {
                ActivateAction::ShowMenu
            } else {
                ActivateAction::RemoteContextMenu
            }
        } else {
            ActivateAction::RemoteActivate
        }
    }

    /// Decides a secondary activation: the menu is preferred when built.
    pub fn secondary_activation(&self) -> (r: SecondaryAction)
        ensures
            r == (if self.menu is Some {
                SecondaryAction::ShowMenu
            } else {
                SecondaryAction::RemoteSecondaryActivate
            }),
    {
        if self.menu.is_some() {
            SecondaryAction::ShowMenu
        } else {
            SecondaryAction::RemoteSecondaryActivate
        }
    }

    /// Resolves a native menu command to the remote id to send an activation
    /// event for. An unknown command id, or one arriving before any menu was
    /// built, yields None and is ignored: a race between menu teardown and a
    /// queued click is expected, not fatal.
    pub fn dispatch_menu_command(&self, native_id: u16) -> (r: Option<i32>)
        requires
            self.wf(),
        ensures
            match r {
                Some(remote_id) => self.menu matches Some(m) && m.assigned().contains_key(
                    native_id,
                ) && m.assigned()[native_id] == remote_id,
                None => match self.menu {
                    Some(m) => !m.assigned().contains_key(native_id),
                    None => true,
                },
            },
    {
        match &self.menu {
            Some(m) => m.unmap_id(native_id),
            None => None,
        }
    }

    /// Applies a refresh result to the native slot; see TraySlot::update for
    /// the handle-release ordering the caller owes.
    pub fn apply_refresh(&mut self, icon: Option<NativeIcon>, tooltip_text: Option<&str>) -> (r: (
        TrayOp,
        Option<NativeIcon>,
    ))
        requires
            old(self).wf(),
        ensures
            final(self).wf(),
            final(self).slot_id == old(self).slot_id,
            final(self).menu == old(self).menu,
            final(self).tray.shown,
            r.0 == (if old(self).tray.shown {
                TrayOp::Modify
            } else {
                TrayOp::Add
            }),
            match icon {
                Some(_) => final(self).tray.icon == icon && r.1 == old(self).tray.icon,
                None => final(self).tray.icon == old(self).tray.icon && r.1 is None,
            },
            match tooltip_text {
                Some(t) => final(self).tray.tooltip@ == t@,
                None => final(self).tray.tooltip == old(self).tray.tooltip,
            },
    {
        self.tray.update(icon, tooltip_text)
    }

    /// Tears the indicator down; the caller owes the native remove call and
    /// the icon release, in that order.
    pub fn release(self) -> (r: (u16, Option<NativeIcon>))
        ensures
            r.0 == self.tray.id,
            r.1 == self.tray.icon,
    {
        let Indicator { slot_id: _, tray, menu: _ } = self;
        tray.release()
    }
}

} // verus!
