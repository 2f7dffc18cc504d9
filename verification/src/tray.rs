//! One native tray slot: the registration state for a single indicator's
//! icon and tooltip. The native calls themselves are issued by the caller;
//! this type decides which call is due (first registration or update), keeps
//! the current icon and tooltip, and hands the replaced icon back so its
//! handle is released only after the native call that stopped referencing
//! it. Removal is owed unconditionally on every destruction path; `release`
//! returns what the final remove call needs.

use crate::icon::NativeIcon;
use vstd::prelude::*;

verus! {

/// Which native call an update translates to.
#[derive(Clone, Copy, Debug, PartialEq, Eq, Structural)]
pub enum TrayOp {
    /// First registration of this slot.
    Add,
    /// Update of an already registered slot.
    Modify,
}

/// The state of one native tray registration.
pub struct TraySlot {
    pub id: u16,
    pub shown: bool,
    pub icon: Option<NativeIcon>,
    pub tooltip: String,
}

impl TraySlot {
    /// An unregistered slot: no native resource exists yet.
    pub fn new(id: u16) -> (r: Self)
        ensures
            r.id == id,
            !r.shown,
            r.icon is None,
            r.tooltip@ == Seq::<char>::empty(),
    {
        TraySlot { id, shown: false, icon: None, tooltip: String::new() }
    }

    /// Applies a first-registration-or-update. Fields not supplied keep
    /// their previous value. The result names the native call that is due
    /// (Add exactly on the first call) and hands back the icon that the
    /// update replaced: the caller must release it only after the native
    /// call, so the native layer never observes a dangling handle.
    pub fn update(&mut self, icon: Option<NativeIcon>, tooltip: Option<&str>) -> (r: (
        TrayOp,
        Option<NativeIcon>,
    ))
        ensures
            final(self).id == old(self).id,
            final(self).shown,
            r.0 == (if old(self).shown {
                TrayOp::Modify
            } else {
                TrayOp::Add
            }),
            match icon {
                Some(_) => final(self).icon == icon && r.1 == old(self).icon,
                None => final(self).icon == old(self).icon && r.1 is None,
            },
            match tooltip {
                Some(t) => final(self).tooltip@ == t@,
                None => final(self).tooltip == old(self).tooltip,
            },
    {
        let op = if self.shown {
            TrayOp::Modify
        } else {
            TrayOp::Add
        };
        if let Some(t) = tooltip {
            self.tooltip = t.to_owned();
        }
        self.shown = true;
        let released = match icon {
            Some(ic) => {
                let old_icon = self.icon.take();
                self.icon = Some(ic);
                old_icon
            },
            None => None,
        };
        (op, released)
    }

    /// Tears the slot down: the caller owes the native remove call for the
    /// returned id (harmless when the slot was never shown) and the release
    /// of the returned icon, in that order.
    pub fn release(self) -> (r: (u16, Option<NativeIcon>))
        ensures
            r.0 == self.id,
            r.1 == self.icon,
    {
        let TraySlot { id, shown: _, icon, tooltip: _ } = self;
        (id, icon)
    }
}

} // verus!
