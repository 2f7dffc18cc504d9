//! The host registry: the authoritative set of live indicators, keyed by
//! the remote item's identity (bus destination plus object path), together
//! with the decoding of native UI messages back to indicators. Every live
//! indicator owns a distinct native slot id, so a native command id resolves
//! to exactly one indicator.

use crate::indicator::Indicator;
use crate::menu_ids::MENU_IDS_PER_APP;
use crate::slots::{SlotError, SlotStore, MAX_SLOT_ID};
use crate::text::str_eq;
use vstd::prelude::*;
use vstd::string::StringExecFns;

verus! {

/// The identity of a remote tray item: bus destination name and object
/// path. Two items with the same destination and path are the same item.
pub struct IndicatorId {
    pub destination: String,
    pub path: String,
}

/// One live registration: the item's identity and its mirrored indicator.
pub struct RegisteredItem {
    pub key: IndicatorId,
    pub indicator: Indicator,
}

#[derive(Clone, Copy, Debug, PartialEq, Eq, Structural)]
pub enum RegistryError {
    /// The slot store has no id left to mint.
    SlotsExhausted,
    /// The identity's slot id is already used by another live indicator
    /// (two distinct items registered under one application identity).
    SlotInUse,
}

/// Pairwise distinctness of keys and of slot ids.
pub open spec fn rows_distinct(rows: Seq<RegisteredItem>) -> bool {
    &&& forall|i: int, j: int|
        0 <= i < j < rows.len() ==> !((#[trigger] rows[i]).key.destination@ == (
        #[trigger] rows[j]).key.destination@ && rows[i].key.path@ == rows[j].key.path@)
    &&& forall|i: int, j: int|
        0 <= i < j < rows.len() ==> (#[trigger] rows[i]).indicator.slot_id != (
        #[trigger] rows[j]).indicator.slot_id
}

/// The registrations that survive the disappearance of a bus name: every
/// item whose destination is another name, in order.
pub open spec fn retained(rows: Seq<RegisteredItem>, service: Seq<char>) -> Seq<RegisteredItem>
    decreases rows.len(),
{
    if rows.len() == 0 {
        Seq::empty()
    } else if rows[0].key.destination@ == service {
        retained(rows.drop_first(), service)
    } else {
        seq![rows[0]] + retained(rows.drop_first(), service)
    }
}

/// The registrations removed by the disappearance of a bus name, in order.
pub open spec fn dropped(rows: Seq<RegisteredItem>, service: Seq<char>) -> Seq<RegisteredItem>
    decreases rows.len(),
{
    if rows.len() == 0 {
        Seq::empty()
    } else if rows[0].key.destination@ == service {
        seq![rows[0]] + dropped(rows.drop_first(), service)
    } else {
        dropped(rows.drop_first(), service)
    }
}

/// The registry of live indicators.
pub struct HostRegistry {
    items: Vec<RegisteredItem>,
}

impl HostRegistry {
    /// The registrations, in insertion order.
    pub closed spec fn rows(self) -> Seq<RegisteredItem> {
        self.items@
    }

    /// Whether an item with this identity is registered.
    pub open spec fn contains_key(self, dest: Seq<char>, path: Seq<char>) -> bool {
        exists|k: int|
            0 <= k < self.rows().len() && (#[trigger] self.rows()[k]).key.destination@ == dest
                && self.rows()[k].key.path@ == path
    }

    /// The index of the item with this identity (meaningful when present).
    pub open spec fn index_of_key(self, dest: Seq<char>, path: Seq<char>) -> int {
        choose|k: int|
            0 <= k < self.rows().len() && (#[trigger] self.rows()[k]).key.destination@ == dest
                && self.rows()[k].key.path@ == path
    }

    /// Whether some live indicator owns this slot id.
    pub open spec fn contains_slot(self, slot: u16) -> bool {
        exists|k: int|
            0 <= k < self.rows().len() && (#[trigger] self.rows()[k]).indicator.slot_id == slot
    }

    /// The index of the indicator owning this slot id (meaningful when
    /// contains_slot).
    pub open spec fn index_of_slot(self, slot: u16) -> int {
        choose|k: int|
            0 <= k < self.rows().len() && (#[trigger] self.rows()[k]).indicator.slot_id == slot
    }

    /// Keys are distinct, slot ids are distinct, and every indicator is
    /// well formed.
    pub open spec fn wf(self) -> bool {
        &&& rows_distinct(self.rows())
        &&& forall|k: int| 0 <= k < self.rows().len() ==> (#[trigger] self.rows()[k]).indicator.wf()
    }

    /// An empty registry.
    pub fn new() -> (r: Self)
        ensures
            r.wf(),
            r.rows().len() == 0,
    {
        HostRegistry { items: Vec::new() }
    }

    /// Registers a new item. A second registration of an already registered
    /// identity is not an error and replaces nothing: it returns false and
    /// leaves every state untouched. Otherwise the slot store assigns the
    /// application identity its stable slot id (minting one on first
    /// sight), and the item is added with a fresh indicator on that slot.
    /// A slot id already owned by another live indicator is refused.
    #[verifier::loop_isolation(false)]
    pub fn insert_item(
        &mut self,
        store: &mut SlotStore,
        app_id: &str,
        destination: String,
        path: String,
    ) -> (r: Result<bool, RegistryError>)
        requires
            old(self).wf(),
            old(store).wf(),
        ensures
            final(self).wf(),
            final(store).wf(),
            match r {
                Ok(true) => {
                    &&& !old(self).contains_key(destination@, path@)
                    &&& SlotStore::lookup_ok(
                        *old(store),
                        *final(store),
                        app_id@,
                        final(self).rows().last().indicator.slot_id,
                    )
                    &&& final(self).rows().len() == old(self).rows().len() + 1
                    &&& final(self).rows().take(old(self).rows().len() as int) == old(self).rows()
                    &&& final(self).rows().last().key.destination@ == destination@
                    &&& final(self).rows().last().key.path@ == path@
                    &&& !final(self).rows().last().indicator.tray.shown
                    &&& final(self).rows().last().indicator.menu is None
                },
                Ok(false) => {
                    &&& old(self).contains_key(destination@, path@)
                    &&& final(self).rows() == old(self).rows()
                    &&& *final(store) == *old(store)
                },
                Err(RegistryError::SlotsExhausted) => {
                    &&& !old(self).contains_key(destination@, path@)
                    &&& SlotStore::lookup_full(*old(store), *final(store), app_id@)
                    &&& final(self).rows() == old(self).rows()
                },
                Err(RegistryError::SlotInUse) => {
                    &&& !old(self).contains_key(destination@, path@)
                    &&& final(self).rows() == old(self).rows()
                    &&& exists|id: u16|
                        #[trigger] SlotStore::lookup_ok(*old(store), *final(store), app_id@, id)
                            && old(self).contains_slot(id)
                },
            },
    {
        let n = self.items.len();
        let mut k: usize = 0;
        while k < n
            invariant
                k <= n,
                forall|m: int|
                    0 <= m < k ==> !((#[trigger] self.rows()[m]).key.destination@ == destination@
                        && self.rows()[m].key.path@ == path@),
            decreases n - k,
        {
            if str_eq(self.items[k].key.destination.as_str(), destination.as_str()) && str_eq(
                self.items[k].key.path.as_str(),
                path.as_str(),
            ) {
                return Ok(false);
            }
            k = k + 1;
        }
        assert(!self.contains_key(destination@, path@));
        let slot = match store.get_or_create(app_id) {
            Ok(id) => id,
            Err(SlotError::Full) => {
                return Err(RegistryError::SlotsExhausted);
            },
            Err(SlotError::Corrupt) => {
                return Err(RegistryError::SlotsExhausted);
            },
        };
        let mut k2: usize = 0;
        while k2 < n
            invariant
                k2 <= n,
                forall|m: int| 0 <= m < k2 ==> (#[trigger] self.rows()[m]).indicator.slot_id != slot,
            decreases n - k2,
        {
            if self.items[k2].indicator.slot_id == slot {
                proof {
                    assert(self.contains_slot(slot));
                    assert(SlotStore::lookup_ok(*old(store), *store, app_id@, slot)
                        && old(self).contains_slot(slot));
                }
                return Err(RegistryError::SlotInUse);
            }
            k2 = k2 + 1;
        }
        let indicator = Indicator::new(slot);
        self.items.push(RegisteredItem { key: IndicatorId { destination, path }, indicator });
        Ok(true)
    }

    /// Removes the item with this identity, handing its indicator back for
    /// resource release. An unknown identity is a no-op: nothing is removed
    /// and None says so.
    #[verifier::loop_isolation(false)]
    pub fn remove_item(&mut self, destination: &str, path: &str) -> (r: Option<Indicator>)
        requires
            old(self).wf(),
        ensures
            final(self).wf(),
            match r {
                Some(ind) => {
                    &&& old(self).contains_key(destination@, path@)
                    &&& ({
                        let i = old(self).index_of_key(destination@, path@);
                        &&& ind == old(self).rows()[i].indicator
                        &&& final(self).rows() == old(self).rows().subrange(0, i) + old(
                            self,
                        ).rows().skip(i + 1)
                    })
                },
                None => {
                    &&& !old(self).contains_key(destination@, path@)
                    &&& final(self).rows() == old(self).rows()
                },
            },
    {
        let n = self.items.len();
        let mut k: usize = 0;
        while k < n
            invariant
                self.rows() == old(self).rows(),
                n == self.rows().len(),
                k <= n,
                forall|m: int|
                    0 <= m < k ==> !((#[trigger] self.rows()[m]).key.destination@ == destination@
                        && self.rows()[m].key.path@ == path@),
            decreases n - k,
        {
            if str_eq(self.items[k].key.destination.as_str(), destination) && str_eq(
                self.items[k].key.path.as_str(),
                path,
            ) {
                let ghost i = self.index_of_key(destination@, path@);
                proof {
                    assert(self.contains_key(destination@, path@));
                    assert(self.rows()[i].key.destination@ == destination@ && self.rows()[i].key.path@
                        == path@);
                    if i != k as int {
                        assert(false);
                    }
                }
                let item = self.items.remove(k);
                return Some(item.indicator);
            }
            k = k + 1;
        }
        None
    }

    /// Removes every item whose destination is the disappeared bus name and
    /// returns the removed registrations, in order, so the caller can
    /// release each indicator's native resources and signal each
    /// unregistration.
    #[verifier::loop_isolation(false)]
    pub fn handle_service_disappeared(&mut self, service: &str) -> (r: Vec<RegisteredItem>)
        requires
            old(self).wf(),
        ensures
            final(self).wf(),
            final(self).rows() == retained(old(self).rows(), service@),
            r@ == dropped(old(self).rows(), service@),
    {
        let mut kept: Vec<RegisteredItem> = Vec::new();
        let mut removed: Vec<RegisteredItem> = Vec::new();
        proof {
            assert(kept@ + self.rows() =~= self.rows());
        }
        while self.items.len() > 0
            invariant
                rows_distinct(kept@ + self.rows()),
                forall|k: int|
                    0 <= k < (kept@ + self.rows()).len() ==> (#[trigger] (kept@ + self.rows())[k]).indicator.wf(),
                retained(old(self).rows(), service@) == kept@ + retained(self.rows(), service@),
                dropped(old(self).rows(), service@) == removed@ + dropped(self.rows(), service@),
            decreases self.items.len(),
        {
            let ghost t = self.rows();
            let ghost kept0 = kept@;
            let ghost removed0 = removed@;
            let item = self.items.remove(0);
            proof {
                assert(self.rows() =~= t.drop_first());
                assert(t[0] == item);
            }
            if str_eq(item.key.destination.as_str(), service) {
                removed.push(item);
                proof {
                    assert(removed@ =~= removed0 + seq![t[0]]);
                    assert(removed0 + (seq![t[0]] + dropped(t.drop_first(), service@)) =~= (
                    removed0 + seq![t[0]]) + dropped(t.drop_first(), service@));
                    assert(kept0 + t =~= (kept0 + seq![t[0]]) + t.drop_first());
                    assert forall|i: int, j: int|
                        0 <= i < j < (kept0 + t.drop_first()).len() implies !((#[trigger] (kept0
                        + t.drop_first())[i]).key.destination@ == (#[trigger] (kept0
                        + t.drop_first())[j]).key.destination@ && (kept0 + t.drop_first())[i].key.path@
                        == (kept0 + t.drop_first())[j].key.path@) && (kept0
                        + t.drop_first())[i].indicator.slot_id != (kept0
                        + t.drop_first())[j].indicator.slot_id by {
                        let big = kept0 + t;
                        let i2 = if i < kept0.len() {
                            i
                        } else {
                            i + 1
                        };
                        let j2 = if j < kept0.len() {
                            j
                        } else {
                            j + 1
                        };
                        assert((kept0 + t.drop_first())[i] == big[i2]);
                        assert((kept0 + t.drop_first())[j] == big[j2]);
                    }
                    assert forall|k: int|
                        0 <= k < (kept0 + t.drop_first()).len() implies (#[trigger] (kept0
                        + t.drop_first())[k]).indicator.wf() by {
                        let big = kept0 + t;
                        let k2 = if k < kept0.len() {
                            k
                        } else {
                            k + 1
                        };
                        assert((kept0 + t.drop_first())[k] == big[k2]);
                    }
                }
            } else {
                kept.push(item);
                proof {
                    assert(kept@ =~= kept0 + seq![t[0]]);
                    assert(kept0 + (seq![t[0]] + retained(t.drop_first(), service@)) =~= (kept0
                        + seq![t[0]]) + retained(t.drop_first(), service@));
                    assert(kept@ + t.drop_first() =~= kept0 + t);
                }
            }
        }
        proof {
            assert(self.rows().len() == 0);
            assert(retained(self.rows(), service@) =~= Seq::<RegisteredItem>::empty());
            assert(dropped(self.rows(), service@) =~= Seq::<RegisteredItem>::empty());
            assert(kept@ + retained(self.rows(), service@) =~= kept@);
            assert(removed@ + dropped(self.rows(), service@) =~= removed@);
        }
        self.items = kept;
        proof {
            assert(self.rows() + Seq::<RegisteredItem>::empty() =~= self.rows());
            assert(kept@ + Seq::<RegisteredItem>::empty() =~= kept@);
        }
        removed
    }

    /// The registered items' bus addresses, destination then path, in order.
    pub fn registered_items(&self) -> (r: Vec<String>)
        ensures
            r@.len() == self.rows().len(),
            forall|k: int|
                0 <= k < self.rows().len() ==> (#[trigger] r@[k])@ == (
                #[trigger] self.rows()[k]).key.destination@ + self.rows()[k].key.path@,
    {
        let mut out: Vec<String> = Vec::new();
        let n = self.items.len();
        let mut k: usize = 0;
        while k < n
            invariant
                n == self.rows().len(),
                k <= n,
                out@.len() == k,
                forall|m: int|
                    0 <= m < k ==> (#[trigger] out@[m])@ == (
                    #[trigger] self.rows()[m]).key.destination@ + self.rows()[m].key.path@,
            decreases n - k,
        {
            let mut s = self.items[k].key.destination.clone();
            s.append(self.items[k].key.path.as_str());
            out.push(s);
            k = k + 1;
        }
        out
    }

    /// The registration owning a slot id, for routing a native UI event.
    #[verifier::loop_isolation(false)]
    pub fn get_by_slot(&self, slot: u16) -> (r: Option<&RegisteredItem>)
        requires
            self.wf(),
        ensures
            match r {
                Some(it) => self.contains_slot(slot) && *it == self.rows()[self.index_of_slot(
                    slot,
                )],
                None => !self.contains_slot(slot),
            },
    {
        let n = self.items.len();
        let mut k: usize = 0;
        while k < n
            invariant
                k <= n,
                forall|m: int| 0 <= m < k ==> (#[trigger] self.rows()[m]).indicator.slot_id != slot,
            decreases n - k,
        {
            if self.items[k].indicator.slot_id == slot {
                proof {
                    assert(self.contains_slot(slot));
                    let i = self.index_of_slot(slot);
                    assert(0 <= i < self.rows().len() && self.rows()[i].indicator.slot_id == slot);
                    if i != k as int {
                        assert(false);
                    }
                }
                return Some(&self.items[k]);
            }
            k = k + 1;
        }
        None
    }


    /// Applies a refresh result to the indicator owning a slot; see
    /// TraySlot::update for the handle-release ordering the caller owes.
    /// An unknown slot changes nothing.
    #[verifier::loop_isolation(false)]
    pub fn apply_refresh_by_slot(
        &mut self,
        slot: u16,
        icon: Option<crate::icon::NativeIcon>,
        tooltip_text: Option<&str>,
    ) -> (r: Option<(crate::tray::TrayOp, Option<crate::icon::NativeIcon>)>)
        requires
            old(self).wf(),
        ensures
            final(self).wf(),
            match r {
                None => !old(self).contains_slot(slot) && final(self).rows() == old(self).rows(),
                Some((op, released)) => {
                    &&& old(self).contains_slot(slot)
                    &&& ({
                        let i = old(self).index_of_slot(slot);
                        let pre = old(self).rows()[i].indicator;
                        let post = final(self).rows()[i].indicator;
                        &&& final(self).rows().len() == old(self).rows().len()
                        &&& forall|j: int|
                            0 <= j < old(self).rows().len() && j != i ==> final(self).rows()[j]
                                == old(self).rows()[j]
                        &&& final(self).rows()[i].key == old(self).rows()[i].key
                        &&& post.slot_id == pre.slot_id
                        &&& post.menu == pre.menu
                        &&& post.tray.shown
                        &&& op == (if pre.tray.shown {
                            crate::tray::TrayOp::Modify
                        } else {
                            crate::tray::TrayOp::Add
                        })
                        &&& match icon {
                            Some(_) => post.tray.icon == icon && released == pre.tray.icon,
                            None => post.tray.icon == pre.tray.icon && released is None,
                        }
                        &&& match tooltip_text {
                            Some(t) => post.tray.tooltip@ == t@,
                            None => post.tray.tooltip == pre.tray.tooltip,
                        }
                    })
                },
            },
    {
        let n = self.items.len();
        let mut k: usize = 0;
        while k < n
            invariant
                self.rows() == old(self).rows(),
                n == self.rows().len(),
                k <= n,
                forall|m: int| 0 <= m < k ==> (#[trigger] self.rows()[m]).indicator.slot_id != slot,
            decreases n - k,
        {
            if self.items[k].indicator.slot_id == slot {
                proof {
                    assert(self.contains_slot(slot));
                    let i = self.index_of_slot(slot);
                    assert(0 <= i < self.rows().len() && self.rows()[i].indicator.slot_id == slot);
                    if i != k as int {
                        assert(false);
                    }
                }
                let mut item = self.items.remove(k);
                let r = item.indicator.apply_refresh(icon, tooltip_text);
                self.items.insert(k, item);
                proof {
                    assert forall|j: int|
                        0 <= j < old(self).rows().len() && j != k as int implies self.rows()[j]
                        == old(self).rows()[j] by {
                        if j < k as int {
                            assert(self.rows()[j] == old(self).rows().remove(k as int)[j]);
                        } else {
                            assert(self.rows()[j] == old(self).rows().remove(k as int)[j - 1]);
                        }
                    }
                }
                return Some(r);
            }
            k = k + 1;
        }
        None
    }

    /// Creates the menu id map of the indicator owning a slot on the first
    /// sighting of a menu path; later sightings and unknown slots change
    /// nothing. Returns whether the slot was found.
    #[verifier::loop_isolation(false)]
    pub fn ensure_menu_by_slot(&mut self, slot: u16, has_menu_path: bool) -> (r: bool)
        requires
            old(self).wf(),
        ensures
            final(self).wf(),
            r == old(self).contains_slot(slot),
            !r ==> final(self).rows() == old(self).rows(),
            r ==> ({
                let i = old(self).index_of_slot(slot);
                let pre = old(self).rows()[i].indicator;
                let post = final(self).rows()[i].indicator;
                &&& final(self).rows().len() == old(self).rows().len()
                &&& forall|j: int|
                    0 <= j < old(self).rows().len() && j != i ==> final(self).rows()[j] == old(
                        self,
                    ).rows()[j]
                &&& final(self).rows()[i].key == old(self).rows()[i].key
                &&& post.slot_id == pre.slot_id
                &&& post.tray == pre.tray
                &&& (pre.menu is Some ==> post.menu == pre.menu)
                &&& (!has_menu_path ==> post.menu == pre.menu)
                &&& (pre.menu is None && has_menu_path ==> (post.menu matches Some(m) && m.slot()
                    == pre.slot_id && m.assigned() == Map::<u16, i32>::empty()))
            }),
    {
        let n = self.items.len();
        let mut k: usize = 0;
        while k < n
            invariant
                self.rows() == old(self).rows(),
                n == self.rows().len(),
                k <= n,
                forall|m: int| 0 <= m < k ==> (#[trigger] self.rows()[m]).indicator.slot_id != slot,
            decreases n - k,
        {
            if self.items[k].indicator.slot_id == slot {
                proof {
                    assert(self.contains_slot(slot));
                    let i = self.index_of_slot(slot);
                    assert(0 <= i < self.rows().len() && self.rows()[i].indicator.slot_id == slot);
                    if i != k as int {
                        assert(false);
                    }
                }
                let mut item = self.items.remove(k);
                item.indicator.ensure_menu(has_menu_path);
                self.items.insert(k, item);
                proof {
                    assert forall|j: int|
                        0 <= j < old(self).rows().len() && j != k as int implies self.rows()[j]
                        == old(self).rows()[j] by {
                        if j < k as int {
                            assert(self.rows()[j] == old(self).rows().remove(k as int)[j]);
                        } else {
                            assert(self.rows()[j] == old(self).rows().remove(k as int)[j - 1]);
                        }
                    }
                }
                return true;
            }
            k = k + 1;
        }
        false
    }

    /// Builds the native menu for the indicator owning a slot, from the
    /// remote layout's root item. None when no such indicator is live or it
    /// has no menu bridge; otherwise the build's result, with the id map
    /// updated as crate::menu::build_menu describes.
    #[verifier::loop_isolation(false)]
    pub fn build_menu_by_slot(&mut self, slot: u16, root: &crate::menu::MenuItem) -> (r: Option<
        Result<Vec<crate::menu::MenuEntry>, crate::menu_ids::MenuError>,
    >)
        requires
            old(self).wf(),
        ensures
            final(self).wf(),
            match r {
                None => final(self).rows() == old(self).rows() && (!old(self).contains_slot(slot)
                    || old(self).rows()[old(self).index_of_slot(slot)].indicator.menu is None),
                Some(res) => {
                    &&& old(self).contains_slot(slot)
                    &&& ({
                        let i = old(self).index_of_slot(slot);
                        let pre = old(self).rows()[i].indicator;
                        let post = final(self).rows()[i].indicator;
                        &&& pre.menu is Some
                        &&& post.menu is Some
                        &&& final(self).rows().len() == old(self).rows().len()
                        &&& forall|j: int|
                            0 <= j < old(self).rows().len() && j != i ==> final(self).rows()[j]
                                == old(self).rows()[j]
                        &&& final(self).rows()[i].key == old(self).rows()[i].key
                        &&& post.slot_id == pre.slot_id
                        &&& post.tray == pre.tray
                        &&& crate::menu::assignment_extends(
                            pre.menu->Some_0.assigned(),
                            post.menu->Some_0.assigned(),
                        )
                        &&& match res {
                            Ok(es) => crate::menu::entries_match(
                                root.children@,
                                es@,
                                post.menu->Some_0.assigned(),
                            ),
                            Err(err) => err == crate::menu_ids::MenuError::IdsExhausted
                                && post.menu->Some_0.next() == post.menu->Some_0.base() + 100,
                        }
                    })
                },
            },
    {
        let n = self.items.len();
        let mut k: usize = 0;
        while k < n
            invariant
                self.rows() == old(self).rows(),
                n == self.rows().len(),
                k <= n,
                forall|m: int| 0 <= m < k ==> (#[trigger] self.rows()[m]).indicator.slot_id != slot,
            decreases n - k,
        {
            if self.items[k].indicator.slot_id == slot {
                proof {
                    assert(self.contains_slot(slot));
                    let i = self.index_of_slot(slot);
                    assert(0 <= i < self.rows().len() && self.rows()[i].indicator.slot_id == slot);
                    if i != k as int {
                        assert(false);
                    }
                }
                let mut item = self.items.remove(k);
                if item.indicator.menu.is_none() {
                    self.items.insert(k, item);
                    proof {
                        assert(self.rows() =~= old(self).rows());
                    }
                    return None;
                }
                let mut ids = item.indicator.menu.take().unwrap();
                let res = crate::menu::build_menu(&mut ids, root);
                item.indicator.menu = Some(ids);
                self.items.insert(k, item);
                proof {
                    assert forall|j: int|
                        0 <= j < old(self).rows().len() && j != k as int implies self.rows()[j]
                        == old(self).rows()[j] by {
                        if j < k as int {
                            assert(self.rows()[j] == old(self).rows().remove(k as int)[j]);
                        } else {
                            assert(self.rows()[j] == old(self).rows().remove(k as int)[j - 1]);
                        }
                    }
                }
                return Some(res);
            }
            k = k + 1;
        }
        None
    }

    /// A native menu command id assigned by one indicator's menu routes back
    /// to exactly that indicator: dividing by the block size yields its slot
    /// id, and no other live indicator owns that slot.
    pub proof fn lemma_command_routing(self, k: int, native_id: u16)
        requires
            self.wf(),
            0 <= k < self.rows().len(),
            self.rows()[k].indicator.menu matches Some(m) && m.assigned().contains_key(native_id),
        ensures
            native_id / MENU_IDS_PER_APP == self.rows()[k].indicator.slot_id,
            forall|j: int|
                0 <= j < self.rows().len() && (#[trigger] self.rows()[j]).indicator.slot_id
                    == native_id / MENU_IDS_PER_APP ==> j == k,
    {
        let m = self.rows()[k].indicator.menu->Some_0;
        m.lemma_slot_recovery(native_id);
    }
}

/// The kind of click a native tray notification reports.
#[derive(Clone, Copy, Debug, PartialEq, Eq, Structural)]
pub enum ClickKind {
    Left,
    Right,
    Other,
}

/// The native mouse-up codes the tray forwards.
pub open spec fn click_kind_of(code: u64) -> ClickKind {
    if code == 0x0202 {
        ClickKind::Left
    } else if code == 0x0205 {
        ClickKind::Right
    } else {
        ClickKind::Other
    }
}

/// A decoded tray-icon notification.
pub struct NotifyEvent {
    pub slot: u16,
    pub x: i32,
    pub y: i32,
    pub kind: ClickKind,
}

/// Decodes a tray-icon notification's packed parameters: the slot id and
/// event code travel in the high and low half-words of one parameter, the
/// click coordinates in the half-words of the other.
pub fn decode_notify(wparam: u64, lparam: u64) -> (r: NotifyEvent)
    ensures
        r.slot as u64 == (lparam >> 16) & 0xffff,
        r.x as u64 == (wparam >> 16) & 0xffff,
        r.y as u64 == wparam & 0xffff,
        r.kind == click_kind_of(lparam & 0xffff),
{
    let slot_bits = (lparam >> 16) & 0xffff;
    let x_bits = (wparam >> 16) & 0xffff;
    let y_bits = wparam & 0xffff;
    let code = lparam & 0xffff;
    assert((lparam >> 16) & 0xffff <= 0xffff) by (bit_vector);
    assert((wparam >> 16) & 0xffff <= 0xffff) by (bit_vector);
    assert(wparam & 0xffff <= 0xffff) by (bit_vector);
    let kind = if code == 0x0202 {
        ClickKind::Left
    } else if code == 0x0205 {
        ClickKind::Right
    } else {
        ClickKind::Other
    };
    NotifyEvent { slot: slot_bits as u16, x: x_bits as i32, y: y_bits as i32, kind }
}

#[derive(Clone, Copy, Debug, PartialEq, Eq, Structural)]
pub enum CommandError {
    /// The command notification reports an accelerator, which the bridge
    /// does not implement.
    Accelerator,
    /// The command notification reports a control notification code.
    Control,
}

/// Decodes a native command notification: only menu commands (high word
/// zero) are handled; the low word is the native menu command id, and
/// dividing it by the block size names the slot that routed it.
pub fn decode_command(wparam: u64) -> (r: Result<u16, CommandError>)
    ensures
        match r {
            Ok(menu_id) => (wparam >> 16) == 0 && menu_id as u64 == wparam & 0xffff,
            Err(e) => (wparam >> 16) != 0 && e == (if (wparam >> 16) == 1 {
                CommandError::Accelerator
            } else {
                CommandError::Control
            }),
        },
{
    let high = wparam >> 16;
    if high == 0 {
        let low = wparam & 0xffff;
        assert(wparam & 0xffff <= 0xffff) by (bit_vector);
        Ok(low as u16)
    } else if high == 1 {
        Err(CommandError::Accelerator)
    } else {
        Err(CommandError::Control)
    }
}

/// The slot id a native menu command id belongs to.
pub fn slot_of_command(menu_id: u16) -> (r: u16)
    ensures
        r == menu_id / MENU_IDS_PER_APP,
{
    menu_id / MENU_IDS_PER_APP
}

} // verus!
