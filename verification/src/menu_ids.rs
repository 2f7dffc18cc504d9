//! Per-indicator mapping between native menu command ids and remote menu item
//! ids. Each indicator reserves a contiguous block of native ids,
//! `slot_id * MENU_IDS_PER_APP .. slot_id * MENU_IDS_PER_APP + MENU_IDS_PER_APP`,
//! so that a native command id selected in the UI can be routed back to its
//! indicator by integer division. Within the block the mapping is a bijection:
//! a remote id seen again reuses its native id, and no native id is ever
//! given to two remote ids. Running out of ids in the block fails only the
//! current menu build, never the process.

use vstd::prelude::*;

verus! {

#[verifier::external_type_specification]
#[verifier::external_body]
#[verifier::reject_recursive_types(L)]
#[verifier::reject_recursive_types(R)]
#[verifier::reject_recursive_types(LS)]
#[verifier::reject_recursive_types(RS)]
pub struct ExBiHashMap<L, R, LS, RS>(bimap::BiHashMap<L, R, LS, RS>);

/// The pairs held by a native-id/remote-id bimap, as a map from the native
/// (left) value of each pair to its remote (right) value.
pub uninterp spec fn id_pairs(m: bimap::BiHashMap<u16, i32>) -> Map<u16, i32>;

/// Relies on bimap::BiHashMap::new: the new bimap holds no pairs.
#[verifier::external_body]
fn bimap_new() -> (r: bimap::BiHashMap<u16, i32>)
    ensures
        forall|l: u16| !id_pairs(r).contains_key(l),
{
    bimap::BiHashMap::new()
}

/// Relies on bimap::BiHashMap::get_by_left: returns the right value paired
/// with the given left value, or None when no pair has that left value.
#[verifier::external_body]
fn bimap_get_by_left(m: &bimap::BiHashMap<u16, i32>, left: u16) -> (r: Option<i32>)
    ensures
        match r {
            Some(right) => id_pairs(*m).contains_key(left) && id_pairs(*m)[left] == right,
            None => !id_pairs(*m).contains_key(left),
        },
{
    m.get_by_left(&left).copied()
}

/// Relies on bimap::BiHashMap::get_by_right: returns the left value paired
/// with the given right value, or None when no pair has that right value.
#[verifier::external_body]
fn bimap_get_by_right(m: &bimap::BiHashMap<u16, i32>, right: i32) -> (r: Option<u16>)
    ensures
        match r {
            Some(left) => id_pairs(*m).contains_key(left) && id_pairs(*m)[left] == right,
            None => forall|l: u16| #[trigger] id_pairs(*m).contains_key(l) ==> id_pairs(*m)[l]
                != right,
        },
{
    m.get_by_right(&right).copied()
}

/// Relies on bimap::BiHashMap::insert_no_overwrite: inserts the pair only
/// when neither side is already present, and otherwise leaves the bimap
/// unchanged.
#[verifier::external_body]
fn bimap_insert_no_overwrite(m: &mut bimap::BiHashMap<u16, i32>, left: u16, right: i32) -> (ok:
    bool)
    ensures
        ok == (!id_pairs(*old(m)).contains_key(left) && (forall|l: u16|
            #[trigger] id_pairs(*old(m)).contains_key(l) ==> id_pairs(*old(m))[l] != right)),
        ok ==> id_pairs(*final(m)) == id_pairs(*old(m)).insert(left, right),
        !ok ==> id_pairs(*final(m)) == id_pairs(*old(m)),
{
    match m.insert_no_overwrite(left, right) {
        Ok(()) => true,
        Err(_) => false,
    }
}

/// Each indicator reserves this many native menu command ids.
pub const MENU_IDS_PER_APP: u16 = 100;

/// The largest slot id whose reserved block still fits in a u16.
pub const MAX_MENU_SLOT: u16 = 654;

#[derive(Clone, Copy, Debug, PartialEq, Eq, Structural)]
pub enum MenuError {
    /// The indicator's reserved block of native command ids is used up; the
    /// current menu build fails, nothing else is affected.
    IdsExhausted,
}

/// The bijection between native command ids (in one indicator's reserved
/// block) and remote menu item ids, plus the cursor for minting fresh ids.
pub struct MenuIdMap {
    slot_id: u16,
    next_id: u16,
    ids: bimap::BiHashMap<u16, i32>,
}

impl MenuIdMap {
    pub closed spec fn slot(self) -> u16 {
        self.slot_id
    }

    /// First native id of this indicator's reserved block.
    pub open spec fn base(self) -> int {
        self.slot() * 100
    }

    /// First native id not yet handed out.
    pub closed spec fn next(self) -> int {
        self.next_id as int
    }

    /// The pairs assigned so far, keyed by native id.
    pub closed spec fn assigned(self) -> Map<u16, i32> {
        id_pairs(self.ids)
    }

    /// Whether some native id is already assigned to this remote id.
    pub open spec fn has_remote(self, remote_id: i32) -> bool {
        exists|l: u16| #[trigger] self.assigned().contains_key(l) && self.assigned()[l]
            == remote_id
    }

    /// Assigned native ids are exactly the block prefix already minted, and
    /// no two of them carry the same remote id.
    pub closed spec fn wf(self) -> bool {
        &&& self.slot_id <= MAX_MENU_SLOT
        &&& self.base() <= self.next() <= self.base() + 100
        &&& forall|l: u16|
            #[trigger] self.assigned().contains_key(l) <==> self.base() <= l < self.next()
        &&& forall|l1: u16, l2: u16|
            #[trigger] self.assigned().contains_key(l1) && #[trigger] self.assigned().contains_key(
                l2,
            ) && l1 != l2 ==> self.assigned()[l1] != self.assigned()[l2]
    }

    /// A fresh map for one indicator: no ids handed out yet.
    pub fn new(slot_id: u16) -> (r: Self)
        requires
            slot_id <= MAX_MENU_SLOT,
        ensures
            r.wf(),
            r.slot() == slot_id,
            r.assigned() == Map::<u16, i32>::empty(),
            r.next() == r.base(),
    {
        let r = Self { slot_id, next_id: slot_id * 100, ids: bimap_new() };
        proof {
            assert(r.assigned() =~= Map::<u16, i32>::empty());
        }
        r
    }

    /// Returns the native id for a remote id, minting a fresh one from the
    /// block on first sight. A remote id seen before gets the same native id
    /// again and the map is unchanged; a full block fails this call only.
    pub fn map_id(&mut self, remote_id: i32) -> (r: Result<u16, MenuError>)
        requires
            old(self).wf(),
        ensures
            final(self).wf(),
            final(self).slot() == old(self).slot(),
            match r {
                Ok(native) => {
                    &&& final(self).assigned().contains_key(native)
                    &&& final(self).assigned()[native] == remote_id
                    &&& old(self).base() <= native < old(self).base() + 100
                    &&& if old(self).has_remote(remote_id) {
                        final(self).assigned() == old(self).assigned() && final(self).next() == old(
                            self,
                        ).next()
                    } else {
                        &&& native == old(self).next()
                        &&& !old(self).assigned().contains_key(native)
                        &&& final(self).assigned() == old(self).assigned().insert(
                            native,
                            remote_id,
                        )
                        &&& final(self).next() == old(self).next() + 1
                    }
                },
                Err(e) => {
                    &&& e == MenuError::IdsExhausted
                    &&& !old(self).has_remote(remote_id)
                    &&& old(self).next() == old(self).base() + 100
                    &&& final(self).assigned() == old(self).assigned()
                    &&& final(self).next() == old(self).next()
                },
            },
    {
        match bimap_get_by_right(&self.ids, remote_id) {
            Some(native) => Ok(native),
            None => {
                if self.next_id == self.slot_id * 100 + MENU_IDS_PER_APP {
                    Err(MenuError::IdsExhausted)
                } else {
                    let native = self.next_id;
                    assert(!old(self).assigned().contains_key(native));
                    let ok = bimap_insert_no_overwrite(&mut self.ids, native, remote_id);
                    assert(ok);
                    self.next_id = self.next_id + 1;
                    proof {
                        assert forall|l: u16| #[trigger] self.assigned().contains_key(l)
                            <==> self.base() <= l < self.next() by {
                            assert(self.assigned() == old(self).assigned().insert(
                                native,
                                remote_id,
                            ));
                        }
                    }
                    Ok(native)
                }
            },
        }
    }

    /// Returns the remote id a native command id was assigned to, or None
    /// when this indicator never handed the native id out.
    pub fn unmap_id(&self, native_id: u16) -> (r: Option<i32>)
        requires
            self.wf(),
        ensures
            match r {
                Some(remote_id) => self.assigned().contains_key(native_id)
                    && self.assigned()[native_id as u16] == remote_id,
                None => !self.assigned().contains_key(native_id),
            },
    {
        bimap_get_by_left(&self.ids, native_id)
    }

    /// The id mapping is a bijection confined to the reserved block: every
    /// assigned native id lies in the block, and two distinct native ids
    /// never carry the same remote id.
    pub proof fn lemma_bijection(self, l1: u16, l2: u16)
        requires
            self.wf(),
        ensures
            self.assigned().contains_key(l1) ==> self.base() <= l1 < self.base() + 100,
            self.assigned().contains_key(l1) && self.assigned().contains_key(l2) && l1 != l2
                ==> self.assigned()[l1] != self.assigned()[l2],
    {
    }

    /// Dividing an assigned native id by the block size recovers the slot id
    /// that minted it: command routing is never ambiguous.
    pub proof fn lemma_slot_recovery(self, native_id: u16)
        requires
            self.wf(),
            self.assigned().contains_key(native_id),
        ensures
            native_id / MENU_IDS_PER_APP == self.slot(),
    {
        assert(native_id / 100 == self.slot_id) by (nonlinear_arith)
            requires
                self.slot_id * 100 <= native_id < self.slot_id * 100 + 100,
        ;
    }
}

} // verus!
