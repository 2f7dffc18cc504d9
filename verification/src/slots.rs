//! Slot-id assignment. Each application identity is assigned a small integer
//! slot id, minted once on first sight and reused forever after, so that an
//! application's tray icon keeps its position across restarts. The table
//! lives in durable storage between runs; this module owns the lookup and
//! minting rules, and a store can be rebuilt from its persisted entries.

use vstd::prelude::*;

verus! {

/// Slot ids are minted from 1 up to this bound, so that every assigned slot
/// can also reserve a menu-command block in a u16.
pub const MAX_SLOT_ID: u16 = 654;

#[derive(Clone, Copy, Debug, PartialEq, Eq, Structural)]
pub enum SlotError {
    /// No slot id is left to mint.
    Full,
    /// Persisted entries do not form a valid table (a repeated identity or
    /// id, or an id outside the minted range).
    Corrupt,
}

/// The identity-to-slot-id table plus the counter for minting fresh ids.
#[derive(Debug)]
pub struct SlotStore {
    entries: Vec<(String, u16)>,
    next_id: u16,
}

impl SlotStore {
    /// Whether some entry carries this identity.
    pub open spec fn contains_ident(self, ident: Seq<char>) -> bool {
        exists|k: int| 0 <= k < self.rows().len() && #[trigger] self.rows()[k].0@ == ident
    }

    /// The id stored for an identity (meaningful when contains_ident).
    pub open spec fn id_of(self, ident: Seq<char>) -> u16 {
        let k = choose|k: int| 0 <= k < self.rows().len() && #[trigger] self.rows()[k].0@
            == ident;
        self.rows()[k].1
    }

    /// The stored rows, in insertion order.
    pub closed spec fn rows(self) -> Seq<(String, u16)> {
        self.entries@
    }

    /// The next id to be minted.
    pub closed spec fn next(self) -> int {
        self.next_id as int
    }

    /// Identities are unique, ids are unique, and every stored id was minted
    /// below the counter, which starts at 1 and never passes MAX_SLOT_ID + 1.
    pub open spec fn valid_rows(rows: Seq<(String, u16)>, next: int) -> bool {
        &&& 1 <= next <= MAX_SLOT_ID + 1
        &&& forall|k: int| 0 <= k < rows.len() ==> 1 <= (#[trigger] rows[k]).1 < next
        &&& forall|k1: int, k2: int|
            0 <= k1 < k2 < rows.len() ==> (#[trigger] rows[k1]).0@ != (#[trigger] rows[k2]).0@
        &&& forall|k1: int, k2: int|
            0 <= k1 < k2 < rows.len() ==> (#[trigger] rows[k1]).1 != (#[trigger] rows[k2]).1
    }

    pub open spec fn wf(self) -> bool {
        Self::valid_rows(self.rows(), self.next())
    }

    /// An empty store: nothing assigned, ids will be minted from 1.
    pub fn new() -> (r: Self)
        ensures
            r.wf(),
            r.rows().len() == 0,
            r.next() == 1,
    {
        SlotStore { entries: Vec::new(), next_id: 1 }
    }

    /// Rebuilds a store from persisted rows and counter, accepting exactly
    /// the tables a sequence of mints could have produced.
    #[verifier::loop_isolation(false)]
    pub fn from_entries(entries: Vec<(String, u16)>, next_id: u16) -> (r: Result<Self, SlotError>)
        ensures
            match r {
                Ok(s) => s.wf() && s.rows() == entries@ && s.next() == next_id,
                Err(e) => e == SlotError::Corrupt && !Self::valid_rows(entries@, next_id as int),
            },
    {
        let s = SlotStore { entries, next_id };
        if !(1 <= next_id && next_id <= MAX_SLOT_ID + 1) {
            return Err(SlotError::Corrupt);
        }
        let n = s.entries.len();
        let mut k: usize = 0;
        while k < n
            invariant
                n == s.rows().len(),
                k <= n,
                1 <= s.next() <= MAX_SLOT_ID + 1,
                forall|m: int| 0 <= m < k ==> 1 <= (#[trigger] s.rows()[m]).1 < s.next(),
                forall|m1: int, m2: int|
                    0 <= m1 < m2 < k ==> (#[trigger] s.rows()[m1]).0@ != (#[trigger] s.rows()[m2]).0@,
                forall|m1: int, m2: int|
                    0 <= m1 < m2 < k ==> (#[trigger] s.rows()[m1]).1 != (#[trigger] s.rows()[m2]).1,
            decreases n - k,
        {
            let id = s.entries[k].1;
            if !(1 <= id && id < s.next_id) {
                return Err(SlotError::Corrupt);
            }
            let mut m: usize = 0;
            while m < k
                invariant
                    m <= k < n == s.rows().len(),
                    forall|j: int|
                        0 <= j < m ==> (#[trigger] s.rows()[j]).0@ != s.rows()[k as int].0@,
                    forall|j: int|
                        0 <= j < m ==> (#[trigger] s.rows()[j]).1 != s.rows()[k as int].1,
                decreases k - m,
            {
                if s.entries[m].0 == s.entries[k].0 {
                    return Err(SlotError::Corrupt);
                }
                if s.entries[m].1 == s.entries[k].1 {
                    return Err(SlotError::Corrupt);
                }
                m = m + 1;
            }
            k = k + 1;
        }
        Ok(s)
    }

    /// The stored rows, for persisting.
    pub fn snapshot(&self) -> (r: &Vec<(String, u16)>)
        ensures
            r@ == self.rows(),
    {
        &self.entries
    }

    /// The counter value, for persisting.
    pub fn next_id(&self) -> (r: u16)
        ensures
            r as int == self.next(),
    {
        self.next_id
    }

    /// The store's transition for a successful lookup-or-mint: an identity
    /// seen before keeps its id and the store is unchanged; a new identity
    /// gets the counter's id, appended as a new row.
    pub open spec fn lookup_ok(pre: SlotStore, post: SlotStore, ident: Seq<char>, id: u16) -> bool {
        &&& post.contains_ident(ident)
        &&& post.id_of(ident) == id
        &&& 1 <= id <= MAX_SLOT_ID
        &&& if pre.contains_ident(ident) {
            &&& id == pre.id_of(ident)
            &&& post.rows() == pre.rows()
            &&& post.next() == pre.next()
        } else {
            &&& id == pre.next()
            &&& post.rows().len() == pre.rows().len() + 1
            &&& post.rows().take(pre.rows().len() as int) == pre.rows()
            &&& post.rows().last().0@ == ident
            &&& post.rows().last().1 == id
            &&& post.next() == pre.next() + 1
        }
    }

    /// The store's transition for a failed mint: the identity is new, every
    /// id is taken, nothing changes.
    pub open spec fn lookup_full(pre: SlotStore, post: SlotStore, ident: Seq<char>) -> bool {
        &&& !pre.contains_ident(ident)
        &&& pre.next() == MAX_SLOT_ID + 1
        &&& post.rows() == pre.rows()
        &&& post.next() == pre.next()
    }

    /// Returns the slot id for an identity: the stored id when the identity
    /// was seen before (the store is unchanged), a freshly minted one
    /// otherwise. Minting fails only when every id is taken.
    #[verifier::loop_isolation(false)]
    pub fn get_or_create(&mut self, identity: &str) -> (r: Result<u16, SlotError>)
        requires
            old(self).wf(),
        ensures
            final(self).wf(),
            match r {
                Ok(id) => Self::lookup_ok(*old(self), *final(self), identity@, id),
                Err(e) => e == SlotError::Full && Self::lookup_full(
                    *old(self),
                    *final(self),
                    identity@,
                ),
            },
    {
        let owned = identity.to_owned();
        let n = self.entries.len();
        let mut k: usize = 0;
        while k < n
            invariant
                n == self.rows().len(),
                k <= n,
                owned@ == identity@,
                forall|m: int| 0 <= m < k ==> (#[trigger] self.rows()[m]).0@ != identity@,
            decreases n - k,
        {
            if self.entries[k].0 == owned {
                return Ok(self.entries[k].1);
            }
            k = k + 1;
        }
        assert(!self.contains_ident(identity@));
        if self.next_id > MAX_SLOT_ID {
            return Err(SlotError::Full);
        }
        let id = self.next_id;
        self.entries.push((owned, id));
        self.next_id = self.next_id + 1;
        proof {
            let rows1 = self.rows();
            assert(rows1.take(rows1.len() - 1) =~= old(self).rows());
            assert(rows1[rows1.len() - 1].0@ == identity@);
            assert(self.contains_ident(identity@));
            let i = choose|m: int| 0 <= m < rows1.len() && #[trigger] rows1[m].0@ == identity@;
            if i != rows1.len() - 1 {
                assert(rows1[i] == old(self).rows()[i]);
                assert(false);
            }
        }
        Ok(id)
    }


    /// Slot assignment is stable: once an identity has been assigned an id,
    /// any later lookup-or-mint on the resulting store returns that same id
    /// and changes nothing.
    pub proof fn lemma_slot_assignment_stable(
        pre: SlotStore,
        mid: SlotStore,
        post: SlotStore,
        ident: Seq<char>,
        id1: u16,
        id2: u16,
    )
        requires
            Self::lookup_ok(pre, mid, ident, id1),
            Self::lookup_ok(mid, post, ident, id2),
        ensures
            id2 == id1,
            post.rows() == mid.rows(),
            post.next() == mid.next(),
    {
    }

    /// Two identities never share a slot id.
    pub proof fn lemma_ids_distinct(self, i1: Seq<char>, i2: Seq<char>)
        requires
            self.wf(),
            self.contains_ident(i1),
            self.contains_ident(i2),
            i1 != i2,
        ensures
            self.id_of(i1) != self.id_of(i2),
    {
        let k1 = choose|k: int| 0 <= k < self.rows().len() && #[trigger] self.rows()[k].0@ == i1;
        let k2 = choose|k: int| 0 <= k < self.rows().len() && #[trigger] self.rows()[k].0@ == i2;
        assert(k1 != k2);
    }
}

} // verus!
