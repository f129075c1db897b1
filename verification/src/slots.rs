//! The slot allocator: a dense table indexed by client id. A vacant slot is
//! `None`; an occupied slot holds the token of that client's writer channel.
//! Allocation always takes the smallest vacant id, so a freed id becomes
//! available again and an id in use is never handed out twice.

use vstd::prelude::*;

verus! {

broadcast use vstd::set::group_set_axioms;

/// Index of the smallest vacant slot of `s`; equals `s.len()` when every
/// slot is occupied.
pub open spec fn first_vacant(s: Seq<Option<u64>>) -> int
    decreases s.len(),
{
    if s.len() == 0 || s[0] is None {
        0
    } else {
        1 + first_vacant(s.subrange(1, s.len() as int))
    }
}

/// How many slots of `s` are occupied.
pub open spec fn live_count(s: Seq<Option<u64>>) -> nat
    decreases s.len(),
{
    if s.len() == 0 {
        0
    } else {
        live_count(s.drop_last()) + (if s.last() is Some {
            1nat
        } else {
            0nat
        })
    }
}

/// The set of ids of currently occupied slots.
pub open spec fn live_ids(s: Seq<Option<u64>>) -> Set<int> {
    Set::new(|i: int| 0 <= i < s.len() && s[i] is Some)
}

/// The table after assigning the smallest vacant slot to `tok`: an interior
/// vacancy is filled when one exists, otherwise the table grows by one slot.
pub open spec fn table_insert(s: Seq<Option<u64>>, tok: u64) -> Seq<Option<u64>> {
    if first_vacant(s) < s.len() {
        s.update(first_vacant(s), Some(tok))
    } else {
        s.push(Some(tok))
    }
}

/// The smallest vacant slot lies within the table (or just past its end),
/// every slot below it is occupied, and it is itself vacant when interior.
pub proof fn lemma_first_vacant_bounds(s: Seq<Option<u64>>)
    ensures
        0 <= first_vacant(s) <= s.len(),
        forall|j: int| 0 <= j < first_vacant(s) ==> s[j] is Some,
        first_vacant(s) < s.len() ==> s[first_vacant(s)] is None,
    decreases s.len(),
{
    if s.len() == 0 || s[0] is None {
    } else {
        let t = s.subrange(1, s.len() as int);
        lemma_first_vacant_bounds(t);
        assert forall|j: int| 0 <= j < first_vacant(s) implies s[j] is Some by {
            if j > 0 {
                assert(t[j - 1] is Some);
            }
        }
        if first_vacant(s) < s.len() {
            assert(s[first_vacant(s)] == t[first_vacant(t)]);
        }
    }
}

/// An index below which every slot is occupied and which is itself vacant
/// (or the table's end) is exactly the smallest vacant slot.
pub proof fn lemma_first_vacant_at(s: Seq<Option<u64>>, i: int)
    requires
        0 <= i <= s.len(),
        forall|j: int| 0 <= j < i ==> s[j] is Some,
        i == s.len() || s[i] is None,
    ensures
        first_vacant(s) == i,
    decreases s.len(),
{
    if s.len() == 0 {
    } else if s[0] is None {
        assert(i == 0);
    } else {
        let t = s.subrange(1, s.len() as int);
        assert(i >= 1);
        assert forall|j: int| 0 <= j < i - 1 implies t[j] is Some by {
            assert(t[j] == s[j + 1]);
        }
        lemma_first_vacant_at(t, i - 1);
    }
}

/// Replacing one slot changes the occupied count by the difference between
/// the new and the old occupancy of that slot.
pub proof fn lemma_live_count_update(s: Seq<Option<u64>>, i: int, v: Option<u64>)
    requires
        0 <= i < s.len(),
    ensures
        live_count(s.update(i, v)) == live_count(s) + (if v is Some {
            1int
        } else {
            0int
        }) - (if s[i] is Some {
            1int
        } else {
            0int
        }),
    decreases s.len(),
{
    let s2 = s.update(i, v);
    if i == s.len() - 1 {
        assert(s2.drop_last() =~= s.drop_last());
    } else {
        assert(s2.drop_last() =~= s.drop_last().update(i, v));
        lemma_live_count_update(s.drop_last(), i, v);
        assert(s2.last() == s.last());
    }
}

/// Growing the table by one slot raises the occupied count exactly when the
/// new slot is occupied.
pub proof fn lemma_live_count_push(s: Seq<Option<u64>>, v: Option<u64>)
    ensures
        live_count(s.push(v)) == live_count(s) + (if v is Some {
            1nat
        } else {
            0nat
        }),
{
    assert(s.push(v).drop_last() =~= s);
}

/// The set of live ids is finite and its size is the occupied count, so the
/// occupied count really does measure distinct client ids.
pub proof fn lemma_live_ids_count(s: Seq<Option<u64>>)
    ensures
        live_ids(s).finite(),
        live_ids(s).len() == live_count(s),
    decreases s.len(),
{
    if s.len() == 0 {
        assert(live_ids(s) =~= Set::<int>::empty());
    } else {
        let t = s.drop_last();
        lemma_live_ids_count(t);
        if s.last() is Some {
            assert(live_ids(s) =~= live_ids(t).insert(s.len() - 1));
            assert(!live_ids(t).contains(s.len() - 1));
        } else {
            assert(live_ids(s) =~= live_ids(t));
        }
    }
}

/// The client table: slot `id` holds the writer token of client `id`, or
/// `None` while that id is free.
pub struct Slots {
    entries: Vec<Option<u64>>,
}

impl View for Slots {
    type V = Seq<Option<u64>>;

    closed spec fn view(&self) -> Seq<Option<u64>> {
        self.entries@
    }
}

impl Slots {
    /// True when `i` names an occupied slot.
    pub open spec fn occupied(&self, i: int) -> bool {
        0 <= i < self@.len() && self@[i] is Some
    }

    /// An empty table: no id is in use.
    pub fn new() -> (s: Slots)
        ensures
            s@ == Seq::<Option<u64>>::empty(),
    {
        Slots { entries: Vec::new() }
    }

    /// The table's current extent: ids at or past this bound are all free.
    pub fn slot_count(&self) -> (n: usize)
        ensures
            n == self@.len(),
    {
        self.entries.len()
    }

    /// The writer token of client `id`, or `None` while `id` is free or out
    /// of range.
    pub fn get(&self, id: usize) -> (t: Option<u64>)
        ensures
            t == if (id as int) < self@.len() {
                self@[id as int]
            } else {
                None::<u64>
            },
    {
        if id < self.entries.len() {
            self.entries[id]
        } else {
            None
        }
    }

    /// Whether client `id` is currently registered.
    pub fn contains(&self, id: usize) -> (b: bool)
        ensures
            b == self.occupied(id as int),
    {
        id < self.entries.len() && self.entries[id].is_some()
    }

    /// Assign the smallest free id to `tok`. The returned id was not in use
    /// before the call, every smaller id was, and afterwards the id maps to
    /// `tok` with all other slots unchanged.
    pub fn insert(&mut self, tok: u64) -> (id: usize)
        requires
            old(self)@.len() < usize::MAX,
        ensures
            id as int == first_vacant(old(self)@),
            final(self)@ == table_insert(old(self)@, tok),
            !old(self).occupied(id as int),
            forall|j: int| 0 <= j < id as int ==> old(self).occupied(j),
            final(self).occupied(id as int),
            final(self)@[id as int] == Some(tok),
    {
        let n = self.entries.len();
        let mut i: usize = 0;
        while i < n
            invariant
                i <= n,
                n == self@.len(),
                self@ == old(self)@,
                forall|j: int| 0 <= j < i ==> old(self)@[j] is Some,
            decreases n - i,
        {
            if self.entries[i].is_none() {
                proof {
                    lemma_first_vacant_at(old(self)@, i as int);
                    assert(forall|j: int|
                        0 <= j < i ==> old(self).occupied(j));
                }
                self.entries.set(i, Some(tok));
                return i;
            }
            i += 1;
        }
        proof {
            lemma_first_vacant_at(old(self)@, n as int);
            assert(forall|j: int| 0 <= j < n ==> old(self).occupied(j));
        }
        self.entries.push(Some(tok));
        n
    }

    /// Free the slot of client `id`, which must be in use; every other slot
    /// is unchanged.
    pub fn remove(&mut self, id: usize) -> (tok: u64)
        requires
            old(self).occupied(id as int),
        ensures
            final(self)@ == old(self)@.update(id as int, None),
            Some(tok) == old(self)@[id as int],
    {
        let t = self.entries[id].unwrap();
        self.entries.set(id, None);
        t
    }
}

} // verus!
