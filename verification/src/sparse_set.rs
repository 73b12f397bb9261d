//! A sparse-set component storage.
//!
//! Components sit densely in `data`, parallel to `dense` (which entity owns
//! each slot) and to the per-slot tracking timestamps; `sparse` maps an
//! entity's index back to its dense slot.  Deleted components and removed
//! ids are kept, with timestamps, for the tracking queries.

use vstd::prelude::*;

use crate::entity::EntityId;
use crate::tracking::is_track_within_bounds;
use crate::tracking::track_within_bounds;

verus! {

/// A sparse-set storage for components of type `T`.
pub struct SparseSet<T> {
    /// Entity index to dense slot.
    pub sparse: Vec<Option<usize>>,
    /// Which entity owns each dense slot.
    pub dense: Vec<EntityId>,
    /// The components, one per dense slot.
    pub data: Vec<T>,
    /// When each component was inserted.
    pub insertion_data: Vec<u32>,
    /// When each component was last modified.
    pub modification_data: Vec<u32>,
    /// Deleted components, with their deletion timestamps.
    pub deletion_data: Vec<(EntityId, u32, T)>,
    /// Removed ids, with their removal timestamps.
    pub removal_data: Vec<(EntityId, u32)>,
    /// Whether insertions are tracked.
    pub is_tracking_insertion: bool,
    /// Whether modifications are tracked.
    pub is_tracking_modification: bool,
    /// Whether deletions are tracked.
    pub is_tracking_deletion: bool,
    /// Whether removals are tracked.
    pub is_tracking_removal: bool,
    /// The insertion flags are cleared up to here.
    pub last_insert: u32,
    /// The modification flags are cleared up to here.
    pub last_modification: u32,
}

impl<T> SparseSet<T> {
    /// Well-formedness: the dense columns line up, and `sparse` is exactly
    /// the inverse of `dense`.
    pub open spec fn wf(&self) -> bool {
        &&& self.data@.len() == self.dense@.len()
        &&& self.insertion_data@.len() == self.dense@.len()
        &&& self.modification_data@.len() == self.dense@.len()
        &&& (forall|d: int|
            0 <= d < self.dense@.len() ==> (#[trigger] self.dense@[d]).index
                < self.sparse@.len() && (self.sparse@[self.dense@[d].index as int] matches Some(dd)
                && dd as int == d))
        &&& (forall|s: int|
            0 <= s < self.sparse@.len() ==> ((#[trigger] self.sparse@[s]) matches Some(d) ==> d
                < self.dense@.len() && self.dense@[d as int].index == s))
    }

    /// The dense slot of an entity's component, if it has one.
    pub open spec fn lookup(&self, entity: EntityId) -> Option<usize> {
        if entity.index < self.sparse@.len() {
            self.sparse@[entity.index as int]
        } else {
            None
        }
    }

    /// Whether the entity has a component here.
    pub open spec fn contains_spec(&self, entity: EntityId) -> bool {
        self.lookup(entity) is Some
    }

    /// An empty storage tracking everything.
    pub fn new() -> (r: SparseSet<T>)
        ensures
            r.wf(),
            r.dense@.len() == 0,
            r.sparse@.len() == 0,
            r.deletion_data@.len() == 0,
            r.removal_data@.len() == 0,
            r.is_tracking_insertion && r.is_tracking_modification && r.is_tracking_deletion
                && r.is_tracking_removal,
            r.last_insert == 0 && r.last_modification == 0,
    {
        SparseSet {
            sparse: Vec::new(),
            dense: Vec::new(),
            data: Vec::new(),
            insertion_data: Vec::new(),
            modification_data: Vec::new(),
            deletion_data: Vec::new(),
            removal_data: Vec::new(),
            is_tracking_insertion: true,
            is_tracking_modification: true,
            is_tracking_deletion: true,
            is_tracking_removal: true,
            last_insert: 0,
            last_modification: 0,
        }
    }

    /// How many components are stored.
    pub fn len(&self) -> (r: usize)
        ensures
            r == self.dense@.len(),
    {
        self.dense.len()
    }

    /// Whether nothing is stored.
    pub fn is_empty(&self) -> (r: bool)
        ensures
            r == (self.dense@.len() == 0),
    {
        self.dense.is_empty()
    }

    /// The dense slot of the entity's component, if it has one.
    pub fn index_of(&self, entity: EntityId) -> (r: Option<usize>)
        ensures
            r == self.lookup(entity),
    {
        if entity.index < self.sparse.len() {
            self.sparse[entity.index]
        } else {
            None
        }
    }

    /// Whether the entity has a component here.
    pub fn contains(&self, entity: EntityId) -> (r: bool)
        ensures
            r == self.contains_spec(entity),
    {
        self.index_of(entity).is_some()
    }
}

/// Replaces the element at `i`.
pub fn vec_set<T>(v: &mut Vec<T>, i: usize, value: T)
    requires
        i < old(v)@.len(),
    ensures
        final(v)@ == old(v)@.update(i as int, value),
{
    let _ = v.remove(i);
    v.insert(i, value);
    proof {
        assert(v@ =~= old(v)@.update(i as int, value));
    }
}

impl<T> SparseSet<T> {
    /// Inserts a component for the entity: a new entity takes a fresh
    /// dense slot stamped as inserted now; an entity that already has one
    /// gets the value replaced and stamped as modified now, the old value
    /// handed back.
    pub fn insert(&mut self, entity: EntityId, value: T, current: u32) -> (r: Option<T>)
        requires
            old(self).wf(),
            old(self).dense@.len() < usize::MAX,
            entity.index < usize::MAX,
        ensures
            final(self).wf(),
            final(self).contains_spec(entity),
            match r {
                Some(old_value) => {
                    &&& old(self).lookup(entity) matches Some(d) && old_value == old(self).data@[d as int] && final(self).data@ == old(self).data@.update(
                        d as int,
                        value,
                    ) && final(self).modification_data@ == old(self).modification_data@.update(
                        d as int,
                        current,
                    )
                    &&& final(self).dense@ == old(self).dense@
                    &&& final(self).sparse@ == old(self).sparse@
                    &&& final(self).insertion_data@ == old(self).insertion_data@
                },
                None => {
                    &&& !old(self).contains_spec(entity)
                    &&& final(self).dense@ == old(self).dense@.push(entity)
                    &&& final(self).data@ == old(self).data@.push(value)
                    &&& final(self).insertion_data@ == old(self).insertion_data@.push(current)
                    &&& final(self).modification_data@ == old(self).modification_data@.push(0)
                },
            },
            final(self).deletion_data@ == old(self).deletion_data@,
            final(self).removal_data@ == old(self).removal_data@,
    {
        let ghost old_self = *self;
        match self.index_of(entity) {
            Some(d) => {
                let old_value = self.data.remove(d);
                self.data.insert(d, value);
                vec_set(&mut self.modification_data, d, current);
                proof {
                    assert(self.data@ =~= old_self.data@.update(d as int, value));
                }
                Some(old_value)
            },
            None => {
                while self.sparse.len() <= entity.index
                    invariant
                        old(self).wf(),
                        entity.index < usize::MAX,
                        self.sparse@.len() >= old(self).sparse@.len(),
                        forall|s: int|
                            0 <= s < self.sparse@.len() ==> #[trigger] self.sparse@[s] == (
                            if s < old(self).sparse@.len() {
                                old(self).sparse@[s]
                            } else {
                                None
                            }),
                        self.dense == old(self).dense,
                        self.data == old(self).data,
                        self.insertion_data == old(self).insertion_data,
                        self.modification_data == old(self).modification_data,
                        self.deletion_data == old(self).deletion_data,
                        self.removal_data == old(self).removal_data,
                    decreases entity.index + 1 - self.sparse@.len(),
                {
                    self.sparse.push(None);
                }
                let slot = self.dense.len();
                vec_set(&mut self.sparse, entity.index, Some(slot));
                self.dense.push(entity);
                self.data.push(value);
                self.insertion_data.push(current);
                self.modification_data.push(0);
                proof {
                    assert forall|d: int|
                        0 <= d < self.dense@.len() implies (#[trigger] self.dense@[d]).index
                        < self.sparse@.len() && (self.sparse@[self.dense@[d].index as int] matches
                    Some(dd) && dd as int == d) by {
                        if d < old_self.dense@.len() {
                            assert(self.dense@[d] == old_self.dense@[d]);
                            assert(old_self.dense@[d].index != entity.index);
                        }
                    }
                    assert forall|s: int|
                        0 <= s < self.sparse@.len() implies ((#[trigger] self.sparse@[s]) matches
                    Some(d) ==> d < self.dense@.len() && self.dense@[d as int].index == s) by {
                        if s != entity.index && s < old_self.sparse@.len() {
                            assert(self.sparse@[s] == old_self.sparse@[s]);
                        }
                    }
                }
                None
            },
        }
    }

    /// Takes the entity's component out, if it has one, closing the gap
    /// with the last dense slot.  Records nothing; the tracking variants
    /// build on this.
    pub fn actual_remove(&mut self, entity: EntityId) -> (r: Option<T>)
        requires
            old(self).wf(),
        ensures
            final(self).wf(),
            !final(self).contains_spec(entity),
            match r {
                Some(value) => {
                    &&& old(self).lookup(entity) matches Some(d) && value == old(self).data@[
                        d as int
                    ]
                    &&& final(self).dense@.len() == old(self).dense@.len() - 1
                    &&& (forall|e: EntityId|
                        e != entity ==> final(self).contains_spec(e) == old(self).contains_spec(e))
                },
                None => {
                    &&& !old(self).contains_spec(entity)
                    &&& *final(self) == *old(self)
                },
            },
            final(self).deletion_data@ == old(self).deletion_data@,
            final(self).removal_data@ == old(self).removal_data@,
            final(self).is_tracking_insertion == old(self).is_tracking_insertion,
            final(self).is_tracking_modification == old(self).is_tracking_modification,
            final(self).is_tracking_deletion == old(self).is_tracking_deletion,
            final(self).is_tracking_removal == old(self).is_tracking_removal,
            final(self).last_insert == old(self).last_insert,
            final(self).last_modification == old(self).last_modification,
    {
        let ghost old_self = *self;
        match self.index_of(entity) {
            Some(d) => {
                let value = self.data.swap_remove(d);
                let moved = self.dense.swap_remove(d);
                let _ = self.insertion_data.swap_remove(d);
                let _ = self.modification_data.swap_remove(d);
                vec_set(&mut self.sparse, entity.index, None);
                if d < self.dense.len() {
                    let resident = self.dense[d];
                    proof {
                        assert(resident == old_self.dense@[old_self.dense@.len() - 1]);
                        assert(resident.index < self.sparse@.len());
                        assert(resident.index != entity.index);
                    }
                    vec_set(&mut self.sparse, resident.index, Some(d));
                }
                proof {
                    lemma_remove_wf(old_self, *self, entity, d as int);
                }
                Some(value)
            },
            None => None,
        }
    }
}

/// After a swap-removal the storage is well-formed again and membership
/// changes only for the removed entity.
proof fn lemma_remove_wf<T>(pre: SparseSet<T>, post: SparseSet<T>, entity: EntityId, d: int)
    requires
        pre.wf(),
        0 <= d < pre.dense@.len(),
        pre.lookup(entity) == Some(d as usize),
        pre.dense@[d].index == entity.index,
        post.dense@ == pre.dense@.update(d, pre.dense@.last()).drop_last(),
        post.data@ == pre.data@.update(d, pre.data@.last()).drop_last(),
        post.insertion_data@ == pre.insertion_data@.update(d, pre.insertion_data@.last()).drop_last(),
        post.modification_data@ == pre.modification_data@.update(
            d,
            pre.modification_data@.last(),
        ).drop_last(),
        post.sparse@ == (if d < pre.dense@.len() - 1 {
            pre.sparse@.update(entity.index as int, None).update(
                pre.dense@.last().index as int,
                Some(d as usize),
            )
        } else {
            pre.sparse@.update(entity.index as int, None)
        }),
    ensures
        post.wf(),
        !post.contains_spec(entity),
        forall|e: EntityId| e != entity ==> post.contains_spec(e) == pre.contains_spec(e),
{
    let last = pre.dense@.len() - 1;
    if d < last {
        assert(pre.dense@.last().index != entity.index) by {
            assert(pre.sparse@[pre.dense@.last().index as int] matches Some(dd) && dd as int
                == last);
        }
    }
    assert forall|dd: int|
        0 <= dd < post.dense@.len() implies (#[trigger] post.dense@[dd]).index
        < post.sparse@.len() && (post.sparse@[post.dense@[dd].index as int] matches Some(x) && x
        as int == dd) by {
        if dd == d {
            assert(post.dense@[dd] == pre.dense@.last());
        } else {
            assert(post.dense@[dd] == pre.dense@[dd]);
            assert(pre.dense@[dd].index != entity.index);
            if d < last {
                assert(pre.dense@[dd].index != pre.dense@.last().index) by {
                    assert(pre.sparse@[pre.dense@[dd].index as int] matches Some(x) && x as int
                        == dd);
                }
            }
        }
    }
    assert forall|s: int|
        0 <= s < post.sparse@.len() implies ((#[trigger] post.sparse@[s]) matches Some(x) ==> x
        < post.dense@.len() && post.dense@[x as int].index == s) by {
        if s == entity.index {
        } else if d < last && s == pre.dense@.last().index {
            assert(post.dense@[d] == pre.dense@.last());
        } else {
            assert(post.sparse@[s] == pre.sparse@[s]);
            if pre.sparse@[s] is Some {
                let x = pre.sparse@[s]->Some_0;
                assert(pre.dense@[x as int].index == s);
                assert(x as int != d);
                assert(x as int != last || (d == last));
            }
        }
    }
    assert forall|e: EntityId| e != entity implies post.contains_spec(e) == pre.contains_spec(
        e,
    ) by {
        if e.index == entity.index {
            if e.index < pre.sparse@.len() && pre.sparse@[e.index as int] is Some {
                let x = pre.sparse@[e.index as int]->Some_0;
                assert(pre.dense@[x as int].index == e.index);
            }
        }
    }
}

impl<T> SparseSet<T> {
    /// Deletes every component: when deletions are tracked each one moves,
    /// stamped now, into the deletion record; the storage itself is left
    /// empty.
    pub fn private_clear(&mut self, current: u32)
        requires
            old(self).wf(),
        ensures
            final(self).wf(),
            final(self).dense@.len() == 0,
            forall|e: EntityId| !final(self).contains_spec(e),
            old(self).is_tracking_deletion ==> final(self).deletion_data@.len() == old(self).deletion_data@.len() + old(self).dense@.len(),
            old(self).is_tracking_deletion ==> forall|i: int|
                0 <= i < old(self).dense@.len() ==> #[trigger] final(self).deletion_data@[old(self).deletion_data@.len() + i] == (old(self).dense@[i], current, old(self).data@[i]),
            !old(self).is_tracking_deletion ==> final(self).deletion_data@ == old(self).deletion_data@,
            final(self).removal_data@ == old(self).removal_data@,
            final(self).is_tracking_deletion == old(self).is_tracking_deletion,
            final(self).is_tracking_removal == old(self).is_tracking_removal,
    {
        let ghost old_self = *self;
        let mut k: usize = 0;
        while k < self.dense.len()
            invariant
                old(self).wf(),
                0 <= k <= self.dense@.len(),
                self.dense == old(self).dense,
                self.data == old(self).data,
                self.insertion_data == old(self).insertion_data,
                self.modification_data == old(self).modification_data,
                self.deletion_data == old(self).deletion_data,
                self.removal_data == old(self).removal_data,
                self.is_tracking_deletion == old(self).is_tracking_deletion,
                self.is_tracking_removal == old(self).is_tracking_removal,
                forall|s: int|
                    0 <= s < self.sparse@.len() ==> #[trigger] self.sparse@[s] == (
                    if exists|d: int| k <= d < self.dense@.len() && old(self).dense@[d].index == s {
                        old(self).sparse@[s]
                    } else {
                        None
                    }),
                self.sparse@.len() == old(self).sparse@.len(),
            decreases self.dense@.len() - k,
        {
            let e = self.dense[k];
            proof {
                assert(old(self).dense@[k as int].index == e.index);
                assert(e.index < self.sparse@.len());
            }
            vec_set(&mut self.sparse, e.index, None);
            proof {
                assert forall|s: int|
                    0 <= s < self.sparse@.len() implies #[trigger] self.sparse@[s] == (
                    if exists|d: int|
                        k + 1 <= d < self.dense@.len() && old(self).dense@[d].index == s {
                        old(self).sparse@[s]
                    } else {
                        None
                    }) by {
                    if s != e.index {
                        if exists|d: int|
                            k + 1 <= d < self.dense@.len() && old(self).dense@[d].index == s {
                            let d = choose|d: int|
                                k + 1 <= d < self.dense@.len() && old(self).dense@[d].index == s;
                            assert(k <= d < self.dense@.len());
                        }
                    } else {
                        if exists|d: int|
                            k + 1 <= d < self.dense@.len() && old(self).dense@[d].index == s {
                            let d = choose|d: int|
                                k + 1 <= d < self.dense@.len() && old(self).dense@[d].index == s;
                            assert(old(self).sparse@[s] matches Some(x) && x as int == d);
                            assert(old(self).sparse@[s] matches Some(x) && x as int == k);
                            assert(false);
                        }
                    }
                }
            }
            k += 1;
        }
        let is_tracking = self.is_tracking_deletion;
        let mut m: usize = 0;
        while m < self.dense.len()
            invariant
                0 <= m <= self.dense@.len(),
                self.dense == old(self).dense,
                self.sparse@.len() == old(self).sparse@.len(),
                forall|s: int| 0 <= s < self.sparse@.len() ==> (#[trigger] self.sparse@[s]) is None,
                self.data@.len() == old(self).data@.len() - m,
                old(self).data@.len() == old(self).dense@.len(),
                forall|i: int|
                    0 <= i < self.data@.len() ==> #[trigger] self.data@[i] == old(self).data@[
                        m + i
                    ],
                is_tracking == old(self).is_tracking_deletion,
                is_tracking ==> self.deletion_data@.len() == old(self).deletion_data@.len() + m,
                is_tracking ==> forall|i: int|
                    0 <= i < m ==> #[trigger] self.deletion_data@[old(self).deletion_data@.len()
                        + i] == (old(self).dense@[i], current, old(self).data@[i]),
                is_tracking ==> forall|i: int|
                    0 <= i < old(self).deletion_data@.len() ==> #[trigger] self.deletion_data@[i]
                        == old(self).deletion_data@[i],
                !is_tracking ==> self.deletion_data@ == old(self).deletion_data@,
                self.removal_data == old(self).removal_data,
                self.is_tracking_deletion == old(self).is_tracking_deletion,
                self.is_tracking_removal == old(self).is_tracking_removal,
            decreases self.dense@.len() - m,
        {
            let e = self.dense[m];
            let value = self.data.remove(0);
            if is_tracking {
                self.deletion_data.push((e, current, value));
            }
            m += 1;
        }
        self.dense.clear();
        self.data.clear();
        self.insertion_data.clear();
        self.modification_data.clear();
    }

    /// Empties the storage, handing the components back in dense order;
    /// when removals are tracked each id is recorded, stamped now.
    pub fn private_drain(&mut self, current: u32) -> (r: Vec<T>)
        requires
            old(self).wf(),
        ensures
            final(self).wf(),
            final(self).dense@.len() == 0,
            forall|e: EntityId| !final(self).contains_spec(e),
            r@.len() == old(self).dense@.len(),
            forall|i: int| 0 <= i < r@.len() ==> #[trigger] r@[i] == old(self).data@[i],
            old(self).is_tracking_removal ==> final(self).removal_data@.len() == old(self).removal_data@.len() + old(self).dense@.len(),
            old(self).is_tracking_removal ==> forall|i: int|
                0 <= i < old(self).dense@.len() ==> #[trigger] final(self).removal_data@[old(self).removal_data@.len() + i] == (old(self).dense@[i], current),
            !old(self).is_tracking_removal ==> final(self).removal_data@ == old(self).removal_data@,
            final(self).deletion_data@ == old(self).deletion_data@,
    {
        let ghost old_self = *self;
        let mut k: usize = 0;
        while k < self.dense.len()
            invariant
                old(self).wf(),
                0 <= k <= self.dense@.len(),
                self.dense == old(self).dense,
                self.data == old(self).data,
                self.insertion_data == old(self).insertion_data,
                self.modification_data == old(self).modification_data,
                self.deletion_data == old(self).deletion_data,
                self.is_tracking_removal == old(self).is_tracking_removal,
                self.is_tracking_removal ==> self.removal_data@.len() == old(self).removal_data@.len() + k,
                self.is_tracking_removal ==> forall|i: int|
                    0 <= i < k ==> #[trigger] self.removal_data@[old(self).removal_data@.len()
                        + i] == (old(self).dense@[i], current),
                self.is_tracking_removal ==> forall|i: int|
                    0 <= i < old(self).removal_data@.len() ==> #[trigger] self.removal_data@[i]
                        == old(self).removal_data@[i],
                !self.is_tracking_removal ==> self.removal_data == old(self).removal_data,
                forall|s: int|
                    0 <= s < self.sparse@.len() ==> #[trigger] self.sparse@[s] == (
                    if exists|d: int| k <= d < self.dense@.len() && old(self).dense@[d].index == s {
                        old(self).sparse@[s]
                    } else {
                        None
                    }),
                self.sparse@.len() == old(self).sparse@.len(),
            decreases self.dense@.len() - k,
        {
            let e = self.dense[k];
            proof {
                assert(old(self).dense@[k as int].index == e.index);
                assert(e.index < self.sparse@.len());
            }
            vec_set(&mut self.sparse, e.index, None);
            proof {
                assert forall|s: int|
                    0 <= s < self.sparse@.len() implies #[trigger] self.sparse@[s] == (
                    if exists|d: int|
                        k + 1 <= d < self.dense@.len() && old(self).dense@[d].index == s {
                        old(self).sparse@[s]
                    } else {
                        None
                    }) by {
                    if s != e.index {
                        if exists|d: int|
                            k + 1 <= d < self.dense@.len() && old(self).dense@[d].index == s {
                            let d = choose|d: int|
                                k + 1 <= d < self.dense@.len() && old(self).dense@[d].index == s;
                            assert(k <= d < self.dense@.len());
                        }
                    } else {
                        if exists|d: int|
                            k + 1 <= d < self.dense@.len() && old(self).dense@[d].index == s {
                            let d = choose|d: int|
                                k + 1 <= d < self.dense@.len() && old(self).dense@[d].index == s;
                            assert(old(self).sparse@[s] matches Some(x) && x as int == d);
                            assert(old(self).sparse@[s] matches Some(x) && x as int == k);
                            assert(false);
                        }
                    }
                }
            }
            if self.is_tracking_removal {
                self.removal_data.push((e, current));
            }
            k += 1;
        }
        let mut components = Vec::new();
        core::mem::swap(&mut components, &mut self.data);
        self.dense.clear();
        self.insertion_data.clear();
        self.modification_data.clear();
        components
    }

    /// Removes the *inserted* flags on every component.
    pub fn private_clear_all_inserted(&mut self, current: u32)
        ensures
            *final(self) == (SparseSet { last_insert: current, ..*old(self) }),
    {
        self.last_insert = current;
    }

    /// Removes the *modified* flags on every component.
    pub fn private_clear_all_modified(&mut self, current: u32)
        ensures
            *final(self) == (SparseSet { last_modification: current, ..*old(self) }),
    {
        self.last_modification = current;
    }

    /// Removes the *inserted* and *modified* flags on every component.
    pub fn private_clear_all_inserted_and_modified(&mut self, current: u32)
        ensures
            *final(self) == (SparseSet {
                last_insert: current,
                last_modification: current,
                ..*old(self)
            }),
    {
        self.last_insert = current;
        self.last_modification = current;
    }
}

/// Whether a record with this timestamp survives a cleanup up to
/// `timestamp`: it does when the cutoff lies within half a counter range
/// behind the record, that is, the record is not older than the cutoff.
pub open spec fn record_outlives(stamp: u32, timestamp: u32) -> bool {
    track_within_bounds(
        timestamp,
        vstd::wrapping::u32_specs::wrapping_sub(stamp, 0x8000_0000),
        stamp,
    )
}

/// The first `n` removal records that survive a cleanup up to `timestamp`,
/// in record order.
pub open spec fn kept_removals(s: Seq<(EntityId, u32)>, timestamp: u32, n: int) -> Seq<
    (EntityId, u32),
>
    decreases n,
{
    if n <= 0 {
        seq![]
    } else if record_outlives(s[n - 1].1, timestamp) {
        kept_removals(s, timestamp, n - 1).push(s[n - 1])
    } else {
        kept_removals(s, timestamp, n - 1)
    }
}

/// The first `n` deletion records that survive a cleanup up to
/// `timestamp`, in record order.
pub open spec fn kept_deletions<T>(s: Seq<(EntityId, u32, T)>, timestamp: u32, n: int) -> Seq<
    (EntityId, u32, T),
>
    decreases n,
{
    if n <= 0 {
        seq![]
    } else if record_outlives(s[n - 1].1, timestamp) {
        kept_deletions(s, timestamp, n - 1).push(s[n - 1])
    } else {
        kept_deletions(s, timestamp, n - 1)
    }
}

impl<T> SparseSet<T> {
    /// Takes the entity's component out and, when removals are tracked,
    /// records the id as removed now.
    pub fn remove(&mut self, entity: EntityId, current: u32) -> (r: Option<T>)
        requires
            old(self).wf(),
        ensures
            final(self).wf(),
            !final(self).contains_spec(entity),
            match r {
                Some(value) => {
                    &&& old(self).contains_spec(entity)
                    &&& (old(self).is_tracking_removal ==> final(self).removal_data@ == old(self).removal_data@.push((entity, current)))
                    &&& (!old(self).is_tracking_removal ==> final(self).removal_data@ == old(self).removal_data@)
                },
                None => {
                    &&& !old(self).contains_spec(entity)
                    &&& final(self).removal_data@ == old(self).removal_data@
                },
            },
            final(self).deletion_data@ == old(self).deletion_data@,
    {
        let removed = self.actual_remove(entity);
        if removed.is_some() && self.is_tracking_removal {
            self.removal_data.push((entity, current));
        }
        removed
    }

    /// Deletes the entity's component: it is taken out and, when deletions
    /// are tracked, moved with its value into the deletion record, stamped
    /// now.  Reports whether anything was there.
    pub fn delete(&mut self, entity: EntityId, current: u32) -> (r: bool)
        requires
            old(self).wf(),
        ensures
            final(self).wf(),
            !final(self).contains_spec(entity),
            r == old(self).contains_spec(entity),
            r && old(self).is_tracking_deletion ==> final(self).deletion_data@.len() == old(self).deletion_data@.len() + 1 && final(self).deletion_data@.last().0 == entity && final(self).deletion_data@.last().1 == current,
            !(r && old(self).is_tracking_deletion) ==> final(self).deletion_data@ == old(self).deletion_data@,
            final(self).removal_data@ == old(self).removal_data@,
    {
        match self.actual_remove(entity) {
            Some(value) => {
                if self.is_tracking_deletion {
                    self.deletion_data.push((entity, current, value));
                }
                true
            },
            None => false,
        }
    }

    /// Forgets every removal and deletion record.
    pub fn clear_all_removed_and_deleted(&mut self)
        ensures
            final(self).deletion_data@.len() == 0,
            final(self).removal_data@.len() == 0,
            final(self).dense@ == old(self).dense@,
            final(self).data@ == old(self).data@,
            final(self).sparse@ == old(self).sparse@,
            final(self).insertion_data@ == old(self).insertion_data@,
            final(self).modification_data@ == old(self).modification_data@,
    {
        self.deletion_data.clear();
        self.removal_data.clear();
    }

    /// Forgets the removal and deletion records older than the timestamp,
    /// keeping the newer ones in order.
    pub fn clear_all_removed_and_deleted_older_than_timestamp(&mut self, timestamp: u32)
        ensures
            final(self).deletion_data@ == kept_deletions(
                old(self).deletion_data@,
                timestamp,
                old(self).deletion_data@.len() as int,
            ),
            final(self).removal_data@ == kept_removals(
                old(self).removal_data@,
                timestamp,
                old(self).removal_data@.len() as int,
            ),
            final(self).dense@ == old(self).dense@,
            final(self).data@ == old(self).data@,
            final(self).sparse@ == old(self).sparse@,
            final(self).insertion_data@ == old(self).insertion_data@,
            final(self).modification_data@ == old(self).modification_data@,
    {
        let ghost old_deletions = self.deletion_data@;
        proof {
            assert(old_deletions.len() <= usize::MAX) by {
                assert(self.deletion_data@.len() == vstd::std_specs::vec::spec_vec_len(
                    &self.deletion_data,
                ));
            }
        }
        let mut kept_del: Vec<(EntityId, u32, T)> = Vec::new();
        let mut i: usize = 0;
        while self.deletion_data.len() > 0
            invariant
                0 <= i <= old_deletions.len(),
                old_deletions.len() <= usize::MAX,
                i + self.deletion_data@.len() == old_deletions.len(),
                self.removal_data == old(self).removal_data,
                self.dense == old(self).dense,
                self.data == old(self).data,
                self.sparse == old(self).sparse,
                self.insertion_data == old(self).insertion_data,
                self.modification_data == old(self).modification_data,
                forall|j: int|
                    0 <= j < self.deletion_data@.len() ==> #[trigger] self.deletion_data@[j]
                        == old_deletions[i + j],
                kept_del@ == kept_deletions(old_deletions, timestamp, i as int),
            decreases self.deletion_data@.len(),
        {
            let entry = self.deletion_data.remove(0);
            proof {
                assert(entry == old_deletions[i as int]);
            }
            let keep = is_track_within_bounds(
                timestamp,
                entry.1.wrapping_sub(0x8000_0000),
                entry.1,
            );
            proof {
                assert(keep == record_outlives(entry.1, timestamp));
            }
            if keep {
                kept_del.push(entry);
            }
            i += 1;
        }
        proof {
            assert(i as int == old_deletions.len());
        }
        core::mem::swap(&mut self.deletion_data, &mut kept_del);
        let ghost deletions_kept = self.deletion_data@;
        let ghost old_removals = self.removal_data@;
        proof {
            assert(old_removals.len() <= usize::MAX) by {
                assert(self.removal_data@.len() == vstd::std_specs::vec::spec_vec_len(
                    &self.removal_data,
                ));
            }
        }
        let mut kept_rem: Vec<(EntityId, u32)> = Vec::new();
        let mut k: usize = 0;
        while self.removal_data.len() > 0
            invariant
                0 <= k <= old_removals.len(),
                old_removals.len() <= usize::MAX,
                k + self.removal_data@.len() == old_removals.len(),
                self.deletion_data@ == deletions_kept,
                self.dense == old(self).dense,
                self.data == old(self).data,
                self.sparse == old(self).sparse,
                self.insertion_data == old(self).insertion_data,
                self.modification_data == old(self).modification_data,
                forall|j: int|
                    0 <= j < self.removal_data@.len() ==> #[trigger] self.removal_data@[j]
                        == old_removals[k + j],
                kept_rem@ == kept_removals(old_removals, timestamp, k as int),
            decreases self.removal_data@.len(),
        {
            let entry = self.removal_data.remove(0);
            proof {
                assert(entry == old_removals[k as int]);
            }
            let keep = is_track_within_bounds(
                timestamp,
                entry.1.wrapping_sub(0x8000_0000),
                entry.1,
            );
            proof {
                assert(keep == record_outlives(entry.1, timestamp));
            }
            if keep {
                kept_rem.push(entry);
            }
            k += 1;
        }
        proof {
            assert(k as int == old_removals.len());
        }
        core::mem::swap(&mut self.removal_data, &mut kept_rem);
    }
}

} // verus!
