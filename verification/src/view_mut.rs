//! Exclusive view over a component storage.
//!
//! A view owns the storage for the duration of a borrow and answers the
//! tracking queries against the window the world handed out: what counts
//! as newly inserted, modified, deleted or removed for the running system.

use vstd::prelude::*;

use crate::entity::EntityId;
use crate::sparse_set::SparseSet;
use crate::sparse_set::vec_set;
use crate::tracking::is_track_within_bounds;
use crate::tracking::track_within_bounds;

verus! {

/// Exclusive view over a [`SparseSet`].
pub struct ViewMut<T> {
    /// The storage.
    pub sparse_set: SparseSet<T>,
    /// Insertions after this point count as new.
    pub last_insertion: u32,
    /// Modifications after this point count as new.
    pub last_modification: u32,
    /// Removals and deletions after this point count as new.
    pub last_removal_or_deletion: u32,
    /// The running system's own timestamp.
    pub current: u32,
}

impl<T> ViewMut<T> {
    /// Whether the entity's deletion record falls inside the window.
    pub open spec fn deleted_spec(&self, entity: EntityId) -> bool {
        exists|i: int|
            0 <= i < self.sparse_set.deletion_data@.len() && (
            #[trigger] self.sparse_set.deletion_data@[i]).0 == entity && track_within_bounds(
                self.sparse_set.deletion_data@[i].1,
                self.last_removal_or_deletion,
                self.current,
            )
    }

    /// Whether the entity's removal record falls inside the window.
    pub open spec fn removed_spec(&self, entity: EntityId) -> bool {
        exists|i: int|
            0 <= i < self.sparse_set.removal_data@.len() && (
            #[trigger] self.sparse_set.removal_data@[i]).0 == entity && track_within_bounds(
                self.sparse_set.removal_data@[i].1,
                self.last_removal_or_deletion,
                self.current,
            )
    }

    /// Whether the entity's component was inserted inside the window.
    pub open spec fn inserted_spec(&self, entity: EntityId) -> bool {
        self.sparse_set.lookup(entity) matches Some(d) && track_within_bounds(
            self.sparse_set.insertion_data@[d as int],
            self.last_insertion,
            self.current,
        )
    }

    /// Whether the entity's component was modified inside the window.
    pub open spec fn modified_spec(&self, entity: EntityId) -> bool {
        self.sparse_set.lookup(entity) matches Some(d) && track_within_bounds(
            self.sparse_set.modification_data@[d as int],
            self.last_modification,
            self.current,
        )
    }

    /// A view over the storage, answering tracking queries against the
    /// given window.
    pub fn new(
        sparse_set: SparseSet<T>,
        last_insertion: u32,
        last_modification: u32,
        last_removal_or_deletion: u32,
        current: u32,
    ) -> (r: ViewMut<T>)
        ensures
            r.sparse_set == sparse_set,
            r.last_insertion == last_insertion,
            r.last_modification == last_modification,
            r.last_removal_or_deletion == last_removal_or_deletion,
            r.current == current,
    {
        ViewMut { sparse_set, last_insertion, last_modification, last_removal_or_deletion, current }
    }

    /// Deletes all components in this storage, recording them as deleted
    /// now when deletions are tracked.
    pub fn clear(&mut self)
        requires
            old(self).sparse_set.wf(),
        ensures
            final(self).sparse_set.wf(),
            final(self).sparse_set.dense@.len() == 0,
            forall|e: EntityId| !final(self).sparse_set.contains_spec(e),
            old(self).sparse_set.is_tracking_deletion ==> final(self).sparse_set.deletion_data@.len() == old(self).sparse_set.deletion_data@.len() + old(self).sparse_set.dense@.len(),
            final(self).current == old(self).current,
    {
        let current = self.current;
        self.sparse_set.private_clear(current);
    }

    /// Empties the storage and hands back the components, in dense order,
    /// recording their ids as removed now when removals are tracked.
    pub fn drain(&mut self) -> (r: Vec<T>)
        requires
            old(self).sparse_set.wf(),
        ensures
            final(self).sparse_set.wf(),
            final(self).sparse_set.dense@.len() == 0,
            r@.len() == old(self).sparse_set.dense@.len(),
            forall|i: int| 0 <= i < r@.len() ==> #[trigger] r@[i] == old(self).sparse_set.data@[i],
            old(self).sparse_set.is_tracking_removal ==> final(self).sparse_set.removal_data@.len() == old(self).sparse_set.removal_data@.len() + old(self).sparse_set.dense@.len(),
    {
        let current = self.current;
        self.sparse_set.private_drain(current)
    }

    /// Whether the entity's component was inserted since the last run of
    /// this system, or since the insertion flags were last cleared.
    pub fn is_inserted(&self, entity: EntityId) -> (r: bool)
        requires
            self.sparse_set.wf(),
        ensures
            r == self.inserted_spec(entity),
    {
        match self.sparse_set.index_of(entity) {
            Some(d) => is_track_within_bounds(
                self.sparse_set.insertion_data[d],
                self.last_insertion,
                self.current,
            ),
            None => false,
        }
    }

    /// Whether the entity's component was modified since the last run of
    /// this system, or since the modification flags were last cleared.
    pub fn is_modified(&self, entity: EntityId) -> (r: bool)
        requires
            self.sparse_set.wf(),
        ensures
            r == self.modified_spec(entity),
    {
        match self.sparse_set.index_of(entity) {
            Some(d) => is_track_within_bounds(
                self.sparse_set.modification_data[d],
                self.last_modification,
                self.current,
            ),
            None => false,
        }
    }

    /// Whether the entity's component was inserted or modified inside the
    /// window.
    pub fn is_inserted_or_modified(&self, entity: EntityId) -> (r: bool)
        requires
            self.sparse_set.wf(),
        ensures
            r == (self.inserted_spec(entity) || self.modified_spec(entity)),
    {
        self.is_inserted(entity) || self.is_modified(entity)
    }

    /// The ids whose components were inserted inside the window, in dense
    /// order.
    pub fn inserted(&self) -> (r: Vec<EntityId>)
        requires
            self.sparse_set.wf(),
        ensures
            r@ == inserted_ids(*self, self.sparse_set.dense@.len() as int),
    {
        let mut r: Vec<EntityId> = Vec::new();
        let mut d: usize = 0;
        while d < self.sparse_set.dense.len()
            invariant
                self.sparse_set.wf(),
                0 <= d <= self.sparse_set.dense@.len(),
                r@ == inserted_ids(*self, d as int),
            decreases self.sparse_set.dense@.len() - d,
        {
            if is_track_within_bounds(
                self.sparse_set.insertion_data[d],
                self.last_insertion,
                self.current,
            ) {
                r.push(self.sparse_set.dense[d]);
            }
            d += 1;
        }
        r
    }

    /// The ids whose components were inserted inside the window, from a
    /// view that may also write.
    pub fn inserted_mut(&mut self) -> (r: Vec<EntityId>)
        requires
            old(self).sparse_set.wf(),
        ensures
            *final(self) == *old(self),
            r@ == inserted_ids(*old(self), old(self).sparse_set.dense@.len() as int),
    {
        self.inserted()
    }

    /// The ids whose components were modified inside the window, in dense
    /// order.
    pub fn modified(&self) -> (r: Vec<EntityId>)
        requires
            self.sparse_set.wf(),
        ensures
            r@ == modified_ids(*self, self.sparse_set.dense@.len() as int),
    {
        let mut r: Vec<EntityId> = Vec::new();
        let mut d: usize = 0;
        while d < self.sparse_set.dense.len()
            invariant
                self.sparse_set.wf(),
                0 <= d <= self.sparse_set.dense@.len(),
                r@ == modified_ids(*self, d as int),
            decreases self.sparse_set.dense@.len() - d,
        {
            if is_track_within_bounds(
                self.sparse_set.modification_data[d],
                self.last_modification,
                self.current,
            ) {
                r.push(self.sparse_set.dense[d]);
            }
            d += 1;
        }
        r
    }

    /// The ids whose components were modified inside the window, from a
    /// view that may also write.
    pub fn modified_mut(&mut self) -> (r: Vec<EntityId>)
        requires
            old(self).sparse_set.wf(),
        ensures
            *final(self) == *old(self),
            r@ == modified_ids(*old(self), old(self).sparse_set.dense@.len() as int),
    {
        self.modified()
    }

    /// The ids whose components were inserted or modified inside the
    /// window, in dense order.
    pub fn inserted_or_modified(&self) -> (r: Vec<EntityId>)
        requires
            self.sparse_set.wf(),
        ensures
            r@ == inserted_or_modified_ids(*self, self.sparse_set.dense@.len() as int),
    {
        let mut r: Vec<EntityId> = Vec::new();
        let mut d: usize = 0;
        while d < self.sparse_set.dense.len()
            invariant
                self.sparse_set.wf(),
                0 <= d <= self.sparse_set.dense@.len(),
                r@ == inserted_or_modified_ids(*self, d as int),
            decreases self.sparse_set.dense@.len() - d,
        {
            if is_track_within_bounds(
                self.sparse_set.insertion_data[d],
                self.last_insertion,
                self.current,
            ) || is_track_within_bounds(
                self.sparse_set.modification_data[d],
                self.last_modification,
                self.current,
            ) {
                r.push(self.sparse_set.dense[d]);
            }
            d += 1;
        }
        r
    }

    /// The ids whose components were inserted or modified inside the
    /// window, from a view that may also write.
    pub fn inserted_or_modified_mut(&mut self) -> (r: Vec<EntityId>)
        requires
            old(self).sparse_set.wf(),
        ensures
            *final(self) == *old(self),
            r@ == inserted_or_modified_ids(
                *old(self),
                old(self).sparse_set.dense@.len() as int,
            ),
    {
        self.inserted_or_modified()
    }

    /// Removes the *inserted* flags on all components, handing the storage
    /// back.
    pub fn clear_all_inserted(self) -> (r: SparseSet<T>)
        ensures
            r == (SparseSet { last_insert: self.current, ..self.sparse_set }),
    {
        let mut sparse_set = self.sparse_set;
        sparse_set.private_clear_all_inserted(self.current);
        sparse_set
    }

    /// Removes the *modified* flags on all components, handing the storage
    /// back.
    pub fn clear_all_modified(self) -> (r: SparseSet<T>)
        ensures
            r == (SparseSet { last_modification: self.current, ..self.sparse_set }),
    {
        let mut sparse_set = self.sparse_set;
        sparse_set.private_clear_all_modified(self.current);
        sparse_set
    }

    /// Removes the *inserted* and *modified* flags on all components,
    /// handing the storage back.
    pub fn clear_all_inserted_and_modified(self) -> (r: SparseSet<T>)
        ensures
            r == (SparseSet {
                last_insert: self.current,
                last_modification: self.current,
                ..self.sparse_set
            }),
    {
        let mut sparse_set = self.sparse_set;
        sparse_set.private_clear_all_inserted_and_modified(self.current);
        sparse_set
    }

    /// Whether the entity's component was deleted inside the window.
    pub fn is_deleted(&self, entity: EntityId) -> (r: bool)
        ensures
            r == self.deleted_spec(entity),
    {
        let mut i: usize = 0;
        while i < self.sparse_set.deletion_data.len()
            invariant
                0 <= i <= self.sparse_set.deletion_data@.len(),
                forall|j: int|
                    0 <= j < i ==> !((#[trigger] self.sparse_set.deletion_data@[j]).0 == entity
                        && track_within_bounds(
                        self.sparse_set.deletion_data@[j].1,
                        self.last_removal_or_deletion,
                        self.current,
                    )),
            decreases self.sparse_set.deletion_data@.len() - i,
        {
            let hit = self.sparse_set.deletion_data[i].0 == entity && is_track_within_bounds(
                self.sparse_set.deletion_data[i].1,
                self.last_removal_or_deletion,
                self.current,
            );
            if hit {
                return true;
            }
            i += 1;
        }
        false
    }

    /// The ids of components deleted inside the window, in record order.
    pub fn deleted(&self) -> (r: Vec<EntityId>)
        ensures
            r@ == deleted_ids(*self, self.sparse_set.deletion_data@.len() as int),
    {
        let mut r: Vec<EntityId> = Vec::new();
        let mut i: usize = 0;
        while i < self.sparse_set.deletion_data.len()
            invariant
                0 <= i <= self.sparse_set.deletion_data@.len(),
                r@ == deleted_ids(*self, i as int),
            decreases self.sparse_set.deletion_data@.len() - i,
        {
            if is_track_within_bounds(
                self.sparse_set.deletion_data[i].1,
                self.last_removal_or_deletion,
                self.current,
            ) {
                r.push(self.sparse_set.deletion_data[i].0);
            }
            i += 1;
        }
        r
    }

    /// Whether the entity's component was removed inside the window.
    pub fn is_removed(&self, entity: EntityId) -> (r: bool)
        ensures
            r == self.removed_spec(entity),
    {
        let mut i: usize = 0;
        while i < self.sparse_set.removal_data.len()
            invariant
                0 <= i <= self.sparse_set.removal_data@.len(),
                forall|j: int|
                    0 <= j < i ==> !((#[trigger] self.sparse_set.removal_data@[j]).0 == entity
                        && track_within_bounds(
                        self.sparse_set.removal_data@[j].1,
                        self.last_removal_or_deletion,
                        self.current,
                    )),
            decreases self.sparse_set.removal_data@.len() - i,
        {
            let hit = self.sparse_set.removal_data[i].0 == entity && is_track_within_bounds(
                self.sparse_set.removal_data[i].1,
                self.last_removal_or_deletion,
                self.current,
            );
            if hit {
                return true;
            }
            i += 1;
        }
        false
    }

    /// The ids of components removed inside the window, in record order.
    pub fn removed(&self) -> (r: Vec<EntityId>)
        ensures
            r@ == removed_ids(*self, self.sparse_set.removal_data@.len() as int),
    {
        let mut r: Vec<EntityId> = Vec::new();
        let mut i: usize = 0;
        while i < self.sparse_set.removal_data.len()
            invariant
                0 <= i <= self.sparse_set.removal_data@.len(),
                r@ == removed_ids(*self, i as int),
            decreases self.sparse_set.removal_data@.len() - i,
        {
            if is_track_within_bounds(
                self.sparse_set.removal_data[i].1,
                self.last_removal_or_deletion,
                self.current,
            ) {
                r.push(self.sparse_set.removal_data[i].0);
            }
            i += 1;
        }
        r
    }

    /// Whether the entity's component was removed or deleted inside the
    /// window.
    pub fn is_removed_or_deleted(&self, entity: EntityId) -> (r: bool)
        ensures
            r == (self.removed_spec(entity) || self.deleted_spec(entity)),
    {
        self.is_removed(entity) || self.is_deleted(entity)
    }

    /// The ids of components deleted or removed inside the window:
    /// deletions first, then removals, each in record order.
    pub fn removed_or_deleted(&self) -> (r: Vec<EntityId>)
        ensures
            r@ == deleted_ids(*self, self.sparse_set.deletion_data@.len() as int) + removed_ids(
                *self,
                self.sparse_set.removal_data@.len() as int,
            ),
    {
        let mut r = self.deleted();
        let mut removed = self.removed();
        r.append(&mut removed);
        r
    }
}

/// The ids of the first `n` dense slots whose insertion timestamp falls
/// inside the view's window, in dense order.
pub open spec fn inserted_ids<T>(v: ViewMut<T>, n: int) -> Seq<EntityId>
    decreases n,
{
    if n <= 0 {
        seq![]
    } else if track_within_bounds(
        v.sparse_set.insertion_data@[n - 1],
        v.last_insertion,
        v.current,
    ) {
        inserted_ids(v, n - 1).push(v.sparse_set.dense@[n - 1])
    } else {
        inserted_ids(v, n - 1)
    }
}

/// The ids of the first `n` dense slots whose modification timestamp falls
/// inside the view's window, in dense order.
pub open spec fn modified_ids<T>(v: ViewMut<T>, n: int) -> Seq<EntityId>
    decreases n,
{
    if n <= 0 {
        seq![]
    } else if track_within_bounds(
        v.sparse_set.modification_data@[n - 1],
        v.last_modification,
        v.current,
    ) {
        modified_ids(v, n - 1).push(v.sparse_set.dense@[n - 1])
    } else {
        modified_ids(v, n - 1)
    }
}

/// The ids of the first `n` dense slots whose insertion or modification
/// timestamp falls inside the view's window, in dense order.
pub open spec fn inserted_or_modified_ids<T>(v: ViewMut<T>, n: int) -> Seq<EntityId>
    decreases n,
{
    if n <= 0 {
        seq![]
    } else if track_within_bounds(
        v.sparse_set.insertion_data@[n - 1],
        v.last_insertion,
        v.current,
    ) || track_within_bounds(
        v.sparse_set.modification_data@[n - 1],
        v.last_modification,
        v.current,
    ) {
        inserted_or_modified_ids(v, n - 1).push(v.sparse_set.dense@[n - 1])
    } else {
        inserted_or_modified_ids(v, n - 1)
    }
}

/// The ids of the first `n` deletion records falling inside the view's
/// window, in record order.
pub open spec fn deleted_ids<T>(v: ViewMut<T>, n: int) -> Seq<EntityId>
    decreases n,
{
    if n <= 0 {
        seq![]
    } else if track_within_bounds(
        v.sparse_set.deletion_data@[n - 1].1,
        v.last_removal_or_deletion,
        v.current,
    ) {
        deleted_ids(v, n - 1).push(v.sparse_set.deletion_data@[n - 1].0)
    } else {
        deleted_ids(v, n - 1)
    }
}

/// The ids of the first `n` removal records falling inside the view's
/// window, in record order.
pub open spec fn removed_ids<T>(v: ViewMut<T>, n: int) -> Seq<EntityId>
    decreases n,
{
    if n <= 0 {
        seq![]
    } else if track_within_bounds(
        v.sparse_set.removal_data@[n - 1].1,
        v.last_removal_or_deletion,
        v.current,
    ) {
        removed_ids(v, n - 1).push(v.sparse_set.removal_data@[n - 1].0)
    } else {
        removed_ids(v, n - 1)
    }
}

impl<T> ViewMut<T> {
    /// Applies the function to the components of `a` and `b`: the first
    /// result replaces `a`'s component, which is marked modified now.  The
    /// two entities must be distinct and both present.
    pub fn apply<R, F: FnOnce(T, &T) -> (T, R)>(&mut self, a: EntityId, b: EntityId, f: F) -> (r:
        R)
        requires
            old(self).sparse_set.wf(),
            old(self).sparse_set.contains_spec(a),
            old(self).sparse_set.contains_spec(b),
            a != b,
            call_requires(
                f,
                (
                    old(self).sparse_set.data@[old(self).sparse_set.lookup(a)->Some_0 as int],
                    &old(self).sparse_set.data@[old(self).sparse_set.lookup(b)->Some_0 as int],
                ),
            ),
        ensures
            final(self).sparse_set.wf(),
            ({
                let da = old(self).sparse_set.lookup(a)->Some_0 as int;
                let db = old(self).sparse_set.lookup(b)->Some_0 as int;
                exists|out: (T, R)|
                    call_ensures(
                        f,
                        (old(self).sparse_set.data@[da], &old(self).sparse_set.data@[db]),
                        out,
                    ) && final(self).sparse_set.data@ == old(self).sparse_set.data@.update(
                        da,
                        out.0,
                    ) && r == out.1
            }),
            final(self).sparse_set.modification_data@ == old(
                self,
            ).sparse_set.modification_data@.update(
                old(self).sparse_set.lookup(a)->Some_0 as int,
                old(self).current,
            ),
            final(self).sparse_set.dense@ == old(self).sparse_set.dense@,
            final(self).sparse_set.sparse@ == old(self).sparse_set.sparse@,
            final(self).sparse_set.insertion_data@ == old(self).sparse_set.insertion_data@,
            final(self).sparse_set.deletion_data@ == old(self).sparse_set.deletion_data@,
            final(self).sparse_set.removal_data@ == old(self).sparse_set.removal_data@,
    {
        let ghost pre = self.sparse_set;
        let da = match self.sparse_set.index_of(a) {
            Some(d) => d,
            None => vstd::pervasive::unreached(),
        };
        let db = match self.sparse_set.index_of(b) {
            Some(d) => d,
            None => vstd::pervasive::unreached(),
        };
        proof {
            assert(pre.dense@[da as int].index == a.index);
            assert(pre.dense@[db as int].index == b.index);
            assert(a.index != b.index);
            assert(da != db);
        }
        let va = self.sparse_set.data.remove(da);
        let db_shifted = if db > da {
            db - 1
        } else {
            db
        };
        proof {
            assert(self.sparse_set.data@[db_shifted as int] == pre.data@[db as int]);
        }
        let (va_new, result) = f(va, &self.sparse_set.data[db_shifted]);
        self.sparse_set.data.insert(da, va_new);
        let current = self.current;
        vec_set(&mut self.sparse_set.modification_data, da, current);
        proof {
            assert(self.sparse_set.data@ =~= pre.data@.update(da as int, va_new));
        }
        result
    }

    /// Applies the function to the components of `a` and `b`: the first
    /// two results replace the components, both marked modified now.  The
    /// two entities must be distinct and both present.
    pub fn apply_mut<R, F: FnOnce(T, T) -> (T, T, R)>(&mut self, a: EntityId, b: EntityId, f: F)
        -> (r: R)
        requires
            old(self).sparse_set.wf(),
            old(self).sparse_set.contains_spec(a),
            old(self).sparse_set.contains_spec(b),
            a != b,
            call_requires(
                f,
                (
                    old(self).sparse_set.data@[old(self).sparse_set.lookup(a)->Some_0 as int],
                    old(self).sparse_set.data@[old(self).sparse_set.lookup(b)->Some_0 as int],
                ),
            ),
        ensures
            final(self).sparse_set.wf(),
            ({
                let da = old(self).sparse_set.lookup(a)->Some_0 as int;
                let db = old(self).sparse_set.lookup(b)->Some_0 as int;
                exists|out: (T, T, R)|
                    call_ensures(
                        f,
                        (old(self).sparse_set.data@[da], old(self).sparse_set.data@[db]),
                        out,
                    ) && final(self).sparse_set.data@ == old(self).sparse_set.data@.update(
                        da,
                        out.0,
                    ).update(db, out.1) && r == out.2
            }),
            final(self).sparse_set.modification_data@ == old(
                self,
            ).sparse_set.modification_data@.update(
                old(self).sparse_set.lookup(a)->Some_0 as int,
                old(self).current,
            ).update(old(self).sparse_set.lookup(b)->Some_0 as int, old(self).current),
            final(self).sparse_set.dense@ == old(self).sparse_set.dense@,
            final(self).sparse_set.sparse@ == old(self).sparse_set.sparse@,
            final(self).sparse_set.insertion_data@ == old(self).sparse_set.insertion_data@,
            final(self).sparse_set.deletion_data@ == old(self).sparse_set.deletion_data@,
            final(self).sparse_set.removal_data@ == old(self).sparse_set.removal_data@,
    {
        let ghost pre = self.sparse_set;
        let da = match self.sparse_set.index_of(a) {
            Some(d) => d,
            None => vstd::pervasive::unreached(),
        };
        let db = match self.sparse_set.index_of(b) {
            Some(d) => d,
            None => vstd::pervasive::unreached(),
        };
        proof {
            assert(pre.dense@[da as int].index == a.index);
            assert(pre.dense@[db as int].index == b.index);
            assert(a.index != b.index);
            assert(da != db);
        }
        let (first, second) = if da < db {
            (da, db)
        } else {
            (db, da)
        };
        let ghost after_second = pre.data@.remove(second as int);
        let vb = self.sparse_set.data.remove(second);
        let va = self.sparse_set.data.remove(first);
        proof {
            assert(va == pre.data@[first as int]);
            assert(vb == pre.data@[second as int]);
            assert(self.sparse_set.data@ == after_second.remove(first as int));
        }
        let (new_first, new_second, result) = if da < db {
            f(va, vb)
        } else {
            let (a_new, b_new, inner) = f(vb, va);
            (b_new, a_new, inner)
        };
        self.sparse_set.data.insert(first, new_first);
        proof {
            assert(self.sparse_set.data@ =~= after_second.update(first as int, new_first));
        }
        self.sparse_set.data.insert(second, new_second);
        let current = self.current;
        vec_set(&mut self.sparse_set.modification_data, da, current);
        vec_set(&mut self.sparse_set.modification_data, db, current);
        proof {
            assert(self.sparse_set.data@ =~= pre.data@.update(first as int, new_first).update(
                second as int,
                new_second,
            ));
            if da < db {
                assert(self.sparse_set.data@ =~= pre.data@.update(da as int, new_first).update(
                    db as int,
                    new_second,
                ));
            } else {
                assert(self.sparse_set.data@ =~= pre.data@.update(da as int, new_second).update(
                    db as int,
                    new_first,
                ));
            }
            assert(self.sparse_set.modification_data@ =~= pre.modification_data@.update(
                da as int,
                current,
            ).update(db as int, current));
        }
        result
    }
}

} // verus!
