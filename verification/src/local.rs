//! System-local storage and its exclusive view.

use vstd::prelude::*;

use crate::tracking::is_track_within_bounds;
use crate::tracking::track_within_bounds;

verus! {

/// A storage private to one system, holding a single value together with
/// its tracking timestamps.
pub struct LocalStorage<T> {
    /// The stored value.
    pub value: T,
    /// When the value was inserted.
    pub insert: u32,
    /// When the value was last modified.
    pub modification: u32,
    /// The insertion flag is cleared up to here.
    pub last_insert: u32,
    /// The modification flag is cleared up to here.
    pub last_modification: u32,
}

impl<T> LocalStorage<T> {
    /// A fresh local storage: inserted now, never modified, nothing
    /// cleared.
    pub fn new(value: T, current: u32) -> (r: LocalStorage<T>)
        ensures
            r.value == value,
            r.insert == current,
            r.modification == 0,
            r.last_insert == 0,
            r.last_modification == 0,
    {
        LocalStorage { value, insert: current, modification: 0, last_insert: 0, last_modification: 0 }
    }
}

/// Exclusive view over a local storage, together with the run timestamps
/// the tracking queries are answered against.
pub struct LocalViewMut<T> {
    /// The storage.
    pub local: LocalStorage<T>,
    /// Insertions after this point count as new.
    pub last_insertion: u32,
    /// Modifications after this point count as new.
    pub last_modification: u32,
    /// The running system's own timestamp.
    pub current: u32,
}

impl<T> LocalViewMut<T> {
    /// A view over the storage, answering tracking queries against the
    /// given window.
    pub fn new(local: LocalStorage<T>, last_insertion: u32, last_modification: u32, current: u32)
        -> (r: LocalViewMut<T>)
        ensures
            r.local == local,
            r.last_insertion == last_insertion,
            r.last_modification == last_modification,
            r.current == current,
    {
        LocalViewMut { local, last_insertion, last_modification, current }
    }

    /// Whether the value was inserted since the last clearing of the
    /// insertion flag.
    pub fn is_inserted(&self) -> (r: bool)
        ensures
            r == track_within_bounds(self.local.insert, self.last_insertion, self.current),
    {
        is_track_within_bounds(self.local.insert, self.last_insertion, self.current)
    }

    /// Whether the value was modified since the last clearing of the
    /// modification flag.
    pub fn is_modified(&self) -> (r: bool)
        ensures
            r == track_within_bounds(
                self.local.modification,
                self.last_modification,
                self.current,
            ),
    {
        is_track_within_bounds(self.local.modification, self.last_modification, self.current)
    }

    /// Whether the value was inserted or modified since the flags were
    /// last cleared.
    pub fn is_inserted_or_modified(&self) -> (r: bool)
        ensures
            r == (track_within_bounds(self.local.insert, self.last_insertion, self.current)
                || track_within_bounds(
                self.local.modification,
                self.last_modification,
                self.current,
            )),
    {
        self.is_inserted() || self.is_modified()
    }

    /// Clears the *inserted* flag, handing the storage back.
    pub fn clear_inserted(self) -> (r: LocalStorage<T>)
        ensures
            r.value == self.local.value,
            r.insert == self.local.insert,
            r.modification == self.local.modification,
            r.last_insert == self.current,
            r.last_modification == self.local.last_modification,
    {
        let mut local = self.local;
        local.last_insert = self.current;
        local
    }

    /// Clears the *modified* flag, handing the storage back.
    pub fn clear_modified(self) -> (r: LocalStorage<T>)
        ensures
            r.value == self.local.value,
            r.insert == self.local.insert,
            r.modification == self.local.modification,
            r.last_insert == self.local.last_insert,
            r.last_modification == self.current,
    {
        let mut local = self.local;
        local.last_modification = self.current;
        local
    }

    /// Clears both flags, handing the storage back.
    pub fn clear_inserted_and_modified(self) -> (r: LocalStorage<T>)
        ensures
            r.value == self.local.value,
            r.insert == self.local.insert,
            r.modification == self.local.modification,
            r.last_insert == self.current,
            r.last_modification == self.current,
    {
        let mut local = self.local;
        local.last_insert = self.current;
        local.last_modification = self.current;
        local
    }

    /// Read access to the value.
    pub fn as_ref(&self) -> (r: &T)
        ensures
            r == &self.local.value,
    {
        &self.local.value
    }

    /// Replaces the value, marking it modified now.
    pub fn set(&mut self, value: T)
        ensures
            final(self).local.value == value,
            final(self).local.modification == old(self).current,
            final(self).local.insert == old(self).local.insert,
            final(self).local.last_insert == old(self).local.last_insert,
            final(self).local.last_modification == old(self).local.last_modification,
            final(self).last_insertion == old(self).last_insertion,
            final(self).last_modification == old(self).last_modification,
            final(self).current == old(self).current,
    {
        self.local.value = value;
        self.local.modification = self.current;
    }
}

} // verus!
