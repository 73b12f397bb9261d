//! Borrow descriptors for every view kind.
//!
//! A system declares its borrows as a list of [`TypeInfo`] values.  The
//! constructors here cover the view matrix: shared or exclusive access to a
//! component, unique or entity storage, the aggregate storage, or a
//! system-local storage; the thread-affinity wrappers adjust whether the
//! borrow may be held away from the main worker.

use vstd::prelude::*;

use crate::ids::Mutability;
use crate::ids::StorageId;
use crate::ids::TypeId;
use crate::info::TypeInfo;
use crate::info::TypeInfoV;
use crate::packing::infos_view;

verus! {

/// Explains to a workload which storages are borrowed by a system.
///
/// The descriptors must accurately list everything the system's runner
/// borrows; the plan is sound only if they do.
pub trait BorrowInfo {
    /// The descriptors this value contributes, in order.
    spec fn borrows_of(&self) -> Seq<TypeInfoV>;

    /// Appends this value's descriptors to the list.  This information
    /// decides which systems can run in parallel.
    fn borrow_info(&self, info: &mut Vec<TypeInfo>)
        ensures
            infos_view(final(info)@) == infos_view(old(info)@) + self.borrows_of(),
    ;
}

impl BorrowInfo for TypeInfo {
    open spec fn borrows_of(&self) -> Seq<TypeInfoV> {
        seq![self@]
    }

    fn borrow_info(&self, info: &mut Vec<TypeInfo>) {
        info.push(*self);
        proof {
            assert(infos_view(info@) =~= infos_view(old(info)@) + seq![self@]);
        }
    }
}

impl BorrowInfo for Vec<TypeInfo> {
    open spec fn borrows_of(&self) -> Seq<TypeInfoV> {
        infos_view(self@)
    }

    fn borrow_info(&self, info: &mut Vec<TypeInfo>) {
        let mut i: usize = 0;
        while i < self.len()
            invariant
                0 <= i <= self@.len(),
                infos_view(info@) == infos_view(old(info)@) + infos_view(self@.take(i as int)),
            decreases self@.len() - i,
        {
            let ghost prev = info@;
            info.push(self[i]);
            proof {
                assert(info@ == prev.push(self@[i as int]));
                assert(infos_view(info@) =~= infos_view(prev).push(self@[i as int]@));
                assert(self@.take(i as int + 1) =~= self@.take(i as int).push(self@[i as int]));
                assert(infos_view(self@.take(i as int + 1)) =~= infos_view(
                    self@.take(i as int),
                ).push(self@[i as int]@));
                assert(infos_view(info@) =~= infos_view(old(info)@) + infos_view(
                    self@.take(i as int + 1),
                ));
            }
            i += 1;
        }
        proof {
            assert(self@.take(self@.len() as int) =~= self@);
        }
    }
}

impl TypeInfo {
    /// Shared access to a component storage.
    pub fn view_of(component: TypeId, name: &'static str) -> (r: TypeInfo)
        ensures
            r@ == (TypeInfoV {
                name: name@,
                mutability: Mutability::Shared,
                storage_id: StorageId::Global(component),
                thread_safe: true,
            }),
    {
        TypeInfo {
            name,
            mutability: Mutability::Shared,
            storage_id: StorageId::Global(component),
            thread_safe: true,
        }
    }

    /// Exclusive access to a component storage.
    pub fn view_mut_of(component: TypeId, name: &'static str) -> (r: TypeInfo)
        ensures
            r@ == (TypeInfoV {
                name: name@,
                mutability: Mutability::Exclusive,
                storage_id: StorageId::Global(component),
                thread_safe: true,
            }),
    {
        TypeInfo {
            name,
            mutability: Mutability::Exclusive,
            storage_id: StorageId::Global(component),
            thread_safe: true,
        }
    }

    /// Shared access to a unique storage.
    pub fn unique_view_of(unique: TypeId, name: &'static str) -> (r: TypeInfo)
        ensures
            r@ == (TypeInfoV {
                name: name@,
                mutability: Mutability::Shared,
                storage_id: StorageId::Unique(unique),
                thread_safe: true,
            }),
    {
        TypeInfo {
            name,
            mutability: Mutability::Shared,
            storage_id: StorageId::Unique(unique),
            thread_safe: true,
        }
    }

    /// Exclusive access to a unique storage.
    pub fn unique_view_mut_of(unique: TypeId, name: &'static str) -> (r: TypeInfo)
        ensures
            r@ == (TypeInfoV {
                name: name@,
                mutability: Mutability::Exclusive,
                storage_id: StorageId::Unique(unique),
                thread_safe: true,
            }),
    {
        TypeInfo {
            name,
            mutability: Mutability::Exclusive,
            storage_id: StorageId::Unique(unique),
            thread_safe: true,
        }
    }

    /// Exclusive access to a storage private to one system.  The storage
    /// id includes the owning system, so no other system can address it,
    /// and the borrow is pinned to the main worker.
    pub fn local_view_mut_of(component: TypeId, system: TypeId, name: &'static str) -> (r:
        TypeInfo)
        ensures
            r@ == (TypeInfoV {
                name: name@,
                mutability: Mutability::Exclusive,
                storage_id: StorageId::Local(component, system),
                thread_safe: false,
            }),
    {
        TypeInfo {
            name,
            mutability: Mutability::Exclusive,
            storage_id: StorageId::Local(component, system),
            thread_safe: false,
        }
    }

    /// Shared access to the entity-id storage.
    pub fn entities_view_of(name: &'static str) -> (r: TypeInfo)
        ensures
            r@ == (TypeInfoV {
                name: name@,
                mutability: Mutability::Shared,
                storage_id: StorageId::Entities,
                thread_safe: true,
            }),
    {
        TypeInfo {
            name,
            mutability: Mutability::Shared,
            storage_id: StorageId::Entities,
            thread_safe: true,
        }
    }

    /// Exclusive access to the entity-id storage.
    pub fn entities_view_mut_of(name: &'static str) -> (r: TypeInfo)
        ensures
            r@ == (TypeInfoV {
                name: name@,
                mutability: Mutability::Exclusive,
                storage_id: StorageId::Entities,
                thread_safe: true,
            }),
    {
        TypeInfo {
            name,
            mutability: Mutability::Exclusive,
            storage_id: StorageId::Entities,
            thread_safe: true,
        }
    }

    /// Shared access to the whole storage container.  Conflicts with every
    /// other non-empty borrow, and is pinned to the main worker.
    pub fn all_storages_view_of(name: &'static str) -> (r: TypeInfo)
        ensures
            r@ == (TypeInfoV {
                name: name@,
                mutability: Mutability::Shared,
                storage_id: StorageId::AllStorages,
                thread_safe: false,
            }),
    {
        TypeInfo {
            name,
            mutability: Mutability::Shared,
            storage_id: StorageId::AllStorages,
            thread_safe: false,
        }
    }

    /// Exclusive access to the whole storage container.  Conflicts with
    /// every other non-empty borrow, and is pinned to the main worker.
    pub fn all_storages_view_mut_of(name: &'static str) -> (r: TypeInfo)
        ensures
            r@ == (TypeInfoV {
                name: name@,
                mutability: Mutability::Exclusive,
                storage_id: StorageId::AllStorages,
                thread_safe: false,
            }),
    {
        TypeInfo {
            name,
            mutability: Mutability::Exclusive,
            storage_id: StorageId::AllStorages,
            thread_safe: false,
        }
    }

    /// Marks the borrowed value as not sendable between threads: a shared
    /// borrow can still be used from any worker, an exclusive one is
    /// pinned to the main worker.
    pub fn non_send(self) -> (r: TypeInfo)
        ensures
            r@ == (TypeInfoV {
                name: self@.name,
                mutability: self@.mutability,
                storage_id: self@.storage_id,
                thread_safe: self@.mutability is Shared,
            }),
    {
        let thread_safe = matches!(self.mutability, Mutability::Shared);
        TypeInfo { thread_safe, ..self }
    }

    /// Marks the borrowed value as not shareable between threads: an
    /// exclusive borrow can still move to any worker, a shared one is
    /// pinned to the main worker.
    pub fn non_sync(self) -> (r: TypeInfo)
        ensures
            r@ == (TypeInfoV {
                name: self@.name,
                mutability: self@.mutability,
                storage_id: self@.storage_id,
                thread_safe: self@.mutability is Exclusive,
            }),
    {
        let thread_safe = matches!(self.mutability, Mutability::Exclusive);
        TypeInfo { thread_safe, ..self }
    }

    /// Marks the borrowed value as neither sendable nor shareable: the
    /// borrow is always pinned to the main worker.
    pub fn non_send_sync(self) -> (r: TypeInfo)
        ensures
            r@ == (TypeInfoV {
                name: self@.name,
                mutability: self@.mutability,
                storage_id: self@.storage_id,
                thread_safe: false,
            }),
    {
        TypeInfo { thread_safe: false, ..self }
    }
}

} // verus!
