//! Identity tokens for systems, component types and storages.
//!
//! The scheduler never inspects a component type itself; it only compares
//! tokens.  How tokens are minted (a compile-time type id, a runtime
//! registry) is the caller's business; the scheduler only relies on token
//! equality being sound.

use vstd::prelude::*;

verus! {

/// Stable identity of a type: a system function or a component type.
#[derive(Clone, Copy, PartialEq, Eq, Structural, Hash, Debug)]
pub struct TypeId {
    pub id: u64,
}

impl TypeId {
    /// Wraps a raw token.
    pub fn new(id: u64) -> (r: TypeId)
        ensures
            r.id == id,
    {
        TypeId { id }
    }
}

/// Whether a borrow is shared or exclusive.
///
/// Two shared borrows of the same storage are compatible; an exclusive
/// borrow conflicts with any other borrow of the same storage.
#[derive(Clone, Copy, PartialEq, Eq, Structural, Hash, Debug)]
pub enum Mutability {
    Shared,
    Exclusive,
}

/// Identity of a storage.
///
/// Equality distinguishes the variants and, for local storages, includes the
/// owning system, so that a local storage is addressable by one system only.
#[derive(Clone, Copy, PartialEq, Eq, Structural, Hash, Debug)]
pub enum StorageId {
    /// The aggregate storage-of-storages; borrowing it conflicts with every
    /// other non-empty borrow.
    AllStorages,
    /// The entity-id storage.
    Entities,
    /// A component storage, shared by every system that names the component.
    Global(TypeId),
    /// A unique (single-value) storage.
    Unique(TypeId),
    /// A storage private to one system: component type plus owning system.
    Local(TypeId, TypeId),
    /// A caller-managed storage addressed by a raw token.
    Custom(u64),
}

} // verus!
