//! Borrow descriptors and the diagnostic types the planner emits.

use vstd::prelude::*;

use crate::ids::Mutability;
use crate::ids::StorageId;
use crate::ids::TypeId;

verus! {

/// Describes one borrow a system takes: which storage, shared or exclusive,
/// and whether the borrow may be held on any worker thread.
///
/// A descriptor with `thread_safe == false` pins the system holding it to
/// the main worker.
#[derive(Clone, Copy, Debug)]
pub struct TypeInfo {
    /// Diagnostic name of the borrowed storage.
    pub name: &'static str,
    /// Shared or exclusive.
    pub mutability: Mutability,
    /// Which storage is borrowed.
    pub storage_id: StorageId,
    /// Whether the borrow may be held on any worker thread.
    pub thread_safe: bool,
}

/// Mathematical image of a [`TypeInfo`].
#[verifier::ext_equal]
pub struct TypeInfoV {
    pub name: Seq<char>,
    pub mutability: Mutability,
    pub storage_id: StorageId,
    pub thread_safe: bool,
}

impl View for TypeInfo {
    type V = TypeInfoV;

    open spec fn view(&self) -> TypeInfoV {
        TypeInfoV {
            name: self.name@,
            mutability: self.mutability,
            storage_id: self.storage_id,
            thread_safe: self.thread_safe,
        }
    }
}

impl PartialEq for TypeInfo {
    /// Descriptors compare by storage and mutability; the diagnostic name
    /// does not take part.
    fn eq(&self, rhs: &Self) -> (r: bool) {
        self.storage_id == rhs.storage_id && self.mutability == rhs.mutability
    }
}

impl vstd::std_specs::cmp::PartialEqSpecImpl for TypeInfo {
    open spec fn obeys_eq_spec() -> bool {
        true
    }

    open spec fn eq_spec(&self, rhs: &Self) -> bool {
        self.storage_id == rhs.storage_id && self.mutability == rhs.mutability
    }
}

/// Identifies a system in diagnostics.
#[derive(Clone, Copy, Debug)]
pub struct SystemId {
    /// Diagnostic name of the system.
    pub name: &'static str,
    /// Stable identity of the system function.
    pub type_id: TypeId,
}

/// Mathematical image of a [`SystemId`].
#[verifier::ext_equal]
pub struct SystemIdV {
    pub name: Seq<char>,
    pub type_id: TypeId,
}

impl View for SystemId {
    type V = SystemIdV;

    open spec fn view(&self) -> SystemIdV {
        SystemIdV { name: self.name@, type_id: self.type_id }
    }
}

impl PartialEq for SystemId {
    /// Systems compare by identity token alone.
    fn eq(&self, rhs: &Self) -> (r: bool) {
        self.type_id == rhs.type_id
    }
}

impl vstd::std_specs::cmp::PartialEqSpecImpl for SystemId {
    open spec fn obeys_eq_spec() -> bool {
        true
    }

    open spec fn eq_spec(&self, rhs: &Self) -> bool {
        self.type_id == rhs.type_id
    }
}

/// Why a system could not join an earlier batch.
#[derive(Clone, Copy, Debug)]
pub enum Conflict {
    /// A specific pair of descriptors collided.
    Borrow {
        /// The incoming system's colliding descriptor.
        type_info: Option<TypeInfo>,
        /// The already-placed system it collided with.
        other_system: SystemId,
        /// The placed system's colliding descriptor.
        other_type_info: TypeInfo,
    },
    /// The incoming system's own borrow is not thread-safe.
    NotSendSync(TypeInfo),
    /// An already-placed system pinned a non-thread-safe borrow.
    OtherNotSendSync {
        /// The already-placed system.
        system: SystemId,
        /// Its non-thread-safe descriptor.
        type_info: TypeInfo,
    },
}

/// Mathematical image of a [`Conflict`].
pub enum ConflictV {
    Borrow { type_info: Option<TypeInfoV>, other_system: SystemIdV, other_type_info: TypeInfoV },
    NotSendSync(TypeInfoV),
    OtherNotSendSync { system: SystemIdV, type_info: TypeInfoV },
}

impl View for Conflict {
    type V = ConflictV;

    open spec fn view(&self) -> ConflictV {
        match self {
            Conflict::Borrow { type_info, other_system, other_type_info } => ConflictV::Borrow {
                type_info: match type_info {
                    Some(t) => Some(t@),
                    None => None,
                },
                other_system: other_system@,
                other_type_info: other_type_info@,
            },
            Conflict::NotSendSync(t) => ConflictV::NotSendSync(t@),
            Conflict::OtherNotSendSync { system, type_info } => ConflictV::OtherNotSendSync {
                system: system@,
                type_info: type_info@,
            },
        }
    }
}

/// Everything the planner records about one placed system.
#[derive(Clone, Debug)]
pub struct SystemInfo {
    /// Diagnostic name of the system.
    pub name: &'static str,
    /// Stable identity of the system function.
    pub type_id: TypeId,
    /// The system's declared borrows.
    pub borrow: Vec<TypeInfo>,
    /// Why the system could not be part of the previous batch, if anything
    /// stopped it there.
    pub conflict: Option<Conflict>,
}

/// Mathematical image of a [`SystemInfo`].
#[verifier::ext_equal]
pub struct SystemInfoV {
    pub name: Seq<char>,
    pub type_id: TypeId,
    pub borrow: Seq<TypeInfoV>,
    pub conflict: Option<ConflictV>,
}

impl View for SystemInfo {
    type V = SystemInfoV;

    open spec fn view(&self) -> SystemInfoV {
        SystemInfoV {
            name: self.name@,
            type_id: self.type_id,
            borrow: self.borrow@.map_values(|t: TypeInfo| t@),
            conflict: match self.conflict {
                Some(c) => Some(c@),
                None => None,
            },
        }
    }
}

/// One batch, as the planner explains it: the optional main-worker slot and
/// the systems free to run on any worker.
#[derive(Debug)]
pub struct BatchInfo {
    /// Main slot first, then the parallel list.
    pub systems: (Option<SystemInfo>, Vec<SystemInfo>),
}

/// Mathematical image of a [`BatchInfo`].
#[verifier::ext_equal]
pub struct BatchInfoV {
    pub main: Option<SystemInfoV>,
    pub others: Seq<SystemInfoV>,
}

impl View for BatchInfo {
    type V = BatchInfoV;

    open spec fn view(&self) -> BatchInfoV {
        BatchInfoV {
            main: match self.systems.0 {
                Some(s) => Some(s@),
                None => None,
            },
            others: self.systems.1@.map_values(|s: SystemInfo| s@),
        }
    }
}

/// The planner's explanation artifact for one workload.
#[derive(Debug)]
pub struct WorkloadInfo {
    /// The workload's label.
    pub name: String,
    /// One entry per batch, in execution order.
    pub batch_info: Vec<BatchInfo>,
}

/// Mathematical image of a [`WorkloadInfo`].
#[verifier::ext_equal]
pub struct InfoV {
    pub name: Seq<char>,
    pub batch_info: Seq<BatchInfoV>,
}

impl View for WorkloadInfo {
    type V = InfoV;

    open spec fn view(&self) -> InfoV {
        InfoV {
            name: self.name@,
            batch_info: self.batch_info@.map_values(|b: BatchInfo| b@),
        }
    }
}

/// Which workloads exist and which storages their systems borrow.
///
/// Diagnostic summary: one entry per workload label, each carrying the
/// systems' names and their declared borrows.
#[derive(Clone, Debug)]
pub struct WorkloadsTypeUsage(pub Vec<(String, Vec<(&'static str, Vec<TypeInfo>)>)>);

} // verus!
