//! Error values of the scheduler.

use vstd::prelude::*;

use crate::info::TypeInfo;

verus! {

/// Why a workload could not be registered.
#[derive(Debug)]
pub enum AddWorkload {
    /// A workload with the same label is already registered.
    AlreadyExists,
    /// A nested workload reference names a label that is not registered:
    /// the registering workload's label, then the missing one.
    UnknownWorkload(String, String),
    /// The registry's write lock could not be taken.
    Borrow,
}

/// Why a unique-storage presence check failed.
#[derive(Debug)]
pub enum UniquePresence {
    /// The storage container could not be read.
    AllStorages,
    /// The registry could not be read.
    Scheduler,
    /// A unique storage named by a system is not present in the world.
    Unique(TypeInfo),
    /// A nested workload reference names a label that is not registered.
    Workload(String),
}

/// Why one system failed at execution time.
#[derive(Clone, Copy, Debug)]
pub enum Run {
    /// A declared borrow could not be taken.
    GetStorage(TypeInfo),
    /// The system's own fallible body returned an error.
    User,
}

/// Why a workload run failed.
#[derive(Debug)]
pub enum RunWorkload {
    /// The registry could not be read.
    Scheduler,
    /// No workload is registered under the asked-for label.
    MissingWorkload(String),
    /// A system failed: its pool slot, and its error.
    Run(usize, Run),
}

} // verus!
