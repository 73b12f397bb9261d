//! Workload scheduler for an entity-component-system world.
//!
//! A *workload* is an ordered list of systems, each declaring which storages
//! it borrows and how.  The scheduler partitions the list into *batches* of
//! systems that are safe to run in parallel, while keeping every pair of
//! conflicting systems separated by a batch boundary.
//!
//! The heart of the crate is the planner: [`plan`] defines the packing
//! mathematically, [`packing`] implements it and proves the implementation
//! equal to the definition, and [`laws`] proves the batch layout sound:
//! batches are conflict-free, at most one system per batch pins the main
//! worker, the main slot is used exactly where it is needed, and nothing is
//! lost or invented.  Around it, [`builder`] grows workloads and registers
//! them, [`flatten`] expands nested workloads, [`pool`] deduplicates
//! systems, and [`scheduler`] holds the registry and the execution
//! decisions.  The storage side ([`sparse_set`], [`view_mut`], [`local`],
//! [`tracking`]) models component storages and their change tracking.

pub mod borrow;
pub mod builder;
pub mod component;
pub mod entity;
pub mod error;
pub mod flatten;
pub mod ids;
pub mod info;
pub mod local;
pub mod lookup;
pub mod laws;
pub mod packing;
pub mod plan;
pub mod pool;
pub mod scheduler;
pub mod sparse_set;
pub mod system;
pub mod tracking;
pub mod view_mut;

pub use borrow::BorrowInfo;
pub use builder::ScheduledWorkload;
pub use builder::WorkloadBuilder;
pub use component::Component;
pub use component::Local;
pub use component::Unique;
pub use entity::EntityId;
pub use ids::Mutability;
pub use ids::StorageId;
pub use ids::TypeId;
pub use info::BatchInfo;
pub use info::Conflict;
pub use info::SystemId;
pub use info::SystemInfo;
pub use info::TypeInfo;
pub use info::WorkloadInfo;
pub use info::WorkloadsTypeUsage;
pub use local::LocalStorage;
pub use local::LocalViewMut;
pub use scheduler::Batches;
pub use scheduler::Scheduler;
pub use scheduler::SkipIf;
pub use sparse_set::SparseSet;
pub use system::WorkUnit;
pub use system::Workload;
pub use system::WorkloadSystem;
pub use view_mut::ViewMut;
