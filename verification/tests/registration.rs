//! Registration behaviour: errors, the default label, deduplication, and
//! the standalone build.

use shipyard::Scheduler;
use shipyard::Workload;
use shipyard::WorkUnit;
use shipyard::ScheduledWorkload;
use shipyard::TypeId;
use shipyard::TypeInfo;
use shipyard::WorkloadSystem;
use shipyard::Conflict;
use shipyard::Mutability;
use shipyard::error::AddWorkload;
use shipyard::error::Run;
use shipyard::error::RunWorkload;
use shipyard::error::UniquePresence;
use shipyard::scheduler::first_batch_error;
use shipyard::StorageId;

const UNIT: u64 = 1;

fn view(component: u64) -> TypeInfo {
    TypeInfo::view_of(TypeId::new(component), "view")
}

fn view_mut(component: u64) -> TypeInfo {
    TypeInfo::view_mut_of(TypeId::new(component), "view_mut")
}

fn system(id: u64, name: &'static str, borrows: Vec<TypeInfo>) -> WorkloadSystem {
    WorkloadSystem::new(TypeId::new(id), name, borrows)
}

#[test]
fn duplicate_label_is_refused_and_registry_unchanged() {
    let mut world = Scheduler::new();

    ScheduledWorkload::builder("twice".to_string())
        .with_system(system(10, "one", vec![view(UNIT)]))
        .add_to_world(&mut world)
        .unwrap();

    let pool_before = world.systems.len();
    let workloads_before = world.workloads.len();
    let sequential_before = world
        .workloads
        .get(&"twice".to_string())
        .unwrap()
        .sequential
        .clone();

    let err = ScheduledWorkload::builder("twice".to_string())
        .with_system(system(11, "two", vec![view_mut(UNIT)]))
        .add_to_world(&mut world)
        .unwrap_err();

    assert!(matches!(err, AddWorkload::AlreadyExists));
    assert_eq!(world.systems.len(), pool_before);
    assert_eq!(world.workloads.len(), workloads_before);
    assert_eq!(
        world.workloads.get(&"twice".to_string()).unwrap().sequential,
        sequential_before
    );
}

#[test]
fn unknown_nested_workload_is_refused() {
    let mut world = Scheduler::new();

    let err = ScheduledWorkload::builder("outer".to_string())
        .with_workload("missing".to_string())
        .add_to_world(&mut world)
        .unwrap_err();

    match err {
        AddWorkload::UnknownWorkload(parent, child) => {
            assert_eq!(parent, "outer");
            assert_eq!(child, "missing");
        }
        other => panic!("unexpected error: {:?}", other),
    }
    assert_eq!(world.workloads.len(), 0);
    assert_eq!(world.systems.len(), 0);
}

#[test]
fn missing_workload_error_on_resolution() {
    let world = Scheduler::new();

    let err = world.workload_batches(&"nowhere".to_string()).unwrap_err();
    match err {
        RunWorkload::MissingWorkload(label) => assert_eq!(label, "nowhere"),
        other => panic!("unexpected error: {:?}", other),
    }
}

#[test]
fn first_registration_stays_default() {
    let mut world = Scheduler::new();

    ScheduledWorkload::builder("first".to_string())
        .with_system(system(10, "one", vec![view(UNIT)]))
        .add_to_world(&mut world)
        .unwrap();
    ScheduledWorkload::builder("second".to_string())
        .with_system(system(11, "two", vec![view(UNIT)]))
        .add_to_world(&mut world)
        .unwrap();

    assert_eq!(world.default_label().as_str(), "first");
}

#[test]
fn build_matches_registration_into_empty_world() {
    let make = || {
        ScheduledWorkload::builder("combo".to_string())
            .with_system(system(10, "one", vec![view_mut(UNIT)]))
            .with_system(system(11, "two", vec![view(UNIT)]))
    };

    let (workload, build_info) = make().build().unwrap();
    let built = workload.batches();

    let mut world = Scheduler::new();
    let world_info = make().add_to_world(&mut world).unwrap();
    let registered = world.workloads.get(&"combo".to_string()).unwrap();

    assert_eq!(built.parallel, registered.parallel);
    assert_eq!(built.sequential, registered.sequential);
    assert_eq!(built.skip_if, registered.skip_if);
    assert_eq!(build_info.batch_info.len(), world_info.batch_info.len());
}

#[test]
fn rerunning_resolution_is_stable() {
    let mut world = Scheduler::new();

    ScheduledWorkload::builder("steady".to_string())
        .with_system(system(10, "one", vec![view_mut(UNIT)]))
        .with_system(system(11, "two", vec![view(UNIT)]))
        .add_to_world(&mut world)
        .unwrap();

    let first = world.workload_batches(&"steady".to_string()).unwrap();
    let first_parallel = first.parallel.clone();
    let first_sequential = first.sequential.clone();

    let second = world.workload_batches(&"steady".to_string()).unwrap();
    assert_eq!(second.parallel, first_parallel);
    assert_eq!(second.sequential, first_sequential);
}

#[test]
fn pool_deduplicates_by_type_id() {
    let mut world = Scheduler::new();

    ScheduledWorkload::builder("a".to_string())
        .with_system(system(10, "shared", vec![view(UNIT)]))
        .add_to_world(&mut world)
        .unwrap();
    ScheduledWorkload::builder("b".to_string())
        .with_system(system(10, "shared", vec![view(UNIT)]))
        .with_system(system(11, "fresh", vec![view(UNIT)]))
        .add_to_world(&mut world)
        .unwrap();

    assert_eq!(world.systems.len(), 2);
    let b = world.workloads.get(&"b".to_string()).unwrap();
    assert_eq!(b.sequential, vec![0, 1]);
}

#[test]
fn single_pinned_system_takes_main_slot() {
    let mut world = Scheduler::new();

    let pinned = TypeInfo::view_mut_of(TypeId::new(UNIT), "view_mut").non_send_sync();
    ScheduledWorkload::builder("pinned".to_string())
        .with_system(system(10, "one", vec![pinned]))
        .add_to_world(&mut world)
        .unwrap();

    let batches = world.workloads.get(&"pinned".to_string()).unwrap();
    assert_eq!(batches.parallel, vec![(Some(0), Vec::new())]);
    assert_eq!(batches.sequential, vec![0]);
}

#[test]
fn first_batch_error_is_surfaced() {
    let no_errors: Vec<Option<Run>> = vec![None, None];
    assert!(first_batch_error(&no_errors).is_none());

    let failures: Vec<Option<Run>> = vec![None, Some(Run::User), Some(Run::User)];
    let (index, error) = first_batch_error(&failures).unwrap();
    assert_eq!(index, 1);
    assert!(matches!(error, Run::User));
}

#[test]
fn unique_presence_check() {
    let world = Scheduler::new();
    let unique = TypeInfo::unique_view_of(TypeId::new(UNIT), "unique_view");

    let builder = ScheduledWorkload::builder("check".to_string())
        .with_system(system(10, "needs_unique", vec![unique]));

    // The unique storage is absent from the world.
    let missing = builder
        .are_all_uniques_present_in_world(&world, &Vec::<StorageId>::new())
        .unwrap_err();
    match missing {
        UniquePresence::Unique(info) => {
            assert_eq!(info.storage_id, StorageId::Unique(TypeId::new(UNIT)));
        }
        other => panic!("unexpected error: {:?}", other),
    }

    // With the storage present the check passes.
    let present = vec![StorageId::Unique(TypeId::new(UNIT))];
    builder
        .are_all_uniques_present_in_world(&world, &present)
        .unwrap();

    // A nested reference to an unregistered workload fails the check too.
    let nested = ScheduledWorkload::builder("check2".to_string())
        .with_workload("ghost".to_string());
    let unknown = nested
        .are_all_uniques_present_in_world(&world, &present)
        .unwrap_err();
    match unknown {
        UniquePresence::Workload(label) => assert_eq!(label, "ghost"),
        other => panic!("unexpected error: {:?}", other),
    }
}

#[test]
fn inline_nested_workload_flattens_in_order() {
    let mut world = Scheduler::new();

    let inner = Workload {
        work_units: vec![
            WorkUnit::System(system(11, "two", vec![view_mut(UNIT)])),
            WorkUnit::System(system(12, "three", vec![view(UNIT)])),
        ],
    };

    ScheduledWorkload::builder("nested".to_string())
        .with_system(system(10, "one", vec![view(UNIT)]))
        .with_system(WorkloadSystem::Workload(inner))
        .add_to_world(&mut world)
        .unwrap();

    assert_eq!(world.systems.len(), 3);
    let batches = world.workloads.get(&"nested".to_string()).unwrap();
    assert_eq!(batches.sequential, vec![0, 1, 2]);
    // The exclusive borrow conflicts with both shared ones, so each of the
    // last two systems opens its own batch.
    assert_eq!(
        batches.parallel,
        vec![(None, vec![0]), (None, vec![1]), (None, vec![2])]
    );
}

#[test]
fn unknown_reference_inside_inline_workload_is_refused() {
    let mut world = Scheduler::new();

    let inner = Workload {
        work_units: vec![WorkUnit::WorkloadName("ghostly".to_string())],
    };

    let err = ScheduledWorkload::builder("outer".to_string())
        .with_system(WorkloadSystem::Workload(inner))
        .add_to_world(&mut world)
        .unwrap_err();

    match err {
        AddWorkload::UnknownWorkload(parent, child) => {
            assert_eq!(parent, "outer");
            assert_eq!(child, "ghostly");
        }
        other => panic!("unexpected error: {:?}", other),
    }
    assert_eq!(world.workloads.len(), 0);
}

#[test]
fn conflict_diagnostic_names_the_blocker() {
    let mut world = Scheduler::new();

    let info = ScheduledWorkload::builder("diag".to_string())
        .with_system(system(10, "writer", vec![view_mut(UNIT)]))
        .with_system(system(11, "reader", vec![view(UNIT)]))
        .add_to_world(&mut world)
        .unwrap();

    // The reader could not join the writer's batch; the diagnostic names
    // the colliding pair.
    assert_eq!(info.batch_info.len(), 2);
    let reader = &info.batch_info[1].systems.1[0];
    assert_eq!(reader.name, "reader");
    match &reader.conflict {
        Some(Conflict::Borrow { type_info, other_system, other_type_info }) => {
            let own = type_info.as_ref().unwrap();
            assert_eq!(own.mutability, Mutability::Shared);
            assert_eq!(own.storage_id, StorageId::Global(TypeId::new(UNIT)));
            assert_eq!(other_system.name, "writer");
            assert_eq!(other_system.type_id, TypeId::new(10));
            assert_eq!(other_type_info.mutability, Mutability::Exclusive);
            assert_eq!(other_type_info.storage_id, StorageId::Global(TypeId::new(UNIT)));
        }
        other => panic!("unexpected diagnostic: {:?}", other),
    }
    // The writer itself was placed first, with nothing in its way.
    assert!(info.batch_info[0].systems.1[0].conflict.is_none());
}
