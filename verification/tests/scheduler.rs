//! Batch-planning tests: registering workloads and checking the batches.

use shipyard::Batches;
use shipyard::EntityId;
use shipyard::SkipIf;
use shipyard::SparseSet;
use shipyard::StorageId;
use shipyard::Scheduler;
use shipyard::ScheduledWorkload;
use shipyard::TypeId;
use shipyard::TypeInfo;
use shipyard::WorkloadSystem;

const USIZE: u64 = 1;
const U32: u64 = 2;
const U16: u64 = 3;

fn view(component: u64) -> TypeInfo {
    TypeInfo::view_of(TypeId::new(component), "view")
}

fn view_mut(component: u64) -> TypeInfo {
    TypeInfo::view_mut_of(TypeId::new(component), "view_mut")
}

fn system(id: u64, name: &'static str, borrows: Vec<TypeInfo>) -> WorkloadSystem {
    WorkloadSystem::new(TypeId::new(id), name, borrows)
}

fn batches_of<'a>(world: &'a Scheduler, label: &str) -> &'a Batches {
    world.workloads.get(&label.to_string()).unwrap()
}

#[test]
fn single_immutable() {
    let mut world = Scheduler::new();

    ScheduledWorkload::builder("System1".to_string())
        .with_system(system(10, "system1", vec![view(USIZE)]))
        .add_to_world(&mut world)
        .unwrap();

    assert_eq!(world.systems.len(), 1);
    assert_eq!(world.workloads.len(), 1);
    let batches = batches_of(&world, "System1");
    assert_eq!(batches.parallel, vec![(None, vec![0])]);
    assert_eq!(batches.sequential, vec![0]);
    assert!(batches.skip_if.is_empty());
    assert_eq!(world.default_label().as_str(), "System1");
}

#[test]
fn single_mutable() {
    let mut world = Scheduler::new();

    ScheduledWorkload::builder("System1".to_string())
        .with_system(system(10, "system1", vec![view_mut(USIZE)]))
        .add_to_world(&mut world)
        .unwrap();

    assert_eq!(world.systems.len(), 1);
    assert_eq!(world.workloads.len(), 1);
    let batches = batches_of(&world, "System1");
    assert_eq!(batches.parallel, vec![(None, vec![0])]);
    assert_eq!(batches.sequential, vec![0]);
    assert_eq!(world.default_label().as_str(), "System1");
}

#[test]
fn multiple_immutable() {
    let mut world = Scheduler::new();

    ScheduledWorkload::builder("Systems".to_string())
        .with_system(system(10, "system1", vec![view(USIZE)]))
        .with_system(system(11, "system2", vec![view(USIZE)]))
        .add_to_world(&mut world)
        .unwrap();

    assert_eq!(world.systems.len(), 2);
    assert_eq!(world.workloads.len(), 1);
    let batches = batches_of(&world, "Systems");
    assert_eq!(batches.parallel, vec![(None, vec![0, 1])]);
    assert_eq!(batches.sequential, vec![0, 1]);
    assert_eq!(world.default_label().as_str(), "Systems");
}

#[test]
fn multiple_mutable() {
    let mut world = Scheduler::new();

    ScheduledWorkload::builder("Systems".to_string())
        .with_system(system(10, "system1", vec![view_mut(USIZE)]))
        .with_system(system(11, "system2", vec![view_mut(USIZE)]))
        .add_to_world(&mut world)
        .unwrap();

    assert_eq!(world.systems.len(), 2);
    assert_eq!(world.workloads.len(), 1);
    let batches = batches_of(&world, "Systems");
    assert_eq!(batches.parallel, vec![(None, vec![0]), (None, vec![1])]);
    assert_eq!(batches.sequential, vec![0, 1]);
    assert_eq!(world.default_label().as_str(), "Systems");
}

#[test]
fn multiple_mixed() {
    let mut world = Scheduler::new();

    ScheduledWorkload::builder("Systems".to_string())
        .with_system(system(10, "system1", vec![view_mut(USIZE)]))
        .with_system(system(11, "system2", vec![view(USIZE)]))
        .add_to_world(&mut world)
        .unwrap();

    assert_eq!(world.systems.len(), 2);
    assert_eq!(world.workloads.len(), 1);
    let batches = batches_of(&world, "Systems");
    assert_eq!(batches.parallel, vec![(None, vec![0]), (None, vec![1])]);
    assert_eq!(batches.sequential, vec![0, 1]);
    assert_eq!(world.default_label().as_str(), "Systems");

    let mut world = Scheduler::new();

    ScheduledWorkload::builder("Systems".to_string())
        .with_system(system(11, "system2", vec![view(USIZE)]))
        .with_system(system(10, "system1", vec![view_mut(USIZE)]))
        .add_to_world(&mut world)
        .unwrap();

    assert_eq!(world.systems.len(), 2);
    assert_eq!(world.workloads.len(), 1);
    let batches = batches_of(&world, "Systems");
    assert_eq!(batches.parallel, vec![(None, vec![0]), (None, vec![1])]);
    assert_eq!(batches.sequential, vec![0, 1]);
    assert_eq!(world.default_label().as_str(), "Systems");
}

#[test]
fn append_optimizes_batches() {
    let mut world = Scheduler::new();

    let mut group_a = ScheduledWorkload::builder("Group A".to_string())
        .with_system(system(10, "system_a1", vec![view(USIZE), view_mut(U32)]))
        .with_system(system(11, "system_a2", vec![view(USIZE), view_mut(U32)]));

    let mut group_b = ScheduledWorkload::builder("Group B".to_string())
        .with_system(system(12, "system_b1", vec![view(USIZE)]));

    ScheduledWorkload::builder("Combined".to_string())
        .append(&mut group_a)
        .append(&mut group_b)
        .add_to_world(&mut world)
        .unwrap();

    assert_eq!(world.systems.len(), 3);
    assert_eq!(world.workloads.len(), 1);
    let batches = batches_of(&world, "Combined");
    assert_eq!(batches.parallel, vec![(None, vec![0, 2]), (None, vec![1])]);
    assert_eq!(batches.sequential, vec![0, 1, 2]);
    assert_eq!(world.default_label().as_str(), "Combined");
}

#[test]
fn all_storages() {
    let all_mut = || TypeInfo::all_storages_view_mut_of("all_storages");

    let mut world = Scheduler::new();

    ScheduledWorkload::builder("Systems".to_string())
        .with_system(system(11, "system2", vec![all_mut()]))
        .add_to_world(&mut world)
        .unwrap();

    assert_eq!(world.systems.len(), 1);
    assert_eq!(world.workloads.len(), 1);
    let batches = batches_of(&world, "Systems");
    assert_eq!(batches.parallel, vec![(Some(0), Vec::new())]);
    assert_eq!(batches.sequential, vec![0]);
    assert_eq!(world.default_label().as_str(), "Systems");

    let mut world = Scheduler::new();

    ScheduledWorkload::builder("Systems".to_string())
        .with_system(system(11, "system2", vec![all_mut()]))
        .with_system(system(11, "system2", vec![all_mut()]))
        .add_to_world(&mut world)
        .unwrap();

    assert_eq!(world.systems.len(), 1);
    assert_eq!(world.workloads.len(), 1);
    let batches = batches_of(&world, "Systems");
    assert_eq!(
        batches.parallel,
        vec![(Some(0), Vec::new()), (Some(0), Vec::new())]
    );
    assert_eq!(batches.sequential, vec![0, 0]);

    let mut world = Scheduler::new();

    ScheduledWorkload::builder("Systems".to_string())
        .with_system(system(10, "system1", vec![view(USIZE)]))
        .with_system(system(11, "system2", vec![all_mut()]))
        .add_to_world(&mut world)
        .unwrap();

    assert_eq!(world.systems.len(), 2);
    assert_eq!(world.workloads.len(), 1);
    let batches = batches_of(&world, "Systems");
    assert_eq!(batches.parallel, vec![(None, vec![0]), (Some(1), Vec::new())]);
    assert_eq!(batches.sequential, vec![0, 1]);

    let mut world = Scheduler::new();

    ScheduledWorkload::builder("Systems".to_string())
        .with_system(system(11, "system2", vec![all_mut()]))
        .with_system(system(10, "system1", vec![view(USIZE)]))
        .add_to_world(&mut world)
        .unwrap();

    assert_eq!(world.systems.len(), 2);
    assert_eq!(world.workloads.len(), 1);
    let batches = batches_of(&world, "Systems");
    assert_eq!(batches.parallel, vec![(Some(0), Vec::new()), (None, vec![1])]);
    assert_eq!(batches.sequential, vec![0, 1]);
}

#[test]
fn non_send() {
    const NOT_SEND: u64 = 9;
    let non_send_view = || TypeInfo::view_of(TypeId::new(NOT_SEND), "view").non_send();
    let non_send_view_mut = || TypeInfo::view_mut_of(TypeId::new(NOT_SEND), "view_mut").non_send();

    let mut world = Scheduler::new();

    let info = ScheduledWorkload::builder("Test".to_string())
        .with_system(system(21, "sys1", vec![non_send_view()]))
        .with_system(system(21, "sys1", vec![non_send_view()]))
        .add_to_world(&mut world)
        .unwrap();

    assert_eq!(world.systems.len(), 1);
    assert_eq!(world.workloads.len(), 1);
    let batches = batches_of(&world, "Test");
    assert_eq!(batches.parallel, vec![(None, vec![0, 0])]);
    assert_eq!(batches.sequential, vec![0, 0]);
    assert!(info.batch_info[0].systems.1[0].conflict.is_none());

    let mut world = Scheduler::new();

    ScheduledWorkload::builder("Test".to_string())
        .with_system(system(21, "sys1", vec![non_send_view()]))
        .with_system(system(22, "sys2", vec![non_send_view_mut()]))
        .add_to_world(&mut world)
        .unwrap();

    assert_eq!(world.systems.len(), 2);
    let batches = batches_of(&world, "Test");
    assert_eq!(batches.parallel, vec![(None, vec![0]), (Some(1), Vec::new())]);
    assert_eq!(batches.sequential, vec![0, 1]);

    let mut world = Scheduler::new();

    ScheduledWorkload::builder("Test".to_string())
        .with_system(system(22, "sys2", vec![non_send_view_mut()]))
        .with_system(system(21, "sys1", vec![non_send_view()]))
        .add_to_world(&mut world)
        .unwrap();

    assert_eq!(world.systems.len(), 2);
    let batches = batches_of(&world, "Test");
    assert_eq!(batches.parallel, vec![(Some(0), Vec::new()), (None, vec![1])]);
    assert_eq!(batches.sequential, vec![0, 1]);

    let mut world = Scheduler::new();

    let info = ScheduledWorkload::builder("Test".to_string())
        .with_system(system(21, "sys1", vec![non_send_view()]))
        .with_system(system(23, "sys3", vec![view(USIZE)]))
        .add_to_world(&mut world)
        .unwrap();

    assert_eq!(world.systems.len(), 2);
    let batches = batches_of(&world, "Test");
    assert_eq!(batches.parallel, vec![(None, vec![0, 1])]);
    assert_eq!(batches.sequential, vec![0, 1]);
    assert!(info.batch_info[0].systems.1[0].conflict.is_none());

    let mut world = Scheduler::new();

    ScheduledWorkload::builder("Test".to_string())
        .with_system(system(21, "sys1", vec![non_send_view()]))
        .with_system(system(24, "sys4", vec![view_mut(USIZE)]))
        .add_to_world(&mut world)
        .unwrap();

    assert_eq!(world.systems.len(), 2);
    let batches = batches_of(&world, "Test");
    assert_eq!(batches.parallel, vec![(None, vec![0, 1])]);
    assert_eq!(batches.sequential, vec![0, 1]);
}

#[test]
fn unique_and_non_unique() {
    let mut world = Scheduler::new();

    ScheduledWorkload::builder("Systems".to_string())
        .with_system(system(10, "system1", vec![view_mut(USIZE)]))
        .with_system(system(
            11,
            "system2",
            vec![TypeInfo::unique_view_mut_of(TypeId::new(USIZE), "unique_view_mut")],
        ))
        .add_to_world(&mut world)
        .unwrap();

    assert_eq!(world.systems.len(), 2);
    assert_eq!(world.workloads.len(), 1);
    let batches = batches_of(&world, "Systems");
    assert_eq!(batches.parallel, vec![(None, vec![0, 1])]);
    assert_eq!(batches.sequential, vec![0, 1]);
    assert_eq!(world.default_label().as_str(), "Systems");
}

#[test]
fn empty_workload() {
    let mut world = Scheduler::new();

    ScheduledWorkload::builder("Systems".to_string())
        .add_to_world(&mut world)
        .unwrap();

    assert_eq!(world.systems.len(), 0);
    assert_eq!(world.workloads.len(), 1);
    let batches = batches_of(&world, "Systems");
    assert_eq!(batches.parallel, Vec::<(Option<usize>, Vec<usize>)>::new());
    assert_eq!(batches.sequential, Vec::<usize>::new());
    assert!(batches.skip_if.is_empty());
    assert_eq!(world.default_label().as_str(), "Systems");
}

#[test]
fn append_ensures_multiple_batches_can_be_optimized_over() {
    let mut world = Scheduler::new();

    let mut group_a = ScheduledWorkload::builder("Group A".to_string())
        .with_system(system(10, "sys_a1", vec![view_mut(USIZE), view_mut(U32)]))
        .with_system(system(11, "sys_a2", vec![view(USIZE), view_mut(U32)]));
    let mut group_b = ScheduledWorkload::builder("Group B".to_string())
        .with_system(system(12, "sys_b1", vec![view(USIZE)]));
    let mut group_c = ScheduledWorkload::builder("Group C".to_string())
        .with_system(system(13, "sys_c1", vec![view(U16)]));

    ScheduledWorkload::builder("Combined".to_string())
        .append(&mut group_a)
        .append(&mut group_b)
        .append(&mut group_c)
        .add_to_world(&mut world)
        .unwrap();

    assert_eq!(world.systems.len(), 4);
    assert_eq!(world.workloads.len(), 1);
    let batches = batches_of(&world, "Combined");
    assert_eq!(batches.parallel, vec![(None, vec![0, 3]), (None, vec![1, 2])]);
    assert_eq!(batches.sequential, vec![0, 1, 2, 3]);
    assert_eq!(world.default_label().as_str(), "Combined");
}

#[test]
fn workload_flattening() {
    let mut world = Scheduler::new();

    ScheduledWorkload::builder("1".to_string())
        .with_system(system(30, "sys1", vec![view(U32)]))
        .with_system(system(31, "sys2", vec![view_mut(U32)]))
        .with_system(system(30, "sys1", vec![view(U32)]))
        .add_to_world(&mut world)
        .unwrap();

    let debug_info = ScheduledWorkload::builder("2".to_string())
        .with_workload("1".to_string())
        .with_system(system(30, "sys1", vec![view(U32)]))
        .with_workload("1".to_string())
        .add_to_world(&mut world)
        .unwrap();

    assert_eq!(world.systems.len(), 2);
    assert_eq!(debug_info.batch_info.len(), 5);
}

#[test]
fn empty_workload_flattening() {
    let mut world = Scheduler::new();

    ScheduledWorkload::builder("1".to_string())
        .add_to_world(&mut world)
        .unwrap();

    let debug_info = ScheduledWorkload::builder("2".to_string())
        .with_workload("1".to_string())
        .add_to_world(&mut world)
        .unwrap();

    assert_eq!(world.systems.len(), 0);
    assert_eq!(debug_info.batch_info.len(), 0);
}

#[test]
fn skip_if_missing_storage() {
    let (workload, _) = ScheduledWorkload::builder("test".to_string())
        .skip_if_storage_empty(TypeId::new(USIZE))
        .with_system(system(40, "never", vec![view(USIZE)]))
        .build()
        .unwrap();

    let batches = workload.batches();
    assert_eq!(
        batches.skip_if,
        vec![SkipIf::StorageEmpty(StorageId::Global(TypeId::new(USIZE)))]
    );

    // The storage is missing, so the condition holds and the workload is
    // skipped without running anything.
    let conditions = vec![true];
    assert!(shipyard::scheduler::should_skip(&conditions));

    let mut world = Scheduler::new();
    ScheduledWorkload::builder("test".to_string())
        .skip_if_storage_empty(TypeId::new(USIZE))
        .with_system(system(40, "never", vec![view(USIZE)]))
        .add_to_world(&mut world)
        .unwrap();

    let registered = batches_of(&world, "test");
    assert_eq!(
        registered.skip_if,
        vec![SkipIf::StorageEmpty(StorageId::Global(TypeId::new(USIZE)))]
    );
    assert!(shipyard::scheduler::should_skip(&vec![true]));
}

#[test]
fn skip_if_empty_storage() {
    // An entity gains and then loses its component: the storage is empty
    // again, so the workload is skipped.
    let mut storage: SparseSet<usize> = SparseSet::new();
    let entity = EntityId::new(0);
    storage.insert(entity, 0usize, 1);
    storage.actual_remove(entity);
    assert!(storage.is_empty());

    let (workload, _) = ScheduledWorkload::builder("test".to_string())
        .skip_if_storage_empty(TypeId::new(USIZE))
        .with_system(system(40, "never", vec![view(USIZE)]))
        .build()
        .unwrap();

    assert_eq!(
        workload.batches().skip_if,
        vec![SkipIf::StorageEmpty(StorageId::Global(TypeId::new(USIZE)))]
    );
    let conditions = vec![storage.is_empty()];
    assert!(shipyard::scheduler::should_skip(&conditions));

    let mut world = Scheduler::new();
    ScheduledWorkload::builder("test".to_string())
        .skip_if_storage_empty(TypeId::new(USIZE))
        .with_system(system(40, "never", vec![view(USIZE)]))
        .add_to_world(&mut world)
        .unwrap();
    assert!(shipyard::scheduler::should_skip(&vec![storage.is_empty()]));
}
