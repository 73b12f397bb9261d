//! Workload construction and registration.
//!
//! A [`WorkloadBuilder`] collects work units under a label.  Registration
//! checks the label is fresh, checks every referenced workload exists,
//! flattens the units, packs the flat list into batches and stores the
//! result.  [`register_spec`] says exactly what all of that does; both
//! [`WorkloadBuilder::add_to_world`] and [`WorkloadBuilder::build`] are
//! proved equal to it, so building a standalone workload and registering
//! into an empty registry produce the same batch layout by construction.

use vstd::prelude::*;

use crate::error::AddWorkload;
use crate::flatten::first_unknown;
use crate::flatten::flatten_leaves_spec;
use crate::flatten::flats_view;
use crate::flatten::flatten_work_unit;
use crate::flatten::lemma_first_unknown_none;
use crate::flatten::lemma_flatten_concat;
use crate::flatten::lemma_flatten_pool_facts;
use crate::flatten::leaves_known;
use crate::ids::StorageId;
use crate::ids::TypeId;
use crate::info::BatchInfo;
use crate::info::BatchInfoV;
use crate::info::InfoV;
use crate::info::SystemInfo;
use crate::info::SystemInfoV;
use crate::info::WorkloadInfo;
use crate::packing::FlatSystem;
use crate::packing::PackBatch;
use crate::packing::PlacedSystem;
use crate::packing::batches_view;
use crate::packing::find_special;
use crate::packing::insert_system;
use crate::plan::BatchV;
use crate::plan::FlatV;
use crate::plan::PlacedV;
use crate::plan::plan_batches;
use crate::plan::special_index;
use crate::pool::PoolV;
use crate::scheduler::Batches;
use crate::scheduler::BatchesV;
use crate::scheduler::Scheduler;
use crate::scheduler::SchedulerV;
use crate::scheduler::SkipIf;
use crate::scheduler::StoreV;
use crate::scheduler::batches_empty;
use crate::scheduler::scheduler_wf;
use crate::scheduler::store_indices_bound;
use crate::system::LeafV;
use crate::system::WorkUnit;
use crate::system::WorkloadSystem;
use crate::system::lemma_units_leaves_concat;
use crate::system::lemma_units_leaves_push;
use crate::system::unit_leaves;
use crate::system::units_leaves;

verus! {

/// Keeps what is needed to create a workload: its label, its work units in
/// declared order, and its skip conditions.
pub struct WorkloadBuilder {
    /// The units, in declared order.
    pub work_units: Vec<WorkUnit>,
    /// The workload's label.
    pub name: String,
    /// The workload's skip conditions.
    pub skip_if: Vec<SkipIf>,
}

/// Mathematical image of a builder: its label, whether it has any units at
/// all, the leaves of its unit tree, and its skip conditions.
#[verifier::ext_equal]
pub struct BuilderV {
    pub name: Seq<char>,
    pub no_units: bool,
    pub leaves: Seq<LeafV>,
    pub skip_if: Seq<SkipIf>,
}

impl View for WorkloadBuilder {
    type V = BuilderV;

    open spec fn view(&self) -> BuilderV {
        BuilderV {
            name: self.name@,
            no_units: self.work_units@.len() == 0,
            leaves: units_leaves(self.work_units@),
            skip_if: self.skip_if@,
        }
    }
}

/// The diagnostic record of one placed system, without its pool slot.
pub open spec fn sys_info_of(p: PlacedV) -> SystemInfoV {
    SystemInfoV { name: p.name, type_id: p.type_id, borrow: p.borrow, conflict: p.conflict }
}

/// The diagnostic artifact of a plan: one entry per batch.
pub open spec fn info_of_plan(plan: Seq<BatchV>) -> Seq<BatchInfoV> {
    Seq::new(
        plan.len(),
        |b: int|
            BatchInfoV {
                main: match plan[b].main {
                    Some(m) => Some(sys_info_of(m)),
                    None => None,
                },
                others: plan[b].others.map_values(|p: PlacedV| sys_info_of(p)),
            },
    )
}

/// The batch table of a plan: pool slots only.
pub open spec fn parallel_of_plan(plan: Seq<BatchV>) -> Seq<(Option<usize>, Seq<usize>)> {
    Seq::new(
        plan.len(),
        |b: int|
            (
                match plan[b].main {
                    Some(m) => Some(m.index as usize),
                    None => None,
                },
                plan[b].others.map_values(|p: PlacedV| p.index as usize),
            ),
    )
}

/// What registering under a fresh label does to a store.
pub open spec fn store_insert_spec(s: StoreV, l: Seq<char>, b: BatchesV) -> StoreV {
    StoreV {
        index: s.index.insert(l, s.labels.len() as int),
        labels: s.labels.push(l),
        batches: s.batches.push(b),
    }
}

/// The outcome of a registration attempt.
pub enum RegisterResultV {
    /// Registered; the diagnostic artifact.
    Registered(InfoV),
    /// The label was already taken.
    AlreadyExists,
    /// A referenced workload is unknown: the registering label, then the
    /// missing one.
    Unknown(Seq<char>, Seq<char>),
}

/// A registration attempt's outcome: the registry afterwards, and the
/// result handed back.
#[verifier::ext_equal]
pub struct RegisterOutcome {
    pub sched: SchedulerV,
    pub result: RegisterResultV,
}

/// What registering a workload does, exactly.
///
/// A taken label changes nothing and is refused.  A builder with no units
/// registers an empty compilation (its skip conditions are not kept).  An
/// unknown workload reference changes nothing and is refused.  Otherwise
/// the unit tree is flattened, a single system forms one batch on its own,
/// and a longer list is packed by [`plan_batches`]; the first registration
/// of a registry becomes its default.
pub open spec fn register_spec(s: SchedulerV, b: BuilderV) -> RegisterOutcome {
    if s.store.index.contains_key(b.name) {
        RegisterOutcome { sched: s, result: RegisterResultV::AlreadyExists }
    } else if b.no_units {
        let ns = SchedulerV {
            pool: s.pool,
            store: store_insert_spec(s.store, b.name, batches_empty()),
            default: if s.store.labels.len() == 0 {
                b.name
            } else {
                s.default
            },
        };
        RegisterOutcome {
            sched: ns,
            result: RegisterResultV::Registered(InfoV { name: b.name, batch_info: seq![] }),
        }
    } else if first_unknown(b.leaves, s.store) is Some {
        RegisterOutcome {
            sched: s,
            result: RegisterResultV::Unknown(b.name, first_unknown(b.leaves, s.store)->Some_0),
        }
    } else {
        let (npool, flat) = flatten_leaves_spec(s.pool, s.store, b.leaves);
        let sequential = flat.map_values(|f: FlatV| f.index as usize);
        let newb = register_batches(flat, b.skip_if);
        let binfo = register_info(flat);
        let ns = SchedulerV {
            pool: npool,
            store: store_insert_spec(s.store, b.name, newb),
            default: if s.store.labels.len() == 0 {
                b.name
            } else {
                s.default
            },
        };
        RegisterOutcome {
            sched: ns,
            result: RegisterResultV::Registered(InfoV { name: b.name, batch_info: binfo }),
        }
    }
}

/// The batches a flat list compiles to: a single system forms one batch by
/// itself, in the main slot exactly when it holds a special borrow; a
/// longer list is packed by [`plan_batches`].
pub open spec fn register_batches(flat: Seq<FlatV>, skip_if: Seq<SkipIf>) -> BatchesV {
    let sequential = flat.map_values(|f: FlatV| f.index as usize);
    if flat.len() == 1 {
        let e = flat[0];
        BatchesV {
            parallel: if special_index(e.borrow) < e.borrow.len() {
                seq![(Some(e.index as usize), Seq::<usize>::empty())]
            } else {
                seq![(None::<usize>, seq![e.index as usize])]
            },
            sequential,
            skip_if,
        }
    } else {
        BatchesV {
            parallel: parallel_of_plan(plan_batches(flat)),
            sequential,
            skip_if,
        }
    }
}

/// The diagnostic artifact a flat list compiles to.  For a single system
/// the record sits in the main slot of the artifact whatever its class;
/// the batch table alone says where it actually runs.
pub open spec fn register_info(flat: Seq<FlatV>) -> Seq<BatchInfoV> {
    if flat.len() == 1 {
        let e = flat[0];
        seq![
            BatchInfoV {
                main: Some(
                    SystemInfoV {
                        name: e.name,
                        type_id: e.type_id,
                        borrow: e.borrow,
                        conflict: None,
                    },
                ),
                others: seq![],
            },
        ]
    } else {
        info_of_plan(plan_batches(flat))
    }
}

impl WorkloadBuilder {
    /// Creates a new empty builder for the label.
    pub fn new(label: String) -> (r: WorkloadBuilder)
        ensures
            r@.name == label@,
            r@.no_units,
            r@.leaves == Seq::<LeafV>::empty(),
            r@.skip_if == Seq::<SkipIf>::empty(),
    {
        let r = WorkloadBuilder { work_units: Vec::new(), name: label, skip_if: Vec::new() };
        proof {
            assert(r@.leaves =~= Seq::<LeafV>::empty());
        }
        r
    }

    /// Moves all units of `other` into `self`, leaving `other` empty.
    /// This allows collecting systems in different builders before joining
    /// them.
    pub fn append(self, other: &mut WorkloadBuilder) -> (r: WorkloadBuilder)
        ensures
            r@.name == self@.name,
            r@.leaves == self@.leaves + old(other)@.leaves,
            r@.no_units == (self@.no_units && old(other)@.no_units),
            r@.skip_if == self@.skip_if,
            final(other)@.no_units,
            final(other)@.leaves == Seq::<LeafV>::empty(),
            final(other)@.name == old(other)@.name,
            final(other)@.skip_if == old(other)@.skip_if,
    {
        let mut s = self;
        let ghost su = s.work_units@;
        let ghost ou = other.work_units@;
        s.work_units.append(&mut other.work_units);
        proof {
            lemma_units_leaves_concat(su, ou);
            assert(units_leaves(Seq::<WorkUnit>::empty()) =~= Seq::<LeafV>::empty());
        }
        s
    }

    /// Nests a workload by reference.  The referenced workload must be
    /// registered by the time the builder is registered.
    pub fn with_workload(self, workload: String) -> (r: WorkloadBuilder)
        ensures
            r@.name == self@.name,
            r@.leaves == self@.leaves.push(LeafV::Name(workload@)),
            !r@.no_units,
            r@.skip_if == self@.skip_if,
    {
        let mut s = self;
        let ghost su = s.work_units@;
        let u = WorkUnit::WorkloadName(workload);
        let ghost uv = u;
        s.work_units.push(u);
        proof {
            lemma_units_leaves_push(su, uv);
            assert(unit_leaves(uv) =~= seq![LeafV::Name(uv->WorkloadName_0@)]);
            assert(units_leaves(su) + unit_leaves(uv) =~= units_leaves(su).push(
                unit_leaves(uv)[0],
            ));
        }
        s
    }

    /// Adds a system to the workload being created.
    pub fn with_system(self, system: WorkloadSystem) -> (r: WorkloadBuilder)
        ensures
            r@.name == self@.name,
            r@.leaves == self@.leaves + crate::system::system_leaves(system),
            r@.no_units == false,
            r@.skip_if == self@.skip_if,
    {
        let mut s = self;
        let ghost su = s.work_units@;
        let u = WorkUnit::System(system);
        let ghost uv = u;
        s.work_units.push(u);
        proof {
            lemma_units_leaves_push(su, uv);
        }
        s
    }

    /// Adds a fallible system to the workload being created.  If its
    /// runner returns an error at execution time, the workload stops
    /// there; the plan itself is the same as for an infallible system.
    pub fn with_try_system(self, system: WorkloadSystem) -> (r: WorkloadBuilder)
        ensures
            r@.name == self@.name,
            r@.leaves == self@.leaves + crate::system::system_leaves(system),
            r@.no_units == false,
            r@.skip_if == self@.skip_if,
    {
        self.with_system(system)
    }

    /// Do not run the workload if the condition holds at run time.
    pub fn skip_if(self, should_skip: SkipIf) -> (r: WorkloadBuilder)
        ensures
            r@.name == self@.name,
            r@.leaves == self@.leaves,
            r@.no_units == self@.no_units,
            r@.skip_if == self@.skip_if.push(should_skip),
    {
        let mut s = self;
        s.skip_if.push(should_skip);
        s
    }

    /// Do not run the workload if the storage is empty.
    ///
    /// A missing storage counts as empty.
    pub fn skip_if_storage_empty(self, component: TypeId) -> (r: WorkloadBuilder)
        ensures
            r@.name == self@.name,
            r@.leaves == self@.leaves,
            r@.no_units == self@.no_units,
            r@.skip_if == self@.skip_if.push(SkipIf::StorageEmpty(StorageId::Global(component))),
    {
        self.skip_if_storage_empty_by_id(StorageId::Global(component))
    }

    /// Do not run the workload if the unique storage is not present.
    pub fn skip_if_missing_unique(self, unique: TypeId) -> (r: WorkloadBuilder)
        ensures
            r@.name == self@.name,
            r@.leaves == self@.leaves,
            r@.no_units == self@.no_units,
            r@.skip_if == self@.skip_if.push(SkipIf::MissingUnique(StorageId::Unique(unique))),
    {
        let mut s = self;
        s.skip_if.push(SkipIf::MissingUnique(StorageId::Unique(unique)));
        s
    }

    /// Do not run the workload if the storage with this id is empty.
    ///
    /// A missing storage counts as empty.
    pub fn skip_if_storage_empty_by_id(self, storage_id: StorageId) -> (r: WorkloadBuilder)
        ensures
            r@.name == self@.name,
            r@.leaves == self@.leaves,
            r@.no_units == self@.no_units,
            r@.skip_if == self@.skip_if.push(SkipIf::StorageEmpty(storage_id)),
    {
        let mut s = self;
        s.skip_if.push(SkipIf::StorageEmpty(storage_id));
        s
    }
}

/// The leaves of a unit list split at any point.
proof fn lemma_leaves_split(us: Seq<WorkUnit>, i: int)
    requires
        0 <= i < us.len(),
    ensures
        units_leaves(us) == units_leaves(us.take(i)) + (unit_leaves(us[i]) + units_leaves(
            us.skip(i + 1),
        )),
{
    assert(us =~= us.take(i) + (seq![us[i]] + us.skip(i + 1)));
    lemma_units_leaves_concat(us.take(i), seq![us[i]] + us.skip(i + 1));
    lemma_units_leaves_concat(seq![us[i]], us.skip(i + 1));
    assert(seq![us[i]][0] == us[i]);
    assert(seq![us[i]].skip(1) =~= Seq::<WorkUnit>::empty());
    assert(units_leaves(seq![us[i]]) == unit_leaves(us[i]) + units_leaves(
        seq![us[i]].skip(1),
    ));
    assert(unit_leaves(us[i]) + units_leaves(seq![us[i]].skip(1)) =~= unit_leaves(us[i]));
}

/// The first workload reference of this unit whose label is not
/// registered, if any.
fn first_unknown_in_unit(unit: &WorkUnit, store: &crate::scheduler::WorkloadStore) -> (r: Option<
    String,
>)
    ensures
        match r {
            Some(l) => first_unknown(unit_leaves(*unit), store@) == Some(l@),
            None => first_unknown(unit_leaves(*unit), store@) is None,
        },
    decreases *unit,
{
    match unit {
        WorkUnit::System(ws) => match ws {
            WorkloadSystem::System { .. } => {
                proof {
                    let lv = unit_leaves(*unit);
                    assert(lv == crate::system::system_leaves(*ws));
                    assert(lv.len() == 1);
                    assert(lv[0] is System);
                    assert(lv.skip(1) =~= Seq::<LeafV>::empty());
                    assert(first_unknown(lv.skip(1), store@) is None);
                    assert(first_unknown(lv, store@) is None);
                    assert(first_unknown(unit_leaves(*unit), store@) is None);
                }
                None
            },
            WorkloadSystem::Workload(w) => {
            let ghost allv = w.work_units@;
            let mut i: usize = 0;
            proof {
                assert(unit_leaves(*unit) == units_leaves(allv));
                assert(allv.take(0) =~= Seq::<WorkUnit>::empty());
            }
            #[verifier::loop_isolation(false)]
            while i < w.work_units.len()
                invariant
                    0 <= i <= allv.len(),
                    first_unknown(units_leaves(allv.take(i as int)), store@) is None,
                decreases allv.len() - i,
            {
                proof {
                    assert(decreases_to!(*unit => w.work_units@[i as int]));
                }
                let r = first_unknown_in_unit(&w.work_units[i], store);
                proof {
                    lemma_leaves_split(allv, i as int);
                    crate::flatten::lemma_first_unknown_concat(
                        units_leaves(allv.take(i as int)),
                        unit_leaves(allv[i as int]) + units_leaves(allv.skip(i as int + 1)),
                        store@,
                    );
                    crate::flatten::lemma_first_unknown_concat(
                        unit_leaves(allv[i as int]),
                        units_leaves(allv.skip(i as int + 1)),
                        store@,
                    );
                }
                if r.is_some() {
                    return r;
                }
                proof {
                    assert(allv.take(i as int + 1) =~= allv.take(i as int).push(
                        allv[i as int],
                    ));
                    lemma_units_leaves_push(allv.take(i as int), allv[i as int]);
                    crate::flatten::lemma_first_unknown_concat(
                        units_leaves(allv.take(i as int)),
                        unit_leaves(allv[i as int]),
                        store@,
                    );
                }
                i += 1;
            }
                proof {
                    assert(allv.take(allv.len() as int) =~= allv);
                    assert(first_unknown(units_leaves(allv), store@) is None);
                    assert(first_unknown(unit_leaves(*unit), store@) is None);
                }
                None
            },
        },
        WorkUnit::WorkloadName(l) => {
            let ghost lv = unit_leaves(*unit);
            proof {
                assert(lv == seq![LeafV::Name(l@)]);
                assert(lv[0] == LeafV::Name(l@));
                assert(lv.len() == 1);
                assert(lv.skip(1) =~= Seq::<LeafV>::empty());
                assert(first_unknown(lv.skip(1), store@) is None);
            }
            if store.contains(l) {
                proof {
                    assert(!(lv[0] matches LeafV::Name(l2) && !store@.index.contains_key(l2)));
                    assert(first_unknown(lv, store@) is None);
                }
                None
            } else {
                proof {
                    assert(lv[0] matches LeafV::Name(l2) && !store@.index.contains_key(l2));
                    assert(first_unknown(lv, store@) == Some(l@));
                }
                Some(l.clone())
            }
        },
    }
}

/// Packs a flat system list into batches, exactly as [`plan_batches`]
/// says.
fn pack_flat(collected: Vec<FlatSystem>) -> (r: Vec<PackBatch>)
    ensures
        batches_view(r@) == plan_batches(flats_view(collected@)),
{
    let ghost col0 = collected@;
    let ghost fv = flats_view(collected@);
    let mut flat = collected;
    let ghost mut processed: int = 0;
    let mut packs: Vec<PackBatch> = Vec::new();
    proof {
        assert(batches_view(packs@) =~= Seq::<BatchV>::empty());
        assert(fv.take(0) =~= Seq::<FlatV>::empty());
        assert(flat@ =~= col0.skip(0));
    }
    while flat.len() > 0
        invariant
            0 <= processed <= col0.len(),
            fv == flats_view(col0),
            fv.len() == col0.len(),
            flat@ == col0.skip(processed),
            batches_view(packs@) == plan_batches(fv.take(processed)),
            crate::laws::batches_wf(batches_view(packs@)),
        decreases flat@.len(),
    {
        let e = flat.remove(0);
        proof {
            assert(e == col0[processed]);
            assert(e@ == fv[processed]);
            assert(fv.take(processed + 1).drop_last() =~= fv.take(processed));
            assert(fv.take(processed + 1).last() == fv[processed]);
            crate::laws::lemma_insert_preserves_wf(batches_view(packs@), fv[processed]);
        }
        insert_system(&mut packs, e);
        proof {
            processed = processed + 1;
            assert(flat@ =~= col0.skip(processed));
        }
    }
    proof {
        assert(processed == col0.len());
        assert(fv.take(processed) =~= fv);
    }
    packs
}

/// Splits the main slot into its pool slot and its diagnostic record.
fn split_main(m: Option<PlacedSystem>) -> (r: (Option<usize>, Option<SystemInfo>))
    ensures
        ({
            let mv = match m {
                Some(p) => Some(p@),
                None => None::<PlacedV>,
            };
            match mv {
                Some(p) => r.0 == Some(p.index as usize) && (r.1 matches Some(si) && si@
                    == sys_info_of(p)),
                None => r.0 is None && r.1 is None,
            }
        }),
{
    match m {
        Some(p) => (Some(p.index), Some(p.info)),
        None => (None, None),
    }
}

/// Splits the parallel list into its pool slots and its diagnostic
/// records.
fn split_others(ms: Vec<PlacedSystem>) -> (r: (Vec<usize>, Vec<SystemInfo>))
    ensures
        r.0@.len() == ms@.len(),
        r.1@.len() == ms@.len(),
        forall|i: int|
            0 <= i < ms@.len() ==> (#[trigger] r.0@[i]) as int == crate::packing::placed_view(
                ms@,
            )[i].index,
        forall|i: int|
            0 <= i < ms@.len() ==> (#[trigger] r.1@[i])@ == sys_info_of(
                crate::packing::placed_view(ms@)[i],
            ),
{
    let ghost o0 = ms@;
    let ghost ov = crate::packing::placed_view(ms@);
    let mut others = ms;
    let ghost mut done: int = 0;
    let mut idxs: Vec<usize> = Vec::new();
    let mut infos: Vec<SystemInfo> = Vec::new();
    while others.len() > 0
        invariant
            0 <= done <= o0.len(),
            ov == crate::packing::placed_view(o0),
            ov.len() == o0.len(),
            others@ == o0.skip(done),
            idxs@.len() == done,
            infos@.len() == done,
            forall|i: int| 0 <= i < done ==> (#[trigger] idxs@[i]) as int == ov[i].index,
            forall|i: int| 0 <= i < done ==> (#[trigger] infos@[i])@ == sys_info_of(ov[i]),
        decreases others@.len(),
    {
        let p = others.remove(0);
        proof {
            assert(p == o0[done]);
            assert(p@ == ov[done]);
        }
        idxs.push(p.index);
        infos.push(p.info);
        proof {
            done = done + 1;
            assert(others@ =~= o0.skip(done));
            assert(idxs@[done - 1] == p.index);
            assert(infos@[done - 1] == p.info);
            assert(p.info@ == sys_info_of(ov[done - 1]));
        }
    }
    (idxs, infos)
}

/// Turns the packed batches into the stored batch table and the diagnostic
/// artifact.
fn packs_outputs(packs: Vec<PackBatch>) -> (r: (Vec<(Option<usize>, Vec<usize>)>, Vec<BatchInfo>))
    ensures
        r.0@.len() == packs@.len(),
        r.1@.len() == packs@.len(),
        forall|b: int|
            0 <= b < packs@.len() ==> ((#[trigger] r.0@[b]).0, r.0@[b].1@) == parallel_of_plan(
                batches_view(packs@),
            )[b],
        forall|b: int|
            0 <= b < packs@.len() ==> (#[trigger] r.1@[b])@ == info_of_plan(
                batches_view(packs@),
            )[b],
{
    let ghost p0 = packs@;
    let ghost pv = batches_view(packs@);
    let mut rem = packs;
    let ghost mut processed: int = 0;
    let mut par: Vec<(Option<usize>, Vec<usize>)> = Vec::new();
    let mut info: Vec<BatchInfo> = Vec::new();
    while rem.len() > 0
        invariant
            0 <= processed <= p0.len(),
            pv == batches_view(p0),
            pv.len() == p0.len(),
            rem@ == p0.skip(processed),
            par@.len() == processed,
            info@.len() == processed,
            forall|b: int|
                0 <= b < processed ==> ((#[trigger] par@[b]).0, par@[b].1@) == parallel_of_plan(
                    pv,
                )[b],
            forall|b: int|
                0 <= b < processed ==> (#[trigger] info@[b])@ == info_of_plan(pv)[b],
        decreases rem@.len(),
    {
        let b = rem.remove(0);
        let ghost bv = b@;
        proof {
            assert(b == p0[processed]);
            assert(bv == pv[processed]);
        }
        let (main_idx, main_info) = split_main(b.main);
        let ghost others0 = b.others@;
        let (idxs, infos) = split_others(b.others);
        let ghost idxsv = idxs@;
        let ghost infosv = infos@;
        par.push((main_idx, idxs));
        info.push(BatchInfo { systems: (main_info, infos) });
        proof {
            processed = processed + 1;
            assert(rem@ =~= p0.skip(processed));
            assert(crate::packing::placed_view(others0) == bv.others);
            assert(par@[processed - 1].0 == main_idx);
            assert(par@[processed - 1].1@ == idxsv);
            assert(idxsv =~= bv.others.map_values(|p: PlacedV| p.index as usize));
            assert((par@[processed - 1].0, par@[processed - 1].1@) == parallel_of_plan(
                pv,
            )[processed - 1]);
            assert(info@[processed - 1].systems.0 == main_info);
            assert(info@[processed - 1].systems.1@ == infosv);
            assert(infosv.map_values(|s: SystemInfo| s@) =~= bv.others.map_values(
                |p: PlacedV| sys_info_of(p),
            ));
            assert(info@[processed - 1]@ == info_of_plan(pv)[processed - 1]);
        }
    }
    (par, info)
}

/// The image of an empty registry.
pub open spec fn scheduler_empty() -> SchedulerV {
    SchedulerV {
        pool: PoolV {
            names: seq![],
            type_ids: seq![],
            borrows: seq![],
            lookup: Map::empty(),
        },
        store: StoreV { index: Map::empty(), labels: seq![], batches: seq![] },
        default: Seq::empty(),
    }
}

/// Registers the builder's workload into the registry, exactly as
/// [`register_spec`] says: refuse a taken label untouched, register an
/// empty builder as an empty compilation, refuse an unknown workload
/// reference untouched, and otherwise flatten, pack and store.
fn create_workload(builder: WorkloadBuilder, s: &mut Scheduler) -> (r: Result<
    WorkloadInfo,
    AddWorkload,
>)
    requires
        scheduler_wf(old(s)@),
    ensures
        scheduler_wf(final(s)@),
        final(s)@ == register_spec(old(s)@, builder@).sched,
        ({
            let res = register_spec(old(s)@, builder@).result;
            match r {
                Ok(info) => res matches RegisterResultV::Registered(iv) && info@ == iv,
                Err(e) => match e {
                    AddWorkload::AlreadyExists => res is AlreadyExists,
                    AddWorkload::UnknownWorkload(p, c) => (res matches RegisterResultV::Unknown(
                        pv,
                        cv,
                    ) && p@ == pv && c@ == cv),
                    AddWorkload::Borrow => false,
                },
            }
        }),
{
    let ghost s0 = s@;
    let ghost bv = builder@;
    if s.workloads.contains(&builder.name) {
        return Err(AddWorkload::AlreadyExists);
    }
    let WorkloadBuilder { work_units, name, skip_if } = builder;
    let ghost units0 = work_units@;
    let ghost skipv = skip_if@;
    if work_units.is_empty() {
        if s.workloads.len() == 0 {
            s.default = name.clone();
        }
        s.workloads.insert(name.clone(), Batches::new());
        proof {
            assert(s@.store =~= store_insert_spec(s0.store, bv.name, batches_empty()));
            assert(s@ =~= register_spec(s0, bv).sched);
            assert forall|w: int, k: int|
                0 <= w < s@.store.batches.len() && 0 <= k < (
                #[trigger] s@.store.batches[w]).sequential.len() implies (
            #[trigger] s@.store.batches[w].sequential[k]) < s@.pool.type_ids.len() by {
                if w < s0.store.batches.len() {
                    assert(s@.store.batches[w] == s0.store.batches[w]);
                } else {
                    assert(s@.store.batches[w] == batches_empty());
                }
            }
            if s0.store.labels.len() > 0 {
                assert(s@.store.labels[0] == s0.store.labels[0]);
            }
        }
        let info = WorkloadInfo { name, batch_info: Vec::new() };
        proof {
            assert(info@.batch_info =~= Seq::<BatchInfoV>::empty());
            assert(info@ =~= register_spec(s0, bv).result->Registered_0);
        }
        return Ok(info);
    }
    let mut i: usize = 0;
    proof {
        assert(bv.leaves == units_leaves(units0));
        assert(units0.take(0) =~= Seq::<WorkUnit>::empty());
    }
    #[verifier::loop_isolation(false)]
    while i < work_units.len()
        invariant
            0 <= i <= units0.len(),
            work_units@ == units0,
            s@ == s0,
            first_unknown(units_leaves(units0.take(i as int)), s0.store) is None,
        decreases units0.len() - i,
    {
        let rr = first_unknown_in_unit(&work_units[i], &s.workloads);
        proof {
            lemma_leaves_split(units0, i as int);
            crate::flatten::lemma_first_unknown_concat(
                units_leaves(units0.take(i as int)),
                unit_leaves(units0[i as int]) + units_leaves(units0.skip(i as int + 1)),
                s0.store,
            );
            crate::flatten::lemma_first_unknown_concat(
                unit_leaves(units0[i as int]),
                units_leaves(units0.skip(i as int + 1)),
                s0.store,
            );
        }
        match rr {
            Some(l) => {
                proof {
                    assert(first_unknown(bv.leaves, s0.store) == Some(l@));
                }
                return Err(AddWorkload::UnknownWorkload(name, l));
            },
            None => {},
        }
        proof {
            assert(units0.take(i as int + 1) =~= units0.take(i as int).push(units0[i as int]));
            lemma_units_leaves_push(units0.take(i as int), units0[i as int]);
            crate::flatten::lemma_first_unknown_concat(
                units_leaves(units0.take(i as int)),
                unit_leaves(units0[i as int]),
                s0.store,
            );
        }
        i += 1;
    }
    proof {
        assert(units0.take(units0.len() as int) =~= units0);
        assert(first_unknown(bv.leaves, s0.store) is None);
        lemma_first_unknown_none(bv.leaves, s0.store);
    }
    let mut collected: Vec<FlatSystem> = Vec::new();
    let mut units = work_units;
    let ghost mut processed: int = 0;
    proof {
        assert(units0.take(0) =~= Seq::<WorkUnit>::empty());
        assert(flats_view(collected@) =~= Seq::<FlatV>::empty());
    }
    #[verifier::loop_isolation(false)]
    while units.len() > 0
        invariant
            0 <= processed <= units0.len(),
            units@ == units0.skip(processed),
            s@.store == s0.store,
            s@.default == s0.default,
            crate::pool::pool_wf(s@.pool),
            s@.pool.type_ids.len() >= s0.pool.type_ids.len(),
            ({
                let (np, nf) = flatten_leaves_spec(
                    s0.pool,
                    s0.store,
                    units_leaves(units0.take(processed)),
                );
                s@.pool == np && flats_view(collected@) == nf
            }),
        decreases units@.len(),
    {
        let u = units.remove(0);
        proof {
            assert(u == units0[processed]);
            assert(units0.take(processed + 1) =~= units0.take(processed).push(
                units0[processed],
            ));
            lemma_units_leaves_push(units0.take(processed), units0[processed]);
            lemma_flatten_concat(
                s0.pool,
                s0.store,
                units_leaves(units0.take(processed)),
                unit_leaves(units0[processed]),
            );
            lemma_leaves_split(units0, processed);
            crate::flatten::lemma_leaves_known_parts(
                units_leaves(units0.take(processed)),
                unit_leaves(units0[processed]) + units_leaves(units0.skip(processed + 1)),
                s0.store,
            );
            crate::flatten::lemma_leaves_known_parts(
                unit_leaves(units0[processed]),
                units_leaves(units0.skip(processed + 1)),
                s0.store,
            );
            assert(store_indices_bound(s@.store, s@.pool.type_ids.len() as int));
        }
        flatten_work_unit(u, &mut s.systems, &mut collected, &s.workloads);
        proof {
            processed = processed + 1;
            assert(units@ =~= units0.skip(processed));
        }
    }
    proof {
        assert(processed == units0.len());
        assert(units0.take(processed) =~= units0);
    }
    let ghost npool = flatten_leaves_spec(s0.pool, s0.store, bv.leaves).0;
    let ghost fv = flatten_leaves_spec(s0.pool, s0.store, bv.leaves).1;
    proof {
        assert(s@.pool == npool);
        assert(flats_view(collected@) == fv);
        assert(fv.len() == collected@.len());
        lemma_flatten_pool_facts(s0.pool, s0.store, bv.leaves);
    }
    if s.workloads.len() == 0 {
        s.default = name.clone();
    }
    let mut sequential: Vec<usize> = Vec::new();
    let mut k: usize = 0;
    #[verifier::loop_isolation(false)]
    while k < collected.len()
        invariant
            0 <= k <= collected.len(),
            sequential@.len() == k,
            forall|j: int| 0 <= j < k ==> (#[trigger] sequential@[j]) == collected@[j].index,
        decreases collected.len() - k,
    {
        sequential.push(collected[k].index);
        k += 1;
    }
    proof {
        assert(sequential@ =~= fv.map_values(|f: FlatV| f.index as usize));
    }
    if collected.len() == 1 {
        let e = collected.remove(0);
        proof {
            assert(e@ == fv[0]);
        }
        let si = find_special(&e.borrow);
        let special = si < e.borrow.len();
        let mut parallel: Vec<(Option<usize>, Vec<usize>)> = Vec::new();
        if special {
            parallel.push((Some(e.index), Vec::new()));
        } else {
            let mut lone: Vec<usize> = Vec::new();
            lone.push(e.index);
            parallel.push((None, lone));
        }
        let batches = Batches { parallel, sequential, skip_if };
        proof {
            assert(special == (special_index(fv[0].borrow) < fv[0].borrow.len()));
            assert(batches@.parallel =~= register_batches(fv, skipv).parallel);
            assert(batches@ =~= register_batches(fv, skipv));
        }
        let ghost newb = batches@;
        let sys_info = SystemInfo {
            name: e.name,
            type_id: e.type_id,
            borrow: e.borrow,
            conflict: None,
        };
        let ghost siv = sys_info@;
        let mut batch_info_vec: Vec<BatchInfo> = Vec::new();
        batch_info_vec.push(BatchInfo { systems: (Some(sys_info), Vec::new()) });
        s.workloads.insert(name.clone(), batches);
        proof {
            assert(s@.store =~= store_insert_spec(s0.store, bv.name, newb));
            assert(s@ =~= register_spec(s0, bv).sched);
            register_wf_from_parts(s0, bv, s@);
        }
        let info = WorkloadInfo { name, batch_info: batch_info_vec };
        proof {
            assert(siv == register_info(fv)[0].main->Some_0);
            assert(info@.batch_info[0].others =~= Seq::<SystemInfoV>::empty());
            assert(info@.batch_info[0] =~= register_info(fv)[0]);
            assert(info@.batch_info =~= register_info(fv));
            assert(info@ =~= register_spec(s0, bv).result->Registered_0);
        }
        Ok(info)
    } else {
        let ghost colv = collected@;
        let packs = pack_flat(collected);
        let ghost planv = batches_view(packs@);
        proof {
            assert(planv == plan_batches(fv));
        }
        let (parallel, batch_info_vec) = packs_outputs(packs);
        let batches = Batches { parallel, sequential, skip_if };
        proof {
            assert(batches@.parallel =~= parallel_of_plan(planv));
            assert(batches@ =~= register_batches(fv, skipv));
        }
        let ghost newb = batches@;
        s.workloads.insert(name.clone(), batches);
        proof {
            assert(s@.store =~= store_insert_spec(s0.store, bv.name, newb));
            assert(s@ =~= register_spec(s0, bv).sched);
            register_wf_from_parts(s0, bv, s@);
        }
        let info = WorkloadInfo { name, batch_info: batch_info_vec };
        proof {
            assert(info@.batch_info =~= info_of_plan(planv));
            assert(info@.batch_info =~= register_info(fv));
            assert(info@ =~= register_spec(s0, bv).result->Registered_0);
        }
        Ok(info)
    }
}

/// After a successful registration the registry is still well-formed: the
/// pool stayed well-formed, every stored slot exists, and the default is
/// still the first label.
proof fn register_wf_from_parts(s0: SchedulerV, bv: BuilderV, ns: SchedulerV)
    requires
        scheduler_wf(s0),
        !s0.store.index.contains_key(bv.name),
        !bv.no_units,
        first_unknown(bv.leaves, s0.store) is None,
        ns == register_spec(s0, bv).sched,
    ensures
        scheduler_wf(ns),
{
    lemma_first_unknown_none(bv.leaves, s0.store);
    lemma_flatten_pool_facts(s0.pool, s0.store, bv.leaves);
    let (npool, fv) = flatten_leaves_spec(s0.pool, s0.store, bv.leaves);
    let newb = register_batches(fv, bv.skip_if);
    let nstore = store_insert_spec(s0.store, bv.name, newb);
    assert(crate::scheduler::store_wf(nstore)) by {
        assert forall|i: int|
            0 <= i < nstore.labels.len() implies nstore.index.contains_key(
            #[trigger] nstore.labels[i],
        ) && nstore.index[nstore.labels[i]] == i by {
            if i < s0.store.labels.len() {
                assert(s0.store.index.contains_key(s0.store.labels[i]));
                assert(nstore.labels[i] == s0.store.labels[i]);
                assert(s0.store.labels[i] != bv.name);
            }
        }
        assert forall|l: Seq<char>| nstore.index.contains_key(l) implies 0 <= (
        #[trigger] nstore.index[l]) < nstore.labels.len() && nstore.labels[nstore.index[l]]
            == l by {
            if l == bv.name {
                assert(nstore.labels[s0.store.labels.len() as int] == bv.name);
            } else {
                assert(s0.store.index.contains_key(l));
            }
        }
    }
    assert(store_indices_bound(nstore, ns.pool.type_ids.len() as int)) by {
        assert forall|w: int, k: int|
            0 <= w < nstore.batches.len() && 0 <= k < (
        #[trigger] nstore.batches[w]).sequential.len() implies (
        #[trigger] nstore.batches[w].sequential[k]) < ns.pool.type_ids.len() by {
            if w < s0.store.batches.len() {
                assert(nstore.batches[w] == s0.store.batches[w]);
            } else {
                assert(nstore.batches[w] == newb);
                assert(newb.sequential == fv.map_values(|f: FlatV| f.index as usize));
                assert(newb.sequential[k] == fv[k].index as usize);
                assert(0 <= fv[k].index < npool.type_ids.len());
            }
        }
    }
    if nstore.labels.len() > 0 {
        if s0.store.labels.len() == 0 {
            assert(nstore.labels[0] == bv.name);
        } else {
            assert(nstore.labels[0] == s0.store.labels[0]);
        }
    }
}

impl WorkloadBuilder {
    /// Finishes the workload and registers it into the world's registry,
    /// exactly as [`register_spec`] says.  Returns how the workload was
    /// split into batches; the registry is unchanged on error.
    pub fn add_to_world(self, world: &mut Scheduler) -> (r: Result<WorkloadInfo, AddWorkload>)
        requires
            scheduler_wf(old(world)@),
        ensures
            scheduler_wf(final(world)@),
            final(world)@ == register_spec(old(world)@, self@).sched,
            ({
                let res = register_spec(old(world)@, self@).result;
                match r {
                    Ok(info) => res matches RegisterResultV::Registered(iv) && info@ == iv,
                    Err(e) => match e {
                        AddWorkload::AlreadyExists => res is AlreadyExists,
                        AddWorkload::UnknownWorkload(p, c) => (res matches
                        RegisterResultV::Unknown(pv, cv) && p@ == pv && c@ == cv),
                        AddWorkload::Borrow => false,
                    },
                }
            }),
    {
        create_workload(self, world)
    }

    /// Builds a standalone workload: the same registration as
    /// [`WorkloadBuilder::add_to_world`], into a fresh empty registry that
    /// the returned workload owns.  The batch layout is therefore the same
    /// either way.
    pub fn build(self) -> (r: Result<(ScheduledWorkload, WorkloadInfo), AddWorkload>)
        ensures
            ({
                let out = register_spec(scheduler_empty(), self@);
                match r {
                    Ok((w, info)) => {
                        &&& out.result matches RegisterResultV::Registered(iv) && info@ == iv
                        &&& w.scheduler@ == out.sched
                        &&& w.name@ == self@.name
                        &&& scheduler_wf(w.scheduler@)
                        &&& w.scheduler@.store.index.contains_key(w.name@)
                    },
                    Err(e) => match e {
                        AddWorkload::AlreadyExists => out.result is AlreadyExists,
                        AddWorkload::UnknownWorkload(p, c) => (out.result matches
                        RegisterResultV::Unknown(pv, cv) && p@ == pv && c@ == cv),
                        AddWorkload::Borrow => false,
                    },
                }
            }),
    {
        let name = self.name.clone();
        let ghost bv = self@;
        let mut scheduler = Scheduler::new();
        proof {
            assert(scheduler@ =~= scheduler_empty());
        }
        let info = create_workload(self, &mut scheduler)?;
        proof {
            assert(register_spec(scheduler_empty(), bv).result is Registered);
            assert(scheduler@.store.index.contains_key(bv.name));
        }
        Ok((ScheduledWorkload { name, scheduler }, info))
    }
}

/// A standalone prebuilt workload: its label and its own registry, holding
/// the compiled batches.
pub struct ScheduledWorkload {
    /// The workload's label.
    pub name: String,
    /// The registry the workload was compiled into.
    pub scheduler: Scheduler,
}

impl ScheduledWorkload {
    /// A workload that is ready to run.
    pub open spec fn wf(&self) -> bool {
        scheduler_wf(self.scheduler@) && self.scheduler@.store.index.contains_key(self.name@)
    }

    /// The compiled batches.
    pub open spec fn plan(&self) -> BatchesV {
        self.scheduler@.store.batches[self.scheduler@.store.index[self.name@]]
    }

    /// Creates a new empty [`WorkloadBuilder`] for the label.
    pub fn builder(label: String) -> (r: WorkloadBuilder)
        ensures
            r@.name == label@,
            r@.no_units,
            r@.leaves == Seq::<LeafV>::empty(),
            r@.skip_if == Seq::<SkipIf>::empty(),
    {
        WorkloadBuilder::new(label)
    }

    /// The workload's label.
    pub fn label(&self) -> (r: &String)
        ensures
            r@ == self.name@,
    {
        &self.name
    }

    /// The compiled batches, for an executor to run.
    pub fn batches(&self) -> (r: &Batches)
        requires
            self.wf(),
        ensures
            r@ == self.plan(),
    {
        match self.scheduler.workloads.get(&self.name) {
            Some(b) => b,
            None => {
                proof {
                    assert(false);
                }
                vstd::pervasive::unreached()
            },
        }
    }
}

/// Whether a storage id is among the storages a world currently holds.
pub open spec fn storage_present(present: Seq<StorageId>, id: StorageId) -> bool {
    exists|i: int| 0 <= i < present.len() && present[i] == id
}

/// A descriptor that asks for a unique storage the world does not have.
pub open spec fn desc_missing_unique(t: crate::info::TypeInfoV, present: Seq<StorageId>) -> bool {
    t.storage_id is Unique && !storage_present(present, t.storage_id)
}

/// No descriptor of the list asks for a missing unique storage.
pub open spec fn borrows_uniques_ok(
    bs: Seq<crate::info::TypeInfoV>,
    present: Seq<StorageId>,
) -> bool {
    forall|j: int| 0 <= j < bs.len() ==> !desc_missing_unique(#[trigger] bs[j], present)
}

/// One leaf asks for no missing unique storage: a system through its own
/// borrows; a workload reference through the pool records of the systems
/// it expands to, and it must be registered at all.
pub open spec fn leaf_uniques_ok(
    leaf: LeafV,
    store: StoreV,
    pool: PoolV,
    present: Seq<StorageId>,
) -> bool {
    match leaf {
        LeafV::System(rec) => borrows_uniques_ok(rec.borrow, present),
        LeafV::Name(l) => store.index.contains_key(l) && (forall|k: int|
            0 <= k < store.batches[store.index[l]].sequential.len()
                ==> borrows_uniques_ok(
                pool.borrows[#[trigger] store.batches[store.index[l]].sequential[k] as int],
                present,
            )),
    }
}

/// Every leaf asks for no missing unique storage.
pub open spec fn uniques_ok(
    leaves: Seq<LeafV>,
    store: StoreV,
    pool: PoolV,
    present: Seq<StorageId>,
) -> bool {
    forall|i: int| 0 <= i < leaves.len() ==> leaf_uniques_ok(#[trigger] leaves[i], store, pool, present)
}

/// Whether the world holds the storage.
fn storage_present_exec(present: &Vec<StorageId>, id: StorageId) -> (r: bool)
    ensures
        r == storage_present(present@, id),
{
    let mut i: usize = 0;
    while i < present.len()
        invariant
            0 <= i <= present.len(),
            forall|j: int| 0 <= j < i ==> present@[j] != id,
        decreases present.len() - i,
    {
        if present[i] == id {
            return true;
        }
        i += 1;
    }
    false
}

/// The first descriptor of the list that asks for a missing unique
/// storage, if any.
fn find_missing_unique(borrows: &Vec<crate::info::TypeInfo>, present: &Vec<StorageId>) -> (r:
    Option<crate::info::TypeInfo>)
    ensures
        match r {
            Some(t) => desc_missing_unique(t@, present@) && !borrows_uniques_ok(
                crate::packing::infos_view(borrows@),
                present@,
            ),
            None => borrows_uniques_ok(crate::packing::infos_view(borrows@), present@),
        },
{
    let ghost bv = crate::packing::infos_view(borrows@);
    let mut j: usize = 0;
    while j < borrows.len()
        invariant
            0 <= j <= borrows.len(),
            bv == crate::packing::infos_view(borrows@),
            bv.len() == borrows.len(),
            forall|i: int| 0 <= i < j ==> !desc_missing_unique(#[trigger] bv[i], present@),
        decreases borrows.len() - j,
    {
        let t = borrows[j];
        if matches!(t.storage_id, StorageId::Unique(_)) {
            if !storage_present_exec(present, t.storage_id) {
                proof {
                    assert(bv[j as int] == t@);
                    assert(desc_missing_unique(bv[j as int], present@));
                }
                return Some(t);
            }
        }
        proof {
            assert(bv[j as int] == t@);
        }
        j += 1;
    }
    None
}

/// The first missing unique storage or unknown workload reference of this
/// unit, if any.
fn check_uniques_in_work_unit(
    unit: &WorkUnit,
    world: &Scheduler,
    storages: &Vec<StorageId>,
) -> (r: Option<crate::error::UniquePresence>)
    requires
        scheduler_wf(world@),
    ensures
        ({
            let leaves = unit_leaves(*unit);
            match r {
                Some(e) => !(forall|i: int|
                    0 <= i < leaves.len() ==> leaf_uniques_ok(
                        #[trigger] leaves[i],
                        world@.store,
                        world@.pool,
                        storages@,
                    )) && (match e {
                    crate::error::UniquePresence::Unique(t) => desc_missing_unique(t@, storages@),
                    crate::error::UniquePresence::Workload(l) => !world@.store.index.contains_key(
                        l@,
                    ),
                    _ => false,
                }),
                None => forall|i: int|
                    0 <= i < leaves.len() ==> leaf_uniques_ok(
                        #[trigger] leaves[i],
                        world@.store,
                        world@.pool,
                        storages@,
                    ),
            }
        }),
    decreases *unit,
{
    match unit {
        WorkUnit::System(ws) => match ws {
            WorkloadSystem::System { borrow_constraints, .. } => {
                let ghost lv = unit_leaves(*unit);
                proof {
                    assert(lv == crate::system::system_leaves(*ws));
                    assert(lv.len() == 1);
                }
                match find_missing_unique(borrow_constraints, storages) {
                    Some(t) => {
                        proof {
                            assert(!leaf_uniques_ok(lv[0], world@.store, world@.pool, storages@));
                        }
                        Some(crate::error::UniquePresence::Unique(t))
                    },
                    None => {
                        proof {
                            assert(leaf_uniques_ok(lv[0], world@.store, world@.pool, storages@));
                        }
                        None
                    },
                }
            },
            WorkloadSystem::Workload(w) => {
                let ghost allv = w.work_units@;
                let mut i: usize = 0;
                proof {
                    assert(unit_leaves(*unit) == units_leaves(allv));
                }
                #[verifier::loop_isolation(false)]
                while i < w.work_units.len()
                    invariant
                        0 <= i <= allv.len(),
                        forall|j: int|
                            0 <= j < units_leaves(allv.take(i as int)).len()
                                ==> leaf_uniques_ok(
                                #[trigger] units_leaves(allv.take(i as int))[j],
                                world@.store,
                                world@.pool,
                                storages@,
                            ),
                    decreases allv.len() - i,
                {
                    proof {
                        assert(decreases_to!(*unit => w.work_units@[i as int]));
                    }
                    let r = check_uniques_in_work_unit(&w.work_units[i], world, storages);
                    proof {
                        lemma_leaves_split(allv, i as int);
                    }
                    if r.is_some() {
                        proof {
                            let bad = choose|j: int|
                                0 <= j < unit_leaves(allv[i as int]).len() && !leaf_uniques_ok(
                                    unit_leaves(allv[i as int])[j],
                                    world@.store,
                                    world@.pool,
                                    storages@,
                                );
                            let full = units_leaves(allv);
                            let off = units_leaves(allv.take(i as int)).len() + bad;
                            assert(full[off] == unit_leaves(allv[i as int])[bad]);
                        }
                        return r;
                    }
                    proof {
                        assert(allv.take(i as int + 1) =~= allv.take(i as int).push(
                            allv[i as int],
                        ));
                        lemma_units_leaves_push(allv.take(i as int), allv[i as int]);
                        let upto = units_leaves(allv.take(i as int + 1));
                        let pre = units_leaves(allv.take(i as int));
                        let cur = unit_leaves(allv[i as int]);
                        assert forall|j: int|
                            0 <= j < upto.len() implies leaf_uniques_ok(
                            #[trigger] upto[j],
                            world@.store,
                            world@.pool,
                            storages@,
                        ) by {
                            if j < pre.len() {
                                assert(upto[j] == pre[j]);
                            } else {
                                assert(upto[j] == cur[j - pre.len()]);
                            }
                        }
                    }
                    i += 1;
                }
                proof {
                    assert(allv.take(allv.len() as int) =~= allv);
                }
                None
            },
        },
        WorkUnit::WorkloadName(l) => {
            let ghost lv = unit_leaves(*unit);
            proof {
                assert(lv == seq![LeafV::Name(l@)]);
                assert(lv[0] == LeafV::Name(l@));
            }
            let bopt = world.workloads.get(l);
            match bopt {
                None => Some(crate::error::UniquePresence::Workload(l.clone())),
                Some(b) => {
                    let ghost bv = b@;
                    let ghost widx = world@.store.index[l@];
                    proof {
                        assert(bv == world@.store.batches[widx]);
                    }
                    let mut k: usize = 0;
                    #[verifier::loop_isolation(false)]
                    while k < b.sequential.len()
                        invariant
                            0 <= k <= b.sequential.len(),
                            forall|j: int|
                                0 <= j < k ==> borrows_uniques_ok(
                                    world@.pool.borrows[#[trigger] bv.sequential[j] as int],
                                    storages@,
                                ),
                        decreases b.sequential.len() - k,
                    {
                        let idx = b.sequential[k];
                        proof {
                            assert(bv.sequential[k as int] == idx);
                            assert(idx < world@.pool.type_ids.len());
                            assert(world@.pool.borrows[idx as int]
                                == crate::packing::infos_view(
                                world.systems.system_generators@[idx as int]@,
                            ));
                        }
                        match find_missing_unique(&world.systems.system_generators[idx], storages) {
                            Some(t) => {
                                proof {
                                    assert(!leaf_uniques_ok(
                                        lv[0],
                                        world@.store,
                                        world@.pool,
                                        storages@,
                                    ));
                                }
                                return Some(crate::error::UniquePresence::Unique(t));
                            },
                            None => {},
                        }
                        k += 1;
                    }
                    proof {
                        assert(leaf_uniques_ok(lv[0], world@.store, world@.pool, storages@));
                    }
                    None
                },
            }
        },
    }
}

impl WorkloadBuilder {
    /// Checks that every unique storage this workload's systems borrow is
    /// present in the world, nested workload references included.  Success
    /// comes exactly when nothing is missing; an error names a missing
    /// unique storage or an unregistered workload reference.
    pub fn are_all_uniques_present_in_world(
        &self,
        world: &Scheduler,
        storages: &Vec<StorageId>,
    ) -> (r: Result<(), crate::error::UniquePresence>)
        requires
            scheduler_wf(world@),
        ensures
            r is Ok <==> uniques_ok(self@.leaves, world@.store, world@.pool, storages@),
            ({
                match r {
                    Ok(u) => true,
                    Err(e) => match e {
                        crate::error::UniquePresence::Unique(t) => desc_missing_unique(
                            t@,
                            storages@,
                        ),
                        crate::error::UniquePresence::Workload(l) => !world@.store.index.contains_key(
                            l@,
                        ),
                        _ => false,
                    },
                }
            }),
    {
        let ghost units0 = self.work_units@;
        let mut i: usize = 0;
        proof {
            assert(self@.leaves == units_leaves(units0));
            assert(units0.take(0) =~= Seq::<WorkUnit>::empty());
        }
        #[verifier::loop_isolation(false)]
        while i < self.work_units.len()
            invariant
                0 <= i <= units0.len(),
                forall|j: int|
                    0 <= j < units_leaves(units0.take(i as int)).len() ==> leaf_uniques_ok(
                        #[trigger] units_leaves(units0.take(i as int))[j],
                        world@.store,
                        world@.pool,
                        storages@,
                    ),
            decreases units0.len() - i,
        {
            let r = check_uniques_in_work_unit(&self.work_units[i], world, storages);
            proof {
                lemma_leaves_split(units0, i as int);
            }
            match r {
                Some(e) => {
                    proof {
                        let bad = choose|j: int|
                            0 <= j < unit_leaves(units0[i as int]).len() && !leaf_uniques_ok(
                                unit_leaves(units0[i as int])[j],
                                world@.store,
                                world@.pool,
                                storages@,
                            );
                        let full = units_leaves(units0);
                        let off = units_leaves(units0.take(i as int)).len() + bad;
                        assert(full[off] == unit_leaves(units0[i as int])[bad]);
                    }
                    return Err(e);
                },
                None => {},
            }
            proof {
                assert(units0.take(i as int + 1) =~= units0.take(i as int).push(
                    units0[i as int],
                ));
                lemma_units_leaves_push(units0.take(i as int), units0[i as int]);
                let upto = units_leaves(units0.take(i as int + 1));
                let pre = units_leaves(units0.take(i as int));
                let cur = unit_leaves(units0[i as int]);
                assert forall|j: int|
                    0 <= j < upto.len() implies leaf_uniques_ok(
                    #[trigger] upto[j],
                    world@.store,
                    world@.pool,
                    storages@,
                ) by {
                    if j < pre.len() {
                        assert(upto[j] == pre[j]);
                    } else {
                        assert(upto[j] == cur[j - pre.len()]);
                    }
                }
            }
            i += 1;
        }
        proof {
            assert(units0.take(units0.len() as int) =~= units0);
        }
        Ok(())
    }
}

/// Law: registering under a label that is already taken returns the
/// already-exists error and leaves the registry exactly as it was.
pub proof fn lemma_duplicate_label_changes_nothing(s: SchedulerV, b: BuilderV)
    requires
        s.store.index.contains_key(b.name),
    ensures
        register_spec(s, b).sched == s,
        register_spec(s, b).result is AlreadyExists,
{
}

/// Law: registering a new workload never touches the batches already
/// stored under another label.  Re-running a registered workload without
/// an intervening registration therefore always sees the very plan built
/// when it was registered.
pub proof fn lemma_registration_preserves_existing(s: SchedulerV, b: BuilderV, l: Seq<char>)
    requires
        crate::scheduler::store_wf(s.store),
        s.store.index.contains_key(l),
        l != b.name,
    ensures
        register_spec(s, b).sched.store.index.contains_key(l),
        register_spec(s, b).sched.store.batches[register_spec(s, b).sched.store.index[l]]
            == s.store.batches[s.store.index[l]],
{
    let ns = register_spec(s, b).sched;
    if !s.store.index.contains_key(b.name) && (b.no_units || first_unknown(b.leaves, s.store)
        is None) {
        assert(ns.store.index[l] == s.store.index[l]);
        assert(0 <= s.store.index[l] < s.store.batches.len());
        assert(ns.store.batches[s.store.index[l]] == s.store.batches[s.store.index[l]]);
    }
}

/// Law: the batch table stored for a newly registered workload is the
/// image of a well-formed plan.  Together with the laws of
/// [`crate::laws`], every batch of every registered workload holds no two
/// conflicting systems, pins at most one system to the main worker, and
/// fills its main slot exactly for systems that need it.
pub proof fn lemma_registered_batches_from_wf_plan(s: SchedulerV, b: BuilderV)
    requires
        !s.store.index.contains_key(b.name),
        !b.no_units,
        first_unknown(b.leaves, s.store) is None,
    ensures
        ({
            let (npool, flat) = flatten_leaves_spec(s.pool, s.store, b.leaves);
            let stored = register_spec(s, b).sched.store.batches.last();
            flat.len() != 1 ==> stored.parallel == parallel_of_plan(plan_batches(flat))
                && crate::laws::batches_wf(plan_batches(flat))
        }),
{
    let (npool, flat) = flatten_leaves_spec(s.pool, s.store, b.leaves);
    crate::laws::lemma_plan_wf(flat);
    let stored = register_spec(s, b).sched.store.batches.last();
    assert(register_spec(s, b).sched.store.batches == s.store.batches.push(
        register_batches(flat, b.skip_if),
    ));
}

} // verus!
