//! The workload registry and the execution contract.
//!
//! The registry maps workload labels to prebuilt [`Batches`], shares one
//! system pool across all workloads, and remembers the first registered
//! label as the default.  Executing a workload only reads the registry:
//! the functions here resolve a label to its batches and decide skipping
//! and error surfacing; an executor performs the actual dispatch.

use vstd::prelude::*;

use crate::error::Run;
use crate::error::RunWorkload;
use crate::ids::StorageId;
use crate::lookup::LabelMap;
use crate::lookup::label_map_of;
use crate::pool::PoolV;
use crate::pool::SystemPool;
use crate::pool::pool_wf;

verus! {

/// A condition under which a whole workload is skipped at run time.
///
/// The executor evaluates each condition against the world; if any holds,
/// the workload returns success without running.
#[derive(Clone, Copy, PartialEq, Eq, Structural, Debug)]
pub enum SkipIf {
    /// Skip when the storage is empty or missing.
    StorageEmpty(StorageId),
    /// Skip when the unique storage is not present.
    MissingUnique(StorageId),
    /// Skip when the caller-supplied predicate with this handle holds.
    Custom(u64),
}

/// A compiled workload: the batches in execution order, the declared
/// sequential order, and the skip conditions.
#[derive(Debug)]
pub struct Batches {
    /// One entry per batch: the optional main-worker slot and the systems
    /// free to run on any worker, as pool slots.
    pub parallel: Vec<(Option<usize>, Vec<usize>)>,
    /// The pool slot of each system in declared order.
    pub sequential: Vec<usize>,
    /// The workload's skip conditions.
    pub skip_if: Vec<SkipIf>,
}

/// Mathematical image of [`Batches`].
#[verifier::ext_equal]
pub struct BatchesV {
    pub parallel: Seq<(Option<usize>, Seq<usize>)>,
    pub sequential: Seq<usize>,
    pub skip_if: Seq<SkipIf>,
}

impl View for Batches {
    type V = BatchesV;

    open spec fn view(&self) -> BatchesV {
        BatchesV {
            parallel: self.parallel@.map_values(
                |b: (Option<usize>, Vec<usize>)| (b.0, b.1@),
            ),
            sequential: self.sequential@,
            skip_if: self.skip_if@,
        }
    }
}

/// The image of an empty compilation.
pub open spec fn batches_empty() -> BatchesV {
    BatchesV { parallel: seq![], sequential: seq![], skip_if: seq![] }
}

impl Batches {
    /// An empty compilation.
    pub fn new() -> (r: Batches)
        ensures
            r@ == batches_empty(),
    {
        let r = Batches { parallel: Vec::new(), sequential: Vec::new(), skip_if: Vec::new() };
        proof {
            assert(r@.parallel =~= Seq::<(Option<usize>, Seq<usize>)>::empty());
        }
        r
    }
}

impl Default for Batches {
    /// An empty compilation.
    fn default() -> (r: Batches)
        ensures
            r@ == batches_empty(),
    {
        Batches::new()
    }
}

/// The label-to-batches side of the registry.
pub struct WorkloadStore {
    /// Label to slot.
    pub index: LabelMap,
    /// The labels, in registration order.
    pub labels: Vec<String>,
    /// The compiled batches, one per label.
    pub batches: Vec<Batches>,
}

/// Mathematical image of the store.
#[verifier::ext_equal]
pub struct StoreV {
    pub index: Map<Seq<char>, int>,
    pub labels: Seq<Seq<char>>,
    pub batches: Seq<BatchesV>,
}

/// A label table, with its slots as unbounded integers.
pub open spec fn label_slots_as_int(m: Map<Seq<char>, usize>) -> Map<Seq<char>, int> {
    Map::new(|k: Seq<char>| m.contains_key(k), |k: Seq<char>| m[k] as int)
}

impl View for WorkloadStore {
    type V = StoreV;

    open spec fn view(&self) -> StoreV {
        StoreV {
            index: label_slots_as_int(label_map_of(self.index)),
            labels: self.labels@.map_values(|l: String| l@),
            batches: self.batches@.map_values(|b: Batches| b@),
        }
    }
}

/// Every workload the store knows refers only to pool slots that exist.
pub open spec fn store_indices_bound(store: StoreV, pool_len: int) -> bool {
    forall|w: int, k: int|
        0 <= w < store.batches.len() && 0 <= k < (#[trigger] store.batches[w]).sequential.len()
            ==> (#[trigger] store.batches[w].sequential[k]) < pool_len
}

/// Well-formedness of the store: one batches entry per label, and the
/// index is exactly the inverse of the label column.
pub open spec fn store_wf(s: StoreV) -> bool {
    &&& s.labels.len() == s.batches.len()
    &&& forall|i: int|
        0 <= i < s.labels.len() ==> s.index.contains_key(#[trigger] s.labels[i])
            && s.index[s.labels[i]] == i
    &&& forall|l: Seq<char>|
        s.index.contains_key(l) ==> 0 <= (#[trigger] s.index[l]) < s.labels.len()
            && s.labels[s.index[l]] == l
}

impl WorkloadStore {
    /// An empty store.
    pub fn new() -> (r: WorkloadStore)
        ensures
            r@.labels.len() == 0,
            r@.batches.len() == 0,
            r@.index =~= Map::<Seq<char>, int>::empty(),
            store_wf(r@),
    {
        let r = WorkloadStore { index: LabelMap::new(), labels: Vec::new(), batches: Vec::new() };
        proof {
            assert(r@.labels =~= Seq::<Seq<char>>::empty());
            assert(r@.batches =~= Seq::<BatchesV>::empty());
        }
        r
    }

    /// How many workloads are registered.
    pub fn len(&self) -> (r: usize)
        ensures
            r == self@.labels.len(),
    {
        self.labels.len()
    }

    /// Whether a workload is registered under the label.
    pub fn contains(&self, label: &String) -> (r: bool)
        ensures
            r == self@.index.contains_key(label@),
    {
        self.index.contains_key(label)
    }

    /// The batches registered under the label, if any.
    pub fn get(&self, label: &String) -> (r: Option<&Batches>)
        requires
            store_wf(self@),
        ensures
            match r {
                Some(b) => self@.index.contains_key(label@) && b@ == self@.batches[
                    self@.index[label@]
                ],
                None => !self@.index.contains_key(label@),
            },
    {
        match self.index.get(label) {
            Some(i) => {
                proof {
                    assert(self@.index.contains_key(label@));
                    assert(self@.index[label@] == i as int);
                    assert(self@.index[label@] < self@.labels.len());
                    assert(self@.batches.len() == self.batches@.len());
                }
                Some(&self.batches[i])
            },
            None => {
                proof {
                    assert(!self@.index.contains_key(label@));
                }
                None
            },
        }
    }

    /// Registers batches under a fresh label.
    pub fn insert(&mut self, label: String, batches: Batches)
        requires
            store_wf(old(self)@),
            !old(self)@.index.contains_key(label@),
        ensures
            store_wf(final(self)@),
            final(self)@.labels == old(self)@.labels.push(label@),
            final(self)@.batches == old(self)@.batches.push(batches@),
            final(self)@.index == old(self)@.index.insert(
                label@,
                old(self)@.labels.len() as int,
            ),
    {
        let idx = self.labels.len();
        let ghost lv = label@;
        let ghost bv = batches@;
        self.index.insert(label.clone(), idx);
        self.labels.push(label);
        self.batches.push(batches);
        proof {
            assert(self@.index =~= old(self)@.index.insert(lv, idx as int));
            assert(self@.labels =~= old(self)@.labels.push(lv));
            assert(self@.batches =~= old(self)@.batches.push(bv));
            assert forall|i: int|
                0 <= i < self@.labels.len() implies self@.index.contains_key(
                #[trigger] self@.labels[i],
            ) && self@.index[self@.labels[i]] == i by {
                if i < old(self)@.labels.len() {
                    assert(old(self)@.index.contains_key(old(self)@.labels[i]));
                    assert(self@.labels[i] == old(self)@.labels[i]);
                    assert(old(self)@.labels[i] != lv);
                }
            }
            assert forall|l: Seq<char>| self@.index.contains_key(l) implies 0 <= (
            #[trigger] self@.index[l]) < self@.labels.len() && self@.labels[self@.index[l]]
                == l by {
                if l == lv {
                    assert(self@.labels[idx as int] == lv);
                } else {
                    assert(old(self)@.index.contains_key(l));
                    assert(old(self)@.index[l] < old(self)@.labels.len());
                }
            }
        }
    }
}

/// The registry: the shared system pool, the compiled workloads, and the
/// default label.
pub struct Scheduler {
    /// The shared system pool.
    pub systems: SystemPool,
    /// Label to compiled batches.
    pub workloads: WorkloadStore,
    /// The first registered label; what runs when no label is given.
    pub default: String,
}

/// Mathematical image of the registry.
#[verifier::ext_equal]
pub struct SchedulerV {
    pub pool: PoolV,
    pub store: StoreV,
    pub default: Seq<char>,
}

impl View for Scheduler {
    type V = SchedulerV;

    open spec fn view(&self) -> SchedulerV {
        SchedulerV { pool: self.systems@, store: self.workloads@, default: self.default@ }
    }
}

/// Well-formedness of the registry: pool and store are well-formed, every
/// slot any workload names exists in the pool, and the default is the
/// first registered label.
pub open spec fn scheduler_wf(s: SchedulerV) -> bool {
    &&& pool_wf(s.pool)
    &&& store_wf(s.store)
    &&& store_indices_bound(s.store, s.pool.type_ids.len() as int)
    &&& s.store.labels.len() > 0 ==> s.default == s.store.labels[0]
}

impl Scheduler {
    /// An empty registry.
    pub fn new() -> (r: Scheduler)
        ensures
            scheduler_wf(r@),
            r@.pool.type_ids.len() == 0,
            r@.store.labels.len() == 0,
            r@.store.index =~= Map::<Seq<char>, int>::empty(),
            r@.pool.lookup =~= Map::<u64, int>::empty(),
            r@.default == Seq::<char>::empty(),
    {
        Scheduler {
            systems: SystemPool::new(),
            workloads: WorkloadStore::new(),
            default: String::new(),
        }
    }

    /// The default workload's label: the first ever registered.
    pub fn default_label(&self) -> (r: &String)
        ensures
            r@ == self@.default,
    {
        &self.default
    }

    /// Resolves a label for execution: the batches registered under it, or
    /// exactly when the label is unknown, the missing-workload error.
    ///
    /// Resolution takes the registry read-only: running a workload can
    /// never change what the planner built.
    pub fn workload_batches(&self, label: &String) -> (r: Result<&Batches, RunWorkload>)
        requires
            scheduler_wf(self@),
        ensures
            match r {
                Ok(b) => self@.store.index.contains_key(label@) && b@ == self@.store.batches[
                    self@.store.index[label@]
                ],
                Err(e) => !self@.store.index.contains_key(label@) && (e matches
                    RunWorkload::MissingWorkload(l) && l@ == label@),
            },
    {
        match self.workloads.get(label) {
            Some(b) => Ok(b),
            None => Err(RunWorkload::MissingWorkload(label.clone())),
        }
    }
}

/// Whether a workload is skipped: some skip condition evaluated to true.
///
/// The executor hands in one boolean per condition, in order; the workload
/// is skipped exactly when any holds.
pub fn should_skip(results: &Vec<bool>) -> (r: bool)
    ensures
        r == exists|i: int| 0 <= i < results@.len() && results@[i],
{
    let mut i: usize = 0;
    while i < results.len()
        invariant
            0 <= i <= results@.len(),
            forall|j: int| 0 <= j < i ==> !results@[j],
        decreases results@.len() - i,
    {
        if results[i] {
            return true;
        }
        i += 1;
    }
    false
}

/// Which error a finished batch surfaces: the first one, in slot order;
/// later errors of the same batch are discarded.
pub fn first_batch_error(results: &Vec<Option<Run>>) -> (r: Option<(usize, Run)>)
    ensures
        match r {
            Some((i, e)) => 0 <= i < results@.len() && results@[i as int] == Some(e) && forall|
                j: int,
            | 0 <= j < i ==> results@[j] is None,
            None => forall|j: int| 0 <= j < results@.len() ==> results@[j] is None,
        },
{
    let mut i: usize = 0;
    while i < results.len()
        invariant
            0 <= i <= results@.len(),
            forall|j: int| 0 <= j < i ==> results@[j] is None,
        decreases results@.len() - i,
    {
        if let Some(e) = results[i] {
            return Some((i, e));
        }
        i += 1;
    }
    None
}

} // verus!
