//! The flattener.
//!
//! Expands a workload's work units, in declared order, into a flat list of
//! systems, entering each new system into the shared pool and deduplicating
//! by type token.  A reference to a registered workload is expanded from
//! that workload's sequential order, regenerating each system's borrows
//! from its pool record; its nested structure is not visited again.

use vstd::prelude::*;

use crate::info::TypeInfo;
use crate::packing::FlatSystem;
use crate::packing::infos_view;
use crate::plan::FlatV;
use crate::pool::PoolV;
use crate::pool::SystemPool;
use crate::pool::pool_insert_spec;
use crate::pool::pool_wf;
use crate::scheduler::StoreV;
use crate::scheduler::store_indices_bound;
use crate::scheduler::WorkloadStore;
use crate::scheduler::store_wf;
use crate::system::LeafV;
use crate::system::SysRecV;
use crate::system::WorkUnit;
use crate::system::WorkloadSystem;
use crate::system::lemma_units_leaves_push;
use crate::system::unit_leaves;
use crate::system::units_leaves;

verus! {

/// The flat views of a flat-system list.
pub open spec fn flats_view(s: Seq<FlatSystem>) -> Seq<FlatV> {
    s.map_values(|f: FlatSystem| f@)
}

/// What flattening one leaf does to the pool, and which flat records it
/// emits.
pub open spec fn flatten_leaf_spec(pool: PoolV, store: StoreV, leaf: LeafV) -> (PoolV, Seq<FlatV>) {
    match leaf {
        LeafV::System(rec) => {
            let (np, i) = pool_insert_spec(pool, rec);
            (
                np,
                seq![
                    FlatV { type_id: rec.type_id, name: rec.name, index: i, borrow: rec.borrow },
                ],
            )
        },
        LeafV::Name(l) => {
            let b = store.batches[store.index[l]];
            (
                pool,
                Seq::new(
                    b.sequential.len() as nat,
                    |k: int|
                        FlatV {
                            type_id: pool.type_ids[b.sequential[k] as int],
                            name: pool.names[b.sequential[k] as int],
                            index: b.sequential[k] as int,
                            borrow: pool.borrows[b.sequential[k] as int],
                        },
                ),
            )
        },
    }
}

/// Flattening a leaf list: fold [`flatten_leaf_spec`] left to right,
/// threading the pool through.
pub open spec fn flatten_leaves_spec(pool: PoolV, store: StoreV, leaves: Seq<LeafV>) -> (
    PoolV,
    Seq<FlatV>,
)
    decreases leaves.len(),
{
    if leaves.len() == 0 {
        (pool, seq![])
    } else {
        let (p1, f1) = flatten_leaf_spec(pool, store, leaves[0]);
        let (p2, f2) = flatten_leaves_spec(p1, store, leaves.skip(1));
        (p2, f1 + f2)
    }
}

/// Every workload-reference leaf names a registered workload.
pub open spec fn leaves_known(leaves: Seq<LeafV>, store: StoreV) -> bool {
    forall|i: int|
        0 <= i < leaves.len() ==> ((#[trigger] leaves[i]) matches LeafV::Name(l)
            ==> store.index.contains_key(l))
}

/// The first workload-reference leaf whose label is not registered.
pub open spec fn first_unknown(leaves: Seq<LeafV>, store: StoreV) -> Option<Seq<char>>
    decreases leaves.len(),
{
    if leaves.len() == 0 {
        None
    } else if leaves[0] matches LeafV::Name(l) && !store.index.contains_key(l) {
        Some(leaves[0]->Name_0)
    } else {
        first_unknown(leaves.skip(1), store)
    }
}

/// No leaf is unknown exactly when the scan finds nothing.
pub proof fn lemma_first_unknown_none(leaves: Seq<LeafV>, store: StoreV)
    ensures
        first_unknown(leaves, store) is None <==> leaves_known(leaves, store),
    decreases leaves.len(),
{
    if leaves.len() > 0 {
        lemma_first_unknown_none(leaves.skip(1), store);
        if first_unknown(leaves, store) is None {
            assert forall|i: int|
                0 <= i < leaves.len() implies ((#[trigger] leaves[i]) matches LeafV::Name(l)
                ==> store.index.contains_key(l)) by {
                if i > 0 {
                    assert(leaves.skip(1)[i - 1] == leaves[i]);
                }
            }
        }
        if leaves_known(leaves, store) {
            assert forall|i: int|
                0 <= i < leaves.skip(1).len() implies ((#[trigger] leaves.skip(1)[i]) matches
            LeafV::Name(l) ==> store.index.contains_key(l)) by {
                assert(leaves.skip(1)[i] == leaves[i + 1]);
            }
        }
    }
}

/// The first unknown label of a split list: the first half's, if it has
/// one, else the second half's.
pub proof fn lemma_first_unknown_concat(a: Seq<LeafV>, b: Seq<LeafV>, store: StoreV)
    ensures
        first_unknown(a + b, store) == if first_unknown(a, store) is Some {
            first_unknown(a, store)
        } else {
            first_unknown(b, store)
        },
    decreases a.len(),
{
    if a.len() == 0 {
        assert(a + b =~= b);
    } else {
        assert((a + b)[0] == a[0]);
        assert((a + b).skip(1) =~= a.skip(1) + b);
        lemma_first_unknown_concat(a.skip(1), b, store);
    }
}

/// Both halves of a known leaf list are known.
pub proof fn lemma_leaves_known_parts(a: Seq<LeafV>, b: Seq<LeafV>, store: StoreV)
    requires
        leaves_known(a + b, store),
    ensures
        leaves_known(a, store),
        leaves_known(b, store),
{
    assert forall|i: int|
        0 <= i < a.len() implies ((#[trigger] a[i]) matches LeafV::Name(l)
        ==> store.index.contains_key(l)) by {
        assert((a + b)[i] == a[i]);
    }
    assert forall|i: int|
        0 <= i < b.len() implies ((#[trigger] b[i]) matches LeafV::Name(l)
        ==> store.index.contains_key(l)) by {
        assert((a + b)[a.len() + i] == b[i]);
    }
}

/// Flattening a split list flattens the two halves in order.
pub proof fn lemma_flatten_concat(pool: PoolV, store: StoreV, a: Seq<LeafV>, b: Seq<LeafV>)
    ensures
        ({
            let (p1, f1) = flatten_leaves_spec(pool, store, a);
            let (p2, f2) = flatten_leaves_spec(p1, store, b);
            flatten_leaves_spec(pool, store, a + b) == (p2, f1 + f2)
        }),
    decreases a.len(),
{
    let (p1, f1) = flatten_leaves_spec(pool, store, a);
    let (p2, f2) = flatten_leaves_spec(p1, store, b);
    if a.len() == 0 {
        assert(a + b =~= b);
        assert(f1 + f2 =~= f2);
    } else {
        assert((a + b)[0] == a[0]);
        assert((a + b).skip(1) =~= a.skip(1) + b);
        let (q1, g1) = flatten_leaf_spec(pool, store, a[0]);
        lemma_flatten_concat(q1, store, a.skip(1), b);
        let (qa, ga) = flatten_leaves_spec(q1, store, a.skip(1));
        let (qb, gb) = flatten_leaves_spec(qa, store, b);
        assert(g1 + (ga + gb) =~= (g1 + ga) + gb);
    }
}

/// Entering one record keeps the pool well-formed; the slot it hands back
/// exists.
pub proof fn lemma_pool_insert_wf(p: PoolV, rec: SysRecV)
    requires
        pool_wf(p),
    ensures
        ({
            let (np, ni) = pool_insert_spec(p, rec);
            &&& pool_wf(np)
            &&& np.type_ids.len() >= p.type_ids.len()
            &&& 0 <= ni < np.type_ids.len()
        }),
{
    let (np, ni) = pool_insert_spec(p, rec);
    if !p.lookup.contains_key(rec.type_id.id) {
        assert forall|i: int|
            0 <= i < np.type_ids.len() implies np.lookup.contains_key(
            (#[trigger] np.type_ids[i]).id,
        ) && np.lookup[np.type_ids[i].id] as int == i by {
            if i < p.type_ids.len() {
                assert(p.lookup.contains_key(p.type_ids[i].id));
                assert(np.type_ids[i] == p.type_ids[i]);
                assert(p.type_ids[i].id != rec.type_id.id);
            }
        }
        assert forall|k: u64| np.lookup.contains_key(k) implies 0 <= (#[trigger] np.lookup[k])
            < np.type_ids.len() && np.type_ids[np.lookup[k] as int].id == k by {
            if k == rec.type_id.id {
                assert(np.type_ids[p.type_ids.len() as int] == rec.type_id);
            } else {
                assert(p.lookup.contains_key(k));
            }
        }
    }
}

/// One leaf's worth of pool facts: the pool stays well-formed, only grows,
/// and the emitted indices exist.
pub proof fn lemma_flatten_leaf_pool_facts(pool: PoolV, store: StoreV, leaf: LeafV)
    requires
        pool_wf(pool),
        store_wf(store),
        store_indices_bound(store, pool.type_ids.len() as int),
        leaf matches LeafV::Name(l) ==> store.index.contains_key(l),
    ensures
        ({
            let (np, nf) = flatten_leaf_spec(pool, store, leaf);
            &&& pool_wf(np)
            &&& np.type_ids.len() >= pool.type_ids.len()
            &&& forall|i: int|
                0 <= i < nf.len() ==> 0 <= (#[trigger] nf[i]).index < np.type_ids.len()
        }),
{
    match leaf {
        LeafV::System(rec) => {
            lemma_pool_insert_wf(pool, rec);
        },
        LeafV::Name(l) => {
            assert(0 <= store.index[l] < store.batches.len());
        },
    }
}

/// Flattening keeps the pool well-formed, only appends to it, and emits
/// only indices that exist in the pool it leaves behind.
pub proof fn lemma_flatten_pool_facts(pool: PoolV, store: StoreV, leaves: Seq<LeafV>)
    requires
        pool_wf(pool),
        store_wf(store),
        store_indices_bound(store, pool.type_ids.len() as int),
        leaves_known(leaves, store),
    ensures
        ({
            let (np, nf) = flatten_leaves_spec(pool, store, leaves);
            &&& pool_wf(np)
            &&& np.type_ids.len() >= pool.type_ids.len()
            &&& forall|i: int|
                0 <= i < nf.len() ==> 0 <= (#[trigger] nf[i]).index < np.type_ids.len()
        }),
    decreases leaves.len(),
{
    if leaves.len() > 0 {
        let (p1, f1) = flatten_leaf_spec(pool, store, leaves[0]);
        lemma_flatten_leaf_pool_facts(pool, store, leaves[0]);
        assert forall|i: int|
            0 <= i < leaves.skip(1).len() implies ((#[trigger] leaves.skip(1)[i]) matches
        LeafV::Name(l) ==> store.index.contains_key(l)) by {
            assert(leaves.skip(1)[i] == leaves[i + 1]);
        }
        lemma_flatten_pool_facts(p1, store, leaves.skip(1));
        let (p2, f2) = flatten_leaves_spec(p1, store, leaves.skip(1));
        assert forall|i: int|
            0 <= i < (f1 + f2).len() implies 0 <= (#[trigger] (f1 + f2)[i]).index
            < p2.type_ids.len() by {
            if i < f1.len() {
                assert((f1 + f2)[i] == f1[i]);
            } else {
                assert((f1 + f2)[i] == f2[i - f1.len()]);
            }
        }
    }
}

/// Copies a descriptor list.
pub fn copy_infos(v: &Vec<TypeInfo>) -> (r: Vec<TypeInfo>)
    ensures
        r@ == v@,
{
    let mut r: Vec<TypeInfo> = Vec::new();
    let mut i: usize = 0;
    while i < v.len()
        invariant
            0 <= i <= v.len(),
            r@ =~= v@.take(i as int),
        decreases v.len() - i,
    {
        r.push(v[i]);
        i += 1;
    }
    proof {
        assert(v@.take(v@.len() as int) =~= v@);
    }
    r
}

/// Flattens one work unit: a system is entered into the pool and emitted; a
/// workload reference is expanded from its registered sequential order; an
/// inline workload is recursed into.
pub fn flatten_work_unit(
    unit: WorkUnit,
    pool: &mut SystemPool,
    collected: &mut Vec<FlatSystem>,
    store: &WorkloadStore,
)
    requires
        pool_wf(old(pool)@),
        store_wf(store@),
        store_indices_bound(store@, old(pool)@.type_ids.len() as int),
        leaves_known(unit_leaves(unit), store@),
    ensures
        pool_wf(final(pool)@),
        final(pool)@.type_ids.len() >= old(pool)@.type_ids.len(),
        ({
            let (np, nf) = flatten_leaves_spec(old(pool)@, store@, unit_leaves(unit));
            final(pool)@ == np && flats_view(final(collected)@) == flats_view(old(collected)@)
                + nf
        }),
    decreases unit,
{
    let ghost unit0 = unit;
    let ghost pool0 = pool@;
    let ghost col0 = flats_view(collected@);
    match unit {
        WorkUnit::System(WorkloadSystem::System {
            system_type_id,
            system_type_name,
            borrow_constraints,
        }) => {
            let ghost rec = SysRecV {
                type_id: system_type_id,
                name: system_type_name@,
                borrow: infos_view(borrow_constraints@),
            };
            let borrow_for_flat = copy_infos(&borrow_constraints);
            let index = pool.insert(system_type_id, system_type_name, borrow_constraints);
            collected.push(
                FlatSystem {
                    type_id: system_type_id,
                    name: system_type_name,
                    index,
                    borrow: borrow_for_flat,
                },
            );
            proof {
                assert(unit_leaves(unit0) =~= seq![LeafV::System(rec)]);
                assert(unit_leaves(unit0)[0] == LeafV::System(rec));
                assert(unit_leaves(unit0).skip(1) =~= Seq::<LeafV>::empty());
                let (lp, lf) = flatten_leaf_spec(pool0, store@, LeafV::System(rec));
                let (np, nf) = flatten_leaves_spec(pool0, store@, unit_leaves(unit0));
                assert(flatten_leaves_spec(lp, store@, Seq::<LeafV>::empty()) == (
                    lp,
                    Seq::<FlatV>::empty(),
                ));
                assert(np == lp);
                assert(nf =~= lf);
                let fs = collected@.last();
                assert(collected@ =~= old(collected)@.push(collected@.last()));
                assert(fs@ == lf[0]);
                assert(flats_view(collected@) =~= col0 + nf);
            }
        },
        WorkUnit::System(WorkloadSystem::Workload(w)) => {
            let mut units = w.work_units;
            let ghost allv = units@;
            let ghost mut processed: int = 0;
            proof {
                assert(unit_leaves(unit0) == units_leaves(allv));
                assert(allv.take(0) =~= Seq::<WorkUnit>::empty());
                assert(units_leaves(allv.take(0)) =~= Seq::<LeafV>::empty());
            }
            #[verifier::loop_isolation(false)]
            while units.len() > 0
                invariant
                    0 <= processed <= allv.len(),
                    units@ == allv.skip(processed),
                    pool_wf(pool@),
                    pool@.type_ids.len() >= pool0.type_ids.len(),
                    ({
                        let (np, nf) = flatten_leaves_spec(
                            pool0,
                            store@,
                            units_leaves(allv.take(processed)),
                        );
                        pool@ == np && flats_view(collected@) == col0 + nf
                    }),
                decreases units@.len(),
            {
                let ghost pool_before = pool@;
                let u = units.remove(0);
                proof {
                    assert(u == allv[processed]);
                    assert(decreases_to!(unit0 => allv[processed]));
                    assert(allv.take(processed + 1) =~= allv.take(processed).push(
                        allv[processed],
                    ));
                    lemma_units_leaves_push(allv.take(processed), allv[processed]);
                    lemma_flatten_concat(
                        pool0,
                        store@,
                        units_leaves(allv.take(processed)),
                        unit_leaves(allv[processed]),
                    );
                    assert(units_leaves(allv) == units_leaves(
                        allv.take(processed) + allv.skip(processed),
                    )) by {
                        assert(allv.take(processed) + allv.skip(processed) =~= allv);
                    }
                    crate::system::lemma_units_leaves_concat(
                        allv.take(processed),
                        allv.skip(processed),
                    );
                    lemma_leaves_known_parts(
                        units_leaves(allv.take(processed)),
                        units_leaves(allv.skip(processed)),
                        store@,
                    );
                    assert(allv.skip(processed) =~= seq![allv[processed]] + allv.skip(
                        processed + 1,
                    ));
                    crate::system::lemma_units_leaves_concat(
                        seq![allv[processed]],
                        allv.skip(processed + 1),
                    );
                    assert(seq![allv[processed]][0] == allv[processed]);
                    assert(seq![allv[processed]].skip(1) =~= Seq::<WorkUnit>::empty());
                    assert(units_leaves(seq![allv[processed]]) =~= unit_leaves(allv[processed]));
                    lemma_leaves_known_parts(
                        unit_leaves(allv[processed]),
                        units_leaves(allv.skip(processed + 1)),
                        store@,
                    );
                    assert(store_indices_bound(store@, pool@.type_ids.len() as int));
                }
                flatten_work_unit(u, pool, collected, store);
                proof {
                    processed = processed + 1;
                    assert(units@ =~= allv.skip(processed));
                }
            }
            proof {
                assert(processed == allv.len());
                assert(allv.take(processed) =~= allv);
            }
        },
        WorkUnit::WorkloadName(label) => {
            proof {
                assert(unit_leaves(unit0) =~= seq![LeafV::Name(label@)]);
                assert(unit_leaves(unit0)[0] == LeafV::Name(label@));
                assert(store@.index.contains_key(label@));
            }
            let ghost leaf = LeafV::Name(label@);
            let bopt = store.get(&label);
            proof {
                assert(bopt is Some);
            }
            let b = bopt.unwrap();
            let ghost bv = b@;
            proof {
                assert(bv == store@.batches[store@.index[label@]]);
                assert(flatten_leaf_spec(pool0, store@, leaf).1.len() == bv.sequential.len());
            }
            let mut k: usize = 0;
            #[verifier::loop_isolation(false)]
            while k < b.sequential.len()
                invariant
                    0 <= k <= b.sequential.len(),
                    pool@ == pool0,
                    flats_view(collected@) == col0 + flatten_leaf_spec(pool0, store@, leaf).1.take(
                        k as int,
                    ),
                decreases b.sequential.len() - k,
            {
                let idx = b.sequential[k];
                proof {
                    assert(bv.sequential[k as int] == idx);
                    assert(idx < pool0.type_ids.len());
                    assert(pool@.names.len() == pool0.type_ids.len());
                    assert(pool@.borrows.len() == pool0.type_ids.len());
                }
                let name = pool.system_names[idx];
                let type_id = pool.system_type_ids[idx];
                let borrow = copy_infos(&pool.system_generators[idx]);
                let fs = FlatSystem { type_id, name, index: idx, borrow };
                let ghost fsv = fs@;
                let ghost colprev = collected@;
                collected.push(fs);
                proof {
                    let nf = flatten_leaf_spec(pool0, store@, leaf).1;
                    assert(nf[k as int] == FlatV {
                        type_id: pool0.type_ids[idx as int],
                        name: pool0.names[idx as int],
                        index: idx as int,
                        borrow: pool0.borrows[idx as int],
                    });
                    assert(pool0.names[idx as int] == name@);
                    assert(pool0.borrows[idx as int] == fsv.borrow);
                    assert(fsv == nf[k as int]);
                    assert(collected@ == colprev.push(fs));
                    assert(flats_view(collected@) =~= flats_view(colprev).push(fsv));
                    assert(nf.take(k as int + 1) =~= nf.take(k as int).push(nf[k as int]));
                    assert(flats_view(collected@) =~= col0 + nf.take(k as int + 1));
                }
                k += 1;
            }
            proof {
                let nf = flatten_leaf_spec(pool0, store@, leaf).1;
                assert(nf.take(nf.len() as int) =~= nf);
                assert(unit_leaves(unit0).skip(1) =~= Seq::<LeafV>::empty());
                assert(flatten_leaves_spec(pool0, store@, Seq::<LeafV>::empty()) == (
                    pool0,
                    Seq::<FlatV>::empty(),
                ));
                let (np2, nf2) = flatten_leaves_spec(pool0, store@, unit_leaves(unit0));
                assert(np2 == pool0);
                assert(nf2 =~= nf);
            }
        },
    }
}

} // verus!
