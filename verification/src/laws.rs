//! What the planner guarantees, proved of the plan itself.
//!
//! Each public proof function here states one law of the batch layout that
//! [`crate::plan::plan_batches`] produces, for every flattened workload:
//! batches are conflict-free, at most one system per batch may pin the main
//! worker, the main slot is used exactly for systems that need it, and the
//! batches hold exactly the systems that went in.

use vstd::prelude::*;
use vstd::multiset::Multiset;

use crate::info::TypeInfoV;
use crate::plan::BatchV;
use crate::plan::FlatV;
use crate::plan::PlacedV;
use crate::plan::aggregate_diag;
use crate::plan::batch_clear_nonsend;
use crate::plan::batch_clear_plain;
use crate::plan::batch_is_open;
use crate::plan::descriptors_conflict;
use crate::plan::first_conflict_members;
use crate::plan::insert_system_spec;
use crate::plan::is_plain;
use crate::plan::is_special;
use crate::plan::lemma_empty_no_conflict;
use crate::plan::lemma_last_nonempty_none;
use crate::plan::lemma_not_plain;
use crate::plan::lemma_scan_slot_bounds;
use crate::plan::lemma_scan_slot_suffix;
use crate::plan::lemma_special_index_facts;
use crate::plan::lemma_systems_conflict_sym;
use crate::plan::nonsend_diag;
use crate::plan::place_main;
use crate::plan::place_other;
use crate::plan::placed;
use crate::plan::plan_batches;
use crate::plan::scan_slot;
use crate::plan::special_index;
use crate::plan::systems_conflict;

verus! {

/// Whether some descriptor of the list is special: an aggregate borrow or a
/// non-thread-safe one.
pub open spec fn has_special(bs: Seq<TypeInfoV>) -> bool {
    exists|i: int| 0 <= i < bs.len() && is_special(#[trigger] bs[i])
}

/// A list is plain exactly when it has no special descriptor.
pub proof fn lemma_plain_iff_no_special(bs: Seq<TypeInfoV>)
    ensures
        is_plain(bs) <==> !has_special(bs),
{
    lemma_special_index_facts(bs);
    if special_index(bs) < bs.len() {
        assert(is_special(bs[special_index(bs)]));
    }
    if has_special(bs) {
        let i = choose|i: int| 0 <= i < bs.len() && is_special(#[trigger] bs[i]);
        lemma_not_plain(bs, i);
    }
}

/// Well-formedness of one batch: the main-slot system, if any, holds a
/// special borrow; every parallel-slot system is plain; and no two members
/// conflict.
pub open spec fn batch_wf(b: BatchV) -> bool {
    &&& (b.main matches Some(m) ==> special_index(m.borrow) < m.borrow.len())
    &&& (forall|k: int| 0 <= k < b.others.len() ==> is_plain((#[trigger] b.others[k]).borrow))
    &&& (forall|i: int, j: int|
        0 <= i < b.members().len() && 0 <= j < b.members().len() && i != j
            ==> !systems_conflict(
            (#[trigger] b.members()[i]).borrow,
            (#[trigger] b.members()[j]).borrow,
        ))
}

/// Well-formedness of a whole batch sequence.
pub open spec fn batches_wf(bs: Seq<BatchV>) -> bool {
    forall|b: int| 0 <= b < bs.len() ==> batch_wf(#[trigger] bs[b])
}

/// Folding one more system into a well-formed batch sequence keeps it
/// well-formed: the scan stops early enough that the chosen batch accepts
/// the incoming system without conflict.
pub proof fn lemma_insert_preserves_wf(bs: Seq<BatchV>, e: FlatV)
    requires
        batches_wf(bs),
    ensures
        batches_wf(insert_system_spec(bs, e)),
{
    let si = special_index(e.borrow);
    lemma_special_index_facts(e.borrow);
    if si < e.borrow.len() && e.borrow[si].storage_id is AllStorages {
        let clear = |b: BatchV| batch_is_open(b);
        let slot = scan_slot(bs, clear);
        lemma_scan_slot_bounds(bs, clear);
        lemma_scan_slot_suffix(bs, clear);
        let p = placed(e, if slot > 0 { aggregate_diag(e.borrow[si], bs[slot - 1]) } else { None });
        let new = place_main(bs, slot, p);
        if slot < bs.len() {
            assert(batch_is_open(bs[slot]));
            lemma_last_nonempty_none(bs[slot].others);
            let nb = new[slot];
            assert(nb.members() =~= seq![p] + bs[slot].others);
            assert forall|i: int, j: int|
                0 <= i < nb.members().len() && 0 <= j < nb.members().len() && i != j implies !systems_conflict(
                (#[trigger] nb.members()[i]).borrow,
                (#[trigger] nb.members()[j]).borrow,
            ) by {
                let old_members = bs[slot].members();
                assert(old_members =~= bs[slot].others);
                if i == 0 {
                    lemma_empty_no_conflict(p.borrow, nb.members()[j].borrow);
                } else if j == 0 {
                    lemma_empty_no_conflict(nb.members()[i].borrow, p.borrow);
                } else {
                    assert(nb.members()[i] == old_members[i - 1]);
                    assert(nb.members()[j] == old_members[j - 1]);
                }
            }
            assert(batch_wf(nb));
        } else {
            let nb = new[new.len() - 1];
            assert(nb.members() =~= seq![p]);
            assert(batch_wf(nb));
        }
    } else if si < e.borrow.len() {
        let clear = |b: BatchV| batch_clear_nonsend(b, e.borrow);
        let slot = scan_slot(bs, clear);
        lemma_scan_slot_bounds(bs, clear);
        lemma_scan_slot_suffix(bs, clear);
        let p = placed(
            e,
            if slot > 0 { nonsend_diag(e.borrow[si], bs[slot - 1], e.borrow) } else { None },
        );
        let new = place_main(bs, slot, p);
        if slot < bs.len() {
            assert(batch_clear_nonsend(bs[slot], e.borrow));
            let nb = new[slot];
            assert(nb.members() =~= seq![p] + bs[slot].others);
            assert forall|i: int, j: int|
                0 <= i < nb.members().len() && 0 <= j < nb.members().len() && i != j implies !systems_conflict(
                (#[trigger] nb.members()[i]).borrow,
                (#[trigger] nb.members()[j]).borrow,
            ) by {
                let old_members = bs[slot].members();
                assert(old_members =~= bs[slot].others);
                if i == 0 {
                    assert(!systems_conflict(e.borrow, bs[slot].others[j - 1].borrow));
                } else if j == 0 {
                    assert(!systems_conflict(e.borrow, bs[slot].others[i - 1].borrow));
                    lemma_systems_conflict_sym(e.borrow, bs[slot].others[i - 1].borrow);
                } else {
                    assert(nb.members()[i] == old_members[i - 1]);
                    assert(nb.members()[j] == old_members[j - 1]);
                }
            }
            assert(batch_wf(nb));
        } else {
            let nb = new[new.len() - 1];
            assert(nb.members() =~= seq![p]);
            assert(batch_wf(nb));
        }
    } else {
        let clear = |b: BatchV| batch_clear_plain(b, e.borrow);
        let slot = scan_slot(bs, clear);
        lemma_scan_slot_bounds(bs, clear);
        lemma_scan_slot_suffix(bs, clear);
        let p = placed(
            e,
            if slot > 0 {
                first_conflict_members(e.borrow, bs[slot - 1].members())
            } else {
                None
            },
        );
        let new = place_other(bs, slot, p);
        if slot < bs.len() {
            assert(batch_clear_plain(bs[slot], e.borrow));
            let nb = new[slot];
            let old_members = bs[slot].members();
            assert(nb.members() =~= old_members.push(p));
            assert forall|i: int, j: int|
                0 <= i < nb.members().len() && 0 <= j < nb.members().len() && i != j implies !systems_conflict(
                (#[trigger] nb.members()[i]).borrow,
                (#[trigger] nb.members()[j]).borrow,
            ) by {
                let n = old_members.len() as int;
                if i < n && j < n {
                    assert(nb.members()[i] == old_members[i]);
                    assert(nb.members()[j] == old_members[j]);
                } else if i == n {
                    assert(!systems_conflict(e.borrow, old_members[j].borrow));
                    lemma_systems_conflict_sym(e.borrow, old_members[j].borrow);
                    assert(nb.members()[i] == p);
                } else {
                    assert(j == n);
                    assert(!systems_conflict(e.borrow, old_members[i].borrow));
                    lemma_systems_conflict_sym(e.borrow, old_members[i].borrow);
                }
            }
            assert(batch_wf(nb));
        } else {
            let nb = new[new.len() - 1];
            assert(nb.members() =~= seq![p]);
            assert(batch_wf(nb));
        }
    }
}

/// The whole plan is well-formed.
pub proof fn lemma_plan_wf(flat: Seq<FlatV>)
    ensures
        batches_wf(plan_batches(flat)),
    decreases flat.len(),
{
    if flat.len() > 0 {
        lemma_plan_wf(flat.drop_last());
        lemma_insert_preserves_wf(plan_batches(flat.drop_last()), flat.last());
    }
}

/// Law: for every batch of the plan, no two of its systems conflict, so
/// every pair drawn from the main slot and the parallel list is safe to run
/// at the same time.
pub proof fn lemma_batch_systems_compatible(flat: Seq<FlatV>, b: int, i: int, j: int)
    requires
        0 <= b < plan_batches(flat).len(),
        0 <= i < plan_batches(flat)[b].members().len(),
        0 <= j < plan_batches(flat)[b].members().len(),
        i != j,
    ensures
        !systems_conflict(
            plan_batches(flat)[b].members()[i].borrow,
            plan_batches(flat)[b].members()[j].borrow,
        ),
{
    lemma_plan_wf(flat);
}

/// Whether a system holds any non-thread-safe borrow.
pub open spec fn holds_non_thread_safe(bs: Seq<TypeInfoV>) -> bool {
    exists|d: int| 0 <= d < bs.len() && !(#[trigger] bs[d]).thread_safe
}

/// Law: no batch holds non-thread-safe borrows in two different systems;
/// at most one system per batch may be pinned to the main worker.
pub proof fn lemma_one_pinned_system_per_batch(flat: Seq<FlatV>, b: int, i: int, j: int)
    requires
        0 <= b < plan_batches(flat).len(),
        0 <= i < plan_batches(flat)[b].members().len(),
        0 <= j < plan_batches(flat)[b].members().len(),
        i != j,
    ensures
        !(holds_non_thread_safe(plan_batches(flat)[b].members()[i].borrow)
            && holds_non_thread_safe(plan_batches(flat)[b].members()[j].borrow)),
{
    lemma_plan_wf(flat);
    let mi = plan_batches(flat)[b].members()[i];
    let mj = plan_batches(flat)[b].members()[j];
    if holds_non_thread_safe(mi.borrow) && holds_non_thread_safe(mj.borrow) {
        let di = choose|d: int| 0 <= d < mi.borrow.len() && !(#[trigger] mi.borrow[d]).thread_safe;
        let dj = choose|d: int| 0 <= d < mj.borrow.len() && !(#[trigger] mj.borrow[d]).thread_safe;
        assert(descriptors_conflict(mi.borrow[di], mj.borrow[dj]));
        assert(systems_conflict(mi.borrow, mj.borrow));
    }
}

/// Law: a batch's main slot holds a system exactly when that system needs
/// it, that is, it borrows the aggregate storage or holds a non-thread-safe
/// borrow; every parallel-slot system needs no such pinning.
pub proof fn lemma_main_slot_exactly_special(flat: Seq<FlatV>, b: int)
    requires
        0 <= b < plan_batches(flat).len(),
    ensures
        plan_batches(flat)[b].main matches Some(m) ==> has_special(m.borrow),
        forall|k: int|
            0 <= k < plan_batches(flat)[b].others.len() ==> !has_special(
                (#[trigger] plan_batches(flat)[b].others[k]).borrow,
            ),
{
    lemma_plan_wf(flat);
    let batch = plan_batches(flat)[b];
    if batch.main is Some {
        let m = batch.main->Some_0;
        lemma_special_index_facts(m.borrow);
        assert(is_special(m.borrow[special_index(m.borrow)]));
    }
    assert forall|k: int| 0 <= k < batch.others.len() implies !has_special(
        (#[trigger] batch.others[k]).borrow,
    ) by {
        lemma_plain_iff_no_special(batch.others[k].borrow);
    }
}

/// The pool slots named by a list of parallel systems, with repetition.
pub open spec fn others_indices(ms: Seq<PlacedV>) -> Multiset<int>
    decreases ms.len(),
{
    if ms.len() == 0 {
        Multiset::empty()
    } else {
        others_indices(ms.drop_last()).insert(ms.last().index)
    }
}

/// The pool slots named by one batch, main slot included.
pub open spec fn batch_indices(b: BatchV) -> Multiset<int> {
    match b.main {
        Some(m) => others_indices(b.others).insert(m.index),
        None => others_indices(b.others),
    }
}

/// The pool slots named by a whole plan.
pub open spec fn plan_indices(bs: Seq<BatchV>) -> Multiset<int>
    decreases bs.len(),
{
    if bs.len() == 0 {
        Multiset::empty()
    } else {
        plan_indices(bs.drop_last()).add(batch_indices(bs.last()))
    }
}

/// The pool slots named by the flattened input, in other words by the
/// sequential order.
pub open spec fn flat_indices(flat: Seq<FlatV>) -> Multiset<int>
    decreases flat.len(),
{
    if flat.len() == 0 {
        Multiset::empty()
    } else {
        flat_indices(flat.drop_last()).insert(flat.last().index)
    }
}

/// Appending a batch adds exactly that batch's slots.
proof fn lemma_plan_indices_push(bs: Seq<BatchV>, b: BatchV)
    ensures
        plan_indices(bs.push(b)) == plan_indices(bs).add(batch_indices(b)),
{
    assert(bs.push(b).drop_last() =~= bs);
    assert(bs.push(b).last() == b);
}

/// Replacing one batch replaces exactly its slots.
proof fn lemma_plan_indices_update(bs: Seq<BatchV>, k: int, b: BatchV, x: int)
    requires
        0 <= k < bs.len(),
        batch_indices(b) == batch_indices(bs[k]).insert(x),
    ensures
        plan_indices(bs.update(k, b)) == plan_indices(bs).insert(x),
    decreases bs.len(),
{
    let upd = bs.update(k, b);
    if k == bs.len() - 1 {
        assert(upd.drop_last() =~= bs.drop_last());
        assert(upd.last() == b);
        assert(plan_indices(upd) == plan_indices(bs.drop_last()).add(
            batch_indices(bs[k]).insert(x),
        ));
        assert(plan_indices(bs.drop_last()).add(batch_indices(bs[k]).insert(x))
            =~= plan_indices(bs.drop_last()).add(batch_indices(bs[k])).insert(x));
    } else {
        assert(upd.drop_last() =~= bs.drop_last().update(k, b));
        assert(upd.last() == bs.last());
        lemma_plan_indices_update(bs.drop_last(), k, b, x);
        assert(plan_indices(upd) == plan_indices(bs.drop_last()).insert(x).add(
            batch_indices(bs.last()),
        ));
        assert(plan_indices(bs.drop_last()).insert(x).add(batch_indices(bs.last()))
            =~= plan_indices(bs.drop_last()).add(batch_indices(bs.last())).insert(x));
    }
}

/// Pushing a parallel system adds exactly its slot.
proof fn lemma_others_indices_push(ms: Seq<PlacedV>, p: PlacedV)
    ensures
        others_indices(ms.push(p)) == others_indices(ms).insert(p.index),
{
    assert(ms.push(p).drop_last() =~= ms);
    assert(ms.push(p).last() == p);
}

/// Folding one system into the plan adds exactly its slot.
proof fn lemma_insert_adds_one(bs: Seq<BatchV>, e: FlatV)
    ensures
        plan_indices(insert_system_spec(bs, e)) == plan_indices(bs).insert(e.index),
{
    let si = special_index(e.borrow);
    let new = insert_system_spec(bs, e);
    if si < e.borrow.len() && e.borrow[si].storage_id is AllStorages {
        let clear = |b: BatchV| batch_is_open(b);
        let slot = scan_slot(bs, clear);
        lemma_scan_slot_bounds(bs, clear);
        lemma_scan_slot_suffix(bs, clear);
        let p = placed(e, if slot > 0 { aggregate_diag(e.borrow[si], bs[slot - 1]) } else { None });
        if slot < bs.len() {
            assert(batch_is_open(bs[slot]));
            let nb = BatchV { main: Some(p), others: bs[slot].others };
            assert(batch_indices(nb) == batch_indices(bs[slot]).insert(p.index));
            lemma_plan_indices_update(bs, slot, nb, e.index);
        } else {
            let nb = BatchV { main: Some(p), others: seq![] };
            lemma_plan_indices_push(bs, nb);
            assert(batch_indices(nb) =~= Multiset::empty().insert(p.index));
            assert(plan_indices(bs).add(Multiset::empty().insert(p.index))
                =~= plan_indices(bs).insert(e.index));
        }
    } else if si < e.borrow.len() {
        let clear = |b: BatchV| batch_clear_nonsend(b, e.borrow);
        let slot = scan_slot(bs, clear);
        lemma_scan_slot_bounds(bs, clear);
        lemma_scan_slot_suffix(bs, clear);
        let p = placed(
            e,
            if slot > 0 { nonsend_diag(e.borrow[si], bs[slot - 1], e.borrow) } else { None },
        );
        if slot < bs.len() {
            assert(batch_clear_nonsend(bs[slot], e.borrow));
            let nb = BatchV { main: Some(p), others: bs[slot].others };
            assert(batch_indices(nb) == batch_indices(bs[slot]).insert(p.index));
            lemma_plan_indices_update(bs, slot, nb, e.index);
        } else {
            let nb = BatchV { main: Some(p), others: seq![] };
            lemma_plan_indices_push(bs, nb);
            assert(batch_indices(nb) =~= Multiset::empty().insert(p.index));
            assert(plan_indices(bs).add(Multiset::empty().insert(p.index))
                =~= plan_indices(bs).insert(e.index));
        }
    } else {
        let clear = |b: BatchV| batch_clear_plain(b, e.borrow);
        let slot = scan_slot(bs, clear);
        lemma_scan_slot_bounds(bs, clear);
        let p = placed(
            e,
            if slot > 0 {
                first_conflict_members(e.borrow, bs[slot - 1].members())
            } else {
                None
            },
        );
        if slot < bs.len() {
            let nb = BatchV { main: bs[slot].main, others: bs[slot].others.push(p) };
            lemma_others_indices_push(bs[slot].others, p);
            if bs[slot].main is Some {
                let m = bs[slot].main->Some_0;
                assert(batch_indices(nb) == others_indices(bs[slot].others).insert(
                    p.index,
                ).insert(m.index));
                assert(others_indices(bs[slot].others).insert(p.index).insert(m.index)
                    =~= others_indices(bs[slot].others).insert(m.index).insert(p.index));
            }
            assert(batch_indices(nb) == batch_indices(bs[slot]).insert(p.index));
            lemma_plan_indices_update(bs, slot, nb, e.index);
        } else {
            let nb = BatchV { main: None, others: seq![p] };
            lemma_plan_indices_push(bs, nb);
            assert(seq![p].drop_last() =~= Seq::<PlacedV>::empty());
            assert(seq![p].last() == p);
            assert(others_indices(seq![p]) == others_indices(
                Seq::<PlacedV>::empty(),
            ).insert(p.index));
            assert(batch_indices(nb) =~= Multiset::empty().insert(p.index));
            assert(plan_indices(bs).add(Multiset::empty().insert(p.index))
                =~= plan_indices(bs).insert(e.index));
        }
    }
}

/// Law: the plan's batches hold, with repetition, exactly the systems of
/// the flattened input; nothing is lost, duplicated or invented by the
/// packing.
pub proof fn lemma_plan_is_permutation(flat: Seq<FlatV>)
    ensures
        plan_indices(plan_batches(flat)) == flat_indices(flat),
    decreases flat.len(),
{
    if flat.len() > 0 {
        lemma_plan_is_permutation(flat.drop_last());
        lemma_insert_adds_one(plan_batches(flat.drop_last()), flat.last());
    }
}

} // verus!
