//! The batch planner's mathematical model.
//!
//! A flat list of systems (each with its pool slot and its borrow
//! descriptors) is folded, in declared order, into a sequence of batches.
//! Each incoming system scans the existing batches from last to first and
//! settles in the earliest batch it can still reach without a conflict;
//! this is the "bubble-up" placement.  The functions here define that fold;
//! `packing.rs` implements it and proves the implementation equal to it.

use vstd::prelude::*;

use crate::ids::Mutability;
use crate::ids::StorageId;
use crate::ids::TypeId;
use crate::info::ConflictV;
use crate::info::SystemIdV;
use crate::info::TypeInfoV;

verus! {

/// One system of the flattened workload, at the spec level: its identity,
/// its pool slot and its borrow descriptors.
#[verifier::ext_equal]
pub struct FlatV {
    pub type_id: TypeId,
    pub name: Seq<char>,
    pub index: int,
    pub borrow: Seq<TypeInfoV>,
}

/// One placed system: a flat entry together with the conflict diagnostic
/// recorded when it was placed.
#[verifier::ext_equal]
pub struct PlacedV {
    pub index: int,
    pub name: Seq<char>,
    pub type_id: TypeId,
    pub borrow: Seq<TypeInfoV>,
    pub conflict: Option<ConflictV>,
}

/// One batch: the optional main-worker slot and the systems free to run on
/// any worker.
#[verifier::ext_equal]
pub struct BatchV {
    pub main: Option<PlacedV>,
    pub others: Seq<PlacedV>,
}

impl PlacedV {
    /// The diagnostic identity of a placed system.
    pub open spec fn sys_id(self) -> SystemIdV {
        SystemIdV { name: self.name, type_id: self.type_id }
    }
}

impl BatchV {
    /// Every system of the batch, main slot first.
    pub open spec fn members(self) -> Seq<PlacedV> {
        match self.main {
            Some(m) => seq![m] + self.others,
            None => self.others,
        }
    }
}

/// Whether a single descriptor pins or marks a system: it borrows the
/// aggregate storage, or it is not thread-safe.
pub open spec fn is_special(t: TypeInfoV) -> bool {
    t.storage_id is AllStorages || !t.thread_safe
}

/// Position of the first special descriptor, or the list's length if every
/// descriptor is ordinary.  The first special descriptor decides how the
/// system is placed: an aggregate borrow takes precedence over a
/// non-thread-safe one only if it comes first in the declared list.
pub open spec fn special_index(bs: Seq<TypeInfoV>) -> int
    decreases bs.len(),
{
    if bs.len() == 0 {
        0
    } else if is_special(bs[0]) {
        0
    } else {
        1 + special_index(bs.skip(1))
    }
}

/// A system is plain when none of its descriptors is special.
pub open spec fn is_plain(bs: Seq<TypeInfoV>) -> bool {
    special_index(bs) == bs.len()
}

/// Whether two descriptors may not be held at the same time:
/// two non-thread-safe borrows always conflict; an aggregate borrow
/// conflicts with everything; otherwise only borrows of the same storage
/// conflict, and only if one of them is exclusive.
pub open spec fn descriptors_conflict(a: TypeInfoV, b: TypeInfoV) -> bool {
    ||| (!a.thread_safe && !b.thread_safe)
    ||| a.storage_id is AllStorages
    ||| b.storage_id is AllStorages
    ||| (a.storage_id == b.storage_id && (a.mutability is Exclusive || b.mutability is Exclusive))
}

/// Two systems conflict when any pair of their descriptors conflicts.
pub open spec fn systems_conflict(a: Seq<TypeInfoV>, b: Seq<TypeInfoV>) -> bool {
    exists|i: int, j: int|
        0 <= i < a.len() && 0 <= j < b.len() && descriptors_conflict(a[i], b[j])
}

/// The diagnostic recorded for one conflicting descriptor pair: `t` from
/// the incoming system, `o` from the already-placed system `other`.
pub open spec fn pair_conflict(t: TypeInfoV, o: TypeInfoV, other: SystemIdV) -> Option<
    ConflictV,
> {
    if !t.thread_safe && !o.thread_safe {
        Some(ConflictV::OtherNotSendSync { system: other, type_info: o })
    } else if t.storage_id is AllStorages || o.storage_id is AllStorages || (t.storage_id
        == o.storage_id && (t.mutability is Exclusive || o.mutability is Exclusive)) {
        Some(
            ConflictV::Borrow {
                type_info: Some(t),
                other_system: other,
                other_type_info: o,
            },
        )
    } else {
        None
    }
}

/// First conflict between the incoming system's descriptors and one fixed
/// descriptor of a placed system.
pub open spec fn first_conflict_descs(
    sys: Seq<TypeInfoV>,
    o: TypeInfoV,
    other: SystemIdV,
) -> Option<ConflictV>
    decreases sys.len(),
{
    if sys.len() == 0 {
        None
    } else if pair_conflict(sys[0], o, other) is Some {
        pair_conflict(sys[0], o, other)
    } else {
        first_conflict_descs(sys.skip(1), o, other)
    }
}

/// First conflict between the incoming system and one placed system,
/// scanning the placed system's descriptors in order.
pub open spec fn first_conflict_member(sys: Seq<TypeInfoV>, m: PlacedV) -> Option<ConflictV>
    decreases m.borrow.len(),
{
    first_conflict_member_from(sys, m.borrow, m.sys_id())
}

/// Helper of [`first_conflict_member`], recursing over the placed system's
/// descriptor list.
pub open spec fn first_conflict_member_from(
    sys: Seq<TypeInfoV>,
    os: Seq<TypeInfoV>,
    other: SystemIdV,
) -> Option<ConflictV>
    decreases os.len(),
{
    if os.len() == 0 {
        None
    } else if first_conflict_descs(sys, os[0], other) is Some {
        first_conflict_descs(sys, os[0], other)
    } else {
        first_conflict_member_from(sys, os.skip(1), other)
    }
}

/// First conflict between the incoming system and a list of placed systems,
/// scanning the placed systems in order.
pub open spec fn first_conflict_members(sys: Seq<TypeInfoV>, ms: Seq<PlacedV>) -> Option<
    ConflictV,
>
    decreases ms.len(),
{
    if ms.len() == 0 {
        None
    } else if first_conflict_member(sys, ms[0]) is Some {
        first_conflict_member(sys, ms[0])
    } else {
        first_conflict_members(sys, ms.skip(1))
    }
}

/// The last parallel-slot system with a non-empty borrow list, if any.
pub open spec fn last_nonempty(ms: Seq<PlacedV>) -> Option<PlacedV>
    decreases ms.len(),
{
    if ms.len() == 0 {
        None
    } else if ms.last().borrow.len() > 0 {
        Some(ms.last())
    } else {
        last_nonempty(ms.drop_last())
    }
}

/// The system that keeps an aggregate borrow out of a batch: the main-slot
/// system if the slot is filled, else the last parallel system with a
/// non-empty borrow list.
pub open spec fn blocking_member(b: BatchV) -> Option<PlacedV> {
    match b.main {
        Some(m) => Some(m),
        None => last_nonempty(b.others),
    }
}

/// A batch an aggregate borrow may move over: no main-slot system and no
/// parallel system with borrows.
pub open spec fn batch_is_open(b: BatchV) -> bool {
    blocking_member(b) is None
}

/// A batch a non-thread-safe system may move over: the main slot is free
/// and no member conflicts with the incoming system.
pub open spec fn batch_clear_nonsend(b: BatchV, sys: Seq<TypeInfoV>) -> bool {
    b.main is None && forall|k: int|
        0 <= k < b.others.len() ==> !systems_conflict(sys, (#[trigger] b.others[k]).borrow)
}

/// A batch a plain system may move over: no member, the main-slot system
/// included, conflicts with the incoming system.
pub open spec fn batch_clear_plain(b: BatchV, sys: Seq<TypeInfoV>) -> bool {
    forall|k: int|
        0 <= k < b.members().len() ==> !systems_conflict(sys, (#[trigger] b.members()[k]).borrow)
}

/// The slot the backward scan settles on: the start of the longest suffix
/// of batches that the incoming system may move over, where `clear` says
/// which batches those are.  The batch just before the suffix, if there is
/// one, is what stopped the scan.
pub open spec fn scan_slot(bs: Seq<BatchV>, clear: spec_fn(BatchV) -> bool) -> int
    decreases bs.len(),
{
    if bs.len() == 0 {
        0
    } else if clear(bs.last()) {
        scan_slot(bs.drop_last(), clear)
    } else {
        bs.len() as int
    }
}

/// The placed record for an incoming system.
pub open spec fn placed(e: FlatV, conflict: Option<ConflictV>) -> PlacedV {
    PlacedV {
        index: e.index,
        name: e.name,
        type_id: e.type_id,
        borrow: e.borrow,
        conflict: conflict,
    }
}

/// Puts a system into the main slot of batch `slot`, or opens a new batch
/// when the scan never found one to reuse.
pub open spec fn place_main(bs: Seq<BatchV>, slot: int, p: PlacedV) -> Seq<BatchV> {
    if slot < bs.len() {
        bs.update(slot, BatchV { main: Some(p), others: bs[slot].others })
    } else {
        bs.push(BatchV { main: Some(p), others: seq![] })
    }
}

/// Appends a system to the parallel list of batch `slot`, or opens a new
/// batch when the scan never found one to reuse.
pub open spec fn place_other(bs: Seq<BatchV>, slot: int, p: PlacedV) -> Seq<BatchV> {
    if slot < bs.len() {
        bs.update(slot, BatchV { main: bs[slot].main, others: bs[slot].others.push(p) })
    } else {
        bs.push(BatchV { main: None, others: seq![p] })
    }
}

/// The diagnostic recorded when an aggregate borrow stops at batch `b`:
/// the blocking system and its last declared borrow.
pub open spec fn aggregate_diag(all_desc: TypeInfoV, b: BatchV) -> Option<ConflictV> {
    let m = blocking_member(b)->Some_0;
    Some(
        ConflictV::Borrow {
            type_info: Some(all_desc),
            other_system: m.sys_id(),
            other_type_info: m.borrow.last(),
        },
    )
}

/// The diagnostic recorded when a non-thread-safe system stops at batch
/// `b`: the filled main slot if that is what stopped it, else the first
/// conflicting pair among the batch's parallel systems.
pub open spec fn nonsend_diag(nss_desc: TypeInfoV, b: BatchV, sys: Seq<TypeInfoV>) -> Option<
    ConflictV,
> {
    match b.main {
        Some(m) => Some(
            ConflictV::Borrow {
                type_info: Some(nss_desc),
                other_system: m.sys_id(),
                other_type_info: m.borrow.last(),
            },
        ),
        None => first_conflict_members(sys, b.others),
    }
}

/// Folds one system into the batch sequence: classify it by its first
/// special descriptor, scan backward for the earliest batch it may occupy,
/// and place it there, recording why it could not go further back.
pub open spec fn insert_system_spec(bs: Seq<BatchV>, e: FlatV) -> Seq<BatchV> {
    let si = special_index(e.borrow);
    if si < e.borrow.len() && e.borrow[si].storage_id is AllStorages {
        let slot = scan_slot(bs, |b: BatchV| batch_is_open(b));
        let conflict = if slot > 0 {
            aggregate_diag(e.borrow[si], bs[slot - 1])
        } else {
            None
        };
        place_main(bs, slot, placed(e, conflict))
    } else if si < e.borrow.len() {
        let slot = scan_slot(bs, |b: BatchV| batch_clear_nonsend(b, e.borrow));
        let conflict = if slot > 0 {
            nonsend_diag(e.borrow[si], bs[slot - 1], e.borrow)
        } else {
            None
        };
        place_main(bs, slot, placed(e, conflict))
    } else {
        let slot = scan_slot(bs, |b: BatchV| batch_clear_plain(b, e.borrow));
        let conflict = if slot > 0 {
            first_conflict_members(e.borrow, bs[slot - 1].members())
        } else {
            None
        };
        place_other(bs, slot, placed(e, conflict))
    }
}

/// The whole plan: fold the flattened systems, in declared order, into
/// batches.
pub open spec fn plan_batches(flat: Seq<FlatV>) -> Seq<BatchV>
    decreases flat.len(),
{
    if flat.len() == 0 {
        seq![]
    } else {
        insert_system_spec(plan_batches(flat.drop_last()), flat.last())
    }
}

/// Bounds of [`special_index`]: it points into the list or just past it.
pub proof fn lemma_special_index_bounds(bs: Seq<TypeInfoV>)
    ensures
        0 <= special_index(bs) <= bs.len(),
    decreases bs.len(),
{
    if bs.len() > 0 && !is_special(bs[0]) {
        lemma_special_index_bounds(bs.skip(1));
    }
}

/// Characterizes [`special_index`]: a prefix of ordinary descriptors
/// followed by a special one (or the end) pins the index.
pub proof fn lemma_special_index_char(bs: Seq<TypeInfoV>, k: int)
    requires
        0 <= k <= bs.len(),
        forall|j: int| 0 <= j < k ==> !is_special(#[trigger] bs[j]),
        k < bs.len() ==> is_special(bs[k]),
    ensures
        special_index(bs) == k,
    decreases bs.len(),
{
    if bs.len() == 0 {
    } else if is_special(bs[0]) {
        assert(k == 0);
    } else {
        assert(k >= 1);
        let tail = bs.skip(1);
        assert(forall|j: int| 0 <= j < k - 1 ==> !is_special(#[trigger] tail[j]));
        assert(k - 1 < tail.len() ==> is_special(tail[k - 1]));
        lemma_special_index_char(tail, k - 1);
    }
}

/// Everything before [`special_index`] is ordinary, and the descriptor at
/// the index, when there is one, is special.
pub proof fn lemma_special_index_facts(bs: Seq<TypeInfoV>)
    ensures
        0 <= special_index(bs) <= bs.len(),
        forall|j: int| 0 <= j < special_index(bs) ==> !is_special(#[trigger] bs[j]),
        special_index(bs) < bs.len() ==> is_special(bs[special_index(bs)]),
    decreases bs.len(),
{
    if bs.len() > 0 && !is_special(bs[0]) {
        lemma_special_index_facts(bs.skip(1));
        assert forall|j: int| 0 <= j < special_index(bs) implies !is_special(#[trigger] bs[j]) by {
            if j >= 1 {
                assert(bs[j] == bs.skip(1)[j - 1]);
                assert(!is_special(bs.skip(1)[j - 1]));
            }
        }
    }
}

/// A special descriptor somewhere in the list means the list is not plain.
pub proof fn lemma_not_plain(bs: Seq<TypeInfoV>, j: int)
    requires
        0 <= j < bs.len(),
        is_special(bs[j]),
    ensures
        special_index(bs) <= j,
    decreases bs.len(),
{
    if !is_special(bs[0]) {
        lemma_not_plain(bs.skip(1), j - 1);
    }
}

/// Two systems conflict in either order.
pub proof fn lemma_systems_conflict_sym(a: Seq<TypeInfoV>, b: Seq<TypeInfoV>)
    ensures
        systems_conflict(a, b) == systems_conflict(b, a),
{
    if systems_conflict(a, b) {
        let (i, j) = choose|i: int, j: int|
            0 <= i < a.len() && 0 <= j < b.len() && descriptors_conflict(a[i], b[j]);
        assert(descriptors_conflict(b[j], a[i]));
    }
    if systems_conflict(b, a) {
        let (i, j) = choose|i: int, j: int|
            0 <= i < b.len() && 0 <= j < a.len() && descriptors_conflict(b[i], a[j]);
        assert(descriptors_conflict(a[j], b[i]));
    }
}

/// A system with no descriptors conflicts with nothing.
pub proof fn lemma_empty_no_conflict(a: Seq<TypeInfoV>, b: Seq<TypeInfoV>)
    requires
        a.len() == 0 || b.len() == 0,
    ensures
        !systems_conflict(a, b),
{
}

/// A descriptor pair conflicts exactly when the diagnostic for it exists.
pub proof fn lemma_pair_conflict_iff(t: TypeInfoV, o: TypeInfoV, other: SystemIdV)
    ensures
        pair_conflict(t, o, other) is Some <==> descriptors_conflict(t, o),
{
}

/// The descriptor-level scan finds a conflict exactly when one exists.
pub proof fn lemma_first_conflict_descs_iff(sys: Seq<TypeInfoV>, o: TypeInfoV, other: SystemIdV)
    ensures
        first_conflict_descs(sys, o, other) is Some <==> exists|i: int|
            0 <= i < sys.len() && descriptors_conflict(#[trigger] sys[i], o),
    decreases sys.len(),
{
    if sys.len() > 0 {
        lemma_pair_conflict_iff(sys[0], o, other);
        lemma_first_conflict_descs_iff(sys.skip(1), o, other);
        if pair_conflict(sys[0], o, other) is None {
            assert forall|i: int| 0 <= i < sys.len() && descriptors_conflict(#[trigger] sys[i], o)
                implies first_conflict_descs(sys, o, other) is Some by {
                if i > 0 {
                    assert(sys.skip(1)[i - 1] == sys[i]);
                }
            }
            if exists|i: int| 0 <= i < sys.skip(1).len()
                && descriptors_conflict(#[trigger] sys.skip(1)[i], o) {
                let i = choose|i: int| 0 <= i < sys.skip(1).len()
                    && descriptors_conflict(#[trigger] sys.skip(1)[i], o);
                assert(sys[i + 1] == sys.skip(1)[i]);
            }
        }
    }
}

/// The member-level scan finds a conflict exactly when the two systems
/// conflict.
pub proof fn lemma_first_conflict_member_from_iff(
    sys: Seq<TypeInfoV>,
    os: Seq<TypeInfoV>,
    other: SystemIdV,
)
    ensures
        first_conflict_member_from(sys, os, other) is Some <==> systems_conflict(sys, os),
    decreases os.len(),
{
    if os.len() > 0 {
        lemma_first_conflict_descs_iff(sys, os[0], other);
        lemma_first_conflict_member_from_iff(sys, os.skip(1), other);
        if first_conflict_descs(sys, os[0], other) is Some {
            let i = choose|i: int| 0 <= i < sys.len()
                && descriptors_conflict(#[trigger] sys[i], os[0]);
            assert(systems_conflict(sys, os));
        } else {
            if systems_conflict(sys, os.skip(1)) {
                let (i, j) = choose|i: int, j: int| 0 <= i < sys.len()
                    && 0 <= j < os.skip(1).len()
                    && descriptors_conflict(sys[i], os.skip(1)[j]);
                assert(os[j + 1] == os.skip(1)[j]);
                assert(systems_conflict(sys, os));
            }
            if systems_conflict(sys, os) {
                let (i, j) = choose|i: int, j: int| 0 <= i < sys.len() && 0 <= j < os.len()
                    && descriptors_conflict(sys[i], os[j]);
                if j == 0 {
                    assert(exists|i: int| 0 <= i < sys.len()
                        && descriptors_conflict(#[trigger] sys[i], os[0]));
                } else {
                    assert(os.skip(1)[j - 1] == os[j]);
                    assert(systems_conflict(sys, os.skip(1)));
                }
            }
        }
    }
}

/// The batch-member scan finds a conflict exactly when some member
/// conflicts with the incoming system.
pub proof fn lemma_first_conflict_members_iff(sys: Seq<TypeInfoV>, ms: Seq<PlacedV>)
    ensures
        first_conflict_members(sys, ms) is Some <==> exists|k: int|
            0 <= k < ms.len() && systems_conflict(sys, (#[trigger] ms[k]).borrow),
    decreases ms.len(),
{
    if ms.len() > 0 {
        lemma_first_conflict_member_from_iff(sys, ms[0].borrow, ms[0].sys_id());
        lemma_first_conflict_members_iff(sys, ms.skip(1));
        if first_conflict_member(sys, ms[0]) is None {
            if exists|k: int| 0 <= k < ms.skip(1).len()
                && systems_conflict(sys, (#[trigger] ms.skip(1)[k]).borrow) {
                let k = choose|k: int| 0 <= k < ms.skip(1).len()
                    && systems_conflict(sys, (#[trigger] ms.skip(1)[k]).borrow);
                assert(ms[k + 1] == ms.skip(1)[k]);
            }
            if exists|k: int| 0 <= k < ms.len()
                && systems_conflict(sys, (#[trigger] ms[k]).borrow) {
                let k = choose|k: int| 0 <= k < ms.len()
                    && systems_conflict(sys, (#[trigger] ms[k]).borrow);
                if k > 0 {
                    assert(ms.skip(1)[k - 1] == ms[k]);
                }
            }
        }
    }
}

/// The last-with-borrows scan comes up empty exactly when every member has
/// an empty borrow list.
pub proof fn lemma_last_nonempty_none(ms: Seq<PlacedV>)
    ensures
        last_nonempty(ms) is None <==> forall|k: int|
            0 <= k < ms.len() ==> (#[trigger] ms[k]).borrow.len() == 0,
        last_nonempty(ms) matches Some(m) ==> m.borrow.len() > 0,
    decreases ms.len(),
{
    if ms.len() > 0 {
        lemma_last_nonempty_none(ms.drop_last());
        if ms.last().borrow.len() == 0 {
            assert(forall|k: int| 0 <= k < ms.len() - 1 ==> ms.drop_last()[k] == ms[k]);
        }
    }
}

/// Bounds of the backward scan's slot.
pub proof fn lemma_scan_slot_bounds(bs: Seq<BatchV>, clear: spec_fn(BatchV) -> bool)
    ensures
        0 <= scan_slot(bs, clear) <= bs.len(),
    decreases bs.len(),
{
    if bs.len() > 0 && clear(bs.last()) {
        lemma_scan_slot_bounds(bs.drop_last(), clear);
    }
}

/// Every batch from the scan's slot to the end may be moved over.
pub proof fn lemma_scan_slot_suffix(bs: Seq<BatchV>, clear: spec_fn(BatchV) -> bool)
    ensures
        forall|i: int| scan_slot(bs, clear) <= i < bs.len() ==> clear(#[trigger] bs[i]),
    decreases bs.len(),
{
    if bs.len() > 0 && clear(bs.last()) {
        lemma_scan_slot_bounds(bs.drop_last(), clear);
        lemma_scan_slot_suffix(bs.drop_last(), clear);
        assert forall|i: int| scan_slot(bs, clear) <= i < bs.len() implies clear(
            #[trigger] bs[i],
        ) by {
            if i < bs.len() - 1 {
                assert(bs.drop_last()[i] == bs[i]);
                assert(clear(bs.drop_last()[i]));
            } else {
                assert(clear(bs.last()));
            }
        }
    }
}

/// Characterizes the scan's slot: the start of a clear suffix whose
/// predecessor, if any, is not clear.
pub proof fn lemma_scan_slot_char(bs: Seq<BatchV>, clear: spec_fn(BatchV) -> bool, j: int)
    requires
        0 <= j <= bs.len(),
        forall|i: int| j <= i < bs.len() ==> clear(#[trigger] bs[i]),
        j > 0 ==> !clear(bs[j - 1]),
    ensures
        scan_slot(bs, clear) == j,
    decreases bs.len(),
{
    if bs.len() == 0 {
    } else if clear(bs.last()) {
        assert(j < bs.len() || !clear(bs[bs.len() - 1]) || j == bs.len());
        assert(j <= bs.len() - 1) by {
            if j == bs.len() {
                assert(!clear(bs[j - 1]));
            }
        }
        assert(forall|i: int| j <= i < bs.len() - 1 ==> clear(#[trigger] bs.drop_last()[i]));
        lemma_scan_slot_char(bs.drop_last(), clear, j);
    } else {
        assert(j == bs.len()) by {
            if j < bs.len() {
                assert(clear(bs[bs.len() - 1]));
            }
        }
    }
}

/// Skipping a conflict-free prefix of the incoming system's descriptors
/// does not change what the scan finds.
pub proof fn lemma_first_conflict_descs_skip(
    sys: Seq<TypeInfoV>,
    o: TypeInfoV,
    other: SystemIdV,
    k: int,
)
    requires
        0 <= k <= sys.len(),
        forall|i: int| 0 <= i < k ==> pair_conflict(#[trigger] sys[i], o, other) is None,
    ensures
        first_conflict_descs(sys, o, other) == first_conflict_descs(sys.skip(k), o, other),
    decreases k,
{
    if k == 0 {
        assert(sys.skip(0) =~= sys);
    } else {
        assert forall|i: int| 0 <= i < k - 1 implies pair_conflict(
            #[trigger] sys.skip(1)[i],
            o,
            other,
        ) is None by {
            assert(sys.skip(1)[i] == sys[i + 1]);
        }
        lemma_first_conflict_descs_skip(sys.skip(1), o, other, k - 1);
        assert(sys.skip(1).skip(k - 1) =~= sys.skip(k));
    }
}

/// Skipping a conflict-free prefix of the placed system's descriptors does
/// not change what the scan finds.
pub proof fn lemma_first_conflict_member_from_skip(
    sys: Seq<TypeInfoV>,
    os: Seq<TypeInfoV>,
    other: SystemIdV,
    k: int,
)
    requires
        0 <= k <= os.len(),
        forall|i: int| 0 <= i < k ==> first_conflict_descs(sys, #[trigger] os[i], other) is None,
    ensures
        first_conflict_member_from(sys, os, other) == first_conflict_member_from(
            sys,
            os.skip(k),
            other,
        ),
    decreases k,
{
    if k == 0 {
        assert(os.skip(0) =~= os);
    } else {
        assert forall|i: int| 0 <= i < k - 1 implies first_conflict_descs(
            sys,
            #[trigger] os.skip(1)[i],
            other,
        ) is None by {
            assert(os.skip(1)[i] == os[i + 1]);
        }
        lemma_first_conflict_member_from_skip(sys, os.skip(1), other, k - 1);
        assert(os.skip(1).skip(k - 1) =~= os.skip(k));
    }
}

/// Skipping a conflict-free prefix of the placed systems does not change
/// what the scan finds.
pub proof fn lemma_first_conflict_members_skip(sys: Seq<TypeInfoV>, ms: Seq<PlacedV>, k: int)
    requires
        0 <= k <= ms.len(),
        forall|i: int| 0 <= i < k ==> first_conflict_member(sys, #[trigger] ms[i]) is None,
    ensures
        first_conflict_members(sys, ms) == first_conflict_members(sys, ms.skip(k)),
    decreases k,
{
    if k == 0 {
        assert(ms.skip(0) =~= ms);
    } else {
        assert forall|i: int| 0 <= i < k - 1 implies first_conflict_member(
            sys,
            #[trigger] ms.skip(1)[i],
        ) is None by {
            assert(ms.skip(1)[i] == ms[i + 1]);
        }
        lemma_first_conflict_members_skip(sys, ms.skip(1), k - 1);
        assert(ms.skip(1).skip(k - 1) =~= ms.skip(k));
    }
}

/// Characterizes [`last_nonempty`]: a member with borrows followed only by
/// members without any is the one found.
pub proof fn lemma_last_nonempty_char(ms: Seq<PlacedV>, k: int)
    requires
        0 <= k < ms.len(),
        ms[k].borrow.len() > 0,
        forall|j: int| k < j < ms.len() ==> (#[trigger] ms[j]).borrow.len() == 0,
    ensures
        last_nonempty(ms) == Some(ms[k]),
    decreases ms.len(),
{
    if k < ms.len() - 1 {
        assert(ms.last().borrow.len() == 0);
        assert(forall|j: int| k < j < ms.len() - 1 ==> ms.drop_last()[j] == ms[j]);
        lemma_last_nonempty_char(ms.drop_last(), k);
    }
}

} // verus!
