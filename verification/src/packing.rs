//! The executable batch packer.
//!
//! [`insert_system`] places one flattened system into the batches exactly as
//! [`crate::plan::insert_system_spec`] says, backward scan, bubble-up and
//! conflict diagnostic included.

use vstd::prelude::*;

use crate::ids::StorageId;
use crate::ids::TypeId;
use crate::info::Conflict;
use crate::info::SystemId;
use crate::info::SystemInfo;
use crate::info::TypeInfo;
use crate::info::TypeInfoV;
use crate::plan::BatchV;
use crate::plan::FlatV;
use crate::plan::PlacedV;
use crate::plan::batch_is_open;
use crate::plan::first_conflict_descs;
use crate::plan::first_conflict_member;
use crate::plan::first_conflict_members;
use crate::plan::is_special;
use crate::plan::lemma_first_conflict_descs_skip;
use crate::plan::lemma_first_conflict_member_from_skip;
use crate::plan::lemma_first_conflict_members_skip;
use crate::plan::lemma_last_nonempty_none;
use crate::plan::lemma_special_index_char;
use crate::plan::pair_conflict;
use crate::plan::special_index;
use crate::plan::insert_system_spec;
use crate::plan::aggregate_diag;
use crate::plan::nonsend_diag;
use crate::plan::batch_clear_nonsend;
use crate::plan::batch_clear_plain;

verus! {

/// The descriptor views of a descriptor list.
pub open spec fn infos_view(s: Seq<TypeInfo>) -> Seq<TypeInfoV> {
    s.map_values(|t: TypeInfo| t@)
}

/// One system of the flattened workload: its identity, its slot in the
/// shared system pool, and its borrow descriptors.
pub struct FlatSystem {
    /// Stable identity of the system function.
    pub type_id: TypeId,
    /// Diagnostic name of the system.
    pub name: &'static str,
    /// The system's slot in the shared pool.
    pub index: usize,
    /// The system's declared borrows.
    pub borrow: Vec<TypeInfo>,
}

impl View for FlatSystem {
    type V = FlatV;

    open spec fn view(&self) -> FlatV {
        FlatV {
            type_id: self.type_id,
            name: self.name@,
            index: self.index as int,
            borrow: infos_view(self.borrow@),
        }
    }
}

/// One placed system: its pool slot and the diagnostic record built when it
/// was placed.
pub struct PlacedSystem {
    /// The system's slot in the shared pool.
    pub index: usize,
    /// The diagnostic record.
    pub info: SystemInfo,
}

impl View for PlacedSystem {
    type V = PlacedV;

    open spec fn view(&self) -> PlacedV {
        PlacedV {
            index: self.index as int,
            name: self.info.name@,
            type_id: self.info.type_id,
            borrow: infos_view(self.info.borrow@),
            conflict: match self.info.conflict {
                Some(c) => Some(c@),
                None => None,
            },
        }
    }
}

/// One batch under construction.
pub struct PackBatch {
    /// The main-worker slot.
    pub main: Option<PlacedSystem>,
    /// The systems free to run on any worker.
    pub others: Vec<PlacedSystem>,
}

/// The placed-system views of a list of placed systems.
pub open spec fn placed_view(s: Seq<PlacedSystem>) -> Seq<PlacedV> {
    s.map_values(|p: PlacedSystem| p@)
}

impl View for PackBatch {
    type V = BatchV;

    open spec fn view(&self) -> BatchV {
        BatchV {
            main: match self.main {
                Some(p) => Some(p@),
                None => None,
            },
            others: placed_view(self.others@),
        }
    }
}

/// The batch views of a batch list.
pub open spec fn batches_view(s: Seq<PackBatch>) -> Seq<BatchV> {
    s.map_values(|b: PackBatch| b@)
}

/// Whether one descriptor is special: an aggregate borrow or a
/// non-thread-safe one.
fn is_special_desc(t: &TypeInfo) -> (r: bool)
    ensures
        r == is_special(t@),
{
    matches!(t.storage_id, StorageId::AllStorages) || !t.thread_safe
}

/// Position of the first special descriptor, or the list's length.
pub fn find_special(borrow: &Vec<TypeInfo>) -> (r: usize)
    ensures
        r as int == special_index(infos_view(borrow@)),
        r <= borrow.len(),
{
    let ghost bv = infos_view(borrow@);
    let mut i: usize = 0;
    while i < borrow.len()
        invariant
            0 <= i <= borrow.len(),
            bv == infos_view(borrow@),
            bv.len() == borrow.len(),
            forall|j: int| 0 <= j < i ==> !is_special(#[trigger] bv[j]),
        decreases borrow.len() - i,
    {
        if is_special_desc(&borrow[i]) {
            proof {
                lemma_special_index_char(bv, i as int);
            }
            return i;
        }
        i += 1;
    }
    proof {
        lemma_special_index_char(bv, borrow.len() as int);
    }
    i
}

/// The diagnostic for one descriptor pair, if the pair conflicts.
fn pair_conflict_exec(
    t: &TypeInfo,
    o: &TypeInfo,
    other_name: &'static str,
    other_id: TypeId,
) -> (r: Option<Conflict>)
    ensures
        ({
            let sid = crate::info::SystemIdV { name: other_name@, type_id: other_id };
            match r {
                Some(c) => pair_conflict(t@, o@, sid) == Some(c@),
                None => pair_conflict(t@, o@, sid) is None,
            }
        }),
{
    if !t.thread_safe && !o.thread_safe {
        Some(
            Conflict::OtherNotSendSync {
                system: SystemId { name: other_name, type_id: other_id },
                type_info: *o,
            },
        )
    } else if matches!(t.storage_id, StorageId::AllStorages)
        || matches!(o.storage_id, StorageId::AllStorages)
        || (t.storage_id == o.storage_id && (matches!(t.mutability, crate::ids::Mutability::Exclusive)
            || matches!(o.mutability, crate::ids::Mutability::Exclusive))) {
        Some(
            Conflict::Borrow {
                type_info: Some(*t),
                other_system: SystemId { name: other_name, type_id: other_id },
                other_type_info: *o,
            },
        )
    } else {
        None
    }
}

/// First conflict between the incoming descriptors and one descriptor of a
/// placed system.
fn first_conflict_descs_exec(
    sys: &Vec<TypeInfo>,
    o: &TypeInfo,
    other_name: &'static str,
    other_id: TypeId,
) -> (r: Option<Conflict>)
    ensures
        ({
            let sid = crate::info::SystemIdV { name: other_name@, type_id: other_id };
            match r {
                Some(c) => first_conflict_descs(infos_view(sys@), o@, sid) == Some(c@),
                None => first_conflict_descs(infos_view(sys@), o@, sid) is None,
            }
        }),
{
    let ghost sv = infos_view(sys@);
    let ghost sid = crate::info::SystemIdV { name: other_name@, type_id: other_id };
    let mut i: usize = 0;
    while i < sys.len()
        invariant
            0 <= i <= sys.len(),
            sv == infos_view(sys@),
            sid == (crate::info::SystemIdV { name: other_name@, type_id: other_id }),
            sv.len() == sys.len(),
            forall|j: int| 0 <= j < i ==> pair_conflict(#[trigger] sv[j], o@, sid) is None,
        decreases sys.len() - i,
    {
        let c = pair_conflict_exec(&sys[i], o, other_name, other_id);
        if c.is_some() {
            proof {
                lemma_first_conflict_descs_skip(sv, o@, sid, i as int);
                assert(sv.skip(i as int)[0] == sv[i as int]);
            }
            return c;
        }
        i += 1;
    }
    proof {
        lemma_first_conflict_descs_skip(sv, o@, sid, sys.len() as int);
    }
    None
}

/// First conflict between the incoming descriptors and one placed system.
fn first_conflict_member_exec(sys: &Vec<TypeInfo>, m: &PlacedSystem) -> (r: Option<Conflict>)
    ensures
        match r {
            Some(c) => first_conflict_member(infos_view(sys@), m@) == Some(c@),
            None => first_conflict_member(infos_view(sys@), m@) is None,
        },
{
    let ghost sv = infos_view(sys@);
    let ghost ov = infos_view(m.info.borrow@);
    let ghost sid = m@.sys_id();
    let mut i: usize = 0;
    while i < m.info.borrow.len()
        invariant
            0 <= i <= m.info.borrow.len(),
            sv == infos_view(sys@),
            ov == infos_view(m.info.borrow@),
            sid == m@.sys_id(),
            ov.len() == m.info.borrow.len(),
            forall|j: int| 0 <= j < i ==> first_conflict_descs(sv, #[trigger] ov[j], sid) is None,
        decreases m.info.borrow.len() - i,
    {
        let c = first_conflict_descs_exec(sys, &m.info.borrow[i], m.info.name, m.info.type_id);
        if c.is_some() {
            proof {
                lemma_first_conflict_member_from_skip(sv, ov, sid, i as int);
                assert(ov.skip(i as int)[0] == ov[i as int]);
            }
            return c;
        }
        i += 1;
    }
    proof {
        lemma_first_conflict_member_from_skip(sv, ov, sid, m.info.borrow.len() as int);
    }
    None
}

/// First conflict between the incoming descriptors and a list of placed
/// systems.
fn first_conflict_others_exec(sys: &Vec<TypeInfo>, ms: &Vec<PlacedSystem>) -> (r: Option<
    Conflict,
>)
    ensures
        match r {
            Some(c) => first_conflict_members(infos_view(sys@), placed_view(ms@)) == Some(c@),
            None => first_conflict_members(infos_view(sys@), placed_view(ms@)) is None,
        },
{
    let ghost sv = infos_view(sys@);
    let ghost mv = placed_view(ms@);
    let mut i: usize = 0;
    while i < ms.len()
        invariant
            0 <= i <= ms.len(),
            sv == infos_view(sys@),
            mv == placed_view(ms@),
            mv.len() == ms.len(),
            forall|j: int| 0 <= j < i ==> first_conflict_member(sv, #[trigger] mv[j]) is None,
        decreases ms.len() - i,
    {
        let c = first_conflict_member_exec(sys, &ms[i]);
        if c.is_some() {
            proof {
                lemma_first_conflict_members_skip(sv, mv, i as int);
                assert(mv.skip(i as int)[0] == mv[i as int]);
            }
            return c;
        }
        i += 1;
    }
    proof {
        lemma_first_conflict_members_skip(sv, mv, ms.len() as int);
    }
    None
}

/// First conflict between the incoming descriptors and a whole batch, the
/// main-slot system first.
fn first_conflict_batch_exec(sys: &Vec<TypeInfo>, b: &PackBatch) -> (r: Option<Conflict>)
    ensures
        match r {
            Some(c) => first_conflict_members(infos_view(sys@), b@.members()) == Some(c@),
            None => first_conflict_members(infos_view(sys@), b@.members()) is None,
        },
{
    let ghost sv = infos_view(sys@);
    match &b.main {
        Some(m) => {
            proof {
                assert(b@.members() =~= seq![m@] + placed_view(b.others@));
                assert(b@.members()[0] == m@);
                assert(b@.members().skip(1) =~= placed_view(b.others@));
            }
            let c = first_conflict_member_exec(sys, m);
            if c.is_some() {
                return c;
            }
            let r = first_conflict_others_exec(sys, &b.others);
            proof {
                lemma_first_conflict_members_skip(sv, b@.members(), 1);
            }
            r
        },
        None => {
            proof {
                assert(b@.members() =~= placed_view(b.others@));
            }
            first_conflict_others_exec(sys, &b.others)
        },
    }
}

/// Whether a batch is open for an aggregate borrow to move over: no
/// main-slot system and no parallel system with borrows.
fn batch_is_open_exec(b: &PackBatch) -> (r: bool)
    ensures
        r == batch_is_open(b@),
{
    proof {
        lemma_last_nonempty_none(placed_view(b.others@));
    }
    if b.main.is_some() {
        return false;
    }
    let mut i: usize = 0;
    while i < b.others.len()
        invariant
            0 <= i <= b.others.len(),
            b@.others == placed_view(b.others@),
            b@.others.len() == b.others.len(),
            b@.main is None,
            forall|j: int| 0 <= j < i ==> (#[trigger] b@.others[j]).borrow.len() == 0,
        decreases b.others.len() - i,
    {
        if b.others[i].info.borrow.len() > 0 {
            proof {
                lemma_last_nonempty_none(placed_view(b.others@));
                assert(b@.others[i as int].borrow.len() > 0);
            }
            return false;
        }
        i += 1;
    }
    proof {
        lemma_last_nonempty_none(placed_view(b.others@));
    }
    true
}

/// Places one flattened system into the batches: classify it by its first
/// special descriptor, scan the batches backward for the earliest one it
/// may occupy, and settle there, recording why it could not go further
/// back.
pub fn insert_system(batches: &mut Vec<PackBatch>, e: FlatSystem)
    requires
        crate::laws::batches_wf(batches_view(old(batches)@)),
    ensures
        batches_view(final(batches)@) == insert_system_spec(batches_view(old(batches)@), e@),
{
    let ghost bsv = batches_view(batches@);
    let ghost ev = e@;
    let si = find_special(&e.borrow);
    proof {
        assert(ev.borrow == infos_view(e.borrow@));
        assert(ev.borrow.len() == e.borrow.len());
    }
    if si < e.borrow.len() && matches!(e.borrow[si].storage_id, StorageId::AllStorages) {
        proof {
            assert(ev.borrow[si as int] == e.borrow@[si as int]@);
        }
        let mut slot: usize = batches.len();
        let mut conflict: Option<Conflict> = None;
        while slot > 0
            invariant_except_break
                0 <= slot <= batches.len(),
                bsv == batches_view(batches@),
                bsv.len() == batches.len(),
                crate::laws::batches_wf(bsv),
                conflict is None,
                ev == e@,
                e@.borrow == infos_view(e.borrow@),
                si < e.borrow.len(),
                si as int == special_index(ev.borrow),
                forall|i: int| slot <= i < bsv.len() ==> batch_is_open(#[trigger] bsv[i]),
            ensures
                0 <= slot <= batches.len(),
                bsv == batches_view(batches@),
                bsv.len() == batches.len(),
                ev == e@,
                forall|i: int| slot <= i < bsv.len() ==> batch_is_open(#[trigger] bsv[i]),
                slot > 0 ==> !batch_is_open(bsv[slot - 1]),
                slot > 0 ==> conflict_view(conflict) == aggregate_diag(
                    ev.borrow[special_index(ev.borrow)],
                    bsv[slot - 1],
                ),
                slot == 0 ==> conflict is None,
            decreases slot,
        {
            if batch_is_open_exec(&batches[slot - 1]) {
                slot -= 1;
            } else {
                proof {
                    assert(batches@[slot - 1]@ == bsv[slot - 1]);
                    assert(crate::laws::batch_wf(bsv[slot - 1]));
                    assert(e.borrow@[si as int]@ == ev.borrow[special_index(ev.borrow)]);
                }
                conflict = aggregate_stop_diag(&batches[slot - 1], &e.borrow[si]);
                break;
            }
        }
        proof {
            crate::plan::lemma_scan_slot_char(bsv, |b: BatchV| batch_is_open(b), slot as int);
        }
        place_in_main_slot(batches, slot, e, conflict);
        proof {
            assert(batches_view(batches@) == insert_system_spec(bsv, ev));
        }
    } else if si < e.borrow.len() {
        proof {
            assert(ev.borrow[si as int] == e.borrow@[si as int]@);
        }
        let mut slot: usize = batches.len();
        let mut conflict: Option<Conflict> = None;
        while slot > 0
            invariant_except_break
                0 <= slot <= batches.len(),
                bsv == batches_view(batches@),
                bsv.len() == batches.len(),
                crate::laws::batches_wf(bsv),
                conflict is None,
                ev == e@,
                e@.borrow == infos_view(e.borrow@),
                si < e.borrow.len(),
                si as int == special_index(ev.borrow),
                forall|i: int| slot <= i < bsv.len() ==> batch_clear_nonsend(
                    #[trigger] bsv[i],
                    ev.borrow,
                ),
            ensures
                0 <= slot <= batches.len(),
                bsv == batches_view(batches@),
                bsv.len() == batches.len(),
                ev == e@,
                forall|i: int| slot <= i < bsv.len() ==> batch_clear_nonsend(
                    #[trigger] bsv[i],
                    ev.borrow,
                ),
                slot > 0 ==> !batch_clear_nonsend(bsv[slot - 1], ev.borrow),
                slot > 0 ==> conflict_view(conflict) == nonsend_diag(
                    ev.borrow[special_index(ev.borrow)],
                    bsv[slot - 1],
                    ev.borrow,
                ),
                slot == 0 ==> conflict is None,
            decreases slot,
        {
            let stop: Option<Conflict>;
            let mut clear = false;
            proof {
                assert(batches@[slot - 1]@ == bsv[slot - 1]);
                assert(crate::laws::batch_wf(bsv[slot - 1]));
            }
            if batches[slot - 1].main.is_some() {
                stop = nonsend_main_diag(&batches[slot - 1], &e.borrow[si]);
            } else {
                let c = first_conflict_others_exec(&e.borrow, &batches[slot - 1].others);
                if c.is_some() {
                    stop = c;
                } else {
                    stop = None;
                    clear = true;
                    proof {
                        crate::plan::lemma_first_conflict_members_iff(
                            ev.borrow,
                            bsv[slot - 1].others,
                        );
                        assert(batches@[slot - 1]@ == bsv[slot - 1]);
                        assert(batch_clear_nonsend(bsv[slot - 1], ev.borrow));
                    }
                }
            }
            if clear {
                slot -= 1;
            } else {
                conflict = stop;
                proof {
                    assert(batches@[slot - 1]@ == bsv[slot - 1]);
                    assert(e.borrow@[si as int]@ == ev.borrow[special_index(ev.borrow)]);
                    if bsv[slot - 1].main is None {
                        crate::plan::lemma_first_conflict_members_iff(
                            ev.borrow,
                            bsv[slot - 1].others,
                        );
                    }
                }
                break;
            }
        }
        proof {
            crate::plan::lemma_scan_slot_char(
                bsv,
                |b: BatchV| batch_clear_nonsend(b, ev.borrow),
                slot as int,
            );
        }
        place_in_main_slot(batches, slot, e, conflict);
        proof {
            assert(batches_view(batches@) == insert_system_spec(bsv, ev));
        }
    } else {
        let mut slot: usize = batches.len();
        let mut conflict: Option<Conflict> = None;
        while slot > 0
            invariant_except_break
                0 <= slot <= batches.len(),
                bsv == batches_view(batches@),
                bsv.len() == batches.len(),
                crate::laws::batches_wf(bsv),
                conflict is None,
                ev == e@,
                e@.borrow == infos_view(e.borrow@),
                forall|i: int| slot <= i < bsv.len() ==> batch_clear_plain(
                    #[trigger] bsv[i],
                    ev.borrow,
                ),
            ensures
                0 <= slot <= batches.len(),
                bsv == batches_view(batches@),
                bsv.len() == batches.len(),
                ev == e@,
                forall|i: int| slot <= i < bsv.len() ==> batch_clear_plain(
                    #[trigger] bsv[i],
                    ev.borrow,
                ),
                slot > 0 ==> !batch_clear_plain(bsv[slot - 1], ev.borrow),
                slot > 0 ==> conflict_view(conflict) == first_conflict_members(
                    ev.borrow,
                    bsv[slot - 1].members(),
                ),
                slot == 0 ==> conflict is None,
            decreases slot,
        {
            let c = first_conflict_batch_exec(&e.borrow, &batches[slot - 1]);
            proof {
                assert(batches@[slot - 1]@ == bsv[slot - 1]);
                crate::plan::lemma_first_conflict_members_iff(
                    ev.borrow,
                    bsv[slot - 1].members(),
                );
            }
            if c.is_some() {
                conflict = c;
                break;
            }
            slot -= 1;
        }
        proof {
            crate::plan::lemma_scan_slot_char(
                bsv,
                |b: BatchV| batch_clear_plain(b, ev.borrow),
                slot as int,
            );
        }
        place_in_parallel_slot(batches, slot, e, conflict);
        proof {
            assert(batches_view(batches@) == insert_system_spec(bsv, ev));
        }
    }
}

/// The view of an optional conflict diagnostic.
pub open spec fn conflict_view(c: Option<Conflict>) -> Option<crate::info::ConflictV> {
    match c {
        Some(c) => Some(c@),
        None => None,
    }
}

/// Builds the diagnostic recorded when an aggregate borrow stops at a
/// non-open batch.
fn aggregate_stop_diag(b: &PackBatch, all_desc: &TypeInfo) -> (r: Option<Conflict>)
    requires
        crate::laws::batch_wf(b@),
        !batch_is_open(b@),
    ensures
        conflict_view(r) == aggregate_diag(all_desc@, b@),
{
    match &b.main {
        Some(m) => {
            proof {
                crate::plan::lemma_special_index_bounds(m@.borrow);
                assert(m@.borrow.len() > 0);
                assert(m@.borrow.last() == m.info.borrow@[m.info.borrow.len() - 1]@);
            }
            let ob = m.info.borrow[m.info.borrow.len() - 1];
            Some(
                Conflict::Borrow {
                    type_info: Some(*all_desc),
                    other_system: SystemId { name: m.info.name, type_id: m.info.type_id },
                    other_type_info: ob,
                },
            )
        },
        None => {
            proof {
                lemma_last_nonempty_none(placed_view(b.others@));
            }
            let m = last_member_with_borrows(&b.others);
            proof {
                assert(crate::plan::blocking_member(b@) == crate::plan::last_nonempty(
                    placed_view(b.others@),
                ));
            }
            let ob = m.info.borrow[m.info.borrow.len() - 1];
            Some(
                Conflict::Borrow {
                    type_info: Some(*all_desc),
                    other_system: SystemId { name: m.info.name, type_id: m.info.type_id },
                    other_type_info: ob,
                },
            )
        },
    }
}

/// The last parallel-slot system holding at least one borrow.
fn last_member_with_borrows(ms: &Vec<PlacedSystem>) -> (r: &PlacedSystem)
    requires
        crate::plan::last_nonempty(placed_view(ms@)) is Some,
    ensures
        Some(r@) == crate::plan::last_nonempty(placed_view(ms@)),
        r.info.borrow.len() > 0,
{
    let ghost mv = placed_view(ms@);
    proof {
        lemma_last_nonempty_none(mv);
        assert(exists|j: int| 0 <= j < mv.len() && (#[trigger] mv[j]).borrow.len() > 0);
    }
    let mut k: usize = ms.len();
    while k > 0
        invariant_except_break
            0 <= k <= ms.len(),
            mv == placed_view(ms@),
            mv.len() == ms.len(),
            exists|j: int| 0 <= j < k && (#[trigger] mv[j]).borrow.len() > 0,
            forall|j: int| k <= j < mv.len() ==> (#[trigger] mv[j]).borrow.len() == 0,
        ensures
            0 < k <= ms.len(),
            mv == placed_view(ms@),
            mv.len() == ms.len(),
            forall|j: int| k <= j < mv.len() ==> (#[trigger] mv[j]).borrow.len() == 0,
            mv[k - 1].borrow.len() > 0,
        decreases k,
    {
        if ms[k - 1].info.borrow.len() > 0 {
            proof {
                assert(mv[k - 1 as int].borrow.len() > 0);
            }
            break;
        }
        k -= 1;
        proof {
            let j = choose|j: int| 0 <= j < k + 1 && (#[trigger] mv[j]).borrow.len() > 0;
            assert(mv[k as int].borrow.len() == 0);
            assert(0 <= j < k && mv[j].borrow.len() > 0);
        }
    }
    proof {
        crate::plan::lemma_last_nonempty_char(mv, k - 1 as int);
    }
    &ms[k - 1]
}

/// Builds the diagnostic recorded when a non-thread-safe system stops at a
/// batch whose main slot is already filled.
fn nonsend_main_diag(b: &PackBatch, nss_desc: &TypeInfo) -> (r: Option<Conflict>)
    requires
        crate::laws::batch_wf(b@),
        b.main is Some,
    ensures
        b@.main matches Some(m) ==> conflict_view(r) == Some(
            crate::info::ConflictV::Borrow {
                type_info: Some(nss_desc@),
                other_system: m.sys_id(),
                other_type_info: m.borrow.last(),
            },
        ),
{
    let m = b.main.as_ref().unwrap();
    proof {
        crate::plan::lemma_special_index_bounds(m@.borrow);
        assert(m@.borrow.len() > 0);
        assert(m@.borrow.last() == m.info.borrow@[m.info.borrow.len() - 1]@);
    }
    let ob = m.info.borrow[m.info.borrow.len() - 1];
    Some(
        Conflict::Borrow {
            type_info: Some(*nss_desc),
            other_system: SystemId { name: m.info.name, type_id: m.info.type_id },
            other_type_info: ob,
        },
    )
}

/// Puts the incoming system into the main slot of batch `slot`, or opens a
/// new batch at the end.
fn place_in_main_slot(
    batches: &mut Vec<PackBatch>,
    slot: usize,
    e: FlatSystem,
    conflict: Option<Conflict>,
)
    requires
        0 <= slot <= old(batches).len(),
    ensures
        batches_view(final(batches)@) == crate::plan::place_main(
            batches_view(old(batches)@),
            slot as int,
            crate::plan::placed(e@, conflict_view(conflict)),
        ),
{
    let ghost bsv = batches_view(batches@);
    let ghost pv = crate::plan::placed(e@, conflict_view(conflict));
    let info = SystemInfo { name: e.name, type_id: e.type_id, borrow: e.borrow, conflict };
    let pnew = PlacedSystem { index: e.index, info };
    proof {
        assert(pnew@ == pv);
    }
    if slot < batches.len() {
        let mut b = batches.remove(slot);
        b.main = Some(pnew);
        let ghost newb = b;
        batches.insert(slot, b);
        proof {
            assert(batches@ =~= old(batches)@.update(slot as int, newb));
            assert(newb@ == BatchV { main: Some(pv), others: bsv[slot as int].others });
            assert(batches_view(batches@) =~= bsv.update(
                slot as int,
                BatchV { main: Some(pv), others: bsv[slot as int].others },
            ));
        }
    } else {
        batches.push(PackBatch { main: Some(pnew), others: Vec::new() });
        proof {
            assert(placed_view(batches@.last().others@) =~= Seq::<PlacedV>::empty());
            assert(batches@.last()@ == BatchV { main: Some(pv), others: seq![] });
            assert(batches_view(batches@) =~= bsv.push(
                BatchV { main: Some(pv), others: seq![] },
            ));
        }
    }
}

/// Appends the incoming system to the parallel list of batch `slot`, or
/// opens a new batch at the end.
fn place_in_parallel_slot(
    batches: &mut Vec<PackBatch>,
    slot: usize,
    e: FlatSystem,
    conflict: Option<Conflict>,
)
    requires
        0 <= slot <= old(batches).len(),
    ensures
        batches_view(final(batches)@) == crate::plan::place_other(
            batches_view(old(batches)@),
            slot as int,
            crate::plan::placed(e@, conflict_view(conflict)),
        ),
{
    let ghost bsv = batches_view(batches@);
    let ghost pv = crate::plan::placed(e@, conflict_view(conflict));
    let info = SystemInfo { name: e.name, type_id: e.type_id, borrow: e.borrow, conflict };
    let pnew = PlacedSystem { index: e.index, info };
    proof {
        assert(pnew@ == pv);
    }
    if slot < batches.len() {
        let mut b = batches.remove(slot);
        b.others.push(pnew);
        let ghost newb = b;
        batches.insert(slot, b);
        proof {
            assert(batches@ =~= old(batches)@.update(slot as int, newb));
            assert(placed_view(newb.others@) =~= bsv[slot as int].others.push(pv));
            assert(newb@ == BatchV {
                main: bsv[slot as int].main,
                others: bsv[slot as int].others.push(pv),
            });
            assert(batches_view(batches@) =~= bsv.update(
                slot as int,
                BatchV { main: bsv[slot as int].main, others: bsv[slot as int].others.push(pv) },
            ));
        }
    } else {
        let mut others: Vec<PlacedSystem> = Vec::new();
        others.push(pnew);
        batches.push(PackBatch { main: None, others });
        proof {
            assert(placed_view(batches@.last().others@) =~= seq![pv]);
            assert(batches@.last()@ == BatchV { main: None, others: seq![pv] });
            assert(batches_view(batches@) =~= bsv.push(BatchV { main: None, others: seq![pv] }));
        }
    }
}

} // verus!
