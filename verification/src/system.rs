//! Work units: what a workload is built from.
//!
//! A workload is an ordered list of work units.  A unit is a self-contained
//! system record, a whole inline workload, or a reference by label to a
//! workload that is already registered.  For the flattener only the ordered
//! *leaves* of this tree matter, so the mathematical image of a unit is its
//! leaf sequence.

use vstd::prelude::*;

use crate::ids::TypeId;
use crate::info::TypeInfo;
use crate::info::TypeInfoV;
use crate::packing::infos_view;

verus! {

/// An inline workload: an ordered list of work units.
pub struct Workload {
    /// The units, in declared order.
    pub work_units: Vec<WorkUnit>,
}

/// A self-contained system, or a whole workload used as one unit.
pub enum WorkloadSystem {
    /// One system: its identity, its diagnostic name, and the borrows its
    /// runner will take.  The borrow list must completely describe what the
    /// runner touches; the plan is sound only if it does.
    System {
        /// Stable identity of the system function.
        system_type_id: TypeId,
        /// Diagnostic name of the system.
        system_type_name: &'static str,
        /// The borrows the system's runner takes.
        borrow_constraints: Vec<TypeInfo>,
    },
    /// A whole workload inlined as one unit.
    Workload(Workload),
}

/// One entry of a workload under construction.
pub enum WorkUnit {
    /// A system, or an inline workload.
    System(WorkloadSystem),
    /// A reference to an already-registered workload.
    WorkloadName(String),
}

/// The mathematical image of a system record.
pub struct SysRecV {
    pub type_id: TypeId,
    pub name: Seq<char>,
    pub borrow: Seq<TypeInfoV>,
}

/// A leaf of the work-unit tree: a system record, or a workload reference.
pub enum LeafV {
    System(SysRecV),
    Name(Seq<char>),
}

/// The leaves of one work unit, in declared order.
pub open spec fn unit_leaves(u: WorkUnit) -> Seq<LeafV>
    decreases u,
{
    match u {
        WorkUnit::System(ws) => system_leaves(ws),
        WorkUnit::WorkloadName(l) => seq![LeafV::Name(l@)],
    }
}

/// The leaves of a system unit: itself, or the leaves of the inline
/// workload.
pub open spec fn system_leaves(ws: WorkloadSystem) -> Seq<LeafV>
    decreases ws,
{
    match ws {
        WorkloadSystem::System { system_type_id, system_type_name, borrow_constraints } => seq![
            LeafV::System(
                SysRecV {
                    type_id: system_type_id,
                    name: system_type_name@,
                    borrow: infos_view(borrow_constraints@),
                },
            ),
        ],
        WorkloadSystem::Workload(w) => units_leaves(w.work_units@),
    }
}

/// The leaves of a unit list, concatenated in order.
pub open spec fn units_leaves(us: Seq<WorkUnit>) -> Seq<LeafV>
    decreases us,
{
    if us.len() == 0 {
        seq![]
    } else {
        unit_leaves(us[0]) + units_leaves(us.skip(1))
    }
}

/// Splitting a unit list splits its leaves.
pub proof fn lemma_units_leaves_concat(a: Seq<WorkUnit>, b: Seq<WorkUnit>)
    ensures
        units_leaves(a + b) == units_leaves(a) + units_leaves(b),
    decreases a.len(),
{
    if a.len() == 0 {
        assert(a + b =~= b);
        assert(units_leaves(a) + units_leaves(b) =~= units_leaves(b));
    } else {
        assert((a + b)[0] == a[0]);
        assert((a + b).skip(1) =~= a.skip(1) + b);
        lemma_units_leaves_concat(a.skip(1), b);
        assert(unit_leaves(a[0]) + (units_leaves(a.skip(1)) + units_leaves(b)) =~= (unit_leaves(
            a[0],
        ) + units_leaves(a.skip(1))) + units_leaves(b));
    }
}

/// The leaves of a list grown by one unit.
pub proof fn lemma_units_leaves_push(us: Seq<WorkUnit>, u: WorkUnit)
    ensures
        units_leaves(us.push(u)) == units_leaves(us) + unit_leaves(u),
{
    assert(us.push(u) =~= us + seq![u]);
    lemma_units_leaves_concat(us, seq![u]);
    assert(seq![u].skip(1) =~= Seq::<WorkUnit>::empty());
    assert(seq![u][0] == u);
    assert(units_leaves(seq![u]) == unit_leaves(u) + units_leaves(seq![u].skip(1)));
    assert(unit_leaves(u) + units_leaves(seq![u].skip(1)) =~= unit_leaves(u));
    assert(units_leaves(us) + units_leaves(seq![u]) =~= units_leaves(us) + unit_leaves(u));
}

impl WorkloadSystem {
    /// A system record: its identity, its diagnostic name and the borrows
    /// its runner takes.
    pub fn new(
        system_type_id: TypeId,
        system_type_name: &'static str,
        borrow_constraints: Vec<TypeInfo>,
    ) -> (r: WorkloadSystem)
        ensures
            system_leaves(r) == seq![
                LeafV::System(
                    SysRecV {
                        type_id: system_type_id,
                        name: system_type_name@,
                        borrow: infos_view(borrow_constraints@),
                    },
                ),
            ],
    {
        WorkloadSystem::System { system_type_id, system_type_name, borrow_constraints }
    }
}

} // verus!
