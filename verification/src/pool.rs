//! The shared system pool.
//!
//! Every system that any workload of a registry mentions lives in one pool,
//! entered once and never removed; workloads refer to systems by pool slot.
//! Deduplication is by the system's type token, through a hash table.

use vstd::prelude::*;

use crate::ids::TypeId;
use crate::info::TypeInfo;
use crate::info::TypeInfoV;
use crate::lookup::TypeIdMap;
use crate::lookup::type_id_map_of;
use crate::packing::infos_view;
use crate::system::SysRecV;

verus! {

/// The pool: for each entered system its diagnostic name, its type token,
/// and the borrow list its record generates, plus the deduplication table.
pub struct SystemPool {
    /// Diagnostic names, by slot.
    pub system_names: Vec<&'static str>,
    /// Type tokens, by slot.
    pub system_type_ids: Vec<TypeId>,
    /// The borrows each system's record generates, by slot; consulted when
    /// a registered workload is expanded again under a new label.
    pub system_generators: Vec<Vec<TypeInfo>>,
    /// Type token to slot.
    pub lookup_table: TypeIdMap,
}

/// Mathematical image of the pool.
#[verifier::ext_equal]
pub struct PoolV {
    pub names: Seq<Seq<char>>,
    pub type_ids: Seq<TypeId>,
    pub borrows: Seq<Seq<TypeInfoV>>,
    pub lookup: Map<u64, int>,
}

/// A slot table, with its slots as unbounded integers.
pub open spec fn slots_as_int(m: Map<u64, usize>) -> Map<u64, int> {
    Map::new(|k: u64| m.contains_key(k), |k: u64| m[k] as int)
}

impl View for SystemPool {
    type V = PoolV;

    open spec fn view(&self) -> PoolV {
        PoolV {
            names: self.system_names@.map_values(|n: &'static str| n@),
            type_ids: self.system_type_ids@,
            borrows: self.system_generators@.map_values(|v: Vec<TypeInfo>| infos_view(v@)),
            lookup: slots_as_int(type_id_map_of(self.lookup_table)),
        }
    }
}

/// Well-formedness of the pool: the three columns have one row per system,
/// and the lookup table is exactly the inverse of the token column.
pub open spec fn pool_wf(p: PoolV) -> bool {
    &&& p.names.len() == p.type_ids.len()
    &&& p.borrows.len() == p.type_ids.len()
    &&& forall|i: int|
        0 <= i < p.type_ids.len() ==> p.lookup.contains_key((#[trigger] p.type_ids[i]).id)
            && p.lookup[p.type_ids[i].id] == i
    &&& forall|k: u64|
        p.lookup.contains_key(k) ==> 0 <= (#[trigger] p.lookup[k]) < p.type_ids.len()
            && p.type_ids[p.lookup[k]].id == k
}

/// What entering one system record does: an already-known token reuses its
/// slot and leaves the pool unchanged; a new token appends a row.
pub open spec fn pool_insert_spec(p: PoolV, rec: SysRecV) -> (PoolV, int) {
    if p.lookup.contains_key(rec.type_id.id) {
        (p, p.lookup[rec.type_id.id])
    } else {
        (
            PoolV {
                names: p.names.push(rec.name),
                type_ids: p.type_ids.push(rec.type_id),
                borrows: p.borrows.push(rec.borrow),
                lookup: p.lookup.insert(rec.type_id.id, p.type_ids.len() as int),
            },
            p.type_ids.len() as int,
        )
    }
}

impl SystemPool {
    /// An empty pool.
    pub fn new() -> (r: SystemPool)
        ensures
            r@.names.len() == 0,
            r@.type_ids.len() == 0,
            r@.borrows.len() == 0,
            r@.lookup =~= Map::<u64, int>::empty(),
            pool_wf(r@),
    {
        SystemPool {
            system_names: Vec::new(),
            system_type_ids: Vec::new(),
            system_generators: Vec::new(),
            lookup_table: TypeIdMap::new(),
        }
    }

    /// How many systems have been entered.
    pub fn len(&self) -> (r: usize)
        ensures
            r == self@.type_ids.len(),
    {
        self.system_type_ids.len()
    }

    /// Enters one system record, deduplicating by type token, and returns
    /// its slot.
    pub fn insert(&mut self, type_id: TypeId, name: &'static str, borrows: Vec<TypeInfo>) -> (idx:
        usize)
        requires
            pool_wf(old(self)@),
        ensures
            pool_wf(final(self)@),
            ({
                let rec = SysRecV { type_id, name: name@, borrow: infos_view(borrows@) };
                let (np, ni) = pool_insert_spec(old(self)@, rec);
                final(self)@ == np && idx as int == ni
            }),
    {
        let ghost rec = SysRecV { type_id, name: name@, borrow: infos_view(borrows@) };
        match self.lookup_table.get(type_id.id) {
            Some(i) => {
                proof {
                    assert(self@.lookup.contains_key(type_id.id));
                    assert(self@.lookup[type_id.id] == i as int);
                }
                i
            },
            None => {
                proof {
                    assert(!self@.lookup.contains_key(type_id.id));
                }
                let idx = self.system_type_ids.len();
                self.system_names.push(name);
                self.system_type_ids.push(type_id);
                self.system_generators.push(borrows);
                self.lookup_table.insert(type_id.id, idx);
                proof {
                    assert(self@.lookup =~= old(self)@.lookup.insert(type_id.id, idx as int));
                    assert(self@.names =~= old(self)@.names.push(name@));
                    assert(self@.borrows =~= old(self)@.borrows.push(infos_view(borrows@)));
                    assert forall|i: int|
                        0 <= i < self@.type_ids.len() implies self@.lookup.contains_key(
                        (#[trigger] self@.type_ids[i]).id,
                    ) && self@.lookup[self@.type_ids[i].id] == i by {
                        if i < old(self)@.type_ids.len() {
                            assert(old(self)@.lookup.contains_key(old(self)@.type_ids[i].id));
                            assert(self@.type_ids[i] == old(self)@.type_ids[i]);
                            assert(old(self)@.type_ids[i].id != type_id.id);
                        }
                    }
                    assert forall|k: u64| self@.lookup.contains_key(k) implies 0 <= (
                    #[trigger] self@.lookup[k]) < self@.type_ids.len()
                        && self@.type_ids[self@.lookup[k]].id == k by {
                        if k == type_id.id {
                            assert(self@.lookup[k] == idx);
                            assert(self@.type_ids[idx as int] == type_id);
                        } else {
                            assert(old(self)@.lookup.contains_key(k));
                            assert(old(self)@.lookup[k] < old(self)@.type_ids.len());
                            assert(self@.type_ids[old(self)@.lookup[k]] == old(
                                self,
                            )@.type_ids[old(self)@.lookup[k]]);
                        }
                    }
                }
                idx
            },
        }
    }

    /// Pool slots never hold two entries for one type token.
    pub proof fn lemma_entries_distinct(p: PoolV, i: int, j: int)
        requires
            pool_wf(p),
            0 <= i < p.type_ids.len(),
            0 <= j < p.type_ids.len(),
            p.type_ids[i] == p.type_ids[j],
        ensures
            i == j,
    {
    }
}

} // verus!
