//! The per-kind slot table behind generational ids.
//!
//! A slot holds the address of a live C object and the generation that
//! ids for it were minted with.  Invalidating a slot clears the address
//! and bumps the generation, so every id minted for the old occupant goes
//! stale.  Live generations start at 1 and never revisit 0, so a
//! generation-0 id can never alias a live entry.  The reverse direction
//! (address to id) is a linear scan.

use vstd::prelude::*;

verus! {

/// Internal representation shared by all id kinds: a slot index and the
/// generation the id was minted with.
#[derive(Clone, Copy, PartialEq, Eq, Structural, Debug, Hash, PartialOrd, Ord)]
pub struct RawId {
    pub slot: u32,
    pub generation: u32,
}

/// One slot: the address of the registered object (`None` when the slot
/// is free) and the slot's current generation.
#[derive(Clone, Copy, PartialEq, Eq, Structural, Debug)]
pub struct Slot {
    pub ptr: Option<usize>,
    pub generation: u32,
}

/// The mathematical model of a table: its slots, and the stack of free
/// slot indices (the last one is recycled first).
pub ghost struct TableModel {
    pub slots: Seq<Slot>,
    pub free: Seq<u32>,
}

/// The generation a slot takes when its occupant is invalidated: one
/// more, except that the wrap skips 0.
pub open spec fn next_generation(g: u32) -> u32 {
    if g == u32::MAX {
        1
    } else {
        (g + 1) as u32
    }
}

/// What every reachable table satisfies.
pub open spec fn table_wf(m: TableModel) -> bool {
    &&& m.slots.len() <= u32::MAX + 1
    &&& forall|i: int| 0 <= i < m.slots.len() ==> #[trigger] m.slots[i].generation != 0
    &&& forall|k: int|
        0 <= k < m.free.len() ==> {
            &&& #[trigger] m.free[k] < m.slots.len()
            &&& m.slots[m.free[k] as int].ptr is None
        }
    &&& forall|j: int, k: int| 0 <= j < k < m.free.len() ==> m.free[j] != m.free[k]
}

/// The address an id resolves to: `None` when the slot does not exist,
/// the generation differs, or the slot is free.
pub open spec fn resolve_in(m: TableModel, id: RawId) -> Option<usize> {
    if id.slot < m.slots.len() && m.slots[id.slot as int].generation == id.generation {
        m.slots[id.slot as int].ptr
    } else {
        None
    }
}

/// Registration: reuse the most recently freed slot, or append a fresh
/// slot at generation 1.
pub open spec fn insert_in(m: TableModel, ptr: usize) -> (TableModel, RawId) {
    if m.free.len() > 0 {
        let slot = m.free.last();
        let g = m.slots[slot as int].generation;
        (
            TableModel {
                slots: m.slots.update(slot as int, Slot { ptr: Some(ptr), generation: g }),
                free: m.free.drop_last(),
            },
            RawId { slot, generation: g },
        )
    } else {
        (
            TableModel {
                slots: m.slots.push(Slot { ptr: Some(ptr), generation: 1 }),
                free: m.free,
            },
            RawId { slot: m.slots.len() as u32, generation: 1 },
        )
    }
}

/// The first slot at or after `from` that holds `ptr`.
pub open spec fn find_holder(s: Seq<Slot>, ptr: usize, from: int) -> Option<int>
    decreases s.len() - from,
{
    if from < 0 || from >= s.len() {
        None
    } else if s[from].ptr == Some(ptr) {
        Some(from)
    } else {
        find_holder(s, ptr, from + 1)
    }
}

/// Invalidation of the first slot holding `ptr`: the slot is freed, its
/// generation bumped, and the staled id (old generation) returned.  No
/// holder: nothing changes.
pub open spec fn invalidate_in(m: TableModel, ptr: usize) -> (TableModel, Option<RawId>) {
    match find_holder(m.slots, ptr, 0) {
        None => (m, None),
        Some(i) => {
            let g = m.slots[i].generation;
            (
                TableModel {
                    slots: m.slots.update(i, Slot { ptr: None, generation: next_generation(g) }),
                    free: m.free.push(i as u32),
                },
                Some(RawId { slot: i as u32, generation: g }),
            )
        },
    }
}

/// The id of the first slot holding `ptr`, with its current generation.
pub open spec fn id_of_in(m: TableModel, ptr: usize) -> Option<RawId> {
    match find_holder(m.slots, ptr, 0) {
        None => None,
        Some(i) => Some(RawId { slot: i as u32, generation: m.slots[i].generation }),
    }
}

/// The ids of all occupied slots, in slot order.
pub open spec fn live_ids_in(s: Seq<Slot>) -> Seq<RawId>
    decreases s.len(),
{
    if s.len() == 0 {
        Seq::empty()
    } else {
        let rest = live_ids_in(s.drop_last());
        if s.last().ptr is Some {
            rest.push(RawId { slot: (s.len() - 1) as u32, generation: s.last().generation })
        } else {
            rest
        }
    }
}

/// One table per object kind.
pub struct SlotTable {
    slots: Vec<Slot>,
    free: Vec<u32>,
}

impl View for SlotTable {
    type V = TableModel;

    closed spec fn view(&self) -> TableModel {
        TableModel { slots: self.slots@, free: self.free@ }
    }
}

pub proof fn lemma_find_holder_bounds(s: Seq<Slot>, ptr: usize, from: int)
    requires
        0 <= from,
    ensures
        find_holder(s, ptr, from) matches Some(i) ==> {
            &&& from <= i < s.len()
            &&& 0 <= i
            &&& s[i].ptr == Some(ptr)
            &&& forall|j: int| from <= j < i ==> s[j].ptr != Some(ptr)
        },
        find_holder(s, ptr, from) is None ==> forall|j: int|
            from <= j < s.len() ==> s[j].ptr != Some(ptr),
    decreases s.len() - from,
{
    if from < 0 || from >= s.len() {
    } else if s[from].ptr == Some(ptr) {
    } else {
        lemma_find_holder_bounds(s, ptr, from + 1);
    }
}

impl SlotTable {
    /// An empty table.
    pub fn new() -> (t: SlotTable)
        ensures
            t@.slots.len() == 0,
            t@.free.len() == 0,
            table_wf(t@),
    {
        SlotTable { slots: Vec::new(), free: Vec::new() }
    }

    /// Register a live object; returns the id all cross-references use.
    /// Fails only when the table already has 2^32 slots and none is free.
    pub fn insert(&mut self, ptr: usize) -> (id: RawId)
        requires
            table_wf(old(self)@),
            old(self)@.free.len() > 0 || old(self)@.slots.len() <= u32::MAX,
        ensures
            (final(self)@, id) == insert_in(old(self)@, ptr),
            table_wf(final(self)@),
    {
        if let Some(slot) = self.free.pop() {
            let g = self.slots[slot as usize].generation;
            self.slots.set(slot as usize, Slot { ptr: Some(ptr), generation: g });
            let ghost m = old(self)@;
            assert(m.free.last() == slot);
            assert forall|j: int, k: int| 0 <= j < k < self.free@.len() implies self.free@[j]
                != self.free@[k] by {
                assert(m.free[j] != m.free[k]);
            }
            assert forall|k: int| 0 <= k < self.free@.len() implies {
                &&& #[trigger] self.free@[k] < self.slots@.len()
                &&& self.slots@[self.free@[k] as int].ptr is None
            } by {
                assert(m.free[k] != m.free[m.free.len() - 1]);
                assert(m.free[k] == self.free@[k]);
            }
            RawId { slot, generation: g }
        } else {
            let slot = self.slots.len() as u32;
            self.slots.push(Slot { ptr: Some(ptr), generation: 1 });
            RawId { slot, generation: 1 }
        }
    }

    /// Resolve an id to the live address, or `None` if the object died
    /// (or the slot was recycled for a new object).
    pub fn resolve(&self, id: RawId) -> (r: Option<usize>)
        ensures
            r == resolve_in(self@, id),
    {
        if (id.slot as usize) >= self.slots.len() {
            return None;
        }
        let s = self.slots[id.slot as usize];
        if s.generation != id.generation {
            return None;
        }
        s.ptr
    }

    /// Position of the first slot holding `ptr`.
    fn position_of(&self, ptr: usize) -> (r: Option<usize>)
        ensures
            r matches Some(i) ==> find_holder(self@.slots, ptr, 0) == Some(i as int),
            r is None ==> find_holder(self@.slots, ptr, 0) is None,
    {
        let mut i: usize = 0;
        while i < self.slots.len()
            invariant
                i <= self.slots@.len(),
                find_holder(self@.slots, ptr, 0) == find_holder(self@.slots, ptr, i as int),
            decreases self.slots@.len() - i,
        {
            if self.slots[i].ptr == Some(ptr) {
                return Some(i);
            }
            i += 1;
        }
        None
    }

    /// Invalidate the slot holding `ptr`.  Returns the staled id so the
    /// caller can build the deferred event; a miss is a no-op.
    pub fn invalidate_ptr(&mut self, ptr: usize) -> (r: Option<RawId>)
        requires
            table_wf(old(self)@),
        ensures
            (final(self)@, r) == invalidate_in(old(self)@, ptr),
            table_wf(final(self)@),
    {
        let ghost m = self@;
        proof {
            lemma_find_holder_bounds(m.slots, ptr, 0);
        }
        match self.position_of(ptr) {
            None => None,
            Some(idx) => {
                let g = self.slots[idx].generation;
                let ng = if g == u32::MAX {
                    1
                } else {
                    g + 1
                };
                self.slots.set(idx, Slot { ptr: None, generation: ng });
                self.free.push(idx as u32);
                let staled = RawId { slot: idx as u32, generation: g };
                assert forall|k: int| 0 <= k < self.free@.len() implies {
                    &&& #[trigger] self.free@[k] < self.slots@.len()
                    &&& self.slots@[self.free@[k] as int].ptr is None
                } by {
                    if k < m.free.len() {
                        assert(m.free[k] == self.free@[k]);
                    }
                }
                assert forall|j: int, k: int| 0 <= j < k < self.free@.len() implies self.free@[j]
                    != self.free@[k] by {
                    if k == m.free.len() {
                        assert(m.slots[m.free[j] as int].ptr is None);
                    } else {
                        assert(m.free[j] != m.free[k]);
                    }
                }
                assert(self@.slots =~= invalidate_in(m, ptr).0.slots);
                assert(self@.free =~= invalidate_in(m, ptr).0.free);
                Some(staled)
            },
        }
    }

    /// Address to id for a live object.
    pub fn id_of(&self, ptr: usize) -> (r: Option<RawId>)
        requires
            table_wf(self@),
        ensures
            r == id_of_in(self@, ptr),
    {
        proof {
            lemma_find_holder_bounds(self@.slots, ptr, 0);
        }
        match self.position_of(ptr) {
            None => None,
            Some(i) => Some(RawId { slot: i as u32, generation: self.slots[i].generation }),
        }
    }

    /// Snapshot of all live ids, in slot order.
    pub fn live_ids(&self) -> (r: Vec<RawId>)
        requires
            table_wf(self@),
        ensures
            r@ == live_ids_in(self@.slots),
    {
        let mut out: Vec<RawId> = Vec::new();
        let mut i: usize = 0;
        while i < self.slots.len()
            invariant
                i <= self.slots@.len(),
                self.slots@.len() <= u32::MAX + 1,
                out@ == live_ids_in(self.slots@.take(i as int)),
            decreases self.slots@.len() - i,
        {
            let s = self.slots[i];
            assert(self.slots@.take(i + 1).drop_last() =~= self.slots@.take(i as int));
            if s.ptr.is_some() {
                out.push(RawId { slot: i as u32, generation: s.generation });
            }
            i += 1;
        }
        assert(self.slots@.take(i as int) =~= self.slots@);
        out
    }
}

/// A freshly registered object resolves through the id it was given.
pub proof fn law_insert_then_resolve(m: TableModel, ptr: usize)
    requires
        table_wf(m),
        m.free.len() > 0 || m.slots.len() <= u32::MAX,
    ensures
        resolve_in(insert_in(m, ptr).0, insert_in(m, ptr).1) == Some(ptr),
        insert_in(m, ptr).1.generation != 0,
{
    if m.free.len() > 0 {
        assert(m.free[m.free.len() - 1] < m.slots.len());
    }
}

/// A registration changes the resolution of no other id: every id but
/// the one returned resolves exactly as before.
pub proof fn law_insert_keeps_other_ids(m: TableModel, ptr: usize, x: RawId)
    requires
        table_wf(m),
        m.free.len() > 0 || m.slots.len() <= u32::MAX,
        x != insert_in(m, ptr).1,
    ensures
        resolve_in(insert_in(m, ptr).0, x) == resolve_in(m, x),
{
    if m.free.len() > 0 {
        assert(m.free[m.free.len() - 1] < m.slots.len());
    }
}

/// Once the holder of an address is invalidated, the staled id, and every
/// other id that resolved to that address in that slot, resolves to
/// nothing.
pub proof fn law_invalidate_stales(m: TableModel, ptr: usize, x: RawId)
    requires
        table_wf(m),
        invalidate_in(m, ptr).1 is Some,
    ensures
        resolve_in(invalidate_in(m, ptr).0, invalidate_in(m, ptr).1->0) is None,
        resolve_in(m, x) == Some(ptr) && x.slot == invalidate_in(m, ptr).1->0.slot ==> resolve_in(
            invalidate_in(m, ptr).0,
            x,
        ) is None,
        table_wf(invalidate_in(m, ptr).0),
{
    lemma_find_holder_bounds(m.slots, ptr, 0);
}

/// A recycled slot never resurrects the id of its previous occupant: the
/// object registered after an invalidation gets a different id, and the
/// old id keeps resolving to nothing.
pub proof fn law_recycled_slot_gets_new_id(m: TableModel, old_ptr: usize, new_ptr: usize)
    requires
        table_wf(m),
        invalidate_in(m, old_ptr).1 is Some,
    ensures
        ({
            let (m1, staled) = invalidate_in(m, old_ptr);
            let (m2, fresh) = insert_in(m1, new_ptr);
            &&& fresh != staled->0
            &&& resolve_in(m2, staled->0) is None
            &&& resolve_in(m2, fresh) == Some(new_ptr)
        }),
{
    lemma_find_holder_bounds(m.slots, old_ptr, 0);
    let (m1, staled) = invalidate_in(m, old_ptr);
    assert(table_wf(m1)) by {
        let i = find_holder(m.slots, old_ptr, 0)->0;
        assert forall|k: int| 0 <= k < m1.free.len() implies {
            &&& #[trigger] m1.free[k] < m1.slots.len()
            &&& m1.slots[m1.free[k] as int].ptr is None
        } by {
            if k < m.free.len() {
                assert(m.free[k] == m1.free[k]);
            }
        }
        assert forall|j: int, k: int| 0 <= j < k < m1.free.len() implies m1.free[j]
            != m1.free[k] by {
            if k == m.free.len() {
                assert(m.slots[m.free[j] as int].ptr is None);
            } else {
                assert(m.free[j] != m.free[k]);
            }
        }
    }
    assert(m1.free.last() == staled->0.slot);
}

/// Generation 0 is never live: a zeroed or forged id resolves to nothing.
pub proof fn law_generation_zero_never_live(m: TableModel, slot: u32)
    requires
        table_wf(m),
    ensures
        resolve_in(m, RawId { slot, generation: 0 }) is None,
{
}

/// Invalidating an address no slot holds changes nothing.
pub proof fn law_invalidate_unknown_is_noop(m: TableModel, ptr: usize)
    requires
        forall|i: int| 0 <= i < m.slots.len() ==> m.slots[i].ptr != Some(ptr),
    ensures
        invalidate_in(m, ptr) == (m, None::<RawId>),
{
    lemma_find_holder_bounds(m.slots, ptr, 0);
}

/// The reverse lookup agrees with resolution.
pub proof fn law_id_of_resolves(m: TableModel, ptr: usize)
    requires
        table_wf(m),
        id_of_in(m, ptr) is Some,
    ensures
        resolve_in(m, id_of_in(m, ptr)->0) == Some(ptr),
{
    lemma_find_holder_bounds(m.slots, ptr, 0);
}

/// One registry operation: register an address, or invalidate it.
#[derive(Clone, Copy, PartialEq, Eq, Structural, Debug)]
pub enum TableOp {
    Insert(usize),
    Invalidate(usize),
}

/// The table after `ops`, in order, and the ids the insertions returned.
pub open spec fn run_ops(m: TableModel, ops: Seq<TableOp>) -> (TableModel, Seq<RawId>)
    decreases ops.len(),
{
    if ops.len() == 0 {
        (m, Seq::empty())
    } else {
        let (m1, ids) = run_ops(m, ops.drop_last());
        match ops.last() {
            TableOp::Insert(p) => (insert_in(m1, p).0, ids.push(insert_in(m1, p).1)),
            TableOp::Invalidate(p) => (invalidate_in(m1, p).0, ids),
        }
    }
}

/// The run `ops` from `m` is one the table accepts, with no generation
/// wrapping: every insertion finds a free slot or room for a new one (as
/// `SlotTable::insert` requires), and every invalidation hits a slot
/// whose generation is below `u32::MAX`.
pub open spec fn run_ok(m: TableModel, ops: Seq<TableOp>) -> bool
    decreases ops.len(),
{
    if ops.len() == 0 {
        true
    } else {
        let m1 = run_ops(m, ops.drop_last()).0;
        &&& run_ok(m, ops.drop_last())
        &&& match ops.last() {
            TableOp::Insert(_) => m1.free.len() > 0 || m1.slots.len() <= u32::MAX,
            TableOp::Invalidate(p) => match find_holder(m1.slots, p, 0) {
                Some(h) => m1.slots[h].generation < u32::MAX,
                None => true,
            },
        }
    }
}

/// Where the ids issued so far stand against the table: each names an
/// existing slot, at or below its generation, and one at the slot's
/// generation names its current occupant.
pub open spec fn issued_ok(m: TableModel, ids: Seq<RawId>) -> bool {
    forall|k: int|
        0 <= k < ids.len() ==> {
            &&& (#[trigger] ids[k]).slot < m.slots.len()
            &&& ids[k].generation <= m.slots[ids[k].slot as int].generation
            &&& ids[k].generation == m.slots[ids[k].slot as int].generation ==> m.slots[ids[k].slot as int].ptr is Some
        }
}

pub open spec fn all_distinct(ids: Seq<RawId>) -> bool {
    forall|j: int, k: int| 0 <= j < k < ids.len() ==> #[trigger] ids[j] != #[trigger] ids[k]
}

proof fn lemma_insert_wf_le(m: TableModel, ptr: usize)
    requires
        table_wf(m),
        m.free.len() > 0 || m.slots.len() <= u32::MAX,
    ensures
        table_wf(insert_in(m, ptr).0),
{
    let m1 = insert_in(m, ptr).0;
    if m.free.len() > 0 {
        let slot = m.free.last();
        assert forall|k: int| 0 <= k < m1.free.len() implies {
            &&& #[trigger] m1.free[k] < m1.slots.len()
            &&& m1.slots[m1.free[k] as int].ptr is None
        } by {
            assert(m1.free[k] == m.free[k]);
            assert(m.free[k] != m.free[m.free.len() - 1]);
        }
        assert forall|j: int, k: int| 0 <= j < k < m1.free.len() implies m1.free[j] != m1.free[k] by {
            assert(m.free[j] != m.free[k]);
        }
    } else {
        assert forall|k: int| 0 <= k < m1.free.len() implies {
            &&& #[trigger] m1.free[k] < m1.slots.len()
            &&& m1.slots[m1.free[k] as int].ptr is None
        } by {
        }
    }
}

proof fn lemma_run_ops(m: TableModel, ops: Seq<TableOp>)
    requires
        table_wf(m),
        run_ok(m, ops),
    ensures
        table_wf(run_ops(m, ops).0),
        issued_ok(run_ops(m, ops).0, run_ops(m, ops).1),
        all_distinct(run_ops(m, ops).1),
    decreases ops.len(),
{
    if ops.len() > 0 {
        let pre = ops.drop_last();
        lemma_run_ops(m, pre);
        let (m1, ids) = run_ops(m, pre);
        match ops.last() {
            TableOp::Insert(p) => {
                lemma_insert_wf_le(m1, p);
                let (m2, id) = insert_in(m1, p);
                let ids2 = ids.push(id);
                assert(run_ops(m, ops) == (m2, ids2));
                if m1.free.len() > 0 {
                    let slot = m1.free.last();
                    assert(m1.free[m1.free.len() - 1] < m1.slots.len());
                    assert(m1.slots[slot as int].ptr is None);
                    assert forall|k: int| 0 <= k < ids.len() implies ids[k] != id by {
                        if ids[k].slot == slot {
                            assert(ids[k].generation < m1.slots[slot as int].generation);
                        }
                    }
                } else {
                    assert forall|k: int| 0 <= k < ids.len() implies ids[k] != id by {
                        assert(ids[k].slot < m1.slots.len());
                    }
                }
                assert forall|j: int, k: int| 0 <= j < k < ids2.len() implies #[trigger] ids2[j]
                    != #[trigger] ids2[k] by {
                    if k < ids.len() {
                        assert(ids[j] != ids[k]);
                    } else {
                        assert(ids2[k] == id);
                        assert(ids2[j] == ids[j]);
                    }
                }
                assert forall|k: int| 0 <= k < ids2.len() implies {
                    &&& (#[trigger] ids2[k]).slot < m2.slots.len()
                    &&& ids2[k].generation <= m2.slots[ids2[k].slot as int].generation
                    &&& ids2[k].generation == m2.slots[ids2[k].slot as int].generation
                        ==> m2.slots[ids2[k].slot as int].ptr is Some
                } by {
                    if k < ids.len() {
                        assert(ids2[k] == ids[k]);
                        assert(ids[k].slot < m1.slots.len());
                    }
                }
            },
            TableOp::Invalidate(p) => {
                lemma_find_holder_bounds(m1.slots, p, 0);
                let m2 = invalidate_in(m1, p).0;
                assert(run_ops(m, ops) == (m2, ids));
                match find_holder(m1.slots, p, 0) {
                    None => {},
                    Some(h) => {
                        law_invalidate_stales(m1, p, RawId { slot: 0, generation: 0 });
                        assert(next_generation(m1.slots[h].generation) == m1.slots[h].generation + 1);
                        assert forall|k: int| 0 <= k < ids.len() implies {
                            &&& (#[trigger] ids[k]).slot < m2.slots.len()
                            &&& ids[k].generation <= m2.slots[ids[k].slot as int].generation
                            &&& ids[k].generation == m2.slots[ids[k].slot as int].generation
                                ==> m2.slots[ids[k].slot as int].ptr is Some
                        } by {
                            assert(ids[k].slot < m1.slots.len());
                        }
                    },
                }
            },
        }
    }
}

/// An id is never handed out twice: over any run of registrations and
/// invalidations from a well-formed table that the table accepts with
/// no generation wrapping past `u32::MAX`, the ids the registrations
/// return are pairwise different.
pub proof fn law_ids_never_reissued(m: TableModel, ops: Seq<TableOp>)
    requires
        table_wf(m),
        run_ok(m, ops),
    ensures
        forall|j: int, k: int|
            0 <= j < k < run_ops(m, ops).1.len() ==> run_ops(m, ops).1[j] != run_ops(m, ops).1[k],
{
    lemma_run_ops(m, ops);
}

} // verus!
