//! Focus-surface tracking: a surface handed out as a seat's keyboard
//! focus is registered and watched for destruction while anything holds
//! it.  Every hand-out is one acquisition; every release gives one back;
//! the last release unregisters the surface and retires its watch.  A
//! destroyed surface is unregistered at once, whatever it was held by.

use vstd::prelude::*;
use crate::ids::SurfaceId;
use crate::registry::{
    find_holder, id_of_in, insert_in, invalidate_in, lemma_find_holder_bounds, resolve_in, table_wf,
    RawId, SlotTable, TableModel,
};

verus! {

/// The registry, and per slot the acquisitions of its occupant.
pub ghost struct TrackerModel {
    pub table: TableModel,
    pub counts: Seq<u32>,
}

/// Live slots are exactly those held at least once, and no surface is
/// registered twice.
pub open spec fn tracker_wf(m: TrackerModel) -> bool {
    &&& table_wf(m.table)
    &&& m.counts.len() == m.table.slots.len()
    &&& forall|i: int|
        0 <= i < m.counts.len() ==> (#[trigger] m.table.slots[i].ptr is None) == (m.counts[i] == 0)
    &&& forall|i: int, j: int|
        0 <= i < j < m.table.slots.len() && (#[trigger] m.table.slots[i]).ptr is Some ==> m.table.slots[i].ptr
            != (#[trigger] m.table.slots[j]).ptr
}

/// Whether `ptr` can be acquired once more without a counter or the
/// table overflowing.
pub open spec fn can_track(m: TrackerModel, ptr: usize) -> bool {
    match id_of_in(m.table, ptr) {
        Some(id) => m.counts[id.slot as int] < u32::MAX,
        None => m.table.free.len() > 0 || m.table.slots.len() <= u32::MAX,
    }
}

/// An acquisition: a registered surface gains a count; a new one is
/// registered held once.  Also says whether the surface is new (its
/// destruction must then be watched).
pub open spec fn track_spec(m: TrackerModel, ptr: usize) -> (TrackerModel, RawId, bool) {
    match id_of_in(m.table, ptr) {
        Some(id) => (
            TrackerModel {
                counts: m.counts.update(id.slot as int, (m.counts[id.slot as int] + 1) as u32),
                ..m
            },
            id,
            false,
        ),
        None => {
            let (t1, id) = insert_in(m.table, ptr);
            (
                TrackerModel {
                    table: t1,
                    counts: if id.slot < m.counts.len() {
                        m.counts.update(id.slot as int, 1u32)
                    } else {
                        m.counts.push(1u32)
                    },
                },
                id,
                true,
            )
        },
    }
}

/// A release: a stale id changes nothing; a surface held more than once
/// loses a count; the last release unregisters it and gives back its
/// address, whose watch is to be retired.
pub open spec fn untrack_spec(m: TrackerModel, id: RawId) -> (TrackerModel, Option<usize>) {
    match resolve_in(m.table, id) {
        None => (m, None),
        Some(p) => if m.counts[id.slot as int] > 1 {
            (
                TrackerModel {
                    counts: m.counts.update(id.slot as int, (m.counts[id.slot as int] - 1) as u32),
                    ..m
                },
                None,
            )
        } else {
            (
                TrackerModel {
                    table: invalidate_in(m.table, p).0,
                    counts: m.counts.update(id.slot as int, 0u32),
                },
                Some(p),
            )
        },
    }
}

/// A tracked surface was destroyed: it is unregistered whatever held it,
/// and its id is returned for the replacement hunt.
pub open spec fn destroyed_spec(m: TrackerModel, ptr: usize) -> (TrackerModel, Option<RawId>) {
    match id_of_in(m.table, ptr) {
        None => (m, None),
        Some(id) => (
            TrackerModel { table: invalidate_in(m.table, ptr).0, counts: m.counts.update(id.slot as int, 0u32) },
            Some(id),
        ),
    }
}

pub struct Tracker {
    table: SlotTable,
    counts: Vec<u32>,
}

impl View for Tracker {
    type V = TrackerModel;

    closed spec fn view(&self) -> TrackerModel {
        TrackerModel { table: self.table@, counts: self.counts@ }
    }
}

proof fn lemma_holder_is_unique(m: TrackerModel, ptr: usize, i: int)
    requires
        tracker_wf(m),
        0 <= i < m.table.slots.len(),
        m.table.slots[i].ptr == Some(ptr),
    ensures
        find_holder(m.table.slots, ptr, 0) == Some(i),
{
    lemma_find_holder_bounds(m.table.slots, ptr, 0);
    match find_holder(m.table.slots, ptr, 0) {
        Some(k) => {
            if k < i {
                assert(m.table.slots[k].ptr != m.table.slots[i].ptr);
            }
        },
        None => {},
    }
}

proof fn lemma_insert_keeps_wf(m: TrackerModel, ptr: usize)
    requires
        tracker_wf(m),
        id_of_in(m.table, ptr) is None,
        m.table.free.len() > 0 || m.table.slots.len() <= u32::MAX,
    ensures
        tracker_wf(track_spec(m, ptr).0),
{
    lemma_find_holder_bounds(m.table.slots, ptr, 0);
    crate::registry::law_insert_then_resolve(m.table, ptr);
    let (m1, id, _) = track_spec(m, ptr);
    let (t1, _) = insert_in(m.table, ptr);
    if m.table.free.len() > 0 {
        let s = m.table.free.last();
        assert(s < m.table.slots.len());
        assert forall|k: int| 0 <= k < t1.free.len() implies {
            &&& #[trigger] t1.free[k] < t1.slots.len()
            &&& t1.slots[t1.free[k] as int].ptr is None
        } by {
            assert(t1.free[k] == m.table.free[k]);
            assert(m.table.free[k] != m.table.free[m.table.free.len() - 1]);
        }
        assert forall|a: int, b: int| 0 <= a < b < t1.free.len() implies t1.free[a] != t1.free[b] by {
            assert(t1.free[a] == m.table.free[a] && t1.free[b] == m.table.free[b]);
        }
    }
    assert forall|a: int, b: int|
        0 <= a < b < t1.slots.len() && (#[trigger] t1.slots[a]).ptr is Some implies t1.slots[a].ptr
        != (#[trigger] t1.slots[b]).ptr by {
        if a != id.slot as int && b != id.slot as int {
            assert(t1.slots[a] == m.table.slots[a] && t1.slots[b] == m.table.slots[b]);
        } else if a == id.slot as int {
            if b < m.table.slots.len() {
                assert(t1.slots[b] == m.table.slots[b]);
            }
        } else {
            assert(t1.slots[a] == m.table.slots[a]);
        }
    }
    assert forall|i: int| 0 <= i < m1.counts.len() implies (#[trigger] m1.table.slots[i].ptr is None)
        == (m1.counts[i] == 0) by {
        if i != id.slot as int {
            assert(m1.table.slots[i] == m.table.slots[i]);
            assert(m1.counts[i] == m.counts[i]);
        }
    }
}

impl Tracker {
    pub fn new() -> (t: Tracker)
        ensures
            t@.table.slots.len() == 0,
            t@.table.free.len() == 0,
            tracker_wf(t@),
    {
        Tracker { table: SlotTable::new(), counts: Vec::new() }
    }

    /// A seat's focus landed on the surface at `ptr`.  Returns its id and
    /// whether it was newly registered.
    pub fn track(&mut self, ptr: usize) -> (r: (SurfaceId, bool))
        requires
            tracker_wf(old(self)@),
            can_track(old(self)@, ptr),
        ensures
            ({
                let (m1, id, fresh) = track_spec(old(self)@, ptr);
                &&& final(self)@ == m1
                &&& r == (SurfaceId(id), fresh)
            }),
            tracker_wf(final(self)@),
    {
        let ghost m = self@;
        proof {
            lemma_find_holder_bounds(m.table.slots, ptr, 0);
        }
        match self.table.id_of(ptr) {
            Some(id) => {
                let c = self.counts[id.slot as usize];
                self.counts.set(id.slot as usize, c + 1);
                proof {
                    let m1 = self@;
                    assert forall|i: int| 0 <= i < m1.counts.len() implies (#[trigger] m1.table.slots[i].ptr
                        is None) == (m1.counts[i] == 0) by {
                        if i != id.slot as int {
                            assert(m1.counts[i] == m.counts[i]);
                        }
                    }
                }
                (SurfaceId(id), false)
            },
            None => {
                proof {
                    lemma_insert_keeps_wf(m, ptr);
                }
                let id = self.table.insert(ptr);
                if (id.slot as usize) < self.counts.len() {
                    self.counts.set(id.slot as usize, 1);
                } else {
                    self.counts.push(1);
                }
                (SurfaceId(id), true)
            },
        }
    }

    /// One acquisition of `id` is given back.  Returns the address whose
    /// destroy watch is to be retired, on the last release.
    pub fn untrack(&mut self, id: SurfaceId) -> (r: Option<usize>)
        requires
            tracker_wf(old(self)@),
        ensures
            (final(self)@, r) == untrack_spec(old(self)@, id.0),
            tracker_wf(final(self)@),
    {
        let ghost m = self@;
        match self.table.resolve(id.0) {
            None => None,
            Some(p) => {
                let slot = id.0.slot as usize;
                let c = self.counts[slot];
                if c > 1 {
                    self.counts.set(slot, c - 1);
                    proof {
                        let m1 = self@;
                        assert forall|i: int| 0 <= i < m1.counts.len() implies (#[trigger] m1.table.slots[i].ptr
                            is None) == (m1.counts[i] == 0) by {
                            if i != slot as int {
                                assert(m1.counts[i] == m.counts[i]);
                            }
                        }
                    }
                    None
                } else {
                    proof {
                        lemma_holder_is_unique(m, p, slot as int);
                        crate::registry::law_invalidate_stales(m.table, p, id.0);
                    }
                    let _ = self.table.invalidate_ptr(p);
                    self.counts.set(slot, 0);
                    proof {
                        let m1 = self@;
                        assert forall|i: int| 0 <= i < m1.counts.len() implies (#[trigger] m1.table.slots[i].ptr
                            is None) == (m1.counts[i] == 0) by {
                            if i != slot as int {
                                assert(m1.counts[i] == m.counts[i]);
                                assert(m1.table.slots[i] == m.table.slots[i]);
                            }
                        }
                        assert forall|a: int, b: int|
                            0 <= a < b < m1.table.slots.len() && (#[trigger] m1.table.slots[a]).ptr is Some implies m1.table.slots[a].ptr
                            != (#[trigger] m1.table.slots[b]).ptr by {
                            if a != slot as int && b != slot as int {
                                assert(m1.table.slots[a] == m.table.slots[a]);
                                assert(m1.table.slots[b] == m.table.slots[b]);
                            } else if b != slot as int {
                                assert(m1.table.slots[b] == m.table.slots[b]);
                            }
                        }
                    }
                    Some(p)
                }
            },
        }
    }

    /// The surface at `ptr` was destroyed.  Returns its id when it was
    /// tracked.
    pub fn destroyed(&mut self, ptr: usize) -> (r: Option<SurfaceId>)
        requires
            tracker_wf(old(self)@),
        ensures
            ({
                let (m1, id) = destroyed_spec(old(self)@, ptr);
                &&& final(self)@ == m1
                &&& r == match id {
                    Some(i) => Some(SurfaceId(i)),
                    None => None::<SurfaceId>,
                }
            }),
            tracker_wf(final(self)@),
    {
        let ghost m = self@;
        proof {
            lemma_find_holder_bounds(m.table.slots, ptr, 0);
        }
        match self.table.id_of(ptr) {
            None => None,
            Some(id) => {
                let slot = id.slot as usize;
                proof {
                    crate::registry::law_invalidate_stales(m.table, ptr, id);
                }
                let _ = self.table.invalidate_ptr(ptr);
                self.counts.set(slot, 0);
                proof {
                    let m1 = self@;
                    assert forall|i: int| 0 <= i < m1.counts.len() implies (#[trigger] m1.table.slots[i].ptr
                        is None) == (m1.counts[i] == 0) by {
                        if i != slot as int {
                            assert(m1.counts[i] == m.counts[i]);
                            assert(m1.table.slots[i] == m.table.slots[i]);
                        }
                    }
                    assert forall|a: int, b: int|
                        0 <= a < b < m1.table.slots.len() && (#[trigger] m1.table.slots[a]).ptr is Some implies m1.table.slots[a].ptr
                        != (#[trigger] m1.table.slots[b]).ptr by {
                        if a != slot as int && b != slot as int {
                            assert(m1.table.slots[a] == m.table.slots[a]);
                            assert(m1.table.slots[b] == m.table.slots[b]);
                        } else if b != slot as int {
                            assert(m1.table.slots[b] == m.table.slots[b]);
                        }
                    }
                }
                Some(SurfaceId(id))
            },
        }
    }

    /// The address a tracked id stands for, while it is registered.
    pub fn resolve(&self, id: SurfaceId) -> (r: Option<usize>)
        ensures
            r == resolve_in(self@.table, id.0),
    {
        self.table.resolve(id.0)
    }
}

/// An acquisition followed by its release: a surface that was already
/// held is back where it was; a surface acquired for the first time is
/// unregistered again, its id goes stale, and its watch is retired.
pub proof fn law_release_balances_acquire(m: TrackerModel, ptr: usize)
    requires
        tracker_wf(m),
        can_track(m, ptr),
    ensures
        ({
            let (m1, id, fresh) = track_spec(m, ptr);
            let (m2, released) = untrack_spec(m1, id);
            &&& fresh ==> released == Some(ptr) && id_of_in(m2.table, ptr) is None && resolve_in(m2.table, id) is None
            &&& !fresh ==> released is None && m2 == m
        }),
{
    lemma_find_holder_bounds(m.table.slots, ptr, 0);
    let (m1, id, fresh) = track_spec(m, ptr);
    if fresh {
        lemma_insert_keeps_wf(m, ptr);
        crate::registry::law_insert_then_resolve(m.table, ptr);
        assert(resolve_in(m1.table, id) == Some(ptr));
        assert(m1.counts[id.slot as int] == 1);
        lemma_holder_is_unique(m1, ptr, id.slot as int);
        crate::registry::law_invalidate_stales(m1.table, ptr, id);
        let (m2, released) = untrack_spec(m1, id);
        lemma_find_holder_bounds(m2.table.slots, ptr, 0);
        assert forall|j: int| 0 <= j < m2.table.slots.len() implies m2.table.slots[j].ptr != Some(ptr) by {
            if j != id.slot as int {
                assert(m2.table.slots[j] == m1.table.slots[j]);
                assert(m1.table.slots[j].ptr != m1.table.slots[id.slot as int].ptr || m1.table.slots[j].ptr
                    is None);
            }
        }
    } else {
        crate::registry::law_id_of_resolves(m.table, ptr);
        let (m2, released) = untrack_spec(m1, id);
        assert(m2.counts =~= m.counts);
    }
}

/// Acquisitions, releases and destruction keep the tracker well formed;
/// a destroyed surface is no longer registered.
pub proof fn law_tracking_keeps_wf(m: TrackerModel, ptr: usize, id: RawId)
    requires
        tracker_wf(m),
    ensures
        can_track(m, ptr) ==> tracker_wf(track_spec(m, ptr).0),
        id_of_in(destroyed_spec(m, ptr).0.table, ptr) is None,
{
    lemma_find_holder_bounds(m.table.slots, ptr, 0);
    if can_track(m, ptr) {
        if id_of_in(m.table, ptr) is None {
            lemma_insert_keeps_wf(m, ptr);
        } else {
            let m1 = track_spec(m, ptr).0;
            let i = id_of_in(m.table, ptr)->0.slot as int;
            assert forall|k: int| 0 <= k < m1.counts.len() implies (#[trigger] m1.table.slots[k].ptr is None)
                == (m1.counts[k] == 0) by {
                if k != i {
                    assert(m1.counts[k] == m.counts[k]);
                }
            }
        }
    }
    match id_of_in(m.table, ptr) {
        None => {},
        Some(x) => {
            lemma_holder_is_unique(m, ptr, x.slot as int);
            let t1 = invalidate_in(m.table, ptr).0;
            lemma_find_holder_bounds(t1.slots, ptr, 0);
            assert forall|j: int| 0 <= j < t1.slots.len() implies t1.slots[j].ptr != Some(ptr) by {
                if j != x.slot as int {
                    assert(t1.slots[j] == m.table.slots[j]);
                    assert(m.table.slots[j].ptr != m.table.slots[x.slot as int].ptr || m.table.slots[j].ptr
                        is None);
                }
            }
        }
    }
}

} // verus!
