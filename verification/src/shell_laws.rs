//! What every shell transition keeps: sorted unique surfaces, parent
//! links that agree with the parent fields, unique seat and focus
//! entries, focused surfaces that exist, and focus counts that match the
//! seats holding each surface.

use vstd::prelude::*;
use crate::ids::{raw_lt, DesktopSurfaceId, SeatId, SurfaceId};
use crate::shell::{
    ChildLink, redirect, last_mapped_child, stack_part, leftovers, shutdown_order, same_shape, seat_created_spec, seat_gone_spec, forget_focus_spec, seat_index,
    lemma_seat_index, lemma_focus_index, focus_index, ensure_seat, prev_focus, release_step,
    gain_step, record_step, focus_update_spec, change_count_spec, lemma_change_count_shape,
    lemma_same_shape_trans, record_size_spec, cleared, remove_surface_spec, unparented, drop_link, drop_parent, set_parent_spec,
    add_surface_spec, cleared_seats, fresh_record, insert_pos_from, known, lemma_insert_pos,
    lemma_surf_index, parent_of, surf_index, surf_index_from, has_link, SeatState, ShellModel,
    SurfRecord, activation_effect, focus_calls,
};
use crate::host::{ActivateFlags, ActivateTarget, HostCall};

verus! {

pub open spec fn uniq_children(l: Seq<ChildLink>) -> bool {
    forall|j: int, k: int| 0 <= j < k < l.len() ==> l[j].child != l[k].child
}

pub open spec fn ids_sorted(s: Seq<SurfRecord>) -> bool {
    forall|i: int, j: int| 0 <= i < j < s.len() ==> raw_lt(s[i].id.0, s[j].id.0)
}

/// The structural invariant of the shell bookkeeping.
pub open spec fn shell_wf(m: ShellModel) -> bool {
    &&& ids_sorted(m.surfaces)
    &&& forall|x: ChildLink|
        #[trigger] m.links.contains(x) ==> known(m, x.parent) && parent_of(m, x.child) == Some(
            x.parent,
        )
    &&& uniq_children(m.links)
    &&& forall|i: int|
        0 <= i < m.surfaces.len() ==> (#[trigger] m.surfaces[i].parent matches Some(p) ==> has_link(
            m.links,
            p,
            m.surfaces[i].id,
        ))
    &&& forall|j: int, k: int| 0 <= j < k < m.seats.len() ==> m.seats[j].seat != m.seats[k].seat
    &&& forall|j: int, k: int| 0 <= j < k < m.focus.len() ==> m.focus[j].seat != m.focus[k].seat
    &&& forall|k: int|
        0 <= k < m.seats.len() ==> (#[trigger] m.seats[k].focused_surface matches Some(f) ==> known(
            m,
            f,
        ))
}

/// How many seats hold `id` as their focused surface.
pub open spec fn seat_focus_count(s: Seq<SeatState>, id: DesktopSurfaceId) -> int
    decreases s.len(),
{
    if s.len() == 0 {
        0
    } else {
        seat_focus_count(s.drop_last(), id) + if s.last().focused_surface == Some(id) {
            1int
        } else {
            0int
        }
    }
}

/// Every surface's focus count is the number of seats focused on it.
pub open spec fn counts_match(m: ShellModel) -> bool {
    forall|i: int|
        0 <= i < m.surfaces.len() ==> #[trigger] m.surfaces[i].focus_count == seat_focus_count(
            m.seats,
            m.surfaces[i].id,
        )
}

pub open spec fn holds(st: SeatState, id: DesktopSurfaceId) -> int {
    if st.focused_surface == Some(id) {
        1
    } else {
        0
    }
}

proof fn lemma_count_update(s: Seq<SeatState>, k: int, v: SeatState, id: DesktopSurfaceId)
    requires
        0 <= k < s.len(),
    ensures
        seat_focus_count(s.update(k, v), id) == seat_focus_count(s, id) - holds(s[k], id) + holds(
            v,
            id,
        ),
    decreases s.len(),
{
    let u = s.update(k, v);
    if k == s.len() - 1 {
        assert(u.drop_last() =~= s.drop_last());
    } else {
        assert(u.drop_last() =~= s.drop_last().update(k, v));
        lemma_count_update(s.drop_last(), k, v, id);
    }
}

proof fn lemma_count_push(s: Seq<SeatState>, v: SeatState, id: DesktopSurfaceId)
    ensures
        seat_focus_count(s.push(v), id) == seat_focus_count(s, id) + holds(v, id),
{
    assert(s.push(v).drop_last() =~= s);
}

proof fn lemma_count_remove(s: Seq<SeatState>, k: int, id: DesktopSurfaceId)
    requires
        0 <= k < s.len(),
    ensures
        seat_focus_count(s.remove(k), id) == seat_focus_count(s, id) - holds(s[k], id),
    decreases s.len(),
{
    let r = s.remove(k);
    if k == s.len() - 1 {
        assert(r =~= s.drop_last());
    } else {
        assert(r.drop_last() =~= s.drop_last().remove(k));
        lemma_count_remove(s.drop_last(), k, id);
    }
}

proof fn lemma_count_nonneg(s: Seq<SeatState>, id: DesktopSurfaceId)
    ensures
        0 <= seat_focus_count(s, id) <= s.len(),
    decreases s.len(),
{
    if s.len() > 0 {
        lemma_count_nonneg(s.drop_last(), id);
    }
}

proof fn lemma_count_cleared(s: Seq<SeatState>, gone: DesktopSurfaceId, id: DesktopSurfaceId)
    ensures
        seat_focus_count(cleared_seats(s, gone), id) == if id == gone {
            0
        } else {
            seat_focus_count(s, id)
        },
    decreases s.len(),
{
    if s.len() > 0 {
        assert(cleared_seats(s, gone).drop_last() =~= cleared_seats(s.drop_last(), gone));
        lemma_count_cleared(s.drop_last(), gone, id);
    }
}

/// A seat holding `id` makes its count positive.
proof fn lemma_count_positive(s: Seq<SeatState>, k: int, id: DesktopSurfaceId)
    requires
        0 <= k < s.len(),
        s[k].focused_surface == Some(id),
    ensures
        seat_focus_count(s, id) >= 1,
{
    lemma_count_update(s, k, s[k], id);
    assert(s.update(k, s[k]) =~= s);
    lemma_count_nonneg(s.update(k, SeatState { focused_surface: None, ..s[k] }), id);
    lemma_count_update(s, k, SeatState { focused_surface: None, ..s[k] }, id);
}

/// Lookups by id only see ids.
proof fn lemma_surf_index_ids(a: Seq<SurfRecord>, b: Seq<SurfRecord>, id: DesktopSurfaceId, from: int)
    requires
        a.len() == b.len(),
        forall|i: int| 0 <= i < a.len() ==> #[trigger] a[i].id == b[i].id,
    ensures
        surf_index_from(a, id, from) == surf_index_from(b, id, from),
    decreases a.len() - from,
{
    if 0 <= from < a.len() && a[from].id != id {
        lemma_surf_index_ids(a, b, id, from + 1);
    }
}

/// In a sorted record list the first index holding an id is its only
/// index.
proof fn lemma_sorted_index(s: Seq<SurfRecord>, i: int)
    requires
        ids_sorted(s),
        0 <= i < s.len(),
    ensures
        surf_index(s, s[i].id) == Some(i),
{
    lemma_surf_index(s, s[i].id, 0);
    match surf_index(s, s[i].id) {
        Some(j) => {
            if j < i {
                assert(raw_lt(s[j].id.0, s[i].id.0));
            }
        },
        None => {},
    }
}

/// A new surface keeps the bookkeeping well formed.
pub proof fn law_add_surface_keeps_wf(m: ShellModel, id: DesktopSurfaceId)
    requires
        shell_wf(m),
        counts_match(m),
        !known(m, id),
    ensures
        shell_wf(add_surface_spec(m, id)),
        counts_match(add_surface_spec(m, id)),
{
    lemma_surf_index(m.surfaces, id, 0);
    lemma_insert_pos(m.surfaces, id, 0);
    let pos = insert_pos_from(m.surfaces, id, 0);
    let m2 = add_surface_spec(m, id);
    let s2 = m2.surfaces;
    assert(s2 == m.surfaces.insert(pos, fresh_record(id)));
    assert forall|i: int, j: int| 0 <= i < j < s2.len() implies raw_lt(s2[i].id.0, s2[j].id.0) by {
        if j < pos {
        } else if j == pos {
        } else if i < pos {
            assert(s2[j] == m.surfaces[j - 1]);
            if pos < m.surfaces.len() {
                assert(!raw_lt(m.surfaces[pos].id.0, id.0));
                assert(m.surfaces[pos].id != id);
                if j - 1 > pos {
                    assert(raw_lt(m.surfaces[pos].id.0, m.surfaces[j - 1].id.0));
                }
            }
        } else if i == pos {
            assert(s2[j] == m.surfaces[j - 1]);
            assert(!raw_lt(m.surfaces[pos].id.0, id.0));
            assert(m.surfaces[pos].id != id);
            if j - 1 > pos {
                assert(raw_lt(m.surfaces[pos].id.0, m.surfaces[j - 1].id.0));
            }
        } else {
            assert(s2[i] == m.surfaces[i - 1]);
            assert(s2[j] == m.surfaces[j - 1]);
        }
    }
    // Knowledge of every other id is unchanged.
    assert forall|x: DesktopSurfaceId| x != id implies #[trigger] known(m2, x) == known(m, x) by {
        lemma_surf_index(m.surfaces, x, 0);
        lemma_surf_index(s2, x, 0);
        if known(m, x) {
            let i = surf_index(m.surfaces, x)->0;
            if i < pos {
                assert(s2[i] == m.surfaces[i]);
            } else {
                assert(s2[i + 1] == m.surfaces[i]);
            }
        }
        if known(m2, x) {
            let i = surf_index(s2, x)->0;
            if i < pos {
                assert(s2[i] == m.surfaces[i]);
            } else if i > pos {
                assert(s2[i] == m.surfaces[i - 1]);
            }
        }
    }
    assert forall|x: DesktopSurfaceId| x != id implies #[trigger] parent_of(m2, x) == parent_of(m, x) by {
        lemma_surf_index(m.surfaces, x, 0);
        lemma_surf_index(s2, x, 0);
        if known(m, x) {
            let i = surf_index(m.surfaces, x)->0;
            if i < pos {
                lemma_sorted_index(s2, i);
                assert(s2[i] == m.surfaces[i]);
            } else {
                lemma_sorted_index(s2, i + 1);
                assert(s2[i + 1] == m.surfaces[i]);
            }
        }
    }
    assert forall|x: ChildLink| #[trigger] m2.links.contains(x) implies known(m2, x.parent)
        && parent_of(m2, x.child) == Some(x.parent) by {
        assert(m.links.contains(x));
    }
    assert forall|i: int| 0 <= i < s2.len() implies (#[trigger] s2[i].parent matches Some(p)
        ==> has_link(m2.links, p, s2[i].id)) by {
        if i < pos {
            assert(s2[i] == m.surfaces[i]);
        } else if i > pos {
            assert(s2[i] == m.surfaces[i - 1]);
        }
    }
    assert forall|k: int| 0 <= k < m2.seats.len() implies (#[trigger] m2.seats[k].focused_surface matches Some(f)
        ==> known(m2, f)) by {
        if let Some(f) = m.seats[k].focused_surface {
            assert(known(m, f));
        }
    }
    assert forall|i: int| 0 <= i < s2.len() implies #[trigger] s2[i].focus_count
        == seat_focus_count(m2.seats, s2[i].id) by {
        if i < pos {
            assert(s2[i] == m.surfaces[i]);
        } else if i > pos {
            assert(s2[i] == m.surfaces[i - 1]);
        } else {
            // No seat can hold a surface the shell does not know.
            if seat_focus_count(m.seats, id) != 0 {
                lemma_no_holder_zero(m, id);
            }
        }
    }
}

/// A surface no seat may hold has count zero.
proof fn lemma_no_holder_zero(m: ShellModel, id: DesktopSurfaceId)
    requires
        shell_wf(m),
        !known(m, id),
    ensures
        seat_focus_count(m.seats, id) == 0,
{
    assert forall|k: int| 0 <= k < m.seats.len() implies m.seats[k].focused_surface != Some(id) by {
        if m.seats[k].focused_surface == Some(id) {
            assert(known(m, id));
        }
    }
    lemma_zero_when_none_hold(m.seats, id);
}

proof fn lemma_zero_when_none_hold(s: Seq<SeatState>, id: DesktopSurfaceId)
    requires
        forall|k: int| 0 <= k < s.len() ==> s[k].focused_surface != Some(id),
    ensures
        seat_focus_count(s, id) == 0,
    decreases s.len(),
{
    if s.len() > 0 {
        lemma_zero_when_none_hold(s.drop_last(), id);
    }
}


proof fn lemma_contains_split(l: Seq<ChildLink>, x: ChildLink)
    requires
        l.len() > 0,
    ensures
        l.contains(x) <==> (l.drop_last().contains(x) || l.last() == x),
{
    if l.contains(x) {
        let q = choose|q: int| 0 <= q < l.len() && l[q] == x;
        if q < l.len() - 1 {
            assert(l.drop_last()[q] == x);
        }
    }
    if l.drop_last().contains(x) {
        let q = choose|q: int| 0 <= q < l.drop_last().len() && l.drop_last()[q] == x;
        assert(l[q] == x);
    }
    if l.last() == x {
        assert(l[l.len() - 1] == x);
    }
}

proof fn lemma_push_contains(r: Seq<ChildLink>, v: ChildLink, x: ChildLink)
    ensures
        r.push(v).contains(x) <==> (r.contains(x) || v == x),
{
    lemma_contains_split(r.push(v), x);
    assert(r.push(v).drop_last() =~= r);
}

/// Uniqueness of children survives appending a link whose child no
/// member has.
proof fn lemma_uniq_push(r: Seq<ChildLink>, v: ChildLink)
    requires
        uniq_children(r),
        forall|x: ChildLink| r.contains(x) ==> x.child != v.child,
    ensures
        uniq_children(r.push(v)),
{
    assert forall|j: int, k: int| 0 <= j < k < r.push(v).len() implies r.push(v)[j].child != r.push(
        v,
    )[k].child by {
        if k == r.len() {
            assert(r.contains(r[j]));
        }
    }
}

proof fn lemma_uniq_prefix(l: Seq<ChildLink>)
    requires
        l.len() > 0,
        uniq_children(l),
    ensures
        uniq_children(l.drop_last()),
        forall|x: ChildLink| l.drop_last().contains(x) ==> x.child != l.last().child,
{
    assert forall|x: ChildLink| l.drop_last().contains(x) implies x.child != l.last().child by {
        let q = choose|q: int| 0 <= q < l.drop_last().len() && l.drop_last()[q] == x;
        assert(l[q] == x);
    }
}

pub proof fn lemma_drop_parent(l: Seq<ChildLink>, p: DesktopSurfaceId)
    ensures
        forall|x: ChildLink| #[trigger] drop_parent(l, p).contains(x) <==> (l.contains(x) && x.parent
            != p),
        uniq_children(l) ==> uniq_children(drop_parent(l, p)),
    decreases l.len(),
{
    if l.len() > 0 {
        let d = l.drop_last();
        lemma_drop_parent(d, p);
        let r = drop_parent(d, p);
        assert forall|x: ChildLink| #[trigger] drop_parent(l, p).contains(x) <==> (l.contains(x)
            && x.parent != p) by {
            lemma_contains_split(l, x);
            if l.last().parent != p {
                lemma_push_contains(r, l.last(), x);
            }
        }
        if uniq_children(l) {
            lemma_uniq_prefix(l);
            if l.last().parent != p {
                lemma_uniq_push(r, l.last());
            }
        }
    }
}

pub proof fn lemma_drop_link(l: Seq<ChildLink>, p: DesktopSurfaceId, c: DesktopSurfaceId)
    ensures
        forall|x: ChildLink| #[trigger] drop_link(l, p, c).contains(x) <==> (l.contains(x) && x
            != (ChildLink { parent: p, child: c })),
        uniq_children(l) ==> uniq_children(drop_link(l, p, c)),
    decreases l.len(),
{
    if l.len() > 0 {
        let d = l.drop_last();
        lemma_drop_link(d, p, c);
        let r = drop_link(d, p, c);
        assert forall|x: ChildLink| #[trigger] drop_link(l, p, c).contains(x) <==> (l.contains(x)
            && x != (ChildLink { parent: p, child: c })) by {
            lemma_contains_split(l, x);
            if l.last() != (ChildLink { parent: p, child: c }) {
                lemma_push_contains(r, l.last(), x);
            }
        }
        if uniq_children(l) {
            lemma_uniq_prefix(l);
            if l.last() != (ChildLink { parent: p, child: c }) {
                lemma_uniq_push(r, l.last());
            }
        }
    }
}

/// In a well-formed shell the only link below which a surface stacks is
/// the one its parent field names.
proof fn lemma_link_of_child(m: ShellModel, x: ChildLink)
    requires
        shell_wf(m),
        m.links.contains(x),
    ensures
        parent_of(m, x.child) == Some(x.parent),
        known(m, x.parent),
        known(m, x.child),
{
}

/// A parent change keeps the bookkeeping well formed.
pub proof fn law_set_parent_keeps_wf(m: ShellModel, id: DesktopSurfaceId, parent: Option<DesktopSurfaceId>)
    requires
        shell_wf(m),
        counts_match(m),
    ensures
        shell_wf(set_parent_spec(m, id, parent)),
        counts_match(set_parent_spec(m, id, parent)),
{
    lemma_surf_index(m.surfaces, id, 0);
    let m2 = set_parent_spec(m, id, parent);
    if let Some(i) = surf_index(m.surfaces, id) {
        let rec = m.surfaces[i];
        let links1 = match rec.parent {
            Some(op) => if known(m, op) {
                drop_link(m.links, op, id)
            } else {
                m.links
            },
            None => m.links,
        };
        // Ids are untouched, so every lookup by id is too.
        assert forall|x: DesktopSurfaceId| #[trigger] known(m2, x) == known(m, x) by {
            lemma_surf_index_ids(m.surfaces, m2.surfaces, x, 0);
        }
        assert forall|x: DesktopSurfaceId| x != id implies #[trigger] parent_of(m2, x) == parent_of(m, x) by {
            lemma_surf_index_ids(m.surfaces, m2.surfaces, x, 0);
            lemma_surf_index(m.surfaces, x, 0);
        }
        assert(parent_of(m2, id) == m2.surfaces[i].parent) by {
            lemma_surf_index_ids(m.surfaces, m2.surfaces, id, 0);
        }
        // After the drop, no link has `id` as its child.
        if let Some(op) = rec.parent {
            assert(has_link(m.links, op, id));
            assert(known(m, op));
            lemma_drop_link(m.links, op, id);
        }
        assert forall|x: ChildLink| links1.contains(x) implies x.child != id && m.links.contains(x) by {
            if let Some(op) = rec.parent {
                lemma_drop_link(m.links, op, id);
            }
            lemma_link_of_child(m, x);
            if x.child == id {
                lemma_surf_index(m.surfaces, id, 0);
            }
        }
        assert(uniq_children(links1)) by {
            if let Some(op) = rec.parent {
                lemma_drop_link(m.links, op, id);
            }
        }
        assert forall|x: ChildLink| #[trigger] m2.links.contains(x) implies known(m2, x.parent)
            && parent_of(m2, x.child) == Some(x.parent) by {
            if m2.links == links1 {
            } else {
                lemma_push_contains(links1, m2.links.last(), x);
                assert(m2.links =~= links1.push(m2.links.last()));
            }
            if links1.contains(x) {
                lemma_link_of_child(m, x);
            }
        }
        assert(uniq_children(m2.links)) by {
            if m2.links != links1 {
                assert(m2.links =~= links1.push(m2.links.last()));
                lemma_uniq_push(links1, m2.links.last());
            }
        }
        assert forall|j: int| 0 <= j < m2.surfaces.len() implies (#[trigger] m2.surfaces[j].parent matches Some(p)
            ==> has_link(m2.links, p, m2.surfaces[j].id)) by {
            if j == i {
                if let Some(np) = m2.surfaces[j].parent {
                    assert(m2.links =~= links1.push(ChildLink { parent: np, child: id }));
                    lemma_push_contains(links1, ChildLink { parent: np, child: id }, ChildLink { parent: np, child: id });
                }
            } else {
                let sj = m.surfaces[j];
                assert(m2.surfaces[j] == sj);
                if let Some(p) = sj.parent {
                    assert(has_link(m.links, p, sj.id));
                    assert(sj.id != id) by {
                        lemma_sorted_index(m.surfaces, j);
                    }
                    if let Some(op) = rec.parent {
                        lemma_drop_link(m.links, op, id);
                    }
                    assert(links1.contains(ChildLink { parent: p, child: sj.id }));
                    if m2.links != links1 {
                        assert(m2.links =~= links1.push(m2.links.last()));
                        lemma_push_contains(links1, m2.links.last(), ChildLink { parent: p, child: sj.id });
                    }
                }
            }
        }
        assert forall|k: int| 0 <= k < m2.seats.len() implies (#[trigger] m2.seats[k].focused_surface matches Some(f)
            ==> known(m2, f)) by {
            if let Some(f) = m.seats[k].focused_surface {
                assert(known(m, f));
            }
        }
        assert forall|j: int| 0 <= j < m2.surfaces.len() implies #[trigger] m2.surfaces[j].focus_count
            == seat_focus_count(m2.seats, m2.surfaces[j].id) by {
            assert(m.surfaces[j].focus_count == seat_focus_count(m.seats, m.surfaces[j].id));
        }
    }
}


proof fn lemma_index_of_member(s: Seq<SurfRecord>, j: int)
    requires
        0 <= j < s.len(),
    ensures
        surf_index(s, s[j].id) is Some,
{
    lemma_surf_index(s, s[j].id, 0);
}

proof fn lemma_cleared_noop(s: Seq<SeatState>, id: DesktopSurfaceId)
    requires
        forall|k: int| 0 <= k < s.len() ==> s[k].focused_surface != Some(id),
    ensures
        cleared_seats(s, id) == s,
{
    assert(cleared_seats(s, id) =~= s);
}

/// A surface's removal keeps the bookkeeping well formed.
pub proof fn law_remove_surface_keeps_wf(m: ShellModel, id: DesktopSurfaceId)
    requires
        shell_wf(m),
        counts_match(m),
    ensures
        shell_wf(remove_surface_spec(m, id)),
        counts_match(remove_surface_spec(m, id)),
{
    lemma_surf_index(m.surfaces, id, 0);
    let m2 = remove_surface_spec(m, id);
    match surf_index(m.surfaces, id) {
        None => {
            assert forall|k: int| 0 <= k < m.seats.len() implies m.seats[k].focused_surface != Some(id) by {
                if m.seats[k].focused_surface == Some(id) {
                    assert(known(m, id));
                }
            }
            lemma_cleared_noop(m.seats, id);
            assert(m2 == m);
        },
        Some(i) => {
            let rec = m.surfaces[i];
            let rest = m.surfaces.remove(i);
            let s2 = m2.surfaces;
            assert(s2 == unparented(rest, m.links, id));
            let links1 = drop_parent(m.links, id);
            lemma_drop_parent(m.links, id);
            // Surviving records keep their ids, sorted.
            assert forall|j: int| 0 <= j < s2.len() implies #[trigger] s2[j].id == rest[j].id by {}
            assert forall|j: int| 0 <= j < rest.len() implies #[trigger] rest[j] == if j < i {
                m.surfaces[j]
            } else {
                m.surfaces[j + 1]
            } by {}
            assert(ids_sorted(s2)) by {
                assert forall|a: int, b: int| 0 <= a < b < s2.len() implies raw_lt(s2[a].id.0, s2[b].id.0) by {
                    let a0 = if a < i { a } else { a + 1 };
                    let b0 = if b < i { b } else { b + 1 };
                    assert(raw_lt(m.surfaces[a0].id.0, m.surfaces[b0].id.0));
                }
            }
            // Which ids are known, and their records.
            assert forall|x: DesktopSurfaceId| #[trigger] known(m2, x) == (known(m, x) && x != id) by {
                lemma_surf_index(s2, x, 0);
                lemma_surf_index(m.surfaces, x, 0);
                if known(m2, x) {
                    let j = surf_index(s2, x)->0;
                    let j0 = if j < i { j } else { j + 1 };
                    assert(m.surfaces[j0].id == x);
                    lemma_index_of_member(m.surfaces, j0);
                    assert(j0 != i);
                    lemma_sorted_index(m.surfaces, j0);
                }
                if known(m, x) && x != id {
                    let j0 = surf_index(m.surfaces, x)->0;
                    let j = if j0 < i { j0 } else { j0 - 1 };
                    assert(s2[j].id == x);
                    lemma_index_of_member(s2, j);
                }
            }
            assert forall|x: DesktopSurfaceId| known(m2, x) implies #[trigger] parent_of(m2, x) == if has_link(
                m.links,
                id,
                x,
            ) {
                None
            } else {
                parent_of(m, x)
            } by {
                let j = surf_index(s2, x)->0;
                lemma_surf_index(s2, x, 0);
                let j0 = if j < i { j } else { j + 1 };
                assert(m.surfaces[j0].id == x);
                lemma_sorted_index(m.surfaces, j0);
            }
            let p_known = match rec.parent {
                Some(p) => surf_index(s2, p) is Some,
                None => false,
            };
            assert(m2.links == if p_known { drop_link(links1, rec.parent->0, id) } else { links1 });
            if p_known {
                lemma_drop_link(links1, rec.parent->0, id);
            }
            assert forall|x: ChildLink| #[trigger] m2.links.contains(x) implies m.links.contains(x)
                && x.parent != id && x.child != id by {
                assert(links1.contains(x));
                lemma_link_of_child(m, x);
                if x.child == id {
                    lemma_sorted_index(m.surfaces, i);
                    assert(parent_of(m, id) == rec.parent);
                    assert(rec.parent == Some(x.parent));
                    assert(x.parent != id);
                    assert(known(m2, x.parent));
                    assert(p_known);
                    assert(x == ChildLink { parent: rec.parent->0, child: id });
                }
            }
            assert forall|x: ChildLink| #[trigger] m2.links.contains(x) implies known(m2, x.parent)
                && parent_of(m2, x.child) == Some(x.parent) by {
                lemma_link_of_child(m, x);
                assert(known(m2, x.child));
                if has_link(m.links, id, x.child) {
                    let y = ChildLink { parent: id, child: x.child };
                    let a = choose|a: int| 0 <= a < m.links.len() && m.links[a] == x;
                    let b = choose|b: int| 0 <= b < m.links.len() && m.links[b] == y;
                    assert(a != b);
                }
            }
            assert forall|j: int| 0 <= j < s2.len() implies (#[trigger] s2[j].parent matches Some(q)
                ==> has_link(m2.links, q, s2[j].id)) by {
                let j0 = if j < i { j } else { j + 1 };
                if let Some(q) = s2[j].parent {
                    assert(!has_link(m.links, id, rest[j].id));
                    assert(s2[j] == rest[j]);
                    assert(has_link(m.links, q, rest[j].id));
                    assert(q != id);
                    assert(rest[j].id != id) by {
                        lemma_sorted_index(m.surfaces, j0);
                        lemma_sorted_index(m.surfaces, i);
                    }
                    assert(links1.contains(ChildLink { parent: q, child: rest[j].id }));
                }
            }
            assert forall|k: int| 0 <= k < m2.seats.len() implies (#[trigger] m2.seats[k].focused_surface matches Some(f)
                ==> known(m2, f)) by {
                if let Some(f) = m.seats[k].focused_surface {
                    assert(known(m, f));
                }
            }
            assert forall|j: int, k: int| 0 <= j < k < m2.seats.len() implies m2.seats[j].seat != m2.seats[k].seat by {
                assert(m.seats[j].seat != m.seats[k].seat);
            }
            assert forall|j: int| 0 <= j < s2.len() implies #[trigger] s2[j].focus_count
                == seat_focus_count(m2.seats, s2[j].id) by {
                let j0 = if j < i { j } else { j + 1 };
                assert(m.surfaces[j0].focus_count == seat_focus_count(m.seats, m.surfaces[j0].id));
                lemma_count_cleared(m.seats, id, s2[j].id);
                assert(s2[j].id != id) by {
                    lemma_sorted_index(m.surfaces, j0);
                    lemma_sorted_index(m.surfaces, i);
                }
            }
        },
    }
}


/// The link and record parts of well-formedness only see ids, parents
/// and links.
proof fn lemma_shape_wf(a: ShellModel, b: ShellModel)
    requires
        shell_wf(a),
        same_shape(a, b),
        forall|j: int, k: int| 0 <= j < k < b.seats.len() ==> b.seats[j].seat != b.seats[k].seat,
        forall|j: int, k: int| 0 <= j < k < b.focus.len() ==> b.focus[j].seat != b.focus[k].seat,
        forall|k: int|
            0 <= k < b.seats.len() ==> (#[trigger] b.seats[k].focused_surface matches Some(f)
                ==> known(a, f)),
    ensures
        shell_wf(b),
        forall|x: DesktopSurfaceId| #[trigger] known(b, x) == known(a, x),
{
    assert forall|x: DesktopSurfaceId| #[trigger] known(b, x) == known(a, x) by {
        lemma_shape_lookup(a, b, x);
    }
    assert forall|x: ChildLink| #[trigger] b.links.contains(x) implies known(b, x.parent)
        && parent_of(b, x.child) == Some(x.parent) by {
        lemma_shape_lookup(a, b, x.parent);
        lemma_shape_lookup(a, b, x.child);
    }
    assert forall|i: int| 0 <= i < b.surfaces.len() implies (#[trigger] b.surfaces[i].parent matches Some(p)
        ==> has_link(b.links, p, b.surfaces[i].id)) by {
        assert(a.surfaces[i].id == b.surfaces[i].id);
    }
    assert forall|i: int, j: int| 0 <= i < j < b.surfaces.len() implies raw_lt(
        b.surfaces[i].id.0,
        b.surfaces[j].id.0,
    ) by {
        assert(a.surfaces[i].id == b.surfaces[i].id);
        assert(a.surfaces[j].id == b.surfaces[j].id);
    }
    assert forall|k: int| 0 <= k < b.seats.len() implies (#[trigger] b.seats[k].focused_surface matches Some(f)
        ==> known(b, f)) by {
        if let Some(f) = b.seats[k].focused_surface {
            lemma_shape_lookup(a, b, f);
        }
    }
}

proof fn lemma_shape_lookup(a: ShellModel, b: ShellModel, x: DesktopSurfaceId)
    requires
        same_shape(a, b),
    ensures
        known(b, x) == known(a, x),
        parent_of(b, x) == parent_of(a, x),
{
    lemma_surf_index_ids(a.surfaces, b.surfaces, x, 0);
    lemma_surf_index(a.surfaces, x, 0);
}

/// A new seat keeps the bookkeeping well formed.
pub proof fn law_seat_created_keeps_wf(m: ShellModel, seat: SeatId)
    requires
        shell_wf(m),
        counts_match(m),
        seat_index(m.seats, seat) is None,
    ensures
        shell_wf(seat_created_spec(m, seat)),
        counts_match(seat_created_spec(m, seat)),
{
    lemma_seat_index(m.seats, seat, 0);
    let m2 = seat_created_spec(m, seat);
    let v = SeatState { seat, focused_surface: None };
    assert(m2.seats == m.seats.push(v));
    assert forall|i: int| 0 <= i < m2.surfaces.len() implies #[trigger] m2.surfaces[i].focus_count
        == seat_focus_count(m2.seats, m2.surfaces[i].id) by {
        lemma_count_push(m.seats, v, m.surfaces[i].id);
    }
    assert forall|k: int| 0 <= k < m2.seats.len() implies (#[trigger] m2.seats[k].focused_surface matches Some(f)
        ==> known(m2, f)) by {
        if k < m.seats.len() {
            assert(m2.seats[k] == m.seats[k]);
        }
    }
}

/// A seat's departure keeps the structure well formed, and the focus
/// counts too when the seat focused nothing.  (A focused surface keeps
/// the count the departed seat contributed.)
pub proof fn law_seat_gone_keeps_wf(m: ShellModel, seat: SeatId)
    requires
        shell_wf(m),
    ensures
        shell_wf(seat_gone_spec(m, seat).0),
        counts_match(m) && (seat_index(m.seats, seat) matches Some(k) ==> m.seats[k].focused_surface is None)
            ==> counts_match(seat_gone_spec(m, seat).0),
{
    lemma_focus_index(m.focus, seat, 0);
    let m1 = forget_focus_spec(m, seat).0;
    lemma_seat_index(m1.seats, seat, 0);
    let m2 = seat_gone_spec(m, seat).0;
    assert forall|j: int, k: int| 0 <= j < k < m1.focus.len() implies m1.focus[j].seat != m1.focus[k].seat by {
        if let Some(x) = focus_index(m.focus, seat) {
            let j0 = if j < x { j } else { j + 1 };
            let k0 = if k < x { k } else { k + 1 };
            assert(m1.focus[j] == m.focus[j0]);
            assert(m1.focus[k] == m.focus[k0]);
        }
    }
    assert forall|j: int, k: int| 0 <= j < k < m2.seats.len() implies m2.seats[j].seat != m2.seats[k].seat by {
        if let Some(x) = seat_index(m1.seats, seat) {
            let j0 = if j < x { j } else { j + 1 };
            let k0 = if k < x { k } else { k + 1 };
            assert(m2.seats[j] == m.seats[j0]);
            assert(m2.seats[k] == m.seats[k0]);
        }
    }
    assert forall|k: int| 0 <= k < m2.seats.len() implies (#[trigger] m2.seats[k].focused_surface matches Some(f)
        ==> known(m, f)) by {
        if let Some(x) = seat_index(m1.seats, seat) {
            let k0 = if k < x { k } else { k + 1 };
            assert(m2.seats[k] == m.seats[k0]);
        }
    }
    assert(same_shape(m, m2));
    lemma_shape_wf(m, m2);
    if counts_match(m) && (seat_index(m.seats, seat) matches Some(k) ==> m.seats[k].focused_surface is None) {
        assert(m1.seats == m.seats);
        assert(m1.surfaces == m.surfaces);
        lemma_seat_index(m.seats, seat, 0);
        assert forall|i: int| 0 <= i < m2.surfaces.len() implies #[trigger] m2.surfaces[i].focus_count
            == seat_focus_count(m2.seats, m2.surfaces[i].id) by {
            if let Some(x) = seat_index(m1.seats, seat) {
                lemma_count_remove(m.seats, x, m.surfaces[i].id);
            }
        }
    }
}

/// The focus bookkeeping after an activation keeps the bookkeeping well
/// formed and every focus count equal to the number of seats holding the
/// surface.  (Counts saturate at `i32::MAX`, hence the bound on seats.)
pub proof fn law_focus_update_keeps_wf(
    m: ShellModel,
    t: DesktopSurfaceId,
    seat: SeatId,
    es: Option<SurfaceId>,
)
    requires
        shell_wf(m),
        counts_match(m),
        known(m, t),
        m.seats.len() < i32::MAX,
    ensures
        shell_wf(focus_update_spec(m, t, seat, es).0),
        counts_match(focus_update_spec(m, t, seat, es).0),
{
    lemma_seat_index(m.seats, seat, 0);
    let m1 = ensure_seat(m, seat);
    lemma_seat_index(m1.seats, seat, 0);
    let si = seat_index(m1.seats, seat)->0;
    assert(seat_index(m1.seats, seat) is Some) by {
        if seat_index(m.seats, seat) is None {
            assert(m1.seats[m.seats.len() as int].seat == seat);
        }
    }
    let prev = prev_focus(m1, seat);
    let (m2, c1) = release_step(m1, prev, t);
    let (m3, c2) = gain_step(m2, prev, t, seat);
    let (m4, c3) = record_step(m3, seat, es);
    assert(focus_update_spec(m, t, seat, es).0 == m4);
    // m1: the seat exists, counts still match.
    assert forall|i: int| 0 <= i < m1.surfaces.len() implies #[trigger] m1.surfaces[i].focus_count
        == seat_focus_count(m1.seats, m1.surfaces[i].id) by {
        if seat_index(m.seats, seat) is None {
            lemma_count_push(m.seats, SeatState { seat, focused_surface: None }, m.surfaces[i].id);
        }
    }
    assert forall|j: int, k: int| 0 <= j < k < m1.seats.len() implies m1.seats[j].seat != m1.seats[k].seat by {
        if seat_index(m.seats, seat) is None && k == m.seats.len() {
            assert(m.seats[j].seat != seat);
        }
    }
    assert forall|k: int| 0 <= k < m1.seats.len() implies (#[trigger] m1.seats[k].focused_surface matches Some(f)
        ==> known(m, f)) by {
        if k < m.seats.len() {
            assert(m1.seats[k] == m.seats[k]);
        }
    }
    assert(same_shape(m, m1));
    lemma_shape_wf(m, m1);
    // The old focused surface loses one count; the seat holds it, so
    // the count is positive.
    if prev is Some && prev->0 != t && known(m1, prev->0) {
        let p = prev->0;
        let pi = surf_index(m1.surfaces, p)->0;
        lemma_surf_index(m1.surfaces, p, 0);
        lemma_count_positive(m1.seats, si, p);
        assert(m1.surfaces[pi].focus_count >= 1);
    }
    assert(m2.seats == m1.seats);
    lemma_change_count_shape(m1, p_or(prev, t), false);
    assert(same_shape(m1, m2));
    // t gains one count: no saturation, the seat did not hold it.
    let ti = surf_index(m1.surfaces, t)->0;
    lemma_surf_index(m1.surfaces, t, 0);
    lemma_surf_index_ids(m1.surfaces, m2.surfaces, t, 0);
    lemma_count_nonneg(m1.seats, t);
    if prev != Some(t) {
        lemma_count_excluding(m1.seats, si, t);
    }
    lemma_change_count_shape(m2, t, true);
    assert(same_shape(m2, m3)) by {
        if prev != Some(t) {
            let mm = change_count_spec(m2, t, true).0;
            assert(same_shape(mm, m3));
            lemma_same_shape_trans(m2, mm, m3);
        }
    }
    // Counts after the gain step.
    assert forall|i: int| 0 <= i < m3.surfaces.len() implies #[trigger] m3.surfaces[i].focus_count
        == seat_focus_count(m3.seats, m3.surfaces[i].id) by {
        let x = m1.surfaces[i].id;
        assert(m2.surfaces[i].id == x);
        assert(m3.surfaces[i].id == x);
        lemma_sorted_index(m1.surfaces, i);
        if prev != Some(t) {
            lemma_count_update(m1.seats, si, SeatState { seat, focused_surface: Some(t) }, x);
            assert(m3.seats == m1.seats.update(si, SeatState { seat, focused_surface: Some(t) }));
        }
    }
    assert forall|j: int, k: int| 0 <= j < k < m3.seats.len() implies m3.seats[j].seat != m3.seats[k].seat by {
        assert(m1.seats[j].seat == m3.seats[j].seat);
        assert(m1.seats[k].seat == m3.seats[k].seat);
    }
    assert forall|k: int| 0 <= k < m3.seats.len() implies (#[trigger] m3.seats[k].focused_surface matches Some(f)
        ==> known(m, f)) by {
        if k != si || prev == Some(t) {
            assert(m3.seats[k] == m1.seats[k]);
        }
    }
    // The focus entry.
    lemma_focus_index(m3.focus, seat, 0);
    assert forall|j: int, k: int| 0 <= j < k < m4.focus.len() implies m4.focus[j].seat != m4.focus[k].seat by {
        if es is Some && focus_index(m3.focus, seat) is None && k == m3.focus.len() {
            assert(m3.focus[j].seat != seat);
        }
    }
    lemma_same_shape_trans(m, m1, m2);
    lemma_same_shape_trans(m, m2, m3);
    assert(same_shape(m, m4));
    assert(m4.seats == m3.seats);
    lemma_shape_wf(m, m4);
}

proof fn lemma_count_excluding(s: Seq<SeatState>, k: int, id: DesktopSurfaceId)
    requires
        0 <= k < s.len(),
        s[k].focused_surface != Some(id),
    ensures
        seat_focus_count(s, id) <= s.len() - 1,
    decreases s.len(),
{
    if k == s.len() - 1 {
        lemma_count_nonneg(s.drop_last(), id);
    } else {
        lemma_count_excluding(s.drop_last(), k, id);
    }
}

spec fn p_or(prev: Option<DesktopSurfaceId>, t: DesktopSurfaceId) -> DesktopSurfaceId {
    match prev {
        Some(p) => p,
        None => t,
    }
}

/// Recording a laid-out size keeps the bookkeeping well formed.
pub proof fn law_record_size_keeps_wf(m: ShellModel, id: DesktopSurfaceId, width: i32, height: i32)
    requires
        shell_wf(m),
        counts_match(m),
    ensures
        shell_wf(record_size_spec(m, id, width, height)),
        counts_match(record_size_spec(m, id, width, height)),
{
    lemma_surf_index(m.surfaces, id, 0);
    let m2 = record_size_spec(m, id, width, height);
    assert forall|j: int| 0 <= j < m.surfaces.len() implies #[trigger] m.surfaces[j].id == m2.surfaces[j].id
        && m.surfaces[j].parent == m2.surfaces[j].parent by {}
    assert forall|x: DesktopSurfaceId| #[trigger] known(m2, x) == known(m, x) && parent_of(m2, x)
        == parent_of(m, x) by {
        lemma_surf_index_ids(m.surfaces, m2.surfaces, x, 0);
        lemma_surf_index(m.surfaces, x, 0);
    }
    assert forall|x: ChildLink| #[trigger] m2.links.contains(x) implies known(m2, x.parent)
        && parent_of(m2, x.child) == Some(x.parent) by {
        assert(known(m2, x.parent) == known(m, x.parent) && parent_of(m2, x.parent) == parent_of(m, x.parent));
        assert(known(m2, x.child) == known(m, x.child) && parent_of(m2, x.child) == parent_of(m, x.child));
    }
    assert forall|k: int| 0 <= k < m2.seats.len() implies (#[trigger] m2.seats[k].focused_surface matches Some(f)
        ==> known(m2, f)) by {
        if let Some(f) = m2.seats[k].focused_surface {
            assert(known(m2, f) == known(m, f) && parent_of(m2, f) == parent_of(m, f));
        }
    }
}

/// Teardown leaves a well-formed, empty shell.
pub proof fn law_cleared_is_wf(m: ShellModel)
    ensures
        shell_wf(cleared(m)),
        counts_match(cleared(m)),
{
}


proof fn lemma_last_mapped_child(
    l: Seq<ChildLink>,
    p: DesktopSurfaceId,
    mapped: Seq<DesktopSurfaceId>,
    n: int,
)
    ensures
        last_mapped_child(l, p, mapped, n) matches Some(c) ==> l.contains(
            ChildLink { parent: p, child: c },
        ) && mapped.contains(c),
    decreases n,
{
    if 0 < n <= l.len() {
        if l[n - 1].parent == p && mapped.contains(l[n - 1].child) {
            assert(l[n - 1] == ChildLink { parent: p, child: l[n - 1].child });
        } else {
            lemma_last_mapped_child(l, p, mapped, n - 1);
        }
    }
}

proof fn lemma_redirect_from(m: ShellModel, mapped: Seq<DesktopSurfaceId>, s: DesktopSurfaceId, hops: int)
    requires
        shell_wf(m),
        known(m, s),
        0 <= hops <= 64,
    ensures
        redirect(m, mapped, s, hops) matches Some((t, h)) && {
            &&& hops <= h <= 64
            &&& known(m, t)
            &&& h < 64 ==> last_mapped_child(m.links, t, mapped, m.links.len() as int) is None
            &&& h == hops ==> t == s
        },
    decreases 64 - hops,
{
    if hops < 64 {
        lemma_last_mapped_child(m.links, s, mapped, m.links.len() as int);
        if let Some(c) = last_mapped_child(m.links, s, mapped, m.links.len() as int) {
            assert(m.links.contains(ChildLink { parent: s, child: c }));
            lemma_surf_index(m.surfaces, c, 0);
            lemma_redirect_from(m, mapped, c, hops + 1);
        }
    }
}

/// Activation redirection always lands, on a known surface, after at
/// most 64 redirections; unless the cap was reached, the landing surface
/// has no mapped child; without a redirection it is the surface asked
/// for.  This holds also when the parent links form a cycle.
pub proof fn law_redirect_lands(m: ShellModel, mapped: Seq<DesktopSurfaceId>, s: DesktopSurfaceId)
    requires
        shell_wf(m),
        known(m, s),
    ensures
        redirect(m, mapped, s, 0) matches Some((t, h)) && {
            &&& 0 <= h <= 64
            &&& known(m, t)
            &&& h < 64 ==> last_mapped_child(m.links, t, mapped, m.links.len() as int) is None
            &&& h == 0 ==> t == s
        },
{
    lemma_redirect_from(m, mapped, s, 0);
}

/// Activation of an unknown surface does nothing.
pub proof fn law_unknown_surface_not_activated(m: ShellModel, mapped: Seq<DesktopSurfaceId>, s: DesktopSurfaceId)
    requires
        !known(m, s),
    ensures
        redirect(m, mapped, s, 0) is None,
{
}

/// Activating an unknown surface makes no host call and changes nothing,
/// whatever the host answers.
pub proof fn law_unknown_surface_no_calls(
    m: ShellModel,
    mapped: Seq<DesktopSurfaceId>,
    es: Option<SurfaceId>,
    s: DesktopSurfaceId,
    seat: SeatId,
    flags: ActivateFlags,
    target: ActivateTarget,
)
    requires
        !known(m, s),
    ensures
        activation_effect(m, mapped, es, s, seat, flags, target) == (m, Seq::<HostCall>::empty()),
{
}

/// Activating a known surface activates input exactly once, first, on
/// its seat; every later call is focus bookkeeping.  This holds also
/// when the parent links form a cycle.
pub proof fn law_one_input_activation(
    m: ShellModel,
    mapped: Seq<DesktopSurfaceId>,
    es: Option<SurfaceId>,
    s: DesktopSurfaceId,
    seat: SeatId,
    flags: ActivateFlags,
    target: ActivateTarget,
)
    requires
        shell_wf(m),
        known(m, s),
    ensures
        ({
            let calls = activation_effect(m, mapped, es, s, seat, flags, target).1;
            &&& calls.len() >= 1
            &&& calls[0] matches HostCall::ActivateInput(_, st, fl) && st == seat && fl == flags
            &&& forall|i: int| 1 <= i < calls.len() ==> !(calls[i] is ActivateInput)
        }),
{
    law_redirect_lands(m, mapped, s);
    let (t, h) = redirect(m, mapped, s, 0)->0;
    let cmds = focus_update_spec(m, t, seat, es).1;
    let calls = activation_effect(m, mapped, es, s, seat, flags, target).1;
    assert forall|i: int| 1 <= i < calls.len() implies !(calls[i] is ActivateInput) by {
        assert(calls[i] == focus_calls(cmds)[i - 1]);
    }
}

pub open spec fn distinct(q: Seq<DesktopSurfaceId>) -> bool {
    forall|i: int, j: int| 0 <= i < j < q.len() ==> q[i] != q[j]
}

proof fn lemma_distinct_push(q: Seq<DesktopSurfaceId>, v: DesktopSurfaceId)
    requires
        distinct(q),
        !q.contains(v),
    ensures
        distinct(q.push(v)),
{
    assert forall|i: int, j: int| 0 <= i < j < q.push(v).len() implies q.push(v)[i] != q.push(v)[j] by {
        if j == q.len() {
            assert(q.contains(q[i]));
        }
    }
}

proof fn lemma_seq_push_contains(q: Seq<DesktopSurfaceId>, v: DesktopSurfaceId, x: DesktopSurfaceId)
    ensures
        q.push(v).contains(x) <==> (q.contains(x) || v == x),
{
    if q.push(v).contains(x) {
        let k = choose|k: int| 0 <= k < q.push(v).len() && q.push(v)[k] == x;
        if k < q.len() {
            assert(q[k] == x);
        }
    }
    if q.contains(x) {
        let k = choose|k: int| 0 <= k < q.len() && q[k] == x;
        assert(q.push(v)[k] == x);
    }
    if v == x {
        assert(q.push(v)[q.len() as int] == x);
    }
}

proof fn lemma_stack_part(stack: Seq<DesktopSurfaceId>, s: Seq<SurfRecord>)
    ensures
        distinct(stack_part(stack, s)),
        forall|x: DesktopSurfaceId| #[trigger] stack_part(stack, s).contains(x) ==> surf_index(s, x) is Some,
    decreases stack.len(),
{
    if stack.len() > 0 {
        lemma_stack_part(stack.drop_last(), s);
        let r = stack_part(stack.drop_last(), s);
        let v = stack.last();
        if surf_index(s, v) is Some && !r.contains(v) {
            lemma_distinct_push(r, v);
            assert forall|x: DesktopSurfaceId| #[trigger] stack_part(stack, s).contains(x) implies surf_index(
                s,
                x,
            ) is Some by {
                lemma_seq_push_contains(r, v, x);
            }
        }
    }
}

proof fn lemma_leftovers(s: Seq<SurfRecord>, taken: Seq<DesktopSurfaceId>)
    ensures
        forall|x: DesktopSurfaceId| #[trigger] leftovers(s, taken).contains(x) <==> (!taken.contains(x)
            && exists|j: int| 0 <= j < s.len() && s[j].id == x),
        ids_sorted(s) ==> distinct(leftovers(s, taken)),
    decreases s.len(),
{
    if s.len() > 0 {
        let d = s.drop_last();
        lemma_leftovers(d, taken);
        let r = leftovers(d, taken);
        let v = s.last().id;
        assert forall|x: DesktopSurfaceId| #[trigger] leftovers(s, taken).contains(x) <==> (!taken.contains(x)
            && exists|j: int| 0 <= j < s.len() && s[j].id == x) by {
            if !taken.contains(v) {
                lemma_seq_push_contains(r, v, x);
            }
            if exists|j: int| 0 <= j < s.len() && s[j].id == x {
                let j = choose|j: int| 0 <= j < s.len() && s[j].id == x;
                if j < s.len() - 1 {
                    assert(d[j].id == x);
                }
            }
            if exists|j: int| 0 <= j < d.len() && d[j].id == x {
                let j = choose|j: int| 0 <= j < d.len() && d[j].id == x;
                assert(s[j].id == x);
            }
            assert(s[s.len() - 1].id == v);
        }
        if ids_sorted(s) {
            assert(ids_sorted(d));
            if !taken.contains(v) {
                assert(!r.contains(v)) by {
                    if r.contains(v) {
                        let j = choose|j: int| 0 <= j < d.len() && d[j].id == v;
                        assert(raw_lt(s[j].id.0, s[s.len() - 1].id.0));
                    }
                }
                lemma_distinct_push(r, v);
            }
        }
    }
}

/// Teardown destroys every known surface exactly once, and nothing else.
pub proof fn law_shutdown_destroys_each_once(m: ShellModel, stack: Seq<DesktopSurfaceId>)
    requires
        shell_wf(m),
    ensures
        distinct(shutdown_order(m, stack)),
        forall|x: DesktopSurfaceId| #[trigger] shutdown_order(m, stack).contains(x) <==> known(m, x),
{
    let top = stack_part(stack, m.surfaces);
    let rest = leftovers(m.surfaces, top);
    lemma_stack_part(stack, m.surfaces);
    lemma_leftovers(m.surfaces, top);
    let q = top + rest;
    assert forall|i: int, j: int| 0 <= i < j < q.len() implies q[i] != q[j] by {
        if j < top.len() {
        } else if i >= top.len() {
            assert(rest[i - top.len()] == q[i]);
            assert(rest[j - top.len()] == q[j]);
        } else {
            assert(top.contains(q[i]));
            assert(rest.contains(rest[j - top.len()]));
        }
    }
    assert forall|x: DesktopSurfaceId| #[trigger] q.contains(x) <==> known(m, x) by {
        lemma_surf_index(m.surfaces, x, 0);
        if q.contains(x) {
            let k = choose|k: int| 0 <= k < q.len() && q[k] == x;
            if k < top.len() {
                assert(top.contains(x));
            } else {
                assert(rest[k - top.len()] == x);
                assert(rest.contains(x));
            }
        }
        if known(m, x) {
            let j = surf_index(m.surfaces, x)->0;
            if top.contains(x) {
                let k = choose|k: int| 0 <= k < top.len() && top[k] == x;
                assert(q[k] == x);
            } else {
                assert(m.surfaces[j].id == x);
                assert(rest.contains(x));
                let k = choose|k: int| 0 <= k < rest.len() && rest[k] == x;
                assert(q[top.len() + k] == x);
            }
        }
    }
}

/// After an activation lands on `t`, `t` is the seat's focused surface,
/// and the surface that received keyboard focus is the seat's focus
/// entry.
pub proof fn law_activation_focuses(m: ShellModel, t: DesktopSurfaceId, seat: SeatId, es: Option<SurfaceId>)
    ensures
        ({
            let m2 = focus_update_spec(m, t, seat, es).0;
            &&& seat_index(m2.seats, seat) is Some
            &&& prev_focus(m2, seat) == Some(t)
            &&& es matches Some(e) ==> focus_index(m2.focus, seat) is Some && m2.focus[focus_index(
                m2.focus,
                seat,
            )->0].surface == e
        }),
{
    lemma_seat_index(m.seats, seat, 0);
    let m1 = ensure_seat(m, seat);
    lemma_seat_index(m1.seats, seat, 0);
    assert(seat_index(m1.seats, seat) is Some) by {
        if seat_index(m.seats, seat) is None {
            assert(m1.seats[m.seats.len() as int].seat == seat);
        }
    }
    let si = seat_index(m1.seats, seat)->0;
    let prev = prev_focus(m1, seat);
    let (m2, c1) = release_step(m1, prev, t);
    let (m3, c2) = gain_step(m2, prev, t, seat);
    let (m4, c3) = record_step(m3, seat, es);
    assert(m2.seats == m1.seats);
    assert(m3.seats.len() == m1.seats.len());
    assert forall|k: int| 0 <= k < m1.seats.len() implies #[trigger] m3.seats[k].seat == m1.seats[k].seat by {}
    assert(seat_index(m3.seats, seat) == Some(si)) by {
        lemma_seat_index(m3.seats, seat, 0);
        assert(m3.seats[si].seat == seat);
        if let Some(j) = seat_index(m3.seats, seat) {
            if j < si {
                assert(m1.seats[j].seat != seat);
            }
        }
    }
    assert(m4.seats == m3.seats);
    if let Some(e) = es {
        lemma_focus_index(m3.focus, seat, 0);
        lemma_focus_index(m4.focus, seat, 0);
        match focus_index(m3.focus, seat) {
            Some(j) => {
                assert(m4.focus[j].seat == seat);
                if let Some(j2) = focus_index(m4.focus, seat) {
                    if j2 < j {
                        assert(m3.focus[j2] == m4.focus[j2]);
                    }
                }
            },
            None => {
                let n = m3.focus.len() as int;
                assert(m4.focus[n].seat == seat);
                if let Some(j2) = focus_index(m4.focus, seat) {
                    if j2 < n {
                        assert(m3.focus[j2] == m4.focus[j2]);
                    }
                }
            },
        }
    }
}

} // verus!
