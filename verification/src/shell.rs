//! The desktop-shell policy state machine.
//!
//! Plain records in plain vectors, `Copy` ids, `&mut self`.  All
//! compositor interaction goes through [`ShellHost`]; the bookkeeping
//! itself is a set of pure transitions on [`ShellModel`], each with an
//! exact contract, and the host-facing drivers only sequence queries,
//! transitions and commands.
//!
//! Surfaces are kept sorted by id, which makes every walk over "all
//! surfaces" deterministic.  Parent links are one global list in link
//! order: the children of `p`, most recent last, are the entries whose
//! parent is `p`.

use vstd::prelude::*;
use crate::host::{
    ActivateFlags, ActivateTarget, ActivateVia, HostCall, Rect, ResizeEdges, ShellHost, ViewOffset,
    ACTIVATE_CLICKED, ACTIVATE_CONFIGURE, EDGE_LEFT, EDGE_TOP,
};
use crate::ids::{raw_less, raw_lt, DesktopSurfaceId, OutputId, SeatId, SurfaceId};

verus! {

/// Shell settings.
#[derive(Debug, Clone, Copy, PartialEq, Eq, Structural)]
pub struct ShellConfig {
    /// `[shell] background-color`.
    pub background_color: u32,
}

impl Default for ShellConfig {
    fn default() -> (r: ShellConfig)
        ensures
            r.background_color == 0xff002244,
    {
        ShellConfig { background_color: 0xff002244 }
    }
}

/// Per-surface bookkeeping.
#[derive(Debug, Clone, Copy, PartialEq, Eq, Structural)]
pub struct SurfRecord {
    pub id: DesktopSurfaceId,
    pub parent: Option<DesktopSurfaceId>,
    /// How many seats currently hold this surface as their focused
    /// surface.
    pub focus_count: i32,
    pub last_width: i32,
    pub last_height: i32,
    /// The position Xwayland asked for, as the bits of its `f64`
    /// coordinates, until the surface is mapped.
    pub xwayland: Option<XwaylandPos>,
}

/// A position Xwayland asked for: the bits of its `f64` coordinates.
#[derive(Debug, Clone, Copy, PartialEq, Eq, Structural)]
pub struct XwaylandPos {
    pub x: u64,
    pub y: u64,
}

/// One parent link: `child` stacks above `parent`.
#[derive(Debug, Clone, Copy, PartialEq, Eq, Structural)]
pub struct ChildLink {
    pub parent: DesktopSurfaceId,
    pub child: DesktopSurfaceId,
}

/// Per-seat bookkeeping: the main surface last activated on the seat.
#[derive(Debug, Clone, Copy, PartialEq, Eq, Structural)]
pub struct SeatState {
    pub seat: SeatId,
    pub focused_surface: Option<DesktopSurfaceId>,
}

/// Per-seat keyboard-focus tracking: the surface that actually received
/// focus, watched by the host until untracked.
#[derive(Debug, Clone, Copy, PartialEq, Eq, Structural)]
pub struct FocusEntry {
    pub seat: SeatId,
    pub surface: SurfaceId,
}

/// A host command issued by the focus bookkeeping, in order.
#[derive(Debug, Clone, Copy, PartialEq, Eq, Structural)]
pub enum FocusCommand {
    SetActivated(DesktopSurfaceId, bool),
    Untrack(SurfaceId),
    Raise(DesktopSurfaceId),
}

/// The mathematical state of a shell.
pub ghost struct ShellModel {
    pub config: ShellConfig,
    pub surfaces: Seq<SurfRecord>,
    pub links: Seq<ChildLink>,
    pub seats: Seq<SeatState>,
    pub focus: Seq<FocusEntry>,
    pub rng: u64,
}

pub struct Shell {
    config: ShellConfig,
    surfaces: Vec<SurfRecord>,
    links: Vec<ChildLink>,
    seats: Vec<SeatState>,
    focus: Vec<FocusEntry>,
    rng: u64,
}

impl View for Shell {
    type V = ShellModel;

    closed spec fn view(&self) -> ShellModel {
        ShellModel {
            config: self.config,
            surfaces: self.surfaces@,
            links: self.links@,
            seats: self.seats@,
            focus: self.focus@,
            rng: self.rng,
        }
    }
}

// ---------------------------------------------------------------------
// Lookups
// ---------------------------------------------------------------------

/// First index at or after `from` holding the record of `id`.
pub open spec fn surf_index_from(s: Seq<SurfRecord>, id: DesktopSurfaceId, from: int) -> Option<
    int,
>
    decreases s.len() - from,
{
    if from < 0 || from >= s.len() {
        None
    } else if s[from].id == id {
        Some(from)
    } else {
        surf_index_from(s, id, from + 1)
    }
}

pub open spec fn surf_index(s: Seq<SurfRecord>, id: DesktopSurfaceId) -> Option<int> {
    surf_index_from(s, id, 0)
}

pub open spec fn known(m: ShellModel, id: DesktopSurfaceId) -> bool {
    surf_index(m.surfaces, id) is Some
}

/// First index at or after `from` holding the state of `seat`.
pub open spec fn seat_index_from(s: Seq<SeatState>, seat: SeatId, from: int) -> Option<int>
    decreases s.len() - from,
{
    if from < 0 || from >= s.len() {
        None
    } else if s[from].seat == seat {
        Some(from)
    } else {
        seat_index_from(s, seat, from + 1)
    }
}

pub open spec fn seat_index(s: Seq<SeatState>, seat: SeatId) -> Option<int> {
    seat_index_from(s, seat, 0)
}

/// First index at or after `from` holding the focus entry of `seat`.
pub open spec fn focus_index_from(s: Seq<FocusEntry>, seat: SeatId, from: int) -> Option<int>
    decreases s.len() - from,
{
    if from < 0 || from >= s.len() {
        None
    } else if s[from].seat == seat {
        Some(from)
    } else {
        focus_index_from(s, seat, from + 1)
    }
}

pub open spec fn focus_index(s: Seq<FocusEntry>, seat: SeatId) -> Option<int> {
    focus_index_from(s, seat, 0)
}

pub proof fn lemma_surf_index(s: Seq<SurfRecord>, id: DesktopSurfaceId, from: int)
    requires
        0 <= from,
    ensures
        surf_index_from(s, id, from) matches Some(i) ==> {
            &&& from <= i < s.len()
            &&& s[i].id == id
            &&& forall|j: int| from <= j < i ==> s[j].id != id
        },
        surf_index_from(s, id, from) is None ==> forall|j: int| from <= j < s.len() ==> s[j].id != id,
    decreases s.len() - from,
{
    if from < s.len() && s[from].id != id {
        lemma_surf_index(s, id, from + 1);
    }
}

pub proof fn lemma_seat_index(s: Seq<SeatState>, seat: SeatId, from: int)
    requires
        0 <= from,
    ensures
        seat_index_from(s, seat, from) matches Some(i) ==> {
            &&& from <= i < s.len()
            &&& s[i].seat == seat
            &&& forall|j: int| from <= j < i ==> s[j].seat != seat
        },
        seat_index_from(s, seat, from) is None ==> forall|j: int|
            from <= j < s.len() ==> s[j].seat != seat,
    decreases s.len() - from,
{
    if from < s.len() && s[from].seat != seat {
        lemma_seat_index(s, seat, from + 1);
    }
}

pub proof fn lemma_focus_index(s: Seq<FocusEntry>, seat: SeatId, from: int)
    requires
        0 <= from,
    ensures
        focus_index_from(s, seat, from) matches Some(i) ==> {
            &&& from <= i < s.len()
            &&& s[i].seat == seat
            &&& forall|j: int| from <= j < i ==> s[j].seat != seat
        },
        focus_index_from(s, seat, from) is None ==> forall|j: int|
            from <= j < s.len() ==> s[j].seat != seat,
    decreases s.len() - from,
{
    if from < s.len() && s[from].seat != seat {
        lemma_focus_index(s, seat, from + 1);
    }
}

fn find_surf(s: &Vec<SurfRecord>, id: DesktopSurfaceId) -> (r: Option<usize>)
    ensures
        r matches Some(i) ==> surf_index(s@, id) == Some(i as int),
        r is None ==> surf_index(s@, id) is None,
{
    let mut i: usize = 0;
    while i < s.len()
        invariant
            i <= s@.len(),
            surf_index(s@, id) == surf_index_from(s@, id, i as int),
        decreases s@.len() - i,
    {
        if s[i].id == id {
            return Some(i);
        }
        i += 1;
    }
    None
}

fn find_seat(s: &Vec<SeatState>, seat: SeatId) -> (r: Option<usize>)
    ensures
        r matches Some(i) ==> seat_index(s@, seat) == Some(i as int),
        r is None ==> seat_index(s@, seat) is None,
{
    let mut i: usize = 0;
    while i < s.len()
        invariant
            i <= s@.len(),
            seat_index(s@, seat) == seat_index_from(s@, seat, i as int),
        decreases s@.len() - i,
    {
        if s[i].seat == seat {
            return Some(i);
        }
        i += 1;
    }
    None
}

fn find_focus(s: &Vec<FocusEntry>, seat: SeatId) -> (r: Option<usize>)
    ensures
        r matches Some(i) ==> focus_index(s@, seat) == Some(i as int),
        r is None ==> focus_index(s@, seat) is None,
{
    let mut i: usize = 0;
    while i < s.len()
        invariant
            i <= s@.len(),
            focus_index(s@, seat) == focus_index_from(s@, seat, i as int),
        decreases s@.len() - i,
    {
        if s[i].seat == seat {
            return Some(i);
        }
        i += 1;
    }
    None
}

// ---------------------------------------------------------------------
// Link-list filters
// ---------------------------------------------------------------------

/// `l` without the links whose parent is `p`.
pub open spec fn drop_parent(l: Seq<ChildLink>, p: DesktopSurfaceId) -> Seq<ChildLink>
    decreases l.len(),
{
    if l.len() == 0 {
        l
    } else {
        let r = drop_parent(l.drop_last(), p);
        if l.last().parent == p {
            r
        } else {
            r.push(l.last())
        }
    }
}

/// `l` without the link `p -> c`.
pub open spec fn drop_link(l: Seq<ChildLink>, p: DesktopSurfaceId, c: DesktopSurfaceId) -> Seq<
    ChildLink,
>
    decreases l.len(),
{
    if l.len() == 0 {
        l
    } else {
        let r = drop_link(l.drop_last(), p, c);
        if l.last() == (ChildLink { parent: p, child: c }) {
            r
        } else {
            r.push(l.last())
        }
    }
}

pub open spec fn has_link(l: Seq<ChildLink>, p: DesktopSurfaceId, c: DesktopSurfaceId) -> bool {
    l.contains(ChildLink { parent: p, child: c })
}

fn without_parent(l: &Vec<ChildLink>, p: DesktopSurfaceId) -> (r: Vec<ChildLink>)
    ensures
        r@ == drop_parent(l@, p),
{
    let mut out: Vec<ChildLink> = Vec::new();
    let mut i: usize = 0;
    while i < l.len()
        invariant
            i <= l@.len(),
            out@ == drop_parent(l@.take(i as int), p),
        decreases l@.len() - i,
    {
        assert(l@.take(i + 1).drop_last() =~= l@.take(i as int));
        let e = l[i];
        if e.parent != p {
            out.push(e);
        }
        i += 1;
    }
    assert(l@.take(i as int) =~= l@);
    out
}

fn without_link(l: &Vec<ChildLink>, p: DesktopSurfaceId, c: DesktopSurfaceId) -> (r: Vec<
    ChildLink,
>)
    ensures
        r@ == drop_link(l@, p, c),
{
    let mut out: Vec<ChildLink> = Vec::new();
    let mut i: usize = 0;
    while i < l.len()
        invariant
            i <= l@.len(),
            out@ == drop_link(l@.take(i as int), p, c),
        decreases l@.len() - i,
    {
        assert(l@.take(i + 1).drop_last() =~= l@.take(i as int));
        let e = l[i];
        if !(e.parent == p && e.child == c) {
            out.push(e);
        }
        i += 1;
    }
    assert(l@.take(i as int) =~= l@);
    out
}

fn link_exists(l: &Vec<ChildLink>, p: DesktopSurfaceId, c: DesktopSurfaceId) -> (r: bool)
    ensures
        r == has_link(l@, p, c),
{
    let mut i: usize = 0;
    while i < l.len()
        invariant
            i <= l@.len(),
            forall|k: int| 0 <= k < i ==> l@[k] != (ChildLink { parent: p, child: c }),
        decreases l@.len() - i,
    {
        if l[i].parent == p && l[i].child == c {
            assert(l@[i as int] == (ChildLink { parent: p, child: c }));
            return true;
        }
        i += 1;
    }
    false
}

fn insert_position(s: &Vec<SurfRecord>, id: DesktopSurfaceId) -> (r: usize)
    ensures
        r == insert_pos_from(s@, id, 0),
{
    let mut pos: usize = 0;
    while pos < s.len()
        invariant
            pos <= s@.len(),
            insert_pos_from(s@, id, 0) == insert_pos_from(s@, id, pos as int),
        decreases s@.len() - pos,
    {
        if !raw_less(s[pos].id.0, id.0) {
            return pos;
        }
        pos += 1;
    }
    pos
}

// ---------------------------------------------------------------------
// Lifecycle transitions
// ---------------------------------------------------------------------

pub open spec fn fresh_record(id: DesktopSurfaceId) -> SurfRecord {
    SurfRecord { id, parent: None, focus_count: 0, last_width: 0, last_height: 0, xwayland: None }
}

/// Where a new record goes: before the first record whose id is not
/// smaller.
pub open spec fn insert_pos_from(s: Seq<SurfRecord>, id: DesktopSurfaceId, from: int) -> int
    decreases s.len() - from,
{
    if from < 0 || from >= s.len() {
        s.len() as int
    } else if !raw_lt(s[from].id.0, id.0) {
        from
    } else {
        insert_pos_from(s, id, from + 1)
    }
}

pub proof fn lemma_insert_pos(s: Seq<SurfRecord>, id: DesktopSurfaceId, from: int)
    requires
        0 <= from <= s.len(),
    ensures
        from <= insert_pos_from(s, id, from) <= s.len(),
        forall|j: int| from <= j < insert_pos_from(s, id, from) ==> raw_lt(s[j].id.0, id.0),
        insert_pos_from(s, id, from) < s.len() ==> !raw_lt(
            s[insert_pos_from(s, id, from)].id.0,
            id.0,
        ),
    decreases s.len() - from,
{
    if from < s.len() && raw_lt(s[from].id.0, id.0) {
        lemma_insert_pos(s, id, from + 1);
    }
}

/// A new desktop surface: fresh bookkeeping.  A surface already known
/// has its record reset and its own child list emptied.
pub open spec fn add_surface_spec(m: ShellModel, id: DesktopSurfaceId) -> ShellModel {
    match surf_index(m.surfaces, id) {
        Some(i) => ShellModel {
            surfaces: m.surfaces.update(i, fresh_record(id)),
            links: drop_parent(m.links, id),
            ..m
        },
        None => ShellModel {
            surfaces: m.surfaces.insert(insert_pos_from(m.surfaces, id, 0), fresh_record(id)),
            ..m
        },
    }
}

/// The record with its parent cleared when `l` links it below `p`.
pub open spec fn unparent_if_child(r: SurfRecord, l: Seq<ChildLink>, p: DesktopSurfaceId) -> SurfRecord {
    if has_link(l, p, r.id) {
        SurfRecord { parent: None, ..r }
    } else {
        r
    }
}

pub open spec fn clear_focus_of(st: SeatState, id: DesktopSurfaceId) -> SeatState {
    if st.focused_surface == Some(id) {
        SeatState { focused_surface: None, ..st }
    } else {
        st
    }
}

/// A desktop surface went away: every seat forgets it, its children
/// lose their parent (they live on unparented), and it leaves its
/// parent's child list.
pub open spec fn cleared_seats(s: Seq<SeatState>, id: DesktopSurfaceId) -> Seq<SeatState> {
    Seq::new(s.len(), |k: int| clear_focus_of(s[k], id))
}

pub open spec fn unparented(s: Seq<SurfRecord>, l: Seq<ChildLink>, p: DesktopSurfaceId) -> Seq<
    SurfRecord,
> {
    Seq::new(s.len(), |k: int| unparent_if_child(s[k], l, p))
}

pub open spec fn remove_surface_spec(m: ShellModel, id: DesktopSurfaceId) -> ShellModel {
    let seats = cleared_seats(m.seats, id);
    match surf_index(m.surfaces, id) {
        None => ShellModel { seats, ..m },
        Some(i) => {
            let rec = m.surfaces[i];
            let rest = m.surfaces.remove(i);
            let surfaces = unparented(rest, m.links, id);
            let links1 = drop_parent(m.links, id);
            let links = match rec.parent {
                Some(p) => if surf_index(surfaces, p) is Some {
                    drop_link(links1, p, id)
                } else {
                    links1
                },
                None => links1,
            };
            ShellModel { seats, surfaces, links, ..m }
        },
    }
}

/// Parent change: leave the old parent's child list, and join the new
/// parent's (at the top) when the new parent is known; otherwise the
/// surface ends up unparented.  Unknown surfaces are ignored.
pub open spec fn set_parent_spec(
    m: ShellModel,
    id: DesktopSurfaceId,
    parent: Option<DesktopSurfaceId>,
) -> ShellModel {
    match surf_index(m.surfaces, id) {
        None => m,
        Some(i) => {
            let rec = m.surfaces[i];
            let links1 = match rec.parent {
                Some(op) => if known(m, op) {
                    drop_link(m.links, op, id)
                } else {
                    m.links
                },
                None => m.links,
            };
            match parent {
                Some(np) => if known(m, np) {
                    ShellModel {
                        surfaces: m.surfaces.update(i, SurfRecord { parent: Some(np), ..rec }),
                        links: links1.push(ChildLink { parent: np, child: id }),
                        ..m
                    }
                } else {
                    ShellModel {
                        surfaces: m.surfaces.update(i, SurfRecord { parent: None, ..rec }),
                        links: links1,
                        ..m
                    }
                },
                None => ShellModel {
                    surfaces: m.surfaces.update(i, SurfRecord { parent: None, ..rec }),
                    links: links1,
                    ..m
                },
            }
        },
    }
}

impl Shell {
    pub fn new(config: ShellConfig) -> (s: Shell)
        ensures
            s@ == (ShellModel {
                config,
                surfaces: Seq::empty(),
                links: Seq::empty(),
                seats: Seq::empty(),
                focus: Seq::empty(),
                rng: 0x853c49e6748fea9b,
            }),
    {
        Shell {
            config,
            surfaces: Vec::new(),
            links: Vec::new(),
            seats: Vec::new(),
            focus: Vec::new(),
            rng: 0x853c49e6748fea9b,
        }
    }

    pub fn config(&self) -> (c: ShellConfig)
        ensures
            c == self@.config,
    {
        self.config
    }

    /// A new desktop surface exists.
    pub fn surface_added(&mut self, id: DesktopSurfaceId)
        ensures
            final(self)@ == add_surface_spec(old(self)@, id),
    {
        let ghost m = self@;
        proof {
            lemma_surf_index(m.surfaces, id, 0);
        }
        match find_surf(&self.surfaces, id) {
            Some(i) => {
                self.surfaces.set(i, SurfRecord { id, parent: None, focus_count: 0, last_width: 0, last_height: 0, xwayland: None });
                self.links = without_parent(&self.links, id);
            },
            None => {
                let pos = insert_position(&self.surfaces, id);
                proof {
                    lemma_insert_pos(m.surfaces, id, 0);
                }
                self.surfaces.insert(pos, SurfRecord { id, parent: None, focus_count: 0, last_width: 0, last_height: 0, xwayland: None });
            },
        }
        assert(self@ == add_surface_spec(m, id));
    }

    /// Bookkeeping half of a desktop surface's removal (the host
    /// teardown is [`Shell::surface_removed`]).
    pub fn forget_surface(&mut self, id: DesktopSurfaceId)
        ensures
            final(self)@ == remove_surface_spec(old(self)@, id),
    {
        let ghost m = self@;
        let mut k: usize = 0;
        while k < self.seats.len()
            invariant
                k <= self.seats@.len(),
                self.seats@.len() == m.seats.len(),
                self.surfaces@ == m.surfaces,
                self.links@ == m.links,
                self.focus@ == m.focus,
                self.config == m.config,
                self.rng == m.rng,
                forall|j: int| 0 <= j < k ==> self.seats@[j] == clear_focus_of(m.seats[j], id),
                forall|j: int| k <= j < self.seats@.len() ==> self.seats@[j] == m.seats[j],
            decreases self.seats@.len() - k,
        {
            let st = self.seats[k];
            if st.focused_surface == Some(id) {
                self.seats.set(k, SeatState { seat: st.seat, focused_surface: None });
            }
            k += 1;
        }
        assert(self.seats@ =~= cleared_seats(m.seats, id));
        proof {
            lemma_surf_index(m.surfaces, id, 0);
        }
        match find_surf(&self.surfaces, id) {
            None => {},
            Some(i) => {
                let rec = self.surfaces.remove(i);
                let ghost rest = self.surfaces@;
                let mut j: usize = 0;
                while j < self.surfaces.len()
                    invariant
                        j <= self.surfaces@.len(),
                        self.surfaces@.len() == rest.len(),
                        self.links@ == m.links,
                        self.seats@ == cleared_seats(m.seats, id),
                        self.focus@ == m.focus,
                        self.config == m.config,
                        self.rng == m.rng,
                        forall|q: int| 0 <= q < j ==> self.surfaces@[q] == unparent_if_child(rest[q], m.links, id),
                        forall|q: int| j <= q < self.surfaces@.len() ==> self.surfaces@[q] == rest[q],
                    decreases self.surfaces@.len() - j,
                {
                    let r = self.surfaces[j];
                    if link_exists(&self.links, id, r.id) {
                        self.surfaces.set(j, SurfRecord { id: r.id, parent: None, focus_count: r.focus_count, last_width: r.last_width, last_height: r.last_height, xwayland: r.xwayland });
                    }
                    j += 1;
                }
                let ghost surfs = unparented(rest, m.links, id);
                assert(self.surfaces@ =~= surfs);
                let links1 = without_parent(&self.links, id);
                self.links = links1;
                match rec.parent {
                    Some(p) => {
                        proof {
                            lemma_surf_index(surfs, p, 0);
                        }
                        if find_surf(&self.surfaces, p).is_some() {
                            self.links = without_link(&self.links, p, id);
                        }
                    },
                    None => {},
                }
            },
        }
        assert(self@ == remove_surface_spec(m, id));
    }

    /// A desktop surface went away: forget it, then have the host tear
    /// down its shell view and per-surface state.
    pub fn surface_removed<H: ShellHost>(&mut self, host: &mut H, id: DesktopSurfaceId) -> (calls: Vec<
        HostCall,
    >)
        ensures
            final(host).received() == old(host).received() + calls@,
            final(self)@ == remove_surface_spec(old(self)@, id),
            calls@ == seq![HostCall::DestroySurfaceState(id)],
    {
        self.forget_surface(id);
        let mut log: Vec<HostCall> = Vec::new();
        let _ = issue(host, HostCall::DestroySurfaceState(id), &mut log);
        log
    }

    /// The parent of a surface changed.
    pub fn parent_set(&mut self, id: DesktopSurfaceId, parent: Option<DesktopSurfaceId>)
        ensures
            final(self)@ == set_parent_spec(old(self)@, id, parent),
    {
        let ghost m = self@;
        proof {
            lemma_surf_index(m.surfaces, id, 0);
        }
        let i = match find_surf(&self.surfaces, id) {
            None => return,
            Some(i) => i,
        };
        let rec = self.surfaces[i];
        match rec.parent {
            Some(op) => {
                if find_surf(&self.surfaces, op).is_some() {
                    self.links = without_link(&self.links, op, id);
                }
            },
            None => {},
        }
        match parent {
            Some(np) => {
                if find_surf(&self.surfaces, np).is_some() {
                    self.links.push(ChildLink { parent: np, child: id });
                    self.surfaces.set(i, SurfRecord { id: rec.id, parent: Some(np), focus_count: rec.focus_count, last_width: rec.last_width, last_height: rec.last_height, xwayland: rec.xwayland });
                    assert(self@ == set_parent_spec(m, id, parent));
                    return;
                }
            },
            None => {},
        }
        self.surfaces.set(i, SurfRecord { id: rec.id, parent: None, focus_count: rec.focus_count, last_width: rec.last_width, last_height: rec.last_height, xwayland: rec.xwayland });
        assert(self@ == set_parent_spec(m, id, parent));
    }
}


// ---------------------------------------------------------------------
// Focus bookkeeping
// ---------------------------------------------------------------------

pub open spec fn parent_of(m: ShellModel, id: DesktopSurfaceId) -> Option<DesktopSurfaceId> {
    match surf_index(m.surfaces, id) {
        Some(i) => m.surfaces[i].parent,
        None => None,
    }
}

/// The climb to the root parent from `r`, `hops` steps already taken:
/// at most 65 steps, since parents are client-controlled and may form
/// a cycle.
pub open spec fn climb(m: ShellModel, r: DesktopSurfaceId, hops: int) -> DesktopSurfaceId
    decreases 65 - hops,
{
    if hops < 0 || hops > 64 {
        r
    } else {
        match parent_of(m, r) {
            None => r,
            Some(p) => if hops + 1 > 64 {
                p
            } else {
                climb(m, p, hops + 1)
            },
        }
    }
}

pub open spec fn root_of(m: ShellModel, id: DesktopSurfaceId) -> DesktopSurfaceId {
    climb(m, id, 0)
}

/// Whether `id`, or a transitive child within 64 levels below it, is
/// focused on some seat.
pub open spec fn focused_below(m: ShellModel, id: DesktopSurfaceId, depth: int) -> bool
    decreases 65 - depth, m.links.len() + 1,
{
    if depth < 0 || depth > 64 {
        false
    } else {
        match surf_index(m.surfaces, id) {
            None => false,
            Some(i) => m.surfaces[i].focus_count > 0 || any_child_focused(m, id, depth, 0),
        }
    }
}

/// Whether a child of `id` linked at index `k` or later is
/// `focused_below` at the next depth.
pub open spec fn any_child_focused(m: ShellModel, id: DesktopSurfaceId, depth: int, k: int) -> bool
    decreases 65 - depth, m.links.len() - k,
{
    if depth < 0 || depth > 64 || k < 0 || k >= m.links.len() {
        false
    } else {
        (m.links[k].parent == id && focused_below(m, m.links[k].child, depth + 1))
            || any_child_focused(m, id, depth, k + 1)
    }
}

/// One step of a focus count, saturating at the `i32` bounds.
pub open spec fn bump(c: i32, up: bool) -> i32 {
    if up {
        if c < i32::MAX {
            (c + 1) as i32
        } else {
            c
        }
    } else {
        if c > i32::MIN {
            (c - 1) as i32
        } else {
            c
        }
    }
}

/// Change the focus count of `id` by one; when it crosses zero, the
/// root of its parent chain is (de)activated according to whether any
/// surface of that tree is still focused.
pub open spec fn change_count_spec(m: ShellModel, id: DesktopSurfaceId, up: bool) -> (
    ShellModel,
    Option<FocusCommand>,
) {
    match surf_index(m.surfaces, id) {
        None => (m, None),
        Some(i) => {
            let rec = m.surfaces[i];
            let after = bump(rec.focus_count, up);
            let m2 = ShellModel {
                surfaces: m.surfaces.update(i, SurfRecord { focus_count: after, ..rec }),
                ..m
            };
            if (rec.focus_count == 0) != (after == 0) {
                let r = root_of(m2, id);
                (m2, Some(FocusCommand::SetActivated(r, focused_below(m2, r, 0))))
            } else {
                (m2, None)
            }
        },
    }
}

/// The seat's state, created empty when the seat is new.
pub open spec fn ensure_seat(m: ShellModel, seat: SeatId) -> ShellModel {
    if seat_index(m.seats, seat) is Some {
        m
    } else {
        ShellModel { seats: m.seats.push(SeatState { seat, focused_surface: None }), ..m }
    }
}

pub open spec fn set_focused(m: ShellModel, seat: SeatId, id: DesktopSurfaceId) -> ShellModel {
    match seat_index(m.seats, seat) {
        Some(k) => ShellModel {
            seats: m.seats.update(k, SeatState { seat, focused_surface: Some(id) }),
            ..m
        },
        None => m,
    }
}

/// Record `e` as the seat's focus surface; a different surface it
/// replaces is released.
pub open spec fn focus_insert_spec(m: ShellModel, seat: SeatId, e: SurfaceId) -> (
    ShellModel,
    Option<FocusCommand>,
) {
    match focus_index(m.focus, seat) {
        Some(j) => {
            let old = m.focus[j].surface;
            let m2 = ShellModel { focus: m.focus.update(j, FocusEntry { seat, surface: e }), ..m };
            if old != e {
                (m2, Some(FocusCommand::Untrack(old)))
            } else {
                (m2, None)
            }
        },
        None => (ShellModel { focus: m.focus.push(FocusEntry { seat, surface: e }), ..m }, None),
    }
}

pub open spec fn opt_cmd(c: Option<FocusCommand>) -> Seq<FocusCommand> {
    match c {
        Some(x) => seq![x],
        None => Seq::empty(),
    }
}

/// The bookkeeping after input activation of `t` on `seat` gave keyboard
/// focus to `es`: the previously focused surface loses one count, `t`
/// gains one (unless it was already the seat's focus), the focus
/// surface is recorded, and `t` is raised.  Returns the commands in
/// issue order.
pub open spec fn release_step(m: ShellModel, prev: Option<DesktopSurfaceId>, t: DesktopSurfaceId) -> (
    ShellModel,
    Option<FocusCommand>,
) {
    if prev matches Some(p) && p != t && known(m, p) {
        change_count_spec(m, prev->0, false)
    } else {
        (m, None)
    }
}

pub open spec fn gain_step(
    m: ShellModel,
    prev: Option<DesktopSurfaceId>,
    t: DesktopSurfaceId,
    seat: SeatId,
) -> (ShellModel, Option<FocusCommand>) {
    if prev != Some(t) {
        let (mm, c) = change_count_spec(m, t, true);
        (set_focused(mm, seat, t), c)
    } else {
        (m, None)
    }
}

pub open spec fn record_step(m: ShellModel, seat: SeatId, es: Option<SurfaceId>) -> (
    ShellModel,
    Option<FocusCommand>,
) {
    match es {
        Some(e) => focus_insert_spec(m, seat, e),
        None => (m, None),
    }
}

pub open spec fn prev_focus(m: ShellModel, seat: SeatId) -> Option<DesktopSurfaceId> {
    m.seats[seat_index(m.seats, seat)->0].focused_surface
}

pub open spec fn focus_update_spec(
    m: ShellModel,
    t: DesktopSurfaceId,
    seat: SeatId,
    es: Option<SurfaceId>,
) -> (ShellModel, Seq<FocusCommand>) {
    let m1 = ensure_seat(m, seat);
    let prev = prev_focus(m1, seat);
    let (m2, c1) = release_step(m1, prev, t);
    let (m3, c2) = gain_step(m2, prev, t, seat);
    let (m4, c3) = record_step(m3, seat, es);
    (m4, opt_cmd(c1) + opt_cmd(c2) + opt_cmd(c3) + seq![FocusCommand::Raise(t)])
}

/// The most recently linked child of `p` among the first `n` links that
/// is in `mapped`.
pub open spec fn last_mapped_child(
    l: Seq<ChildLink>,
    p: DesktopSurfaceId,
    mapped: Seq<DesktopSurfaceId>,
    n: int,
) -> Option<DesktopSurfaceId>
    decreases n,
{
    if n <= 0 || n > l.len() {
        None
    } else if l[n - 1].parent == p && mapped.contains(l[n - 1].child) {
        Some(l[n - 1].child)
    } else {
        last_mapped_child(l, p, mapped, n - 1)
    }
}

/// Activation lands on the last mapped child instead of the parent,
/// transitively, for at most 64 redirections.  Returns the landing
/// surface and the number of redirections; `None` when the walk reaches
/// a surface the shell does not know.
pub open spec fn redirect(
    m: ShellModel,
    mapped: Seq<DesktopSurfaceId>,
    s: DesktopSurfaceId,
    hops: int,
) -> Option<(DesktopSurfaceId, int)>
    decreases 64 - hops,
{
    if !known(m, s) {
        None
    } else if hops < 0 || hops >= 64 {
        Some((s, hops))
    } else {
        match last_mapped_child(m.links, s, mapped, m.links.len() as int) {
            None => Some((s, hops)),
            Some(c) => redirect(m, mapped, c, hops + 1),
        }
    }
}

fn bumped(c: i32, up: bool) -> (r: i32)
    ensures
        r == bump(c, up),
{
    if up {
        if c < i32::MAX {
            c + 1
        } else {
            c
        }
    } else {
        if c > i32::MIN {
            c - 1
        } else {
            c
        }
    }
}

impl Shell {
    fn parent_of_exec(&self, id: DesktopSurfaceId) -> (r: Option<DesktopSurfaceId>)
        ensures
            r == parent_of(self@, id),
    {
        proof {
            lemma_surf_index(self@.surfaces, id, 0);
        }
        match find_surf(&self.surfaces, id) {
            Some(i) => self.surfaces[i].parent,
            None => None,
        }
    }

    fn root_of_exec(&self, id: DesktopSurfaceId) -> (r: DesktopSurfaceId)
        ensures
            r == root_of(self@, id),
    {
        let mut root = id;
        let mut hops: u32 = 0;
        while hops <= 64
            invariant
                hops <= 64,
                climb(self@, id, 0) == climb(self@, root, hops as int),
            decreases 65 - hops,
        {
            match self.parent_of_exec(root) {
                None => return root,
                Some(p) => {
                    if hops + 1 > 64 {
                        return p;
                    }
                    root = p;
                    hops += 1;
                },
            }
        }
        root
    }

    fn focused_below_exec(&self, id: DesktopSurfaceId, depth: u32) -> (r: bool)
        ensures
            r == focused_below(self@, id, depth as int),
        decreases 65 - depth,
    {
        if depth > 64 {
            return false;
        }
        proof {
            lemma_surf_index(self@.surfaces, id, 0);
        }
        let i = match find_surf(&self.surfaces, id) {
            None => return false,
            Some(i) => i,
        };
        if self.surfaces[i].focus_count > 0 {
            return true;
        }
        let mut k: usize = 0;
        while k < self.links.len()
            invariant
                depth <= 64,
                k <= self.links@.len(),
                surf_index(self@.surfaces, id) is Some,
                any_child_focused(self@, id, depth as int, 0) == any_child_focused(
                    self@,
                    id,
                    depth as int,
                    k as int,
                ),
            decreases self.links@.len() - k,
        {
            let l = self.links[k];
            if l.parent == id && self.focused_below_exec(l.child, depth + 1) {
                assert(any_child_focused(self@, id, depth as int, k as int));
                return true;
            }
            k += 1;
        }
        false
    }

    fn change_count(&mut self, id: DesktopSurfaceId, up: bool) -> (r: Option<FocusCommand>)
        ensures
            (final(self)@, r) == change_count_spec(old(self)@, id, up),
    {
        let ghost m = self@;
        proof {
            lemma_surf_index(m.surfaces, id, 0);
        }
        match find_surf(&self.surfaces, id) {
            None => None,
            Some(i) => {
                let rec = self.surfaces[i];
                let after = bumped(rec.focus_count, up);
                self.surfaces.set(
                    i,
                    SurfRecord {
                        id: rec.id,
                        parent: rec.parent,
                        focus_count: after,
                        last_width: rec.last_width,
                        last_height: rec.last_height,
                        xwayland: rec.xwayland,
                    },
                );
                assert(self@ == change_count_spec(m, id, up).0);
                if (rec.focus_count == 0) != (after == 0) {
                    let r = self.root_of_exec(id);
                    let active = self.focused_below_exec(r, 0);
                    Some(FocusCommand::SetActivated(r, active))
                } else {
                    None
                }
            },
        }
    }

    fn ensure_seat_exec(&mut self, seat: SeatId) -> (si: usize)
        ensures
            final(self)@ == ensure_seat(old(self)@, seat),
            seat_index(final(self)@.seats, seat) == Some(si as int),
            si < final(self)@.seats.len(),
    {
        let ghost m = self@;
        proof {
            lemma_seat_index(m.seats, seat, 0);
        }
        match find_seat(&self.seats, seat) {
            Some(k) => k,
            None => {
                self.seats.push(SeatState { seat, focused_surface: None });
                proof {
                    let n = m.seats.len() as int;
                    assert(forall|j: int| 0 <= j < n ==> self.seats@[j].seat != seat);
                    assert(self.seats@[n].seat == seat);
                    lemma_seat_index(self@.seats, seat, 0);
                    match seat_index(self@.seats, seat) {
                        Some(i) => {
                            if i < n {
                                assert(self.seats@[i].seat != seat);
                            }
                        },
                        None => {},
                    }
                }
                assert(self@ == ensure_seat(m, seat));
                self.seats.len() - 1
            },
        }
    }

    fn release_exec(&mut self, prev: Option<DesktopSurfaceId>, t: DesktopSurfaceId) -> (r: Option<
        FocusCommand,
    >)
        ensures
            (final(self)@, r) == release_step(old(self)@, prev, t),
    {
        proof {
            if prev is Some {
                lemma_surf_index(self@.surfaces, prev->0, 0);
            }
        }
        match prev {
            Some(p) => {
                if p != t && find_surf(&self.surfaces, p).is_some() {
                    return self.change_count(p, false);
                }
            },
            None => {},
        }
        None
    }

    fn gain_exec(&mut self, prev: Option<DesktopSurfaceId>, t: DesktopSurfaceId, seat: SeatId, si: usize) -> (r:
        Option<FocusCommand>)
        requires
            seat_index(old(self)@.seats, seat) == Some(si as int),
            si < old(self)@.seats.len(),
        ensures
            (final(self)@, r) == gain_step(old(self)@, prev, t, seat),
    {
        if prev != Some(t) {
            let c = self.change_count(t, true);
            self.seats.set(si, SeatState { seat, focused_surface: Some(t) });
            c
        } else {
            None
        }
    }

    fn record_exec(&mut self, seat: SeatId, es: Option<SurfaceId>) -> (r: Option<FocusCommand>)
        ensures
            (final(self)@, r) == record_step(old(self)@, seat, es),
    {
        match es {
            Some(e) => {
                proof {
                    lemma_focus_index(self@.focus, seat, 0);
                }
                match find_focus(&self.focus, seat) {
                    Some(j) => {
                        let old = self.focus[j].surface;
                        self.focus.set(j, FocusEntry { seat, surface: e });
                        if old != e {
                            Some(FocusCommand::Untrack(old))
                        } else {
                            None
                        }
                    },
                    None => {
                        self.focus.push(FocusEntry { seat, surface: e });
                        None
                    },
                }
            },
            None => None,
        }
    }

    /// The focus bookkeeping that follows an input activation of `t` on
    /// `seat` which gave keyboard focus to `es`.  Returns the host
    /// commands to issue, in order.
    pub fn focus_update(&mut self, t: DesktopSurfaceId, seat: SeatId, es: Option<SurfaceId>) -> (r:
        Vec<FocusCommand>)
        ensures
            (final(self)@, r@) == focus_update_spec(old(self)@, t, seat, es),
    {
        let si = self.ensure_seat_exec(seat);
        let prev = self.seats[si].focused_surface;
        let mut cmds: Vec<FocusCommand> = Vec::new();
        let c1 = self.release_exec(prev, t);
        proof {
            assert(seat_index(self@.seats, seat) == Some(si as int));
        }
        let c2 = self.gain_exec(prev, t, seat, si);
        let c3 = self.record_exec(seat, es);
        match c1 {
            Some(c) => cmds.push(c),
            None => {},
        }
        match c2 {
            Some(c) => cmds.push(c),
            None => {},
        }
        match c3 {
            Some(c) => cmds.push(c),
            None => {},
        }
        cmds.push(FocusCommand::Raise(t));
        assert(cmds@ =~= opt_cmd(c1) + opt_cmd(c2) + opt_cmd(c3) + seq![FocusCommand::Raise(t)]);
        cmds
    }
}


// ---------------------------------------------------------------------
// Activation
// ---------------------------------------------------------------------

/// Two states that differ at most in focus counts, seat states and
/// focus entries.
pub open spec fn same_shape(a: ShellModel, b: ShellModel) -> bool {
    &&& a.config == b.config
    &&& a.rng == b.rng
    &&& a.links == b.links
    &&& a.surfaces.len() == b.surfaces.len()
    &&& forall|i: int|
        0 <= i < a.surfaces.len() ==> {
            &&& #[trigger] a.surfaces[i].id == b.surfaces[i].id
            &&& a.surfaces[i].parent == b.surfaces[i].parent
            &&& a.surfaces[i].last_width == b.surfaces[i].last_width
            &&& a.surfaces[i].last_height == b.surfaces[i].last_height
        }
}

pub proof fn lemma_same_shape_trans(a: ShellModel, b: ShellModel, c: ShellModel)
    requires
        same_shape(a, b),
        same_shape(b, c),
    ensures
        same_shape(a, c),
{
    assert forall|i: int| 0 <= i < a.surfaces.len() implies {
        &&& #[trigger] a.surfaces[i].id == c.surfaces[i].id
        &&& a.surfaces[i].parent == c.surfaces[i].parent
        &&& a.surfaces[i].last_width == c.surfaces[i].last_width
        &&& a.surfaces[i].last_height == c.surfaces[i].last_height
    } by {
        assert(a.surfaces[i].id == b.surfaces[i].id);
        assert(b.surfaces[i].id == c.surfaces[i].id);
    }
}

pub proof fn lemma_change_count_shape(m: ShellModel, id: DesktopSurfaceId, up: bool)
    ensures
        same_shape(m, change_count_spec(m, id, up).0),
{
    let m2 = change_count_spec(m, id, up).0;
    if let Some(i) = surf_index(m.surfaces, id) {
        lemma_surf_index(m.surfaces, id, 0);
        assert forall|j: int| 0 <= j < m.surfaces.len() implies {
            &&& #[trigger] m.surfaces[j].id == m2.surfaces[j].id
            &&& m.surfaces[j].parent == m2.surfaces[j].parent
            &&& m.surfaces[j].last_width == m2.surfaces[j].last_width
            &&& m.surfaces[j].last_height == m2.surfaces[j].last_height
        } by {
            if j != i {
                assert(m2.surfaces[j] == m.surfaces[j]);
            }
        }
    }
}

/// The focus bookkeeping touches nothing but counts, seats and focus
/// entries.
pub proof fn lemma_focus_update_shape(
    m: ShellModel,
    t: DesktopSurfaceId,
    seat: SeatId,
    es: Option<SurfaceId>,
)
    ensures
        same_shape(m, focus_update_spec(m, t, seat, es).0),
{
    let m1 = ensure_seat(m, seat);
    let prev = prev_focus(m1, seat);
    let (m2, c1) = release_step(m1, prev, t);
    let (m3, c2) = gain_step(m2, prev, t, seat);
    let (m4, c3) = record_step(m3, seat, es);
    assert(same_shape(m, m1));
    if prev matches Some(p) && p != t && known(m1, p) {
        lemma_change_count_shape(m1, prev->0, false);
    }
    assert(same_shape(m1, m2));
    lemma_same_shape_trans(m, m1, m2);
    if prev != Some(t) {
        lemma_change_count_shape(m2, t, true);
        let mm = change_count_spec(m2, t, true).0;
        assert(same_shape(mm, m3));
        lemma_same_shape_trans(m2, mm, m3);
    }
    assert(same_shape(m2, m3));
    lemma_same_shape_trans(m, m2, m3);
    assert(same_shape(m3, m4));
    lemma_same_shape_trans(m, m3, m4);
}

/// The host call a focus command becomes.
pub open spec fn focus_call(f: FocusCommand) -> HostCall {
    match f {
        FocusCommand::SetActivated(id, a) => HostCall::SetActivated(id, a),
        FocusCommand::Untrack(s) => HostCall::Untrack(s),
        FocusCommand::Raise(id) => HostCall::Raise(id),
    }
}

/// The host calls of a list of focus commands, in order.
pub open spec fn focus_calls(c: Seq<FocusCommand>) -> Seq<HostCall> {
    Seq::new(c.len(), |i: int| focus_call(c[i]))
}

/// Where input activation goes: the requested target, unless the
/// activation was redirected to a child, whose own view then takes it.
pub open spec fn input_target(hops: int, t: DesktopSurfaceId, target: ActivateTarget) -> ActivateTarget {
    if hops == 0 {
        target
    } else {
        ActivateTarget::SurfaceView(t)
    }
}

/// What activating `surface` on `seat` does, given the linked children
/// the host reports as mapped and the surface that took keyboard focus:
/// nothing for an unknown surface; else one input activation on the
/// redirect target, then the focus bookkeeping's commands, in order.
pub open spec fn activation_effect(
    m: ShellModel,
    mapped: Seq<DesktopSurfaceId>,
    es: Option<SurfaceId>,
    surface: DesktopSurfaceId,
    seat: SeatId,
    flags: ActivateFlags,
    target: ActivateTarget,
) -> (ShellModel, Seq<HostCall>) {
    match redirect(m, mapped, surface, 0) {
        None => (m, Seq::empty()),
        Some((t, h)) => (
            focus_update_spec(m, t, seat, es).0,
            seq![HostCall::ActivateInput(input_target(h, t, target), seat, flags)] + focus_calls(
                focus_update_spec(m, t, seat, es).1,
            ),
        ),
    }
}

/// `m2` and `calls` are what activating `surface` on `seat` leaves of
/// `m`, for some answers of the host: which linked children are mapped
/// (one answer per link), and which surface took keyboard focus.
pub open spec fn activation_step(
    m: ShellModel,
    m2: ShellModel,
    calls: Seq<HostCall>,
    surface: DesktopSurfaceId,
    seat: SeatId,
    flags: ActivateFlags,
    target: ActivateTarget,
) -> bool {
    exists|fl: Seq<bool>, es: Option<SurfaceId>|
        fl.len() == m.links.len() && #[trigger] activation_effect(
            m,
            selected_children(m.links, fl),
            es,
            surface,
            seat,
            flags,
            target,
        ) == (m2, calls)
}

/// The calls of each step, one step after another.
pub open spec fn joined(cs: Seq<Seq<HostCall>>) -> Seq<HostCall>
    decreases cs.len(),
{
    if cs.len() == 0 {
        Seq::empty()
    } else {
        joined(cs.drop_last()) + cs.last()
    }
}

/// The flags of an activation by the shell itself.
pub open spec fn configure_flags() -> ActivateFlags {
    ActivateFlags { bits: ACTIVATE_CONFIGURE }
}

/// The states `ms` and calls `cs` of activating `surface` on each of
/// `seats` in turn.
pub open spec fn chain_steps(
    ms: Seq<ShellModel>,
    cs: Seq<Seq<HostCall>>,
    surface: DesktopSurfaceId,
    seats: Seq<SeatId>,
) -> bool {
    &&& ms.len() == seats.len() + 1
    &&& cs.len() == seats.len()
    &&& forall|i: int|
        0 <= i < seats.len() ==> activation_step(
            #[trigger] ms[i],
            ms[i + 1],
            cs[i],
            surface,
            seats[i],
            configure_flags(),
            ActivateTarget::SurfaceView(surface),
        )
}

/// `m2` and `calls` are what activating `surface` on each of `seats`, in
/// order, leaves of `m`.
pub open spec fn activation_chain(
    m: ShellModel,
    m2: ShellModel,
    calls: Seq<HostCall>,
    surface: DesktopSurfaceId,
    seats: Seq<SeatId>,
) -> bool {
    exists|ms: Seq<ShellModel>, cs: Seq<Seq<HostCall>>|
        #[trigger] chain_steps(ms, cs, surface, seats) && ms[0] == m && ms.last() == m2 && calls
            == joined(cs)
}

/// The flags and view target an activation request carries.
pub open spec fn activation_params_spec(via: ActivateVia, seat: SeatId, surface: DesktopSurfaceId) -> (
    ActivateFlags,
    ActivateTarget,
) {
    match via {
        ActivateVia::PointerBinding => (
            ActivateFlags { bits: ACTIVATE_CLICKED | ACTIVATE_CONFIGURE },
            ActivateTarget::PointerFocusView(seat),
        ),
        ActivateVia::TouchBinding => (
            ActivateFlags { bits: ACTIVATE_CONFIGURE },
            ActivateTarget::TouchFocusView(seat),
        ),
        ActivateVia::BusyClick => (
            ActivateFlags { bits: ACTIVATE_CONFIGURE },
            ActivateTarget::SurfaceView(surface),
        ),
    }
}

pub fn activation_params(via: ActivateVia, seat: SeatId, surface: DesktopSurfaceId) -> (r: (
    ActivateFlags,
    ActivateTarget,
))
    ensures
        r == activation_params_spec(via, seat, surface),
{
    match via {
        ActivateVia::PointerBinding => (
            ActivateFlags { bits: ACTIVATE_CLICKED | ACTIVATE_CONFIGURE },
            ActivateTarget::PointerFocusView(seat),
        ),
        ActivateVia::TouchBinding => (
            ActivateFlags { bits: ACTIVATE_CONFIGURE },
            ActivateTarget::TouchFocusView(seat),
        ),
        ActivateVia::BusyClick => (
            ActivateFlags { bits: ACTIVATE_CONFIGURE },
            ActivateTarget::SurfaceView(surface),
        ),
    }
}

fn contains_ds(v: &Vec<DesktopSurfaceId>, x: DesktopSurfaceId) -> (r: bool)
    ensures
        r == v@.contains(x),
{
    let mut i: usize = 0;
    while i < v.len()
        invariant
            i <= v@.len(),
            forall|k: int| 0 <= k < i ==> v@[k] != x,
        decreases v@.len() - i,
    {
        if v[i] == x {
            assert(v@[i as int] == x);
            return true;
        }
        i += 1;
    }
    false
}

fn focus_call_exec(f: FocusCommand) -> (r: HostCall)
    ensures
        r == focus_call(f),
{
    match f {
        FocusCommand::SetActivated(id, a) => HostCall::SetActivated(id, a),
        FocusCommand::Untrack(s) => HostCall::Untrack(s),
        FocusCommand::Raise(id) => HostCall::Raise(id),
    }
}

/// Issue `c` on the host and record it in `log`.  The surface that took
/// keyboard focus is returned for an input activation, `None` for every
/// other call.
fn issue<H: ShellHost>(host: &mut H, c: HostCall, log: &mut Vec<HostCall>) -> (r: Option<SurfaceId>)
    ensures
        final(host).received() == old(host).received().push(c),
        final(log)@ == old(log)@.push(c),
        !(c is ActivateInput) ==> r is None,
{
    let r = match c {
        HostCall::ActivateInput(t, seat, flags) => host.activate_input(t, seat, flags),
        HostCall::SetActivated(id, a) => {
            host.set_activated(id, a);
            None
        },
        HostCall::Untrack(s) => {
            host.untrack_surface(s);
            None
        },
        HostCall::Raise(id) => {
            host.raise_to_workspace_top(id);
            None
        },
        HostCall::MapSurface(id) => {
            host.map_surface(id);
            None
        },
        HostCall::DestroySurfaceState(id) => {
            host.destroy_surface_state(id);
            None
        },
        HostCall::SetBusyCursor(id, seat) => {
            host.set_busy_cursor(id, seat);
            None
        },
        HostCall::EndBusyGrabs(id) => {
            host.end_busy_grabs_for_client_of(id);
            None
        },
        HostCall::RecreateBackground(o, argb) => {
            host.recreate_background(o, argb);
            None
        },
        HostCall::UpdateTransforms(id) => {
            host.update_transforms(id);
            None
        },
        HostCall::MarkViewDirty(id) => {
            host.mark_view_dirty(id);
            None
        },
        HostCall::SetPosition(id, x, y) => {
            host.set_view_position(id, x, y);
            None
        },
        HostCall::OffsetView(id, dx, dy) => {
            host.offset_view(id, dx, dy);
            None
        },
        HostCall::ShiftView(id, dx, dy) => {
            host.shift_view(id, dx, dy);
            None
        },
        HostCall::PlaceView(id, x, y, dx, dy) => {
            host.place_view(id, x, y, dx, dy);
            None
        },
    };
    log.push(c);
    r
}

/// Issue focus commands on the host, in order; returns the calls made.
pub fn run_focus_commands<H: ShellHost>(host: &mut H, cmds: &Vec<FocusCommand>) -> (calls: Vec<
    HostCall,
>)
    ensures
            final(host).received() == old(host).received() + calls@,
        calls@ == focus_calls(cmds@),
{
    let mut log: Vec<HostCall> = Vec::new();
    let mut i: usize = 0;
    while i < cmds.len()
        invariant
            i <= cmds@.len(),
            log@ == focus_calls(cmds@.take(i as int)),
            host.received() == old(host).received() + log@,
        decreases cmds@.len() - i,
    {
        let _ = issue(host, focus_call_exec(cmds[i]), &mut log);
        assert(focus_calls(cmds@.take(i + 1)) =~= focus_calls(cmds@.take(i as int)).push(
            focus_call(cmds@[i as int]),
        ));
        i += 1;
    }
    assert(cmds@.take(i as int) =~= cmds@);
    log
}

/// The children of `links`, in link order, whose flag is set.
pub open spec fn selected_children(links: Seq<ChildLink>, flags: Seq<bool>) -> Seq<DesktopSurfaceId>
    decreases links.len(),
{
    if links.len() == 0 || flags.len() == 0 {
        Seq::empty()
    } else {
        let r = selected_children(links.drop_last(), flags.drop_last());
        if flags.last() {
            r.push(links.last().child)
        } else {
            r
        }
    }
}

impl Shell {
    /// The linked children the host reports as mapped.
    fn mapped_children<H: ShellHost>(&self, host: &H) -> (r: Vec<DesktopSurfaceId>)
        ensures
            exists|flags: Seq<bool>|
                flags.len() == self@.links.len() && r@ == #[trigger] selected_children(
                    self@.links,
                    flags,
                ),
    {
        let mut out: Vec<DesktopSurfaceId> = Vec::new();
        let mut i: usize = 0;
        let ghost mut flags: Seq<bool> = Seq::empty();
        while i < self.links.len()
            invariant
                i <= self.links@.len(),
                flags.len() == i,
                out@ == selected_children(self@.links.take(i as int), flags),
            decreases self.links@.len() - i,
        {
            let c = self.links[i].child;
            let m = host.is_view_mapped(c);
            if m {
                out.push(c);
            }
            proof {
                let l2 = self@.links.take(i + 1);
                let f2 = flags.push(m);
                assert(l2.drop_last() =~= self@.links.take(i as int));
                assert(f2.drop_last() =~= flags);
                assert(l2.last() == self@.links[i as int]);
                flags = f2;
            }
            i += 1;
        }
        assert(self@.links.take(i as int) =~= self@.links);
        assert(flags.len() == self@.links.len() && out@ == selected_children(self@.links, flags));
        out
    }

    fn last_mapped_child_exec(&self, mapped: &Vec<DesktopSurfaceId>, p: DesktopSurfaceId) -> (r:
        Option<DesktopSurfaceId>)
        ensures
            r == last_mapped_child(self@.links, p, mapped@, self@.links.len() as int),
    {
        let mut n: usize = self.links.len();
        while n > 0
            invariant
                n <= self.links@.len(),
                last_mapped_child(self@.links, p, mapped@, self@.links.len() as int)
                    == last_mapped_child(self@.links, p, mapped@, n as int),
            decreases n,
        {
            let l = self.links[n - 1];
            if l.parent == p && contains_ds(mapped, l.child) {
                return Some(l.child);
            }
            n -= 1;
        }
        None
    }

    fn redirect_exec(&self, mapped: &Vec<DesktopSurfaceId>, s: DesktopSurfaceId) -> (r: Option<
        (DesktopSurfaceId, u32),
    >)
        ensures
            match r {
                Some((t, h)) => redirect(self@, mapped@, s, 0) == Some((t, h as int)),
                None => redirect(self@, mapped@, s, 0) is None,
            },
    {
        let mut cur = s;
        let mut hops: u32 = 0;
        while hops <= 64
            invariant
                hops <= 64,
                redirect(self@, mapped@, s, 0) == redirect(self@, mapped@, cur, hops as int),
            decreases 64 - hops,
        {
            proof {
                lemma_surf_index(self@.surfaces, cur, 0);
            }
            if find_surf(&self.surfaces, cur).is_none() {
                return None;
            }
            if hops >= 64 {
                return Some((cur, hops));
            }
            match self.last_mapped_child_exec(mapped, cur) {
                None => return Some((cur, hops)),
                Some(c) => {
                    cur = c;
                    hops += 1;
                },
            }
        }
        None
    }

    /// Where activating `surface` lands, given the children the host
    /// reports as mapped: the surface, and the view target that input
    /// activation takes; `None` for an unknown surface.
    pub fn activation_target(
        &self,
        mapped: &Vec<DesktopSurfaceId>,
        surface: DesktopSurfaceId,
        target: ActivateTarget,
    ) -> (r: Option<(DesktopSurfaceId, ActivateTarget)>)
        ensures
            r == match redirect(self@, mapped@, surface, 0) {
                None => None,
                Some((t, h)) => Some((t, input_target(h, t, target))),
            },
    {
        match self.redirect_exec(mapped, surface) {
            None => None,
            Some((t, hops)) => {
                if hops == 0 {
                    Some((t, target))
                } else {
                    Some((t, ActivateTarget::SurfaceView(t)))
                }
            },
        }
    }

    /// Activate `surface` on `seat`: the activation lands on its last
    /// mapped child instead (transitively, at most 64 times), input is
    /// activated there, and the focus bookkeeping runs.  Returns the
    /// host calls made, in order.
    pub fn activate<H: ShellHost>(
        &mut self,
        host: &mut H,
        surface: DesktopSurfaceId,
        seat: SeatId,
        flags: ActivateFlags,
        target: ActivateTarget,
    ) -> (calls: Vec<HostCall>)
        ensures
            final(host).received() == old(host).received() + calls@,
            activation_step(old(self)@, final(self)@, calls@, surface, seat, flags, target),
            same_shape(old(self)@, final(self)@),
    {
        let ghost m = self@;
        let mapped = self.mapped_children(host);
        let ghost fl = choose|fl: Seq<bool>|
            fl.len() == m.links.len() && mapped@ == #[trigger] selected_children(m.links, fl);
        let mut log: Vec<HostCall> = Vec::new();
        match self.activation_target(&mapped, surface, target) {
            None => {
                assert(activation_effect(
                    m,
                    selected_children(m.links, fl),
                    None,
                    surface,
                    seat,
                    flags,
                    target,
                ) == (self@, log@));
                log
            },
            Some((t, input)) => {
                let es = issue(host, HostCall::ActivateInput(input, seat, flags), &mut log);
                let cmds = self.focus_update(t, seat, es);
                let mut more = run_focus_commands(host, &cmds);
                log.append(&mut more);
                proof {
                    lemma_focus_update_shape(m, t, seat, es);
                    assert(activation_effect(
                        m,
                        selected_children(m.links, fl),
                        es,
                        surface,
                        seat,
                        flags,
                        target,
                    ) == (self@, log@));
                }
                log
            },
        }
    }

    /// An activation request from a binding or a busy-window click.
    pub fn activate_via<H: ShellHost>(
        &mut self,
        host: &mut H,
        seat: SeatId,
        surface: DesktopSurfaceId,
        via: ActivateVia,
    ) -> (calls: Vec<HostCall>)
        ensures
            final(host).received() == old(host).received() + calls@,
            activation_step(
                old(self)@,
                final(self)@,
                calls@,
                surface,
                seat,
                activation_params_spec(via, seat, surface).0,
                activation_params_spec(via, seat, surface).1,
            ),
            same_shape(old(self)@, final(self)@),
    {
        let (flags, target) = activation_params(via, seat, surface);
        self.activate(host, surface, seat, flags, target)
    }

    /// Activate `id` on each of `seats`, one after another, as the shell
    /// does itself (configure flag, the surface's own view).  Returns
    /// the host calls made, in order.
    #[verifier::rlimit(40)]
    pub fn activate_on_seats<H: ShellHost>(&mut self, host: &mut H, id: DesktopSurfaceId, seats: &Vec<
        SeatId,
    >) -> (calls: Vec<HostCall>)
        ensures
            final(host).received() == old(host).received() + calls@,
            same_shape(old(self)@, final(self)@),
            activation_chain(old(self)@, final(self)@, calls@, id, seats@),
    {
        let mut log: Vec<HostCall> = Vec::new();
        let mut i: usize = 0;
        let ghost mut ms: Seq<ShellModel> = seq![self@];
        let ghost mut cs: Seq<Seq<HostCall>> = Seq::empty();
        while i < seats.len()
            invariant
                i <= seats@.len(),
                same_shape(old(self)@, self@),
                chain_steps(ms, cs, id, seats@.take(i as int)),
                ms[0] == old(self)@,
                ms.last() == self@,
                log@ == joined(cs),
                host.received() == old(host).received() + log@,
            decreases seats@.len() - i,
        {
            let ghost before = self@;
            let mut step = self.activate(
                host,
                id,
                seats[i],
                ActivateFlags { bits: ACTIVATE_CONFIGURE },
                ActivateTarget::SurfaceView(id),
            );
            let ghost sc = step@;
            log.append(&mut step);
            proof {
                lemma_same_shape_trans(old(self)@, before, self@);
                let ms2 = ms.push(self@);
                let cs2 = cs.push(sc);
                let t = seats@.take(i + 1);
                assert forall|k: int| 0 <= k < t.len() implies activation_step(
                    #[trigger] ms2[k],
                    ms2[k + 1],
                    cs2[k],
                    id,
                    t[k],
                    configure_flags(),
                    ActivateTarget::SurfaceView(id),
                ) by {
                    if k < i {
                        assert(ms2[k] == ms[k] && ms2[k + 1] == ms[k + 1] && cs2[k] == cs[k]);
                        assert(t[k] == seats@.take(i as int)[k]);
                    } else {
                        assert(ms2[k] == before && ms2[k + 1] == self@ && cs2[k] == sc);
                    }
                }
                assert(cs2.drop_last() =~= cs);
                assert(joined(cs2) == joined(cs) + sc);
                ms = ms2;
                cs = cs2;
            }
            i += 1;
        }
        assert(seats@.take(i as int) =~= seats@);
        assert(chain_steps(ms, cs, id, seats@) && ms[0] == old(self)@ && ms.last() == self@
            && log@ == joined(cs));
        assert(activation_chain(old(self)@, self@, log@, id, seats@));
        log
    }

    /// Activate `id` on every seat the host reports (`ShellHost::seats`),
    /// through `activate_on_seats`.
    fn activate_on_all_seats<H: ShellHost>(&mut self, host: &mut H, id: DesktopSurfaceId) -> (calls: Vec<
        HostCall,
    >)
        ensures
            final(host).received() == old(host).received() + calls@,
            same_shape(old(self)@, final(self)@),
            exists|seats: Seq<SeatId>| #[trigger]
                activation_chain(old(self)@, final(self)@, calls@, id, seats),
    {
        let seats = host.seats();
        let calls = self.activate_on_seats(host, id, &seats);
        assert(activation_chain(old(self)@, self@, calls@, id, seats@));
        calls
    }

    /// The first mapping of a placed surface: map it, raise it, and
    /// activate it on every seat the host reports (`ShellHost::seats`,
    /// handed to `activate_on_seats`).  Returns the host calls made, in
    /// order.
    pub fn map_on_seats<H: ShellHost>(&mut self, host: &mut H, id: DesktopSurfaceId) -> (calls: Vec<
        HostCall,
    >)
        ensures
            final(host).received() == old(host).received() + calls@,
            same_shape(old(self)@, final(self)@),
            calls@.len() >= 2,
            calls@[0] == HostCall::MapSurface(id),
            calls@[1] == HostCall::Raise(id),
            exists|seats: Seq<SeatId>| #[trigger]
                activation_chain(
                    old(self)@,
                    final(self)@,
                    calls@.subrange(2, calls@.len() as int),
                    id,
                    seats,
                ),
    {
        let mut log: Vec<HostCall> = Vec::new();
        let _ = issue(host, HostCall::MapSurface(id), &mut log);
        let _ = issue(host, HostCall::Raise(id), &mut log);
        let mut rest = self.activate_on_all_seats(host, id);
        let ghost r = rest@;
        log.append(&mut rest);
        assert(log@.subrange(2, log@.len() as int) =~= r);
        log
    }

    /// The seats whose focus is re-issued when the session becomes
    /// active again, with the surface each one focuses.
    pub fn reactivations(&self) -> (r: Vec<(SeatId, DesktopSurfaceId)>)
        ensures
            r@ == reactivations_spec(self@.seats),
    {
        let mut out: Vec<(SeatId, DesktopSurfaceId)> = Vec::new();
        let mut i: usize = 0;
        while i < self.seats.len()
            invariant
                i <= self.seats@.len(),
                out@ == reactivations_spec(self.seats@.take(i as int)),
            decreases self.seats@.len() - i,
        {
            assert(self.seats@.take(i + 1).drop_last() =~= self.seats@.take(i as int));
            let st = self.seats[i];
            match st.focused_surface {
                Some(f) => out.push((st.seat, f)),
                None => {},
            }
            i += 1;
        }
        assert(self.seats@.take(i as int) =~= self.seats@);
        out
    }

    /// The session became active again: re-issue input activation of
    /// every seat's focused surface.
    pub fn session_activated<H: ShellHost>(&self, host: &mut H) -> (calls: Vec<HostCall>)
        ensures
            final(host).received() == old(host).received() + calls@,
            calls@ == reactivation_calls(reactivations_spec(self@.seats)),
    {
        let targets = self.reactivations();
        let mut log: Vec<HostCall> = Vec::new();
        let mut i: usize = 0;
        while i < targets.len()
            invariant
                i <= targets@.len(),
                log@ == reactivation_calls(targets@.take(i as int)),
                host.received() == old(host).received() + log@,
            decreases targets@.len() - i,
        {
            let (seat, f) = targets[i];
            let _ = issue(
                host,
                HostCall::ActivateInput(ActivateTarget::SurfaceView(f), seat, ActivateFlags { bits: 0 }),
                &mut log,
            );
            assert(reactivation_calls(targets@.take(i + 1)) =~= reactivation_calls(
                targets@.take(i as int),
            ).push(HostCall::ActivateInput(ActivateTarget::SurfaceView(f), seat, ActivateFlags { bits: 0 })));
            i += 1;
        }
        assert(targets@.take(i as int) =~= targets@);
        log
    }

    /// The seats whose focus surface is `gone`, in focus-entry order.
    fn seats_focused_on(&self, gone: SurfaceId) -> (r: Vec<SeatId>)
        ensures
            r@ == focused_on(self@.focus, gone),
    {
        let mut out: Vec<SeatId> = Vec::new();
        let mut i: usize = 0;
        while i < self.focus.len()
            invariant
                i <= self.focus@.len(),
                out@ == focused_on(self@.focus.take(i as int), gone),
            decreases self.focus@.len() - i,
        {
            assert(self@.focus.take(i + 1).drop_last() =~= self@.focus.take(i as int));
            let e = self.focus[i];
            if e.surface == gone {
                out.push(e.seat);
            }
            i += 1;
        }
        assert(self@.focus.take(i as int) =~= self@.focus);
        out
    }

    fn first_known(&self, cands: &Vec<DesktopSurfaceId>) -> (r: Option<DesktopSurfaceId>)
        ensures
            r matches Some(x) ==> known(self@, x) && cands@.contains(x),
            r matches Some(x) ==> exists|i: int|
                0 <= i < cands@.len() && cands@[i] == x && forall|j: int|
                    0 <= j < i ==> !known(self@, #[trigger] cands@[j]),
            r is None ==> forall|j: int| 0 <= j < cands@.len() ==> !known(self@, #[trigger] cands@[j]),
    {
        let mut i: usize = 0;
        while i < cands.len()
            invariant
                i <= cands@.len(),
                forall|j: int| 0 <= j < i ==> !known(self@, #[trigger] cands@[j]),
            decreases cands@.len() - i,
        {
            proof {
                lemma_surf_index(self@.surfaces, cands@[i as int], 0);
            }
            if find_surf(&self.surfaces, cands[i]).is_some() {
                assert(cands@[i as int] == cands@[i as int]);
                return Some(cands[i]);
            }
            i += 1;
        }
        None
    }

    fn remove_focus_entry(&mut self, seat: SeatId) -> (r: Option<SurfaceId>)
        ensures
            final(self)@ == forget_focus_spec(old(self)@, seat).0,
            r == forget_focus_spec(old(self)@, seat).1,
    {
        proof {
            lemma_focus_index(self@.focus, seat, 0);
        }
        match find_focus(&self.focus, seat) {
            Some(j) => {
                let e = self.focus.remove(j);
                Some(e.surface)
            },
            None => None,
        }
    }

    /// The focus surface of some seats died: each such seat activates a
    /// replacement, the main surface of the dead one when it was a
    /// sub-surface, otherwise the topmost remaining shell surface.
    #[verifier::rlimit(40)]
    pub fn tracked_surface_gone<H: ShellHost>(
        &mut self,
        host: &mut H,
        gone: SurfaceId,
        main: Option<DesktopSurfaceId>,
    ) -> (calls: Vec<HostCall>)
        ensures
            final(host).received() == old(host).received() + calls@,
            same_shape(old(self)@, final(self)@),
            exists|ms: Seq<ShellModel>, cs: Seq<Seq<HostCall>>|
                #[trigger] gone_steps(ms, cs, focused_on(old(self)@.focus, gone), main) && ms[0]
                    == old(self)@ && ms.last() == final(self)@ && calls@ == joined(cs),
    {
        let seats = self.seats_focused_on(gone);
        let mut log: Vec<HostCall> = Vec::new();
        let mut i: usize = 0;
        let ghost mut ms: Seq<ShellModel> = seq![self@];
        let ghost mut cs: Seq<Seq<HostCall>> = Seq::empty();
        while i < seats.len()
            invariant
                i <= seats@.len(),
                seats@ == focused_on(old(self)@.focus, gone),
                same_shape(old(self)@, self@),
                gone_steps(ms, cs, seats@.take(i as int), main),
                ms[0] == old(self)@,
                ms.last() == self@,
                log@ == joined(cs),
                host.received() == old(host).received() + log@,
            decreases seats@.len() - i,
        {
            let seat = seats[i];
            let ghost m = self@;
            let main_known = match main {
                Some(mm) => {
                    proof {
                        lemma_surf_index(self@.surfaces, mm, 0);
                    }
                    if find_surf(&self.surfaces, mm).is_some() {
                        Some(mm)
                    } else {
                        None
                    }
                },
                None => None,
            };
            let next = match main_known {
                Some(mm) => Some(mm),
                None => {
                    let stack = host.workspace_views_top_down();
                    self.first_known(&stack)
                },
            };
            let ghost before = self@;
            let _ = self.remove_focus_entry(seat);
            assert(same_shape(before, self@));
            proof {
                lemma_same_shape_trans(old(self)@, before, self@);
            }
            let ghost m1 = self@;
            assert(m1 == forget_focus_spec(m, seat).0);
            let mut step: Vec<HostCall> = Vec::new();
            match next {
                Some(n) => {
                    step = self.activate(
                        host,
                        n,
                        seat,
                        ActivateFlags { bits: ACTIVATE_CONFIGURE },
                        ActivateTarget::SurfaceView(n),
                    );
                    proof {
                        lemma_same_shape_trans(old(self)@, m1, self@);
                        assert(known(m, n));
                        assert(activation_step(
                            m1,
                            self@,
                            step@,
                            n,
                            seat,
                            configure_flags(),
                            ActivateTarget::SurfaceView(n),
                        ));
                    }
                },
                None => {
                    assert(step@ =~= Seq::<HostCall>::empty());
                },
            }
            let ghost sc = step@;
            log.append(&mut step);
            proof {
                assert(gone_step(m, self@, sc, seat, main));
                let ms2 = ms.push(self@);
                let cs2 = cs.push(sc);
                let t = seats@.take(i + 1);
                assert forall|k: int| 0 <= k < t.len() implies gone_step(
                    #[trigger] ms2[k],
                    ms2[k + 1],
                    cs2[k],
                    t[k],
                    main,
                ) by {
                    if k < i {
                        assert(ms2[k] == ms[k] && ms2[k + 1] == ms[k + 1] && cs2[k] == cs[k]);
                        assert(t[k] == seats@.take(i as int)[k]);
                    } else {
                        assert(ms2[k] == m && ms2[k + 1] == self@ && cs2[k] == sc);
                    }
                }
                assert(cs2.drop_last() =~= cs);
                assert(joined(cs2) == joined(cs) + sc);
                ms = ms2;
                cs = cs2;
            }
            i += 1;
        }
        assert(seats@.take(i as int) =~= seats@);
        assert(gone_steps(ms, cs, seats@, main) && ms[0] == old(self)@ && ms.last() == self@
            && log@ == joined(cs));
        log
    }
}

/// The seats of the focus entries holding `gone`, in entry order.
pub open spec fn focused_on(f: Seq<FocusEntry>, gone: SurfaceId) -> Seq<SeatId>
    decreases f.len(),
{
    if f.len() == 0 {
        Seq::empty()
    } else {
        let r = focused_on(f.drop_last(), gone);
        if f.last().surface == gone {
            r.push(f.last().seat)
        } else {
            r
        }
    }
}

/// One seat of a dead focus surface: its focus entry is forgotten, then
/// it activates the main surface when that is known, or else some known
/// surface or nothing.
pub open spec fn gone_step(
    m: ShellModel,
    m2: ShellModel,
    calls: Seq<HostCall>,
    seat: SeatId,
    main: Option<DesktopSurfaceId>,
) -> bool {
    let m1 = forget_focus_spec(m, seat).0;
    if main is Some && known(m, main->0) {
        activation_step(m1, m2, calls, main->0, seat, configure_flags(), ActivateTarget::SurfaceView(main->0))
    } else {
        (m2 == m1 && calls.len() == 0) || exists|n: DesktopSurfaceId|
            known(m, n) && #[trigger] activation_step(
                m1,
                m2,
                calls,
                n,
                seat,
                configure_flags(),
                ActivateTarget::SurfaceView(n),
            )
    }
}

/// The states `ms` and calls `cs` of one `gone_step` per seat of `seats`.
pub open spec fn gone_steps(
    ms: Seq<ShellModel>,
    cs: Seq<Seq<HostCall>>,
    seats: Seq<SeatId>,
    main: Option<DesktopSurfaceId>,
) -> bool {
    &&& ms.len() == seats.len() + 1
    &&& cs.len() == seats.len()
    &&& forall|i: int| 0 <= i < seats.len() ==> gone_step(#[trigger] ms[i], ms[i + 1], cs[i], seats[i], main)
}

/// Forget the focus entry of `seat`, returning the surface it held.
pub open spec fn forget_focus_spec(m: ShellModel, seat: SeatId) -> (ShellModel, Option<SurfaceId>) {
    match focus_index(m.focus, seat) {
        Some(j) => (ShellModel { focus: m.focus.remove(j), ..m }, Some(m.focus[j].surface)),
        None => (m, None),
    }
}


// ---------------------------------------------------------------------
// Seats, outputs, pings
// ---------------------------------------------------------------------

/// A new seat starts with no focused surface (a known seat is reset).
pub open spec fn seat_created_spec(m: ShellModel, seat: SeatId) -> ShellModel {
    match seat_index(m.seats, seat) {
        Some(k) => ShellModel {
            seats: m.seats.update(k, SeatState { seat, focused_surface: None }),
            ..m
        },
        None => ShellModel { seats: m.seats.push(SeatState { seat, focused_surface: None }), ..m },
    }
}

/// A seat went away: its focus entry and its state are dropped; the
/// focus surface it held is returned for release.
pub open spec fn seat_gone_spec(m: ShellModel, seat: SeatId) -> (ShellModel, Option<SurfaceId>) {
    let (m1, old) = forget_focus_spec(m, seat);
    match seat_index(m1.seats, seat) {
        Some(k) => (ShellModel { seats: m1.seats.remove(k), ..m1 }, old),
        None => (m1, old),
    }
}

/// The seats with a focused surface, in seat order.
pub open spec fn reactivations_spec(seats: Seq<SeatState>) -> Seq<(SeatId, DesktopSurfaceId)>
    decreases seats.len(),
{
    if seats.len() == 0 {
        Seq::empty()
    } else {
        let r = reactivations_spec(seats.drop_last());
        match seats.last().focused_surface {
            Some(f) => r.push((seats.last().seat, f)),
            None => r,
        }
    }
}

/// The busy-cursor calls for a list of (surface, seat) targets.
pub open spec fn busy_calls(t: Seq<(DesktopSurfaceId, SeatId)>) -> Seq<HostCall> {
    Seq::new(t.len(), |i: int| HostCall::SetBusyCursor(t[i].0, t[i].1))
}

/// The input activations a session activation issues, one per entry.
pub open spec fn reactivation_calls(r: Seq<(SeatId, DesktopSurfaceId)>) -> Seq<HostCall> {
    Seq::new(
        r.len(),
        |i: int| HostCall::ActivateInput(ActivateTarget::SurfaceView(r[i].1), r[i].0, ActivateFlags { bits: 0 }),
    )
}

/// The busy cursors a ping timeout sets: for each seat, in order, its
/// pointer focus when that is one of the client's surfaces.
pub open spec fn busy_targets_spec(
    focus: Seq<(SeatId, Option<DesktopSurfaceId>)>,
    surfaces: Seq<DesktopSurfaceId>,
) -> Seq<(DesktopSurfaceId, SeatId)>
    decreases focus.len(),
{
    if focus.len() == 0 {
        Seq::empty()
    } else {
        let r = busy_targets_spec(focus.drop_last(), surfaces);
        match focus.last().1 {
            Some(f) => if surfaces.contains(f) {
                r.push((f, focus.last().0))
            } else {
                r
            },
            None => r,
        }
    }
}

/// The busy cursors for a client's surfaces, given each seat's
/// pointer focus.
pub fn busy_targets(
    focus: &Vec<(SeatId, Option<DesktopSurfaceId>)>,
    surfaces: &Vec<DesktopSurfaceId>,
) -> (r: Vec<(DesktopSurfaceId, SeatId)>)
    ensures
        r@ == busy_targets_spec(focus@, surfaces@),
{
    let mut out: Vec<(DesktopSurfaceId, SeatId)> = Vec::new();
    let mut i: usize = 0;
    while i < focus.len()
        invariant
            i <= focus@.len(),
            out@ == busy_targets_spec(focus@.take(i as int), surfaces@),
        decreases focus@.len() - i,
    {
        assert(focus@.take(i + 1).drop_last() =~= focus@.take(i as int));
        let (seat, f) = focus[i];
        match f {
            Some(x) => if contains_ds(surfaces, x) {
                out.push((x, seat));
            },
            None => {},
        }
        i += 1;
    }
    assert(focus@.take(i as int) =~= focus@);
    out
}

/// Views are re-fitted when an output appears and it is the only one.
pub fn refit_needed(outputs: usize) -> (r: bool)
    ensures
        r == (outputs == 1),
{
    outputs == 1
}

impl Shell {
    pub fn seat_created(&mut self, seat: SeatId)
        ensures
            final(self)@ == seat_created_spec(old(self)@, seat),
    {
        proof {
            lemma_seat_index(self@.seats, seat, 0);
        }
        match find_seat(&self.seats, seat) {
            Some(k) => self.seats.set(k, SeatState { seat, focused_surface: None }),
            None => self.seats.push(SeatState { seat, focused_surface: None }),
        }
    }

    /// Bookkeeping half of a seat's removal; returns the focus surface
    /// to release.
    pub fn forget_seat(&mut self, seat: SeatId) -> (r: Option<SurfaceId>)
        ensures
            (final(self)@, r) == seat_gone_spec(old(self)@, seat),
    {
        let old = self.remove_focus_entry(seat);
        proof {
            lemma_seat_index(self@.seats, seat, 0);
        }
        match find_seat(&self.seats, seat) {
            Some(k) => {
                let _ = self.seats.remove(k);
            },
            None => {},
        }
        old
    }

    /// A seat went away.
    pub fn seat_gone<H: ShellHost>(&mut self, host: &mut H, seat: SeatId) -> (calls: Vec<HostCall>)
        ensures
            final(host).received() == old(host).received() + calls@,
            final(self)@ == seat_gone_spec(old(self)@, seat).0,
            calls@ == match seat_gone_spec(old(self)@, seat).1 {
                Some(s) => seq![HostCall::Untrack(s)],
                None => Seq::empty(),
            },
    {
        let mut log: Vec<HostCall> = Vec::new();
        match self.forget_seat(seat) {
            Some(old) => {
                let _ = issue(host, HostCall::Untrack(old), &mut log);
            },
            None => {},
        }
        log
    }

    /// A client stopped answering pings: busy cursor on every seat whose
    /// pointer focus is one of the client's surfaces.
    pub fn ping_timeout<H: ShellHost>(&self, host: &mut H, surfaces: &Vec<DesktopSurfaceId>) -> (calls:
        Vec<HostCall>)
        ensures
            final(host).received() == old(host).received() + calls@,
            exists|focus: Seq<(SeatId, Option<DesktopSurfaceId>)>|
                calls@ == busy_calls(#[trigger] busy_targets_spec(focus, surfaces@)),
    {
        let seats = host.seats();
        let mut focus: Vec<(SeatId, Option<DesktopSurfaceId>)> = Vec::new();
        let mut i: usize = 0;
        while i < seats.len()
            decreases seats@.len() - i,
        {
            focus.push((seats[i], host.pointer_focus(seats[i])));
            i += 1;
        }
        let targets = busy_targets(&focus, surfaces);
        let mut log: Vec<HostCall> = Vec::new();
        let mut k: usize = 0;
        while k < targets.len()
            invariant
                k <= targets@.len(),
                log@ == busy_calls(targets@.take(k as int)),
                host.received() == old(host).received() + log@,
            decreases targets@.len() - k,
        {
            let (f, seat) = targets[k];
            let _ = issue(host, HostCall::SetBusyCursor(f, seat), &mut log);
            assert(busy_calls(targets@.take(k + 1)) =~= busy_calls(targets@.take(k as int)).push(
                HostCall::SetBusyCursor(f, seat),
            ));
            k += 1;
        }
        assert(targets@.take(k as int) =~= targets@);
        log
    }

    /// The client answered again: end its busy grabs.
    pub fn pong<H: ShellHost>(&self, host: &mut H, surfaces: &Vec<DesktopSurfaceId>) -> (calls: Vec<
        HostCall,
    >)
        ensures
            final(host).received() == old(host).received() + calls@,
            calls@ == if surfaces@.len() > 0 {
                seq![HostCall::EndBusyGrabs(surfaces@[0])]
            } else {
                Seq::empty()
            },
    {
        let mut log: Vec<HostCall> = Vec::new();
        if surfaces.len() > 0 {
            let _ = issue(host, HostCall::EndBusyGrabs(surfaces[0]), &mut log);
        }
        log
    }

    /// A new output: give it a background; when it is the only output,
    /// re-fit the views onto it.
    pub fn output_created<H: ShellHost>(&self, host: &mut H, output: OutputId) -> (calls: Vec<HostCall>)
        ensures
            final(host).received() == old(host).received() + calls@,
            calls@.len() >= 1,
            calls@[0] == HostCall::RecreateBackground(output, self@.config.background_color),
            exists|n: usize| #[trigger] refit_for_count(self@, calls@.subrange(1, calls@.len() as int), n),
    {
        let mut log: Vec<HostCall> = Vec::new();
        let _ = issue(host, HostCall::RecreateBackground(output, self.config.background_color), &mut log);
        let n = host.outputs().len();
        let mut rest: Vec<HostCall> = Vec::new();
        if refit_needed(n) {
            rest = self.reposition_all(host);
        }
        let ghost r = rest@;
        log.append(&mut rest);
        assert(log@.subrange(1, log@.len() as int) =~= r);
        assert(refit_for_count(self@, r, n));
        log
    }

    /// An output changed size: recreate its background.
    pub fn output_resized<H: ShellHost>(&self, host: &mut H, output: OutputId) -> (calls: Vec<HostCall>)
        ensures
            final(host).received() == old(host).received() + calls@,
            calls@ == seq![HostCall::RecreateBackground(output, self@.config.background_color)],
    {
        let mut log: Vec<HostCall> = Vec::new();
        let _ = issue(host, HostCall::RecreateBackground(output, self.config.background_color), &mut log);
        log
    }
}

// ---------------------------------------------------------------------
// Teardown
// ---------------------------------------------------------------------

/// The known surfaces of `stack`, in stack order, each once.
pub open spec fn stack_part(stack: Seq<DesktopSurfaceId>, s: Seq<SurfRecord>) -> Seq<
    DesktopSurfaceId,
>
    decreases stack.len(),
{
    if stack.len() == 0 {
        Seq::empty()
    } else {
        let r = stack_part(stack.drop_last(), s);
        let v = stack.last();
        if surf_index(s, v) is Some && !r.contains(v) {
            r.push(v)
        } else {
            r
        }
    }
}

/// The ids of `s` not in `taken`, in record order.
pub open spec fn leftovers(s: Seq<SurfRecord>, taken: Seq<DesktopSurfaceId>) -> Seq<
    DesktopSurfaceId,
>
    decreases s.len(),
{
    if s.len() == 0 {
        Seq::empty()
    } else {
        let r = leftovers(s.drop_last(), taken);
        if taken.contains(s.last().id) {
            r
        } else {
            r.push(s.last().id)
        }
    }
}

/// Teardown order: the stacked surfaces top-down, then the never-stacked
/// ones in id order.
pub open spec fn shutdown_order(m: ShellModel, stack: Seq<DesktopSurfaceId>) -> Seq<
    DesktopSurfaceId,
> {
    let top = stack_part(stack, m.surfaces);
    top + leftovers(m.surfaces, top)
}

/// What teardown leaves: no surface, seat or focus bookkeeping.
/// One destruction call per surface, in order.
pub open spec fn destroy_calls(order: Seq<DesktopSurfaceId>) -> Seq<HostCall> {
    Seq::new(order.len(), |i: int| HostCall::DestroySurfaceState(order[i]))
}

pub open spec fn cleared(m: ShellModel) -> ShellModel {
    ShellModel {
        surfaces: Seq::empty(),
        links: Seq::empty(),
        seats: Seq::empty(),
        focus: Seq::empty(),
        ..m
    }
}

impl Shell {
    /// The order in which teardown destroys the shell surfaces, given the
    /// workspace stacking order.
    pub fn teardown_order(&self, stack: &Vec<DesktopSurfaceId>) -> (r: Vec<DesktopSurfaceId>)
        ensures
            r@ == shutdown_order(self@, stack@),
    {
        let mut top: Vec<DesktopSurfaceId> = Vec::new();
        let mut i: usize = 0;
        while i < stack.len()
            invariant
                i <= stack@.len(),
                top@ == stack_part(stack@.take(i as int), self@.surfaces),
            decreases stack@.len() - i,
        {
            assert(stack@.take(i + 1).drop_last() =~= stack@.take(i as int));
            let v = stack[i];
            proof {
                lemma_surf_index(self@.surfaces, v, 0);
            }
            if find_surf(&self.surfaces, v).is_some() && !contains_ds(&top, v) {
                top.push(v);
            }
            i += 1;
        }
        assert(stack@.take(i as int) =~= stack@);
        let mut out = top.clone();
        assert(out@ =~= top@);
        let mut j: usize = 0;
        while j < self.surfaces.len()
            invariant
                j <= self@.surfaces.len(),
                out@ == top@ + leftovers(self@.surfaces.take(j as int), top@),
            decreases self@.surfaces.len() - j,
        {
            assert(self@.surfaces.take(j + 1).drop_last() =~= self@.surfaces.take(j as int));
            let id = self.surfaces[j].id;
            if !contains_ds(&top, id) {
                out.push(id);
                assert(out@ =~= top@ + leftovers(self@.surfaces.take(j + 1), top@));
            }
            j += 1;
        }
        assert(self@.surfaces.take(j as int) =~= self@.surfaces);
        out
    }

    /// Compositor teardown: destroy every shell surface, topmost first,
    /// then drop all bookkeeping.  Returns the destruction order.
    pub fn shutdown<H: ShellHost>(&mut self, host: &mut H) -> (calls: Vec<HostCall>)
        ensures
            final(host).received() == old(host).received() + calls@,
            final(self)@ == cleared(old(self)@),
            exists|stack: Seq<DesktopSurfaceId>|
                calls@ == destroy_calls(#[trigger] shutdown_order(old(self)@, stack)),
    {
        let stack = host.workspace_views_top_down();
        let order = self.teardown_order(&stack);
        let mut log: Vec<HostCall> = Vec::new();
        let mut i: usize = 0;
        while i < order.len()
            invariant
                i <= order@.len(),
                log@ == destroy_calls(order@.take(i as int)),
                host.received() == old(host).received() + log@,
            decreases order@.len() - i,
        {
            let _ = issue(host, HostCall::DestroySurfaceState(order[i]), &mut log);
            assert(destroy_calls(order@.take(i + 1)) =~= destroy_calls(order@.take(i as int)).push(
                HostCall::DestroySurfaceState(order@[i as int]),
            ));
            i += 1;
        }
        assert(order@.take(i as int) =~= order@);
        self.surfaces.clear();
        self.links.clear();
        self.seats.clear();
        self.focus.clear();
        log
    }
}

// ---------------------------------------------------------------------
// Commits and placement
// ---------------------------------------------------------------------

/// Where a committed surface's view offset comes from, per axis.
#[derive(Debug, Clone, Copy, PartialEq, Eq, Structural)]
pub enum AxisOffset {
    /// The client's buffer offset.
    Buffer,
    Zero,
    /// Size change on a grabbed left or top edge: old size minus new.
    Edge(i64),
}

/// What a commit asks of the shell.
#[derive(Debug, Clone, Copy, PartialEq, Eq, Structural)]
pub enum CommitPlan {
    /// Unknown surface, or zero width.
    Ignore,
    /// First content: place, map and activate.
    FirstMap,
    /// No offset and no size change.
    Unchanged,
    /// Move the view by these offsets and record the new size.
    Move { x: AxisOffset, y: AxisOffset },
}

pub open spec fn commit_plan_spec(
    m: ShellModel,
    id: DesktopSurfaceId,
    width: i32,
    height: i32,
    mapped: bool,
    buffer_offset_zero: bool,
    edges: ResizeEdges,
) -> CommitPlan {
    match surf_index(m.surfaces, id) {
        None => CommitPlan::Ignore,
        Some(i) => {
            let rec = m.surfaces[i];
            if width == 0 {
                CommitPlan::Ignore
            } else if !mapped {
                CommitPlan::FirstMap
            } else if buffer_offset_zero && rec.last_width == width && rec.last_height == height {
                CommitPlan::Unchanged
            } else {
                let x = if edges.bits & EDGE_LEFT == EDGE_LEFT {
                    AxisOffset::Edge((rec.last_width - width) as i64)
                } else if edges.bits != 0 {
                    AxisOffset::Zero
                } else {
                    AxisOffset::Buffer
                };
                let y = if edges.bits & EDGE_TOP == EDGE_TOP {
                    AxisOffset::Edge((rec.last_height - height) as i64)
                } else if edges.bits != 0 {
                    AxisOffset::Zero
                } else {
                    AxisOffset::Buffer
                };
                CommitPlan::Move { x, y }
            }
        },
    }
}

pub open spec fn record_size_spec(m: ShellModel, id: DesktopSurfaceId, width: i32, height: i32) -> ShellModel {
    match surf_index(m.surfaces, id) {
        None => m,
        Some(i) => ShellModel {
            surfaces: m.surfaces.update(
                i,
                SurfRecord { last_width: width, last_height: height, ..m.surfaces[i] },
            ),
            ..m
        },
    }
}

/// The xorshift64 step of the placement generator.
pub open spec fn xorshift(x: u64) -> u64 {
    let a = x ^ (x >> 12u64);
    let b = a ^ (a << 25u64);
    b ^ (b >> 27u64)
}

/// The number drawn from state `x` (already stepped) below `modulo`.
pub open spec fn draw(x: u64, modulo: i64) -> i64 {
    if modulo <= 0 {
        0
    } else {
        ((x.wrapping_mul(0x2545F4914F6CDD1Du64) >> 33u64) % (modulo as u64)) as i64
    }
}

/// Initial placement: inside `area` (the output under the pointer) at a
/// random offset that keeps the surface inside when it fits; without
/// an area, at a random point in [10, 410).  Returns the position and
/// the generator state afterwards.
pub open spec fn placement(rng: u64, area: Option<Rect>, width: i32, height: i32) -> (i64, i64, u64) {
    match area {
        None => {
            let r1 = xorshift(rng);
            let r2 = xorshift(r1);
            ((10 + draw(r1, 400)) as i64, (10 + draw(r2, 400)) as i64, r2)
        },
        Some(a) => {
            let range_x = a.width - width;
            let range_y = a.height - height;
            let r1 = if range_x > 0 { xorshift(rng) } else { rng };
            let x = if range_x > 0 { a.x + draw(r1, range_x as i64) } else { a.x as int };
            let r2 = if range_y > 0 { xorshift(r1) } else { r1 };
            let y = if range_y > 0 { a.y + draw(r2, range_y as i64) } else { a.y as int };
            (x as i64, y as i64, r2)
        },
    }
}

proof fn lemma_draw_below(x: u64, modulo: i64)
    ensures
        0 <= draw(x, modulo),
        modulo > 0 ==> draw(x, modulo) < modulo,
{
    if modulo > 0 {
        let v = x.wrapping_mul(0x2545F4914F6CDD1Du64) >> 33u64;
        let m = modulo as u64;
        assert(v % m < m);
        assert(v < 0x1_0000_0000_0000_0000u128 >> 33u128) by (bit_vector)
            requires
                v == x.wrapping_mul(0x2545F4914F6CDD1Du64) >> 33u64,
        ;
    }
}

/// Where a new surface is first placed: inside the given area (the output
/// under the pointer), at a left/top offset that keeps the whole surface
/// in the area when it is smaller than the area, and at the area's corner
/// on an axis where it is not; with no area, at a point in [10, 410) on
/// each axis.
pub proof fn law_placement_inside_area(rng: u64, area: Option<Rect>, width: i32, height: i32)
    ensures
        ({
            let (x, y, _) = placement(rng, area, width, height);
            match area {
                Some(a) => {
                    &&& a.width - width > 0 ==> a.x <= x < a.x + a.width - width
                    &&& a.width - width <= 0 ==> x == a.x
                    &&& a.height - height > 0 ==> a.y <= y < a.y + a.height - height
                    &&& a.height - height <= 0 ==> y == a.y
                },
                None => 10 <= x < 410 && 10 <= y < 410,
            }
        }),
{
    match area {
        Some(a) => {
            let range_x = a.width - width;
            let range_y = a.height - height;
            let r1 = if range_x > 0 { xorshift(rng) } else { rng };
            let r2 = if range_y > 0 { xorshift(r1) } else { r1 };
            lemma_draw_below(r1, range_x as i64);
            lemma_draw_below(r2, range_y as i64);
        },
        None => {
            let r1 = xorshift(rng);
            lemma_draw_below(r1, 400);
            lemma_draw_below(xorshift(r1), 400);
        },
    }
}

/// The point views are moved to when they are left outside every
/// output: a quarter into the first output (integer division towards zero).
pub open spec fn quarter(v: i32) -> int {
    if v >= 0 {
        v / 4
    } else {
        -((-v) / 4)
    }
}

pub fn fallback_position(first: Rect) -> (r: (i64, i64))
    ensures
        r.0 == first.x + quarter(first.width),
        r.1 == first.y + quarter(first.height),
{
    let w = first.width as i64;
    let h = first.height as i64;
    let qw = if w >= 0 {
        w / 4
    } else {
        -((-w) / 4)
    };
    let qh = if h >= 0 {
        h / 4
    } else {
        -((-h) / 4)
    };
    (first.x as i64 + qw, first.y as i64 + qh)
}

impl Shell {
    /// What a commit of `id` asks for.  `buffer_offset_zero` says whether
    /// the client's buffer offset is zero on both axes.
    pub fn commit_plan(
        &self,
        id: DesktopSurfaceId,
        width: i32,
        height: i32,
        mapped: bool,
        buffer_offset_zero: bool,
        edges: ResizeEdges,
    ) -> (r: CommitPlan)
        ensures
            r == commit_plan_spec(self@, id, width, height, mapped, buffer_offset_zero, edges),
    {
        proof {
            lemma_surf_index(self@.surfaces, id, 0);
        }
        let i = match find_surf(&self.surfaces, id) {
            None => return CommitPlan::Ignore,
            Some(i) => i,
        };
        let rec = self.surfaces[i];
        if width == 0 {
            CommitPlan::Ignore
        } else if !mapped {
            CommitPlan::FirstMap
        } else if buffer_offset_zero && rec.last_width == width && rec.last_height == height {
            CommitPlan::Unchanged
        } else {
            let x = if edges.bits & EDGE_LEFT == EDGE_LEFT {
                AxisOffset::Edge(rec.last_width as i64 - width as i64)
            } else if edges.bits != 0 {
                AxisOffset::Zero
            } else {
                AxisOffset::Buffer
            };
            let y = if edges.bits & EDGE_TOP == EDGE_TOP {
                AxisOffset::Edge(rec.last_height as i64 - height as i64)
            } else if edges.bits != 0 {
                AxisOffset::Zero
            } else {
                AxisOffset::Buffer
            };
            CommitPlan::Move { x, y }
        }
    }

    /// Remember the size a commit was laid out at.
    pub fn record_size(&mut self, id: DesktopSurfaceId, width: i32, height: i32)
        ensures
            final(self)@ == record_size_spec(old(self)@, id, width, height),
    {
        proof {
            lemma_surf_index(self@.surfaces, id, 0);
        }
        match find_surf(&self.surfaces, id) {
            None => {},
            Some(i) => {
                let rec = self.surfaces[i];
                self.surfaces.set(
                    i,
                    SurfRecord {
                        id: rec.id,
                        parent: rec.parent,
                        focus_count: rec.focus_count,
                        last_width: width,
                        last_height: height,
                        xwayland: rec.xwayland,
                    },
                );
            },
        }
    }

    /// Step the placement generator and draw a number below `modulo`
    /// (0 when `modulo` is not positive).
    pub fn next_rand(&mut self, modulo: i64) -> (r: i64)
        ensures
            final(self)@ == (ShellModel { rng: xorshift(old(self)@.rng), ..old(self)@ }),
            r == draw(xorshift(old(self)@.rng), modulo),
            0 <= r,
            modulo > 0 ==> r < modulo,
    {
        let mut x = self.rng;
        x = x ^ (x >> 12u64);
        x = x ^ (x << 25u64);
        x = x ^ (x >> 27u64);
        self.rng = x;
        if modulo <= 0 {
            0
        } else {
            let v = x.wrapping_mul(0x2545F4914F6CDD1Du64) >> 33u64;
            let r = v % (modulo as u64);
            assert(v < 0x1_0000_0000_0000_0000u128 >> 33u128) by (bit_vector)
                requires
                    v == x.wrapping_mul(0x2545F4914F6CDD1Du64) >> 33u64,
            ;
            r as i64
        }
    }

    /// The initial position of a surface that maps without one.
    pub fn initial_position(&mut self, area: Option<Rect>, width: i32, height: i32) -> (r: (
        i64,
        i64,
    ))
        ensures
            ({
                let (x, y, rng) = placement(old(self)@.rng, area, width, height);
                &&& r == (x, y)
                &&& final(self)@ == (ShellModel { rng, ..old(self)@ })
            }),
    {
        match area {
            None => {
                let x = 10 + self.next_rand(400);
                let y = 10 + self.next_rand(400);
                (x, y)
            },
            Some(a) => {
                let range_x = a.width as i64 - width as i64;
                let range_y = a.height as i64 - height as i64;
                let mut x = a.x as i64;
                let mut y = a.y as i64;
                if range_x > 0 {
                    x = x + self.next_rand(range_x);
                }
                if range_y > 0 {
                    y = y + self.next_rand(range_y);
                }
                (x, y)
            },
        }
    }

    /// The ids of all shell surfaces, in id order.
    pub fn surface_ids(&self) -> (r: Vec<DesktopSurfaceId>)
        ensures
            r@.len() == self@.surfaces.len(),
            forall|i: int| 0 <= i < r@.len() ==> r@[i] == self@.surfaces[i].id,
    {
        let mut out: Vec<DesktopSurfaceId> = Vec::new();
        let mut i: usize = 0;
        while i < self.surfaces.len()
            invariant
                i <= self@.surfaces.len(),
                out@.len() == i,
                forall|k: int| 0 <= k < i ==> out@[k] == self@.surfaces[k].id,
            decreases self@.surfaces.len() - i,
        {
            out.push(self.surfaces[i].id);
            i += 1;
        }
        out
    }

    pub fn contains_surface(&self, id: DesktopSurfaceId) -> (r: bool)
        ensures
            r == known(self@, id),
    {
        find_surf(&self.surfaces, id).is_some()
    }
}

// ---------------------------------------------------------------------
// Views on outputs, commits and Xwayland positions
// ---------------------------------------------------------------------

/// The ids of the known surfaces, in order.
pub open spec fn surface_ids_spec(m: ShellModel) -> Seq<DesktopSurfaceId> {
    Seq::new(m.surfaces.len(), |i: int| m.surfaces[i].id)
}

/// The rows of host answers, as sequences.
pub open spec fn answer_rows(inside: Seq<Vec<Option<bool>>>) -> Seq<Seq<Option<bool>>> {
    Seq::new(inside.len(), |i: int| inside[i]@)
}

/// Row `i` of the answers, or no answer past the last row.
pub open spec fn row_at(inside: Seq<Seq<Option<bool>>>, i: int) -> Seq<Option<bool>> {
    if 0 <= i < inside.len() {
        inside[i]
    } else {
        Seq::empty()
    }
}

/// Whether some answer of a row says the view lies in that area.
pub open spec fn some_inside(row: Seq<Option<bool>>) -> bool {
    exists|j: int| 0 <= j < row.len() && row[j] == Some(true)
}

/// Re-fitting one view, given the output areas and the host's answers
/// to "does the view lie in area j" (`None`: the view has no position):
/// nothing when there is no area or no position; a redraw when it lies
/// in some area; else a move a quarter into the first area.
pub open spec fn refit_one(id: DesktopSurfaceId, areas: Seq<Rect>, row: Seq<Option<bool>>) -> Seq<HostCall> {
    if areas.len() == 0 || row.len() == 0 || row[0] is None {
        Seq::empty()
    } else if some_inside(row) {
        seq![HostCall::MarkViewDirty(id)]
    } else {
        seq![
            HostCall::SetPosition(
                id,
                (areas[0].x + quarter(areas[0].width)) as i64,
                (areas[0].y + quarter(areas[0].height)) as i64,
            ),
        ]
    }
}

/// Re-fitting the first `n` views, in order.
pub open spec fn refit_calls_spec(
    ids: Seq<DesktopSurfaceId>,
    areas: Seq<Rect>,
    inside: Seq<Seq<Option<bool>>>,
    n: int,
) -> Seq<HostCall>
    decreases n,
{
    if n <= 0 {
        Seq::empty()
    } else {
        refit_calls_spec(ids, areas, inside, n - 1) + refit_one(ids[n - 1], areas, row_at(inside, n - 1))
    }
}

/// What re-fitting the views of `m` issues, for the output areas the
/// host reports and its answers about each view and area.
pub open spec fn repositioned(m: ShellModel, calls: Seq<HostCall>) -> bool {
    exists|areas: Seq<Rect>, inside: Seq<Seq<Option<bool>>>|
        #[trigger] refit_calls_spec(surface_ids_spec(m), areas, inside, m.surfaces.len() as int)
            == calls
}

/// After an output appeared and the host reports `n` outputs: a re-fit
/// when it is the only one, else nothing.
pub open spec fn refit_for_count(m: ShellModel, calls: Seq<HostCall>, n: usize) -> bool {
    if n == 1 {
        repositioned(m, calls)
    } else {
        calls.len() == 0
    }
}

pub proof fn lemma_refit_no_areas(ids: Seq<DesktopSurfaceId>, inside: Seq<Seq<Option<bool>>>, n: int)
    ensures
        refit_calls_spec(ids, Seq::empty(), inside, n).len() == 0,
    decreases n,
{
    if n > 0 {
        lemma_refit_no_areas(ids, inside, n - 1);
    }
}

/// Whether an `f64` with these bits is zero (of either sign).
pub open spec fn zero_bits(b: u64) -> bool {
    b & 0x7fff_ffff_ffff_ffffu64 == 0
}

/// The offset a commit moves a view by on one axis.
pub open spec fn view_offset(a: AxisOffset, buf: u64) -> ViewOffset {
    match a {
        AxisOffset::Buffer => ViewOffset::Buffer(buf),
        AxisOffset::Zero => ViewOffset::Pixels(0),
        AxisOffset::Edge(v) => ViewOffset::Pixels(v),
    }
}

/// The Xwayland position recorded for `id`.
pub open spec fn xwayland_of_spec(m: ShellModel, id: DesktopSurfaceId) -> Option<XwaylandPos> {
    match surf_index(m.surfaces, id) {
        Some(i) => m.surfaces[i].xwayland,
        None => None,
    }
}

/// Recording the position Xwayland asked for a known surface.
pub open spec fn set_xwayland_spec(m: ShellModel, id: DesktopSurfaceId, x: u64, y: u64) -> ShellModel {
    match surf_index(m.surfaces, id) {
        None => m,
        Some(i) => ShellModel {
            surfaces: m.surfaces.update(i, SurfRecord { xwayland: Some(XwaylandPos { x, y }), ..m.surfaces[i] }),
            ..m
        },
    }
}

/// Placing a view at an Xwayland position, shifted back by the origin
/// of the surface geometry `g`.
pub open spec fn place_call(id: DesktopSurfaceId, p: XwaylandPos, g: Rect) -> HostCall {
    HostCall::PlaceView(id, p.x, p.y, -(g.x as int) as i64, -(g.y as int) as i64)
}

/// The placement call of a first mapping, and the state it leaves: at
/// the Xwayland position when one was recorded (shifted back by the
/// surface geometry's origin, for some geometry the host reports);
/// else at `placement` in some output area the host reports (or none).
pub open spec fn placed(m: ShellModel, mid: ShellModel, c: HostCall, id: DesktopSurfaceId, width: i32, height: i32) -> bool {
    match xwayland_of_spec(m, id) {
        Some(p) => mid == m && exists|g: Rect|
            c == #[trigger] place_call(id, p, g),
        None => exists|area: Option<Rect>|
            #![trigger placement(m.rng, area, width, height)]
            mid == (ShellModel { rng: placement(m.rng, area, width, height).2, ..m }) && c
                == HostCall::SetPosition(
                id,
                placement(m.rng, area, width, height).0,
                placement(m.rng, area, width, height).1,
            ),
    }
}

/// A first mapping: the placement call, then the map, the raise and one
/// activation per seat the host reports (see `Shell::map_on_seats`).
pub open spec fn first_map(m: ShellModel, m2: ShellModel, calls: Seq<HostCall>, id: DesktopSurfaceId, width: i32, height: i32) -> bool {
    exists|mid: ShellModel|
        #[trigger] placed(m, mid, calls[0], id, width, height) && calls.len() >= 3 && calls[1]
            == HostCall::MapSurface(id) && calls[2] == HostCall::Raise(id) && exists|seats: Seq<SeatId>|
            #[trigger] activation_chain(mid, m2, calls.subrange(3, calls.len() as int), id, seats)
}

/// What a view whose output the host reports as `vo` gets when
/// `output` moved by the `f64` amounts with bits `dx`, `dy`: a shift
/// when it lies on that output, else nothing.
pub open spec fn shift_one(id: DesktopSurfaceId, vo: Option<OutputId>, output: OutputId, dx: u64, dy: u64) -> Seq<
    HostCall,
> {
    if vo == Some(output) {
        seq![HostCall::ShiftView(id, dx, dy)]
    } else {
        Seq::empty()
    }
}

/// The output the host reports for view `i`, or none past the list.
pub open spec fn output_at(vos: Seq<Option<OutputId>>, i: int) -> Option<OutputId> {
    if 0 <= i < vos.len() {
        vos[i]
    } else {
        None
    }
}

/// The shifts of the first `n` views, in order.
pub open spec fn shift_calls_spec(
    ids: Seq<DesktopSurfaceId>,
    vos: Seq<Option<OutputId>>,
    output: OutputId,
    dx: u64,
    dy: u64,
    n: int,
) -> Seq<HostCall>
    decreases n,
{
    if n <= 0 {
        Seq::empty()
    } else {
        shift_calls_spec(ids, vos, output, dx, dy, n - 1) + shift_one(ids[n - 1], output_at(vos, n - 1), output, dx, dy)
    }
}

/// What moving the views of `m` along with `output` issues, for the
/// output the host reports for each view.
pub open spec fn shifted(m: ShellModel, calls: Seq<HostCall>, output: OutputId, dx: u64, dy: u64) -> bool {
    exists|vos: Seq<Option<OutputId>>|
        #[trigger] shift_calls_spec(surface_ids_spec(m), vos, output, dx, dy, m.surfaces.len() as int)
            == calls
}

fn zero_bits_exec(b: u64) -> (r: bool)
    ensures
        r == zero_bits(b),
{
    b & 0x7fff_ffff_ffff_ffffu64 == 0
}

fn view_offset_exec(a: AxisOffset, buf: u64) -> (r: ViewOffset)
    ensures
        r == view_offset(a, buf),
{
    match a {
        AxisOffset::Buffer => ViewOffset::Buffer(buf),
        AxisOffset::Zero => ViewOffset::Pixels(0),
        AxisOffset::Edge(v) => ViewOffset::Pixels(v),
    }
}

proof fn lemma_joined_push(cs: Seq<Seq<HostCall>>, c: Seq<HostCall>)
    ensures
        joined(cs.push(c)) == joined(cs) + c,
{
    assert(cs.push(c).drop_last() =~= cs);
}

/// The geometries of the host's outputs that have one, in list order.
fn output_areas<H: ShellHost>(host: &H) -> (r: Vec<Rect>) {
    let outputs = host.outputs();
    let mut infos: Vec<Rect> = Vec::new();
    let mut i: usize = 0;
    while i < outputs.len()
        decreases outputs@.len() - i,
    {
        match host.output_info(outputs[i]) {
            Some(info) => infos.push(info.geometry),
            None => {},
        }
        i += 1;
    }
    infos
}

/// Whether the origin lies in `g`.
fn holds_origin(g: Rect) -> (r: bool)
    ensures
        r == (g.x <= 0 < g.x + g.width && g.y <= 0 < g.y + g.height),
{
    (g.x as i64) <= 0 && 0 < (g.x as i64) + (g.width as i64) && (g.y as i64) <= 0 && 0 < (g.y
        as i64) + (g.height as i64)
}

/// Issue each of `calls` on the host, in order; returns them.
fn issue_all<H: ShellHost>(host: &mut H, calls: &Vec<HostCall>) -> (log: Vec<HostCall>)
    ensures
        log@ == calls@,
        final(host).received() == old(host).received() + calls@,
{
    let mut log: Vec<HostCall> = Vec::new();
    let mut i: usize = 0;
    while i < calls.len()
        invariant
            i <= calls@.len(),
            log@ == calls@.take(i as int),
            host.received() == old(host).received() + log@,
        decreases calls@.len() - i,
    {
        let _ = issue(host, calls[i], &mut log);
        assert(calls@.take(i + 1) =~= calls@.take(i as int).push(calls@[i as int]));
        i += 1;
    }
    assert(calls@.take(i as int) =~= calls@);
    log
}

fn refit_one_exec(id: DesktopSurfaceId, areas: &Vec<Rect>, row: &Vec<Option<bool>>) -> (r: Vec<HostCall>)
    ensures
        r@ == refit_one(id, areas@, row@),
{
    let mut out: Vec<HostCall> = Vec::new();
    if areas.len() == 0 || row.len() == 0 || row[0].is_none() {
        return out;
    }
    let mut found = false;
    let mut j: usize = 0;
    while j < row.len()
        invariant
            j <= row@.len(),
            found == exists|k: int| 0 <= k < j && row@[k] == Some(true),
        decreases row@.len() - j,
    {
        match row[j] {
            Some(b) => {
                if b {
                    found = true;
                }
            },
            None => {},
        }
        j += 1;
    }
    if found {
        out.push(HostCall::MarkViewDirty(id));
    } else {
        let (x, y) = fallback_position(areas[0]);
        out.push(HostCall::SetPosition(id, x, y));
    }
    assert(out@ =~= refit_one(id, areas@, row@));
    out
}

/// Re-fitting the views `ids` onto the output `areas`, given the host's
/// answers: `inside[i][j]` says whether view `i` lies in area `j`
/// (`None`: the view has no position).  Per view, in order: nothing when
/// there is no area or it has no position; a redraw when some answer is
/// true; else a move a quarter into the first area.
pub fn refit_calls(
    ids: &Vec<DesktopSurfaceId>,
    areas: &Vec<Rect>,
    inside: &Vec<Vec<Option<bool>>>,
) -> (calls: Vec<HostCall>)
    ensures
        calls@ == refit_calls_spec(ids@, areas@, answer_rows(inside@), ids@.len() as int),
        areas@.len() == 0 ==> calls@.len() == 0,
{
    let ghost rows = answer_rows(inside@);
    let empty: Vec<Option<bool>> = Vec::new();
    let mut out: Vec<HostCall> = Vec::new();
    let mut i: usize = 0;
    while i < ids.len()
        invariant
            i <= ids@.len(),
            rows == answer_rows(inside@),
            empty@.len() == 0,
            out@ == refit_calls_spec(ids@, areas@, rows, i as int),
        decreases ids@.len() - i,
    {
        let row = if i < inside.len() {
            &inside[i]
        } else {
            &empty
        };
        assert(row@ =~= row_at(rows, i as int));
        let mut one = refit_one_exec(ids[i], areas, row);
        out.append(&mut one);
        i += 1;
    }
    proof {
        if areas@.len() == 0 {
            assert(areas@ =~= Seq::<Rect>::empty());
            lemma_refit_no_areas(ids@, rows, ids@.len() as int);
        }
    }
    out
}

/// The views `ids` that move with `output` (by the `f64` amounts with
/// bits `dx`, `dy`), given the output the host reports for each view:
/// per view, in order, a shift when it is `output`, else nothing.
pub fn shift_calls(
    ids: &Vec<DesktopSurfaceId>,
    view_outputs: &Vec<Option<OutputId>>,
    output: OutputId,
    dx: u64,
    dy: u64,
) -> (calls: Vec<HostCall>)
    ensures
        calls@ == shift_calls_spec(ids@, view_outputs@, output, dx, dy, ids@.len() as int),
{
    let mut out: Vec<HostCall> = Vec::new();
    let mut i: usize = 0;
    while i < ids.len()
        invariant
            i <= ids@.len(),
            out@ == shift_calls_spec(ids@, view_outputs@, output, dx, dy, i as int),
        decreases ids@.len() - i,
    {
        let on = if i < view_outputs.len() {
            match view_outputs[i] {
                Some(o) => o == output,
                None => false,
            }
        } else {
            false
        };
        let ghost before = out@;
        if on {
            out.push(HostCall::ShiftView(ids[i], dx, dy));
        }
        assert(out@ =~= before + shift_one(ids@[i as int], output_at(view_outputs@, i as int), output, dx, dy));
        i += 1;
    }
    out
}

impl Shell {
    /// Re-fit every view onto the outputs: asks the host for its output
    /// areas and, per view, whether it lies in each; the calls are then
    /// those `refit_calls` gives for these answers.
    pub fn reposition_all<H: ShellHost>(&self, host: &mut H) -> (calls: Vec<HostCall>)
        ensures
            final(host).received() == old(host).received() + calls@,
            repositioned(self@, calls@),
    {
        let ids = self.surface_ids();
        assert(ids@ =~= surface_ids_spec(self@));
        let areas = output_areas(host);
        let mut inside: Vec<Vec<Option<bool>>> = Vec::new();
        let mut i: usize = 0;
        while i < ids.len()
            decreases ids@.len() - i,
        {
            let mut row: Vec<Option<bool>> = Vec::new();
            if areas.len() > 0 {
                let first = host.view_inside(ids[i], areas[0]);
                row.push(first);
                if first.is_some() {
                    let mut j: usize = 1;
                    while j < areas.len()
                        invariant
                            i < ids@.len(),
                        decreases areas@.len() - j,
                    {
                        row.push(host.view_inside(ids[i], areas[j]));
                        j += 1;
                    }
                }
            }
            inside.push(row);
            i += 1;
        }
        let planned = refit_calls(&ids, &areas, &inside);
        let log = issue_all(host, &planned);
        assert(refit_calls_spec(surface_ids_spec(self@), areas@, answer_rows(inside@), self@.surfaces.len() as int) == log@);
        log
    }

    /// Where a view is first placed: the geometry of the output under
    /// the first seat that has a pointer position (or, with none, under
    /// the origin), if any output holds it.
    fn pointer_area<H: ShellHost>(&self, host: &H) -> (r: Option<Rect>) {
        let infos = output_areas(host);
        if infos.len() == 0 {
            return None;
        }
        let seats = host.seats();
        let mut found: Option<SeatId> = None;
        let mut i: usize = 0;
        while i < seats.len()
            invariant
                infos@.len() > 0,
            decreases seats@.len() - i,
        {
            if found.is_none() {
                if host.pointer_inside(seats[i], infos[0]).is_some() {
                    found = Some(seats[i]);
                }
            }
            i += 1;
        }
        let mut j: usize = 0;
        while j < infos.len()
            decreases infos@.len() - j,
        {
            let g = infos[j];
            let inside = match found {
                Some(seat) => match host.pointer_inside(seat, g) {
                    Some(b) => b,
                    None => false,
                },
                None => holds_origin(g),
            };
            if inside {
                return Some(g);
            }
            j += 1;
        }
        None
    }

    /// The Xwayland position recorded for `id`.
    fn xwayland_of(&self, id: DesktopSurfaceId) -> (r: Option<XwaylandPos>)
        ensures
            r == xwayland_of_spec(self@, id),
    {
        proof {
            lemma_surf_index(self@.surfaces, id, 0);
        }
        match find_surf(&self.surfaces, id) {
            Some(i) => self.surfaces[i].xwayland,
            None => None,
        }
    }

    /// Xwayland asked for a position for `id` (the bits of its `f64`
    /// coordinates); it is used when the surface is first mapped.
    pub fn xwayland_position(&mut self, id: DesktopSurfaceId, x: u64, y: u64)
        ensures
            final(self)@ == set_xwayland_spec(old(self)@, id, x, y),
    {
        proof {
            lemma_surf_index(self@.surfaces, id, 0);
        }
        match find_surf(&self.surfaces, id) {
            Some(i) => {
                let rec = self.surfaces[i];
                self.surfaces.set(
                    i,
                    SurfRecord {
                        id: rec.id,
                        parent: rec.parent,
                        focus_count: rec.focus_count,
                        last_width: rec.last_width,
                        last_height: rec.last_height,
                        xwayland: Some(XwaylandPos { x, y }),
                    },
                );
                assert(self@.surfaces =~= set_xwayland_spec(old(self)@, id, x, y).surfaces);
            },
            None => {},
        }
    }

    /// First content of a known surface: place it, map it, raise it and
    /// activate it on every seat.
    fn first_map<H: ShellHost>(&mut self, host: &mut H, id: DesktopSurfaceId, width: i32, height: i32)
        -> (calls: Vec<HostCall>)
        ensures
            final(host).received() == old(host).received() + calls@,
            first_map(old(self)@, final(self)@, calls@, id, width, height),
    {
        let ghost m = self@;
        let mut log: Vec<HostCall> = Vec::new();
        match self.xwayland_of(id) {
            Some(p) => {
                let g = match host.surface_geometry(id) {
                    Some(g) => g,
                    None => Rect { x: 0, y: 0, width: 0, height: 0 },
                };
                let c = HostCall::PlaceView(id, p.x, p.y, -(g.x as i64), -(g.y as i64));
                let _ = issue(host, c, &mut log);
                assert(c == place_call(id, p, g));
                assert(placed(m, self@, c, id, width, height));
            },
            None => {
                let area = self.pointer_area(host);
                let (x, y) = self.initial_position(area, width, height);
                let c = HostCall::SetPosition(id, x, y);
                let _ = issue(host, c, &mut log);
                assert(placed(m, self@, c, id, width, height));
            },
        }
        let ghost mid = self@;
        let ghost c0 = log@[0];
        let mut rest = self.map_on_seats(host, id);
        let ghost r = rest@;
        log.append(&mut rest);
        proof {
            assert(log@[0] == c0);
            assert(log@.subrange(3, log@.len() as int) =~= r.subrange(2, r.len() as int));
            assert(placed(m, mid, log@[0], id, width, height));
        }
        log
    }

    /// A commit of `id`: `buf_dx`, `buf_dy` are the bits of the client's
    /// `f64` buffer offset.  An unknown surface or an empty buffer is
    /// ignored; the first content maps the surface; a later one moves
    /// the view (by the buffer offset, or on a grabbed left or top edge
    /// by the size change) and records the new size.
    pub fn committed<H: ShellHost>(
        &mut self,
        host: &mut H,
        id: DesktopSurfaceId,
        buf_dx: u64,
        buf_dy: u64,
        edges: ResizeEdges,
        width: i32,
        height: i32,
        mapped: bool,
    ) -> (calls: Vec<HostCall>)
        ensures
            final(host).received() == old(host).received() + calls@,
            match commit_plan_spec(
                old(self)@,
                id,
                width,
                height,
                mapped,
                zero_bits(buf_dx) && zero_bits(buf_dy),
                edges,
            ) {
                CommitPlan::Ignore | CommitPlan::Unchanged => final(self)@ == old(self)@ && calls@.len()
                    == 0,
                CommitPlan::FirstMap => first_map(old(self)@, final(self)@, calls@, id, width, height),
                CommitPlan::Move { x, y } => final(self)@ == record_size_spec(
                    old(self)@,
                    id,
                    width,
                    height,
                ) && calls@ == seq![
                    HostCall::UpdateTransforms(id),
                    HostCall::OffsetView(id, view_offset(x, buf_dx), view_offset(y, buf_dy)),
                    HostCall::UpdateTransforms(id),
                ],
            },
    {
        let zero = zero_bits_exec(buf_dx) && zero_bits_exec(buf_dy);
        let mut log: Vec<HostCall> = Vec::new();
        match self.commit_plan(id, width, height, mapped, zero, edges) {
            CommitPlan::Ignore => log,
            CommitPlan::Unchanged => log,
            CommitPlan::FirstMap => self.first_map(host, id, width, height),
            CommitPlan::Move { x, y } => {
                let _ = issue(host, HostCall::UpdateTransforms(id), &mut log);
                let ox = view_offset_exec(x, buf_dx);
                let oy = view_offset_exec(y, buf_dy);
                let _ = issue(host, HostCall::OffsetView(id, ox, oy), &mut log);
                self.record_size(id, width, height);
                let _ = issue(host, HostCall::UpdateTransforms(id), &mut log);
                log
            },
        }
    }

    /// The output `output` moved by the `f64` amounts with bits `dx`,
    /// `dy`: asks the host which output each view lies on; the calls are
    /// those `shift_calls` gives for these answers.
    pub fn output_moved<H: ShellHost>(&self, host: &mut H, output: OutputId, dx: u64, dy: u64) -> (calls:
        Vec<HostCall>)
        ensures
            final(host).received() == old(host).received() + calls@,
            shifted(self@, calls@, output, dx, dy),
    {
        let ids = self.surface_ids();
        assert(ids@ =~= surface_ids_spec(self@));
        let mut vos: Vec<Option<OutputId>> = Vec::new();
        let mut i: usize = 0;
        while i < ids.len()
            decreases ids@.len() - i,
        {
            vos.push(host.view_output(ids[i]));
            i += 1;
        }
        let planned = shift_calls(&ids, &vos, output, dx, dy);
        let log = issue_all(host, &planned);
        assert(shift_calls_spec(surface_ids_spec(self@), vos@, output, dx, dy, self@.surfaces.len() as int) == log@);
        log
    }
}

} // verus!
