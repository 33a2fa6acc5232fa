//! Opaque generational handles.
//!
//! An id is a `(slot, generation)` pair into the per-kind registry table.
//! Ids are freely copyable, comparable and hashable, and may outlive the
//! object they name: resolution through the registry is the only way to
//! reach the object, and a stale id resolves to nothing.

use vstd::prelude::*;
use crate::registry::RawId;

verus! {

/// A `weston_output`.
#[derive(Clone, Copy, PartialEq, Eq, Structural, PartialOrd, Ord, Hash, Debug)]
pub struct OutputId(pub RawId);

/// A `weston_head`.
#[derive(Clone, Copy, PartialEq, Eq, Structural, PartialOrd, Ord, Hash, Debug)]
pub struct HeadId(pub RawId);

/// A `weston_seat`.
#[derive(Clone, Copy, PartialEq, Eq, Structural, PartialOrd, Ord, Hash, Debug)]
pub struct SeatId(pub RawId);

/// A `weston_surface`.
#[derive(Clone, Copy, PartialEq, Eq, Structural, PartialOrd, Ord, Hash, Debug)]
pub struct SurfaceId(pub RawId);

/// A `weston_view` created by the shell.
#[derive(Clone, Copy, PartialEq, Eq, Structural, PartialOrd, Ord, Hash, Debug)]
pub struct ViewId(pub RawId);

/// A `weston_desktop_surface`.
#[derive(Clone, Copy, PartialEq, Eq, Structural, PartialOrd, Ord, Hash, Debug)]
pub struct DesktopSurfaceId(pub RawId);

/// A `weston_layer` owned by the wrapper.
#[derive(Clone, Copy, PartialEq, Eq, Structural, PartialOrd, Ord, Hash, Debug)]
pub struct LayerId(pub RawId);

/// A `weston_curtain` owned by the wrapper.
#[derive(Clone, Copy, PartialEq, Eq, Structural, PartialOrd, Ord, Hash, Debug)]
pub struct CurtainId(pub RawId);

/// The order ids are sorted in: by slot, then by generation (the order
/// the derived `Ord` gives).
pub open spec fn raw_lt(a: RawId, b: RawId) -> bool {
    a.slot < b.slot || (a.slot == b.slot && a.generation < b.generation)
}

/// `raw_lt`, computed.
pub fn raw_less(a: RawId, b: RawId) -> (r: bool)
    ensures
        r == raw_lt(a, b),
{
    a.slot < b.slot || (a.slot == b.slot && a.generation < b.generation)
}

} // verus!
