//! Ids minted outside any registry, for exercising policy code without a
//! compositor.  They carry generation 0, which no registry ever hands
//! out, so a forged id can never alias a live object.

use vstd::prelude::*;
use crate::ids::{DesktopSurfaceId, HeadId, OutputId, SeatId, SurfaceId};
use crate::registry::RawId;

verus! {

/// The generation-0 raw id of slot `i`.
pub open spec fn forged(i: u32) -> RawId {
    RawId { slot: i, generation: 0 }
}

pub fn output(i: u32) -> (r: OutputId)
    ensures
        r == OutputId(forged(i)),
{
    OutputId(RawId { slot: i, generation: 0 })
}

pub fn head(i: u32) -> (r: HeadId)
    ensures
        r == HeadId(forged(i)),
{
    HeadId(RawId { slot: i, generation: 0 })
}

pub fn seat(i: u32) -> (r: SeatId)
    ensures
        r == SeatId(forged(i)),
{
    SeatId(RawId { slot: i, generation: 0 })
}

pub fn surf(i: u32) -> (r: SurfaceId)
    ensures
        r == SurfaceId(forged(i)),
{
    SurfaceId(RawId { slot: i, generation: 0 })
}

pub fn ds(i: u32) -> (r: DesktopSurfaceId)
    ensures
        r == DesktopSurfaceId(forged(i)),
{
    DesktopSurfaceId(RawId { slot: i, generation: 0 })
}

} // verus!
