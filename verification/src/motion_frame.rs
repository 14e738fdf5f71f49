//! A single emitted trajectory sample.

use vstd::prelude::*;
use crate::coordinate::PolarCoordinate;

verus! {

/// One step of the planned trajectory: a live interpolation point, the
/// instantaneous speed, the length traversed since the previous frame and
/// the cumulative path length since bring-up.  All quantities are in
/// micro-units.
#[derive(Clone, Copy, PartialEq, Eq, Structural, Debug)]
pub struct MotionFrame {
    pub position: PolarCoordinate,
    pub speed: i64,
    pub relative_distance: i64,
    pub absolute_distance: i64,
}

} // verus!
