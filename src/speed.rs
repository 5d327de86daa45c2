//! Normalized actuation intensity: a percentage in `0..=100`.
use vstd::prelude::*;

verus! {

/// Declares funscript's control point so that its public fields can be read.
#[verifier::external_type_specification]
pub struct ExFSPoint(funscript::FSPoint);

/// The largest intensity, in percent.
pub const MAX_PERCENT: u16 = 100;

/// An integer clamped into the percentage range.
pub open spec fn clamp_percent(p: int) -> int {
    if p < 0 {
        0
    } else if p > 100 {
        100
    } else {
        p
    }
}

/// An actuation intensity in percent.
#[derive(Debug, Clone, Copy, PartialEq, Eq, Structural)]
pub struct Speed {
    pub value: u16,
}

impl Speed {
    /// A speed lies in the percentage range.
    pub open spec fn wf(self) -> bool {
        self.value <= 100
    }

    /// Builds a speed, clamping any out-of-range percentage.
    pub fn new(percentage: i64) -> (r: Speed)
        ensures
            r.value == clamp_percent(percentage as int),
            r.wf(),
    {
        let mut p = percentage;
        if p < 0 {
            p = 0;
        }
        if p > 100 {
            p = 100;
        }
        Speed { value: p as u16 }
    }

    /// The speed of a funscript control point, its position clamped.
    pub fn from_fs(point: &funscript::FSPoint) -> (r: Speed)
        ensures
            r.value == clamp_percent(point.pos as int),
            r.wf(),
    {
        Speed::new(point.pos as i64)
    }

    /// Standing still.
    pub fn min() -> (r: Speed)
        ensures
            r.value == 0,
            r.wf(),
    {
        Speed { value: 0 }
    }

    /// Full intensity.
    pub fn max() -> (r: Speed)
        ensures
            r.value == MAX_PERCENT,
            r.wf(),
    {
        Speed { value: MAX_PERCENT }
    }
}

} // verus!
