//! The capture region of the caster's screen.
//!
//! A region is a rectangle in source-screen coordinates. "Full screen" is
//! the reserved all-zero region rather than a special case, so that the
//! command handed to the media pipeline is uniform; every other valid region
//! has a positive extent in both directions.

use vstd::prelude::*;

verus! {

/// A capture rectangle; the all-zero region stands for the full screen.
#[derive(PartialEq, Eq, Structural, Clone, Copy, Debug)]
pub struct ScreenRegion {
    pub startx: u32,
    pub starty: u32,
    pub endx: u32,
    pub endy: u32,
}

impl ScreenRegion {
    /// The reserved region that selects the whole screen.
    pub open spec fn is_full_screen(self) -> bool {
        self.startx == 0 && self.starty == 0 && self.endx == 0 && self.endy == 0
    }

    /// A region is valid when it is the full screen or has positive extent.
    pub open spec fn wf(self) -> bool {
        self.is_full_screen() || (self.startx < self.endx && self.starty < self.endy)
    }

    /// The full-screen region.
    pub fn full_screen() -> (r: ScreenRegion)
        ensures
            r.is_full_screen(),
            r.wf(),
    {
        ScreenRegion { startx: 0, starty: 0, endx: 0, endy: 0 }
    }

    /// Does this region select the whole screen?
    pub fn covers_full_screen(&self) -> (r: bool)
        ensures
            r == self.is_full_screen(),
    {
        self.startx == 0 && self.starty == 0 && self.endx == 0 && self.endy == 0
    }

    /// Validate a rectangle: accepted exactly when it is the reserved zero
    /// region or both ends lie strictly beyond their starts.
    pub fn new(startx: u32, starty: u32, endx: u32, endy: u32) -> (r: Option<ScreenRegion>)
        ensures
            ({
                let region = ScreenRegion { startx, starty, endx, endy };
                r == if region.wf() {
                    Some(region)
                } else {
                    Option::<ScreenRegion>::None
                }
            }),
    {
        let region = ScreenRegion { startx, starty, endx, endy };
        if (startx == 0 && starty == 0 && endx == 0 && endy == 0) || (startx < endx && starty
            < endy) {
            Some(region)
        } else {
            None
        }
    }
}

} // verus!
