//! Exact fixed-point coordinates.
//!
//! A coordinate axis value is `whole + frac / 2^53`: an integer unit
//! cell together with a 53-bit fractional offset inside it. The 2^-53
//! grid is exactly the set of values a uniform draw in `[0, 1)` from a
//! 64-bit generator can take, so feature points live on it natively.

use vstd::prelude::*;

verus! {

/// The fixed-point scale: one unit cell spans `FRAC_ONE` grid steps.
pub const FRAC_ONE: u64 = 0x20_0000_0000_0000;

/// One coordinate axis value, `whole + frac / 2^53`.
#[derive(Clone, Copy, Debug, PartialEq, Eq, Structural)]
pub struct Fixed {
    /// The containing unit interval `[whole, whole + 1)`.
    pub whole: i32,
    /// Position inside the unit interval, in steps of `2^-53`.
    pub frac: u64,
}

/// A 2D coordinate, both axes in exact fixed-point.
#[derive(Clone, Copy, Debug, PartialEq, Eq, Structural)]
pub struct Point {
    pub x: Fixed,
    pub y: Fixed,
}

impl Fixed {
    /// A well-formed axis value keeps its fraction under one unit and
    /// its whole part clear of the `i32` ends, so that every neighbour
    /// cell index `whole - 1 ..= whole + 1` is still an `i32`.
    pub open spec fn wf(self) -> bool {
        self.frac < FRAC_ONE && i32::MIN < self.whole < i32::MAX
    }

    /// The value as an exact integer count of `2^-53` grid steps.
    pub open spec fn num(self) -> int {
        self.whole * (FRAC_ONE as int) + self.frac
    }

    /// Build an axis value from its unit cell and fractional offset.
    pub fn new(whole: i32, frac: u64) -> (r: Fixed)
        requires
            frac < FRAC_ONE,
            i32::MIN < whole < i32::MAX,
        ensures
            r == (Fixed { whole, frac }),
            r.wf(),
    {
        Fixed { whole, frac }
    }

    /// The index of the containing unit cell.
    pub fn floor(self) -> (r: i32)
        ensures
            r == self.whole,
    {
        self.whole
    }

    /// The fractional position inside the containing unit cell, in
    /// steps of `2^-53`.
    pub fn frac_steps(self) -> (r: u64)
        ensures
            r == self.frac,
    {
        self.frac
    }

    /// The exact separation `self - other`, as a count of `2^-53`
    /// grid steps. Total: any two axis values are at most `2^85` or
    /// so steps apart, well within `i128`.
    pub fn diff_steps(self, other: Fixed) -> (d: i128)
        ensures
            d == self.num() - other.num(),
    {
        let dw: i128 = self.whole as i128 - other.whole as i128;
        proof {
            assert((-0x2000_0000_0000_0000_0000_0000i128 <= dw * 0x20_0000_0000_0000i128
                <= 0x2000_0000_0000_0000_0000_0000i128) && dw * 0x20_0000_0000_0000i128 == dw
                * (FRAC_ONE as int)) by (nonlinear_arith)
                requires
                    -0x1_0000_0000i128 <= dw <= 0x1_0000_0000i128,
            ;
        }
        dw * (FRAC_ONE as i128) + self.frac as i128 - other.frac as i128
    }
}

impl Point {
    pub open spec fn wf(self) -> bool {
        self.x.wf() && self.y.wf()
    }

    pub fn new(x: Fixed, y: Fixed) -> (r: Point)
        ensures
            r == (Point { x, y }),
    {
        Point { x, y }
    }

    /// The indices of the containing unit cell, x then y.
    pub fn floor(self) -> (r: (i32, i32))
        ensures
            r.0 == self.x.whole,
            r.1 == self.y.whole,
    {
        (self.x.whole, self.y.whole)
    }
}

} // verus!
