//! Bitrate/scale policy: a piecewise-linear function of a region's pixel
//! area over five fixed resolution breakpoints.
//!
//! Rates are in thousandths of a megabyte per second (so `3500` stands for
//! 3.5 MB/s) and scale factors in percent, which keeps every interpolation
//! step exact integer arithmetic.

use vstd::prelude::*;

verus! {

/// The bitrate/scale policy variant.
#[derive(Debug, Copy, Clone, PartialEq, Eq, Structural)]
pub enum Schedule {
    Default,
    Performance,
    Quality,
}

/// Pixel area of breakpoint `i` of the rate tables (320x240 up to
/// 2560x1360).
pub open spec fn bp_area(i: int) -> int {
    if i == 0 {
        76800
    } else if i == 1 {
        307200
    } else if i == 2 {
        921600
    } else if i == 3 {
        2073600
    } else {
        3481600
    }
}

/// Base rate table, shared by `Default` and `Quality`.
pub open spec fn default_rate(i: int) -> int {
    if i == 0 {
        2000
    } else if i == 1 {
        3500
    } else if i == 2 {
        5000
    } else if i == 3 {
        7000
    } else {
        10000
    }
}

/// Rate table of the `Performance` policy.
pub open spec fn performance_rate(i: int) -> int {
    if i == 0 {
        2000
    } else if i == 1 {
        3500
    } else if i == 2 {
        4000
    } else if i == 3 {
        5500
    } else {
        7000
    }
}

/// Scale table of the `Performance` policy, in percent.
pub open spec fn performance_scaling(i: int) -> int {
    if i <= 1 {
        100
    } else {
        75
    }
}

pub open spec fn spec_area(size: (u32, u32)) -> int {
    size.0 * size.1
}

/// The smallest breakpoint whose area is at least `area`, when one exists.
pub open spec fn spec_upper_bin(area: int) -> int
    recommends
        area <= bp_area(4),
{
    if area <= bp_area(0) {
        0
    } else if area <= bp_area(1) {
        1
    } else if area <= bp_area(2) {
        2
    } else if area <= bp_area(3) {
        3
    } else {
        4
    }
}

/// The pair of table bins bracketing `area`: `lower` is absent when `area`
/// lies at or below the smallest breakpoint or beyond the largest one, and
/// the rate is then extrapolated through the origin from the breakpoint
/// named by `upper`.
pub open spec fn spec_bins(area: int) -> (Option<int>, int) {
    if area > bp_area(4) {
        (None, 4)
    } else if spec_upper_bin(area) == 0 {
        (None, 0)
    } else {
        (Some(spec_upper_bin(area) - 1), spec_upper_bin(area))
    }
}

/// The rate table of a policy.
pub open spec fn spec_rate_table(s: Schedule, i: int) -> int {
    match s {
        Schedule::Performance => performance_rate(i),
        _ => default_rate(i),
    }
}

/// Linear interpolation of the rate between bins `l` and `l + 1`, by the
/// fractional position of `area` between the two breakpoint areas.
pub open spec fn spec_interpolate(s: Schedule, l: int, area: int) -> int {
    (spec_rate_table(s, l) * (bp_area(l + 1) - area) + spec_rate_table(s, l + 1) * (area - bp_area(
        l,
    ))) / (bp_area(l + 1) - bp_area(l))
}

/// Extrapolation through the origin from breakpoint `u`.
pub open spec fn spec_extrapolate(s: Schedule, u: int, area: int) -> int {
    spec_rate_table(s, u) * area / bp_area(u)
}

/// The policy's rate for a region of area `area`, before the `Quality`
/// boost.
pub open spec fn spec_base_rate(s: Schedule, area: int) -> int {
    if spec_bins(area).0 is Some {
        spec_interpolate(s, spec_bins(area).0->Some_0, area)
    } else {
        spec_extrapolate(s, spec_bins(area).1, area)
    }
}

/// The policy's rate: `Quality` boosts the base rate by a fixed 1.2x.
pub open spec fn spec_bitrate(s: Schedule, size: (u32, u32)) -> int {
    if s is Quality {
        spec_base_rate(s, spec_area(size)) * 6 / 5
    } else {
        spec_base_rate(s, spec_area(size))
    }
}

/// The scale bin: the bin below the bracketing upper bin, clamped to the
/// table.
pub open spec fn spec_scale_bin(area: int) -> int {
    if area > bp_area(4) {
        3
    } else if spec_upper_bin(area) == 0 {
        0
    } else {
        spec_upper_bin(area) - 1
    }
}

/// The policy's downscale factor in percent.
pub open spec fn spec_scaling(s: Schedule, size: (u32, u32)) -> int {
    match s {
        Schedule::Performance => performance_scaling(spec_scale_bin(spec_area(size))),
        _ => 100,
    }
}

impl Schedule {
    /// The table bins bracketing the area of `size`; `None` as the first
    /// component when the rate must be extrapolated through the origin from
    /// the breakpoint named by the second.
    pub fn get_bin(&self, size: (u32, u32)) -> (r: (Option<usize>, usize))
        ensures
            r.1 == spec_bins(spec_area(size)).1,
            r.0 is Some <==> spec_bins(spec_area(size)).0 is Some,
            r.0 is Some ==> r.0->0 == spec_bins(spec_area(size)).0->Some_0,
            r.1 <= 4,
    {
        proof {
            lemma_area_fits(size);
        }
        let area: u64 = (size.0 as u64) * (size.1 as u64);
        if area > 3481600 {
            (None, 4)
        } else {
            let upper: usize = if area <= 76800 {
                0
            } else if area <= 307200 {
                1
            } else if area <= 921600 {
                2
            } else if area <= 2073600 {
                3
            } else {
                4
            };
            if upper == 0 {
                (None, 0)
            } else {
                (Some(upper - 1), upper)
            }
        }
    }

    /// The downscale factor for a region of size `size`, in percent.
    pub fn scaling(&self, size: (u32, u32)) -> (r: u32)
        ensures
            r == spec_scaling(*self, size),
    {
        proof {
            lemma_area_fits(size);
        }
        let area: u64 = (size.0 as u64) * (size.1 as u64);
        let bin: usize = if area > 3481600 {
            3
        } else if area <= 76800 {
            0
        } else if area <= 307200 {
            0
        } else if area <= 921600 {
            1
        } else if area <= 2073600 {
            2
        } else {
            3
        };
        match self {
            Schedule::Performance => {
                if bin <= 1 {
                    100
                } else {
                    75
                }
            },
            _ => 100,
        }
    }

    /// The rate for a region of size `size`, in thousandths of a megabyte
    /// per second: interpolated between the bracketing breakpoints, or
    /// extrapolated through the origin outside the table; `Quality` boosts
    /// the result by 1.2x.
    pub fn bitrate(&self, size: (u32, u32)) -> (r: u64)
        ensures
            r == spec_bitrate(*self, size),
    {
        proof {
            lemma_area_fits(size);
        }
        let area: u64 = (size.0 as u64) * (size.1 as u64);
        let (lower, upper) = self.get_bin(size);
        let rate: u64 = match lower {
            Some(lower) => self.interpolate(lower, area),
            None => self.extrapolate(upper, area),
        };
        proof {
            assert(rate == spec_base_rate(*self, spec_area(size)));
        }
        if matches!(self, Schedule::Quality) {
            proof {
                lemma_base_rate_bounded(*self, area as int);
            }
            rate * 6 / 5
        } else {
            rate
        }
    }

    /// The rate table entry of bin `i`.
    fn rate_entry(&self, i: usize) -> (r: u64)
        requires
            i <= 4,
        ensures
            r == spec_rate_table(*self, i as int),
    {
        match self {
            Schedule::Performance => {
                if i == 0 {
                    2000
                } else if i == 1 {
                    3500
                } else if i == 2 {
                    4000
                } else if i == 3 {
                    5500
                } else {
                    7000
                }
            },
            _ => {
                if i == 0 {
                    2000
                } else if i == 1 {
                    3500
                } else if i == 2 {
                    5000
                } else if i == 3 {
                    7000
                } else {
                    10000
                }
            },
        }
    }

    fn breakpoint_area(&self, i: usize) -> (r: u64)
        requires
            i <= 4,
        ensures
            r == bp_area(i as int),
    {
        if i == 0 {
            76800
        } else if i == 1 {
            307200
        } else if i == 2 {
            921600
        } else if i == 3 {
            2073600
        } else {
            3481600
        }
    }

    fn interpolate(&self, lower: usize, area: u64) -> (r: u64)
        requires
            lower < 4,
            bp_area(lower as int) < area <= bp_area(lower as int + 1),
        ensures
            r == spec_interpolate(*self, lower as int, area as int),
    {
        let low_area: u64 = self.breakpoint_area(lower);
        let high_area: u64 = self.breakpoint_area(lower + 1);
        let rl: u64 = self.rate_entry(lower);
        let rh: u64 = self.rate_entry(lower + 1);
        let span: u64 = high_area - low_area;
        proof {
            vstd::arithmetic::mul::lemma_mul_upper_bound(
                rl as int,
                10000,
                (high_area - area) as int,
                3481600,
            );
            vstd::arithmetic::mul::lemma_mul_upper_bound(
                rh as int,
                10000,
                (area - low_area) as int,
                3481600,
            );
            vstd::arithmetic::mul::lemma_mul_nonnegative(rl as int, (high_area - area) as int);
            vstd::arithmetic::mul::lemma_mul_nonnegative(rh as int, (area - low_area) as int);
        }
        (rl * (high_area - area) + rh * (area - low_area)) / span
    }

    fn extrapolate(&self, upper: usize, area: u64) -> (r: u64)
        requires
            upper <= 4,
            area <= u32::MAX * u32::MAX,
        ensures
            r == spec_extrapolate(*self, upper as int, area as int),
    {
        let anchor_area: u64 = self.breakpoint_area(upper);
        let rate: u64 = self.rate_entry(upper);
        proof {
            vstd::arithmetic::mul::lemma_mul_upper_bound(
                rate as int,
                10000,
                area as int,
                u32::MAX * u32::MAX,
            );
            vstd::arithmetic::mul::lemma_mul_nonnegative(rate as int, area as int);
            vstd::arithmetic::div_mod::lemma_div_pos_is_pos(
                rate as int * area as int,
                anchor_area as int,
            );
            vstd::arithmetic::div_mod::lemma_div_is_ordered(
                rate as int * area as int,
                10000 * (u32::MAX * u32::MAX),
                anchor_area as int,
            );
            assert(u32::MAX * u32::MAX == 18446744065119617025int);
            assert(10000 * 18446744065119617025int / 76800 < u64::MAX);
            vstd::arithmetic::div_mod::lemma_div_is_ordered_by_denominator(
                10000 * (u32::MAX * u32::MAX),
                76800,
                anchor_area as int,
            );
        }
        let wide: u128 = (rate as u128) * (area as u128) / (anchor_area as u128);
        wide as u64
    }
}

/// The pixel area of a region fits in `u64`.
proof fn lemma_area_fits(size: (u32, u32))
    ensures
        0 <= spec_area(size) <= u32::MAX * u32::MAX,
        spec_area(size) == (size.0 as u64) * (size.1 as u64),
        u32::MAX * u32::MAX == 18446744065119617025int,
{
    vstd::arithmetic::mul::lemma_mul_upper_bound(
        size.0 as int,
        u32::MAX as int,
        size.1 as int,
        u32::MAX as int,
    );
    vstd::arithmetic::mul::lemma_mul_nonnegative(size.0 as int, size.1 as int);
    assert(u32::MAX * u32::MAX == 18446744065119617025int) by (nonlinear_arith);
}

/// Below the `Quality` boost the base rate fits comfortably in `u64`: it is
/// at most the origin-extrapolated rate at the largest conceivable area.
proof fn lemma_base_rate_bounded(s: Schedule, area: int)
    requires
        0 <= area <= u32::MAX * u32::MAX,
    ensures
        0 <= spec_base_rate(s, area) * 6 <= u64::MAX,
{
    let r = spec_base_rate(s, area);
    if spec_bins(area).0 is Some {
        let l = spec_bins(area).0->Some_0;
        assert(0 <= l < 4);
        assert(spec_rate_table(s, l) * (bp_area(l + 1) - area) <= 10000 * 3481600) by {
            vstd::arithmetic::mul::lemma_mul_upper_bound(
                spec_rate_table(s, l),
                10000,
                bp_area(l + 1) - area,
                3481600,
            );
        }
        assert(spec_rate_table(s, l + 1) * (area - bp_area(l)) <= 10000 * 3481600) by {
            vstd::arithmetic::mul::lemma_mul_upper_bound(
                spec_rate_table(s, l + 1),
                10000,
                area - bp_area(l),
                3481600,
            );
        }
        assert(spec_rate_table(s, l) * (bp_area(l + 1) - area) >= 0) by {
            vstd::arithmetic::mul::lemma_mul_nonnegative(
                spec_rate_table(s, l),
                bp_area(l + 1) - area,
            );
        }
        assert(spec_rate_table(s, l + 1) * (area - bp_area(l)) >= 0) by {
            vstd::arithmetic::mul::lemma_mul_nonnegative(
                spec_rate_table(s, l + 1),
                area - bp_area(l),
            );
        }
        vstd::arithmetic::div_mod::lemma_div_pos_is_pos(
            spec_rate_table(s, l) * (bp_area(l + 1) - area) + spec_rate_table(s, l + 1) * (area
                - bp_area(l)),
            bp_area(l + 1) - bp_area(l),
        );
        vstd::arithmetic::div_mod::lemma_div_is_ordered(
            spec_rate_table(s, l) * (bp_area(l + 1) - area) + spec_rate_table(s, l + 1) * (area
                - bp_area(l)),
            2int * (10000 * 3481600),
            bp_area(l + 1) - bp_area(l),
        );
        vstd::arithmetic::div_mod::lemma_div_is_ordered_by_denominator(
            2int * (10000 * 3481600),
            230400,
            bp_area(l + 1) - bp_area(l),
        );
        assert(2int * (10000 * 3481600) / 230400 * 6 <= u64::MAX);
    } else {
        let u = spec_bins(area).1;
        assert(spec_rate_table(s, u) * area <= 10000 * (u32::MAX * u32::MAX)) by {
            vstd::arithmetic::mul::lemma_mul_upper_bound(
                spec_rate_table(s, u),
                10000,
                area,
                u32::MAX * u32::MAX,
            );
        }
        assert(spec_rate_table(s, u) * area >= 0) by {
            vstd::arithmetic::mul::lemma_mul_nonnegative(spec_rate_table(s, u), area);
        }
        vstd::arithmetic::div_mod::lemma_div_pos_is_pos(spec_rate_table(s, u) * area, bp_area(u));
        vstd::arithmetic::div_mod::lemma_div_is_ordered(
            spec_rate_table(s, u) * area,
            10000 * (u32::MAX * u32::MAX),
            bp_area(u),
        );
        vstd::arithmetic::div_mod::lemma_div_is_ordered_by_denominator(
            10000 * (u32::MAX * u32::MAX),
            76800,
            bp_area(u),
        );
        assert(u32::MAX * u32::MAX == 18446744065119617025int);
        assert(10000 * 18446744065119617025int / 76800 * 6 <= u64::MAX);
    }
}

/// At an area exactly on a table breakpoint the rate is exactly that
/// breakpoint's table entry: the interpolation has no error at the
/// breakpoints themselves, and the smallest breakpoint's origin
/// extrapolation passes through its table entry.
pub proof fn lemma_bitrate_at_breakpoints(s: Schedule, i: int)
    requires
        0 <= i <= 4,
        !(s is Quality),
    ensures
        spec_base_rate(s, bp_area(i)) == spec_rate_table(s, i),
{
    let area = bp_area(i);
    if i == 0 {
        assert(spec_bins(area) == (None::<int>, 0int));
        assert(spec_extrapolate(s, 0, area) == spec_rate_table(s, 0) * 76800 / 76800);
        assert(spec_rate_table(s, 0) * 76800 / 76800 == spec_rate_table(s, 0)) by {
            vstd::arithmetic::div_mod::lemma_div_by_multiple(spec_rate_table(s, 0), 76800);
            vstd::arithmetic::mul::lemma_mul_is_commutative(spec_rate_table(s, 0), 76800);
        }
    } else {
        assert(spec_upper_bin(area) == i);
        assert(spec_bins(area) == (Some(i - 1), i));
        let rl = spec_rate_table(s, i - 1);
        let rh = spec_rate_table(s, i);
        let span = bp_area(i) - bp_area(i - 1);
        assert(spec_interpolate(s, i - 1, area) == (rl * 0 + rh * span) / span);
        assert(rl * 0 == 0) by {
            vstd::arithmetic::mul::lemma_mul_basics(rl);
        }
        assert(rh * span / span == rh) by {
            vstd::arithmetic::div_mod::lemma_div_by_multiple(rh, span);
            vstd::arithmetic::mul::lemma_mul_is_commutative(rh, span);
        }
    }
}

/// At an area exactly halfway between two adjacent breakpoints, the rate is
/// exactly the arithmetic mean of the two breakpoint rates.
pub proof fn lemma_bitrate_midpoint(s: Schedule, l: int)
    requires
        0 <= l < 4,
        !(s is Quality),
    ensures
        spec_base_rate(s, (bp_area(l) + bp_area(l + 1)) / 2) == (spec_rate_table(s, l)
            + spec_rate_table(s, l + 1)) / 2,
{
    let mid = (bp_area(l) + bp_area(l + 1)) / 2;
    let rl = spec_rate_table(s, l);
    let rh = spec_rate_table(s, l + 1);
    assert(spec_bins(mid) == (Some(l), l + 1));
    assert(spec_interpolate(s, l, mid) == (rl * (bp_area(l + 1) - mid) + rh * (mid - bp_area(l)))
        / (bp_area(l + 1) - bp_area(l)));
    assert(bp_area(l + 1) - mid == mid - bp_area(l));
    let d = mid - bp_area(l);
    assert(rl * d + rh * d == (rl + rh) * d) by {
        vstd::arithmetic::mul::lemma_mul_is_distributive_add_other_way(d, rl, rh);
    }
    assert((rl + rh) * d / (2 * d) == (rl + rh) / 2) by {
        vstd::arithmetic::div_mod::lemma_div_denominator((rl + rh) * d, d, 2);
        vstd::arithmetic::div_mod::lemma_div_by_multiple(rl + rh, d);
        vstd::arithmetic::mul::lemma_mul_is_commutative(rl + rh, d);
        vstd::arithmetic::mul::lemma_mul_is_commutative(d, 2);
    }
    assert(bp_area(l + 1) - bp_area(l) == 2 * d);
}

} // verus!
