use vstd::prelude::*;

verus! {

/// An exact positive rational number, used for aspect ratios (width over
/// height). Stored unreduced, so a probed image keeps its width as `num`
/// and its height as `den`.
#[derive(Clone, Copy, PartialEq, Eq, Structural, Debug)]
pub struct Ratio {
    pub num: u32,
    pub den: u32,
}

impl Ratio {
    /// Both components positive: the rational is well defined and positive.
    pub open spec fn wf(self) -> bool {
        self.num > 0 && self.den > 0
    }

    pub fn new(num: u32, den: u32) -> (r: Ratio)
        requires
            num > 0,
            den > 0,
        ensures
            r.wf(),
            r.num == num,
            r.den == den,
    {
        Ratio { num, den }
    }
}

/// `a < b` as rationals, in cross-multiplied form (sound when both
/// denominators are positive).
pub open spec fn ratio_lt(a: Ratio, b: Ratio) -> bool {
    (a.num as int) * (b.den as int) < (b.num as int) * (a.den as int)
}

/// `a >= b` as rationals (denominators positive).
pub open spec fn ratio_ge(a: Ratio, b: Ratio) -> bool {
    !ratio_lt(a, b)
}

/// The working aspect `wn / wd` lies below the target `t`, in
/// cross-multiplied form (sound when `wd` and `t.den` are positive). This
/// is the assembly loop's guard.
pub open spec fn aspect_lt(wn: int, wd: int, t: Ratio) -> bool {
    wn * (t.den as int) < (t.num as int) * wd
}

/// `r < t - wn/wd` as rationals, in cross-multiplied form (sound when all
/// three denominators are positive). This is the greedy scan's acceptance
/// test: `r` a candidate's aspect, `t` the target aspect, `wn / wd` the
/// working aspect.
pub open spec fn fits_deficit(r: Ratio, t: Ratio, wn: int, wd: int) -> bool {
    (r.num as int) * ((t.den as int) * wd) < (r.den as int) * ((t.num as int) * wd - (
    t.den as int) * wn)
}

pub fn ratio_lt_exec(a: Ratio, b: Ratio) -> (r: bool)
    ensures
        r == ratio_lt(a, b),
{
    proof {
        assert(0 <= (a.num as int) * (b.den as int) < 0x1_0000_0000_0000_0000) by (nonlinear_arith)
            requires
                0 <= a.num < 0x1_0000_0000,
                0 <= b.den < 0x1_0000_0000,
        ;
        assert(0 <= (b.num as int) * (a.den as int) < 0x1_0000_0000_0000_0000) by (nonlinear_arith)
            requires
                0 <= b.num < 0x1_0000_0000,
                0 <= a.den < 0x1_0000_0000,
        ;
    }
    (a.num as u64) * (b.den as u64) < (b.num as u64) * (a.den as u64)
}

/// The loop guard on concrete working dimensions.
pub fn aspect_lt_exec(width: u32, height: u32, t: Ratio) -> (r: bool)
    ensures
        r == aspect_lt(width as int, height as int, t),
{
    proof {
        assert(0 <= (width as int) * (t.den as int) < 0x1_0000_0000_0000_0000) by (nonlinear_arith)
            requires
                0 <= width < 0x1_0000_0000,
                0 <= t.den < 0x1_0000_0000,
        ;
        assert(0 <= (t.num as int) * (height as int) < 0x1_0000_0000_0000_0000)
            by (nonlinear_arith)
            requires
                0 <= t.num < 0x1_0000_0000,
                0 <= height < 0x1_0000_0000,
        ;
    }
    (width as u64) * (t.den as u64) < (t.num as u64) * (height as u64)
}

/// The greedy scan's acceptance test on concrete working dimensions.
pub fn fits_deficit_exec(r: Ratio, t: Ratio, width: u32, height: u32) -> (b: bool)
    ensures
        b == fits_deficit(r, t, width as int, height as int),
{
    proof {
        let rn = r.num as int;
        let rd = r.den as int;
        let tn = t.num as int;
        let td = t.den as int;
        let wn = width as int;
        let wd = height as int;
        assert(0 <= td * wd < 0x1_0000_0000_0000_0000) by (nonlinear_arith)
            requires
                0 <= td < 0x1_0000_0000,
                0 <= wd < 0x1_0000_0000,
        ;
        assert(0 <= tn * wd < 0x1_0000_0000_0000_0000) by (nonlinear_arith)
            requires
                0 <= tn < 0x1_0000_0000,
                0 <= wd < 0x1_0000_0000,
        ;
        assert(0 <= td * wn < 0x1_0000_0000_0000_0000) by (nonlinear_arith)
            requires
                0 <= td < 0x1_0000_0000,
                0 <= wn < 0x1_0000_0000,
        ;
        assert(0 <= rn * (td * wd) < 0x1_0000_0000_0000_0000_0000_0000) by (nonlinear_arith)
            requires
                0 <= rn < 0x1_0000_0000,
                0 <= td * wd < 0x1_0000_0000_0000_0000,
        ;
        assert(-0x1_0000_0000_0000_0000_0000_0000 < rd * (tn * wd - td * wn)
            < 0x1_0000_0000_0000_0000_0000_0000) by (nonlinear_arith)
            requires
                0 <= rd < 0x1_0000_0000,
                -0x1_0000_0000_0000_0000 < tn * wd - td * wn < 0x1_0000_0000_0000_0000,
        ;
    }
    let lhs: i128 = (r.num as i128) * ((t.den as i128) * (height as i128));
    let rhs: i128 = (r.den as i128) * ((t.num as i128) * (height as i128) - (t.den as i128) * (
    width as i128));
    lhs < rhs
}

} // verus!
