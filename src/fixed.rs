use vstd::prelude::*;

verus! {

/// Number of raw units in one whole unit: a `Fixed` has six decimal places.
pub const SCALE: i64 = 1_000_000;

/// The largest magnitude a computed `Fixed` takes; results beyond it saturate.
pub open spec fn bound() -> int {
    i64::MAX as int
}

/// Saturates `v` into `[-bound(), bound()]`, a range symmetric about zero.
pub open spec fn clip(v: int) -> int {
    if v > bound() {
        bound()
    } else if v < -bound() {
        -bound()
    } else {
        v
    }
}

/// Division of `n` by a positive `d`, rounded toward zero.
pub open spec fn quot(n: int, d: int) -> int {
    if n >= 0 {
        n / d
    } else {
        -((-n) / d)
    }
}

/// Raw value of the saturated sum of two raw values.
pub open spec fn sum_of(a: int, b: int) -> int {
    clip(a + b)
}

/// Raw value of the saturated difference of two raw values.
pub open spec fn diff_of(a: int, b: int) -> int {
    clip(a - b)
}

/// Raw value of the saturated product of two raw values, rounded toward zero.
pub open spec fn product_of(a: int, b: int) -> int {
    clip(quot(a * b, SCALE as int))
}

/// Raw value of `a` divided by a positive `b`, rounded toward zero and saturated.
pub open spec fn quotient_of(a: int, b: int) -> int {
    clip(quot(a * SCALE, b))
}

/// Raw value of the saturated negation of a raw value.
pub open spec fn negation_of(a: int) -> int {
    clip(-a)
}

/// A signed decimal number held as a count of millionths (`raw / SCALE`).
///
/// Arithmetic saturates at `±i64::MAX` raw units and rounds toward zero, so every
/// result lies in a range symmetric about zero and can be negated exactly.
#[derive(Clone, Copy, Debug, PartialEq, Eq, Structural)]
pub struct Fixed {
    pub raw: i64,
}

impl View for Fixed {
    type V = int;

    open spec fn view(&self) -> int {
        self.raw as int
    }
}

fn clip_wide(v: i128) -> (r: i64)
    ensures
        r as int == clip(v as int),
{
    if v > i64::MAX as i128 {
        i64::MAX
    } else if v < -(i64::MAX as i128) {
        -i64::MAX
    } else {
        v as i64
    }
}

fn quot_wide(n: i128, d: i128) -> (r: i128)
    requires
        d > 0,
        n > i128::MIN,
    ensures
        r as int == quot(n as int, d as int),
{
    if n >= 0 {
        n / d
    } else {
        let m: i128 = -n;
        proof {
            assert(0 <= m / d <= m) by (nonlinear_arith)
                requires
                    m >= 0,
                    d > 0,
            ;
        }
        -(m / d)
    }
}

impl Fixed {
    /// The whole number `n`.
    pub fn from_int(n: i32) -> (r: Fixed)
        ensures
            r@ == n * SCALE,
    {
        Fixed { raw: (n as i64) * SCALE }
    }

    /// Zero.
    pub fn zero() -> (r: Fixed)
        ensures
            r@ == 0,
    {
        Fixed { raw: 0 }
    }

    /// `self + o`, saturated.
    pub fn plus(self, o: Fixed) -> (r: Fixed)
        ensures
            r@ == sum_of(self@, o@),
    {
        Fixed { raw: clip_wide(self.raw as i128 + o.raw as i128) }
    }

    /// `self - o`, saturated.
    pub fn minus(self, o: Fixed) -> (r: Fixed)
        ensures
            r@ == diff_of(self@, o@),
    {
        Fixed { raw: clip_wide(self.raw as i128 - o.raw as i128) }
    }

    /// `-self`, saturated (exact for every computed value).
    pub fn negate(self) -> (r: Fixed)
        ensures
            r@ == negation_of(self@),
    {
        Fixed { raw: clip_wide(-(self.raw as i128)) }
    }

    /// `self * o`, rounded toward zero and saturated.
    pub fn times(self, o: Fixed) -> (r: Fixed)
        ensures
            r@ == product_of(self@, o@),
    {
        let a: i128 = self.raw as i128;
        let b: i128 = o.raw as i128;
        proof {
            assert(-0x4000_0000_0000_0000_0000_0000_0000_0000 <= a * b
                <= 0x4000_0000_0000_0000_0000_0000_0000_0000) by (nonlinear_arith)
                requires
                    -0x8000_0000_0000_0000 <= a <= 0x7fff_ffff_ffff_ffff,
                    -0x8000_0000_0000_0000 <= b <= 0x7fff_ffff_ffff_ffff,
            ;
        }
        Fixed { raw: clip_wide(quot_wide(a * b, SCALE as i128)) }
    }

    /// `self / o` for a positive `o`, rounded toward zero and saturated.
    pub fn over(self, o: Fixed) -> (r: Fixed)
        requires
            o@ > 0,
        ensures
            r@ == quotient_of(self@, o@),
    {
        let a: i128 = self.raw as i128;
        let s: i128 = SCALE as i128;
        proof {
            assert(-0x100_0000_0000_0000_0000_0000 <= a * s <= 0x100_0000_0000_0000_0000_0000)
                by (nonlinear_arith)
                requires
                    -0x8000_0000_0000_0000 <= a <= 0x7fff_ffff_ffff_ffff,
                    s == 1_000_000,
            ;
        }
        Fixed { raw: clip_wide(quot_wide(a * s, o.raw as i128)) }
    }
}

} // verus!
