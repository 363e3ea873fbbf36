//! Integer square and cube roots, rounded down.
use vstd::prelude::*;

verus! {

/// `r` is the square root of `x`, rounded down.
pub open spec fn is_sqrt_floor(x: int, r: int) -> bool {
    0 <= r && r * r <= x && x < (r + 1) * (r + 1)
}

/// `r` is the cube root of `x`, rounded down.
pub open spec fn is_cbrt_floor(x: int, r: int) -> bool {
    0 <= r && r * r * r <= x && x < (r + 1) * (r + 1) * (r + 1)
}

/// The largest natural number whose square does not exceed `x`.
pub open spec fn sqrt_floor(x: int) -> int {
    choose|r: int| is_sqrt_floor(x, r)
}

/// The largest natural number whose cube does not exceed `x`.
pub open spec fn cbrt_floor(x: int) -> int {
    choose|r: int| is_cbrt_floor(x, r)
}

/// Squaring preserves order on natural numbers.
pub proof fn lemma_square_mono(a: int, b: int)
    requires
        0 <= a <= b,
    ensures
        a * a <= b * b,
{
    assert(a * a <= b * b) by (nonlinear_arith)
        requires
            0 <= a <= b,
    ;
}

/// Cubing preserves order on natural numbers.
pub proof fn lemma_cube_mono(a: int, b: int)
    requires
        0 <= a <= b,
    ensures
        a * a * a <= b * b * b,
{
    lemma_square_mono(a, b);
    assert(a * a * a <= b * b * b) by (nonlinear_arith)
        requires
            0 <= a <= b,
            a * a <= b * b,
    ;
}

proof fn lemma_sqrt_floor_exists(x: int)
    requires
        0 <= x,
    ensures
        exists|r: int| is_sqrt_floor(x, r),
    decreases x,
{
    if x == 0 {
        assert(is_sqrt_floor(0, 0));
    } else {
        lemma_sqrt_floor_exists(x - 1);
        let r = sqrt_floor(x - 1);
        if (r + 1) * (r + 1) <= x {
            assert((r + 1) * (r + 1) < (r + 2) * (r + 2)) by (nonlinear_arith)
                requires
                    r >= 0,
            ;
            assert(is_sqrt_floor(x, r + 1));
        } else {
            assert(is_sqrt_floor(x, r));
        }
    }
}

proof fn lemma_cbrt_floor_exists(x: int)
    requires
        0 <= x,
    ensures
        exists|r: int| is_cbrt_floor(x, r),
    decreases x,
{
    if x == 0 {
        assert(is_cbrt_floor(0, 0));
    } else {
        lemma_cbrt_floor_exists(x - 1);
        let r = cbrt_floor(x - 1);
        if (r + 1) * (r + 1) * (r + 1) <= x {
            assert((r + 1) * (r + 1) * (r + 1) < (r + 2) * (r + 2) * (r + 2)) by (nonlinear_arith)
                requires
                    r >= 0,
            ;
            assert(is_cbrt_floor(x, r + 1));
        } else {
            assert(is_cbrt_floor(x, r));
        }
    }
}

/// The rounded-down square root is the unique root of `x`.
pub proof fn lemma_sqrt_floor(x: int, r: int)
    requires
        0 <= x,
    ensures
        is_sqrt_floor(x, sqrt_floor(x)),
        is_sqrt_floor(x, r) ==> r == sqrt_floor(x),
{
    lemma_sqrt_floor_exists(x);
    let s = sqrt_floor(x);
    if is_sqrt_floor(x, r) && r != s {
        if r < s {
            lemma_square_mono(r + 1, s);
        } else {
            lemma_square_mono(s + 1, r);
        }
    }
}

/// The rounded-down cube root is the unique root of `x`.
pub proof fn lemma_cbrt_floor(x: int, r: int)
    requires
        0 <= x,
    ensures
        is_cbrt_floor(x, cbrt_floor(x)),
        is_cbrt_floor(x, r) ==> r == cbrt_floor(x),
{
    lemma_cbrt_floor_exists(x);
    let s = cbrt_floor(x);
    if is_cbrt_floor(x, r) && r != s {
        if r < s {
            lemma_cube_mono(r + 1, s);
        } else {
            lemma_cube_mono(s + 1, r);
        }
    }
}

/// The rounded-down square root does not decrease as its argument grows.
pub proof fn lemma_sqrt_floor_mono(x: int, y: int)
    requires
        0 <= x <= y,
    ensures
        sqrt_floor(x) <= sqrt_floor(y),
{
    lemma_sqrt_floor(x, 0);
    lemma_sqrt_floor(y, 0);
    if sqrt_floor(y) < sqrt_floor(x) {
        lemma_square_mono(sqrt_floor(y) + 1, sqrt_floor(x));
    }
}

/// The rounded-down cube root does not decrease as its argument grows.
pub proof fn lemma_cbrt_floor_mono(x: int, y: int)
    requires
        0 <= x <= y,
    ensures
        cbrt_floor(x) <= cbrt_floor(y),
{
    lemma_cbrt_floor(x, 0);
    lemma_cbrt_floor(y, 0);
    if cbrt_floor(y) < cbrt_floor(x) {
        lemma_cube_mono(cbrt_floor(y) + 1, cbrt_floor(x));
    }
}

/// The square root of `x`, rounded down.
pub fn isqrt(x: u128) -> (r: u128)
    ensures
        r as int == sqrt_floor(x as int),
{
    let mut lo: u128 = 0;
    let mut hi: u128 = 0x1_0000_0000_0000_0000;
    assert((hi as int) * (hi as int) == 0x1_0000_0000_0000_0000_0000_0000_0000_0000int);
    while hi - lo > 1
        invariant
            lo < hi <= 0x1_0000_0000_0000_0000,
            (lo as int) * (lo as int) <= x as int,
            (x as int) < (hi as int) * (hi as int),
        decreases hi - lo,
    {
        let mid: u128 = lo + (hi - lo) / 2;
        match mid.checked_mul(mid) {
            Some(sq) => {
                if sq <= x {
                    lo = mid;
                } else {
                    hi = mid;
                }
            },
            None => {
                hi = mid;
            },
        }
    }
    proof {
        assert(hi == lo + 1);
        lemma_sqrt_floor(x as int, lo as int);
    }
    lo
}

/// The cube root of `x`, rounded down.
pub fn icbrt(x: u128) -> (r: u128)
    ensures
        r as int == cbrt_floor(x as int),
{
    let mut lo: u128 = 0;
    let mut hi: u128 = 0x800_0000_0000;
    assert((hi as int) * (hi as int) * (hi as int) == 0x2_0000_0000_0000_0000_0000_0000_0000_0000int);
    while hi - lo > 1
        invariant
            lo < hi <= 0x800_0000_0000,
            (lo as int) * (lo as int) * (lo as int) <= x as int,
            (x as int) < (hi as int) * (hi as int) * (hi as int),
        decreases hi - lo,
    {
        let mid: u128 = lo + (hi - lo) / 2;
        proof {
            lemma_square_mono(mid as int, 0x800_0000_0000);
        }
        let sq: u128 = mid * mid;
        match sq.checked_mul(mid) {
            Some(cube) => {
                if cube <= x {
                    lo = mid;
                } else {
                    hi = mid;
                }
            },
            None => {
                hi = mid;
            },
        }
    }
    proof {
        assert(hi == lo + 1);
        lemma_cbrt_floor(x as int, lo as int);
    }
    lo
}

} // verus!
