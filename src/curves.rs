//! Pricing curves: the maps between supply, reserve and spot price.
//!
//! Amounts are raw integers in each token's own decimal places. A curve
//! with coefficient `v` and scale `c` has the real slope `k = v / 10^c`;
//! a raw supply `S` stands for `S / 10^sd` tokens and a raw reserve `R`
//! for `R / 10^rd` tokens. Every result is the exact real value rounded
//! down, computed in checked `u128` arithmetic. Prices are fixed-point
//! numbers with 18 fractional digits, the square-root price with 9
//! significant fractional digits in its root.
use crate::error::ContractError;
use crate::roots::{
    cbrt_floor, is_cbrt_floor, is_sqrt_floor, icbrt, isqrt, lemma_cbrt_floor, lemma_cbrt_floor_mono, lemma_cube_mono,
    lemma_square_mono, lemma_sqrt_floor, lemma_sqrt_floor_mono, sqrt_floor,
};
use vstd::arithmetic::div_mod::{
    lemma_div_denominator, lemma_div_is_ordered, lemma_div_multiples_vanish, lemma_fundamental_div_mod,
    lemma_mod_bound,
};
use vstd::prelude::*;

verus! {

/// The largest number of decimal places a token may have.
pub const MAX_DECIMALS: u8 = 18;

/// The largest scale a curve coefficient may have.
pub const MAX_SCALE: u32 = 18;

pub open spec fn pow10(n: nat) -> int
    decreases n,
{
    if n == 0 {
        1
    } else {
        10 * pow10((n - 1) as nat)
    }
}

/// Powers of ten are positive and grow with the exponent.
pub proof fn lemma_pow10_mono(i: nat, j: nat)
    requires
        i <= j,
    ensures
        1 <= pow10(i) <= pow10(j),
    decreases j,
{
    if j > i {
        lemma_pow10_mono(i, (j - 1) as nat);
    } else if i > 0 {
        lemma_pow10_mono(0, (i - 1) as nat);
    }
}

/// `10^n`.
fn ten_to(n: u32) -> (r: u128)
    requires
        n <= 18,
    ensures
        r as int == pow10(n as nat),
        r >= 1,
{
    let mut r: u128 = 1;
    let mut i: u32 = 0;
    while i < n
        invariant
            i <= n <= 18,
            r as int == pow10(i as nat),
        decreases n - i,
    {
        proof {
            reveal_with_fuel(pow10, 19);
            assert(pow10(18) == 1_000_000_000_000_000_000int);
            lemma_pow10_mono((i + 1) as nat, 18);
            assert(pow10((i + 1) as nat) == 10 * pow10(i as nat));
        }
        r = r * 10;
        i = i + 1;
    }
    proof {
        lemma_pow10_mono(0, n as nat);
    }
    r
}

/// `acc` holds `x`, or is `None` when `x` does not fit in `u128`.
pub open spec fn tracks(acc: Option<u128>, x: int) -> bool {
    x >= 0 && match acc {
        Some(a) => a as int == x,
        None => x > u128::MAX,
    }
}

/// Multiplies a tracked product by one more factor.
fn mul_tracked(acc: Option<u128>, f: u128, Ghost(x): Ghost<int>) -> (r: Option<u128>)
    requires
        tracks(acc, x),
        f >= 1,
    ensures
        tracks(r, x * f),
{
    proof {
        assert(x * f >= x) by (nonlinear_arith)
            requires
                x >= 0,
                f >= 1,
        ;
    }
    match acc {
        None => None,
        Some(a) => a.checked_mul(f),
    }
}

/// Divides a quotient `n / dd` once more, by `d`.
fn div_tracked(q: u128, d: u128, Ghost(n): Ghost<int>, Ghost(dd): Ghost<int>) -> (r: u128)
    requires
        n >= 0,
        dd >= 1,
        d >= 1,
        q as int == n / dd,
    ensures
        r as int == n / (dd * d),
        dd * d >= 1,
{
    proof {
        lemma_div_denominator(n, dd, d as int);
        assert(dd * d >= 1) by (nonlinear_arith)
            requires
                dd >= 1,
                d >= 1,
        ;
    }
    q / d
}

/// The decimal places of the supply and the reserve token.
#[derive(Clone, Copy, Debug, PartialEq, Eq)]
pub struct DecimalPlaces {
    pub supply: u8,
    pub reserve: u8,
}

impl DecimalPlaces {
    pub open spec fn valid(self) -> bool {
        self.supply <= MAX_DECIMALS && self.reserve <= MAX_DECIMALS
    }

    /// Fails when either token has more than `MAX_DECIMALS` places.
    pub fn new(supply: u8, reserve: u8) -> (r: Result<DecimalPlaces, ContractError>)
        ensures
            r is Ok <==> supply <= MAX_DECIMALS && reserve <= MAX_DECIMALS,
            r matches Ok(d) ==> d.supply == supply && d.reserve == reserve && d.valid(),
            r is Err ==> r matches Err(ContractError::CurveConfigError(_)),
    {
        if supply > MAX_DECIMALS || reserve > MAX_DECIMALS {
            Err(ContractError::CurveConfigError("decimal places exceed the supported maximum".to_string()))
        } else {
            Ok(DecimalPlaces { supply, reserve })
        }
    }
}

/// The shape of a curve and its coefficient `value / 10^scale`.
#[derive(Clone, Copy, Debug, PartialEq, Eq)]
pub enum CurveType {
    /// Constant price `k`.
    Constant { value: u128, scale: u32 },
    /// Price `k * supply`.
    Linear { slope: u128, scale: u32 },
    /// Price `k * supply^(1/2)`.
    SquareRoot { slope: u128, scale: u32 },
}

impl CurveType {
    pub open spec fn spec_coefficient(self) -> int {
        match self {
            CurveType::Constant { value, .. } => value as int,
            CurveType::Linear { slope, .. } => slope as int,
            CurveType::SquareRoot { slope, .. } => slope as int,
        }
    }

    pub open spec fn spec_scale(self) -> nat {
        match self {
            CurveType::Constant { scale, .. } => scale as nat,
            CurveType::Linear { scale, .. } => scale as nat,
            CurveType::SquareRoot { scale, .. } => scale as nat,
        }
    }

    pub open spec fn valid(self) -> bool {
        self.spec_coefficient() >= 1 && self.spec_scale() <= MAX_SCALE
    }

    pub fn coefficient(&self) -> (r: u128)
        ensures
            r as int == self.spec_coefficient(),
    {
        match self {
            CurveType::Constant { value, .. } => *value,
            CurveType::Linear { slope, .. } => *slope,
            CurveType::SquareRoot { slope, .. } => *slope,
        }
    }

    pub fn scale(&self) -> (r: u32)
        ensures
            r as nat == self.spec_scale(),
    {
        match self {
            CurveType::Constant { scale, .. } => *scale,
            CurveType::Linear { scale, .. } => *scale,
            CurveType::SquareRoot { scale, .. } => *scale,
        }
    }

    /// Fails on a zero coefficient or a scale above `MAX_SCALE`.
    pub fn validate(&self) -> (r: Result<(), ContractError>)
        ensures
            r is Ok <==> self.valid(),
            r is Err ==> r matches Err(ContractError::CurveConfigError(_)),
    {
        if self.coefficient() == 0 {
            Err(ContractError::CurveConfigError("curve coefficient must be positive".to_string()))
        } else if self.scale() > MAX_SCALE {
            Err(ContractError::CurveConfigError("curve scale exceeds the supported maximum".to_string()))
        } else {
            Ok(())
        }
    }

    /// The curve of this type over the given decimal places.
    pub fn to_curve(self, decimals: DecimalPlaces) -> (c: Curve)
        ensures
            c == curve_of(self, decimals),
    {
        Curve { curve_type: self, decimals }
    }
}

/// The curve of `curve_type` over `decimals`.
pub open spec fn curve_of(curve_type: CurveType, decimals: DecimalPlaces) -> Curve {
    Curve { curve_type, decimals }
}

/// A curve type evaluated over the decimal places of its two tokens.
#[derive(Clone, Copy, Debug, PartialEq, Eq)]
pub struct Curve {
    pub curve_type: CurveType,
    pub decimals: DecimalPlaces,
}

impl Curve {
    pub open spec fn wf(self) -> bool {
        self.curve_type.valid() && self.decimals.valid()
    }

    pub open spec fn v(self) -> int {
        self.curve_type.spec_coefficient()
    }

    /// `10^sd`.
    pub open spec fn pa(self) -> int {
        pow10(self.decimals.supply as nat)
    }

    /// `10^rd`.
    pub open spec fn pb(self) -> int {
        pow10(self.decimals.reserve as nat)
    }

    /// `10^scale`.
    pub open spec fn pc(self) -> int {
        pow10(self.curve_type.spec_scale())
    }

    /// The argument of the root in the square-root price: `S * 10^(18 - sd)`.
    pub open spec fn root_argument(self, s: int) -> int {
        s * pow10((18 - self.decimals.supply) as nat)
    }

    pub open spec fn spot_price_numerator(self, s: int) -> int {
        match self.curve_type {
            CurveType::Constant { .. } => self.v() * pow10(18),
            CurveType::Linear { .. } => s * self.v() * pow10(18),
            CurveType::SquareRoot { .. } => sqrt_floor(self.root_argument(s)) * self.v() * pow10(9),
        }
    }

    pub open spec fn spot_price_denominator(self) -> int {
        match self.curve_type {
            CurveType::Linear { .. } => self.pa() * self.pc(),
            _ => self.pc(),
        }
    }

    /// The price at supply `s`, with 18 fractional digits.
    pub open spec fn spot_price_spec(self, s: int) -> int {
        self.spot_price_numerator(s) / self.spot_price_denominator()
    }

    pub open spec fn spot_price_fits(self, s: int) -> bool {
        &&& self.spot_price_numerator(s) <= u128::MAX
        &&& (self.curve_type is SquareRoot ==> self.root_argument(s) <= u128::MAX)
    }

    pub open spec fn reserve_numerator(self, s: int) -> int {
        match self.curve_type {
            CurveType::Constant { .. } => s * self.v() * self.pb(),
            CurveType::Linear { .. } => s * s * self.v() * self.pb(),
            CurveType::SquareRoot { .. } => s * s * s * 4 * self.v() * self.v() * self.pb() * self.pb(),
        }
    }

    pub open spec fn reserve_denominator(self) -> int {
        match self.curve_type {
            CurveType::Constant { .. } => self.pa() * self.pc(),
            CurveType::Linear { .. } => 2 * self.pa() * self.pa() * self.pc(),
            CurveType::SquareRoot { .. } => 9 * self.pa() * self.pa() * self.pa() * self.pc() * self.pc(),
        }
    }

    /// The reserve that backs supply `s`: the integral of the price from 0
    /// to `s`, `k*s`, `k*s^2/2` or `2/3*k*s^(3/2)`, rounded down.
    pub open spec fn reserve_spec(self, s: int) -> int {
        match self.curve_type {
            CurveType::SquareRoot { .. } => sqrt_floor(self.reserve_numerator(s) / self.reserve_denominator()),
            _ => self.reserve_numerator(s) / self.reserve_denominator(),
        }
    }

    pub open spec fn supply_numerator(self, r: int) -> int {
        match self.curve_type {
            CurveType::Constant { .. } => r * self.pa() * self.pc(),
            CurveType::Linear { .. } => r * 2 * self.pa() * self.pa() * self.pc(),
            CurveType::SquareRoot { .. } => r * r * 9 * self.pa() * self.pa() * self.pa() * self.pc() * self.pc(),
        }
    }

    pub open spec fn supply_denominator(self) -> int {
        match self.curve_type {
            CurveType::SquareRoot { .. } => 4 * self.v() * self.v() * self.pb() * self.pb(),
            _ => self.v() * self.pb(),
        }
    }

    /// The supply that reserve `r` backs, the inverse of `reserve_spec`:
    /// `r/k`, `(2r/k)^(1/2)` or `(3r/2k)^(2/3)`, rounded down.
    pub open spec fn supply_spec(self, r: int) -> int {
        match self.curve_type {
            CurveType::Constant { .. } => self.supply_numerator(r) / self.supply_denominator(),
            CurveType::Linear { .. } => sqrt_floor(self.supply_numerator(r) / self.supply_denominator()),
            CurveType::SquareRoot { .. } => cbrt_floor(self.supply_numerator(r) / self.supply_denominator()),
        }
    }
}

impl Curve {
    /// The coefficient and every power of ten in the formulas are at least 1.
    pub proof fn lemma_factors(self)
        requires
            self.wf(),
        ensures
            self.v() >= 1,
            self.pa() >= 1,
            self.pb() >= 1,
            self.pc() >= 1,
            pow10(9) >= 1,
            pow10(18) >= 1,
    {
        lemma_pow10_mono(0, self.decimals.supply as nat);
        lemma_pow10_mono(0, self.decimals.reserve as nat);
        lemma_pow10_mono(0, self.curve_type.spec_scale());
        lemma_pow10_mono(0, 9);
        lemma_pow10_mono(0, 18);
    }

    /// The spot price at raw supply `supply`, as a fixed-point number with
    /// 18 fractional digits. Fails with `Overflow` exactly when an
    /// intermediate product leaves `u128`.
    pub fn spot_price(&self, supply: u128) -> (r: Result<u128, ContractError>)
        requires
            self.wf(),
        ensures
            r is Ok <==> self.spot_price_fits(supply as int),
            r matches Ok(p) ==> p as int == self.spot_price_spec(supply as int),
            r is Err ==> r == Err::<u128, ContractError>(ContractError::Overflow),
    {
        proof {
            self.lemma_factors();
        }
        let v = self.curve_type.coefficient();
        let pa = ten_to(self.decimals.supply as u32);
        let pc = ten_to(self.curve_type.scale());
        let ten18 = ten_to(18);
        let s = supply;
        match self.curve_type {
            CurveType::Constant { .. } => {
                let n = mul_tracked(Some(v), ten18, Ghost(v as int));
                match n {
                    None => Err(ContractError::Overflow),
                    Some(n) => Ok(n / pc),
                }
            },
            CurveType::Linear { .. } => {
                if s == 0 {
                    proof {
                        assert(self.pa() * self.pc() >= 1) by (nonlinear_arith)
                            requires
                                self.pa() >= 1,
                                self.pc() >= 1,
                        ;
                        assert(0int / self.spot_price_denominator() == 0) by (nonlinear_arith)
                            requires
                                self.spot_price_denominator() >= 1,
                        ;
                    }
                    return Ok(0);
                }
                let n = mul_tracked(Some(s), v, Ghost(s as int));
                let n = mul_tracked(n, ten18, Ghost((s as int) * (v as int)));
                match n {
                    None => Err(ContractError::Overflow),
                    Some(n) => {
                        let q = n / pa;
                        Ok(div_tracked(q, pc, Ghost(n as int), Ghost(pa as int)))
                    },
                }
            },
            CurveType::SquareRoot { .. } => {
                proof {
                    lemma_pow10_mono(0, (18 - self.decimals.supply) as nat);
                }
                let p = ten_to(18 - self.decimals.supply as u32);
                let ten9 = ten_to(9);
                let arg = mul_tracked(Some(s), p, Ghost(s as int));
                match arg {
                    None => Err(ContractError::Overflow),
                    Some(arg) => {
                        let root = isqrt(arg);
                        proof {
                            lemma_sqrt_floor(arg as int, 0);
                        }
                        if root == 0 {
                            proof {
                                assert(0int * self.v() * pow10(9) == 0) by (nonlinear_arith);
                                assert(0int / self.spot_price_denominator() == 0) by (nonlinear_arith)
                                    requires
                                        self.spot_price_denominator() >= 1,
                                ;
                            }
                            return Ok(0);
                        }
                        let n = mul_tracked(Some(root), v, Ghost(root as int));
                        let n = mul_tracked(n, ten9, Ghost((root as int) * (v as int)));
                        match n {
                            None => Err(ContractError::Overflow),
                            Some(n) => Ok(n / pc),
                        }
                    },
                }
            },
        }
    }

    /// The raw reserve that backs raw supply `supply`. Fails with
    /// `Overflow` exactly when the numerator leaves `u128`.
    pub fn reserve(&self, supply: u128) -> (r: Result<u128, ContractError>)
        requires
            self.wf(),
        ensures
            r is Ok <==> self.reserve_numerator(supply as int) <= u128::MAX,
            r matches Ok(x) ==> x as int == self.reserve_spec(supply as int),
            r is Err ==> r == Err::<u128, ContractError>(ContractError::Overflow),
    {
        proof {
            self.lemma_factors();
            lemma_sqrt_floor(0, 0);
        }
        let v = self.curve_type.coefficient();
        let pa = ten_to(self.decimals.supply as u32);
        let pb = ten_to(self.decimals.reserve as u32);
        let pc = ten_to(self.curve_type.scale());
        let s = supply;
        if s == 0 {
            proof {
                assert(0int * self.v() * self.pb() == 0) by (nonlinear_arith);
                assert(0int * 0int * self.v() * self.pb() == 0) by (nonlinear_arith);
                assert(0int * 0int * 0int * 4 * self.v() * self.v() * self.pb() * self.pb() == 0) by (nonlinear_arith);
                assert(is_sqrt_floor(0, 0));
                assert(self.reserve_denominator() >= 1) by (nonlinear_arith)
                    requires
                        self.pa() >= 1,
                        self.pc() >= 1,
                        self.reserve_denominator() == 9 * self.pa() * self.pa() * self.pa() * self.pc() * self.pc()
                            || self.reserve_denominator() == 2 * self.pa() * self.pa() * self.pc()
                            || self.reserve_denominator() == self.pa() * self.pc(),
                ;
                assert(0int / self.reserve_denominator() == 0) by (nonlinear_arith)
                    requires
                        self.reserve_denominator() >= 1,
                ;
            }
            return Ok(0);
        }
        let gs = Ghost(s as int);
        match self.curve_type {
            CurveType::Constant { .. } => {
                let n = mul_tracked(Some(s), v, gs);
                let n = mul_tracked(n, pb, Ghost((s as int) * (v as int)));
                match n {
                    None => Err(ContractError::Overflow),
                    Some(n) => {
                        let q = n / pa;
                        Ok(div_tracked(q, pc, Ghost(n as int), Ghost(pa as int)))
                    },
                }
            },
            CurveType::Linear { .. } => {
                let n = mul_tracked(Some(s), s, gs);
                let n = mul_tracked(n, v, Ghost((s as int) * (s as int)));
                let n = mul_tracked(n, pb, Ghost((s as int) * (s as int) * (v as int)));
                match n {
                    None => Err(ContractError::Overflow),
                    Some(n) => {
                        let gn = Ghost(n as int);
                        let q = n / 2;
                        let q = div_tracked(q, pa, gn, Ghost(2int));
                        let q = div_tracked(q, pa, gn, Ghost(2 * (pa as int)));
                        Ok(div_tracked(q, pc, gn, Ghost(2 * (pa as int) * (pa as int))))
                    },
                }
            },
            CurveType::SquareRoot { .. } => {
                let n = mul_tracked(Some(s), s, gs);
                let n = mul_tracked(n, s, Ghost((s as int) * (s as int)));
                let n = mul_tracked(n, 4, Ghost((s as int) * (s as int) * (s as int)));
                let n = mul_tracked(n, v, Ghost((s as int) * (s as int) * (s as int) * 4));
                let n = mul_tracked(n, v, Ghost((s as int) * (s as int) * (s as int) * 4 * (v as int)));
                let n = mul_tracked(
                    n,
                    pb,
                    Ghost((s as int) * (s as int) * (s as int) * 4 * (v as int) * (v as int)),
                );
                let n = mul_tracked(
                    n,
                    pb,
                    Ghost((s as int) * (s as int) * (s as int) * 4 * (v as int) * (v as int) * (pb as int)),
                );
                match n {
                    None => Err(ContractError::Overflow),
                    Some(n) => {
                        let gn = Ghost(n as int);
                        let ghost a: int = pa as int;
                        let ghost c: int = pc as int;
                        let q = n / 9;
                        let q = div_tracked(q, pa, gn, Ghost(9int));
                        let q = div_tracked(q, pa, gn, Ghost(9 * a));
                        let q = div_tracked(q, pa, gn, Ghost(9 * a * a));
                        let q = div_tracked(q, pc, gn, Ghost(9 * a * a * a));
                        let q = div_tracked(q, pc, gn, Ghost(9 * a * a * a * c));
                        Ok(isqrt(q))
                    },
                }
            },
        }
    }

    /// The raw supply that raw reserve `reserve` backs. Fails with
    /// `Overflow` exactly when the numerator leaves `u128`.
    pub fn supply(&self, reserve: u128) -> (r: Result<u128, ContractError>)
        requires
            self.wf(),
        ensures
            r is Ok <==> self.supply_numerator(reserve as int) <= u128::MAX,
            r matches Ok(x) ==> x as int == self.supply_spec(reserve as int),
            r is Err ==> r == Err::<u128, ContractError>(ContractError::Overflow),
    {
        proof {
            self.lemma_factors();
            lemma_sqrt_floor(0, 0);
            lemma_cbrt_floor(0, 0);
        }
        let v = self.curve_type.coefficient();
        let pa = ten_to(self.decimals.supply as u32);
        let pb = ten_to(self.decimals.reserve as u32);
        let pc = ten_to(self.curve_type.scale());
        let r = reserve;
        if r == 0 {
            proof {
                assert(0int * 2 * self.pa() * self.pa() * self.pc() == 0) by (nonlinear_arith);
                assert(0int * self.pa() * self.pc() == 0) by (nonlinear_arith);
                assert(0int * 0int * 9 * self.pa() * self.pa() * self.pa() * self.pc() * self.pc() == 0) by (nonlinear_arith);
                assert(is_cbrt_floor(0, 0));
                assert(is_sqrt_floor(0, 0));
                assert(self.supply_denominator() >= 1) by (nonlinear_arith)
                    requires
                        self.v() >= 1,
                        self.pb() >= 1,
                        self.supply_denominator() == 4 * self.v() * self.v() * self.pb() * self.pb()
                            || self.supply_denominator() == self.v() * self.pb(),
                ;
                assert(0int / self.supply_denominator() == 0) by (nonlinear_arith)
                    requires
                        self.supply_denominator() >= 1,
                ;
            }
            return Ok(0);
        }
        let gr = Ghost(r as int);
        let a = Ghost(pa as int);
        let c = Ghost(pc as int);
        match self.curve_type {
            CurveType::Constant { .. } => {
                let n = mul_tracked(Some(r), pa, gr);
                let n = mul_tracked(n, pc, Ghost((r as int) * (pa as int)));
                match n {
                    None => Err(ContractError::Overflow),
                    Some(n) => {
                        let q = n / v;
                        Ok(div_tracked(q, pb, Ghost(n as int), Ghost(v as int)))
                    },
                }
            },
            CurveType::Linear { .. } => {
                let n = mul_tracked(Some(r), 2, gr);
                let n = mul_tracked(n, pa, Ghost((r as int) * 2));
                let n = mul_tracked(n, pa, Ghost((r as int) * 2 * a@));
                let n = mul_tracked(n, pc, Ghost((r as int) * 2 * a@ * a@));
                match n {
                    None => Err(ContractError::Overflow),
                    Some(n) => {
                        let q = n / v;
                        let q = div_tracked(q, pb, Ghost(n as int), Ghost(v as int));
                        Ok(isqrt(q))
                    },
                }
            },
            CurveType::SquareRoot { .. } => {
                let n = mul_tracked(Some(r), r, gr);
                let n = mul_tracked(n, 9, Ghost((r as int) * (r as int)));
                let n = mul_tracked(n, pa, Ghost((r as int) * (r as int) * 9));
                let n = mul_tracked(n, pa, Ghost((r as int) * (r as int) * 9 * a@));
                let n = mul_tracked(n, pa, Ghost((r as int) * (r as int) * 9 * a@ * a@));
                let n = mul_tracked(n, pc, Ghost((r as int) * (r as int) * 9 * a@ * a@ * a@));
                let n = mul_tracked(n, pc, Ghost((r as int) * (r as int) * 9 * a@ * a@ * a@ * c@));
                match n {
                    None => Err(ContractError::Overflow),
                    Some(n) => {
                        let gn = Ghost(n as int);
                        let ghost vi: int = v as int;
                        let q = n / 4;
                        let q = div_tracked(q, v, gn, Ghost(4int));
                        let q = div_tracked(q, v, gn, Ghost(4 * vi));
                        let q = div_tracked(q, pb, gn, Ghost(4 * vi * vi));
                        let q = div_tracked(q, pb, gn, Ghost(4 * vi * vi * (pb as int)));
                        Ok(icbrt(q))
                    },
                }
            },
        }
    }
}

proof fn lemma_mul_le(a: int, b: int, k: int)
    requires
        a <= b,
        k >= 0,
    ensures
        a * k <= b * k,
{
    assert(a * k <= b * k) by (nonlinear_arith)
        requires
            a <= b,
            k >= 0,
    ;
}

/// A quotient rounded down, times its divisor, does not exceed the dividend.
proof fn lemma_quotient_times(n: int, d: int)
    requires
        n >= 0,
        d >= 1,
    ensures
        0 <= n / d,
        (n / d) * d <= n,
{
    lemma_fundamental_div_mod(n, d);
    lemma_mod_bound(n, d);
    assert(0 <= n / d) by (nonlinear_arith)
        requires
            n == d * (n / d) + n % d,
            0 <= n % d < d,
            n >= 0,
    ;
    assert((n / d) * d <= n) by (nonlinear_arith)
        requires
            n == d * (n / d) + n % d,
            0 <= n % d,
    ;
}

/// `(x * d) / d == x`.
proof fn lemma_exact_quotient(x: int, d: int)
    requires
        d >= 1,
    ensures
        (x * d) / d == x,
{
    lemma_div_multiples_vanish(x, d);
    assert(d * x == x * d) by (nonlinear_arith);
}

proof fn lemma_sqrt_of_square(s: int)
    requires
        s >= 0,
    ensures
        sqrt_floor(s * s) == s,
{
    assert(s * s < (s + 1) * (s + 1)) by (nonlinear_arith)
        requires
            s >= 0,
    ;
    assert(s * s >= 0) by (nonlinear_arith);
    lemma_sqrt_floor(s * s, s);
}

proof fn lemma_cbrt_of_cube(s: int)
    requires
        s >= 0,
    ensures
        cbrt_floor(s * s * s) == s,
{
    assert(s * s * s < (s + 1) * (s + 1) * (s + 1)) by (nonlinear_arith)
        requires
            s >= 0,
    ;
    assert(s * s * s >= 0) by (nonlinear_arith)
        requires
            s >= 0,
    ;
    lemma_cbrt_floor(s * s * s, s);
}

impl Curve {
    /// The reserve for supply `s` loses nothing to rounding: it is the
    /// curve's exact real value.
    pub open spec fn reserve_is_exact(self, s: int) -> bool {
        match self.curve_type {
            CurveType::SquareRoot { .. } => self.reserve_spec(s) * self.reserve_spec(s)
                * self.reserve_denominator() == self.reserve_numerator(s),
            _ => self.reserve_spec(s) * self.reserve_denominator() == self.reserve_numerator(s),
        }
    }
}

/// Monotonicity: a larger supply never has a lower spot price nor a lower
/// reserve.
pub proof fn lemma_monotonic(curve: Curve, s1: int, s2: int)
    requires
        curve.wf(),
        0 <= s1 < s2,
    ensures
        curve.spot_price_spec(s1) <= curve.spot_price_spec(s2),
        curve.reserve_spec(s1) <= curve.reserve_spec(s2),
{
    curve.lemma_factors();
    let v = curve.v();
    let pa = curve.pa();
    let pb = curve.pb();
    let pc = curve.pc();
    assert(curve.spot_price_denominator() >= 1) by (nonlinear_arith)
        requires
            pa >= 1,
            pc >= 1,
            curve.spot_price_denominator() == pa * pc || curve.spot_price_denominator() == pc,
    ;
    assert(curve.reserve_denominator() >= 1) by (nonlinear_arith)
        requires
            pa >= 1,
            pc >= 1,
            curve.reserve_denominator() == 9 * pa * pa * pa * pc * pc || curve.reserve_denominator() == 2
                * pa * pa * pc || curve.reserve_denominator() == pa * pc,
    ;
    match curve.curve_type {
        CurveType::Constant { .. } => {
            lemma_mul_le(s1, s2, v);
            lemma_mul_le(s1 * v, s2 * v, pb);
        },
        CurveType::Linear { .. } => {
            lemma_mul_le(s1, s2, v);
            lemma_mul_le(s1 * v, s2 * v, pow10(18));
            lemma_square_mono(s1, s2);
            lemma_mul_le(s1 * s1, s2 * s2, v);
            lemma_mul_le(s1 * s1 * v, s2 * s2 * v, pb);
        },
        CurveType::SquareRoot { .. } => {
            let p = pow10((18 - curve.decimals.supply) as nat);
            lemma_pow10_mono(0, (18 - curve.decimals.supply) as nat);
            lemma_mul_le(s1, s2, p);
            assert(s1 * p >= 0) by (nonlinear_arith)
                requires
                    s1 >= 0,
                    p >= 1,
            ;
            lemma_sqrt_floor_mono(curve.root_argument(s1), curve.root_argument(s2));
            let r1 = sqrt_floor(curve.root_argument(s1));
            let r2 = sqrt_floor(curve.root_argument(s2));
            lemma_mul_le(r1, r2, v);
            lemma_mul_le(r1 * v, r2 * v, pow10(9));
            lemma_cube_mono(s1, s2);
            lemma_mul_le(s1 * s1 * s1, s2 * s2 * s2, 4);
            lemma_mul_le(s1 * s1 * s1 * 4, s2 * s2 * s2 * 4, v);
            lemma_mul_le(s1 * s1 * s1 * 4 * v, s2 * s2 * s2 * 4 * v, v);
            lemma_mul_le(s1 * s1 * s1 * 4 * v * v, s2 * s2 * s2 * 4 * v * v, pb);
            lemma_mul_le(s1 * s1 * s1 * 4 * v * v * pb, s2 * s2 * s2 * 4 * v * v * pb, pb);
            let d = curve.reserve_denominator();
            lemma_div_is_ordered(curve.reserve_numerator(s1), curve.reserve_numerator(s2), d);
            assert(curve.reserve_numerator(s1) >= 0) by (nonlinear_arith)
                requires
                    curve.reserve_numerator(s1) == s1 * s1 * s1 * 4 * v * v * pb * pb,
                    s1 >= 0,
                    v >= 1,
                    pb >= 1,
            ;
            lemma_quotient_times(curve.reserve_numerator(s1), d);
            lemma_sqrt_floor_mono(curve.reserve_numerator(s1) / d, curve.reserve_numerator(s2) / d);
        },
    }
    lemma_div_is_ordered(
        curve.spot_price_numerator(s1),
        curve.spot_price_numerator(s2),
        curve.spot_price_denominator(),
    );
    lemma_div_is_ordered(
        curve.reserve_numerator(s1),
        curve.reserve_numerator(s2),
        curve.reserve_denominator(),
    );
}

/// Invertibility: the supply that the reserve for supply `s` backs is `s`
/// again, wherever that reserve is exact. Where rounding took some of it,
/// the supply it backs is never more than `s`.
pub proof fn lemma_invertible(curve: Curve, s: int)
    requires
        curve.wf(),
        0 <= s,
    ensures
        curve.supply_spec(curve.reserve_spec(s)) <= s,
        curve.reserve_is_exact(s) ==> curve.supply_spec(curve.reserve_spec(s)) == s,
{
    curve.lemma_factors();
    let v = curve.v();
    let pa = curve.pa();
    let pb = curve.pb();
    let pc = curve.pc();
    let n = curve.reserve_numerator(s);
    let d = curve.reserve_denominator();
    let r = curve.reserve_spec(s);
    let e = curve.supply_denominator();
    match curve.curve_type {
        CurveType::Constant { .. } => {
            assert(n == s * (v * pb) && d == pa * pc && d >= 1 && e == v * pb && e >= 1 && n >= 0)
                by (nonlinear_arith)
                requires
                    n == s * v * pb,
                    d == pa * pc,
                    e == v * pb,
                    s >= 0,
                    v >= 1,
                    pa >= 1,
                    pb >= 1,
                    pc >= 1,
            ;
            lemma_quotient_times(n, d);
            assert(curve.supply_numerator(r) == r * d) by (nonlinear_arith)
                requires
                    curve.supply_numerator(r) == r * pa * pc,
                    d == pa * pc,
            ;
            lemma_exact_quotient(s, e);
            lemma_div_is_ordered(r * d, n, e);
        },
        CurveType::Linear { .. } => {
            assert(n == (s * s) * (v * pb) && d == 2 * pa * pa * pc && d >= 1 && e == v * pb && e >= 1
                && n >= 0 && s * s >= 0) by (nonlinear_arith)
                requires
                    n == s * s * v * pb,
                    d == 2 * pa * pa * pc,
                    e == v * pb,
                    s >= 0,
                    v >= 1,
                    pa >= 1,
                    pb >= 1,
                    pc >= 1,
            ;
            lemma_quotient_times(n, d);
            assert(curve.supply_numerator(r) == r * d) by (nonlinear_arith)
                requires
                    curve.supply_numerator(r) == r * 2 * pa * pa * pc,
                    d == 2 * pa * pa * pc,
            ;
            lemma_exact_quotient(s * s, e);
            lemma_div_is_ordered(r * d, n, e);
            assert(r * d >= 0) by (nonlinear_arith)
                requires
                    r >= 0,
                    d >= 1,
            ;
            lemma_quotient_times(r * d, e);
            lemma_sqrt_floor_mono((r * d) / e, s * s);
            lemma_sqrt_of_square(s);
        },
        CurveType::SquareRoot { .. } => {
            assert(n == (s * s * s) * (4 * v * v * pb * pb) && d == 9 * pa * pa * pa * pc * pc && d >= 1
                && e == 4 * v * v * pb * pb && e >= 1 && n >= 0 && s * s * s >= 0) by (nonlinear_arith)
                requires
                    n == s * s * s * 4 * v * v * pb * pb,
                    d == 9 * pa * pa * pa * pc * pc,
                    e == 4 * v * v * pb * pb,
                    s >= 0,
                    v >= 1,
                    pa >= 1,
                    pb >= 1,
                    pc >= 1,
            ;
            lemma_quotient_times(n, d);
            lemma_sqrt_floor(n / d, 0);
            assert(r * r * d <= n) by (nonlinear_arith)
                requires
                    r * r <= n / d,
                    (n / d) * d <= n,
                    d >= 1,
            ;
            assert(r * r * d >= 0) by (nonlinear_arith)
                requires
                    r >= 0,
                    d >= 1,
            ;
            assert(curve.supply_numerator(r) == r * r * d) by (nonlinear_arith)
                requires
                    curve.supply_numerator(r) == r * r * 9 * pa * pa * pa * pc * pc,
                    d == 9 * pa * pa * pa * pc * pc,
            ;
            lemma_exact_quotient(s * s * s, e);
            lemma_div_is_ordered(r * r * d, n, e);
            lemma_quotient_times(r * r * d, e);
            lemma_cbrt_floor_mono((r * r * d) / e, s * s * s);
            lemma_cbrt_of_cube(s);
        },
    }
}

/// The supply a reserve backs never falls as the reserve grows.
pub proof fn lemma_supply_monotonic(curve: Curve, r1: int, r2: int)
    requires
        curve.wf(),
        0 <= r1 < r2,
    ensures
        curve.supply_spec(r1) <= curve.supply_spec(r2),
{
    curve.lemma_factors();
    let v = curve.v();
    let pa = curve.pa();
    let pb = curve.pb();
    let pc = curve.pc();
    let e = curve.supply_denominator();
    assert(e >= 1) by (nonlinear_arith)
        requires
            v >= 1,
            pb >= 1,
            e == 4 * v * v * pb * pb || e == v * pb,
    ;
    match curve.curve_type {
        CurveType::Constant { .. } => {
            lemma_mul_le(r1, r2, pa);
            lemma_mul_le(r1 * pa, r2 * pa, pc);
        },
        CurveType::Linear { .. } => {
            lemma_mul_le(r1, r2, 2);
            lemma_mul_le(r1 * 2, r2 * 2, pa);
            lemma_mul_le(r1 * 2 * pa, r2 * 2 * pa, pa);
            lemma_mul_le(r1 * 2 * pa * pa, r2 * 2 * pa * pa, pc);
        },
        CurveType::SquareRoot { .. } => {
            lemma_square_mono(r1, r2);
            lemma_mul_le(r1 * r1, r2 * r2, 9);
            lemma_mul_le(r1 * r1 * 9, r2 * r2 * 9, pa);
            lemma_mul_le(r1 * r1 * 9 * pa, r2 * r2 * 9 * pa, pa);
            lemma_mul_le(r1 * r1 * 9 * pa * pa, r2 * r2 * 9 * pa * pa, pa);
            lemma_mul_le(r1 * r1 * 9 * pa * pa * pa, r2 * r2 * 9 * pa * pa * pa, pc);
            lemma_mul_le(r1 * r1 * 9 * pa * pa * pa * pc, r2 * r2 * 9 * pa * pa * pa * pc, pc);
        },
    }
    let n1 = curve.supply_numerator(r1);
    let n2 = curve.supply_numerator(r2);
    assert(n1 >= 0) by (nonlinear_arith)
        requires
            r1 >= 0,
            pa >= 1,
            pc >= 1,
            n1 == r1 * pa * pc || n1 == r1 * 2 * pa * pa * pc || n1 == r1 * r1 * 9 * pa * pa * pa * pc
                * pc,
    ;
    lemma_div_is_ordered(n1, n2, e);
    lemma_quotient_times(n1, e);
    match curve.curve_type {
        CurveType::Constant { .. } => {},
        CurveType::Linear { .. } => {
            lemma_sqrt_floor_mono(n1 / e, n2 / e);
        },
        CurveType::SquareRoot { .. } => {
            lemma_cbrt_floor_mono(n1 / e, n2 / e);
        },
    }
}

} // verus!
