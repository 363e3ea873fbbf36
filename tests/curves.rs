use cw_abc::curves::{CurveType, DecimalPlaces};
use cw_abc::error::ContractError;
use cw_abc::roots::{icbrt, isqrt};

fn curve(t: CurveType) -> cw_abc::curves::Curve {
    t.to_curve(DecimalPlaces::new(2, 8).unwrap())
}

#[test]
fn integer_roots() {
    assert_eq!(isqrt(0), 0);
    assert_eq!(isqrt(15), 3);
    assert_eq!(isqrt(16), 4);
    assert_eq!(isqrt(u128::MAX), 18_446_744_073_709_551_615);
    assert_eq!(icbrt(0), 0);
    assert_eq!(icbrt(26), 2);
    assert_eq!(icbrt(27), 3);
    assert_eq!(icbrt(u128::MAX), 6_981_463_658_331);
}

#[test]
fn decimal_places_are_bounded() {
    assert!(DecimalPlaces::new(18, 18).is_ok());
    assert!(matches!(DecimalPlaces::new(19, 8), Err(ContractError::CurveConfigError(_))));
    assert!(matches!(DecimalPlaces::new(2, 19), Err(ContractError::CurveConfigError(_))));
}

#[test]
fn linear_curve_values() {
    let c = curve(CurveType::Linear { slope: 1, scale: 1 });
    assert_eq!(c.reserve(1000).unwrap(), 500_000_000);
    assert_eq!(c.supply(500_000_000).unwrap(), 1000);
    assert_eq!(c.supply(100_000_000).unwrap(), 447);
    assert_eq!(c.spot_price(2000).unwrap(), 2_000_000_000_000_000_000);
    assert_eq!(c.reserve(3).unwrap(), 4500);
    assert_eq!(c.supply(4500).unwrap(), 3);
}

#[test]
fn square_root_curve_values() {
    let c = curve(CurveType::SquareRoot { slope: 1, scale: 1 });
    assert_eq!(c.supply(100_000_000).unwrap(), 608);
    assert_eq!(c.reserve(608).unwrap(), 99_945_699);
    assert_eq!(c.spot_price(608).unwrap(), 246_576_560_100_000_000);
    assert_eq!(c.spot_price(100).unwrap(), 100_000_000_000_000_000);
    assert_eq!(c.spot_price(0).unwrap(), 0);
    assert_eq!(c.spot_price(1).unwrap(), 10_000_000_000_000_000);
    // the reserve for one unit is rounded down, and backs no whole unit
    assert_eq!(c.reserve(1).unwrap(), 6666);
    assert_eq!(c.supply(6666).unwrap(), 0);
}

#[test]
fn constant_curve_values() {
    let c = curve(CurveType::Constant { value: 2, scale: 0 });
    assert_eq!(c.spot_price(0).unwrap(), 2_000_000_000_000_000_000);
    assert_eq!(c.spot_price(12345).unwrap(), 2_000_000_000_000_000_000);
    assert_eq!(c.reserve(150).unwrap(), 300_000_000);
    assert_eq!(c.supply(300_000_000).unwrap(), 150);
    assert_eq!(c.supply(300_000_001).unwrap(), 150);
}

#[test]
fn curves_are_monotonic() {
    for t in [
        CurveType::Constant { value: 3, scale: 1 },
        CurveType::Linear { slope: 7, scale: 2 },
        CurveType::SquareRoot { slope: 5, scale: 0 },
    ] {
        let c = curve(t);
        let mut last_price = 0;
        let mut last_reserve = 0;
        for s in [0u128, 1, 2, 10, 99, 100, 12_345, 1_000_000] {
            let p = c.spot_price(s).unwrap();
            let r = c.reserve(s).unwrap();
            assert!(p >= last_price);
            assert!(r >= last_reserve);
            last_price = p;
            last_reserve = r;
        }
    }
}

#[test]
fn exact_reserves_invert() {
    let c = curve(CurveType::Linear { slope: 1, scale: 1 });
    for s in [0u128, 2, 10, 1000, 2000] {
        assert_eq!(c.supply(c.reserve(s).unwrap()).unwrap(), s);
    }
    let c = curve(CurveType::SquareRoot { slope: 1, scale: 1 });
    for s in [0u128, 1, 7, 608, 5000] {
        assert!(c.supply(c.reserve(s).unwrap()).unwrap() <= s);
    }
}

#[test]
fn curve_overflow_is_reported() {
    let c = curve(CurveType::Linear { slope: 1, scale: 1 });
    assert_eq!(c.reserve(1_844_674_407_370_956), Err(ContractError::Overflow));
    assert!(c.reserve(1_844_674_407_370_955).is_ok());
    let c = curve(CurveType::SquareRoot { slope: 1, scale: 1 });
    assert_eq!(c.supply(u128::MAX), Err(ContractError::Overflow));
    assert_eq!(c.spot_price(u128::MAX), Err(ContractError::Overflow));
}
