//! Decimal rendering edge cases.

use aibench::numeral::render_hundredths;
use aibench::numeral::render_tenths;
use aibench::numeral::u128_to_string;
use aibench::numeral::u64_to_string;

#[test]
fn whole_number_rendering() {
    assert_eq!(u64_to_string(0).as_str(), "0");
    assert_eq!(u64_to_string(7).as_str(), "7");
    assert_eq!(u64_to_string(10).as_str(), "10");
    assert_eq!(u64_to_string(90210).as_str(), "90210");
    assert_eq!(u64_to_string(u64::MAX).as_str(), "18446744073709551615");
    assert_eq!(u128_to_string(340282366920938463463374607431768211455).as_str(), "340282366920938463463374607431768211455");
}

#[test]
fn fixed_point_rendering() {
    assert_eq!(render_tenths(0).as_str(), "0.0");
    assert_eq!(render_tenths(5).as_str(), "0.5");
    assert_eq!(render_tenths(20).as_str(), "2.0");
    assert_eq!(render_tenths(107).as_str(), "10.7");
    assert_eq!(render_hundredths(0).as_str(), "0.00");
    assert_eq!(render_hundredths(5).as_str(), "0.05");
    assert_eq!(render_hundredths(250).as_str(), "2.50");
    assert_eq!(render_hundredths(100050).as_str(), "1000.50");
}
