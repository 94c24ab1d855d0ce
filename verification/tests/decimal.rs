use treasure_odds::decimal::{fixed_to_string, u64_to_string};

#[test]
fn whole_numbers() {
    assert_eq!(u64_to_string(0), "0");
    assert_eq!(u64_to_string(7), "7");
    assert_eq!(u64_to_string(10), "10");
    assert_eq!(u64_to_string(120), "120");
    assert_eq!(u64_to_string(12_931_480_266), "12931480266");
}

#[test]
fn fixed_point_integers_have_no_point() {
    assert_eq!(fixed_to_string(0), "0");
    assert_eq!(fixed_to_string(1_000_000_000), "1");
    assert_eq!(fixed_to_string(17_000_000_000), "17");
}

#[test]
fn fixed_point_fractions() {
    assert_eq!(fixed_to_string(10_000), "0.00001");
    assert_eq!(fixed_to_string(1_500_000_000), "1.5");
    assert_eq!(fixed_to_string(12_931_480_266), "12.931480266");
    assert_eq!(fixed_to_string(58_823_529), "0.058823529");
    assert_eq!(fixed_to_string(999_999_999), "0.999999999");
    assert_eq!(fixed_to_string(1_000_000_001), "1.000000001");
}
