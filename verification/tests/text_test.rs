use base_framework::text::{i64_to_decimal, u64_to_decimal};

#[test]
fn decimal_notation() {
    assert_eq!(u64_to_decimal(0), "0");
    assert_eq!(u64_to_decimal(7), "7");
    assert_eq!(u64_to_decimal(10), "10");
    assert_eq!(u64_to_decimal(60000), "60000");
    assert_eq!(u64_to_decimal(u64::MAX), u64::MAX.to_string());
    assert_eq!(i64_to_decimal(-1), "-1");
    assert_eq!(i64_to_decimal(i64::MIN), i64::MIN.to_string());
    assert_eq!(i64_to_decimal(i64::MAX), i64::MAX.to_string());
}
