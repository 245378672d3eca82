use ledger_engine::amount::Amount;
use primitive_fixed_point_decimal::ParseError;

#[test]
fn parse_reads_exact_ten_thousandths() {
    assert_eq!(Amount::parse("100.50").unwrap().mantissa(), 1_005_000);
    assert_eq!(Amount::parse("0.1234").unwrap().mantissa(), 1_234);
    assert_eq!(Amount::parse("7").unwrap().mantissa(), 70_000);
    assert_eq!(Amount::parse("0").unwrap(), Amount::zero());
}

#[test]
fn parse_refuses_a_fifth_fractional_digit() {
    assert_eq!(Amount::parse("1.23456"), Err(ParseError::Precision));
}

#[test]
fn parse_refuses_what_is_no_decimal() {
    assert_eq!(Amount::parse(""), Err(ParseError::Empty));
    assert_eq!(Amount::parse("12a.5"), Err(ParseError::Invalid));
    assert_eq!(Amount::parse("99999999999999999999"), Err(ParseError::Overflow));
}

#[test]
fn from_str_agrees_with_parse() {
    let parsed: Amount = "50.25".parse().unwrap();
    assert_eq!(parsed, Amount::from_mantissa(502_500));
}

#[test]
fn shortest_text_drops_trailing_zeros() {
    assert_eq!(Amount::from_mantissa(1_005_000).to_string(), "100.5");
    assert_eq!(Amount::from_mantissa(1_760_000).to_string(), "176");
    assert_eq!(Amount::from_mantissa(-250_000).to_string(), "-25");
    assert_eq!(Amount::from_mantissa(1).to_string(), "0.0001");
}

#[test]
fn fixed_text_has_four_fractional_digits() {
    assert_eq!(Amount::from_mantissa(1_005_000).to_fixed_string(), "100.5000");
    assert_eq!(Amount::from_mantissa(0).to_fixed_string(), "0.0000");
    assert_eq!(Amount::from_mantissa(-500_000).to_fixed_string(), "-50.0000");
    assert_eq!(Amount::from_mantissa(1_252_501).to_fixed_string(), "125.2501");
}

#[test]
fn sums_and_differences_are_exact() {
    let a = Amount::from_mantissa(1);
    let b = Amount::from_mantissa(2);
    assert_eq!(a.plus(b).mantissa(), 3);
    assert_eq!(a.minus(b).mantissa(), -1);
    assert_eq!(a.checked_add(b), Some(Amount::from_mantissa(3)));
    assert_eq!(a.checked_sub(b), Some(Amount::from_mantissa(-1)));
}

#[test]
fn checked_operations_stop_at_the_range() {
    let most = Amount::from_mantissa(i64::MAX);
    let least = Amount::from_mantissa(i64::MIN);
    let one = Amount::from_mantissa(1);
    assert_eq!(most.checked_add(one), None);
    assert_eq!(least.checked_sub(one), None);
    assert_eq!(most.checked_sub(one), Some(Amount::from_mantissa(i64::MAX - 1)));
    assert_eq!(least.checked_add(one), Some(Amount::from_mantissa(i64::MIN + 1)));
}
