use tux::decimal::{
    is_multiple_of, round_to_step, try_is_multiple_of, try_round_to_step, Decimal,
};

fn d(s: &str) -> Decimal {
    Decimal::parse(s).unwrap()
}

#[test]
fn rounds_to_tick() {
    let tick = d("0.01");
    assert_eq!(round_to_step(d("1.239"), tick), Some(d("1.23")));
    assert_eq!(round_to_step(d("-1.239"), tick), Some(d("-1.23")));
    assert!(is_multiple_of(d("1.23"), tick));
    assert!(!is_multiple_of(d("1.235"), tick));
}

#[test]
fn a_step_that_is_not_positive_rounds_nothing() {
    assert_eq!(round_to_step(d("1.2"), d("0")), None);
    assert_eq!(round_to_step(d("1.2"), d("-0.1")), None);
    assert!(!is_multiple_of(d("1.2"), d("0")));
}

#[test]
fn a_quotient_that_is_rounded_up_does_not_round_away_from_zero() {
    let value = d("79228162514264337593543950334");
    let step = d("3");
    let r = round_to_step(value, step).unwrap();
    assert_eq!(r, d("79228162514264337593543950332"));
    assert!(!is_multiple_of(value, step));
    assert_eq!(
        round_to_step(value.negated(), step).unwrap(),
        d("-79228162514264337593543950332")
    );
}

#[test]
fn rounding_out_of_range_is_said_so() {
    assert_eq!(try_round_to_step(d("79228162514264337593543950335"), d("0.1")), None);
    assert_eq!(try_is_multiple_of(d("79228162514264337593543950335"), d("0.1")), None);
    assert_eq!(try_round_to_step(d("7"), d("2")), Some(Some(d("6"))));
}

#[test]
fn sums_are_exact_at_the_larger_scale() {
    let s = d("1.5").checked_add(d("0.25")).unwrap();
    assert_eq!(s.to_text(), "1.75");
    assert_eq!(d("1.50").checked_add(d("0")).unwrap().to_text(), "1.50");
    assert_eq!(d("0").checked_add(d("2.0")).unwrap().to_text(), "2.0");
    assert_eq!(d("-1").checked_add(d("1")).unwrap().to_text(), "0");
    assert_eq!(d("1.00").checked_add(d("-1")).unwrap().to_text(), "0.00");
}

#[test]
fn differences_are_exact_at_the_larger_scale() {
    assert_eq!(d("1.5").checked_sub(d("0.25")).unwrap().to_text(), "1.25");
    assert_eq!(d("0").checked_sub(d("2.0")).unwrap().to_text(), "-2.0");
    assert_eq!(d("3.10").checked_sub(d("0.00")).unwrap().to_text(), "3.10");
    assert_eq!(d("0").checked_sub(d("0.00")).unwrap().to_text(), "0.00");
    assert_eq!(d("5").checked_sub(d("5")).unwrap().to_text(), "0");
}

#[test]
fn products_are_exact_where_they_fit() {
    assert_eq!(d("1.5").checked_mul(d("-0.25")).unwrap().to_text(), "-0.375");
    assert_eq!(d("0.00").checked_mul(d("7")).unwrap().to_text(), "0");
    assert!(d("79228162514264337593543950335").checked_mul(d("2")).is_none());
}

#[test]
fn quotients_are_exact_where_the_mantissas_divide() {
    assert_eq!(d("1.20").checked_div(d("-0.4")).unwrap().to_text(), "-3.0");
    assert_eq!(d("0.0").checked_div(d("7")).unwrap().to_text(), "0");
    assert!(d("1").checked_div(d("0")).is_none());
    assert_eq!(d("1").checked_div(d("4")).unwrap(), d("0.25"));
    assert_eq!(d("100").checked_div(d("0.01")).unwrap(), d("10000"));
}

#[test]
fn quotients_that_are_decimal_numbers_are_exact() {
    assert_eq!(d("199").checked_div(d("2")), Some(d("99.5")));
    assert_eq!(d("1").checked_div(d("8")), Some(d("0.125")));
    assert_eq!(d("-3").checked_div(d("0.16")), Some(d("-18.75")));
    assert_eq!(d("1").checked_div(d("1024")), Some(d("0.0009765625")));
    assert_eq!(d("1").checked_div(d("16777216")), Some(d("0.000000059604644775390625")));
    assert_eq!(
        d("79228162514264337593543950335").checked_div(d("5")),
        Some(d("15845632502852867518708790067"))
    );
    assert_eq!(
        d("39614081257132168796771975167").checked_div(d("0.5")),
        Some(d("79228162514264337593543950334"))
    );
    // by a divisor of more than 32 and of more than 64 bits
    assert_eq!(d("8589934592").checked_div(d("68719476736")), Some(d("0.125")));
    assert_eq!(
        d("36893488147419103232").checked_div(d("147573952589676412928")),
        Some(d("0.25"))
    );
}

#[test]
fn whole_quotients_have_no_decimal_places() {
    assert_eq!(d("100").checked_div(d("0.01")).unwrap().to_text(), "10000");
    assert_eq!(d("-1.5").checked_div(d("0.005")).unwrap().to_text(), "-300");
    assert_eq!(d("7922816251426433759354395034").checked_div(d("0.1")), None);
    assert_eq!(
        d("7922816251426433759354395033").checked_div(d("0.1")).unwrap().to_text(),
        "79228162514264337593543950330"
    );
}

#[test]
fn sums_out_of_range_are_refused() {
    let max = d("79228162514264337593543950335");
    assert!(max.checked_add(d("1")).is_none());
    assert!(max.negated().checked_sub(d("1")).is_none());
}

#[test]
fn comparison_goes_by_value() {
    assert!(d("1.0") == d("1.00"));
    assert!(d("-0.5") < d("-0.49"));
    assert!(d("0.1") > d("-5"));
    assert!(d("0").negated() == d("0"));
    assert!(d("79228162514264337593543950335") > d("7.9228162514264337593543950335"));
}

#[test]
fn whole_part_goes_towards_zero() {
    assert_eq!(d("2.9").trunc().to_text(), "2");
    assert_eq!(d("-2.9").trunc().to_text(), "-2");
    assert_eq!(d("-0.9").trunc().to_text(), "-0");
}

#[test]
fn text_keeps_all_places_and_reads_back() {
    for s in ["0", "0.00", "1.50", "-0.001", "79228162514264337593543950335", "-12.0",
        "7.9228162514264337593543950335"] {
        assert_eq!(d(s).to_text(), s);
    }
    assert_eq!(d("0").negated().to_text(), "-0");
    assert_eq!(d("-0").to_text(), "0");
    assert!(Decimal::parse("").is_none());
    assert!(Decimal::parse("abc").is_none());
    assert_eq!(Decimal::parse("+1_000.5").unwrap(), d("1000.5"));
}

#[test]
fn smaller_larger_and_magnitude() {
    assert_eq!(d("1.0").min(d("1.00")).to_text(), "1.0");
    assert_eq!(d("1.0").max(d("1.00")).to_text(), "1.0");
    assert_eq!(d("2").min(d("1")), d("1"));
    assert_eq!(d("2").max(d("3")), d("3"));
    assert_eq!(d("-2.50").abs().to_text(), "2.50");
    assert!(d("0.000").is_zero());
    assert_eq!(Decimal::new(-25, 2).to_text(), "-0.25");
    assert_eq!(Decimal::default(), Decimal::zero());
    assert_eq!(Decimal::one().checked_add(Decimal::one()).unwrap(), Decimal::two());
}

#[test]
fn steps_need_not_be_powers_of_ten() {
    assert_eq!(round_to_step(d("1.24"), d("0.05")), Some(d("1.20")));
    assert_eq!(round_to_step(d("-1.24"), d("0.05")), Some(d("-1.20")));
    assert_eq!(round_to_step(d("10"), d("3")), Some(d("9")));
    assert_eq!(round_to_step(d("2"), d("3")), Some(d("0")));
    assert_eq!(round_to_step(d("0.1"), d("0.03")), Some(d("0.09")));
    assert!(is_multiple_of(d("1.25"), d("0.05")));
    assert!(!is_multiple_of(d("1.26"), d("0.05")));
    assert!(is_multiple_of(d("-9"), d("3")));
    assert_eq!(round_to_step(d("5"), d("0.7")), Some(d("4.9")));
}

#[test]
fn quotients_are_rounded_at_their_last_place() {
    let third = d("1").checked_div(d("3")).unwrap();
    assert_eq!(third.to_text(), "0.3333333333333333333333333333");
    let two_thirds = d("2").checked_div(d("3")).unwrap();
    assert_eq!(two_thirds.to_text(), "0.6666666666666666666666666667");
    assert_eq!(d("-2").checked_div(d("3")).unwrap(), two_thirds.negated());
}

#[test]
fn a_negative_zero_reads_back_without_its_sign() {
    assert_eq!(d("-0.00").to_text(), "0.00");
    assert_eq!(d("0.00").negated().to_text(), "-0.00");
}
