use dice_roller::roll_text;
use dice_roller::u64_to_string;

#[test]
fn decimal_rendering() {
    assert_eq!(u64_to_string(0), "0");
    assert_eq!(u64_to_string(7), "7");
    assert_eq!(u64_to_string(10), "10");
    assert_eq!(u64_to_string(1234), "1234");
    assert_eq!(u64_to_string(18446744073709551615), "18446744073709551615");
}

#[test]
fn roll_text_success_is_decimal() {
    assert_eq!(roll_text("16"), "16");
    assert_eq!(roll_text("2+3"), "5");
    assert_eq!(roll_text("2+3 "), "5");
    assert_eq!(roll_text("0d6"), "0");
    assert_eq!(roll_text("3d1+2"), "5");
    let v: u64 = roll_text("4d20+10").parse().unwrap();
    assert!((14..=90).contains(&v));
}

#[test]
fn roll_text_failure_is_empty() {
    assert_eq!(roll_text(""), "");
    assert_eq!(roll_text("6d8 + 2 2 + 5d6"), "");
    assert_eq!(roll_text("1d0"), "");
}
