use jalgo::num::{int_to_string, parse_int};

#[test]
fn parse_int_reads_signed_decimals() {
    assert_eq!(parse_int(&"0".to_string()), Some(0));
    assert_eq!(parse_int(&"123".to_string()), Some(123));
    assert_eq!(parse_int(&"-45".to_string()), Some(-45));
    assert_eq!(parse_int(&"+7".to_string()), Some(7));
    assert_eq!(parse_int(&"007".to_string()), Some(7));
    assert_eq!(parse_int(&"-0".to_string()), Some(0));
}

#[test]
fn parse_int_covers_the_word_bounds() {
    assert_eq!(parse_int(&"9223372036854775807".to_string()), Some(i64::MAX));
    assert_eq!(parse_int(&"-9223372036854775808".to_string()), Some(i64::MIN));
    assert_eq!(parse_int(&"9223372036854775808".to_string()), None);
    assert_eq!(parse_int(&"-9223372036854775809".to_string()), None);
    assert_eq!(parse_int(&"99999999999999999999999".to_string()), None);
}

#[test]
fn parse_int_rejects_what_is_not_a_literal() {
    assert_eq!(parse_int(&"".to_string()), None);
    assert_eq!(parse_int(&"-".to_string()), None);
    assert_eq!(parse_int(&"+".to_string()), None);
    assert_eq!(parse_int(&"12a".to_string()), None);
    assert_eq!(parse_int(&"1.5".to_string()), None);
    assert_eq!(parse_int(&" 1".to_string()), None);
    assert_eq!(parse_int(&"--1".to_string()), None);
}

#[test]
fn int_to_string_writes_plain_decimal() {
    assert_eq!(int_to_string(0), "0");
    assert_eq!(int_to_string(45), "45");
    assert_eq!(int_to_string(-5), "-5");
    assert_eq!(int_to_string(i64::MAX), "9223372036854775807");
    assert_eq!(int_to_string(i64::MIN), "-9223372036854775808");
}

#[test]
fn parse_undoes_printing() {
    for v in [0i64, 1, -1, 42, -360, i64::MAX, i64::MIN] {
        assert_eq!(parse_int(&int_to_string(v)), Some(v));
    }
}
