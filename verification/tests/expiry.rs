use stagbin::expiry::parse_expire;

#[test]
fn no_expiry_literal() {
    assert_eq!(parse_expire("n"), None);
}

#[test]
fn zero_days_is_a_valid_expiry() {
    assert_eq!(parse_expire("0d"), Some(0));
}

#[test]
fn one_day() {
    assert_eq!(parse_expire("1d"), Some(86400));
}

#[test]
fn seven_days() {
    assert_eq!(parse_expire("7d"), Some(604800));
}

#[test]
fn two_weeks() {
    assert_eq!(parse_expire("2w"), Some(1209600));
}

#[test]
fn three_months() {
    assert_eq!(parse_expire("3m"), Some(7776000));
}

#[test]
fn unknown_suffix_falls_back() {
    assert_eq!(parse_expire("5y"), Some(604800));
    assert_eq!(parse_expire("12?"), Some(604800));
}

#[test]
fn empty_numeric_part_falls_back() {
    assert_eq!(parse_expire("d"), Some(604800));
    assert_eq!(parse_expire("w"), Some(604800));
}

#[test]
fn empty_input_falls_back() {
    assert_eq!(parse_expire(""), Some(604800));
}

#[test]
fn single_unknown_character_falls_back() {
    assert_eq!(parse_expire("x"), Some(604800));
}

#[test]
fn leading_plus_parses_like_u64() {
    assert_eq!(parse_expire("+5d"), Some(432000));
    assert_eq!(parse_expire("+0w"), Some(0));
}

#[test]
fn bare_plus_falls_back() {
    assert_eq!(parse_expire("+d"), Some(604800));
    assert_eq!(parse_expire("++5d"), Some(604800));
}

#[test]
fn non_digit_in_numeric_part_falls_back() {
    assert_eq!(parse_expire("1.5d"), Some(604800));
    assert_eq!(parse_expire("-3d"), Some(604800));
}

#[test]
fn numeric_part_too_large_falls_back() {
    assert_eq!(parse_expire("99999999999999999999d"), Some(604800));
}

#[test]
fn product_too_large_falls_back() {
    assert_eq!(parse_expire("18446744073709551615d"), Some(604800));
}

#[test]
fn largest_representable_expiry() {
    assert_eq!(parse_expire("213503982334601d"), Some(213503982334601u64 * 86400));
}
