use gh_create_release::generate_tag;
use gh_create_release::parse_uint;

#[test]
fn test_generating_new_tag() {
    assert_eq!(generate_tag("").unwrap(), "".to_owned());

    assert_eq!(generate_tag("1").unwrap(), "2".to_owned());
    assert_eq!(generate_tag("2").unwrap(), "3".to_owned());
    assert_eq!(generate_tag("10").unwrap(), "11".to_owned());
    assert_eq!(generate_tag("99").unwrap(), "100".to_owned());

    assert_eq!(generate_tag("v0").unwrap(), "v1".to_owned());
    assert_eq!(generate_tag("v1002").unwrap(), "v1003".to_owned());

    assert_eq!(generate_tag("0.0.0").unwrap(), "0.0.1".to_owned());
    assert_eq!(generate_tag("0.0.1").unwrap(), "0.0.2".to_owned());

    assert_eq!(generate_tag("v1.0.567").unwrap(), "v1.0.568".to_owned());
}

#[test]
fn main_test_generating_new_tag() {
    assert_eq!(generate_tag("").unwrap(), "".to_owned());

    assert_eq!(generate_tag("1").unwrap(), "2".to_owned());
    assert_eq!(generate_tag("2").unwrap(), "3".to_owned());
    assert_eq!(generate_tag("10").unwrap(), "11".to_owned());
    assert_eq!(generate_tag("99").unwrap(), "100".to_owned());

    assert_eq!(generate_tag("v0").unwrap(), "v1".to_owned());
    assert_eq!(generate_tag("v1002").unwrap(), "v1003".to_owned());

    assert_eq!(generate_tag("0.0.0").unwrap(), "0.0.1".to_owned());
    assert_eq!(generate_tag("0.0.1").unwrap(), "0.0.2".to_owned());

    assert_eq!(generate_tag("v1.0.567").unwrap(), "v1.0.568".to_owned());
}

#[test]
fn unrecognized_shapes_yield_empty() {
    assert_eq!(generate_tag("not-a-version").unwrap(), "");
    assert_eq!(generate_tag("v").unwrap(), "");
    assert_eq!(generate_tag("1.2").unwrap(), "");
    assert_eq!(generate_tag("1.2.3.4").unwrap(), "");
    assert_eq!(generate_tag("v1.2.x").unwrap(), "");
    assert_eq!(generate_tag("1..2").unwrap(), "");
    assert_eq!(generate_tag(".1.2").unwrap(), "");
    assert_eq!(generate_tag("w3").unwrap(), "");
    assert_eq!(generate_tag("-1").unwrap(), "");
}

#[test]
fn fields_are_normalized_through_their_value() {
    assert_eq!(generate_tag("007").unwrap(), "8");
    assert_eq!(generate_tag("v01.002.0003").unwrap(), "v1.2.4");
}

#[test]
fn increment_saturates_at_u32_max() {
    assert_eq!(generate_tag("4294967295").unwrap(), "4294967295");
    assert_eq!(generate_tag("v0.0.4294967295").unwrap(), "v0.0.4294967295");
}

#[test]
fn oversized_fields_count_as_zero() {
    // A field beyond the unsigned 32-bit range parses as zero.
    assert_eq!(generate_tag("99999999999999999999").unwrap(), "1");
    assert_eq!(generate_tag("v4294967296.1.1").unwrap(), "v0.1.2");
}

#[test]
fn parse_uint_reads_decimal() {
    assert_eq!(parse_uint("0"), 0);
    assert_eq!(parse_uint("123"), 123);
    assert_eq!(parse_uint("+7"), 7);
    assert_eq!(parse_uint("4294967295"), 4294967295);
}

#[test]
fn parse_uint_yields_zero_for_unparsable_input() {
    assert_eq!(parse_uint(""), 0);
    assert_eq!(parse_uint("+"), 0);
    assert_eq!(parse_uint("abc"), 0);
    assert_eq!(parse_uint("12a"), 0);
    assert_eq!(parse_uint(" 12"), 0);
    assert_eq!(parse_uint("-1"), 0);
    assert_eq!(parse_uint("4294967296"), 0);
}
