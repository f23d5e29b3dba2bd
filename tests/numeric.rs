use toobarr::numeric::{parse_eta, parse_size, parse_speed};

#[test]
fn test_parse_size() {
    assert_eq!(parse_size("100MiB"), Some(104857600));
    assert_eq!(parse_size("1GiB"), Some(1073741824));
    assert_eq!(parse_size("500KiB"), Some(512000));
    assert_eq!(parse_size("1000B"), Some(1000));
    assert_eq!(parse_size("N/A"), None);
}

#[test]
fn test_parse_speed() {
    assert_eq!(parse_speed("1MiB/s"), Some(1048576));
    assert_eq!(parse_speed("500KiB/s"), Some(512000));
}

#[test]
fn test_parse_eta() {
    assert_eq!(parse_eta("1:30"), Some(90));
    assert_eq!(parse_eta("1:00:00"), Some(3600));
    assert_eq!(parse_eta("N/A"), None);
}

#[test]
fn size_sentinels_give_none() {
    assert_eq!(parse_size("~"), None);
    assert_eq!(parse_size(""), None);
    assert_eq!(parse_size("   "), None);
}

#[test]
fn size_decimal_units_and_fractions() {
    assert_eq!(parse_size("1.5MiB"), Some(1572864));
    assert_eq!(parse_size("2GB"), Some(2000000000));
    assert_eq!(parse_size("3MB"), Some(3000000));
    assert_eq!(parse_size("4KB"), Some(4000));
    assert_eq!(parse_size(" 7B "), Some(7));
    assert_eq!(parse_size("887.84MiB"), Some(930967715));
    assert_eq!(parse_size(".5KiB"), Some(512));
    assert_eq!(parse_size("10.KiB"), Some(10240));
}

#[test]
fn size_rejects_malformed_numbers() {
    assert_eq!(parse_size("MiB"), None);
    assert_eq!(parse_size("1.2.3MiB"), None);
    assert_eq!(parse_size("-1MiB"), None);
    assert_eq!(parse_size("12"), None);
    assert_eq!(parse_size("5iB"), None);
    assert_eq!(parse_size("12345678901234567890B"), None);
}

#[test]
fn size_saturates_at_the_largest_value() {
    assert_eq!(parse_size("9999999999999999999GiB"), Some(u64::MAX));
}

#[test]
fn speed_without_per_second_suffix() {
    assert_eq!(parse_speed("2KB"), Some(2000));
    assert_eq!(parse_speed("7.61MiB/s"), Some(7979663));
    assert_eq!(parse_speed("Unknown B/s"), None);
}

#[test]
fn eta_forms_and_sentinels() {
    assert_eq!(parse_eta("45"), Some(45));
    assert_eq!(parse_eta("01:39"), Some(99));
    assert_eq!(parse_eta("2:03:04"), Some(7384));
    assert_eq!(parse_eta("Unknown"), None);
    assert_eq!(parse_eta(""), None);
    assert_eq!(parse_eta("1:2:3:4"), None);
    assert_eq!(parse_eta("1:xx"), None);
    assert_eq!(parse_eta("1.5:30"), Some(120));
}

#[test]
fn whole_units_are_multiples_of_the_unit() {
    assert_eq!(parse_size("3GiB"), Some(3 * 1073741824));
    assert_eq!(parse_size("3MiB"), Some(3 * 1048576));
    assert_eq!(parse_size("3KiB"), Some(3 * 1024));
    assert_eq!(parse_size("3GB"), Some(3_000_000_000));
    assert_eq!(parse_size("3MB"), Some(3_000_000));
    assert_eq!(parse_size("3KB"), Some(3_000));
    assert_eq!(parse_size("3B"), Some(3));
}

#[test]
fn whole_eta_fields_are_weighted() {
    assert_eq!(parse_eta("90"), Some(90));
    assert_eq!(parse_eta("0:01:30"), Some(90));
    assert_eq!(parse_eta("10:00"), Some(600));
}
