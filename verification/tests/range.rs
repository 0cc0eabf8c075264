use dash_mpd::error::ErrorKind;
use dash_mpd::range::parse_range;

#[test]
fn range_of_two_numbers() {
    assert_eq!(parse_range("45-67").unwrap(), (45, 67));
    assert_eq!(parse_range("0-0").unwrap(), (0, 0));
    assert_eq!(
        parse_range("0-18446744073709551615").unwrap(),
        (0, u64::MAX)
    );
    assert_eq!(parse_range("+4-+5").unwrap(), (4, 5));
    assert_eq!(parse_range("007-08").unwrap(), (7, 8));
}

#[test]
fn range_without_two_fields_is_refused() {
    for bad in ["-", "45", "", "45-", "1-2-3", "45-67-", "45-67--", "--", "-45-67", "4--5"] {
        let e = parse_range(bad).unwrap_err();
        assert_eq!(e.kind(), ErrorKind::Parsing);
        assert_eq!(e.message(), format!("invalid range specifier: {}", bad));
    }
}

#[test]
fn range_with_a_bad_bound_is_refused() {
    let e = parse_range("a-b").unwrap_err();
    assert_eq!(e.kind(), ErrorKind::Parsing);
    assert_eq!(e.message(), "invalid start for range specifier");
    let e = parse_range("1-b").unwrap_err();
    assert_eq!(e.message(), "invalid end for range specifier");
    let e = parse_range("-5").unwrap_err();
    assert_eq!(e.message(), "invalid start for range specifier");
    let e = parse_range("1-18446744073709551616").unwrap_err();
    assert_eq!(e.message(), "invalid end for range specifier");
    let e = parse_range("45-67 ").unwrap_err();
    assert_eq!(e.message(), "invalid end for range specifier");
    let e = parse_range("1 -2").unwrap_err();
    assert_eq!(e.message(), "invalid start for range specifier");
}
