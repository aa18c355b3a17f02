use polyfill_library::bytes::{parse_dec, split_byte, to_lower};
use polyfill_library::library_json_body;
use polyfill_library::parse_library_version;
use polyfill_library::semver::{range_matches, Version};
use polyfill_library::toposort::{toposort, Edge};
use polyfill_library::ua::{detect_ua, ua_is_up_to_date, Family};

fn b(s: &str) -> Vec<u8> {
    s.as_bytes().to_vec()
}

fn v(major: u32, minor: u32, patch: u32) -> Version {
    Version { major, minor, patch }
}

#[test]
fn decimal_parsing() {
    assert_eq!(parse_dec(&b("0")), Some(0));
    assert_eq!(parse_dec(&b("120")), Some(120));
    assert_eq!(parse_dec(&b("999999999")), Some(999_999_999));
    assert_eq!(parse_dec(&b("")), None);
    assert_eq!(parse_dec(&b("12a")), None);
    assert_eq!(parse_dec(&b("1234567890")), None);
}

#[test]
fn splitting_and_lowercasing() {
    let parts = split_byte(&b("a,b,,c"), b',');
    assert_eq!(parts, vec![b("a"), b("b"), b(""), b("c")]);
    assert_eq!(split_byte(&b(""), b','), vec![b("")]);
    assert_eq!(to_lower(&b("Array.Of$X")), b("array.of$x"));
}

#[test]
fn semver_ranges() {
    assert!(range_matches(&b("*"), v(1, 2, 3)));
    assert!(range_matches(&b("<11"), v(9, 0, 0)));
    assert!(!range_matches(&b("<11"), v(11, 0, 0)));
    assert!(range_matches(&b("<=11"), v(11, 0, 0)));
    assert!(range_matches(&b(">=10"), v(10, 0, 0)));
    assert!(!range_matches(&b(">10"), v(10, 0, 0)));
    assert!(range_matches(&b("4 - 6"), v(5, 9, 9)));
    assert!(range_matches(&b("4 - 6"), v(6, 9, 9)));
    assert!(!range_matches(&b("4 - 6"), v(7, 0, 0)));
    assert!(range_matches(&b("34"), v(34, 5, 0)));
    assert!(!range_matches(&b("34"), v(35, 0, 0)));
    assert!(range_matches(&b(">=4.1 <9"), v(5, 0, 0)));
    assert!(!range_matches(&b(">=4.1 <9"), v(4, 0, 9)));
    assert!(!range_matches(&b("not a range"), v(1, 0, 0)));
}

#[test]
fn ua_synthetic_and_real() {
    let u = detect_ua(&b("chrome/120.0.1"));
    assert_eq!(u.family, Family::Chrome);
    assert_eq!((u.version.major, u.version.minor, u.version.patch), (120, 0, 1));

    let u2 = detect_ua(&b("ios_saf/15.6"));
    assert_eq!(u2.family, Family::IosSaf);
    assert_eq!(u2.version.major, 15);

    let ff = detect_ua(&b(
        "Mozilla/5.0 (Windows; U; Windows NT 5.1; en-US; rv:1.9.0.1) Gecko/2008070208 Firefox/3.0.1",
    ));
    assert_eq!(ff.family, Family::Firefox);
    assert_eq!(ff.version.major, 3);

    let ios = detect_ua(&b(
        "Mozilla/5.0 (iPhone; CPU iPhone OS 15_6 like Mac OS X) AppleWebKit/605.1.15 (KHTML, like Gecko) Version/15.6 Mobile/15E148 Safari/604.1",
    ));
    assert_eq!(ios.family, Family::IosSaf);
    assert_eq!(ios.version.major, 15);

    let saf = detect_ua(&b(
        "Mozilla/5.0 (Macintosh; Intel Mac OS X 10_15_7) AppleWebKit/605.1.15 (KHTML, like Gecko) Version/16.1 Safari/605.1.15",
    ));
    assert_eq!(saf.family, Family::Safari);

    let cr = detect_ua(&b(
        "Mozilla/5.0 (Windows NT 10.0; Win64; x64) AppleWebKit/537.36 (KHTML, like Gecko) Chrome/120.0.0.0 Safari/537.36",
    ));
    assert_eq!(cr.family, Family::Chrome);
    assert_eq!(cr.version.major, 120);

    let ie = detect_ua(&b("Mozilla/4.0 (compatible; MSIE 9.0; Windows NT 6.1)"));
    assert_eq!(ie.family, Family::Ie);
    assert_eq!(ie.version.major, 9);

    let none = detect_ua(&b("some toaster"));
    assert_eq!(none.family, Family::Unknown);

    assert!(ua_is_up_to_date(cr));
    assert!(!ua_is_up_to_date(ie));
}

#[test]
fn toposort_orders_and_tiebreaks() {
    // nodes handed in sorted; edge c -> a forces c first, then the
    // lexicographic tie-break gives a before b
    let nodes = vec![b("a"), b("b"), b("c")];
    let edges = vec![Edge { from: b("c"), to: b("a") }];
    let order = toposort(&nodes, &edges).ok().unwrap();
    assert_eq!(order, vec![b("b"), b("c"), b("a")]);

    // with no edges, ascending name order
    let order2 = toposort(&vec![b("a"), b("b"), b("c")], &Vec::new()).ok().unwrap();
    assert_eq!(order2, vec![b("a"), b("b"), b("c")]);

    // a two-cycle is returned as the blocked set
    let cyc = toposort(
        &vec![b("x"), b("y")],
        &vec![Edge { from: b("x"), to: b("y") }, Edge { from: b("y"), to: b("x") }],
    );
    assert!(cyc.is_err());
    assert_eq!(cyc.err().unwrap().len(), 2);
}

#[test]
fn library_versions() {
    assert_eq!(parse_library_version(&b("3.101.0")), b("3.101.0"));
    assert_eq!(parse_library_version(&b("9.9.9")), b("3.111.0"));
    let body = library_json_body(&b("3.101.0")).unwrap();
    assert_eq!(body, b("{\"version\":\"3.101.0\"}"));
    assert!(library_json_body(&b("3.25.1")).is_none());
    assert!(library_json_body(&b("nope")).is_none());
}
