use polyfill_library::parse::{get_polyfill_parameters, rewrite_v2_uri, RequestParts};
use polyfill_library::ua::{detect_ua, Family};

fn b(s: &str) -> Vec<u8> {
    s.as_bytes().to_vec()
}

#[test]
fn query_strings_are_percent_decoded() {
    // %2F must decode to a slash for the synthetic ua form to parse, and
    // %2C to a comma so the feature list splits in two
    let parts = RequestParts {
        path: b("/v3/polyfill.js"),
        query: Some(b("features=a%2Cb&ua=ie%2F9&callback=cb")),
        user_agent: None,
    };
    let p = get_polyfill_parameters(&parts);
    assert_eq!(p.ua_string, b("ie/9"));
    let ua = detect_ua(&p.ua_string);
    assert_eq!(ua.family, Family::Ie);
    assert_eq!(ua.version.major, 9);
    let names: Vec<Vec<u8>> = p.features.iter().map(|f| f.name.clone()).collect();
    assert_eq!(names, vec![b("a"), b("b")]);
    assert_eq!(p.callback, Some(b("cb")));
}

#[test]
fn v2_uri_rewrite_encodes_the_new_query() {
    let r = rewrite_v2_uri(&b("/v2/polyfill.js"), &Some(b("features=Promise")));
    let (path, query) = r.unwrap();
    assert_eq!(path, b("/v3/polyfill.js"));
    assert_eq!(query, b("features=Promise&version=3.25.1&unknown=ignore"));

    let r2 = rewrite_v2_uri(&b("/v2/polyfill.min.js"), &None);
    let (path2, query2) = r2.unwrap();
    assert_eq!(path2, b("/v3/polyfill.min.js"));
    assert_eq!(query2, b("version=3.25.1&unknown=ignore"));

    assert!(rewrite_v2_uri(&b("/v3/polyfill.js"), &None).is_none());
    assert!(rewrite_v2_uri(&b("/"), &None).is_none());
}

#[test]
fn fingerprint_is_lowercase_hex() {
    let parts = RequestParts {
        path: b("/v3/polyfill.js"),
        query: Some(b("features=promise")),
        user_agent: None,
    };
    let p = get_polyfill_parameters(&parts);
    let key = polyfill_library::fingerprint::fingerprint(&p);
    assert_eq!(key.len(), 64);
    assert!(key
        .iter()
        .all(|c| (b'0'..=b'9').contains(c) || (b'a'..=b'f').contains(c)));
}

#[test]
fn later_invalid_callback_does_not_erase_a_valid_one() {
    // an invalid callback pair is ignored, leaving the prior valid value
    let parts = RequestParts {
        path: b("/v3/polyfill.js"),
        query: Some(b("callback=good.cb&callback=1bad(")),
        user_agent: None,
    };
    let p = get_polyfill_parameters(&parts);
    assert_eq!(p.callback, Some(b("good.cb")));

    // and a lone invalid callback still yields none
    let lone = RequestParts {
        path: b("/v3/polyfill.js"),
        query: Some(b("callback=1bad(")),
        user_agent: None,
    };
    assert!(get_polyfill_parameters(&lone).callback.is_none());
}
