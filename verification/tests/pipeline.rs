use polyfill_library::cache::{cache_lookup, store_action, CacheLookup, EmptyKeys, StoreAction};
use polyfill_library::fingerprint::fingerprint;
use polyfill_library::get_polyfill_string::get_polyfill_string;
use polyfill_library::params::{parameters_from_pairs, QueryPair};
use polyfill_library::parse::rewrite_v2_pairs;
use polyfill_library::resolver::{
    resolve_features, BrowserRange, Catalogue, FeatureMeta, ResolveError,
};
use polyfill_library::ua::detect_ua;

fn b(s: &str) -> Vec<u8> {
    s.as_bytes().to_vec()
}

fn qp(k: &str, v: &str) -> QueryPair {
    QueryPair { key: b(k), value: b(v) }
}

fn meta(name: &str) -> FeatureMeta {
    FeatureMeta {
        name: b(name),
        aliases: Vec::new(),
        dependencies: Vec::new(),
        browsers: Vec::new(),
        detect_source: None,
        install_raw: b(&format!("install:{};", name)),
        install_min: None,
        license: b("MIT"),
        repo: b("repo"),
        spec_url: b("spec-url"),
    }
}

fn params_for(path: &str, pairs: Vec<QueryPair>, ua: Option<&str>) -> polyfill_library::params::PolyfillParameters {
    let ua_header = ua.map(b);
    parameters_from_pairs(&b(path), &pairs, &ua_header)
}

#[test]
fn modern_chrome_gets_empty_bundle_with_header() {
    // a catalogue with `default` aliasing one feature chrome stopped needing
    let mut includes = meta("Array.prototype.includes");
    includes.browsers = vec![BrowserRange { family: b("chrome"), range: b("<47") }];
    let mut default_alias = meta("default");
    default_alias.aliases = vec![b("Array.prototype.includes")];
    let cat = Catalogue { features: vec![default_alias, includes] };

    let p = params_for("/v3/polyfill.js", vec![qp("features", "default"), qp("ua", "chrome/120.0.0")], None);
    assert!(!p.minify);
    let ua = detect_ua(&p.ua_string);
    let res = resolve_features(&cat, &p, ua).ok().unwrap();
    assert_eq!(res.entries.len(), 0);
    let (body, empty) = get_polyfill_string(&p, &b("3.111.0"), &res.entries);
    assert!(empty);
    let text = String::from_utf8(body).unwrap();
    assert!(text.contains("default"));
    assert!(text.contains("3.111.0"));
    assert!(!text.contains("(function(self, undefined) {"));
}

#[test]
fn old_ie_gets_minified_promise_without_header() {
    let mut promise = meta("Promise");
    promise.browsers = vec![BrowserRange { family: b("ie"), range: b("<11") }];
    promise.install_min = Some(b("min:promise;"));
    let cat = Catalogue { features: vec![promise] };

    let p = params_for("/v3/polyfill.min.js", vec![qp("features", "Promise"), qp("ua", "ie/9")], None);
    assert!(p.minify);
    let ua = detect_ua(&p.ua_string);
    let res = resolve_features(&cat, &p, ua).ok().unwrap();
    assert_eq!(res.entries.len(), 1);
    let (body, empty) = get_polyfill_string(&p, &b("3.111.0"), &res.entries);
    assert!(!empty);
    let text = String::from_utf8(body).unwrap();
    assert!(text.starts_with("(function(self, undefined) {"));
    assert!(text.contains("min:promise;"));
    assert!(!text.contains("install:Promise;"));
}

#[test]
fn dependency_is_emitted_before_dependent() {
    let mut promise = meta("Promise");
    promise.browsers = vec![BrowserRange { family: b("ie"), range: b("<11") }];
    let mut fetch = meta("fetch");
    fetch.browsers = vec![BrowserRange { family: b("ie"), range: b("<12") }];
    fetch.dependencies = vec![b("Promise")];
    let cat = Catalogue { features: vec![fetch, promise] };

    let p = params_for("/v3/polyfill.js", vec![qp("features", "fetch"), qp("ua", "ie/9")], None);
    let ua = detect_ua(&p.ua_string);
    let res = resolve_features(&cat, &p, ua).ok().unwrap();
    let names: Vec<String> = res
        .entries
        .iter()
        .map(|e| String::from_utf8(e.name.clone()).unwrap())
        .collect();
    assert_eq!(names, vec!["promise".to_string(), "fetch".to_string()]);
    let (body, _) = get_polyfill_string(&p, &b("3.111.0"), &res.entries);
    let text = String::from_utf8(body).unwrap();
    let pi = text.find("install:Promise;").unwrap();
    let fi = text.find("install:fetch;").unwrap();
    assert!(pi < fi);
}

#[test]
fn dependency_cycle_is_reported() {
    let mut fa = meta("a");
    fa.browsers = vec![BrowserRange { family: b("chrome"), range: b("*") }];
    fa.dependencies = vec![b("b")];
    let mut fb = meta("b");
    fb.browsers = vec![BrowserRange { family: b("chrome"), range: b("*") }];
    fb.dependencies = vec![b("a")];
    let cat = Catalogue { features: vec![fa, fb] };

    let p = params_for("/v3/polyfill.js", vec![qp("features", "a,b"), qp("ua", "chrome/120")], None);
    let ua = detect_ua(&p.ua_string);
    match resolve_features(&cat, &p, ua) {
        Err(ResolveError::CycleDetected(nodes)) => {
            assert!(!nodes.is_empty());
        },
        _ => panic!("expected a cycle"),
    }
}

#[test]
fn v2_requests_are_rewritten_and_served() {
    // the /v2 rewrite at the pair level
    let pairs = vec![qp("features", "Promise")];
    let rewritten = rewrite_v2_pairs(pairs);
    let as_text: Vec<(String, String)> = rewritten
        .iter()
        .map(|p| {
            (
                String::from_utf8(p.key.clone()).unwrap(),
                String::from_utf8(p.value.clone()).unwrap(),
            )
        })
        .collect();
    assert_eq!(
        as_text,
        vec![
            ("features".to_string(), "Promise".to_string()),
            ("version".to_string(), "3.25.1".to_string()),
            ("unknown".to_string(), "ignore".to_string()),
        ]
    );

    // an old firefox identified from the real header gets the bundle
    let mut promise = meta("Promise");
    promise.browsers = vec![BrowserRange { family: b("firefox"), range: b("<29") }];
    let cat = Catalogue { features: vec![promise] };
    let ua_header = "Mozilla/5.0 (Windows; U; Windows NT 5.1; en-US; rv:1.9.0.1) Gecko/2008070208 Firefox/3.0.1";
    let p = params_for("/v3/polyfill.js", rewrite_v2_pairs(vec![qp("features", "Promise")]), Some(ua_header));
    assert_eq!(p.version, b("3.25.1"));
    let ua = detect_ua(&p.ua_string);
    let res = resolve_features(&cat, &p, ua).ok().unwrap();
    assert_eq!(res.entries.len(), 1);
    let (body, empty) = get_polyfill_string(&p, &p.version, &res.entries);
    assert!(!empty);
    assert!(String::from_utf8(body).unwrap().contains("install:Promise;"));
}

#[test]
fn unknown_not_overridden_when_client_sets_it() {
    let pairs = vec![qp("unknown", "polyfill")];
    let rewritten = rewrite_v2_pairs(pairs);
    let keys: Vec<String> = rewritten
        .iter()
        .map(|p| String::from_utf8(p.key.clone()).unwrap())
        .collect();
    assert_eq!(keys, vec!["unknown".to_string(), "version".to_string()]);
}

#[test]
fn empty_key_round_trip_avoids_second_generation() {
    let p1 = params_for("/v3/polyfill.js", vec![qp("features", "nothing"), qp("ua", "chrome/120")], None);
    let key1 = fingerprint(&p1);
    assert_eq!(key1.len(), 64);

    let mut keys = EmptyKeys::new();
    assert_eq!(cache_lookup(&keys, &key1), CacheLookup::TryDisk);

    // first request: generated, found empty, stored in memory only
    let cat = Catalogue { features: vec![] };
    let ua = detect_ua(&p1.ua_string);
    let res = resolve_features(&cat, &p1, ua).ok().unwrap();
    let (body1, empty) = get_polyfill_string(&p1, &b("3.111.0"), &res.entries);
    assert!(empty);
    assert_eq!(store_action(empty), StoreAction::MarkEmpty);
    keys.insert(key1.clone());

    // second identical request: the key hits the empty set, no disk read
    let p2 = params_for("/v3/polyfill.js", vec![qp("features", "nothing"), qp("ua", "chrome/120")], None);
    let key2 = fingerprint(&p2);
    assert_eq!(key1, key2);
    assert_eq!(cache_lookup(&keys, &key2), CacheLookup::HitEmpty);

    // and regeneration would give the identical body anyway
    let res2 = resolve_features(&cat, &p2, detect_ua(&p2.ua_string)).ok().unwrap();
    let (body2, _) = get_polyfill_string(&p2, &b("3.111.0"), &res2.entries);
    assert_eq!(body1, body2);
}

#[test]
fn fingerprint_ignores_feature_order() {
    let p1 = params_for("/v3/polyfill.js", vec![qp("features", "a|always,b|gated")], None);
    let p2 = params_for("/v3/polyfill.js", vec![qp("features", "b|gated,a|always")], None);
    assert_eq!(fingerprint(&p1), fingerprint(&p2));

    let e1 = params_for("/v3/polyfill.js", vec![qp("excludes", "x,y")], None);
    let e2 = params_for("/v3/polyfill.js", vec![qp("excludes", "y,x")], None);
    assert_eq!(fingerprint(&e1), fingerprint(&e2));
}

#[test]
fn fingerprint_separates_differing_requests() {
    let base = || vec![qp("features", "promise"), qp("ua", "ie/9")];
    let p = params_for("/v3/polyfill.js", base(), None);
    let variants = vec![
        params_for("/v3/polyfill.min.js", base(), None),
        params_for("/v3/polyfill.js", vec![qp("features", "promise"), qp("ua", "ie/10")], None),
        params_for("/v3/polyfill.js", vec![qp("features", "fetch"), qp("ua", "ie/9")], None),
        params_for("/v3/polyfill.js", vec![qp("features", "promise|always"), qp("ua", "ie/9")], None),
        params_for(
            "/v3/polyfill.js",
            vec![qp("features", "promise"), qp("ua", "ie/9"), qp("excludes", "x")],
            None,
        ),
        params_for(
            "/v3/polyfill.js",
            vec![qp("features", "promise"), qp("ua", "ie/9"), qp("strict", "1")],
            None,
        ),
        params_for(
            "/v3/polyfill.js",
            vec![qp("features", "promise"), qp("ua", "ie/9"), qp("unknown", "ignore")],
            None,
        ),
        params_for(
            "/v3/polyfill.js",
            vec![qp("features", "promise"), qp("ua", "ie/9"), qp("callback", "cb")],
            None,
        ),
        params_for(
            "/v3/polyfill.js",
            vec![qp("features", "promise"), qp("ua", "ie/9"), qp("version", "3.101.0")],
            None,
        ),
    ];
    let key = fingerprint(&p);
    for v in variants {
        assert_ne!(key, fingerprint(&v));
    }
}

#[test]
fn invalid_callback_never_reaches_output() {
    let p = params_for(
        "/v3/polyfill.js",
        vec![qp("features", "x"), qp("callback", "1notan(identifier")],
        None,
    );
    assert!(p.callback.is_none());
    let cat = Catalogue { features: vec![] };
    let res = resolve_features(&cat, &p, detect_ua(&p.ua_string)).ok().unwrap();
    let (body, _) = get_polyfill_string(&p, &b("3.111.0"), &res.entries);
    let text = String::from_utf8(body).unwrap();
    assert!(!text.contains("notan"));

    let good = params_for(
        "/v3/polyfill.js",
        vec![qp("features", "x"), qp("callback", "my.cb_1$")],
        None,
    );
    assert_eq!(good.callback, Some(b("my.cb_1$")));
    let res2 = resolve_features(&cat, &good, detect_ua(&good.ua_string)).ok().unwrap();
    let (body2, _) = get_polyfill_string(&good, &b("3.111.0"), &res2.entries);
    let text2 = String::from_utf8(body2).unwrap();
    assert!(text2.ends_with("\ntypeof my.cb_1$==='function' && my.cb_1$();"));
}

#[test]
fn strict_mode_rejects_unknown_features() {
    let cat = Catalogue { features: vec![meta("promise")] };
    let p = params_for(
        "/v3/polyfill.js",
        vec![qp("features", "nosuch"), qp("strict", "1"), qp("ua", "chrome/120")],
        None,
    );
    match resolve_features(&cat, &p, detect_ua(&p.ua_string)) {
        Err(ResolveError::UnknownFeature(name)) => assert_eq!(name, b("nosuch")),
        _ => panic!("expected an unknown-feature error"),
    }
}

#[test]
fn excluded_dependency_is_not_installed() {
    let mut promise = meta("Promise");
    promise.browsers = vec![BrowserRange { family: b("ie"), range: b("<11") }];
    let mut fetch = meta("fetch");
    fetch.browsers = vec![BrowserRange { family: b("ie"), range: b("<12") }];
    fetch.dependencies = vec![b("Promise")];
    let cat = Catalogue { features: vec![fetch, promise] };
    let p = params_for(
        "/v3/polyfill.js",
        vec![qp("features", "fetch"), qp("excludes", "promise"), qp("ua", "ie/9")],
        None,
    );
    let res = resolve_features(&cat, &p, detect_ua(&p.ua_string)).ok().unwrap();
    let names: Vec<Vec<u8>> = res.entries.iter().map(|e| e.name.clone()).collect();
    assert_eq!(names, vec![b("fetch")]);
}

#[test]
fn gated_feature_wraps_install_in_detect() {
    let mut promise = meta("Promise");
    promise.browsers = vec![BrowserRange { family: b("ie"), range: b("<11") }];
    promise.detect_source = Some(b("'Promise' in self"));
    let cat = Catalogue { features: vec![promise] };
    let p = params_for(
        "/v3/polyfill.js",
        vec![qp("features", "Promise|gated"), qp("ua", "ie/9")],
        None,
    );
    let res = resolve_features(&cat, &p, detect_ua(&p.ua_string)).ok().unwrap();
    let (body, _) = get_polyfill_string(&p, &b("3.111.0"), &res.entries);
    let text = String::from_utf8(body).unwrap();
    assert!(text.contains("if (!('Promise' in self)) {"));
}

#[test]
fn alias_cycle_is_detected() {
    let mut a = meta("a");
    a.aliases = vec![b("b")];
    let mut bb = meta("b");
    bb.aliases = vec![b("a")];
    let cat = Catalogue { features: vec![a, bb] };
    let p = params_for("/v3/polyfill.js", vec![qp("features", "a"), qp("ua", "chrome/120")], None);
    match resolve_features(&cat, &p, detect_ua(&p.ua_string)) {
        Err(ResolveError::AliasCycle(_)) => {},
        _ => panic!("expected an alias cycle"),
    }
}

#[test]
fn unknown_ua_policies() {
    let mut promise = meta("Promise");
    promise.browsers = vec![BrowserRange { family: b("ie"), range: b("<11") }];
    let cat = Catalogue { features: vec![promise] };

    // unknown UA with the polyfill policy: everything with a browser entry
    let p1 = params_for("/v3/polyfill.js", vec![qp("features", "Promise")], Some("weird agent"));
    let r1 = resolve_features(&cat, &p1, detect_ua(&p1.ua_string)).ok().unwrap();
    assert_eq!(r1.entries.len(), 1);

    // unknown UA with the ignore policy: nothing
    let p2 = params_for(
        "/v3/polyfill.js",
        vec![qp("features", "Promise"), qp("unknown", "ignore")],
        Some("weird agent"),
    );
    let r2 = resolve_features(&cat, &p2, detect_ua(&p2.ua_string)).ok().unwrap();
    assert_eq!(r2.entries.len(), 0);
}
