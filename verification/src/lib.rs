//! A verified core for a polyfill-bundle service.
//!
//! The library selects, orders and assembles JavaScript polyfills for a
//! requesting browser: it parses request parameters, identifies the browser
//! family and version from a user-agent string, expands aliases and
//! dependency closures over a catalogue of features, orders the result
//! topologically with deterministic tie-breaks, assembles the bundle body,
//! and fingerprints requests for a two-tier cache.

pub mod bytes;
pub mod cache;
pub mod fingerprint;
pub mod get_polyfill_string;
pub mod lit;
pub mod params;
pub mod parse;
pub mod resolver;
pub mod semver;
pub mod ua;
pub mod toposort;

use vstd::prelude::*;

use crate::bytes::eq_bytes;

verus! {

/// Process-wide environment threaded into each request: where the catalogue
/// lives, where the disk cache lives (if anywhere), and the in-memory set of
/// cache keys known to produce empty bundles.
pub struct Env {
    pub polyfill_base: Vec<u8>,
    pub cache_dir: Option<Vec<u8>>,
    pub empty_cache_keys: crate::cache::EmptyKeys,
}

/// The catalogue versions this service can serve.
pub open spec fn spec_supported_version(v: Seq<u8>) -> bool {
    v =~= crate::lit::ver_3_101_0_b() || v =~= crate::lit::ver_3_103_0_b() || v =~= crate::lit::ver_3_104_0_b() || v =~= crate::lit::ver_3_108_0_b() || v =~= crate::lit::ver_3_109_0_b() || v =~= crate::lit::ver_3_110_1_b() || v =~= crate::lit::ver_3_111_0_b() || v =~= crate::lit::ver_3_25_1_b() || v =~= crate::lit::ver_3_27_4_b() || v =~= crate::lit::ver_3_34_0_b() || v =~= crate::lit::ver_3_39_0_b() || v =~= crate::lit::ver_3_40_0_b() || v =~= crate::lit::ver_3_41_0_b() || v =~= crate::lit::ver_3_42_0_b() || v =~= crate::lit::ver_3_46_0_b() || v =~= crate::lit::ver_3_48_0_b() || v =~= crate::lit::ver_3_50_2_b() || v =~= crate::lit::ver_3_51_0_b() || v =~= crate::lit::ver_3_52_0_b() || v =~= crate::lit::ver_3_52_1_b() || v =~= crate::lit::ver_3_52_2_b() || v =~= crate::lit::ver_3_52_3_b() || v =~= crate::lit::ver_3_53_1_b() || v =~= crate::lit::ver_3_89_4_b() || v =~= crate::lit::ver_3_96_0_b() || v =~= crate::lit::ver_3_98_0_b() || v =~= crate::lit::ver_4_8_0_b()
}

/// Whether a version is in the allow-list.
pub fn is_supported_version(version: &Vec<u8>) -> (r: bool)
    ensures
        r == spec_supported_version(version@),
{
    eq_bytes(version, &crate::lit::ver_3_101_0_v()) || eq_bytes(version, &crate::lit::ver_3_103_0_v()) || eq_bytes(version, &crate::lit::ver_3_104_0_v()) || eq_bytes(version, &crate::lit::ver_3_108_0_v()) || eq_bytes(version, &crate::lit::ver_3_109_0_v()) || eq_bytes(version, &crate::lit::ver_3_110_1_v()) || eq_bytes(version, &crate::lit::ver_3_111_0_v()) || eq_bytes(version, &crate::lit::ver_3_25_1_v()) || eq_bytes(version, &crate::lit::ver_3_27_4_v()) || eq_bytes(version, &crate::lit::ver_3_34_0_v()) || eq_bytes(version, &crate::lit::ver_3_39_0_v()) || eq_bytes(version, &crate::lit::ver_3_40_0_v()) || eq_bytes(version, &crate::lit::ver_3_41_0_v()) || eq_bytes(version, &crate::lit::ver_3_42_0_v()) || eq_bytes(version, &crate::lit::ver_3_46_0_v()) || eq_bytes(version, &crate::lit::ver_3_48_0_v()) || eq_bytes(version, &crate::lit::ver_3_50_2_v()) || eq_bytes(version, &crate::lit::ver_3_51_0_v()) || eq_bytes(version, &crate::lit::ver_3_52_0_v()) || eq_bytes(version, &crate::lit::ver_3_52_1_v()) || eq_bytes(version, &crate::lit::ver_3_52_2_v()) || eq_bytes(version, &crate::lit::ver_3_52_3_v()) || eq_bytes(version, &crate::lit::ver_3_53_1_v()) || eq_bytes(version, &crate::lit::ver_3_89_4_v()) || eq_bytes(version, &crate::lit::ver_3_96_0_v()) || eq_bytes(version, &crate::lit::ver_3_98_0_v()) || eq_bytes(version, &crate::lit::ver_4_8_0_v())
}

/// Maps a requested catalogue version to the one served: versions off the
/// allow-list are replaced with the fallback, and the request succeeds.
pub fn parse_library_version(version: &Vec<u8>) -> (r: Vec<u8>)
    ensures
        spec_supported_version(version@) ==> r@ == version@,
        !spec_supported_version(version@) ==> r@ =~= crate::lit::ver_3_111_0_b(),
{
    if is_supported_version(version) {
        version.clone()
    } else {
        crate::lit::ver_3_111_0_v()
    }
}

/// The versions with a published library manifest.
pub open spec fn spec_library_json_version(v: Seq<u8>) -> bool {
    v =~= crate::lit::ver_3_101_0_b() || v =~= crate::lit::ver_3_103_0_b() || v =~= crate::lit::ver_3_104_0_b() || v =~= crate::lit::ver_3_108_0_b() || v =~= crate::lit::ver_3_109_0_b() || v =~= crate::lit::ver_3_110_1_b() || v =~= crate::lit::ver_3_111_0_b() || v =~= crate::lit::ver_3_27_4_b() || v =~= crate::lit::ver_3_34_0_b() || v =~= crate::lit::ver_3_39_0_b() || v =~= crate::lit::ver_3_40_0_b() || v =~= crate::lit::ver_3_41_0_b() || v =~= crate::lit::ver_3_42_0_b() || v =~= crate::lit::ver_3_46_0_b() || v =~= crate::lit::ver_3_48_0_b() || v =~= crate::lit::ver_3_50_2_b() || v =~= crate::lit::ver_3_51_0_b() || v =~= crate::lit::ver_3_52_0_b() || v =~= crate::lit::ver_3_52_1_b() || v =~= crate::lit::ver_3_52_2_b() || v =~= crate::lit::ver_3_52_3_b() || v =~= crate::lit::ver_3_53_1_b() || v =~= crate::lit::ver_3_89_4_b() || v =~= crate::lit::ver_3_96_0_b() || v =~= crate::lit::ver_3_98_0_b() || v =~= crate::lit::ver_4_8_0_b()
}

/// The library manifest body for a recognized catalogue version, `None`
/// otherwise.
pub fn library_json_body(version: &Vec<u8>) -> (r: Option<Vec<u8>>)
    ensures
        r is Some <==> spec_library_json_version(version@),
        r is Some ==> r->0@ == crate::lit::json_pre_b() + version@ + crate::lit::json_suf_b(),
{
    let known = eq_bytes(version, &crate::lit::ver_3_101_0_v()) || eq_bytes(version, &crate::lit::ver_3_103_0_v()) || eq_bytes(version, &crate::lit::ver_3_104_0_v()) || eq_bytes(version, &crate::lit::ver_3_108_0_v()) || eq_bytes(version, &crate::lit::ver_3_109_0_v()) || eq_bytes(version, &crate::lit::ver_3_110_1_v()) || eq_bytes(version, &crate::lit::ver_3_111_0_v()) || eq_bytes(version, &crate::lit::ver_3_27_4_v()) || eq_bytes(version, &crate::lit::ver_3_34_0_v()) || eq_bytes(version, &crate::lit::ver_3_39_0_v()) || eq_bytes(version, &crate::lit::ver_3_40_0_v()) || eq_bytes(version, &crate::lit::ver_3_41_0_v()) || eq_bytes(version, &crate::lit::ver_3_42_0_v()) || eq_bytes(version, &crate::lit::ver_3_46_0_v()) || eq_bytes(version, &crate::lit::ver_3_48_0_v()) || eq_bytes(version, &crate::lit::ver_3_50_2_v()) || eq_bytes(version, &crate::lit::ver_3_51_0_v()) || eq_bytes(version, &crate::lit::ver_3_52_0_v()) || eq_bytes(version, &crate::lit::ver_3_52_1_v()) || eq_bytes(version, &crate::lit::ver_3_52_2_v()) || eq_bytes(version, &crate::lit::ver_3_52_3_v()) || eq_bytes(version, &crate::lit::ver_3_53_1_v()) || eq_bytes(version, &crate::lit::ver_3_89_4_v()) || eq_bytes(version, &crate::lit::ver_3_96_0_v()) || eq_bytes(version, &crate::lit::ver_3_98_0_v()) || eq_bytes(version, &crate::lit::ver_4_8_0_v());
    if known {
        let mut out = crate::lit::json_pre_v();
        out = crate::get_polyfill_string::append_bytes(out, version);
        out = crate::get_polyfill_string::append_bytes(out, &crate::lit::json_suf_v());
        Some(out)
    } else {
        None
    }
}

} // verus!
