//! Bundle assembly: concatenates the ordered polyfill sources into the
//! response body.
//!
//! The body carries, in order: a header comment (omitted when minifying),
//! the IIFE opener, each feature's install source (wrapped in a detect
//! guard when the feature is gated and ships a detect expression), the
//! IIFE closer, and an optional callback invocation. An empty feature
//! list yields only the header, an empty-result notice and the callback;
//! the IIFE is omitted.

use vstd::prelude::*;

use crate::lit::{
    cb_mid_b, cb_mid_v, cb_prefix_b, cb_prefix_v, cb_suffix_b, cb_suffix_v, comma_b, comma_v,
    empty_notice_b, empty_notice_v, gate_close_b, gate_close_v, gate_mid_b, gate_mid_v,
    gate_open_b, gate_open_v, header_end_b, header_end_v, header_features_b, header_features_v,
    header_start_b, header_start_v, header_ua_b, header_ua_v, iife_closer_b, iife_closer_v,
    iife_opener_b, iife_opener_v, newline_b, newline_v,
};
use crate::params::{FeatureRequestV, PolyfillParameters, PolyfillParametersV};

verus! {

/// One selected polyfill, ready for assembly: its (lowercased) name, the
/// names it depends on, whether its install source is gated behind a
/// client-side detect, and the chosen source variant.
pub struct PolyfillEntry {
    pub name: Vec<u8>,
    pub deps: Vec<Vec<u8>>,
    pub gated: bool,
    pub detect: Option<Vec<u8>>,
    pub source: Vec<u8>,
}

#[verifier::ext_equal]
pub ghost struct PolyfillEntryV {
    pub name: Seq<u8>,
    pub deps: Seq<Seq<u8>>,
    pub gated: bool,
    pub detect: Option<Seq<u8>>,
    pub source: Seq<u8>,
}

impl View for PolyfillEntry {
    type V = PolyfillEntryV;

    open spec fn view(&self) -> PolyfillEntryV {
        PolyfillEntryV {
            name: self.name@,
            deps: self.deps.deep_view(),
            gated: self.gated,
            detect: match self.detect {
                Some(ref d) => Some(d@),
                None => None,
            },
            source: self.source@,
        }
    }
}

pub open spec fn entries_view(v: Seq<PolyfillEntry>) -> Seq<PolyfillEntryV> {
    Seq::new(v.len(), |i: int| v[i]@)
}

/// The requested feature names joined with commas, for the header.
pub open spec fn spec_join_names(names: Seq<FeatureRequestV>) -> Seq<u8>
    decreases names.len(),
{
    if names.len() == 0 {
        Seq::empty()
    } else if names.len() == 1 {
        names[0].name
    } else {
        spec_join_names(names.drop_last()) + comma_b() + names.last().name
    }
}

/// The header comment: service banner, catalogue version, requested
/// features, and the user agent.
pub open spec fn spec_header(p: PolyfillParametersV, version: Seq<u8>) -> Seq<u8> {
    header_start_b() + version + header_features_b() + spec_join_names(p.features) + header_ua_b()
        + p.ua_string + header_end_b()
}

/// One feature's contribution to the bundle.
pub open spec fn spec_chunk(e: PolyfillEntryV) -> Seq<u8> {
    match e.detect {
        Some(d) => if e.gated {
            gate_open_b() + d + gate_mid_b() + e.source + gate_close_b()
        } else {
            e.source + newline_b()
        },
        None => e.source + newline_b(),
    }
}

pub open spec fn spec_chunks(entries: Seq<PolyfillEntryV>) -> Seq<u8>
    decreases entries.len(),
{
    if entries.len() == 0 {
        Seq::empty()
    } else {
        spec_chunks(entries.drop_last()) + spec_chunk(entries.last())
    }
}

/// The callback invocation suffix, present exactly when a callback
/// survived validation.
pub open spec fn spec_callback_suffix(cb: Option<Seq<u8>>) -> Seq<u8> {
    match cb {
        Some(c) => cb_prefix_b() + c + cb_mid_b() + c + cb_suffix_b(),
        None => Seq::empty(),
    }
}

/// The whole response body as a function of the descriptor, the resolved
/// catalogue version and the ordered entries.
pub open spec fn spec_bundle(
    p: PolyfillParametersV,
    version: Seq<u8>,
    entries: Seq<PolyfillEntryV>,
) -> Seq<u8> {
    let head: Seq<u8> = if p.minify {
        Seq::empty()
    } else {
        spec_header(p, version)
    };
    if entries.len() == 0 {
        head + empty_notice_b() + spec_callback_suffix(p.callback)
    } else {
        head + iife_opener_b() + newline_b() + spec_chunks(entries) + iife_closer_b()
            + spec_callback_suffix(p.callback)
    }
}

/// Appends `piece` to `out`.
pub fn append_bytes(out: Vec<u8>, piece: &Vec<u8>) -> (r: Vec<u8>)
    ensures
        r@ =~= out@ + piece@,
{
    let ghost base = out@;
    let mut out = out;
    let mut i: usize = 0;
    while i < piece.len()
        invariant
            0 <= i <= piece.len(),
            out@ =~= base + piece@.take(i as int),
        decreases piece.len() - i,
    {
        out.push(piece[i]);
        proof {
            assert(base + piece@.take(i as int) + seq![piece@[i as int]] =~= base + piece@.take(
                i as int + 1,
            ));
        }
        i = i + 1;
    }
    proof {
        assert(piece@.take(piece@.len() as int) =~= piece@);
    }
    out
}

/// Assembles the response body. The second result is true exactly when no
/// feature was installed; the cache layer uses it instead of probing the
/// body for the IIFE opener.
pub fn get_polyfill_string(
    params: &PolyfillParameters,
    version: &Vec<u8>,
    entries: &Vec<PolyfillEntry>,
) -> (r: (Vec<u8>, bool))
    ensures
        r.0@ == spec_bundle(params@, version@, entries_view(entries@)),
        r.1 == (entries@.len() == 0),
{
    let ghost pv = params@;
    let ghost ev = entries_view(entries@);
    let mut out: Vec<u8> = Vec::new();
    if !params.minify {
        out = append_bytes(out, &header_start_v());
        out = append_bytes(out, version);
        out = append_bytes(out, &header_features_v());
        let mut i: usize = 0;
        while i < params.features.len()
            invariant
                pv == params@,
                0 <= i <= params.features.len(),
                pv.features.len() == params.features@.len(),
                out@ =~= header_start_b() + version@ + header_features_b() + spec_join_names(
                    pv.features.take(i as int),
                ),
            decreases params.features.len() - i,
        {
            proof {
                assert(pv.features[i as int] == params.features@[i as int]@);
                assert(pv.features.take(i as int + 1).drop_last() =~= pv.features.take(i as int));
                assert(pv.features.take(i as int + 1).last() == pv.features[i as int]);
            }
            if i > 0 {
                out = append_bytes(out, &comma_v());
            }
            out = append_bytes(out, &params.features[i].name);
            i = i + 1;
        }
        proof {
            assert(pv.features.take(pv.features.len() as int) =~= pv.features);
        }
        out = append_bytes(out, &header_ua_v());
        out = append_bytes(out, &params.ua_string);
        out = append_bytes(out, &header_end_v());
        proof {
            assert(out@ =~= spec_header(pv, version@));
        }
    }
    let ghost head = out@;
    let empty = entries.len() == 0;
    if empty {
        out = append_bytes(out, &empty_notice_v());
    } else {
        out = append_bytes(out, &iife_opener_v());
        out = append_bytes(out, &newline_v());
        let ghost base = out@;
        let mut j: usize = 0;
        while j < entries.len()
            invariant
                ev == entries_view(entries@),
                ev.len() == entries@.len(),
                0 <= j <= entries.len(),
                out@ =~= base + spec_chunks(ev.take(j as int)),
            decreases entries.len() - j,
        {
            proof {
                assert(ev[j as int] == entries@[j as int]@);
                assert(ev.take(j as int + 1).drop_last() =~= ev.take(j as int));
                assert(ev.take(j as int + 1).last() == ev[j as int]);
            }
            let e = &entries[j];
            match e.detect {
                Some(ref d) => {
                    if e.gated {
                        out = append_bytes(out, &gate_open_v());
                        out = append_bytes(out, d);
                        out = append_bytes(out, &gate_mid_v());
                        out = append_bytes(out, &e.source);
                        out = append_bytes(out, &gate_close_v());
                    } else {
                        out = append_bytes(out, &e.source);
                        out = append_bytes(out, &newline_v());
                    }
                },
                None => {
                    out = append_bytes(out, &e.source);
                    out = append_bytes(out, &newline_v());
                },
            }
            j = j + 1;
        }
        proof {
            assert(ev.take(ev.len() as int) =~= ev);
        }
        out = append_bytes(out, &iife_closer_v());
    }
    match params.callback {
        Some(ref c) => {
            out = append_bytes(out, &cb_prefix_v());
            out = append_bytes(out, c);
            out = append_bytes(out, &cb_mid_v());
            out = append_bytes(out, c);
            out = append_bytes(out, &cb_suffix_v());
        },
        None => {},
    }
    proof {
        assert(out@ =~= spec_bundle(pv, version@, ev));
    }
    (out, empty)
}

/// Empty bundles are deterministic: two requests whose descriptors and
/// resolved versions agree, and which both select no features, produce
/// byte-identical bodies.
pub proof fn lemma_empty_bundle_deterministic(
    p1: PolyfillParametersV,
    p2: PolyfillParametersV,
    version1: Seq<u8>,
    version2: Seq<u8>,
    e1: Seq<PolyfillEntryV>,
    e2: Seq<PolyfillEntryV>,
)
    requires
        p1 == p2,
        version1 == version2,
        e1.len() == 0,
        e2.len() == 0,
    ensures
        spec_bundle(p1, version1, e1) == spec_bundle(p2, version2, e2),
{
}

/// A callback that failed the identifier grammar never reaches the
/// output: the parser drops it, so the suffix is empty unless the stored
/// callback satisfies the grammar.
pub proof fn lemma_callback_validated(
    path: Seq<u8>,
    pairs: Seq<crate::params::QueryPairV>,
    ua_header: Option<Seq<u8>>,
)
    ensures
        match crate::params::spec_parameters(path, pairs, ua_header).callback {
            Some(c) => crate::params::is_ident(c),
            None => true,
        },
{
    crate::params::lemma_callback_valid(crate::params::init_acc(), pairs);
}

} // verus!
