//! Request fingerprinting for the cache: a canonical, order-insensitive
//! encoding of the descriptor, hashed to a 256-bit digest and rendered as
//! lowercase hex.
//!
//! The encoding joins NUL-terminated segments: version, user agent,
//! minify, unknown policy, strict, a unary feature count, the features
//! (sorted, flags canonical), a unary exclude count, the excludes
//! (sorted), then callback and rum. Counts are unary so the encoding is
//! prefix-free without any arithmetic on the reader's side.

use vstd::prelude::*;

use sha2::Digest;

use crate::bytes::{lex_le, lex_le_bytes, lex_leq_fn};
use crate::lit::{ignore_v_b, ignore_v_v, p_polyfill_b, p_polyfill_v};
use crate::params::{
    FeatureRequest, FeatureRequestV, PolyfillParameters, PolyfillParametersV, UnknownPolicy,
};

verus! {

/// What sha2's `Sha256` returns for a given byte string. The digest is a
/// pure function of the input, the same in every process.
pub uninterp spec fn sha256_of(b: Seq<u8>) -> Seq<u8>;

/// Relies on sha2's `Sha256::digest`: a pure function of the input bytes,
/// always 32 bytes long.
#[verifier::external_body]
fn sha256(b: &Vec<u8>) -> (r: Vec<u8>)
    ensures
        r@ == sha256_of(b@),
        r@.len() == 32,
{
    sha2::Sha256::digest(b.as_slice()).to_vec()
}

/// The lowercase hex digit for a nibble.
pub open spec fn hex_digit(n: u8) -> u8 {
    if n < 10 {
        (0x30 + n) as u8
    } else {
        (0x57 + n) as u8
    }
}

/// Lowercase hex of a byte string, two digits per byte.
pub open spec fn hex_of(b: Seq<u8>) -> Seq<u8>
    decreases b.len(),
{
    if b.len() == 0 {
        Seq::empty()
    } else {
        hex_of(b.drop_last()) + seq![
            hex_digit(b.last() / 16),
            hex_digit((b.last() % 16) as u8),
        ]
    }
}

/// Renders bytes as lowercase hex.
pub fn to_hex(b: &Vec<u8>) -> (r: Vec<u8>)
    ensures
        r@ == hex_of(b@),
{
    let mut out: Vec<u8> = Vec::new();
    let mut i: usize = 0;
    while i < b.len()
        invariant
            0 <= i <= b.len(),
            out@ =~= hex_of(b@.take(i as int)),
        decreases b.len() - i,
    {
        let c = b[i];
        let hi = c / 16;
        let lo = c % 16;
        let hc: u8 = if hi < 10 {
            0x30 + hi
        } else {
            0x57 + hi
        };
        let lc: u8 = if lo < 10 {
            0x30 + lo
        } else {
            0x57 + lo
        };
        out.push(hc);
        out.push(lc);
        proof {
            let t = b@.take(i as int + 1);
            assert(t.drop_last() =~= b@.take(i as int));
            assert(t.last() == b@[i as int]);
            assert(out@ =~= hex_of(b@.take(i as int)) + seq![
                hex_digit(b@[i as int] / 16),
                hex_digit((b@[i as int] % 16) as u8),
            ]);
        }
        i = i + 1;
    }
    proof {
        assert(b@.take(b@.len() as int) =~= b@);
    }
    out
}

/// NUL-terminated join: every segment is followed by a NUL byte.
pub open spec fn join_nul(segs: Seq<Seq<u8>>) -> Seq<u8>
    decreases segs.len(),
{
    if segs.len() == 0 {
        Seq::empty()
    } else {
        segs[0] + seq![0u8] + join_nul(segs.drop_first())
    }
}

/// `"1"` or `"0"`.
pub open spec fn bit_seg(b: bool) -> Seq<u8> {
    if b {
        seq![0x31u8]
    } else {
        seq![0x30u8]
    }
}

pub open spec fn unknown_seg(u: UnknownPolicy) -> Seq<u8> {
    match u {
        UnknownPolicy::Polyfill => p_polyfill_b(),
        UnknownPolicy::Ignore => ignore_v_b(),
    }
}

/// An optional field: a presence tag byte, then the value.
pub open spec fn opt_seg(o: Option<Seq<u8>>) -> Seq<u8> {
    match o {
        Some(c) => seq![0x31u8] + c,
        None => seq![0x30u8],
    }
}

/// A unary count: `n` asterisks.
pub open spec fn unary_seg(n: nat) -> Seq<u8> {
    Seq::new(n, |i: int| 0x2au8)
}

/// One feature as a segment: `name=always,gated` with the flags as bits.
pub open spec fn feat_seg(f: FeatureRequestV) -> Seq<u8> {
    f.name + seq![0x3du8] + bit_seg(f.always) + seq![0x2cu8] + bit_seg(f.gated)
}

/// Order on feature requests: by name, then by flags.
pub open spec fn feat_rank(f: FeatureRequestV) -> int {
    (if f.always {
        2int
    } else {
        0int
    }) + (if f.gated {
        1int
    } else {
        0int
    })
}

pub open spec fn feat_leq_fn() -> spec_fn(FeatureRequestV, FeatureRequestV) -> bool {
    |a: FeatureRequestV, b: FeatureRequestV|
        if a.name != b.name {
            lex_le(a.name, b.name) && !(a.name =~= b.name)
        } else {
            feat_rank(a) <= feat_rank(b)
        }
}

pub proof fn lemma_feat_total_ordering()
    ensures
        vstd::relations::total_ordering(feat_leq_fn()),
{
    let leq = feat_leq_fn();
    assert forall|a: FeatureRequestV| #[trigger] leq(a, a) by {}
    assert forall|a: FeatureRequestV, b: FeatureRequestV|
        #[trigger] leq(a, b) && #[trigger] leq(b, a) implies a == b by {
        if a.name != b.name {
            crate::bytes::lemma_lex_le_antisym(a.name, b.name);
        } else {
            assert(feat_rank(a) == feat_rank(b));
            assert(a.always == b.always && a.gated == b.gated);
            assert(a =~= b);
        }
    }
    assert forall|a: FeatureRequestV, b: FeatureRequestV, c: FeatureRequestV|
        #[trigger] leq(a, b) && #[trigger] leq(b, c) implies leq(a, c) by {
        if a.name != b.name && b.name != c.name {
            crate::bytes::lemma_lex_le_trans(a.name, b.name, c.name);
            if a.name == c.name {
                crate::bytes::lemma_lex_le_antisym(a.name, b.name);
            }
        }
    }
    assert forall|a: FeatureRequestV, b: FeatureRequestV| #[trigger] leq(a, b) || #[trigger] leq(
        b,
        a,
    ) by {
        if a.name != b.name {
            crate::bytes::lemma_lex_le_total(a.name, b.name);
            if lex_le(a.name, b.name) && lex_le(b.name, a.name) {
                crate::bytes::lemma_lex_le_antisym(a.name, b.name);
            }
        }
    }
}

/// The canonical segment list of a descriptor: scalars, then the features
/// sorted, then the excludes sorted, then the optional fields.
pub open spec fn spec_segments(p: PolyfillParametersV) -> Seq<Seq<u8>> {
    seq![
        p.version,
        p.ua_string,
        bit_seg(p.minify),
        unknown_seg(p.unknown),
        bit_seg(p.strict),
        unary_seg(p.features.len() as nat),
    ] + p.features.sort_by(feat_leq_fn()).map_values(|f: FeatureRequestV| feat_seg(f)) + seq![
        unary_seg(p.excludes.len() as nat),
    ] + p.excludes.sort_by(lex_leq_fn()) + seq![opt_seg(p.callback), opt_seg(p.rum)]
}

/// The canonical fingerprint input.
pub open spec fn spec_canon(p: PolyfillParametersV) -> Seq<u8> {
    join_nul(spec_segments(p))
}

/// The cache key: lowercase hex of the digest of the canonical input.
pub open spec fn spec_fingerprint(p: PolyfillParametersV) -> Seq<u8> {
    hex_of(sha256_of(spec_canon(p)))
}

/// Sorts byte strings ascending by the lexicographic order.
pub fn sort_names(v: Vec<Vec<u8>>) -> (r: Vec<Vec<u8>>)
    ensures
        vstd::relations::sorted_by(r.deep_view(), lex_leq_fn()),
        r.deep_view().to_multiset() == v.deep_view().to_multiset(),
{
    broadcast use vstd::seq_lib::group_to_multiset_ensures;

    let ghost orig = v.deep_view();
    let mut src = v;
    let mut out: Vec<Vec<u8>> = Vec::new();
    proof {
        assert(out.deep_view().to_multiset().add(src.deep_view().to_multiset())
            =~= orig.to_multiset());
    }
    while src.len() > 0
        invariant
            vstd::relations::sorted_by(out.deep_view(), lex_leq_fn()),
            out.deep_view().to_multiset().add(src.deep_view().to_multiset()) =~= orig.to_multiset(),
            forall|a: int, b: int|
                0 <= a < out.deep_view().len() && 0 <= b < src.deep_view().len() ==> lex_le(
                    #[trigger] out.deep_view()[a],
                    #[trigger] src.deep_view()[b],
                ),
        decreases src.len(),
    {
        let ghost sv = src.deep_view();
        let mut best: usize = 0;
        let mut k: usize = 1;
        proof {
            crate::bytes::lemma_lex_le_total(sv[0], sv[0]);
        }
        while k < src.len()
            invariant
                sv == src.deep_view(),
                sv.len() == src@.len(),
                best < k,
                1 <= k <= src.len(),
                best < src.len(),
                forall|m: int| 0 <= m < k ==> lex_le(sv[best as int], #[trigger] sv[m]),
            decreases src.len() - k,
        {
            proof {
                assert(sv[k as int] == src@[k as int]@);
                assert(sv[best as int] == src@[best as int]@);
            }
            if lex_le_bytes(&src[k], &src[best]) {
                proof {
                    crate::bytes::lemma_lex_le_total(sv[k as int], sv[best as int]);
                    assert forall|m: int| 0 <= m < k + 1 implies lex_le(
                        sv[k as int],
                        #[trigger] sv[m],
                    ) by {
                        if m < k {
                            crate::bytes::lemma_lex_le_trans(sv[k as int], sv[best as int], sv[m]);
                        } else {
                            crate::bytes::lemma_lex_le_total(sv[k as int], sv[k as int]);
                        }
                    }
                }
                best = k;
            } else {
                proof {
                    crate::bytes::lemma_lex_le_total(sv[k as int], sv[best as int]);
                }
            }
            k = k + 1;
        }
        proof {
            if src.len() == 1 {
                crate::bytes::lemma_lex_le_total(sv[0], sv[0]);
            }
            assert(forall|m: int| 0 <= m < sv.len() ==> lex_le(sv[best as int], #[trigger] sv[m]));
        }
        let picked = src.remove(best);
        let ghost pv = picked@;
        let ghost out_pre = out.deep_view();
        out.push(picked);
        proof {
            let sv1 = src.deep_view();
            assert(pv == sv[best as int]);
            assert(sv1 =~~= sv.remove(best as int));
            assert(out.deep_view() =~~= out_pre.push(pv));
            sv.to_multiset_ensures();
            out_pre.to_multiset_ensures();
            assert(sv.remove(best as int).to_multiset() =~= sv.to_multiset().remove(pv));
            assert(out_pre.push(pv).to_multiset() =~= out_pre.to_multiset().insert(pv));
            assert(sv.to_multiset().contains(pv));
            assert(out.deep_view().to_multiset().add(sv1.to_multiset()) =~= orig.to_multiset());
            let leq = lex_leq_fn();
            assert forall|a: int, b: int|
                0 <= a < b < out.deep_view().len() implies #[trigger] leq(
                out.deep_view()[a],
                out.deep_view()[b],
            ) by {
                if b < out_pre.len() {
                    assert(leq(out_pre[a], out_pre[b]));
                } else {
                    assert(out.deep_view()[b] == pv);
                    assert(lex_le(out_pre[a], sv[best as int]));
                }
            }
            assert forall|a: int, b: int|
                0 <= a < out.deep_view().len() && 0 <= b < sv1.len() implies lex_le(
                #[trigger] out.deep_view()[a],
                #[trigger] sv1[b],
            ) by {
                let b0 = if b < best { b } else { b + 1 };
                assert(sv1[b] == sv[b0]);
                if a < out_pre.len() {
                    assert(lex_le(out_pre[a], sv[b0]));
                } else {
                    assert(out.deep_view()[a] == pv);
                    assert(lex_le(sv[best as int], sv[b0]));
                }
            }
        }
    }
    proof {
        assert(src.deep_view().to_multiset().len() == 0);
        assert(out.deep_view().to_multiset().add(src.deep_view().to_multiset())
            =~= out.deep_view().to_multiset());
    }
    out
}

/// Sorts feature requests by name, then flags.
pub fn sort_features(v: Vec<FeatureRequest>) -> (r: Vec<FeatureRequest>)
    ensures
        vstd::relations::sorted_by(crate::params::feats_view(r@), feat_leq_fn()),
        crate::params::feats_view(r@).to_multiset() == crate::params::feats_view(v@).to_multiset(),
{
    broadcast use vstd::seq_lib::group_to_multiset_ensures;

    let ghost orig = crate::params::feats_view(v@);
    let mut src = v;
    let mut out: Vec<FeatureRequest> = Vec::new();
    proof {
        assert(crate::params::feats_view(out@).to_multiset().add(
            crate::params::feats_view(src@).to_multiset(),
        ) =~= orig.to_multiset());
    }
    while src.len() > 0
        invariant
            vstd::relations::sorted_by(crate::params::feats_view(out@), feat_leq_fn()),
            crate::params::feats_view(out@).to_multiset().add(
                crate::params::feats_view(src@).to_multiset(),
            ) =~= orig.to_multiset(),
            forall|a: int, b: int|
                0 <= a < out@.len() && 0 <= b < src@.len() ==> (feat_leq_fn())(
                    #[trigger] crate::params::feats_view(out@)[a],
                    #[trigger] crate::params::feats_view(src@)[b],
                ),
        decreases src.len(),
    {
        let ghost sv = crate::params::feats_view(src@);
        let mut best: usize = 0;
        let mut k: usize = 1;
        while k < src.len()
            invariant
                sv == crate::params::feats_view(src@),
                sv.len() == src@.len(),
                best < src.len(),
                k >= 1,
                k <= src.len(),
                best < k,
                forall|m: int| 0 <= m < k ==> (feat_leq_fn())(sv[best as int], #[trigger] sv[m]),
            decreases src.len() - k,
        {
            proof {
                assert(sv[k as int] == src@[k as int]@);
                assert(sv[best as int] == src@[best as int]@);
                lemma_feat_total_ordering();
            }
            let is_le = feat_le_exec(&src[k], &src[best]);
            if is_le {
                proof {
                    let leqf = feat_leq_fn();
                    assert forall|m: int| 0 <= m < k + 1 implies leqf(
                        sv[k as int],
                        #[trigger] sv[m],
                    ) by {}
                }
                best = k;
            }
            k = k + 1;
        }
        proof {
            lemma_feat_total_ordering();
            if src.len() == 1 {
            }
            assert(forall|m: int|
                0 <= m < sv.len() ==> (feat_leq_fn())(sv[best as int], #[trigger] sv[m]));
        }
        let picked = src.remove(best);
        let ghost pv = picked@;
        let ghost out_pre = crate::params::feats_view(out@);
        out.push(picked);
        proof {
            let sv1 = crate::params::feats_view(src@);
            let ov = crate::params::feats_view(out@);
            assert(pv == sv[best as int]);
            assert(sv1 =~~= sv.remove(best as int));
            assert(ov =~~= out_pre.push(pv));
            sv.to_multiset_ensures();
            out_pre.to_multiset_ensures();
            assert(sv.remove(best as int).to_multiset() =~= sv.to_multiset().remove(pv));
            assert(out_pre.push(pv).to_multiset() =~= out_pre.to_multiset().insert(pv));
            assert(sv.to_multiset().contains(pv));
            assert(ov.to_multiset().add(sv1.to_multiset()) =~= orig.to_multiset());
            let leqf = feat_leq_fn();
            lemma_feat_total_ordering();
            assert forall|a: int, b: int| 0 <= a < b < ov.len() implies #[trigger] leqf(
                ov[a],
                ov[b],
            ) by {
                if b < out_pre.len() {
                    assert(leqf(out_pre[a], out_pre[b]));
                } else {
                    assert(ov[b] == pv);
                    assert(leqf(out_pre[a], sv[best as int]));
                }
            }
            assert forall|a: int, b: int|
                0 <= a < ov.len() && 0 <= b < sv1.len() implies (feat_leq_fn())(
                #[trigger] ov[a],
                #[trigger] sv1[b],
            ) by {
                let b0 = if b < best { b } else { b + 1 };
                assert(sv1[b] == sv[b0]);
                if a < out_pre.len() {
                    assert(leqf(out_pre[a], sv[b0]));
                } else {
                    assert(ov[a] == pv);
                    assert(leqf(sv[best as int], sv[b0]));
                }
            }
        }
    }
    proof {
        assert(crate::params::feats_view(src@).to_multiset().len() == 0);
        assert(crate::params::feats_view(out@).to_multiset().add(
            crate::params::feats_view(src@).to_multiset(),
        ) =~= crate::params::feats_view(out@).to_multiset());
    }
    out
}

/// Decides `feat_leq_fn`.
fn feat_le_exec(a: &FeatureRequest, b: &FeatureRequest) -> (r: bool)
    ensures
        r == (feat_leq_fn())(a@, b@),
{
    if crate::bytes::eq_bytes(&a.name, &b.name) {
        let ra: u8 = (if a.always {
            2u8
        } else {
            0u8
        }) + (if a.gated {
            1u8
        } else {
            0u8
        });
        let rb: u8 = (if b.always {
            2u8
        } else {
            0u8
        }) + (if b.gated {
            1u8
        } else {
            0u8
        });
        ra <= rb
    } else {
        let le = lex_le_bytes(&a.name, &b.name);
        le && !crate::bytes::eq_bytes(&a.name, &b.name)
    }
}

/// Computes the fingerprint key of a descriptor: 64 lowercase hex
/// characters, a function of the canonical encoding alone, so any two
/// descriptors equal up to feature or exclude order share a key.
pub fn fingerprint(p: &PolyfillParameters) -> (r: Vec<u8>)
    ensures
        r@ == spec_fingerprint(p@),
{
    broadcast use vstd::seq_lib::group_to_multiset_ensures;

    let ghost pv = p@;
    // canonical feature order
    let mut feats: Vec<FeatureRequest> = Vec::new();
    let mut i: usize = 0;
    proof {
        assert(crate::params::feats_view(feats@) =~= pv.features.take(0));
    }
    while i < p.features.len()
        invariant
            pv == p@,
            0 <= i <= p.features.len(),
            pv.features.len() == p.features@.len(),
            crate::params::feats_view(feats@) =~= pv.features.take(i as int),
        decreases p.features.len() - i,
    {
        let ghost pre = crate::params::feats_view(feats@);
        proof {
            assert(pv.features[i as int] == p.features@[i as int]@);
        }
        feats.push(p.features[i].clone());
        proof {
            assert(crate::params::feats_view(feats@) =~~= pre.push(pv.features[i as int]));
            assert(pre.push(pv.features[i as int]) =~= pv.features.take(i as int + 1));
        }
        i = i + 1;
    }
    proof {
        assert(pv.features.take(pv.features.len() as int) =~= pv.features);
    }
    let sorted_feats = sort_features(feats);
    proof {
        lemma_feat_total_ordering();
        pv.features.lemma_sort_by_ensures(feat_leq_fn());
        vstd::seq_lib::lemma_sorted_unique(
            crate::params::feats_view(sorted_feats@),
            pv.features.sort_by(feat_leq_fn()),
            feat_leq_fn(),
        );
    }
    // canonical exclude order
    let mut excl: Vec<Vec<u8>> = Vec::new();
    let mut j: usize = 0;
    proof {
        assert(excl.deep_view() =~= pv.excludes.take(0));
    }
    while j < p.excludes.len()
        invariant
            pv == p@,
            0 <= j <= p.excludes.len(),
            pv.excludes.len() == p.excludes@.len(),
            excl.deep_view() =~= pv.excludes.take(j as int),
        decreases p.excludes.len() - j,
    {
        let ghost pre = excl.deep_view();
        proof {
            assert(pv.excludes[j as int] == p.excludes@[j as int]@);
        }
        excl.push(p.excludes[j].clone());
        proof {
            assert(excl.deep_view() =~~= pre.push(pv.excludes[j as int]));
            assert(pre.push(pv.excludes[j as int]) =~= pv.excludes.take(j as int + 1));
        }
        j = j + 1;
    }
    proof {
        assert(pv.excludes.take(pv.excludes.len() as int) =~= pv.excludes);
    }
    let sorted_excl = sort_names(excl);
    proof {
        crate::bytes::lemma_lex_total_ordering();
        pv.excludes.lemma_sort_by_ensures(lex_leq_fn());
        vstd::seq_lib::lemma_sorted_unique(
            sorted_excl.deep_view(),
            pv.excludes.sort_by(lex_leq_fn()),
            lex_leq_fn(),
        );
    }
    // build the segment list
    let mut segs: Vec<Vec<u8>> = Vec::new();
    segs.push(p.version.clone());
    segs.push(p.ua_string.clone());
    segs.push(bit_vec(p.minify));
    match p.unknown {
        UnknownPolicy::Polyfill => segs.push(p_polyfill_v()),
        UnknownPolicy::Ignore => segs.push(ignore_v_v()),
    }
    segs.push(bit_vec(p.strict));
    segs.push(unary_vec(p.features.len()));
    let mut k: usize = 0;
    let ghost sf = crate::params::feats_view(sorted_feats@);
    let ghost fsegs = sf.map_values(|f: FeatureRequestV| feat_seg(f));
    let ghost base6 = segs.deep_view();
    proof {
        assert(base6 =~~= seq![
            pv.version,
            pv.ua_string,
            bit_seg(pv.minify),
            unknown_seg(pv.unknown),
            bit_seg(pv.strict),
            unary_seg(pv.features.len() as nat),
        ]);
        assert(segs.deep_view() =~= base6 + fsegs.take(0));
    }
    while k < sorted_feats.len()
        invariant
            sf == crate::params::feats_view(sorted_feats@),
            fsegs == sf.map_values(|f: FeatureRequestV| feat_seg(f)),
            sf.len() == sorted_feats@.len(),
            0 <= k <= sorted_feats.len(),
            segs.deep_view() =~= base6 + fsegs.take(k as int),
        decreases sorted_feats.len() - k,
    {
        let ghost pre = segs.deep_view();
        proof {
            assert(sf[k as int] == sorted_feats@[k as int]@);
        }
        let fseg = feat_seg_vec(&sorted_feats[k]);
        segs.push(fseg);
        proof {
            assert(fsegs[k as int] == feat_seg(sf[k as int]));
            assert(segs.deep_view() =~~= pre.push(feat_seg(sf[k as int])));
            assert(pre.push(fsegs[k as int]) =~= base6 + fsegs.take(k as int + 1));
        }
        k = k + 1;
    }
    proof {
        assert(fsegs.take(fsegs.len() as int) =~= fsegs);
        assert(segs.deep_view() =~= base6 + fsegs);
    }
    segs.push(unary_vec(p.excludes.len()));
    let mut q: usize = 0;
    let ghost se = sorted_excl.deep_view();
    let ghost base7 = segs.deep_view();
    proof {
        assert(base7 =~~= base6 + fsegs + seq![unary_seg(pv.excludes.len() as nat)]);
        assert(segs.deep_view() =~= base7 + se.take(0));
    }
    while q < sorted_excl.len()
        invariant
            se == sorted_excl.deep_view(),
            se.len() == sorted_excl@.len(),
            0 <= q <= sorted_excl.len(),
            segs.deep_view() =~= base7 + se.take(q as int),
        decreases sorted_excl.len() - q,
    {
        let ghost pre = segs.deep_view();
        proof {
            assert(se[q as int] == sorted_excl@[q as int]@);
        }
        segs.push(sorted_excl[q].clone());
        proof {
            assert(segs.deep_view() =~~= pre.push(se[q as int]));
            assert(pre.push(se[q as int]) =~= base7 + se.take(q as int + 1));
        }
        q = q + 1;
    }
    proof {
        assert(se.take(se.len() as int) =~= se);
        assert(segs.deep_view() =~= base7 + se);
    }
    let ghost base8 = segs.deep_view();
    segs.push(opt_vec(&p.callback));
    proof {
        assert(segs.deep_view() =~~= base8.push(opt_seg(pv.callback)));
    }
    let ghost base9 = segs.deep_view();
    segs.push(opt_vec(&p.rum));
    proof {
        assert(segs.deep_view() =~~= base9.push(opt_seg(pv.rum)));
        assert(sf == pv.features.sort_by(feat_leq_fn()));
        assert(se == pv.excludes.sort_by(lex_leq_fn()));
        assert(segs.deep_view() =~~= spec_segments(pv));
    }
    // join, hash, hex
    let joined = join_nul_vec(&segs);
    let digest = sha256(&joined);
    to_hex(&digest)
}

fn bit_vec(b: bool) -> (r: Vec<u8>)
    ensures
        r@ =~= bit_seg(b),
{
    let mut v: Vec<u8> = Vec::new();
    if b {
        v.push(0x31);
    } else {
        v.push(0x30);
    }
    v
}

fn unary_vec(n: usize) -> (r: Vec<u8>)
    ensures
        r@ =~= unary_seg(n as nat),
{
    let mut v: Vec<u8> = Vec::new();
    let mut i: usize = 0;
    while i < n
        invariant
            0 <= i <= n,
            v@.len() == i,
            forall|j: int| 0 <= j < i ==> v@[j] == 0x2au8,
        decreases n - i,
    {
        v.push(0x2a);
        i = i + 1;
    }
    v
}

fn opt_vec(o: &Option<Vec<u8>>) -> (r: Vec<u8>)
    ensures
        r@ =~= opt_seg(crate::params::opt_view(*o)),
{
    let mut v: Vec<u8> = Vec::new();
    match o {
        Some(c) => {
            v.push(0x31);
            v = crate::get_polyfill_string::append_bytes(v, c);
        },
        None => {
            v.push(0x30);
        },
    }
    v
}

fn feat_seg_vec(f: &FeatureRequest) -> (r: Vec<u8>)
    ensures
        r@ =~= feat_seg(f@),
{
    let mut v = f.name.clone();
    v.push(0x3d);
    if f.always {
        v.push(0x31);
    } else {
        v.push(0x30);
    }
    v.push(0x2c);
    if f.gated {
        v.push(0x31);
    } else {
        v.push(0x30);
    }
    v
}

fn join_nul_vec(segs: &Vec<Vec<u8>>) -> (r: Vec<u8>)
    ensures
        r@ == join_nul(segs.deep_view()),
{
    let ghost sv = segs.deep_view();
    let mut out: Vec<u8> = Vec::new();
    let mut i: usize = 0;
    proof {
        assert(sv.skip(0) =~= sv);
    }
    while i < segs.len()
        invariant
            sv == segs.deep_view(),
            sv.len() == segs@.len(),
            0 <= i <= segs.len(),
            join_nul(sv) =~= out@ + join_nul(sv.skip(i as int)),
        decreases segs.len() - i,
    {
        let ghost tail = sv.skip(i as int);
        proof {
            assert(tail[0] == sv[i as int]);
            assert(sv[i as int] == segs@[i as int]@);
            assert(tail.drop_first() =~= sv.skip(i as int + 1));
        }
        out = crate::get_polyfill_string::append_bytes(out, &segs[i]);
        out.push(0u8);
        i = i + 1;
    }
    proof {
        assert(sv.skip(sv.len() as int).len() == 0);
        assert(out@ + join_nul(sv.skip(sv.len() as int)) =~= out@);
    }
    out
}

/// Fingerprint stability: permuting the features or the excludes of a
/// descriptor, with everything else equal, yields the same cache key.
pub proof fn lemma_fingerprint_stable(p1: PolyfillParametersV, p2: PolyfillParametersV)
    requires
        p1.version == p2.version,
        p1.ua_string == p2.ua_string,
        p1.minify == p2.minify,
        p1.unknown == p2.unknown,
        p1.strict == p2.strict,
        p1.callback == p2.callback,
        p1.rum == p2.rum,
        p1.features.to_multiset() == p2.features.to_multiset(),
        p1.excludes.to_multiset() == p2.excludes.to_multiset(),
    ensures
        spec_fingerprint(p1) == spec_fingerprint(p2),
{
    broadcast use vstd::seq_lib::group_to_multiset_ensures;

    lemma_feat_total_ordering();
    crate::bytes::lemma_lex_total_ordering();
    p1.features.lemma_sort_by_ensures(feat_leq_fn());
    p2.features.lemma_sort_by_ensures(feat_leq_fn());
    vstd::seq_lib::lemma_sorted_unique(
        p1.features.sort_by(feat_leq_fn()),
        p2.features.sort_by(feat_leq_fn()),
        feat_leq_fn(),
    );
    p1.excludes.lemma_sort_by_ensures(lex_leq_fn());
    p2.excludes.lemma_sort_by_ensures(lex_leq_fn());
    vstd::seq_lib::lemma_sorted_unique(
        p1.excludes.sort_by(lex_leq_fn()),
        p2.excludes.sort_by(lex_leq_fn()),
        lex_leq_fn(),
    );
    p1.features.to_multiset_ensures();
    p2.features.to_multiset_ensures();
    p1.excludes.to_multiset_ensures();
    p2.excludes.to_multiset_ensures();
    assert(p1.features.len() == p2.features.len());
    assert(p1.excludes.len() == p2.excludes.len());
    assert(p1.features.sort_by(feat_leq_fn()) == p2.features.sort_by(feat_leq_fn()));
    assert(p1.excludes.sort_by(lex_leq_fn()) == p2.excludes.sort_by(lex_leq_fn()));
    assert(p1.features.sort_by(feat_leq_fn()).map_values(|f: FeatureRequestV| feat_seg(f))
        == p2.features.sort_by(feat_leq_fn()).map_values(|f: FeatureRequestV| feat_seg(f)));
    assert(spec_segments(p1) =~~= spec_segments(p2));
}

/// No NUL byte anywhere in `s`.
pub open spec fn nul_free(s: Seq<u8>) -> bool {
    forall|j: int| 0 <= j < s.len() ==> s[j] != 0
}

/// A descriptor whose string fields carry no NUL bytes; the canonical
/// encoding separates exactly these.
pub open spec fn wf_nul_free(p: PolyfillParametersV) -> bool {
    &&& nul_free(p.version)
    &&& nul_free(p.ua_string)
    &&& forall|i: int| 0 <= i < p.features.len() ==> nul_free((#[trigger] p.features[i]).name)
    &&& forall|i: int| 0 <= i < p.excludes.len() ==> nul_free(#[trigger] p.excludes[i])
    &&& match p.callback {
        Some(c) => nul_free(c),
        None => true,
    }
    &&& match p.rum {
        Some(c) => nul_free(c),
        None => true,
    }
}

proof fn lemma_join_nul_len(segs: Seq<Seq<u8>>)
    ensures
        segs.len() > 0 ==> join_nul(segs).len() >= segs[0].len() + 1,
{
}

/// NUL-terminated joins of NUL-free segments are injective.
proof fn lemma_join_nul_injective(a: Seq<Seq<u8>>, b: Seq<Seq<u8>>)
    requires
        forall|i: int| 0 <= i < a.len() ==> nul_free(#[trigger] a[i]),
        forall|i: int| 0 <= i < b.len() ==> nul_free(#[trigger] b[i]),
        join_nul(a) == join_nul(b),
    ensures
        a =~= b,
    decreases a.len(),
{
    if a.len() == 0 {
        if b.len() > 0 {
            lemma_join_nul_len(b);
            assert(join_nul(a).len() == 0);
            assert(false);
        }
    } else if b.len() == 0 {
        lemma_join_nul_len(a);
        assert(join_nul(b).len() == 0);
        assert(false);
    } else {
        let ja = join_nul(a);
        let la = a[0].len() as int;
        let lb = b[0].len() as int;
        assert(ja == a[0] + seq![0u8] + join_nul(a.drop_first()));
        assert(ja == b[0] + seq![0u8] + join_nul(b.drop_first()));
        assert(ja[la] == 0) by {
            assert((a[0] + seq![0u8])[la] == 0);
        }
        assert(ja[lb] == 0) by {
            assert((b[0] + seq![0u8])[lb] == 0);
        }
        if la < lb {
            assert(ja[la] == b[0][la]);
            assert(b[0][la] != 0);
            assert(false);
        }
        if lb < la {
            assert(ja[lb] == a[0][lb]);
            assert(a[0][lb] != 0);
            assert(false);
        }
        assert(la == lb);
        assert(a[0] =~= b[0]) by {
            assert forall|j: int| 0 <= j < la implies a[0][j] == b[0][j] by {
                assert(ja[j] == a[0][j]);
                assert(ja[j] == b[0][j]);
            }
        }
        assert(join_nul(a.drop_first()) =~= join_nul(b.drop_first())) by {
            let ta = join_nul(a.drop_first());
            let tb = join_nul(b.drop_first());
            assert(ja.len() == la + 1 + ta.len());
            assert(ja.len() == lb + 1 + tb.len());
            assert forall|j: int| 0 <= j < ta.len() implies ta[j] == tb[j] by {
                assert(ja[la + 1 + j] == ta[j]);
                assert(ja[lb + 1 + j] == tb[j]);
            }
        }
        assert forall|i: int| 0 <= i < a.drop_first().len() implies nul_free(
            #[trigger] a.drop_first()[i],
        ) by {
            assert(a.drop_first()[i] == a[i + 1]);
        }
        assert forall|i: int| 0 <= i < b.drop_first().len() implies nul_free(
            #[trigger] b.drop_first()[i],
        ) by {
            assert(b.drop_first()[i] == b[i + 1]);
        }
        lemma_join_nul_injective(a.drop_first(), b.drop_first());
        assert(a =~= seq![a[0]] + a.drop_first());
        assert(b =~= seq![b[0]] + b.drop_first());
    }
}

proof fn lemma_feat_seg_injective(x: FeatureRequestV, y: FeatureRequestV)
    requires
        feat_seg(x) == feat_seg(y),
    ensures
        x == y,
{
    let sx = feat_seg(x);
    let sy = feat_seg(y);
    assert(sx.len() == x.name.len() + 4);
    assert(sy.len() == y.name.len() + 4);
    assert(x.name =~= y.name) by {
        assert forall|j: int| 0 <= j < x.name.len() implies x.name[j] == y.name[j] by {
            assert(sx[j] == x.name[j]);
            assert(sy[j] == y.name[j]);
        }
    }
    let n = x.name.len() as int;
    assert(sx[n + 1] == bit_seg(x.always)[0]);
    assert(sy[n + 1] == bit_seg(y.always)[0]);
    assert(x.always == y.always);
    assert(sx[n + 3] == bit_seg(x.gated)[0]);
    assert(sy[n + 3] == bit_seg(y.gated)[0]);
    assert(x.gated == y.gated);
    assert(x =~= y);
}

proof fn lemma_opt_seg_injective(x: Option<Seq<u8>>, y: Option<Seq<u8>>)
    requires
        opt_seg(x) == opt_seg(y),
    ensures
        x == y,
{
    match (x, y) {
        (Some(cx), Some(cy)) => {
            assert(opt_seg(x) == seq![0x31u8] + cx);
            assert(opt_seg(y) == seq![0x31u8] + cy);
            assert((seq![0x31u8] + cx).len() == 1 + cx.len());
            assert((seq![0x31u8] + cy).len() == 1 + cy.len());
            assert(cx =~= cy) by {
                assert forall|j: int| 0 <= j < cx.len() implies cx[j] == cy[j] by {
                    assert((seq![0x31u8] + cx)[j + 1] == cx[j]);
                    assert((seq![0x31u8] + cy)[j + 1] == cy[j]);
                }
            }
        },
        (Some(cx), None) => {
            assert(opt_seg(x)[0] == 0x31);
            assert(opt_seg(y)[0] == 0x30);
        },
        (None, Some(cy)) => {
            assert(opt_seg(x)[0] == 0x30);
            assert(opt_seg(y)[0] == 0x31);
        },
        (None, None) => {},
    }
}

proof fn lemma_segments_nul_free(p: PolyfillParametersV)
    requires
        wf_nul_free(p),
    ensures
        forall|i: int| 0 <= i < spec_segments(p).len() ==> nul_free(#[trigger] spec_segments(p)[i]),
{
    broadcast use vstd::seq_lib::group_to_multiset_ensures;

    let segs = spec_segments(p);
    let sf = p.features.sort_by(feat_leq_fn());
    let se = p.excludes.sort_by(lex_leq_fn());
    lemma_feat_total_ordering();
    crate::bytes::lemma_lex_total_ordering();
    p.features.lemma_sort_by_ensures(feat_leq_fn());
    p.excludes.lemma_sort_by_ensures(lex_leq_fn());
    assert forall|i: int| 0 <= i < sf.len() implies nul_free((#[trigger] sf[i]).name) by {
        assert(sf.to_multiset().contains(sf[i]));
        assert(p.features.contains(sf[i]));
        let k = choose|k: int| 0 <= k < p.features.len() && p.features[k] == sf[i];
        assert(nul_free(p.features[k].name));
    }
    assert forall|i: int| 0 <= i < se.len() implies nul_free(#[trigger] se[i]) by {
        assert(se.to_multiset().contains(se[i]));
        assert(p.excludes.contains(se[i]));
        let k = choose|k: int| 0 <= k < p.excludes.len() && p.excludes[k] == se[i];
        assert(nul_free(p.excludes[k]));
    }
    assert forall|i: int| 0 <= i < segs.len() implies nul_free(#[trigger] segs[i]) by {
        let fsegs = sf.map_values(|f: FeatureRequestV| feat_seg(f));
        if i < 6 {
            assert(nul_free(bit_seg(p.minify)));
            assert(nul_free(bit_seg(p.strict)));
            assert(nul_free(unknown_seg(p.unknown)));
            assert(nul_free(unary_seg(p.features.len() as nat)));
        } else if i < 6 + fsegs.len() {
            assert(segs[i] == feat_seg(sf[i - 6]));
            assert(nul_free(sf[i - 6].name));
            assert forall|j: int| 0 <= j < feat_seg(sf[i - 6]).len() implies #[trigger] feat_seg(
                sf[i - 6],
            )[j] != 0 by {
                let f = sf[i - 6];
                let n = f.name.len() as int;
                if j < n {
                    assert(feat_seg(f)[j] == f.name[j]);
                }
            }
        } else if i == 6 + fsegs.len() {
            assert(segs[i] == unary_seg(p.excludes.len() as nat));
        } else if i < 6 + fsegs.len() + 1 + se.len() {
            assert(segs[i] == se[i - 6 - fsegs.len() - 1]);
        } else {
            assert(nul_free(opt_seg(p.callback)));
            assert(nul_free(opt_seg(p.rum)));
        }
    }
}

/// Fingerprint separation, up to the digest: two NUL-free descriptors
/// with the same canonical encoding agree on every fingerprinted field
/// (with features and excludes as multisets). Contrapositively, any
/// difference in version, user agent, minify, unknown policy, strict,
/// feature set, flags, excludes, callback or rum changes the canonical
/// input, and so the key, barring a digest collision.
pub proof fn lemma_fingerprint_separates(p1: PolyfillParametersV, p2: PolyfillParametersV)
    requires
        wf_nul_free(p1),
        wf_nul_free(p2),
        spec_canon(p1) == spec_canon(p2),
    ensures
        p1.version == p2.version,
        p1.ua_string == p2.ua_string,
        p1.minify == p2.minify,
        p1.unknown == p2.unknown,
        p1.strict == p2.strict,
        p1.callback == p2.callback,
        p1.rum == p2.rum,
        p1.features.to_multiset() == p2.features.to_multiset(),
        p1.excludes.to_multiset() == p2.excludes.to_multiset(),
{
    broadcast use vstd::seq_lib::group_to_multiset_ensures;

    lemma_segments_nul_free(p1);
    lemma_segments_nul_free(p2);
    lemma_join_nul_injective(spec_segments(p1), spec_segments(p2));
    let s1 = spec_segments(p1);
    let s2 = spec_segments(p2);
    let sf1 = p1.features.sort_by(feat_leq_fn());
    let sf2 = p2.features.sort_by(feat_leq_fn());
    let se1 = p1.excludes.sort_by(lex_leq_fn());
    let se2 = p2.excludes.sort_by(lex_leq_fn());
    let f1 = sf1.map_values(|f: FeatureRequestV| feat_seg(f));
    let f2 = sf2.map_values(|f: FeatureRequestV| feat_seg(f));
    lemma_feat_total_ordering();
    crate::bytes::lemma_lex_total_ordering();
    p1.features.lemma_sort_by_ensures(feat_leq_fn());
    p2.features.lemma_sort_by_ensures(feat_leq_fn());
    p1.excludes.lemma_sort_by_ensures(lex_leq_fn());
    p2.excludes.lemma_sort_by_ensures(lex_leq_fn());
    assert(s1 == s2);
    assert(forall|i: int| 0 <= i < s1.len() ==> s1[i] == #[trigger] s2[i]);
    sf1.to_multiset_ensures();
    sf2.to_multiset_ensures();
    p1.features.to_multiset_ensures();
    p2.features.to_multiset_ensures();
    se1.to_multiset_ensures();
    se2.to_multiset_ensures();
    p1.excludes.to_multiset_ensures();
    p2.excludes.to_multiset_ensures();
    assert(sf1.len() == p1.features.len());
    assert(sf2.len() == p2.features.len());
    assert(se1.len() == p1.excludes.len());
    assert(se2.len() == p2.excludes.len());
    // feature counts agree, from the unary count segment
    assert(s1[5] == unary_seg(p1.features.len() as nat));
    assert(s2[5] == unary_seg(p2.features.len() as nat));
    assert(unary_seg(p1.features.len() as nat).len() == p1.features.len());
    assert(unary_seg(p2.features.len() as nat).len() == p2.features.len());
    assert(p1.features.len() == p2.features.len());
    assert(f1.len() == f2.len());
    // exclude counts agree
    assert(s1[6 + f1.len() as int] == unary_seg(p1.excludes.len() as nat));
    assert(s2[6 + f2.len() as int] == unary_seg(p2.excludes.len() as nat));
    assert(p1.excludes.len() == p2.excludes.len());
    // scalars
    assert(s1[0] == p1.version && s2[0] == p2.version);
    assert(s1[1] == p1.ua_string && s2[1] == p2.ua_string);
    assert(s1[2] == bit_seg(p1.minify) && s2[2] == bit_seg(p2.minify));
    assert(bit_seg(p1.minify)[0] == bit_seg(p2.minify)[0]);
    assert(s1[3] == unknown_seg(p1.unknown) && s2[3] == unknown_seg(p2.unknown));
    assert(p1.unknown == p2.unknown) by {
        if p1.unknown != p2.unknown {
            assert(unknown_seg(p1.unknown).len() != unknown_seg(p2.unknown).len());
        }
    }
    assert(s1[4] == bit_seg(p1.strict) && s2[4] == bit_seg(p2.strict));
    assert(bit_seg(p1.strict)[0] == bit_seg(p2.strict)[0]);
    // sorted feature lists agree pointwise
    assert(sf1 =~= sf2) by {
        assert forall|i: int| 0 <= i < sf1.len() implies sf1[i] == sf2[i] by {
            assert(s1[6 + i] == f1[i]);
            assert(s2[6 + i] == f2[i]);
            assert(f1[i] == feat_seg(sf1[i]));
            assert(f2[i] == feat_seg(sf2[i]));
            lemma_feat_seg_injective(sf1[i], sf2[i]);
        }
    }
    assert(p1.features.to_multiset() == p2.features.to_multiset()) by {
        assert(sf1.to_multiset() == sf2.to_multiset());
    }
    // sorted exclude lists agree pointwise
    assert(se1 =~= se2) by {
        assert forall|i: int| 0 <= i < se1.len() implies se1[i] == se2[i] by {
            assert(s1[6 + f1.len() as int + 1 + i] == se1[i]);
            assert(s2[6 + f2.len() as int + 1 + i] == se2[i]);
        }
    }
    assert(p1.excludes.to_multiset() == p2.excludes.to_multiset()) by {
        assert(se1.to_multiset() == se2.to_multiset());
    }
    // optional fields
    let tail: int = 6 + f1.len() as int + 1 + se1.len() as int;
    assert(s1[tail] == opt_seg(p1.callback));
    assert(s2[tail] == opt_seg(p2.callback));
    lemma_opt_seg_injective(p1.callback, p2.callback);
    assert(s1[tail + 1] == opt_seg(p1.rum));
    assert(s2[tail + 1] == opt_seg(p2.rum));
    lemma_opt_seg_injective(p1.rum, p2.rum);
}

} // verus!
