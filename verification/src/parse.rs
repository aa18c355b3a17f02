//! The request's edge: percent-decoding and encoding of query strings
//! through the url crate, the descriptor built from raw request parts,
//! and the `/v2` to `/v3` rewrite.

use vstd::prelude::*;

use url::form_urlencoded;

use crate::bytes::eq_bytes;
use crate::lit::{
    ignore_v_b, ignore_v_v, unknown_k_b, unknown_k_v, v2_min_path_b, v2_min_path_v, v2_path_b,
    v2_path_v, v2_version_b, v2_version_v, v3_min_path_b, v3_min_path_v, v3_path_b, v3_path_v,
    version_k_b, version_k_v,
};
use crate::params::{
    pairs_view, spec_parameters, PolyfillParameters, QueryPair, QueryPairV,
};

verus! {

/// What url's `form_urlencoded::parse` decodes a query string into: a
/// pure function of the bytes alone.
pub uninterp spec fn form_decoded(q: Seq<u8>) -> Seq<QueryPairV>;

/// Relies on url's `form_urlencoded::parse`: percent-decodes the query
/// into key/value pairs, a pure function of the input bytes.
#[verifier::external_body]
fn parse_query(q: &Vec<u8>) -> (r: Vec<QueryPair>)
    ensures
        pairs_view(r@) == form_decoded(q@),
{
    form_urlencoded::parse(q.as_slice())
        .into_owned()
        .map(
            |(k, v)| QueryPair { key: k.into_bytes(), value: v.into_bytes() },
        )
        .collect()
}

/// What url's `form_urlencoded::Serializer` produces for a pair list: a
/// pure function of the pairs alone.
pub uninterp spec fn form_encoded(pairs: Seq<QueryPairV>) -> Seq<u8>;

/// Relies on url's `form_urlencoded::Serializer`: percent-encodes the
/// pairs in order, a pure function of the pairs.
#[verifier::external_body]
fn encode_query(pairs: &Vec<QueryPair>) -> (r: Vec<u8>)
    ensures
        r@ == form_encoded(pairs_view(pairs@)),
{
    let mut ser = form_urlencoded::Serializer::new(String::new());
    for p in pairs.iter() {
        ser.append_pair(
            &String::from_utf8_lossy(&p.key),
            &String::from_utf8_lossy(&p.value),
        );
    }
    ser.finish().into_bytes()
}

/// The raw request, as the HTTP layer hands it over.
pub struct RequestParts {
    pub path: Vec<u8>,
    pub query: Option<Vec<u8>>,
    pub user_agent: Option<Vec<u8>>,
}

/// The decoded pairs of an optional query string.
pub open spec fn spec_query_pairs(q: Option<Seq<u8>>) -> Seq<QueryPairV> {
    match q {
        Some(qs) => form_decoded(qs),
        None => Seq::empty(),
    }
}

/// Builds the request descriptor from the raw parts: the query is
/// percent-decoded through the url crate, then parsed; the parser itself
/// never fails.
pub fn get_polyfill_parameters(parts: &RequestParts) -> (r: PolyfillParameters)
    ensures
        r@ == spec_parameters(
            parts.path@,
            spec_query_pairs(
                match parts.query {
                    Some(ref q) => Some(q@),
                    None => None,
                },
            ),
            match parts.user_agent {
                Some(ref u) => Some(u@),
                None => None,
            },
        ),
{
    let pairs: Vec<QueryPair> = match parts.query {
        Some(ref q) => parse_query(q),
        None => Vec::new(),
    };
    proof {
        match parts.query {
            Some(ref q) => {},
            None => {
                assert(pairs_view(pairs@) =~= Seq::<QueryPairV>::empty());
            },
        }
    }
    crate::params::parameters_from_pairs(&parts.path, &pairs, &parts.user_agent)
}

/// Whether any pair sets the `unknown` policy.
pub open spec fn spec_has_unknown(pairs: Seq<QueryPairV>) -> bool {
    exists|i: int| 0 <= i < pairs.len() && (#[trigger] pairs[i]).key =~= unknown_k_b()
}

/// The rewritten pair list of a `/v2` request: all pairs kept in order,
/// then `version=3.25.1`, then `unknown=ignore` exactly when the client
/// did not set `unknown`.
pub open spec fn spec_rewrite_pairs(pairs: Seq<QueryPairV>) -> Seq<QueryPairV> {
    let base = pairs + seq![QueryPairV { key: version_k_b(), value: v2_version_b() }];
    if spec_has_unknown(pairs) {
        base
    } else {
        base + seq![QueryPairV { key: unknown_k_b(), value: ignore_v_b() }]
    }
}

/// Applies the `/v2` rewrite to a decoded pair list.
pub fn rewrite_v2_pairs(pairs: Vec<QueryPair>) -> (r: Vec<QueryPair>)
    ensures
        pairs_view(r@) == spec_rewrite_pairs(pairs_view(pairs@)),
{
    let ghost pv = pairs_view(pairs@);
    let mut has_unknown = false;
    let mut i: usize = 0;
    while i < pairs.len()
        invariant
            pv == pairs_view(pairs@),
            pv.len() == pairs@.len(),
            0 <= i <= pairs.len(),
            has_unknown == exists|j: int|
                0 <= j < i && (#[trigger] pv[j]).key =~= unknown_k_b(),
        decreases pairs.len() - i,
    {
        proof {
            assert(pv[i as int] == pairs@[i as int]@);
        }
        if eq_bytes(&pairs[i].key, &unknown_k_v()) {
            has_unknown = true;
        }
        i = i + 1;
    }
    let mut out = pairs;
    let ghost base = pv;
    out.push(QueryPair { key: version_k_v(), value: v2_version_v() });
    proof {
        assert(pairs_view(out@) =~~= base + seq![
            QueryPairV { key: version_k_b(), value: v2_version_b() },
        ]);
    }
    if !has_unknown {
        let ghost mid = pairs_view(out@);
        out.push(QueryPair { key: unknown_k_v(), value: ignore_v_v() });
        proof {
            assert(pairs_view(out@) =~~= mid + seq![
                QueryPairV { key: unknown_k_b(), value: ignore_v_b() },
            ]);
        }
    }
    out
}

/// The rewritten path of a `/v2` polyfill route, `None` off that route.
pub open spec fn spec_rewrite_path(path: Seq<u8>) -> Option<Seq<u8>> {
    if path =~= v2_path_b() {
        Some(v3_path_b())
    } else if path =~= v2_min_path_b() {
        Some(v3_min_path_b())
    } else {
        None
    }
}

/// The effective request of a `/v2` polyfill URL: the `/v3` path and the
/// re-encoded query with `version=3.25.1` forced and `unknown=ignore`
/// added exactly when the client did not set it; all other parameters are
/// preserved in order. Any other path is left alone.
pub fn rewrite_v2_uri(path: &Vec<u8>, query: &Option<Vec<u8>>) -> (r: Option<(Vec<u8>, Vec<u8>)>)
    ensures
        r is Some <==> spec_rewrite_path(path@) is Some,
        match r {
            Some(pq) => pq.0@ == spec_rewrite_path(path@)->0 && pq.1@ == form_encoded(
                spec_rewrite_pairs(
                    spec_query_pairs(
                        match query {
                            Some(q) => Some(q@),
                            None => None,
                        },
                    ),
                ),
            ),
            None => true,
        },
{
    let new_path: Vec<u8>;
    if eq_bytes(path, &v2_path_v()) {
        new_path = v3_path_v();
    } else if eq_bytes(path, &v2_min_path_v()) {
        new_path = v3_min_path_v();
    } else {
        return None;
    }
    let pairs: Vec<QueryPair> = match query {
        Some(q) => parse_query(q),
        None => Vec::new(),
    };
    proof {
        match query {
            Some(q) => {},
            None => {
                assert(pairs_view(pairs@) =~= Seq::<QueryPairV>::empty());
            },
        }
    }
    let rewritten = rewrite_v2_pairs(pairs);
    let encoded = encode_query(&rewritten);
    Some((new_path, encoded))
}

} // verus!
