//! Request parameter parsing: derives a normalized request descriptor from
//! the request path, the decoded query pairs, and the user-agent header.
//!
//! The parser never fails; unrecognized keys are ignored, feature names and
//! flags are lowercased, duplicate feature entries merge their flag sets,
//! and a callback that fails the JavaScript identifier grammar is dropped.

use vstd::prelude::*;

use crate::bytes::{
    eq_bytes, lower, seq_contains, spec_split, split_byte, to_lower,
};
use crate::lit::{
    always_f_b, always_f_v, callback_k_b, callback_k_v, excludes_k_b, excludes_k_v, features_k_b,
    features_k_v, gated_f_b, gated_f_v, ignore_v_b, ignore_v_v, min_js_suffix_b, min_js_suffix_v,
    rum_k_b, rum_k_v, strict_k_b, strict_k_v, ua_k_b, ua_k_v, unknown_k_b, unknown_k_v,
    version_k_b, version_k_v,
};

verus! {

/// What to do when the user agent cannot be identified: include every
/// polyfill that has any browser entry, or emit an empty bundle.
#[derive(Clone, Copy, PartialEq, Eq, Structural, Debug)]
pub enum UnknownPolicy {
    Polyfill,
    Ignore,
}

/// One requested feature with its recognized flags.
pub struct FeatureRequest {
    pub name: Vec<u8>,
    pub always: bool,
    pub gated: bool,
}

#[verifier::ext_equal]
pub ghost struct FeatureRequestV {
    pub name: Seq<u8>,
    pub always: bool,
    pub gated: bool,
}

impl View for FeatureRequest {
    type V = FeatureRequestV;

    open spec fn view(&self) -> FeatureRequestV {
        FeatureRequestV { name: self.name@, always: self.always, gated: self.gated }
    }
}

impl Clone for FeatureRequest {
    fn clone(&self) -> (r: Self)
        ensures
            r@ == self@,
    {
        FeatureRequest { name: self.name.clone(), always: self.always, gated: self.gated }
    }
}

/// A decoded `key=value` query pair.
pub struct QueryPair {
    pub key: Vec<u8>,
    pub value: Vec<u8>,
}

#[verifier::ext_equal]
pub ghost struct QueryPairV {
    pub key: Seq<u8>,
    pub value: Seq<u8>,
}

impl View for QueryPair {
    type V = QueryPairV;

    open spec fn view(&self) -> QueryPairV {
        QueryPairV { key: self.key@, value: self.value@ }
    }
}

/// The normalized request descriptor.
pub struct PolyfillParameters {
    pub version: Vec<u8>,
    pub ua_string: Vec<u8>,
    pub features: Vec<FeatureRequest>,
    pub excludes: Vec<Vec<u8>>,
    pub minify: bool,
    pub unknown: UnknownPolicy,
    pub strict: bool,
    pub callback: Option<Vec<u8>>,
    pub rum: Option<Vec<u8>>,
}

#[verifier::ext_equal]
pub ghost struct PolyfillParametersV {
    pub version: Seq<u8>,
    pub ua_string: Seq<u8>,
    pub features: Seq<FeatureRequestV>,
    pub excludes: Seq<Seq<u8>>,
    pub minify: bool,
    pub unknown: UnknownPolicy,
    pub strict: bool,
    pub callback: Option<Seq<u8>>,
    pub rum: Option<Seq<u8>>,
}

pub open spec fn feats_view(v: Seq<FeatureRequest>) -> Seq<FeatureRequestV> {
    Seq::new(v.len(), |i: int| v[i]@)
}

pub open spec fn opt_view(v: Option<Vec<u8>>) -> Option<Seq<u8>> {
    match v {
        Some(x) => Some(x@),
        None => None,
    }
}

impl View for PolyfillParameters {
    type V = PolyfillParametersV;

    open spec fn view(&self) -> PolyfillParametersV {
        PolyfillParametersV {
            version: self.version@,
            ua_string: self.ua_string@,
            features: feats_view(self.features@),
            excludes: self.excludes.deep_view(),
            minify: self.minify,
            unknown: self.unknown,
            strict: self.strict,
            callback: opt_view(self.callback),
            rum: opt_view(self.rum),
        }
    }
}

/// First byte of a JavaScript identifier: letter, `_` or `$`.
pub open spec fn is_ident_first(c: u8) -> bool {
    (0x41 <= c <= 0x5a) || (0x61 <= c <= 0x7a) || c == 0x5f || c == 0x24
}

/// Later byte of a callback identifier: also digits and `.`.
pub open spec fn is_ident_rest(c: u8) -> bool {
    is_ident_first(c) || (0x30 <= c <= 0x39) || c == 0x2e
}

/// The callback identifier grammar.
pub open spec fn is_ident(s: Seq<u8>) -> bool {
    s.len() > 0 && is_ident_first(s[0]) && forall|j: int|
        1 <= j < s.len() ==> is_ident_rest(#[trigger] s[j])
}

/// Decides the callback identifier grammar.
pub fn is_ident_bytes(v: &Vec<u8>) -> (r: bool)
    ensures
        r == is_ident(v@),
{
    if v.len() == 0 {
        return false;
    }
    let c0 = v[0];
    if !((0x41 <= c0 && c0 <= 0x5a) || (0x61 <= c0 && c0 <= 0x7a) || c0 == 0x5f || c0 == 0x24) {
        return false;
    }
    let mut i: usize = 1;
    while i < v.len()
        invariant
            1 <= i <= v.len(),
            is_ident_first(v@[0]),
            forall|j: int| 1 <= j < i ==> is_ident_rest(#[trigger] v@[j]),
        decreases v.len() - i,
    {
        let c = v[i];
        if !((0x41 <= c && c <= 0x5a) || (0x61 <= c && c <= 0x7a) || c == 0x5f || c == 0x24 || (0x30
            <= c && c <= 0x39) || c == 0x2e) {
            return false;
        }
        i = i + 1;
    }
    true
}

/// Whether `s` ends with `t`.
pub open spec fn ends_with(s: Seq<u8>, t: Seq<u8>) -> bool {
    s.len() >= t.len() && s.skip(s.len() - t.len()) =~= t
}

pub fn ends_with_bytes(s: &Vec<u8>, t: &Vec<u8>) -> (r: bool)
    ensures
        r == ends_with(s@, t@),
{
    if s.len() < t.len() {
        return false;
    }
    let off = s.len() - t.len();
    let mut i: usize = 0;
    while i < t.len()
        invariant
            off == s.len() - t.len(),
            t.len() <= s.len(),
            0 <= i <= t.len(),
            forall|j: int| 0 <= j < i ==> s@[off + j] == t@[j],
        decreases t.len() - i,
    {
        if s[off + i] != t[i] {
            assert(s@.skip(off as int)[i as int] != t@[i as int]);
            return false;
        }
        i = i + 1;
    }
    assert(s@.skip(off as int) =~= t@);
    true
}

/// Parses one `name|flag|...` feature entry; the name and flags are
/// lowercased, an empty name drops the entry.
pub open spec fn entry_of_item(item: Seq<u8>) -> Option<FeatureRequestV> {
    let parts = spec_split(item, 0x7c);
    let name = lower(parts[0]);
    if name.len() == 0 {
        None
    } else {
        Some(
            FeatureRequestV {
                name,
                always: exists|i: int|
                    1 <= i < parts.len() && lower(#[trigger] parts[i]) =~= always_f_b(),
                gated: exists|i: int|
                    1 <= i < parts.len() && lower(#[trigger] parts[i]) =~= gated_f_b(),
            },
        )
    }
}

pub fn entry_of_item_bytes(item: &Vec<u8>) -> (r: Option<FeatureRequest>)
    ensures
        opt_feat_view(r) == entry_of_item(item@),
{
    let parts = split_byte(item, 0x7c);
    proof {
        assert(spec_split(item@, 0x7c).len() >= 1);
        assert(parts.deep_view().len() == parts@.len());
        assert(parts.deep_view()[0] == parts@[0]@);
    }
    let name = to_lower(&parts[0]);
    if name.len() == 0 {
        return None;
    }
    let mut always = false;
    let mut gated = false;
    let ghost pv = parts.deep_view();
    let mut i: usize = 1;
    while i < parts.len()
        invariant
            pv == parts.deep_view(),
            pv.len() == parts@.len(),
            1 <= i <= parts.len(),
            always == exists|k: int| 1 <= k < i && lower(#[trigger] pv[k]) =~= always_f_b(),
            gated == exists|k: int| 1 <= k < i && lower(#[trigger] pv[k]) =~= gated_f_b(),
        decreases parts.len() - i,
    {
        assert(pv[i as int] == parts@[i as int]@);
        let f = to_lower(&parts[i]);
        if eq_bytes(&f, &always_f_v()) {
            always = true;
        }
        if eq_bytes(&f, &gated_f_v()) {
            gated = true;
        }
        i = i + 1;
    }
    Some(FeatureRequest { name, always, gated })
}

pub open spec fn opt_feat_view(r: Option<FeatureRequest>) -> Option<FeatureRequestV> {
    match r {
        Some(f) => Some(f@),
        None => None,
    }
}

/// First index in `s` of a feature named `n`, or `-1`.
pub open spec fn find_feature(s: Seq<FeatureRequestV>, n: Seq<u8>) -> int
    decreases s.len(),
{
    if s.len() == 0 {
        -1
    } else if s[0].name == n {
        0
    } else {
        let r = find_feature(s.drop_first(), n);
        if r < 0 {
            -1
        } else {
            r + 1
        }
    }
}

pub proof fn lemma_find_feature_spec(s: Seq<FeatureRequestV>, n: Seq<u8>)
    ensures
        find_feature(s, n) >= 0 ==> find_feature(s, n) < s.len() && s[find_feature(s, n)].name == n
            && forall|j: int| 0 <= j < find_feature(s, n) ==> (#[trigger] s[j]).name != n,
        find_feature(s, n) < 0 ==> forall|j: int| 0 <= j < s.len() ==> (#[trigger] s[j]).name != n,
    decreases s.len(),
{
    if s.len() == 0 {
    } else if s[0].name == n {
    } else {
        lemma_find_feature_spec(s.drop_first(), n);
        let r = find_feature(s.drop_first(), n);
        if r >= 0 {
            assert(s[r + 1] == s.drop_first()[r]);
            assert forall|j: int| 0 <= j < r + 1 implies (#[trigger] s[j]).name != n by {
                if j > 0 {
                    assert(s.drop_first()[j - 1].name != n);
                }
            }
        } else {
            assert forall|j: int| 0 <= j < s.len() implies (#[trigger] s[j]).name != n by {
                if j > 0 {
                    assert(s.drop_first()[j - 1].name != n);
                }
            }
        }
    }
}

/// Merges one entry into the feature list: a new name is appended, a
/// repeated name unions the flags.
pub open spec fn merge_feature(s: Seq<FeatureRequestV>, e: FeatureRequestV) -> Seq<
    FeatureRequestV,
> {
    let i = find_feature(s, e.name);
    if i < 0 || i >= s.len() {
        s.push(e)
    } else {
        s.update(
            i,
            FeatureRequestV {
                name: s[i].name,
                always: s[i].always || e.always,
                gated: s[i].gated || e.gated,
            },
        )
    }
}

/// Folds a comma-split feature list into the accumulator.
pub open spec fn merge_items(s: Seq<FeatureRequestV>, items: Seq<Seq<u8>>) -> Seq<FeatureRequestV>
    decreases items.len(),
{
    if items.len() == 0 {
        s
    } else {
        let s1 = match entry_of_item(items[0]) {
            Some(e) => merge_feature(s, e),
            None => s,
        };
        merge_items(s1, items.drop_first())
    }
}

/// Adds one lowercased exclude name, ignoring empties and repeats.
pub open spec fn add_exclude(s: Seq<Seq<u8>>, raw: Seq<u8>) -> Seq<Seq<u8>> {
    let x = lower(raw);
    if x.len() == 0 || seq_contains(s, x) {
        s
    } else {
        s.push(x)
    }
}

pub open spec fn merge_excludes(s: Seq<Seq<u8>>, items: Seq<Seq<u8>>) -> Seq<Seq<u8>>
    decreases items.len(),
{
    if items.len() == 0 {
        s
    } else {
        merge_excludes(add_exclude(s, items[0]), items.drop_first())
    }
}


/// The list holds a feature named `nm` whose flags dominate `alw`/`gat`.
pub open spec fn has_feature_at_least(
    s: Seq<FeatureRequestV>,
    nm: Seq<u8>,
    alw: bool,
    gat: bool,
) -> bool {
    exists|j: int|
        0 <= j < s.len() && (#[trigger] s[j]).name == nm && (alw ==> s[j].always) && (gat
            ==> s[j].gated)
}

/// Merging preserves dominance: whatever the list already holds, the
/// merged list holds at least as much.
pub proof fn lemma_merge_feature_monotone(
    s: Seq<FeatureRequestV>,
    e: FeatureRequestV,
    nm: Seq<u8>,
    alw: bool,
    gat: bool,
)
    requires
        has_feature_at_least(s, nm, alw, gat),
    ensures
        has_feature_at_least(merge_feature(s, e), nm, alw, gat),
{
    lemma_find_feature_spec(s, e.name);
    let m = merge_feature(s, e);
    let j = choose|j: int|
        0 <= j < s.len() && (#[trigger] s[j]).name == nm && (alw ==> s[j].always) && (gat
            ==> s[j].gated);
    let i = find_feature(s, e.name);
    if i < 0 || i >= s.len() {
        assert(m[j] == s[j]);
    } else if j == i {
        assert(m[j].name == s[j].name && (s[j].always ==> m[j].always) && (s[j].gated
            ==> m[j].gated));
    } else {
        assert(m[j] == s[j]);
    }
}

/// Merging adds the entry itself, with at least its own flags.
pub proof fn lemma_merge_feature_adds(s: Seq<FeatureRequestV>, e: FeatureRequestV)
    ensures
        has_feature_at_least(merge_feature(s, e), e.name, e.always, e.gated),
{
    lemma_find_feature_spec(s, e.name);
    let m = merge_feature(s, e);
    let i = find_feature(s, e.name);
    if i < 0 || i >= s.len() {
        assert(m[s.len() as int] == e);
    } else {
        assert(m[i].name == e.name && (e.always ==> m[i].always) && (e.gated ==> m[i].gated));
    }
}

/// Merging never invents an `always` flag.
pub proof fn lemma_merge_feature_no_always(s: Seq<FeatureRequestV>, e: FeatureRequestV)
    requires
        forall|j: int| 0 <= j < s.len() ==> !(#[trigger] s[j]).always,
        !e.always,
    ensures
        forall|j: int|
            0 <= j < merge_feature(s, e).len() ==> !(#[trigger] merge_feature(s, e)[j]).always,
{
    lemma_find_feature_spec(s, e.name);
    let m = merge_feature(s, e);
    let i = find_feature(s, e.name);
    assert forall|j: int| 0 <= j < m.len() implies !(#[trigger] m[j]).always by {
        if i < 0 || i >= s.len() {
            if j < s.len() {
                assert(m[j] == s[j]);
            } else {
                assert(m[j] == e);
            }
        } else if j == i {
        } else {
            assert(m[j] == s[j]);
        }
    }
}

/// Parser accumulator over the query pairs.
#[verifier::ext_equal]
pub ghost struct ParseAccV {
    pub version: Seq<u8>,
    pub ua_override: Option<Seq<u8>>,
    pub features: Seq<FeatureRequestV>,
    pub excludes: Seq<Seq<u8>>,
    pub unknown: UnknownPolicy,
    pub strict: bool,
    pub callback: Option<Seq<u8>>,
    pub rum: Option<Seq<u8>>,
}

pub open spec fn init_acc() -> ParseAccV {
    ParseAccV {
        version: Seq::empty(),
        ua_override: None,
        features: Seq::empty(),
        excludes: Seq::empty(),
        unknown: UnknownPolicy::Polyfill,
        strict: false,
        callback: None,
        rum: None,
    }
}

/// The effect of one query pair on the accumulator.
pub open spec fn apply_pair(acc: ParseAccV, p: QueryPairV) -> ParseAccV {
    if p.key == version_k_b() {
        ParseAccV { version: p.value, ..acc }
    } else if p.key == ua_k_b() {
        ParseAccV { ua_override: Some(p.value), ..acc }
    } else if p.key == features_k_b() {
        ParseAccV { features: merge_items(acc.features, spec_split(p.value, 0x2c)), ..acc }
    } else if p.key == excludes_k_b() {
        ParseAccV { excludes: merge_excludes(acc.excludes, spec_split(p.value, 0x2c)), ..acc }
    } else if p.key == callback_k_b() {
        if is_ident(p.value) {
            ParseAccV { callback: Some(p.value), ..acc }
        } else {
            acc
        }
    } else if p.key == unknown_k_b() {
        ParseAccV {
            unknown: if p.value == ignore_v_b() {
                UnknownPolicy::Ignore
            } else {
                UnknownPolicy::Polyfill
            },
            ..acc
        }
    } else if p.key == strict_k_b() {
        ParseAccV { strict: true, ..acc }
    } else if p.key == rum_k_b() {
        ParseAccV { rum: Some(p.value), ..acc }
    } else {
        acc
    }
}

pub open spec fn fold_pairs(acc: ParseAccV, pairs: Seq<QueryPairV>) -> ParseAccV
    decreases pairs.len(),
{
    if pairs.len() == 0 {
        acc
    } else {
        fold_pairs(apply_pair(acc, pairs[0]), pairs.drop_first())
    }
}

pub open spec fn pairs_view(pairs: Seq<QueryPair>) -> Seq<QueryPairV> {
    Seq::new(pairs.len(), |i: int| pairs[i]@)
}

/// What the parser produces, as a function of its inputs.
pub open spec fn spec_parameters(
    path: Seq<u8>,
    pairs: Seq<QueryPairV>,
    ua_header: Option<Seq<u8>>,
) -> PolyfillParametersV {
    let acc = fold_pairs(init_acc(), pairs);
    PolyfillParametersV {
        version: acc.version,
        ua_string: match acc.ua_override {
            Some(u) => u,
            None => match ua_header {
                Some(h) => h,
                None => Seq::empty(),
            },
        },
        features: acc.features,
        excludes: acc.excludes,
        minify: ends_with(path, min_js_suffix_b()),
        unknown: acc.unknown,
        strict: acc.strict,
        callback: acc.callback,
        rum: acc.rum,
    }
}

pub fn merge_feature_vec(s: Vec<FeatureRequest>, e: FeatureRequest) -> (r: Vec<FeatureRequest>)
    ensures
        feats_view(r@) == merge_feature(feats_view(s@), e@),
{
    let ghost sv = feats_view(s@);
    proof {
        lemma_find_feature_spec(sv, e@.name);
    }
    let mut t = s;
    let mut idx: Option<usize> = None;
    let mut i: usize = 0;
    while i < t.len() && idx.is_none()
        invariant
            sv == feats_view(t@),
            0 <= i <= t.len(),
            idx is None ==> forall|j: int| 0 <= j < i ==> (#[trigger] sv[j]).name != e@.name,
            idx is Some ==> {
                let k = idx->0 as int;
                0 <= k < t.len() && k == i && sv[k].name == e@.name && forall|j: int|
                    0 <= j < k ==> (#[trigger] sv[j]).name != e@.name
            },
        decreases t.len() - i + (if idx is Some { 0int } else { 1int }),
    {
        assert(sv[i as int] == t@[i as int]@);
        if eq_bytes(&t[i].name, &e.name) {
            idx = Some(i);
        } else {
            i = i + 1;
        }
    }
    match idx {
        Some(k) => {
            assert(find_feature(sv, e@.name) == k) by {
                lemma_find_feature_at(sv, e@.name, k as int);
            }
            let always = t[k].always || e.always;
            let gated = t[k].gated || e.gated;
            let name = t[k].name.clone();
            let merged = FeatureRequest { name, always, gated };
            t.set(k, merged);
            proof {
                assert(feats_view(t@) =~~= merge_feature(sv, e@));
            }
        },
        None => {
            assert(forall|j: int| 0 <= j < sv.len() ==> (#[trigger] sv[j]).name != e@.name);
            assert(find_feature(sv, e@.name) < 0 || find_feature(sv, e@.name) >= sv.len());
            t.push(e);
            proof {
                assert(feats_view(t@) =~~= merge_feature(sv, e@));
            }
        },
    }
    t
}

/// The converse of `lemma_find_feature_spec`: a first occurrence is what
/// `find_feature` returns.
pub proof fn lemma_find_feature_at(s: Seq<FeatureRequestV>, n: Seq<u8>, i: int)
    requires
        0 <= i < s.len(),
        s[i].name == n,
        forall|j: int| 0 <= j < i ==> (#[trigger] s[j]).name != n,
    ensures
        find_feature(s, n) == i,
    decreases i,
{
    if i > 0 {
        assert forall|j: int| 0 <= j < i - 1 implies (#[trigger] s.drop_first()[j]).name != n by {
            assert(s[j + 1].name != n);
        }
        assert(s.drop_first()[i - 1] == s[i]);
        lemma_find_feature_at(s.drop_first(), n, i - 1);
    }
}

fn merge_items_vec(s: Vec<FeatureRequest>, items: &Vec<Vec<u8>>) -> (r: Vec<FeatureRequest>)
    ensures
        feats_view(r@) == merge_items(feats_view(s@), items.deep_view()),
{
    let ghost items_v = items.deep_view();
    let ghost orig = feats_view(s@);
    let mut cur = s;
    let mut j: usize = 0;
    proof {
        assert(items_v.skip(0) =~= items_v);
    }
    while j < items.len()
        invariant
            items_v == items.deep_view(),
            items_v.len() == items@.len(),
            0 <= j <= items.len(),
            merge_items(orig, items_v) == merge_items(feats_view(cur@), items_v.skip(j as int)),
        decreases items.len() - j,
    {
        assert(items_v[j as int] == items@[j as int]@);
        let ghost pre = feats_view(cur@);
        let ghost tail = items_v.skip(j as int);
        assert(tail[0] == items_v[j as int]);
        assert(tail.drop_first() =~= items_v.skip(j as int + 1));
        match entry_of_item_bytes(&items[j]) {
            Some(e) => {
                cur = merge_feature_vec(cur, e);
            },
            None => {},
        }
        j = j + 1;
    }
    assert(items_v.skip(items_v.len() as int).len() == 0);
    cur
}

fn merge_excludes_vec(s: Vec<Vec<u8>>, items: &Vec<Vec<u8>>) -> (r: Vec<Vec<u8>>)
    ensures
        r.deep_view() == merge_excludes(s.deep_view(), items.deep_view()),
{
    let ghost items_v = items.deep_view();
    let ghost orig = s.deep_view();
    let mut cur = s;
    let mut j: usize = 0;
    proof {
        assert(items_v.skip(0) =~= items_v);
    }
    while j < items.len()
        invariant
            items_v == items.deep_view(),
            items_v.len() == items@.len(),
            0 <= j <= items.len(),
            merge_excludes(orig, items_v) == merge_excludes(
                cur.deep_view(),
                items_v.skip(j as int),
            ),
        decreases items.len() - j,
    {
        assert(items_v[j as int] == items@[j as int]@);
        let ghost tail = items_v.skip(j as int);
        assert(tail[0] == items_v[j as int]);
        assert(tail.drop_first() =~= items_v.skip(j as int + 1));
        let ghost pre = cur.deep_view();
        let x = to_lower(&items[j]);
        if x.len() > 0 && !crate::bytes::contains_bytes(&cur, &x) {
            let ghost xv = x@;
            cur.push(x);
            proof {
                assert(cur.deep_view() =~~= pre.push(xv));
                assert(add_exclude(pre, items_v[j as int]) == pre.push(xv));
            }
        } else {
            proof {
                assert(add_exclude(pre, items_v[j as int]) == pre);
            }
        }
        j = j + 1;
    }
    assert(items_v.skip(items_v.len() as int).len() == 0);
    cur
}

/// Builds the request descriptor from the request path, the decoded query
/// pairs, and the user-agent header. The parser never fails.
pub fn parameters_from_pairs(
    path: &Vec<u8>,
    pairs: &Vec<QueryPair>,
    ua_header: &Option<Vec<u8>>,
) -> (r: PolyfillParameters)
    ensures
        r@ == spec_parameters(path@, pairs_view(pairs@), opt_view(*ua_header)),
{
    let ghost pv = pairs_view(pairs@);
    let mut version: Vec<u8> = Vec::new();
    let mut ua_override: Option<Vec<u8>> = None;
    let mut features: Vec<FeatureRequest> = Vec::new();
    let mut excludes: Vec<Vec<u8>> = Vec::new();
    let mut unknown = UnknownPolicy::Polyfill;
    let mut strict = false;
    let mut callback: Option<Vec<u8>> = None;
    let mut rum: Option<Vec<u8>> = None;
    let ghost acc0 = init_acc();
    proof {
        assert(ParseAccV {
            version: version@,
            ua_override: opt_view(ua_override),
            features: feats_view(features@),
            excludes: excludes.deep_view(),
            unknown: unknown,
            strict: strict,
            callback: opt_view(callback),
            rum: opt_view(rum),
        } =~~= acc0);
        assert(pv.skip(0) =~= pv);
    }
    let mut i: usize = 0;
    while i < pairs.len()
        invariant
            pv == pairs_view(pairs@),
            pv.len() == pairs@.len(),
            0 <= i <= pairs.len(),
            fold_pairs(init_acc(), pv) == fold_pairs(
                ParseAccV {
                    version: version@,
                    ua_override: opt_view(ua_override),
                    features: feats_view(features@),
                    excludes: excludes.deep_view(),
                    unknown: unknown,
                    strict: strict,
                    callback: opt_view(callback),
                    rum: opt_view(rum),
                },
                pv.skip(i as int),
            ),
        decreases pairs.len() - i,
    {
        let ghost tail = pv.skip(i as int);
        proof {
            assert(tail[0] == pv[i as int]);
            assert(pv[i as int] == pairs@[i as int]@);
            assert(tail.drop_first() =~= pv.skip(i as int + 1));
        }
        let p = &pairs[i];
        if eq_bytes(&p.key, &version_k_v()) {
            version = p.value.clone();
        } else if eq_bytes(&p.key, &ua_k_v()) {
            ua_override = Some(p.value.clone());
        } else if eq_bytes(&p.key, &features_k_v()) {
            let items = split_byte(&p.value, 0x2c);
            features = merge_items_vec(features, &items);
        } else if eq_bytes(&p.key, &excludes_k_v()) {
            let items = split_byte(&p.value, 0x2c);
            excludes = merge_excludes_vec(excludes, &items);
        } else if eq_bytes(&p.key, &callback_k_v()) {
            if is_ident_bytes(&p.value) {
                callback = Some(p.value.clone());
            }
        } else if eq_bytes(&p.key, &unknown_k_v()) {
            if eq_bytes(&p.value, &ignore_v_v()) {
                unknown = UnknownPolicy::Ignore;
            } else {
                unknown = UnknownPolicy::Polyfill;
            }
        } else if eq_bytes(&p.key, &strict_k_v()) {
            strict = true;
        } else if eq_bytes(&p.key, &rum_k_v()) {
            rum = Some(p.value.clone());
        }
        i = i + 1;
    }
    proof {
        assert(pv.skip(pv.len() as int).len() == 0);
    }
    let ghost accf = ParseAccV {
        version: version@,
        ua_override: opt_view(ua_override),
        features: feats_view(features@),
        excludes: excludes.deep_view(),
        unknown: unknown,
        strict: strict,
        callback: opt_view(callback),
        rum: opt_view(rum),
    };
    proof {
        assert(fold_pairs(init_acc(), pv) == accf);
    }
    let minify = ends_with_bytes(path, &min_js_suffix_v());
    let ua_string: Vec<u8> = match ua_override {
        Some(u) => u,
        None => match ua_header {
            Some(h) => h.clone(),
            None => Vec::new(),
        },
    };
    let ghost sp = spec_parameters(path@, pv, opt_view(*ua_header));
    proof {
        assert(ua_string@ =~= sp.ua_string);
    }
    let r = PolyfillParameters {
        version,
        ua_string,
        features,
        excludes,
        minify,
        unknown,
        strict,
        callback,
        rum,
    };
    proof {
        assert(r@ =~= sp);
    }
    r
}

/// The callback in a parsed descriptor always meets the identifier
/// grammar: an invalid callback is dropped during parsing.
pub proof fn lemma_callback_valid(acc: ParseAccV, pairs: Seq<QueryPairV>)
    requires
        acc.callback is Some ==> is_ident(acc.callback->0),
    ensures
        fold_pairs(acc, pairs).callback is Some ==> is_ident(fold_pairs(acc, pairs).callback->0),
    decreases pairs.len(),
{
    if pairs.len() > 0 {
        lemma_callback_valid(apply_pair(acc, pairs[0]), pairs.drop_first());
    }
}

} // verus!
