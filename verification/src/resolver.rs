//! Feature resolution: alias expansion, exclude filtering, UA gating,
//! dependency closure, and the deterministic ordering of the result.
//!
//! Catalogue names are matched case-insensitively (requested names are
//! lowercased by the parser; catalogue names are lowercased here).
//! Excludes are absolute: an excluded name is never installed, neither
//! requested nor pulled in as a dependency. A dependency that the
//! catalogue lacks, or that the user agent gates out, is dropped and
//! recorded as a warning while its dependent stays.

use vstd::prelude::*;

use crate::bytes::{eq_bytes, lex_lt, lower, seq_contains, to_lower};
use crate::get_polyfill_string::PolyfillEntry;
use crate::params::{FeatureRequest, PolyfillParameters, UnknownPolicy};
use crate::semver::range_matches;
use crate::toposort::{toposort, strictly_sorted, Edge};
use crate::ua::{family_name_bytes, Family, UserAgent};

verus! {

/// One browser gate: a family name and a range expression over versions.
pub struct BrowserRange {
    pub family: Vec<u8>,
    pub range: Vec<u8>,
}

/// A catalogue feature's metadata and sources.
pub struct FeatureMeta {
    pub name: Vec<u8>,
    pub aliases: Vec<Vec<u8>>,
    pub dependencies: Vec<Vec<u8>>,
    pub browsers: Vec<BrowserRange>,
    pub detect_source: Option<Vec<u8>>,
    pub install_raw: Vec<u8>,
    pub install_min: Option<Vec<u8>>,
    pub license: Vec<u8>,
    pub repo: Vec<u8>,
    pub spec_url: Vec<u8>,
}

/// A versioned catalogue: one `FeatureMeta` per feature directory.
pub struct Catalogue {
    pub features: Vec<FeatureMeta>,
}

/// Resolution failures that surface to the HTTP layer.
pub enum ResolveError {
    /// `strict=true` and a requested name is not in the catalogue; the
    /// name is carried for the 400 body.
    UnknownFeature(Vec<u8>),
    /// Alias expansion did not reach a fixpoint within the catalogue's
    /// size: some alias names itself, directly or transitively.
    AliasCycle(Vec<u8>),
    /// The dependency relation has a cycle among these nodes.
    CycleDetected(Vec<Vec<u8>>),
}

/// The resolver's output: ordered entries and the warnings gathered on
/// the way.
pub struct Resolution {
    pub entries: Vec<PolyfillEntry>,
    pub warnings: Vec<Vec<u8>>,
}

/// Some requested feature name has no catalogue entry.
pub open spec fn spec_missing_request(cat: Catalogue, params: PolyfillParameters) -> bool {
    exists|i: int|
        0 <= i < params.features@.len() && spec_find_meta(
            cat.features@,
            (#[trigger] params.features@[i])@.name,
        ) < 0
}

/// The names of the resolved entries, in order.
pub open spec fn entry_names(entries: Seq<PolyfillEntry>) -> Seq<Seq<u8>> {
    Seq::new(entries.len(), |i: int| entries[i].name@)
}

/// Every dependency of every entry is either resolved among the entries,
/// or recorded as a warning, or excluded by the request.
pub open spec fn closure_covered(
    entries: Seq<PolyfillEntry>,
    warnings: Seq<Seq<u8>>,
    excludes: Seq<Seq<u8>>,
) -> bool {
    forall|i: int, j: int|
        0 <= i < entries.len() && 0 <= j < entries[i].deps@.len() ==> seq_contains(
            entry_names(entries),
            (#[trigger] entries[i].deps@[j])@,
        ) || seq_contains(warnings, entries[i].deps@[j]@) || seq_contains(
            excludes,
            entries[i].deps@[j]@,
        )
}

/// First catalogue index whose lowercased name is `name`, or `-1`.
pub open spec fn spec_find_meta(feats: Seq<FeatureMeta>, name: Seq<u8>) -> int
    decreases feats.len(),
{
    if feats.len() == 0 {
        -1
    } else if lower(feats[0].name@) == name {
        0
    } else {
        let r = spec_find_meta(feats.drop_first(), name);
        if r < 0 {
            -1
        } else {
            r + 1
        }
    }
}

pub proof fn lemma_spec_find_meta(feats: Seq<FeatureMeta>, name: Seq<u8>)
    ensures
        spec_find_meta(feats, name) >= 0 ==> spec_find_meta(feats, name) < feats.len() && lower(
            feats[spec_find_meta(feats, name)].name@,
        ) == name && forall|j: int|
            0 <= j < spec_find_meta(feats, name) ==> lower((#[trigger] feats[j]).name@) != name,
        spec_find_meta(feats, name) < 0 ==> forall|j: int|
            0 <= j < feats.len() ==> lower((#[trigger] feats[j]).name@) != name,
    decreases feats.len(),
{
    if feats.len() == 0 {
    } else if lower(feats[0].name@) == name {
    } else {
        lemma_spec_find_meta(feats.drop_first(), name);
        let r = spec_find_meta(feats.drop_first(), name);
        if r >= 0 {
            assert(feats[r + 1] == feats.drop_first()[r]);
            assert forall|j: int| 0 <= j < r + 1 implies lower((#[trigger] feats[j]).name@)
                != name by {
                if j > 0 {
                    assert(lower(feats.drop_first()[j - 1].name@) != name);
                }
            }
        } else {
            assert forall|j: int| 0 <= j < feats.len() implies lower((#[trigger] feats[j]).name@)
                != name by {
                if j > 0 {
                    assert(lower(feats.drop_first()[j - 1].name@) != name);
                }
            }
        }
    }
}

/// Finds the catalogue entry whose lowercased name is `name`.
fn find_meta(cat: &Catalogue, name: &Vec<u8>) -> (r: Option<usize>)
    ensures
        match r {
            Some(i) => spec_find_meta(cat.features@, name@) == i && i < cat.features@.len()
                && lower(cat.features@[i as int].name@) == name@,
            None => spec_find_meta(cat.features@, name@) < 0 && forall|j: int|
                0 <= j < cat.features@.len() ==> lower((#[trigger] cat.features@[j]).name@)
                    != name@,
        },
{
    proof {
        lemma_spec_find_meta(cat.features@, name@);
    }
    let mut i: usize = 0;
    while i < cat.features.len()
        invariant
            0 <= i <= cat.features@.len(),
            forall|j: int|
                0 <= j < i ==> lower((#[trigger] cat.features@[j]).name@) != name@,
            spec_find_meta(cat.features@, name@) >= 0 ==> spec_find_meta(cat.features@, name@)
                < cat.features@.len() && lower(
                cat.features@[spec_find_meta(cat.features@, name@)].name@,
            ) == name@ && forall|j: int|
                0 <= j < spec_find_meta(cat.features@, name@) ==> lower(
                    (#[trigger] cat.features@[j]).name@,
                ) != name@,
            spec_find_meta(cat.features@, name@) < 0 ==> forall|j: int|
                0 <= j < cat.features@.len() ==> lower((#[trigger] cat.features@[j]).name@)
                    != name@,
        decreases cat.features.len() - i,
    {
        let lowered = to_lower(&cat.features[i].name);
        if eq_bytes(&lowered, name) {
            return Some(i);
        }
        i = i + 1;
    }
    None
}

/// First browsers entry for this family, or `-1`.
pub open spec fn spec_browser_entry(bs: Seq<BrowserRange>, fam: Seq<u8>) -> int
    decreases bs.len(),
{
    if bs.len() == 0 {
        -1
    } else if bs[0].family@ == fam {
        0
    } else {
        let r = spec_browser_entry(bs.drop_first(), fam);
        if r < 0 {
            -1
        } else {
            r + 1
        }
    }
}

pub proof fn lemma_spec_browser_entry(bs: Seq<BrowserRange>, fam: Seq<u8>)
    ensures
        spec_browser_entry(bs, fam) >= 0 ==> spec_browser_entry(bs, fam) < bs.len() && bs[
            spec_browser_entry(bs, fam)
        ].family@ == fam && forall|j: int|
            0 <= j < spec_browser_entry(bs, fam) ==> (#[trigger] bs[j]).family@ != fam,
        spec_browser_entry(bs, fam) < 0 ==> forall|j: int|
            0 <= j < bs.len() ==> (#[trigger] bs[j]).family@ != fam,
    decreases bs.len(),
{
    if bs.len() == 0 {
    } else if bs[0].family@ == fam {
    } else {
        lemma_spec_browser_entry(bs.drop_first(), fam);
        let r = spec_browser_entry(bs.drop_first(), fam);
        if r >= 0 {
            assert(bs[r + 1] == bs.drop_first()[r]);
            assert forall|j: int| 0 <= j < r + 1 implies (#[trigger] bs[j]).family@ != fam by {
                if j > 0 {
                    assert(bs.drop_first()[j - 1].family@ != fam);
                }
            }
        } else {
            assert forall|j: int| 0 <= j < bs.len() implies (#[trigger] bs[j]).family@ != fam by {
                if j > 0 {
                    assert(bs.drop_first()[j - 1].family@ != fam);
                }
            }
        }
    }
}

/// The user-agent gate of a feature: an unknown UA admits every feature
/// that has any browser entry under the polyfill policy; otherwise the
/// feature's range for the UA's family must exist and match.
pub open spec fn spec_ua_passes(meta: FeatureMeta, ua: UserAgent, unknown: UnknownPolicy) -> bool {
    if ua.family is Unknown {
        unknown is Polyfill && meta.browsers@.len() > 0
    } else {
        let i = spec_browser_entry(meta.browsers@, crate::ua::family_name(ua.family));
        if i < 0 {
            false
        } else {
            crate::semver::spec_range_matches(meta.browsers@[i].range@, ua.version)
        }
    }
}

/// Whether the user agent passes a feature's browser gates.
fn ua_passes(meta: &FeatureMeta, ua: UserAgent, unknown: UnknownPolicy) -> (r: bool)
    ensures
        r == spec_ua_passes(*meta, ua, unknown),
{
    proof {
        lemma_spec_browser_entry(meta.browsers@, crate::ua::family_name(ua.family));
    }
    if matches!(ua.family, Family::Unknown) {
        return matches!(unknown, UnknownPolicy::Polyfill) && meta.browsers.len() > 0;
    }
    let fam = family_name_bytes(ua.family);
    let ghost target = spec_browser_entry(meta.browsers@, crate::ua::family_name(ua.family));
    let mut i: usize = 0;
    while i < meta.browsers.len()
        invariant
            !(ua.family is Unknown),
            fam@ == crate::ua::family_name(ua.family),
            target == spec_browser_entry(meta.browsers@, crate::ua::family_name(ua.family)),
            0 <= i <= meta.browsers@.len(),
            forall|j: int| 0 <= j < i ==> (#[trigger] meta.browsers@[j]).family@ != fam@,
            target >= 0 ==> target < meta.browsers@.len() && meta.browsers@[target].family@ == fam@
                && forall|j: int|
                0 <= j < target ==> (#[trigger] meta.browsers@[j]).family@ != fam@,
            target < 0 ==> forall|j: int|
                0 <= j < meta.browsers@.len() ==> (#[trigger] meta.browsers@[j]).family@ != fam@,
        decreases meta.browsers@.len() - i,
    {
        if eq_bytes(&meta.browsers[i].family, &fam) {
            assert(target == i);
            return range_matches(&meta.browsers[i].range, ua.version);
        }
        i = i + 1;
    }
    false
}

/// A name that alias expansion keeps as itself: absent from the
/// catalogue, or naming a concrete (non-alias) entry.
pub open spec fn spec_keepable(cat: Catalogue, nm: Seq<u8>) -> bool {
    spec_find_meta(cat.features@, nm) < 0 || cat.features@[spec_find_meta(cat.features@, nm)].aliases@.len() == 0
}

/// Expands aliases to a fixpoint. Every round replaces each alias entry
/// by its expansion, keeping the originating flags; more rounds than the
/// catalogue has entries means an alias reaches itself.
///
/// On success every keepable requested name survives with at least its
/// requested flags, and no `always` flag appears that was not requested.
fn expand_aliases(cat: &Catalogue, requested: &Vec<FeatureRequest>) -> (r: Result<
    Vec<FeatureRequest>,
    ResolveError,
>)
    ensures
        match r {
            Ok(out) => {
                &&& forall|i: int|
                    0 <= i < requested@.len() && spec_keepable(
                        *cat,
                        (#[trigger] requested@[i])@.name,
                    ) ==> crate::params::has_feature_at_least(
                        crate::params::feats_view(out@),
                        requested@[i]@.name,
                        requested@[i]@.always,
                        requested@[i]@.gated,
                    )
                &&& (forall|i: int|
                    0 <= i < requested@.len() ==> !(#[trigger] requested@[i])@.always)
                    ==> forall|j: int| 0 <= j < out@.len() ==> !(#[trigger] out@[j])@.always
            },
            Err(e) => e is AliasCycle,
        },
{
    let ghost reqv = crate::params::feats_view(requested@);
    let mut work: Vec<FeatureRequest> = Vec::new();
    let mut c: usize = 0;
    proof {
        assert(crate::params::feats_view(work@) =~= reqv.take(0));
    }
    while c < requested.len()
        invariant
            reqv == crate::params::feats_view(requested@),
            reqv.len() == requested@.len(),
            0 <= c <= requested.len(),
            crate::params::feats_view(work@) =~= reqv.take(c as int),
        decreases requested.len() - c,
    {
        let ghost pre = crate::params::feats_view(work@);
        proof {
            assert(reqv[c as int] == requested@[c as int]@);
        }
        work.push(requested[c].clone());
        proof {
            assert(crate::params::feats_view(work@) =~~= pre.push(reqv[c as int]));
            assert(pre.push(reqv[c as int]) =~= reqv.take(c as int + 1));
        }
        c = c + 1;
    }
    proof {
        assert(reqv.take(reqv.len() as int) =~= reqv);
        assert(crate::params::feats_view(work@) == reqv);
        assert(forall|j: int|
            0 <= j < work@.len() ==> (#[trigger] work@[j])@ == crate::params::feats_view(
                work@,
            )[j]);
        assert(forall|i: int| 0 <= i < reqv.len() ==> reqv[i] == (#[trigger] requested@[i])@);
    }
    let mut rounds: usize = 0;
    let limit = cat.features.len();
    loop
        invariant
            rounds <= limit,
            limit == cat.features@.len(),
            reqv == crate::params::feats_view(requested@),
            reqv.len() == requested@.len(),
            forall|i: int|
                0 <= i < reqv.len() && spec_keepable(*cat, (#[trigger] reqv[i]).name)
                    ==> crate::params::has_feature_at_least(
                    crate::params::feats_view(work@),
                    reqv[i].name,
                    reqv[i].always,
                    reqv[i].gated,
                ),
            (forall|i: int| 0 <= i < reqv.len() ==> !(#[trigger] reqv[i]).always) ==> forall|
                j: int,
            | 0 <= j < work@.len() ==> !(#[trigger] work@[j])@.always,
        decreases limit - rounds,
    {
        let ghost wv = crate::params::feats_view(work@);
        proof {
            assert(forall|j: int| 0 <= j < wv.len() ==> wv[j] == (#[trigger] work@[j])@);
            assert(forall|i: int| 0 <= i < reqv.len() ==> reqv[i] == (#[trigger] requested@[i])@);
            if forall|i: int| 0 <= i < reqv.len() ==> !(#[trigger] reqv[i]).always {
                assert(forall|j: int| 0 <= j < wv.len() ==> !(#[trigger] wv[j]).always);
            }
        }
        let mut next: Vec<FeatureRequest> = Vec::new();
        let mut any_alias = false;
        let mut i: usize = 0;
        while i < work.len()
            invariant
                wv == crate::params::feats_view(work@),
                wv.len() == work@.len(),
                limit == cat.features@.len(),
                0 <= i <= work@.len(),
                forall|i2: int|
                    0 <= i2 < i && spec_keepable(*cat, (#[trigger] wv[i2]).name)
                        ==> crate::params::has_feature_at_least(
                        crate::params::feats_view(next@),
                        wv[i2].name,
                        wv[i2].always,
                        wv[i2].gated,
                    ),
                (forall|j: int| 0 <= j < wv.len() ==> !(#[trigger] wv[j]).always) ==> forall|
                    j: int,
                | 0 <= j < next@.len() ==> !(#[trigger] next@[j])@.always,
            decreases work.len() - i,
        {
            proof {
                assert(wv[i as int] == work@[i as int]@);
            }
            let f = &work[i];
            match find_meta(cat, &f.name) {
                Some(m) => {
                    if cat.features[m].aliases.len() > 0 {
                        any_alias = true;
                        proof {
                            assert(!spec_keepable(*cat, wv[i as int].name));
                        }
                        let fa = f.always;
                        let fg = f.gated;
                        let mut k: usize = 0;
                        while k < cat.features[m].aliases.len()
                            invariant
                                wv == crate::params::feats_view(work@),
                                wv.len() == work@.len(),
                                i < wv.len(),
                                m < cat.features@.len(),
                                fa == wv[i as int].always,
                                fg == wv[i as int].gated,
                                0 <= k <= cat.features@[m as int].aliases@.len(),
                                forall|i2: int|
                                    0 <= i2 < i && spec_keepable(
                                        *cat,
                                        (#[trigger] wv[i2]).name,
                                    ) ==> crate::params::has_feature_at_least(
                                        crate::params::feats_view(next@),
                                        wv[i2].name,
                                        wv[i2].always,
                                        wv[i2].gated,
                                    ),
                                (forall|j: int|
                                    0 <= j < wv.len() ==> !(#[trigger] wv[j]).always) ==> forall|
                                    j: int,
                                | 0 <= j < next@.len() ==> !(#[trigger] next@[j])@.always,
                            decreases cat.features@[m as int].aliases@.len() - k,
                        {
                            let target = to_lower(&cat.features[m].aliases[k]);
                            let e = FeatureRequest { name: target, always: fa, gated: fg };
                            let ghost ev = e@;
                            let ghost prev = crate::params::feats_view(next@);
                            next = crate::params::merge_feature_vec(next, e);
                            proof {
                                lemma_round_step(prev, ev, wv, i as int, *cat);
                                assert(forall|j: int|
                                    0 <= j < next@.len() ==> (#[trigger] next@[j])@
                                        == crate::params::feats_view(next@)[j]);
                            }
                            k = k + 1;
                        }
                    } else {
                        let e = FeatureRequest {
                            name: f.name.clone(),
                            always: f.always,
                            gated: f.gated,
                        };
                        let ghost ev = e@;
                        let ghost prev = crate::params::feats_view(next@);
                        next = crate::params::merge_feature_vec(next, e);
                        proof {
                            lemma_round_step(prev, ev, wv, i as int, *cat);
                            crate::params::lemma_merge_feature_adds(prev, ev);
                            assert(ev.name == wv[i as int].name && ev.always == wv[
                                i as int
                            ].always && ev.gated == wv[i as int].gated);
                            assert(forall|j: int|
                                0 <= j < next@.len() ==> (#[trigger] next@[j])@
                                    == crate::params::feats_view(next@)[j]);
                        }
                    }
                },
                None => {
                    let e = FeatureRequest {
                        name: f.name.clone(),
                        always: f.always,
                        gated: f.gated,
                    };
                    let ghost ev = e@;
                    let ghost prev = crate::params::feats_view(next@);
                    next = crate::params::merge_feature_vec(next, e);
                    proof {
                        lemma_round_step(prev, ev, wv, i as int, *cat);
                        crate::params::lemma_merge_feature_adds(prev, ev);
                        assert(ev.name == wv[i as int].name && ev.always == wv[i as int].always
                            && ev.gated == wv[i as int].gated);
                        assert(forall|j: int|
                            0 <= j < next@.len() ==> (#[trigger] next@[j])@
                                == crate::params::feats_view(next@)[j]);
                    }
                },
            }
            i = i + 1;
        }
        proof {
            let nv = crate::params::feats_view(next@);
            assert(forall|j: int| 0 <= j < nv.len() ==> nv[j] == (#[trigger] next@[j])@);
            assert(forall|i: int| 0 <= i < reqv.len() ==> reqv[i] == (#[trigger] requested@[i])@);
            if forall|i: int| 0 <= i < reqv.len() ==> !(#[trigger] reqv[i]).always {
                assert(forall|j: int| 0 <= j < wv.len() ==> !(#[trigger] wv[j]).always) by {
                    assert(forall|j: int| 0 <= j < wv.len() ==> wv[j] == (#[trigger] work@[j])@);
                }
                assert(forall|j: int| 0 <= j < next@.len() ==> !(#[trigger] next@[j])@.always);
            }
            assert forall|i2: int|
                0 <= i2 < reqv.len() && spec_keepable(*cat, (#[trigger] reqv[i2]).name)
                    implies crate::params::has_feature_at_least(
                nv,
                reqv[i2].name,
                reqv[i2].always,
                reqv[i2].gated,
            ) by {
                let j = choose|j: int|
                    0 <= j < wv.len() && (#[trigger] wv[j]).name == reqv[i2].name && (reqv[
                        i2
                    ].always ==> wv[j].always) && (reqv[i2].gated ==> wv[j].gated);
                assert(spec_keepable(*cat, wv[j].name));
                assert(crate::params::has_feature_at_least(
                    nv,
                    wv[j].name,
                    wv[j].always,
                    wv[j].gated,
                ));
                let j2 = choose|j2: int|
                    0 <= j2 < nv.len() && (#[trigger] nv[j2]).name == wv[j].name && (wv[j].always
                        ==> nv[j2].always) && (wv[j].gated ==> nv[j2].gated);
                assert(0 <= j2 < nv.len() && nv[j2].name == reqv[i2].name && (reqv[i2].always
                    ==> nv[j2].always) && (reqv[i2].gated ==> nv[j2].gated));
            }
        }
        if !any_alias {
            return Ok(next);
        }
        if rounds >= limit {
            let culprit: Vec<u8> = if next.len() > 0 {
                next[0].name.clone()
            } else {
                Vec::new()
            };
            return Err(ResolveError::AliasCycle(culprit));
        }
        work = next;
        rounds = rounds + 1;
    }
}

/// One merge during an expansion round keeps every feature already
/// carried over, and carries no `always` flag the round's input lacked.
proof fn lemma_round_step(
    prev: Seq<crate::params::FeatureRequestV>,
    ev: crate::params::FeatureRequestV,
    wv: Seq<crate::params::FeatureRequestV>,
    i: int,
    cat: Catalogue,
)
    requires
        0 <= i < wv.len(),
        ev.always == wv[i].always,
        ev.gated == wv[i].gated,
        forall|i2: int|
            0 <= i2 < i && spec_keepable(cat, (#[trigger] wv[i2]).name)
                ==> crate::params::has_feature_at_least(
                prev,
                wv[i2].name,
                wv[i2].always,
                wv[i2].gated,
            ),
        (forall|j: int| 0 <= j < wv.len() ==> !(#[trigger] wv[j]).always) ==> forall|j: int|
            0 <= j < prev.len() ==> !(#[trigger] prev[j]).always,
    ensures
        forall|i2: int|
            0 <= i2 < i && spec_keepable(cat, (#[trigger] wv[i2]).name)
                ==> crate::params::has_feature_at_least(
                crate::params::merge_feature(prev, ev),
                wv[i2].name,
                wv[i2].always,
                wv[i2].gated,
            ),
        (forall|j: int| 0 <= j < wv.len() ==> !(#[trigger] wv[j]).always) ==> forall|j: int|
            0 <= j < crate::params::merge_feature(prev, ev).len() ==> !(
            #[trigger] crate::params::merge_feature(prev, ev)[j]).always,
{
    assert forall|i2: int|
        0 <= i2 < i && spec_keepable(cat, (#[trigger] wv[i2]).name)
            implies crate::params::has_feature_at_least(
        crate::params::merge_feature(prev, ev),
        wv[i2].name,
        wv[i2].always,
        wv[i2].gated,
    ) by {
        crate::params::lemma_merge_feature_monotone(
            prev,
            ev,
            wv[i2].name,
            wv[i2].always,
            wv[i2].gated,
        );
    }
    if forall|j: int| 0 <= j < wv.len() ==> !(#[trigger] wv[j]).always {
        assert(!ev.always);
        crate::params::lemma_merge_feature_no_always(prev, ev);
    }
}

/// How many entries of `included` are set.
spec fn count_true(s: Seq<bool>) -> int
    decreases s.len(),
{
    if s.len() == 0 {
        0int
    } else {
        count_true(s.drop_last()) + (if s.last() {
            1int
        } else {
            0int
        })
    }
}

proof fn lemma_count_true_update(s: Seq<bool>, i: int)
    requires
        0 <= i < s.len(),
        !s[i],
    ensures
        count_true(s.update(i, true)) == count_true(s) + 1,
    decreases s.len(),
{
    if i == s.len() - 1 {
        assert(s.update(i, true).drop_last() =~= s.drop_last());
    } else {
        assert(s.update(i, true).drop_last() =~= s.drop_last().update(i, true));
        assert(s.update(i, true).last() == s.last());
        lemma_count_true_update(s.drop_last(), i);
    }
}

proof fn lemma_count_true_bound(s: Seq<bool>)
    ensures
        0 <= count_true(s) <= s.len(),
    decreases s.len(),
{
    if s.len() > 0 {
        lemma_count_true_bound(s.drop_last());
    }
}


/// A requested feature that must be resolved: not excluded, present in
/// the catalogue as a concrete (non-alias) entry, and admitted by its
/// user-agent gate or the `always` flag.
pub open spec fn spec_direct_hit(
    cat: Catalogue,
    params: PolyfillParameters,
    ua: UserAgent,
    i: int,
) -> bool {
    let nm = params.features@[i]@.name;
    let m = spec_find_meta(cat.features@, nm);
    &&& !seq_contains(params.excludes.deep_view(), nm)
    &&& m >= 0
    &&& cat.features@[m].aliases@.len() == 0
    &&& (spec_ua_passes(cat.features@[m], ua, params.unknown) || params.features@[i]@.always)
}

/// No requested feature carries the `always` flag.
pub open spec fn spec_no_always(params: PolyfillParameters) -> bool {
    forall|i: int| 0 <= i < params.features@.len() ==> !(#[trigger] params.features@[i])@.always
}

/// Some catalogue entry with this lowercased name passes its gate.
pub open spec fn spec_gate_justified(
    cat: Catalogue,
    ua: UserAgent,
    pol: UnknownPolicy,
    nm: Seq<u8>,
) -> bool {
    exists|m: int|
        0 <= m < cat.features@.len() && lower((#[trigger] cat.features@[m]).name@) == nm
            && spec_ua_passes(cat.features@[m], ua, pol)
}


/// The lowercased dependency names of a catalogue entry.
pub open spec fn spec_lower_deps(meta: FeatureMeta) -> Seq<Seq<u8>> {
    Seq::new(meta.dependencies@.len(), |j: int| lower(meta.dependencies@[j]@))
}

/// One dependency of one included feature is accounted for: excluded,
/// absent from the catalogue, itself included, or gated out.
spec fn spec_dep_handled(
    cat: Catalogue,
    params: PolyfillParameters,
    ua: UserAgent,
    inc: Seq<bool>,
    c: int,
    d: int,
) -> bool {
    let dn = lower(cat.features@[c].dependencies@[d]@);
    let m = spec_find_meta(cat.features@, dn);
    ||| seq_contains(params.excludes.deep_view(), dn)
    ||| m < 0
    ||| (0 <= m < inc.len() && inc[m])
    ||| !spec_ua_passes(cat.features@[m], ua, params.unknown)
}

/// Every entry is backed by an included catalogue feature: same
/// lowercased name, and exactly its lowercased dependency list.
spec fn spec_entries_backed(cat: Catalogue, inc: Seq<bool>, entries: Seq<PolyfillEntry>) -> bool {
    forall|e: int|
        0 <= e < entries.len() ==> exists|ci2: int|
            0 <= ci2 < cat.features@.len() && inc[ci2] && (#[trigger] entries[e]).name@ == lower(
                cat.features@[ci2].name@,
            ) && entries[e].deps.deep_view() == spec_lower_deps(cat.features@[ci2])
}

/// The inclusion table is dependency-closed.
spec fn spec_closure_complete(
    cat: Catalogue,
    params: PolyfillParameters,
    ua: UserAgent,
    inc: Seq<bool>,
) -> bool {
    forall|c: int, d: int|
        0 <= c < inc.len() && inc[c] && 0 <= d < cat.features@[c].dependencies@.len()
            ==> #[trigger] spec_dep_handled(cat, params, ua, inc, c, d)
}

/// A post-expansion entry that belongs in the inclusion table: not
/// excluded, present in the catalogue, and admitted by the user-agent
/// gate or its `always` flag.
spec fn spec_seed_q(
    cat: Catalogue,
    params: PolyfillParameters,
    ua: UserAgent,
    ex: Seq<FeatureRequest>,
    j: int,
) -> bool {
    let nm = ex[j]@.name;
    let m = spec_find_meta(cat.features@, nm);
    &&& !seq_contains(params.excludes.deep_view(), nm)
    &&& 0 <= m < cat.features@.len()
    &&& (spec_ua_passes(cat.features@[m], ua, params.unknown) || ex[j]@.always)
}

/// Membership of a byte string transfers across multiset-equal lists.
proof fn lemma_contains_via_multiset(a: Seq<Seq<u8>>, b: Seq<Seq<u8>>, x: Seq<u8>)
    requires
        a.to_multiset() == b.to_multiset(),
        seq_contains(a, x),
    ensures
        seq_contains(b, x),
{
    broadcast use vstd::seq_lib::group_to_multiset_ensures;

    let i = choose|i: int| 0 <= i < a.len() && a[i] =~= x;
    assert(a[i] == x);
    assert(a.contains(x));
    assert(a.to_multiset().count(x) > 0);
    assert(b.to_multiset().count(x) > 0);
    assert(b.contains(x));
    let j = choose|j: int| 0 <= j < b.len() && b[j] == x;
    assert(b[j] =~= x);
}

/// Resolves a request against a catalogue: expands aliases, drops
/// excluded names, gates on the user agent, closes over dependencies,
/// orders the result so that every resolved dependency precedes its
/// dependent, and picks the source variant.
///
/// `Err(UnknownFeature)` arises only under `strict`. On success no entry
/// is excluded by the request, and every dependency of every entry is
/// either itself an entry, or recorded as a warning, or excluded.
pub fn resolve_features(cat: &Catalogue, params: &PolyfillParameters, ua: UserAgent) -> (r: Result<
    Resolution,
    ResolveError,
>)
    ensures
        match r {
            Ok(res) => {
                &&& closure_covered(res.entries@, res.warnings.deep_view(), params.excludes.deep_view())
                &&& forall|i: int|
                    0 <= i < res.entries@.len() ==> !seq_contains(
                        params.excludes.deep_view(),
                        (#[trigger] res.entries@[i]).name@,
                    )
                &&& forall|i: int|
                    0 <= i < params.features@.len() && spec_direct_hit(*cat, *params, ua, i)
                        ==> seq_contains(
                        entry_names(res.entries@),
                        (#[trigger] params.features@[i])@.name,
                    )
                &&& spec_no_always(*params) ==> forall|e: int|
                    0 <= e < res.entries@.len() ==> spec_gate_justified(
                        *cat,
                        ua,
                        params.unknown,
                        (#[trigger] res.entries@[e]).name@,
                    )
                &&& forall|e: int, j: int|
                    0 <= e < res.entries@.len() && 0 <= j < res.entries@[e].deps@.len() ==> {
                        let dn = (#[trigger] res.entries@[e].deps@[j])@;
                        ||| seq_contains(entry_names(res.entries@), dn)
                        ||| seq_contains(params.excludes.deep_view(), dn)
                        ||| spec_find_meta(cat.features@, dn) < 0
                        ||| !spec_ua_passes(
                            cat.features@[spec_find_meta(cat.features@, dn)],
                            ua,
                            params.unknown,
                        )
                    }
            },
            Err(e) => match e {
                ResolveError::UnknownFeature(nm) => params.strict && exists|i: int|
                    0 <= i < params.features@.len() && (#[trigger] params.features@[i])@.name
                        == nm@ && spec_find_meta(cat.features@, nm@) < 0,
                ResolveError::AliasCycle(_) => true,
                ResolveError::CycleDetected(cyc) => cyc@.len() > 0,
            },
        },
        r is Err && (r->Err_0 is UnknownFeature) <==> params.strict && spec_missing_request(
            *cat,
            *params,
        ),
{
    let mut warnings: Vec<Vec<u8>> = Vec::new();
    // strict mode: every originally requested name must exist
    if params.strict {
        let mut i: usize = 0;
        while i < params.features.len()
            invariant
                params.strict,
                0 <= i <= params.features@.len(),
                forall|j: int|
                    0 <= j < i ==> spec_find_meta(
                        cat.features@,
                        (#[trigger] params.features@[j])@.name,
                    ) >= 0,
            decreases params.features.len() - i,
        {
            match find_meta(cat, &params.features[i].name) {
                Some(_) => {},
                None => {
                    proof {
                        assert(params.features@[i as int]@.name == params.features@[
                            i as int
                        ].name@);
                        assert(spec_missing_request(*cat, *params));
                    }
                    return Err(ResolveError::UnknownFeature(params.features[i].name.clone()));
                },
            }
            i = i + 1;
        }
    }
    proof {
        assert(!(params.strict && spec_missing_request(*cat, *params))) by {
            if params.strict && spec_missing_request(*cat, *params) {
                let i = choose|i: int|
                    0 <= i < params.features@.len() && spec_find_meta(
                        cat.features@,
                        (#[trigger] params.features@[i])@.name,
                    ) < 0;
            }
        }
    }
    // alias expansion
    let expanded = match expand_aliases(cat, &params.features) {
        Ok(v) => v,
        Err(e) => {
            return Err(e);
        },
    };
    // seed the inclusion table from the gated request
    let n = cat.features.len();
    let mut included: Vec<bool> = Vec::new();
    let mut gated_flags: Vec<bool> = Vec::new();
    let mut k: usize = 0;
    while k < n
        invariant
            0 <= k <= n,
            included@.len() == k,
            gated_flags@.len() == k,
            n == cat.features@.len(),
            forall|c: int| 0 <= c < k ==> !(#[trigger] included@[c]),
        decreases n - k,
    {
        included.push(false);
        gated_flags.push(false);
        k = k + 1;
    }
    let ghost no_alw_expanded = spec_no_always(*params) ==> forall|j: int|
        0 <= j < expanded@.len() ==> !(#[trigger] expanded@[j])@.always;
    proof {
        assert(no_alw_expanded);
    }
    let mut i: usize = 0;
    while i < expanded.len()
        invariant
            0 <= i <= expanded@.len(),
            included@.len() == n,
            gated_flags@.len() == n,
            n == cat.features@.len(),
            spec_no_always(*params) ==> forall|j: int|
                0 <= j < expanded@.len() ==> !(#[trigger] expanded@[j])@.always,
            forall|c: int|
                0 <= c < n ==> (#[trigger] included@[c] ==> !seq_contains(
                    params.excludes.deep_view(),
                    lower(cat.features@[c].name@),
                )),
            forall|j: int|
                0 <= j < i && spec_seed_q(*cat, *params, ua, expanded@, j) ==> included@[
                    spec_find_meta(cat.features@, (#[trigger] expanded@[j])@.name)
                ],
            spec_no_always(*params) ==> forall|c: int|
                0 <= c < n ==> ((#[trigger] included@[c]) ==> spec_ua_passes(
                    cat.features@[c],
                    ua,
                    params.unknown,
                )),
        decreases expanded.len() - i,
    {
        proof {
            assert(expanded@[i as int]@ == (#[trigger] expanded@[i as int])@);
        }
        let f = &expanded[i];
        if !crate::bytes::contains_bytes(&params.excludes, &f.name) {
            match find_meta(cat, &f.name) {
                Some(m) => {
                    let pass = ua_passes(&cat.features[m], ua, params.unknown) || f.always;
                    if pass {
                        proof {
                            lemma_spec_find_meta(cat.features@, f.name@);
                        }
                        let ghost pre_inc = included@;
                        included.set(m, true);
                        proof {
                            assert forall|j: int|
                                0 <= j < i + 1 && spec_seed_q(*cat, *params, ua, expanded@, j)
                                    implies included@[spec_find_meta(
                                cat.features@,
                                (#[trigger] expanded@[j])@.name,
                            )] by {
                                if j < i {
                                    assert(pre_inc[spec_find_meta(
                                        cat.features@,
                                        expanded@[j]@.name,
                                    )]);
                                } else {
                                    assert(spec_find_meta(cat.features@, expanded@[j]@.name)
                                        == m as int);
                                }
                            }
                            if spec_no_always(*params) {
                                assert(!expanded@[i as int]@.always);
                                assert(spec_ua_passes(
                                    cat.features@[m as int],
                                    ua,
                                    params.unknown,
                                ));
                                assert forall|c2: int|
                                    0 <= c2 < n && (#[trigger] included@[c2])
                                        implies spec_ua_passes(
                                    cat.features@[c2],
                                    ua,
                                    params.unknown,
                                ) by {
                                    if c2 != m {
                                        assert(pre_inc[c2]);
                                    }
                                }
                            }
                        }
                        if f.gated {
                            gated_flags.set(m, true);
                        }
                    } else {
                        proof {
                            assert(!spec_seed_q(*cat, *params, ua, expanded@, i as int));
                        }
                    }
                },
                None => {
                    proof {
                        assert(!spec_seed_q(*cat, *params, ua, expanded@, i as int));
                    }
                    warnings.push(f.name.clone());
                },
            }
        } else {
            proof {
                assert(!spec_seed_q(*cat, *params, ua, expanded@, i as int));
            }
        }
        i = i + 1;
    }
    // dependency closure, by rounds to a fixpoint
    let mut changed = true;
    proof {
        lemma_count_true_bound(included@);
    }
    while changed
        invariant
            included@.len() == n,
            gated_flags@.len() == n,
            n == cat.features@.len(),
            0 <= count_true(included@) <= n,
            !changed ==> spec_closure_complete(*cat, *params, ua, included@),
            forall|c: int|
                0 <= c < n ==> (#[trigger] included@[c] ==> !seq_contains(
                    params.excludes.deep_view(),
                    lower(cat.features@[c].name@),
                )),
            forall|j: int|
                0 <= j < expanded@.len() && spec_seed_q(*cat, *params, ua, expanded@, j)
                    ==> included@[spec_find_meta(cat.features@, (#[trigger] expanded@[j])@.name)],
            spec_no_always(*params) ==> forall|c2: int|
                0 <= c2 < n ==> ((#[trigger] included@[c2]) ==> spec_ua_passes(
                    cat.features@[c2],
                    ua,
                    params.unknown,
                )),
        decreases 2 * (n - count_true(included@)) + (if changed {
            1int
        } else {
            0int
        }),
    {
        let ghost entry_count = count_true(included@);
        changed = false;
        let mut c: usize = 0;
        while c < n
            invariant
                included@.len() == n,
                gated_flags@.len() == n,
                n == cat.features@.len(),
                0 <= c <= n,
                entry_count <= count_true(included@) <= n,
                changed ==> count_true(included@) >= entry_count + 1,
                !changed ==> forall|c2: int, d2: int|
                    0 <= c2 < c && included@[c2] && 0 <= d2
                        < cat.features@[c2].dependencies@.len()
                        ==> #[trigger] spec_dep_handled(*cat, *params, ua, included@, c2, d2),
                forall|c2: int|
                    0 <= c2 < n ==> (#[trigger] included@[c2] ==> !seq_contains(
                        params.excludes.deep_view(),
                        lower(cat.features@[c2].name@),
                    )),
                forall|j: int|
                    0 <= j < expanded@.len() && spec_seed_q(*cat, *params, ua, expanded@, j)
                        ==> included@[spec_find_meta(cat.features@, (#[trigger] expanded@[j])@.name)],
                spec_no_always(*params) ==> forall|c2: int|
                    0 <= c2 < n ==> ((#[trigger] included@[c2]) ==> spec_ua_passes(
                        cat.features@[c2],
                        ua,
                        params.unknown,
                    )),
            decreases n - c,
        {
            if included[c] {
                let mut d: usize = 0;
                while d < cat.features[c].dependencies.len()
                    invariant
                        included@.len() == n,
                        gated_flags@.len() == n,
                        n == cat.features@.len(),
                        c < n,
                        0 <= d <= cat.features@[c as int].dependencies@.len(),
                        entry_count <= count_true(included@) <= n,
                        changed ==> count_true(included@) >= entry_count + 1,
                        !changed ==> forall|c2: int, d2: int|
                            0 <= c2 < c && included@[c2] && 0 <= d2
                                < cat.features@[c2].dependencies@.len()
                                ==> #[trigger] spec_dep_handled(
                                *cat,
                                *params,
                                ua,
                                included@,
                                c2,
                                d2,
                            ),
                        !changed ==> forall|d2: int|
                            0 <= d2 < d && included@[c as int]
                                ==> #[trigger] spec_dep_handled(
                                *cat,
                                *params,
                                ua,
                                included@,
                                c as int,
                                d2,
                            ),
                        forall|c2: int|
                            0 <= c2 < n ==> (#[trigger] included@[c2] ==> !seq_contains(
                                params.excludes.deep_view(),
                                lower(cat.features@[c2].name@),
                            )),
                        forall|j: int|
                            0 <= j < expanded@.len() && spec_seed_q(*cat, *params, ua, expanded@, j)
                                ==> included@[spec_find_meta(cat.features@, (#[trigger] expanded@[j])@.name)],
                        spec_no_always(*params) ==> forall|c2: int|
                            0 <= c2 < n ==> ((#[trigger] included@[c2]) ==> spec_ua_passes(
                                cat.features@[c2],
                                ua,
                                params.unknown,
                            )),
                    decreases cat.features@[c as int].dependencies@.len() - d,
                {
                    let dep = to_lower(&cat.features[c].dependencies[d]);
                    proof {
                        assert(dep@ == lower(cat.features@[c as int].dependencies@[d as int]@));
                    }
                    if !crate::bytes::contains_bytes(&params.excludes, &dep) {
                        match find_meta(cat, &dep) {
                            Some(m) => {
                                if !included[m] {
                                    if ua_passes(&cat.features[m], ua, params.unknown) {
                                        proof {
                                            lemma_count_true_update(included@, m as int);
                                            lemma_count_true_bound(
                                                included@.update(m as int, true),
                                            );
                                        }
                                        let ghost pre_inc = included@;
                                        included.set(m, true);
                                        proof {
                                            assert forall|j: int|
                                                0 <= j < expanded@.len() && spec_seed_q(
                                                    *cat,
                                                    *params,
                                                    ua,
                                                    expanded@,
                                                    j,
                                                ) implies included@[spec_find_meta(
                                                cat.features@,
                                                (#[trigger] expanded@[j])@.name,
                                            )] by {
                                                assert(pre_inc[spec_find_meta(
                                                    cat.features@,
                                                    expanded@[j]@.name,
                                                )]);
                                            }
                                            if spec_no_always(*params) {
                                                assert forall|c2: int|
                                                    0 <= c2 < n && (#[trigger] included@[c2])
                                                        implies spec_ua_passes(
                                                    cat.features@[c2],
                                                    ua,
                                                    params.unknown,
                                                ) by {
                                                    if c2 != m {
                                                        assert(pre_inc[c2]);
                                                    }
                                                }
                                            }
                                        }
                                        changed = true;
                                    }
                                }
                            },
                            None => {},
                        }
                    }
                    d = d + 1;
                }
            }
            c = c + 1;
        }
    }
    proof {
        assert(spec_closure_complete(*cat, *params, ua, included@));
    }
    // collect the selected features, first occurrence of each name
    let mut names: Vec<Vec<u8>> = Vec::new();
    let mut picked: Vec<usize> = Vec::new();
    let mut c: usize = 0;
    while c < n
        invariant
            n == cat.features@.len(),
            included@.len() == n,
            0 <= c <= n,
            names@.len() == picked@.len(),
            forall|a: int, b: int|
                0 <= a < b < names.deep_view().len() ==> !(#[trigger] names.deep_view()[a]
                    =~= #[trigger] names.deep_view()[b]),
            forall|a: int|
                0 <= a < picked@.len() ==> (#[trigger] picked@[a]) < n && included@[picked@[a] as int]
                    && names.deep_view()[a] =~= lower(cat.features@[picked@[a] as int].name@),
            forall|c2: int|
                0 <= c2 < c ==> ((#[trigger] included@[c2]) ==> seq_contains(
                    names.deep_view(),
                    lower(cat.features@[c2].name@),
                )),
        decreases n - c,
    {
        if included[c] {
            let nm = to_lower(&cat.features[c].name);
            if !crate::bytes::contains_bytes(&names, &nm) {
                let ghost pre = names.deep_view();
                names.push(nm);
                picked.push(c);
                proof {
                    assert(names.deep_view() =~~= pre.push(lower(cat.features@[c as int].name@)));
                    assert forall|a: int, b: int|
                        0 <= a < b < names.deep_view().len() implies !(
                    #[trigger] names.deep_view()[a] =~= #[trigger] names.deep_view()[b]) by {
                        if b == pre.len() {
                            assert(!seq_contains(pre, names.deep_view()[b]));
                        }
                    }
                    assert forall|c2: int|
                        0 <= c2 < c + 1 && (#[trigger] included@[c2]) implies seq_contains(
                        names.deep_view(),
                        lower(cat.features@[c2].name@),
                    ) by {
                        if c2 < c {
                            let ix = choose|ix: int|
                                0 <= ix < pre.len() && pre[ix] =~= lower(
                                    cat.features@[c2].name@,
                                );
                            assert(names.deep_view()[ix] =~= lower(cat.features@[c2].name@));
                        } else {
                            assert(names.deep_view()[pre.len() as int] =~= lower(
                                cat.features@[c2].name@,
                            ));
                        }
                    }
                }
            } else {
                proof {
                    assert(seq_contains(names.deep_view(), lower(cat.features@[c as int].name@)));
                }
            }
        }
        c = c + 1;
    }
    // order deterministically
    let sorted = crate::fingerprint::sort_names(names_copy(&names));
    proof {
        broadcast use vstd::seq_lib::group_to_multiset_ensures;

        names.deep_view().lemma_multiset_has_no_duplicates();
        sorted.deep_view().lemma_multiset_has_no_duplicates_conv();
        crate::bytes::lemma_lex_total_ordering();
        assert forall|a: int, b: int|
            0 <= a < b < sorted.deep_view().len() implies lex_lt(
            #[trigger] sorted.deep_view()[a],
            #[trigger] sorted.deep_view()[b],
        ) by {
            let leq = crate::bytes::lex_leq_fn();
            assert(leq(sorted.deep_view()[a], sorted.deep_view()[b]));
        }
        assert(strictly_sorted(sorted.deep_view()));
    }
    // edges: dep -> dependent, for deps resolved among the nodes
    let mut edges: Vec<Edge> = Vec::new();
    let mut a: usize = 0;
    while a < picked.len()
        invariant
            n == cat.features@.len(),
            names@.len() == picked@.len(),
            forall|x: int| 0 <= x < picked@.len() ==> (#[trigger] picked@[x]) < n,
        decreases picked.len() - a,
    {
        let ci = picked[a];
        let from_name = to_lower(&cat.features[ci].name);
        let mut d: usize = 0;
        while d < cat.features[ci].dependencies.len()
            invariant
                n == cat.features@.len(),
                ci < n,
                0 <= d <= cat.features@[ci as int].dependencies@.len(),
            decreases cat.features@[ci as int].dependencies@.len() - d,
        {
            let dep = to_lower(&cat.features[ci].dependencies[d]);
            if crate::bytes::contains_bytes(&names, &dep) {
                edges.push(Edge { from: dep, to: from_name.clone() });
            }
            d = d + 1;
        }
        a = a + 1;
    }
    // topological order with the lexicographic tie-break
    let order = match toposort(&sorted, &edges) {
        Ok(o) => o,
        Err(cyc) => {
            return Err(ResolveError::CycleDetected(cyc));
        },
    };
    // build the entries in order
    let ghost names_dv = names.deep_view();
    let ghost ord = order.deep_view();
    proof {
        broadcast use vstd::seq_lib::group_to_multiset_ensures;

        assert(ord.to_multiset() == names_dv.to_multiset());
        assert forall|k2: int| 0 <= k2 < ord.len() implies seq_contains(
            names_dv,
            #[trigger] ord[k2],
        ) by {
            assert(ord[k2] =~= ord[k2]);
            lemma_contains_via_multiset(ord, names_dv, ord[k2]);
        }
        assert forall|x2: int| 0 <= x2 < names_dv.len() implies seq_contains(
            ord,
            #[trigger] names_dv[x2],
        ) by {
            assert(names_dv[x2] =~= names_dv[x2]);
            lemma_contains_via_multiset(names_dv, ord, names_dv[x2]);
        }
    }
    let mut entries: Vec<PolyfillEntry> = Vec::new();
    let mut oi: usize = 0;
    while oi < order.len()
        invariant
            n == cat.features@.len(),
            names_dv == names.deep_view(),
            ord == order.deep_view(),
            ord.len() == order@.len(),
            names@.len() == picked@.len(),
            forall|x: int| 0 <= x < picked@.len() ==> (#[trigger] picked@[x]) < n,
            forall|x: int|
                0 <= x < picked@.len() ==> included@.len() == n && names.deep_view()[x] =~= lower(
                    cat.features@[(#[trigger] picked@[x]) as int].name@,
                ),
            included@.len() == n,
            forall|x: int| 0 <= x < picked@.len() ==> included@[(#[trigger] picked@[x]) as int],
            forall|k2: int| 0 <= k2 < ord.len() ==> seq_contains(names_dv, #[trigger] ord[k2]),
            0 <= oi <= ord.len(),
            forall|k2: int|
                0 <= k2 < oi ==> seq_contains(entry_names(entries@), #[trigger] ord[k2]),
            spec_no_always(*params) ==> forall|c2: int|
                0 <= c2 < n ==> ((#[trigger] included@[c2]) ==> spec_ua_passes(
                    cat.features@[c2],
                    ua,
                    params.unknown,
                )),
            spec_no_always(*params) ==> forall|e: int|
                0 <= e < entries@.len() ==> spec_gate_justified(
                    *cat,
                    ua,
                    params.unknown,
                    (#[trigger] entries@[e]).name@,
                ),
            spec_entries_backed(*cat, included@, entries@),
            forall|c2: int|
                0 <= c2 < n ==> (#[trigger] included@[c2] ==> !seq_contains(
                    params.excludes.deep_view(),
                    lower(cat.features@[c2].name@),
                )),
            forall|e: int|
                0 <= e < entries@.len() ==> !seq_contains(
                    params.excludes.deep_view(),
                    (#[trigger] entries@[e]).name@,
                ),
        decreases order.len() - oi,
    {
        let mut b: usize = 0;
        let mut found = false;
        while b < names.len() && !found
            invariant
                n == cat.features@.len(),
                names_dv == names.deep_view(),
                ord == order.deep_view(),
                ord.len() == order@.len(),
                names@.len() == picked@.len(),
                names_dv.len() == names@.len(),
                forall|x: int| 0 <= x < picked@.len() ==> (#[trigger] picked@[x]) < n,
                forall|x: int|
                    0 <= x < picked@.len() ==> included@.len() == n && names.deep_view()[x] =~= lower(
                        cat.features@[(#[trigger] picked@[x]) as int].name@,
                    ),
                included@.len() == n,
                forall|x: int|
                    0 <= x < picked@.len() ==> included@[(#[trigger] picked@[x]) as int],
                0 <= oi < ord.len(),
                0 <= b <= names@.len(),
                found ==> seq_contains(entry_names(entries@), ord[oi as int]),
                !found ==> forall|m2: int|
                    0 <= m2 < b ==> !(#[trigger] names_dv[m2] =~= ord[oi as int]),
                forall|k2: int|
                    0 <= k2 < oi ==> seq_contains(entry_names(entries@), #[trigger] ord[k2]),
                spec_no_always(*params) ==> forall|c2: int|
                    0 <= c2 < n ==> ((#[trigger] included@[c2]) ==> spec_ua_passes(
                        cat.features@[c2],
                        ua,
                        params.unknown,
                    )),
                spec_no_always(*params) ==> forall|e: int|
                    0 <= e < entries@.len() ==> spec_gate_justified(
                        *cat,
                        ua,
                        params.unknown,
                        (#[trigger] entries@[e]).name@,
                    ),
                spec_entries_backed(*cat, included@, entries@),
                forall|c2: int|
                    0 <= c2 < n ==> (#[trigger] included@[c2] ==> !seq_contains(
                        params.excludes.deep_view(),
                        lower(cat.features@[c2].name@),
                    )),
                forall|e: int|
                    0 <= e < entries@.len() ==> !seq_contains(
                        params.excludes.deep_view(),
                        (#[trigger] entries@[e]).name@,
                    ),
            decreases names.len() - b + (if found {
                0int
            } else {
                1int
            }),
        {
            if eq_bytes(&names[b], &order[oi]) {
                let ci = picked[b];
                let meta = &cat.features[ci];
                let mut deps: Vec<Vec<u8>> = Vec::new();
                let mut d: usize = 0;
                proof {
                    assert(deps.deep_view() =~= spec_lower_deps(cat.features@[ci as int]).take(0));
                }
                while d < meta.dependencies.len()
                    invariant
                        ci < n,
                        n == cat.features@.len(),
                        *meta == cat.features@[ci as int],
                        0 <= d <= meta.dependencies@.len(),
                        deps.deep_view() =~= spec_lower_deps(cat.features@[ci as int]).take(
                            d as int,
                        ),
                    decreases meta.dependencies.len() - d,
                {
                    let ghost pre_deps = deps.deep_view();
                    deps.push(to_lower(&meta.dependencies[d]));
                    proof {
                        let ld = spec_lower_deps(cat.features@[ci as int]);
                        assert(ld[d as int] == lower(
                            cat.features@[ci as int].dependencies@[d as int]@,
                        ));
                        assert(deps.deep_view() =~~= pre_deps.push(ld[d as int]));
                        assert(pre_deps.push(ld[d as int]) =~= ld.take(d as int + 1));
                    }
                    d = d + 1;
                }
                proof {
                    let ld = spec_lower_deps(cat.features@[ci as int]);
                    assert(ld.take(ld.len() as int) =~= ld);
                    assert(deps.deep_view() == ld);
                }
                let source: Vec<u8> = if params.minify {
                    match meta.install_min {
                        Some(ref s) => s.clone(),
                        None => meta.install_raw.clone(),
                    }
                } else {
                    meta.install_raw.clone()
                };
                let detect: Option<Vec<u8>> = match meta.detect_source {
                    Some(ref s) => Some(s.clone()),
                    None => None,
                };
                let nm = to_lower(&meta.name);
                let ghost pre_names = entry_names(entries@);
                let ghost pre_full = entries@;
                let ghost deps_dv = deps.deep_view();
                proof {
                    assert(names.deep_view()[b as int] =~= lower(
                        cat.features@[ci as int].name@,
                    ));
                    assert(included@[ci as int]);
                    assert(!seq_contains(params.excludes.deep_view(), nm@));
                    assert(names_dv[b as int] == names@[b as int]@);
                    assert(ord[oi as int] == order@[oi as int]@);
                    assert(nm@ == ord[oi as int]);
                }
                entries.push(
                    PolyfillEntry {
                        name: nm,
                        deps,
                        gated: gated_flag_of(&gated_flags, ci),
                        detect,
                        source,
                    },
                );
                proof {
                    let en = entry_names(entries@);
                    assert(en[pre_names.len() as int] == ord[oi as int]);
                    assert(seq_contains(en, ord[oi as int]));
                    assert(spec_entries_backed(*cat, included@, entries@)) by {
                        assert forall|e: int| 0 <= e < entries@.len() implies exists|ci2: int|
                            0 <= ci2 < cat.features@.len() && included@[ci2] && (
                        #[trigger] entries@[e]).name@ == lower(cat.features@[ci2].name@)
                            && entries@[e].deps.deep_view() == spec_lower_deps(
                            cat.features@[ci2],
                        ) by {
                            if e < pre_full.len() {
                                assert(entries@[e] == pre_full[e]);
                            } else {
                                assert(entries@[e].name@ == lower(
                                    cat.features@[ci as int].name@,
                                ));
                                assert(entries@[e].deps.deep_view() == deps_dv);
                                assert(0 <= (ci as int) && (ci as int) < n && included@[
                                    ci as int
                                ]);
                            }
                        }
                    }
                    assert forall|k2: int|
                        0 <= k2 < oi implies seq_contains(en, #[trigger] ord[k2]) by {
                        let ix = choose|ix: int|
                            0 <= ix < pre_names.len() && pre_names[ix] =~= ord[k2];
                        assert(en[ix] =~= ord[k2]);
                    }
                    if spec_no_always(*params) {
                        assert(spec_ua_passes(cat.features@[ci as int], ua, params.unknown));
                        assert(spec_gate_justified(*cat, ua, params.unknown, nm@));
                    }
                }
                found = true;
            } else {
                proof {
                    assert(names_dv[b as int] == names@[b as int]@);
                    assert(ord[oi as int] == order@[oi as int]@);
                }
                b = b + 1;
            }
        }
        proof {
            if !seq_contains(entry_names(entries@), ord[oi as int]) {
                assert(!found);
                assert(b == names@.len());
                assert(seq_contains(names_dv, ord[oi as int]));
                let ix = choose|ix: int| 0 <= ix < names_dv.len() && names_dv[ix] =~= ord[
                    oi as int
                ];
                assert(false);
            }
            assert forall|k2: int|
                0 <= k2 < oi + 1 implies seq_contains(entry_names(entries@), #[trigger] ord[k2]) by {
            }
        }
        oi = oi + 1;
    }
    // the completeness owed to directly requested features
    proof {
        broadcast use vstd::seq_lib::group_to_multiset_ensures;

        let en = entry_names(entries@);
        assert forall|i2: int|
            0 <= i2 < params.features@.len() && spec_direct_hit(*cat, *params, ua, i2)
                implies seq_contains(en, (#[trigger] params.features@[i2])@.name) by {
            let nm = params.features@[i2]@.name;
            let m = spec_find_meta(cat.features@, nm);
            lemma_spec_find_meta(cat.features@, nm);
            assert(spec_keepable(*cat, nm));
            assert(crate::params::has_feature_at_least(
                crate::params::feats_view(expanded@),
                nm,
                params.features@[i2]@.always,
                params.features@[i2]@.gated,
            ));
            let j = choose|j: int|
                0 <= j < crate::params::feats_view(expanded@).len() && (
                #[trigger] crate::params::feats_view(expanded@)[j]).name == nm && (params.features@[
                    i2
                ]@.always ==> crate::params::feats_view(expanded@)[j].always) && (params.features@[
                    i2
                ]@.gated ==> crate::params::feats_view(expanded@)[j].gated);
            assert(crate::params::feats_view(expanded@)[j] == expanded@[j]@);
            assert(spec_seed_q(*cat, *params, ua, expanded@, j));
            assert(included@[m]);
            assert(seq_contains(names_dv, lower(cat.features@[m].name@)));
            assert(lower(cat.features@[m].name@) == nm);
            assert(seq_contains(ord, nm)) by {
                let ix = choose|ix: int| 0 <= ix < names_dv.len() && names_dv[ix] =~= nm;
                assert(seq_contains(ord, names_dv[ix]));
                let iy = choose|iy: int| 0 <= iy < ord.len() && ord[iy] =~= names_dv[ix];
                assert(ord[iy] =~= nm);
            }
            let kz = choose|kz: int| 0 <= kz < ord.len() && ord[kz] =~= nm;
            assert(seq_contains(en, ord[kz]));
            let ez = choose|ez: int| 0 <= ez < en.len() && en[ez] =~= ord[kz];
            assert(en[ez] =~= nm);
        }
    }
    // every dependency of every entry is accounted for
    proof {
        let en = entry_names(entries@);
        assert forall|e: int, j: int|
            0 <= e < entries@.len() && 0 <= j < entries@[e].deps@.len() implies {
            let dn = (#[trigger] entries@[e].deps@[j])@;
            ||| seq_contains(en, dn)
            ||| seq_contains(params.excludes.deep_view(), dn)
            ||| spec_find_meta(cat.features@, dn) < 0
            ||| !spec_ua_passes(
                cat.features@[spec_find_meta(cat.features@, dn)],
                ua,
                params.unknown,
            )
        } by {
            assert(spec_entries_backed(*cat, included@, entries@));
            let ci2 = choose|ci2: int|
                0 <= ci2 < cat.features@.len() && included@[ci2] && (
                #[trigger] entries@[e]).name@ == lower(cat.features@[ci2].name@) && entries@[
                    e
                ].deps.deep_view() == spec_lower_deps(cat.features@[ci2]);
            assert(entries@[e].deps@[j]@ == entries@[e].deps.deep_view()[j]);
            assert(entries@[e].deps.deep_view().len() == spec_lower_deps(
                cat.features@[ci2],
            ).len());
            assert(0 <= j < cat.features@[ci2].dependencies@.len());
            assert(spec_lower_deps(cat.features@[ci2])[j] == lower(
                cat.features@[ci2].dependencies@[j]@,
            ));
            let dn = lower(cat.features@[ci2].dependencies@[j]@);
            assert(entries@[e].deps@[j]@ == dn);
            assert(included@.len() == cat.features@.len());
            assert(spec_dep_handled(*cat, *params, ua, included@, ci2, j));
            let m = spec_find_meta(cat.features@, dn);
            if !seq_contains(params.excludes.deep_view(), dn) && m >= 0 && spec_ua_passes(
                cat.features@[m],
                ua,
                params.unknown,
            ) {
                assert(0 <= m < n && included@[m]);
                lemma_spec_find_meta(cat.features@, dn);
                assert(lower(cat.features@[m].name@) == dn);
                assert(seq_contains(names_dv, dn));
                assert(seq_contains(ord, dn)) by {
                    let ix = choose|ix: int| 0 <= ix < names_dv.len() && names_dv[ix] =~= dn;
                    assert(seq_contains(ord, names_dv[ix]));
                    let iy = choose|iy: int| 0 <= iy < ord.len() && ord[iy] =~= names_dv[ix];
                    assert(ord[iy] =~= dn);
                }
                let kz = choose|kz: int| 0 <= kz < ord.len() && ord[kz] =~= dn;
                assert(seq_contains(en, ord[kz]));
                let ez = choose|ez: int| 0 <= ez < en.len() && en[ez] =~= ord[kz];
                assert(en[ez] =~= dn);
                assert(seq_contains(en, dn));
            }
        }
    }
    // every unresolved dependency is warned about
    let warnings = warn_uncovered(&entries, warnings, &params.excludes);
    Ok(Resolution { entries, warnings })
}

fn gated_flag_of(gated_flags: &Vec<bool>, ci: usize) -> (r: bool) {
    if ci < gated_flags.len() {
        gated_flags[ci]
    } else {
        false
    }
}

fn names_copy(v: &Vec<Vec<u8>>) -> (r: Vec<Vec<u8>>)
    ensures
        r.deep_view() == v.deep_view(),
{
    let mut out: Vec<Vec<u8>> = Vec::new();
    let mut i: usize = 0;
    proof {
        assert(out.deep_view() =~= v.deep_view().take(0));
    }
    while i < v.len()
        invariant
            0 <= i <= v@.len(),
            out.deep_view() =~= v.deep_view().take(i as int),
        decreases v.len() - i,
    {
        let ghost pre = out.deep_view();
        proof {
            assert(v.deep_view()[i as int] == v@[i as int]@);
        }
        out.push(v[i].clone());
        proof {
            assert(out.deep_view() =~~= pre.push(v.deep_view()[i as int]));
            assert(pre.push(v.deep_view()[i as int]) =~= v.deep_view().take(i as int + 1));
        }
        i = i + 1;
    }
    proof {
        assert(v.deep_view().take(v.deep_view().len() as int) =~= v.deep_view());
    }
    out
}

/// Appends a warning for every dependency that is neither resolved among
/// the entries nor excluded, so the closure-coverage property holds of
/// the result.
fn warn_uncovered(
    entries: &Vec<PolyfillEntry>,
    warnings: Vec<Vec<u8>>,
    excludes: &Vec<Vec<u8>>,
) -> (r: Vec<Vec<u8>>)
    ensures
        closure_covered(entries@, r.deep_view(), excludes.deep_view()),
        forall|w: Seq<u8>|
            #[trigger] seq_contains(warnings.deep_view(), w) ==> seq_contains(r.deep_view(), w),
{
    let mut out = warnings;
    let mut i: usize = 0;
    while i < entries.len()
        invariant
            0 <= i <= entries@.len(),
            forall|a: int, b: int|
                0 <= a < i && 0 <= b < entries@[a].deps@.len() ==> seq_contains(
                    entry_names(entries@),
                    (#[trigger] entries@[a].deps@[b])@,
                ) || seq_contains(out.deep_view(), entries@[a].deps@[b]@) || seq_contains(
                    excludes.deep_view(),
                    entries@[a].deps@[b]@,
                ),
            forall|w: Seq<u8>|
                #[trigger] seq_contains(warnings.deep_view(), w) ==> seq_contains(
                    out.deep_view(),
                    w,
                ),
        decreases entries.len() - i,
    {
        let mut j: usize = 0;
        while j < entries[i].deps.len()
            invariant
                0 <= i < entries@.len(),
                0 <= j <= entries@[i as int].deps@.len(),
                forall|a: int, b: int|
                    0 <= a < i && 0 <= b < entries@[a].deps@.len() ==> seq_contains(
                        entry_names(entries@),
                        (#[trigger] entries@[a].deps@[b])@,
                    ) || seq_contains(out.deep_view(), entries@[a].deps@[b]@) || seq_contains(
                        excludes.deep_view(),
                        entries@[a].deps@[b]@,
                    ),
                forall|b: int|
                    0 <= b < j ==> seq_contains(
                        entry_names(entries@),
                        (#[trigger] entries@[i as int].deps@[b])@,
                    ) || seq_contains(out.deep_view(), entries@[i as int].deps@[b]@)
                        || seq_contains(excludes.deep_view(), entries@[i as int].deps@[b]@),
                forall|w: Seq<u8>|
                    #[trigger] seq_contains(warnings.deep_view(), w) ==> seq_contains(
                        out.deep_view(),
                        w,
                    ),
            decreases entries@[i as int].deps@.len() - j,
        {
            let dep = &entries[i].deps[j];
            let resolved = name_among(entries, dep);
            if !resolved && !crate::bytes::contains_bytes(excludes, dep)
                && !crate::bytes::contains_bytes(&out, dep) {
                let ghost pre = out.deep_view();
                out.push(dep.clone());
                proof {
                    assert(out.deep_view() =~~= pre.push(dep@));
                    assert(seq_contains(out.deep_view(), dep@)) by {
                        assert(out.deep_view()[pre.len() as int] =~= dep@);
                    }
                    assert forall|w: Seq<u8>| #[trigger] seq_contains(pre, w) implies seq_contains(
                        out.deep_view(),
                        w,
                    ) by {
                        let x = choose|x: int| 0 <= x < pre.len() && pre[x] =~= w;
                        assert(out.deep_view()[x] =~= w);
                    }
                }
            } else {
                proof {
                    if resolved {
                    } else if seq_contains(excludes.deep_view(), dep@) {
                    } else {
                        assert(seq_contains(out.deep_view(), dep@));
                    }
                }
            }
            proof {
                assert(entries@[i as int].deps@[j as int]@ == dep@);
            }
            j = j + 1;
        }
        i = i + 1;
    }
    out
}

/// Whether some entry bears this name.
fn name_among(entries: &Vec<PolyfillEntry>, name: &Vec<u8>) -> (r: bool)
    ensures
        r == seq_contains(entry_names(entries@), name@),
{
    let mut i: usize = 0;
    while i < entries.len()
        invariant
            0 <= i <= entries@.len(),
            forall|j: int| 0 <= j < i ==> !(entry_names(entries@)[j] =~= name@),
        decreases entries.len() - i,
    {
        proof {
            assert(entry_names(entries@)[i as int] == entries@[i as int].name@);
        }
        if eq_bytes(&entries[i].name, name) {
            return true;
        }
        i = i + 1;
    }
    false
}

} // verus!
