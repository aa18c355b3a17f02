//! Version triples and range expressions for browser gating.
//!
//! A range is a space-separated conjunction of comparators over possibly
//! partial versions (`*`, `<11`, `>=4.1`, `34`), or a hyphen range
//! (`4 - 6`). A partial version compares with missing components as zero;
//! a bare partial matches on its given components alone. A range that does
//! not parse matches nothing.

use vstd::prelude::*;

use crate::bytes::{dec_val, parse_dec, parseable_dec, spec_split, split_byte};

verus! {

/// A browser version, `major.minor.patch`.
#[derive(Clone, Copy, PartialEq, Eq, Structural, Debug)]
pub struct Version {
    pub major: u32,
    pub minor: u32,
    pub patch: u32,
}

/// A version pattern with optional components, as written in a range.
#[derive(Clone, Copy, PartialEq, Eq, Structural, Debug)]
pub struct Partial {
    pub major: u32,
    pub minor: Option<u32>,
    pub patch: Option<u32>,
}

/// A parsed decimal component: short enough for `u32` and all digits.
pub open spec fn spec_component(s: Seq<u8>) -> Option<u32> {
    if parseable_dec(s) {
        Some(dec_val(s) as u32)
    } else {
        None
    }
}

/// Parses `major(.minor(.patch)?)?`.
pub open spec fn spec_partial(s: Seq<u8>) -> Option<Partial> {
    let parts = spec_split(s, 0x2e);
    if parts.len() == 1 {
        match spec_component(parts[0]) {
            Some(m) => Some(Partial { major: m, minor: None, patch: None }),
            None => None,
        }
    } else if parts.len() == 2 {
        match (spec_component(parts[0]), spec_component(parts[1])) {
            (Some(m), Some(n)) => Some(Partial { major: m, minor: Some(n), patch: None }),
            _ => None,
        }
    } else if parts.len() == 3 {
        match (spec_component(parts[0]), spec_component(parts[1]), spec_component(parts[2])) {
            (Some(m), Some(n), Some(p)) => Some(
                Partial { major: m, minor: Some(n), patch: Some(p) },
            ),
            _ => None,
        }
    } else {
        None
    }
}

pub fn parse_partial(v: &Vec<u8>) -> (r: Option<Partial>)
    ensures
        r == spec_partial(v@),
{
    let parts = split_byte(v, 0x2e);
    proof {
        assert(parts.deep_view().len() == parts@.len());
        assert(forall|i: int|
            0 <= i < parts@.len() ==> parts.deep_view()[i] == (#[trigger] parts@[i])@);
    }
    if parts.len() == 1 {
        match parse_dec(&parts[0]) {
            Some(m) => Some(Partial { major: m, minor: None, patch: None }),
            None => None,
        }
    } else if parts.len() == 2 {
        let a = parse_dec(&parts[0]);
        let b = parse_dec(&parts[1]);
        match (a, b) {
            (Some(m), Some(n)) => Some(Partial { major: m, minor: Some(n), patch: None }),
            _ => None,
        }
    } else if parts.len() == 3 {
        let a = parse_dec(&parts[0]);
        let b = parse_dec(&parts[1]);
        let c = parse_dec(&parts[2]);
        match (a, b, c) {
            (Some(m), Some(n), Some(p)) => Some(
                Partial { major: m, minor: Some(n), patch: Some(p) },
            ),
            _ => None,
        }
    } else {
        None
    }
}

/// The version triple a partial stands for, missing components as zero.
pub open spec fn spec_filled(p: Partial) -> Version {
    Version {
        major: p.major,
        minor: match p.minor {
            Some(n) => n,
            None => 0,
        },
        patch: match p.patch {
            Some(q) => q,
            None => 0,
        },
    }
}

/// Lexicographic order on version triples.
pub open spec fn spec_ver_le(a: Version, b: Version) -> bool {
    if a.major != b.major {
        a.major < b.major
    } else if a.minor != b.minor {
        a.minor < b.minor
    } else {
        a.patch <= b.patch
    }
}

pub fn ver_le(a: Version, b: Version) -> (r: bool)
    ensures
        r == spec_ver_le(a, b),
{
    if a.major != b.major {
        a.major < b.major
    } else if a.minor != b.minor {
        a.minor < b.minor
    } else {
        a.patch <= b.patch
    }
}

/// A bare pattern matches on its given components alone.
pub open spec fn spec_exact_matches(v: Version, p: Partial) -> bool {
    v.major == p.major && (match p.minor {
        Some(n) => v.minor == n,
        None => true,
    }) && (match p.patch {
        Some(q) => v.patch == q,
        None => true,
    })
}

/// `v` is within the upper end of a hyphen range: components beyond the
/// pattern's precision are unconstrained.
pub open spec fn spec_le_upper(v: Version, p: Partial) -> bool {
    match p.minor {
        None => v.major <= p.major,
        Some(n) => match p.patch {
            None => v.major < p.major || (v.major == p.major && v.minor <= n),
            Some(_) => spec_ver_le(v, spec_filled(p)),
        },
    }
}

/// One comparator token: `*`, `<p`, `<=p`, `>p`, `>=p`, or a bare `p`.
/// `None` means the token does not parse.
pub open spec fn spec_token_matches(v: Version, tok: Seq<u8>) -> Option<bool> {
    if tok =~= seq![0x2au8] {
        Some(true)
    } else if tok.len() >= 2 && tok[0] == 0x3c && tok[1] == 0x3d {
        match spec_partial(tok.skip(2)) {
            Some(p) => Some(spec_ver_le(v, spec_filled(p))),
            None => None,
        }
    } else if tok.len() >= 1 && tok[0] == 0x3c {
        match spec_partial(tok.skip(1)) {
            Some(p) => Some(!spec_ver_le(spec_filled(p), v)),
            None => None,
        }
    } else if tok.len() >= 2 && tok[0] == 0x3e && tok[1] == 0x3d {
        match spec_partial(tok.skip(2)) {
            Some(p) => Some(spec_ver_le(spec_filled(p), v)),
            None => None,
        }
    } else if tok.len() >= 1 && tok[0] == 0x3e {
        match spec_partial(tok.skip(1)) {
            Some(p) => Some(!spec_ver_le(v, spec_filled(p))),
            None => None,
        }
    } else {
        match spec_partial(tok) {
            Some(p) => Some(spec_exact_matches(v, p)),
            None => None,
        }
    }
}

fn token_matches(v: Version, tok: &Vec<u8>) -> (r: Option<bool>)
    ensures
        r == spec_token_matches(v, tok@),
{
    if tok.len() == 1 && tok[0] == 0x2a {
        proof {
            assert(tok@ =~= seq![0x2au8]);
        }
        return Some(true);
    }
    proof {
        assert(!(tok@ =~= seq![0x2au8]));
    }
    if tok.len() >= 2 && tok[0] == 0x3c && tok[1] == 0x3d {
        let rest = tail_from(tok, 2);
        match parse_partial(&rest) {
            Some(p) => Some(ver_le(v, filled(p))),
            None => None,
        }
    } else if tok.len() >= 1 && tok[0] == 0x3c {
        let rest = tail_from(tok, 1);
        match parse_partial(&rest) {
            Some(p) => Some(!ver_le(filled(p), v)),
            None => None,
        }
    } else if tok.len() >= 2 && tok[0] == 0x3e && tok[1] == 0x3d {
        let rest = tail_from(tok, 2);
        match parse_partial(&rest) {
            Some(p) => Some(ver_le(filled(p), v)),
            None => None,
        }
    } else if tok.len() >= 1 && tok[0] == 0x3e {
        let rest = tail_from(tok, 1);
        match parse_partial(&rest) {
            Some(p) => Some(!ver_le(v, filled(p))),
            None => None,
        }
    } else {
        match parse_partial(tok) {
            Some(p) => Some(exact_matches(v, p)),
            None => None,
        }
    }
}

pub fn tail_from(v: &Vec<u8>, n: usize) -> (r: Vec<u8>)
    requires
        n <= v@.len(),
    ensures
        r@ =~= v@.skip(n as int),
{
    let mut out: Vec<u8> = Vec::new();
    let mut i: usize = n;
    while i < v.len()
        invariant
            n <= i <= v.len(),
            out@.len() == i - n,
            forall|j: int| 0 <= j < out@.len() ==> out@[j] == v@[n + j],
        decreases v.len() - i,
    {
        out.push(v[i]);
        i = i + 1;
    }
    out
}

pub fn filled(p: Partial) -> (r: Version)
    ensures
        r == spec_filled(p),
{
    Version {
        major: p.major,
        minor: match p.minor {
            Some(n) => n,
            None => 0,
        },
        patch: match p.patch {
            Some(q) => q,
            None => 0,
        },
    }
}

fn exact_matches(v: Version, p: Partial) -> (r: bool)
    ensures
        r == spec_exact_matches(v, p),
{
    v.major == p.major && (match p.minor {
        Some(n) => v.minor == n,
        None => true,
    }) && (match p.patch {
        Some(q) => v.patch == q,
        None => true,
    })
}

fn le_upper(v: Version, p: Partial) -> (r: bool)
    ensures
        r == spec_le_upper(v, p),
{
    match p.minor {
        None => v.major <= p.major,
        Some(n) => match p.patch {
            None => v.major < p.major || (v.major == p.major && v.minor <= n),
            Some(_) => ver_le(v, filled(p)),
        },
    }
}

/// Conjunction of comparator tokens; any unparseable token fails the
/// whole range.
pub open spec fn spec_all_tokens_match(v: Version, toks: Seq<Seq<u8>>) -> bool
    decreases toks.len(),
{
    if toks.len() == 0 {
        true
    } else {
        match spec_token_matches(v, toks[0]) {
            Some(b) => b && spec_all_tokens_match(v, toks.drop_first()),
            None => false,
        }
    }
}

/// Whether version `v` satisfies the range expression `range`.
pub open spec fn spec_range_matches(range: Seq<u8>, v: Version) -> bool {
    let toks = spec_split(range, 0x20);
    if toks.len() == 3 && toks[1] =~= seq![0x2du8] {
        match (spec_partial(toks[0]), spec_partial(toks[2])) {
            (Some(a), Some(b)) => spec_ver_le(spec_filled(a), v) && spec_le_upper(v, b),
            _ => false,
        }
    } else {
        spec_all_tokens_match(v, toks)
    }
}

/// Evaluates a range expression against a version.
pub fn range_matches(range: &Vec<u8>, v: Version) -> (r: bool)
    ensures
        r == spec_range_matches(range@, v),
{
    let toks = split_byte(range, 0x20);
    let ghost tv = toks.deep_view();
    proof {
        assert(tv.len() == toks@.len());
        assert(forall|i: int| 0 <= i < toks@.len() ==> tv[i] == (#[trigger] toks@[i])@);
    }
    if toks.len() == 3 && toks[1].len() == 1 && toks[1][0] == 0x2d {
        proof {
            assert(tv[1] == toks@[1]@);
            assert(tv[1] =~= seq![0x2du8]);
            assert(tv == spec_split(range@, 0x20));
        }
        let a = parse_partial(&toks[0]);
        let b = parse_partial(&toks[2]);
        return match (a, b) {
            (Some(pa), Some(pb)) => ver_le(filled(pa), v) && le_upper(v, pb),
            _ => false,
        };
    }
    proof {
        assert(tv == spec_split(range@, 0x20));
        if toks@.len() == 3 {
            assert(tv[1] == toks@[1]@);
            if tv[1] =~= seq![0x2du8] {
                assert(toks@[1]@.len() == 1 && toks@[1]@[0] == 0x2d);
            }
        }
    }
    let mut i: usize = 0;
    proof {
        assert(tv.skip(0) =~= tv);
    }
    while i < toks.len()
        invariant
            tv == toks.deep_view(),
            tv.len() == toks@.len(),
            0 <= i <= toks.len(),
            spec_all_tokens_match(v, tv) == spec_all_tokens_match(v, tv.skip(i as int)),
            spec_range_matches(range@, v) == spec_all_tokens_match(v, tv),
        decreases toks.len() - i,
    {
        let ghost tail = tv.skip(i as int);
        proof {
            assert(tail[0] == tv[i as int]);
            assert(tv[i as int] == toks@[i as int]@);
            assert(tail.drop_first() =~= tv.skip(i as int + 1));
        }
        match token_matches(v, &toks[i]) {
            Some(b) => {
                if !b {
                    return false;
                }
            },
            None => {
                return false;
            },
        }
        i = i + 1;
    }
    proof {
        assert(tv.skip(tv.len() as int).len() == 0);
    }
    true
}

} // verus!
