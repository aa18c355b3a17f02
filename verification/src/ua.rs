//! User-agent identification: maps a raw user-agent string to a browser
//! family and version.
//!
//! A compact synthetic form `family/major(.minor(.patch)?)?` is tried
//! first and bypasses the needle table. Full strings are matched against
//! an ordered table of needles; the order is significant (iOS browsers
//! before desktop Safari, Edge and Opera before Chrome), so more specific
//! families win over generic ones.

use vstd::prelude::*;

use crate::bytes::{eq_bytes, find_byte, lower, to_lower};
use crate::lit::{
    f_chrome_b, f_chrome_mob_b, f_chrome_mob_v, f_chrome_v, f_edge_b, f_edge_mob_b, f_edge_mob_v,
    f_edge_v, f_firefox_b, f_firefox_mob_b, f_firefox_mob_v, f_firefox_v, f_googlebot_b,
    f_googlebot_v, f_ie_b, f_ie_mob_b, f_ie_mob_v, f_ie_v, f_ios_chr_b, f_ios_chr_v, f_ios_saf_b,
    f_ios_saf_v, f_opera_b, f_opera_mini_b, f_opera_mini_v, f_opera_mob_b, f_opera_mob_v,
    f_opera_v, f_safari_b, f_safari_v, f_samsung_mob_b, f_samsung_mob_v, f_unknown_b, f_unknown_v,
    f_yandex_browser_b, f_yandex_browser_v, n_chrome_b, n_chrome_v, n_crios_b, n_crios_v,
    n_edga_b, n_edga_v, n_edge_b, n_edge_v, n_firefox_b, n_firefox_v, n_googlebot_b,
    n_googlebot_slash_b, n_googlebot_slash_v, n_googlebot_v, n_iemobile_b, n_iemobile_v,
    n_ipad_b, n_ipad_v, n_iphone_b, n_iphone_v, n_mobile_b, n_mobile_v, n_msie_b, n_msie_v,
    n_opera_mini_b, n_opera_mini_v, n_opera_mobi_b, n_opera_mobi_v, n_opera_slash_b,
    n_opera_slash_v, n_opr_b, n_opr_v, n_rv_b, n_rv_v, n_safari_b, n_safari_v, n_samsung_b,
    n_samsung_v, n_trident_b, n_trident_v, n_version_b, n_version_v, n_yabrowser_b,
    n_yabrowser_v,
};
use crate::semver::{parse_partial, spec_filled, spec_partial, Partial, Version};

verus! {

/// The fixed enumeration of recognized browser families.
#[derive(Clone, Copy, PartialEq, Eq, Structural, Debug)]
pub enum Family {
    Ie,
    IeMob,
    Firefox,
    FirefoxMob,
    Chrome,
    ChromeMob,
    Safari,
    IosSaf,
    IosChr,
    Opera,
    OperaMob,
    OperaMini,
    Edge,
    EdgeMob,
    SamsungMob,
    YandexBrowser,
    Googlebot,
    Unknown,
}

/// An identified user agent.
#[derive(Clone, Copy, PartialEq, Eq, Structural, Debug)]
pub struct UserAgent {
    pub family: Family,
    pub version: Version,
}

/// The canonical name of a family, as used in the synthetic form and in
/// catalogue `browsers` tables.
pub open spec fn family_name(f: Family) -> Seq<u8> {
    match f {
        Family::Ie => f_ie_b(),
        Family::IeMob => f_ie_mob_b(),
        Family::Firefox => f_firefox_b(),
        Family::FirefoxMob => f_firefox_mob_b(),
        Family::Chrome => f_chrome_b(),
        Family::ChromeMob => f_chrome_mob_b(),
        Family::Safari => f_safari_b(),
        Family::IosSaf => f_ios_saf_b(),
        Family::IosChr => f_ios_chr_b(),
        Family::Opera => f_opera_b(),
        Family::OperaMob => f_opera_mob_b(),
        Family::OperaMini => f_opera_mini_b(),
        Family::Edge => f_edge_b(),
        Family::EdgeMob => f_edge_mob_b(),
        Family::SamsungMob => f_samsung_mob_b(),
        Family::YandexBrowser => f_yandex_browser_b(),
        Family::Googlebot => f_googlebot_b(),
        Family::Unknown => f_unknown_b(),
    }
}

pub fn family_name_bytes(f: Family) -> (r: Vec<u8>)
    ensures
        r@ =~= family_name(f),
{
    match f {
        Family::Ie => f_ie_v(),
        Family::IeMob => f_ie_mob_v(),
        Family::Firefox => f_firefox_v(),
        Family::FirefoxMob => f_firefox_mob_v(),
        Family::Chrome => f_chrome_v(),
        Family::ChromeMob => f_chrome_mob_v(),
        Family::Safari => f_safari_v(),
        Family::IosSaf => f_ios_saf_v(),
        Family::IosChr => f_ios_chr_v(),
        Family::Opera => f_opera_v(),
        Family::OperaMob => f_opera_mob_v(),
        Family::OperaMini => f_opera_mini_v(),
        Family::Edge => f_edge_v(),
        Family::EdgeMob => f_edge_mob_v(),
        Family::SamsungMob => f_samsung_mob_v(),
        Family::YandexBrowser => f_yandex_browser_v(),
        Family::Googlebot => f_googlebot_v(),
        Family::Unknown => f_unknown_v(),
    }
}

/// The family whose canonical name is `n`, if any.
pub open spec fn spec_family_of_name(n: Seq<u8>) -> Option<Family> {
    if n =~= f_ie_b() {
        Some(Family::Ie)
    } else if n =~= f_ie_mob_b() {
        Some(Family::IeMob)
    } else if n =~= f_firefox_b() {
        Some(Family::Firefox)
    } else if n =~= f_firefox_mob_b() {
        Some(Family::FirefoxMob)
    } else if n =~= f_chrome_b() {
        Some(Family::Chrome)
    } else if n =~= f_chrome_mob_b() {
        Some(Family::ChromeMob)
    } else if n =~= f_safari_b() {
        Some(Family::Safari)
    } else if n =~= f_ios_saf_b() {
        Some(Family::IosSaf)
    } else if n =~= f_ios_chr_b() {
        Some(Family::IosChr)
    } else if n =~= f_opera_b() {
        Some(Family::Opera)
    } else if n =~= f_opera_mob_b() {
        Some(Family::OperaMob)
    } else if n =~= f_opera_mini_b() {
        Some(Family::OperaMini)
    } else if n =~= f_edge_b() {
        Some(Family::Edge)
    } else if n =~= f_edge_mob_b() {
        Some(Family::EdgeMob)
    } else if n =~= f_samsung_mob_b() {
        Some(Family::SamsungMob)
    } else if n =~= f_yandex_browser_b() {
        Some(Family::YandexBrowser)
    } else if n =~= f_googlebot_b() {
        Some(Family::Googlebot)
    } else {
        None
    }
}

pub fn family_of_name(n: &Vec<u8>) -> (r: Option<Family>)
    ensures
        r == spec_family_of_name(n@),
{
    if eq_bytes(n, &f_ie_v()) {
        Some(Family::Ie)
    } else if eq_bytes(n, &f_ie_mob_v()) {
        Some(Family::IeMob)
    } else if eq_bytes(n, &f_firefox_v()) {
        Some(Family::Firefox)
    } else if eq_bytes(n, &f_firefox_mob_v()) {
        Some(Family::FirefoxMob)
    } else if eq_bytes(n, &f_chrome_v()) {
        Some(Family::Chrome)
    } else if eq_bytes(n, &f_chrome_mob_v()) {
        Some(Family::ChromeMob)
    } else if eq_bytes(n, &f_safari_v()) {
        Some(Family::Safari)
    } else if eq_bytes(n, &f_ios_saf_v()) {
        Some(Family::IosSaf)
    } else if eq_bytes(n, &f_ios_chr_v()) {
        Some(Family::IosChr)
    } else if eq_bytes(n, &f_opera_v()) {
        Some(Family::Opera)
    } else if eq_bytes(n, &f_opera_mob_v()) {
        Some(Family::OperaMob)
    } else if eq_bytes(n, &f_opera_mini_v()) {
        Some(Family::OperaMini)
    } else if eq_bytes(n, &f_edge_v()) {
        Some(Family::Edge)
    } else if eq_bytes(n, &f_edge_mob_v()) {
        Some(Family::EdgeMob)
    } else if eq_bytes(n, &f_samsung_mob_v()) {
        Some(Family::SamsungMob)
    } else if eq_bytes(n, &f_yandex_browser_v()) {
        Some(Family::YandexBrowser)
    } else if eq_bytes(n, &f_googlebot_v()) {
        Some(Family::Googlebot)
    } else {
        None
    }
}

/// The synthetic form `family/major(.minor(.patch)?)?`.
pub open spec fn spec_synthetic(ua: Seq<u8>) -> Option<UserAgent> {
    let i = find_byte(ua, 0x2f);
    if i < 0 || i >= ua.len() {
        None
    } else {
        match spec_family_of_name(lower(ua.take(i))) {
            Some(f) => match spec_partial(ua.skip(i + 1)) {
                Some(p) => Some(UserAgent { family: f, version: spec_filled(p) }),
                None => None,
            },
            None => None,
        }
    }
}

pub fn parse_synthetic(ua: &Vec<u8>) -> (r: Option<UserAgent>)
    ensures
        r == spec_synthetic(ua@),
{
    proof {
        crate::bytes::lemma_find_byte_spec(ua@, 0x2f);
    }
    let mut i: usize = 0;
    let mut slash: Option<usize> = None;
    while i < ua.len() && slash.is_none()
        invariant
            0 <= i <= ua.len(),
            slash is None ==> forall|j: int| 0 <= j < i ==> ua@[j] != 0x2f,
            slash is Some ==> 0 <= slash->0 < ua@.len() && slash->0 == i && ua@[slash->0 as int]
                == 0x2f && forall|j: int| 0 <= j < slash->0 ==> ua@[j] != 0x2f,
        decreases ua.len() - i + (if slash is Some { 0int } else { 1int }),
    {
        if ua[i] == 0x2f {
            slash = Some(i);
        } else {
            i = i + 1;
        }
    }
    match slash {
        None => {
            proof {
                crate::bytes::lemma_find_byte_none(ua@, 0x2f);
            }
            None
        },
        Some(k) => {
            proof {
                crate::bytes::lemma_find_byte_at(ua@, 0x2f, k as int);
            }
            let mut head: Vec<u8> = Vec::new();
            let mut j: usize = 0;
            while j < k
                invariant
                    0 <= j <= k < ua@.len(),
                    head@.len() == j,
                    forall|m: int| 0 <= m < j ==> head@[m] == ua@[m],
                decreases k - j,
            {
                head.push(ua[j]);
                j = j + 1;
            }
            proof {
                assert(head@ =~= ua@.take(k as int));
            }
            let name = to_lower(&head);
            let rest = crate::semver::tail_from(ua, k + 1);
            match family_of_name(&name) {
                Some(f) => match parse_partial(&rest) {
                    Some(p) => Some(
                        UserAgent { family: f, version: crate::semver::filled(p) },
                    ),
                    None => None,
                },
                None => None,
            }
        },
    }
}

/// Position of the first occurrence of `p` in `s`, or `-1`.
pub open spec fn first_sub(s: Seq<u8>, p: Seq<u8>) -> int
    decreases s.len(),
{
    if p.len() <= s.len() && s.take(p.len() as int) =~= p {
        0
    } else if s.len() == 0 {
        -1
    } else {
        let r = first_sub(s.drop_first(), p);
        if r < 0 {
            -1
        } else {
            r + 1
        }
    }
}

pub open spec fn contains_sub(s: Seq<u8>, p: Seq<u8>) -> bool {
    first_sub(s, p) >= 0
}

pub proof fn lemma_first_sub_spec(s: Seq<u8>, p: Seq<u8>)
    ensures
        first_sub(s, p) >= 0 ==> first_sub(s, p) + p.len() <= s.len() && s.subrange(
            first_sub(s, p),
            first_sub(s, p) + p.len(),
        ) =~= p,
    decreases s.len(),
{
    let i = first_sub(s, p);
    if p.len() <= s.len() && s.take(p.len() as int) =~= p {
        assert(s.subrange(0, p.len() as int) =~= s.take(p.len() as int));
    } else if s.len() == 0 {
    } else {
        lemma_first_sub_spec(s.drop_first(), p);
        let r = first_sub(s.drop_first(), p);
        if r >= 0 {
            assert(s.drop_first().subrange(r, r + p.len()) =~= s.subrange(r + 1, r + 1 + p.len()));
        }
    }
}

/// Finds the first occurrence of `p` in `s`.
pub fn find_sub(s: &Vec<u8>, p: &Vec<u8>) -> (r: Option<usize>)
    ensures
        match r {
            Some(i) => first_sub(s@, p@) == i,
            None => first_sub(s@, p@) < 0,
        },
{
    if p.len() > s.len() {
        proof {
            lemma_first_sub_short(s@, p@);
        }
        return None;
    }
    let mut i: usize = 0;
    let last = s.len() - p.len();
    proof {
        assert(s@.len() == s.len());
    }
    while i <= last
        invariant
            p@.len() <= s@.len(),
            last == s@.len() - p@.len(),
            0 <= i <= last + 1,
            forall|m: int|
                0 <= m < i ==> !(s@.skip(m).len() >= p@.len() && #[trigger] s@.skip(m).take(
                    p@.len() as int,
                ) =~= p@),
        decreases s.len() - i,
    {
        let mut j: usize = 0;
        let mut ok = true;
        while j < p.len()
            invariant
                s@.len() <= usize::MAX,
                i + p@.len() <= s@.len(),
                0 <= j <= p@.len(),
                ok ==> forall|m: int| 0 <= m < j ==> s@[i + m] == p@[m],
                !ok ==> exists|m: int| 0 <= m < p@.len() && s@[i + m] != p@[m],
            decreases p.len() - j,
        {
            if s[i + j] != p[j] {
                ok = false;
                proof {
                    assert(s@[i + j] != p@[j as int]);
                }
            }
            j = j + 1;
        }
        if ok {
            proof {
                assert(s@.skip(i as int).take(p@.len() as int) =~= p@) by {
                    assert(forall|m: int|
                        0 <= m < p@.len() ==> s@.skip(i as int).take(p@.len() as int)[m] == s@[
                            i + m
                        ]);
                }
                lemma_first_sub_at(s@, p@, i as int);
            }
            return Some(i);
        }
        proof {
            let m = choose|m: int| 0 <= m < p@.len() && s@[i + m] != p@[m];
            assert(s@.skip(i as int).take(p@.len() as int)[m] == s@[i + m]);
            assert(!(s@.skip(i as int).take(p@.len() as int) =~= p@));
        }
        i = i + 1;
    }
    proof {
        lemma_first_sub_none(s@, p@);
    }
    None
}

proof fn lemma_first_sub_short(s: Seq<u8>, p: Seq<u8>)
    requires
        p.len() > s.len(),
    ensures
        first_sub(s, p) < 0,
    decreases s.len(),
{
    if s.len() > 0 {
        lemma_first_sub_short(s.drop_first(), p);
    }
}

proof fn lemma_first_sub_at(s: Seq<u8>, p: Seq<u8>, i: int)
    requires
        0 <= i,
        i + p.len() <= s.len(),
        s.skip(i).take(p.len() as int) =~= p,
        forall|m: int|
            0 <= m < i ==> !(s.skip(m).len() >= p.len() && #[trigger] s.skip(m).take(
                p.len() as int,
            ) =~= p),
    ensures
        first_sub(s, p) == i,
    decreases i,
{
    if i == 0 {
        assert(s.take(p.len() as int) =~= s.skip(0).take(p.len() as int));
    } else {
        assert(s.skip(0) =~= s);
        assert(!(s.take(p.len() as int) =~= p)) by {
            assert(s.skip(0).take(p.len() as int) =~= s.take(p.len() as int));
        }
        assert(s.len() > 0);
        let t = s.drop_first();
        assert(t.skip(i - 1) =~= s.skip(i));
        assert forall|m: int|
            0 <= m < i - 1 implies !(t.skip(m).len() >= p.len() && #[trigger] t.skip(m).take(
            p.len() as int,
        ) =~= p) by {
            assert(t.skip(m) =~= s.skip(m + 1));
        }
        lemma_first_sub_at(t, p, i - 1);
    }
}

proof fn lemma_first_sub_none(s: Seq<u8>, p: Seq<u8>)
    requires
        forall|m: int|
            0 <= m <= s.len() - p.len() ==> !(#[trigger] s.skip(m).take(p.len() as int) =~= p),
    ensures
        first_sub(s, p) < 0,
    decreases s.len(),
{
    if p.len() <= s.len() && s.take(p.len() as int) =~= p {
        assert(s.skip(0) =~= s);
        assert(s.skip(0).take(p.len() as int) =~= s.take(p.len() as int));
    } else if s.len() == 0 {
    } else {
        let t = s.drop_first();
        assert forall|m: int|
            0 <= m <= t.len() - p.len() implies !(#[trigger] t.skip(m).take(p.len() as int)
            =~= p) by {
            assert(t.skip(m) =~= s.skip(m + 1));
        }
        lemma_first_sub_none(t, p);
    }
}

/// The version written at `pos`: the run of digits and dots starting
/// there, read as a partial version; anything unreadable is version zero.
pub open spec fn spec_run_len(s: Seq<u8>, pos: int) -> int
    decreases s.len() - pos,
{
    if pos < 0 || pos >= s.len() {
        0
    } else if (0x30 <= s[pos] <= 0x39) || s[pos] == 0x2e {
        1 + spec_run_len(s, pos + 1)
    } else {
        0
    }
}

/// At most the first three dot-separated components of a version run:
/// trailing build components are ignored.
pub open spec fn first_three(run: Seq<u8>) -> Seq<u8> {
    let parts = crate::bytes::spec_split(run, 0x2e);
    if parts.len() <= 3 {
        run
    } else {
        parts[0] + seq![0x2eu8] + parts[1] + seq![0x2eu8] + parts[2]
    }
}

pub open spec fn spec_version_at(s: Seq<u8>, pos: int) -> Version {
    let run = s.subrange(pos, pos + spec_run_len(s, pos));
    match spec_partial(first_three(run)) {
        Some(p) => spec_filled(p),
        None => Version { major: 0, minor: 0, patch: 0 },
    }
}

fn version_at(s: &Vec<u8>, pos: usize) -> (r: Version)
    requires
        pos <= s@.len(),
    ensures
        r == spec_version_at(s@, pos as int),
{
    let mut run: Vec<u8> = Vec::new();
    let mut i: usize = pos;
    proof {
        lemma_run_len_bounds(s@, pos as int);
    }
    while i < s.len() && ((0x30 <= s[i] && s[i] <= 0x39) || s[i] == 0x2e)
        invariant
            pos <= i <= s@.len(),
            spec_run_len(s@, pos as int) == i - pos + spec_run_len(s@, i as int),
            run@ =~= s@.subrange(pos as int, i as int),
            forall|j: int| pos <= j < i ==> (0x30 <= s@[j] <= 0x39) || s@[j] == 0x2e,
        decreases s.len() - i,
    {
        proof {
            lemma_run_len_bounds(s@, i as int + 1);
        }
        run.push(s[i]);
        i = i + 1;
    }
    proof {
        assert(spec_run_len(s@, i as int) == 0);
        assert(run@ =~= s@.subrange(pos as int, pos + spec_run_len(s@, pos as int)));
    }
    let parts = crate::bytes::split_byte(&run, 0x2e);
    let trimmed: Vec<u8>;
    if parts.len() <= 3 {
        trimmed = run;
    } else {
        proof {
            assert(parts.deep_view().len() == parts@.len());
            assert(forall|m: int|
                0 <= m < parts@.len() ==> parts.deep_view()[m] == (#[trigger] parts@[m])@);
        }
        let mut t = parts[0].clone();
        t.push(0x2e);
        t = crate::get_polyfill_string::append_bytes(t, &parts[1]);
        t.push(0x2e);
        t = crate::get_polyfill_string::append_bytes(t, &parts[2]);
        proof {
            let pv = parts.deep_view();
            assert(t@ =~= pv[0] + seq![0x2eu8] + pv[1] + seq![0x2eu8] + pv[2]);
        }
        trimmed = t;
    }
    match parse_partial(&trimmed) {
        Some(p) => crate::semver::filled(p),
        None => Version { major: 0, minor: 0, patch: 0 },
    }
}

proof fn lemma_run_len_bounds(s: Seq<u8>, pos: int)
    ensures
        0 <= spec_run_len(s, pos),
        0 <= pos <= s.len() ==> pos + spec_run_len(s, pos) <= s.len(),
    decreases s.len() - pos,
{
    if 0 <= pos < s.len() && ((0x30 <= s[pos] <= 0x39) || s[pos] == 0x2e) {
        lemma_run_len_bounds(s, pos + 1);
    }
}

/// The version following the needle's first occurrence; zero when the
/// needle is absent.
pub open spec fn spec_version_after(s: Seq<u8>, needle: Seq<u8>) -> Version {
    let i = first_sub(s, needle);
    if i < 0 || i + needle.len() > s.len() {
        Version { major: 0, minor: 0, patch: 0 }
    } else {
        spec_version_at(s, i + needle.len())
    }
}

fn version_after(s: &Vec<u8>, needle: &Vec<u8>) -> (r: Version)
    ensures
        r == spec_version_after(s@, needle@),
{
    match find_sub(s, needle) {
        Some(i) => {
            proof {
                lemma_first_sub_spec(s@, needle@);
                assert(s@.len() == s.len());
                assert(i + needle@.len() <= s@.len());
            }
            version_at(s, i + needle.len())
        },
        None => Version { major: 0, minor: 0, patch: 0 },
    }
}

fn has_sub(s: &Vec<u8>, needle: &Vec<u8>) -> (r: bool)
    ensures
        r == contains_sub(s@, needle@),
{
    match find_sub(s, needle) {
        Some(_) => true,
        None => false,
    }
}

/// The ordered needle table for full user-agent strings.
pub open spec fn spec_detect_full(ua: Seq<u8>) -> UserAgent {
    if contains_sub(ua, n_iemobile_b()) {
        UserAgent { family: Family::IeMob, version: spec_version_after(ua, n_iemobile_b()) }
    } else if contains_sub(ua, n_msie_b()) {
        UserAgent { family: Family::Ie, version: spec_version_after(ua, n_msie_b()) }
    } else if contains_sub(ua, n_trident_b()) && contains_sub(ua, n_rv_b()) {
        UserAgent { family: Family::Ie, version: spec_version_after(ua, n_rv_b()) }
    } else if contains_sub(ua, n_edge_b()) {
        UserAgent { family: Family::Edge, version: spec_version_after(ua, n_edge_b()) }
    } else if contains_sub(ua, n_edga_b()) {
        UserAgent { family: Family::EdgeMob, version: spec_version_after(ua, n_edga_b()) }
    } else if contains_sub(ua, n_samsung_b()) {
        UserAgent { family: Family::SamsungMob, version: spec_version_after(ua, n_samsung_b()) }
    } else if contains_sub(ua, n_yabrowser_b()) {
        UserAgent {
            family: Family::YandexBrowser,
            version: spec_version_after(ua, n_yabrowser_b()),
        }
    } else if contains_sub(ua, n_opera_mini_b()) {
        UserAgent { family: Family::OperaMini, version: spec_version_after(ua, n_opera_mini_b()) }
    } else if contains_sub(ua, n_opera_mobi_b()) {
        UserAgent { family: Family::OperaMob, version: spec_version_after(ua, n_version_b()) }
    } else if contains_sub(ua, n_opr_b()) {
        UserAgent { family: Family::Opera, version: spec_version_after(ua, n_opr_b()) }
    } else if contains_sub(ua, n_opera_slash_b()) {
        UserAgent { family: Family::Opera, version: spec_version_after(ua, n_version_b()) }
    } else if contains_sub(ua, n_crios_b()) {
        UserAgent { family: Family::IosChr, version: spec_version_after(ua, n_crios_b()) }
    } else if contains_sub(ua, n_googlebot_b()) {
        UserAgent {
            family: Family::Googlebot,
            version: spec_version_after(ua, n_googlebot_slash_b()),
        }
    } else if contains_sub(ua, n_firefox_b()) {
        if contains_sub(ua, n_mobile_b()) {
            UserAgent { family: Family::FirefoxMob, version: spec_version_after(ua, n_firefox_b()) }
        } else {
            UserAgent { family: Family::Firefox, version: spec_version_after(ua, n_firefox_b()) }
        }
    } else if contains_sub(ua, n_chrome_b()) {
        if contains_sub(ua, n_mobile_b()) {
            UserAgent { family: Family::ChromeMob, version: spec_version_after(ua, n_chrome_b()) }
        } else {
            UserAgent { family: Family::Chrome, version: spec_version_after(ua, n_chrome_b()) }
        }
    } else if (contains_sub(ua, n_iphone_b()) || contains_sub(ua, n_ipad_b())) && contains_sub(
        ua,
        n_version_b(),
    ) {
        UserAgent { family: Family::IosSaf, version: spec_version_after(ua, n_version_b()) }
    } else if contains_sub(ua, n_version_b()) && contains_sub(ua, n_safari_b()) {
        UserAgent { family: Family::Safari, version: spec_version_after(ua, n_version_b()) }
    } else {
        UserAgent { family: Family::Unknown, version: Version { major: 0, minor: 0, patch: 0 } }
    }
}

/// What a user-agent string resolves to: the synthetic form when it
/// parses, the needle table otherwise.
pub open spec fn spec_detect(ua: Seq<u8>) -> UserAgent {
    match spec_synthetic(ua) {
        Some(u) => u,
        None => spec_detect_full(ua),
    }
}

/// Identifies a user-agent string.
pub fn detect_ua(ua: &Vec<u8>) -> (r: UserAgent)
    ensures
        r == spec_detect(ua@),
{
    match parse_synthetic(ua) {
        Some(u) => u,
        None => {
            if has_sub(ua, &n_iemobile_v()) {
                UserAgent { family: Family::IeMob, version: version_after(ua, &n_iemobile_v()) }
            } else if has_sub(ua, &n_msie_v()) {
                UserAgent { family: Family::Ie, version: version_after(ua, &n_msie_v()) }
            } else if has_sub(ua, &n_trident_v()) && has_sub(ua, &n_rv_v()) {
                UserAgent { family: Family::Ie, version: version_after(ua, &n_rv_v()) }
            } else if has_sub(ua, &n_edge_v()) {
                UserAgent { family: Family::Edge, version: version_after(ua, &n_edge_v()) }
            } else if has_sub(ua, &n_edga_v()) {
                UserAgent { family: Family::EdgeMob, version: version_after(ua, &n_edga_v()) }
            } else if has_sub(ua, &n_samsung_v()) {
                UserAgent {
                    family: Family::SamsungMob,
                    version: version_after(ua, &n_samsung_v()),
                }
            } else if has_sub(ua, &n_yabrowser_v()) {
                UserAgent {
                    family: Family::YandexBrowser,
                    version: version_after(ua, &n_yabrowser_v()),
                }
            } else if has_sub(ua, &n_opera_mini_v()) {
                UserAgent {
                    family: Family::OperaMini,
                    version: version_after(ua, &n_opera_mini_v()),
                }
            } else if has_sub(ua, &n_opera_mobi_v()) {
                UserAgent { family: Family::OperaMob, version: version_after(ua, &n_version_v()) }
            } else if has_sub(ua, &n_opr_v()) {
                UserAgent { family: Family::Opera, version: version_after(ua, &n_opr_v()) }
            } else if has_sub(ua, &n_opera_slash_v()) {
                UserAgent { family: Family::Opera, version: version_after(ua, &n_version_v()) }
            } else if has_sub(ua, &n_crios_v()) {
                UserAgent { family: Family::IosChr, version: version_after(ua, &n_crios_v()) }
            } else if has_sub(ua, &n_googlebot_v()) {
                UserAgent {
                    family: Family::Googlebot,
                    version: version_after(ua, &n_googlebot_slash_v()),
                }
            } else if has_sub(ua, &n_firefox_v()) {
                if has_sub(ua, &n_mobile_v()) {
                    UserAgent {
                        family: Family::FirefoxMob,
                        version: version_after(ua, &n_firefox_v()),
                    }
                } else {
                    UserAgent {
                        family: Family::Firefox,
                        version: version_after(ua, &n_firefox_v()),
                    }
                }
            } else if has_sub(ua, &n_chrome_v()) {
                if has_sub(ua, &n_mobile_v()) {
                    UserAgent {
                        family: Family::ChromeMob,
                        version: version_after(ua, &n_chrome_v()),
                    }
                } else {
                    UserAgent { family: Family::Chrome, version: version_after(ua, &n_chrome_v()) }
                }
            } else if (has_sub(ua, &n_iphone_v()) || has_sub(ua, &n_ipad_v())) && has_sub(
                ua,
                &n_version_v(),
            ) {
                UserAgent { family: Family::IosSaf, version: version_after(ua, &n_version_v()) }
            } else if has_sub(ua, &n_version_v()) && has_sub(ua, &n_safari_v()) {
                UserAgent { family: Family::Safari, version: version_after(ua, &n_version_v()) }
            } else {
                UserAgent {
                    family: Family::Unknown,
                    version: Version { major: 0, minor: 0, patch: 0 },
                }
            }
        },
    }
}

/// The modernity threshold per family: a user agent at or above it needs
/// no polyfills, and the metrics collaborator counts it. The thresholds
/// are data, not behavior.
pub open spec fn spec_up_to_date(u: UserAgent) -> bool {
    match u.family {
        Family::Chrome => u.version.major >= 102,
        Family::ChromeMob => u.version.major >= 102,
        Family::Firefox => u.version.major >= 102,
        Family::FirefoxMob => u.version.major >= 102,
        Family::Edge => u.version.major >= 102,
        Family::EdgeMob => u.version.major >= 102,
        Family::Safari => u.version.major >= 15,
        Family::IosSaf => u.version.major >= 15,
        Family::IosChr => u.version.major >= 102,
        Family::Opera => u.version.major >= 88,
        Family::SamsungMob => u.version.major >= 17,
        Family::YandexBrowser => u.version.major >= 22,
        _ => false,
    }
}

/// Whether the identified user agent meets its family's modernity
/// threshold.
pub fn ua_is_up_to_date(u: UserAgent) -> (r: bool)
    ensures
        r == spec_up_to_date(u),
{
    match u.family {
        Family::Chrome => u.version.major >= 102,
        Family::ChromeMob => u.version.major >= 102,
        Family::Firefox => u.version.major >= 102,
        Family::FirefoxMob => u.version.major >= 102,
        Family::Edge => u.version.major >= 102,
        Family::EdgeMob => u.version.major >= 102,
        Family::Safari => u.version.major >= 15,
        Family::IosSaf => u.version.major >= 15,
        Family::IosChr => u.version.major >= 102,
        Family::Opera => u.version.major >= 88,
        Family::SamsungMob => u.version.major >= 17,
        Family::YandexBrowser => u.version.major >= 22,
        _ => false,
    }
}

} // verus!
