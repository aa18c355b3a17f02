//! Byte-string utilities: lexicographic order, equality, splitting,
//! lowercasing and decimal parsing, with exact specifications.

use vstd::prelude::*;

verus! {

/// Lexicographic `<=` on byte strings.
pub open spec fn lex_le(a: Seq<u8>, b: Seq<u8>) -> bool
    decreases a.len(),
{
    if a.len() == 0 {
        true
    } else if b.len() == 0 {
        false
    } else if a[0] < b[0] {
        true
    } else if a[0] > b[0] {
        false
    } else {
        lex_le(a.drop_first(), b.drop_first())
    }
}

/// Strict lexicographic `<` on byte strings.
pub open spec fn lex_lt(a: Seq<u8>, b: Seq<u8>) -> bool {
    lex_le(a, b) && !(a =~= b)
}

pub proof fn lemma_lex_le_total(a: Seq<u8>, b: Seq<u8>)
    ensures
        lex_le(a, b) || lex_le(b, a),
    decreases a.len(),
{
    if a.len() == 0 || b.len() == 0 {
    } else if a[0] == b[0] {
        lemma_lex_le_total(a.drop_first(), b.drop_first());
    }
}

pub proof fn lemma_lex_le_antisym(a: Seq<u8>, b: Seq<u8>)
    requires
        lex_le(a, b),
        lex_le(b, a),
    ensures
        a =~= b,
    decreases a.len(),
{
    if a.len() == 0 {
        assert(b.len() == 0);
    } else {
        lemma_lex_le_antisym(a.drop_first(), b.drop_first());
        assert(a =~= seq![a[0]] + a.drop_first());
        assert(b =~= seq![b[0]] + b.drop_first());
    }
}

pub proof fn lemma_lex_le_trans(a: Seq<u8>, b: Seq<u8>, c: Seq<u8>)
    requires
        lex_le(a, b),
        lex_le(b, c),
    ensures
        lex_le(a, c),
    decreases a.len(),
{
    if a.len() == 0 || b.len() == 0 || c.len() == 0 {
    } else if a[0] == b[0] && b[0] == c[0] {
        lemma_lex_le_trans(a.drop_first(), b.drop_first(), c.drop_first());
    }
}

/// `lex_le` as a first-class order, for use with vstd's sorting lemmas.
pub open spec fn lex_leq_fn() -> spec_fn(Seq<u8>, Seq<u8>) -> bool {
    |a: Seq<u8>, b: Seq<u8>| lex_le(a, b)
}

pub proof fn lemma_lex_total_ordering()
    ensures
        vstd::relations::total_ordering(lex_leq_fn()),
{
    let leq = lex_leq_fn();
    assert forall|a: Seq<u8>| #[trigger] leq(a, a) by {
        lemma_lex_le_total(a, a);
    }
    assert forall|a: Seq<u8>, b: Seq<u8>| #[trigger] leq(a, b) && #[trigger] leq(b, a) implies a == b by {
        lemma_lex_le_antisym(a, b);
    }
    assert forall|a: Seq<u8>, b: Seq<u8>, c: Seq<u8>|
        #[trigger] leq(a, b) && #[trigger] leq(b, c) implies leq(a, c) by {
        lemma_lex_le_trans(a, b, c);
    }
    assert forall|a: Seq<u8>, b: Seq<u8>| #[trigger] leq(a, b) || #[trigger] leq(b, a) by {
        lemma_lex_le_total(a, b);
    }
}

proof fn lemma_lex_le_skip(a: Seq<u8>, b: Seq<u8>, i: int)
    requires
        0 <= i <= a.len(),
        i <= b.len(),
        forall|j: int| 0 <= j < i ==> a[j] == b[j],
    ensures
        lex_le(a, b) == lex_le(a.skip(i), b.skip(i)),
    decreases i,
{
    if i > 0 {
        assert(a.len() > 0 && b.len() > 0);
        assert(a[0] == b[0]);
        lemma_lex_le_skip(a.drop_first(), b.drop_first(), i - 1);
        assert(a.drop_first().skip(i - 1) =~= a.skip(i));
        assert(b.drop_first().skip(i - 1) =~= b.skip(i));
    } else {
        assert(a.skip(0) =~= a);
        assert(b.skip(0) =~= b);
    }
}

/// Decides `lex_le` on byte vectors.
pub fn lex_le_bytes(a: &Vec<u8>, b: &Vec<u8>) -> (r: bool)
    ensures
        r == lex_le(a@, b@),
{
    let mut i: usize = 0;
    loop
        invariant
            0 <= i <= a.len(),
            i <= b.len(),
            forall|j: int| 0 <= j < i ==> a@[j] == b@[j],
        decreases a.len() - i,
    {
        proof {
            lemma_lex_le_skip(a@, b@, i as int);
        }
        if i == a.len() {
            assert(a@.skip(i as int).len() == 0);
            return true;
        }
        if i == b.len() {
            assert(b@.skip(i as int).len() == 0);
            assert(a@.skip(i as int).len() > 0);
            return false;
        }
        let x = a[i];
        let y = b[i];
        assert(a@.skip(i as int)[0] == a@[i as int]);
        assert(b@.skip(i as int)[0] == b@[i as int]);
        if x < y {
            return true;
        }
        if x > y {
            return false;
        }
        i = i + 1;
    }
}

/// Byte-vector equality.
pub fn eq_bytes(a: &Vec<u8>, b: &Vec<u8>) -> (r: bool)
    ensures
        r == (a@ =~= b@),
{
    if a.len() != b.len() {
        return false;
    }
    let mut i: usize = 0;
    while i < a.len()
        invariant
            a.len() == b.len(),
            0 <= i <= a.len(),
            forall|j: int| 0 <= j < i ==> a@[j] == b@[j],
        decreases a.len() - i,
    {
        if a[i] != b[i] {
            return false;
        }
        i = i + 1;
    }
    true
}

/// Whether a sequence of byte strings contains `x`.
pub open spec fn seq_contains(s: Seq<Seq<u8>>, x: Seq<u8>) -> bool {
    exists|i: int| 0 <= i < s.len() && s[i] =~= x
}

/// Membership of a byte string in a list of byte strings.
pub fn contains_bytes(hay: &Vec<Vec<u8>>, x: &Vec<u8>) -> (r: bool)
    ensures
        r == seq_contains(hay.deep_view(), x@),
{
    let mut i: usize = 0;
    while i < hay.len()
        invariant
            0 <= i <= hay.len(),
            forall|j: int| 0 <= j < i ==> !(hay.deep_view()[j] =~= x@),
        decreases hay.len() - i,
    {
        assert(hay.deep_view()[i as int] == hay@[i as int]@);
        if eq_bytes(&hay[i], x) {
            return true;
        }
        i = i + 1;
    }
    false
}

/// ASCII lowercase of one byte.
pub open spec fn lower_byte(c: u8) -> u8 {
    if 0x41 <= c <= 0x5a {
        (c + 0x20) as u8
    } else {
        c
    }
}

/// ASCII lowercase of a byte string.
pub open spec fn lower(s: Seq<u8>) -> Seq<u8> {
    s.map_values(|c: u8| lower_byte(c))
}

/// Lowercases ASCII letters in a byte vector.
pub fn to_lower(v: &Vec<u8>) -> (r: Vec<u8>)
    ensures
        r@ =~= lower(v@),
{
    let mut out: Vec<u8> = Vec::new();
    let mut i: usize = 0;
    while i < v.len()
        invariant
            0 <= i <= v.len(),
            out@.len() == i,
            forall|j: int| 0 <= j < i ==> out@[j] == lower_byte(v@[j]),
        decreases v.len() - i,
    {
        let c = v[i];
        if 0x41 <= c && c <= 0x5a {
            out.push(c + 0x20);
        } else {
            out.push(c);
        }
        i = i + 1;
    }
    out
}

/// Index of the first occurrence of `d` in `s`, or `-1`.
pub open spec fn find_byte(s: Seq<u8>, d: u8) -> int
    decreases s.len(),
{
    if s.len() == 0 {
        -1
    } else if s[0] == d {
        0
    } else {
        let r = find_byte(s.drop_first(), d);
        if r < 0 {
            -1
        } else {
            r + 1
        }
    }
}

pub proof fn lemma_find_byte_spec(s: Seq<u8>, d: u8)
    ensures
        find_byte(s, d) >= 0 ==> find_byte(s, d) < s.len() && s[find_byte(s, d)] == d
            && forall|j: int| 0 <= j < find_byte(s, d) ==> s[j] != d,
        find_byte(s, d) < 0 ==> forall|j: int| 0 <= j < s.len() ==> s[j] != d,
    decreases s.len(),
{
    if s.len() == 0 {
    } else if s[0] == d {
    } else {
        lemma_find_byte_spec(s.drop_first(), d);
        let r = find_byte(s.drop_first(), d);
        if r >= 0 {
            assert(s[r + 1] == s.drop_first()[r]);
            assert forall|j: int| 0 <= j < r + 1 implies s[j] != d by {
                if j > 0 {
                    assert(s.drop_first()[j - 1] != d);
                }
            }
        } else {
            assert forall|j: int| 0 <= j < s.len() implies s[j] != d by {
                if j > 0 {
                    assert(s.drop_first()[j - 1] != d);
                }
            }
        }
    }
}

/// The converse direction: a position that is the first occurrence is
/// what `find_byte` returns.
pub proof fn lemma_find_byte_at(s: Seq<u8>, d: u8, i: int)
    requires
        0 <= i < s.len(),
        s[i] == d,
        forall|j: int| 0 <= j < i ==> s[j] != d,
    ensures
        find_byte(s, d) == i,
    decreases i,
{
    if i > 0 {
        lemma_find_byte_at(s.drop_first(), d, i - 1);
    }
}

pub proof fn lemma_find_byte_none(s: Seq<u8>, d: u8)
    requires
        forall|j: int| 0 <= j < s.len() ==> s[j] != d,
    ensures
        find_byte(s, d) < 0,
    decreases s.len(),
{
    if s.len() > 0 {
        lemma_find_byte_none(s.drop_first(), d);
    }
}

/// Splits a byte string at every occurrence of `d`. The result always has
/// one more piece than there are delimiters; an empty input gives one
/// empty piece.
pub open spec fn spec_split(s: Seq<u8>, d: u8) -> Seq<Seq<u8>>
    decreases s.len(),
{
    let i = find_byte(s, d);
    if i < 0 || i >= s.len() {
        seq![s]
    } else {
        seq![s.take(i)] + spec_split(s.skip(i + 1), d)
    }
}

/// Splits a byte vector at every occurrence of `d`.
pub fn split_byte(v: &Vec<u8>, d: u8) -> (r: Vec<Vec<u8>>)
    ensures
        r.deep_view() =~= spec_split(v@, d),
{
    let mut out: Vec<Vec<u8>> = Vec::new();
    let mut start: usize = 0;
    let mut piece: Vec<u8> = Vec::new();
    let mut i: usize = 0;
    proof {
        assert(v@.skip(0) =~= v@);
        assert(out.deep_view() =~= Seq::<Seq<u8>>::empty());
        assert(Seq::<Seq<u8>>::empty() + spec_split(v@, d) =~= spec_split(v@, d));
    }
    while i < v.len()
        invariant
            0 <= start <= i <= v.len(),
            piece@ =~= v@.subrange(start as int, i as int),
            forall|j: int| start <= j < i ==> v@[j] != d,
            spec_split(v@, d) =~= out.deep_view() + spec_split(v@.skip(start as int), d),
        decreases v.len() - i,
    {
        if v[i] == d {
            proof {
                let tail = v@.skip(start as int);
                assert forall|j: int| 0 <= j < i - start implies tail[j] != d by {
                    assert(tail[j] == v@[start + j]);
                }
                assert(tail[i - start] == v@[i as int]);
                lemma_find_byte_at(tail, d, i - start);
                assert(tail.take(i - start) =~= v@.subrange(start as int, i as int));
                assert(tail.skip(i - start + 1) =~= v@.skip(i + 1));
                assert(spec_split(tail, d) =~= seq![piece@] + spec_split(v@.skip(i + 1), d));
            }
            let ghost old_deep = out.deep_view();
            let ghost p = piece@;
            out.push(piece);
            proof {
                assert(out.deep_view() =~~= old_deep + seq![p]);
                assert(old_deep + (seq![p] + spec_split(v@.skip(i + 1), d)) =~= (old_deep
                    + seq![p]) + spec_split(v@.skip(i + 1), d));
            }
            piece = Vec::new();
            start = i + 1;
            proof {
                assert(piece@ =~= v@.subrange(start as int, start as int));
            }
        } else {
            piece.push(v[i]);
            proof {
                assert(piece@ =~= v@.subrange(start as int, i + 1));
            }
        }
        i = i + 1;
    }
    proof {
        let tail = v@.skip(start as int);
        assert forall|j: int| 0 <= j < tail.len() implies tail[j] != d by {
            assert(tail[j] == v@[start + j]);
        }
        lemma_find_byte_none(tail, d);
        assert(piece@ =~= tail);
        assert(spec_split(tail, d) =~= seq![piece@]);
    }
    let ghost old_deep = out.deep_view();
    let ghost p = piece@;
    out.push(piece);
    proof {
        assert(out.deep_view() =~~= old_deep + seq![p]);
    }
    out
}

/// Whether every byte of `s` is an ASCII decimal digit.
pub open spec fn all_digits(s: Seq<u8>) -> bool {
    forall|j: int| 0 <= j < s.len() ==> 0x30 <= #[trigger] s[j] <= 0x39
}

/// Value of a digit string, most significant first.
pub open spec fn dec_val(s: Seq<u8>) -> nat
    decreases s.len(),
{
    if s.len() == 0 {
        0
    } else {
        (dec_val(s.drop_last()) * 10 + (s.last() - 0x30)) as nat
    }
}

spec fn pow10(n: nat) -> nat
    decreases n,
{
    if n == 0 {
        1
    } else {
        10 * pow10((n - 1) as nat)
    }
}

proof fn lemma_dec_val_bound(s: Seq<u8>)
    requires
        all_digits(s),
    ensures
        dec_val(s) < pow10(s.len() as nat),
    decreases s.len(),
{
    if s.len() > 0 {
        assert(all_digits(s.drop_last()));
        lemma_dec_val_bound(s.drop_last());
    }
}

proof fn lemma_pow10_le(m: nat, n: nat)
    requires
        m <= n,
    ensures
        pow10(m) <= pow10(n),
    decreases n,
{
    if m < n {
        lemma_pow10_le(m, (n - 1) as nat);
    }
}

/// A digit string is parseable when it is nonempty, all digits, and short
/// enough that its value surely fits in a `u32`.
pub open spec fn parseable_dec(s: Seq<u8>) -> bool {
    s.len() > 0 && s.len() <= 9 && all_digits(s)
}

/// Parses a decimal byte string. Returns `Some` exactly on parseable
/// strings, with the mathematical value of the digits.
pub fn parse_dec(v: &Vec<u8>) -> (r: Option<u32>)
    ensures
        r is Some <==> parseable_dec(v@),
        r is Some ==> r->0 as nat == dec_val(v@),
{
    if v.len() == 0 || v.len() > 9 {
        return None;
    }
    let mut acc: u32 = 0;
    let mut i: usize = 0;
    while i < v.len()
        invariant
            0 <= i <= v.len(),
            v.len() <= 9,
            all_digits(v@.take(i as int)),
            acc as nat == dec_val(v@.take(i as int)),
            acc < 1000000000,
        decreases v.len() - i,
    {
        let c = v[i];
        if c < 0x30 || c > 0x39 {
            proof {
                assert(v@.take(v@.len() as int) =~= v@);
                assert(v@[i as int] == c);
            }
            return None;
        }
        proof {
            let t = v@.take(i as int + 1);
            assert(t.drop_last() =~= v@.take(i as int));
            assert(t.last() == v@[i as int]);
            lemma_dec_val_bound(t);
            reveal_with_fuel(pow10, 10);
            assert(pow10(9) == 1000000000);
            lemma_pow10_le(t.len() as nat, 9);
        }
        acc = acc * 10 + ((c - 0x30) as u32);
        i = i + 1;
    }
    proof {
        assert(v@.take(v@.len() as int) =~= v@);
    }
    Some(acc)
}

} // verus!
