//! Character-level helpers shared by the converter and the learning cache.
//!
//! Text is handled as sequences of `char` (a `String`'s view); these are the
//! small building blocks for comparing, slicing and assembling such
//! sequences, plus the few std conversions between `&str` and `Vec<char>`.

use vstd::prelude::*;

verus! {

/// The characters of `s`, in order.
pub fn chars_of(s: &str) -> (v: Vec<char>)
    ensures
        v@ == s@,
{
    broadcast use vstd::string::axiom_spec_iter;
    let mut v: Vec<char> = Vec::new();
    for c in it: s.chars()
        invariant
            it.seq() == s@,
            v@ == it.seq().take(it.index() as int),
    {
        v.push(c);
        assert(v@ =~= it.seq().take(it.index() + 1));
    }
    assert(v@ =~= s@);
    v
}

/// Append `c` to `s` (`String::push`).
#[verifier::external_body]
fn push_char(s: &mut String, c: char)
    ensures
        final(s)@ == old(s)@.push(c),
{
    s.push(c);
}

/// A `String` holding exactly the characters of `v`.
pub fn string_from_chars(v: &[char]) -> (s: String)
    ensures
        s@ == v@,
{
    let mut s = String::new();
    let mut i: usize = 0;
    while i < v.len()
        invariant
            0 <= i <= v@.len(),
            s@ == v@.take(i as int),
        decreases v@.len() - i,
    {
        push_char(&mut s, v[i]);
        i = i + 1;
        assert(s@ =~= v@.take(i as int));
    }
    assert(s@ =~= v@);
    s
}

/// The `char` whose scalar value is `code`, if there is one (`char::from_u32`).
#[verifier::external_body]
pub(crate) fn char_from_u32(code: u32) -> (r: Option<char>)
    ensures
        r is Some <==> (code <= 0xD7FF || (0xE000 <= code && code <= 0x10FFFF)),
        r matches Some(c) ==> c as u32 == code && c == code as char,
{
    char::from_u32(code)
}

/// Whether `c` is an ASCII character.
pub open spec fn is_ascii_char(c: char) -> bool {
    (c as u32) < 128
}

/// Whether no character of `s` is ASCII.
pub open spec fn no_ascii(s: Seq<char>) -> bool {
    forall|i: int| 0 <= i < s.len() ==> !is_ascii_char(#[trigger] s[i])
}

/// `p` is a prefix of `s`.
pub open spec fn is_prefix(p: Seq<char>, s: Seq<char>) -> bool {
    p.len() <= s.len() && s.subrange(0, p.len() as int) == p
}

/// `c` with ASCII `A`..`Z` folded to lower case (`char::to_ascii_lowercase`).
pub open spec fn ascii_lower(c: char) -> char {
    if 'A' <= c && c <= 'Z' {
        ((c as u32) + 32) as char
    } else {
        c
    }
}

/// Executable [`ascii_lower`].
pub fn to_ascii_lower(c: char) -> (r: char)
    ensures
        r == ascii_lower(c),
{
    if 'A' <= c && c <= 'Z' {
        let b: u8 = c as u8;
        let l: u8 = b + 32;
        l as char
    } else {
        c
    }
}

/// Whether `c` is an ASCII character.
pub fn char_is_ascii(c: char) -> (r: bool)
    ensures
        r == is_ascii_char(c),
{
    (c as u32) < 128
}

/// Whether `a` and `b` hold the same characters.
pub fn chars_eq(a: &[char], b: &[char]) -> (r: bool)
    ensures
        r == (a@ == b@),
{
    if a.len() != b.len() {
        return false;
    }
    let mut i: usize = 0;
    while i < a.len()
        invariant
            a@.len() == b@.len(),
            0 <= i <= a@.len(),
            forall|j: int| 0 <= j < i ==> a@[j] == b@[j],
        decreases a@.len() - i,
    {
        if a[i] != b[i] {
            return false;
        }
        i = i + 1;
    }
    assert(a@ =~= b@);
    true
}

/// Whether `p` is a prefix of `s`.
pub fn chars_starts_with(s: &[char], p: &[char]) -> (r: bool)
    ensures
        r == is_prefix(p@, s@),
{
    if p.len() > s.len() {
        return false;
    }
    let mut i: usize = 0;
    while i < p.len()
        invariant
            p@.len() <= s@.len(),
            0 <= i <= p@.len(),
            forall|j: int| 0 <= j < i ==> s@[j] == p@[j],
        decreases p@.len() - i,
    {
        if s[i] != p[i] {
            assert(s@.subrange(0, p@.len() as int)[i as int] != p@[i as int]);
            return false;
        }
        i = i + 1;
    }
    assert(s@.subrange(0, p@.len() as int) =~= p@);
    true
}

/// Whether the `String`s `a` and `b` hold the same text.
pub fn str_eq(a: &str, b: &str) -> (r: bool)
    ensures
        r == (a@ == b@),
{
    let va = chars_of(a);
    let vb = chars_of(b);
    chars_eq(va.as_slice(), vb.as_slice())
}

/// Whether `s` starts with `p`.
pub fn str_starts_with(s: &str, p: &str) -> (r: bool)
    ensures
        r == is_prefix(p@, s@),
{
    let vs = chars_of(s);
    let vp = chars_of(p);
    chars_starts_with(vs.as_slice(), vp.as_slice())
}

/// The characters `s[from..to]`, as a new vector.
pub fn chars_range(s: &[char], from: usize, to: usize) -> (r: Vec<char>)
    requires
        from <= to <= s@.len(),
    ensures
        r@ == s@.subrange(from as int, to as int),
{
    let mut r: Vec<char> = Vec::new();
    let mut i: usize = from;
    while i < to
        invariant
            from <= i <= to <= s@.len(),
            r@ == s@.subrange(from as int, i as int),
        decreases to - i,
    {
        r.push(s[i]);
        i = i + 1;
        assert(r@ =~= s@.subrange(from as int, i as int));
    }
    r
}

/// `a` followed by `b`, as a new vector.
pub fn chars_concat(a: &[char], b: &[char]) -> (r: Vec<char>)
    ensures
        r@ == a@ + b@,
{
    let mut r: Vec<char> = Vec::new();
    let mut i: usize = 0;
    while i < a.len()
        invariant
            0 <= i <= a@.len(),
            r@ == a@.subrange(0, i as int),
        decreases a@.len() - i,
    {
        r.push(a[i]);
        i = i + 1;
        assert(r@ =~= a@.subrange(0, i as int));
    }
    let mut j: usize = 0;
    while j < b.len()
        invariant
            0 <= j <= b@.len(),
            r@ == a@ + b@.subrange(0, j as int),
        decreases b@.len() - j,
    {
        r.push(b[j]);
        j = j + 1;
        assert(r@ =~= a@ + b@.subrange(0, j as int));
    }
    assert(b@.subrange(0, b@.len() as int) =~= b@);
    r
}

/// Append the characters of `b` to `a`.
pub fn chars_extend(a: &mut Vec<char>, b: &[char])
    ensures
        final(a)@ == old(a)@ + b@,
{
    let mut j: usize = 0;
    while j < b.len()
        invariant
            0 <= j <= b@.len(),
            a@ == old(a)@ + b@.subrange(0, j as int),
        decreases b@.len() - j,
    {
        a.push(b[j]);
        j = j + 1;
        assert(a@ =~= old(a)@ + b@.subrange(0, j as int));
    }
    assert(b@.subrange(0, b@.len() as int) =~= b@);
}

} // verus!

verus! {

/// `a` sorts before `b` in lexicographic order of characters (the order of
/// `String`'s `Ord`: UTF-8 bytes and scalar values order alike).
pub open spec fn lex_lt(a: Seq<char>, b: Seq<char>) -> bool
    decreases a.len(),
{
    if a.len() == 0 {
        b.len() > 0
    } else if b.len() == 0 {
        false
    } else if a[0] != b[0] {
        a[0] < b[0]
    } else {
        lex_lt(a.subrange(1, a.len() as int), b.subrange(1, b.len() as int))
    }
}

/// Two sequences that agree on the first character and on the rest are equal.
proof fn lemma_seq_cons_eq(a: Seq<char>, b: Seq<char>)
    requires
        a.len() > 0,
        b.len() > 0,
        a[0] == b[0],
        a.subrange(1, a.len() as int) == b.subrange(1, b.len() as int),
    ensures
        a == b,
{
    assert(a.subrange(1, a.len() as int).len() == a.len() - 1);
    assert(b.subrange(1, b.len() as int).len() == b.len() - 1);
    assert(a.len() == b.len());
    assert forall|i: int| 0 <= i < a.len() implies a[i] == b[i] by {
        if i > 0 {
            assert(a[i] == a.subrange(1, a.len() as int)[i - 1]);
            assert(b[i] == b.subrange(1, b.len() as int)[i - 1]);
        }
    }
    assert(a =~= b);
}

/// `lex_lt` is a strict total order: irreflexive, asymmetric, total on
/// distinct sequences.
pub proof fn lemma_lex_total(a: Seq<char>, b: Seq<char>)
    ensures
        !lex_lt(a, a),
        lex_lt(a, b) ==> !lex_lt(b, a),
        a != b ==> lex_lt(a, b) || lex_lt(b, a),
    decreases a.len(),
{
    if a.len() > 0 && b.len() > 0 {
        lemma_lex_total(a.subrange(1, a.len() as int), b.subrange(1, b.len() as int));
        if a[0] == b[0] && a != b {
            if a.subrange(1, a.len() as int) == b.subrange(1, b.len() as int) {
                lemma_seq_cons_eq(a, b);
            }
        }
    } else if a.len() > 0 {
        lemma_lex_total(a.subrange(1, a.len() as int), a.subrange(1, a.len() as int));
    } else if b.len() > 0 {
    } else {
        assert(a =~= b);
    }
}

/// `lex_lt` is transitive.
pub proof fn lemma_lex_trans(a: Seq<char>, b: Seq<char>, c: Seq<char>)
    requires
        lex_lt(a, b),
        lex_lt(b, c),
    ensures
        lex_lt(a, c),
    decreases a.len(),
{
    if a.len() > 0 && b.len() > 0 && c.len() > 0 {
        if a[0] == b[0] && b[0] == c[0] {
            lemma_lex_trans(
                a.subrange(1, a.len() as int),
                b.subrange(1, b.len() as int),
                c.subrange(1, c.len() as int),
            );
        }
    }
}

/// `v` holds `s`.
pub open spec fn has_text(v: Seq<Seq<char>>, s: Seq<char>) -> bool {
    exists|k: int| 0 <= k < v.len() && v[k] == s
}

/// The texts of the strings in `v`.
pub open spec fn string_texts(v: Seq<String>) -> Seq<Seq<char>> {
    v.map_values(|s: String| s@)
}

/// Whether `a` sorts before `b`.
pub fn chars_lex_lt(a: &[char], b: &[char]) -> (r: bool)
    ensures
        r == lex_lt(a@, b@),
{
    let mut i: usize = 0;
    assert(a@.subrange(0, a@.len() as int) =~= a@);
    assert(b@.subrange(0, b@.len() as int) =~= b@);
    while i < a.len() && i < b.len() && a[i] == b[i]
        invariant
            0 <= i <= a@.len(),
            i <= b@.len(),
            lex_lt(a@, b@) == lex_lt(a@.subrange(i as int, a@.len() as int), b@.subrange(i as int, b@.len() as int)),
        decreases a@.len() - i,
    {
        let ghost sa = a@.subrange(i as int, a@.len() as int);
        let ghost sb = b@.subrange(i as int, b@.len() as int);
        assert(sa.subrange(1, sa.len() as int) =~= a@.subrange(i + 1, a@.len() as int));
        assert(sb.subrange(1, sb.len() as int) =~= b@.subrange(i + 1, b@.len() as int));
        i = i + 1;
    }
    let ghost sa = a@.subrange(i as int, a@.len() as int);
    let ghost sb = b@.subrange(i as int, b@.len() as int);
    if i == a.len() {
        i < b.len()
    } else if i == b.len() {
        false
    } else {
        assert(sa[0] == a@[i as int] && sb[0] == b@[i as int]);
        a[i] < b[i]
    }
}

/// `s` is strictly increasing in [`lex_lt`]: sorted, with no repeats.
pub open spec fn strictly_sorted(s: Seq<Seq<char>>) -> bool {
    forall|i: int, j: int| 0 <= i < j < s.len() ==> lex_lt(#[trigger] s[i], #[trigger] s[j])
}

/// The texts of `v`.
pub open spec fn texts(v: Seq<Vec<char>>) -> Seq<Seq<char>> {
    v.map_values(|x: Vec<char>| x@)
}

/// Insert `o` into the strictly sorted `v` unless it is already there.
pub fn insert_sorted(v: &mut Vec<Vec<char>>, o: Vec<char>)
    requires
        strictly_sorted(texts(old(v)@)),
    ensures
        strictly_sorted(texts(final(v)@)),
        forall|s: Seq<char>| #[trigger] has_text(texts(final(v)@), s) <==> (s == o@ || has_text(texts(old(v)@), s)),
{
    let ghost old_v = texts(v@);
    let mut p: usize = 0;
    while p < v.len() && chars_lex_lt(v[p].as_slice(), o.as_slice())
        invariant
            0 <= p <= v@.len(),
            old_v == texts(v@),
            forall|k: int| 0 <= k < p ==> lex_lt(#[trigger] old_v[k], o@),
        decreases v@.len() - p,
    {
        p = p + 1;
    }
    if p < v.len() && chars_eq(v[p].as_slice(), o.as_slice()) {
        assert forall|s: Seq<char>| #[trigger] has_text(texts(v@), s) <==> (s == o@ || has_text(old_v, s)) by {
            if s == o@ {
                assert(old_v[p as int] == s);
            }
        }
        return;
    }
    proof {
        if p < v@.len() {
            lemma_lex_total(old_v[p as int], o@);
        }
        assert forall|k: int| p <= k < old_v.len() implies lex_lt(o@, #[trigger] old_v[k]) by {
            if k > p {
                lemma_lex_trans(o@, old_v[p as int], old_v[k]);
            }
        }
    }
    let ghost oo = o@;
    v.insert(p, o);
    let ghost new_v = texts(v@);
    assert(new_v =~= old_v.insert(p as int, oo));
    assert forall|i: int, j: int| 0 <= i < j < new_v.len() implies lex_lt(#[trigger] new_v[i], #[trigger] new_v[j]) by {
        if i < p && j > p {
            lemma_lex_trans(new_v[i], oo, new_v[j]);
        }
    }
    assert forall|s: Seq<char>| #[trigger] has_text(new_v, s) <==> (s == oo || has_text(old_v, s)) by {
        if s == oo {
            assert(new_v[p as int] == s);
        }
        if has_text(old_v, s) {
            let k = choose|k: int| 0 <= k < old_v.len() && old_v[k] == s;
            if k < p {
                assert(new_v[k] == s);
            } else {
                assert(new_v[k + 1] == s);
            }
        }
        if has_text(new_v, s) {
            let k = choose|k: int| 0 <= k < new_v.len() && new_v[k] == s;
            if k < p {
                assert(old_v[k] == s);
            } else if k > p {
                assert(old_v[k - 1] == s);
            }
        }
    }
}

} // verus!

verus! {

/// The part of `s` after its last newline (all of `s` when it has none):
/// the current line, seen from its end.
pub open spec fn after_last_newline(s: Seq<char>) -> Seq<char>
    decreases s.len(),
{
    if s.len() == 0 {
        s
    } else if s.last() == '\n' {
        Seq::empty()
    } else {
        after_last_newline(s.drop_last()).push(s.last())
    }
}

/// The part of `s` before its first newline (all of `s` when it has none).
pub open spec fn before_first_newline(s: Seq<char>) -> Seq<char>
    decreases s.len(),
{
    if s.len() == 0 {
        s
    } else if s[0] == '\n' {
        Seq::empty()
    } else {
        seq![s[0]] + before_first_newline(s.subrange(1, s.len() as int))
    }
}

/// At most the last `n` characters of `s`.
pub open spec fn keep_last(s: Seq<char>, n: nat) -> Seq<char> {
    if s.len() > n {
        s.subrange(s.len() - n, s.len() as int)
    } else {
        s
    }
}

/// At most the first `n` characters of `s`.
pub open spec fn keep_first(s: Seq<char>, n: nat) -> Seq<char> {
    if s.len() > n {
        s.subrange(0, n as int)
    } else {
        s
    }
}

/// [`after_last_newline`].
pub fn chars_after_last_newline(s: &[char]) -> (r: Vec<char>)
    ensures
        r@ == after_last_newline(s@),
{
    let mut k: usize = s.len();
    assert(s@.subrange(0, k as int) =~= s@);
    assert(after_last_newline(s@) =~= after_last_newline(s@.subrange(0, k as int)) + s@.subrange(k as int, s@.len() as int));
    while k > 0 && s[k - 1] != '\n'
        invariant
            0 <= k <= s@.len(),
            after_last_newline(s@) == after_last_newline(s@.subrange(0, k as int)) + s@.subrange(k as int, s@.len() as int),
        decreases k,
    {
        let ghost t = s@.subrange(0, k as int);
        assert(t.drop_last() =~= s@.subrange(0, k - 1));
        assert(t.last() == s@[k - 1]);
        assert(after_last_newline(s@.subrange(0, k - 1)) + s@.subrange(k - 1, s@.len() as int) =~= after_last_newline(
            t,
        ) + s@.subrange(k as int, s@.len() as int));
        k = k - 1;
    }
    if k > 0 {
        let ghost t = s@.subrange(0, k as int);
        assert(t.last() == s@[k - 1]);
    } else {
        assert(s@.subrange(0, 0) =~= Seq::<char>::empty());
    }
    let r = chars_range(s, k, s.len());
    assert(after_last_newline(s@) =~= r@);
    r
}

/// [`before_first_newline`].
pub fn chars_before_first_newline(s: &[char]) -> (r: Vec<char>)
    ensures
        r@ == before_first_newline(s@),
{
    let mut i: usize = 0;
    assert(s@.subrange(0, s@.len() as int) =~= s@);
    assert(before_first_newline(s@) =~= s@.subrange(0, 0) + before_first_newline(s@.subrange(0, s@.len() as int)));
    while i < s.len() && s[i] != '\n'
        invariant
            0 <= i <= s@.len(),
            before_first_newline(s@) == s@.subrange(0, i as int) + before_first_newline(s@.subrange(i as int, s@.len() as int)),
        decreases s@.len() - i,
    {
        let ghost t = s@.subrange(i as int, s@.len() as int);
        assert(t.subrange(1, t.len() as int) =~= s@.subrange(i + 1, s@.len() as int));
        assert(t[0] == s@[i as int]);
        assert(s@.subrange(0, i + 1) =~= s@.subrange(0, i as int) + seq![s@[i as int]]);
        i = i + 1;
    }
    let r = chars_range(s, 0, i);
    proof {
        let t = s@.subrange(i as int, s@.len() as int);
        if i < s@.len() {
            assert(t[0] == s@[i as int]);
        }
        assert(before_first_newline(s@) =~= r@);
    }
    r
}

/// [`keep_last`].
pub fn chars_keep_last(s: &[char], n: usize) -> (r: Vec<char>)
    ensures
        r@ == keep_last(s@, n as nat),
{
    if s.len() > n {
        chars_range(s, s.len() - n, s.len())
    } else {
        let r = chars_range(s, 0, s.len());
        assert(r@ =~= s@);
        r
    }
}

/// [`keep_first`].
pub fn chars_keep_first(s: &[char], n: usize) -> (r: Vec<char>)
    ensures
        r@ == keep_first(s@, n as nat),
{
    if s.len() > n {
        chars_range(s, 0, n)
    } else {
        let r = chars_range(s, 0, s.len());
        assert(r@ =~= s@);
        r
    }
}

} // verus!
