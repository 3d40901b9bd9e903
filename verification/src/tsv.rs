//! The pieces of a line-oriented text format: splitting at a separator,
//! trimming whitespace, and unsigned decimal numbers in both directions.
//! Each is stated the way `str::split`, `str::trim`, `str::parse` and
//! `Display` for unsigned integers behave.

use vstd::prelude::*;
use crate::text::chars_range;

verus! {

/// `char::is_whitespace`: the Unicode `White_Space` characters.
pub open spec fn is_whitespace(c: char) -> bool {
    let u = c as u32;
    (0x09 <= u && u <= 0x0D) || u == 0x20 || u == 0x85 || u == 0xA0 || u == 0x1680 || (0x2000 <= u
        && u <= 0x200A) || u == 0x2028 || u == 0x2029 || u == 0x202F || u == 0x205F || u == 0x3000
}

/// Executable [`is_whitespace`].
pub fn char_is_whitespace(c: char) -> (r: bool)
    ensures
        r == is_whitespace(c),
{
    let u: u32 = c as u32;
    (0x09 <= u && u <= 0x0D) || u == 0x20 || u == 0x85 || u == 0xA0 || u == 0x1680 || (0x2000 <= u
        && u <= 0x200A) || u == 0x2028 || u == 0x2029 || u == 0x202F || u == 0x205F || u == 0x3000
}

/// `s` without its leading whitespace.
pub open spec fn trim_start(s: Seq<char>) -> Seq<char>
    decreases s.len(),
{
    if s.len() > 0 && is_whitespace(s[0]) {
        trim_start(s.subrange(1, s.len() as int))
    } else {
        s
    }
}

/// `s` without its trailing whitespace.
pub open spec fn trim_end(s: Seq<char>) -> Seq<char>
    decreases s.len(),
{
    if s.len() > 0 && is_whitespace(s.last()) {
        trim_end(s.drop_last())
    } else {
        s
    }
}

/// `str::trim`: `s` without leading or trailing whitespace.
pub open spec fn trim(s: Seq<char>) -> Seq<char> {
    trim_end(trim_start(s))
}

/// `str::split(sep)`: the pieces of `s` between occurrences of `sep`, in
/// order; always at least one (an empty `s` is one empty piece).
pub open spec fn split(s: Seq<char>, sep: char) -> Seq<Seq<char>>
    decreases s.len(),
{
    if s.len() == 0 {
        seq![Seq::empty()]
    } else {
        let init = split(s.drop_last(), sep);
        if s.last() == sep {
            init.push(Seq::empty())
        } else {
            init.update(init.len() - 1, init.last().push(s.last()))
        }
    }
}

/// `split` yields at least one piece.
pub proof fn lemma_split_len(s: Seq<char>, sep: char)
    ensures
        split(s, sep).len() >= 1,
    decreases s.len(),
{
    if s.len() > 0 {
        lemma_split_len(s.drop_last(), sep);
    }
}

/// Value of a run of decimal digits.
pub open spec fn digits_value(s: Seq<char>) -> nat
    decreases s.len(),
{
    if s.len() == 0 {
        0
    } else {
        digits_value(s.drop_last()) * 10 + ((s.last() as u32) - 48) as nat
    }
}

/// Every character of `s` is an ASCII digit.
pub open spec fn all_digits(s: Seq<char>) -> bool {
    forall|i: int| 0 <= i < s.len() ==> '0' <= #[trigger] s[i] && s[i] <= '9'
}

/// `str::parse` for an unsigned integer type whose largest value is `max`:
/// an optional `+`, then one or more ASCII digits, of value at most `max`.
pub open spec fn parse_uint(s: Seq<char>, max: nat) -> Option<nat> {
    let d = if s.len() > 0 && s[0] == '+' {
        s.subrange(1, s.len() as int)
    } else {
        s
    };
    if d.len() > 0 && all_digits(d) && digits_value(d) <= max {
        Some(digits_value(d))
    } else {
        None
    }
}

/// The decimal digit for `d < 10`.
pub open spec fn digit_char(d: nat) -> char {
    ((d + 48) as u32) as char
}

/// `n` written in decimal, without leading zeros (`Display` for unsigned
/// integers).
pub open spec fn dec_string(n: nat) -> Seq<char>
    decreases n,
{
    if n < 10 {
        seq![digit_char(n)]
    } else {
        dec_string(n / 10).push(digit_char(n % 10))
    }
}

/// `trim_start(s)` is the suffix of `s` from index `i` on, when the
/// characters before `i` are whitespace.
proof fn lemma_trim_start_from(s: Seq<char>, i: int)
    requires
        0 <= i <= s.len(),
        forall|j: int| 0 <= j < i ==> is_whitespace(#[trigger] s[j]),
    ensures
        trim_start(s) == trim_start(s.subrange(i, s.len() as int)),
    decreases i,
{
    if i > 0 {
        let t = s.subrange(1, s.len() as int);
        assert(is_whitespace(s[0]));
        assert(trim_start(s) == trim_start(t));
        assert forall|j: int| 0 <= j < i - 1 implies is_whitespace(#[trigger] t[j]) by {
            assert(t[j] == s[j + 1]);
        }
        lemma_trim_start_from(t, i - 1);
        assert(t.subrange(i - 1, t.len() as int) =~= s.subrange(i, s.len() as int));
    } else {
        assert(s.subrange(0, s.len() as int) =~= s);
    }
}

/// `trim_end(s)` is the prefix of `s` up to `i`, when the characters from
/// `i` on are whitespace.
proof fn lemma_trim_end_to(s: Seq<char>, i: int)
    requires
        0 <= i <= s.len(),
        forall|j: int| i <= j < s.len() ==> is_whitespace(#[trigger] s[j]),
    ensures
        trim_end(s) == trim_end(s.subrange(0, i)),
    decreases s.len() - i,
{
    if i < s.len() {
        let t = s.drop_last();
        assert(is_whitespace(s[s.len() - 1]));
        assert(trim_end(s) == trim_end(t));
        assert forall|j: int| i <= j < t.len() implies is_whitespace(#[trigger] t[j]) by {
            assert(t[j] == s[j]);
        }
        lemma_trim_end_to(t, i);
        assert(t.subrange(0, i) =~= s.subrange(0, i));
    } else {
        assert(s.subrange(0, i) =~= s);
    }
}

/// `str::trim` on characters.
pub fn trim_chars(s: &[char]) -> (r: Vec<char>)
    ensures
        r@ == trim(s@),
{
    let mut a: usize = 0;
    while a < s.len() && char_is_whitespace(s[a])
        invariant
            0 <= a <= s@.len(),
            forall|j: int| 0 <= j < a ==> is_whitespace(#[trigger] s@[j]),
        decreases s@.len() - a,
    {
        a = a + 1;
    }
    proof {
        lemma_trim_start_from(s@, a as int);
        let t = s@.subrange(a as int, s@.len() as int);
        assert(t.len() > 0 ==> t[0] == s@[a as int]);
    }
    let mut b: usize = s.len();
    while b > a && char_is_whitespace(s[b - 1])
        invariant
            a <= b <= s@.len(),
            forall|j: int| b <= j < s@.len() ==> is_whitespace(#[trigger] s@[j]),
        decreases b,
    {
        b = b - 1;
    }
    let r = chars_range(s, a, b);
    proof {
        let t = s@.subrange(a as int, s@.len() as int);
        assert(trim_start(s@) == t);
        assert forall|j: int| (b - a) <= j < t.len() implies is_whitespace(#[trigger] t[j]) by {
            assert(t[j] == s@[j + a]);
        }
        lemma_trim_end_to(t, b - a);
        let u = t.subrange(0, b - a);
        assert(u =~= r@);
        if u.len() > 0 {
            assert(u.last() == s@[b - 1]);
        }
    }
    r
}

/// `str::split(sep)` on characters.
pub fn split_chars(s: &[char], sep: char) -> (r: Vec<Vec<char>>)
    ensures
        r@.map_values(|p: Vec<char>| p@) == split(s@, sep),
{
    let mut parts: Vec<Vec<char>> = Vec::new();
    let mut cur: Vec<char> = Vec::new();
    let mut i: usize = 0;
    assert(s@.subrange(0, 0) =~= Seq::<char>::empty());
    assert(parts@.map_values(|p: Vec<char>| p@).push(cur@) =~= split(s@.subrange(0, 0), sep));
    while i < s.len()
        invariant
            0 <= i <= s@.len(),
            parts@.map_values(|p: Vec<char>| p@).push(cur@) == split(s@.subrange(0, i as int), sep),
        decreases s@.len() - i,
    {
        let ghost before = parts@.map_values(|p: Vec<char>| p@).push(cur@);
        let ghost pre = s@.subrange(0, i + 1);
        assert(pre.drop_last() =~= s@.subrange(0, i as int));
        assert(pre.last() == s@[i as int]);
        if s[i] == sep {
            let done = cur;
            parts.push(done);
            cur = Vec::new();
            assert(parts@.map_values(|p: Vec<char>| p@).push(cur@) =~= before.push(Seq::empty()));
        } else {
            cur.push(s[i]);
            assert(parts@.map_values(|p: Vec<char>| p@).push(cur@) =~= before.update(
                before.len() - 1,
                before.last().push(s@[i as int]),
            ));
        }
        i = i + 1;
    }
    parts.push(cur);
    assert(s@.subrange(0, s@.len() as int) =~= s@);
    r_eq(parts)
}

fn r_eq(parts: Vec<Vec<char>>) -> (r: Vec<Vec<char>>)
    ensures
        r == parts,
{
    parts
}

/// `digits_value` grows with every digit appended.
proof fn lemma_digits_value_prefix(s: Seq<char>, i: int)
    requires
        0 <= i <= s.len(),
        all_digits(s),
    ensures
        digits_value(s.subrange(0, i)) <= digits_value(s),
    decreases s.len() - i,
{
    if i < s.len() {
        let t = s.drop_last();
        assert forall|j: int| 0 <= j < t.len() implies '0' <= #[trigger] t[j] && t[j] <= '9' by {
            assert(t[j] == s[j]);
        }
        lemma_digits_value_prefix(t, i);
        assert(t.subrange(0, i) =~= s.subrange(0, i));
        let x = digits_value(t);
        let d = ((s.last() as u32) - 48) as nat;
        assert(digits_value(s) == x * 10 + d);
        assert(x * 10 + d >= x) by (nonlinear_arith);
    } else {
        assert(s.subrange(0, i) =~= s);
    }
}

/// `str::parse` into an unsigned integer whose largest value is `max`.
pub fn parse_uint_chars(s: &[char], max: u64) -> (r: Option<u64>)
    ensures
        r matches Some(v) ==> parse_uint(s@, max as nat) == Some(v as nat),
        r is None ==> parse_uint(s@, max as nat) is None,
{
    let start: usize = if s.len() > 0 && s[0] == '+' { 1 } else { 0 };
    let ghost d = if s@.len() > 0 && s@[0] == '+' { s@.subrange(1, s@.len() as int) } else { s@ };
    assert(d =~= s@.subrange(start as int, s@.len() as int));
    if start >= s.len() {
        return None;
    }
    let mut value: u64 = 0;
    let mut i: usize = start;
    assert(d.subrange(0, 0) =~= Seq::<char>::empty());
    while i < s.len()
        invariant
            start <= i <= s@.len(),
            d == s@.subrange(start as int, s@.len() as int),
            d == (if s@.len() > 0 && s@[0] == '+' { s@.subrange(1, s@.len() as int) } else { s@ }),
            forall|j: int| 0 <= j < i - start ==> '0' <= #[trigger] d[j] && d[j] <= '9',
            value == digits_value(d.subrange(0, i - start)),
            value <= max,
        decreases s@.len() - i,
    {
        let c = s[i];
        assert(c == d[i - start]);
        if !('0' <= c && c <= '9') {
            assert(!('0' <= d[i - start] && d[i - start] <= '9'));
            return None;
        }
        let digit: u64 = (c as u32 - 48) as u64;
        let ghost pre = d.subrange(0, i + 1 - start);
        assert(pre.drop_last() =~= d.subrange(0, i - start));
        assert(pre.last() == c);
        if digit > max || value > (max - digit) / 10 {
            proof {
                if digit <= max {
                    assert(value * 10 + digit > max) by (nonlinear_arith)
                        requires
                            value > (max - digit) / 10,
                            digit <= 9,
                            digit <= max,
                    ;
                }
                assert(digits_value(pre) == value * 10 + digit);
                if all_digits(d) {
                    lemma_digits_value_prefix(d, i + 1 - start);
                }
            }
            return None;
        }
        proof {
            assert(value * 10 + digit <= max) by (nonlinear_arith)
                requires
                    value <= (max - digit) / 10,
                    digit <= max,
            ;
        }
        value = value * 10 + digit;
        i = i + 1;
    }
    assert(d.subrange(0, d.len() as int) =~= d);
    Some(value)
}

/// Append `n` in decimal to `out`.
pub fn push_decimal(out: &mut Vec<char>, n: u64)
    ensures
        final(out)@ == old(out)@ + dec_string(n as nat),
    decreases n,
{
    if n >= 10 {
        push_decimal(out, n / 10);
    }
    let d: u8 = (n % 10) as u8 + 48;
    let c: char = d as char;
    proof {
        assert(c == digit_char((n % 10) as nat));
    }
    out.push(c);
    proof {
        if n < 10 {
            assert(old(out)@ + dec_string(n as nat) =~= old(out)@.push(c));
        } else {
            assert((n as nat) / 10 == (n / 10) as nat);
            assert(old(out)@ + dec_string(n as nat) =~= (old(out)@ + dec_string((n / 10) as nat)).push(c));
        }
    }
}

} // verus!

verus! {

/// `sep` does not occur in `s`.
pub open spec fn free_of(s: Seq<char>, sep: char) -> bool {
    forall|i: int| 0 <= i < s.len() ==> s[i] != sep
}

/// A string without the separator is a single piece.
pub proof fn lemma_split_single(s: Seq<char>, sep: char)
    requires
        free_of(s, sep),
    ensures
        split(s, sep) == seq![s],
    decreases s.len(),
{
    if s.len() > 0 {
        let s0 = s.drop_last();
        assert forall|i: int| 0 <= i < s0.len() implies s0[i] != sep by {
            assert(s0[i] == s[i]);
        }
        lemma_split_single(s0, sep);
        assert(s.last() != sep) by {
            assert(s.last() == s[s.len() - 1]);
        }
        assert(s0.push(s.last()) =~= s);
        assert(split(s, sep) =~= seq![s]);
    } else {
        assert(s =~= Seq::<char>::empty());
    }
}

/// Appending a piece without the separator extends the last piece of `p`
/// when `p` ends with the separator: that last piece is empty, and `b`
/// takes its place.
pub proof fn lemma_split_after_sep(p: Seq<char>, b: Seq<char>, sep: char)
    requires
        p.len() > 0,
        p.last() == sep,
        free_of(b, sep),
    ensures
        split(p + b, sep) == split(p.drop_last(), sep).push(b),
    decreases b.len(),
{
    if b.len() == 0 {
        assert(p + b =~= p);
        assert(b =~= Seq::<char>::empty());
    } else {
        let b0 = b.drop_last();
        assert forall|i: int| 0 <= i < b0.len() implies b0[i] != sep by {
            assert(b0[i] == b[i]);
        }
        lemma_split_after_sep(p, b0, sep);
        let q = p + b;
        assert(q.drop_last() =~= p + b0);
        assert(q.last() == b.last());
        assert(b.last() != sep) by {
            assert(b.last() == b[b.len() - 1]);
        }
        let init = split(p + b0, sep);
        assert(init == split(p.drop_last(), sep).push(b0));
        assert(split(q, sep) == init.update(init.len() - 1, init.last().push(q.last())));
        assert(b0.push(b.last()) =~= b);
        assert(split(q, sep) =~= split(p.drop_last(), sep).push(b));
    }
}

/// `a`, the separator, `b`: the pieces of `a`, then `b` when `b` holds no
/// separator.
pub proof fn lemma_split_join(a: Seq<char>, b: Seq<char>, sep: char)
    requires
        free_of(b, sep),
    ensures
        split(a + seq![sep] + b, sep) == split(a, sep).push(b),
{
    let p = a + seq![sep];
    assert(p.drop_last() =~= a);
    assert(a + seq![sep] + b =~= p + b);
    lemma_split_after_sep(p, b, sep);
}

/// The digits of `n` are all digits, and read back as `n`.
pub proof fn lemma_dec_round_trip(n: nat)
    ensures
        dec_string(n).len() > 0,
        all_digits(dec_string(n)),
        digits_value(dec_string(n)) == n,
        '0' <= dec_string(n).last() <= '9',
        '0' <= dec_string(n)[0] <= '9',
    decreases n,
{
    let d = digit_char(n % 10);
    assert(((n % 10 + 48) as u32) as char == d);
    assert(d as u32 == (n % 10 + 48) as u32) by {
        assert(n % 10 + 48 < 0xD800);
    }
    if n < 10 {
        let s = dec_string(n);
        assert(s == seq![digit_char(n)]);
        assert(digit_char(n) as u32 == n + 48) by {
            assert(n + 48 < 0xD800);
        }
        assert(s.drop_last() =~= Seq::<char>::empty());
        assert(s.last() == digit_char(n));
        assert(digits_value(s) == digits_value(s.drop_last()) * 10 + ((s.last() as u32) - 48) as nat);
        assert(digits_value(s.drop_last()) == 0);
    } else {
        lemma_dec_round_trip(n / 10);
        let s = dec_string(n);
        let t = dec_string(n / 10);
        assert(s == t.push(d));
        assert(s.drop_last() =~= t);
        assert(s.last() == d);
        assert forall|i: int| 0 <= i < s.len() implies '0' <= #[trigger] s[i] && s[i] <= '9' by {
            if i < t.len() {
                assert(s[i] == t[i]);
            } else {
                assert(s[i] == d);
            }
        }
        assert(s[0] == t[0]);
        assert(digits_value(s) == digits_value(t) * 10 + ((s.last() as u32) - 48) as nat);
        assert(((d as u32) - 48) as nat == n % 10);
        assert(n == (n / 10) * 10 + n % 10);
    }
}

/// Decimal digits hold no whitespace, no tab and no newline.
pub proof fn lemma_dec_plain(n: nat)
    ensures
        free_of(dec_string(n), '\t'),
        free_of(dec_string(n), '\n'),
        !is_whitespace(dec_string(n).last()),
{
    lemma_dec_round_trip(n);
    let s = dec_string(n);
    assert forall|i: int| 0 <= i < s.len() implies s[i] != '\t' && s[i] != '\n' by {
        assert('0' <= s[i] <= '9');
    }
    let c = s.last();
    assert(!is_whitespace(c)) by {
        assert(48 <= c as u32 <= 57);
    }
}

/// The decimal form of a number within `max` parses back to it.
pub proof fn lemma_parse_dec(n: nat, max: nat)
    requires
        n <= max,
    ensures
        parse_uint(dec_string(n), max) == Some(n),
{
    lemma_dec_round_trip(n);
    assert(dec_string(n)[0] != '+');
}

} // verus!
