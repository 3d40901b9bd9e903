//! Stateless romaji-to-hiragana conversion.
//!
//! [`RomajiConverter::convert`] reads a raw keystroke string left to right
//! and returns the converted text plus the unresolved tail (`pending`) that
//! may still combine with later keys. Its behaviour is [`convert_spec`]: a
//! left fold of [`push_spec`] over the keystrokes, each push settling the
//! buffer by the rules of [`step`].

use vstd::prelude::*;
use crate::rules::{
    build_rules, rules_for, extends, has_key, is_node, lemma_longest, lemma_longest_key, longest, output_of, RuleSeq,
    RuleTable, starts_rule_spec, table_wf,
};
use crate::style::{default_symbol_style, SymbolStyle};
use crate::text::{
    ascii_lower, chars_eq, chars_extend, chars_of, chars_range, chars_starts_with, has_text,
    insert_sorted, is_ascii_char, is_prefix, no_ascii, string_from_chars, string_texts, strictly_sorted,
    texts, to_ascii_lower,
};
use crate::width::{default_width_rules, settle_seq, WidthRules};

verus! {

/// Result of converting a raw input string.
#[derive(Debug, Clone, PartialEq)]
pub struct Converted {
    /// Converted output: hiragana plus passed-through characters
    pub text: String,
    /// Unresolved trailing input that may still extend to a longer rule
    pub pending: String,
}

/// A key after which a lone `n` is not ん yet: a vowel, `y` or `'`.
pub open spec fn keeps_n(c: char) -> bool {
    c == 'a' || c == 'i' || c == 'u' || c == 'e' || c == 'o' || c == 'y' || c == '\''
}

/// A key that never doubles into っ: a vowel or `n`.
pub open spec fn no_sokuon(c: char) -> bool {
    c == 'a' || c == 'i' || c == 'u' || c == 'e' || c == 'o' || c == 'n'
}

/// Settle the buffer `buf` as far as the rules allow, appending what it
/// resolves to `out`. Returns `(buffer left over, output)`.
///
/// In order:
/// - `nn` followed by anything is ん, the rest settles on its own;
/// - an `n` before a consonant (anything but a vowel, `y`, `'`) is ん —
///   except exactly `nn`, which waits;
/// - a doubled consonant (a buffer of exactly two equal keys, neither a
///   vowel nor `n`) is っ, the second key stays;
/// - otherwise the longest key that prefixes the buffer fires, unless it is
///   the whole buffer and a longer key could still follow (then the buffer
///   waits — `n'` and `nn` excepted, which fire at once);
/// - with no key prefixing it, a buffer still on the way to a key waits;
///   one that is not gives up its first key: converted when that key alone
///   is a rule, passed through unchanged when not.
pub open spec fn step(t: RuleSeq, buf: Seq<char>, out: Seq<char>) -> (Seq<char>, Seq<char>)
    decreases buf.len(),
{
    let n = buf.len();
    if n >= 3 && buf[0] == 'n' && buf[1] == 'n' {
        step(t, buf.subrange(2, n as int), out.push('ん'))
    } else if n >= 2 && buf[n - 2] == 'n' && !keeps_n(buf[n - 1]) && !(n == 2 && buf[n - 1] == 'n') {
        step(t, buf.subrange(0, n - 2).push(buf[n - 1]), out.push('ん'))
    } else if n == 2 && buf[1] == buf[0] && !no_sokuon(buf[1]) {
        (seq![buf[1]], out.push('っ'))
    } else {
        proof {
            lemma_longest(t, buf);
        }
        let m = longest(t, buf);
        if m > 0 {
            let o = output_of(t, buf.subrange(0, m as int));
            if extends(t, buf.subrange(0, m as int)) && m == n {
                if buf == seq!['n', '\''] || buf == seq!['n', 'n'] {
                    (Seq::empty(), out + o)
                } else {
                    (buf, out)
                }
            } else {
                step(t, buf.subrange(m as int, n as int), out + o)
            }
        } else if n == 0 {
            (buf, out)
        } else if starts_rule_spec(t, buf[0]) && is_node(t, buf) {
            (buf, out)
        } else {
            let first = seq![buf[0]];
            proof {
                lemma_longest(t, first);
            }
            let m1 = longest(t, first);
            if m1 > 0 {
                step(t, buf.subrange(m1 as int, n as int), out + output_of(t, first))
            } else {
                step(t, buf.subrange(1, n as int), out.push(buf[0]))
            }
        }
    }
}

/// One keystroke: `ch` (ASCII letters lowered) joins the buffer, which then
/// settles by [`step`]. The state is `(buffer, output)`.
pub open spec fn push_spec(t: RuleSeq, st: (Seq<char>, Seq<char>), ch: char) -> (Seq<char>, Seq<char>) {
    step(t, st.0.push(ascii_lower(ch)), st.1)
}

/// Converting `raw`: every keystroke pushed in order, from an empty buffer
/// and output. Returns `(pending, text)`.
pub open spec fn convert_spec(t: RuleSeq, raw: Seq<char>) -> (Seq<char>, Seq<char>)
    decreases raw.len(),
{
    if raw.len() == 0 {
        (Seq::empty(), Seq::empty())
    } else {
        push_spec(t, convert_spec(t, raw.drop_last()), raw.last())
    }
}

/// The forced reading of a leftover buffer: the longest key at the front
/// fires; with none, a lone `n` is ん and any other key passes through.
pub open spec fn flush_spec(t: RuleSeq, buf: Seq<char>) -> Seq<char>
    decreases buf.len(),
{
    if buf.len() == 0 {
        Seq::empty()
    } else {
        proof {
            lemma_longest(t, buf);
        }
        let m = longest(t, buf);
        if m > 0 {
            output_of(t, buf.subrange(0, m as int)) + flush_spec(t, buf.subrange(m as int, buf.len() as int))
        } else {
            seq![if buf[0] == 'n' { 'ん' } else { buf[0] }] + flush_spec(t, buf.subrange(1, buf.len() as int))
        }
    }
}

/// Every ASCII character of `s` is one of `keys`.
pub open spec fn ascii_from(s: Seq<char>, keys: Seq<char>) -> bool {
    forall|i: int| 0 <= i < s.len() && is_ascii_char(#[trigger] s[i]) ==> keys.contains(s[i])
}

/// The keys a raw string types: its characters, ASCII letters lowered.
pub open spec fn typed_keys(raw: Seq<char>) -> Seq<char> {
    raw.map_values(|c: char| ascii_lower(c))
}

/// A rule's output holds no ASCII, so `out` followed by it keeps its ASCII
/// from `keys`.
proof fn lemma_rule_output(t: RuleSeq, k: Seq<char>, out: Seq<char>, keys: Seq<char>)
    requires
        table_wf(t),
        has_key(t, k),
        ascii_from(out, keys),
    ensures
        ascii_from(out + output_of(t, k), keys),
{
    let i = choose|i: int| 0 <= i < t.len() && (#[trigger] t[i]).0 == k;
    let o = output_of(t, k);
    assert(o == t[i].1);
    assert(no_ascii(o));
    assert forall|j: int| 0 <= j < (out + o).len() && is_ascii_char(#[trigger] (out + o)[j]) implies keys.contains(
        (out + o)[j],
    ) by {
        if j >= out.len() {
            assert((out + o)[j] == o[j - out.len()]);
        } else {
            assert((out + o)[j] == out[j]);
        }
    }
}

/// Settling a buffer brings in no ASCII the keys did not type: whatever
/// ASCII the new buffer and output hold came from the old ones.
proof fn lemma_step_ascii(t: RuleSeq, buf: Seq<char>, out: Seq<char>, keys: Seq<char>)
    requires
        table_wf(t),
        ascii_from(buf, keys),
        ascii_from(out, keys),
    ensures
        ascii_from(step(t, buf, out).0, keys),
        ascii_from(step(t, buf, out).1, keys),
    decreases buf.len(),
{
    let n = buf.len();
    assert(!is_ascii_char('ん') && !is_ascii_char('っ'));
    if n >= 3 && buf[0] == 'n' && buf[1] == 'n' {
        let b2 = buf.subrange(2, n as int);
        assert(ascii_from(b2, keys)) by {
            assert forall|i: int| 0 <= i < b2.len() && is_ascii_char(#[trigger] b2[i]) implies keys.contains(b2[i]) by {
                assert(b2[i] == buf[i + 2]);
            }
        }
        let o2 = out.push('ん');
        assert(ascii_from(o2, keys)) by {
            assert forall|i: int| 0 <= i < o2.len() && is_ascii_char(#[trigger] o2[i]) implies keys.contains(o2[i]) by {
                if i < out.len() {
                    assert(o2[i] == out[i]);
                }
            }
        }
        lemma_step_ascii(t, b2, o2, keys);
    } else if n >= 2 && buf[n - 2] == 'n' && !keeps_n(buf[n - 1]) && !(n == 2 && buf[n - 1] == 'n') {
        let b2 = buf.subrange(0, n - 2).push(buf[n - 1]);
        assert(ascii_from(b2, keys)) by {
            assert forall|i: int| 0 <= i < b2.len() && is_ascii_char(#[trigger] b2[i]) implies keys.contains(b2[i]) by {
                if i < n - 2 {
                    assert(b2[i] == buf[i]);
                } else {
                    assert(b2[i] == buf[n - 1]);
                }
            }
        }
        let o2 = out.push('ん');
        assert(ascii_from(o2, keys)) by {
            assert forall|i: int| 0 <= i < o2.len() && is_ascii_char(#[trigger] o2[i]) implies keys.contains(o2[i]) by {
                if i < out.len() {
                    assert(o2[i] == out[i]);
                }
            }
        }
        lemma_step_ascii(t, b2, o2, keys);
    } else if n == 2 && buf[1] == buf[0] && !no_sokuon(buf[1]) {
        let b2 = seq![buf[1]];
        assert(ascii_from(b2, keys)) by {
            assert forall|i: int| 0 <= i < b2.len() && is_ascii_char(#[trigger] b2[i]) implies keys.contains(b2[i]) by {
                assert(b2[i] == buf[1]);
            }
        }
        let o2 = out.push('っ');
        assert(ascii_from(o2, keys)) by {
            assert forall|i: int| 0 <= i < o2.len() && is_ascii_char(#[trigger] o2[i]) implies keys.contains(o2[i]) by {
                if i < out.len() {
                    assert(o2[i] == out[i]);
                }
            }
        }
    } else {
        lemma_longest(t, buf);
        let m = longest(t, buf);
        if m > 0 {
            lemma_longest_key(t, buf);
            let k = buf.subrange(0, m as int);
            lemma_rule_output(t, k, out, keys);
            let o = output_of(t, k);
            if extends(t, k) && m == n {
                if buf == seq!['n', '\''] || buf == seq!['n', 'n'] {
                    assert(ascii_from(Seq::<char>::empty(), keys));
                }
            } else {
                let b2 = buf.subrange(m as int, n as int);
                assert(ascii_from(b2, keys)) by {
                    assert forall|i: int| 0 <= i < b2.len() && is_ascii_char(#[trigger] b2[i]) implies keys.contains(b2[i]) by {
                        assert(b2[i] == buf[i + m]);
                    }
                }
                lemma_step_ascii(t, b2, out + o, keys);
            }
        } else if n == 0 {
        } else if starts_rule_spec(t, buf[0]) && is_node(t, buf) {
        } else {
            let first = seq![buf[0]];
            lemma_longest(t, first);
            let m1 = longest(t, first);
            if m1 > 0 {
                lemma_longest_key(t, first);
                assert(first.subrange(0, m1 as int) =~= first);
                lemma_rule_output(t, first, out, keys);
                let b2 = buf.subrange(m1 as int, n as int);
                assert(ascii_from(b2, keys)) by {
                    assert forall|i: int| 0 <= i < b2.len() && is_ascii_char(#[trigger] b2[i]) implies keys.contains(b2[i]) by {
                        assert(b2[i] == buf[i + m1]);
                    }
                }
                lemma_step_ascii(t, b2, out + output_of(t, first), keys);
            } else {
                let b2 = buf.subrange(1, n as int);
                assert(ascii_from(b2, keys)) by {
                    assert forall|i: int| 0 <= i < b2.len() && is_ascii_char(#[trigger] b2[i]) implies keys.contains(b2[i]) by {
                        assert(b2[i] == buf[i + 1]);
                    }
                }
                let o2 = out.push(buf[0]);
                assert(ascii_from(o2, keys)) by {
                    assert forall|i: int| 0 <= i < o2.len() && is_ascii_char(#[trigger] o2[i]) implies keys.contains(o2[i]) by {
                        if i < out.len() {
                            assert(o2[i] == out[i]);
                        } else {
                            assert(o2[i] == buf[0]);
                        }
                    }
                }
                lemma_step_ascii(t, b2, o2, keys);
            }
        }
    }
}

/// Converting the first `k` keys of `raw` brings in no ASCII that `raw`
/// did not type.
proof fn lemma_convert_prefix_ascii(t: RuleSeq, raw: Seq<char>, k: int)
    requires
        table_wf(t),
        0 <= k <= raw.len(),
    ensures
        ascii_from(convert_spec(t, raw.subrange(0, k)).0, typed_keys(raw)),
        ascii_from(convert_spec(t, raw.subrange(0, k)).1, typed_keys(raw)),
    decreases k,
{
    let keys = typed_keys(raw);
    let p = raw.subrange(0, k);
    if k == 0 {
        assert(convert_spec(t, p).0.len() == 0);
        assert(convert_spec(t, p).1.len() == 0);
    } else {
        lemma_convert_prefix_ascii(t, raw, k - 1);
        assert(p.drop_last() =~= raw.subrange(0, k - 1));
        assert(p.last() == raw[k - 1]);
        let st = convert_spec(t, raw.subrange(0, k - 1));
        let c = ascii_lower(raw[k - 1]);
        assert(keys[k - 1] == c);
        assert(keys.contains(c));
        let b2 = st.0.push(c);
        assert(ascii_from(b2, keys)) by {
            assert forall|i: int| 0 <= i < b2.len() && is_ascii_char(#[trigger] b2[i]) implies keys.contains(b2[i]) by {
                if i < st.0.len() {
                    assert(b2[i] == st.0[i]);
                }
            }
        }
        lemma_step_ascii(t, b2, st.1, keys);
    }
}

/// Every ASCII character that conversion leaves in its output or its
/// pending tail is one that was typed (ASCII letters lowered): rule
/// outputs hold no ASCII, so ASCII only ever passes through.
pub proof fn lemma_ascii_passes_through(t: RuleSeq, raw: Seq<char>)
    requires
        table_wf(t),
    ensures
        ascii_from(convert_spec(t, raw).1, typed_keys(raw)),
        ascii_from(convert_spec(t, raw).0, typed_keys(raw)),
{
    lemma_convert_prefix_ascii(t, raw, raw.len() as int);
    assert(raw.subrange(0, raw.len() as int) =~= raw);
}

/// A pending tail that conversion may still complete: empty, on the way
/// to a key, or the one key a doubled consonant leaves behind.
pub open spec fn live_tail(t: RuleSeq, p: Seq<char>) -> bool {
    ||| p.len() == 0
    ||| is_node(t, p)
    ||| p.len() == 1 && !no_sokuon(p[0])
}

/// One settling step only appends to the output, never leaves more
/// pending than it was given, and leaves a live tail.
proof fn lemma_step_grows(t: RuleSeq, buf: Seq<char>, out: Seq<char>)
    ensures
        is_prefix(out, step(t, buf, out).1),
        step(t, buf, out).0.len() <= buf.len(),
        live_tail(t, step(t, buf, out).0),
    decreases buf.len(),
{
    let n = buf.len();
    let r = step(t, buf, out);
    if n >= 3 && buf[0] == 'n' && buf[1] == 'n' {
        let o2 = out.push('ん');
        lemma_step_grows(t, buf.subrange(2, n as int), o2);
        assert(o2.subrange(0, out.len() as int) =~= out);
        assert(r.1.subrange(0, out.len() as int) =~= r.1.subrange(0, o2.len() as int).subrange(0, out.len() as int));
    } else if n >= 2 && buf[n - 2] == 'n' && !keeps_n(buf[n - 1]) && !(n == 2 && buf[n - 1] == 'n') {
        let o2 = out.push('ん');
        lemma_step_grows(t, buf.subrange(0, n - 2).push(buf[n - 1]), o2);
        assert(o2.subrange(0, out.len() as int) =~= out);
        assert(r.1.subrange(0, out.len() as int) =~= r.1.subrange(0, o2.len() as int).subrange(0, out.len() as int));
    } else if n == 2 && buf[1] == buf[0] && !no_sokuon(buf[1]) {
        assert(out.push('っ').subrange(0, out.len() as int) =~= out);
    } else {
        lemma_longest(t, buf);
        let m = longest(t, buf);
        if m > 0 {
            let o = output_of(t, buf.subrange(0, m as int));
            let o2 = out + o;
            assert(o2.subrange(0, out.len() as int) =~= out);
            if extends(t, buf.subrange(0, m as int)) && m == n {
                if buf == seq!['n', '\''] || buf == seq!['n', 'n'] {
                } else {
                    assert(buf.subrange(0, m as int) =~= buf);
                    let i = choose|i: int| 0 <= i < t.len() && is_prefix(buf.subrange(0, m as int), (#[trigger] t[i]).0)
                        && t[i].0.len() > buf.subrange(0, m as int).len();
                    assert(is_prefix(buf, t[i].0));
                    assert(out.subrange(0, out.len() as int) =~= out);
                }
            } else {
                lemma_step_grows(t, buf.subrange(m as int, n as int), o2);
                assert(r.1.subrange(0, out.len() as int) =~= r.1.subrange(0, o2.len() as int).subrange(0, out.len() as int));
            }
        } else if n == 0 {
            assert(out.subrange(0, out.len() as int) =~= out);
        } else if starts_rule_spec(t, buf[0]) && is_node(t, buf) {
            assert(out.subrange(0, out.len() as int) =~= out);
        } else {
            let first = seq![buf[0]];
            lemma_longest(t, first);
            let m1 = longest(t, first);
            if m1 > 0 {
                let o2 = out + output_of(t, first);
                assert(o2.subrange(0, out.len() as int) =~= out);
                lemma_step_grows(t, buf.subrange(m1 as int, n as int), o2);
                assert(r.1.subrange(0, out.len() as int) =~= r.1.subrange(0, o2.len() as int).subrange(0, out.len() as int));
            } else {
                let o2 = out.push(buf[0]);
                assert(o2.subrange(0, out.len() as int) =~= out);
                lemma_step_grows(t, buf.subrange(1, n as int), o2);
                assert(r.1.subrange(0, out.len() as int) =~= r.1.subrange(0, o2.len() as int).subrange(0, out.len() as int));
            }
        }
    }
}

/// Conversion is stable under more typing: what `raw` converts to stays
/// the beginning of what `raw` followed by `more` converts to.
pub proof fn lemma_convert_prefix_stable(t: RuleSeq, raw: Seq<char>, more: Seq<char>)
    ensures
        is_prefix(convert_spec(t, raw).1, convert_spec(t, raw + more).1),
    decreases more.len(),
{
    let a = convert_spec(t, raw).1;
    if more.len() == 0 {
        assert(raw + more =~= raw);
        assert(a.subrange(0, a.len() as int) =~= a);
    } else {
        let all = raw + more;
        assert(all.drop_last() =~= raw + more.drop_last());
        lemma_convert_prefix_stable(t, raw, more.drop_last());
        let st = convert_spec(t, all.drop_last());
        lemma_step_grows(t, st.0.push(ascii_lower(all.last())), st.1);
        let b = convert_spec(t, all).1;
        assert(b.subrange(0, a.len() as int) =~= b.subrange(0, st.1.len() as int).subrange(0, a.len() as int));
    }
}

/// The pending tail of a conversion is never longer than what was typed,
/// and conversion can still complete it: it is empty, on the way to a key,
/// or the one key a doubled consonant leaves.
pub proof fn lemma_pending_is_live(t: RuleSeq, raw: Seq<char>)
    ensures
        convert_spec(t, raw).0.len() <= raw.len(),
        live_tail(t, convert_spec(t, raw).0),
    decreases raw.len(),
{
    if raw.len() > 0 {
        lemma_pending_is_live(t, raw.drop_last());
        let st = convert_spec(t, raw.drop_last());
        lemma_step_grows(t, st.0.push(ascii_lower(raw.last())), st.1);
    }
}

/// A pending tail that conversion has left after `raw` is empty, can
/// still become kana (some rule's key extends it, so
/// [`RomajiConverter::pending_expansions`] offers an output), or is the one
/// key a doubled consonant leaves; and it is never longer than `raw`.
pub proof fn lemma_pending_expands(t: RuleSeq, raw: Seq<char>)
    ensures
        convert_spec(t, raw).0.len() <= raw.len(),
        ({
            let p = convert_spec(t, raw).0;
            ||| p.len() == 0
            ||| exists|o: Seq<char>| expansion_of(t, p, o)
            ||| p.len() == 1 && !no_sokuon(p[0])
        }),
{
    lemma_pending_is_live(t, raw);
    let p = convert_spec(t, raw).0;
    if p.len() > 0 && is_node(t, p) {
        let i = choose|i: int| 0 <= i < t.len() && is_prefix(p, (#[trigger] t[i]).0);
        assert(expansion_of(t, p, t[i].1));
    }
}

/// Working state for one `convert` call.
struct Scratch<'a> {
    table: &'a RuleTable,
    buffer: Vec<char>,
    output: Vec<char>,
}

impl<'a> Scratch<'a> {
    /// Push a character and attempt conversion.
    fn push(&mut self, ch: char)
        ensures
            (final(self).buffer@, final(self).output@) == push_spec(old(self).table@, (old(self).buffer@, old(self).output@), ch),
            final(self).table == old(self).table,
    {
        let ch = to_ascii_lower(ch);
        self.buffer.push(ch);
        self.try_convert();
    }

    /// Process the buffer left after a conversion.
    fn convert_remainder(&mut self)
        ensures
            (final(self).buffer@, final(self).output@) == step(old(self).table@, old(self).buffer@, old(self).output@),
            final(self).table == old(self).table,
        decreases old(self).buffer@.len(), 2nat,
    {
        if self.buffer.len() > 0 {
            self.try_convert();
        } else {
            proof {
                use_type_invariant(self.table);
                lemma_longest(self.table@, self.buffer@);
            }
        }
    }

    /// Settle the buffer: [`step`].
    fn try_convert(&mut self)
        ensures
            (final(self).buffer@, final(self).output@) == step(old(self).table@, old(self).buffer@, old(self).output@),
            final(self).table == old(self).table,
        decreases old(self).buffer@.len(), 1nat,
    {
        proof {
            use_type_invariant(self.table);
        }
        let ghost t = self.table@;
        let n = self.buffer.len();
        // "nn" followed by anything: ん, the rest settles on its own.
        if n >= 3 && self.buffer[0] == 'n' && self.buffer[1] == 'n' {
            self.buffer = chars_range(self.buffer.as_slice(), 2, n);
            self.output.push('ん');
            return self.convert_remainder();
        }
        if n >= 2 {
            let last = self.buffer[n - 1];
            let second_last = self.buffer[n - 2];
            // An `n` before a consonant is ん; exactly "nn" waits.
            if second_last == 'n' && !(last == 'a' || last == 'i' || last == 'u' || last == 'e'
                || last == 'o' || last == 'y' || last == '\'') && !(n == 2 && last == 'n') {
                let mut rest = chars_range(self.buffer.as_slice(), 0, n - 2);
                rest.push(last);
                self.buffer = rest;
                self.output.push('ん');
                return self.convert_remainder();
            }
            // A doubled consonant that is the whole buffer: っ, the second stays.
            if n == 2 && last == second_last && !(last == 'a' || last == 'i' || last == 'u' || last
                == 'e' || last == 'o' || last == 'n') {
                self.buffer = vec![last];
                self.output.push('っ');
                proof {
                    assert(self.buffer@ =~= seq![last]);
                }
                return;
            }
        }
        proof {
            lemma_longest(t, self.buffer@);
        }
        let search = self.table.search_longest(self.buffer.as_slice());
        match search.rule {
            Some(i) => {
                let matched = search.matched;
                let head = chars_range(self.buffer.as_slice(), 0, matched);
                if matched == n && self.table.extends(head.as_slice()) {
                    // A valid conversion that a longer key could still
                    // extend: wait, unless it is `n'` or `nn`.
                    let n_apos: Vec<char> = vec!['n', '\''];
                    let n_n: Vec<char> = vec!['n', 'n'];
                    if chars_eq(self.buffer.as_slice(), n_apos.as_slice()) || chars_eq(
                        self.buffer.as_slice(),
                        n_n.as_slice(),
                    ) {
                        proof {
                            assert(n_apos@ =~= seq!['n', '\'']);
                            assert(n_n@ =~= seq!['n', 'n']);
                        }
                        chars_extend(&mut self.output, self.table.output(i).as_slice());
                        self.buffer = Vec::new();
                        proof {
                            assert(self.buffer@ =~= Seq::<char>::empty());
                        }
                    } else {
                        proof {
                            assert(n_apos@ =~= seq!['n', '\'']);
                            assert(n_n@ =~= seq!['n', 'n']);
                        }
                    }
                } else {
                    chars_extend(&mut self.output, self.table.output(i).as_slice());
                    self.buffer = chars_range(self.buffer.as_slice(), matched, n);
                    self.convert_remainder();
                }
            },
            None => {
                if n == 0 {
                    return;
                }
                let first_char = self.buffer[0];
                if self.table.starts_rule(first_char) && self.table.is_node(self.buffer.as_slice()) {
                    // Still on the way to a key: keep buffering.
                    return;
                }
                let first: Vec<char> = vec![first_char];
                proof {
                    assert(first@ =~= seq![first_char]);
                    lemma_longest(t, first@);
                }
                let first_search = self.table.search_longest(first.as_slice());
                match first_search.rule {
                    Some(j) => {
                        proof {
                            assert(first@.subrange(0, first_search.matched as int) =~= first@);
                        }
                        chars_extend(&mut self.output, self.table.output(j).as_slice());
                        self.buffer = chars_range(self.buffer.as_slice(), first_search.matched, n);
                        self.convert_remainder();
                    },
                    None => {
                        self.buffer = chars_range(self.buffer.as_slice(), 1, n);
                        self.output.push(first_char);
                        self.convert_remainder();
                    },
                }
            },
        }
    }
}

/// Stateless romaji-to-hiragana converter.
///
/// Holds the rule table and the width rules; each call derives its result
/// from the full raw input, so the caller owns all editing state.
pub struct RomajiConverter {
    table: RuleTable,
    width: WidthRules,
}

impl RomajiConverter {
    /// The converter's rule table.
    pub closed spec fn rules(&self) -> RuleSeq {
        self.table@
    }

    /// The width rules it was built with.
    pub closed spec fn width_rules(&self) -> WidthRules {
        self.width
    }

    /// The rules are well formed.
    pub fn rules_wf(&self)
        ensures
            table_wf(self.rules()),
    {
        proof {
            use_type_invariant(&self.table);
        }
    }

    /// Create a new converter with default rules
    pub fn new() -> (c: Self)
        ensures
            c.rules() == rules_for(default_symbol_style()),
            c.width_rules() == default_width_rules(),
    {
        Self::with_rules(SymbolStyle::default_style(), WidthRules::default_rules())
    }

    /// Create a converter whose `,` `.` `/` `[` `]` keys type `style`, and
    /// whose output settles at `width`.
    pub fn with_rules(style: SymbolStyle, width: WidthRules) -> (c: Self)
        ensures
            c.rules() == rules_for(style),
            c.width_rules() == width,
    {
        Self { table: build_rules(style), width }
    }

    /// The rule table the converter reads.
    pub fn rule_table(&self) -> (t: &RuleTable)
        ensures
            t@ == self.rules(),
    {
        &self.table
    }

    /// The width a character settles at once it is no longer a live
    /// keystroke. Applied by the caller, which is what knows when that is.
    pub fn width(&self) -> (w: &WidthRules)
        ensures
            *w == self.width_rules(),
    {
        &self.width
    }

    /// Convert `raw` left to right. `pending` holds the trailing input that
    /// may still combine with future keys (e.g. `k`, `ky`, a lone `n`).
    ///
    /// Rule outputs never contain ASCII, so any ASCII character in `text` is
    /// an input character that passed through unchanged (see
    /// [`lemma_ascii_passes_through`]).
    pub fn convert(&self, raw: &str) -> (r: Converted)
        ensures
            r.pending@ == convert_spec(self.rules(), raw@).0,
            r.text@ == convert_spec(self.rules(), raw@).1,
    {
        let chars = chars_of(raw);
        let mut scratch = Scratch { table: &self.table, buffer: Vec::new(), output: Vec::new() };
        let mut i: usize = 0;
        assert(chars@.subrange(0, 0) =~= Seq::<char>::empty());
        while i < chars.len()
            invariant
                0 <= i <= chars@.len(),
                chars@ == raw@,
                scratch.table == &self.table,
                (scratch.buffer@, scratch.output@) == convert_spec(self.table@, chars@.subrange(0, i as int)),
            decreases chars@.len() - i,
        {
            assert(chars@.subrange(0, i + 1).drop_last() =~= chars@.subrange(0, i as int));
            assert(chars@.subrange(0, i + 1).last() == chars@[i as int]);
            scratch.push(chars[i]);
            i = i + 1;
        }
        assert(chars@.subrange(0, chars@.len() as int) =~= chars@);
        Converted {
            text: string_from_chars(scratch.output.as_slice()),
            pending: string_from_chars(scratch.buffer.as_slice()),
        }
    }

    /// Force-convert leftover pending input (`ltu` → っ). A stranded `n`
    /// settles as ん — the only kana a lone `n` can still mean once nothing
    /// follows to make it な行 (`karukan` commits as かるかん, `kanp` as
    /// かんp) — and any other character with no rule passes through
    /// literally.
    pub fn flush_pending(&self, pending: &str) -> (r: String)
        ensures
            r@ == flush_spec(self.rules(), pending@),
    {
        let chars = chars_of(pending);
        let r = self.flush_chars(chars.as_slice());
        string_from_chars(r.as_slice())
    }

    /// [`Self::flush_pending`] on characters.
    fn flush_chars(&self, pending: &[char]) -> (r: Vec<char>)
        ensures
            r@ == flush_spec(self.table@, pending@),
    {
        let ghost t = self.table@;
        let mut buffer: Vec<char> = chars_range(pending, 0, pending.len());
        let mut result: Vec<char> = Vec::new();
        assert(pending@.subrange(0, pending@.len() as int) =~= pending@);
        while buffer.len() > 0
            invariant
                t == self.table@,
                result@ + flush_spec(t, buffer@) == flush_spec(t, pending@),
            decreases buffer@.len(),
        {
            proof {
                lemma_longest(t, buffer@);
            }
            let ghost old_buffer = buffer@;
            let search = self.table.search_longest(buffer.as_slice());
            match search.rule {
                Some(i) => {
                    chars_extend(&mut result, self.table.output(i).as_slice());
                    buffer = chars_range(buffer.as_slice(), search.matched, buffer.len());
                },
                None => {
                    // No rule starts here, so this `n` is not the head of
                    // な行 / `nn` / `n'`: it can only be ん.
                    let ch = buffer[0];
                    result.push(if ch == 'n' { 'ん' } else { ch });
                    buffer = chars_range(buffer.as_slice(), 1, buffer.len());
                },
            }
            proof {
                assert(result@ + flush_spec(t, buffer@) =~= flush_spec(t, pending@));
            }
        }
        assert(result@ + flush_spec(t, buffer@) =~= result@);
        result
    }

    /// Convert then flush the leftover: the committed form of `raw`, at the
    /// configured width. [`Self::convert`] leaves the width alone because
    /// part of its output is still live keystrokes; here everything settles.
    pub fn convert_flush(&self, raw: &str) -> (r: String)
        ensures
            r@ == settle_seq(
                self.width_rules(),
                convert_spec(self.rules(), raw@).1 + flush_spec(self.rules(), convert_spec(self.rules(), raw@).0),
            ),
    {
        let converted = self.convert(raw);
        let text = chars_of(converted.text.as_str());
        let pending = chars_of(converted.pending.as_str());
        let flushed = self.flush_chars(pending.as_slice());
        let mut all = text;
        chars_extend(&mut all, flushed.as_slice());
        let settled = self.width.apply_chars(all.as_slice());
        string_from_chars(settled.as_slice())
    }

    /// Whether `ch` can begin a conversion rule (`k`, `y`, `n` — a later
    /// keystroke could still complete a conversion with it; `1` cannot).
    pub fn starts_rule(&self, ch: char) -> (r: bool)
        ensures
            r == starts_rule_spec(self.rules(), ch),
    {
        self.table.starts_rule(ch)
    }
}

} // verus!

verus! {

/// Outputs of the rules whose key extends `pending` (a key equal to it
/// included); none for an empty `pending`.
pub open spec fn expansion_of(t: RuleSeq, pending: Seq<char>, o: Seq<char>) -> bool {
    pending.len() > 0 && exists|i: int| 0 <= i < t.len() && is_prefix(pending, (#[trigger] t[i]).0) && t[i].1 == o
}

impl RomajiConverter {
    /// Kana the pending romaji can still become: the outputs of every rule
    /// whose key extends `pending` (`d` → だ/ぢ/づ/で/ど/ぢゃ…; `n` includes
    /// ん via `nn`/`n'`), sorted and without repeats. Empty when `pending` is
    /// empty or cannot reach any rule (`yk`).
    pub fn pending_expansions(&self, pending: &str) -> (r: Vec<String>)
        ensures
            strictly_sorted(string_texts(r@)),
            forall|o: Seq<char>| #[trigger] has_text(string_texts(r@), o) <==> expansion_of(
                self.rules(),
                pending@,
                o,
            ),
    {
        let p = chars_of(pending);
        let ghost t = self.table@;
        let mut found: Vec<Vec<char>> = Vec::new();
        assert(texts(found@) =~= Seq::<Seq<char>>::empty());
        if p.len() > 0 {
            let mut i: usize = 0;
            while i < self.table.len()
                invariant
                    t == self.table@,
                    0 <= i <= t.len(),
                    p@ == pending@,
                    p@.len() > 0,
                    strictly_sorted(texts(found@)),
                    forall|o: Seq<char>| #[trigger] has_text(texts(found@), o) <==> (exists|j: int|
                        0 <= j < i && is_prefix(p@, (#[trigger] t[j]).0) && t[j].1 == o),
                decreases t.len() - i,
            {
                if chars_starts_with(self.table.key(i).as_slice(), p.as_slice()) {
                    let o = self.table.output(i);
                    let copy = chars_range(o.as_slice(), 0, o.len());
                    assert(o@.subrange(0, o@.len() as int) =~= o@);
                    insert_sorted(&mut found, copy);
                    assert forall|o: Seq<char>| #[trigger] has_text(texts(found@), o) <==> (exists|j: int|
                        0 <= j < i + 1 && is_prefix(p@, (#[trigger] t[j]).0) && t[j].1 == o) by {
                        if o == t[i as int].1 {
                            assert(is_prefix(p@, t[i as int].0));
                        }
                    }
                } else {
                    assert forall|o: Seq<char>| #[trigger] has_text(texts(found@), o) <==> (exists|j: int|
                        0 <= j < i + 1 && is_prefix(p@, (#[trigger] t[j]).0) && t[j].1 == o) by {
                        if exists|j: int| 0 <= j < i + 1 && is_prefix(p@, (#[trigger] t[j]).0) && t[j].1 == o {
                            let j = choose|j: int| 0 <= j < i + 1 && is_prefix(p@, (#[trigger] t[j]).0) && t[j].1 == o;
                            assert(j != i);
                        }
                    }
                }
                i = i + 1;
            }
        }
        let mut r: Vec<String> = Vec::new();
        let mut k: usize = 0;
        while k < found.len()
            invariant
                0 <= k <= found@.len(),
                r@.len() == k,
                forall|j: int| 0 <= j < k ==> (#[trigger] r@[j])@ == found@[j]@,
            decreases found@.len() - k,
        {
            r.push(string_from_chars(found[k].as_slice()));
            k = k + 1;
        }
        proof {
            let rv = string_texts(r@);
            assert(rv =~= texts(found@));
            assert forall|o: Seq<char>| #[trigger] has_text(rv, o) <==> expansion_of(t, pending@, o) by {
                if expansion_of(t, pending@, o) {
                    let j = choose|j: int| 0 <= j < t.len() && is_prefix(pending@, (#[trigger] t[j]).0) && t[j].1 == o;
                    assert(exists|j: int| 0 <= j < t.len() && is_prefix(p@, (#[trigger] t[j]).0) && t[j].1 == o);
                }
            }
        }
        r
    }
}

} // verus!
