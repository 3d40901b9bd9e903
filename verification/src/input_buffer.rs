//! The composition being typed: text already settled (kana, symbols,
//! directly typed letters, each at the width in force when it was typed)
//! followed by the romaji keystrokes that may still combine.

use vstd::prelude::*;
use crate::converter::{convert_spec, flush_spec, RomajiConverter};
use crate::text::{char_from_u32, chars_extend, chars_of, string_from_chars};
use crate::width::settle_seq;

verus! {

/// The katakana of a hiragana letter (ぁ..ゖ and the iteration marks ゝゞ
/// sit 0x60 below their katakana); any other character is kept.
pub open spec fn katakana_char(c: char) -> char {
    if (0x3041 <= c as u32 && c as u32 <= 0x3096) || (0x309d <= c as u32 && c as u32 <= 0x309e) {
        ((c as u32 + 0x60) as u32) as char
    } else {
        c
    }
}

/// `s` with every hiragana letter in katakana.
pub open spec fn katakana(s: Seq<char>) -> Seq<char> {
    s.map_values(|c: char| katakana_char(c))
}

/// `c` is a hiragana letter: ぁ..ゖ (U+3041..U+3096) or an iteration mark
/// ゝゞ (U+309D, U+309E).
pub open spec fn is_hiragana_letter(c: char) -> bool {
    (0x3041 <= c as u32 && c as u32 <= 0x3096) || c as u32 == 0x309d || c as u32 == 0x309e
}

/// Katakana mode's conversion: every hiragana letter becomes the katakana
/// letter U+60 above it (ぱ → パ, ん → ン, ゖ → ヶ, ゝ → ヽ), nothing else
/// changes, and so no hiragana letter is left in the result.
pub proof fn lemma_katakana_letters(s: Seq<char>)
    ensures
        katakana(s).len() == s.len(),
        forall|i: int| 0 <= i < s.len() && is_hiragana_letter(s[i]) ==> (#[trigger] katakana(s)[i]) as u32 == s[i]
            as u32 + 0x60,
        forall|i: int| 0 <= i < s.len() && !is_hiragana_letter(s[i]) ==> #[trigger] katakana(s)[i] == s[i],
        forall|i: int| 0 <= i < s.len() ==> !is_hiragana_letter(#[trigger] katakana(s)[i]),
{
    assert forall|i: int| 0 <= i < s.len() implies {
        &&& is_hiragana_letter(s[i]) ==> (#[trigger] katakana(s)[i]) as u32 == s[i] as u32 + 0x60
        &&& !is_hiragana_letter(s[i]) ==> katakana(s)[i] == s[i]
        &&& !is_hiragana_letter(katakana(s)[i])
    } by {
        let c = s[i];
        let v = c as u32;
        if is_hiragana_letter(c) {
            let k = (v + 0x60) as u32;
            assert(0x30a1 <= k <= 0x30fe);
            assert(((k as char) as u32) == k);
        }
    }
}

/// The katakana form of one character.
fn to_katakana_char(c: char) -> (r: char)
    ensures
        r == katakana_char(c),
{
    let code = c as u32;
    if (0x3041 <= code && code <= 0x3096) || (0x309d <= code && code <= 0x309e) {
        match char_from_u32(code + 0x60) {
            Some(k) => k,
            None => c,
        }
    } else {
        c
    }
}

/// `s` with every hiragana letter in katakana.
pub fn to_katakana(s: &[char]) -> (r: Vec<char>)
    ensures
        r@ == katakana(s@),
{
    let mut r: Vec<char> = Vec::new();
    let mut i: usize = 0;
    while i < s.len()
        invariant
            0 <= i <= s@.len(),
            r@ == katakana(s@.subrange(0, i as int)),
        decreases s@.len() - i,
    {
        r.push(to_katakana_char(s[i]));
        i = i + 1;
        assert(r@ =~= katakana(s@.subrange(0, i as int)));
    }
    assert(s@.subrange(0, s@.len() as int) =~= s@);
    r
}

/// What typing `ch` after the romaji tail `pending` settles and leaves
/// pending, with `conv`: the rules convert `pending` + `ch`, and what they
/// settle comes out at the converter's width.
pub open spec fn romaji_step(conv: RomajiConverter, pending: Seq<char>, ch: char) -> (Seq<char>, Seq<char>) {
    let c = convert_spec(conv.rules(), pending.push(ch));
    (settle_seq(conv.width_rules(), c.1), c.0)
}

/// The forced reading of the romaji tail `pending`, at the converter's width.
pub open spec fn flushed(conv: RomajiConverter, pending: Seq<char>) -> Seq<char> {
    settle_seq(conv.width_rules(), flush_spec(conv.rules(), pending))
}

/// A composition with a caret: the settled text before the caret, the
/// romaji tail being typed at the caret, and the settled text after it.
#[derive(Debug)]
pub struct InputBuffer {
    text: Vec<char>,
    pending: Vec<char>,
    tail: Vec<char>,
}

impl InputBuffer {
    /// The settled text before the caret.
    pub closed spec fn settled(&self) -> Seq<char> {
        self.text@
    }

    /// The romaji keystrokes not resolved yet, at the caret.
    pub closed spec fn romaji(&self) -> Seq<char> {
        self.pending@
    }

    /// The settled text after the caret.
    pub closed spec fn after(&self) -> Seq<char> {
        self.tail@
    }

    /// What the composition shows: the text before the caret, the raw
    /// tail, the text after the caret.
    pub open spec fn shown(&self) -> Seq<char> {
        self.settled() + self.romaji() + self.after()
    }

    /// Where the caret shows: after the text before it and the raw tail.
    pub open spec fn caret_pos(&self) -> nat {
        self.settled().len() + self.romaji().len()
    }

    /// An empty composition.
    pub fn new() -> (b: Self)
        ensures
            b.settled().len() == 0,
            b.romaji().len() == 0,
            b.after().len() == 0,
    {
        InputBuffer { text: Vec::new(), pending: Vec::new(), tail: Vec::new() }
    }

    /// Empty it.
    pub fn clear(&mut self)
        ensures
            final(self).settled().len() == 0,
            final(self).romaji().len() == 0,
            final(self).after().len() == 0,
    {
        self.text = Vec::new();
        self.pending = Vec::new();
        self.tail = Vec::new();
    }

    /// Whether nothing is typed.
    pub fn is_empty(&self) -> (r: bool)
        ensures
            r == (self.shown().len() == 0),
    {
        self.text.len() == 0 && self.pending.len() == 0 && self.tail.len() == 0
    }

    /// How many characters are settled, before and after the caret.
    pub fn settled_len(&self) -> (n: usize)
        ensures
            n == self.settled().len() + self.after().len(),
    {
        let all = self.display_chars();
        all.len() - self.pending.len()
    }

    /// Where the caret shows, in characters.
    pub fn caret(&self) -> (n: usize)
        ensures
            n == self.caret_pos(),
    {
        let all = self.display_chars();
        all.len() - self.tail.len()
    }

    /// The composition as shown.
    pub fn reading(&self) -> (r: String)
        ensures
            r@ == self.shown(),
    {
        let all = self.display_chars();
        string_from_chars(all.as_slice())
    }

    /// The composition as shown, as characters.
    pub fn display_chars(&self) -> (r: Vec<char>)
        ensures
            r@ == self.shown(),
    {
        let mut all = self.text.clone();
        chars_extend(&mut all, self.pending.as_slice());
        chars_extend(&mut all, self.tail.as_slice());
        all
    }

    /// The romaji tail.
    pub fn pending(&self) -> (r: String)
        ensures
            r@ == self.romaji(),
    {
        string_from_chars(self.pending.as_slice())
    }

    /// Type `ch` at the caret through the romaji rules: it joins the tail,
    /// whatever the rules resolve moves to the settled text before the
    /// caret at the converter's width, and the rest stays pending.
    pub fn push_romaji(&mut self, ch: char, conv: &RomajiConverter)
        ensures
            final(self).settled() == old(self).settled() + romaji_step(*conv, old(self).romaji(), ch).0,
            final(self).romaji() == romaji_step(*conv, old(self).romaji(), ch).1,
            final(self).after() == old(self).after(),
    {
        let mut raw = self.pending.clone();
        raw.push(ch);
        let converted = conv.convert(string_from_chars(raw.as_slice()).as_str());
        let resolved = chars_of(converted.text.as_str());
        let settled = conv.width().apply_chars(resolved.as_slice());
        chars_extend(&mut self.text, settled.as_slice());
        self.pending = chars_of(converted.pending.as_str());
    }

    /// Force the romaji tail into the settled text before the caret: its
    /// forced reading (a stranded `n` is ん, a key with no rule stays as
    /// typed), at the converter's width.
    pub fn settle_romaji(&mut self, conv: &RomajiConverter)
        ensures
            final(self).settled() == old(self).settled() + flushed(*conv, old(self).romaji()),
            final(self).romaji().len() == 0,
            final(self).after() == old(self).after(),
    {
        if self.pending.len() > 0 {
            let flushed = conv.flush_pending(string_from_chars(self.pending.as_slice()).as_str());
            let resolved = chars_of(flushed.as_str());
            let settled = conv.width().apply_chars(resolved.as_slice());
            chars_extend(&mut self.text, settled.as_slice());
            self.pending = Vec::new();
        } else {
            proof {
                assert(flush_spec(conv.rules(), old(self).romaji()) =~= Seq::<char>::empty());
                assert(flushed(*conv, old(self).romaji()) =~= Seq::<char>::empty());
                assert(self.text@ + Seq::<char>::empty() =~= self.text@);
            }
        }
    }

    /// Type `ch` at the caret as it is, past the romaji rules. The romaji
    /// tail settles first, so the character lands after it.
    pub fn push_direct(&mut self, ch: char, conv: &RomajiConverter)
        ensures
            final(self).settled() == (old(self).settled() + flushed(*conv, old(self).romaji())).push(ch),
            final(self).romaji().len() == 0,
            final(self).after() == old(self).after(),
    {
        self.settle_romaji(conv);
        self.text.push(ch);
    }

    /// Turn the settled hiragana on both sides of the caret into katakana
    /// for good, so the text keeps its katakana when the display stops
    /// converting it.
    pub fn bake_katakana(&mut self)
        ensures
            final(self).settled() == katakana(old(self).settled()),
            final(self).romaji() == old(self).romaji(),
            final(self).after() == katakana(old(self).after()),
    {
        self.text = to_katakana(self.text.as_slice());
        self.tail = to_katakana(self.tail.as_slice());
    }

    /// Erase the character before the caret: of the romaji tail while
    /// there is one, of the settled text otherwise (nothing at the start).
    pub fn backspace(&mut self)
        ensures
            old(self).romaji().len() > 0 ==> final(self).romaji() == old(self).romaji().drop_last()
                && final(self).settled() == old(self).settled(),
            old(self).romaji().len() == 0 ==> final(self).romaji().len() == 0
                && final(self).settled() == (if old(self).settled().len() > 0 {
                old(self).settled().drop_last()
            } else {
                old(self).settled()
            }),
            final(self).after() == old(self).after(),
    {
        if self.pending.len() > 0 {
            self.pending.pop();
        } else if self.text.len() > 0 {
            self.text.pop();
        }
    }

    /// Erase the character after the caret, if any. The romaji tail must
    /// have settled.
    pub fn delete_forward(&mut self)
        requires
            old(self).romaji().len() == 0,
        ensures
            final(self).settled() == old(self).settled(),
            final(self).romaji().len() == 0,
            final(self).after() == (if old(self).after().len() > 0 {
                old(self).after().drop_first()
            } else {
                old(self).after()
            }),
    {
        if self.tail.len() > 0 {
            let _gone = self.tail.remove(0);
            assert(self.tail@ =~= old(self).after().drop_first());
        }
    }

    /// Move the caret one character left, if it can. The romaji tail must
    /// have settled.
    pub fn caret_left(&mut self)
        requires
            old(self).romaji().len() == 0,
        ensures
            final(self).romaji().len() == 0,
            old(self).settled().len() > 0 ==> final(self).settled() == old(self).settled().drop_last()
                && final(self).after() == seq![old(self).settled().last()] + old(self).after(),
            old(self).settled().len() == 0 ==> final(self).settled() == old(self).settled() && final(self).after()
                == old(self).after(),
    {
        if self.text.len() > 0 {
            let c = self.text.pop().unwrap();
            self.tail.insert(0, c);
            assert(self.tail@ =~= seq![c] + old(self).after());
        }
    }

    /// Move the caret one character right, if it can. The romaji tail must
    /// have settled.
    pub fn caret_right(&mut self)
        requires
            old(self).romaji().len() == 0,
        ensures
            final(self).romaji().len() == 0,
            old(self).after().len() > 0 ==> final(self).settled() == old(self).settled().push(old(self).after()[0])
                && final(self).after() == old(self).after().drop_first(),
            old(self).after().len() == 0 ==> final(self).settled() == old(self).settled() && final(self).after()
                == old(self).after(),
    {
        if self.tail.len() > 0 {
            let c = self.tail.remove(0);
            self.text.push(c);
            assert(self.tail@ =~= old(self).after().drop_first());
        }
    }

    /// Move the caret to the start. The romaji tail must have settled.
    pub fn caret_home(&mut self)
        requires
            old(self).romaji().len() == 0,
        ensures
            final(self).romaji().len() == 0,
            final(self).settled().len() == 0,
            final(self).after() == old(self).settled() + old(self).after(),
    {
        let mut all = self.text.clone();
        chars_extend(&mut all, self.tail.as_slice());
        self.tail = all;
        self.text = Vec::new();
    }

    /// Move the caret to the end. The romaji tail must have settled.
    pub fn caret_end(&mut self)
        requires
            old(self).romaji().len() == 0,
        ensures
            final(self).romaji().len() == 0,
            final(self).settled() == old(self).settled() + old(self).after(),
            final(self).after().len() == 0,
    {
        let rest = self.tail.clone();
        chars_extend(&mut self.text, rest.as_slice());
        self.tail = Vec::new();
    }
}

impl Default for InputBuffer {
    fn default() -> (b: Self)
        ensures
            b.settled().len() == 0,
            b.romaji().len() == 0,
            b.after().len() == 0,
    {
        InputBuffer::new()
    }
}

} // verus!
