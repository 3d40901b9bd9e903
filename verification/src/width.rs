//! The width typed characters settle at: half (ASCII / halfwidth forms) or
//! full (the fullwidth forms), chosen per character group.

use vstd::prelude::*;
use crate::text::{chars_of, char_from_u32, string_from_chars};

verus! {

/// Half- or full-width.
#[derive(Debug, Clone, Copy, PartialEq, Eq, Structural)]
pub enum Width {
    Half,
    Full,
}

/// The width each character group settles at.
///
/// - `kana_symbol`: the marks written with kana, `。、「」・` (halfwidth
///   `｡､｢｣･`)
/// - `ascii_symbol`: every other ASCII symbol `!`..`~` (fullwidth
///   `！`..`～`), letters and digits excluded
/// - `digit`: `0`..`9` (fullwidth `０`..`９`)
///
/// Letters, kana and everything else keep their width.
#[derive(Debug, Clone, Copy, PartialEq, Eq, Structural)]
pub struct WidthRules {
    pub kana_symbol: Width,
    pub ascii_symbol: Width,
    pub digit: Width,
}

/// Distance between an ASCII character and its fullwidth form.
pub open spec fn fullwidth_offset() -> u32 {
    0xFEE0
}

pub open spec fn is_ascii_digit_code(c: u32) -> bool {
    0x30 <= c <= 0x39
}

pub open spec fn is_ascii_letter_code(c: u32) -> bool {
    (0x41 <= c <= 0x5A) || (0x61 <= c <= 0x7A)
}

/// An ASCII symbol: printable, neither a letter nor a digit.
pub open spec fn is_ascii_symbol_code(c: u32) -> bool {
    0x21 <= c <= 0x7E && !is_ascii_digit_code(c) && !is_ascii_letter_code(c)
}

/// The fullwidth form of a kana mark's halfwidth form, and back.
pub open spec fn kana_full_of_half(c: u32) -> u32 {
    if c == 0xFF61 {
        0x3002
    } else if c == 0xFF62 {
        0x300C
    } else if c == 0xFF63 {
        0x300D
    } else if c == 0xFF64 {
        0x3001
    } else if c == 0xFF65 {
        0x30FB
    } else {
        c
    }
}

pub open spec fn kana_half_of_full(c: u32) -> u32 {
    if c == 0x3002 {
        0xFF61
    } else if c == 0x300C {
        0xFF62
    } else if c == 0x300D {
        0xFF63
    } else if c == 0x3001 {
        0xFF64
    } else if c == 0x30FB {
        0xFF65
    } else {
        c
    }
}

/// The scalar value of `c` once settled under `w`.
pub open spec fn settle_code(w: WidthRules, c: u32) -> u32 {
    if is_ascii_digit_code(c) {
        if w.digit == Width::Full { (c + fullwidth_offset()) as u32 } else { c }
    } else if is_ascii_digit_code((c - fullwidth_offset()) as u32) && c >= fullwidth_offset() {
        if w.digit == Width::Half { (c - fullwidth_offset()) as u32 } else { c }
    } else if is_ascii_symbol_code(c) {
        if w.ascii_symbol == Width::Full { (c + fullwidth_offset()) as u32 } else { c }
    } else if c >= fullwidth_offset() && is_ascii_symbol_code((c - fullwidth_offset()) as u32) {
        if w.ascii_symbol == Width::Half { (c - fullwidth_offset()) as u32 } else { c }
    } else if w.kana_symbol == Width::Full {
        kana_full_of_half(c)
    } else {
        kana_half_of_full(c)
    }
}

/// `s` with every character settled under `w`.
pub open spec fn settle_seq(w: WidthRules, s: Seq<char>) -> Seq<char> {
    Seq::new(s.len(), |i: int| settle_code(w, s[i] as u32) as char)
}

/// The default rules: kana marks and ASCII symbols full-width, digits
/// half-width.
pub open spec fn default_width_rules() -> WidthRules {
    WidthRules { kana_symbol: Width::Full, ascii_symbol: Width::Full, digit: Width::Half }
}

/// The five marks written with kana and their halfwidth forms, whose
/// compatibility decomposition (NFKC) is the mark: 。｡ 、､ 「｢ 」｣ ・･.
pub open spec fn kana_mark_pairs() -> Seq<(u32, u32)> {
    seq![(0x3002u32, 0xFF61u32), (0x3001u32, 0xFF64u32), (0x300Cu32, 0xFF62u32), (0x300Du32, 0xFF63u32), (0x30FBu32, 0xFF65u32)]
}

/// Settling a kana mark: at half width each of 。、「」・ becomes its own
/// halfwidth form (the one NFKC maps back to it) and at full width each
/// halfwidth form becomes its mark again, so settling half then full gives
/// every mark back, and settling full then half every halfwidth form.
pub proof fn lemma_kana_marks_settle(half: WidthRules, full: WidthRules, c: u32)
    requires
        half.kana_symbol == Width::Half,
        full.kana_symbol == Width::Full,
    ensures
        forall|i: int| 0 <= i < 5 ==> settle_code(half, (#[trigger] kana_mark_pairs()[i]).0) == kana_mark_pairs()[i].1
            && settle_code(full, kana_mark_pairs()[i].1) == kana_mark_pairs()[i].0,
        (exists|i: int| 0 <= i < 5 && (#[trigger] kana_mark_pairs()[i]).0 == c) ==> settle_code(
            full,
            settle_code(half, c),
        ) == c,
        (exists|i: int| 0 <= i < 5 && (#[trigger] kana_mark_pairs()[i]).1 == c) ==> settle_code(
            half,
            settle_code(full, c),
        ) == c,
{
    let t = kana_mark_pairs();
    assert(t[0] == (0x3002u32, 0xFF61u32));
    assert(t[1] == (0x3001u32, 0xFF64u32));
    assert(t[2] == (0x300Cu32, 0xFF62u32));
    assert(t[3] == (0x300Du32, 0xFF63u32));
    assert(t[4] == (0x30FBu32, 0xFF65u32));
}

/// Settling ASCII: at full width a digit or an ASCII symbol becomes the
/// fullwidth form U+FEE0 above it (`1` → `１`, `!` → `！`), at half width
/// the fullwidth form becomes the ASCII character again; letters are left
/// as they are at either width.
pub proof fn lemma_ascii_settle(w: WidthRules, c: u32)
    requires
        0x21 <= c <= 0x7E,
    ensures
        (0x30 <= c <= 0x39) ==> (w.digit == Width::Full ==> settle_code(w, c) == c + 0xFEE0) && (w.digit == Width::Half
            ==> settle_code(w, c) == c && settle_code(w, (c + 0xFEE0) as u32) == c),
        (is_ascii_symbol_code(c)) ==> (w.ascii_symbol == Width::Full ==> settle_code(w, c) == c + 0xFEE0) && (
        w.ascii_symbol == Width::Half ==> settle_code(w, c) == c && settle_code(w, (c + 0xFEE0) as u32) == c),
        ((0x41 <= c <= 0x5A) || (0x61 <= c <= 0x7A)) ==> settle_code(w, c) == c,
{
}

impl WidthRules {
    /// Kana marks and ASCII symbols full-width, digits half-width.
    pub fn default_rules() -> (w: WidthRules)
        ensures
            w == default_width_rules(),
    {
        WidthRules { kana_symbol: Width::Full, ascii_symbol: Width::Full, digit: Width::Half }
    }

    /// `c` settled at its group's width.
    pub fn apply_char(&self, c: char) -> (r: char)
        ensures
            r == settle_code(*self, c as u32) as char,
    {
        let code: u32 = c as u32;
        let target: u32 = if 0x30 <= code && code <= 0x39 {
            if self.digit == Width::Full { code + 0xFEE0 } else { code }
        } else if code >= 0xFEE0 && 0x30 <= code - 0xFEE0 && code - 0xFEE0 <= 0x39 {
            if self.digit == Width::Half { code - 0xFEE0 } else { code }
        } else if 0x21 <= code && code <= 0x7E && !(0x30 <= code && code <= 0x39) && !((0x41
            <= code && code <= 0x5A) || (0x61 <= code && code <= 0x7A)) {
            if self.ascii_symbol == Width::Full { code + 0xFEE0 } else { code }
        } else if code >= 0xFEE0 && 0x21 <= code - 0xFEE0 && code - 0xFEE0 <= 0x7E && !(0x30 <= code
            - 0xFEE0 && code - 0xFEE0 <= 0x39) && !((0x41 <= code - 0xFEE0 && code - 0xFEE0 <= 0x5A)
            || (0x61 <= code - 0xFEE0 && code - 0xFEE0 <= 0x7A)) {
            if self.ascii_symbol == Width::Half { code - 0xFEE0 } else { code }
        } else if self.kana_symbol == Width::Full {
            if code == 0xFF61 {
                0x3002
            } else if code == 0xFF62 {
                0x300C
            } else if code == 0xFF63 {
                0x300D
            } else if code == 0xFF64 {
                0x3001
            } else if code == 0xFF65 {
                0x30FB
            } else {
                code
            }
        } else {
            if code == 0x3002 {
                0xFF61
            } else if code == 0x300C {
                0xFF62
            } else if code == 0x300D {
                0xFF63
            } else if code == 0x3001 {
                0xFF64
            } else if code == 0x30FB {
                0xFF65
            } else {
                code
            }
        };
        assert(target == settle_code(*self, c as u32));
        if target == code {
            assert(c == (code as char));
            return c;
        }
        match char_from_u32(target) {
            Some(r) => {
                assert(r == (target as char));
                r
            },
            None => c,
        }
    }

    /// `text` with every character settled at its group's width.
    pub fn apply_chars(&self, text: &[char]) -> (r: Vec<char>)
        ensures
            r@ == settle_seq(*self, text@),
    {
        let mut r: Vec<char> = Vec::new();
        let mut i: usize = 0;
        while i < text.len()
            invariant
                0 <= i <= text@.len(),
                r@.len() == i,
                forall|j: int| 0 <= j < i ==> r@[j] == settle_code(*self, text@[j] as u32) as char,
            decreases text@.len() - i,
        {
            let c = self.apply_char(text[i]);
            r.push(c);
            i = i + 1;
        }
        assert(r@ =~= settle_seq(*self, text@));
        r
    }

    /// `text` with every character settled at its group's width.
    pub fn apply_str(&self, text: &str) -> (r: String)
        ensures
            r@ == settle_seq(*self, text@),
    {
        let chars = chars_of(text);
        let settled = self.apply_chars(chars.as_slice());
        string_from_chars(settled.as_slice())
    }
}

impl Default for WidthRules {
    fn default() -> (w: WidthRules)
        ensures
            w == default_width_rules(),
    {
        WidthRules::default_rules()
    }
}

} // verus!
