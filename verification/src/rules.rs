//! The romaji rule table: which key sequence types which kana.
//!
//! A table maps romaji keys (`ka`, `shi`, `nn`, `,`) to their output
//! (`か`, `し`, `ん`, `、`). Keys are distinct and non-empty, and no output
//! holds an ASCII character: callers rely on ASCII in converted text being
//! input that passed through unchanged.

use vstd::prelude::*;
use crate::text::{chars_range, chars_eq, chars_of, chars_starts_with, char_is_ascii, is_ascii_char, is_prefix, no_ascii};
use crate::style::{comma_symbol, period_symbol, BracketStyle, SlashStyle, SymbolStyle};

verus! {

/// The abstract table: `(key, output)` pairs in insertion order.
pub type RuleSeq = Seq<(Seq<char>, Seq<char>)>;

/// A table is well formed when keys and outputs are non-empty, outputs hold
/// no ASCII, and no key occurs twice.
pub open spec fn table_wf(t: RuleSeq) -> bool {
    &&& forall|i: int|
        0 <= i < t.len() ==> (#[trigger] t[i]).0.len() > 0 && t[i].1.len() > 0 && no_ascii(t[i].1)
    &&& forall|i: int, j: int| 0 <= i < t.len() && 0 <= j < t.len() && i != j ==> (#[trigger] t[i]).0 != (#[trigger] t[j]).0
}

/// `s` is a key of `t`.
pub open spec fn has_key(t: RuleSeq, s: Seq<char>) -> bool {
    exists|i: int| 0 <= i < t.len() && (#[trigger] t[i]).0 == s
}

/// `s` lies on the way to some key: it is a prefix of one (a key included).
pub open spec fn is_node(t: RuleSeq, s: Seq<char>) -> bool {
    exists|i: int| 0 <= i < t.len() && is_prefix(s, (#[trigger] t[i]).0)
}

/// Some key strictly extends `s`.
pub open spec fn extends(t: RuleSeq, s: Seq<char>) -> bool {
    exists|i: int| 0 <= i < t.len() && is_prefix(s, (#[trigger] t[i]).0) && t[i].0.len() > s.len()
}

/// Some key begins with `c`.
pub open spec fn starts_rule_spec(t: RuleSeq, c: char) -> bool {
    is_node(t, seq![c])
}

/// The output of key `s` (meaningful when `has_key(t, s)`).
pub open spec fn output_of(t: RuleSeq, s: Seq<char>) -> Seq<char> {
    t[choose|i: int| 0 <= i < t.len() && (#[trigger] t[i]).0 == s].1
}

/// Length of the longest key that is a prefix of `buf`; 0 when none is.
pub open spec fn longest(t: RuleSeq, buf: Seq<char>) -> nat
    decreases t.len(),
{
    if t.len() == 0 {
        0
    } else {
        let best = longest(t.drop_last(), buf);
        let k = t.last().0;
        if is_prefix(k, buf) && k.len() > best {
            k.len()
        } else {
            best
        }
    }
}

/// The table after inserting `key -> output` the way a trie does: a key
/// already present takes the new output, a new key is appended. A rule with
/// an empty key or output, or an output holding ASCII, is not taken.
pub open spec fn table_insert(t: RuleSeq, key: Seq<char>, output: Seq<char>) -> RuleSeq {
    if key.len() == 0 || output.len() == 0 || !no_ascii(output) {
        t
    } else if has_key(t, key) {
        t.update(choose|i: int| 0 <= i < t.len() && (#[trigger] t[i]).0 == key, (key, output))
    } else {
        t.push((key, output))
    }
}

/// `longest` is the length of a key that is a prefix of `buf`, and no key
/// that is a prefix of `buf` is longer.
pub proof fn lemma_longest(t: RuleSeq, buf: Seq<char>)
    ensures
        longest(t, buf) <= buf.len(),
        forall|i: int| 0 <= i < t.len() && is_prefix((#[trigger] t[i]).0, buf) ==> t[i].0.len() <= longest(t, buf),
        longest(t, buf) > 0 ==> exists|i: int|
            0 <= i < t.len() && (#[trigger] t[i]).0.len() == longest(t, buf) && is_prefix(t[i].0, buf),
    decreases t.len(),
{
    if t.len() > 0 {
        let d = t.drop_last();
        lemma_longest(d, buf);
        assert forall|i: int| 0 <= i < t.len() && is_prefix((#[trigger] t[i]).0, buf) implies t[i].0.len() <= longest(t, buf) by {
            if i < t.len() - 1 {
                assert(t[i] == d[i]);
            }
        }
        if longest(t, buf) > 0 && longest(t, buf) == longest(d, buf) {
            let j = choose|j: int| 0 <= j < d.len() && (#[trigger] d[j]).0.len() == longest(d, buf) && is_prefix(d[j].0, buf);
            assert(t[j] == d[j]);
        }
        if longest(t, buf) > 0 && longest(t, buf) != longest(d, buf) {
            assert(t[t.len() - 1] == t.last());
        }
    }
}

/// With distinct keys, the prefix of `buf` of length `longest` is a key, and
/// its output is the one `output_of` names.
pub proof fn lemma_longest_key(t: RuleSeq, buf: Seq<char>)
    requires
        table_wf(t),
        longest(t, buf) > 0,
    ensures
        has_key(t, buf.subrange(0, longest(t, buf) as int)),
{
    lemma_longest(t, buf);
    let i = choose|i: int| 0 <= i < t.len() && (#[trigger] t[i]).0.len() == longest(t, buf) && is_prefix(t[i].0, buf);
    assert(t[i].0 == buf.subrange(0, longest(t, buf) as int));
}

/// In a well-formed table a key names exactly one rule.
pub proof fn lemma_key_unique(t: RuleSeq, i: int, s: Seq<char>)
    requires
        table_wf(t),
        0 <= i < t.len(),
        t[i].0 == s,
    ensures
        output_of(t, s) == t[i].1,
{
    let j = choose|j: int| 0 <= j < t.len() && (#[trigger] t[j]).0 == s;
    assert(t[j].0 == t[i].0);
}

/// What [`RuleTable::search_longest`] found.
pub struct Search {
    /// Length of the longest key that is a prefix of the searched text.
    pub matched: usize,
    /// The index of that key's rule; `None` when no key matched.
    pub rule: Option<usize>,
}

/// A romaji rule table.
pub struct RuleTable {
    rules: Vec<(Vec<char>, Vec<char>)>,
}

impl View for RuleTable {
    type V = RuleSeq;

    closed spec fn view(&self) -> RuleSeq {
        self.rules@.map_values(|r: (Vec<char>, Vec<char>)| (r.0@, r.1@))
    }
}

impl RuleTable {
    /// Every table is well formed.
    #[verifier::type_invariant]
    pub open spec fn inv(self) -> bool {
        table_wf(self@)
    }

    /// An empty table.
    pub fn new() -> (t: RuleTable)
        ensures
            t@ == Seq::<(Seq<char>, Seq<char>)>::empty(),
    {
        let t = RuleTable { rules: Vec::new() };
        assert(t@ =~= Seq::<(Seq<char>, Seq<char>)>::empty());
        t
    }

    /// Number of rules.
    pub fn len(&self) -> (n: usize)
        ensures
            n == self@.len(),
    {
        self.rules.len()
    }

    /// The key of rule `i`.
    pub fn key(&self, i: usize) -> (k: &Vec<char>)
        requires
            i < self@.len(),
        ensures
            k@ == self@[i as int].0,
    {
        &self.rules[i].0
    }

    /// The output of rule `i`.
    pub fn output(&self, i: usize) -> (o: &Vec<char>)
        requires
            i < self@.len(),
        ensures
            o@ == self@[i as int].1,
    {
        &self.rules[i].1
    }

    /// The index of the rule whose key is `key`, if any.
    pub fn find_key(&self, key: &[char]) -> (r: Option<usize>)
        ensures
            r matches Some(i) ==> i < self@.len() && self@[i as int].0 == key@,
            r is None ==> !has_key(self@, key@),
    {
        let mut i: usize = 0;
        while i < self.rules.len()
            invariant
                0 <= i <= self@.len(),
                self@.len() == self.rules@.len(),
                forall|j: int| 0 <= j < i ==> (#[trigger] self@[j]).0 != key@,
            decreases self@.len() - i,
        {
            if chars_eq(self.rules[i].0.as_slice(), key) {
                return Some(i);
            }
            i = i + 1;
        }
        None
    }

    /// Insert `key -> output`, replacing the output of an existing `key`.
    /// A rule with an empty key or output, or an output holding ASCII, is
    /// not taken.
    pub fn insert(&mut self, key: &[char], output: &[char])
        ensures
            final(self)@ == table_insert(old(self)@, key@, output@),
    {
        proof {
            use_type_invariant(&*self);
        }
        if key.len() == 0 || output.len() == 0 {
            return;
        }
        let mut k: usize = 0;
        while k < output.len()
            invariant
                0 <= k <= output@.len(),
                forall|j: int| 0 <= j < k ==> !is_ascii_char(#[trigger] output@[j]),
            decreases output@.len() - k,
        {
            if char_is_ascii(output[k]) {
                return;
            }
            k = k + 1;
        }
        let ghost old_t = self@;
        let entry = (chars_range(key, 0, key.len()), chars_range(output, 0, output.len()));
        assert(key@.subrange(0, key@.len() as int) =~= key@);
        assert(output@.subrange(0, output@.len() as int) =~= output@);
        let found = self.find_key(key);
        let mut rules: Vec<(Vec<char>, Vec<char>)> = Vec::new();
        std::mem::swap(&mut rules, &mut self.rules);
        match found {
            Some(i) => {
                proof {
                    let c = choose|c: int| 0 <= c < old_t.len() && (#[trigger] old_t[c]).0 == key@;
                    assert(old_t[c].0 == old_t[i as int].0);
                }
                rules.set(i, entry);
            },
            None => {
                rules.push(entry);
            },
        }
        let ghost new_t = rules@.map_values(|r: (Vec<char>, Vec<char>)| (r.0@, r.1@));
        assert(new_t =~= table_insert(old_t, key@, output@));
        self.rules = rules;
    }

    /// Insert `key -> output` given as text.
    pub fn insert_str(&mut self, key: &str, output: &str)
        ensures
            final(self)@ == table_insert(old(self)@, key@, output@),
    {
        let k = chars_of(key);
        let o = chars_of(output);
        self.insert(k.as_slice(), o.as_slice());
    }

    /// The longest key that is a prefix of `buf`.
    pub fn search_longest(&self, buf: &[char]) -> (r: Search)
        ensures
            r.matched == longest(self@, buf@),
            r.matched <= buf@.len(),
            r.matched > 0 <==> r.rule is Some,
            r.rule matches Some(i) ==> i < self@.len() && self@[i as int].0 == buf@.subrange(0, r.matched as int)
                && self@[i as int].1 == output_of(self@, buf@.subrange(0, r.matched as int)),
    {
        proof {
            use_type_invariant(self);
        }
        let ghost t = self@;
        let mut best: usize = 0;
        let mut rule: Option<usize> = None;
        let mut i: usize = 0;
        while i < self.rules.len()
            invariant
                t == self@,
                table_wf(t),
                0 <= i <= t.len(),
                t.len() == self.rules@.len(),
                best == longest(t.subrange(0, i as int), buf@),
                best <= buf@.len(),
                best > 0 <==> rule is Some,
                rule matches Some(j) ==> j < i && t[j as int].0.len() == best && is_prefix(t[j as int].0, buf@),
            decreases t.len() - i,
        {
            assert(t.subrange(0, i + 1).drop_last() =~= t.subrange(0, i as int));
            assert(t.subrange(0, i + 1).last() == t[i as int]);
            let key = &self.rules[i].0;
            if chars_starts_with(buf, key.as_slice()) && key.len() > best {
                best = key.len();
                rule = Some(i);
            }
            i = i + 1;
        }
        assert(t.subrange(0, t.len() as int) =~= t);
        proof {
            if let Some(j) = rule {
                assert(t[j as int].0 =~= buf@.subrange(0, best as int));
                lemma_key_unique(t, j as int, buf@.subrange(0, best as int));
            }
        }
        Search { matched: best, rule }
    }

    /// Whether `s` is a prefix of some key.
    pub fn is_node(&self, s: &[char]) -> (r: bool)
        ensures
            r == is_node(self@, s@),
    {
        let ghost t = self@;
        let mut i: usize = 0;
        while i < self.rules.len()
            invariant
                t == self@,
                0 <= i <= t.len(),
                t.len() == self.rules@.len(),
                forall|j: int| 0 <= j < i ==> !is_prefix(s@, (#[trigger] t[j]).0),
            decreases t.len() - i,
        {
            assert(t[i as int].0 == self.rules@[i as int].0@);
            if chars_starts_with(self.rules[i].0.as_slice(), s) {
                assert(is_prefix(s@, t[i as int].0));
                return true;
            }
            i = i + 1;
        }
        false
    }

    /// Whether some key strictly extends `s`.
    pub fn extends(&self, s: &[char]) -> (r: bool)
        ensures
            r == extends(self@, s@),
    {
        let ghost t = self@;
        let mut i: usize = 0;
        while i < self.rules.len()
            invariant
                t == self@,
                0 <= i <= t.len(),
                t.len() == self.rules@.len(),
                forall|j: int| 0 <= j < i ==> !(is_prefix(s@, (#[trigger] t[j]).0) && t[j].0.len() > s@.len()),
            decreases t.len() - i,
        {
            let key = &self.rules[i].0;
            assert(t[i as int].0 == key@);
            if key.len() > s.len() && chars_starts_with(key.as_slice(), s) {
                assert(is_prefix(s@, t[i as int].0) && t[i as int].0.len() > s@.len());
                return true;
            }
            i = i + 1;
        }
        false
    }

    /// Whether some key begins with `c`.
    pub fn starts_rule(&self, c: char) -> (r: bool)
        ensures
            r == starts_rule_spec(self@, c),
    {
        let v: Vec<char> = vec![c];
        assert(v@ =~= seq![c]);
        self.is_node(v.as_slice())
    }
}

/// The base rules as written: `(key, output)` pairs in order.
pub open spec fn base_rule_list() -> Seq<(&'static str, &'static str)> {
    seq![
        ("a", "あ"), ("i", "い"), ("u", "う"), ("e", "え"), ("o", "お"),
        ("ka", "か"), ("ki", "き"), ("ku", "く"), ("ke", "け"), ("ko", "こ"),
        ("kya", "きゃ"), ("kyi", "きぃ"), ("kyu", "きゅ"), ("kye", "きぇ"), ("kyo", "きょ"),
        ("ga", "が"), ("gi", "ぎ"), ("gu", "ぐ"), ("ge", "げ"), ("go", "ご"),
        ("gya", "ぎゃ"), ("gyi", "ぎぃ"), ("gyu", "ぎゅ"), ("gye", "ぎぇ"), ("gyo", "ぎょ"),
        ("sa", "さ"), ("si", "し"), ("su", "す"), ("se", "せ"), ("so", "そ"),
        ("sya", "しゃ"), ("syi", "しぃ"), ("syu", "しゅ"), ("sye", "しぇ"), ("syo", "しょ"),
        ("sha", "しゃ"), ("shi", "し"), ("shu", "しゅ"), ("she", "しぇ"), ("sho", "しょ"),
        ("za", "ざ"), ("zi", "じ"), ("zu", "ず"), ("ze", "ぜ"), ("zo", "ぞ"),
        ("zya", "じゃ"), ("zyi", "じぃ"), ("zyu", "じゅ"), ("zye", "じぇ"), ("zyo", "じょ"),
        ("ja", "じゃ"), ("ji", "じ"), ("ju", "じゅ"), ("je", "じぇ"), ("jo", "じょ"),
        ("jya", "じゃ"), ("jyi", "じぃ"), ("jyu", "じゅ"), ("jye", "じぇ"), ("jyo", "じょ"),
        ("ta", "た"), ("ti", "ち"), ("tu", "つ"), ("te", "て"), ("to", "と"),
        ("tya", "ちゃ"), ("tyi", "ちぃ"), ("tyu", "ちゅ"), ("tye", "ちぇ"), ("tyo", "ちょ"),
        ("cha", "ちゃ"), ("chi", "ち"), ("chu", "ちゅ"), ("che", "ちぇ"), ("cho", "ちょ"),
        ("cya", "ちゃ"), ("cyi", "ちぃ"), ("cyu", "ちゅ"), ("cye", "ちぇ"), ("cyo", "ちょ"),
        ("tsa", "つぁ"), ("tsi", "つぃ"), ("tsu", "つ"), ("tse", "つぇ"), ("tso", "つぉ"),
        ("tha", "てゃ"), ("thi", "てぃ"), ("thu", "てゅ"), ("the", "てぇ"), ("tho", "てょ"),
        ("twu", "とぅ"),
        ("ca", "か"), ("ci", "し"), ("cu", "く"), ("ce", "せ"), ("co", "こ"),
        ("da", "だ"), ("di", "ぢ"), ("du", "づ"), ("de", "で"), ("do", "ど"),
        ("dya", "ぢゃ"), ("dyi", "ぢぃ"), ("dyu", "ぢゅ"), ("dye", "ぢぇ"), ("dyo", "ぢょ"),
        ("dha", "でゃ"), ("dhi", "でぃ"), ("dhu", "でゅ"), ("dhe", "でぇ"), ("dho", "でょ"),
        ("dwu", "どぅ"),
        ("na", "な"), ("ni", "に"), ("nu", "ぬ"), ("ne", "ね"), ("no", "の"),
        ("nya", "にゃ"), ("nyi", "にぃ"), ("nyu", "にゅ"), ("nye", "にぇ"), ("nyo", "にょ"),
        ("nn", "ん"), ("n'", "ん"), ("xn", "ん"),
        ("ha", "は"), ("hi", "ひ"), ("hu", "ふ"), ("he", "へ"), ("ho", "ほ"),
        ("hya", "ひゃ"), ("hyi", "ひぃ"), ("hyu", "ひゅ"), ("hye", "ひぇ"), ("hyo", "ひょ"),
        ("fa", "ふぁ"), ("fi", "ふぃ"), ("fu", "ふ"), ("fe", "ふぇ"), ("fo", "ふぉ"),
        ("fya", "ふゃ"), ("fyu", "ふゅ"), ("fyo", "ふょ"),
        ("ba", "ば"), ("bi", "び"), ("bu", "ぶ"), ("be", "べ"), ("bo", "ぼ"),
        ("bya", "びゃ"), ("byi", "びぃ"), ("byu", "びゅ"), ("bye", "びぇ"), ("byo", "びょ"),
        ("pa", "ぱ"), ("pi", "ぴ"), ("pu", "ぷ"), ("pe", "ぺ"), ("po", "ぽ"),
        ("pya", "ぴゃ"), ("pyi", "ぴぃ"), ("pyu", "ぴゅ"), ("pye", "ぴぇ"), ("pyo", "ぴょ"),
        ("ma", "ま"), ("mi", "み"), ("mu", "む"), ("me", "め"), ("mo", "も"),
        ("mya", "みゃ"), ("myi", "みぃ"), ("myu", "みゅ"), ("mye", "みぇ"), ("myo", "みょ"),
        ("ya", "や"), ("yu", "ゆ"), ("ye", "いぇ"), ("yo", "よ"),
        ("ra", "ら"), ("ri", "り"), ("ru", "る"), ("re", "れ"), ("ro", "ろ"),
        ("rya", "りゃ"), ("ryi", "りぃ"), ("ryu", "りゅ"), ("rye", "りぇ"), ("ryo", "りょ"),
        ("wa", "わ"), ("wi", "うぃ"), ("wu", "う"), ("we", "うぇ"), ("wo", "を"),
        ("wha", "うぁ"), ("whi", "うぃ"), ("whu", "う"), ("whe", "うぇ"), ("who", "うぉ"),
        ("va", "ゔぁ"), ("vi", "ゔぃ"), ("vu", "ゔ"), ("ve", "ゔぇ"), ("vo", "ゔぉ"),
        ("qa", "くぁ"), ("qi", "くぃ"), ("qu", "く"), ("qe", "くぇ"), ("qo", "くぉ"),
        ("la", "ぁ"), ("li", "ぃ"), ("lu", "ぅ"), ("le", "ぇ"), ("lo", "ぉ"),
        ("lya", "ゃ"), ("lyu", "ゅ"), ("lyo", "ょ"), ("ltu", "っ"), ("ltsu", "っ"),
        ("lwa", "ゎ"), ("lka", "ヵ"), ("lke", "ヶ"),
        ("xa", "ぁ"), ("xi", "ぃ"), ("xu", "ぅ"), ("xe", "ぇ"), ("xo", "ぉ"),
        ("xya", "ゃ"), ("xyu", "ゅ"), ("xyo", "ょ"), ("xtu", "っ"), ("xtsu", "っ"),
        ("xwa", "ゎ"), ("xka", "ヵ"), ("xke", "ヶ"),
        ("-", "ー"), ("!", "！"), ("?", "？"),
    ]
}

/// The rules every table starts from: kana, small kana, and the symbols
/// that do not depend on a [`SymbolStyle`].
fn base_rules() -> (r: Vec<(&'static str, &'static str)>)
    ensures
        r@ == base_rule_list(),
{
    vec![
        ("a", "あ"), ("i", "い"), ("u", "う"), ("e", "え"), ("o", "お"),
        ("ka", "か"), ("ki", "き"), ("ku", "く"), ("ke", "け"), ("ko", "こ"),
        ("kya", "きゃ"), ("kyi", "きぃ"), ("kyu", "きゅ"), ("kye", "きぇ"), ("kyo", "きょ"),
        ("ga", "が"), ("gi", "ぎ"), ("gu", "ぐ"), ("ge", "げ"), ("go", "ご"),
        ("gya", "ぎゃ"), ("gyi", "ぎぃ"), ("gyu", "ぎゅ"), ("gye", "ぎぇ"), ("gyo", "ぎょ"),
        ("sa", "さ"), ("si", "し"), ("su", "す"), ("se", "せ"), ("so", "そ"),
        ("sya", "しゃ"), ("syi", "しぃ"), ("syu", "しゅ"), ("sye", "しぇ"), ("syo", "しょ"),
        ("sha", "しゃ"), ("shi", "し"), ("shu", "しゅ"), ("she", "しぇ"), ("sho", "しょ"),
        ("za", "ざ"), ("zi", "じ"), ("zu", "ず"), ("ze", "ぜ"), ("zo", "ぞ"),
        ("zya", "じゃ"), ("zyi", "じぃ"), ("zyu", "じゅ"), ("zye", "じぇ"), ("zyo", "じょ"),
        ("ja", "じゃ"), ("ji", "じ"), ("ju", "じゅ"), ("je", "じぇ"), ("jo", "じょ"),
        ("jya", "じゃ"), ("jyi", "じぃ"), ("jyu", "じゅ"), ("jye", "じぇ"), ("jyo", "じょ"),
        ("ta", "た"), ("ti", "ち"), ("tu", "つ"), ("te", "て"), ("to", "と"),
        ("tya", "ちゃ"), ("tyi", "ちぃ"), ("tyu", "ちゅ"), ("tye", "ちぇ"), ("tyo", "ちょ"),
        ("cha", "ちゃ"), ("chi", "ち"), ("chu", "ちゅ"), ("che", "ちぇ"), ("cho", "ちょ"),
        ("cya", "ちゃ"), ("cyi", "ちぃ"), ("cyu", "ちゅ"), ("cye", "ちぇ"), ("cyo", "ちょ"),
        ("tsa", "つぁ"), ("tsi", "つぃ"), ("tsu", "つ"), ("tse", "つぇ"), ("tso", "つぉ"),
        ("tha", "てゃ"), ("thi", "てぃ"), ("thu", "てゅ"), ("the", "てぇ"), ("tho", "てょ"),
        ("twu", "とぅ"),
        ("ca", "か"), ("ci", "し"), ("cu", "く"), ("ce", "せ"), ("co", "こ"),
        ("da", "だ"), ("di", "ぢ"), ("du", "づ"), ("de", "で"), ("do", "ど"),
        ("dya", "ぢゃ"), ("dyi", "ぢぃ"), ("dyu", "ぢゅ"), ("dye", "ぢぇ"), ("dyo", "ぢょ"),
        ("dha", "でゃ"), ("dhi", "でぃ"), ("dhu", "でゅ"), ("dhe", "でぇ"), ("dho", "でょ"),
        ("dwu", "どぅ"),
        ("na", "な"), ("ni", "に"), ("nu", "ぬ"), ("ne", "ね"), ("no", "の"),
        ("nya", "にゃ"), ("nyi", "にぃ"), ("nyu", "にゅ"), ("nye", "にぇ"), ("nyo", "にょ"),
        ("nn", "ん"), ("n'", "ん"), ("xn", "ん"),
        ("ha", "は"), ("hi", "ひ"), ("hu", "ふ"), ("he", "へ"), ("ho", "ほ"),
        ("hya", "ひゃ"), ("hyi", "ひぃ"), ("hyu", "ひゅ"), ("hye", "ひぇ"), ("hyo", "ひょ"),
        ("fa", "ふぁ"), ("fi", "ふぃ"), ("fu", "ふ"), ("fe", "ふぇ"), ("fo", "ふぉ"),
        ("fya", "ふゃ"), ("fyu", "ふゅ"), ("fyo", "ふょ"),
        ("ba", "ば"), ("bi", "び"), ("bu", "ぶ"), ("be", "べ"), ("bo", "ぼ"),
        ("bya", "びゃ"), ("byi", "びぃ"), ("byu", "びゅ"), ("bye", "びぇ"), ("byo", "びょ"),
        ("pa", "ぱ"), ("pi", "ぴ"), ("pu", "ぷ"), ("pe", "ぺ"), ("po", "ぽ"),
        ("pya", "ぴゃ"), ("pyi", "ぴぃ"), ("pyu", "ぴゅ"), ("pye", "ぴぇ"), ("pyo", "ぴょ"),
        ("ma", "ま"), ("mi", "み"), ("mu", "む"), ("me", "め"), ("mo", "も"),
        ("mya", "みゃ"), ("myi", "みぃ"), ("myu", "みゅ"), ("mye", "みぇ"), ("myo", "みょ"),
        ("ya", "や"), ("yu", "ゆ"), ("ye", "いぇ"), ("yo", "よ"),
        ("ra", "ら"), ("ri", "り"), ("ru", "る"), ("re", "れ"), ("ro", "ろ"),
        ("rya", "りゃ"), ("ryi", "りぃ"), ("ryu", "りゅ"), ("rye", "りぇ"), ("ryo", "りょ"),
        ("wa", "わ"), ("wi", "うぃ"), ("wu", "う"), ("we", "うぇ"), ("wo", "を"),
        ("wha", "うぁ"), ("whi", "うぃ"), ("whu", "う"), ("whe", "うぇ"), ("who", "うぉ"),
        ("va", "ゔぁ"), ("vi", "ゔぃ"), ("vu", "ゔ"), ("ve", "ゔぇ"), ("vo", "ゔぉ"),
        ("qa", "くぁ"), ("qi", "くぃ"), ("qu", "く"), ("qe", "くぇ"), ("qo", "くぉ"),
        ("la", "ぁ"), ("li", "ぃ"), ("lu", "ぅ"), ("le", "ぇ"), ("lo", "ぉ"),
        ("lya", "ゃ"), ("lyu", "ゅ"), ("lyo", "ょ"), ("ltu", "っ"), ("ltsu", "っ"),
        ("lwa", "ゎ"), ("lka", "ヵ"), ("lke", "ヶ"),
        ("xa", "ぁ"), ("xi", "ぃ"), ("xu", "ぅ"), ("xe", "ぇ"), ("xo", "ぉ"),
        ("xya", "ゃ"), ("xyu", "ゅ"), ("xyo", "ょ"), ("xtu", "っ"), ("xtsu", "っ"),
        ("xwa", "ゎ"), ("xka", "ヵ"), ("xke", "ヶ"),
        ("-", "ー"), ("!", "！"), ("?", "？"),
    ]
}

/// A base rule as key and output characters.
pub open spec fn rule_view(p: (&'static str, &'static str)) -> (Seq<char>, Seq<char>) {
    (p.0@, p.1@)
}

/// `t` with the rules of `rs` inserted one after the other, in order.
pub open spec fn inserted_all(t: RuleSeq, rs: RuleSeq) -> RuleSeq
    decreases rs.len(),
{
    if rs.len() == 0 {
        t
    } else {
        let last = rs.last();
        table_insert(inserted_all(t, rs.drop_last()), last.0, last.1)
    }
}

/// The one-key symbol rules `style` picks: `,` `.` `[` `]` `/`.
pub open spec fn symbol_rules(style: SymbolStyle) -> RuleSeq {
    seq![
        (seq![','], seq![comma_symbol(style.punctuation)]),
        (seq!['.'], seq![period_symbol(style.punctuation)]),
        (seq!['['], seq![if style.bracket == BracketStyle::Corner { '「' } else { '［' }]),
        (seq![']'], seq![if style.bracket == BracketStyle::Corner { '」' } else { '］' }]),
        (seq!['/'], seq![if style.slash == SlashStyle::MiddleDot { '・' } else { '／' }]),
    ]
}

/// The table for `style`: the base rules inserted in order into an empty
/// table, then the symbol rules of `style`.
pub open spec fn rules_for(style: SymbolStyle) -> RuleSeq {
    inserted_all(inserted_all(Seq::empty(), base_rule_list().map_values(|p| rule_view(p))), symbol_rules(style))
}

/// The rule table for `style`: the kana rules plus `,` `.` `[` `]` `/`
/// typing the symbols `style` picks.
pub fn build_rules(style: SymbolStyle) -> (t: RuleTable)
    ensures
        t@ == rules_for(style),
{
    let mut t = RuleTable::new();
    let base = base_rules();
    let ghost views = base_rule_list().map_values(|p| rule_view(p));
    let mut i: usize = 0;
    while i < base.len()
        invariant
            base@ == base_rule_list(),
            views == base_rule_list().map_values(|p| rule_view(p)),
            0 <= i <= base@.len(),
            t@ == inserted_all(Seq::empty(), views.take(i as int)),
        decreases base@.len() - i,
    {
        let (k, o) = base[i];
        t.insert_str(k, o);
        proof {
            assert(views.take(i + 1).drop_last() =~= views.take(i as int));
            assert(views.take(i + 1).last() == rule_view(base@[i as int]));
        }
        i = i + 1;
    }
    assert(views.take(base@.len() as int) =~= views);
    let ghost base_t = t@;
    let symbols: Vec<(char, char)> = vec![
        (',', style.comma()),
        ('.', style.period()),
        ('[', style.open_bracket()),
        (']', style.close_bracket()),
        ('/', style.slash_symbol()),
    ];
    let ghost sym = symbol_rules(style);
    assert(symbols@.len() == 5);
    assert(forall|m: int| 0 <= m < 5 ==> seq![(#[trigger] symbols@[m]).0] == sym[m].0 && seq![symbols@[m].1] == sym[m].1);
    let mut j: usize = 0;
    while j < symbols.len()
        invariant
            symbols@.len() == 5,
            sym == symbol_rules(style),
            forall|m: int| 0 <= m < 5 ==> seq![(#[trigger] symbols@[m]).0] == sym[m].0 && seq![symbols@[m].1] == sym[m].1,
            0 <= j <= 5,
            t@ == inserted_all(base_t, sym.take(j as int)),
        decreases symbols@.len() - j,
    {
        let (k, o) = symbols[j];
        let kv: Vec<char> = vec![k];
        let ov: Vec<char> = vec![o];
        proof {
            assert(kv@ =~= sym[j as int].0);
            assert(ov@ =~= sym[j as int].1);
        }
        t.insert(kv.as_slice(), ov.as_slice());
        proof {
            assert(sym.take(j + 1).drop_last() =~= sym.take(j as int));
            assert(sym.take(j + 1).last() == sym[j as int]);
        }
        j = j + 1;
    }
    assert(sym.take(5) =~= sym);
    t
}

} // verus!
