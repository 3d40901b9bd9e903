//! Learning cache for remembering user-selected conversion results.
//!
//! Records which surface forms the user chose for each reading, so those
//! candidates can be boosted on later conversions. The cache is a sequence
//! of `(reading, surface, frequency, last_access)` entries in the order
//! they were first learned; [`LearningCache::entries`] is that sequence.
//!
//! Ranking entries by score (recency and frequency, a floating-point
//! measure) is left to the caller: the lookups here return the matching
//! entries in stored order, and eviction takes the ranking as an argument.

use vstd::prelude::*;
use crate::text::{
    chars_extend, chars_of, has_text, insert_sorted, is_prefix, lemma_lex_total, lex_lt, str_eq,
    str_starts_with, string_from_chars, strictly_sorted, texts,
};
use crate::tsv::{
    dec_string, free_of, is_whitespace, lemma_dec_plain, lemma_dec_round_trip, lemma_parse_dec,
    lemma_split_after_sep, lemma_split_join, lemma_split_len, lemma_split_single, parse_uint,
    parse_uint_chars, push_decimal, split, split_chars, trim, trim_chars, trim_end, trim_start,
};

verus! {

/// A single learned conversion entry.
#[derive(Debug)]
pub struct LearningEntry {
    /// Surface form (e.g. "今日")
    pub surface: String,
    /// Number of times this surface was selected
    pub frequency: u32,
    /// Last selection time as Unix timestamp (seconds)
    pub last_access: u64,
}

/// Size limits for a [`LearningCache`], passed whole at construction.
#[derive(Debug, Clone, Copy)]
pub struct LearningConfig {
    /// Maximum number of entries kept; lowest-ranked entries are evicted
    /// when over this limit.
    pub max_entries: usize,
    /// Maximum surface length (Unicode chars) that [`LearningCache::record`]
    /// accepts. Keeps whole-sentence commits — one-off text that never
    /// matches again — out of the cache.
    pub max_surface_chars: usize,
}

impl LearningConfig {
    /// Default for [`max_entries`](Self::max_entries).
    pub const DEFAULT_MAX_ENTRIES: usize = 10_000;

    /// Default for [`max_surface_chars`](Self::max_surface_chars).
    pub const DEFAULT_MAX_SURFACE_CHARS: usize = 50;
}

impl Default for LearningConfig {
    fn default() -> (c: LearningConfig)
        ensures
            c.max_entries == 10_000,
            c.max_surface_chars == 50,
    {
        LearningConfig { max_entries: 10_000, max_surface_chars: 50 }
    }
}

/// An entry as the contracts see it: `(reading, surface, frequency, last_access)`.
pub type Learned = (Seq<char>, Seq<char>, u32, u64);

/// `e` is the entry of `surface` under `reading`.
pub open spec fn is_entry_of(e: Learned, reading: Seq<char>, surface: Seq<char>) -> bool {
    e.0 == reading && e.1 == surface
}

/// Index of the first entry of `surface` under `reading`; -1 when there is none.
#[verifier::opaque]
pub open spec fn first_entry(v: Seq<Learned>, reading: Seq<char>, surface: Seq<char>) -> int {
    if exists|i: int| 0 <= i < v.len() && is_entry_of(#[trigger] v[i], reading, surface) {
        choose|i: int|
            0 <= i < v.len() && is_entry_of(#[trigger] v[i], reading, surface) && forall|j: int|
                0 <= j < i ==> !is_entry_of(#[trigger] v[j], reading, surface)
    } else {
        -1
    }
}

/// `first_entry` names the first entry of the pair, or -1 when the pair
/// has none.
pub proof fn lemma_first_entry(v: Seq<Learned>, reading: Seq<char>, surface: Seq<char>)
    ensures
        first_entry(v, reading, surface) >= -1,
        first_entry(v, reading, surface) < v.len(),
        first_entry(v, reading, surface) >= 0 ==> is_entry_of(v[first_entry(v, reading, surface)], reading, surface),
        first_entry(v, reading, surface) == -1 <==> forall|i: int| 0 <= i < v.len() ==> !is_entry_of(#[trigger] v[i], reading, surface),
{
    reveal(first_entry);
    if exists|i: int| 0 <= i < v.len() && is_entry_of(#[trigger] v[i], reading, surface) {
        let w = choose|i: int| 0 <= i < v.len() && is_entry_of(#[trigger] v[i], reading, surface);
        lemma_min_entry(v, reading, surface, w);
    }
}

proof fn lemma_min_entry(v: Seq<Learned>, reading: Seq<char>, surface: Seq<char>, w: int)
    requires
        0 <= w < v.len(),
        is_entry_of(v[w], reading, surface),
    ensures
        exists|i: int|
            0 <= i < v.len() && is_entry_of(#[trigger] v[i], reading, surface) && forall|j: int|
                0 <= j < i ==> !is_entry_of(#[trigger] v[j], reading, surface),
    decreases w,
{
    if exists|j: int| 0 <= j < w && is_entry_of(#[trigger] v[j], reading, surface) {
        let j = choose|j: int| 0 <= j < w && is_entry_of(#[trigger] v[j], reading, surface);
        lemma_min_entry(v, reading, surface, j);
    }
}

/// The entries after recording a selection of `surface` for `reading` at
/// time `now`: an existing entry counts one more use and takes `now`; a
/// new pair is appended with frequency 1.
pub open spec fn recorded(v: Seq<Learned>, reading: Seq<char>, surface: Seq<char>, now: u64) -> Seq<Learned> {
    let i = first_entry(v, reading, surface);
    if i >= 0 {
        v.update(i, (reading, surface, (v[i].2 + 1) as u32, now))
    } else {
        v.push((reading, surface, 1u32, now))
    }
}

/// `e` would resurface `surface` for typed `reading`: same surface, and a
/// reading that `reading` is a prefix of (the exact one included).
pub open spec fn resurfaces(e: Learned, reading: Seq<char>, surface: Seq<char>) -> bool {
    is_prefix(reading, e.0) && e.1 == surface
}

/// `e` is learned under exactly `reading`.
pub open spec fn under_reading(e: Learned, reading: Seq<char>) -> bool {
    e.0 == reading
}

/// `e`'s reading starts with `prefix`.
pub open spec fn under_prefix(e: Learned, prefix: Seq<char>) -> bool {
    is_prefix(prefix, e.0)
}

/// `e` is a prediction for typed `prefix`: its reading extends `prefix` by
/// one to `max_extra` characters.
pub open spec fn predicts(e: Learned, prefix: Seq<char>, max_extra: usize) -> bool {
    e.0 != prefix && is_prefix(prefix, e.0) && e.0.len() - prefix.len() <= max_extra
}

/// The entries of `v` that `pred` keeps, in order.
pub open spec fn keep(v: Seq<Learned>, pred: spec_fn(Learned) -> bool) -> Seq<Learned>
    decreases v.len(),
{
    if v.len() == 0 {
        v
    } else if pred(v.last()) {
        keep(v.drop_last(), pred).push(v.last())
    } else {
        keep(v.drop_last(), pred)
    }
}

/// An entry and its reading, as returned by the lookups.
pub open spec fn pair_view(p: (String, LearningEntry)) -> Learned {
    (p.0@, p.1.surface@, p.1.frequency, p.1.last_access)
}

/// The views of returned `(reading, entry)` pairs.
pub open spec fn pair_views(v: Seq<(String, LearningEntry)>) -> Seq<Learned> {
    v.map_values(|p: (String, LearningEntry)| pair_view(p))
}

/// One stored entry: the reading it was learned under, and the entry.
#[derive(Debug)]
struct Stored {
    reading: String,
    entry: LearningEntry,
}

spec fn stored_view(s: Stored) -> Learned {
    (s.reading@, s.entry.surface@, s.entry.frequency, s.entry.last_access)
}

fn copy_entry(e: &LearningEntry) -> (r: LearningEntry)
    ensures
        r.surface@ == e.surface@,
        r.frequency == e.frequency,
        r.last_access == e.last_access,
{
    LearningEntry { surface: e.surface.clone(), frequency: e.frequency, last_access: e.last_access }
}

fn copy_stored(s: &Stored) -> (r: Stored)
    ensures
        stored_view(r) == stored_view(*s),
{
    Stored { reading: s.reading.clone(), entry: copy_entry(&s.entry) }
}

/// In-memory cache of user learning data.
#[derive(Debug)]
pub struct LearningCache {
    entries: Vec<Stored>,
    max_entries: usize,
    max_surface_chars: usize,
    dirty: bool,
}

impl LearningCache {
    /// The learned entries, in the order they were first learned.
    pub closed spec fn entries(&self) -> Seq<Learned> {
        self.entries@.map_values(|s: Stored| stored_view(s))
    }

    /// The entry limit it was made with.
    pub closed spec fn entry_limit(&self) -> usize {
        self.max_entries
    }

    /// The surface-length limit it was made with.
    pub closed spec fn surface_limit(&self) -> usize {
        self.max_surface_chars
    }

    /// Whether there are changes not yet saved.
    pub closed spec fn unsaved(&self) -> bool {
        self.dirty
    }

    /// Create an empty cache with the given limits.
    pub fn new(config: LearningConfig) -> (c: Self)
        ensures
            c.entries() == Seq::<Learned>::empty(),
            c.entry_limit() == config.max_entries,
            c.surface_limit() == config.max_surface_chars,
            !c.unsaved(),
    {
        let c = Self {
            entries: Vec::new(),
            max_entries: config.max_entries,
            max_surface_chars: config.max_surface_chars,
            dirty: false,
        };
        assert(c.entries() =~= Seq::<Learned>::empty());
        c
    }

    /// Index of the first entry of `surface` under `reading`.
    fn find(&self, reading: &str, surface: &str) -> (r: Option<usize>)
        ensures
            r matches Some(i) ==> i == first_entry(self.entries(), reading@, surface@) && i < self.entries().len(),
            r is None ==> first_entry(self.entries(), reading@, surface@) == -1,
    {
        let ghost v = self.entries();
        let mut i: usize = 0;
        while i < self.entries.len()
            invariant
                v == self.entries(),
                0 <= i <= v.len(),
                forall|j: int| 0 <= j < i ==> !is_entry_of(#[trigger] v[j], reading@, surface@),
            decreases v.len() - i,
        {
            let s = &self.entries[i];
            if str_eq(s.reading.as_str(), reading) && str_eq(s.entry.surface.as_str(), surface) {
                proof {
                    lemma_first_entry(v, reading@, surface@);
                    reveal(first_entry);
                    assert(is_entry_of(v[i as int], reading@, surface@));
                    let c = first_entry(v, reading@, surface@);
                    if c < i {
                        assert(!is_entry_of(v[c], reading@, surface@));
                    }
                    if c > i {
                        assert(!is_entry_of(v[i as int], reading@, surface@));
                    }
                }
                return Some(i);
            }
            i = i + 1;
        }
        proof {
            lemma_first_entry(v, reading@, surface@);
        }
        None
    }

    /// The longest surface (in characters) the cache learns.
    pub fn max_surface(&self) -> (n: usize)
        ensures
            n == self.surface_limit(),
    {
        self.max_surface_chars
    }

    /// Whether one more selection of `surface` for `reading` can be counted:
    /// the pair is new, or its count is below the `u32` ceiling.
    pub fn can_record(&self, reading: &str, surface: &str) -> (r: bool)
        ensures
            r == (first_entry(self.entries(), reading@, surface@) >= 0 ==> self.entries()[first_entry(
                self.entries(),
                reading@,
                surface@,
            )].2 < u32::MAX),
    {
        match self.find(reading, surface) {
            Some(i) => self.entries[i].entry.frequency < u32::MAX,
            None => true,
        }
    }

    /// Record a user selection at time `now`: an existing entry counts one
    /// more use and takes `now`, a new pair starts at frequency 1. Surfaces
    /// longer than the surface limit are skipped, leaving the cache as it
    /// was.
    pub fn record_at(&mut self, reading: &str, surface: &str, now: u64)
        requires
            first_entry(old(self).entries(), reading@, surface@) >= 0 ==> old(self).entries()[first_entry(
                old(self).entries(),
                reading@,
                surface@,
            )].2 < u32::MAX,
        ensures
            final(self).entry_limit() == old(self).entry_limit(),
            final(self).surface_limit() == old(self).surface_limit(),
            surface@.len() > old(self).surface_limit() ==> final(self).entries() == old(self).entries()
                && final(self).unsaved() == old(self).unsaved(),
            surface@.len() <= old(self).surface_limit() ==> final(self).entries() == recorded(
                old(self).entries(),
                reading@,
                surface@,
                now,
            ) && final(self).unsaved(),
            flags_change(*old(self), *final(self)),
    {
        let count = chars_of(surface).len();
        if count > self.max_surface_chars {
            return;
        }
        let ghost v = self.entries();
        proof {
            lemma_first_entry(v, reading@, surface@);
        }
        match self.find(reading, surface) {
            Some(i) => {
                let mut s = self.entries.remove(i);
                s.entry.frequency = s.entry.frequency + 1;
                s.entry.last_access = now;
                self.entries.insert(i, s);
                assert(self.entries() =~= recorded(v, reading@, surface@, now));
                assert(self.entries()[i as int].2 != v[i as int].2);
            },
            None => {
                let s = Stored {
                    reading: reading.to_string(),
                    entry: LearningEntry { surface: surface.to_string(), frequency: 1, last_access: now },
                };
                self.entries.push(s);
                assert(self.entries() =~= recorded(v, reading@, surface@, now));
                assert(self.entries().len() != v.len());
            },
        }
        self.dirty = true;
    }

    /// Remove every learned entry that would resurface `surface` for input
    /// `reading`: the exact-reading entry plus every longer reading with
    /// `reading` as a prefix. Returns whether anything was removed; a
    /// removal leaves unsaved changes.
    pub fn remove_suggestion(&mut self, reading: &str, surface: &str) -> (removed: bool)
        ensures
            final(self).entries() == after_removal(old(self).entries(), reading@, surface@),
            removed == exists|i: int|
                0 <= i < old(self).entries().len() && resurfaces(#[trigger] old(self).entries()[i], reading@, surface@),
            final(self).unsaved() == (old(self).unsaved() || removed),
            final(self).entry_limit() == old(self).entry_limit(),
            final(self).surface_limit() == old(self).surface_limit(),
            flags_change(*old(self), *final(self)),
            remove_call(*old(self), *final(self), reading@, surface@, removed),
    {
        let ghost v = self.entries();
        let ghost pred = |e: Learned| !resurfaces(e, reading@, surface@);
        let mut kept: Vec<Stored> = Vec::new();
        let mut removed = false;
        let mut i: usize = 0;
        assert(v.subrange(0, 0) =~= Seq::<Learned>::empty());
        while i < self.entries.len()
            invariant
                v == self.entries(),
                0 <= i <= v.len(),
                kept@.map_values(|s: Stored| stored_view(s)) == keep(v.subrange(0, i as int), pred),
                removed == exists|j: int| 0 <= j < i && resurfaces(#[trigger] v[j], reading@, surface@),
                pred == |e: Learned| !resurfaces(e, reading@, surface@),
            decreases v.len() - i,
        {
            let s = &self.entries[i];
            assert(v.subrange(0, i + 1).drop_last() =~= v.subrange(0, i as int));
            assert(v[i as int] == stored_view(*s));
            let ghost before = kept@.map_values(|s: Stored| stored_view(s));
            if str_starts_with(s.reading.as_str(), reading) && str_eq(s.entry.surface.as_str(), surface) {
                assert(!pred(v[i as int]));
                assert(keep(v.subrange(0, i + 1), pred) == keep(v.subrange(0, i as int), pred));
                removed = true;
            } else {
                assert(pred(v[i as int]));
                assert(keep(v.subrange(0, i + 1), pred) == keep(v.subrange(0, i as int), pred).push(v[i as int]));
                kept.push(copy_stored(s));
                assert(kept@.map_values(|s: Stored| stored_view(s)) =~= before.push(v[i as int]));
            }
            i = i + 1;
        }
        assert(v.subrange(0, v.len() as int) =~= v);
        proof {
            lemma_keep_size(v, pred);
            if !removed {
                assert forall|j: int| 0 <= j < v.len() implies pred(#[trigger] v[j]) by {
                    if !pred(v[j]) {
                        assert(resurfaces(v[j], reading@, surface@));
                    }
                }
            } else {
                let j = choose|j: int| 0 <= j < v.len() && resurfaces(#[trigger] v[j], reading@, surface@);
                assert(!pred(v[j]));
            }
        }
        self.entries = kept;
        if removed {
            self.dirty = true;
        }
        removed
    }

    /// Whether there are unsaved changes.
    pub fn is_dirty(&self) -> (r: bool)
        ensures
            r == self.unsaved(),
    {
        self.dirty
    }

    /// Total number of learned entries.
    pub fn entry_count(&self) -> (n: usize)
        ensures
            n == self.entries().len(),
    {
        self.entries.len()
    }

    /// The learned entries that `keep_entry` accepts, with their readings,
    /// in stored order.
    fn collect_where(&self, reading: &str, mode: u8, max_extra: usize) -> (r: Vec<(String, LearningEntry)>)
        ensures
            mode == 0 ==> pair_views(r@) == keep(self.entries(), |e: Learned| under_reading(e, reading@)),
            mode == 1 ==> pair_views(r@) == keep(self.entries(), |e: Learned| under_prefix(e, reading@)),
            mode == 2 ==> pair_views(r@) == keep(self.entries(), |e: Learned| predicts(e, reading@, max_extra)),
    {
        let ghost v = self.entries();
        let ghost pred = if mode == 0 {
            |e: Learned| under_reading(e, reading@)
        } else if mode == 1 {
            |e: Learned| under_prefix(e, reading@)
        } else {
            |e: Learned| predicts(e, reading@, max_extra)
        };
        let typed = chars_of(reading).len();
        let mut out: Vec<(String, LearningEntry)> = Vec::new();
        let mut i: usize = 0;
        assert(v.subrange(0, 0) =~= Seq::<Learned>::empty());
        while i < self.entries.len()
            invariant
                v == self.entries(),
                typed == reading@.len(),
                0 <= i <= v.len(),
                pair_views(out@) == keep(v.subrange(0, i as int), pred),
                mode == 0 ==> pred == |e: Learned| under_reading(e, reading@),
                mode == 1 ==> pred == |e: Learned| under_prefix(e, reading@),
                mode != 0 && mode != 1 ==> pred == |e: Learned| predicts(e, reading@, max_extra),
            decreases v.len() - i,
        {
            let s = &self.entries[i];
            assert(v.subrange(0, i + 1).drop_last() =~= v.subrange(0, i as int));
            assert(v[i as int] == stored_view(*s));
            let take = if mode == 0 {
                str_eq(s.reading.as_str(), reading)
            } else if mode == 1 {
                str_starts_with(s.reading.as_str(), reading)
            } else {
                !str_eq(s.reading.as_str(), reading) && str_starts_with(s.reading.as_str(), reading)
                    && chars_of(s.reading.as_str()).len() - typed <= max_extra
            };
            let ghost before = pair_views(out@);
            if take {
                assert(pred(v[i as int]));
                assert(keep(v.subrange(0, i + 1), pred) == keep(v.subrange(0, i as int), pred).push(v[i as int]));
                out.push((s.reading.clone(), copy_entry(&s.entry)));
                assert(pair_views(out@) =~= before.push(v[i as int]));
            } else {
                assert(!pred(v[i as int]));
                assert(keep(v.subrange(0, i + 1), pred) == keep(v.subrange(0, i as int), pred));
            }
            i = i + 1;
        }
        assert(v.subrange(0, v.len() as int) =~= v);
        out
    }

    /// Exact-match lookup: the entries learned under `reading`, with their
    /// reading, in stored order.
    pub fn lookup_entries(&self, reading: &str) -> (r: Vec<(String, LearningEntry)>)
        ensures
            pair_views(r@) == looked_up(self.entries(), reading@),
    {
        self.collect_where(reading, 0, 0)
    }

    /// Prefix-match lookup: the entries whose reading starts with `prefix`
    /// (the exact reading included), in stored order.
    pub fn prefix_entries(&self, prefix: &str) -> (r: Vec<(String, LearningEntry)>)
        ensures
            pair_views(r@) == keep(self.entries(), |e: Learned| under_prefix(e, prefix@)),
    {
        self.collect_where(prefix, 1, 0)
    }

    /// The predictions for a typed `prefix`: the entries whose reading
    /// extends it (the exact reading is [`Self::lookup_entries`]'s) by at
    /// most `max_extra` chars. A longer reading is held back — a sentence
    /// committed every morning must not head every later typing of its
    /// first kana — and comes up once the typing is within `max_extra`
    /// chars of its end.
    pub fn predict_entries(&self, prefix: &str, max_extra: usize) -> (r: Vec<(String, LearningEntry)>)
        ensures
            pair_views(r@) == predictions(self.entries(), prefix@, max_extra),
    {
        self.collect_where(prefix, 2, max_extra)
    }
}


/// Current time as Unix timestamp in seconds (0 when the clock reads
/// before the epoch): `SystemTime::now()` measured from `UNIX_EPOCH`.
/// Nothing is stated of the value: it is the clock's.
#[verifier::external_body]
fn now_unix() -> u64 {
    std::time::SystemTime::now().duration_since(std::time::UNIX_EPOCH).map(|d| d.as_secs()).unwrap_or(0)
}

/// `order[k]` for some `k < count`: index `i` is among the first `count`
/// of the ranking.
pub open spec fn ranked_first(order: Seq<usize>, count: int, i: int) -> bool {
    exists|k: int| 0 <= k < count && order[k] == i
}

/// `order` ranks the indices `0..n`: each exactly once.
pub open spec fn is_ranking(order: Seq<usize>, n: nat) -> bool {
    &&& order.len() == n
    &&& forall|k: int| 0 <= k < order.len() ==> (#[trigger] order[k]) < n
    &&& forall|k: int, l: int| 0 <= k < order.len() && 0 <= l < order.len() && k != l ==> (#[trigger] order[k]) != (#[trigger] order[l])
}

/// The entries among the first `n` of `v` that are not among the first
/// `count` of `order`, in order.
pub open spec fn survivors(v: Seq<Learned>, order: Seq<usize>, count: int, n: int) -> Seq<Learned>
    decreases n,
{
    if n <= 0 {
        Seq::empty()
    } else if ranked_first(order, count, n - 1) {
        survivors(v, order, count, n - 1)
    } else {
        survivors(v, order, count, n - 1).push(v[n - 1])
    }
}

/// How many of the first `count` of `order` lie below `n`.
pub open spec fn ranked_below(order: Seq<usize>, count: int, n: int) -> nat
    decreases count,
{
    if count <= 0 {
        0
    } else {
        ranked_below(order, count - 1, n) + (if order[count - 1] < n { 1nat } else { 0nat })
    }
}

/// Of distinct indices, the first `count` that lie below `n + 1` are those
/// below `n`, plus one exactly when `n` is among them.
proof fn lemma_ranked_step(order: Seq<usize>, count: int, n: int)
    requires
        0 <= count <= order.len(),
        0 <= n,
        forall|k: int, l: int| 0 <= k < order.len() && 0 <= l < order.len() && k != l ==> (#[trigger] order[k]) != (#[trigger] order[l]),
    ensures
        ranked_below(order, count, n + 1) == ranked_below(order, count, n) + (if ranked_first(order, count, n) { 1nat } else { 0nat }),
    decreases count,
{
    if count > 0 {
        lemma_ranked_step(order, count - 1, n);
        if order[count - 1] == n {
            assert(ranked_first(order, count, n));
            assert(!ranked_first(order, count - 1, n));
        } else {
            if ranked_first(order, count, n) {
                let k = choose|k: int| 0 <= k < count && order[k] == n;
                assert(ranked_first(order, count - 1, n));
            }
            if ranked_first(order, count - 1, n) {
                let k = choose|k: int| 0 <= k < count - 1 && order[k] == n;
                assert(ranked_first(order, count, n));
            }
        }
    }
}

/// `survivors` keeps the first `n` entries but those ranked among the
/// first `count`.
proof fn lemma_survivors_len(v: Seq<Learned>, order: Seq<usize>, count: int, n: int)
    requires
        0 <= count <= order.len(),
        0 <= n <= v.len(),
        forall|k: int, l: int| 0 <= k < order.len() && 0 <= l < order.len() && k != l ==> (#[trigger] order[k]) != (#[trigger] order[l]),
    ensures
        survivors(v, order, count, n).len() + ranked_below(order, count, n) == n,
    decreases n,
{
    if n == 0 {
        lemma_ranked_zero(order, count);
    } else {
        lemma_survivors_len(v, order, count, n - 1);
        lemma_ranked_step(order, count, n - 1);
    }
}

proof fn lemma_ranked_zero(order: Seq<usize>, count: int)
    ensures
        ranked_below(order, count, 0) == 0,
    decreases count,
{
    if count > 0 {
        lemma_ranked_zero(order, count - 1);
    }
}

proof fn lemma_ranked_all(order: Seq<usize>, count: int, n: int)
    requires
        0 <= count <= order.len(),
        forall|k: int| 0 <= k < order.len() ==> (#[trigger] order[k]) < n,
    ensures
        ranked_below(order, count, n) == count,
    decreases count,
{
    if count > 0 {
        lemma_ranked_all(order, count - 1, n);
    }
}

impl LearningCache {
    /// Record a user selection now: [`Self::record_at`] with the current
    /// time. Surfaces longer than the surface limit are skipped.
    pub fn record(&mut self, reading: &str, surface: &str)
        requires
            first_entry(old(self).entries(), reading@, surface@) >= 0 ==> old(self).entries()[first_entry(
                old(self).entries(),
                reading@,
                surface@,
            )].2 < u32::MAX,
        ensures
            final(self).entry_limit() == old(self).entry_limit(),
            final(self).surface_limit() == old(self).surface_limit(),
            surface@.len() > old(self).surface_limit() ==> final(self).entries() == old(self).entries()
                && final(self).unsaved() == old(self).unsaved(),
            surface@.len() <= old(self).surface_limit() ==> final(self).unsaved() && exists|now: u64|
                final(self).entries() == recorded(old(self).entries(), reading@, surface@, now),
            flags_change(*old(self), *final(self)),
            record_call(*old(self), *final(self), reading@, surface@),
    {
        let now = now_unix();
        self.record_at(reading, surface, now);
    }

    /// Evict down to the entry limit: with more entries than the limit, the
    /// first `count - limit` indices of `order` — a ranking of all entries,
    /// lowest score first — are removed and the rest keep their order.
    /// Within the limit nothing changes.
    pub fn evict_ranked(&mut self, order: &[usize])
        requires
            is_ranking(order@, old(self).entries().len()),
        ensures
            final(self).entry_limit() == old(self).entry_limit(),
            final(self).surface_limit() == old(self).surface_limit(),
            final(self).unsaved() == old(self).unsaved(),
            old(self).entries().len() <= old(self).entry_limit() ==> final(self).entries() == old(self).entries(),
            old(self).entries().len() > old(self).entry_limit() ==> final(self).entries() == survivors(
                old(self).entries(),
                order@,
                old(self).entries().len() - old(self).entry_limit(),
                old(self).entries().len() as int,
            ) && final(self).entries().len() == old(self).entry_limit(),
    {
        let total = self.entries.len();
        if total <= self.max_entries {
            return;
        }
        let to_remove = total - self.max_entries;
        let ghost v = self.entries();
        let mut mask: Vec<bool> = Vec::new();
        let mut i: usize = 0;
        while i < total
            invariant
                0 <= i <= total,
                mask@.len() == i,
                forall|j: int| 0 <= j < i ==> !(#[trigger] mask@[j]),
            decreases total - i,
        {
            mask.push(false);
            i = i + 1;
        }
        let mut k: usize = 0;
        while k < to_remove
            invariant
                is_ranking(order@, total as nat),
                0 <= k <= to_remove <= total,
                mask@.len() == total,
                forall|j: int| 0 <= j < total ==> (#[trigger] mask@[j] <==> ranked_first(order@, k as int, j)),
            decreases to_remove - k,
        {
            let p = order[k];
            mask.set(p, true);
            assert forall|j: int| 0 <= j < total implies (#[trigger] mask@[j] <==> ranked_first(order@, k + 1, j)) by {
                if j == p {
                    assert(order@[k as int] == p);
                } else if ranked_first(order@, k + 1, j) {
                    let w = choose|w: int| 0 <= w < k + 1 && order@[w] == j;
                    assert(w != k);
                    assert(ranked_first(order@, k as int, j));
                }
            }
            k = k + 1;
        }
        let mut kept: Vec<Stored> = Vec::new();
        let mut m: usize = 0;
        while m < total
            invariant
                v == self.entries(),
                total == v.len(),
                0 <= m <= total,
                mask@.len() == total,
                forall|j: int| 0 <= j < total ==> (#[trigger] mask@[j] <==> ranked_first(order@, to_remove as int, j)),
                kept@.map_values(|s: Stored| stored_view(s)) == survivors(v, order@, to_remove as int, m as int),
            decreases total - m,
        {
            let ghost before = kept@.map_values(|s: Stored| stored_view(s));
            if !mask[m] {
                assert(v[m as int] == stored_view(self.entries@[m as int]));
                kept.push(copy_stored(&self.entries[m]));
                assert(kept@.map_values(|s: Stored| stored_view(s)) =~= before.push(v[m as int]));
            }
            m = m + 1;
        }
        proof {
            lemma_survivors_len(v, order@, to_remove as int, total as int);
            lemma_ranked_all(order@, to_remove as int, total as int);
        }
        self.entries = kept;
    }
}


/// One line of the file: its fields, tab-separated, then a newline.
pub open spec fn entry_line(e: Learned) -> Seq<char> {
    e.0 + seq!['\t'] + e.1 + seq!['\t'] + dec_string(e.2 as nat) + seq!['\t'] + dec_string(e.3 as nat) + seq!['\n']
}

/// The lines of the entries of `v` under `reading`, in order.
pub open spec fn lines_under(v: Seq<Learned>, reading: Seq<char>) -> Seq<char>
    decreases v.len(),
{
    if v.len() == 0 {
        Seq::empty()
    } else {
        lines_under(v.drop_last(), reading) + (if v.last().0 == reading {
            entry_line(v.last())
        } else {
            Seq::empty()
        })
    }
}

/// The lines of `v` grouped by reading, the readings taken in the order of `rs`.
pub open spec fn grouped(v: Seq<Learned>, rs: Seq<Seq<char>>) -> Seq<char>
    decreases rs.len(),
{
    if rs.len() == 0 {
        Seq::empty()
    } else {
        grouped(v, rs.drop_last()) + lines_under(v, rs.last())
    }
}

/// The first line of a saved cache.
pub open spec fn tsv_header() -> Seq<char> {
    "# karukan learning cache v1\n"@
}

/// `rs` is the readings of `v`, each once, in sorted order.
pub open spec fn sorted_readings(v: Seq<Learned>, rs: Seq<Seq<char>>) -> bool {
    &&& strictly_sorted(rs)
    &&& forall|r: Seq<char>| #[trigger] has_text(rs, r) <==> exists|i: int| 0 <= i < v.len() && (#[trigger] v[i]).0 == r
}

/// What one line of a saved file holds, if it is an entry: the line is
/// trimmed; blank lines and `#` comments hold none; the tab-separated
/// fields are reading, surface, frequency and last access (further fields
/// ignored); a line with fewer than four fields, or a number that does not
/// parse, holds none.
pub open spec fn parse_line(line: Seq<char>) -> Option<Learned> {
    let l = trim(line);
    if l.len() == 0 || l[0] == '#' {
        None
    } else {
        let parts = split(l, '\t');
        if parts.len() < 4 {
            None
        } else {
            match (parse_uint(parts[2], u32::MAX as nat), parse_uint(parts[3], u64::MAX as nat)) {
                (Some(f), Some(t)) => Some((parts[0], parts[1], f as u32, t as u64)),
                _ => None,
            }
        }
    }
}

/// The entries that `lines` hold, in order.
pub open spec fn parsed_lines(lines: Seq<Seq<char>>) -> Seq<Learned>
    decreases lines.len(),
{
    if lines.len() == 0 {
        Seq::empty()
    } else {
        let rest = parsed_lines(lines.drop_last());
        match parse_line(lines.last()) {
            Some(e) => rest.push(e),
            None => rest,
        }
    }
}

/// The entries a saved file holds: those of its lines, in order.
pub open spec fn parse_tsv(content: Seq<char>) -> Seq<Learned> {
    parsed_lines(split(content, '\n'))
}

/// The entry a line holds, if any: [`parse_line`].
fn parse_entry_line(line: &[char]) -> (r: Option<Stored>)
    ensures
        r matches Some(st) ==> parse_line(line@) == Some(stored_view(st)),
        r is None ==> parse_line(line@) is None,
{
    let l = trim_chars(line);
    if l.len() == 0 || l[0] == '#' {
        return None;
    }
    let parts = split_chars(l.as_slice(), '\t');
    proof {
        assert(parts@.map_values(|p: Vec<char>| p@).len() == parts@.len());
    }
    if parts.len() < 4 {
        return None;
    }
    let ghost pv = parts@.map_values(|p: Vec<char>| p@);
    assert(pv[2] == parts@[2]@ && pv[3] == parts@[3]@ && pv[0] == parts@[0]@ && pv[1] == parts@[1]@);
    let frequency = match parse_uint_chars(parts[2].as_slice(), 4294967295u64) {
        Some(v) => v,
        None => return None,
    };
    let last_access = match parse_uint_chars(parts[3].as_slice(), 18446744073709551615u64) {
        Some(v) => v,
        None => return None,
    };
    let frequency: u32 = frequency as u32;
    Some(Stored {
        reading: string_from_chars(parts[0].as_slice()),
        entry: LearningEntry {
            surface: string_from_chars(parts[1].as_slice()),
            frequency,
            last_access,
        },
    })
}

/// Append `e`'s line to `out`.
fn push_entry_line(out: &mut Vec<char>, s: &Stored)
    ensures
        final(out)@ == old(out)@ + entry_line(stored_view(*s)),
{
    let reading = chars_of(s.reading.as_str());
    let surface = chars_of(s.entry.surface.as_str());
    chars_extend(out, reading.as_slice());
    out.push('\t');
    chars_extend(out, surface.as_slice());
    out.push('\t');
    push_decimal(out, s.entry.frequency as u64);
    out.push('\t');
    push_decimal(out, s.entry.last_access);
    out.push('\n');
    assert(final(out)@ =~= old(out)@ + entry_line(stored_view(*s)));
}

impl LearningCache {
    /// A cache holding the entries of a saved file's `content`
    /// ([`parse_tsv`]), with no unsaved changes.
    pub fn from_tsv(content: &str, config: LearningConfig) -> (c: Self)
        ensures
            c.entries() == parse_tsv(content@),
            c.entry_limit() == config.max_entries,
            c.surface_limit() == config.max_surface_chars,
            !c.unsaved(),
    {
        let chars = chars_of(content);
        let lines = split_chars(chars.as_slice(), '\n');
        let ghost lv = lines@.map_values(|p: Vec<char>| p@);
        let mut entries: Vec<Stored> = Vec::new();
        let mut i: usize = 0;
        assert(lv.subrange(0, 0) =~= Seq::<Seq<char>>::empty());
        while i < lines.len()
            invariant
                lv == lines@.map_values(|p: Vec<char>| p@),
                lv == split(content@, '\n'),
                0 <= i <= lines@.len(),
                entries@.map_values(|s: Stored| stored_view(s)) == parsed_lines(lv.subrange(0, i as int)),
            decreases lines@.len() - i,
        {
            let ghost before = entries@.map_values(|s: Stored| stored_view(s));
            assert(lv.subrange(0, i + 1).drop_last() =~= lv.subrange(0, i as int));
            assert(lv.subrange(0, i + 1).last() == lines@[i as int]@);
            match parse_entry_line(lines[i].as_slice()) {
                Some(st) => {
                    entries.push(st);
                    assert(entries@.map_values(|s: Stored| stored_view(s)) =~= before.push(stored_view(st)));
                },
                None => {},
            }
            i = i + 1;
        }
        assert(lv.subrange(0, lv.len() as int) =~= lv);
        Self {
            entries,
            max_entries: config.max_entries,
            max_surface_chars: config.max_surface_chars,
            dirty: false,
        }
    }

    /// The cache as a saved file: a header line, then one line per entry,
    /// grouped by reading with the readings in sorted order and each
    /// reading's entries in stored order.
    pub fn to_tsv(&self) -> (r: String)
        ensures
            exists|rs: Seq<Seq<char>>| sorted_readings(self.entries(), rs) && r@ == tsv_header() + grouped(self.entries(), rs),
    {
        let ghost v = self.entries();
        let n = self.entries.len();
        let mut rs: Vec<Vec<char>> = Vec::new();
        let mut i: usize = 0;
        assert(texts(rs@) =~= Seq::<Seq<char>>::empty());
        while i < n
            invariant
                v == self.entries(),
                n == v.len(),
                0 <= i <= n,
                strictly_sorted(texts(rs@)),
                forall|r: Seq<char>| #[trigger] has_text(texts(rs@), r) <==> exists|j: int| 0 <= j < i && (#[trigger] v[j]).0 == r,
            decreases n - i,
        {
            let reading = chars_of(self.entries[i].reading.as_str());
            assert(v[i as int].0 == reading@);
            insert_sorted(&mut rs, reading);
            assert forall|r: Seq<char>| #[trigger] has_text(texts(rs@), r) <==> exists|j: int| 0 <= j < i + 1 && (#[trigger] v[j]).0 == r by {
                if r == v[i as int].0 {
                    assert(exists|j: int| 0 <= j < i + 1 && (#[trigger] v[j]).0 == r);
                }
                if exists|j: int| 0 <= j < i + 1 && (#[trigger] v[j]).0 == r {
                    let j = choose|j: int| 0 <= j < i + 1 && (#[trigger] v[j]).0 == r;
                    if j < i {
                        assert(exists|j: int| 0 <= j < i && (#[trigger] v[j]).0 == r);
                    }
                }
            }
            i = i + 1;
        }
        let ghost rv = texts(rs@);
        let header = chars_of("# karukan learning cache v1\n");
        let mut out: Vec<char> = header;
        let mut k: usize = 0;
        assert(rv.subrange(0, 0) =~= Seq::<Seq<char>>::empty());
        while k < rs.len()
            invariant
                v == self.entries(),
                n == v.len(),
                rv == texts(rs@),
                0 <= k <= rs@.len(),
                out@ == tsv_header() + grouped(v, rv.subrange(0, k as int)),
            decreases rs@.len() - k,
        {
            let mut m: usize = 0;
            let ghost base = out@;
            assert(v.subrange(0, 0) =~= Seq::<Learned>::empty());
            assert(base + lines_under(v.subrange(0, 0), rv[k as int]) =~= base);
            while m < n
                invariant
                    v == self.entries(),
                    n == v.len(),
                    rv == texts(rs@),
                    0 <= k < rs@.len(),
                    0 <= m <= n,
                    out@ == base + lines_under(v.subrange(0, m as int), rv[k as int]),
                decreases n - m,
            {
                let st = &self.entries[m];
                assert(v[m as int] == stored_view(*st));
                assert(v.subrange(0, m + 1).drop_last() =~= v.subrange(0, m as int));
                assert(v.subrange(0, m + 1).last() == v[m as int]);
                if str_eq(st.reading.as_str(), string_from_chars(rs[k].as_slice()).as_str()) {
                    push_entry_line(&mut out, st);
                    assert(out@ =~= base + lines_under(v.subrange(0, m + 1), rv[k as int]));
                } else {
                    assert(out@ =~= base + lines_under(v.subrange(0, m + 1), rv[k as int]));
                }
                m = m + 1;
            }
            assert(v.subrange(0, n as int) =~= v);
            assert(rv.subrange(0, k + 1).drop_last() =~= rv.subrange(0, k as int));
            assert(rv.subrange(0, k + 1).last() == rv[k as int]);
            assert(out@ =~= tsv_header() + grouped(v, rv.subrange(0, k + 1)));
            k = k + 1;
        }
        assert(rv.subrange(0, rv.len() as int) =~= rv);
        assert(sorted_readings(v, rv));
        string_from_chars(out.as_slice())
    }

    /// The save is done: no unsaved changes remain.
    pub fn mark_saved(&mut self)
        ensures
            final(self).entries() == old(self).entries(),
            final(self).entry_limit() == old(self).entry_limit(),
            final(self).surface_limit() == old(self).surface_limit(),
            !final(self).unsaved(),
    {
        self.dirty = false;
    }
}

} // verus!

verus! {

/// Every entry `keep` returns satisfies its predicate.
pub proof fn lemma_keep_all(v: Seq<Learned>, pred: spec_fn(Learned) -> bool)
    ensures
        forall|i: int| 0 <= i < keep(v, pred).len() ==> pred(#[trigger] keep(v, pred)[i]),
    decreases v.len(),
{
    if v.len() > 0 {
        lemma_keep_all(v.drop_last(), pred);
        let k = keep(v.drop_last(), pred);
        if pred(v.last()) {
            assert forall|i: int| 0 <= i < keep(v, pred).len() implies pred(#[trigger] keep(v, pred)[i]) by {
                if i < k.len() {
                    assert(keep(v, pred)[i] == k[i]);
                }
            }
        }
    }
}

/// `keep` never grows the sequence; it returns it whole when the predicate
/// holds of every entry, and something shorter when it fails of one.
pub proof fn lemma_keep_size(v: Seq<Learned>, pred: spec_fn(Learned) -> bool)
    ensures
        keep(v, pred).len() <= v.len(),
        (forall|i: int| 0 <= i < v.len() ==> pred(#[trigger] v[i])) ==> keep(v, pred) == v,
        (exists|i: int| 0 <= i < v.len() && !pred(#[trigger] v[i])) ==> keep(v, pred).len() < v.len(),
    decreases v.len(),
{
    if v.len() > 0 {
        let d = v.drop_last();
        lemma_keep_size(d, pred);
        if forall|i: int| 0 <= i < v.len() ==> pred(#[trigger] v[i]) {
            assert forall|i: int| 0 <= i < d.len() implies pred(#[trigger] d[i]) by {
                assert(d[i] == v[i]);
            }
            assert(d.push(v.last()) =~= v);
        }
        if exists|i: int| 0 <= i < v.len() && !pred(#[trigger] v[i]) {
            let i = choose|i: int| 0 <= i < v.len() && !pred(#[trigger] v[i]);
            if i < d.len() {
                assert(!pred(d[i]));
            }
        }
    }
}

/// A record or removal going from `a` to `b`, as the unsaved flag sees it:
/// a change to the entries leaves unsaved changes; no change leaves the
/// flag as it was.
pub open spec fn flags_change(a: LearningCache, b: LearningCache) -> bool {
    if b.entries() == a.entries() {
        b.unsaved() == a.unsaved()
    } else {
        b.unsaved()
    }
}

/// Over any run of records and removals, the cache has unsaved changes
/// exactly when it had them at the start or some call changed its entries.
pub proof fn lemma_unsaved_tracks_changes(run: Seq<LearningCache>)
    requires
        run.len() > 0,
        forall|i: int| #![trigger run[i]] 0 <= i < run.len() - 1 ==> flags_change(run[i], run[i + 1]),
    ensures
        run.last().unsaved() == (run[0].unsaved() || exists|i: int|
            #![trigger run[i]]
            0 <= i < run.len() - 1 && run[i + 1].entries() != run[i].entries()),
    decreases run.len(),
{
    if run.len() > 1 {
        let d = run.drop_last();
        assert forall|i: int| #![trigger d[i]] 0 <= i < d.len() - 1 implies flags_change(d[i], d[i + 1]) by {
            assert(d[i] == run[i]);
            assert(d[i + 1] == run[i + 1]);
        }
        lemma_unsaved_tracks_changes(d);
        let k = run.len() - 2;
        assert(flags_change(run[k], run[k + 1]));
        assert(d.last() == run[k]);
        assert(d[0] == run[0]);
        if exists|i: int| #![trigger d[i]] 0 <= i < d.len() - 1 && d[i + 1].entries() != d[i].entries() {
            let i = choose|i: int| #![trigger d[i]] 0 <= i < d.len() - 1 && d[i + 1].entries() != d[i].entries();
            assert(d[i] == run[i] && d[i + 1] == run[i + 1]);
        }
        if exists|i: int| #![trigger run[i]] 0 <= i < run.len() - 1 && run[i + 1].entries() != run[i].entries() {
            let i = choose|i: int| #![trigger run[i]] 0 <= i < run.len() - 1 && run[i + 1].entries() != run[i].entries();
            if i < k {
                assert(d[i] == run[i] && d[i + 1] == run[i + 1]);
            }
        }
    }
}

/// `b` is `a` after `record(reading, surface)`, as that call's contract
/// states it.
pub open spec fn record_call(a: LearningCache, b: LearningCache, reading: Seq<char>, surface: Seq<char>) -> bool {
    &&& b.entry_limit() == a.entry_limit()
    &&& b.surface_limit() == a.surface_limit()
    &&& surface.len() > a.surface_limit() ==> b.entries() == a.entries() && b.unsaved() == a.unsaved()
    &&& surface.len() <= a.surface_limit() ==> b.unsaved() && exists|now: u64|
        b.entries() == recorded(a.entries(), reading, surface, now)
}

/// `b` is `a` after `remove_suggestion(reading, surface)` returned
/// `removed`, as that call's contract states it.
pub open spec fn remove_call(a: LearningCache, b: LearningCache, reading: Seq<char>, surface: Seq<char>, removed: bool) -> bool {
    &&& b.entries() == after_removal(a.entries(), reading, surface)
    &&& b.unsaved() == (a.unsaved() || removed)
    &&& b.entry_limit() == a.entry_limit()
    &&& b.surface_limit() == a.surface_limit()
}

/// A call on the cache: `(true, reading, surface, _)` is
/// `record(reading, surface)`; `(false, reading, surface, removed)` is
/// `remove_suggestion(reading, surface)` returning `removed`.
pub open spec fn cache_call(a: LearningCache, b: LearningCache, call: (bool, Seq<char>, Seq<char>, bool)) -> bool {
    if call.0 {
        record_call(a, b, call.1, call.2)
    } else {
        remove_call(a, b, call.1, call.2, call.3)
    }
}

/// The call leaves unsaved changes: a record of a surface within the
/// limit, or a removal that removed something.
pub open spec fn call_dirties(a: LearningCache, call: (bool, Seq<char>, Seq<char>, bool)) -> bool {
    if call.0 {
        call.2.len() <= a.surface_limit()
    } else {
        call.3
    }
}

/// The dirty flag over any sequence of `record` and `remove_suggestion`
/// calls from `run[0]` (a cache fresh from `new`, `from_tsv` or
/// `mark_saved` has none): afterwards the cache has unsaved changes exactly
/// when it had them at the start, or one of the calls recorded a surface
/// within the limit or removed something.
pub proof fn lemma_dirty_after_calls(run: Seq<LearningCache>, calls: Seq<(bool, Seq<char>, Seq<char>, bool)>)
    requires
        run.len() == calls.len() + 1,
        forall|i: int| #![trigger calls[i]] 0 <= i < calls.len() ==> cache_call(run[i], run[i + 1], calls[i]),
    ensures
        run.last().unsaved() == (run[0].unsaved() || exists|i: int|
            #![trigger calls[i]]
            0 <= i < calls.len() && call_dirties(run[i], calls[i])),
    decreases calls.len(),
{
    if calls.len() > 0 {
        let k = calls.len() - 1;
        let rd = run.drop_last();
        let cd = calls.drop_last();
        assert forall|i: int| #![trigger cd[i]] 0 <= i < cd.len() implies cache_call(rd[i], rd[i + 1], cd[i]) by {
            assert(cd[i] == calls[i] && rd[i] == run[i] && rd[i + 1] == run[i + 1]);
        }
        lemma_dirty_after_calls(rd, cd);
        assert(cache_call(run[k], run[k + 1], calls[k]));
        assert(rd.last() == run[k] && rd[0] == run[0]);
        if exists|i: int| #![trigger cd[i]] 0 <= i < cd.len() && call_dirties(rd[i], cd[i]) {
            let i = choose|i: int| #![trigger cd[i]] 0 <= i < cd.len() && call_dirties(rd[i], cd[i]);
            assert(cd[i] == calls[i] && rd[i] == run[i]);
        }
        if exists|i: int| #![trigger calls[i]] 0 <= i < calls.len() && call_dirties(run[i], calls[i]) {
            let i = choose|i: int| #![trigger calls[i]] 0 <= i < calls.len() && call_dirties(run[i], calls[i]);
            if i < k {
                assert(cd[i] == calls[i] && rd[i] == run[i]);
            }
        }
    }
}

/// Every entry of `v` that satisfies the predicate is among those `keep`
/// returns.
pub proof fn lemma_keep_has(v: Seq<Learned>, pred: spec_fn(Learned) -> bool, i: int)
    requires
        0 <= i < v.len(),
        pred(v[i]),
    ensures
        keep(v, pred).contains(v[i]),
    decreases v.len(),
{
    let k = keep(v.drop_last(), pred);
    if i == v.len() - 1 {
        assert(keep(v, pred) == k.push(v.last()));
        assert(keep(v, pred)[k.len() as int] == v[i]);
    } else {
        assert(v.drop_last()[i] == v[i]);
        lemma_keep_has(v.drop_last(), pred, i);
        let j = choose|j: int| 0 <= j < k.len() && k[j] == v[i];
        if pred(v.last()) {
            assert(keep(v, pred)[j] == v[i]);
        }
    }
}

/// The entries an exact lookup of `reading` returns, in stored order.
pub open spec fn looked_up(v: Seq<Learned>, reading: Seq<char>) -> Seq<Learned> {
    keep(v, |e: Learned| under_reading(e, reading))
}

/// What a record gives back: once `surface` is recorded for `reading`, an
/// exact lookup of `reading` holds it, stamped with the time of the record.
pub proof fn lemma_record_then_lookup(v: Seq<Learned>, reading: Seq<char>, surface: Seq<char>, now: u64)
    ensures
        exists|e: Learned|
            #![trigger looked_up(recorded(v, reading, surface, now), reading).contains(e)]
            looked_up(recorded(v, reading, surface, now), reading).contains(e) && e.1 == surface && e.3 == now,
{
    lemma_first_entry(v, reading, surface);
    let w = recorded(v, reading, surface, now);
    let i = first_entry(v, reading, surface);
    let at = if i >= 0 { i } else { v.len() as int };
    assert(w[at].0 == reading && w[at].1 == surface && w[at].3 == now);
    lemma_keep_has(w, |x: Learned| under_reading(x, reading), at);
    assert(looked_up(w, reading).contains(w[at]));
}

/// Recording adds at most one entry and keeps every other one: an
/// existing pair is counted again in place, a new pair is appended.
pub proof fn lemma_record_keeps_others(v: Seq<Learned>, reading: Seq<char>, surface: Seq<char>, now: u64)
    ensures
        recorded(v, reading, surface, now).len() == v.len() + (if first_entry(v, reading, surface) >= 0 { 0int } else { 1int }),
        forall|i: int| 0 <= i < v.len() && !is_entry_of(v[i], reading, surface) ==> #[trigger] recorded(v, reading, surface, now)[i] == v[i],
{
    lemma_first_entry(v, reading, surface);
}

/// The entries a removal of `surface` for `reading` leaves.
pub open spec fn after_removal(v: Seq<Learned>, reading: Seq<char>, surface: Seq<char>) -> Seq<Learned> {
    keep(v, |e: Learned| !resurfaces(e, reading, surface))
}

/// The entries predicted for a typed `prefix`, in stored order.
pub open spec fn predictions(v: Seq<Learned>, prefix: Seq<char>, max_extra: usize) -> Seq<Learned> {
    keep(v, |e: Learned| predicts(e, prefix, max_extra))
}

/// What a removal leaves: no remaining entry resurfaces `surface` for
/// `reading` (neither the exact reading nor a longer one), and every entry
/// that did not is still there.
pub proof fn lemma_removal_is_final(v: Seq<Learned>, reading: Seq<char>, surface: Seq<char>)
    ensures
        forall|i: int|
            0 <= i < after_removal(v, reading, surface).len() ==> !resurfaces(
                #[trigger] after_removal(v, reading, surface)[i],
                reading,
                surface,
            ),
        forall|i: int|
            0 <= i < v.len() && !resurfaces(v[i], reading, surface) ==> #[trigger] after_removal(v, reading, surface).contains(v[i]),
{
    let p = |e: Learned| !resurfaces(e, reading, surface);
    lemma_keep_all(v, p);
    assert forall|i: int| 0 <= i < v.len() && !resurfaces(v[i], reading, surface) implies #[trigger] after_removal(
        v,
        reading,
        surface,
    ).contains(v[i]) by {
        lemma_keep_has(v, p, i);
    }
}

/// Predictions for a typed `prefix` are entries whose reading strictly
/// extends it by at most `max_extra` characters: never the exact reading,
/// always among the prefix matches.
pub proof fn lemma_predictions_extend(v: Seq<Learned>, prefix: Seq<char>, max_extra: usize)
    ensures
        forall|i: int|
            0 <= i < predictions(v, prefix, max_extra).len() ==> {
                let e = #[trigger] predictions(v, prefix, max_extra)[i];
                &&& under_prefix(e, prefix)
                &&& !under_reading(e, prefix)
                &&& prefix.len() < e.0.len() <= prefix.len() + max_extra
            },
{
    lemma_keep_all(v, |e: Learned| predicts(e, prefix, max_extra));
    assert forall|i: int| 0 <= i < predictions(v, prefix, max_extra).len() implies {
        let e = #[trigger] predictions(v, prefix, max_extra)[i];
        &&& under_prefix(e, prefix)
        &&& !under_reading(e, prefix)
        &&& prefix.len() < e.0.len() <= prefix.len() + max_extra
    } by {
        let e = predictions(v, prefix, max_extra)[i];
        assert(predicts(e, prefix, max_extra));
        if e.0.len() == prefix.len() {
            assert(e.0 =~= prefix);
        }
    }
}

} // verus!

verus! {

/// An entry a saved line carries and gives back: a reading that starts
/// with a character that is neither blank nor `#`, and neither reading nor
/// surface holding a tab or a newline.
pub open spec fn storable(e: Learned) -> bool {
    &&& e.0.len() > 0
    &&& !is_whitespace(e.0[0])
    &&& e.0[0] != '#'
    &&& free_of(e.0, '\t')
    &&& free_of(e.0, '\n')
    &&& free_of(e.1, '\t')
    &&& free_of(e.1, '\n')
}

/// An entry's line without its newline.
pub open spec fn line_body(e: Learned) -> Seq<char> {
    e.0 + seq!['\t'] + e.1 + seq!['\t'] + dec_string(e.2 as nat) + seq!['\t'] + dec_string(e.3 as nat)
}

/// The entries of `v` under each reading of `rs` in turn: what a saved
/// file holds, in the order it holds them.
pub open spec fn regrouped(v: Seq<Learned>, rs: Seq<Seq<char>>) -> Seq<Learned>
    decreases rs.len(),
{
    if rs.len() == 0 {
        Seq::empty()
    } else {
        regrouped(v, rs.drop_last()) + looked_up(v, rs.last())
    }
}

/// `free_of` holds for the parts of a concatenation.
proof fn lemma_free_concat(a: Seq<char>, b: Seq<char>, c: char)
    requires
        free_of(a, c),
        free_of(b, c),
    ensures
        free_of(a + b, c),
{
    assert forall|i: int| 0 <= i < (a + b).len() implies (a + b)[i] != c by {
        if i < a.len() {
            assert((a + b)[i] == a[i]);
        } else {
            assert((a + b)[i] == b[i - a.len()]);
        }
    }
}

/// A storable entry's line reads back as the entry, and holds no newline
/// before its end.
proof fn lemma_line_parses(e: Learned)
    requires
        storable(e),
    ensures
        parse_line(line_body(e)) == Some(e),
        free_of(line_body(e), '\n'),
        entry_line(e) == line_body(e) + seq!['\n'],
{
    let f = dec_string(e.2 as nat);
    let t = dec_string(e.3 as nat);
    lemma_dec_plain(e.2 as nat);
    lemma_dec_plain(e.3 as nat);
    lemma_dec_round_trip(e.3 as nat);
    let body = line_body(e);
    // no newline
    let tab = seq!['\t'];
    assert(free_of(tab, '\n'));
    lemma_free_concat(e.0, tab, '\n');
    lemma_free_concat(e.0 + tab, e.1, '\n');
    lemma_free_concat(e.0 + tab + e.1, tab, '\n');
    lemma_free_concat(e.0 + tab + e.1 + tab, f, '\n');
    lemma_free_concat(e.0 + tab + e.1 + tab + f, tab, '\n');
    lemma_free_concat(e.0 + tab + e.1 + tab + f + tab, t, '\n');
    // trimming leaves it as it is
    assert(body[0] == e.0[0]);
    assert(body.last() == t.last());
    assert(trim_start(body) == body);
    assert(trim_end(body) == body);
    // four fields
    lemma_split_single(e.0, '\t');
    lemma_split_join(e.0, e.1, '\t');
    lemma_split_join(e.0 + tab + e.1, f, '\t');
    lemma_split_join(e.0 + tab + e.1 + tab + f, t, '\t');
    let parts = split(body, '\t');
    assert(parts =~= seq![e.0, e.1, f, t]);
    lemma_parse_dec(e.2 as nat, u32::MAX as nat);
    lemma_parse_dec(e.3 as nat, u64::MAX as nat);
    assert(entry_line(e) =~= body + seq!['\n']);
}

/// An empty line holds no entry.
proof fn lemma_empty_line()
    ensures
        parse_line(Seq::<char>::empty()) is None,
{
    assert(trim_start(Seq::<char>::empty()) == Seq::<char>::empty());
    assert(trim_end(Seq::<char>::empty()) == Seq::<char>::empty());
}

/// Appending a storable entry's line to text ending in a newline appends
/// the entry to what the text holds.
proof fn lemma_append_line(p: Seq<char>, e: Learned)
    requires
        p.len() > 0,
        p.last() == '\n',
        storable(e),
    ensures
        parse_tsv(p + entry_line(e)) == parse_tsv(p).push(e),
        (p + entry_line(e)).len() > 0,
        (p + entry_line(e)).last() == '\n',
{
    lemma_line_parses(e);
    let body = line_body(e);
    let q = p + entry_line(e);
    assert(q =~= (p + body) + seq!['\n']);
    assert(q.drop_last() =~= p + body);
    lemma_split_after_sep(p, body, '\n');
    let base = split(p.drop_last(), '\n');
    lemma_split_len(p.drop_last(), '\n');
    assert(split(q, '\n') == split(p + body, '\n').push(Seq::<char>::empty()));
    assert(split(p, '\n') == base.push(Seq::<char>::empty()));
    lemma_empty_line();
    let l1 = base.push(body);
    let l2 = l1.push(Seq::<char>::empty());
    assert(l2.drop_last() == l1);
    assert(l1.drop_last() == base);
    assert(parsed_lines(l2) == parsed_lines(l1));
    assert(parsed_lines(l1) == parsed_lines(base).push(e));
    let l3 = base.push(Seq::<char>::empty());
    assert(l3.drop_last() == base);
    assert(parsed_lines(l3) == parsed_lines(base));
}

/// The header holds no entry.
proof fn lemma_header_holds_nothing()
    ensures
        parse_tsv(tsv_header()) == Seq::<Learned>::empty(),
        tsv_header().len() > 0,
        tsv_header().last() == '\n',
{
    reveal_strlit("# karukan learning cache v1\n");
    let h = tsv_header();
    let h0 = h.drop_last();
    assert(free_of(h0, '\n'));
    lemma_split_single(h0, '\n');
    assert(h0.push(h.last()) =~= h);
    assert(split(h, '\n') == split(h0, '\n').push(Seq::<char>::empty()));
    assert(!is_whitespace(h0[0]));
    assert(!is_whitespace(h0.last()));
    assert(trim_start(h0) == h0);
    assert(trim_end(h0) == h0);
    assert(parse_line(h0) is None);
    lemma_empty_line();
    let l = seq![h0].push(Seq::<char>::empty());
    assert(l.drop_last() =~= seq![h0]);
    assert(seq![h0].drop_last() =~= Seq::<Seq<char>>::empty());
    assert(seq![h0].last() == h0);
    assert(parsed_lines(Seq::<Seq<char>>::empty()) == Seq::<Learned>::empty());
    assert(parsed_lines(seq![h0]) == Seq::<Learned>::empty());
}

/// The lines of the entries under `r`, appended to text ending in a
/// newline, append those entries to what it holds.
proof fn lemma_append_lines(p: Seq<char>, v: Seq<Learned>, r: Seq<char>)
    requires
        p.len() > 0,
        p.last() == '\n',
        forall|i: int| 0 <= i < v.len() ==> storable(#[trigger] v[i]),
    ensures
        parse_tsv(p + lines_under(v, r)) == parse_tsv(p) + looked_up(v, r),
        (p + lines_under(v, r)).len() > 0,
        (p + lines_under(v, r)).last() == '\n',
    decreases v.len(),
{
    if v.len() == 0 {
        assert(p + lines_under(v, r) =~= p);
        assert(parse_tsv(p) + looked_up(v, r) =~= parse_tsv(p));
    } else {
        let v0 = v.drop_last();
        assert forall|i: int| 0 <= i < v0.len() implies storable(#[trigger] v0[i]) by {
            assert(v0[i] == v[i]);
        }
        lemma_append_lines(p, v0, r);
        let a = lines_under(v0, r);
        if v.last().0 == r {
            assert(storable(v[v.len() - 1]));
            lemma_append_line(p + a, v.last());
            assert(p + lines_under(v, r) =~= (p + a) + entry_line(v.last()));
            assert(looked_up(v, r) == looked_up(v0, r).push(v.last()));
            assert(parse_tsv(p) + looked_up(v, r) =~= (parse_tsv(p) + looked_up(v0, r)).push(v.last()));
        } else {
            assert(p + lines_under(v, r) =~= p + a);
            assert(looked_up(v, r) == looked_up(v0, r));
        }
    }
}

/// What a save file holds: the entries of each reading of `rs` in turn.
proof fn lemma_grouped_parses(v: Seq<Learned>, rs: Seq<Seq<char>>)
    requires
        forall|i: int| 0 <= i < v.len() ==> storable(#[trigger] v[i]),
    ensures
        parse_tsv(tsv_header() + grouped(v, rs)) == regrouped(v, rs),
        (tsv_header() + grouped(v, rs)).len() > 0,
        (tsv_header() + grouped(v, rs)).last() == '\n',
    decreases rs.len(),
{
    lemma_header_holds_nothing();
    if rs.len() == 0 {
        assert(tsv_header() + grouped(v, rs) =~= tsv_header());
    } else {
        let r0 = rs.drop_last();
        lemma_grouped_parses(v, r0);
        let g = tsv_header() + grouped(v, r0);
        lemma_append_lines(g, v, rs.last());
        assert(tsv_header() + grouped(v, rs) =~= g + lines_under(v, rs.last()));
    }
}

/// `keep` distributes over concatenation.
proof fn lemma_keep_concat(a: Seq<Learned>, b: Seq<Learned>, pred: spec_fn(Learned) -> bool)
    ensures
        keep(a + b, pred) == keep(a, pred) + keep(b, pred),
    decreases b.len(),
{
    if b.len() == 0 {
        assert(a + b =~= a);
        assert(keep(a, pred) + keep(b, pred) =~= keep(a, pred));
    } else {
        let b0 = b.drop_last();
        lemma_keep_concat(a, b0, pred);
        assert((a + b).drop_last() =~= a + b0);
        assert((a + b).last() == b.last());
        if pred(b.last()) {
            assert(keep(a, pred) + keep(b, pred) =~= (keep(a, pred) + keep(b0, pred)).push(b.last()));
        }
    }
}

/// Looking `r` up among the entries under `q`: all of them when `q` is
/// `r`, none otherwise.
proof fn lemma_lookup_twice(v: Seq<Learned>, q: Seq<char>, r: Seq<char>)
    ensures
        looked_up(looked_up(v, q), r) == (if q == r { looked_up(v, r) } else { Seq::<Learned>::empty() }),
    decreases v.len(),
{
    if v.len() > 0 {
        let v0 = v.drop_last();
        lemma_lookup_twice(v0, q, r);
        if v.last().0 == q {
            let k = looked_up(v0, q);
            assert(looked_up(v, q) == k.push(v.last()));
            assert(k.push(v.last()).drop_last() == k);
            assert(k.push(v.last()).last() == v.last());
        }
    }
}

/// No entry of `v` is learned under a reading that is not one of them.
proof fn lemma_lookup_absent(v: Seq<Learned>, r: Seq<char>)
    requires
        forall|i: int| 0 <= i < v.len() ==> v[i].0 != r,
    ensures
        looked_up(v, r) == Seq::<Learned>::empty(),
    decreases v.len(),
{
    if v.len() > 0 {
        let v0 = v.drop_last();
        assert forall|i: int| 0 <= i < v0.len() implies v0[i].0 != r by {
            assert(v0[i] == v[i]);
        }
        lemma_lookup_absent(v0, r);
        assert(v.last() == v[v.len() - 1]);
    }
}

/// Looking `r` up in the regrouped entries finds the entries under `r`
/// once if `r` is among the distinct readings `rs`, and nothing otherwise.
proof fn lemma_regrouped_lookup(v: Seq<Learned>, rs: Seq<Seq<char>>, r: Seq<char>)
    requires
        strictly_sorted(rs),
    ensures
        looked_up(regrouped(v, rs), r) == (if has_text(rs, r) { looked_up(v, r) } else { Seq::<Learned>::empty() }),
    decreases rs.len(),
{
    if rs.len() > 0 {
        let r0 = rs.drop_last();
        assert(strictly_sorted(r0)) by {
            assert forall|i: int, j: int| 0 <= i < j < r0.len() implies lex_lt(#[trigger] r0[i], #[trigger] r0[j]) by {
                assert(r0[i] == rs[i] && r0[j] == rs[j]);
            }
        }
        lemma_regrouped_lookup(v, r0, r);
        lemma_keep_concat(regrouped(v, r0), looked_up(v, rs.last()), |e: Learned| under_reading(e, r));
        lemma_lookup_twice(v, rs.last(), r);
        if rs.last() == r {
            assert(has_text(rs, r)) by {
                assert(rs[rs.len() - 1] == r);
            }
            if has_text(r0, r) {
                let k = choose|k: int| 0 <= k < r0.len() && r0[k] == r;
                assert(lex_lt(rs[k], rs[rs.len() - 1]));
                lemma_lex_total(r, r);
            }
            assert(Seq::<Learned>::empty() + looked_up(v, r) =~= looked_up(v, r));
        } else {
            if has_text(rs, r) {
                let k = choose|k: int| 0 <= k < rs.len() && rs[k] == r;
                assert(k != rs.len() - 1);
                assert(r0[k] == r);
            }
            if has_text(r0, r) {
                let k = choose|k: int| 0 <= k < r0.len() && r0[k] == r;
                assert(rs[k] == r);
            }
            assert(looked_up(regrouped(v, r0), r) + Seq::<Learned>::empty() =~= looked_up(regrouped(v, r0), r));
        }
    }
}

/// What a save gives back: loading a saved cache yields, for every
/// reading, exactly the entries learned under it — the same surfaces,
/// counts and times, in the same order — when every entry is one a line can
/// carry. The file lists all entries, grouped by reading.
pub proof fn lemma_save_then_load(v: Seq<Learned>, rs: Seq<Seq<char>>, r: Seq<char>)
    requires
        sorted_readings(v, rs),
        forall|i: int| 0 <= i < v.len() ==> storable(#[trigger] v[i]),
    ensures
        parse_tsv(tsv_header() + grouped(v, rs)) == regrouped(v, rs),
        looked_up(parse_tsv(tsv_header() + grouped(v, rs)), r) == looked_up(v, r),
{
    lemma_grouped_parses(v, rs);
    lemma_regrouped_lookup(v, rs, r);
    if !has_text(rs, r) {
        assert forall|i: int| 0 <= i < v.len() implies v[i].0 != r by {
            if v[i].0 == r {
                assert(exists|j: int| 0 <= j < v.len() && (#[trigger] v[j]).0 == r);
            }
        }
        lemma_lookup_absent(v, r);
    }
}

/// A cache saved with [`LearningCache::to_tsv`] and loaded with
/// [`LearningCache::from_tsv`] answers every exact lookup as the saved one
/// did, when every entry is one a line can carry.
pub proof fn lemma_cache_reloads(saved: LearningCache, content: Seq<char>, loaded: LearningCache, r: Seq<char>)
    requires
        exists|rs: Seq<Seq<char>>| sorted_readings(saved.entries(), rs) && content == tsv_header() + grouped(saved.entries(), rs),
        loaded.entries() == parse_tsv(content),
        forall|i: int| 0 <= i < saved.entries().len() ==> storable(#[trigger] saved.entries()[i]),
    ensures
        looked_up(loaded.entries(), r) == looked_up(saved.entries(), r),
{
    let rs = choose|rs: Seq<Seq<char>>| sorted_readings(saved.entries(), rs) && content == tsv_header() + grouped(
        saved.entries(),
        rs,
    );
    lemma_save_then_load(saved.entries(), rs, r);
}

} // verus!
