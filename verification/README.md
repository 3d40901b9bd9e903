# karukan

The logic of the Karukan Japanese input method as a Verus library: every
function in `src/` carries a contract that Verus proves.

## Layout

- `src/` — the verified library
  - `rules.rs`, `converter.rs`: the romaji rule table and the stateless
    romaji-to-hiragana converter. `convert_spec` states the conversion as a
    fold over the keystrokes; `lemma_ascii_passes_through` proves that ASCII
    in the output is only ever typed input.
  - `style.rs`, `width.rs`: which symbol the `,` `.` `[` `]` `/` keys type,
    and the width typed text settles at.
  - `learning.rs`, `tsv.rs`: the learning cache (record, lookups, predictions,
    removal, eviction by a given ranking) and its TSV save format, with the
    laws that a record is found again, that a removal is final, and that a
    saved cache reloads to the same lookups (`lemma_save_then_load`).
  - `keys.rs`, `input_buffer.rs`, `candidate.rs`, `preedit.rs`, `state.rs`,
    `engine_types.rs`, `engine.rs`: key events, the composition, candidate
    lists and the engine state machine. `key_effect` states what every key
    does in every state; `process_key` is proved against it, and the laws at
    the end of `engine.rs` state the round trips of the temporary modes and
    that a focus-out commit equals Enter.
  - `settings.rs`: the settings the engine reads and their shipped values.
- `app/` — what stays outside the proofs: reading and writing
  `config.toml` and the learning file, and the floating-point score that
  ranks learned entries for lookups and eviction.
- `tests/` — tests on concrete values, run against the compiled library.

The engine here composes with the romaji rules, the learning cache and the
kana fallbacks. It edits the composition at a caret (arrows, Home, End,
Delete and the Emacs chords), splits a conversion into segments with
Shift+Left/Right and moves between them, and narrows the window to one
source with Ctrl+T / Ctrl+R / Ctrl+I; a list offers at most three learned
candidates, in the order the cache holds them, while the learning view shows
every learned entry for the reading. The conversion model, the dictionaries
and the emoji and symbol rewriters are not part of this library: their
views are empty, and the emoji picker commits the typed query.
