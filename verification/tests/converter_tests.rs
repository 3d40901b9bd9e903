use karukan::{BracketStyle, PunctuationStyle, RomajiConverter, SlashStyle, SymbolStyle, WidthRules};
fn conv(raw: &str) -> (String, String) {
    let c = RomajiConverter::new();
    let r = c.convert(raw);
    (r.text, r.pending)
}

#[test]
fn test_basic_conversion() {
    assert_eq!(conv("ka"), ("か".to_string(), "".to_string()));
}

#[test]
fn test_buffering() {
    assert_eq!(conv("k"), ("".to_string(), "k".to_string()));
}

#[test]
fn converter_test_sokuon() {
    assert_eq!(conv("kk"), ("っ".to_string(), "k".to_string()));
    assert_eq!(conv("kka"), ("っか".to_string(), "".to_string()));
}

#[test]
fn test_sokuon_after_rule_prefix_keeps_prefix() {
    // `ty` + `y`: the pair fires but the prefix must survive
    assert_eq!(conv("tyy"), ("tっ".to_string(), "y".to_string()));
    assert_eq!(conv("tyyu"), ("tっゆ".to_string(), "".to_string()));
    assert_eq!(conv("kyy"), ("kっ".to_string(), "y".to_string()));
    assert_eq!(conv("tss"), ("tっ".to_string(), "s".to_string()));
}

#[test]
fn test_n_context() {
    assert_eq!(conv("n"), ("".to_string(), "n".to_string()));
    assert_eq!(conv("na"), ("な".to_string(), "".to_string()));
}

#[test]
fn test_nn() {
    // "nn" converts immediately to ん
    assert_eq!(conv("nn"), ("ん".to_string(), "".to_string()));
    assert_eq!(conv("nni"), ("んい".to_string(), "".to_string()));
    assert_eq!(conv("nna"), ("んあ".to_string(), "".to_string()));
    assert_eq!(conv("nnk"), ("ん".to_string(), "k".to_string()));
}

#[test]
fn test_youon() {
    assert_eq!(conv("kya"), ("きゃ".to_string(), "".to_string()));
}

#[test]
fn test_flush() {
    let c = RomajiConverter::new();
    assert_eq!(c.flush_pending("k"), "k");
    assert_eq!(c.flush_pending("ltu"), "っ");
    assert_eq!(c.convert_flush("k"), "k");
    assert_eq!(c.convert_flush("kan"), "かん");
}

#[test]
fn rule_outputs_are_never_ascii() {
    // Callers tell passed-through keystrokes (ASCII) apart from rule
    // output by this property, so no rule may output an ASCII char.
    let c = RomajiConverter::new();
    let table = c.rule_table();
    assert!(table.len() > 0);
    for i in 0..table.len() {
        let output: String = table.output(i).iter().collect();
        assert!(
            output.chars().all(|ch| !ch.is_ascii()),
            "rule output contains ASCII: {output:?}"
        );
    }
}

#[test]
fn symbol_style_picks_the_output() {
    
    let c = RomajiConverter::with_rules(
        SymbolStyle {
            punctuation: PunctuationStyle::CommaPeriod,
            bracket: BracketStyle::Square,
            slash: SlashStyle::Slash,
        },
        WidthRules::default(),
    );
    assert_eq!(c.convert_flush("a,b.").as_str(), "あ，b．");
    assert_eq!(c.convert_flush("[a]").as_str(), "［あ］");
    assert_eq!(c.convert_flush("a/b").as_str(), "あ／b");
}

#[test]
fn test_flush_settles_a_stranded_n_as_hatsuon() {
    let c = RomajiConverter::new();
    // A trailing `n` has nothing left to pair with: it is ん.
    assert_eq!(c.convert_flush("karukan"), "かるかん");
    assert_eq!(c.flush_pending("n"), "ん");
    // Before a consonant that makes no rule with it, likewise.
    assert_eq!(c.convert_flush("kanp"), "かんp");
    assert_eq!(c.flush_pending("ny"), "んy");
    // A pairing `n` is untouched: な行 and the explicit spellings.
    assert_eq!(c.convert_flush("kani"), "かに");
    assert_eq!(c.convert_flush("kann"), "かん");
    assert_eq!(c.convert_flush("kan'"), "かん");
    // Other stranded consonants still pass through.
    assert_eq!(c.convert_flush("kak"), "かk");
}

#[test]
fn test_pending_expansions() {
    let c = RomajiConverter::new();

    let d = c.pending_expansions("d");
    for kana in ["だ", "ぢ", "づ", "で", "ど", "ぢゃ"] {
        assert!(d.iter().any(|s| s == kana), "missing {kana}");
    }
    assert!(!d.iter().any(|s| s == "か"));

    // ん is reachable from a lone n via nn / n'
    assert!(c.pending_expansions("n").iter().any(|s| s == "ん"));

    let ky = c.pending_expansions("ky");
    assert!(ky.iter().any(|s| s == "きょ"));
    assert!(!ky.iter().any(|s| s == "か"));

    assert!(c.pending_expansions("").is_empty());
    assert!(c.pending_expansions("yk").is_empty());
}

#[test]
fn test_starts_rule() {
    let c = RomajiConverter::new();
    assert!(c.starts_rule('k'));
    assert!(c.starts_rule('y'));
    assert!(c.starts_rule('n'));
    assert!(!c.starts_rule('1'));
    assert!(!c.starts_rule('こ'));
}

#[test]
fn test_full_sentence() {
    // IME style: "nn" is always ん, so こんにちは requires 3 n's: "konnnichiha"
    // (ko -> こ, nn -> ん, ni -> に, chi -> ち, ha -> は)
    assert_eq!(conv("konnnichiha").0, "こんにちは");
}

#[test]
fn test_punctuation_passthrough() {
    assert_eq!(
        conv("kokohadoko?watashihadare?"),
        ("ここはどこ？わたしはだれ？".to_string(), "".to_string())
    );
}

#[test]
fn test_mixed_punctuation() {
    // 'c' stays pending because it could start 'ca', 'chi', etc.
    assert_eq!(conv("a!b?c"), ("あ！b？".to_string(), "c".to_string()));
    let c = RomajiConverter::new();
    assert_eq!(c.convert_flush("a!b?c"), "あ！b？c");
}

#[test]
fn test_watashiha() {
    assert_eq!(
        conv("kokohadoko?watashiha?"),
        ("ここはどこ？わたしは？".to_string(), "".to_string())
    );
}

#[test]
fn test_punctuation_then_youon() {
    // 'c' must stay pending after '?' until 'ya' completes 'cya'
    assert_eq!(conv("a?b?cya"), ("あ？b？ちゃ".to_string(), "".to_string()));
}

#[test]
fn more_typing_only_extends_the_converted_text() {
    let raws = ["k", "ka", "kan", "kanj", "kanji", "kanjik", "kanjikk", "kanjikka"];
    for w in raws.windows(2) {
        let (a, _) = conv(w[0]);
        let (b, _) = conv(w[1]);
        assert!(b.starts_with(&a), "{a:?} then {b:?}");
    }
    assert_eq!(conv("kanjikka").0, "かんじっか");
}

#[test]
fn the_pending_tail_stays_short_and_completable() {
    let c = RomajiConverter::new();
    for raw in ["ky", "kk", "n", "tss", "x1"] {
        let r = c.convert(raw);
        assert!(r.pending.chars().count() <= raw.chars().count());
        if r.pending.chars().count() > 0 {
            let first = r.pending.chars().next().unwrap();
            assert!(c.starts_rule(first), "{raw:?} left {:?}", r.pending);
        }
    }
}
