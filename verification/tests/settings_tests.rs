use karukan::engine_types::EngineConfig;
use karukan::settings::{DatePhrase, Settings, SpaceStyle};
use karukan::{BracketStyle, PunctuationStyle, SlashStyle, Width};

#[test]
fn test_default_settings() {
    let settings = Settings::default();
    assert_eq!(settings.conversion.num_candidates, 9);
    assert!(settings.conversion.use_context);
    assert_eq!(settings.conversion.context_chars, 10);
    assert!(settings.learning.enabled);
    assert_eq!(settings.learning.max_entries, 10000);
    assert_eq!(settings.learning.max_surface_chars, 50);
    assert_eq!(settings.conversion.predict_extra_chars, 0);
}

#[test]
fn test_default_symbol_and_width_settings() {
    let settings = Settings::default();
    assert_eq!(settings.symbol.punctuation, PunctuationStyle::KutenTouten);
    assert_eq!(settings.symbol.bracket, BracketStyle::Corner);
    assert_eq!(settings.symbol.slash, SlashStyle::MiddleDot);
    assert_eq!(settings.symbol.space, SpaceStyle::Half);
    assert_eq!(settings.width.kana_symbol, Width::Full);
    assert_eq!(settings.width.ascii_symbol, Width::Full);
    assert_eq!(settings.width.digit, Width::Half);
}

#[test]
fn default_models_are_named_in_the_conversion_section() {
    let settings = Settings::default();
    assert_eq!(settings.conversion.model, "jinen-v2-small-q5");
    assert_eq!(settings.conversion.light_model, "jinen-v2-xsmall-q5");
    assert!(settings.conversion.live_conversion);
}

#[test]
fn engine_config_takes_the_context_length_only_when_context_is_used() {
    let mut settings = Settings::default();
    let config = EngineConfig::from_settings(&settings);
    assert_eq!(config.context_chars, 10);
    assert_eq!(config.num_candidates, 9);
    assert_eq!(config.display_context_chars, 10);

    settings.conversion.use_context = false;
    let config = EngineConfig::from_settings(&settings);
    assert_eq!(config.context_chars, 0);
}

#[test]
fn engine_config_default_values() {
    let config = EngineConfig::default();
    assert_eq!(config.num_candidates, 3);
    assert_eq!(config.predict_extra_chars, 4);
    assert_eq!(config.context_chars, 10);
    assert!(!config.live_conversion);
    assert_eq!(config.space, SpaceStyle::Half);
}

#[test]
fn engine_config_carries_the_date_section() {
    let mut settings = Settings::default();
    settings.date.formats.push("{YEAR}/{MONTH}/{DAY}".to_string());
    settings.date.phrases.push(DatePhrase {
        reading: "らいしゅう".to_string(),
        offset_days: 7,
        formats: None,
    });
    settings.date.phrases.push(DatePhrase {
        reading: "きょう".to_string(),
        offset_days: 0,
        formats: Some(vec!["{YEAR}年".to_string()]),
    });
    let config = EngineConfig::from_settings(&settings);
    assert_eq!(config.date.formats, vec!["{YEAR}/{MONTH}/{DAY}".to_string()]);
    assert_eq!(config.date.phrases.len(), 2);
    assert_eq!(config.date.phrases[0].reading, "らいしゅう");
    assert_eq!(config.date.phrases[0].offset_days, 7);
    assert!(config.date.phrases[0].formats.is_none());
    assert_eq!(config.date.phrases[1].formats.as_deref(), Some(["{YEAR}年".to_string()].as_slice()));
}
