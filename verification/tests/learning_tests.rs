use karukan::learning::{LearningCache, LearningConfig};

fn config_with(max_entries: usize) -> LearningConfig {
    LearningConfig {
        max_entries,
        ..LearningConfig::default()
    }
}

fn cache_with(max_entries: usize) -> LearningCache {
    LearningCache::new(config_with(max_entries))
}

/// Surfaces learned under exactly `reading`, in stored order.
fn surfaces(cache: &LearningCache, reading: &str) -> Vec<String> {
    cache
        .lookup_entries(reading)
        .into_iter()
        .map(|(_, e)| e.surface)
        .collect()
}

/// What a save does to the cache: write the TSV, then clear the dirty flag.
fn save(cache: &mut LearningCache) -> String {
    let content = cache.to_tsv();
    cache.mark_saved();
    content
}

#[test]
fn test_record_and_lookup() {
    let mut cache = cache_with(100);

    cache.record("きょう", "今日");
    cache.record("きょう", "京");
    cache.record("きょう", "今日"); // frequency bump

    let results = surfaces(&cache, "きょう");
    assert_eq!(results.len(), 2);
    assert_eq!(results[0], "今日");
    assert_eq!(results[1], "京");
    assert_eq!(cache.lookup_entries("きょう")[0].1.frequency, 2);
}

#[test]
fn test_lookup_empty() {
    let cache = cache_with(100);
    let results = cache.lookup_entries("きょう");
    assert!(results.is_empty());
}

#[test]
fn test_prefix_lookup() {
    let mut cache = cache_with(100);
    cache.record("きょう", "今日");
    cache.record("きょうと", "京都");
    cache.record("あした", "明日");

    let results = cache.prefix_entries("きょう");
    assert_eq!(results.len(), 2);
    let readings: Vec<&str> = results.iter().map(|(r, _)| r.as_str()).collect();
    assert!(readings.contains(&"きょう"));
    assert!(readings.contains(&"きょうと"));
}

#[test]
fn test_prefix_lookup_no_match() {
    let mut cache = cache_with(100);
    cache.record("きょう", "今日");
    let results = cache.prefix_entries("あ");
    assert!(results.is_empty());
}

#[test]
fn test_save_and_load() {
    let mut cache = cache_with(100);
    cache.record("きょう", "今日");
    cache.record("きょう", "今日");
    cache.record("きょう", "京");
    cache.record("あした", "明日");

    let content = save(&mut cache);
    assert!(!cache.is_dirty());

    let loaded = LearningCache::from_tsv(&content, config_with(100));
    assert!(!loaded.is_dirty());
    assert_eq!(loaded.entry_count(), 3);

    let results = loaded.lookup_entries("きょう");
    assert_eq!(results.len(), 2);
    assert_eq!(results[0].1.surface, "今日");
    assert_eq!(results[0].1.frequency, 2);
}

#[test]
fn test_dirty_flag() {
    let mut cache = cache_with(100);
    assert!(!cache.is_dirty());

    cache.record("きょう", "今日");
    assert!(cache.is_dirty());

    save(&mut cache);
    assert!(!cache.is_dirty());
}

#[test]
fn test_tsv_format() {
    let mut cache = cache_with(100);
    cache.record("きょう", "今日");

    let content = save(&mut cache);
    assert!(content.starts_with("# karukan learning cache v1"));
    assert!(content.contains("きょう\t今日\t1\t"));
}

#[test]
fn test_tsv_comments_and_blanks_ignored() {
    let cache = LearningCache::from_tsv(
        "# comment\n\nきょう\t今日\t5\t1700000000\n# another comment\n",
        config_with(100),
    );
    assert_eq!(cache.entry_count(), 1);
    let results = surfaces(&cache, "きょう");
    assert_eq!(results.len(), 1);
    assert_eq!(results[0], "今日");
}

#[test]
fn test_remove_suggestion_last_surface_drops_reading() {
    let mut cache = cache_with(100);
    cache.record("きょう", "今日");

    assert!(cache.remove_suggestion("きょう", "今日"));
    assert_eq!(cache.entry_count(), 0);
    assert!(cache.lookup_entries("きょう").is_empty());
    assert!(cache.prefix_entries("き").is_empty());
}

#[test]
fn test_remove_suggestion_clears_exact_and_prefix_twins() {
    let mut cache = cache_with(100);
    cache.record("あい", "藍");
    cache.record("あいさ", "藍"); // same surface, longer reading (a twin)
    cache.record("あい", "愛"); // different surface under the same reading
    cache.record("うみ", "藍"); // same surface, unrelated reading

    save(&mut cache);
    assert!(!cache.is_dirty());

    assert!(cache.remove_suggestion("あい", "藍"));
    assert!(cache.is_dirty(), "removal must mark the cache dirty");

    assert!(surfaces(&cache, "あい").iter().all(|s| s != "藍"));
    assert!(cache.lookup_entries("あいさ").is_empty());
    assert!(surfaces(&cache, "あい").iter().any(|s| s == "愛"));
    assert!(surfaces(&cache, "うみ").iter().any(|s| s == "藍"));
}

#[test]
fn test_remove_suggestion_nonexistent_is_noop() {
    let mut cache = cache_with(100);
    cache.record("あい", "藍");

    save(&mut cache);

    assert!(!cache.remove_suggestion("あい", "愛"));
    assert!(!cache.remove_suggestion("かき", "柿"));
    assert!(!cache.is_dirty(), "no-op removal must not mark dirty");
}

#[test]
fn test_record_skips_long_surface() {
    let mut cache = LearningCache::new(LearningConfig {
        max_entries: 100,
        max_surface_chars: 5,
    });

    cache.record("あ", &"漢".repeat(6));
    assert_eq!(cache.entry_count(), 0);
    assert!(!cache.is_dirty());

    // Boundary: exactly max_surface_chars is accepted.
    cache.record("あ", &"漢".repeat(5));
    assert_eq!(cache.entry_count(), 1);
}

#[test]
fn test_record_ignores_reading_length() {
    let mut cache = LearningCache::new(LearningConfig {
        max_entries: 100,
        max_surface_chars: 5,
    });

    cache.record(&"あ".repeat(30), "短い");
    assert_eq!(cache.entry_count(), 1);
}

#[test]
fn test_default_max_surface_chars() {
    let mut cache = cache_with(100);

    cache.record(
        "よみ",
        &"あ".repeat(LearningConfig::DEFAULT_MAX_SURFACE_CHARS + 1),
    );
    assert_eq!(cache.entry_count(), 0);

    cache.record(
        "よみ",
        &"あ".repeat(LearningConfig::DEFAULT_MAX_SURFACE_CHARS),
    );
    assert_eq!(cache.entry_count(), 1);
}

#[test]
fn test_predict_extends_the_prefix_only() {
    let mut cache = cache_with(100);
    cache.record("きょう", "今日");
    cache.record("きょうと", "京都");

    let readings: Vec<String> = cache
        .predict_entries("きょう", 4)
        .into_iter()
        .map(|(reading, _)| reading)
        .collect();
    assert_eq!(readings, vec!["きょうと".to_string()]);
    assert_eq!(cache.lookup_entries("きょう").len(), 1);
}

#[test]
fn test_predict_holds_back_readings_far_past_the_typing() {
    let mut cache = cache_with(100);
    cache.record("きょうと", "京都");
    for _ in 0..3 {
        cache.record("きょうはかいぎです", "今日は会議です");
    }

    let predicted = |prefix: &str| -> Vec<String> {
        cache
            .predict_entries(prefix, 4)
            .into_iter()
            .map(|(_, e)| e.surface)
            .collect()
    };
    assert_eq!(predicted("きょ"), vec!["京都".to_string()]);
    assert_eq!(predicted("きょうはか"), vec!["今日は会議です".to_string()]);

    assert_eq!(cache.prefix_entries("きょ").len(), 2);
}

#[test]
fn test_predict_cap_is_inclusive_and_exact_lookup_ignores_it() {
    let mut cache = cache_with(100);
    cache.record("きょうと", "京都");
    cache.record("きょうとし", "京都市");

    let readings: Vec<String> = cache
        .predict_entries("き", 3)
        .into_iter()
        .map(|(reading, _)| reading)
        .collect();
    assert_eq!(readings, vec!["きょうと".to_string()]);

    assert_eq!(cache.lookup_entries("きょうとし").len(), 1);
}

#[test]
fn test_tsv_malformed_lines_skipped() {
    let cache = LearningCache::from_tsv(
        "きょう\t今日\t5\t1700000000\nmalformed_line\nきょう\t京\tbad\t1700000000\n",
        config_with(100),
    );
    assert_eq!(cache.entry_count(), 1);
}
