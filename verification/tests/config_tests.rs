use nzbdav::config::ConfigManager;
use nzbdav::settings::SettingsResponse;

#[test]
fn test_new_default_values() {
    let cfg = ConfigManager::new();
    assert_eq!(cfg.get_max_download_connections(), 15);
    assert_eq!(cfg.get_article_buffer_size(), 40);
    assert!(cfg.get_categories().is_empty());
    assert_eq!(cfg.get_duplicate_nzb_behavior(), "increment");
    assert_eq!(cfg.get_import_strategy(), "symlinks");
    assert!(cfg.get_file_blocklist().is_empty());
    assert!(cfg.is_ensure_importable_video_enabled());
    assert!(cfg.get_ensure_article_existence_categories().is_empty());
    assert_eq!(cfg.get_max_concurrent_queue(), 2);
}

#[test]
fn test_set_and_get() {
    let mut cfg = ConfigManager::new();

    cfg.set("usenet.max-download-connections", "25");
    assert_eq!(cfg.get("usenet.max-download-connections").unwrap(), "25");
    assert_eq!(cfg.get_max_download_connections(), 25);

    // Overwrite
    cfg.set("usenet.max-download-connections", "30");
    assert_eq!(cfg.get_max_download_connections(), 30);
}

#[test]
fn test_load_from_db() {
    let rows = vec![
        ("usenet.max-download-connections".to_string(), "42".to_string()),
        ("api.import-strategy".to_string(), "copy".to_string()),
    ];

    let mut cfg = ConfigManager::new();
    cfg.load_from_db(rows);

    assert_eq!(cfg.get_max_download_connections(), 42);
    assert_eq!(cfg.get_import_strategy(), "copy");
}

#[test]
fn test_get_categories_parsing() {
    let mut cfg = ConfigManager::new();

    cfg.set("api.categories", "tv,movies, music");
    let cats = cfg.get_categories();
    assert_eq!(cats, vec!["tv", "movies", "music"]);
}

#[test]
fn unreadable_numbers_fall_back_to_defaults() {
    let mut cfg = ConfigManager::new();
    cfg.set("usenet.article-buffer-size", "lots");
    cfg.set("queue.max-concurrent", "-1");
    assert_eq!(cfg.get_article_buffer_size(), 40);
    assert_eq!(cfg.get_max_concurrent_queue(), 2);
    cfg.set("queue.max-concurrent", "+7");
    assert_eq!(cfg.get_max_concurrent_queue(), 7);
}

#[test]
fn lists_drop_empty_pieces_and_lowercase_where_asked() {
    let mut cfg = ConfigManager::new();
    cfg.set("api.download-file-blocklist", " *.nfo ,, *.exe,");
    assert_eq!(cfg.get_file_blocklist(), vec!["*.nfo", "*.exe"]);
    cfg.set("api.ensure-article-existence-categories", "TV, Movies ,");
    assert_eq!(cfg.get_ensure_article_existence_categories(), vec!["tv", "movies"]);
}

#[test]
fn flag_is_on_only_for_true() {
    let mut cfg = ConfigManager::new();
    cfg.set("api.ensure-importable-video", "false");
    assert!(!cfg.is_ensure_importable_video_enabled());
    cfg.set("api.ensure-importable-video", "TRUE");
    assert!(!cfg.is_ensure_importable_video_enabled());
    cfg.set("api.ensure-importable-video", "true");
    assert!(cfg.is_ensure_importable_video_enabled());
}

#[test]
fn later_rows_win_and_other_keys_stay() {
    let mut cfg = ConfigManager::new();
    cfg.load_from_db(vec![
        ("a".to_string(), "1".to_string()),
        ("b".to_string(), "2".to_string()),
        ("a".to_string(), "3".to_string()),
    ]);
    assert_eq!(cfg.get("a").as_deref(), Some("3"));
    cfg.set("a", "4");
    assert_eq!(cfg.get("a").as_deref(), Some("4"));
    assert_eq!(cfg.get("b").as_deref(), Some("2"));
    assert_eq!(cfg.get("c"), None);
    assert_eq!(cfg.get_or_default("c", "dflt"), "dflt");
}

#[test]
fn test_get_settings_defaults() {
    let cfg = ConfigManager::new();
    let s = SettingsResponse::from_config(&cfg);
    assert_eq!(s.categories, "");
    assert!(s.ensure_importable_video);
    assert_eq!(s.duplicate_nzb_behavior, "increment");
    assert_eq!(s.import_strategy, "symlinks");
    assert!(!s.webdav_enforce_readonly);
    assert_eq!(s.max_concurrent_queue, 2);
}

#[test]
fn test_update_settings() {
    let mut cfg = ConfigManager::new();
    let update = SettingsResponse {
        categories: "tv, movies".to_string(),
        file_blocklist: "*.nfo".to_string(),
        ensure_importable_video: false,
        duplicate_nzb_behavior: "reject".to_string(),
        import_strategy: "copy".to_string(),
        webdav_enforce_readonly: true,
        strm_base_url: "http://example.com/dav".to_string(),
        max_concurrent_queue: 4,
    };
    update.apply_to(&mut cfg);
    let s = SettingsResponse::from_config(&cfg);
    assert_eq!(s.categories, "tv, movies");
    assert!(!s.ensure_importable_video);
    assert_eq!(s.duplicate_nzb_behavior, "reject");
    assert!(s.webdav_enforce_readonly);
    assert_eq!(s.strm_base_url, "http://example.com/dav");
    assert_eq!(s.max_concurrent_queue, 4);
    assert_eq!(cfg.get("queue.max-concurrent").as_deref(), Some("4"));
    assert_eq!(cfg.get("api.ensure-importable-video").as_deref(), Some("false"));
}

#[test]
fn strm_base_url_persists_to_api_strm_base_url_key() {
    let mut cfg = ConfigManager::new();
    cfg.set("api.strm-base-url", "http://strm.test/dav");
    let s = SettingsResponse::from_config(&cfg);
    assert_eq!(s.strm_base_url, "http://strm.test/dav");
}

#[test]
fn settings_rows_are_written_in_order() {
    let s = SettingsResponse {
        categories: "a".to_string(),
        file_blocklist: "b".to_string(),
        ensure_importable_video: true,
        duplicate_nzb_behavior: "c".to_string(),
        import_strategy: "d".to_string(),
        webdav_enforce_readonly: false,
        strm_base_url: "e".to_string(),
        max_concurrent_queue: 12,
    };
    let pairs = s.to_config_pairs();
    let keys: Vec<&str> = pairs.iter().map(|p| p.0.as_str()).collect();
    assert_eq!(
        keys,
        vec![
            "api.categories",
            "api.download-file-blocklist",
            "api.ensure-importable-video",
            "api.duplicate-nzb-behavior",
            "api.import-strategy",
            "webdav.enforce-readonly",
            "api.strm-base-url",
            "queue.max-concurrent",
        ]
    );
    assert_eq!(pairs[2].1, "true");
    assert_eq!(pairs[5].1, "false");
    assert_eq!(pairs[7].1, "12");
}
