use nzbdav::health::{
    articles_to_check, backoff_hours, blob_decode_error, blob_layout, blob_read_error,
    check_blob_id, check_record, consecutive_healthy_count, health_outcome, health_record,
    multipart_segment_ids, ArticleBudget, BlobLayout, HealthCheckOutcome, MAX_ARTICLES_PER_CYCLE,
};
use nzbdav::models::{
    DavItem, DavMultipartFile, FilePart, HealthResult, ItemSubType, ItemType, LongRange,
    RepairStatus,
};

fn ids(n: usize) -> Vec<String> {
    (0..n).map(|i| format!("seg{i}@x")).collect()
}

fn file_item(blob: Option<u128>) -> DavItem {
    DavItem {
        id: 9,
        id_prefix: "m".to_string(),
        created_at: 0,
        parent_id: None,
        name: "movie.mkv".to_string(),
        file_size: Some(10),
        item_type: ItemType::UsenetFile,
        sub_type: ItemSubType::NzbFile,
        path: "/content/movie.mkv".to_string(),
        release_date: None,
        last_health_check: None,
        next_health_check: None,
        history_item_id: None,
        file_blob_id: blob,
        nzb_blob_id: None,
    }
}

#[test]
fn at_most_the_cycle_limit_is_checked() {
    assert_eq!(articles_to_check(&ids(3), 500).len(), 3);
    let first = articles_to_check(&ids(600), 500);
    assert_eq!(first.len(), 500);
    assert_eq!(first[499], "seg499@x");
}

#[test]
fn outcomes_of_stat_answers() {
    assert!(matches!(health_outcome(0, &[]), HealthCheckOutcome::Healthy));
    let all_ok = vec![("a".to_string(), Ok(true)), ("b".to_string(), Ok(true))];
    assert!(matches!(health_outcome(2, &all_ok), HealthCheckOutcome::Healthy));
    let some_missing = vec![
        ("a".to_string(), Ok(false)),
        ("b".to_string(), Ok(true)),
        ("c".to_string(), Ok(false)),
    ];
    match health_outcome(700, &some_missing) {
        HealthCheckOutcome::Unhealthy { missing_articles, total_articles } => {
            assert_eq!(missing_articles, 2);
            assert_eq!(total_articles, 700);
        }
        other => panic!("unexpected {other:?}"),
    }
    let failing = vec![
        ("a".to_string(), Ok(false)),
        ("b".to_string(), Err("timeout".to_string())),
        ("c".to_string(), Err("later".to_string())),
    ];
    match health_outcome(3, &failing) {
        HealthCheckOutcome::Error(m) => assert_eq!(m, "STAT failed for b: timeout"),
        other => panic!("unexpected {other:?}"),
    }
}

#[test]
fn records_and_backoff() {
    let (v, m) = health_record(&HealthCheckOutcome::Unhealthy { missing_articles: 3, total_articles: 40 });
    assert_eq!(v, HealthResult::Unhealthy);
    assert_eq!(m, "3/40 articles missing");
    let (v, m) = health_record(&HealthCheckOutcome::Healthy);
    assert_eq!(v, HealthResult::Healthy);
    assert_eq!(m, "All articles available");
    let (v, m) = health_record(&HealthCheckOutcome::Error("x".to_string()));
    assert_eq!(v, HealthResult::Unhealthy);
    assert_eq!(m, "x");
    assert_eq!(consecutive_healthy_count(&HealthCheckOutcome::Healthy), 1);
    assert_eq!(consecutive_healthy_count(&HealthCheckOutcome::Error(String::new())), 0);
    assert_eq!(backoff_hours(0), 24);
    assert_eq!(backoff_hours(1), 48);
    assert_eq!(backoff_hours(3), 192);
    assert_eq!(backoff_hours(4), 384);
    assert_eq!(backoff_hours(40), 384);
}

#[test]
fn healthy_items_wait_two_days() {
    let item = file_item(Some(5));
    let r = check_record(&item, &HealthCheckOutcome::Healthy, 77, 1000);
    assert_eq!(r.last_check, 1000);
    assert_eq!(r.next_check, 1000 + 48 * 3600);
    assert_eq!(r.result.id, 77);
    assert_eq!(r.result.dav_item_id, 9);
    assert_eq!(r.result.path, "/content/movie.mkv");
    assert_eq!(r.result.repair_status, RepairStatus::NoRepair);
    let u = check_record(&item, &HealthCheckOutcome::Error("e".to_string()), 78, 1000);
    assert_eq!(u.next_check, 1000 + 24 * 3600);
    assert_eq!(u.result.result, HealthResult::Unhealthy);
}

#[test]
fn blobs_of_checked_items() {
    assert_eq!(check_blob_id(&file_item(Some(5))).unwrap(), 5);
    assert_eq!(check_blob_id(&file_item(None)).unwrap_err(), "item has no file_blob_id");
    assert_eq!(blob_layout(ItemSubType::NzbFile).unwrap(), BlobLayout::Nzb);
    assert_eq!(blob_layout(ItemSubType::RarFile).unwrap(), BlobLayout::Nzb);
    assert_eq!(blob_layout(ItemSubType::MultipartFile).unwrap(), BlobLayout::Multipart);
    assert_eq!(
        blob_layout(ItemSubType::ReadmeFile).unwrap_err(),
        "unsupported sub_type for health check: ReadmeFile"
    );
    assert_eq!(
        blob_read_error(0x0123_4567_89ab_cdef_0123_4567_89ab_cdef, "gone"),
        "failed to read blob 01234567-89ab-cdef-0123-456789abcdef: gone"
    );
    assert_eq!(
        blob_decode_error(ItemSubType::RarFile, "eof"),
        "failed to deserialize RarFile blob: eof"
    );
}

#[test]
fn multipart_segments_are_flattened_in_order() {
    let part = |v: &[&str]| FilePart {
        segment_ids: v.iter().map(|s| s.to_string()).collect(),
        segment_id_byte_range: LongRange { start: 0, end: 1 },
        file_part_byte_range: LongRange { start: 0, end: 1 },
    };
    let f = DavMultipartFile { aes_params: None, file_parts: vec![part(&["a", "b"]), part(&[]), part(&["c"])] };
    assert_eq!(multipart_segment_ids(&f), vec!["a", "b", "c"]);
}

#[test]
fn cycle_budget_grants_at_most_its_limit() {
    let mut budget = ArticleBudget::per_cycle();
    assert_eq!(budget.remaining(), MAX_ARTICLES_PER_CYCLE);
    assert_eq!(budget.take(300), 300);
    assert_eq!(budget.remaining(), 200);
    assert_eq!(budget.take(300), 200);
    assert_eq!(budget.remaining(), 0);
    assert_eq!(budget.take(5), 0);
    let mut total = 0;
    let mut budget = ArticleBudget::per_cycle();
    for _ in 0..100 {
        let granted = budget.take(120);
        total += articles_to_check(&ids(120), granted).len();
    }
    assert_eq!(total, 500);
}
