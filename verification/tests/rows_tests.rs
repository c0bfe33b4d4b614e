use nzbdav::models::{DownloadStatus, ItemSubType, ItemType};
use nzbdav::rows::{
    dav_item_from_row, exclusion_placeholders, history_item_from_row, next_queue_item_sql,
    queue_item_from_row, DavItemRow, HistoryItemRow, QueueItemRow, RowError,
};
use nzbdav::seed::{readme_item, readme_seeds, root_item, seed_directories, seed_plan, SEED_NAMESPACE};

const ID: &str = "01234567-89ab-cdef-0123-456789abcdef";
const ID_VALUE: u128 = 0x0123_4567_89ab_cdef_0123_4567_89ab_cdef;

fn dav_row() -> DavItemRow {
    DavItemRow {
        id: ID.to_string(),
        id_prefix: "m".to_string(),
        created_at: "2023-11-14 22:13:20".to_string(),
        parent_id: None,
        name: "movie.mkv".to_string(),
        file_size: Some(42),
        item_type: 2,
        sub_type: 201,
        path: "/content/movie.mkv".to_string(),
        release_date: Some("2023-11-14T22:13:20+00:00".to_string()),
        last_health_check: None,
        next_health_check: None,
        history_item_id: None,
        file_blob_id: Some(ID.to_string()),
        nzb_blob_id: None,
    }
}

#[test]
fn dav_rows_read_back() {
    let item = dav_item_from_row(dav_row()).unwrap();
    assert_eq!(item.id, ID_VALUE);
    assert_eq!(item.created_at, 1_700_000_000);
    assert_eq!(item.item_type, ItemType::UsenetFile);
    assert_eq!(item.sub_type, ItemSubType::NzbFile);
    assert_eq!(item.release_date, Some(1_700_000_000));
    assert_eq!(item.file_blob_id, Some(ID_VALUE));
    assert_eq!(item.path, "/content/movie.mkv");
}

#[test]
fn bad_columns_are_reported_in_table_order() {
    let mut r = dav_row();
    r.id = "nope".to_string();
    r.created_at = "yesterday".to_string();
    assert_eq!(dav_item_from_row(r).unwrap_err(), RowError::BadId);
    let mut r = dav_row();
    r.created_at = "yesterday".to_string();
    assert_eq!(dav_item_from_row(r).unwrap_err(), RowError::BadTime);
    let mut r = dav_row();
    r.item_type = 9;
    assert!(matches!(dav_item_from_row(r).unwrap_err(), RowError::BadCode(_)));
    let mut r = dav_row();
    r.nzb_blob_id = Some("x".to_string());
    assert_eq!(dav_item_from_row(r).unwrap_err(), RowError::BadId);
}

#[test]
fn queue_and_history_rows() {
    let q = queue_item_from_row(QueueItemRow {
        id: ID.to_string(),
        created_at: "1970-01-01 00:01:00".to_string(),
        file_name: "a.nzb".to_string(),
        job_name: "a".to_string(),
        nzb_file_size: 1,
        total_segment_bytes: 2,
        category: "tv".to_string(),
        priority: 3,
        post_processing: -1,
        pause_until: Some("1970-01-01 00:02:00".to_string()),
    })
    .unwrap();
    assert_eq!(q.created_at, 60);
    assert_eq!(q.pause_until, Some(120));
    assert_eq!(q.priority, 3);
    let h = history_item_from_row(HistoryItemRow {
        id: ID.to_string(),
        created_at: "1970-01-01 00:00:01".to_string(),
        file_name: "a.nzb".to_string(),
        job_name: "a".to_string(),
        category: "tv".to_string(),
        download_status: 2,
        total_segment_bytes: 5,
        download_time_seconds: 0,
        fail_message: Some("x".to_string()),
        download_dir_id: None,
        nzb_blob_id: Some(ID.to_string()),
    })
    .unwrap();
    assert_eq!(h.download_status, DownloadStatus::Failed);
    assert_eq!(h.nzb_blob_id, Some(ID_VALUE));
}

#[test]
fn next_item_queries() {
    assert_eq!(exclusion_placeholders(0), "");
    assert_eq!(exclusion_placeholders(3), "?1, ?2, ?3");
    assert_eq!(
        next_queue_item_sql(0),
        "SELECT id, created_at, file_name, job_name, nzb_file_size, total_segment_bytes, category, priority, post_processing, pause_until FROM queue_items WHERE pause_until IS NULL OR pause_until <= datetime('now') ORDER BY priority DESC, created_at ASC LIMIT 1"
    );
    assert!(next_queue_item_sql(2).contains("AND id NOT IN (?1, ?2) ORDER BY priority DESC"));
}

#[test]
fn fixed_tree() {
    let dirs = seed_directories(7);
    assert_eq!(dirs.len(), 5);
    assert_eq!(dirs[0].path, "/");
    assert_eq!(dirs[0].id_prefix, "_");
    let expected = uuid::Uuid::new_v5(&uuid::Uuid::from_u128(SEED_NAMESPACE), b"/").as_u128();
    assert_eq!(dirs[0].id, expected);
    assert_eq!(dirs[4].name, ".ids");
    assert_eq!(dirs[4].parent_id, Some(dirs[0].id));
    assert_eq!(dirs[2].sub_type, ItemSubType::ContentRoot);
    let again = root_item("nzbs", "/nzbs/", ItemSubType::NzbsRoot, None, 0);
    assert_eq!(again.id, dirs[1].id);
    let seeds = readme_seeds();
    assert_eq!(seeds.len(), 3);
    let (item, blob) = readme_item(&seeds[1], dirs[1].id, 7);
    assert_eq!(item.path, "/nzbs/README.txt");
    assert_eq!(item.name, "README.txt");
    assert_eq!(item.id_prefix, "R");
    assert_eq!(item.nzb_blob_id, Some(blob));
    assert_eq!(item.file_size, Some(seeds[1].content.len() as i64));
    assert!(seeds[1].content.starts_with("About /nzbs\n\n"));
}

#[test]
fn seeding_writes_nothing_once_the_root_exists() {
    let first = seed_plan(false, 7);
    assert_eq!(first.directories.len(), 5);
    assert_eq!(first.directories[0].path, "/");
    assert_eq!(first.readmes.len(), 3);
    let again = seed_plan(true, 8);
    assert!(again.directories.is_empty());
    assert!(again.readmes.is_empty());
}
