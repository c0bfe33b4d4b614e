use nzbdav::blob::BlobStore;
use nzbdav::cli::Cli;
use nzbdav::error::{DavError, DavServerError};
use nzbdav::handler::{
    allowed_methods, content_length, content_range, dav_compliance, document_answer, decode_path,
    destination_path, get_plan, lists_children, range_plan, range_source, refusal,
    unsatisfiable_content_range, BlobMeta, GetPlan, RangePlan, RangeSource,
};
use nzbdav::health::BlobLayout;
use nzbdav::models::{DavItem, ItemSubType, ItemType, QueueItem};
use nzbdav::store::{
    body_blob_id, body_decode_error, body_layout, children_dir_path, collection_exists_error,
    copied_item, destination_parent, find_queue_item, id_prefix_of, lists_queue_items,
    mkcol_plan, new_collection_item, new_nzb_item, parent_for_new_item, path_not_found_error,
    virtual_nzb_name, with_trailing_slash, DavNode,
};

fn item(item_type: ItemType, sub_type: ItemSubType, file_blob: Option<u128>, nzb_blob: Option<u128>) -> DavItem {
    DavItem {
        id: 1,
        id_prefix: "x".to_string(),
        created_at: 0,
        parent_id: None,
        name: "x.mkv".to_string(),
        file_size: Some(100),
        item_type,
        sub_type,
        path: "/content/x.mkv".to_string(),
        release_date: Some(5),
        last_health_check: None,
        next_health_check: None,
        history_item_id: Some(4),
        file_blob_id: file_blob,
        nzb_blob_id: nzb_blob,
    }
}

fn queued(name: &str) -> QueueItem {
    QueueItem {
        id: 2,
        created_at: 0,
        file_name: name.to_string(),
        job_name: "j".to_string(),
        nzb_file_size: 1,
        total_segment_bytes: 1,
        category: String::new(),
        priority: 0,
        post_processing: -1,
        pause_until: None,
    }
}

#[test]
fn options_headers() {
    assert_eq!(allowed_methods(), "OPTIONS, GET, HEAD, PUT, DELETE, PROPFIND, MKCOL, MOVE, COPY");
    assert_eq!(dav_compliance(), "1, 2");
}

#[test]
fn propfind_depth() {
    assert!(lists_children(None));
    assert!(lists_children(Some("1")));
    assert!(lists_children(Some("infinity")));
    assert!(!lists_children(Some("0")));
}

#[test]
fn paths_are_percent_decoded() {
    assert_eq!(decode_path("/content/My%20Show/ep%C3%A9.mkv"), "/content/My Show/epé.mkv");
    assert_eq!(destination_path(None), None);
    assert_eq!(
        destination_path(Some("http://host/dav/new%20name.mkv")).as_deref(),
        Some("/dav/new name.mkv")
    );
    assert_eq!(destination_path(Some("/content/b.mkv")).as_deref(), Some("/content/b.mkv"));
}

#[test]
fn get_and_head_plans() {
    let dir = DavNode::from_item(item(ItemType::Directory, ItemSubType::Directory, None, None));
    assert_eq!(get_plan(&dir), GetPlan::Collection);
    assert_eq!(refusal(GetPlan::Collection, false), Some((405, "Cannot GET a collection")));
    assert_eq!(refusal(GetPlan::Collection, true), Some((405, "Cannot HEAD a collection")));
    let streamed = DavNode::from_item(item(ItemType::UsenetFile, ItemSubType::NzbFile, Some(3), Some(4)));
    assert_eq!(get_plan(&streamed), GetPlan::Stream);
    let nzb = DavNode::from_item(item(ItemType::UsenetFile, ItemSubType::NzbFile, None, Some(4)));
    assert_eq!(get_plan(&nzb), GetPlan::NzbDocument);
    let empty = DavNode::from_item(item(ItemType::UsenetFile, ItemSubType::NzbFile, None, None));
    assert_eq!(get_plan(&empty), GetPlan::NoContent);
    assert_eq!(refusal(GetPlan::NoContent, false), Some((404, "No content available")));
    assert_eq!(refusal(GetPlan::NoContent, true), None);
    assert_eq!(refusal(GetPlan::Stream, false), None);
}

#[test]
fn range_plans_and_headers() {
    assert_eq!(range_plan(None, 1000), RangePlan::Full);
    assert_eq!(range_plan(Some("bytes=100-199,500-"), 1000), RangePlan::Partial { start: 100, end: 199 });
    assert_eq!(range_plan(Some("bytes=-200"), 1000), RangePlan::Partial { start: 800, end: 999 });
    assert_eq!(range_plan(Some("bytes=1000-"), 1000), RangePlan::Unsatisfiable);
    assert_eq!(range_plan(Some("items=0-1"), 1000), RangePlan::Unsatisfiable);
    assert_eq!(content_range(100, 199, 1000), "bytes 100-199/1000");
    assert_eq!(unsatisfiable_content_range(1000), "bytes */1000");
    assert_eq!(content_length(100, 199), 100);
}

#[test]
fn sources_of_partial_answers() {
    assert_eq!(
        range_source(ItemSubType::MultipartFile, BlobMeta::Multipart { encrypted: false }),
        RangeSource::SeekMultipart
    );
    assert_eq!(
        range_source(ItemSubType::MultipartFile, BlobMeta::Multipart { encrypted: true }),
        RangeSource::WholeFile
    );
    assert_eq!(range_source(ItemSubType::NzbFile, BlobMeta::Nzb), RangeSource::AlignedSegments);
    assert_eq!(range_source(ItemSubType::NzbFile, BlobMeta::Unavailable), RangeSource::NotSatisfiable);
    assert_eq!(range_source(ItemSubType::RarFile, BlobMeta::Nzb), RangeSource::NotSatisfiable);
}

#[test]
fn virtual_queue_entries() {
    assert_eq!(virtual_nzb_name("/nzbs/a.nzb").as_deref(), Some("a.nzb"));
    assert_eq!(virtual_nzb_name("/nzbs/"), None);
    assert_eq!(virtual_nzb_name("/nzbs/a/b.nzb"), None);
    assert_eq!(virtual_nzb_name("/content/a.nzb"), None);
    let queue = vec![queued("x.nzb"), queued("a.nzb"), queued("a.nzb")];
    assert_eq!(find_queue_item(&queue, "a.nzb"), Some(1));
    assert_eq!(find_queue_item(&queue, "b.nzb"), None);
}

#[test]
fn directory_paths() {
    assert_eq!(with_trailing_slash("/content").as_deref(), Some("/content/"));
    assert_eq!(with_trailing_slash("/content/"), None);
    assert_eq!(children_dir_path("/content"), "/content/");
    assert_eq!(children_dir_path("/"), "/");
    assert!(lists_queue_items("/nzbs/"));
    assert!(lists_queue_items("/nzbs//"));
    assert!(!lists_queue_items("/nzbs/sub/"));
    assert_eq!(id_prefix_of("movies"), "m");
    assert_eq!(id_prefix_of(""), "_");
}

#[test]
fn errors_of_store_steps() {
    let dir = item(ItemType::Directory, ItemSubType::Directory, None, None);
    let file = item(ItemType::UsenetFile, ItemSubType::NzbFile, None, None);
    assert_eq!(parent_for_new_item("/a/", Some(&dir), true).unwrap(), 1);
    assert_eq!(parent_for_new_item("/a/", Some(&file), false).unwrap(), 1);
    match parent_for_new_item("/a/", Some(&file), true).unwrap_err() {
        DavServerError::Conflict(m) => assert_eq!(m, "parent is not a collection"),
        other => panic!("unexpected {other:?}"),
    }
    match parent_for_new_item("/missing/", None, true).unwrap_err() {
        DavServerError::Conflict(m) => assert_eq!(m, "parent not found: /missing/"),
        other => panic!("unexpected {other:?}"),
    }
    match destination_parent("/gone/", None).unwrap_err() {
        DavServerError::Conflict(m) => assert_eq!(m, "dest parent not found: /gone/"),
        other => panic!("unexpected {other:?}"),
    }
    assert_eq!(collection_exists_error().status(), (405, "collection already exists".to_string()));
    assert_eq!(path_not_found_error("/x").status(), (404, "/x".to_string()));
    assert_eq!(body_blob_id(&file).unwrap_err().status(), (404, "item has no file blob".to_string()));
    assert_eq!(body_layout(ItemSubType::MultipartFile).unwrap(), BlobLayout::Multipart);
    assert_eq!(
        body_layout(ItemSubType::RarFile).unwrap_err().message(),
        "unsupported sub_type for streaming: RarFile"
    );
    assert_eq!(
        body_decode_error(BlobLayout::Nzb, "bad").message(),
        "failed to deserialize nzb blob: bad"
    );
}

#[test]
fn new_items() {
    let c = new_collection_item("/content/new/", 7, 8, 9);
    assert_eq!(c.name, "new");
    assert_eq!(c.id_prefix, "n");
    assert_eq!(c.parent_id, Some(7));
    assert_eq!(c.item_type, ItemType::Directory);
    assert_eq!(c.path, "/content/new/");
    let n = new_nzb_item("/nzbs/up.nzb", 7, 1234, 11, 12, 13);
    assert_eq!(n.name, "up.nzb");
    assert_eq!(n.file_size, Some(1234));
    assert_eq!(n.nzb_blob_id, Some(11));
    assert_eq!(n.sub_type, ItemSubType::NzbFile);
    let src = item(ItemType::UsenetFile, ItemSubType::NzbFile, Some(3), None);
    let copy = copied_item(&src, "/content/b/y.mkv", 20, 21, 22);
    assert_eq!(copy.id, 21);
    assert_eq!(copy.name, "y.mkv");
    assert_eq!(copy.id_prefix, "y");
    assert_eq!(copy.file_blob_id, Some(3));
    assert_eq!(copy.history_item_id, Some(4));
    assert_eq!(copy.release_date, Some(5));
}

#[test]
fn error_texts_and_statuses() {
    let e = DavServerError::Core(DavError::BlobNotFound("abc".to_string()));
    assert_eq!(e.message(), "blob not found: abc");
    assert_eq!(e.status(), (500, "blob not found: abc".to_string()));
    assert_eq!(DavServerError::NotFound("p".to_string()).message(), "not found: p");
    assert_eq!(DavServerError::InvalidRange("r".to_string()).status(), (416, "r".to_string()));
    assert_eq!(DavServerError::Other("o".to_string()).status(), (500, "o".to_string()));
    assert_eq!(DavError::Database("locked".to_string()).message(), "database error: locked");
}

#[test]
fn blob_statements() {
    assert_eq!(
        BlobStore::put_sql(BlobStore::file_blob_table()),
        "INSERT OR REPLACE INTO blobs (id, data) VALUES (?1, ?2)"
    );
    assert_eq!(BlobStore::get_sql(BlobStore::nzb_blob_table()), "SELECT data FROM nzb_blobs WHERE id = ?1");
    assert_eq!(BlobStore::delete_sql("blobs"), "DELETE FROM blobs WHERE id = ?1");
    match BlobStore::missing_blob_error(1) {
        DavError::BlobNotFound(m) => assert_eq!(m, "00000000-0000-0000-0000-000000000001"),
        other => panic!("unexpected {other:?}"),
    }
}

#[test]
fn command_line_defaults() {
    let cli = Cli::default();
    assert_eq!(cli.db_path, "nzbdav.db");
    assert_eq!(cli.listen_addr(), "0.0.0.0:8080");
    let custom = Cli { host: "127.0.0.1".to_string(), port: 9, ..Cli::default() };
    assert_eq!(custom.listen_addr(), "127.0.0.1:9");
}

#[test]
fn listed_queue_entries_resolve_back() {
    let q = queued("Some.Show.S01E01.nzb");
    let item = nzbdav::store::queue_item_to_dav_item(&q);
    assert_eq!(item.path, "/nzbs/Some.Show.S01E01.nzb");
    assert_eq!(virtual_nzb_name(&item.path).as_deref(), Some("Some.Show.S01E01.nzb"));
}

#[test]
fn identifier_texts_differ_for_different_ids() {
    let a = nzbdav::store::uuid_to_string(1);
    let b = nzbdav::store::uuid_to_string(1 << 64);
    assert_eq!(a, "00000000-0000-0000-0000-000000000001");
    assert_eq!(b, "00000000-0000-0001-0000-000000000000");
    assert_ne!(a, b);
}

#[test]
fn mkcol_checks_parent_then_path() {
    let dir = item(ItemType::Directory, ItemSubType::Directory, None, None);
    let file = item(ItemType::UsenetFile, ItemSubType::NzbFile, Some(3), None);
    match mkcol_plan("/a/new", None, true, 8, 9).unwrap_err() {
        DavServerError::Conflict(m) => assert_eq!(m, "parent not found: /a/"),
        other => panic!("unexpected {other:?}"),
    }
    match mkcol_plan("/a/new", Some(&file), true, 8, 9).unwrap_err() {
        DavServerError::Conflict(m) => assert_eq!(m, "parent is not a collection"),
        other => panic!("unexpected {other:?}"),
    }
    match mkcol_plan("/a/new", Some(&dir), true, 8, 9).unwrap_err() {
        DavServerError::MethodNotAllowed(m) => assert_eq!(m, "collection already exists"),
        other => panic!("unexpected {other:?}"),
    }
    let c = mkcol_plan("/a/new", Some(&dir), false, 8, 9).unwrap();
    assert_eq!(c.id, 8);
    assert_eq!(c.created_at, 9);
    assert_eq!(c.parent_id, Some(1));
    assert_eq!(c.name, "new");
    assert_eq!(c.item_type, ItemType::Directory);
    assert_eq!(c.path, "/a/new");
}

#[test]
fn nzb_document_ranges_are_never_answered_whole() {
    let data: Vec<u8> = (0u8..100).collect();
    let (plan, body) = document_answer(&data, None);
    assert_eq!(plan, RangePlan::Full);
    assert_eq!(body, data);
    let (plan, body) = document_answer(&data, Some("bytes=10-19"));
    assert_eq!(plan, RangePlan::Partial { start: 10, end: 19 });
    assert_eq!(body, data[10..=19].to_vec());
    let (plan, body) = document_answer(&data, Some("bytes=-5"));
    assert_eq!(plan, RangePlan::Partial { start: 95, end: 99 });
    assert_eq!(body, data[95..].to_vec());
    let (plan, body) = document_answer(&data, Some("bytes=100-"));
    assert_eq!(plan, RangePlan::Unsatisfiable);
    assert!(body.is_empty());
    let (plan, _) = document_answer(&data, Some("garbage"));
    assert_eq!(plan, RangePlan::Unsatisfiable);
}
