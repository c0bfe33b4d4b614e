use nzbdav::byte_counts::declared_bytes_fit;
use nzbdav::name_case::{keeps_width_lowered, names_keep_length};
use nzbdav::models::{DownloadStatus, HistoryItem, QueueItem};
use nzbdav::sab::{failure_response, history_query, is_nzb_upload_field, HistoryQuery, SabFailure};
use nzbdav::sab::{
    addurl_target, filter_history_by_category, history_category_filter, history_request,
    nzb_file_name, page_bounds, parse_mode, parse_nzo_ids, plan_enqueue, priority_to_string,
    queue_listing, queue_request, queue_slot, queue_status_text, sort_for_listing, retry_target, stored_file_name, unknown_mode_response,
    upload_file_name, url_file_name, HistoryRequest, QueueRequest, SabMode,
};

const ID_A: u128 = 0x0123_4567_89ab_cdef_0123_4567_89ab_cdef;

fn history(category: &str) -> HistoryItem {
    HistoryItem {
        id: ID_A,
        created_at: 1_700_000_000,
        file_name: "a.nzb".to_string(),
        job_name: "a".to_string(),
        category: category.to_string(),
        download_status: DownloadStatus::Completed,
        total_segment_bytes: 10,
        download_time_seconds: 0,
        fail_message: None,
        download_dir_id: None,
        nzb_blob_id: Some(ID_A),
    }
}

#[test]
fn test_priority_to_string_values() {
    assert_eq!(priority_to_string(-1), "Low");
    assert_eq!(priority_to_string(0), "Low");
    assert_eq!(priority_to_string(1), "Normal");
    assert_eq!(priority_to_string(2), "High");
    assert_eq!(priority_to_string(3), "Force");
    assert_eq!(priority_to_string(100), "Force");
}

#[test]
fn parse_mode_names() {
    assert_eq!(parse_mode("addfile"), SabMode::AddFile);
    assert_eq!(parse_mode("addurl"), SabMode::AddUrl);
    assert_eq!(parse_mode("queue"), SabMode::Queue);
    assert_eq!(parse_mode("history"), SabMode::History);
    assert_eq!(parse_mode("retry"), SabMode::Retry);
    assert_eq!(parse_mode("version"), SabMode::Version);
    assert_eq!(parse_mode("status"), SabMode::Status);
    assert_eq!(parse_mode("fullstatus"), SabMode::Status);
    assert_eq!(parse_mode("get_config"), SabMode::GetConfig);
    assert_eq!(parse_mode("get_cats"), SabMode::GetCats);
    assert_eq!(parse_mode("Queue"), SabMode::Unknown);
}

#[test]
fn unknown_mode_text() {
    let r = unknown_mode_response("bogus");
    assert!(!r.status);
    assert_eq!(r.error.as_deref(), Some("unknown mode: bogus"));
}

#[test]
fn nzb_file_names() {
    assert_eq!(nzb_file_name("My.Show"), "My.Show.nzb");
    assert_eq!(nzb_file_name("My.Show.nzb"), "My.Show.nzb");
    assert_eq!(upload_file_name(Some("Job"), Some("upload.nzb")), "Job.nzb");
    assert_eq!(upload_file_name(Some(""), Some("upload.nzb")), "upload.nzb");
    assert_eq!(upload_file_name(None, None), "unknown.nzb");
    assert_eq!(url_file_name(None, "http://x/y/file.nzb"), "file.nzb");
    assert_eq!(url_file_name(None, "http://x/y/getnzb?id=1"), "download.nzb");
    assert_eq!(url_file_name(Some("Label"), "http://x/y/file.nzb"), "Label.nzb");
}

#[test]
fn addurl_needs_a_url() {
    assert_eq!(addurl_target(Some("u1".to_string()), Some("u2".to_string())).unwrap(), "u1");
    assert_eq!(addurl_target(None, Some("u2".to_string())).unwrap(), "u2");
    let e = addurl_target(None, None).unwrap_err();
    assert_eq!(
        e.error.as_deref(),
        Some("URL is required (pass as 'name' or 'value' parameter)")
    );
}

#[test]
fn stored_name_carries_password() {
    assert_eq!(stored_file_name("movie.nzb", Some("pw")), "movie {{pw}}.nzb");
    assert_eq!(stored_file_name("movie.nzb", Some("")), "movie.nzb");
    assert_eq!(stored_file_name("movie.nzb", None), "movie.nzb");
    assert_eq!(stored_file_name("movie {{old}}.nzb", Some("pw")), "movie {{old}}.nzb");
}

const SAMPLE_NZB: &str = r#"<?xml version="1.0" encoding="UTF-8"?>
<nzb xmlns="http://www.newzbin.com/DTD/2003/nzb">
<file poster="p" date="1" subject="&quot;movie.mkv&quot; yEnc (1/2)">
<groups><group>alt.binaries.test</group></groups>
<segments>
<segment bytes="1000" number="1">a@test</segment>
<segment bytes="500" number="2">b@test</segment>
</segments>
</file>
</nzb>"#;

#[test]
fn enqueue_sums_file_sizes() {
    let q = plan_enqueue("movie.nzb", SAMPLE_NZB.as_bytes(), "tv", 1, Some("pw"), ID_A, 42).unwrap();
    assert_eq!(q.id, ID_A);
    assert_eq!(q.created_at, 42);
    assert_eq!(q.file_name, "movie {{pw}}.nzb");
    assert_eq!(q.job_name, "movie");
    assert_eq!(q.nzb_file_size, SAMPLE_NZB.len() as i64);
    assert_eq!(q.total_segment_bytes, 1500);
    assert_eq!(q.category, "tv");
    assert_eq!(q.priority, 1);
    assert_eq!(q.post_processing, -1);
    assert!(q.pause_until.is_none());
}

#[test]
fn enqueue_rejects_empty_nzb() {
    let e = plan_enqueue("movie.nzb", b"", "tv", 0, None, ID_A, 0).unwrap_err();
    assert!(e.starts_with("invalid NZB: "));
    assert!(e.contains("empty"));
}

#[test]
fn listing_pages_and_status() {
    assert_eq!(page_bounds(None, None), (0, 50));
    assert_eq!(page_bounds(Some(5), Some(10)), (5, 10));
    assert_eq!(queue_status_text(0), "Idle");
    assert_eq!(queue_status_text(3), "Downloading");
}

#[test]
fn nzo_ids_drop_bad_pieces() {
    let ids = parse_nzo_ids(" 01234567-89ab-cdef-0123-456789abcdef ,nope,");
    assert_eq!(ids, vec![ID_A]);
    assert!(parse_nzo_ids("").is_empty());
}

#[test]
fn history_filter_by_category() {
    assert_eq!(history_category_filter(Some("TV"), Some("movies")), Some("tv".to_string()));
    assert_eq!(history_category_filter(None, Some("Movies")), Some("movies".to_string()));
    assert_eq!(history_category_filter(None, None), None);
    let items = vec![history("TV"), history("movies"), history("tv")];
    let kept = filter_history_by_category(items, Some("tv"));
    assert_eq!(kept.len(), 2);
    assert_eq!(kept[0].category, "TV");
    assert_eq!(kept[1].category, "tv");
    let all = filter_history_by_category(vec![history("a"), history("b")], None);
    assert_eq!(all.len(), 2);
}

#[test]
fn queue_and_history_requests() {
    assert_eq!(queue_request(None, None), QueueRequest::List);
    assert_eq!(
        queue_request(Some("delete"), Some("01234567-89ab-cdef-0123-456789abcdef")),
        QueueRequest::Delete(Some(ID_A))
    );
    assert_eq!(queue_request(Some("purge"), None), QueueRequest::Delete(None));
    assert_eq!(queue_request(Some("delete"), Some("xyz")), QueueRequest::InvalidId);
    assert_eq!(history_request(Some("delete"), Some("all")), HistoryRequest::DeleteAll);
    assert_eq!(history_request(Some("delete"), Some("bad")), HistoryRequest::InvalidId);
    assert_eq!(history_request(Some("other"), Some("all")), HistoryRequest::List);
}

#[test]
fn retry_needs_a_valid_id() {
    assert_eq!(
        retry_target(None).unwrap_err().error.as_deref(),
        Some("value parameter (nzo_id) is required")
    );
    assert_eq!(retry_target(Some("zzz")).unwrap_err().error.as_deref(), Some("invalid id"));
    assert_eq!(retry_target(Some("01234567-89ab-cdef-0123-456789abcdef")).unwrap(), ID_A);
}

#[test]
fn history_queries() {
    match history_query(Some("01234567-89ab-cdef-0123-456789abcdef,zzz"), Some(3), None) {
        HistoryQuery::ByIds(v) => assert_eq!(v, vec![ID_A]),
        other => panic!("unexpected {other:?}"),
    }
    match history_query(None, None, Some(5)) {
        HistoryQuery::Page { offset, limit } => {
            assert_eq!(offset, 0);
            assert_eq!(limit, 5);
        }
        other => panic!("unexpected {other:?}"),
    }
}

#[test]
fn failure_texts() {
    let t = |f: SabFailure| failure_response(&f).error.unwrap();
    assert_eq!(t(SabFailure::NoMultipart), "multipart body required for addfile");
    assert_eq!(t(SabFailure::NoUpload), "no NZB file found in upload");
    assert_eq!(t(SabFailure::HttpStatus("404 Not Found".to_string())), "HTTP 404 Not Found fetching URL");
    assert_eq!(t(SabFailure::Database("locked".to_string())), "database error: locked");
    assert_eq!(t(SabFailure::Enqueue("x".to_string())), "failed to enqueue: x");
    assert!(is_nzb_upload_field("nzbfile"));
    assert!(is_nzb_upload_field("nzbFile"));
    assert!(is_nzb_upload_field("name"));
    assert!(!is_nzb_upload_field("Name"));
    assert!(!is_nzb_upload_field("file"));
}

#[test]
fn enqueue_refuses_byte_counts_past_64_bits() {
    let nzb = SAMPLE_NZB.replace("bytes=\"1000\"", "bytes=\"18446744073709551615\"");
    let e = plan_enqueue("movie.nzb", nzb.as_bytes(), "tv", 0, None, ID_A, 0).unwrap_err();
    assert_eq!(e, "invalid NZB: byte counts too large");
}

#[test]
fn declared_byte_counts_are_added_up() {
    assert!(declared_bytes_fit(b""));
    assert!(declared_bytes_fit(SAMPLE_NZB.as_bytes()));
    assert!(declared_bytes_fit(b"<segment bytes=\"18446744073709551615\">"));
    assert!(!declared_bytes_fit(b"<s bytes=\"18446744073709551615\" x=\"1\"><s bytes = '1'>"));
    assert!(!declared_bytes_fit(b"<s bytes=\"+18446744073709551615\"><s bytes=\"1\">"));
    // A value that `u64` parsing refuses counts as 0, as the parser reads it.
    assert!(declared_bytes_fit(b"<s bytes=\"18446744073709551616\"><s bytes=\"1\">"));
    assert!(declared_bytes_fit(b"<s bytes=\"12x\" number=\"99999999999999999999999\">"));
}

#[test]
fn enqueue_accepts_long_numbers_outside_byte_counts() {
    let nzb = SAMPLE_NZB.replace("date=\"1\"", "date=\"123456789012345678901\"");
    let q = plan_enqueue("movie.nzb", nzb.as_bytes(), "tv", 0, None, ID_A, 0).unwrap();
    assert_eq!(q.total_segment_bytes, 1500);
}

#[test]
fn names_that_change_length_when_lower_cased() {
    assert!(keeps_width_lowered('A'));
    assert!(keeps_width_lowered('\u{c9}'));
    assert!(!keeps_width_lowered('\u{23a}'));
    assert!(!keeps_width_lowered('\u{130}'));
    assert!(!keeps_width_lowered('\u{307}'));
    assert!(names_keep_length(SAMPLE_NZB.as_bytes()));
    assert!(names_keep_length("subject=\"Am\u{e9}lie.mkv\"".as_bytes()));
    assert!(!names_keep_length("subject=\"\u{23a}\u{23a}.vol00+01.par2\"".as_bytes()));
    assert!(!names_keep_length(b"subject=\"&#570;&#x23a;.vol00+01.par2\""));
    assert!(!names_keep_length(b"subject=\"&#x23A;.par2\""));
    assert!(names_keep_length(b"subject=\"&#233;&#x41;&#;&#xzz;\""));
    // Only the subjects give file names.
    assert!(names_keep_length("poster=\"\u{23a}\u{130}\" subject='a.vol00+01.par2'".as_bytes()));
    assert!(!names_keep_length("poster=\"x\" subject = '\u{130}.par2'".as_bytes()));
}

#[test]
fn enqueue_refuses_names_that_change_length() {
    let nzb = SAMPLE_NZB.replace("movie.mkv", "\u{23a}\u{23a}\u{23a}.vol00+01.par2");
    let e = plan_enqueue("movie.nzb", nzb.as_bytes(), "tv", 0, None, ID_A, 0).unwrap_err();
    assert_eq!(e, "invalid NZB: names change length when lower-cased");
}

fn queued(id: u128) -> QueueItem {
    QueueItem {
        id,
        created_at: 1,
        file_name: "a.nzb".to_string(),
        job_name: "a".to_string(),
        nzb_file_size: 10,
        total_segment_bytes: 3 * 1024 * 1024,
        category: "tv".to_string(),
        priority: 0,
        post_processing: -1,
        pause_until: None,
    }
}

#[test]
fn queue_slot_status_is_queued_or_downloading() {
    let item = queued(ID_A);
    let s = queue_slot(&item, false, "3.00".to_string());
    assert_eq!(s.status, "Queued");
    assert_eq!(s.nzo_id, "01234567-89ab-cdef-0123-456789abcdef");
    assert_eq!(s.priority, "Low");
    assert_eq!(s.mb, "3.00");
    let s = queue_slot(&item, true, "3.00".to_string());
    assert_eq!(s.status, "Downloading");
}

fn queued_at(id: u128, priority: i32, created_at: i64) -> QueueItem {
    let mut q = queued(id);
    q.priority = priority;
    q.created_at = created_at;
    q
}

#[test]
fn queue_listing_orders_and_pages() {
    let items = vec![queued_at(1, 0, 5), queued_at(2, 2, 9), queued_at(3, 0, 1), queued_at(4, 2, 3)];
    let ids: Vec<u128> = sort_for_listing(items.clone()).iter().map(|q| q.id).collect();
    assert_eq!(ids, vec![4, 2, 3, 1]);
    let page: Vec<u128> = queue_listing(items.clone(), 1, 2).iter().map(|q| q.id).collect();
    assert_eq!(page, vec![2, 3]);
    assert_eq!(queue_listing(items.clone(), 3, 50).len(), 1);
    assert_eq!(queue_listing(items.clone(), 9, 50).len(), 0);
    assert_eq!(queue_listing(items.clone(), 0, 0).len(), 0);
    assert_eq!(queue_listing(items.clone(), -3, -1).len(), 4);
    assert!(queue_listing(Vec::new(), 0, 50).is_empty());
}
