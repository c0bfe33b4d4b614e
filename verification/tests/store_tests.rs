use nzbdav::models::{DavItem, ItemSubType, ItemType, QueueItem};
use nzbdav::store::{queue_item_to_dav_item, split_path, uuid_to_string, DavNode};

fn file_item(name: &str, id: u128) -> DavItem {
    DavItem {
        id,
        id_prefix: "t".into(),
        created_at: 0,
        parent_id: None,
        name: name.into(),
        file_size: Some(10),
        item_type: ItemType::UsenetFile,
        sub_type: ItemSubType::NzbFile,
        path: format!("/content/{name}"),
        release_date: None,
        last_health_check: None,
        next_health_check: None,
        history_item_id: None,
        file_blob_id: None,
        nzb_blob_id: None,
    }
}

#[test]
fn test_split_path_file() {
    let (parent, name) = split_path("/content/movies/file.mkv");
    assert_eq!(parent, "/content/movies/");
    assert_eq!(name, "file.mkv");
}

#[test]
fn test_split_path_directory() {
    let (parent, name) = split_path("/content/movies/");
    assert_eq!(parent, "/content/");
    assert_eq!(name, "movies");
}

#[test]
fn test_split_path_root_child() {
    let (parent, name) = split_path("/nzbs/");
    assert_eq!(parent, "/");
    assert_eq!(name, "nzbs");
}

#[test]
fn split_path_without_slash() {
    assert_eq!(split_path("plain"), ("/", "plain"));
    assert_eq!(split_path("/"), ("/", ""));
}

#[test]
fn test_mime_from_name() {
    assert_eq!(DavNode::from_item(file_item("video.mkv", 1)).content_type, "video/x-matroska");
    let nzb_mime = DavNode::from_item(file_item("file.nzb", 1)).content_type;
    assert!(!nzb_mime.is_empty());
    assert_eq!(DavNode::from_item(file_item("file.mp4", 1)).content_type, "video/mp4");
}

#[test]
fn node_etag_is_quoted_uuid() {
    let id = 0x550e8400_e29b_41d4_a716_446655440000u128;
    assert_eq!(uuid_to_string(id), "550e8400-e29b-41d4-a716-446655440000");
    let node = DavNode::from_item(file_item("a.mkv", id));
    assert_eq!(node.etag, "\"550e8400-e29b-41d4-a716-446655440000\"");
    assert!(!node.is_collection);
    let mut dir = file_item("d", 2);
    dir.item_type = ItemType::Directory;
    let node = DavNode::from_item(dir);
    assert!(node.is_collection);
    assert_eq!(node.content_type, "httpd/unix-directory");
}

#[test]
fn queue_items_show_under_nzbs() {
    let qi = QueueItem {
        id: 7,
        created_at: 100,
        file_name: "job.nzb".into(),
        job_name: "job".into(),
        nzb_file_size: 1234,
        total_segment_bytes: 99,
        category: "tv".into(),
        priority: 0,
        post_processing: -1,
        pause_until: None,
    };
    let item = queue_item_to_dav_item(&qi);
    assert_eq!(item.path, "/nzbs/job.nzb");
    assert_eq!(item.id_prefix, "q");
    assert_eq!(item.nzb_blob_id, Some(7));
    assert_eq!(item.file_size, Some(1234));
}

#[test]
fn split_path_of_root_and_trailing_slashes() {
    assert_eq!(split_path("/"), ("/", ""));
    assert_eq!(split_path("/a/b//"), ("/a/", "b"));
    assert_eq!(split_path("/a"), ("/", "a"));
}
