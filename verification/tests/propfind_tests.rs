use nzbdav::models::{DavItem, ItemSubType, ItemType};
use nzbdav::propfind::{encode_href_path, multistatus_xml};
use nzbdav::store::DavNode;

const CREATED: i64 = 1_700_000_000;

fn make_dir_node(name: &str, path: &str) -> DavNode {
    DavNode::from_item(DavItem {
        id: 0,
        id_prefix: "t".into(),
        created_at: CREATED,
        parent_id: None,
        name: name.into(),
        file_size: None,
        item_type: ItemType::Directory,
        sub_type: ItemSubType::Directory,
        path: path.into(),
        release_date: None,
        last_health_check: None,
        next_health_check: None,
        history_item_id: None,
        file_blob_id: None,
        nzb_blob_id: None,
    })
}

fn make_file_node(name: &str, path: &str, size: i64) -> DavNode {
    DavNode::from_item(DavItem {
        id: 0,
        id_prefix: "t".into(),
        created_at: CREATED,
        parent_id: None,
        name: name.into(),
        file_size: Some(size),
        item_type: ItemType::UsenetFile,
        sub_type: ItemSubType::NzbFile,
        path: path.into(),
        release_date: None,
        last_health_check: None,
        next_health_check: None,
        history_item_id: None,
        file_blob_id: None,
        nzb_blob_id: None,
    })
}

#[test]
fn test_multistatus_contains_response() {
    let node = make_dir_node("root", "/");
    let xml = multistatus_xml(&[node], "/");
    assert!(xml.contains("<D:multistatus"));
    assert!(xml.contains("<D:response>"));
    assert!(xml.contains("<D:collection/>"));
    assert!(xml.contains("HTTP/1.1 200 OK"));
}

#[test]
fn test_multistatus_file_node() {
    let node = make_file_node("movie.mkv", "/content/movie.mkv", 1048576);
    let xml = multistatus_xml(&[node], "/content/movie.mkv");
    assert!(
        xml.contains("<D:getcontentlength>1048576</D:getcontentlength>"),
        "should contain content length"
    );
    assert!(xml.contains("<D:getcontenttype>"), "should contain content type");
    assert!(!xml.contains("<D:collection/>"), "file node should not be a collection");
    assert!(xml.contains("<D:resourcetype/>"), "file should have empty resourcetype");
}

#[test]
fn test_multistatus_depth1() {
    let parent = make_dir_node("content", "/content/");
    let child1 = make_dir_node("movies", "/content/movies/");
    let child2 = make_file_node("file.mkv", "/content/file.mkv", 500);
    let xml = multistatus_xml(&[parent, child1, child2], "/content/");

    let response_count = xml.matches("<D:response>").count();
    assert_eq!(response_count, 3, "should have 3 response elements");

    assert!(xml.contains("<D:href>/content/</D:href>"));
    assert!(xml.contains("<D:href>/content/movies/</D:href>"));
    assert!(xml.contains("<D:href>/content/file.mkv</D:href>"));
}

#[test]
fn test_multistatus_xml_escaping() {
    let node = make_dir_node("Tom & Jerry <2024>", "/content/Tom & Jerry <2024>/");
    let xml = multistatus_xml(&[node], "/content/Tom & Jerry <2024>/");
    assert!(
        xml.contains("&amp;") || xml.contains("Tom &amp; Jerry"),
        "ampersand should be escaped in XML"
    );
    assert!(
        xml.contains("&lt;") || xml.contains("&lt;2024&gt;"),
        "angle brackets should be escaped in XML"
    );
    assert!(
        !xml.contains("<D:displayname>Tom & Jerry <2024></D:displayname>"),
        "special chars must be escaped"
    );
}

#[test]
fn test_multistatus_href_percent_encoding() {
    let parent = make_dir_node("download", "/content/download/");
    let child = make_file_node(
        "The.Shawshank.Redemption.1994.1080p.BluRay.x264-CiNEFiLE .mkv",
        r"/content/download/folder\The.Shawshank.Redemption.1994.1080p.BluRay.x264-CiNEFiLE .mkv",
        500,
    );
    let xml = multistatus_xml(&[parent, child], "/content/download/");

    assert!(xml.contains(
        r"<D:href>/content/download/folder%5CThe.Shawshank.Redemption.1994.1080p.BluRay.x264-CiNEFiLE%20.mkv</D:href>"
    ));
    assert!(!xml.contains("CiNEFiLE .mkv</D:href>"));
}

#[test]
fn mount_prefix_reaches_child_hrefs() {
    let root = make_dir_node("", "/");
    let nzbs = make_dir_node("nzbs", "/nzbs/");
    let xml = multistatus_xml(&[root, nzbs], "/dav/");
    assert!(xml.contains("<D:href>/dav/</D:href>"));
    assert!(xml.contains("<D:href>/dav/nzbs/</D:href>"));
}

#[test]
fn exact_layout_of_a_file_response() {
    let node = make_file_node("a&b.mkv", "/a&b.mkv", 5);
    let etag = node.etag.clone();
    let xml = multistatus_xml(&[node], "/a&b.mkv");
    let expected = format!(
        "<?xml version=\"1.0\" encoding=\"utf-8\"?>\n<D:multistatus xmlns:D=\"DAV:\">\n  <D:response>\n    <D:href>/a&amp;b.mkv</D:href>\n    <D:propstat>\n      <D:prop>\n        <D:displayname>a&amp;b.mkv</D:displayname>\n        <D:resourcetype/>\n        <D:getcontentlength>5</D:getcontentlength>\n        <D:getcontenttype>video/x-matroska</D:getcontenttype>\n        <D:getetag>{}</D:getetag>\n        <D:creationdate>2023-11-14T22:13:20Z</D:creationdate>\n        <D:getlastmodified>Tue, 14 Nov 2023 22:13:20 GMT</D:getlastmodified>\n      </D:prop>\n      <D:status>HTTP/1.1 200 OK</D:status>\n    </D:propstat>\n  </D:response>\n</D:multistatus>",
        etag.replace('"', "&quot;")
    );
    assert_eq!(xml, expected);
}

#[test]
fn href_encoding_of_utf8() {
    assert_eq!(encode_href_path("/é x"), "/%C3%A9%20x");
    assert_eq!(encode_href_path("/a-b_c~!$&'()*+,;=:@"), "/a-b_c~!$&'()*+,;=:@");
}
