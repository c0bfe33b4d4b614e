use nzbdav::error::DavServerError;
use nzbdav::range::parse_range;

#[test]
fn test_full_range() {
    let ranges = parse_range("bytes=0-499", 1000).unwrap();
    assert_eq!(ranges.len(), 1);
    assert_eq!(ranges[0].start, 0);
    assert_eq!(ranges[0].end, 499);
    assert_eq!(ranges[0].length(), 500);
}

#[test]
fn test_open_ended() {
    let ranges = parse_range("bytes=500-", 1000).unwrap();
    assert_eq!(ranges[0].start, 500);
    assert_eq!(ranges[0].end, 999);
}

#[test]
fn test_suffix() {
    let ranges = parse_range("bytes=-200", 1000).unwrap();
    assert_eq!(ranges[0].start, 800);
    assert_eq!(ranges[0].end, 999);
}

#[test]
fn test_clamp_end() {
    let ranges = parse_range("bytes=900-2000", 1000).unwrap();
    assert_eq!(ranges[0].end, 999);
}

#[test]
fn test_invalid_no_prefix() {
    assert!(parse_range("0-499", 1000).is_err());
}

#[test]
fn test_start_beyond_size() {
    assert!(parse_range("bytes=1000-", 1000).is_err());
}

fn error_text(r: Result<Vec<nzbdav::range::ByteRange>, DavServerError>) -> String {
    match r {
        Err(DavServerError::InvalidRange(m)) => m,
        other => panic!("expected InvalidRange, got {other:?}"),
    }
}

#[test]
fn several_ranges_with_spaces_and_empty_parts() {
    let ranges = parse_range("  bytes= 0-9 , ,-5,990- ", 1000).unwrap();
    assert_eq!(ranges.len(), 3);
    assert_eq!((ranges[0].start, ranges[0].end), (0, 9));
    assert_eq!((ranges[1].start, ranges[1].end), (995, 999));
    assert_eq!((ranges[2].start, ranges[2].end), (990, 999));
}

#[test]
fn each_error_names_the_part() {
    assert_eq!(error_text(parse_range("0-1", 10)), "missing 'bytes=' prefix");
    assert_eq!(error_text(parse_range("bytes=", 10)), "no ranges specified");
    assert_eq!(error_text(parse_range("bytes=-x", 10)), "invalid suffix: -x");
    assert_eq!(error_text(parse_range("bytes=-0", 10)), "unsatisfiable suffix range: -0");
    assert_eq!(error_text(parse_range("bytes=-11", 10)), "unsatisfiable suffix range: -11");
    assert_eq!(error_text(parse_range("bytes=5", 10)), "malformed range spec: 5");
    assert_eq!(error_text(parse_range("bytes=a-4", 10)), "invalid start: a-4");
    assert_eq!(error_text(parse_range("bytes=10-", 10)), "start beyond file size: 10-");
    assert_eq!(error_text(parse_range("bytes=3-b", 10)), "invalid end: 3-b");
    assert_eq!(error_text(parse_range("bytes=5-4", 10)), "unsatisfiable range: 5-4");
    assert_eq!(error_text(parse_range("bytes=0-1,7", 10)), "malformed range spec: 7");
}

#[test]
fn plus_sign_is_read_as_std_reads_it() {
    let ranges = parse_range("bytes=+2-+3", 10).unwrap();
    assert_eq!((ranges[0].start, ranges[0].end), (2, 3));
}

#[test]
fn empty_file_has_no_satisfiable_range() {
    assert!(parse_range("bytes=0-", 0).is_err());
    assert!(parse_range("bytes=-1", 0).is_err());
}

#[test]
fn range_parts_in_order_with_empty_parts_skipped() {
    let rs = parse_range(" bytes=0-1, ,-2,5- ", 10).unwrap();
    assert_eq!(rs.len(), 3);
    assert_eq!((rs[0].start, rs[0].end), (0, 1));
    assert_eq!((rs[1].start, rs[1].end), (8, 9));
    assert_eq!((rs[2].start, rs[2].end), (5, 9));
    assert!(parse_range("bytes=0-1,x", 10).is_err());
    assert!(parse_range("bytes= , ", 10).is_err());
}
