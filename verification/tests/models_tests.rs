use nzbdav::models::{DownloadStatus, ItemSubType, ItemType, LongRange};

#[test]
fn test_try_from_item_type() {
    assert_eq!(ItemType::try_from(1).unwrap(), ItemType::Directory);
    assert_eq!(ItemType::try_from(2).unwrap(), ItemType::UsenetFile);
    assert!(ItemType::try_from(0).is_err());
    assert!(ItemType::try_from(99).is_err());
}

#[test]
fn test_try_from_item_sub_type() {
    assert_eq!(ItemSubType::try_from(101).unwrap(), ItemSubType::Directory);
    assert_eq!(ItemSubType::try_from(102).unwrap(), ItemSubType::WebdavRoot);
    assert_eq!(ItemSubType::try_from(103).unwrap(), ItemSubType::NzbsRoot);
    assert_eq!(ItemSubType::try_from(104).unwrap(), ItemSubType::ContentRoot);
    assert_eq!(ItemSubType::try_from(105).unwrap(), ItemSubType::SymlinkRoot);
    assert_eq!(ItemSubType::try_from(106).unwrap(), ItemSubType::IdsRoot);
    assert_eq!(ItemSubType::try_from(201).unwrap(), ItemSubType::NzbFile);
    assert_eq!(ItemSubType::try_from(202).unwrap(), ItemSubType::RarFile);
    assert_eq!(ItemSubType::try_from(203).unwrap(), ItemSubType::MultipartFile);
    assert_eq!(ItemSubType::try_from(204).unwrap(), ItemSubType::ReadmeFile);
    assert!(ItemSubType::try_from(0).is_err());
    assert!(ItemSubType::try_from(999).is_err());
}

#[test]
fn test_try_from_download_status() {
    assert_eq!(DownloadStatus::try_from(1).unwrap(), DownloadStatus::Completed);
    assert_eq!(DownloadStatus::try_from(2).unwrap(), DownloadStatus::Failed);
    assert!(DownloadStatus::try_from(0).is_err());
    assert!(DownloadStatus::try_from(3).is_err());
}

#[test]
fn test_long_range() {
    let r = LongRange::new(10, 50);
    assert_eq!(r.start, 10);
    assert_eq!(r.end, 50);
    assert_eq!(r.size(), 40);

    let r2 = LongRange::from_start_and_size(100, 200);
    assert_eq!(r2.start, 100);
    assert_eq!(r2.end, 300);
    assert_eq!(r2.size(), 200);

    assert!(r.contains(10));
    assert!(r.contains(25));
    assert!(r.contains(49));
    assert!(!r.contains(50));
    assert!(!r.contains(9));
}

#[test]
fn invalid_code_messages_name_the_enumeration_and_value() {
    assert_eq!(ItemType::try_from(7).unwrap_err().message(), "invalid ItemType: 7");
    assert_eq!(ItemSubType::try_from(-3).unwrap_err().message(), "invalid ItemSubType: -3");
    assert_eq!(DownloadStatus::try_from(0).unwrap_err().message(), "invalid DownloadStatus: 0");
}

#[test]
fn codes_round_trip() {
    for t in [ItemType::Directory, ItemType::UsenetFile] {
        assert_eq!(ItemType::try_from(t.to_i32()).unwrap(), t);
    }
    assert_eq!(ItemSubType::ReadmeFile.to_i32(), 204);
    assert_eq!(DownloadStatus::Failed.to_i32(), 2);
}
