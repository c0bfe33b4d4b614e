use nzbdav::util::{
    get_job_name, get_nzb_password, is_7z_file, is_important_file_type, is_multipart_mkv,
    is_par2_file, is_probably_obfuscated, is_rar_file, is_video_file, matches_blocklist,
};

#[test]
fn test_is_rar_file() {
    assert!(is_rar_file("archive.rar"));
    assert!(is_rar_file("archive.RAR"));
    assert!(is_rar_file("archive.r00"));
    assert!(is_rar_file("archive.r01"));
    assert!(is_rar_file("movie.part01.rar"));
    assert!(!is_rar_file("readme.txt"));
    assert!(!is_rar_file("video.mkv"));
}

#[test]
fn test_is_par2_file() {
    assert!(is_par2_file("file.par2"));
    assert!(is_par2_file("file.vol01+02.par2"));
    assert!(is_par2_file("FILE.PAR2"));
    assert!(!is_par2_file("file.txt"));
    assert!(!is_par2_file("file.par"));
}

#[test]
fn test_is_video_file() {
    assert!(is_video_file("movie.mkv"));
    assert!(is_video_file("movie.mp4"));
    assert!(is_video_file("movie.avi"));
    assert!(is_video_file("movie.MKV"));
    assert!(is_video_file("movie.wmv"));
    assert!(is_video_file("movie.ts"));
    assert!(!is_video_file("info.nfo"));
    assert!(!is_video_file("readme.txt"));
    assert!(!is_video_file("archive.rar"));
}

#[test]
fn test_is_probably_obfuscated() {
    assert!(is_probably_obfuscated("a1b2c3d4e5f6a1b2c3d4e5f6a1b2c3d4.mkv"));
    assert!(is_probably_obfuscated("550e8400-e29b-41d4-a716-446655440000.mkv"));
    assert!(is_probably_obfuscated("1234567890.mkv"));
    assert!(!is_probably_obfuscated("movie.name.mkv"));
    assert!(!is_probably_obfuscated("Some.Movie.2024.1080p.mkv"));
}

#[test]
fn test_get_job_name() {
    assert_eq!(get_job_name("release.nzb"), "release");
    assert_eq!(get_job_name("release {{password}}.nzb"), "release");
    assert_eq!(get_job_name("file.nzb.gz"), "file");
    assert_eq!(get_job_name("noext"), "noext");
}

#[test]
fn test_get_nzb_password_double_braces() {
    assert_eq!(get_nzb_password("release {{mypass}}.nzb"), Some("mypass".to_string()));
}

#[test]
fn test_get_nzb_password_no_password() {
    assert_eq!(get_nzb_password("release.nzb"), None);
}

#[test]
fn test_get_nzb_password_empty_braces() {
    assert_eq!(get_nzb_password("release {{}}.nzb"), None);
}

#[test]
fn test_matches_blocklist() {
    let patterns = vec!["*.nfo".to_string(), "*.txt".to_string()];
    assert!(matches_blocklist("info.nfo", &patterns));
    assert!(matches_blocklist("readme.txt", &patterns));
    assert!(matches_blocklist("INFO.NFO", &patterns));
    assert!(!matches_blocklist("movie.mkv", &patterns));
    assert!(!matches_blocklist("archive.rar", &patterns));
}

#[test]
fn archive_and_split_file_kinds() {
    assert!(is_7z_file("backup.7z"));
    assert!(is_7z_file("backup.7Z.001"));
    assert!(!is_7z_file("notes.txt"));
    assert!(is_multipart_mkv("Movie.mkv.001"));
    assert!(is_multipart_mkv("Movie.MP4.123"));
    assert!(!is_multipart_mkv("Movie.mkv"));
    assert!(!is_multipart_mkv("Movie.mkv.01"));
    assert!(is_important_file_type("a.r05"));
    assert!(is_important_file_type("b.webm"));
    assert!(!is_important_file_type("c.nfo"));
}

#[test]
fn video_extension_follows_path_rules() {
    assert!(!is_video_file(".mkv"));
    assert!(is_video_file("dir.mkv/sub/x.m4v"));
    assert!(is_video_file("x.mov/"));
    assert!(!is_video_file("x.mkv/.."));
    assert!(is_video_file("x.mkv/."));
}

#[test]
fn obfuscation_edge_cases() {
    assert!(is_probably_obfuscated(""));
    assert!(!is_probably_obfuscated("a1b2c3d4e5f6a1b2c3d4e5f6a1b2c3d.mkv"));
    assert!(is_probably_obfuscated("00112233445566778899aabbccddeeff"));
}

#[test]
fn job_name_strips_repeated_endings() {
    assert_eq!(get_job_name("a.nzb.nzb"), "a");
    assert_eq!(get_job_name("  spaced {{pw}} name .nzb"), "spacedname");
}
