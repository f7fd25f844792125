use vid2mp3::catalog::{get_video_files, ScanEntry};
use vid2mp3::video_file::VideoFile;

fn entry(path: &str, size_bytes: u64) -> ScanEntry {
    ScanEntry { path: path.to_string(), size_bytes }
}

#[test]
fn catalog_keeps_supported_sorted_case_insensitively() {
    let scan = vec![entry("B.MP4", 10), entry("a.avi", 20), entry("c.txt", 30)];
    let catalog = get_video_files(Some(scan));
    let names: Vec<&str> = catalog.iter().map(|v| v.name.as_str()).collect();
    assert_eq!(names, vec!["a.avi", "B.MP4"]);
}

#[test]
fn catalog_of_missing_directory_is_empty() {
    let catalog = get_video_files(None);
    assert!(catalog.is_empty());
}

#[test]
fn catalog_of_empty_scan_is_empty() {
    let catalog = get_video_files(Some(Vec::new()));
    assert!(catalog.is_empty());
}

#[test]
fn catalog_sorts_full_paths_by_file_name() {
    let scan = vec![
        entry("/media/zebra.mkv", 1),
        entry("/media/Alpha.MOV", 2),
        entry("/media/mango.webm", 3),
        entry("/media/notes.pdf", 4),
    ];
    let catalog = get_video_files(Some(scan));
    let names: Vec<&str> = catalog.iter().map(|v| v.name.as_str()).collect();
    assert_eq!(names, vec!["Alpha.MOV", "mango.webm", "zebra.mkv"]);
    assert_eq!(catalog[0].path, "/media/Alpha.MOV");
    assert_eq!(catalog[0].size_bytes, 2);
    assert_eq!(catalog[0].extension, "mov");
}

#[test]
fn video_file_lowercases_extension() {
    let v = VideoFile::new("/media/Movie.MKV", 7);
    assert_eq!(v.name, "Movie.MKV");
    assert_eq!(v.path, "/media/Movie.MKV");
    assert_eq!(v.size_bytes, 7);
    assert_eq!(v.extension, "mkv");
    assert!(v.is_supported_video());
}

#[test]
fn video_file_unsupported_extension() {
    let v = VideoFile::new("/media/c.txt", 1);
    assert_eq!(v.extension, "txt");
    assert!(!v.is_supported_video());
}

#[test]
fn video_file_without_extension() {
    let v = VideoFile::new("/media/raw", 1);
    assert_eq!(v.name, "raw");
    assert_eq!(v.extension, "");
    assert!(!v.is_supported_video());
}

#[test]
fn names_equal_up_to_case_keep_scan_order() {
    let scan = vec![entry("/d/a.MP4", 1), entry("/d/A.mp4", 2)];
    let catalog = get_video_files(Some(scan));
    let names: Vec<&str> = catalog.iter().map(|v| v.name.as_str()).collect();
    assert_eq!(names, vec!["a.MP4", "A.mp4"]);
}

#[test]
fn path_without_file_name_falls_back_to_unknown() {
    let v = VideoFile::new("/media/", 3);
    assert_eq!(v.name, "unknown");
    assert_eq!(v.extension, "");
    assert!(!v.is_supported_video());
}

#[test]
fn all_supported_extensions_are_kept() {
    let paths = [
        "a.mp4", "b.avi", "c.mov", "d.mkv", "e.flv", "f.wmv", "g.webm", "h.m4v", "i.3gp",
    ];
    let scan: Vec<ScanEntry> = paths.iter().map(|p| entry(p, 1)).collect();
    let catalog = get_video_files(Some(scan));
    assert_eq!(catalog.len(), 9);
}
