use vid2mp3::paths::{classify, get_output_path, resolve_full_input_path, Locator};

#[test]
fn classify_https_is_remote() {
    assert_eq!(classify("https://example.com/v.mp4"), Locator::Remote);
}

#[test]
fn classify_http_is_remote() {
    assert_eq!(classify("http://example.com/v.mp4"), Locator::Remote);
}

#[test]
fn classify_ftp_is_local() {
    assert_eq!(classify("ftp://x/y.mp4"), Locator::Local);
}

#[test]
fn classify_plain_path_is_local() {
    assert_eq!(classify("/tmp/v.mp4"), Locator::Local);
}

#[test]
fn classify_relative_path_is_local() {
    assert_eq!(classify("clips/v.mp4"), Locator::Local);
}

#[test]
fn output_path_beside_local_input() {
    assert_eq!(get_output_path("/tmp/clip.mp4"), "/tmp/clip.mp3");
}

#[test]
fn output_path_for_remote_ignores_query_and_directory() {
    assert_eq!(get_output_path("https://example.com/path/clip.mov?x=1"), "clip.mp3");
}

#[test]
fn output_path_for_bare_name() {
    assert_eq!(get_output_path("clip.mp4"), "clip.mp3");
}

#[test]
fn output_path_keeps_multi_dot_stem() {
    assert_eq!(get_output_path("/a/b/archive.tar.gz"), "/a/b/archive.tar.mp3");
}

#[test]
fn output_path_hidden_file_has_no_extension() {
    assert_eq!(get_output_path("/home/x/.env"), "/home/x/.env.mp3");
}

#[test]
fn output_path_remote_without_file_falls_back() {
    assert_eq!(get_output_path("https://example.com"), "output.mp3");
}

#[test]
fn output_path_is_deterministic() {
    let first = get_output_path("https://example.com/path/clip.mov?x=1");
    let second = get_output_path("https://example.com/path/clip.mov?x=1");
    assert_eq!(first, second);
    let first = get_output_path("/tmp/clip.mp4");
    let second = get_output_path("/tmp/clip.mp4");
    assert_eq!(first, second);
}

#[test]
fn resolve_joins_relative_selection() {
    assert_eq!(resolve_full_input_path("v.mp4", "/media"), "/media/v.mp4");
}

#[test]
fn resolve_does_not_double_the_separator() {
    assert_eq!(resolve_full_input_path("v.mp4", "/media/"), "/media/v.mp4");
}

#[test]
fn resolve_keeps_absolute_selection() {
    assert_eq!(resolve_full_input_path("/tmp/v.mp4", "/media"), "/tmp/v.mp4");
}

#[test]
fn resolve_keeps_remote_selection() {
    assert_eq!(
        resolve_full_input_path("https://example.com/v.mp4", "/media"),
        "https://example.com/v.mp4"
    );
}
