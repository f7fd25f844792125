use vid2mp3::config::Config;

const BUILT_IN: &str = "/Users/hackyourfuture/Downloads";

#[test]
fn missing_file_keeps_built_in_default() {
    let c = Config::load(None);
    assert_eq!(c.default_dir, BUILT_IN);
}

#[test]
fn missing_key_keeps_built_in_default() {
    let c = Config::load(Some("OTHER=/x\n"));
    assert_eq!(c.default_dir, BUILT_IN);
}

#[test]
fn key_overrides_default() {
    let c = Config::load(Some("DEFAULT_DIR=/media/videos\n"));
    assert_eq!(c.default_dir, "/media/videos");
}

#[test]
fn key_and_value_are_trimmed() {
    let c = Config::load(Some("  DEFAULT_DIR =   /media/videos  \n"));
    assert_eq!(c.default_dir, "/media/videos");
}

#[test]
fn comments_and_blank_lines_are_ignored() {
    let content = "# a comment\n\nDEFAULT_DIR=/media\n# DEFAULT_DIR=/ignored\n";
    let c = Config::load(Some(content));
    assert_eq!(c.default_dir, "/media");
}

#[test]
fn lines_without_equals_are_ignored() {
    let c = Config::load(Some("DEFAULT_DIR /media\n"));
    assert_eq!(c.default_dir, BUILT_IN);
}

#[test]
fn last_occurrence_wins() {
    let c = Config::load(Some("DEFAULT_DIR=/first\nDEFAULT_DIR=/second\n"));
    assert_eq!(c.default_dir, "/second");
}

#[test]
fn value_may_contain_equals() {
    let c = Config::load(Some("DEFAULT_DIR=/a=b\n"));
    assert_eq!(c.default_dir, "/a=b");
}

#[test]
fn windows_line_endings_are_handled() {
    let c = Config::load(Some("DEFAULT_DIR=/media\r\n"));
    assert_eq!(c.default_dir, "/media");
}

#[test]
fn default_impl_matches_built_in() {
    let c = Config::default();
    assert_eq!(c.default_dir, BUILT_IN);
}
