use vid2mp3::config::Config;
use vid2mp3::converter::VideoConverter;
use vid2mp3::session::{SessionAction, SessionEvent, SessionState};
use vid2mp3::transcode::TranscodeOutcome;
use vid2mp3::video_file::VideoFile;

fn converter() -> VideoConverter {
    VideoConverter::new(Config::load(None))
}

#[test]
fn start_offers_the_default_directory() {
    let conv = converter();
    let (state, action) = conv.start();
    assert!(matches!(state, SessionState::AwaitDirChoice));
    match action {
        SessionAction::PromptUseDefault(d) => assert_eq!(d, "/Users/hackyourfuture/Downloads"),
        _ => panic!("expected the default-directory prompt"),
    }
}

#[test]
fn declining_the_default_asks_for_a_custom_directory() {
    let conv = converter();
    let (state, _) = conv.start();
    let (state, action) = conv.step(state, SessionEvent::DirChoice(false));
    assert!(matches!(state, SessionState::AwaitCustomDir));
    assert!(matches!(action, SessionAction::PromptCustomDir));
}

#[test]
fn missing_custom_directory_is_asked_again() {
    let conv = converter();
    let state = SessionState::AwaitCustomDir;
    let event = SessionEvent::CustomDir { path: "/nope".to_string(), exists: false };
    let (state, action) = conv.step(state, event);
    assert!(matches!(state, SessionState::AwaitCustomDir));
    assert!(matches!(action, SessionAction::PromptCustomDir));
}

#[test]
fn accepting_the_default_scans_it() {
    let conv = converter();
    let (state, _) = conv.start();
    let (state, action) = conv.step(state, SessionEvent::DirChoice(true));
    match &state {
        SessionState::AwaitScan { root } => assert_eq!(root, "/Users/hackyourfuture/Downloads"),
        _ => panic!("expected to wait for the scan"),
    }
    match action {
        SessionAction::Scan(d) => assert_eq!(d, "/Users/hackyourfuture/Downloads"),
        _ => panic!("expected a scan action"),
    }
}

#[test]
fn full_session_with_a_failing_transcode_exits_one() {
    let conv = converter();
    let state = SessionState::AwaitCustomDir;
    let event = SessionEvent::CustomDir { path: "/media".to_string(), exists: true };
    let (state, action) = conv.step(state, event);
    match &action {
        SessionAction::Scan(d) => assert_eq!(d, "/media"),
        _ => panic!("expected a scan action"),
    }

    let catalog = vec![VideoFile::new("/media/clip.mp4", 9)];
    let (state, action) = conv.step(state, SessionEvent::Scanned(catalog));
    assert!(matches!(action, SessionAction::PromptSelect));

    let (state, action) = conv.step(state, SessionEvent::Picked(0));
    match &state {
        SessionState::AwaitFileCheck { input } => assert_eq!(input, "/media/clip.mp4"),
        _ => panic!("expected the existence check"),
    }
    match &action {
        SessionAction::CheckFile(p) => assert_eq!(p, "/media/clip.mp4"),
        _ => panic!("expected a file check"),
    }

    let (state, action) = conv.step(state, SessionEvent::FileExists(true));
    assert!(matches!(state, SessionState::AwaitTranscode));
    match &action {
        SessionAction::Transcode(req) => {
            assert_eq!(req.input, "/media/clip.mp4");
            assert_eq!(req.output, "/media/clip.mp3");
        },
        _ => panic!("expected a transcode action"),
    }

    let outcome = TranscodeOutcome::FailedWithExitCode(1);
    let (state, action) = conv.step(state, SessionEvent::Finished(outcome));
    match state {
        SessionState::Done { code } => assert_eq!(code, 1),
        _ => panic!("expected the session to end"),
    }
    assert!(matches!(action, SessionAction::Quit(1)));
}

#[test]
fn empty_catalog_offers_manual_entry_and_declining_aborts_cleanly() {
    let conv = converter();
    let state = SessionState::AwaitScan { root: "/media".to_string() };
    let (state, action) = conv.step(state, SessionEvent::Scanned(Vec::new()));
    assert!(matches!(action, SessionAction::PromptManualConfirm));

    let (state, action) = conv.step(state, SessionEvent::ManualConfirm(false));
    match state {
        SessionState::Done { code } => assert_eq!(code, 0),
        _ => panic!("expected the session to end"),
    }
    assert!(matches!(action, SessionAction::Quit(0)));
}

#[test]
fn manual_remote_input_goes_straight_to_transcode() {
    let conv = converter();
    let state = SessionState::AwaitManualPath { root: "/media".to_string() };
    let event = SessionEvent::ManualPath("https://example.com/a/b.mp4".to_string());
    let (state, action) = conv.step(state, event);
    assert!(matches!(state, SessionState::AwaitTranscode));
    match &action {
        SessionAction::Transcode(req) => {
            assert_eq!(req.input, "https://example.com/a/b.mp4");
            assert_eq!(req.output, "b.mp3");
        },
        _ => panic!("expected a transcode action"),
    }
}

#[test]
fn picking_past_the_catalog_asks_for_a_manual_path() {
    let conv = converter();
    let catalog = vec![VideoFile::new("/media/clip.mp4", 9)];
    let state = SessionState::AwaitSelection { root: "/media".to_string(), catalog };
    let (state, action) = conv.step(state, SessionEvent::Picked(1));
    match &state {
        SessionState::AwaitManualPath { root } => assert_eq!(root, "/media"),
        _ => panic!("expected to wait for a manual path"),
    }
    assert!(matches!(action, SessionAction::PromptManualPath));
}

#[test]
fn missing_resolved_file_aborts_cleanly() {
    let conv = converter();
    let state = SessionState::AwaitFileCheck { input: "/media/clip.mp4".to_string() };
    let (state, action) = conv.step(state, SessionEvent::FileExists(false));
    match state {
        SessionState::Done { code } => assert_eq!(code, 0),
        _ => panic!("expected the session to end"),
    }
    assert!(matches!(action, SessionAction::Quit(0)));
}

#[test]
fn mismatched_event_ends_the_session_as_a_failure() {
    let conv = converter();
    let state = SessionState::AwaitTranscode;
    let (state, action) = conv.step(state, SessionEvent::DirChoice(true));
    match state {
        SessionState::Done { code } => assert_eq!(code, 1),
        _ => panic!("expected the session to end"),
    }
    assert!(matches!(action, SessionAction::Quit(1)));
}
