use vid2mp3::transcode::{
    engine_name, exit_code_of, outcome_of_launch_error, outcome_of_wait, transcode_args,
    TranscodeOutcome, TranscodeRequest,
};

#[test]
fn engine_is_ffmpeg() {
    assert_eq!(engine_name(), "ffmpeg");
}

#[test]
fn argument_list_is_fixed() {
    let req = TranscodeRequest {
        input: "/media/clip.mp4".to_string(),
        output: "/media/clip.mp3".to_string(),
    };
    let args = transcode_args(&req);
    let expected = vec![
        "-i",
        "/media/clip.mp4",
        "-vn",
        "-acodec",
        "libmp3lame",
        "-ab",
        "192k",
        "-y",
        "/media/clip.mp3",
    ];
    let got: Vec<&str> = args.iter().map(|a| a.as_str()).collect();
    assert_eq!(got, expected);
}

#[test]
fn exit_code_one_is_a_coded_failure() {
    let o = outcome_of_wait(Some(1), "out.mp3", None);
    match o {
        TranscodeOutcome::FailedWithExitCode(c) => assert_eq!(c, 1),
        _ => panic!("expected a coded failure"),
    }
    assert_eq!(exit_code_of(&o), 1);
}

#[test]
fn exit_code_zero_succeeds() {
    let o = outcome_of_wait(Some(0), "out.mp3", Some(2048));
    match &o {
        TranscodeOutcome::Succeeded { output_path, size_bytes } => {
            assert_eq!(output_path, "out.mp3");
            assert_eq!(*size_bytes, Some(2048));
        },
        _ => panic!("expected success"),
    }
    assert_eq!(exit_code_of(&o), 0);
}

#[test]
fn no_exit_code_means_signal() {
    let o = outcome_of_wait(None, "out.mp3", None);
    assert!(matches!(o, TranscodeOutcome::FailedBySignal));
    assert_eq!(exit_code_of(&o), 1);
}

#[test]
fn missing_engine_is_its_own_outcome() {
    let o = outcome_of_launch_error(true, "ignored".to_string());
    assert!(matches!(o, TranscodeOutcome::EngineNotFound));
    assert_eq!(exit_code_of(&o), 1);
}

#[test]
fn other_launch_errors_keep_their_message() {
    let o = outcome_of_launch_error(false, "permission denied".to_string());
    match &o {
        TranscodeOutcome::OtherError(m) => assert_eq!(m, "permission denied"),
        _ => panic!("expected an other-error outcome"),
    }
    assert_eq!(exit_code_of(&o), 1);
}
