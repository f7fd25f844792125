//! The transcode run: the fixed engine invocation and how its result is
//! classified.
//!
//! Launching and awaiting the engine subprocess is plain I/O and happens
//! outside the library; the library fixes the argument list and turns
//! what the wait (or the launch failure) reported into an outcome.

use vstd::prelude::*;

verus! {

/// One transcode to perform: where the input is and where the audio
/// artifact goes.
#[derive(Clone, Debug)]
pub struct TranscodeRequest {
    pub input: String,
    pub output: String,
}

/// How a transcode run ended.
#[derive(Clone, Debug)]
pub enum TranscodeOutcome {
    /// The engine exited with status zero; the artifact's size is kept
    /// when its metadata could be read.
    Succeeded { output_path: String, size_bytes: Option<u64> },
    /// The engine exited with a nonzero status code.
    FailedWithExitCode(i32),
    /// The engine was terminated without an exit code.
    FailedBySignal,
    /// The engine executable could not be located.
    EngineNotFound,
    /// Any other launch or wait error, with its message.
    OtherError(String),
}

/// The name of the external transcoding engine's executable.
pub fn engine_name() -> (r: String)
    ensures
        r@ == "ffmpeg"@,
{
    String::from_str("ffmpeg")
}

/// The fixed, non-configurable engine argument list: input, video
/// disabled, MP3 codec at 192 kbit/s, overwrite, output.
pub fn transcode_args(request: &TranscodeRequest) -> (args: Vec<String>)
    ensures
        args@.len() == 9,
        args@[0]@ == "-i"@,
        args@[1]@ == request.input@,
        args@[2]@ == "-vn"@,
        args@[3]@ == "-acodec"@,
        args@[4]@ == "libmp3lame"@,
        args@[5]@ == "-ab"@,
        args@[6]@ == "192k"@,
        args@[7]@ == "-y"@,
        args@[8]@ == request.output@,
{
    let mut args: Vec<String> = Vec::new();
    args.push(String::from_str("-i"));
    args.push(request.input.clone());
    args.push(String::from_str("-vn"));
    args.push(String::from_str("-acodec"));
    args.push(String::from_str("libmp3lame"));
    args.push(String::from_str("-ab"));
    args.push(String::from_str("192k"));
    args.push(String::from_str("-y"));
    args.push(request.output.clone());
    args
}

/// Classifies a completed engine process: exit status zero is success,
/// any other code is a coded failure, and no code at all means the
/// process was terminated by a signal.
pub fn outcome_of_wait(code: Option<i32>, output_path: &str, size_bytes: Option<u64>) -> (o:
    TranscodeOutcome)
    ensures
        match code {
            Some(c) => if c == 0 {
                o matches TranscodeOutcome::Succeeded { output_path: p, size_bytes: s } && p@
                    == output_path@ && s == size_bytes
            } else {
                o == TranscodeOutcome::FailedWithExitCode(c)
            },
            None => o == TranscodeOutcome::FailedBySignal,
        },
{
    match code {
        Some(c) => {
            if c == 0 {
                TranscodeOutcome::Succeeded {
                    output_path: String::from_str(output_path),
                    size_bytes,
                }
            } else {
                TranscodeOutcome::FailedWithExitCode(c)
            }
        },
        None => TranscodeOutcome::FailedBySignal,
    }
}

/// Classifies a failure to launch or await the engine: a missing
/// executable is its own actionable outcome, anything else keeps its
/// message.
pub fn outcome_of_launch_error(engine_missing: bool, message: String) -> (o: TranscodeOutcome)
    ensures
        engine_missing ==> o == TranscodeOutcome::EngineNotFound,
        !engine_missing ==> o == TranscodeOutcome::OtherError(message),
{
    if engine_missing {
        TranscodeOutcome::EngineNotFound
    } else {
        TranscodeOutcome::OtherError(message)
    }
}

/// The process exit code an outcome is reported with: zero for success,
/// one for every failure.
pub open spec fn exit_code_spec(o: TranscodeOutcome) -> i32 {
    match o {
        TranscodeOutcome::Succeeded { .. } => 0,
        _ => 1,
    }
}

pub fn exit_code_of(o: &TranscodeOutcome) -> (c: i32)
    ensures
        c == exit_code_spec(*o),
        c == 0 <==> o matches TranscodeOutcome::Succeeded { .. },
{
    match o {
        TranscodeOutcome::Succeeded { .. } => 0,
        _ => 1,
    }
}

} // verus!
