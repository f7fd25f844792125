//! The interactive session as a state machine.
//!
//! The flow is linear: ask for a directory, scan it, let the user pick
//! an entry (or type a path), resolve the input and output paths, run
//! the transcode, report.  Prompting, scanning and running are plain
//! I/O and happen outside the library: the machine only decides, on
//! each answer, what state comes next and what to do there.

use vstd::prelude::*;

use crate::catalog::views_of;
use crate::paths::{derive_output_spec, is_remote_spec, resolve_spec, classify, get_output_path,
    resolve_full_input_path, Locator};
use crate::transcode::{TranscodeOutcome, TranscodeRequest, exit_code_spec, exit_code_of};
use crate::video_file::VideoFile;

verus! {

/// Where the session stands: what answer it is waiting for.
#[derive(Debug)]
pub enum SessionState {
    /// Waiting for the user to accept or decline the default directory.
    AwaitDirChoice,
    /// Waiting for a custom directory path (re-asked until one exists).
    AwaitCustomDir,
    /// Waiting for the scan of the chosen root directory.
    AwaitScan { root: String },
    /// Waiting for the user to pick a catalog entry or the manual option.
    AwaitSelection { root: String, catalog: Vec<VideoFile> },
    /// The catalog was empty: waiting for yes/no on manual entry.
    AwaitManualConfirm { root: String },
    /// Waiting for a manually typed path or locator.
    AwaitManualPath { root: String },
    /// Waiting to hear whether the resolved local input exists.
    AwaitFileCheck { input: String },
    /// Waiting for the transcode run to finish.
    AwaitTranscode,
    /// The session is over; the process exits with this code.
    Done { code: i32 },
}

/// What the session learned: the answer the machine was waiting for.
#[derive(Debug)]
pub enum SessionEvent {
    /// Whether the default directory was accepted.
    DirChoice(bool),
    /// A custom directory path, and whether it names an existing directory.
    CustomDir { path: String, exists: bool },
    /// The catalog built from scanning the root directory.
    Scanned(Vec<VideoFile>),
    /// The index picked from the catalog; the index one past the end
    /// stands for the manual-entry option.
    Picked(usize),
    /// Whether manual entry was accepted on an empty catalog.
    ManualConfirm(bool),
    /// A manually typed path or locator.
    ManualPath(String),
    /// Whether the resolved local input file exists.
    FileExists(bool),
    /// The outcome of the transcode run.
    Finished(TranscodeOutcome),
}

/// What to do next: the one piece of outside work the new state waits on.
#[derive(Debug)]
pub enum SessionAction {
    /// Ask whether to use this default directory.
    PromptUseDefault(String),
    /// Ask for a custom directory path.
    PromptCustomDir,
    /// Scan this directory.
    Scan(String),
    /// Present the catalog (plus the manual option) for selection.
    PromptSelect,
    /// Ask whether to enter a path manually.
    PromptManualConfirm,
    /// Ask for a path or locator.
    PromptManualPath,
    /// Check whether this local file exists.
    CheckFile(String),
    /// Run the transcode engine on this request.
    Transcode(TranscodeRequest),
    /// End the process with this exit code.
    Quit(i32),
}

/// Resolving a selection against the root: a remote locator goes
/// straight to the transcode; a local path is first checked on disk.
pub open spec fn resolves_to(
    root: Seq<char>,
    selection: Seq<char>,
    s2: SessionState,
    a: SessionAction,
) -> bool {
    let full = resolve_spec(selection, root);
    if is_remote_spec(full) {
        &&& s2 matches SessionState::AwaitTranscode
        &&& a matches SessionAction::Transcode(req) && req.input@ == full && req.output@
            == derive_output_spec(full)
    } else {
        &&& s2 matches SessionState::AwaitFileCheck { input } && input@ == full
        &&& a matches SessionAction::CheckFile(p) && p@ == full
    }
}

/// The transition relation of the session: from the state `s` and the
/// event `e`, the machine configured with default directory `default_dir`
/// moves to `s2` and asks for `a`.  A mismatched event ends the session
/// as a failure.
pub open spec fn step_rel(
    default_dir: Seq<char>,
    s: SessionState,
    e: SessionEvent,
    s2: SessionState,
    a: SessionAction,
) -> bool {
    match (s, e) {
        (SessionState::AwaitDirChoice, SessionEvent::DirChoice(use_default)) => {
            if use_default {
                &&& s2 matches SessionState::AwaitScan { root } && root@ == default_dir
                &&& a matches SessionAction::Scan(d) && d@ == default_dir
            } else {
                &&& s2 == SessionState::AwaitCustomDir
                &&& a == SessionAction::PromptCustomDir
            }
        },
        (SessionState::AwaitCustomDir, SessionEvent::CustomDir { path, exists }) => {
            if exists {
                &&& s2 matches SessionState::AwaitScan { root } && root@ == path@
                &&& a matches SessionAction::Scan(d) && d@ == path@
            } else {
                &&& s2 == SessionState::AwaitCustomDir
                &&& a == SessionAction::PromptCustomDir
            }
        },
        (SessionState::AwaitScan { root }, SessionEvent::Scanned(catalog)) => {
            if catalog@.len() == 0 {
                &&& s2 matches SessionState::AwaitManualConfirm { root: r2 } && r2@ == root@
                &&& a == SessionAction::PromptManualConfirm
            } else {
                &&& s2 matches SessionState::AwaitSelection { root: r2, catalog: c2 } && r2@
                    == root@ && views_of(c2@) == views_of(catalog@)
                &&& a == SessionAction::PromptSelect
            }
        },
        (
            SessionState::AwaitSelection { root, catalog },
            SessionEvent::Picked(i),
        ) => {
            if i < catalog@.len() {
                resolves_to(root@, catalog@[i as int]@.name, s2, a)
            } else {
                &&& s2 matches SessionState::AwaitManualPath { root: r2 } && r2@ == root@
                &&& a == SessionAction::PromptManualPath
            }
        },
        (SessionState::AwaitManualConfirm { root }, SessionEvent::ManualConfirm(yes)) => {
            if yes {
                &&& s2 matches SessionState::AwaitManualPath { root: r2 } && r2@ == root@
                &&& a == SessionAction::PromptManualPath
            } else {
                &&& s2 == (SessionState::Done { code: 0 })
                &&& a == SessionAction::Quit(0)
            }
        },
        (SessionState::AwaitManualPath { root }, SessionEvent::ManualPath(p)) => {
            resolves_to(root@, p@, s2, a)
        },
        (SessionState::AwaitFileCheck { input }, SessionEvent::FileExists(found)) => {
            if found {
                &&& s2 matches SessionState::AwaitTranscode
                &&& a matches SessionAction::Transcode(req) && req.input@ == input@ && req.output@
                    == derive_output_spec(input@)
            } else {
                &&& s2 == (SessionState::Done { code: 0 })
                &&& a == SessionAction::Quit(0)
            }
        },
        (SessionState::AwaitTranscode, SessionEvent::Finished(outcome)) => {
            &&& s2 == (SessionState::Done { code: exit_code_spec(outcome) })
            &&& a == SessionAction::Quit(exit_code_spec(outcome))
        },
        _ => {
            &&& s2 == (SessionState::Done { code: 1 })
            &&& a == SessionAction::Quit(1)
        },
    }
}

/// Resolves a selection and moves to the transcode or the existence check.
pub(crate) fn resolve_selection(root: &str, selection: &str) -> (r: (SessionState, SessionAction))
    ensures
        resolves_to(root@, selection@, r.0, r.1),
{
    let full: String = resolve_full_input_path(selection, root);
    match classify(full.as_str()) {
        Locator::Remote => {
            let output = get_output_path(full.as_str());
            let req = TranscodeRequest { input: full, output };
            (SessionState::AwaitTranscode, SessionAction::Transcode(req))
        },
        Locator::Local => {
            let check = full.clone();
            (SessionState::AwaitFileCheck { input: full }, SessionAction::CheckFile(check))
        },
    }
}

} // verus!
