//! The converter: the configured session driver.
//!
//! It owns the configuration and decides every session transition; the
//! surrounding program performs the prompts, the scan and the engine
//! run, and feeds each answer back as an event.

use vstd::prelude::*;

use crate::config::Config;
use crate::session::{SessionAction, SessionEvent, SessionState, resolve_selection, step_rel};
use crate::paths::get_output_path;
use crate::transcode::{TranscodeRequest, exit_code_of};

verus! {

/// The interactive video converter.
pub struct VideoConverter {
    pub config: Config,
}

impl VideoConverter {
    /// A converter with the given configuration.
    pub fn new(config: Config) -> (c: VideoConverter)
        ensures
            c.config == config,
    {
        VideoConverter { config }
    }

    /// The session's first state and action: offer the default directory.
    pub fn start(&self) -> (r: (SessionState, SessionAction))
        ensures
            r.0 == SessionState::AwaitDirChoice,
            r.1 matches SessionAction::PromptUseDefault(d) && d@ == self.config.default_dir@,
    {
        (
            SessionState::AwaitDirChoice,
            SessionAction::PromptUseDefault(self.config.default_dir.clone()),
        )
    }

    /// One step of the session: consumes the state and the event,
    /// returns the next state and the action to perform there.
    pub fn step(&self, state: SessionState, event: SessionEvent) -> (r: (
        SessionState,
        SessionAction,
    ))
        ensures
            step_rel(self.config.default_dir@, state, event, r.0, r.1),
    {
        let default_dir: &str = self.config.default_dir.as_str();
        match (state, event) {
            (SessionState::AwaitDirChoice, SessionEvent::DirChoice(use_default)) => {
                if use_default {
                    let root = String::from_str(default_dir);
                    let dir = String::from_str(default_dir);
                    (SessionState::AwaitScan { root }, SessionAction::Scan(dir))
                } else {
                    (SessionState::AwaitCustomDir, SessionAction::PromptCustomDir)
                }
            },
            (SessionState::AwaitCustomDir, SessionEvent::CustomDir { path, exists }) => {
                if exists {
                    let dir = path.clone();
                    (SessionState::AwaitScan { root: path }, SessionAction::Scan(dir))
                } else {
                    (SessionState::AwaitCustomDir, SessionAction::PromptCustomDir)
                }
            },
            (SessionState::AwaitScan { root }, SessionEvent::Scanned(catalog)) => {
                if catalog.is_empty() {
                    (
                        SessionState::AwaitManualConfirm { root },
                        SessionAction::PromptManualConfirm,
                    )
                } else {
                    (
                        SessionState::AwaitSelection { root, catalog },
                        SessionAction::PromptSelect,
                    )
                }
            },
            (SessionState::AwaitSelection { root, catalog }, SessionEvent::Picked(i)) => {
                if i < catalog.len() {
                    resolve_selection(root.as_str(), catalog[i].name.as_str())
                } else {
                    (SessionState::AwaitManualPath { root }, SessionAction::PromptManualPath)
                }
            },
            (SessionState::AwaitManualConfirm { root }, SessionEvent::ManualConfirm(yes)) => {
                if yes {
                    (SessionState::AwaitManualPath { root }, SessionAction::PromptManualPath)
                } else {
                    (SessionState::Done { code: 0 }, SessionAction::Quit(0))
                }
            },
            (SessionState::AwaitManualPath { root }, SessionEvent::ManualPath(p)) => {
                resolve_selection(root.as_str(), p.as_str())
            },
            (SessionState::AwaitFileCheck { input }, SessionEvent::FileExists(found)) => {
                if found {
                    let output = get_output_path(input.as_str());
                    let req = TranscodeRequest { input, output };
                    (SessionState::AwaitTranscode, SessionAction::Transcode(req))
                } else {
                    (SessionState::Done { code: 0 }, SessionAction::Quit(0))
                }
            },
            (SessionState::AwaitTranscode, SessionEvent::Finished(outcome)) => {
                let code = exit_code_of(&outcome);
                (SessionState::Done { code }, SessionAction::Quit(code))
            },
            _ => (SessionState::Done { code: 1 }, SessionAction::Quit(1)),
        }
    }
}

} // verus!
