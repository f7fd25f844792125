//! Core logic of an interactive video-to-MP3 converter.
//!
//! The library owns everything the tool decides: which directory
//! entries form the catalog and in what order (`catalog`), whether an
//! input is a remote locator or a local path and where the audio
//! artifact goes (`paths`), the settings-file parsing (`config`), the
//! fixed engine invocation and the classification of its result
//! (`transcode`), and the session state machine that sequences the
//! whole flow (`session`, `converter`).  Prompting, filesystem access
//! and the engine subprocess are plain I/O: the surrounding program
//! performs them and feeds the answers back as events.

pub mod catalog;
pub mod config;
pub mod converter;
pub mod session;
pub mod paths;
pub mod transcode;
pub mod video_file;
pub mod text;

