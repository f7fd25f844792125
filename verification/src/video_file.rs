//! A directory entry that may name a video file: its name, full path,
//! size in bytes and lower-cased extension.

use vstd::prelude::*;

use crate::paths::{file_name_of, last_index_of, lemma_last_index_of};
use crate::text::{lower_seq, str_eq, to_lower};

verus! {

/// A video file with its metadata.
#[derive(Clone, Debug)]
pub struct VideoFile {
    pub name: String,
    pub path: String,
    pub size_bytes: u64,
    pub extension: String,
}

/// The mathematical content of a `VideoFile`.
pub struct VideoFileView {
    pub name: Seq<char>,
    pub path: Seq<char>,
    pub size_bytes: u64,
    pub extension: Seq<char>,
}

impl View for VideoFile {
    type V = VideoFileView;

    open spec fn view(&self) -> VideoFileView {
        VideoFileView {
            name: self.name@,
            path: self.path@,
            size_bytes: self.size_bytes,
            extension: self.extension@,
        }
    }
}

/// The extension of a file name: the text after the last `.`, except
/// that a leading `.` (a hidden file) does not begin an extension.
pub open spec fn ext_of(name: Seq<char>) -> Seq<char> {
    match last_index_of(name, '.') {
        Some(k) => if k > 0 {
            name.skip(k + 1)
        } else {
            Seq::empty()
        },
        None => Seq::empty(),
    }
}

/// What a scan entry with the given path and size turns into: the name
/// is the file-name part of the path (`unknown` when there is none) and
/// the extension is the lower-cased extension of that file name.
pub open spec fn entry_model(path: Seq<char>, size_bytes: u64) -> VideoFileView {
    let raw_name = file_name_of(path);
    VideoFileView {
        name: if raw_name.len() == 0 {
            "unknown"@
        } else {
            raw_name
        },
        path: path,
        size_bytes: size_bytes,
        extension: lower_seq(ext_of(raw_name)),
    }
}

/// The fixed set of supported video extensions, matched lower-case.
pub open spec fn is_supported(ext: Seq<char>) -> bool {
    ||| ext == "mp4"@
    ||| ext == "avi"@
    ||| ext == "mov"@
    ||| ext == "mkv"@
    ||| ext == "flv"@
    ||| ext == "wmv"@
    ||| ext == "webm"@
    ||| ext == "m4v"@
    ||| ext == "3gp"@
}

impl VideoFile {
    /// Builds the entry for a path and its size metadata.
    pub fn new(path: &str, size_bytes: u64) -> (v: VideoFile)
        ensures
            v@ == entry_model(path@, size_bytes),
    {
        let n: usize = path.unicode_len();
        let start: usize = match crate::paths::find_last(path, '/') {
            Some(k) => {
                proof {
                    lemma_last_index_of(path@, '/');
                }
                k + 1
            },
            None => 0,
        };
        let raw_name: &str = path.substring_char(start, n);
        proof {
            assert(raw_name@ =~= file_name_of(path@));
        }
        let name_len: usize = raw_name.unicode_len();
        let name: String = if name_len == 0 {
            String::from_str("unknown")
        } else {
            String::from_str(raw_name)
        };
        let ext: String = match crate::paths::find_last(raw_name, '.') {
            Some(k) => {
                proof {
                    lemma_last_index_of(raw_name@, '.');
                }
                if k > 0 {
                    let raw_ext: &str = raw_name.substring_char(k + 1, name_len);
                    proof {
                        assert(raw_ext@ =~= ext_of(raw_name@));
                    }
                    to_lower(raw_ext)
                } else {
                    proof {
                        assert(ext_of(raw_name@) =~= Seq::<char>::empty());
                        assert(lower_seq(ext_of(raw_name@)) =~= Seq::<char>::empty());
                    }
                    String::new()
                }
            },
            None => {
                proof {
                    assert(lower_seq(ext_of(raw_name@)) =~= Seq::<char>::empty());
                }
                String::new()
            },
        };
        VideoFile { name, path: String::from_str(path), size_bytes, extension: ext }
    }

    /// The entry names a supported video format.
    pub fn is_supported_video(&self) -> (r: bool)
        ensures
            r == is_supported(self.extension@),
    {
        let e = self.extension.as_str();
        str_eq(e, "mp4") || str_eq(e, "avi") || str_eq(e, "mov") || str_eq(e, "mkv") || str_eq(
            e,
            "flv",
        ) || str_eq(e, "wmv") || str_eq(e, "webm") || str_eq(e, "m4v") || str_eq(e, "3gp")
    }
}

} // verus!
