//! Locator classification and output-path derivation.
//!
//! An input is either a remote locator (an absolute URI whose scheme is
//! exactly `http` or `https`) or a local path.  The output artifact always
//! carries the stem of the input with the extension `.mp3`: next to a local
//! input, or bare (in the working directory) for a remote one.

use vstd::prelude::*;

use crate::text::str_eq;

verus! {

/// The scheme of `s` when the `url` crate parses it as an absolute URI,
/// `None` when parsing fails.  A fixed function of the characters alone.
pub uninterp spec fn url_scheme_of(s: Seq<char>) -> Option<Seq<char>>;

/// The path component of `s` as the `url` crate parses it (query and
/// fragment excluded).  Meaningful only when `url_scheme_of(s)` is `Some`.
pub uninterp spec fn url_path_of(s: Seq<char>) -> Seq<char>;

/// Relies on url::Url::parse together with Url::scheme and Url::path:
/// parsing either fails or yields an absolute URI whose scheme and path
/// components depend on the input characters alone.
#[verifier::external_body]
fn parse_url_parts(input: &str) -> (r: Option<(String, String)>)
    ensures
        r is Some <==> url_scheme_of(input@) is Some,
        r matches Some(p) ==> p.0@ == url_scheme_of(input@).unwrap() && p.1@ == url_path_of(
            input@,
        ),
{
    match url::Url::parse(input) {
        Ok(u) => Some((u.scheme().to_string(), u.path().to_string())),
        Err(_) => None,
    }
}

/// How a transcode input is reached: over the network or on disk.
#[derive(Clone, Copy, Debug, PartialEq, Eq, Structural)]
pub enum Locator {
    Remote,
    Local,
}

/// A string names a remote input iff it parses as an absolute URI whose
/// scheme is exactly `http` or `https`; every other string (including
/// every parse failure and every other scheme) is a local path.
pub open spec fn is_remote_spec(s: Seq<char>) -> bool {
    match url_scheme_of(s) {
        Some(scheme) => scheme == "http"@ || scheme == "https"@,
        None => false,
    }
}

pub fn classify(input: &str) -> (r: Locator)
    ensures
        r == Locator::Remote <==> is_remote_spec(input@),
{
    match parse_url_parts(input) {
        Some(parts) => {
            if str_eq(parts.0.as_str(), "http") || str_eq(parts.0.as_str(), "https") {
                Locator::Remote
            } else {
                Locator::Local
            }
        },
        None => Locator::Local,
    }
}

/// Index of the last occurrence of `c` in `s`, if any.
pub open spec fn last_index_of(s: Seq<char>, c: char) -> Option<int>
    decreases s.len(),
{
    if s.len() == 0 {
        None
    } else if s.last() == c {
        Some(s.len() - 1)
    } else {
        last_index_of(s.drop_last(), c)
    }
}

pub proof fn lemma_last_index_of(s: Seq<char>, c: char)
    ensures
        match last_index_of(s, c) {
            Some(k) => 0 <= k < s.len() && s[k] == c && (forall|j: int|
                k < j < s.len() ==> s[j] != c),
            None => forall|j: int| 0 <= j < s.len() ==> s[j] != c,
        },
    decreases s.len(),
{
    if s.len() > 0 && s.last() != c {
        let t = s.drop_last();
        lemma_last_index_of(t, c);
        match last_index_of(t, c) {
            Some(k) => {
                assert(s[k] == t[k]);
                assert forall|j: int| k < j < s.len() implies s[j] != c by {
                    if j < s.len() - 1 {
                        assert(t[j] != c);
                        assert(s[j] == t[j]);
                    } else {
                        assert(s[j] == s.last());
                    }
                }
            },
            None => {
                assert forall|j: int| 0 <= j < s.len() implies s[j] != c by {
                    if j < s.len() - 1 {
                        assert(t[j] != c);
                        assert(s[j] == t[j]);
                    } else {
                        assert(s[j] == s.last());
                    }
                }
            },
        }
    }
}

pub(crate) fn find_last(s: &str, c: char) -> (r: Option<usize>)
    ensures
        match r {
            Some(k) => last_index_of(s@, c) == Some(k as int),
            None => last_index_of(s@, c) is None,
        },
{
    proof {
        lemma_last_index_of(s@, c);
    }
    let n: usize = s.unicode_len();
    let mut i: usize = n;
    while i > 0
        invariant
            n == s@.len(),
            i <= n,
            forall|j: int| i <= j < n ==> s@[j] != c,
        decreases i,
    {
        i = i - 1;
        if s.get_char(i) == c {
            proof {
                lemma_last_index_of(s@, c);
                match last_index_of(s@, c) {
                    Some(k) => {
                        if k > i as int {
                            assert(s@[k] != c);
                        } else if k < i as int {
                            assert(s@[i as int] != c);
                        }
                    },
                    None => {
                        assert(s@[i as int] != c);
                    },
                }
            }
            return Some(i);
        }
    }
    None
}

/// The text after the last `/` of a path (the whole path when it holds
/// no `/`): the file-name part.
pub open spec fn file_name_of(s: Seq<char>) -> Seq<char> {
    match last_index_of(s, '/') {
        Some(k) => s.skip(k + 1),
        None => s,
    }
}

/// The text up to and including the last `/` of a path, empty when it
/// holds no `/`: the directory part.
pub open spec fn dir_prefix_of(s: Seq<char>) -> Seq<char> {
    match last_index_of(s, '/') {
        Some(k) => s.take(k + 1),
        None => Seq::empty(),
    }
}

/// The stem of a file name: the text before the last `.`, except that a
/// leading `.` (a hidden file) does not begin an extension.
pub open spec fn stem_of(name: Seq<char>) -> Seq<char> {
    match last_index_of(name, '.') {
        Some(k) => if k > 0 {
            name.take(k)
        } else {
            name
        },
        None => name,
    }
}

/// The stem of the file-name part of a path, with the literal fallback
/// `output` when no file name can be extracted.
pub open spec fn stem_or_output(s: Seq<char>) -> Seq<char> {
    let name = file_name_of(s);
    if name.len() == 0 {
        "output"@
    } else {
        stem_of(name)
    }
}

/// Stem extraction over a path-like string, with the `output` fallback.
fn file_stem_or_output(s: &str) -> (r: String)
    ensures
        r@ == stem_or_output(s@),
{
    let n: usize = s.unicode_len();
    let start: usize = match find_last(s, '/') {
        Some(k) => {
            proof {
                lemma_last_index_of(s@, '/');
            }
            k + 1
        },
        None => 0,
    };
    let name: &str = s.substring_char(start, n);
    proof {
        assert(name@ =~= file_name_of(s@));
    }
    let name_len: usize = name.unicode_len();
    if name_len == 0 {
        return String::from_str("output");
    }
    let stem_end: usize = match find_last(name, '.') {
        Some(k) => {
            proof {
                lemma_last_index_of(name@, '.');
            }
            if k > 0 {
                k
            } else {
                name_len
            }
        },
        None => name_len,
    };
    let stem: &str = name.substring_char(0, stem_end);
    proof {
        assert(stem@ =~= stem_of(name@));
    }
    String::from_str(stem)
}

/// What `get_output_path` returns: the stem of the input with the
/// extension `.mp3`, kept beside a local input and bare for a remote one.
pub open spec fn derive_output_spec(input: Seq<char>) -> Seq<char> {
    if is_remote_spec(input) {
        stem_or_output(url_path_of(input)) + ".mp3"@
    } else {
        dir_prefix_of(input) + stem_or_output(input) + ".mp3"@
    }
}

fn local_output_path(input: &str) -> (r: String)
    ensures
        r@ == dir_prefix_of(input@) + stem_or_output(input@) + ".mp3"@,
{
    let n: usize = input.unicode_len();
    let prefix_end: usize = match find_last(input, '/') {
        Some(k) => {
            proof {
                lemma_last_index_of(input@, '/');
            }
            k + 1
        },
        None => 0,
    };
    let prefix: &str = input.substring_char(0, prefix_end);
    proof {
        assert(prefix@ =~= dir_prefix_of(input@));
    }
    let stem = file_stem_or_output(input);
    String::from_str(prefix).concat(stem.as_str()).concat(".mp3")
}

/// Derives the output artifact path for an input locator.
pub fn get_output_path(input: &str) -> (r: String)
    ensures
        r@ == derive_output_spec(input@),
{
    match parse_url_parts(input) {
        Some(parts) => {
            if str_eq(parts.0.as_str(), "http") || str_eq(parts.0.as_str(), "https") {
                let stem = file_stem_or_output(parts.1.as_str());
                stem.concat(".mp3")
            } else {
                local_output_path(input)
            }
        },
        None => local_output_path(input),
    }
}

/// Deriving an output path twice from the same input gives the same
/// artifact both times: the derivation is a function of the input
/// characters alone, with no dependence on any outside state.
pub proof fn lemma_derive_output_deterministic(input: Seq<char>, r1: Seq<char>, r2: Seq<char>)
    requires
        r1 == derive_output_spec(input),
        r2 == derive_output_spec(input),
    ensures
        r1 == r2,
{
}

/// A local path is absolute iff it starts at the root.
pub open spec fn is_absolute_spec(s: Seq<char>) -> bool {
    s.len() > 0 && s[0] == '/'
}

/// Joining a selection onto a root directory as one path segment.
pub open spec fn join_spec(root: Seq<char>, name: Seq<char>) -> Seq<char> {
    if root.len() == 0 {
        name
    } else if root.last() == '/' {
        root + name
    } else {
        root + "/"@ + name
    }
}

/// What `resolve_full_input_path` returns: a remote locator or an
/// absolute path is kept as it is; anything else is joined onto the root.
pub open spec fn resolve_spec(selection: Seq<char>, root: Seq<char>) -> Seq<char> {
    if is_remote_spec(selection) || is_absolute_spec(selection) {
        selection
    } else {
        join_spec(root, selection)
    }
}

/// Resolves a raw selection against the session's root directory.
pub fn resolve_full_input_path(selection: &str, root: &str) -> (r: String)
    ensures
        r@ == resolve_spec(selection@, root@),
{
    let remote = match classify(selection) {
        Locator::Remote => true,
        Locator::Local => false,
    };
    let absolute = selection.unicode_len() > 0 && selection.get_char(0) == '/';
    if remote || absolute {
        String::from_str(selection)
    } else {
        let rn: usize = root.unicode_len();
        if rn == 0 {
            String::from_str(selection)
        } else if root.get_char(rn - 1) == '/' {
            String::from_str(root).concat(selection)
        } else {
            String::from_str(root).concat("/").concat(selection)
        }
    }
}

} // verus!
