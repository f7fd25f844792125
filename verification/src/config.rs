//! Configuration: a default working directory, overridable through a
//! simple key=value settings file.
//!
//! The file's content is handed in as a string (reading it is plain
//! I/O and happens outside the library).  Lines are trimmed; empty
//! lines, `#` comments and lines without `=` are ignored; the first `=`
//! splits key from value and both sides are trimmed; when one key
//! appears on several lines the last one wins.

use vstd::prelude::*;

use crate::text::str_eq;

verus! {

/// Whitespace as the settings-file parser strips it.
pub open spec fn is_space(c: char) -> bool {
    c == ' ' || c == '\t' || c == '\r' || c == '\n'
}

pub open spec fn trim_start_spec(s: Seq<char>) -> Seq<char>
    decreases s.len(),
{
    if s.len() > 0 && is_space(s[0]) {
        trim_start_spec(s.drop_first())
    } else {
        s
    }
}

pub open spec fn trim_end_spec(s: Seq<char>) -> Seq<char>
    decreases s.len(),
{
    if s.len() > 0 && is_space(s.last()) {
        trim_end_spec(s.drop_last())
    } else {
        s
    }
}

/// A string with leading and trailing whitespace removed.
pub open spec fn trim_spec(s: Seq<char>) -> Seq<char> {
    trim_end_spec(trim_start_spec(s))
}

proof fn lemma_trim_start_skip(s: Seq<char>, i: int)
    requires
        0 <= i <= s.len(),
        forall|j: int| 0 <= j < i ==> is_space(s[j]),
    ensures
        trim_start_spec(s) == trim_start_spec(s.skip(i)),
    decreases i,
{
    if i > 0 {
        assert(is_space(s[0]));
        let t = s.drop_first();
        assert(forall|j: int| 0 <= j < i - 1 ==> t[j] == s[j + 1] && is_space(t[j]));
        lemma_trim_start_skip(t, i - 1);
        assert(t.skip(i - 1) =~= s.skip(i));
    } else {
        assert(s.skip(0) =~= s);
    }
}

proof fn lemma_trim_end_take(s: Seq<char>, i: int)
    requires
        0 <= i <= s.len(),
        forall|j: int| i <= j < s.len() ==> is_space(s[j]),
    ensures
        trim_end_spec(s) == trim_end_spec(s.take(i)),
    decreases s.len() - i,
{
    if i < s.len() {
        assert(is_space(s.last()));
        let t = s.drop_last();
        assert(forall|j: int| i <= j < t.len() ==> t[j] == s[j] && is_space(t[j]));
        lemma_trim_end_take(t, i);
        assert(t.take(i) =~= s.take(i));
    } else {
        assert(s.take(i) =~= s);
    }
}

fn is_space_char(c: char) -> (r: bool)
    ensures
        r == is_space(c),
{
    c == ' ' || c == '\t' || c == '\r' || c == '\n'
}

/// Trims leading and trailing whitespace.
fn trim_str(s: &str) -> (r: String)
    ensures
        r@ == trim_spec(s@),
{
    let n: usize = s.unicode_len();
    let mut start: usize = 0;
    loop
        invariant_except_break
            n == s@.len(),
            start <= n,
            forall|j: int| 0 <= j < start ==> is_space(s@[j]),
        ensures
            n == s@.len(),
            start <= n,
            forall|j: int| 0 <= j < start ==> is_space(s@[j]),
            start < n ==> !is_space(s@[start as int]),
        decreases n - start,
    {
        if start == n {
            break ;
        }
        if !is_space_char(s.get_char(start)) {
            break ;
        }
        start = start + 1;
    }
    let mut end: usize = n;
    loop
        invariant_except_break
            n == s@.len(),
            start <= end <= n,
            start < n ==> !is_space(s@[start as int]),
            forall|j: int| end <= j < n ==> is_space(s@[j]),
        ensures
            n == s@.len(),
            start <= end <= n,
            start < n ==> !is_space(s@[start as int]),
            forall|j: int| end <= j < n ==> is_space(s@[j]),
            end > start ==> !is_space(s@[end - 1]),
        decreases end,
    {
        if end == start {
            break ;
        }
        if !is_space_char(s.get_char(end - 1)) {
            break ;
        }
        end = end - 1;
    }
    let t: &str = s.substring_char(start, end);
    proof {
        lemma_trim_start_skip(s@, start as int);
        let u = s@.skip(start as int);
        assert(trim_start_spec(s@) == u);
        assert(forall|j: int|
            end - start <= j < u.len() ==> u[j] == s@[j + start] && is_space(u[j]));
        lemma_trim_end_take(u, end - start);
        assert(trim_end_spec(u.take(end - start)) == u.take(end - start));
        assert(t@ =~= u.take(end - start));
    }
    String::from_str(t)
}

/// Index of the first occurrence of `c` in `s`, if any.
pub open spec fn first_index_of(s: Seq<char>, c: char) -> Option<int>
    decreases s.len(),
{
    if s.len() == 0 {
        None
    } else if s[0] == c {
        Some(0)
    } else {
        match first_index_of(s.drop_first(), c) {
            Some(k) => Some(k + 1),
            None => None,
        }
    }
}

pub proof fn lemma_first_index_of(s: Seq<char>, c: char)
    ensures
        match first_index_of(s, c) {
            Some(k) => 0 <= k < s.len() && s[k] == c && (forall|j: int| 0 <= j < k ==> s[j] != c),
            None => forall|j: int| 0 <= j < s.len() ==> s[j] != c,
        },
    decreases s.len(),
{
    if s.len() > 0 && s[0] != c {
        let t = s.drop_first();
        lemma_first_index_of(t, c);
        match first_index_of(t, c) {
            Some(k) => {
                assert(s[k + 1] == t[k]);
                assert forall|j: int| 0 <= j < k + 1 implies s[j] != c by {
                    if j > 0 {
                        assert(t[j - 1] != c);
                        assert(s[j] == t[j - 1]);
                    }
                }
            },
            None => {
                assert forall|j: int| 0 <= j < s.len() implies s[j] != c by {
                    if j > 0 {
                        assert(t[j - 1] != c);
                        assert(s[j] == t[j - 1]);
                    }
                }
            },
        }
    }
}

/// Scans for `c` from position `from` on.
pub(crate) fn find_first_from(s: &str, from: usize, c: char) -> (r: Option<usize>)
    requires
        from as int <= s@.len(),
    ensures
        match r {
            Some(k) => from <= k && (k as int) < s@.len() && s@[k as int] == c && (forall|j: int|
                from <= j < k ==> s@[j] != c),
            None => forall|j: int| from <= j < s@.len() ==> s@[j] != c,
        },
{
    let n: usize = s.unicode_len();
    let mut i: usize = from;
    while i < n
        invariant
            n == s@.len(),
            from <= i <= n,
            forall|j: int| from <= j < i ==> s@[j] != c,
        decreases n - i,
    {
        if s.get_char(i) == c {
            return Some(i);
        }
        i = i + 1;
    }
    None
}

/// What one settings line contributes: nothing for an empty line, a
/// comment or a line without `=`; otherwise the trimmed key and value
/// split at the first `=` of the trimmed line.
pub open spec fn parsed_pair(line: Seq<char>) -> Option<(Seq<char>, Seq<char>)> {
    let t = trim_spec(line);
    if t.len() == 0 {
        None
    } else if t[0] == '#' {
        None
    } else {
        match first_index_of(t, '=') {
            Some(k) => Some((trim_spec(t.take(k)), trim_spec(t.skip(k + 1)))),
            None => None,
        }
    }
}

fn parse_line(line: &str) -> (r: Option<(String, String)>)
    ensures
        r is None <==> parsed_pair(line@) is None,
        r matches Some(p) ==> parsed_pair(line@) matches Some(q) && p.0@ == q.0 && p.1@ == q.1,
{
    let t: String = trim_str(line);
    let ts: &str = t.as_str();
    let tn: usize = ts.unicode_len();
    if tn == 0 {
        return None;
    }
    if ts.get_char(0) == '#' {
        return None;
    }
    match find_first_from(ts, 0, '=') {
        None => {
            proof {
                lemma_first_index_of(ts@, '=');
                match first_index_of(ts@, '=') {
                    Some(k) => {
                        assert(ts@[k] != '=');
                    },
                    None => {},
                }
            }
            None
        },
        Some(k) => {
            proof {
                lemma_first_index_of(ts@, '=');
                match first_index_of(ts@, '=') {
                    Some(k0) => {
                        if k0 < k as int {
                            assert(ts@[k0] != '=');
                        } else if k0 > k as int {
                            assert(ts@[k as int] != '=');
                        }
                    },
                    None => {
                        assert(ts@[k as int] != '=');
                    },
                }
            }
            let key = trim_str(ts.substring_char(0, k));
            let value = trim_str(ts.substring_char(k + 1, tn));
            proof {
                assert(ts@.subrange(0, k as int) =~= ts@.take(k as int));
                assert(ts@.subrange(k + 1, tn as int) =~= ts@.skip(k + 1));
            }
            Some((key, value))
        },
    }
}

/// The lines of a settings file, split at `\n`.
pub open spec fn env_lines(s: Seq<char>) -> Seq<Seq<char>>
    decreases s.len(),
{
    match first_index_of(s, '\n') {
        Some(k) => if 0 <= k < s.len() {
            seq![s.take(k)] + env_lines(s.skip(k + 1))
        } else {
            seq![s]
        },
        None => seq![s],
    }
}

/// The value of `key` over a sequence of lines: the last line that
/// parses to `key` wins.
pub open spec fn env_value(lines: Seq<Seq<char>>, key: Seq<char>) -> Option<Seq<char>>
    decreases lines.len(),
{
    if lines.len() == 0 {
        None
    } else {
        match parsed_pair(lines.last()) {
            Some(p) => if p.0 == key {
                Some(p.1)
            } else {
                env_value(lines.drop_last(), key)
            },
            None => env_value(lines.drop_last(), key),
        }
    }
}

/// The value of `key` in a settings file's content.
pub open spec fn env_lookup(content: Seq<char>, key: Seq<char>) -> Option<Seq<char>> {
    env_value(env_lines(content), key)
}

proof fn lemma_env_value_append(a: Seq<Seq<char>>, b: Seq<Seq<char>>, key: Seq<char>)
    ensures
        env_value(a + b, key) == (match env_value(b, key) {
            Some(v) => Some(v),
            None => env_value(a, key),
        }),
    decreases b.len(),
{
    if b.len() == 0 {
        assert(a + b =~= a);
    } else {
        assert((a + b).last() == b.last());
        assert((a + b).drop_last() =~= a + b.drop_last());
        lemma_env_value_append(a, b.drop_last(), key);
    }
}

/// Splitting off the first line of a settings file.
proof fn lemma_env_lines_step(s: Seq<char>, k: int)
    requires
        0 <= k <= s.len(),
        k < s.len() ==> s[k] == '\n',
        forall|j: int| 0 <= j < k ==> s[j] != '\n',
    ensures
        k < s.len() ==> env_lines(s) == seq![s.take(k)] + env_lines(s.skip(k + 1)),
        k == s.len() ==> env_lines(s) == seq![s],
{
    lemma_first_index_of(s, '\n');
    match first_index_of(s, '\n') {
        Some(k0) => {
            if k0 < k {
                assert(s[k0] != '\n');
            } else if k0 > k {
                assert(k < s.len());
                assert(s[k] != '\n');
            }
            assert(k0 == k);
        },
        None => {
            if k < s.len() {
                assert(s[k] != '\n');
            }
        },
    }
}

/// Looking anything up in an empty content yields nothing.
proof fn lemma_env_lookup_empty(key: Seq<char>)
    ensures
        env_lookup(Seq::empty(), key) is None,
{
    let e = Seq::<char>::empty();
    assert(env_lines(e) =~= seq![e]);
    assert(trim_start_spec(e) == e);
    assert(trim_end_spec(e) == e);
    assert(parsed_pair(e) is None);
    assert(env_value(seq![e].drop_last(), key) is None);
}

/// What the settings resolve to while a suffix of the file is still
/// unread: a hit in the suffix overrides what was seen so far.
pub open spec fn pending_lookup(
    seen: Option<Seq<char>>,
    rest: Seq<char>,
    key: Seq<char>,
) -> Option<Seq<char>> {
    match env_lookup(rest, key) {
        Some(v) => Some(v),
        None => seen,
    }
}

/// Configuration settings for the converter session.
#[derive(Clone, Debug)]
pub struct Config {
    pub default_dir: String,
}

/// The built-in default working directory.
pub open spec fn default_dir_spec() -> Seq<char> {
    "/Users/hackyourfuture/Downloads"@
}

impl Default for Config {
    fn default() -> (c: Config)
        ensures
            c.default_dir@ == default_dir_spec(),
    {
        Config { default_dir: String::from_str("/Users/hackyourfuture/Downloads") }
    }
}

impl Config {
    /// Loads the configuration from the content of the settings file,
    /// or the built-in default when there is none (a missing file or a
    /// missing key is not an error).
    pub fn load(env_content: Option<&str>) -> (c: Config)
        ensures
            match env_content {
                Some(s) => c.default_dir@ == (match env_lookup(s@, "DEFAULT_DIR"@) {
                    Some(v) => v,
                    None => default_dir_spec(),
                }),
                None => c.default_dir@ == default_dir_spec(),
            },
    {
        let content: &str = match env_content {
            Some(s) => s,
            None => {
                return Config::default();
            },
        };
        let n: usize = content.unicode_len();
        let mut acc: Option<String> = None;
        let mut pos: usize = 0;
        proof {
            assert(content@.skip(0) =~= content@);
        }
        while pos < n
            invariant
                n == content@.len(),
                pos <= n,
                pending_lookup(
                    match acc {
                        Some(ref v) => Some(v@),
                        None => None,
                    },
                    content@.skip(pos as int),
                    "DEFAULT_DIR"@,
                ) == env_lookup(content@, "DEFAULT_DIR"@),
            decreases n - pos,
        {
            let line_end: usize = match find_first_from(content, pos, '\n') {
                Some(k) => k,
                None => n,
            };
            let line: &str = content.substring_char(pos, line_end);
            let ghost rest = content@.skip(pos as int);
            let ghost k0 = line_end - pos as int;
            proof {
                assert(forall|j: int|
                    0 <= j < k0 ==> rest[j] == content@[j + pos] && rest[j] != '\n');
                if line_end < n {
                    assert(rest[k0] == content@[line_end as int]);
                }
                lemma_env_lines_step(rest, k0);
                assert(line@ =~= rest.take(k0));
            }
            match parse_line(line) {
                Some(kv) => {
                    if str_eq(kv.0.as_str(), "DEFAULT_DIR") {
                        acc = Some(kv.1);
                    }
                },
                None => {},
            }
            proof {
                let key = "DEFAULT_DIR"@;
                assert(env_value(seq![line@].drop_last(), key) is None);
                if line_end < n {
                    let tail = rest.skip(k0 + 1);
                    lemma_env_value_append(seq![line@], env_lines(tail), key);
                    assert(tail =~= content@.skip(line_end + 1));
                } else {
                    assert(env_lines(rest) == seq![line@]);
                    lemma_env_lookup_empty(key);
                    assert(content@.skip(n as int) =~= Seq::<char>::empty());
                }
            }
            pos = if line_end < n {
                line_end + 1
            } else {
                n
            };
        }
        proof {
            assert(content@.skip(n as int) =~= Seq::<char>::empty());
            lemma_env_lookup_empty("DEFAULT_DIR"@);
        }
        match acc {
            Some(v) => Config { default_dir: v },
            None => Config::default(),
        }
    }
}

} // verus!
