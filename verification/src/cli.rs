//! The configuration of a supervised run and where its output is captured.
use vstd::prelude::*;
use crate::text::{decimal, lemma_decimal_injective, push_char, push_decimal, chars_of};

verus! {

/// Run a command inside a dedicated tmux window with lifecycle management.
#[derive(Debug, PartialEq, Eq)]
pub struct Config {
    /// tmux window title.
    pub title: String,
    /// Path to write captured pane output. Defaults to a temp file.
    pub log: Option<String>,
    /// docker container name to `docker stop` during teardown.
    pub docker_name: Option<String>,
    /// Script file to run inside the tmux window.
    pub script: String,
}

/// A character that may stand in a file name as it is: an ASCII letter or
/// digit, `.`, `_` or `-`.
pub open spec fn is_safe_char(c: char) -> bool {
    ||| ('a' <= c && c <= 'z')
    ||| ('A' <= c && c <= 'Z')
    ||| ('0' <= c && c <= '9')
    ||| c == '.' || c == '_' || c == '-'
}

/// `c` if it is safe in a file name, else `-`.
pub open spec fn safe_char(c: char) -> char {
    if is_safe_char(c) {
        c
    } else {
        '-'
    }
}

/// `title` with every character that is not safe in a file name replaced
/// by `-`.
pub open spec fn sanitized(title: Seq<char>) -> Seq<char> {
    title.map_values(|c: char| safe_char(c))
}

/// The name of the default capture log: `nrun-<sanitized title>-<pid>.log`.
pub open spec fn log_file_name(title: Seq<char>, pid: u32) -> Seq<char> {
    "nrun-"@ + sanitized(title) + "-"@ + decimal(pid as nat) + ".log"@
}

/// `name` inside the directory `dir` (`Path::join` of a relative name): a
/// separator is put between them unless `dir` is empty or already ends
/// with one.
pub open spec fn join_path(dir: Seq<char>, name: Seq<char>) -> Seq<char> {
    if dir.len() > 0 && dir.last() != '/' {
        dir + seq!['/'] + name
    } else {
        dir + name
    }
}

/// The default capture log of a run titled `title` in process `pid`, in the
/// temporary directory `temp_dir`.
pub open spec fn default_log(title: Seq<char>, pid: u32, temp_dir: Seq<char>) -> Seq<char> {
    join_path(temp_dir, log_file_name(title, pid))
}

impl Config {
    /// The log path of this configuration: the explicit one, else the
    /// default one.
    pub open spec fn log_path_of(&self, pid: u32, temp_dir: Seq<char>) -> Seq<char> {
        match self.log {
            Some(p) => p@,
            None => default_log(self.title@, pid, temp_dir),
        }
    }

    /// Resolve the log path, falling back to a per-process file in
    /// `temp_dir`.
    pub fn log_path(&self, pid: u32, temp_dir: &str) -> (path: String)
        ensures
            path@ == self.log_path_of(pid, temp_dir@),
    {
        match &self.log {
            Some(p) => p.clone(),
            None => default_log_path(self.title.as_str(), pid, temp_dir),
        }
    }
}

/// Reduce a window title to characters safe for a filename.
pub fn sanitize_title(title: &str) -> (s: String)
    ensures
        s@ == sanitized(title@),
        s@.len() == title@.len(),
        forall|i: int|
            0 <= i < title@.len() ==> {
                let c = #[trigger] title@[i];
                if ('a' <= c && c <= 'z') || ('A' <= c && c <= 'Z') || ('0' <= c && c <= '9')
                    || c == '.' || c == '_' || c == '-' {
                    s@[i] == c
                } else {
                    s@[i] == '-'
                }
            },
{
    let v = chars_of(title);
    let mut s = String::new();
    let mut i: usize = 0;
    while i < v.len()
        invariant
            i <= v@.len(),
            v@ == title@,
            s@ == sanitized(v@.take(i as int)),
        decreases v.len() - i,
    {
        let c = v[i];
        let safe = ('a' <= c && c <= 'z') || ('A' <= c && c <= 'Z') || ('0' <= c && c <= '9')
            || c == '.' || c == '_' || c == '-';
        if safe {
            push_char(&mut s, c);
        } else {
            push_char(&mut s, '-');
        }
        assert(sanitized(v@.take(i + 1)) =~= sanitized(v@.take(i as int)).push(safe_char(c)));
        i = i + 1;
    }
    assert(v@.take(v@.len() as int) =~= v@);
    s
}

/// Default capture-log location for a given title and process id, inside
/// the temporary directory `temp_dir`.
pub fn default_log_path(title: &str, pid: u32, temp_dir: &str) -> (path: String)
    ensures
        path@ == default_log(title@, pid, temp_dir@),
{
    let mut name = String::from_str("nrun-");
    let safe = sanitize_title(title);
    name.append(safe.as_str());
    name.append("-");
    push_decimal(&mut name, pid);
    name.append(".log");
    let mut path = String::from_str(temp_dir);
    let dir_len = temp_dir.unicode_len();
    let needs_separator = dir_len > 0 && temp_dir.get_char(dir_len - 1) != '/';
    if needs_separator {
        push_char(&mut path, '/');
    }
    path.append(name.as_str());
    assert(path@ =~= default_log(title@, pid, temp_dir@));
    path
}

// ---------------------------------------------------------------------------
// Laws
// ---------------------------------------------------------------------------

/// Law: the sanitized title has as many characters as the title, all of
/// them safe in a file name, and keeps every safe character where it was.
pub proof fn lemma_sanitized_is_safe(title: Seq<char>)
    ensures
        sanitized(title).len() == title.len(),
        forall|i: int| 0 <= i < title.len() ==> is_safe_char(#[trigger] sanitized(title)[i]),
        forall|i: int|
            0 <= i < title.len() && is_safe_char(title[i]) ==> #[trigger] sanitized(title)[i]
                == title[i],
{
}

/// Law: sanitizing keeps every ASCII letter and digit, and each `.`, `_`
/// and `-`, where it stands, and puts `-` in place of every other
/// character; the length does not change.
pub proof fn lemma_sanitize_by_character(title: Seq<char>)
    ensures
        sanitized(title).len() == title.len(),
        forall|i: int|
            0 <= i < title.len() ==> {
                let c = #[trigger] title[i];
                if ('a' <= c && c <= 'z') || ('A' <= c && c <= 'Z') || ('0' <= c && c <= '9')
                    || c == '.' || c == '_' || c == '-' {
                    sanitized(title)[i] == c
                } else {
                    sanitized(title)[i] == '-'
                }
            },
{
}

/// Law: sanitizing an already sanitized title changes nothing.
pub proof fn lemma_sanitize_idempotent(title: Seq<char>)
    ensures
        sanitized(sanitized(title)) == sanitized(title),
{
    assert(sanitized(sanitized(title)) =~= sanitized(title));
}

/// Law: the default log's file name holds no path separator, so the log
/// lies directly in the temporary directory whatever the title is.
pub proof fn lemma_log_name_has_no_separator(title: Seq<char>, pid: u32)
    ensures
        forall|i: int|
            0 <= i < log_file_name(title, pid).len() ==> #[trigger] log_file_name(title, pid)[i]
                != '/',
{
    reveal_strlit("nrun-");
    reveal_strlit("-");
    reveal_strlit(".log");
    crate::text::lemma_decimal(pid as nat);
    let name = log_file_name(title, pid);
    let s = sanitized(title);
    let d = decimal(pid as nat);
    assert forall|i: int| 0 <= i < name.len() implies #[trigger] name[i] != '/' by {
        if i < 5 {
        } else if i < 5 + s.len() {
            assert(name[i] == s[i - 5]);
        } else if i < 6 + s.len() {
        } else if i < 6 + s.len() + d.len() {
            assert(name[i] == d[i - 6 - s.len()]);
            assert(crate::text::is_digit(d[i - 6 - s.len()]));
        } else {
        }
    }
}

/// Law: runs in different processes get different default logs, for the
/// same title and temporary directory.
pub proof fn lemma_default_log_per_process(title: Seq<char>, p: u32, q: u32, temp_dir: Seq<char>)
    requires
        p != q,
    ensures
        default_log(title, p, temp_dir) != default_log(title, q, temp_dir),
{
    let a = log_file_name(title, p);
    let b = log_file_name(title, q);
    let pre = "nrun-"@ + sanitized(title) + "-"@;
    let dp = decimal(p as nat);
    let dq = decimal(q as nat);
    if default_log(title, p, temp_dir) == default_log(title, q, temp_dir) {
        let k = if temp_dir.len() > 0 && temp_dir.last() != '/' {
            temp_dir.len() + 1int
        } else {
            temp_dir.len() as int
        };
        let whole = default_log(title, p, temp_dir);
        assert(whole.subrange(k, whole.len() as int) =~= a);
        assert(default_log(title, q, temp_dir).subrange(k, whole.len() as int) =~= b);
        assert(a == b);
        assert(a =~= pre + dp + ".log"@);
        assert(b =~= pre + dq + ".log"@);
        assert(dp.len() == dq.len());
        assert(a.subrange(pre.len() as int, (pre.len() + dp.len()) as int) =~= dp);
        assert(b.subrange(pre.len() as int, (pre.len() + dq.len()) as int) =~= dq);
        lemma_decimal_injective(p as nat, q as nat);
    }
}

} // verus!
