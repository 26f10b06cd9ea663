//! Builders for `tmux` argument vectors and parsers for its output.
//!
//! Everything here is free of side effects. The argument vectors do not
//! include the leading `tmux` program name.
use vstd::prelude::*;
use crate::text::{
    chars_of, is_newline, lemma_trim_end_newlines_at, parse_i32, parse_i32_in, push_char, trim,
    trim_end_newlines, trim_str, trimmed_bounds, words,
};

verus! {

/// Liveness of a tmux pane, read from `#{pane_dead}|#{pane_dead_status}`.
#[derive(Debug, Clone, Copy, PartialEq, Eq, Structural)]
pub enum PaneStatus {
    /// The pane's process is still running.
    Alive,
    /// The pane's process has exited; its wait status if tmux reported one.
    Dead(Option<i32>),
}

/// A quiet, long-lived placeholder that the new window runs until
/// `respawn-pane` swaps in the real command, so that `pipe-pane` can be
/// enabled first and no early output is lost.
pub const PLACEHOLDER_COMMAND: &'static str = "exec sleep 2147483647";

// ---------------------------------------------------------------------------
// Shell quoting
// ---------------------------------------------------------------------------

/// How one character is written inside single quotes: a quote closes the
/// quoting, is emitted escaped, and reopens it (`'` becomes `'\''`).
pub open spec fn escape_char(c: char) -> Seq<char> {
    if c == '\'' {
        seq!['\'', '\\', '\'', '\'']
    } else {
        seq![c]
    }
}

/// `s` with every character written as [`escape_char`] writes it.
pub open spec fn escape_quotes(s: Seq<char>) -> Seq<char>
    decreases s.len(),
{
    if s.len() == 0 {
        seq![]
    } else {
        escape_char(s[0]) + escape_quotes(s.drop_first())
    }
}

/// `s` as a single-quoted shell word.
pub open spec fn single_quoted(s: Seq<char>) -> Seq<char> {
    seq!['\''] + escape_quotes(s) + seq!['\'']
}

/// Characters that `/bin/sh` gives a meaning of their own outside quotes.
pub open spec fn sh_special(c: char) -> bool {
    ||| c == ' ' || c == '\t' || c == '\n'
    ||| c == '|' || c == '&' || c == ';' || c == '<' || c == '>' || c == '(' || c == ')'
    ||| c == '$' || c == '`' || c == '"' || c == '*' || c == '?' || c == '['
    ||| c == '#' || c == '~' || c == '=' || c == '%'
}

/// `s` preceded by `c`, if there is an `s`.
pub open spec fn cons(c: char, r: Option<Seq<char>>) -> Option<Seq<char>> {
    match r {
        Some(t) => Some(seq![c] + t),
        None => None,
    }
}

/// `p` followed by `s`, if there is an `s`.
pub open spec fn prefix_with(p: Seq<char>, r: Option<Seq<char>>) -> Option<Seq<char>> {
    match r {
        Some(t) => Some(p + t),
        None => None,
    }
}

/// The text that `/bin/sh` reads from the word `w` by quote removal, where
/// `quoted` tells whether a single-quoted run is open: inside single quotes
/// every character stands for itself up to the closing quote; outside, a
/// backslash escapes the next character (and a backslash-newline vanishes).
/// `None` where `w` is not one word of plain characters, escapes and
/// single-quoted runs (an unclosed quote, a trailing backslash, or a
/// character with a meaning of its own).
pub open spec fn sh_unquote(w: Seq<char>, quoted: bool) -> Option<Seq<char>>
    decreases w.len(),
{
    if w.len() == 0 {
        if quoted {
            None
        } else {
            Some(seq![])
        }
    } else if quoted {
        if w[0] == '\'' {
            sh_unquote(w.drop_first(), false)
        } else {
            cons(w[0], sh_unquote(w.drop_first(), true))
        }
    } else if w[0] == '\'' {
        sh_unquote(w.drop_first(), true)
    } else if w[0] == '\\' {
        if w.len() < 2 {
            None
        } else if w[1] == '\n' {
            sh_unquote(w.subrange(2, w.len() as int), false)
        } else {
            cons(w[1], sh_unquote(w.subrange(2, w.len() as int), false))
        }
    } else if sh_special(w[0]) {
        None
    } else {
        cons(w[0], sh_unquote(w.drop_first(), false))
    }
}

/// Escaping distributes over appending one character.
pub proof fn lemma_escape_push(s: Seq<char>, c: char)
    ensures
        escape_quotes(s.push(c)) == escape_quotes(s) + escape_char(c),
    decreases s.len(),
{
    if s.len() == 0 {
        assert(s.push(c).drop_first() =~= Seq::<char>::empty());
        assert(escape_quotes(Seq::<char>::empty()) =~= Seq::<char>::empty());
        assert(escape_quotes(s.push(c)) =~= escape_char(c));
    } else {
        lemma_escape_push(s.drop_first(), c);
        assert(s.push(c).drop_first() =~= s.drop_first().push(c));
        assert(escape_quotes(s.push(c)) =~= escape_quotes(s) + escape_char(c));
    }
}

/// Inside an open single-quoted run, the escaped text of `s` reads back as
/// `s`, and leaves the run open for what follows.
pub proof fn lemma_unquote_escaped(s: Seq<char>, rest: Seq<char>)
    ensures
        sh_unquote(escape_quotes(s) + rest, true) == prefix_with(s, sh_unquote(rest, true)),
    decreases s.len(),
{
    if s.len() == 0 {
        assert(escape_quotes(s) + rest =~= rest);
        assert(s =~= Seq::<char>::empty());
        match sh_unquote(rest, true) {
            Some(t) => {
                assert(s + t =~= t);
            },
            None => {},
        }
    } else {
        let c = s[0];
        let tail = s.drop_first();
        lemma_unquote_escaped(tail, rest);
        let w = escape_quotes(s) + rest;
        let after = escape_quotes(tail) + rest;
        assert(w =~= escape_char(c) + after);
        if c == '\'' {
            let w1 = w.drop_first();
            assert(w1 =~= seq!['\\', '\'', '\''] + after);
            assert(w1[0] == '\\' && w1[1] == '\'');
            let w2 = w1.subrange(2, w1.len() as int);
            assert(w2 =~= seq!['\''] + after);
            assert(w2.drop_first() =~= after);
            assert(sh_unquote(w2, false) == sh_unquote(after, true));
            assert(sh_unquote(w1, false) == cons('\'', sh_unquote(after, true)));
            assert(sh_unquote(w, true) == sh_unquote(w1, false));
        } else {
            assert(w.drop_first() =~= after);
            assert(sh_unquote(w, true) == cons(c, sh_unquote(after, true)));
        }
        match sh_unquote(rest, true) {
            Some(t) => {
                assert(seq![c] + (tail + t) =~= s + t);
            },
            None => {},
        }
    }
}

/// Law: `/bin/sh` reads the single-quoted form of any text back as that
/// very text, as one word, whatever quotes or special characters it holds.
pub proof fn lemma_single_quoted_roundtrip(s: Seq<char>)
    ensures
        sh_unquote(single_quoted(s), false) == Some(s),
{
    let w = single_quoted(s);
    let close = seq!['\''];
    assert(w.drop_first() =~= escape_quotes(s) + close);
    lemma_unquote_escaped(s, close);
    assert(close.drop_first() =~= Seq::<char>::empty());
    assert(sh_unquote(close, true) == sh_unquote(Seq::<char>::empty(), false));
    assert(s + Seq::<char>::empty() =~= s);
}

/// Quote a string for safe inclusion in a `/bin/sh -c` command line.
pub fn sh_single_quote(s: &str) -> (q: String)
    ensures
        q@ == single_quoted(s@),
        sh_unquote(q@, false) == Some(s@),
{
    let v = chars_of(s);
    let mut q = String::new();
    push_char(&mut q, '\'');
    let mut i: usize = 0;
    while i < v.len()
        invariant
            i <= v@.len(),
            v@ == s@,
            q@ == seq!['\''] + escape_quotes(v@.take(i as int)),
        decreases v.len() - i,
    {
        let c = v[i];
        if c == '\'' {
            push_char(&mut q, '\'');
            push_char(&mut q, '\\');
            push_char(&mut q, '\'');
            push_char(&mut q, '\'');
        } else {
            push_char(&mut q, c);
        }
        proof {
            assert(v@.take(i + 1) =~= v@.take(i as int).push(c));
            lemma_escape_push(v@.take(i as int), c);
        }
        assert(q@ =~= seq!['\''] + escape_quotes(v@.take(i + 1)));
        i = i + 1;
    }
    push_char(&mut q, '\'');
    assert(v@.take(v@.len() as int) =~= v@);
    assert(q@ =~= single_quoted(s@));
    proof {
        lemma_single_quoted_roundtrip(s@);
    }
    q
}

// ---------------------------------------------------------------------------
// Argument vectors
// ---------------------------------------------------------------------------

/// The command tmux runs in the pane: `exec bash '<script>'`, so that the
/// pane's process becomes the script's own.
pub open spec fn pane_command_text(script: Seq<char>) -> Seq<char> {
    "exec bash "@ + single_quoted(script)
}

/// `new-window`, detached, printing the new pane id, running the placeholder.
pub open spec fn new_window_words(title: Seq<char>) -> Seq<Seq<char>> {
    seq![
        "new-window"@,
        "-d"@,
        "-P"@,
        "-F"@,
        "#{pane_id}"@,
        "-n"@,
        title,
        PLACEHOLDER_COMMAND@,
    ]
}

/// `respawn-pane` replacing the placeholder with the real command.
pub open spec fn respawn_pane_words(pane_id: Seq<char>, script: Seq<char>) -> Seq<Seq<char>> {
    seq!["respawn-pane"@, "-k"@, "-t"@, pane_id, pane_command_text(script)]
}

/// `set-option` keeping the pane after its process exits.
pub open spec fn set_remain_on_exit_words(pane_id: Seq<char>) -> Seq<Seq<char>> {
    seq!["set-option"@, "-p"@, "-t"@, pane_id, "remain-on-exit"@, "on"@]
}

/// `pipe-pane` appending the pane's output to the capture log.
pub open spec fn pipe_pane_words(pane_id: Seq<char>, log: Seq<char>) -> Seq<Seq<char>> {
    seq!["pipe-pane"@, "-o"@, "-t"@, pane_id, "cat >> "@ + single_quoted(log)]
}

/// `display-message` printing the pane's process id.
pub open spec fn display_pane_pid_words(pane_id: Seq<char>) -> Seq<Seq<char>> {
    seq!["display-message"@, "-p"@, "-t"@, pane_id, "#{pane_pid}"@]
}

/// `display-message` printing `dead|status` for the pane.
pub open spec fn display_status_words(pane_id: Seq<char>) -> Seq<Seq<char>> {
    seq!["display-message"@, "-p"@, "-t"@, pane_id, "#{pane_dead}|#{pane_dead_status}"@]
}

/// `kill-window` for the pane's window.
pub open spec fn kill_window_words(pane_id: Seq<char>) -> Seq<Seq<char>> {
    seq!["kill-window"@, "-t"@, pane_id]
}

/// The command tmux runs in the pane: exec the script so the pane pid becomes
/// the real process.
pub fn pane_command(script: &str) -> (cmd: String)
    ensures
        cmd@ == pane_command_text(script@),
        cmd@.take(10) == "exec bash "@,
        sh_unquote(cmd@.skip(10), false) == Some(script@),
{
    let quoted = sh_single_quote(script);
    let mut cmd = String::from_str("exec bash ");
    cmd.append(quoted.as_str());
    proof {
        lemma_pane_command_runs_script(script@);
    }
    cmd
}

/// Law: the pane runs the script it was given. Its command is `exec bash `
/// followed by one shell word that `/bin/sh` reads back as the script's
/// path, verbatim, whatever quotes or special characters the path holds.
pub proof fn lemma_pane_command_runs_script(script: Seq<char>)
    ensures
        pane_command_text(script).take(10) == "exec bash "@,
        sh_unquote(pane_command_text(script).skip(10), false) == Some(script),
{
    reveal_strlit("exec bash ");
    let cmd = pane_command_text(script);
    assert(cmd.take(10) =~= "exec bash "@);
    assert(cmd.skip(10) =~= single_quoted(script));
    lemma_single_quoted_roundtrip(script);
}

/// Law: capture appends to the log it was given. The `pipe-pane` command
/// for the pane is `cat >> ` followed by one shell word that `/bin/sh`
/// reads back as the log's path, verbatim.
pub proof fn lemma_pipe_pane_appends_to_log(pane_id: Seq<char>, log: Seq<char>)
    ensures
        pipe_pane_words(pane_id, log).len() == 5,
        pipe_pane_words(pane_id, log)[3] == pane_id,
        pipe_pane_words(pane_id, log)[4].take(7) == "cat >> "@,
        sh_unquote(pipe_pane_words(pane_id, log)[4].skip(7), false) == Some(log),
{
    reveal_strlit("cat >> ");
    let cmd = pipe_pane_words(pane_id, log)[4];
    assert(cmd == "cat >> "@ + single_quoted(log));
    assert(cmd.take(7) =~= "cat >> "@);
    assert(cmd.skip(7) =~= single_quoted(log));
    lemma_single_quoted_roundtrip(log);
}

/// Law: the window is named with the title as given, verbatim (not the
/// file-name form of it), right after `-n`.
pub proof fn lemma_new_window_names_window(title: Seq<char>)
    ensures
        new_window_words(title).len() == 8,
        new_window_words(title)[5] == "-n"@,
        new_window_words(title)[6] == title,
{
}

/// Law: every command aimed at the pane names it by the id it was given,
/// verbatim, right after `-t`.
pub proof fn lemma_commands_target_pane(pane_id: Seq<char>, script: Seq<char>, log: Seq<char>)
    ensures
        respawn_pane_words(pane_id, script)[2] == "-t"@,
        respawn_pane_words(pane_id, script)[3] == pane_id,
        respawn_pane_words(pane_id, script)[4] == pane_command_text(script),
        set_remain_on_exit_words(pane_id)[2] == "-t"@,
        set_remain_on_exit_words(pane_id)[3] == pane_id,
        pipe_pane_words(pane_id, log)[2] == "-t"@,
        pipe_pane_words(pane_id, log)[3] == pane_id,
        display_pane_pid_words(pane_id)[2] == "-t"@,
        display_pane_pid_words(pane_id)[3] == pane_id,
        display_status_words(pane_id)[2] == "-t"@,
        display_status_words(pane_id)[3] == pane_id,
        kill_window_words(pane_id)[1] == "-t"@,
        kill_window_words(pane_id)[2] == pane_id,
{
}

/// `new-window` argv that prints the new pane id and runs a quiet placeholder
/// detached, ready for `pipe-pane` then `respawn-pane`.
pub fn new_window_argv(title: &str) -> (argv: Vec<String>)
    ensures
        words(argv@) == new_window_words(title@),
        argv@.len() == 8,
        argv@[5]@ == "-n"@,
        argv@[6]@ == title@,
{
    let mut argv: Vec<String> = Vec::new();
    argv.push(String::from_str("new-window"));
    argv.push(String::from_str("-d"));
    argv.push(String::from_str("-P"));
    argv.push(String::from_str("-F"));
    argv.push(String::from_str("#{pane_id}"));
    argv.push(String::from_str("-n"));
    argv.push(title.to_owned());
    argv.push(PLACEHOLDER_COMMAND.to_owned());
    assert(words(argv@) =~= new_window_words(title@));
    argv
}

/// `respawn-pane` argv that replaces the placeholder with the real command,
/// after capture is already live.
pub fn respawn_pane_argv(pane_id: &str, script: &str) -> (argv: Vec<String>)
    ensures
        words(argv@) == respawn_pane_words(pane_id@, script@),
{
    let mut argv: Vec<String> = Vec::new();
    argv.push(String::from_str("respawn-pane"));
    argv.push(String::from_str("-k"));
    argv.push(String::from_str("-t"));
    argv.push(pane_id.to_owned());
    argv.push(pane_command(script));
    assert(words(argv@) =~= respawn_pane_words(pane_id@, script@));
    argv
}

/// `set-option` argv keeping the pane in a dead state after the process
/// exits, so that its exit status can be read.
pub fn set_remain_on_exit_argv(pane_id: &str) -> (argv: Vec<String>)
    ensures
        words(argv@) == set_remain_on_exit_words(pane_id@),
{
    let mut argv: Vec<String> = Vec::new();
    argv.push(String::from_str("set-option"));
    argv.push(String::from_str("-p"));
    argv.push(String::from_str("-t"));
    argv.push(pane_id.to_owned());
    argv.push(String::from_str("remain-on-exit"));
    argv.push(String::from_str("on"));
    assert(words(argv@) =~= set_remain_on_exit_words(pane_id@));
    argv
}

/// `pipe-pane` argv that appends the pane's output to the capture log.
pub fn pipe_pane_argv(pane_id: &str, log: &str) -> (argv: Vec<String>)
    ensures
        words(argv@) == pipe_pane_words(pane_id@, log@),
{
    let mut cmd = String::from_str("cat >> ");
    let quoted = sh_single_quote(log);
    cmd.append(quoted.as_str());
    let mut argv: Vec<String> = Vec::new();
    argv.push(String::from_str("pipe-pane"));
    argv.push(String::from_str("-o"));
    argv.push(String::from_str("-t"));
    argv.push(pane_id.to_owned());
    argv.push(cmd);
    assert(words(argv@) =~= pipe_pane_words(pane_id@, log@));
    argv
}

/// `display-message` argv that prints the pane's process id.
pub fn display_pane_pid_argv(pane_id: &str) -> (argv: Vec<String>)
    ensures
        words(argv@) == display_pane_pid_words(pane_id@),
{
    let mut argv: Vec<String> = Vec::new();
    argv.push(String::from_str("display-message"));
    argv.push(String::from_str("-p"));
    argv.push(String::from_str("-t"));
    argv.push(pane_id.to_owned());
    argv.push(String::from_str("#{pane_pid}"));
    assert(words(argv@) =~= display_pane_pid_words(pane_id@));
    argv
}

/// `display-message` argv that prints `dead|status` for the pane.
pub fn display_status_argv(pane_id: &str) -> (argv: Vec<String>)
    ensures
        words(argv@) == display_status_words(pane_id@),
{
    let mut argv: Vec<String> = Vec::new();
    argv.push(String::from_str("display-message"));
    argv.push(String::from_str("-p"));
    argv.push(String::from_str("-t"));
    argv.push(pane_id.to_owned());
    argv.push(String::from_str("#{pane_dead}|#{pane_dead_status}"));
    assert(words(argv@) =~= display_status_words(pane_id@));
    argv
}

/// `kill-window` argv for the pane's window.
pub fn kill_window_argv(pane_id: &str) -> (argv: Vec<String>)
    ensures
        words(argv@) == kill_window_words(pane_id@),
{
    let mut argv: Vec<String> = Vec::new();
    argv.push(String::from_str("kill-window"));
    argv.push(String::from_str("-t"));
    argv.push(pane_id.to_owned());
    assert(words(argv@) =~= kill_window_words(pane_id@));
    argv
}

// ---------------------------------------------------------------------------
// Parsers
// ---------------------------------------------------------------------------

/// The pane id in `display-message` output: the trimmed text, unless empty.
pub open spec fn pane_id_of(out: Seq<char>) -> Option<Seq<char>> {
    if trim(out).len() == 0 {
        None
    } else {
        Some(trim(out))
    }
}

/// `k` is the position of the first `'|'` of `s`.
pub open spec fn is_first_bar(s: Seq<char>, k: int) -> bool {
    &&& 0 <= k < s.len()
    &&& s[k] == '|'
    &&& forall|j: int| 0 <= j < k ==> s[j] != '|'
}

/// `s` split at its first `'|'` (`str::split_once`), or all of `s` and an
/// empty text where it has none.
pub open spec fn split_bar(s: Seq<char>) -> (Seq<char>, Seq<char>) {
    if exists|k: int| is_first_bar(s, k) {
        let k = choose|k: int| is_first_bar(s, k);
        (s.take(k), s.skip(k + 1))
    } else {
        (s, seq![])
    }
}

/// The pane status in `#{pane_dead}|#{pane_dead_status}` output: dead when
/// the first field (line terminators at the end removed, trimmed) is `1`,
/// with the second field as its status where that parses as an `i32`.
pub open spec fn pane_status_of(out: Seq<char>) -> PaneStatus {
    let fields = split_bar(trim_end_newlines(out));
    if trim(fields.0) == seq!['1'] {
        PaneStatus::Dead(parse_i32(trim(fields.1)))
    } else {
        PaneStatus::Alive
    }
}

/// Parse a pane id (e.g. `%3`) from `display-message` output.
pub fn parse_pane_id(stdout: &str) -> (id: Option<String>)
    ensures
        id is None <==> pane_id_of(stdout@) is None,
        id matches Some(i) ==> pane_id_of(stdout@) == Some(i@),
{
    let trimmed = trim_str(stdout);
    if trimmed.as_str().is_empty() {
        None
    } else {
        Some(trimmed)
    }
}

/// Parse a process id from `display-message` output.
pub fn parse_pid(stdout: &str) -> (pid: Option<i32>)
    ensures
        pid == parse_i32(trim(stdout@)),
{
    let v = chars_of(stdout);
    let (a, b) = trimmed_bounds(&v, 0, v.len());
    assert(v@.subrange(0, v@.len() as int) =~= v@);
    parse_i32_in(&v, a, b)
}

/// Parse `#{pane_dead}|#{pane_dead_status}` output into a [`PaneStatus`].
pub fn parse_pane_status(stdout: &str) -> (status: PaneStatus)
    ensures
        status == pane_status_of(stdout@),
{
    let v = chars_of(stdout);
    // Drop trailing line terminators.
    let mut end = v.len();
    while end > 0 && (v[end - 1] == '\n' || v[end - 1] == '\r')
        invariant
            end <= v@.len(),
            forall|j: int| end <= j < v@.len() ==> is_newline(#[trigger] v@[j]),
        decreases end,
    {
        end = end - 1;
    }
    proof {
        lemma_trim_end_newlines_at(v@, end as int);
    }
    let ghost line = v@.subrange(0, end as int);
    assert(line == trim_end_newlines(stdout@));
    // Find the first '|'.
    let mut k: usize = 0;
    while k < end && v[k] != '|'
        invariant
            k <= end <= v@.len(),
            line == v@.subrange(0, end as int),
            forall|j: int| 0 <= j < k ==> line[j] != '|',
        decreases end - k,
    {
        assert(line[k as int] == v@[k as int]);
        k = k + 1;
    }
    let (dead_lo, dead_hi, st_lo, st_hi) = if k < end {
        assert(line[k as int] == v@[k as int]);
        assert(is_first_bar(line, k as int));
        assert forall|k2: int| is_first_bar(line, k2) implies k2 == k by {
            if k2 < k {
                assert(line[k2] != '|');
            } else if k2 > k {
                assert(line[k as int] != '|');
            }
        }
        assert(line.take(k as int) =~= v@.subrange(0, k as int));
        assert(line.skip(k + 1) =~= v@.subrange(k + 1, end as int));
        (0, k, k + 1, end)
    } else {
        assert(!exists|k2: int| is_first_bar(line, k2));
        (0, end, end, end)
    };
    assert(split_bar(line).0 == v@.subrange(dead_lo as int, dead_hi as int));
    assert(split_bar(line).1 =~= v@.subrange(st_lo as int, st_hi as int));
    let (a, b) = trimmed_bounds(&v, dead_lo, dead_hi);
    if b > a && b - a == 1 && v[a] == '1' {
        assert(v@.subrange(a as int, b as int) =~= seq!['1']);
        let (c, d) = trimmed_bounds(&v, st_lo, st_hi);
        PaneStatus::Dead(parse_i32_in(&v, c, d))
    } else {
        proof {
            if v@.subrange(a as int, b as int) == seq!['1'] {
                assert(v@.subrange(a as int, b as int).len() == 1);
                assert(v@.subrange(a as int, b as int)[0] == v@[a as int]);
            }
        }
        PaneStatus::Alive
    }
}

} // verus!
