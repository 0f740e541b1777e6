use vstd::prelude::*;
use crate::models::{commit_texts, CommitInfo, CommitText};
use vstd::string::StringExecFns;
use crate::text::{
    lemma_split_text_join, lemma_split_text_no_sep,
    chars_of, decode_utf8_lossy, int_text, push_char, push_i64_text,
    push_str, push_u64_text, split_chars, split_text, string_of, texts, trim_bounds, trim_text,
    utf8_lossy,
};

verus! {

/// Number of commits fetched for the history view.
pub const HISTORY_LIMIT: usize = 100;

/// Field separator used in the git pretty-format (unit separator, unlikely in commit text).
pub const FIELD_SEP: char = '\u{1f}';

/// The commit that one line of the history output describes: the fields are
/// the full hash, the short hash, the author, the date and the subject, in
/// that order and separated by `FIELD_SEP`. A line with fewer than four fields
/// describes none; a missing subject is empty; fields after the fifth are ignored.
pub open spec fn parse_line_text(line: Seq<char>) -> Option<CommitText> {
    let parts = split_text(line, FIELD_SEP);
    if parts.len() < 4 {
        None
    } else {
        Some(
            CommitText {
                full_hash: parts[0],
                short_hash: parts[1],
                author: parts[2],
                date: parts[3],
                subject: if parts.len() > 4 {
                    parts[4]
                } else {
                    seq![]
                },
            },
        )
    }
}

/// The history line that describes a commit, as the pretty-format writes it.
pub open spec fn commit_line(c: CommitText) -> Seq<char> {
    c.full_hash.push(FIELD_SEP) + c.short_hash.push(FIELD_SEP) + c.author.push(FIELD_SEP)
        + c.date.push(FIELD_SEP) + c.subject
}

/// No field of the commit holds the field separator.
pub open spec fn fields_free_of_separator(c: CommitText) -> bool {
    &&& !c.full_hash.contains(FIELD_SEP)
    &&& !c.short_hash.contains(FIELD_SEP)
    &&& !c.author.contains(FIELD_SEP)
    &&& !c.date.contains(FIELD_SEP)
    &&& !c.subject.contains(FIELD_SEP)
}

/// What the pretty-format writes for a commit, `parse_line` reads back,
/// provided no field holds the separator.
pub proof fn lemma_parse_line_reads_commit_line(c: CommitText)
    requires
        fields_free_of_separator(c),
    ensures
        parse_line_text(commit_line(c)) == Some(c),
{
    let sep = FIELD_SEP;
    lemma_split_text_no_sep(c.full_hash, sep);
    lemma_split_text_no_sep(c.short_hash, sep);
    lemma_split_text_no_sep(c.author, sep);
    lemma_split_text_no_sep(c.date, sep);
    lemma_split_text_no_sep(c.subject, sep);
    let t4 = c.date.push(sep) + c.subject;
    lemma_split_text_join(c.date, c.subject, sep);
    let t3 = c.author.push(sep) + t4;
    lemma_split_text_join(c.author, t4, sep);
    let t2 = c.short_hash.push(sep) + t3;
    lemma_split_text_join(c.short_hash, t3, sep);
    let t1 = c.full_hash.push(sep) + t2;
    lemma_split_text_join(c.full_hash, t2, sep);
    assert(commit_line(c) =~= t1);
    let parts = split_text(t1, sep);
    assert(parts =~= seq![c.full_hash, c.short_hash, c.author, c.date, c.subject]);
}

/// The texts of an optional commit.
pub open spec fn option_commit_text(o: Option<CommitInfo>) -> Option<CommitText> {
    match o {
        Some(c) => Some(c@),
        None => None,
    }
}

fn parse_line_chars(line: &[char]) -> (r: Option<CommitInfo>)
    ensures
        option_commit_text(r) == parse_line_text(line@),
{
    let parts = split_chars(line, FIELD_SEP);
    if parts.len() < 4 {
        return None;
    }
    let ghost ps = texts(parts@);
    assert(ps[0] == parts@[0]@);
    assert(ps[1] == parts@[1]@);
    assert(ps[2] == parts@[2]@);
    assert(ps[3] == parts@[3]@);
    let full_hash = string_of(parts[0].as_slice());
    let short_hash = string_of(parts[1].as_slice());
    let author = string_of(parts[2].as_slice());
    let date = string_of(parts[3].as_slice());
    let subject = if parts.len() > 4 {
        assert(ps[4] == parts@[4]@);
        string_of(parts[4].as_slice())
    } else {
        String::new()
    };
    let c = CommitInfo { short_hash, full_hash, author, date, subject };
    assert(c@ == parse_line_text(line@).unwrap());
    Some(c)
}

/// Parses one line of the history output into a commit.
pub fn parse_line(line: &str) -> (r: Option<CommitInfo>)
    ensures
        option_commit_text(r) == parse_line_text(line@),
{
    let cs = chars_of(line);
    parse_line_chars(cs.as_slice())
}

/// A line without the carriage return that ends it, if any.
pub open spec fn strip_cr(s: Seq<char>) -> Seq<char> {
    if s.len() > 0 && s.last() == '\r' {
        s.drop_last()
    } else {
        s
    }
}

/// The lines of a text (as `str::lines`): split at each line feed, a carriage
/// return before a line feed dropped, and no line after a final line feed.
pub open spec fn lines_text(s: Seq<char>) -> Seq<Seq<char>> {
    let parts = split_text(s, '\n');
    let ended = parts.drop_last().map_values(|l: Seq<char>| strip_cr(l));
    if parts.last().len() == 0 {
        ended
    } else {
        ended.push(parts.last())
    }
}

/// Splits a text into its lines.
pub fn lines_of(cs: &[char]) -> (ls: Vec<Vec<char>>)
    ensures
        texts(ls@) == lines_text(cs@),
{
    let mut out: Vec<Vec<char>> = Vec::new();
    let mut cur: Vec<char> = Vec::new();
    let mut i: usize = 0;
    while i < cs.len()
        invariant
            i <= cs@.len(),
            split_text(cs@.take(i as int), '\n').len() >= 1,
            texts(out@) == split_text(cs@.take(i as int), '\n').drop_last().map_values(
                |l: Seq<char>| strip_cr(l),
            ),
            cur@ == split_text(cs@.take(i as int), '\n').last(),
        decreases cs.len() - i,
    {
        let c = cs[i];
        let ghost prev = cs@.take(i as int);
        let ghost next = cs@.take(i + 1);
        assert(next.drop_last() =~= prev);
        assert(next.last() == c);
        let ghost sp = split_text(prev, '\n');
        if c == '\n' {
            if cur.len() > 0 && cur[cur.len() - 1] == '\r' {
                cur.pop();
            }
            assert(cur@ == strip_cr(sp.last()));
            let ghost out_before = texts(out@);
            let mut done: Vec<char> = Vec::new();
            std::mem::swap(&mut done, &mut cur);
            let ghost done_v = done@;
            out.push(done);
            assert(texts(out@) =~= out_before.push(done_v));
            assert(out_before.len() == sp.len() - 1);
            assert(texts(out@).len() == sp.len());
            assert forall|k: int| 0 <= k < sp.len() implies #[trigger] texts(out@)[k] == strip_cr(sp[k]) by {
                if k < sp.len() - 1 {
                    assert(texts(out@)[k] == out_before[k]);
                }
            }
            assert(split_text(next, '\n') == sp.push(seq![]));
            assert(split_text(next, '\n').drop_last() =~= sp);
            assert(texts(out@) =~= sp.map_values(|l: Seq<char>| strip_cr(l)));
        } else {
            cur.push(c);
            assert(split_text(next, '\n') == sp.update(sp.len() - 1, sp.last().push(c)));
            assert(split_text(next, '\n').drop_last() =~= sp.drop_last());
        }
        i += 1;
    }
    assert(cs@.take(cs@.len() as int) =~= cs@);
    if cur.len() > 0 {
        out.push(cur);
    }
    out
}

/// The commits of the history output's lines: blank lines are skipped, and
/// so are lines that describe no commit.
pub open spec fn commits_from_lines(ls: Seq<Seq<char>>) -> Seq<CommitText>
    decreases ls.len(),
{
    if ls.len() == 0 {
        seq![]
    } else {
        let prev = commits_from_lines(ls.drop_last());
        let l = ls.last();
        if trim_text(l).len() == 0 {
            prev
        } else {
            match parse_line_text(l) {
                Some(c) => prev.push(c),
                None => prev,
            }
        }
    }
}

/// Each line adds its commit, if it describes one, after the commits of the
/// lines before it: the commits of two runs of lines are those of the first
/// followed by those of the second.
pub proof fn lemma_commits_of_joined_lines(a: Seq<Seq<char>>, b: Seq<Seq<char>>)
    ensures
        commits_from_lines(a + b) == commits_from_lines(a) + commits_from_lines(b),
    decreases b.len(),
{
    if b.len() == 0 {
        assert(a + b =~= a);
        assert(commits_from_lines(a) + commits_from_lines(b) =~= commits_from_lines(a));
    } else {
        assert((a + b).drop_last() =~= a + b.drop_last());
        assert((a + b).last() == b.last());
        lemma_commits_of_joined_lines(a, b.drop_last());
        let l = b.last();
        if trim_text(l).len() != 0 {
            if let Some(c) = parse_line_text(l) {
                assert((commits_from_lines(a) + commits_from_lines(b.drop_last())).push(c)
                    =~= commits_from_lines(a) + commits_from_lines(b.drop_last()).push(c));
            }
        }
    }
}

/// One line's commits: its commit where it is not blank and describes one,
/// none otherwise.
pub proof fn lemma_commits_of_one_line(l: Seq<char>)
    ensures
        trim_text(l).len() != 0 && parse_line_text(l) is Some ==> commits_from_lines(seq![l]) == seq![
            parse_line_text(l).unwrap(),
        ],
        trim_text(l).len() == 0 || parse_line_text(l) is None ==> commits_from_lines(seq![l]).len() == 0,
{
    let ls = seq![l];
    assert(ls.drop_last() =~= Seq::<Seq<char>>::empty());
    assert(ls.last() == l);
    assert(ls.len() == 1);
    assert(commits_from_lines(ls.drop_last()).len() == 0);
    if trim_text(l).len() != 0 && parse_line_text(l) is Some {
        assert(Seq::<CommitText>::empty().push(parse_line_text(l).unwrap()) =~= seq![parse_line_text(l).unwrap()]);
    }
}

/// A line that ends with a line feed is the first line of the text, without a
/// carriage return that ends it; the rest of the text gives the other lines.
pub proof fn lemma_lines_of_first_line(x: Seq<char>, rest: Seq<char>)
    requires
        !x.contains('\n'),
    ensures
        lines_text(x.push('\n') + rest) == seq![strip_cr(x)] + lines_text(rest),
{
    lemma_split_text_no_sep(x, '\n');
    lemma_split_text_join(x, rest, '\n');
    crate::text::lemma_split_text_nonempty(rest, '\n');
    let parts = split_text(x.push('\n') + rest, '\n');
    let r = split_text(rest, '\n');
    assert(parts == seq![x] + r);
    assert(parts.last() == r.last());
    assert(parts.drop_last() =~= seq![x] + r.drop_last());
    assert(parts.drop_last().map_values(|l: Seq<char>| strip_cr(l)) =~= seq![strip_cr(x)] + r.drop_last().map_values(
        |l: Seq<char>| strip_cr(l),
    ));
    if r.last().len() == 0 {
    } else {
        assert((seq![strip_cr(x)] + r.drop_last().map_values(|l: Seq<char>| strip_cr(l))).push(r.last())
            =~= seq![strip_cr(x)] + r.drop_last().map_values(|l: Seq<char>| strip_cr(l)).push(r.last()));
    }
}

/// A text without a line feed is one line (kept whole, a final carriage
/// return too), or none when empty.
pub proof fn lemma_lines_of_last_line(x: Seq<char>)
    requires
        !x.contains('\n'),
    ensures
        x.len() > 0 ==> lines_text(x) == seq![x],
        x.len() == 0 ==> lines_text(x).len() == 0,
{
    lemma_split_text_no_sep(x, '\n');
    let parts = split_text(x, '\n');
    assert(parts.drop_last() =~= Seq::<Seq<char>>::empty());
    if x.len() > 0 {
        assert(Seq::<Seq<char>>::empty().push(x) =~= seq![x]);
    }
}

/// The commits described by the history output.
pub open spec fn git_log_commits(out: Seq<char>) -> Seq<CommitText> {
    commits_from_lines(lines_text(out))
}

/// Parses the whole history output into commits.
pub fn parse_commits(out: &str) -> (r: Vec<CommitInfo>)
    ensures
        commit_texts(r@) == git_log_commits(out@),
{
    let cs = chars_of(out);
    let ls = lines_of(cs.as_slice());
    let ghost lt = texts(ls@);
    let mut r: Vec<CommitInfo> = Vec::new();
    let mut i: usize = 0;
    while i < ls.len()
        invariant
            i <= ls@.len(),
            lt == texts(ls@),
            commit_texts(r@) == commits_from_lines(lt.take(i as int)),
        decreases ls.len() - i,
    {
        assert(lt.take(i + 1).drop_last() =~= lt.take(i as int));
        assert(lt.take(i + 1).last() == ls@[i as int]@);
        let (a, b) = trim_bounds(ls[i].as_slice());
        if a < b {
            match parse_line_chars(ls[i].as_slice()) {
                Some(c) => {
                    r.push(c);
                    assert(commit_texts(r@) =~= commit_texts(r@.drop_last()).push(r@.last()@));
                },
                None => {},
            }
        }
        i += 1;
    }
    assert(lt.take(ls@.len() as int) =~= lt);
    r
}

/// The number a process exit reports: its code, or -1 where it has none.
pub open spec fn exit_code_value(code: Option<i32>) -> int {
    match code {
        Some(c) => c as int,
        None => -1,
    }
}

/// The error message for a `git log` that did not succeed: its trimmed error
/// output, or, where that is empty, a sentence that gives the exit code.
pub open spec fn git_exit_message(code: Option<i32>, stderr: Seq<char>) -> Seq<char> {
    let msg = trim_text(stderr);
    if msg.len() == 0 {
        "git ha restituito codice "@ + int_text(exit_code_value(code)) + "."@
    } else {
        msg
    }
}

/// The message for a failed `git log` is never empty: where git wrote no
/// error, the exit code is reported instead.
pub proof fn lemma_git_exit_message_nonempty(code: Option<i32>, stderr: Seq<char>)
    ensures
        git_exit_message(code, stderr).len() > 0,
{
    reveal_strlit("git ha restituito codice ");
}

/// Turns the outcome of a finished `git log` run into the commits it lists or
/// an error message. Both outputs are decoded as UTF-8, invalid sequences
/// replaced.
pub fn git_log_outcome(success: bool, code: Option<i32>, stdout: &[u8], stderr: &[u8]) -> (r: Result<
    Vec<CommitInfo>,
    String,
>)
    ensures
        success ==> (r matches Ok(v) && commit_texts(v@) == git_log_commits(utf8_lossy(stdout@))),
        !success ==> (r matches Err(m) && m@ == git_exit_message(code, utf8_lossy(stderr@))),
{
    if !success {
        let err = decode_utf8_lossy(stderr);
        let cs = chars_of(err.as_str());
        let (a, b) = trim_bounds(cs.as_slice());
        if a < b {
            let msg = crate::text::string_of_range(cs.as_slice(), a, b);
            return Err(msg);
        }
        let mut msg = String::from_str("git ha restituito codice ");
        let n: i64 = match code {
            Some(c) => c as i64,
            None => -1,
        };
        push_i64_text(&mut msg, n);
        push_str(&mut msg, ".");
        return Err(msg);
    }
    let out = decode_utf8_lossy(stdout);
    Ok(parse_commits(out.as_str()))
}

/// The error message for a `git` that could not be started.
pub fn git_launch_error(err: &str) -> (m: String)
    ensures
        m@ == "Impossibile eseguire 'git': "@ + err@
            + "\nVerifica che git sia installato e presente nel PATH."@,
{
    let mut m = String::from_str("Impossibile eseguire 'git': ");
    push_str(&mut m, err);
    push_str(&mut m, "\nVerifica che git sia installato e presente nel PATH.");
    m
}

/// The pretty-format that asks git for the five fields of a commit.
pub open spec fn pretty_format() -> Seq<char> {
    "%H"@.push(FIELD_SEP) + "%h"@.push(FIELD_SEP) + "%an"@.push(FIELD_SEP) + "%ad"@.push(FIELD_SEP)
        + "%s"@
}

/// The arguments of the `git` run that fetches a repository's recent history.
pub open spec fn git_log_arg_texts(repo_path: Seq<char>) -> Seq<Seq<char>> {
    seq![
        "-C"@,
        repo_path,
        "log"@,
        "-n"@ + int_text(HISTORY_LIMIT as int),
        "--pretty=format:"@ + pretty_format(),
        "--date=format-local:%Y-%m-%d %H:%M"@,
    ]
}

/// The texts of a list of strings.
pub open spec fn string_texts(v: Seq<String>) -> Seq<Seq<char>> {
    v.map_values(|s: String| s@)
}

/// The arguments for `git` that list the recent history of a repository.
pub fn git_log_args(repo_path: &str) -> (args: Vec<String>)
    ensures
        string_texts(args@) == git_log_arg_texts(repo_path@),
{
    let mut limit = String::from_str("-n");
    push_u64_text(&mut limit, HISTORY_LIMIT as u64);
    let mut pretty = String::from_str("--pretty=format:");
    push_str(&mut pretty, "%H");
    push_char(&mut pretty, FIELD_SEP);
    push_str(&mut pretty, "%h");
    push_char(&mut pretty, FIELD_SEP);
    push_str(&mut pretty, "%an");
    push_char(&mut pretty, FIELD_SEP);
    push_str(&mut pretty, "%ad");
    push_char(&mut pretty, FIELD_SEP);
    push_str(&mut pretty, "%s");
    let mut args: Vec<String> = Vec::new();
    args.push(String::from_str("-C"));
    args.push(String::from_str(repo_path));
    args.push(String::from_str("log"));
    args.push(limit);
    args.push(pretty);
    args.push(String::from_str("--date=format-local:%Y-%m-%d %H:%M"));
    assert(pretty@ =~= "--pretty=format:"@ + pretty_format());
    assert(string_texts(args@) =~= git_log_arg_texts(repo_path@));
    args
}

} // verus!
