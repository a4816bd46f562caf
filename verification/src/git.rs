//! Reading git's output: status, ahead/behind counts, logs and command
//! results, turned into the events the server broadcasts.
use vstd::prelude::*;
use crate::bindings::{lossy_decode, utf8_lossy};
use crate::messages::{GitCommitInfo, GitRepoInfo, OutgoingCommit, ServerMessage, SourceControlFile};
use crate::text::{
    char_index, chars_of, concat_chars, lines, opt_view, owned, parse_i32, parsed_signed,
    push_decimal,
    decimal, slice_chars, split_lines, split_whitespace, string_of, strs_view, trim, trim_chars,
    words,
};

verus! {

/// What a finished command produced.
pub struct CommandOutput {
    /// Whether it exited successfully.
    pub success: bool,
    pub stdout: Vec<u8>,
    pub stderr: Vec<u8>,
}

/// The text a command printed on stdout, decoded as UTF-8 (lossily).
pub open spec fn stdout_text(o: CommandOutput) -> Seq<char> {
    lossy_decode(o.stdout@)
}

/// The text a command printed on stderr, decoded as UTF-8 (lossily).
pub open spec fn stderr_text(o: CommandOutput) -> Seq<char> {
    lossy_decode(o.stderr@)
}

/// The trimmed stdout of a command that ran and succeeded.
pub open spec fn trimmed_output(o: Option<CommandOutput>) -> Option<Seq<char>> {
    match o {
        Some(out) => if out.success {
            Some(trim(stdout_text(out)))
        } else {
            None
        },
        None => None,
    }
}

/// The trimmed stdout of a command that ran and succeeded (a branch name, a
/// remote name, a count pair).
pub fn trimmed_stdout(o: &Option<CommandOutput>) -> (r: Option<String>)
    ensures
        opt_view(r) == trimmed_output(*o),
{
    match o {
        Some(out) => {
            if out.success {
                let text = utf8_lossy(out.stdout.as_slice());
                let t = trim_chars(chars_of(text.as_str()).as_slice());
                Some(string_of(t.as_slice()))
            } else {
                None
            }
        },
        None => None,
    }
}

/// The staged, unstaged and untracked paths of `git status --porcelain=v1`
/// lines: a line of at least three characters is `XY path`; `X` other than
/// space and `?` means staged, `X` = `?` untracked, `Y` other than space and
/// `?` unstaged.
pub open spec fn porcelain(ls: Seq<Seq<char>>) -> (Seq<Seq<char>>, Seq<Seq<char>>, Seq<Seq<char>>)
    decreases ls.len(),
{
    if ls.len() == 0 {
        (Seq::empty(), Seq::empty(), Seq::empty())
    } else {
        let (s, u, n) = porcelain(ls.drop_last());
        let l = ls.last();
        if l.len() < 3 {
            (s, u, n)
        } else {
            let path = l.skip(3);
            let x = l[0];
            let y = l[1];
            (
                if x != ' ' && x != '?' { s.push(path) } else { s },
                if y != ' ' && y != '?' { u.push(path) } else { u },
                if x == '?' { n.push(path) } else { n },
            )
        }
    }
}

/// The staged, unstaged and untracked paths listed in porcelain status text.
pub fn porcelain_lists(text: &str) -> (r: (Vec<String>, Vec<String>, Vec<String>))
    ensures
        (strs_view(r.0@), strs_view(r.1@), strs_view(r.2@)) == porcelain(lines(text@)),
{
    let ls = split_lines(chars_of(text).as_slice());
    let ghost lv = ls@.map_values(|w: Vec<char>| w@);
    let mut s: Vec<String> = Vec::new();
    let mut u: Vec<String> = Vec::new();
    let mut n: Vec<String> = Vec::new();
    let mut i: usize = 0;
    while i < ls.len()
        invariant
            i <= ls@.len(),
            lv == ls@.map_values(|w: Vec<char>| w@),
            lv == lines(text@),
            (strs_view(s@), strs_view(u@), strs_view(n@)) == porcelain(lv.take(i as int)),
        decreases ls@.len() - i,
    {
        assert(lv.take(i + 1).drop_last() =~= lv.take(i as int));
        assert(lv.take(i + 1).last() == ls@[i as int]@);
        let l = &ls[i];
        if l.len() >= 3 {
            let path = slice_chars(l.as_slice(), 3, l.len());
            assert(path@ =~= l@.skip(3));
            let x = l[0];
            let y = l[1];
            if x != ' ' && x != '?' {
                let ghost b = strs_view(s@);
                s.push(string_of(path.as_slice()));
                assert(strs_view(s@) =~= b.push(path@));
            }
            if y != ' ' && y != '?' {
                let ghost b = strs_view(u@);
                u.push(string_of(path.as_slice()));
                assert(strs_view(u@) =~= b.push(path@));
            }
            if x == '?' {
                let ghost b = strs_view(n@);
                n.push(string_of(path.as_slice()));
                assert(strs_view(n@) =~= b.push(path@));
            }
        }
        i = i + 1;
    }
    assert(lv.take(ls@.len() as int) =~= lv);
    (s, u, n)
}

/// The ahead and behind counts in the output of `git rev-list --left-right
/// --count @{upstream}...HEAD`: exactly two whitespace-separated words, each
/// parsed as an `i32`. The first counts upstream commits missing from HEAD
/// (behind), the second HEAD commits missing upstream (ahead).
pub open spec fn count_pair(text: Option<Seq<char>>) -> (Option<i32>, Option<i32>) {
    match text {
        Some(t) => {
            let ws = words(t);
            if ws.len() == 2 {
                (as_i32(parsed_signed(ws[1])), as_i32(parsed_signed(ws[0])))
            } else {
                (None, None)
            }
        },
        None => (None, None),
    }
}

/// A parsed integer when it fits an `i32`.
pub open spec fn as_i32(v: Option<int>) -> Option<i32> {
    match v {
        Some(x) => if -0x8000_0000 <= x <= 0x7FFF_FFFF {
            Some(x as i32)
        } else {
            None
        },
        None => None,
    }
}

/// The ahead/behind counts from the output of `git rev-list --left-right --count`.
pub fn ahead_behind(out: &Option<CommandOutput>) -> (r: (Option<i32>, Option<i32>))
    ensures
        r == count_pair(trimmed_output(*out)),
{
    match trimmed_stdout(out) {
        Some(t) => {
            let ws = split_whitespace(chars_of(t.as_str()).as_slice());
            proof {
                assert(ws@.map_values(|w: Vec<char>| w@).len() == ws@.len());
            }
            if ws.len() == 2 {
                proof {
                    assert(ws@.map_values(|w: Vec<char>| w@)[0] == ws@[0]@);
                    assert(ws@.map_values(|w: Vec<char>| w@)[1] == ws@[1]@);
                }
                (parse_i32(ws[1].as_slice()), parse_i32(ws[0].as_slice()))
            } else {
                (None, None)
            }
        },
        None => (None, None),
    }
}

/// The git status event for a pane: not a repository (nothing else known),
/// or the branch, the porcelain lists when status succeeded, and the
/// ahead/behind counts read when a branch is known.
pub open spec fn git_status_spec(
    m: ServerMessage,
    pane_id: Seq<char>,
    dir: Seq<char>,
    is_repo: bool,
    branch: Option<Seq<char>>,
    status_out: Option<CommandOutput>,
    rev_out: Option<CommandOutput>,
) -> bool {
    m matches ServerMessage::GitStatus {
        pane_id: p,
        dir: d,
        is_repo: r,
        branch: b,
        staged,
        unstaged,
        untracked,
        ahead,
        behind,
    } && p@ == pane_id && d@ == dir && r == is_repo && if !is_repo {
        b is None && staged@.len() == 0 && unstaged@.len() == 0 && untracked@.len() == 0 && ahead is None
            && behind is None
    } else {
        let lists = match status_out {
            Some(o) => if o.success {
                porcelain(lines(stdout_text(o)))
            } else {
                (Seq::empty(), Seq::empty(), Seq::empty())
            },
            None => (Seq::empty(), Seq::empty(), Seq::empty()),
        };
        let counts = if branch is Some {
            count_pair(trimmed_output(rev_out))
        } else {
            (None, None)
        };
        &&& opt_view(b) == branch
        &&& (strs_view(staged@), strs_view(unstaged@), strs_view(untracked@)) == lists
        &&& (ahead, behind) == counts
    }
}

/// The git status event of a pane's directory, from what git printed.
pub fn git_status_message(
    pane_id: &str,
    dir: &str,
    is_repo: bool,
    branch: Option<String>,
    status_out: &Option<CommandOutput>,
    rev_out: &Option<CommandOutput>,
) -> (m: ServerMessage)
    ensures
        git_status_spec(m, pane_id@, dir@, is_repo, opt_view(branch), *status_out, *rev_out),
{
    if !is_repo {
        return ServerMessage::GitStatus {
            pane_id: owned(pane_id),
            dir: owned(dir),
            is_repo: false,
            branch: None,
            staged: Vec::new(),
            unstaged: Vec::new(),
            untracked: Vec::new(),
            ahead: None,
            behind: None,
        };
    }
    let (staged, unstaged, untracked) = match status_out {
        Some(o) => {
            if o.success {
                let text = utf8_lossy(o.stdout.as_slice());
                porcelain_lists(text.as_str())
            } else {
                (Vec::new(), Vec::new(), Vec::new())
            }
        },
        None => (Vec::new(), Vec::new(), Vec::new()),
    };
    proof {
        assert(strs_view(Seq::<String>::empty()) =~= Seq::empty());
    }
    let (ahead, behind) = if branch.is_some() {
        ahead_behind(rev_out)
    } else {
        (None, None)
    };
    ServerMessage::GitStatus {
        pane_id: owned(pane_id),
        dir: owned(dir),
        is_repo: true,
        branch,
        staged,
        unstaged,
        untracked,
        ahead,
        behind,
    }
}

} // verus!

verus! {

/// Some porcelain status line shows a staged change.
pub open spec fn shows_staged(ls: Seq<Seq<char>>) -> bool {
    exists|i: int| 0 <= i < ls.len() && ls[i].len() >= 3 && ls[i][0] != ' ' && ls[i][0] != '?'
}

/// Whether the output of `git status --porcelain=v1 -s` shows staged changes.
pub fn has_staged_changes(status_out: &Option<CommandOutput>) -> (r: bool)
    ensures
        r == match *status_out {
            Some(o) => o.success && shows_staged(lines(stdout_text(o))),
            None => false,
        },
{
    match status_out {
        Some(o) => {
            if !o.success {
                return false;
            }
            let text = utf8_lossy(o.stdout.as_slice());
            let ls = split_lines(chars_of(text.as_str()).as_slice());
            let ghost lv = ls@.map_values(|w: Vec<char>| w@);
            let mut i: usize = 0;
            while i < ls.len()
                invariant
                    i <= ls@.len(),
                    lv == ls@.map_values(|w: Vec<char>| w@),
                    lv == lines(stdout_text(*o)),
                    *status_out == Some(*o),
                    o.success,
                    forall|j: int|
                        0 <= j < i ==> !(lv[j].len() >= 3 && lv[j][0] != ' ' && lv[j][0] != '?'),
                decreases ls@.len() - i,
            {
                assert(lv[i as int] == ls@[i as int]@);
                if ls[i].len() >= 3 && ls[i][0] != ' ' && ls[i][0] != '?' {
                    assert(shows_staged(lv)) by {
                        assert(lv[i as int].len() >= 3 && lv[i as int][0] != ' ' && lv[i as int][0] != '?');
                    }
                    return true;
                }
                i = i + 1;
            }
            false
        },
        None => false,
    }
}

/// `a` followed by the lossily decoded `b`.
fn with_text(a: &str, b: &[u8]) -> (r: String)
    ensures
        r@ == a@ + lossy_decode(b@),
{
    let t = utf8_lossy(b);
    string_of(concat_chars(chars_of(a).as_slice(), chars_of(t.as_str()).as_slice()).as_slice())
}

/// `a` followed by the trimmed, lossily decoded `b`.
fn with_trimmed_text(a: &str, b: &[u8]) -> (r: String)
    ensures
        r@ == a@ + trim(lossy_decode(b@)),
{
    let t = utf8_lossy(b);
    let tt = trim_chars(chars_of(t.as_str()).as_slice());
    string_of(concat_chars(chars_of(a).as_slice(), tt.as_slice()).as_slice())
}

/// `a` followed by `b`.
fn joined(a: &str, b: &str) -> (r: String)
    ensures
        r@ == a@ + b@,
{
    string_of(concat_chars(chars_of(a).as_slice(), chars_of(b).as_slice()).as_slice())
}

/// The result of committing in a pane's directory: refused without staged
/// changes; else git's stdout on success, its stderr on failure, or the
/// reason the command could not run.
pub fn git_commit_message(pane_id: &str, has_staged: bool, out: &Result<CommandOutput, String>) -> (m: ServerMessage)
    ensures
        m matches ServerMessage::GitCommitResult { pane_id: p, success, message } && p@ == pane_id@
            && if !has_staged {
            !success && message@ == "No staged changes to commit"@
        } else {
            match out {
                Ok(o) => if o.success {
                    success && message@ == stdout_text(*o)
                } else {
                    !success && message@ == "Commit failed: "@ + stderr_text(*o)
                },
                Err(e) => !success && message@ == "Failed to execute git commit: "@ + e@,
            }
        },
{
    if !has_staged {
        return ServerMessage::GitCommitResult {
            pane_id: owned(pane_id),
            success: false,
            message: owned("No staged changes to commit"),
        };
    }
    match out {
        Ok(o) => {
            if o.success {
                ServerMessage::GitCommitResult {
                    pane_id: owned(pane_id),
                    success: true,
                    message: utf8_lossy(o.stdout.as_slice()),
                }
            } else {
                ServerMessage::GitCommitResult {
                    pane_id: owned(pane_id),
                    success: false,
                    message: with_text("Commit failed: ", o.stderr.as_slice()),
                }
            }
        },
        Err(e) => ServerMessage::GitCommitResult {
            pane_id: owned(pane_id),
            success: false,
            message: joined("Failed to execute git commit: ", e.as_str()),
        },
    }
}

/// The text of a successful stage or unstage: `staged N file(s)` or `unstaged N file(s)`.
pub open spec fn staged_text(unstage: bool, n: nat) -> Seq<char> {
    (if unstage {
        "unstaged "@
    } else {
        "staged "@
    }) + decimal(n) + " file(s)"@
}

/// The notice after staging or unstaging `files`: refused when there are
/// none; else the count on success, git's stderr on failure, or the reason
/// the command could not run.
pub fn git_stage_message(files: &Vec<String>, unstage: bool, out: &Option<Result<CommandOutput, String>>) -> (m: ServerMessage)
    requires
        files@.len() > 0 ==> out is Some,
    ensures
        m matches ServerMessage::Error { message } && if files@.len() == 0 {
            message@ == "No files specified"@
        } else {
            match out {
                Some(Ok(o)) => if o.success {
                    message@ == staged_text(unstage, files@.len())
                } else {
                    message@ == (if unstage {
                        "Failed to unstage files: "@
                    } else {
                        "Failed to stage files: "@
                    }) + stderr_text(*o)
                },
                Some(Err(e)) => message@ == "Failed to execute git command: "@ + e@,
                None => false,
            }
        },
{
    if files.len() == 0 {
        return ServerMessage::Error { message: owned("No files specified") };
    }
    match out {
        Some(Ok(o)) => {
            if o.success {
                let mut t = chars_of(if unstage { "unstaged " } else { "staged " });
                push_decimal(&mut t, files.len() as u64);
                let t = concat_chars(t.as_slice(), chars_of(" file(s)").as_slice());
                ServerMessage::Error { message: string_of(t.as_slice()) }
            } else {
                ServerMessage::Error {
                    message: with_text(
                        if unstage { "Failed to unstage files: " } else { "Failed to stage files: " },
                        o.stderr.as_slice(),
                    ),
                }
            }
        },
        Some(Err(e)) => ServerMessage::Error { message: joined("Failed to execute git command: ", e.as_str()) },
        None => ServerMessage::Error { message: owned("No files specified") },
    }
}

/// The notice after `git push` (`pull` when `pull` is set): the trimmed
/// stdout on success, the trimmed stderr on failure, or the reason the
/// command could not run.
pub fn git_sync_message(pull: bool, out: &Result<CommandOutput, String>) -> (m: ServerMessage)
    ensures
        m matches ServerMessage::Error { message } && match out {
            Ok(o) => if o.success {
                message@ == (if pull {
                    "Pulled successfully: "@
                } else {
                    "Pushed successfully: "@
                }) + trim(stdout_text(*o))
            } else {
                message@ == (if pull {
                    "Pull failed: "@
                } else {
                    "Push failed: "@
                }) + trim(stderr_text(*o))
            },
            Err(e) => message@ == (if pull {
                "Failed to execute git pull: "@
            } else {
                "Failed to execute git push: "@
            }) + e@,
        },
{
    match out {
        Ok(o) => {
            if o.success {
                ServerMessage::Error {
                    message: with_trimmed_text(
                        if pull { "Pulled successfully: " } else { "Pushed successfully: " },
                        o.stdout.as_slice(),
                    ),
                }
            } else {
                ServerMessage::Error {
                    message: with_trimmed_text(
                        if pull { "Pull failed: " } else { "Push failed: " },
                        o.stderr.as_slice(),
                    ),
                }
            }
        },
        Err(e) => ServerMessage::Error {
            message: joined(
                if pull { "Failed to execute git pull: " } else { "Failed to execute git push: " },
                e.as_str(),
            ),
        },
    }
}

} // verus!

verus! {

/// `s` split at the first `n - 1` occurrences of `c`, as `str::splitn(n, c)` gives it.
pub open spec fn splitn_char(s: Seq<char>, c: char, n: nat) -> Seq<Seq<char>>
    decreases n,
{
    if n <= 1 {
        seq![s]
    } else {
        let i = char_index(s, c);
        if i >= s.len() {
            seq![s]
        } else {
            seq![s.take(i as int)] + splitn_char(s.skip(i as int + 1), c, (n - 1) as nat)
        }
    }
}

/// The `k`-th part, or empty text when there are fewer parts.
pub open spec fn part(ps: Seq<Seq<char>>, k: int) -> Seq<char> {
    if 0 <= k < ps.len() {
        ps[k]
    } else {
        Seq::empty()
    }
}

/// The mathematical content of a commit record (log entries and outgoing commits alike).
pub struct CommitView {
    pub hash: Seq<char>,
    pub short_hash: Seq<char>,
    pub message: Seq<char>,
    pub author: Seq<char>,
    pub date: Seq<char>,
}

impl View for GitCommitInfo {
    type V = CommitView;

    open spec fn view(&self) -> CommitView {
        CommitView {
            hash: self.hash@,
            short_hash: self.short_hash@,
            message: self.message@,
            author: self.author@,
            date: self.date@,
        }
    }
}

impl View for OutgoingCommit {
    type V = CommitView;

    open spec fn view(&self) -> CommitView {
        CommitView {
            hash: self.hash@,
            short_hash: self.short_hash@,
            message: self.message@,
            author: self.author@,
            date: self.date@,
        }
    }
}

/// The first seven characters of a hash (all of a shorter one).
pub open spec fn short(h: Seq<char>) -> Seq<char> {
    if h.len() <= 7 {
        h
    } else {
        h.take(7)
    }
}

/// A `git log --format=%H|%s|%an|%ad` line: hash, subject, author, date
/// (the date keeps any further `|`).
pub open spec fn log_entry(l: Seq<char>) -> CommitView {
    let ps = splitn_char(l, '|', 4);
    CommitView {
        hash: part(ps, 0),
        short_hash: short(part(ps, 0)),
        message: part(ps, 1),
        author: part(ps, 2),
        date: part(ps, 3),
    }
}

/// A `git log --oneline` line: hash, then the subject after the first space.
pub open spec fn oneline_entry(l: Seq<char>) -> CommitView {
    let ps = splitn_char(l, ' ', 2);
    CommitView {
        hash: part(ps, 0),
        short_hash: short(part(ps, 0)),
        message: part(ps, 1),
        author: Seq::empty(),
        date: Seq::empty(),
    }
}

/// The non-empty lines of `ls`, each read by `f`.
pub open spec fn nonempty_entries(ls: Seq<Seq<char>>, f: spec_fn(Seq<char>) -> CommitView) -> Seq<CommitView>
    decreases ls.len(),
{
    if ls.len() == 0 {
        Seq::empty()
    } else {
        let prev = nonempty_entries(ls.drop_last(), f);
        if ls.last().len() == 0 {
            prev
        } else {
            prev.push(f(ls.last()))
        }
    }
}

proof fn lemma_splitn_step(s: Seq<char>, c: char, n: nat, i: int)
    requires
        n > 1,
        0 <= i < s.len(),
        s[i] != c,
    ensures
        char_index(s.skip(i), c) == 1 + char_index(s.skip(i + 1), c),
{
    assert(s.skip(i).drop_first() =~= s.skip(i + 1));
}

/// `s` split at the first `n - 1` occurrences of `c`.
pub fn splitn_chars(s: &[char], c: char, n: usize) -> (r: Vec<Vec<char>>)
    requires
        n >= 1,
    ensures
        r@.map_values(|w: Vec<char>| w@) == splitn_char(s@, c, n as nat),
    decreases n,
{
    if n == 1 {
        let mut r: Vec<Vec<char>> = Vec::new();
        r.push(slice_chars(s, 0, s.len()));
        assert(s@.subrange(0, s@.len() as int) =~= s@);
        assert(r@.map_values(|w: Vec<char>| w@) =~= seq![s@]);
        return r;
    }
    let mut i: usize = 0;
    assert(s@.skip(0) =~= s@);
    while i < s.len() && s[i] != c
        invariant
            i <= s@.len(),
            n > 1,
            char_index(s@, c) == i + char_index(s@.skip(i as int), c),
        decreases s@.len() - i,
    {
        proof {
            lemma_splitn_step(s@, c, n as nat, i as int);
        }
        i = i + 1;
    }
    proof {
        crate::text::lemma_char_index_bound(s@, c);
        if i < s@.len() {
            assert(s@.skip(i as int)[0] == c);
        }
    }
    if i == s.len() {
        let mut r: Vec<Vec<char>> = Vec::new();
        r.push(slice_chars(s, 0, s.len()));
        assert(r@.map_values(|w: Vec<char>| w@) =~= seq![s@]);
        assert(s@.subrange(0, s@.len() as int) =~= s@);
        return r;
    }
    let head = slice_chars(s, 0, i);
    let rest = slice_chars(s, i + 1, s.len());
    let tail = splitn_chars(rest.as_slice(), c, n - 1);
    assert(rest@ =~= s@.skip(i + 1));
    assert(head@ =~= s@.take(i as int));
    let mut r: Vec<Vec<char>> = Vec::new();
    r.push(head);
    let mut tail = tail;
    let ghost tv = tail@.map_values(|w: Vec<char>| w@);
    r.append(&mut tail);
    assert(r@.map_values(|w: Vec<char>| w@) =~= seq![s@.take(i as int)] + tv);
    r
}

/// The `k`-th part as a string, or an empty string.
fn part_string(ps: &Vec<Vec<char>>, k: usize) -> (r: String)
    ensures
        r@ == part(ps@.map_values(|w: Vec<char>| w@), k as int),
{
    if k < ps.len() {
        string_of(ps[k].as_slice())
    } else {
        String::new()
    }
}

/// The first seven characters of `h`.
fn short_string(h: &String) -> (r: String)
    ensures
        r@ == short(h@),
{
    let c = chars_of(h.as_str());
    if c.len() <= 7 {
        h.clone()
    } else {
        string_of(slice_chars(c.as_slice(), 0, 7).as_slice())
    }
}

/// The commits of `git log --format=%H|%s|%an|%ad` output: one per
/// non-empty line; none when the command failed or did not run.
pub fn parse_git_log(out: &Option<CommandOutput>) -> (r: Vec<GitCommitInfo>)
    ensures
        r@.map_values(|c: GitCommitInfo| c@) == match *out {
            Some(o) => if o.success {
                nonempty_entries(lines(stdout_text(o)), |l: Seq<char>| log_entry(l))
            } else {
                Seq::empty()
            },
            None => Seq::empty(),
        },
{
    let mut r: Vec<GitCommitInfo> = Vec::new();
    match out {
        Some(o) => {
            if !o.success {
                assert(r@.map_values(|c: GitCommitInfo| c@) =~= Seq::empty());
                return r;
            }
            let text = utf8_lossy(o.stdout.as_slice());
            let ls = split_lines(chars_of(text.as_str()).as_slice());
            let ghost lv = ls@.map_values(|w: Vec<char>| w@);
            let ghost f = |l: Seq<char>| log_entry(l);
            let mut i: usize = 0;
            while i < ls.len()
                invariant
                    i <= ls@.len(),
                    lv == ls@.map_values(|w: Vec<char>| w@),
                    f == (|l: Seq<char>| log_entry(l)),
                    r@.map_values(|c: GitCommitInfo| c@) == nonempty_entries(lv.take(i as int), f),
                decreases ls@.len() - i,
            {
                assert(lv.take(i + 1).drop_last() =~= lv.take(i as int));
                assert(lv.take(i + 1).last() == ls@[i as int]@);
                if ls[i].len() > 0 {
                    let ps = splitn_chars(ls[i].as_slice(), '|', 4);
                    let hash = part_string(&ps, 0);
                    let info = GitCommitInfo {
                        short_hash: short_string(&hash),
                        hash,
                        message: part_string(&ps, 1),
                        author: part_string(&ps, 2),
                        date: part_string(&ps, 3),
                    };
                    let ghost before = r@.map_values(|c: GitCommitInfo| c@);
                    r.push(info);
                    assert(r@.map_values(|c: GitCommitInfo| c@) =~= before.push(log_entry(ls@[i as int]@)));
                }
                i = i + 1;
            }
            assert(lv.take(ls@.len() as int) =~= lv);
            r
        },
        None => {
            assert(r@.map_values(|c: GitCommitInfo| c@) =~= Seq::empty());
            r
        },
    }
}

/// The outgoing commits of `git log --oneline` output: one per non-empty
/// line; none when the command failed or did not run.
pub fn parse_outgoing_commits(out: &Option<CommandOutput>) -> (r: Vec<OutgoingCommit>)
    ensures
        r@.map_values(|c: OutgoingCommit| c@) == match *out {
            Some(o) => if o.success {
                nonempty_entries(lines(stdout_text(o)), |l: Seq<char>| oneline_entry(l))
            } else {
                Seq::empty()
            },
            None => Seq::empty(),
        },
{
    let mut r: Vec<OutgoingCommit> = Vec::new();
    match out {
        Some(o) => {
            if !o.success {
                assert(r@.map_values(|c: OutgoingCommit| c@) =~= Seq::empty());
                return r;
            }
            let text = utf8_lossy(o.stdout.as_slice());
            let ls = split_lines(chars_of(text.as_str()).as_slice());
            let ghost lv = ls@.map_values(|w: Vec<char>| w@);
            let ghost f = |l: Seq<char>| oneline_entry(l);
            let mut i: usize = 0;
            while i < ls.len()
                invariant
                    i <= ls@.len(),
                    lv == ls@.map_values(|w: Vec<char>| w@),
                    f == (|l: Seq<char>| oneline_entry(l)),
                    r@.map_values(|c: OutgoingCommit| c@) == nonempty_entries(lv.take(i as int), f),
                decreases ls@.len() - i,
            {
                assert(lv.take(i + 1).drop_last() =~= lv.take(i as int));
                assert(lv.take(i + 1).last() == ls@[i as int]@);
                if ls[i].len() > 0 {
                    let ps = splitn_chars(ls[i].as_slice(), ' ', 2);
                    let hash = part_string(&ps, 0);
                    let info = OutgoingCommit {
                        short_hash: short_string(&hash),
                        hash,
                        message: part_string(&ps, 1),
                        author: String::new(),
                        date: String::new(),
                    };
                    let ghost before = r@.map_values(|c: OutgoingCommit| c@);
                    r.push(info);
                    assert(r@.map_values(|c: OutgoingCommit| c@) =~= before.push(oneline_entry(ls@[i as int]@)));
                }
                i = i + 1;
            }
            assert(lv.take(ls@.len() as int) =~= lv);
            r
        },
        None => {
            assert(r@.map_values(|c: OutgoingCommit| c@) =~= Seq::empty());
            r
        },
    }
}

/// The git log event of a directory.
pub fn git_log_message(pane_id: &str, dir: &str, out: &Option<CommandOutput>) -> (m: ServerMessage)
    ensures
        m matches ServerMessage::GitLog { pane_id: p, dir: d, commits } && p@ == pane_id@ && d@ == dir@
            && commits@.map_values(|c: GitCommitInfo| c@) == match *out {
            Some(o) => if o.success {
                nonempty_entries(lines(stdout_text(o)), |l: Seq<char>| log_entry(l))
            } else {
                Seq::empty()
            },
            None => Seq::empty(),
        },
{
    ServerMessage::GitLog { pane_id: owned(pane_id), dir: owned(dir), commits: parse_git_log(out) }
}

} // verus!

verus! {

/// The mathematical content of a source control file entry.
pub struct FileView {
    pub path: Seq<char>,
    pub status: Seq<char>,
    pub added: Option<u32>,
    pub deleted: Option<u32>,
}

impl View for SourceControlFile {
    type V = FileView;

    open spec fn view(&self) -> FileView {
        FileView { path: self.path@, status: self.status@, added: self.added, deleted: self.deleted }
    }
}

/// The views of a list of file entries.
pub open spec fn files_view(v: Seq<SourceControlFile>) -> Seq<FileView> {
    v.map_values(|f: SourceControlFile| f@)
}

/// The staged, unstaged and untracked entries of porcelain status lines for
/// the source control view: an entry carries its path and its two-letter
/// status (`untracked` for untracked files); a `?` line is untracked, any
/// other line with a non-space index letter staged, and a line whose
/// worktree letter is neither space nor `?` also unstaged.
pub open spec fn scm_lists(ls: Seq<Seq<char>>) -> (Seq<FileView>, Seq<FileView>, Seq<FileView>)
    decreases ls.len(),
{
    if ls.len() == 0 {
        (Seq::empty(), Seq::empty(), Seq::empty())
    } else {
        let (s, u, n) = scm_lists(ls.drop_last());
        let l = ls.last();
        if l.len() < 3 {
            (s, u, n)
        } else {
            let path = l.skip(3);
            let st = l.take(2);
            let x = l[0];
            let y = l[1];
            let entry = FileView { path, status: st, added: None, deleted: None };
            (
                if x != '?' && x != ' ' { s.push(entry) } else { s },
                if y != ' ' && y != '?' { u.push(entry) } else { u },
                if x == '?' {
                    n.push(FileView { path, status: "untracked"@, added: None, deleted: None })
                } else {
                    n
                },
            )
        }
    }
}

fn file_entry(path: &Vec<char>, status: &str) -> (f: SourceControlFile)
    ensures
        f@ == (FileView { path: path@, status: status@, added: None, deleted: None }),
{
    SourceControlFile { path: string_of(path.as_slice()), status: owned(status), added: None, deleted: None }
}

/// The source control lists of the status output (empty when it failed or did not run).
pub fn scm_file_lists(out: &Option<CommandOutput>) -> (r: (Vec<SourceControlFile>, Vec<SourceControlFile>, Vec<SourceControlFile>))
    ensures
        (files_view(r.0@), files_view(r.1@), files_view(r.2@)) == match *out {
            Some(o) => if o.success {
                scm_lists(lines(stdout_text(o)))
            } else {
                (Seq::empty(), Seq::empty(), Seq::empty())
            },
            None => (Seq::empty(), Seq::empty(), Seq::empty()),
        },
{
    let mut s: Vec<SourceControlFile> = Vec::new();
    let mut u: Vec<SourceControlFile> = Vec::new();
    let mut n: Vec<SourceControlFile> = Vec::new();
    assert(files_view(s@) =~= Seq::empty());
    let o = match out {
        Some(o) => o,
        None => {
            return (s, u, n);
        },
    };
    if !o.success {
        return (s, u, n);
    }
    let text = utf8_lossy(o.stdout.as_slice());
    let ls = split_lines(chars_of(text.as_str()).as_slice());
    let ghost lv = ls@.map_values(|w: Vec<char>| w@);
    let mut i: usize = 0;
    while i < ls.len()
        invariant
            i <= ls@.len(),
            lv == ls@.map_values(|w: Vec<char>| w@),
            (files_view(s@), files_view(u@), files_view(n@)) == scm_lists(lv.take(i as int)),
        decreases ls@.len() - i,
    {
        assert(lv.take(i + 1).drop_last() =~= lv.take(i as int));
        assert(lv.take(i + 1).last() == ls@[i as int]@);
        let l = &ls[i];
        if l.len() >= 3 {
            let path = slice_chars(l.as_slice(), 3, l.len());
            assert(path@ =~= l@.skip(3));
            let st = string_of(slice_chars(l.as_slice(), 0, 2).as_slice());
            assert(st@ =~= l@.take(2));
            let x = l[0];
            let y = l[1];
            if x == '?' {
                let ghost b = files_view(n@);
                n.push(file_entry(&path, "untracked"));
                assert(files_view(n@) =~= b.push(FileView { path: path@, status: "untracked"@, added: None, deleted: None }));
            } else if x != ' ' {
                let ghost b = files_view(s@);
                s.push(file_entry(&path, st.as_str()));
                assert(files_view(s@) =~= b.push(FileView { path: path@, status: st@, added: None, deleted: None }));
            }
            if y != ' ' && y != '?' {
                let ghost b = files_view(u@);
                u.push(file_entry(&path, st.as_str()));
                assert(files_view(u@) =~= b.push(FileView { path: path@, status: st@, added: None, deleted: None }));
            }
        }
        i = i + 1;
    }
    assert(lv.take(ls@.len() as int) =~= lv);
    (s, u, n)
}

/// The ahead and behind counts for the source control view, read as
/// `count_pair` reads them but with 0 for a word that does not parse; 0 and
/// 0 when there are not exactly two words.
pub open spec fn scm_counts(text: Option<Seq<char>>) -> (i32, i32) {
    match text {
        Some(t) => {
            let ws = words(t);
            if ws.len() == 2 {
                (or_zero(as_i32(parsed_signed(ws[1]))), or_zero(as_i32(parsed_signed(ws[0]))))
            } else {
                (0, 0)
            }
        },
        None => (0, 0),
    }
}

/// The value, or 0.
pub open spec fn or_zero(v: Option<i32>) -> i32 {
    match v {
        Some(x) => x,
        None => 0,
    }
}

/// The git config key that names a branch's remote: `branch.<name>.remote`.
pub fn remote_config_key(branch: &str) -> (r: String)
    ensures
        r@ == "branch."@ + branch@ + ".remote"@,
{
    let t = concat_chars(chars_of("branch.").as_slice(), chars_of(branch).as_slice());
    string_of(concat_chars(t.as_slice(), chars_of(".remote").as_slice()).as_slice())
}

/// The revision range of commits not on the remote: `<remote>/<branch>..HEAD`.
pub fn outgoing_range(remote: &str, branch: &str) -> (r: String)
    ensures
        r@ == remote@ + "/"@ + branch@ + "..HEAD"@,
{
    let t = concat_chars(chars_of(remote).as_slice(), chars_of("/").as_slice());
    let t = concat_chars(t.as_slice(), chars_of(branch).as_slice());
    string_of(concat_chars(t.as_slice(), chars_of("..HEAD").as_slice()).as_slice())
}

/// The source control event of a directory, from what git printed: not a
/// repository; or the branch and its remote, the file lists, the ahead and
/// behind counts and the outgoing commits (these two read only when both a
/// branch and a remote are known).
pub fn source_control_message(
    path: &str,
    is_repo: bool,
    branch: Option<String>,
    remote: Option<String>,
    status_out: &Option<CommandOutput>,
    rev_out: &Option<CommandOutput>,
    log_out: &Option<CommandOutput>,
) -> (m: ServerMessage)
    ensures
        m matches ServerMessage::SourceControlState {
            path: p,
            is_repo: r,
            branch: b,
            remote: rm,
            staged,
            unstaged,
            untracked,
            ahead,
            behind,
            outgoing_commits,
        } && p@ == path@ && r == is_repo && if !is_repo {
            b is None && rm is None && staged@.len() == 0 && unstaged@.len() == 0
                && untracked@.len() == 0 && ahead == 0 && behind == 0 && outgoing_commits@.len() == 0
        } else {
            let upstream_known = branch is Some && remote is Some;
            &&& opt_view(b) == opt_view(branch)
            &&& opt_view(rm) == opt_view(remote)
            &&& (files_view(staged@), files_view(unstaged@), files_view(untracked@)) == match *status_out {
                Some(o) => if o.success {
                    scm_lists(lines(stdout_text(o)))
                } else {
                    (Seq::empty(), Seq::empty(), Seq::empty())
                },
                None => (Seq::empty(), Seq::empty(), Seq::empty()),
            }
            &&& (ahead, behind) == if upstream_known {
                scm_counts(trimmed_output(*rev_out))
            } else {
                (0i32, 0i32)
            }
            &&& outgoing_commits@.map_values(|c: OutgoingCommit| c@) == if upstream_known {
                match *log_out {
                    Some(o) => if o.success {
                        nonempty_entries(lines(stdout_text(o)), |l: Seq<char>| oneline_entry(l))
                    } else {
                        Seq::empty()
                    },
                    None => Seq::empty(),
                }
            } else {
                Seq::empty()
            }
        },
{
    if !is_repo {
        return ServerMessage::SourceControlState {
            path: owned(path),
            is_repo: false,
            branch: None,
            remote: None,
            staged: Vec::new(),
            unstaged: Vec::new(),
            untracked: Vec::new(),
            ahead: 0,
            behind: 0,
            outgoing_commits: Vec::new(),
        };
    }
    let (staged, unstaged, untracked) = scm_file_lists(status_out);
    let upstream_known = branch.is_some() && remote.is_some();
    let (ahead, behind) = if upstream_known {
        match ahead_behind(rev_out) {
            (Some(a), Some(b)) => (a, b),
            (Some(a), None) => (a, 0),
            (None, Some(b)) => (0, b),
            (None, None) => (0, 0),
        }
    } else {
        (0, 0)
    };
    proof {
        if upstream_known {
            let t = trimmed_output(*rev_out);
            if t is Some {
                let ws = words(t->0);
                if ws.len() != 2 {
                    assert(scm_counts(t) == (0i32, 0i32));
                }
            }
        }
    }
    let outgoing_commits = if upstream_known {
        parse_outgoing_commits(log_out)
    } else {
        let v: Vec<OutgoingCommit> = Vec::new();
        assert(v@.map_values(|c: OutgoingCommit| c@) =~= Seq::empty());
        v
    };
    ServerMessage::SourceControlState {
        path: owned(path),
        is_repo: true,
        branch,
        remote,
        staged,
        unstaged,
        untracked,
        ahead,
        behind,
        outgoing_commits,
    }
}

/// A repository found while searching a directory: its path, its name, and
/// the branch that `git rev-parse --abbrev-ref HEAD` printed, if it succeeded.
pub fn git_repo_info(path: String, name: String, head_out: &Option<CommandOutput>) -> (r: GitRepoInfo)
    ensures
        r.path == path,
        r.name == name,
        opt_view(r.branch) == trimmed_output(*head_out),
{
    GitRepoInfo { path, name, branch: trimmed_stdout(head_out) }
}

} // verus!
