//! Reading what Git prints: branches, commit history, patch identity, and
//! diff statistics.

pub mod commands;
pub mod promote;
pub mod runner;

use vstd::prelude::*;

use crate::git::runner::CommandOutput;
use crate::order::{insert_by, lemma_insert_at, sort_by};
use crate::text::{
    chars_eq_str, chars_of, concat2, concat3, lines, lines_of, non_empty,
    non_empty_of, parse_i64, parse_int, parse_u32, split, split_chars, string_of, texts, trim,
    trim_chars, trim_str, words, words_of,
};

verus! {

/// The trimmed text of each line, without the lines that are blank.
pub open spec fn content_lines(s: Seq<char>) -> Seq<Seq<char>> {
    non_empty(lines(s).map_values(|l: Seq<char>| trim(l)))
}

/// The trimmed, non-blank lines of `s`.
pub fn content_lines_of(s: &str) -> (out: Vec<Vec<char>>)
    ensures
        texts(out@) == content_lines(s@),
{
    let cs = chars_of(s);
    let ls = lines_of(cs.as_slice());
    let mut trimmed: Vec<Vec<char>> = Vec::new();
    let mut i: usize = 0;
    let ghost all = texts(ls@);
    while i < ls.len()
        invariant
            i <= ls.len(),
            all == texts(ls@),
            texts(trimmed@) == all.take(i as int).map_values(|l: Seq<char>| trim(l)),
        decreases ls.len() - i,
    {
        let t = trim_chars(ls[i].as_slice());
        let ghost before = texts(trimmed@);
        trimmed.push(t);
        i += 1;
        assert(texts(trimmed@) =~= before.push(trim(all[i - 1])));
        assert(all.take(i as int).map_values(|l: Seq<char>| trim(l)) =~= all.take(i - 1).map_values(
            |l: Seq<char>| trim(l),
        ).push(trim(all[i - 1])));
    }
    assert(all.take(i as int) =~= all);
    assert(all == lines(cs@));
    non_empty_of(trimmed)
}

/// The error message `prefix` followed by `detail`.
pub open spec fn message(prefix: Seq<char>, detail: Seq<char>) -> Seq<char> {
    prefix + detail
}

/// Checks that the path is a Git working tree. `work_tree` is `None` when the
/// path is not a directory, and otherwise what
/// `git rev-parse --is-inside-work-tree` reported there.
pub fn ensure_git_repo(work_tree: Option<&CommandOutput>) -> (r: Result<(), String>)
    ensures
        work_tree is None ==> (r matches Err(e) && e@ == "Path is not a directory"@),
        work_tree matches Some(o) ==> (r is Ok <==> (o.success && trim(o.stdout@) == "true"@)),
        work_tree matches Some(o) ==> (r matches Err(e) ==> e@
            == "Not a Git working tree \u{2014} choose a repository folder or subfolder"@),
{
    match work_tree {
        None => Err(String::from_str("Path is not a directory")),
        Some(o) => {
            let t = trim_str(o.stdout.as_str());
            if !o.success || !chars_eq_str(t.as_slice(), "true") {
                Err(
                    String::from_str(
                        "Not a Git working tree \u{2014} choose a repository folder or subfolder",
                    ),
                )
            } else {
                Ok(())
            }
        },
    }
}

/// The name shown for a repository: the last component of its path, or
/// `local-repo` when the path has none that is valid text.
pub fn repo_display_name(file_name: Option<&str>) -> (name: String)
    ensures
        file_name matches Some(n) ==> name@ == n@,
        file_name is None ==> name@ == "local-repo"@,
{
    match file_name {
        Some(n) => String::from_str(n),
        None => String::from_str("local-repo"),
    }
}

/// The checked-out branch from `git rev-parse --abbrev-ref HEAD`; `None` when
/// Git failed or HEAD is detached.
pub fn current_branch(out: &CommandOutput) -> (r: Option<String>)
    ensures
        r is None <==> (!out.success || trim(out.stdout@) == "HEAD"@),
        r matches Some(b) ==> b@ == trim(out.stdout@),
{
    if !out.success {
        return None;
    }
    let t = trim_str(out.stdout.as_str());
    if chars_eq_str(t.as_slice(), "HEAD") {
        return None;
    }
    Some(string_of(t.as_slice()))
}

/// The commit a branch points at, from `git rev-parse refs/heads/<branch>`.
pub fn branch_head(out: &CommandOutput, branch: &str) -> (r: Result<String, String>)
    ensures
        r is Ok <==> out.success,
        r matches Ok(sha) ==> sha@ == trim(out.stdout@),
        r matches Err(e) ==> e@ == "Branch '"@ + branch@ + "' not found"@,
{
    if !out.success {
        return Err(concat3("Branch '", branch, "' not found"));
    }
    let t = trim_str(out.stdout.as_str());
    Ok(string_of(t.as_slice()))
}

/// One commit of a branch's first-parent history.
#[derive(Debug, Clone)]
pub struct GitCommit {
    pub sha: String,
    pub subject: String,
    pub author: String,
    pub authored_at: i64,
    pub parent_count: usize,
}

pub struct CommitView {
    pub sha: Seq<char>,
    pub subject: Seq<char>,
    pub author: Seq<char>,
    pub authored_at: int,
    pub parent_count: int,
}

impl View for GitCommit {
    type V = CommitView;

    open spec fn view(&self) -> CommitView {
        CommitView {
            sha: self.sha@,
            subject: self.subject@,
            author: self.author@,
            authored_at: self.authored_at as int,
            parent_count: self.parent_count as int,
        }
    }
}

/// The commit that one line of `git log --format=%H%x1f%s%x1f%an%x1f%at%x1f%P`
/// describes, if it has at least the four first fields. A timestamp that is
/// not a number reads as 0; a commit counts at least one parent.
pub open spec fn commit_of_line(line: Seq<char>) -> Option<CommitView> {
    let t = trim(line);
    let parts = split(t, '\x1f');
    if t.len() == 0 || parts.len() < 4 {
        None
    } else {
        let parents: int = if parts.len() > 4 {
            words(parts[4]).len() as int
        } else {
            0
        };
        Some(
            CommitView {
                sha: parts[0],
                subject: parts[1],
                author: parts[2],
                authored_at: match parse_int(parts[3], i64::MIN as int, i64::MAX as int, true) {
                    Some(v) => v,
                    None => 0,
                },
                parent_count: if parents < 1 {
                    1
                } else {
                    parents
                },
            },
        )
    }
}

/// The commits that the lines describe, in order.
pub open spec fn commits_of_lines(ls: Seq<Seq<char>>) -> Seq<CommitView>
    decreases ls.len(),
{
    if ls.len() == 0 {
        seq![]
    } else {
        match commit_of_line(ls.last()) {
            Some(c) => commits_of_lines(ls.drop_last()).push(c),
            None => commits_of_lines(ls.drop_last()),
        }
    }
}

pub open spec fn commit_views(v: Seq<GitCommit>) -> Seq<CommitView> {
    v.map_values(|c: GitCommit| c@)
}

fn commit_from_line(line: &[char]) -> (r: Option<GitCommit>)
    ensures
        r matches Some(c) ==> commit_of_line(line@) == Some(c@),
        r is None ==> commit_of_line(line@) is None,
{
    let t = trim_chars(line);
    if t.len() == 0 {
        return None;
    }
    let parts = split_chars(t.as_slice(), '\x1f');
    assert(texts(parts@).len() == parts.len());
    if parts.len() < 4 {
        return None;
    }
    let parents: usize = if parts.len() > 4 {
        words_of(parts[4].as_slice()).len()
    } else {
        0
    };
    let authored_at = match parse_i64(parts[3].as_slice()) {
        Some(v) => v,
        None => 0,
    };
    let c = GitCommit {
        sha: string_of(parts[0].as_slice()),
        subject: string_of(parts[1].as_slice()),
        author: string_of(parts[2].as_slice()),
        authored_at,
        parent_count: if parents < 1 {
            1
        } else {
            parents
        },
    };
    proof {
        let ps = texts(parts@);
        assert(ps[0] == parts@[0]@ && ps[1] == parts@[1]@ && ps[2] == parts@[2]@ && ps[3]
            == parts@[3]@);
        if parts.len() > 4 {
            assert(ps[4] == parts@[4]@);
        }
    }
    Some(c)
}

/// The commits described by `git log` output, one per line.
pub fn parse_commit_lines(stdout: &str) -> (commits: Vec<GitCommit>)
    ensures
        commit_views(commits@) == commits_of_lines(lines(stdout@)),
{
    let cs = chars_of(stdout);
    let ls = lines_of(cs.as_slice());
    let ghost all = texts(ls@);
    let mut commits: Vec<GitCommit> = Vec::new();
    let mut i: usize = 0;
    assert(all.take(0) =~= seq![]);
    while i < ls.len()
        invariant
            i <= ls.len(),
            all == texts(ls@),
            commit_views(commits@) == commits_of_lines(all.take(i as int)),
        decreases ls.len() - i,
    {
        let ghost before = commit_views(commits@);
        assert(all.take(i + 1).drop_last() =~= all.take(i as int));
        assert(all.take(i + 1).last() == ls@[i as int]@);
        match commit_from_line(ls[i].as_slice()) {
            Some(c) => {
                commits.push(c);
                assert(commit_views(commits@) =~= before.push(commits@.last()@));
            },
            None => {},
        }
        i += 1;
    }
    assert(all.take(i as int) =~= all);
    commits
}

/// The commits on the source branch's first-parent line that the target
/// lacks, oldest first, from `git log --first-parent --reverse <target>..<source>`.
pub fn commits_ahead(out: &CommandOutput) -> (r: Result<Vec<GitCommit>, String>)
    ensures
        r is Ok <==> out.success,
        r matches Ok(cs) ==> commit_views(cs@) == commits_of_lines(lines(out.stdout@)),
        r matches Err(e) ==> e@ == "Failed to read commit history: "@ + out.stderr@,
{
    if !out.success {
        return Err(concat2("Failed to read commit history: ", out.stderr.as_str()));
    }
    Ok(parse_commit_lines(out.stdout.as_str()))
}


/// Line, insertion and deletion counts of a diff.
#[derive(Debug, Clone)]
pub struct DiffStats {
    pub files_changed: u32,
    pub insertions: u32,
    pub deletions: u32,
    pub changed_files: Vec<String>,
}

/// The `i`-th piece, or `default` when there are fewer pieces.
pub open spec fn field(parts: Seq<Seq<char>>, i: int, default: Seq<char>) -> Seq<char> {
    if 0 <= i < parts.len() {
        parts[i]
    } else {
        default
    }
}

/// A count column of `git diff --numstat`: `-` (binary) and anything that is
/// not a number count as 0.
pub open spec fn numstat_count(x: Seq<char>) -> int {
    if x == "-"@ {
        0
    } else {
        match parse_int(x, 0, u32::MAX as int, false) {
            Some(v) => v,
            None => 0,
        }
    }
}

/// The sum of one column over the numstat rows.
pub open spec fn numstat_total(rows: Seq<Seq<char>>, col: int) -> int
    decreases rows.len(),
{
    if rows.len() == 0 {
        0
    } else {
        numstat_total(rows.drop_last(), col) + numstat_count(
            field(split(rows.last(), '\t'), col, "-"@),
        )
    }
}

/// The file names of the numstat rows that name one.
pub open spec fn numstat_files(rows: Seq<Seq<char>>) -> Seq<Seq<char>>
    decreases rows.len(),
{
    if rows.len() == 0 {
        seq![]
    } else {
        let f = field(split(rows.last(), '\t'), 2, seq![]);
        if f.len() == 0 {
            numstat_files(rows.drop_last())
        } else {
            numstat_files(rows.drop_last()).push(f)
        }
    }
}

/// Whether both totals of a numstat listing fit in 32 bits.
pub open spec fn numstat_fits(stdout: Seq<char>) -> bool {
    numstat_total(content_lines(stdout), 0) <= u32::MAX && numstat_total(content_lines(stdout), 1)
        <= u32::MAX
}

proof fn lemma_total_monotone(rows: Seq<Seq<char>>, col: int, i: int)
    requires
        0 <= i <= rows.len(),
    ensures
        0 <= numstat_total(rows.take(i), col) <= numstat_total(rows, col),
    decreases rows.len(),
{
    if rows.len() > 0 {
        if i == rows.len() {
            assert(rows.take(i) =~= rows);
            lemma_total_monotone(rows.drop_last(), col, 0);
            assert(rows.drop_last().take(0) =~= rows.take(0));
        } else {
            lemma_total_monotone(rows.drop_last(), col, i);
            assert(rows.drop_last().take(i) =~= rows.take(i));
        }
    } else {
        assert(rows.take(i) =~= rows);
    }
}

fn count_of(x: &[char]) -> (n: u32)
    ensures
        n as int == numstat_count(x@),
{
    if chars_eq_str(x, "-") {
        0
    } else {
        match parse_u32(x) {
            Some(v) => v,
            None => 0,
        }
    }
}

/// Whether `diff_vs_target` can total the listing without overflow.
pub fn diff_totals_fit(out: &CommandOutput) -> (r: bool)
    ensures
        r == (!out.success || numstat_fits(out.stdout@)),
{
    if !out.success {
        return true;
    }
    let rows = content_lines_of(out.stdout.as_str());
    let ghost rs = texts(rows@);
    let mut ins: u64 = 0;
    let mut del: u64 = 0;
    let mut i: usize = 0;
    assert(rs.take(0) =~= seq![]);
    while i < rows.len()
        invariant
            i <= rows.len(),
            rs == texts(rows@),
            rs == content_lines(out.stdout@),
            out.success,
            ins as int == numstat_total(rs.take(i as int), 0),
            del as int == numstat_total(rs.take(i as int), 1),
            ins <= u32::MAX,
            del <= u32::MAX,
        decreases rows.len() - i,
    {
        let parts = split_chars(rows[i].as_slice(), '\t');
        let ghost ps = texts(parts@);
        assert(rs.take(i + 1).drop_last() =~= rs.take(i as int));
        assert(rs.take(i + 1).last() == rows@[i as int]@);
        let a: u32 = if parts.len() > 0 {
            assert(ps[0] == parts@[0]@);
            count_of(parts[0].as_slice())
        } else {
            0
        };
        let d: u32 = if parts.len() > 1 {
            assert(ps[1] == parts@[1]@);
            count_of(parts[1].as_slice())
        } else {
            0
        };
        proof {
            reveal_strlit("-");
        }
        ins = ins + a as u64;
        del = del + d as u64;
        i += 1;
        assert(ins as int == numstat_total(rs.take(i as int), 0));
        assert(del as int == numstat_total(rs.take(i as int), 1));
        if ins > 0xFFFF_FFFF || del > 0xFFFF_FFFF {
            proof {
                lemma_total_monotone(rs, 0, i as int);
                lemma_total_monotone(rs, 1, i as int);
                assert(numstat_total(rs, 0) > u32::MAX || numstat_total(rs, 1) > u32::MAX);
            }
            return false;
        }
    }
    assert(rs.take(i as int) =~= rs);
    true
}

/// The statistics of `git diff --numstat <target>..<commit>`: all zero when
/// Git failed.
pub fn diff_vs_target(out: &CommandOutput) -> (stats: DiffStats)
    requires
        !out.success || numstat_fits(out.stdout@),
    ensures
        !out.success ==> stats.insertions == 0 && stats.deletions == 0 && stats.files_changed
            == 0 && stats.changed_files@.len() == 0,
        out.success ==> {
            let rows = content_lines(out.stdout@);
            &&& stats.insertions as int == numstat_total(rows, 0)
            &&& stats.deletions as int == numstat_total(rows, 1)
            &&& crate::git::runner::strs(stats.changed_files@) == numstat_files(rows)
            &&& stats.files_changed == (numstat_files(rows).len() as u32)
        },
{
    if !out.success {
        return DiffStats { files_changed: 0, insertions: 0, deletions: 0, changed_files: Vec::new() };
    }
    let rows = content_lines_of(out.stdout.as_str());
    let ghost rs = texts(rows@);
    let mut insertions: u32 = 0;
    let mut deletions: u32 = 0;
    let mut changed_files: Vec<String> = Vec::new();
    let mut i: usize = 0;
    assert(rs.take(0) =~= seq![]);
    while i < rows.len()
        invariant
            i <= rows.len(),
            rs == texts(rows@),
            rs == content_lines(out.stdout@),
            numstat_total(rs, 0) <= u32::MAX,
            numstat_total(rs, 1) <= u32::MAX,
            insertions as int == numstat_total(rs.take(i as int), 0),
            deletions as int == numstat_total(rs.take(i as int), 1),
            crate::git::runner::strs(changed_files@) == numstat_files(rs.take(i as int)),
        decreases rows.len() - i,
    {
        let parts = split_chars(rows[i].as_slice(), '\t');
        let ghost ps = texts(parts@);
        assert(rs.take(i + 1).drop_last() =~= rs.take(i as int));
        assert(rs.take(i + 1).last() == rows@[i as int]@);
        proof {
            lemma_total_monotone(rs, 0, i + 1);
            lemma_total_monotone(rs, 1, i + 1);
        }
        let a: u32 = if parts.len() > 0 {
            assert(ps[0] == parts@[0]@);
            count_of(parts[0].as_slice())
        } else {
            0
        };
        let d: u32 = if parts.len() > 1 {
            assert(ps[1] == parts@[1]@);
            count_of(parts[1].as_slice())
        } else {
            0
        };
        proof {
            reveal_strlit("-");
        }
        insertions = insertions + a;
        deletions = deletions + d;
        if parts.len() > 2 && parts[2].len() > 0 {
            assert(ps[2] == parts@[2]@);
            let ghost before = crate::git::runner::strs(changed_files@);
            changed_files.push(string_of(parts[2].as_slice()));
            assert(crate::git::runner::strs(changed_files@) =~= before.push(ps[2]));
        }
        i += 1;
    }
    assert(rs.take(i as int) =~= rs);
    let files_changed = changed_files.len() as u32;
    DiffStats { files_changed, insertions, deletions, changed_files }
}


/// Which commits of `git cherry -v <upstream> <head>` already have an
/// equivalent patch upstream, by commit SHA.
pub struct CherryMap {
    entries: Vec<(String, bool)>,
}

pub open spec fn cherry_entries_map(es: Seq<(String, bool)>) -> Map<Seq<char>, bool>
    decreases es.len(),
{
    if es.len() == 0 {
        Map::empty()
    } else {
        cherry_entries_map(es.drop_last()).insert(es.last().0@, es.last().1)
    }
}

impl View for CherryMap {
    type V = Map<Seq<char>, bool>;

    closed spec fn view(&self) -> Map<Seq<char>, bool> {
        cherry_entries_map(self.entries@)
    }
}

proof fn lemma_cherry_tail(es: Seq<(String, bool)>, j: int, k: Seq<char>)
    requires
        0 <= j <= es.len(),
        forall|i: int| j <= i < es.len() ==> (#[trigger] es[i]).0@ != k,
    ensures
        cherry_entries_map(es).contains_key(k) == cherry_entries_map(es.take(j)).contains_key(k),
        cherry_entries_map(es).contains_key(k) ==> cherry_entries_map(es)[k]
            == cherry_entries_map(es.take(j))[k],
    decreases es.len() - j,
{
    if j < es.len() {
        lemma_cherry_tail(es, j + 1, k);
        let t = es.take(j + 1);
        assert(t.drop_last() =~= es.take(j));
        assert(t.last() == es[j]);
    } else {
        assert(es.take(j) =~= es);
    }
}

impl CherryMap {
    /// Whether the commit's patch is already upstream; `None` for a commit
    /// that Git did not list.
    pub fn get(&self, sha: &str) -> (r: Option<bool>)
        ensures
            r matches Some(b) ==> self@.contains_key(sha@) && self@[sha@] == b,
            r is None ==> !self@.contains_key(sha@),
    {
        let key = String::from_str(sha);
        let mut j: usize = self.entries.len();
        while j > 0
            invariant
                j <= self.entries.len(),
                key@ == sha@,
                forall|i: int|
                    j <= i < self.entries@.len() ==> (#[trigger] self.entries@[i]).0@ != sha@,
            decreases j,
        {
            if self.entries[j - 1].0 == key {
                proof {
                    let es = self.entries@;
                    lemma_cherry_tail(es, j as int, sha@);
                    let t = es.take(j as int);
                    assert(t.drop_last() =~= es.take(j - 1));
                    assert(t.last() == es[j - 1]);
                }
                return Some(self.entries[j - 1].1);
            }
            j -= 1;
        }
        proof {
            lemma_cherry_tail(self.entries@, 0, sha@);
            assert(self.entries@.take(0) =~= seq![]);
        }
        None
    }
}

/// The map that `git cherry -v` rows give: the second word of a row is the
/// commit, and a first word `-` means its patch is already upstream. Rows
/// without a commit are skipped; a later row for the same commit wins.
pub open spec fn cherry_rows_map(rows: Seq<Seq<char>>) -> Map<Seq<char>, bool>
    decreases rows.len(),
{
    if rows.len() == 0 {
        Map::empty()
    } else {
        let ws = words(rows.last());
        let sha = field(ws, 1, seq![]);
        if sha.len() == 0 {
            cherry_rows_map(rows.drop_last())
        } else {
            cherry_rows_map(rows.drop_last()).insert(sha, field(ws, 0, seq![]) == "-"@)
        }
    }
}

/// Reads `git cherry -v <upstream> <head>`.
pub fn cherry_on_target(out: &CommandOutput) -> (r: Result<CherryMap, String>)
    ensures
        r is Ok <==> out.success,
        r matches Ok(m) ==> m@ == cherry_rows_map(content_lines(out.stdout@)),
        r matches Err(e) ==> e@ == "git cherry failed: "@ + out.stderr@,
{
    if !out.success {
        return Err(concat2("git cherry failed: ", out.stderr.as_str()));
    }
    let rows = content_lines_of(out.stdout.as_str());
    let ghost rs = texts(rows@);
    let mut entries: Vec<(String, bool)> = Vec::new();
    let mut i: usize = 0;
    assert(rs.take(0) =~= seq![]);
    while i < rows.len()
        invariant
            i <= rows.len(),
            rs == texts(rows@),
            cherry_entries_map(entries@) == cherry_rows_map(rs.take(i as int)),
        decreases rows.len() - i,
    {
        let ws = words_of(rows[i].as_slice());
        let ghost w = texts(ws@);
        assert(rs.take(i + 1).drop_last() =~= rs.take(i as int));
        assert(rs.take(i + 1).last() == rows@[i as int]@);
        if ws.len() > 1 && ws[1].len() > 0 {
            assert(w[0] == ws@[0]@ && w[1] == ws@[1]@);
            let marker = chars_eq_str(ws[0].as_slice(), "-");
            let ghost before = entries@;
            entries.push((string_of(ws[1].as_slice()), marker));
            assert(entries@.drop_last() =~= before);
        }
        i += 1;
    }
    assert(rs.take(i as int) =~= rs);
    Ok(CherryMap { entries })
}

/// The full Unicode lower-case form of a text (`str::to_lowercase`).
pub uninterp spec fn unicode_lowercase(s: Seq<char>) -> Seq<char>;

/// The lower-case form of a text, from `str::to_lowercase`. Claimed: the
/// result is a function of the text alone ([`unicode_lowercase`]); the
/// Unicode case mapping itself is left to std.
#[verifier::external_body]
fn to_lowercase(s: &str) -> (r: String)
    ensures
        r@ == unicode_lowercase(s@),
{
    s.to_lowercase()
}

/// Lexicographic order by code point, which is how `String` compares.
pub open spec fn text_lt(a: Seq<char>, b: Seq<char>) -> bool
    decreases a.len(),
{
    if a.len() == 0 {
        b.len() > 0
    } else if b.len() == 0 {
        false
    } else if a[0] != b[0] {
        (a[0] as u32) < (b[0] as u32)
    } else {
        text_lt(a.drop_first(), b.drop_first())
    }
}

fn chars_lt(a: &[char], b: &[char]) -> (r: bool)
    ensures
        r == text_lt(a@, b@),
{
    let mut i: usize = 0;
    assert(a@.skip(0) =~= a@ && b@.skip(0) =~= b@);
    while i < a.len() && i < b.len() && a[i] == b[i]
        invariant
            i <= a.len(),
            i <= b.len(),
            text_lt(a@, b@) == text_lt(a@.skip(i as int), b@.skip(i as int)),
        decreases a.len() - i,
    {
        assert(a@.skip(i as int).drop_first() =~= a@.skip(i + 1));
        assert(b@.skip(i as int).drop_first() =~= b@.skip(i + 1));
        i += 1;
    }
    if i == a.len() {
        i < b.len()
    } else if i == b.len() {
        false
    } else {
        (a[i] as u32) < (b[i] as u32)
    }
}

/// Case-insensitive order of branch names: by their lower-case forms.
pub open spec fn name_before(x: Seq<char>, y: Seq<char>) -> bool {
    text_lt(unicode_lowercase(x), unicode_lowercase(y))
}

/// The order of branch names as a relation for sorting.
pub open spec fn name_order() -> spec_fn(Seq<char>, Seq<char>) -> bool {
    |x: Seq<char>, y: Seq<char>| name_before(x, y)
}

/// The names in case-insensitive order; names that compare equal keep their
/// relative order (a stable sort, as `slice::sort_by` does).
pub open spec fn sort_by_name(s: Seq<Seq<char>>) -> Seq<Seq<char>> {
    sort_by(s, name_order())
}

/// `s` without elements equal to the one just before them (`Vec::dedup`).
pub open spec fn dedup_adjacent(s: Seq<Seq<char>>) -> Seq<Seq<char>>
    decreases s.len(),
{
    if s.len() <= 1 {
        s
    } else if s.last() == s[s.len() - 2] {
        dedup_adjacent(s.drop_last())
    } else {
        dedup_adjacent(s.drop_last()).push(s.last())
    }
}

/// Each name paired with its sort key.
pub open spec fn keyed(names: Seq<Seq<char>>, keys: Seq<Seq<char>>) -> Seq<(Seq<char>, Seq<char>)> {
    Seq::new(names.len(), |i: int| (keys[i], names[i]))
}

/// Order of (key, name) pairs by key alone.
pub open spec fn key_order() -> spec_fn((Seq<char>, Seq<char>), (Seq<char>, Seq<char>)) -> bool {
    |a: (Seq<char>, Seq<char>), b: (Seq<char>, Seq<char>)| text_lt(a.0, b.0)
}

/// The names in the order of their keys; names with equal keys keep their
/// relative order.
pub open spec fn names_by_key(names: Seq<Seq<char>>, keys: Seq<Seq<char>>) -> Seq<Seq<char>> {
    sort_by(keyed(names, keys), key_order()).map_values(|p: (Seq<char>, Seq<char>)| p.1)
}

/// Sorts branch names by the keys given for them (`keys[i]` for
/// `names[i]`), stably, and drops a name equal to the one just before it.
pub fn order_branches(names: Vec<String>, keys: Vec<String>) -> (r: Vec<String>)
    requires
        keys@.len() == names@.len(),
    ensures
        crate::git::runner::strs(r@) == dedup_adjacent(
            names_by_key(crate::git::runner::strs(names@), crate::git::runner::strs(keys@)),
        ),
{
    let ghost ns = crate::git::runner::strs(names@);
    let ghost ks = crate::git::runner::strs(keys@);
    let mut items: Vec<Vec<char>> = Vec::new();
    let mut ikeys: Vec<Vec<char>> = Vec::new();
    let mut i: usize = 0;
    assert(keyed(ns.take(0), ks.take(0)) =~= seq![]);
    assert(Seq::new(0, |j: int| (ikeys@[j]@, items@[j]@)) =~= sort_by(keyed(ns.take(0), ks.take(0)), key_order()));
    while i < names.len()
        invariant
            i <= names@.len(),
            names@.len() == keys@.len(),
            ns == crate::git::runner::strs(names@),
            ks == crate::git::runner::strs(keys@),
            ikeys@.len() == items@.len(),
            Seq::new(items@.len() as nat, |j: int| (ikeys@[j]@, items@[j]@)) == sort_by(
                keyed(ns.take(i as int), ks.take(i as int)),
                key_order(),
            ),
        decreases names@.len() - i,
    {
        let ghost pairs = Seq::new(items@.len() as nat, |j: int| (ikeys@[j]@, items@[j]@));
        let x = chars_of(names[i].as_str());
        let kx = chars_of(keys[i].as_str());
        let ghost px = (kx@, x@);
        let mut p: usize = 0;
        while p < items.len() && !chars_lt(kx.as_slice(), ikeys[p].as_slice())
            invariant
                p <= items@.len(),
                ikeys@.len() == items@.len(),
                pairs == Seq::new(items@.len() as nat, |j: int| (ikeys@[j]@, items@[j]@)),
                px == (kx@, x@),
                forall|j: int| 0 <= j < p ==> !(key_order())(px, #[trigger] pairs[j]),
            decreases items@.len() - p,
        {
            p += 1;
        }
        proof {
            crate::order::lemma_insert_at(pairs, px, key_order(), p as int);
            let kn = keyed(ns.take(i + 1), ks.take(i + 1));
            assert(kn.drop_last() =~= keyed(ns.take(i as int), ks.take(i as int)));
            assert(kn.last() == px);
        }
        items.insert(p, x);
        ikeys.insert(p, kx);
        assert(Seq::new(items@.len() as nat, |j: int| (ikeys@[j]@, items@[j]@)) =~= pairs.insert(p as int, px));
        i += 1;
    }
    assert(ns.take(i as int) =~= ns);
    assert(ks.take(i as int) =~= ks);
    let ghost sorted = texts(items@);
    assert(sorted =~= names_by_key(ns, ks));
    let mut result: Vec<String> = Vec::new();
    let mut j: usize = 0;
    assert(sorted.take(0) =~= seq![]);
    assert(crate::git::runner::strs(result@) =~= seq![]);
    while j < items.len()
        invariant
            j <= items.len(),
            sorted == texts(items@),
            crate::git::runner::strs(result@) == dedup_adjacent(sorted.take(j as int)),
        decreases items.len() - j,
    {
        let ghost before = crate::git::runner::strs(result@);
        let ghost t = sorted.take(j + 1);
        assert(t.drop_last() =~= sorted.take(j as int));
        assert(t.last() == items@[j as int]@);
        if j == 0 || !crate::text::chars_eq(items[j].as_slice(), items[j - 1].as_slice()) {
            result.push(string_of(items[j].as_slice()));
            assert(crate::git::runner::strs(result@) =~= before.push(items@[j as int]@));
            if j == 0 {
                assert(t =~= seq![items@[0]@]);
            } else {
                assert(t[t.len() - 2] == items@[j - 1]@);
            }
        } else {
            assert(t[t.len() - 2] == items@[j - 1]@);
        }
        j += 1;
    }
    assert(sorted.take(j as int) =~= sorted);
    result
}

/// Every pair holds a name and its lower-case form.
pub open spec fn lowercase_keyed(ps: Seq<(Seq<char>, Seq<char>)>) -> bool {
    forall|i: int| 0 <= i < ps.len() ==> (#[trigger] ps[i]).0 == unicode_lowercase(ps[i].1)
}

proof fn lemma_insert_keeps_keyed(t: Seq<(Seq<char>, Seq<char>)>, x: (Seq<char>, Seq<char>))
    requires
        lowercase_keyed(t),
        x.0 == unicode_lowercase(x.1),
    ensures
        lowercase_keyed(insert_by(t, x, key_order())),
{
    crate::order::lemma_insert_pos(t, x, key_order());
    let p = crate::order::insert_pos(t, x, key_order());
    let r = t.insert(p, x);
    assert forall|i: int| 0 <= i < r.len() implies (#[trigger] r[i]).0 == unicode_lowercase(r[i].1) by {
        if i < p {
            assert(r[i] == t[i]);
        } else if i > p {
            assert(r[i] == t[i - 1]);
        }
    }
}

proof fn lemma_sorted_keyed(s: Seq<Seq<char>>)
    ensures
        lowercase_keyed(sort_by(keyed(s, s.map_values(|x: Seq<char>| unicode_lowercase(x))), key_order())),
    decreases s.len(),
{
    let ks = s.map_values(|x: Seq<char>| unicode_lowercase(x));
    if s.len() > 0 {
        let front = s.drop_last();
        lemma_sorted_keyed(front);
        assert(keyed(s, ks).drop_last() =~= keyed(front, front.map_values(|x: Seq<char>| unicode_lowercase(x))));
        lemma_insert_keeps_keyed(
            sort_by(keyed(front, front.map_values(|x: Seq<char>| unicode_lowercase(x))), key_order()),
            keyed(s, ks).last(),
        );
    }
}

proof fn lemma_insert_projects(t: Seq<(Seq<char>, Seq<char>)>, x: (Seq<char>, Seq<char>))
    requires
        lowercase_keyed(t),
        x.0 == unicode_lowercase(x.1),
    ensures
        insert_by(t, x, key_order()).map_values(|p: (Seq<char>, Seq<char>)| p.1) == insert_by(
            t.map_values(|p: (Seq<char>, Seq<char>)| p.1),
            x.1,
            name_order(),
        ),
    decreases t.len(),
{
    let tn = t.map_values(|p: (Seq<char>, Seq<char>)| p.1);
    if t.len() == 0 {
        assert(insert_by(t, x, key_order()).map_values(|p: (Seq<char>, Seq<char>)| p.1) =~= seq![x.1]);
    } else {
        assert(t[0].0 == unicode_lowercase(t[0].1));
        assert(tn[0] == t[0].1);
        if text_lt(x.0, t[0].0) {
            assert(insert_by(t, x, key_order()).map_values(|p: (Seq<char>, Seq<char>)| p.1) =~= seq![x.1] + tn);
        } else {
            let rest = t.drop_first();
            assert(lowercase_keyed(rest)) by {
                assert forall|i: int| 0 <= i < rest.len() implies (#[trigger] rest[i]).0 == unicode_lowercase(rest[i].1) by {
                    assert(rest[i] == t[i + 1]);
                }
            }
            lemma_insert_projects(rest, x);
            assert(tn.drop_first() =~= rest.map_values(|p: (Seq<char>, Seq<char>)| p.1));
            assert(insert_by(t, x, key_order()).map_values(|p: (Seq<char>, Seq<char>)| p.1) =~= seq![tn[0]]
                + insert_by(rest, x, key_order()).map_values(|p: (Seq<char>, Seq<char>)| p.1));
        }
    }
}

/// Sorting names by their lower-case forms is the case-insensitive sort.
proof fn lemma_names_by_lowercase(s: Seq<Seq<char>>)
    ensures
        names_by_key(s, s.map_values(|x: Seq<char>| unicode_lowercase(x))) == sort_by_name(s),
    decreases s.len(),
{
    let ks = s.map_values(|x: Seq<char>| unicode_lowercase(x));
    if s.len() == 0 {
        assert(names_by_key(s, ks) =~= seq![]);
    } else {
        let front = s.drop_last();
        let kf = front.map_values(|x: Seq<char>| unicode_lowercase(x));
        lemma_names_by_lowercase(front);
        lemma_sorted_keyed(front);
        assert(keyed(s, ks).drop_last() =~= keyed(front, kf));
        assert(keyed(s, ks).last() == (unicode_lowercase(s.last()), s.last()));
        lemma_insert_projects(sort_by(keyed(front, kf), key_order()), keyed(s, ks).last());
    }
}

/// The local branch names from `git for-each-ref --format=%(refname:short)
/// refs/heads/`: trimmed, blank lines dropped, sorted case-insensitively,
/// repeats next to each other removed.
pub fn list_branches(out: &CommandOutput) -> (r: Result<Vec<String>, String>)
    ensures
        r is Ok <==> out.success,
        r matches Ok(bs) ==> crate::git::runner::strs(bs@) == dedup_adjacent(
            sort_by_name(content_lines(out.stdout@)),
        ),
        r matches Err(e) ==> e@ == "Failed to list branches: "@ + out.stderr@,
{
    if !out.success {
        return Err(concat2("Failed to list branches: ", out.stderr.as_str()));
    }
    let rows = content_lines_of(out.stdout.as_str());
    let ghost rs = texts(rows@);
    let mut names: Vec<String> = Vec::new();
    let mut keys: Vec<String> = Vec::new();
    let mut i: usize = 0;
    while i < rows.len()
        invariant
            i <= rows.len(),
            rs == texts(rows@),
            crate::git::runner::strs(names@) == rs.take(i as int),
            crate::git::runner::strs(keys@) == rs.take(i as int).map_values(|x: Seq<char>| unicode_lowercase(x)),
        decreases rows.len() - i,
    {
        let x = string_of(rows[i].as_slice());
        let k = to_lowercase(x.as_str());
        let ghost nb = crate::git::runner::strs(names@);
        let ghost kb = crate::git::runner::strs(keys@);
        let ghost kv = k@;
        assert(kv == unicode_lowercase(rows@[i as int]@));
        names.push(x);
        keys.push(k);
        assert(rs.take(i + 1) =~= rs.take(i as int).push(rows@[i as int]@));
        assert(crate::git::runner::strs(names@) =~= nb.push(rows@[i as int]@));
        assert(crate::git::runner::strs(keys@) =~= kb.push(kv));
        assert(rs.take(i + 1).map_values(|x: Seq<char>| unicode_lowercase(x)) =~= rs.take(i as int).map_values(
            |x: Seq<char>| unicode_lowercase(x),
        ).push(unicode_lowercase(rows@[i as int]@)));
        i += 1;
    }
    assert(rs.take(i as int) =~= rs);
    proof {
        lemma_names_by_lowercase(rs);
    }
    Ok(order_branches(names, keys))
}

/// The next move of a sequence of Git commands that depends on what earlier
/// commands printed: run Git once more and hand its output back together
/// with `state`, or stop with a result.
pub enum GitStep<S, T> {
    /// Run Git with `args`; when `pipe_previous_output` holds, the standard
    /// output of the previous command goes to its standard input.
    Run { args: Vec<String>, pipe_previous_output: bool, state: S },
    Done(T),
}

impl<S, T> GitStep<S, T> {
    /// Runs Git with exactly these arguments, without piped input.
    pub open spec fn runs(&self, args: Seq<Seq<char>>) -> bool {
        &&& self matches GitStep::Run { args: a, pipe_previous_output: p, .. }
        &&& crate::git::runner::strs(a@) == args
        &&& !*p
    }

    /// Runs Git with exactly these arguments, piping the previous output in.
    pub open spec fn pipes(&self, args: Seq<Seq<char>>) -> bool {
        &&& self matches GitStep::Run { args: a, pipe_previous_output: p, .. }
        &&& crate::git::runner::strs(a@) == args
        &&& *p
    }

    pub open spec fn state(&self) -> S
        recommends
            self is Run,
    {
        self->state
    }
}

impl<S, U> GitStep<S, Result<U, String>> {
    /// Stops with the error `msg`.
    pub open spec fn fails_with(&self, msg: Seq<char>) -> bool {
        self matches GitStep::Done(Err(e)) && e@ == msg
    }
}

/// What an attempt to run Git gave: its output, or why it could not run.
pub type GitEvent = Result<CommandOutput, String>;

pub fn str_vec2(a: &str, b: &str) -> (v: Vec<String>)
    ensures
        crate::git::runner::strs(v@) == seq![a@, b@],
{
    let v = vec![String::from_str(a), String::from_str(b)];
    assert(crate::git::runner::strs(v@) =~= seq![a@, b@]);
    v
}

pub fn str_vec3(a: &str, b: &str, c: &str) -> (v: Vec<String>)
    ensures
        crate::git::runner::strs(v@) == seq![a@, b@, c@],
{
    let v = vec![String::from_str(a), String::from_str(b), String::from_str(c)];
    assert(crate::git::runner::strs(v@) =~= seq![a@, b@, c@]);
    v
}

pub fn str_vec4(a: &str, b: &str, c: &str, d: &str) -> (v: Vec<String>)
    ensures
        crate::git::runner::strs(v@) == seq![a@, b@, c@, d@],
{
    let v = vec![String::from_str(a), String::from_str(b), String::from_str(c), String::from_str(d)];
    assert(crate::git::runner::strs(v@) =~= seq![a@, b@, c@, d@]);
    v
}

pub fn str_vec5(a: &str, b: &str, c: &str, d: &str, e: &str) -> (v: Vec<String>)
    ensures
        crate::git::runner::strs(v@) == seq![a@, b@, c@, d@, e@],
{
    let v = vec![
        String::from_str(a),
        String::from_str(b),
        String::from_str(c),
        String::from_str(d),
        String::from_str(e),
    ];
    assert(crate::git::runner::strs(v@) =~= seq![a@, b@, c@, d@, e@]);
    v
}

/// Where the creation of a branch (without switching to it) stands.
pub enum CreateBranchRef {
    /// Waiting for `git check-ref-format --branch <name>`.
    CheckFormat { name: String, base: String },
    /// Waiting for the list of local branches.
    ListBranches { branch_name: String, base: String },
    /// Waiting for `git branch -- <branch> <base>`.
    CreateRef { branch_name: String },
}

pub open spec fn list_branches_args() -> Seq<Seq<char>> {
    seq!["for-each-ref"@, "--format=%(refname:short)"@, "refs/heads/"@]
}

pub type CreateBranchStep = GitStep<CreateBranchRef, Result<(), String>>;

/// The first move of creating `branch` at `base`: a blank name is refused,
/// else Git checks the trimmed name.
pub fn create_branch_ref_start(branch: &str, base: &str) -> (r: CreateBranchStep)
    ensures
        trim(branch@).len() == 0 ==> r.fails_with("Branch name is required"@),
        trim(branch@).len() > 0 ==> {
            &&& r.runs(seq!["check-ref-format"@, "--branch"@, trim(branch@)])
            &&& r.state() matches CreateBranchRef::CheckFormat { name, base: b }
            &&& name@ == trim(branch@)
            &&& b@ == base@
        },
        r matches GitStep::Run { args, .. } ==> leaves_head(crate::git::runner::strs(args@)),
{
    let t = trim_str(branch);
    if t.len() == 0 {
        return GitStep::Done(Err(String::from_str("Branch name is required")));
    }
    let name = string_of(t.as_slice());
    let mut args = str_vec2("check-ref-format", "--branch");
    crate::git::runner::push_owned(&mut args, name.clone());
    assert(crate::git::runner::strs(args@) =~= seq!["check-ref-format"@, "--branch"@, trim(branch@)]);
    GitStep::Run {
        args,
        pipe_previous_output: false,
        state: CreateBranchRef::CheckFormat { name, base: String::from_str(base) },
    }
}

/// Whether some branch of the list is spelled `name`.
fn contains_text(v: &Vec<String>, name: &String) -> (r: bool)
    ensures
        r == crate::git::runner::strs(v@).contains(name@),
{
    let mut i: usize = 0;
    while i < v.len()
        invariant
            i <= v.len(),
            forall|j: int| 0 <= j < i ==> v@[j]@ != name@,
        decreases v.len() - i,
    {
        if v[i] == *name {
            assert(crate::git::runner::strs(v@)[i as int] == name@);
            return true;
        }
        i += 1;
    }
    assert forall|j: int| 0 <= j < v.len() implies crate::git::runner::strs(v@)[j] != name@ by {
        assert(crate::git::runner::strs(v@)[j] == v@[j]@);
    }
    false
}

/// The branches listed by a successful `git for-each-ref`, as [`list_branches`] reads them.
pub open spec fn listed_branches(out: CommandOutput) -> Seq<Seq<char>> {
    dedup_adjacent(sort_by_name(content_lines(out.stdout@)))
}

/// How creating a branch proceeds from one state on what Git reported.
pub open spec fn create_branch_ref_moves(state: CreateBranchRef, ev: GitEvent, r: CreateBranchStep) -> bool {
    match ev {
        Err(e) => r.fails_with(e@),
        Ok(o) => match state {
            CreateBranchRef::CheckFormat { name, base } => {
                if !o.success {
                    r.fails_with("'"@ + name@ + "' is not a valid Git branch name"@)
                } else {
                    let normalized = trim(o.stdout@);
                    let chosen = if normalized.len() == 0 {
                        name@
                    } else {
                        normalized
                    };
                    &&& r.runs(list_branches_args())
                    &&& r.state() matches CreateBranchRef::ListBranches { branch_name, base: b }
                    &&& branch_name@ == chosen
                    &&& b@ == base@
                }
            },
            CreateBranchRef::ListBranches { branch_name, base } => {
                if !o.success {
                    r.fails_with("Failed to list branches: "@ + o.stderr@)
                } else if listed_branches(o).contains(branch_name@) {
                    r.fails_with("Branch '"@ + branch_name@ + "' already exists"@)
                } else if !listed_branches(o).contains(base@) {
                    r.fails_with("Base branch '"@ + base@ + "' not found"@)
                } else {
                    &&& r.runs(seq!["branch"@, "--"@, branch_name@, base@])
                    &&& r.state() matches CreateBranchRef::CreateRef { branch_name: b }
                    &&& b@ == branch_name@
                }
            },
            CreateBranchRef::CreateRef { branch_name } => {
                if o.success {
                    r matches GitStep::Done(Ok(_))
                } else {
                    r.fails_with(
                        "Failed to create branch "@ + branch_name@ + ": "@ + trim(o.stderr@),
                    )
                }
            },
        },
    }
}

/// A Git command that leaves HEAD where it is: checking a branch name,
/// listing branches, or `git branch -- <name> <base>`, which makes a branch
/// without checking it out.
pub open spec fn leaves_head(args: Seq<Seq<char>>) -> bool {
    ||| (args.len() == 3 && args[0] == "check-ref-format"@ && args[1] == "--branch"@)
    ||| args == list_branches_args()
    ||| (args.len() == 4 && args[0] == "branch"@ && args[1] == "--"@)
}

/// Creating a branch never moves HEAD: every command it runs, from the first
/// move on, leaves the current checkout as it is.
pub proof fn creating_a_branch_never_switches_head(state: CreateBranchRef, ev: GitEvent, r: CreateBranchStep)
    requires
        create_branch_ref_moves(state, ev, r),
    ensures
        r matches GitStep::Run { args, .. } ==> leaves_head(crate::git::runner::strs(args@)),
{
}

/// Creates a local branch at `base` without switching the current checkout:
/// one move on what Git reported for the previous command.
pub fn create_branch_ref(state: CreateBranchRef, ev: GitEvent) -> (r: CreateBranchStep)
    ensures
        create_branch_ref_moves(state, ev, r),
        r matches GitStep::Run { args, .. } ==> leaves_head(crate::git::runner::strs(args@)),
{
    let o = match ev {
        Err(e) => {
            return GitStep::Done(Err(e));
        },
        Ok(o) => o,
    };
    match state {
        CreateBranchRef::CheckFormat { name, base } => {
            if !o.success {
                return GitStep::Done(
                    Err(concat3("'", name.as_str(), "' is not a valid Git branch name")),
                );
            }
            let normalized = trim_str(o.stdout.as_str());
            let branch_name = if normalized.len() == 0 {
                name
            } else {
                string_of(normalized.as_slice())
            };
            GitStep::Run {
                args: str_vec3("for-each-ref", "--format=%(refname:short)", "refs/heads/"),
                pipe_previous_output: false,
                state: CreateBranchRef::ListBranches { branch_name, base },
            }
        },
        CreateBranchRef::ListBranches { branch_name, base } => {
            let existing = match list_branches(&o) {
                Err(e) => {
                    return GitStep::Done(Err(e));
                },
                Ok(bs) => bs,
            };
            if contains_text(&existing, &branch_name) {
                return GitStep::Done(
                    Err(concat3("Branch '", branch_name.as_str(), "' already exists")),
                );
            }
            if !contains_text(&existing, &base) {
                return GitStep::Done(Err(concat3("Base branch '", base.as_str(), "' not found")));
            }
            let mut args = str_vec2("branch", "--");
            let ghost bv = base@;
            crate::git::runner::push_owned(&mut args, branch_name.clone());
            crate::git::runner::push_owned(&mut args, base);
            assert(crate::git::runner::strs(args@) =~= seq!["branch"@, "--"@, branch_name@, bv]);
            GitStep::Run {
                args,
                pipe_previous_output: false,
                state: CreateBranchRef::CreateRef { branch_name },
            }
        },
        CreateBranchRef::CreateRef { branch_name } => {
            if o.success {
                GitStep::Done(Ok(()))
            } else {
                let detail = string_of(trim_str(o.stderr.as_str()).as_slice());
                let mut m = concat3("Failed to create branch ", branch_name.as_str(), ": ");
                m.append(detail.as_str());
                GitStep::Done(Err(m))
            }
        },
    }
}


/// Where the computation of a commit's patch identity stands.
pub enum PatchId {
    /// Waiting for `git rev-parse --verify <sha>^2`, which tells a merge.
    CheckMerge { sha: String },
    /// Waiting for the commit's diff from `git show`.
    Show { sha: String, is_merge: bool },
    /// Waiting for `git patch-id --stable` over the `git show` diff.
    HashShow { sha: String, is_merge: bool },
    /// Waiting for the commit's diff from `git diff-tree`.
    Tree { sha: String },
    /// Waiting for `git patch-id --stable` over the `git diff-tree` diff.
    HashTree { sha: String },
}

pub type PatchIdStep = GitStep<PatchId, Result<String, String>>;

pub open spec fn show_args(sha: Seq<char>, is_merge: bool) -> Seq<Seq<char>> {
    if is_merge {
        seq!["show"@, "-m"@, "--first-parent"@, "-p"@, "--format="@, sha]
    } else {
        seq!["show"@, "-p"@, "--format="@, sha]
    }
}

pub open spec fn tree_args(sha: Seq<char>, is_merge: bool) -> Seq<Seq<char>> {
    if is_merge {
        seq!["diff-tree"@, "-p"@, "-m"@, "--first-parent"@, sha]
    } else {
        seq!["diff-tree"@, "-p"@, sha + "^!"@]
    }
}

pub open spec fn patch_id_args() -> Seq<Seq<char>> {
    seq!["patch-id"@, "--stable"@]
}

/// The identity that `git patch-id` printed: its first word, when it ran
/// and printed one.
pub open spec fn printed_patch_id(ev: GitEvent) -> Option<Seq<char>> {
    match ev {
        Ok(o) => if o.success && words(o.stdout@).len() > 0 {
            Some(words(o.stdout@)[0])
        } else {
            None
        },
        Err(_) => None,
    }
}

/// Whether a diff came back that `git patch-id` can hash.
pub open spec fn has_diff(o: CommandOutput) -> bool {
    o.success && o.stdout@.len() > 0
}

/// The first move of computing a commit's patch identity: ask Git whether
/// the commit has a second parent.
pub fn patch_id_start(sha: &str) -> (r: PatchIdStep)
    ensures
        r.runs(seq!["rev-parse"@, "--verify"@, sha@ + "^2"@]),
        r.state() matches PatchId::CheckMerge { sha: s } && s@ == sha@,
{
    let mut args = str_vec2("rev-parse", "--verify");
    crate::git::runner::push_owned(&mut args, concat2(sha, "^2"));
    assert(crate::git::runner::strs(args@) =~= seq!["rev-parse"@, "--verify"@, sha@ + "^2"@]);
    GitStep::Run {
        args,
        pipe_previous_output: false,
        state: PatchId::CheckMerge { sha: String::from_str(sha) },
    }
}

fn show_args_of(sha: &String, is_merge: bool) -> (v: Vec<String>)
    ensures
        crate::git::runner::strs(v@) == show_args(sha@, is_merge),
{
    if is_merge {
        let mut v = str_vec5("show", "-m", "--first-parent", "-p", "--format=");
        crate::git::runner::push_owned(&mut v, sha.clone());
        assert(crate::git::runner::strs(v@) =~= show_args(sha@, is_merge));
        v
    } else {
        let mut v = str_vec3("show", "-p", "--format=");
        crate::git::runner::push_owned(&mut v, sha.clone());
        assert(crate::git::runner::strs(v@) =~= show_args(sha@, is_merge));
        v
    }
}

fn tree_args_of(sha: &String, is_merge: bool) -> (v: Vec<String>)
    ensures
        crate::git::runner::strs(v@) == tree_args(sha@, is_merge),
{
    if is_merge {
        let mut v = str_vec4("diff-tree", "-p", "-m", "--first-parent");
        crate::git::runner::push_owned(&mut v, sha.clone());
        assert(crate::git::runner::strs(v@) =~= tree_args(sha@, is_merge));
        v
    } else {
        let mut v = str_vec2("diff-tree", "-p");
        crate::git::runner::push_owned(&mut v, concat2(sha.as_str(), "^!"));
        assert(crate::git::runner::strs(v@) =~= tree_args(sha@, is_merge));
        v
    }
}

fn first_word(ev: &GitEvent) -> (r: Option<String>)
    ensures
        r matches Some(p) ==> printed_patch_id(*ev) == Some(p@),
        r is None ==> printed_patch_id(*ev) is None,
{
    match ev {
        Err(_) => None,
        Ok(o) => {
            if !o.success {
                return None;
            }
            let cs = chars_of(o.stdout.as_str());
            let ws = words_of(cs.as_slice());
            if ws.len() == 0 {
                return None;
            }
            assert(texts(ws@)[0] == ws@[0]@);
            Some(string_of(ws[0].as_slice()))
        },
    }
}

/// How the patch-identity computation proceeds from one state.
pub open spec fn patch_id_moves(state: PatchId, ev: GitEvent, r: PatchIdStep) -> bool {
    match state {
        PatchId::CheckMerge { sha } => {
            let is_merge = ev matches Ok(o) && o.success;
            &&& r.runs(show_args(sha@, is_merge))
            &&& r.state() matches PatchId::Show { sha: s, is_merge: m }
            &&& s@ == sha@
            &&& m == is_merge
        },
        PatchId::Show { sha, is_merge } => match ev {
            Err(e) => r.fails_with(e@),
            Ok(o) => if has_diff(o) {
                &&& r.pipes(patch_id_args())
                &&& r.state() matches PatchId::HashShow { sha: s, is_merge: m }
                &&& s@ == sha@
                &&& m == is_merge
            } else {
                &&& r.runs(tree_args(sha@, is_merge))
                &&& r.state() matches PatchId::Tree { sha: s }
                &&& s@ == sha@
            },
        },
        PatchId::HashShow { sha, is_merge } => match printed_patch_id(ev) {
            Some(p) => r matches GitStep::Done(Ok(x)) && x@ == p,
            None => {
                &&& r.runs(tree_args(sha@, is_merge))
                &&& r.state() matches PatchId::Tree { sha: s }
                &&& s@ == sha@
            },
        },
        PatchId::Tree { sha } => match ev {
            Err(e) => r.fails_with(e@),
            Ok(o) => if has_diff(o) {
                &&& r.pipes(patch_id_args())
                &&& r.state() matches PatchId::HashTree { sha: s }
                &&& s@ == sha@
            } else {
                r matches GitStep::Done(Ok(x)) && x@ == "sha:"@ + sha@
            },
        },
        PatchId::HashTree { sha } => match printed_patch_id(ev) {
            Some(p) => r matches GitStep::Done(Ok(x)) && x@ == p,
            None => r matches GitStep::Done(Ok(x)) && x@ == "sha:"@ + sha@,
        },
    }
}

/// A commit's content identity, stable across cherry-picks: the patch-id of
/// its diff (against the first parent for a merge), taken from `git show`
/// and else from `git diff-tree`; a commit without a diff is identified by
/// `sha:<commit>`. One move on what Git reported for the previous command.
pub fn patch_id(state: PatchId, ev: GitEvent) -> (r: PatchIdStep)
    ensures
        patch_id_moves(state, ev, r),
        r matches GitStep::Done(Ok(p)) ==> p@.len() > 0,
{
    proof {
        patch_id_is_never_empty_when(state, ev);
    }
    match state {
        PatchId::CheckMerge { sha } => {
            let is_merge = match &ev {
                Ok(o) => o.success,
                Err(_) => false,
            };
            GitStep::Run {
                args: show_args_of(&sha, is_merge),
                pipe_previous_output: false,
                state: PatchId::Show { sha, is_merge },
            }
        },
        PatchId::Show { sha, is_merge } => {
            let o = match ev {
                Err(e) => {
                    return GitStep::Done(Err(e));
                },
                Ok(o) => o,
            };
            if o.success && o.stdout.as_str().unicode_len() > 0 {
                GitStep::Run {
                    args: str_vec2("patch-id", "--stable"),
                    pipe_previous_output: true,
                    state: PatchId::HashShow { sha, is_merge },
                }
            } else {
                GitStep::Run {
                    args: tree_args_of(&sha, is_merge),
                    pipe_previous_output: false,
                    state: PatchId::Tree { sha },
                }
            }
        },
        PatchId::HashShow { sha, is_merge } => match first_word(&ev) {
            Some(p) => GitStep::Done(Ok(p)),
            None => GitStep::Run {
                args: tree_args_of(&sha, is_merge),
                pipe_previous_output: false,
                state: PatchId::Tree { sha },
            },
        },
        PatchId::Tree { sha } => {
            let o = match ev {
                Err(e) => {
                    return GitStep::Done(Err(e));
                },
                Ok(o) => o,
            };
            if o.success && o.stdout.as_str().unicode_len() > 0 {
                GitStep::Run {
                    args: str_vec2("patch-id", "--stable"),
                    pipe_previous_output: true,
                    state: PatchId::HashTree { sha },
                }
            } else {
                GitStep::Done(Ok(concat2("sha:", sha.as_str())))
            }
        },
        PatchId::HashTree { sha } => match first_word(&ev) {
            Some(p) => GitStep::Done(Ok(p)),
            None => GitStep::Done(Ok(concat2("sha:", sha.as_str()))),
        },
    }
}


/// Every commit gets a patch identity that is not empty: the patch-id that
/// Git printed, or `sha:<commit>`.
pub proof fn patch_id_is_never_empty(state: PatchId, ev: GitEvent, r: PatchIdStep)
    requires
        patch_id_moves(state, ev, r),
    ensures
        r matches GitStep::Done(Ok(x)) ==> x@.len() > 0,
{
    patch_id_is_never_empty_when(state, ev);
}

proof fn patch_id_is_never_empty_when(state: PatchId, ev: GitEvent)
    ensures
        forall|r: PatchIdStep| #![auto] patch_id_moves(state, ev, r) ==> (r matches GitStep::Done(Ok(x)) ==> x@.len() > 0),
{
    reveal_strlit("sha:");
    match ev {
        Ok(o) => crate::text::lemma_words_nonempty(o.stdout@),
        Err(_) => {},
    }
}


proof fn lemma_text_lt_irreflexive(a: Seq<char>)
    ensures
        !text_lt(a, a),
    decreases a.len(),
{
    if a.len() > 0 {
        lemma_text_lt_irreflexive(a.drop_first());
    }
}

proof fn lemma_text_lt_transitive(a: Seq<char>, b: Seq<char>, c: Seq<char>)
    requires
        text_lt(a, b),
        text_lt(b, c),
    ensures
        text_lt(a, c),
    decreases a.len(),
{
    if a.len() > 0 && b.len() > 0 && c.len() > 0 && a[0] == b[0] && b[0] == c[0] {
        lemma_text_lt_transitive(a.drop_first(), b.drop_first(), c.drop_first());
    }
}

/// Lexicographic order of texts is a strict order.
pub proof fn text_order_is_strict()
    ensures
        forall|a: Seq<char>| !#[trigger] text_lt(a, a),
        forall|a: Seq<char>, b: Seq<char>, c: Seq<char>|
            #[trigger] text_lt(a, b) && #[trigger] text_lt(b, c) ==> text_lt(a, c),
{
    assert forall|a: Seq<char>| !#[trigger] text_lt(a, a) by {
        lemma_text_lt_irreflexive(a);
    }
    assert forall|a: Seq<char>, b: Seq<char>, c: Seq<char>|
        #[trigger] text_lt(a, b) && #[trigger] text_lt(b, c) implies text_lt(a, c) by {
        lemma_text_lt_transitive(a, b, c);
    }
}

proof fn lemma_name_order_strict()
    ensures
        crate::order::strict_order(name_order()),
{
    text_order_is_strict();
    assert forall|a: Seq<char>, b: Seq<char>, c: Seq<char>|
        #[trigger] name_order()(a, b) && #[trigger] name_order()(b, c) implies name_order()(a, c) by {
        lemma_text_lt_transitive(unicode_lowercase(a), unicode_lowercase(b), unicode_lowercase(c));
    }
}

/// Every element of the deduplicated sequence stands somewhere in the sequence it came from.
proof fn lemma_dedup_from(s: Seq<Seq<char>>)
    ensures
        dedup_adjacent(s).len() <= s.len(),
        s.len() > 0 ==> dedup_adjacent(s).len() > 0,
        forall|i: int| 0 <= i < dedup_adjacent(s).len() ==> s.contains(#[trigger] dedup_adjacent(s)[i]),
        dedup_adjacent(s).len() > 0 ==> dedup_adjacent(s).last() == s.last(),
    decreases s.len(),
{
    if s.len() <= 1 {
        assert forall|i: int| 0 <= i < dedup_adjacent(s).len() implies s.contains(#[trigger] dedup_adjacent(s)[i]) by {
            assert(s[i] == dedup_adjacent(s)[i]);
        }
    } else {
        let t = s.drop_last();
        lemma_dedup_from(t);
        let d = dedup_adjacent(t);
        assert forall|i: int| 0 <= i < dedup_adjacent(s).len() implies s.contains(#[trigger] dedup_adjacent(s)[i]) by {
            if i < d.len() {
                let k = choose|k: int| 0 <= k < t.len() && t[k] == d[i];
                assert(s[k] == t[k]);
                assert(dedup_adjacent(s)[i] == d[i]);
            } else {
                assert(dedup_adjacent(s)[i] == s[s.len() - 1]);
            }
        }
        if s.last() == s[s.len() - 2] {
            assert(d.last() == t.last());
        }
    }
}

proof fn lemma_dedup_sorted(s: Seq<Seq<char>>, lt: spec_fn(Seq<char>, Seq<char>) -> bool)
    requires
        crate::order::sorted_by(s, lt),
    ensures
        crate::order::sorted_by(dedup_adjacent(s), lt),
    decreases s.len(),
{
    if s.len() > 1 {
        let t = s.drop_last();
        assert(crate::order::sorted_by(t, lt)) by {
            assert forall|i: int, j: int| 0 <= i < j < t.len() implies !lt(#[trigger] t[j], #[trigger] t[i]) by {
                assert(t[i] == s[i] && t[j] == s[j]);
            }
        }
        lemma_dedup_sorted(t, lt);
        lemma_dedup_from(t);
        let d = dedup_adjacent(t);
        if s.last() != s[s.len() - 2] {
            let r = d.push(s.last());
            assert forall|i: int, j: int| 0 <= i < j < r.len() implies !lt(#[trigger] r[j], #[trigger] r[i]) by {
                if j < d.len() {
                    assert(r[i] == d[i] && r[j] == d[j]);
                } else {
                    assert(r[i] == d[i]);
                    let k = choose|k: int| 0 <= k < t.len() && t[k] == d[i];
                    assert(s[k] == d[i]);
                    assert(r[j] == s[s.len() - 1]);
                }
            }
        }
    }
}

/// The branch list is in case-insensitive order: no branch sorts before one
/// listed earlier.
pub proof fn listed_branches_are_sorted(out: CommandOutput)
    ensures
        crate::order::sorted_by(listed_branches(out), name_order()),
{
    lemma_name_order_strict();
    crate::order::lemma_sort_sorted(content_lines(out.stdout@), name_order());
    lemma_dedup_sorted(sort_by_name(content_lines(out.stdout@)), name_order());
}

/// The branch list holds every branch that Git listed.
pub proof fn listed_branches_are_complete(out: CommandOutput, name: Seq<char>)
    requires
        content_lines(out.stdout@).contains(name),
    ensures
        listed_branches(out).contains(name),
{
    let s = sort_by_name(content_lines(out.stdout@));
    crate::order::lemma_sort_permutes(content_lines(out.stdout@), name_order());
    broadcast use vstd::seq_lib::group_seq_properties;
    assert(s.to_multiset().count(name) > 0);
    assert(s.contains(name));
    lemma_dedup_keeps(s, name);
}

proof fn lemma_dedup_keeps(s: Seq<Seq<char>>, name: Seq<char>)
    requires
        s.contains(name),
    ensures
        dedup_adjacent(s).contains(name),
    decreases s.len(),
{
    if s.len() <= 1 {
    } else {
        let t = s.drop_last();
        lemma_dedup_from(t);
        let d = dedup_adjacent(t);
        if s.last() == name {
            if s.last() == s[s.len() - 2] {
                assert(t.contains(name)) by {
                    assert(t[t.len() - 1] == name);
                }
                lemma_dedup_keeps(t, name);
            } else {
                assert(dedup_adjacent(s).last() == name);
            }
        } else {
            let k = choose|k: int| 0 <= k < s.len() && s[k] == name;
            assert(t[k] == name);
            lemma_dedup_keeps(t, name);
            let i = choose|i: int| 0 <= i < d.len() && d[i] == name;
            if s.last() != s[s.len() - 2] {
                assert(dedup_adjacent(s)[i] == name);
            }
        }
    }
}

/// The files of a numstat listing depend on its file column alone: two
/// listings with the same rows' file columns, whatever their counts, name
/// the same files.
pub proof fn numstat_files_ignore_counts(a: Seq<Seq<char>>, b: Seq<Seq<char>>)
    requires
        a.len() == b.len(),
        forall|i: int| 0 <= i < a.len() ==> field(split(#[trigger] a[i], '\t'), 2, seq![]) == field(
            split(b[i], '\t'),
            2,
            seq![],
        ),
    ensures
        numstat_files(a) == numstat_files(b),
    decreases a.len(),
{
    if a.len() > 0 {
        let a2 = a.drop_last();
        let b2 = b.drop_last();
        assert forall|i: int| 0 <= i < a2.len() implies field(split(#[trigger] a2[i], '\t'), 2, seq![]) == field(
            split(b2[i], '\t'),
            2,
            seq![],
        ) by {
            assert(a2[i] == a[i]);
            assert(b2[i] == b[i]);
        }
        numstat_files_ignore_counts(a2, b2);
        assert(a.last() == a[a.len() - 1]);
    }
}

/// Every numstat row that names a file contributes it: a row whose third
/// tab-separated field is not empty has that file among the changed files,
/// a deletion-only or binary row included; and there is one file per such
/// row.
pub proof fn numstat_files_name_every_row(rows: Seq<Seq<char>>)
    ensures
        forall|i: int| 0 <= i < rows.len() && field(split(#[trigger] rows[i], '\t'), 2, seq![]).len() > 0
            ==> numstat_files(rows).contains(field(split(rows[i], '\t'), 2, seq![])),
        numstat_files(rows).len() <= rows.len(),
        forall|k: int| 0 <= k < numstat_files(rows).len() ==> (#[trigger] numstat_files(rows)[k]).len() > 0,
    decreases rows.len(),
{
    if rows.len() > 0 {
        let rest = rows.drop_last();
        numstat_files_name_every_row(rest);
        let f = field(split(rows.last(), '\t'), 2, seq![]);
        let prev = numstat_files(rest);
        assert forall|i: int| 0 <= i < rows.len() && field(split(#[trigger] rows[i], '\t'), 2, seq![]).len() > 0
            implies numstat_files(rows).contains(field(split(rows[i], '\t'), 2, seq![])) by {
            if i < rows.len() - 1 {
                assert(rows[i] == rest[i]);
                let g = field(split(rest[i], '\t'), 2, seq![]);
                let k = choose|k: int| 0 <= k < prev.len() && prev[k] == g;
                if f.len() > 0 {
                    assert(numstat_files(rows)[k] == g);
                }
            } else {
                assert(rows[i] == rows.last());
                assert(numstat_files(rows)[prev.len() as int] == f);
            }
        }
        if f.len() > 0 {
            assert forall|k: int| 0 <= k < numstat_files(rows).len() implies (#[trigger] numstat_files(rows)[k]).len()
                > 0 by {
                if k < prev.len() {
                    assert(numstat_files(rows)[k] == prev[k]);
                }
            }
        }
    }
}

} // verus!
