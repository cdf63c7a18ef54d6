//! The argument lists of the single Git commands that the application runs
//! outside the multi-command procedures; what each command printed is read
//! by the matching function of `git` or `git::promote`.

use vstd::prelude::*;

use crate::git::promote::{conflict_files_args, rev_parse_verify_args};
use crate::git::runner::{push_owned, strs};
use crate::git::{list_branches_args, str_vec2, str_vec3, str_vec4};
use crate::text::concat2;

verus! {

/// `git rev-parse --is-inside-work-tree`.
pub fn work_tree_command() -> (v: Vec<String>)
    ensures
        strs(v@) == seq!["rev-parse"@, "--is-inside-work-tree"@],
{
    str_vec2("rev-parse", "--is-inside-work-tree")
}

/// `git rev-parse --abbrev-ref HEAD`: the checked-out branch.
pub fn checked_out_branch_command() -> (v: Vec<String>)
    ensures
        strs(v@) == seq!["rev-parse"@, "--abbrev-ref"@, "HEAD"@],
{
    str_vec3("rev-parse", "--abbrev-ref", "HEAD")
}

/// `git rev-parse HEAD`: the commit checked out.
pub fn head_sha_command() -> (v: Vec<String>)
    ensures
        strs(v@) == seq!["rev-parse"@, "HEAD"@],
{
    str_vec2("rev-parse", "HEAD")
}

/// `git rev-parse refs/heads/<branch>`: the head of a local branch.
pub fn branch_head_command(branch: &str) -> (v: Vec<String>)
    ensures
        strs(v@) == seq!["rev-parse"@, "refs/heads/"@ + branch@],
{
    let mut v: Vec<String> = Vec::new();
    push_owned(&mut v, String::from_str("rev-parse"));
    push_owned(&mut v, concat2("refs/heads/", branch));
    assert(strs(v@) =~= seq!["rev-parse"@, "refs/heads/"@ + branch@]);
    v
}

/// `git for-each-ref --format=%(refname:short) refs/heads/`: the local branches.
pub fn list_branches_command() -> (v: Vec<String>)
    ensures
        strs(v@) == list_branches_args(),
{
    str_vec3("for-each-ref", "--format=%(refname:short)", "refs/heads/")
}

/// The format of one line of [`commits_ahead_command`]: hash, subject,
/// author, author time and parents, separated by the unit separator.
pub open spec fn commit_line_format() -> Seq<char> {
    "--format=%H\u{1f}%s\u{1f}%an\u{1f}%at\u{1f}%P"@
}

/// `git log --first-parent --reverse --format=... <target>..<source>`: the
/// first-parent history of `source` that `target` lacks, oldest first.
pub fn commits_ahead_command(source: &str, target: &str) -> (v: Vec<String>)
    ensures
        strs(v@) == seq![
            "log"@,
            "--first-parent"@,
            "--reverse"@,
            commit_line_format(),
            target@ + ".."@ + source@,
        ],
{
    let mut v = str_vec4("log", "--first-parent", "--reverse", "--format=%H\u{1f}%s\u{1f}%an\u{1f}%at\u{1f}%P");
    let mut range = concat2(target, "..");
    range.append(source);
    push_owned(&mut v, range);
    assert(strs(v@) =~= seq![
        "log"@,
        "--first-parent"@,
        "--reverse"@,
        commit_line_format(),
        target@ + ".."@ + source@,
    ]);
    v
}

/// `git cherry -v <upstream> <head>`.
pub fn cherry_command(upstream: &str, head: &str) -> (v: Vec<String>)
    ensures
        strs(v@) == seq!["cherry"@, "-v"@, upstream@, head@],
{
    str_vec4("cherry", "-v", upstream, head)
}

/// `git diff --numstat <target>..<commit>`.
pub fn numstat_command(target_sha: &str, commit_sha: &str) -> (v: Vec<String>)
    ensures
        strs(v@) == seq!["diff"@, "--numstat"@, target_sha@ + ".."@ + commit_sha@],
{
    let mut v = str_vec2("diff", "--numstat");
    let mut range = concat2(target_sha, "..");
    range.append(commit_sha);
    push_owned(&mut v, range);
    assert(strs(v@) =~= seq!["diff"@, "--numstat"@, target_sha@ + ".."@ + commit_sha@]);
    v
}

/// `git cat-file -e <sha>^{commit}`: whether the commit exists.
pub fn commit_exists_command(sha: &str) -> (v: Vec<String>)
    ensures
        strs(v@) == seq!["cat-file"@, "-e"@, sha@ + "^{commit}"@],
{
    let mut v = str_vec2("cat-file", "-e");
    push_owned(&mut v, concat2(sha, "^{commit}"));
    assert(strs(v@) =~= seq!["cat-file"@, "-e"@, sha@ + "^{commit}"@]);
    v
}

/// `git switch <branch>`.
pub fn switch_command(branch: &str) -> (v: Vec<String>)
    ensures
        strs(v@) == seq!["switch"@, branch@],
{
    str_vec2("switch", branch)
}

/// `git switch -c <branch> <base>`: make the branch at `base` and check it out.
pub fn create_branch_command(branch: &str, base: &str) -> (v: Vec<String>)
    ensures
        strs(v@) == seq!["switch"@, "-c"@, branch@, base@],
{
    str_vec4("switch", "-c", branch, base)
}

/// `git branch -D <branch>`.
pub fn delete_branch_command(branch: &str) -> (v: Vec<String>)
    ensures
        strs(v@) == seq!["branch"@, "-D"@, branch@],
{
    str_vec3("branch", "-D", branch)
}

/// `git diff --name-only --diff-filter=U`: the files in conflict.
pub fn conflict_files_command() -> (v: Vec<String>)
    ensures
        strs(v@) == conflict_files_args(),
{
    str_vec3("diff", "--name-only", "--diff-filter=U")
}

/// `git rev-parse -q --verify CHERRY_PICK_HEAD`: whether a cherry-pick is in progress.
pub fn cherry_pick_in_progress_command() -> (v: Vec<String>)
    ensures
        strs(v@) == rev_parse_verify_args("CHERRY_PICK_HEAD"@),
{
    str_vec4("rev-parse", "-q", "--verify", "CHERRY_PICK_HEAD")
}

/// `git rev-parse -q --verify MERGE_HEAD`: whether a merge is in progress.
pub fn merge_in_progress_command() -> (v: Vec<String>)
    ensures
        strs(v@) == rev_parse_verify_args("MERGE_HEAD"@),
{
    str_vec4("rev-parse", "-q", "--verify", "MERGE_HEAD")
}

/// `git merge-base --is-ancestor <ancestor> <descendant>`.
pub fn is_ancestor_command(ancestor: &str, descendant: &str) -> (v: Vec<String>)
    ensures
        strs(v@) == seq!["merge-base"@, "--is-ancestor"@, ancestor@, descendant@],
{
    str_vec4("merge-base", "--is-ancestor", ancestor, descendant)
}

} // verus!
