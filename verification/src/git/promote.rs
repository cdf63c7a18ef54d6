//! The Git steps of a promotion run: checking the working tree, switching
//! and creating branches, cherry-picking, merging, and resuming after a
//! conflict.

use vstd::prelude::*;

use crate::git::runner::{push_owned, strs, CommandOutput};
use crate::git::{content_lines, content_lines_of, str_vec2, str_vec3, str_vec4, GitEvent, GitStep};
use crate::text::{concat2, concat3, decimal, string_of, texts, trim, trim_str, u64_text};

verus! {

/// What a cherry-pick did: applied cleanly, or stopped with these files in
/// conflict and this message from Git.
pub struct CherryPickOutcome {
    pub success: bool,
    pub conflict_files: Vec<String>,
    pub stderr: String,
}

/// What merging the promotion branch did.
pub struct MergeOutcome {
    pub success: bool,
    pub conflict_files: Vec<String>,
    pub stderr: String,
}

/// Git's error text, trimmed.
fn trimmed_stderr(o: &CommandOutput) -> (s: String)
    ensures
        s@ == trim(o.stderr@),
{
    string_of(trim_str(o.stderr.as_str()).as_slice())
}

/// The checked-out branch from `git rev-parse --abbrev-ref HEAD`.
pub fn current_branch(out: &CommandOutput) -> (r: Result<String, String>)
    ensures
        r is Ok <==> out.success,
        r matches Ok(b) ==> b@ == trim(out.stdout@),
        r matches Err(e) ==> e@ == "Failed to read current branch"@,
{
    if !out.success {
        return Err(String::from_str("Failed to read current branch"));
    }
    Ok(string_of(trim_str(out.stdout.as_str()).as_slice()))
}

/// The checked-out commit from `git rev-parse HEAD`.
pub fn head_sha(out: &CommandOutput) -> (r: Result<String, String>)
    ensures
        r is Ok <==> out.success,
        r matches Ok(b) ==> b@ == trim(out.stdout@),
        r matches Err(e) ==> e@ == "Failed to read HEAD"@,
{
    if !out.success {
        return Err(String::from_str("Failed to read HEAD"));
    }
    Ok(string_of(trim_str(out.stdout.as_str()).as_slice()))
}

/// Whether `git cat-file -e <sha>^{commit}` found the commit.
pub fn commit_exists(out: &CommandOutput) -> (r: bool)
    ensures
        r == out.success,
{
    out.success
}

/// Whether `git merge-base --is-ancestor` confirmed the ancestry.
pub fn is_ancestor(out: &CommandOutput) -> (r: bool)
    ensures
        r == out.success,
{
    out.success
}

/// Whether `git rev-parse -q --verify CHERRY_PICK_HEAD` found a cherry-pick
/// in progress.
pub fn cherry_pick_in_progress(out: &CommandOutput) -> (r: bool)
    ensures
        r == out.success,
{
    operation_in_progress(out)
}

/// Whether `git rev-parse -q --verify MERGE_HEAD` found a merge in progress.
pub fn merge_in_progress(out: &CommandOutput) -> (r: bool)
    ensures
        r == out.success,
{
    operation_in_progress(out)
}

fn operation_in_progress(out: &CommandOutput) -> (r: bool)
    ensures
        r == out.success,
{
    out.success
}

/// The outcome of a Git command that either works or explains itself on
/// standard error.
fn plain_result(out: &CommandOutput) -> (r: Result<(), String>)
    ensures
        r is Ok <==> out.success,
        r matches Err(e) ==> e@ == trim(out.stderr@),
{
    if out.success {
        Ok(())
    } else {
        Err(trimmed_stderr(out))
    }
}

/// The outcome of `git cherry-pick --abort`.
pub fn cherry_pick_abort(out: &CommandOutput) -> (r: Result<(), String>)
    ensures
        r is Ok <==> out.success,
        r matches Err(e) ==> e@ == trim(out.stderr@),
{
    plain_result(out)
}

/// The outcome of `git merge --abort`.
pub fn merge_abort(out: &CommandOutput) -> (r: Result<(), String>)
    ensures
        r is Ok <==> out.success,
        r matches Err(e) ==> e@ == trim(out.stderr@),
{
    plain_result(out)
}

/// The outcome of `git branch -D <branch>`.
pub fn delete_branch(out: &CommandOutput) -> (r: Result<(), String>)
    ensures
        r is Ok <==> out.success,
        r matches Err(e) ==> e@ == trim(out.stderr@),
{
    plain_result(out)
}

/// The outcome of `git switch <branch>`.
pub fn switch_branch(out: &CommandOutput, branch: &str) -> (r: Result<(), String>)
    ensures
        r is Ok <==> out.success,
        r matches Err(e) ==> e@ == "Failed to switch to "@ + branch@ + ": "@ + trim(out.stderr@),
{
    if out.success {
        return Ok(());
    }
    let mut m = concat3("Failed to switch to ", branch, ": ");
    m.append(trimmed_stderr(out).as_str());
    Err(m)
}

/// The outcome of `git switch -c <branch> <base>`.
pub fn create_branch(out: &CommandOutput, branch: &str) -> (r: Result<(), String>)
    ensures
        r is Ok <==> out.success,
        r matches Err(e) ==> e@ == "Failed to create branch "@ + branch@ + ": "@ + trim(
            out.stderr@,
        ),
{
    if out.success {
        return Ok(());
    }
    let mut m = concat3("Failed to create branch ", branch, ": ");
    m.append(trimmed_stderr(out).as_str());
    Err(m)
}

/// The files that `git diff --name-only --diff-filter=U` lists as
/// unmerged; none when Git failed.
pub open spec fn listed_conflicts(out: CommandOutput) -> Seq<Seq<char>> {
    if out.success {
        content_lines(out.stdout@)
    } else {
        seq![]
    }
}

pub fn conflict_files(out: &CommandOutput) -> (files: Vec<String>)
    ensures
        strs(files@) == listed_conflicts(*out),
{
    if !out.success {
        let v: Vec<String> = Vec::new();
        assert(strs(v@) =~= seq![]);
        return v;
    }
    let rows = content_lines_of(out.stdout.as_str());
    let mut files: Vec<String> = Vec::new();
    let mut i: usize = 0;
    let ghost rs = texts(rows@);
    assert(strs(files@) =~= rs.take(0));
    while i < rows.len()
        invariant
            i <= rows.len(),
            rs == texts(rows@),
            strs(files@) == rs.take(i as int),
        decreases rows.len() - i,
    {
        push_owned(&mut files, string_of(rows[i].as_slice()));
        i += 1;
        assert(strs(files@) =~= rs.take(i as int));
    }
    assert(rs.take(i as int) =~= rs);
    files
}

pub open spec fn conflict_files_args() -> Seq<Seq<char>> {
    seq!["diff"@, "--name-only"@, "--diff-filter=U"@]
}

pub open spec fn rev_parse_verify_args(rev: Seq<char>) -> Seq<Seq<char>> {
    seq!["rev-parse"@, "-q"@, "--verify"@, rev]
}

/// Where the check for a clean working tree stands.
pub enum EnsureClean {
    /// Waiting to learn whether a cherry-pick is in progress.
    CheckCherryPick,
    /// Waiting to learn whether a merge is in progress.
    CheckMerge,
    /// Waiting for `git status --porcelain`.
    Status,
}

pub type EnsureCleanStep = GitStep<EnsureClean, Result<(), String>>;

pub open spec fn busy_message() -> Seq<char> {
    "Finish or abort the existing Git operation before starting a promotion"@
}

pub open spec fn dirty_message() -> Seq<char> {
    "Repository has uncommitted changes. Commit or stash them before starting a promotion."@
}

/// The first move of checking that a promotion can start: look for a
/// cherry-pick in progress.
pub fn ensure_clean_start() -> (r: EnsureCleanStep)
    ensures
        r.runs(rev_parse_verify_args("CHERRY_PICK_HEAD"@)),
        r.state() is CheckCherryPick,
{
    GitStep::Run {
        args: str_vec4("rev-parse", "-q", "--verify", "CHERRY_PICK_HEAD"),
        pipe_previous_output: false,
        state: EnsureClean::CheckCherryPick,
    }
}

pub open spec fn ensure_clean_moves(state: EnsureClean, ev: GitEvent, r: EnsureCleanStep) -> bool {
    match ev {
        Err(e) => r.fails_with(e@),
        Ok(o) => match state {
            EnsureClean::CheckCherryPick => if o.success {
                r.fails_with(busy_message())
            } else {
                r.runs(rev_parse_verify_args("MERGE_HEAD"@)) && r.state() is CheckMerge
            },
            EnsureClean::CheckMerge => if o.success {
                r.fails_with(busy_message())
            } else {
                r.runs(seq!["status"@, "--porcelain"@]) && r.state() is Status
            },
            EnsureClean::Status => if !o.success {
                r.fails_with(trim(o.stderr@))
            } else if o.stdout@.len() > 0 {
                r.fails_with(dirty_message())
            } else {
                r matches GitStep::Done(Ok(_))
            },
        },
    }
}

/// Checks that no cherry-pick or merge is in progress and that the working
/// tree has no changes: one move on what Git reported.
pub fn ensure_clean(state: EnsureClean, ev: GitEvent) -> (r: EnsureCleanStep)
    ensures
        ensure_clean_moves(state, ev, r),
{
    let o = match ev {
        Err(e) => {
            return GitStep::Done(Err(e));
        },
        Ok(o) => o,
    };
    match state {
        EnsureClean::CheckCherryPick => {
            if o.success {
                GitStep::Done(
                    Err(
                        String::from_str(
                            "Finish or abort the existing Git operation before starting a promotion",
                        ),
                    ),
                )
            } else {
                GitStep::Run {
                    args: str_vec4("rev-parse", "-q", "--verify", "MERGE_HEAD"),
                    pipe_previous_output: false,
                    state: EnsureClean::CheckMerge,
                }
            }
        },
        EnsureClean::CheckMerge => {
            if o.success {
                GitStep::Done(
                    Err(
                        String::from_str(
                            "Finish or abort the existing Git operation before starting a promotion",
                        ),
                    ),
                )
            } else {
                GitStep::Run {
                    args: str_vec2("status", "--porcelain"),
                    pipe_previous_output: false,
                    state: EnsureClean::Status,
                }
            }
        },
        EnsureClean::Status => {
            if !o.success {
                GitStep::Done(Err(trimmed_stderr(&o)))
            } else if o.stdout.as_str().unicode_len() > 0 {
                GitStep::Done(
                    Err(
                        String::from_str(
                            "Repository has uncommitted changes. Commit or stash them before starting a promotion.",
                        ),
                    ),
                )
            } else {
                GitStep::Done(Ok(()))
            }
        },
    }
}

/// Where applying a change (a cherry-pick, or the merge into the target)
/// stands.
pub enum ApplyChange {
    /// Waiting for the cherry-pick or merge itself.
    Apply,
    /// Waiting for the list of conflicted files; Git's trimmed error text is kept.
    Conflicts { stderr: String },
}

pub type CherryPickStep = GitStep<ApplyChange, CherryPickOutcome>;

pub type MergeStep = GitStep<ApplyChange, MergeOutcome>;

pub open spec fn cherry_pick_args(sha: Seq<char>, merge_commit: bool) -> Seq<Seq<char>> {
    if merge_commit {
        seq!["cherry-pick"@, "-m"@, "1"@, sha]
    } else {
        seq!["cherry-pick"@, sha]
    }
}

/// The first move of cherry-picking a commit; a merge commit is picked
/// against its first parent.
pub fn cherry_pick_start(sha: &str, merge_commit: bool) -> (r: CherryPickStep)
    ensures
        r.runs(cherry_pick_args(sha@, merge_commit)),
        r.state() is Apply,
{
    let args = if merge_commit {
        str_vec4("cherry-pick", "-m", "1", sha)
    } else {
        str_vec2("cherry-pick", sha)
    };
    GitStep::Run { args, pipe_previous_output: false, state: ApplyChange::Apply }
}

/// How applying a change proceeds: success, a failure to run Git, or a
/// stop whose conflicted files are then listed (none if listing fails).
pub open spec fn apply_moves<T>(
    state: ApplyChange,
    ev: GitEvent,
    r: GitStep<ApplyChange, T>,
    outcome: spec_fn(T) -> (bool, Seq<Seq<char>>, Seq<char>),
) -> bool {
    match state {
        ApplyChange::Apply => match ev {
            Err(e) => r matches GitStep::Done(t) && outcome(t) == (false, Seq::<Seq<char>>::empty(), e@),
            Ok(o) => if o.success {
                r matches GitStep::Done(t) && outcome(t) == (true, Seq::<Seq<char>>::empty(), Seq::<char>::empty())
            } else {
                &&& r.runs(conflict_files_args())
                &&& r.state() matches ApplyChange::Conflicts { stderr }
                &&& stderr@ == trim(o.stderr@)
            },
        },
        ApplyChange::Conflicts { stderr } => {
            let files = match ev {
                Ok(o) => listed_conflicts(o),
                Err(_) => seq![],
            };
            r matches GitStep::Done(t) && outcome(t) == (false, files, stderr@)
        },
    }
}

pub open spec fn cherry_pick_view(o: CherryPickOutcome) -> (bool, Seq<Seq<char>>, Seq<char>) {
    (o.success, strs(o.conflict_files@), o.stderr@)
}

pub open spec fn merge_view(o: MergeOutcome) -> (bool, Seq<Seq<char>>, Seq<char>) {
    (o.success, strs(o.conflict_files@), o.stderr@)
}

fn conflicts_of(ev: &GitEvent) -> (files: Vec<String>)
    ensures
        strs(files@) == (match *ev {
            Ok(o) => listed_conflicts(o),
            Err(_) => seq![],
        }),
{
    match ev {
        Ok(o) => conflict_files(o),
        Err(_) => {
            let v: Vec<String> = Vec::new();
            assert(strs(v@) =~= seq![]);
            v
        },
    }
}

/// Cherry-picks a commit: one move on what Git reported.
pub fn cherry_pick(state: ApplyChange, ev: GitEvent) -> (r: CherryPickStep)
    ensures
        apply_moves(state, ev, r, |t: CherryPickOutcome| cherry_pick_view(t)),
{
    match state {
        ApplyChange::Apply => match ev {
            Err(e) => {
                let v: Vec<String> = Vec::new();
                assert(strs(v@) =~= seq![]);
                GitStep::Done(CherryPickOutcome { success: false, conflict_files: v, stderr: e })
            },
            Ok(o) => if o.success {
                let v: Vec<String> = Vec::new();
                assert(strs(v@) =~= seq![]);
                GitStep::Done(
                    CherryPickOutcome { success: true, conflict_files: v, stderr: String::new() },
                )
            } else {
                GitStep::Run {
                    args: str_vec3("diff", "--name-only", "--diff-filter=U"),
                    pipe_previous_output: false,
                    state: ApplyChange::Conflicts { stderr: trimmed_stderr(&o) },
                }
            },
        },
        ApplyChange::Conflicts { stderr } => {
            let files = conflicts_of(&ev);
            GitStep::Done(CherryPickOutcome { success: false, conflict_files: files, stderr })
        },
    }
}

/// The first move of merging `branch` into the checked-out branch.
pub fn merge_branch_start(branch: &str) -> (r: MergeStep)
    ensures
        r.runs(seq!["merge"@, "--no-edit"@, branch@]),
        r.state() is Apply,
{
    GitStep::Run {
        args: str_vec3("merge", "--no-edit", branch),
        pipe_previous_output: false,
        state: ApplyChange::Apply,
    }
}

/// Merges the promotion branch: one move on what Git reported.
pub fn merge_branch(state: ApplyChange, ev: GitEvent) -> (r: MergeStep)
    ensures
        apply_moves(state, ev, r, |t: MergeOutcome| merge_view(t)),
{
    match state {
        ApplyChange::Apply => match ev {
            Err(e) => {
                let v: Vec<String> = Vec::new();
                assert(strs(v@) =~= seq![]);
                GitStep::Done(MergeOutcome { success: false, conflict_files: v, stderr: e })
            },
            Ok(o) => if o.success {
                let v: Vec<String> = Vec::new();
                assert(strs(v@) =~= seq![]);
                GitStep::Done(MergeOutcome { success: true, conflict_files: v, stderr: String::new() })
            } else {
                GitStep::Run {
                    args: str_vec3("diff", "--name-only", "--diff-filter=U"),
                    pipe_previous_output: false,
                    state: ApplyChange::Conflicts { stderr: trimmed_stderr(&o) },
                }
            },
        },
        ApplyChange::Conflicts { stderr } => {
            let files = conflicts_of(&ev);
            GitStep::Done(MergeOutcome { success: false, conflict_files: files, stderr })
        },
    }
}

/// Which interrupted operation is being continued.
pub enum ContinueKind {
    CherryPick,
    Merge,
}

/// Where continuing an interrupted operation stands.
pub enum ContinueOperation {
    /// Waiting for the list of files still in conflict.
    CheckConflicts { kind: ContinueKind },
    /// Waiting for `git cherry-pick --continue` or `git merge --continue`.
    Continue { kind: ContinueKind },
}

pub type ContinueStep = GitStep<ContinueOperation, Result<(), String>>;

pub open spec fn continue_args(kind: ContinueKind) -> Seq<Seq<char>> {
    match kind {
        ContinueKind::CherryPick => seq!["cherry-pick"@, "--continue"@],
        ContinueKind::Merge => seq!["merge"@, "--continue"@],
    }
}

pub open spec fn operation_label(kind: ContinueKind) -> Seq<char> {
    match kind {
        ContinueKind::CherryPick => "cherry-pick"@,
        ContinueKind::Merge => "merge"@,
    }
}

/// `<n> conflicted file(s) remain. Resolve and stage them before continuing.`
pub open spec fn remaining_conflicts_message(n: nat) -> Seq<char> {
    decimal(n) + " conflicted file"@ + (if n == 1 {
        ""@
    } else {
        "s"@
    }) + " remain. Resolve and stage them before continuing."@
}

/// The first move of continuing a cherry-pick: list the files still in conflict.
pub fn cherry_pick_continue() -> (r: ContinueStep)
    ensures
        r.runs(conflict_files_args()),
        r.state() matches ContinueOperation::CheckConflicts { kind } && kind is CherryPick,
{
    GitStep::Run {
        args: str_vec3("diff", "--name-only", "--diff-filter=U"),
        pipe_previous_output: false,
        state: ContinueOperation::CheckConflicts { kind: ContinueKind::CherryPick },
    }
}

/// The first move of continuing a merge: list the files still in conflict.
pub fn merge_continue() -> (r: ContinueStep)
    ensures
        r.runs(conflict_files_args()),
        r.state() matches ContinueOperation::CheckConflicts { kind } && kind is Merge,
{
    GitStep::Run {
        args: str_vec3("diff", "--name-only", "--diff-filter=U"),
        pipe_previous_output: false,
        state: ContinueOperation::CheckConflicts { kind: ContinueKind::Merge },
    }
}

pub open spec fn continue_moves(state: ContinueOperation, ev: GitEvent, r: ContinueStep) -> bool {
    match ev {
        Err(e) => r.fails_with(e@),
        Ok(o) => match state {
            ContinueOperation::CheckConflicts { kind } => {
                let files = listed_conflicts(o);
                if files.len() > 0 {
                    r.fails_with(remaining_conflicts_message(files.len()))
                } else {
                    &&& r.runs(continue_args(kind))
                    &&& r.state() matches ContinueOperation::Continue { kind: k }
                    &&& k == kind
                }
            },
            ContinueOperation::Continue { kind } => if o.success {
                r matches GitStep::Done(Ok(_))
            } else if trim(o.stderr@).len() == 0 {
                r.fails_with("Failed to continue "@ + operation_label(kind))
            } else {
                r.fails_with(trim(o.stderr@))
            },
        },
    }
}

/// Continues an interrupted cherry-pick or merge once nothing is left in
/// conflict: one move on what Git reported.
pub fn continue_operation(state: ContinueOperation, ev: GitEvent) -> (r: ContinueStep)
    ensures
        continue_moves(state, ev, r),
{
    let o = match ev {
        Err(e) => {
            return GitStep::Done(Err(e));
        },
        Ok(o) => o,
    };
    match state {
        ContinueOperation::CheckConflicts { kind } => {
            let files = conflict_files(&o);
            if files.len() > 0 {
                let n = files.len() as u64;
                let mut m = u64_text(n);
                m.append(" conflicted file");
                if n == 1 {
                    m.append("");
                } else {
                    m.append("s");
                }
                m.append(" remain. Resolve and stage them before continuing.");
                return GitStep::Done(Err(m));
            }
            let args = match kind {
                ContinueKind::CherryPick => str_vec2("cherry-pick", "--continue"),
                ContinueKind::Merge => str_vec2("merge", "--continue"),
            };
            GitStep::Run {
                args,
                pipe_previous_output: false,
                state: ContinueOperation::Continue { kind },
            }
        },
        ContinueOperation::Continue { kind } => {
            if o.success {
                return GitStep::Done(Ok(()));
            }
            let e = trimmed_stderr(&o);
            if e.as_str().unicode_len() == 0 {
                let label = match kind {
                    ContinueKind::CherryPick => "cherry-pick",
                    ContinueKind::Merge => "merge",
                };
                GitStep::Done(Err(concat2("Failed to continue ", label)))
            } else {
                GitStep::Done(Err(e))
            }
        },
    }
}

/// The branch that abandoning a run checks out again: the one checked out
/// before the run, else the target branch.
pub open spec fn restore_branch(target_branch: Seq<char>, original_branch: Option<Seq<char>>) -> Seq<char> {
    match original_branch {
        Some(o) => o,
        None => target_branch,
    }
}

/// The Git commands that abandon a run, in order: give up a cherry-pick and
/// a merge in progress, check out the branch to restore, delete the
/// promotion branch. Their outcomes do not matter.
pub open spec fn abort_steps_spec(
    branch_name: Seq<char>,
    target_branch: Seq<char>,
    original_branch: Option<Seq<char>>,
) -> Seq<Seq<Seq<char>>> {
    seq![
        seq!["cherry-pick"@, "--abort"@],
        seq!["merge"@, "--abort"@],
        seq!["switch"@, restore_branch(target_branch, original_branch)],
        seq!["branch"@, "-D"@, branch_name],
    ]
}

pub open spec fn arg_lists(v: Seq<Vec<String>>) -> Seq<Seq<Seq<char>>> {
    v.map_values(|a: Vec<String>| strs(a@))
}

/// The Git commands that abandon a run.
pub fn abort_steps(branch_name: &str, target_branch: &str, original_branch: Option<&str>) -> (steps: Vec<
    Vec<String>,
>)
    ensures
        arg_lists(steps@) == abort_steps_spec(
            branch_name@,
            target_branch@,
            match original_branch {
                Some(o) => Some(o@),
                None => None,
            },
        ),
{
    let restore = match original_branch {
        Some(o) => o,
        None => target_branch,
    };
    let mut steps: Vec<Vec<String>> = Vec::new();
    steps.push(str_vec2("cherry-pick", "--abort"));
    steps.push(str_vec2("merge", "--abort"));
    steps.push(str_vec2("switch", restore));
    steps.push(str_vec3("branch", "-D", branch_name));
    assert(arg_lists(steps@) =~= abort_steps_spec(
        branch_name@,
        target_branch@,
        match original_branch {
            Some(o) => Some(o@),
            None => None,
        },
    ));
    steps
}

/// A promotion may start only once `git status --porcelain` ran and printed
/// nothing: any output at all, an untracked file among it, refuses the
/// promotion with the uncommitted-changes message, and no other state or
/// report lets it start.
pub proof fn starts_only_on_a_clean_tree(state: EnsureClean, ev: GitEvent, r: EnsureCleanStep)
    requires
        ensure_clean_moves(state, ev, r),
    ensures
        (r matches GitStep::Done(Ok(_))) <==> (state is Status && ev is Ok && ev->Ok_0.success
            && ev->Ok_0.stdout@.len() == 0),
        (state is Status && ev is Ok && ev->Ok_0.success && ev->Ok_0.stdout@.len() > 0) ==> (r matches GitStep::Done(
            Err(e),
        ) && e@
            == "Repository has uncommitted changes. Commit or stash them before starting a promotion."@),
{
}

} // verus!
