use branchgate::git::commands;
use branchgate::git::runner::CommandOutput;
use branchgate::git::{
    create_branch_ref, create_branch_ref_start, patch_id, patch_id_start, CreateBranchRef,
    GitStep, PatchId,
};

fn ran(success: bool, stdout: &str, stderr: &str) -> Result<CommandOutput, String> {
    Ok(CommandOutput { success, stdout: stdout.to_string(), stderr: stderr.to_string() })
}

fn run_args<S, T>(step: &GitStep<S, T>) -> (Vec<String>, bool) {
    match step {
        GitStep::Run { args, pipe_previous_output, .. } => (args.clone(), *pipe_previous_output),
        GitStep::Done(_) => panic!("expected another Git command"),
    }
}

fn next_state<S, T>(step: GitStep<S, T>) -> S {
    match step {
        GitStep::Run { state, .. } => state,
        GitStep::Done(_) => panic!("expected another Git command"),
    }
}

fn finished<S, T>(step: GitStep<S, T>) -> T {
    match step {
        GitStep::Done(t) => t,
        GitStep::Run { .. } => panic!("expected the end"),
    }
}

#[test]
fn create_branch_ref_runs_check_list_and_create() {
    let step = create_branch_ref_start("  feature/x ", "main");
    assert_eq!(run_args(&step), (vec!["check-ref-format".to_string(), "--branch".into(), "feature/x".into()], false));
    let step = create_branch_ref(next_state(step), ran(true, "feature/x\n", ""));
    assert_eq!(
        run_args(&step).0,
        vec!["for-each-ref", "--format=%(refname:short)", "refs/heads/"]
    );
    let step = create_branch_ref(next_state(step), ran(true, "main\nfeature/y\n", ""));
    assert_eq!(run_args(&step).0, vec!["branch", "--", "feature/x", "main"]);
    let step = create_branch_ref(next_state(step), ran(true, "", ""));
    assert_eq!(finished(step), Ok(()));
}

#[test]
fn create_branch_ref_refuses_a_blank_name() {
    assert_eq!(
        finished(create_branch_ref_start("   ", "main")),
        Err("Branch name is required".to_string())
    );
}

#[test]
fn create_branch_ref_refuses_an_invalid_name() {
    let state = CreateBranchRef::CheckFormat { name: "bad..name".into(), base: "main".into() };
    assert_eq!(
        finished(create_branch_ref(state, ran(false, "", "fatal"))),
        Err("'bad..name' is not a valid Git branch name".to_string())
    );
}

#[test]
fn create_branch_ref_refuses_existing_branch_and_missing_base() {
    let state = CreateBranchRef::ListBranches { branch_name: "release".into(), base: "main".into() };
    assert_eq!(
        finished(create_branch_ref(state, ran(true, "main\nrelease\n", ""))),
        Err("Branch 'release' already exists".to_string())
    );
    let state = CreateBranchRef::ListBranches { branch_name: "release".into(), base: "trunk".into() };
    assert_eq!(
        finished(create_branch_ref(state, ran(true, "main\n", ""))),
        Err("Base branch 'trunk' not found".to_string())
    );
    let state = CreateBranchRef::CreateRef { branch_name: "release".into() };
    assert_eq!(
        finished(create_branch_ref(state, ran(false, "", " locked \n"))),
        Err("Failed to create branch release: locked".to_string())
    );
}

#[test]
fn create_branch_ref_passes_on_a_launch_failure() {
    let state = CreateBranchRef::CreateRef { branch_name: "release".into() };
    assert_eq!(
        finished(create_branch_ref(state, Err("git not found".into()))),
        Err("git not found".to_string())
    );
}

#[test]
fn patch_id_of_an_ordinary_commit_hashes_its_show_diff() {
    let step = patch_id_start("abc");
    assert_eq!(run_args(&step), (vec!["rev-parse".to_string(), "--verify".into(), "abc^2".into()], false));
    let step = patch_id(next_state(step), ran(false, "", "no second parent"));
    assert_eq!(run_args(&step), (vec!["show".to_string(), "-p".into(), "--format=".into(), "abc".into()], false));
    let step = patch_id(next_state(step), ran(true, "diff --git a/x b/x\n", ""));
    assert_eq!(run_args(&step), (vec!["patch-id".to_string(), "--stable".into()], true));
    let step = patch_id(next_state(step), ran(true, "deadbeef abc\n", ""));
    assert_eq!(finished(step), Ok("deadbeef".to_string()));
}

#[test]
fn patch_id_of_a_merge_uses_its_first_parent() {
    let step = patch_id(PatchId::CheckMerge { sha: "m1".into() }, ran(true, "p2\n", ""));
    assert_eq!(
        run_args(&step).0,
        vec!["show", "-m", "--first-parent", "-p", "--format=", "m1"]
    );
    let step = patch_id(next_state(step), ran(true, "", ""));
    assert_eq!(run_args(&step).0, vec!["diff-tree", "-p", "-m", "--first-parent", "m1"]);
}

#[test]
fn patch_id_without_a_diff_is_the_commit_itself() {
    let step = patch_id(PatchId::Show { sha: "e1".into(), is_merge: false }, ran(true, "", ""));
    assert_eq!(run_args(&step).0, vec!["diff-tree", "-p", "e1^!"]);
    let step = patch_id(next_state(step), ran(true, "", ""));
    assert_eq!(finished(step), Ok("sha:e1".to_string()));
    let step = patch_id(PatchId::HashTree { sha: "e2".into() }, ran(true, "   \n", ""));
    assert_eq!(finished(step), Ok("sha:e2".to_string()));
}

#[test]
fn creating_a_branch_never_checks_anything_out() {
    let mut commands = Vec::new();
    let step = create_branch_ref_start("release/next", "main");
    commands.push(run_args(&step).0);
    let step = create_branch_ref(next_state(step), ran(true, "release/next\n", ""));
    commands.push(run_args(&step).0);
    let step = create_branch_ref(next_state(step), ran(true, "main\n", ""));
    commands.push(run_args(&step).0);
    for args in &commands {
        assert!(args[0] != "switch" && args[0] != "checkout", "{args:?}");
    }
    assert_eq!(commands[2], vec!["branch", "--", "release/next", "main"]);
}

#[test]
fn single_commands_carry_their_arguments() {
    assert_eq!(commands::switch_command("develop"), vec!["switch", "develop"]);
    assert_eq!(commands::create_branch_command("b", "main"), vec!["switch", "-c", "b", "main"]);
    assert_eq!(commands::delete_branch_command("b"), vec!["branch", "-D", "b"]);
    assert_eq!(commands::commit_exists_command("abc"), vec!["cat-file", "-e", "abc^{commit}"]);
    assert_eq!(commands::head_sha_command(), vec!["rev-parse", "HEAD"]);
    assert_eq!(commands::checked_out_branch_command(), vec!["rev-parse", "--abbrev-ref", "HEAD"]);
    assert_eq!(commands::branch_head_command("main"), vec!["rev-parse", "refs/heads/main"]);
    assert_eq!(
        commands::commits_ahead_command("dev", "main"),
        vec!["log", "--first-parent", "--reverse", "--format=%H\x1f%s\x1f%an\x1f%at\x1f%P", "main..dev"]
    );
    assert_eq!(commands::numstat_command("t", "c"), vec!["diff", "--numstat", "t..c"]);
    assert_eq!(commands::cherry_command("main", "dev"), vec!["cherry", "-v", "main", "dev"]);
    assert_eq!(
        commands::cherry_pick_in_progress_command(),
        vec!["rev-parse", "-q", "--verify", "CHERRY_PICK_HEAD"]
    );
    assert_eq!(commands::is_ancestor_command("a", "HEAD"), vec!["merge-base", "--is-ancestor", "a", "HEAD"]);
}
