//! Connecting local repositories and defining pipelines on them.

use vstd::prelude::*;

use crate::git::runner::{opt_text, strs};
use crate::text::{chars_of, contains_chars, has_infix, trim, trim_str};

verus! {

/// What inspecting a folder found.
#[derive(Debug)]
pub struct LocalRepoInfo {
    pub path: String,
    pub name: String,
    pub branches: Vec<String>,
    pub default_branch: Option<String>,
    pub existing_repo_id: Option<i64>,
}

/// A request to connect a local repository with a new pipeline.
#[derive(Debug)]
pub struct ConnectLocalRequest {
    pub local_path: String,
    pub pipeline_name: String,
    pub source_branch: String,
    pub target_branch: String,
    pub repo_id: Option<i64>,
}

/// A connected repository as listed in the settings.
#[derive(Debug)]
pub struct ConnectedRepo {
    pub id: i64,
    pub kind: String,
    pub owner: Option<String>,
    pub name: Option<String>,
    pub local_path: Option<String>,
    pub working_copy_mode: String,
    pub default_branch: Option<String>,
    pub default_merge_strategy: String,
    pub git_backend: String,
    pub wsl_distro: Option<String>,
    pub created_at: i64,
    pub pipeline_count: i64,
}

/// A pipeline as listed on the dashboard.
#[derive(Debug)]
pub struct PipelineRow {
    pub id: i64,
    pub name: String,
    pub source_branch: String,
    pub target_branch: String,
    pub repo_owner: Option<String>,
    pub repo_name: Option<String>,
    pub pending_count: i64,
}

/// Facts about the running application.
#[derive(Debug)]
pub struct AppInfo {
    pub name: String,
    pub version: String,
    pub platform: String,
    pub db_ready: bool,
}

pub fn app_info(platform: &str, db_ready: bool) -> (info: AppInfo)
    ensures
        info.name@ == "Branchgate"@,
        info.version@ == "beta"@,
        info.platform@ == platform@,
        info.db_ready == db_ready,
{
    AppInfo {
        name: String::from_str("Branchgate"),
        version: String::from_str("beta"),
        platform: String::from_str(platform),
        db_ready,
    }
}

/// A pipeline needs a name that is not blank and two different branches.
pub fn validate_pipeline_request(request: &ConnectLocalRequest) -> (r: Result<(), String>)
    ensures
        trim(request.pipeline_name@).len() == 0 ==> (r matches Err(e) && e@
            == "Pipeline name is required"@),
        trim(request.pipeline_name@).len() > 0 && request.source_branch@ == request.target_branch@
            ==> (r matches Err(e) && e@ == "Source and target branches must be different"@),
        trim(request.pipeline_name@).len() > 0 && request.source_branch@ != request.target_branch@
            ==> r is Ok,
{
    if trim_str(request.pipeline_name.as_str()).len() == 0 {
        return Err(String::from_str("Pipeline name is required"));
    }
    if request.source_branch == request.target_branch {
        return Err(String::from_str("Source and target branches must be different"));
    }
    Ok(())
}

fn contains_text(v: &Vec<String>, name: &str) -> (r: bool)
    ensures
        r == strs(v@).contains(name@),
{
    let n = String::from_str(name);
    let mut i: usize = 0;
    while i < v.len()
        invariant
            i <= v.len(),
            n@ == name@,
            forall|j: int| 0 <= j < i ==> v@[j]@ != name@,
        decreases v.len() - i,
    {
        if v[i] == n {
            assert(strs(v@)[i as int] == name@);
            return true;
        }
        i += 1;
    }
    assert forall|j: int| 0 <= j < v.len() implies strs(v@)[j] != name@ by {
        assert(strs(v@)[j] == v@[j]@);
    }
    false
}

/// Both branches of a new pipeline must exist among the repository's branches.
pub fn validate_branches(branches: &Vec<String>, source: &str, target: &str) -> (r: Result<(), String>)
    ensures
        !strs(branches@).contains(source@) ==> (r matches Err(e) && e@ == "Source branch '"@
            + source@ + "' not found in repository"@),
        strs(branches@).contains(source@) && !strs(branches@).contains(target@) ==> (r matches Err(
            e,
        ) && e@ == "Target branch '"@ + target@ + "' not found in repository"@),
        strs(branches@).contains(source@) && strs(branches@).contains(target@) ==> r is Ok,
{
    if !contains_text(branches, source) {
        return Err(crate::text::concat3("Source branch '", source, "' not found in repository"));
    }
    if !contains_text(branches, target) {
        return Err(crate::text::concat3("Target branch '", target, "' not found in repository"));
    }
    Ok(())
}

/// What inspecting a repository shows: its branches, and the checked-out
/// branch as the default when it is one of them. A repository without local
/// branches is refused.
pub fn local_repo_info(
    path: String,
    name: String,
    branches: Vec<String>,
    current: Option<String>,
    existing_repo_id: Option<i64>,
) -> (r: Result<LocalRepoInfo, String>)
    ensures
        branches@.len() == 0 ==> (r matches Err(e) && e@
            == "No local branches found in this repository"@),
        branches@.len() > 0 ==> (r matches Ok(info) && {
            &&& info.path == path
            &&& info.name == name
            &&& info.branches == branches
            &&& info.existing_repo_id == existing_repo_id
            &&& opt_text(info.default_branch) == (match current {
                Some(b) => if strs(branches@).contains(b@) {
                    Some(b@)
                } else {
                    None
                },
                None => None,
            })
        }),
{
    if branches.len() == 0 {
        return Err(String::from_str("No local branches found in this repository"));
    }
    let default_branch = match current {
        Some(b) => if contains_text(&branches, b.as_str()) {
            Some(b)
        } else {
            None
        },
        None => None,
    };
    Ok(LocalRepoInfo { path, name, branches, default_branch, existing_repo_id })
}

/// A pipeline added to an already connected repository must be for the same
/// folder.
pub fn check_connected_path(stored: Option<String>, canonical: &str) -> (r: Result<(), String>)
    ensures
        stored is None ==> (r matches Err(e) && e@ == "Repository not found"@),
        stored matches Some(s) ==> (r is Ok <==> s@ == canonical@),
        stored matches Some(s) ==> (r matches Err(e) ==> e@
            == "Selected repository path does not match the connected repo"@),
{
    match stored {
        None => Err(String::from_str("Repository not found")),
        Some(s) => if s == String::from_str(canonical) {
            Ok(())
        } else {
            Err(String::from_str("Selected repository path does not match the connected repo"))
        },
    }
}

/// The default branch recorded for a newly connected repository: the
/// checked-out branch, else `main`.
pub fn default_branch_name(current: Option<String>) -> (b: String)
    ensures
        current matches Some(c) ==> b == c,
        current is None ==> b@ == "main"@,
{
    match current {
        Some(c) => c,
        None => String::from_str("main"),
    }
}

/// The message for a pipeline that could not be saved: a clash with an
/// existing pipeline of the same branches is explained, any other error is
/// shown as the database gave it.
pub fn pipeline_save_error(db_error: &str) -> (m: String)
    ensures
        has_infix(db_error@, "UNIQUE"@) ==> m@
            == "A pipeline with this source and target branch already exists for this repo"@,
        !has_infix(db_error@, "UNIQUE"@) ==> m@ == db_error@,
{
    let e = chars_of(db_error);
    let u = chars_of("UNIQUE");
    if contains_chars(e.as_slice(), u.as_slice()) {
        String::from_str("A pipeline with this source and target branch already exists for this repo")
    } else {
        String::from_str(db_error)
    }
}

/// A pipeline with a promotion in progress cannot be deleted.
pub fn check_pipeline_deletable(active_run_count: i64) -> (r: Result<(), String>)
    ensures
        r is Ok <==> active_run_count <= 0,
        r matches Err(e) ==> e@ == "Abort the active promotion before deleting this pipeline"@,
{
    if active_run_count > 0 {
        Err(String::from_str("Abort the active promotion before deleting this pipeline"))
    } else {
        Ok(())
    }
}

/// Deleting a pipeline must have retired one that was still active.
pub fn check_pipeline_deleted(rows_affected: u64) -> (r: Result<(), String>)
    ensures
        r is Ok <==> rows_affected > 0,
        r matches Err(e) ==> e@ == "Pipeline not found or already deleted"@,
{
    if rows_affected == 0 {
        Err(String::from_str("Pipeline not found or already deleted"))
    } else {
        Ok(())
    }
}

} // verus!
