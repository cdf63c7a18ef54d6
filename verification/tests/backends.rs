use branchgate::git::runner::{
    configure_repo_backend, detect_backend, normalized_key, to_wsl_path, wsl_distro_result,
    BackendRegistry, CommandOutput, GitBackend, GitRunner,
};

fn args_of(runner: &GitRunner, args: &[&str]) -> (String, Vec<String>, Vec<(String, String)>) {
    let owned: Vec<String> = args.iter().map(|a| a.to_string()).collect();
    let inv = runner.invocation(&owned);
    (inv.program, inv.args, inv.envs)
}

#[test]
fn normalized_key_ignores_separators_trailing_slashes_and_case() {
    assert_eq!(normalized_key("C:/Users/Person/Project/"), r"c:\users\person\project");
    assert_eq!(normalized_key(r"C:\Users\Person\Project"), normalized_key("c:/users/person/project//"));
}

#[test]
fn detects_legacy_wsl_share_and_unc_prefix() {
    assert_eq!(
        detect_backend(r"\\wsl$\Debian\srv\app\"),
        GitBackend::Wsl { distro: "Debian".into(), linux_path: "/srv/app".into() }
    );
    assert_eq!(
        detect_backend(r"\\?\UNC\wsl.localhost\Ubuntu\home\me"),
        GitBackend::Wsl { distro: "Ubuntu".into(), linux_path: "/home/me".into() }
    );
    assert_eq!(detect_backend(r"\\wsl.localhost\"), GitBackend::Native);
    assert_eq!(detect_backend("/home/me/project"), GitBackend::Native);
}

#[test]
fn to_wsl_path_keeps_wsl_paths_and_refuses_other_paths() {
    assert_eq!(to_wsl_path(r"\\wsl.localhost\Ubuntu\home\me"), Some("/home/me".into()));
    assert_eq!(to_wsl_path("D:/data"), Some("/mnt/d/data".into()));
    assert_eq!(to_wsl_path("relative/path"), None);
}

#[test]
fn native_runner_runs_git_in_the_repository_without_prompts() {
    let registry = BackendRegistry::new();
    let runner = GitRunner::for_repo(&registry, "/home/me/project");
    let (program, args, envs) = args_of(&runner, &["status", "--porcelain"]);
    assert_eq!(program, "git");
    assert_eq!(args, vec!["-C", "/home/me/project", "status", "--porcelain"]);
    assert_eq!(
        envs,
        vec![
            ("GIT_TERMINAL_PROMPT".to_string(), "0".to_string()),
            ("GIT_EDITOR".to_string(), "true".to_string()),
            ("GIT_SEQUENCE_EDITOR".to_string(), "true".to_string()),
            ("GIT_MERGE_AUTOEDIT".to_string(), "no".to_string()),
        ]
    );
}

#[test]
fn wsl_runner_goes_through_wsl_exe() {
    let registry = BackendRegistry::new();
    let runner = GitRunner::for_repo(&registry, r"\\wsl.localhost\Ubuntu\home\me\repo");
    let (program, args, envs) = args_of(&runner, &["log"]);
    assert_eq!(program, "wsl.exe");
    assert_eq!(
        args,
        vec![
            "-d", "Ubuntu", "--exec", "env", "GIT_TERMINAL_PROMPT=0", "GIT_EDITOR=true",
            "GIT_SEQUENCE_EDITOR=true", "GIT_MERGE_AUTOEDIT=no", "git", "-C", "/home/me/repo", "log",
        ]
    );
    assert!(envs.is_empty());
}

#[test]
fn configured_wsl_backend_applies_to_a_drive_path() {
    let mut registry = BackendRegistry::new();
    configure_repo_backend(&mut registry, r"C:\Work\Repo\", "wsl", Some(" Ubuntu "));
    let runner = GitRunner::for_repo(&registry, "c:/work/repo");
    let (program, args, _) = args_of(&runner, &["status"]);
    assert_eq!(program, "wsl.exe");
    assert_eq!(args[1], "Ubuntu");
    assert_eq!(args[10], "/mnt/c/work/repo");
}

#[test]
fn configured_native_backend_overrides_a_wsl_path_and_later_choice_wins() {
    let mut registry = BackendRegistry::new();
    let path = r"\\wsl.localhost\Ubuntu\home\me\repo";
    configure_repo_backend(&mut registry, path, "wsl", Some("Ubuntu"));
    configure_repo_backend(&mut registry, path, "native", None);
    let (program, args, _) = args_of(&GitRunner::for_repo(&registry, path), &["status"]);
    assert_eq!(program, "git");
    assert_eq!(args[1], path);
}

#[test]
fn unusable_configured_backend_falls_back_to_the_path() {
    let mut registry = BackendRegistry::new();
    configure_repo_backend(&mut registry, "/srv/repo", "wsl", Some("   "));
    let (program, _, _) = args_of(&GitRunner::for_repo(&registry, "/srv/repo"), &["status"]);
    assert_eq!(program, "git");
    configure_repo_backend(&mut registry, "/srv/repo", "powershell", None);
    let (program, _, _) = args_of(&GitRunner::for_repo(&registry, "/srv/repo"), &["status"]);
    assert_eq!(program, "git");
}

#[test]
fn wsl_distro_check_explains_failures() {
    let out = |success: bool, stderr: &str| CommandOutput { success, stdout: String::new(), stderr: stderr.into() };
    assert_eq!(wsl_distro_result(&out(true, ""), "Ubuntu"), Ok(()));
    assert_eq!(
        wsl_distro_result(&out(false, " \n"), "Ubuntu"),
        Err("Could not run Git in WSL distribution 'Ubuntu'".into())
    );
    assert_eq!(wsl_distro_result(&out(false, " no such distro \n"), "Debian"), Err("no such distro".into()));
}
