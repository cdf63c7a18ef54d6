use branchgate::git::runner::{detect_backend, to_wsl_path, GitBackend};

#[test]
fn detects_modern_wsl_unc_path() {
    let backend = detect_backend(r"\\wsl.localhost\Ubuntu\home\person\project");
    assert_eq!(
        backend,
        GitBackend::Wsl {
            distro: "Ubuntu".into(),
            linux_path: "/home/person/project".into(),
        }
    );
}

#[test]
fn keeps_regular_paths_native() {
    assert_eq!(detect_backend(r"C:\Users\person\project"), GitBackend::Native);
}

#[test]
fn translates_windows_drive_path_for_wsl() {
    assert_eq!(
        to_wsl_path(r"C:\Users\person\project"),
        Some("/mnt/c/Users/person/project".into())
    );
}
