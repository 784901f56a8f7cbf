use jfc::landlock::{is_landlock_release, SandboxPolicy, SandboxResult};
use jfc::paths::is_same_path;

#[test]
fn test_policy_allows_writable_path() {
    let policy = SandboxPolicy::new().allow_write("/tmp/jfc-worktree");

    assert!(policy.is_path_allowed("/tmp/jfc-worktree/src/main.rs", true));
    assert!(policy.is_path_allowed("/tmp/jfc-worktree/src/main.rs", false));
}

#[test]
fn test_policy_denies_outside_path() {
    let policy = SandboxPolicy::new().allow_write("/tmp/jfc-worktree");

    assert!(!policy.is_path_allowed("/home/user/.ssh/id_rsa", false));
    assert!(!policy.is_path_allowed("/home/user/.ssh/id_rsa", true));
}

#[test]
fn test_policy_read_only_blocks_write() {
    let policy = SandboxPolicy::new().allow_read("/usr");

    assert!(policy.is_path_allowed("/usr/bin/rustc", false));
    assert!(!policy.is_path_allowed("/usr/bin/rustc", true));
}

#[test]
fn test_economy_solver_policy() {
    let policy = SandboxPolicy::economy_solver("/tmp/jfc-worktree");

    assert!(policy.is_path_allowed("/tmp/jfc-worktree/Cargo.toml", true));
    assert!(policy.is_path_allowed("/usr/bin/cargo", false));
    assert!(!policy.is_path_allowed("/var/lib/private", false));
    assert!(policy.is_network_blocked());
    assert!(policy.exec_allowlist.iter().any(|path| is_same_path(path, "/usr/bin")));
    assert!(policy.exec_allowlist.iter().any(|path| is_same_path(path, "/usr/local/bin")));
}

#[test]
fn test_network_blocked() {
    let policy = SandboxPolicy::new().block_network();

    assert!(policy.is_network_blocked());
}

#[test]
fn paths_are_compared_by_components() {
    let policy = SandboxPolicy::new().allow_write("/tmp/jfc-worktree");
    assert!(!policy.is_path_allowed("/tmp/jfc-worktree2/x", true));
    assert!(policy.is_path_allowed("/tmp//jfc-worktree/./x", true));
    assert!(policy.is_path_allowed("/tmp/jfc-worktree", true));
}

#[test]
fn a_policy_applies_from_release_5_13_on() {
    assert!(is_landlock_release("5.13.0-generic"));
    assert!(is_landlock_release("6.1.0"));
    assert!(!is_landlock_release("5.12.9"));
    assert!(!is_landlock_release("4.19.0"));
    let policy = SandboxPolicy::new();
    assert_eq!(policy.outcome_on(None), SandboxResult::Unsupported);
    assert_eq!(policy.outcome_on(Some("5.4.0")), SandboxResult::Unsupported);
}
