use devcontainer::workspace::{
    gitdir_from_dot_git, worktree_relatives,
    append_workspace_mount_consistency, ascend_container_path, default_remote_workspace_folder,
    derived_workspace_mount, git_worktree_common_dir_mount,
    git_worktree_common_dir_mount_for_workspace_target, join_container_path,
    lexically_normalize_path, GitWorktreeCommonDirInfo,
};

fn feature_worktree() -> GitWorktreeCommonDirInfo {
    GitWorktreeCommonDirInfo {
        git_common_dir: "/tmp/root/repo/.git".to_string(),
        relative_host_mount_folder: "worktrees/feature".to_string(),
        relative_git_common_dir: "repo/.git".to_string(),
    }
}

#[test]
fn default_remote_workspace_folder_uses_workspace_basename() {
    assert_eq!(
        default_remote_workspace_folder(Some("/tmp/project")),
        "/workspaces/project"
    );
}

#[test]
fn default_remote_workspace_folder_uses_generic_name_without_workspace() {
    assert_eq!(
        default_remote_workspace_folder(None),
        "/workspaces/workspace"
    );
    assert_eq!(
        default_remote_workspace_folder(Some("/")),
        "/workspaces/workspace"
    );
}

#[test]
fn join_container_path_appends_only_normal_relative_segments() {
    assert_eq!(
        join_container_path("/workspaces", "../repo/./file"),
        "/workspaces/repo/file"
    );
    assert_eq!(join_container_path("/", "a/b"), "/a/b");
    assert_eq!(join_container_path("/w", ""), "/w");
}

#[test]
fn ascend_container_path_clamps_at_root() {
    assert_eq!(ascend_container_path("/workspace", 2), "/");
    assert_eq!(ascend_container_path("/one/two/three", 2), "/one");
    assert_eq!(ascend_container_path("/one//two/", 0), "/one/two");
}

#[test]
fn normalize_path_collapses_current_dir_and_leading_parent_segments() {
    assert_eq!(lexically_normalize_path("../repo/./file"), "../repo/file");
    assert_eq!(
        lexically_normalize_path("/definitely/missing/../target"),
        "/definitely/target"
    );
    assert_eq!(
        lexically_normalize_path("/tmp/root/worktrees/feature/../../repo/.git"),
        "/tmp/root/repo/.git"
    );
    assert_eq!(lexically_normalize_path("/.."), "/..");
    assert_eq!(lexically_normalize_path("a/../.."), "..");
}

#[test]
fn workspace_mount_consistency_is_appended_only_off_linux() {
    let args = vec![
        "--workspace-mount-consistency".to_string(),
        "cached".to_string(),
    ];
    let mut mount = "type=bind,source=/a,target=/b".to_string();
    append_workspace_mount_consistency(&mut mount, &args, true);
    assert_eq!(mount, "type=bind,source=/a,target=/b");
    append_workspace_mount_consistency(&mut mount, &args, false);
    assert_eq!(mount, "type=bind,source=/a,target=/b,consistency=cached");
    let mut plain = "type=bind,source=/a,target=/b".to_string();
    append_workspace_mount_consistency(&mut plain, &[], false);
    assert_eq!(plain, "type=bind,source=/a,target=/b");
}

#[test]
fn git_worktree_common_dir_mount_normalizes_nonexistent_relative_gitdir_targets() {
    let (folder, additional_mount) =
        git_worktree_common_dir_mount(Some(&feature_worktree()), &[], "/workspaces/feature", true)
            .expect("additional mount");

    assert_eq!(folder, "/workspaces/worktrees/feature");
    assert_eq!(
        additional_mount,
        "type=bind,source=/tmp/root/repo/.git,target=/workspaces/repo/.git"
    );
    assert!(git_worktree_common_dir_mount(None, &[], "/workspaces/feature", true).is_none());
}

#[test]
fn git_worktree_common_dir_mount_reuses_default_container_folder_for_empty_relative_host() {
    let info = GitWorktreeCommonDirInfo {
        git_common_dir: "/tmp/root/.git".to_string(),
        relative_host_mount_folder: String::new(),
        relative_git_common_dir: ".git".to_string(),
    };
    let (container_mount_folder, additional_mount) =
        git_worktree_common_dir_mount(Some(&info), &[], "/workspaces/root", true)
            .expect("additional mount");

    assert_eq!(container_mount_folder, "/workspaces/root");
    assert_eq!(
        additional_mount,
        "type=bind,source=/tmp/root/.git,target=/workspaces/.git"
    );
}

#[test]
fn git_worktree_common_dir_mount_rebases_common_dir_for_custom_workspace_target() {
    let additional_mount = git_worktree_common_dir_mount_for_workspace_target(
        Some(&feature_worktree()),
        &[],
        "/workspace",
        true,
    )
    .expect("additional mount");

    assert_eq!(
        additional_mount,
        "type=bind,source=/tmp/root/repo/.git,target=/repo/.git"
    );
}

#[test]
fn derived_workspace_mount_uses_the_git_root_and_the_workspace_below_it() {
    let derived = derived_workspace_mount(
        "/src/repo/packages/app",
        &[],
        true,
        |_| Some("/src/repo".to_string()),
        |_| panic!("no worktree lookup without the flag"),
    )
    .expect("derived mount");

    assert_eq!(derived.host_mount_folder, "/src/repo");
    assert_eq!(derived.container_mount_folder, "/workspaces/repo");
    assert_eq!(derived.remote_workspace_folder, "/workspaces/repo/packages/app");
    assert!(derived.additional_mounts.is_empty());
}

#[test]
fn derived_workspace_mount_without_git_root_mounts_the_workspace_itself() {
    let derived = derived_workspace_mount(
        "/src/project",
        &["--mount-workspace-git-root".to_string(), "false".to_string()],
        true,
        |_| panic!("no git lookup when the git root is not mounted"),
        |_| panic!("no worktree lookup"),
    )
    .expect("derived mount");

    assert_eq!(derived.host_mount_folder, "/src/project");
    assert_eq!(derived.container_mount_folder, "/workspaces/project");
    assert_eq!(derived.remote_workspace_folder, "/workspaces/project");

    let fallback = derived_workspace_mount("/src/project", &[], true, |_| None, |_| None)
        .expect("derived mount");
    assert_eq!(fallback.host_mount_folder, "/src/project");
    assert_eq!(fallback.remote_workspace_folder, "/workspaces/project");
}

#[test]
fn derived_workspace_mount_adds_the_worktree_common_dir_when_requested() {
    let derived = derived_workspace_mount(
        "/tmp/root/worktrees/feature",
        &["--mount-git-worktree-common-dir".to_string()],
        true,
        |_| None,
        |host| {
            assert_eq!(host, "/tmp/root/worktrees/feature");
            Some(feature_worktree())
        },
    )
    .expect("derived mount");

    assert_eq!(derived.container_mount_folder, "/workspaces/worktrees/feature");
    assert_eq!(derived.remote_workspace_folder, "/workspaces/worktrees/feature");
    assert_eq!(
        derived.additional_mounts,
        vec!["type=bind,source=/tmp/root/repo/.git,target=/workspaces/repo/.git".to_string()]
    );
}

#[test]
fn gitdir_is_read_from_the_first_gitdir_line() {
    assert_eq!(
        gitdir_from_dot_git("gitdir: ../repo/.git/worktrees/feature \n").as_deref(),
        Some("../repo/.git/worktrees/feature")
    );
    assert_eq!(gitdir_from_dot_git("other\ngitdir:/abs\ngitdir: second\n").as_deref(), Some("/abs"));
    assert_eq!(gitdir_from_dot_git("no marker here\n"), None);
}

#[test]
fn worktree_relatives_are_taken_from_the_common_ancestor() {
    assert_eq!(
        worktree_relatives("/home/me/code/feature", "/home/me/code/repo/.git"),
        Some(("feature".to_string(), "repo/.git".to_string()))
    );
    assert_eq!(
        worktree_relatives("/home/me/repo/wt", "/home/me/repo/.git"),
        Some(("wt".to_string(), ".git".to_string()))
    );
    assert_eq!(worktree_relatives("/a//b/./c/", "/x"), Some(("a/b/c".to_string(), "x".to_string())));
    assert_eq!(worktree_relatives("relative/wt", "/abs/.git"), None);
}
