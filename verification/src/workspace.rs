//! Workspace folders inside the container: their default names, paths joined
//! and climbed in POSIX form, lexical normalization, and the consistency option
//! of workspace mounts.

use vstd::prelude::*;
use crate::json::{get_str, get_str_exec, json_get, json_str, JsonValue, JsonView};
use crate::options::{bool_option_from, option_value, opt_str, spec_option_value};
use crate::text::{
    ends_with, from_chars, is, join, join_chars, path_components, path_components_chars,
    path_file_name, path_file_name_chars, push_all, push_str, slice_of, split, split_chars,
    starts_with, str_views, to_chars, views, lines, lines_chars, strip_prefix, strip_prefix_str, trim, trim_chars,
};

verus! {

/// `/workspaces/` and the folder's name, or `workspace` without one.
pub open spec fn spec_default_remote_workspace_folder(workspace_folder: Option<Seq<char>>) -> Seq<char> {
    let basename = match workspace_folder {
        Some(w) => match path_file_name(w) {
            Some(n) => n,
            None => "workspace"@,
        },
        None => "workspace"@,
    };
    "/workspaces/"@ + basename
}

pub fn default_remote_workspace_folder(workspace_folder: Option<&str>) -> (r: String)
    ensures
        r@ == spec_default_remote_workspace_folder(
            match workspace_folder {
                Some(w) => Some(w@),
                None => None,
            },
        ),
{
    let basename = match workspace_folder {
        Some(w) => match path_file_name_chars(&to_chars(w)) {
            Some(n) => n,
            None => to_chars("workspace"),
        },
        None => to_chars("workspace"),
    };
    let mut out = to_chars("/workspaces/");
    push_all(&mut out, &basename);
    from_chars(&out)
}

fn ends_with_slash(v: &Vec<char>) -> (r: bool)
    ensures
        r == ends_with(v@, "/"@),
{
    proof {
        reveal_strlit("/");
        assert("/"@ =~= seq!['/']);
        if v.len() > 0 {
            assert(v@.skip(v.len() - 1) =~= seq![v@[v.len() - 1]]);
            assert(v@.skip(v.len() - 1)[0] == v@[v.len() - 1]);
        }
    }
    v.len() > 0 && v[v.len() - 1] == '/'
}

/// A segment appended to a container path, with a `/` between them unless the
/// path ends with one.
pub open spec fn append_segment(path: Seq<char>, segment: Seq<char>) -> Seq<char> {
    if ends_with(path, "/"@) {
        path + segment
    } else {
        path + "/"@ + segment
    }
}

pub open spec fn append_segments(path: Seq<char>, segments: Seq<Seq<char>>) -> Seq<char>
    decreases segments.len(),
{
    if segments.len() == 0 {
        path
    } else {
        append_segment(append_segments(path, segments.drop_last()), segments.last())
    }
}

/// The named components of a path: `..` and `.` are not names.
pub open spec fn normal_components(path: Seq<char>) -> Seq<Seq<char>> {
    path_components(path).filter(|c: Seq<char>| c != seq!['.', '.'])
}

/// The named components of `relative` appended to `base`; `..`, `.` and a root
/// are left out.
pub open spec fn spec_join_container_path(base: Seq<char>, relative: Seq<char>) -> Seq<char> {
    append_segments(base, normal_components(relative))
}

pub fn join_container_path(base: &str, relative: &str) -> (r: String)
    ensures
        r@ == spec_join_container_path(base@, relative@),
{
    let comps = path_components_chars(&to_chars(relative));
    let ghost cv = views(comps@);
    let mut path = to_chars(base);
    let ghost kept: Seq<Seq<char>> = seq![];
    let mut k: usize = 0;
    assert(cv.take(0).filter(|c: Seq<char>| c != seq!['.', '.']) =~= Seq::<Seq<char>>::empty());
    while k < comps.len()
        invariant
            k <= comps.len(),
            cv == views(comps@),
            path@ == append_segments(base@, cv.take(k as int).filter(|c: Seq<char>| c != seq!['.', '.'])),
        decreases comps.len() - k,
    {
        assert(cv[k as int] == comps@[k as int]@);
        assert(cv.take(k + 1).drop_last() =~= cv.take(k as int));
        assert(cv.take(k + 1).last() == cv[k as int]);
        let parent = comps[k].len() == 2 && comps[k][0] == '.' && comps[k][1] == '.';
        proof {
            reveal(Seq::filter);
            assert(parent == (cv[k as int] == seq!['.', '.'])) by {
                if cv[k as int] == seq!['.', '.'] {
                    assert(cv[k as int].len() == 2 && cv[k as int][0] == '.' && cv[k as int][1] == '.');
                }
                if parent {
                    assert(cv[k as int] =~= seq!['.', '.']);
                }
            }
        }
        let ghost f0 = cv.take(k as int).filter(|c: Seq<char>| c != seq!['.', '.']);
        let ghost f1 = cv.take(k + 1).filter(|c: Seq<char>| c != seq!['.', '.']);
        if !parent {
            let ghost before = path@;
            if !ends_with_slash(&path) {
                push_str(&mut path, "/");
            }
            push_all(&mut path, &comps[k]);
            assert(path@ == append_segment(before, cv[k as int]));
            assert(f1 == f0.push(cv[k as int]));
            assert(f1.drop_last() =~= f0);
            assert(f1.last() == cv[k as int]);
        } else {
            assert(f1 == f0);
        }
        k = k + 1;
    }
    assert(cv.take(k as int) =~= cv);
    from_chars(&path)
}

/// The non-empty `/`-separated pieces of a path.
pub open spec fn nonempty_pieces(path: Seq<char>) -> Seq<Seq<char>> {
    split(path, '/').filter(|s: Seq<char>| s.len() > 0)
}

/// A container path climbed `segments` levels, never above the root.
pub open spec fn spec_ascend_container_path(path: Seq<char>, segments: nat) -> Seq<char> {
    let parts = nonempty_pieces(path);
    if segments >= parts.len() {
        "/"@
    } else {
        "/"@ + join(parts.take(parts.len() - segments), "/"@)
    }
}

fn nonempty_pieces_chars(path: &Vec<char>) -> (r: Vec<Vec<char>>)
    ensures
        views(r@) == nonempty_pieces(path@),
{
    let parts = split_chars(path, '/');
    let ghost pv = views(parts@);
    let mut r: Vec<Vec<char>> = Vec::new();
    let mut k: usize = 0;
    assert(pv.take(0).filter(|s: Seq<char>| s.len() > 0) =~= Seq::<Seq<char>>::empty());
    while k < parts.len()
        invariant
            k <= parts.len(),
            pv == views(parts@),
            views(r@) == pv.take(k as int).filter(|s: Seq<char>| s.len() > 0),
        decreases parts.len() - k,
    {
        assert(pv[k as int] == parts@[k as int]@);
        assert(pv.take(k + 1).drop_last() =~= pv.take(k as int));
        assert(pv.take(k + 1).last() == pv[k as int]);
        proof {
            reveal(Seq::filter);
        }
        if parts[k].len() > 0 {
            let c = slice_of(&parts[k], 0, parts[k].len());
            assert(c@ =~= pv[k as int]);
            proof {
                crate::text::lemma_views_push_pub(r@, c);
            }
            r.push(c);
        }
        k = k + 1;
    }
    assert(pv.take(k as int) =~= pv);
    r
}

pub fn ascend_container_path(path: &str, segments: usize) -> (r: String)
    ensures
        r@ == spec_ascend_container_path(path@, segments as nat),
{
    let parts = nonempty_pieces_chars(&to_chars(path));
    let ghost pv = views(parts@);
    assert(pv.len() == parts.len());
    if segments >= parts.len() {
        return from_chars(&to_chars("/"));
    }
    let keep = parts.len() - segments;
    let mut kept: Vec<Vec<char>> = Vec::new();
    let mut k: usize = 0;
    while k < keep
        invariant
            k <= keep,
            keep <= parts.len(),
            pv == views(parts@),
            views(kept@) == pv.take(k as int),
        decreases keep - k,
    {
        let c = slice_of(&parts[k], 0, parts[k].len());
        assert(c@ =~= pv[k as int]);
        proof {
            crate::text::lemma_views_push_pub(kept@, c);
        }
        kept.push(c);
        assert(pv.take(k + 1) =~= pv.take(k as int).push(pv[k as int]));
        k = k + 1;
    }
    let mut out = to_chars("/");
    let joined = join_chars(&kept, "/");
    push_all(&mut out, &joined);
    from_chars(&out)
}

/// The components of a POSIX path as `Path::components` yields them: `/` for
/// the root, `.` for a leading current folder, `..` and the names; empty pieces
/// and inner `.` pieces are not components.
pub open spec fn std_components(path: Seq<char>) -> Seq<Seq<char>> {
    let rooted = starts_with(path, "/"@);
    (if rooted {
        seq!["/"@]
    } else {
        seq![]
    }) + (if !rooted && (path == "."@ || starts_with(path, "./"@)) {
        seq!["."@]
    } else {
        seq![]
    }) + path_components(path)
}

/// A path being built by pushing and popping components: whether it starts at
/// the root, and its components after the root.
pub open spec fn normalize_step(state: (bool, Seq<Seq<char>>), component: Seq<char>) -> (bool, Seq<Seq<char>>) {
    if component == "/"@ {
        (true, seq![])
    } else if component == "."@ {
        state
    } else if component == ".."@ {
        if state.1.len() > 0 {
            (state.0, state.1.drop_last())
        } else {
            (state.0, state.1.push(component))
        }
    } else {
        (state.0, state.1.push(component))
    }
}

pub open spec fn normalize_fold(components: Seq<Seq<char>>) -> (bool, Seq<Seq<char>>)
    decreases components.len(),
{
    if components.len() == 0 {
        (false, seq![])
    } else {
        normalize_step(normalize_fold(components.drop_last()), components.last())
    }
}

/// A path with `.` dropped and each `..` removing the component before it (or
/// kept when there is none), as pushing onto and popping from a `PathBuf` does.
pub open spec fn spec_lexically_normalize_path(path: Seq<char>) -> Seq<char> {
    let state = normalize_fold(std_components(path));
    if state.0 {
        "/"@ + join(state.1, "/"@)
    } else {
        join(state.1, "/"@)
    }
}

fn std_components_chars(path: &Vec<char>) -> (r: Vec<Vec<char>>)
    ensures
        views(r@) == std_components(path@),
{
    proof {
        reveal_strlit("/");
        reveal_strlit(".");
        reveal_strlit("./");
        assert("/"@ =~= seq!['/']);
        assert("."@ =~= seq!['.']);
        assert("./"@ =~= seq!['.', '/']);
        if path.len() > 0 {
            assert(path@.take(1) =~= seq![path@[0]]);
            assert(path@.take(1)[0] == path@[0]);
        }
        if path.len() > 1 {
            assert(path@.take(2) =~= seq![path@[0], path@[1]]);
            assert(path@.take(2)[0] == path@[0]);
            assert(path@.take(2)[1] == path@[1]);
        }
        if path.len() == 1 {
            assert(path@ == "."@ <==> path@[0] == '.') by {
                if path@[0] == '.' {
                    assert(path@ =~= seq!['.']);
                }
            }
        }
    }
    let rooted = path.len() > 0 && path[0] == '/';
    assert(rooted == starts_with(path@, "/"@));
    let cur = !rooted && ((path.len() == 1 && path[0] == '.') || (path.len() > 1 && path[0] == '.' && path[1] == '/'));
    assert(cur == (!rooted && (path@ == "."@ || starts_with(path@, "./"@))));
    let mut r: Vec<Vec<char>> = Vec::new();
    if rooted {
        let c = to_chars("/");
        proof {
            crate::text::lemma_views_push_pub(r@, c);
        }
        r.push(c);
    }
    if cur {
        let c = to_chars(".");
        proof {
            crate::text::lemma_views_push_pub(r@, c);
        }
        r.push(c);
    }
    let ghost head = views(r@);
    let comps = path_components_chars(path);
    let ghost cv = views(comps@);
    let mut k: usize = 0;
    while k < comps.len()
        invariant
            k <= comps.len(),
            cv == views(comps@),
            views(r@) == head + cv.take(k as int),
        decreases comps.len() - k,
    {
        let c = slice_of(&comps[k], 0, comps[k].len());
        assert(c@ =~= cv[k as int]);
        proof {
            crate::text::lemma_views_push_pub(r@, c);
        }
        r.push(c);
        assert(head + cv.take(k + 1) =~= (head + cv.take(k as int)).push(cv[k as int]));
        k = k + 1;
    }
    assert(cv.take(k as int) =~= cv);
    assert(views(r@) =~= std_components(path@));
    r
}

pub fn lexically_normalize_path(path: &str) -> (r: String)
    ensures
        r@ == spec_lexically_normalize_path(path@),
{
    let comps = std_components_chars(&to_chars(path));
    let ghost cv = views(comps@);
    let mut absolute = false;
    let mut normalized: Vec<Vec<char>> = Vec::new();
    let mut k: usize = 0;
    proof {
        reveal_strlit("/");
        reveal_strlit(".");
        reveal_strlit("..");
        assert("/"@ =~= seq!['/']);
        assert("."@ =~= seq!['.']);
        assert(".."@ =~= seq!['.', '.']);
    }
    assert(cv.take(0) =~= Seq::<Seq<char>>::empty());
    while k < comps.len()
        invariant
            k <= comps.len(),
            cv == views(comps@),
            "/"@ == seq!['/'],
            "."@ == seq!['.'],
            ".."@ == seq!['.', '.'],
            (absolute, views(normalized@)) == normalize_fold(cv.take(k as int)),
        decreases comps.len() - k,
    {
        assert(cv[k as int] == comps@[k as int]@);
        assert(cv.take(k + 1).drop_last() =~= cv.take(k as int));
        assert(cv.take(k + 1).last() == cv[k as int]);
        let c = &comps[k];
        let is_root = c.len() == 1 && c[0] == '/';
        let is_cur = c.len() == 1 && c[0] == '.';
        let is_parent = c.len() == 2 && c[0] == '.' && c[1] == '.';
        proof {
            if c@.len() == 1 {
                assert(c@ =~= seq![c@[0]]);
            }
            if c@.len() == 2 {
                assert(c@ =~= seq![c@[0], c@[1]]);
            }
            assert(is_root == (c@ == "/"@)) by {
                if c@ == "/"@ {
                    assert(c@.len() == 1 && c@[0] == '/');
                }
            }
            assert(is_cur == (c@ == "."@)) by {
                if c@ == "."@ {
                    assert(c@.len() == 1 && c@[0] == '.');
                }
            }
            assert(is_parent == (c@ == ".."@)) by {
                if c@ == ".."@ {
                    assert(c@.len() == 2 && c@[0] == '.' && c@[1] == '.');
                }
            }
        }
        if is_root {
            absolute = true;
            normalized = Vec::new();
            assert(views(normalized@) =~= Seq::<Seq<char>>::empty());
        } else if is_cur {
        } else if is_parent && normalized.len() > 0 {
            let ghost before = normalized@;
            normalized.pop();
            assert(views(normalized@) =~= views(before).drop_last());
        } else {
            let d = slice_of(c, 0, c.len());
            assert(d@ =~= c@);
            proof {
                crate::text::lemma_views_push_pub(normalized@, d);
            }
            normalized.push(d);
        }
        k = k + 1;
    }
    assert(cv.take(k as int) =~= cv);
    let joined = join_chars(&normalized, "/");
    if absolute {
        let mut out = to_chars("/");
        push_all(&mut out, &joined);
        from_chars(&out)
    } else {
        from_chars(&joined)
    }
}

/// A workspace mount with `,consistency=<value>` appended when
/// `--workspace-mount-consistency` is given, except on Linux hosts, where the
/// option has no effect.
pub open spec fn spec_append_workspace_mount_consistency(mount: Seq<char>, args: Seq<Seq<char>>, host_is_linux: bool) -> Seq<char> {
    if host_is_linux {
        mount
    } else {
        match spec_option_value(args, "--workspace-mount-consistency"@) {
            Some(c) => mount + ",consistency="@ + c,
            None => mount,
        }
    }
}

pub fn append_workspace_mount_consistency(mount: &mut String, args: &[String], host_is_linux: bool)
    ensures
        final(mount)@ == spec_append_workspace_mount_consistency(old(mount)@, str_views(args@), host_is_linux),
{
    if host_is_linux {
        return;
    }
    match option_value(args, "--workspace-mount-consistency") {
        Some(c) => {
            let mut m = to_chars(mount.as_str());
            push_str(&mut m, ",consistency=");
            push_str(&mut m, c.as_str());
            *mount = from_chars(&m);
        },
        None => {},
    }
}


/// A bind mount of `source` at `target`.
pub open spec fn spec_bind_mount(source: Seq<char>, target: Seq<char>) -> Seq<char> {
    "type=bind,source="@ + source + ",target="@ + target
}

fn bind_mount(source: &str, target: &str) -> (r: String)
    ensures
        r@ == spec_bind_mount(source@, target@),
{
    let mut m = to_chars("type=bind,source=");
    push_str(&mut m, source);
    push_str(&mut m, ",target=");
    push_str(&mut m, target);
    from_chars(&m)
}

/// Where a git worktree's common folder lies relative to the folder that holds
/// both it and the mounted folder: that folder's common folder on the host, and
/// the mounted folder and the common folder relative to it.
pub struct GitWorktreeCommonDirInfo {
    pub git_common_dir: String,
    pub relative_host_mount_folder: String,
    pub relative_git_common_dir: String,
}

/// The container folder for the worktree (the default one when the worktree is
/// that folder itself, else the worktree's path under `/workspaces`), and the
/// mount of the common folder at its path under `/workspaces`.
pub open spec fn spec_git_worktree_common_dir_mount(
    git_common_dir: Seq<char>,
    relative_host_mount_folder: Seq<char>,
    relative_git_common_dir: Seq<char>,
    args: Seq<Seq<char>>,
    default_container_mount_folder: Seq<char>,
    host_is_linux: bool,
) -> (Seq<char>, Seq<char>) {
    let container_mount_folder = if std_components(relative_host_mount_folder).len() == 0 {
        default_container_mount_folder
    } else {
        spec_join_container_path("/workspaces"@, relative_host_mount_folder)
    };
    let target = spec_join_container_path("/workspaces"@, relative_git_common_dir);
    (
        container_mount_folder,
        spec_append_workspace_mount_consistency(spec_bind_mount(git_common_dir, target), args, host_is_linux),
    )
}

pub fn git_worktree_common_dir_mount(
    info: Option<&GitWorktreeCommonDirInfo>,
    args: &[String],
    default_container_mount_folder: &str,
    host_is_linux: bool,
) -> (r: Option<(String, String)>)
    ensures
        match info {
            None => r is None,
            Some(i) => match r {
                Some((folder, mount)) => (folder@, mount@) == spec_git_worktree_common_dir_mount(
                    i.git_common_dir@,
                    i.relative_host_mount_folder@,
                    i.relative_git_common_dir@,
                    str_views(args@),
                    default_container_mount_folder@,
                    host_is_linux,
                ),
                None => false,
            },
        },
{
    let info = match info {
        None => {
            return None;
        },
        Some(i) => i,
    };
    let host_components = std_components_chars(&to_chars(info.relative_host_mount_folder.as_str()));
    let container_mount_folder = if host_components.len() == 0 {
        from_chars(&to_chars(default_container_mount_folder))
    } else {
        join_container_path("/workspaces", info.relative_host_mount_folder.as_str())
    };
    let target = join_container_path("/workspaces", info.relative_git_common_dir.as_str());
    let mut mount = bind_mount(info.git_common_dir.as_str(), target.as_str());
    append_workspace_mount_consistency(&mut mount, args, host_is_linux);
    Some((container_mount_folder, mount))
}

/// The mount of the common folder when the workspace is mounted at a folder of
/// the user's choice: that folder climbed once per component of the mounted
/// folder's relative path, then the common folder's relative path.
pub open spec fn spec_git_worktree_common_dir_mount_for_workspace_target(
    git_common_dir: Seq<char>,
    relative_host_mount_folder: Seq<char>,
    relative_git_common_dir: Seq<char>,
    args: Seq<Seq<char>>,
    container_workspace_folder: Seq<char>,
    host_is_linux: bool,
) -> Seq<char> {
    let base = spec_ascend_container_path(container_workspace_folder, std_components(relative_host_mount_folder).len());
    let target = spec_join_container_path(base, relative_git_common_dir);
    spec_append_workspace_mount_consistency(spec_bind_mount(git_common_dir, target), args, host_is_linux)
}

pub fn git_worktree_common_dir_mount_for_workspace_target(
    info: Option<&GitWorktreeCommonDirInfo>,
    args: &[String],
    container_workspace_folder: &str,
    host_is_linux: bool,
) -> (r: Option<String>)
    ensures
        match info {
            None => r is None,
            Some(i) => r is Some && r->0@ == spec_git_worktree_common_dir_mount_for_workspace_target(
                i.git_common_dir@,
                i.relative_host_mount_folder@,
                i.relative_git_common_dir@,
                str_views(args@),
                container_workspace_folder@,
                host_is_linux,
            ),
        },
{
    let info = match info {
        None => {
            return None;
        },
        Some(i) => i,
    };
    let host_components = std_components_chars(&to_chars(info.relative_host_mount_folder.as_str()));
    assert(views(host_components@).len() == host_components@.len());
    let base = ascend_container_path(container_workspace_folder, host_components.len());
    let target = join_container_path(base.as_str(), info.relative_git_common_dir.as_str());
    let mut mount = bind_mount(info.git_common_dir.as_str(), target.as_str());
    append_workspace_mount_consistency(&mut mount, args, host_is_linux);
    Some(mount)
}


/// What the workspace mount is made of: the host folder mounted, where it is
/// mounted, the folder to work in, and further mounts it needs.
pub struct DerivedWorkspaceMount {
    pub host_mount_folder: String,
    pub container_mount_folder: String,
    pub remote_workspace_folder: String,
    pub additional_mounts: Vec<String>,
}

pub struct DerivedWorkspaceMountView {
    pub host_mount_folder: Seq<char>,
    pub container_mount_folder: Seq<char>,
    pub remote_workspace_folder: Seq<char>,
    pub additional_mounts: Seq<Seq<char>>,
}

impl View for DerivedWorkspaceMount {
    type V = DerivedWorkspaceMountView;

    open spec fn view(&self) -> DerivedWorkspaceMountView {
        DerivedWorkspaceMountView {
            host_mount_folder: self.host_mount_folder@,
            container_mount_folder: self.container_mount_folder@,
            remote_workspace_folder: self.remote_workspace_folder@,
            additional_mounts: str_views(self.additional_mounts@),
        }
    }
}

/// A component that names a folder: not the root, `.` or `..`.
pub open spec fn is_name(c: Seq<char>) -> bool {
    c != "/"@ && c != "."@ && c != ".."@
}

/// The names of the components of `path` past those of `base`, when `base`'s
/// components begin `path`'s (as `Path::strip_prefix` finds); else none.
pub open spec fn relative_names(path: Seq<char>, base: Seq<char>) -> Seq<Seq<char>> {
    let p = std_components(path);
    let b = std_components(base);
    if b.len() <= p.len() && p.take(b.len() as int) == b {
        p.skip(b.len() as int).filter(|c: Seq<char>| is_name(c))
    } else {
        seq![]
    }
}

pub open spec fn info_view(info: Option<GitWorktreeCommonDirInfo>) -> Option<(Seq<char>, Seq<char>, Seq<char>)> {
    match info {
        Some(i) => Some((i.git_common_dir@, i.relative_host_mount_folder@, i.relative_git_common_dir@)),
        None => None,
    }
}

/// The workspace mount rooted at `host`: mounted at `/workspaces/<name>` (or
/// where the worktree's common-folder mount puts it), working in the
/// workspace folder's place below that.
pub open spec fn spec_derived_from_host(
    workspace_folder: Seq<char>,
    args: Seq<Seq<char>>,
    host_is_linux: bool,
    host: Seq<char>,
    info: Option<(Seq<char>, Seq<char>, Seq<char>)>,
) -> DerivedWorkspaceMountView {
    let default_folder = spec_default_remote_workspace_folder(Some(host));
    let relative = relative_names(workspace_folder, host);
    match info {
        Some((g, rh, rg)) => {
            let (container, mount) = spec_git_worktree_common_dir_mount(g, rh, rg, args, default_folder, host_is_linux);
            DerivedWorkspaceMountView {
                host_mount_folder: host,
                container_mount_folder: container,
                remote_workspace_folder: append_segments(container, relative),
                additional_mounts: seq![mount],
            }
        },
        None => DerivedWorkspaceMountView {
            host_mount_folder: host,
            container_mount_folder: default_folder,
            remote_workspace_folder: append_segments(default_folder, relative),
            additional_mounts: seq![],
        },
    }
}

/// The workspace folder mounted as it is, at its default container folder.
pub open spec fn spec_unrooted_workspace_mount(workspace_folder: Seq<char>) -> DerivedWorkspaceMountView {
    let remote = spec_default_remote_workspace_folder(Some(workspace_folder));
    DerivedWorkspaceMountView {
        host_mount_folder: workspace_folder,
        container_mount_folder: remote,
        remote_workspace_folder: remote,
        additional_mounts: seq![],
    }
}

fn append_names(path: &mut Vec<char>, names: &Vec<Vec<char>>)
    ensures
        final(path)@ == append_segments(old(path)@, views(names@)),
{
    let ghost nv = views(names@);
    let ghost start = path@;
    let mut k: usize = 0;
    assert(nv.take(0) =~= Seq::<Seq<char>>::empty());
    while k < names.len()
        invariant
            k <= names.len(),
            nv == views(names@),
            path@ == append_segments(start, nv.take(k as int)),
        decreases names.len() - k,
    {
        assert(nv.take(k + 1).drop_last() =~= nv.take(k as int));
        assert(nv.take(k + 1).last() == names@[k as int]@);
        if !ends_with_slash(path) {
            push_str(path, "/");
        }
        push_all(path, &names[k]);
        k = k + 1;
    }
    assert(nv.take(k as int) =~= nv);
}

fn relative_names_chars(path: &str, base: &str) -> (r: Vec<Vec<char>>)
    ensures
        views(r@) == relative_names(path@, base@),
{
    let p = std_components_chars(&to_chars(path));
    let b = std_components_chars(&to_chars(base));
    let ghost pv = views(p@);
    let ghost bv = views(b@);
    let mut r: Vec<Vec<char>> = Vec::new();
    assert(views(r@) =~= Seq::<Seq<char>>::empty());
    if b.len() > p.len() {
        return r;
    }
    let mut k: usize = 0;
    while k < b.len()
        invariant
            k <= b.len(),
            b.len() <= p.len(),
            pv == views(p@),
            bv == views(b@),
            pv == std_components(path@),
            bv == std_components(base@),
            views(r@) == Seq::<Seq<char>>::empty(),
            forall|j: int| 0 <= j < k ==> pv[j] == bv[j],
        decreases b.len() - k,
    {
        assert(pv[k as int] == p@[k as int]@ && bv[k as int] == b@[k as int]@);
        if !crate::text::chars_eq(&p[k], &b[k]) {
            assert(pv.take(b.len() as int)[k as int] != bv[k as int]);
            assert(pv.take(b.len() as int) != bv);
            return r;
        }
        k = k + 1;
    }
    assert(pv.take(b.len() as int) =~= bv);
    let ghost rest = pv.skip(b.len() as int);
    proof {
        reveal_strlit("/");
        reveal_strlit(".");
        reveal_strlit("..");
        assert("/"@ =~= seq!['/']);
        assert("."@ =~= seq!['.']);
        assert(".."@ =~= seq!['.', '.']);
    }
    let mut i: usize = b.len();
    assert(rest.take(0).filter(|c: Seq<char>| is_name(c)) =~= Seq::<Seq<char>>::empty());
    while i < p.len()
        invariant
            b.len() <= i <= p.len(),
            pv == views(p@),
            rest == pv.skip(b.len() as int),
            "/"@ == seq!['/'],
            "."@ == seq!['.'],
            ".."@ == seq!['.', '.'],
            views(r@) == rest.take(i - b.len()).filter(|c: Seq<char>| is_name(c)),
        decreases p.len() - i,
    {
        let ghost j = i - b.len();
        assert(rest.take(j + 1).drop_last() =~= rest.take(j));
        assert(rest.take(j + 1).last() == p@[i as int]@);
        let c = &p[i];
        let named = !((c.len() == 1 && (c[0] == '/' || c[0] == '.')) || (c.len() == 2 && c[0] == '.' && c[1] == '.'));
        proof {
            reveal(Seq::filter);
            if c@.len() == 1 {
                assert(c@ =~= seq![c@[0]]);
            }
            if c@.len() == 2 {
                assert(c@ =~= seq![c@[0], c@[1]]);
            }
            assert(named == is_name(c@)) by {
                if c@ == "/"@ || c@ == "."@ {
                    assert(c@.len() == 1);
                }
                if c@ == ".."@ {
                    assert(c@.len() == 2 && c@[0] == '.' && c@[1] == '.');
                }
            }
        }
        if named {
            let d = slice_of(c, 0, c.len());
            assert(d@ =~= c@);
            proof {
                crate::text::lemma_views_push_pub(r@, d);
            }
            r.push(d);
        }
        i = i + 1;
    }
    assert(rest.take(i - b.len()) =~= rest);
    r
}

fn derived_from_host(
    workspace_folder: &str,
    args: &[String],
    host_is_linux: bool,
    host: String,
    info: Option<GitWorktreeCommonDirInfo>,
) -> (r: DerivedWorkspaceMount)
    ensures
        r@ == spec_derived_from_host(workspace_folder@, str_views(args@), host_is_linux, host@, info_view(info)),
{
    let default_folder = default_remote_workspace_folder(Some(host.as_str()));
    let relative = relative_names_chars(workspace_folder, host.as_str());
    let (container, additional) = match git_worktree_common_dir_mount(info.as_ref(), args, default_folder.as_str(), host_is_linux) {
        Some((c, m)) => {
            let mut v: Vec<String> = Vec::new();
            v.push(m);
            assert(str_views(v@) =~= seq![v@[0]@]);
            (c, v)
        },
        None => {
            let v: Vec<String> = Vec::new();
            assert(str_views(v@) =~= Seq::<Seq<char>>::empty());
            (default_folder, v)
        },
    };
    let mut remote = to_chars(container.as_str());
    append_names(&mut remote, &relative);
    DerivedWorkspaceMount {
        host_mount_folder: host,
        container_mount_folder: container,
        remote_workspace_folder: from_chars(&remote),
        additional_mounts: additional,
    }
}

/// The workspace mount for the arguments. Without `--mount-workspace-git-root
/// false` the mounted folder is the git root that `find_git_root` finds (else
/// the workspace folder); with `--mount-git-worktree-common-dir`, the common
/// folder of a git worktree that `worktree_info` describes is mounted too.
pub fn derived_workspace_mount<F: FnOnce(&str) -> Option<String>, G: FnOnce(&str) -> Option<GitWorktreeCommonDirInfo>>(
    workspace_folder: &str,
    args: &[String],
    host_is_linux: bool,
    find_git_root: F,
    worktree_info: G,
) -> (r: Option<DerivedWorkspaceMount>)
    requires
        call_requires(find_git_root, (workspace_folder,)),
        forall|h: &str| call_requires(worktree_info, (h,)),
    ensures
        r is Some,
        !bool_option_from(str_views(args@), "--mount-workspace-git-root"@, 0, true) ==> r->0@
            == spec_unrooted_workspace_mount(workspace_folder@),
        bool_option_from(str_views(args@), "--mount-workspace-git-root"@, 0, true) ==> exists|g: Option<String>|
            #[trigger] call_ensures(find_git_root, (workspace_folder,), g) && {
                let host = match g {
                    Some(h) => h@,
                    None => workspace_folder@,
                };
                if bool_option_from(str_views(args@), "--mount-git-worktree-common-dir"@, 0, false) {
                    exists|h: &str, i: Option<GitWorktreeCommonDirInfo>|
                        h@ == host && #[trigger] call_ensures(worktree_info, (h,), i) && r->0@
                            == spec_derived_from_host(workspace_folder@, str_views(args@), host_is_linux, host, info_view(i))
                } else {
                    r->0@ == spec_derived_from_host(workspace_folder@, str_views(args@), host_is_linux, host, None)
                }
            },
{
    let mount_git_root = crate::options::bool_option(args, "--mount-workspace-git-root", true);
    if !mount_git_root {
        let remote = default_remote_workspace_folder(Some(workspace_folder));
        let container = from_chars(&to_chars(remote.as_str()));
        let additional: Vec<String> = Vec::new();
        assert(str_views(additional@) =~= Seq::<Seq<char>>::empty());
        return Some(DerivedWorkspaceMount {
            host_mount_folder: from_chars(&to_chars(workspace_folder)),
            container_mount_folder: container,
            remote_workspace_folder: remote,
            additional_mounts: additional,
        });
    }
    let g = find_git_root(workspace_folder);
    assert(call_ensures(find_git_root, (workspace_folder,), g));
    let host = match &g {
        Some(h) => from_chars(&to_chars(h.as_str())),
        None => from_chars(&to_chars(workspace_folder)),
    };
    if crate::options::bool_option(args, "--mount-git-worktree-common-dir", false) {
        let hs = host.as_str();
        let i = worktree_info(hs);
        let ghost iv = info_view(i);
        assert(call_ensures(worktree_info, (hs,), i));
        let ghost hv = host@;
        let d = derived_from_host(workspace_folder, args, host_is_linux, host, i);
        assert(d@ == spec_derived_from_host(workspace_folder@, str_views(args@), host_is_linux, hv, iv));
        Some(d)
    } else {
        let d = derived_from_host(workspace_folder, args, host_is_linux, host, None);
        Some(d)
    }
}


/// The user the configuration names: `remoteUser` when present (as a string),
/// else `containerUser`.
pub open spec fn spec_configured_user(configuration: JsonView) -> Option<Seq<char>> {
    match json_get(configuration, "remoteUser"@) {
        Some(v) => json_str(v),
        None => get_str(configuration, "containerUser"@),
    }
}

pub fn configured_user(configuration: &JsonValue) -> (r: Option<String>)
    ensures
        opt_str(r) == spec_configured_user(configuration@),
{
    match configuration.get("remoteUser") {
        Some(v) => match v.as_str() {
            Some(s) => Some(from_chars(&to_chars(s.as_str()))),
            None => None,
        },
        None => get_str_exec(configuration, "containerUser"),
    }
}

/// The configured user, or `root`.
pub open spec fn spec_remote_user(configuration: JsonView) -> Seq<char> {
    match spec_configured_user(configuration) {
        Some(u) => u,
        None => "root"@,
    }
}

/// The user a configuration names: a string `remoteUser` wins whatever
/// `containerUser` says; without a `remoteUser` member a string
/// `containerUser` is used; with neither, or with a `remoteUser` that is not
/// a string, there is none, and commands run as `root`.
pub proof fn law_remote_user_wins_over_container_user(configuration: JsonView, user: Seq<char>)
    ensures
        json_get(configuration, "remoteUser"@) == Some(JsonView::Str(user))
            ==> spec_configured_user(configuration) == Some(user) && spec_remote_user(configuration) == user,
        json_get(configuration, "remoteUser"@) is None && json_get(configuration, "containerUser"@) == Some(JsonView::Str(user))
            ==> spec_configured_user(configuration) == Some(user) && spec_remote_user(configuration) == user,
        json_get(configuration, "remoteUser"@) is None && json_get(configuration, "containerUser"@) is None
            ==> spec_configured_user(configuration) is None && spec_remote_user(configuration) == "root"@,
        json_get(configuration, "remoteUser"@) matches Some(v) && !(v is Str)
            ==> spec_configured_user(configuration) is None && spec_remote_user(configuration) == "root"@,
{
}

pub fn remote_user(configuration: &JsonValue) -> (r: String)
    ensures
        r@ == spec_remote_user(configuration@),
{
    match configured_user(configuration) {
        Some(u) => u,
        None => from_chars(&to_chars("root")),
    }
}


/// The folder to work in inside the container: `/` for a compose service
/// without a configured folder (a `workspaceMount` does not count there); the configured `workspaceFolder`; the
/// target of a configured `workspaceMount`; else the derived folder.
pub open spec fn spec_remote_workspace_folder_for_args(configuration: JsonView, derived_remote_workspace_folder: Seq<char>) -> Seq<char> {
    if crate::compose::spec_uses_compose_config(configuration) && json_get(configuration, "workspaceFolder"@) is None {
        "/"@
    } else {
        match get_str(configuration, "workspaceFolder"@) {
            Some(w) => w,
            None => match get_str(configuration, "workspaceMount"@) {
                Some(m) => match crate::mounts::spec_mount_option_target(m) {
                    Some(t) => t,
                    None => derived_remote_workspace_folder,
                },
                None => derived_remote_workspace_folder,
            },
        }
    }
}

pub fn remote_workspace_folder_for_args(configuration: &JsonValue, derived: &DerivedWorkspaceMount) -> (r: String)
    ensures
        r@ == spec_remote_workspace_folder_for_args(configuration@, derived.remote_workspace_folder@),
{
    if crate::compose::uses_compose_config(configuration) && configuration.get("workspaceFolder").is_none() {
        return from_chars(&to_chars("/"));
    }
    match get_str_exec(configuration, "workspaceFolder") {
        Some(w) => return w,
        None => {},
    }
    match get_str_exec(configuration, "workspaceMount") {
        Some(m) => match crate::mounts::mount_option_target(m.as_str()) {
            Some(t) => return t,
            None => {},
        },
        None => {},
    }
    from_chars(&to_chars(derived.remote_workspace_folder.as_str()))
}

/// The default workspace mount: the derived host folder bound at the remote
/// workspace folder when `workspaceFolder` is configured, else at the derived
/// container folder; with the requested consistency off Linux.
pub open spec fn spec_default_workspace_mount(
    configuration: JsonView,
    derived: DerivedWorkspaceMountView,
    remote_workspace_folder: Seq<char>,
    args: Seq<Seq<char>>,
    host_is_linux: bool,
) -> Seq<char> {
    let target = if get_str(configuration, "workspaceFolder"@) is Some {
        remote_workspace_folder
    } else {
        derived.container_mount_folder
    };
    spec_append_workspace_mount_consistency(spec_bind_mount(derived.host_mount_folder, target), args, host_is_linux)
}

/// The workspace mount: the configured `workspaceMount` string, else the default.
pub open spec fn spec_workspace_mount_for_args(
    configuration: JsonView,
    derived: DerivedWorkspaceMountView,
    remote_workspace_folder: Seq<char>,
    args: Seq<Seq<char>>,
    host_is_linux: bool,
) -> Seq<char> {
    match get_str(configuration, "workspaceMount"@) {
        Some(m) => m,
        None => spec_default_workspace_mount(configuration, derived, remote_workspace_folder, args, host_is_linux),
    }
}

pub fn workspace_mount_for_args(
    configuration: &JsonValue,
    derived: &DerivedWorkspaceMount,
    remote_workspace_folder: &str,
    args: &[String],
    host_is_linux: bool,
) -> (r: String)
    ensures
        r@ == spec_workspace_mount_for_args(configuration@, derived@, remote_workspace_folder@, str_views(args@), host_is_linux),
{
    match get_str_exec(configuration, "workspaceMount") {
        Some(m) => m,
        None => {
            let target = if get_str_exec(configuration, "workspaceFolder").is_some() {
                remote_workspace_folder
            } else {
                derived.container_mount_folder.as_str()
            };
            let mut mount = bind_mount(derived.host_mount_folder.as_str(), target);
            append_workspace_mount_consistency(&mut mount, args, host_is_linux);
            mount
        },
    }
}

/// The mounts besides the workspace mount: without a configured
/// `workspaceFolder`, the derived ones; with it, only the git worktree's
/// common folder (when `--mount-git-worktree-common-dir` is set and the
/// folder is a worktree), placed relative to the configured folder.
pub fn additional_mounts_for_workspace_target(
    configuration: &JsonValue,
    derived: &DerivedWorkspaceMount,
    remote_workspace_folder: &str,
    args: &[String],
    host_is_linux: bool,
    worktree_info: Option<&GitWorktreeCommonDirInfo>,
) -> (r: Vec<String>)
    ensures
        json_get(configuration@, "workspaceFolder"@) is None ==> str_views(r@) == derived@.additional_mounts,
        json_get(configuration@, "workspaceFolder"@) is Some ==> str_views(r@) == match (
            crate::options::bool_option_from(str_views(args@), "--mount-git-worktree-common-dir"@, 0, false),
            worktree_info,
        ) {
            (true, Some(i)) => seq![spec_git_worktree_common_dir_mount_for_workspace_target(
                i.git_common_dir@,
                i.relative_host_mount_folder@,
                i.relative_git_common_dir@,
                str_views(args@),
                remote_workspace_folder@,
                host_is_linux,
            )],
            _ => Seq::<Seq<char>>::empty(),
        },
{
    let mut out: Vec<String> = Vec::new();
    if configuration.get("workspaceFolder").is_none() {
        let mut k: usize = 0;
        while k < derived.additional_mounts.len()
            invariant
                k <= derived.additional_mounts.len(),
                str_views(out@) == str_views(derived.additional_mounts@).take(k as int),
            decreases derived.additional_mounts.len() - k,
        {
            crate::exec::push_string(&mut out, derived.additional_mounts[k].as_str());
            assert(str_views(derived.additional_mounts@).take(k + 1)
                =~= str_views(derived.additional_mounts@).take(k as int).push(derived.additional_mounts@[k as int]@));
            k = k + 1;
        }
        assert(str_views(derived.additional_mounts@).take(k as int) =~= str_views(derived.additional_mounts@));
        return out;
    }
    if crate::options::bool_option(args, "--mount-git-worktree-common-dir", false) {
        match git_worktree_common_dir_mount_for_workspace_target(worktree_info, args, remote_workspace_folder, host_is_linux) {
            Some(m) => {
                out.push(m);
                assert(str_views(out@) =~= seq![out@[0]@]);
                return out;
            },
            None => {},
        }
    }
    assert(str_views(out@) =~= Seq::<Seq<char>>::empty());
    out
}

/// The `gitdir:` of a worktree's `.git` file: the value of its first line that
/// starts with `gitdir:`, trimmed.
pub open spec fn gitdir_in(ls: Seq<Seq<char>>) -> Option<Seq<char>>
    decreases ls.len(),
{
    if ls.len() == 0 {
        None
    } else {
        match strip_prefix(ls[0], "gitdir:"@) {
            Some(v) => Some(trim(v)),
            None => gitdir_in(ls.drop_first()),
        }
    }
}

pub fn gitdir_from_dot_git(content: &str) -> (r: Option<String>)
    ensures
        opt_str(r) == gitdir_in(lines(content@)),
{
    let ls = lines_chars(&to_chars(content));
    let ghost lv = views(ls@);
    let mut k: usize = 0;
    assert(lv.skip(0) =~= lv);
    while k < ls.len()
        invariant
            k <= ls.len(),
            lv == views(ls@),
            lv == lines(content@),
            gitdir_in(lines(content@)) == gitdir_in(lv.skip(k as int)),
        decreases ls.len() - k,
    {
        assert(lv.skip(k as int)[0] == ls@[k as int]@);
        assert(lv.skip(k as int).drop_first() =~= lv.skip(k + 1));
        match strip_prefix_str(&ls[k], "gitdir:") {
            Some(v) => return Some(from_chars(&trim_chars(&v))),
            None => {},
        }
        k = k + 1;
    }
    assert(lv.skip(k as int) =~= Seq::<Seq<char>>::empty());
    None
}

/// The number of leading components two paths share.
pub open spec fn common_prefix_len(a: Seq<Seq<char>>, b: Seq<Seq<char>>) -> nat
    decreases a.len(),
{
    if a.len() == 0 || b.len() == 0 || a[0] != b[0] {
        0
    } else {
        1 + common_prefix_len(a.drop_first(), b.drop_first())
    }
}

/// A worktree folder and its git common folder relative to their closest
/// common ancestor (component-wise, see `path_components`); none when one is
/// absolute and the other is not, since they then share no ancestor.
pub open spec fn spec_worktree_relatives(host: Seq<char>, common: Seq<char>) -> Option<(Seq<char>, Seq<char>)> {
    if starts_with(host, "/"@) != starts_with(common, "/"@) {
        None
    } else {
        let hc = path_components(host);
        let cc = path_components(common);
        let k = common_prefix_len(hc, cc);
        Some((join(hc.skip(k as int), "/"@), join(cc.skip(k as int), "/"@)))
    }
}

pub proof fn lemma_common_prefix_len(a: Seq<Seq<char>>, b: Seq<Seq<char>>, i: int)
    requires
        0 <= i <= a.len(),
        i <= b.len(),
        forall|j: int| 0 <= j < i ==> a[j] == b[j],
    ensures
        common_prefix_len(a, b) == i + common_prefix_len(a.skip(i), b.skip(i)),
    decreases i,
{
    if i > 0 {
        assert(a[0] == b[0]);
        lemma_common_prefix_len(a.drop_first(), b.drop_first(), i - 1);
        assert(a.drop_first().skip(i - 1) =~= a.skip(i));
        assert(b.drop_first().skip(i - 1) =~= b.skip(i));
    } else {
        assert(a.skip(0) =~= a);
        assert(b.skip(0) =~= b);
    }
}

fn skip_join(parts: &Vec<Vec<char>>, from: usize) -> (r: String)
    requires
        from <= parts.len(),
    ensures
        r@ == join(views(parts@).skip(from as int), "/"@),
{
    let mut rest: Vec<Vec<char>> = Vec::new();
    let mut k: usize = from;
    while k < parts.len()
        invariant
            from <= k <= parts.len(),
            views(rest@) == views(parts@).subrange(from as int, k as int),
        decreases parts.len() - k,
    {
        let piece = slice_of(&parts[k], 0, parts[k].len());
        assert(piece@ =~= parts@[k as int]@);
        assert(views(rest@.push(piece)) =~= views(rest@).push(piece@));
        assert(views(parts@).subrange(from as int, k + 1) =~= views(parts@).subrange(from as int, k as int).push(parts@[k as int]@));
        rest.push(piece);
        k = k + 1;
    }
    assert(views(parts@).subrange(from as int, k as int) =~= views(parts@).skip(from as int));
    from_chars(&join_chars(&rest, "/"))
}

/// The worktree folder and the git common folder relative to their closest
/// common ancestor (see `spec_worktree_relatives`).
pub fn worktree_relatives(host: &str, common: &str) -> (r: Option<(String, String)>)
    ensures
        match r {
            Some((a, b)) => spec_worktree_relatives(host@, common@) == Some((a@, b@)),
            None => spec_worktree_relatives(host@, common@) is None,
        },
{
    let hv0 = to_chars(host);
    let cv0 = to_chars(common);
    if crate::text::starts_with_str(&hv0, "/") != crate::text::starts_with_str(&cv0, "/") {
        return None;
    }
    let hc = path_components_chars(&hv0);
    let cc = path_components_chars(&cv0);
    let ghost hv = views(hc@);
    let ghost cv = views(cc@);
    let mut k: usize = 0;
    while k < hc.len() && k < cc.len() && crate::text::chars_eq(&hc[k], &cc[k])
        invariant
            k <= hc.len(),
            k <= cc.len(),
            hv == views(hc@),
            cv == views(cc@),
            forall|j: int| 0 <= j < k ==> hv[j] == cv[j],
        decreases hc.len() - k,
    {
        assert(hv[k as int] == hc@[k as int]@);
        assert(cv[k as int] == cc@[k as int]@);
        k = k + 1;
    }
    proof {
        lemma_common_prefix_len(hv, cv, k as int);
        if k < hc.len() && k < cc.len() {
            assert(hv.skip(k as int)[0] == hv[k as int]);
            assert(cv.skip(k as int)[0] == cv[k as int]);
            assert(hv[k as int] == hc@[k as int]@);
            assert(cv[k as int] == cc@[k as int]@);
        }
    }
    Some((skip_join(&hc, k), skip_join(&cc, k)))
}

} // verus!
