use devcontainer::image::qualify_image_name;
use devcontainer::paths::resolve_relative;

#[test]
fn qualifies_docker_io_shorthands() {
    assert_eq!(qualify_image_name("ubuntu"), "docker.io/library/ubuntu");
    assert_eq!(
        qualify_image_name("docker.io/ubuntu"),
        "docker.io/library/ubuntu"
    );
    assert_eq!(qualify_image_name("random/image"), "docker.io/random/image");
    assert_eq!(qualify_image_name("foo/random/image"), "foo/random/image");
}

#[test]
fn resolve_relative_preserves_absolute_paths() {
    assert_eq!(
        resolve_relative("/workspace", "/already/absolute"),
        "/already/absolute"
    );
    assert_eq!(
        resolve_relative("/workspace", "relative/path"),
        "/workspace/relative/path"
    );
}

#[test]
fn resolve_relative_adds_one_separator_only() {
    assert_eq!(resolve_relative("/workspace/", "a"), "/workspace/a");
    assert_eq!(resolve_relative("", "a"), "a");
    assert_eq!(resolve_relative("/w", ""), "/w/");
}
