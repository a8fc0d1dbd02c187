use ai00_server::sandbox::{PathRejected, Root};

fn models() -> Root {
    Root::new("assets/models").unwrap()
}

fn ok(text: &str) -> Result<String, PathRejected> {
    Ok(text.to_string())
}

#[test]
fn relative_path_resolves_under_root() {
    assert_eq!(models().sandbox("rwkv/model.st"), ok("assets/models/rwkv/model.st"));
}

#[test]
fn empty_and_dot_paths_name_the_root() {
    assert_eq!(models().sandbox(""), ok("assets/models"));
    assert_eq!(models().sandbox("."), ok("assets/models"));
    assert_eq!(models().sandbox("./"), ok("assets/models"));
}

#[test]
fn inner_parent_steps_are_resolved() {
    assert_eq!(models().sandbox("./a/../b.st"), ok("assets/models/b.st"));
    assert_eq!(models().sandbox("a/b/../../c/./d.st"), ok("assets/models/c/d.st"));
}

#[test]
fn repeated_separators_count_once() {
    assert_eq!(models().sandbox("a//b///c.st"), ok("assets/models/a/b/c.st"));
    assert_eq!(models().sandbox("a/b/"), ok("assets/models/a/b"));
}

#[test]
fn parent_traversal_is_rejected() {
    assert_eq!(models().sandbox("../secret.st"), Err(PathRejected));
    assert_eq!(models().sandbox(".."), Err(PathRejected));
    assert_eq!(models().sandbox("../.."), Err(PathRejected));
    assert_eq!(models().sandbox("../../.."), Err(PathRejected));
    assert_eq!(models().sandbox("a/../../secret.st"), Err(PathRejected));
    assert_eq!(models().sandbox("a/../../../../etc/passwd"), Err(PathRejected));
}

#[test]
fn backslash_traversal_is_rejected() {
    assert_eq!(models().sandbox("..\\secret.st"), Err(PathRejected));
    assert_eq!(models().sandbox("a\\..\\..\\secret.st"), Err(PathRejected));
    assert_eq!(models().sandbox("a/..\\../secret.st"), Err(PathRejected));
}

#[test]
fn backslash_separates_like_slash() {
    assert_eq!(models().sandbox("sub\\model.st"), ok("assets/models/sub/model.st"));
    assert_eq!(models().sandbox("sub\\..\\model.st"), ok("assets/models/model.st"));
}

#[test]
fn traversal_is_judged_by_where_it_ends() {
    // Leaves the root and names it again: the resolved path lies under it.
    assert_eq!(models().sandbox("../models/x.st"), ok("assets/models/x.st"));
    // Leaves the root and names a sibling: the resolved path lies outside.
    assert_eq!(models().sandbox("../configs/x.st"), Err(PathRejected));
}

#[test]
fn rooted_path_is_taken_as_it_stands() {
    let root = Root::new("/srv/models").unwrap();
    assert_eq!(root.sandbox("/srv/models/a.st"), ok("/srv/models/a.st"));
    assert_eq!(root.sandbox("/srv/models"), ok("/srv/models"));
    assert_eq!(root.sandbox("a.st"), ok("/srv/models/a.st"));
    assert_eq!(root.sandbox("/etc/passwd"), Err(PathRejected));
    assert_eq!(root.sandbox("/srv/models/../other/a.st"), Err(PathRejected));
    assert_eq!(root.sandbox("/srv/modelsx/a.st"), Err(PathRejected));
    assert_eq!(root.sandbox("\\srv\\models\\a.st"), ok("/srv/models/a.st"));
}

#[test]
fn rooted_path_is_rejected_under_relative_root() {
    assert_eq!(models().sandbox("/assets/models/a.st"), Err(PathRejected));
    assert_eq!(models().sandbox("/etc/passwd"), Err(PathRejected));
}

#[test]
fn root_that_climbs_is_refused() {
    assert!(Root::new("..").is_none());
    assert!(Root::new("a/../..").is_none());
    assert!(Root::new("/..").is_none());
    assert!(Root::new("a/..").is_some());
}

#[test]
fn empty_root_is_the_current_directory() {
    let root = Root::new("").unwrap();
    assert_eq!(root.sandbox("x/y.st"), ok("x/y.st"));
    assert_eq!(root.sandbox(""), ok("."));
    assert_eq!(root.sandbox("x/.."), ok("."));
    assert_eq!(root.sandbox("../x"), Err(PathRejected));
}

#[test]
fn file_system_root_holds_every_rooted_path() {
    let root = Root::new("/").unwrap();
    assert_eq!(root.sandbox("a"), ok("/a"));
    assert_eq!(root.sandbox("/a/b"), ok("/a/b"));
    assert_eq!(root.sandbox(""), ok("/"));
    assert_eq!(root.sandbox(".."), Err(PathRejected));
    assert_eq!(root.sandbox("/.."), Err(PathRejected));
}

#[test]
fn root_is_resolved_once() {
    let root = Root::new("./assets//models/x/..").unwrap();
    assert_eq!(root.sandbox("a.st"), ok("assets/models/a.st"));
}

#[test]
fn names_with_dots_are_plain_names() {
    assert_eq!(models().sandbox("...").unwrap(), "assets/models/...");
    assert_eq!(models().sandbox("..a/b").unwrap(), "assets/models/..a/b");
    assert_eq!(models().sandbox(".hidden").unwrap(), "assets/models/.hidden");
}

#[test]
fn characters_outside_ascii_are_kept() {
    assert_eq!(models().sandbox("模型/猫.st"), ok("assets/models/模型/猫.st"));
}
