use fmt_dispatch::path::FsPath;

fn path_of(text: &str) -> FsPath {
    let anchor = if text.starts_with('/') { "/" } else { "" };
    let segments = text.split('/').filter(|s| !s.is_empty()).map(|s| s.to_string()).collect();
    FsPath::new(anchor.to_string(), segments)
}

#[test]
fn new_keeps_anchor_and_segments() {
    let p = FsPath::new("/".to_string(), vec!["home".to_string(), "u".to_string()]);
    assert_eq!(p.anchor(), "/");
    assert_eq!(p.segments(), &vec!["home".to_string(), "u".to_string()]);
}

#[test]
fn parent_drops_the_last_component() {
    assert_eq!(path_of("/home/u/proj").parent(), Some(path_of("/home/u")));
    assert_eq!(path_of("/home").parent(), Some(path_of("/")));
}

#[test]
fn root_has_no_parent() {
    assert_eq!(path_of("/").parent(), None);
}

#[test]
fn relative_path_ends_at_the_empty_path() {
    assert_eq!(path_of("a").parent(), Some(path_of("")));
    assert_eq!(path_of("").parent(), None);
}

#[test]
fn pop_reports_whether_it_ascended() {
    let mut p = path_of("/a/b");
    assert!(p.pop());
    assert_eq!(p, path_of("/a"));
    assert!(p.pop());
    assert_eq!(p, path_of("/"));
    assert!(!p.pop());
    assert_eq!(p, path_of("/"));
}

#[test]
fn join_appends_one_component() {
    assert_eq!(path_of("/a").join("biome.json"), path_of("/a/biome.json"));
    assert_eq!(path_of("/").join("x"), path_of("/x"));
    assert_eq!(path_of("").join("x"), path_of("x"));
}

#[test]
fn push_appends_in_place() {
    let mut p = path_of("/a");
    p.push("node_modules");
    p.push(".bin");
    assert_eq!(p, path_of("/a/node_modules/.bin"));
}

#[test]
fn join_then_parent_is_identity() {
    let p = path_of("/a/b");
    assert_eq!(p.join("c").parent(), Some(path_of("/a/b")));
}

#[test]
fn equality_compares_anchor_and_components() {
    assert!(path_of("/a/b") == path_of("/a/b"));
    assert!(path_of("/a/b") != path_of("/a"));
    assert!(path_of("/a") != path_of("/a/b"));
    assert!(path_of("/a/b") != path_of("/a/c"));
    assert!(path_of("/a/b") != path_of("a/b"));
    assert!(path_of("/") == path_of("/"));
    assert!(path_of("") == path_of(""));
    assert!(path_of("") != path_of("/"));
}

#[test]
fn clone_is_equal_and_independent() {
    let p = path_of("/a/b");
    let mut q = p.clone();
    assert!(p == q);
    q.push("c");
    assert_eq!(p, path_of("/a/b"));
    assert_eq!(q, path_of("/a/b/c"));
}
