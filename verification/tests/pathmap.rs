use typstdriver::failure::FileFailure;
use typstdriver::pathmap::{join_and_normalize_path, FsPath, PathMapEntry, PathMapper};

fn always(_: &FsPath) -> bool {
    true
}

fn never(_: &FsPath) -> bool {
    false
}

#[test]
fn parse_splits_at_slashes() {
    assert_eq!(FsPath::parse("/home/user/doc").to_string(), "/home/user/doc");
    assert_eq!(FsPath::parse("a//b/./c/").to_string(), "a/b/c");
    assert_eq!(FsPath::parse("./a").to_string(), "./a");
    assert_eq!(FsPath::parse("").to_string(), "");
    assert_eq!(FsPath::parse("/").to_string(), "/");
    assert!(FsPath::parse("/x").is_absolute());
    assert!(!FsPath::parse("x").is_absolute());
    assert!(FsPath::parse("").is_empty());
}

#[test]
fn join_resolves_parent_steps() {
    let base = FsPath::parse("/home/user/doc");
    let joined = join_and_normalize_path(&base, &FsPath::parse("a/../b/./c.typ"));
    assert_eq!(joined.to_string(), "/home/user/doc/b/c.typ");
    let escaped = join_and_normalize_path(&base, &FsPath::parse("../../x"));
    assert_eq!(escaped.to_string(), "/home/x");
    let stuck = join_and_normalize_path(&FsPath::parse("/"), &FsPath::parse("../../x"));
    assert_eq!(stuck.to_string(), "/x");
}

#[test]
fn unsaved_document_reads_nothing() {
    let mapper = PathMapper::new("");
    let result = mapper.get_fs_file_path(&FsPath::parse("a.typ"), always);
    assert!(matches!(result, Err(FileFailure::Unsaved)));
}

#[test]
fn file_below_root_resolves() {
    let mapper = PathMapper::new("/home/user/doc");
    let result = mapper.get_fs_file_path(&FsPath::parse("img/a.png"), never);
    assert_eq!(result.unwrap().to_string(), "/home/user/doc/img/a.png");
}

#[test]
fn escaping_path_is_denied() {
    let mapper = PathMapper::new("/home/user/doc");
    let result = mapper.get_fs_file_path(&FsPath::parse("../secret.txt"), always);
    assert!(matches!(result, Err(FileFailure::AccessDenied)));
}

#[test]
fn allowed_path_admits_escaping_path() {
    let mut mapper = PathMapper::new("/home/user/doc");
    mapper.set_allowed_paths(vec![
        "relative/dir".to_string(),
        "/home/user/shared".to_string(),
    ]);
    let shared = mapper.get_fs_file_path(&FsPath::parse("../shared/logo.svg"), never);
    assert_eq!(shared.unwrap().to_string(), "/home/user/shared/logo.svg");
    let other = mapper.get_fs_file_path(&FsPath::parse("../other/logo.svg"), always);
    assert!(matches!(other, Err(FileFailure::AccessDenied)));
}

#[test]
fn remapped_root_is_rewritten_and_checked() {
    let root = PathMapEntry::mapped("/run/user/1000/doc/abc/doc", "/home/user/doc");
    let mapper = PathMapper::with_root(root);
    let found = mapper.get_fs_file_path(&FsPath::parse("a.typ"), always);
    assert_eq!(found.unwrap().to_string(), "/run/user/1000/doc/abc/doc/a.typ");
    let missing = mapper.get_fs_file_path(&FsPath::parse("a.typ"), never);
    assert!(matches!(missing, Err(FileFailure::AccessDenied)));
}

#[test]
fn remapped_root_falls_through_to_allowed_path() {
    let root = PathMapEntry::mapped("/run/doc/abc/doc", "/home/user/doc");
    let mut mapper = PathMapper::with_root(root);
    mapper.set_allowed_entries(&vec![PathMapEntry::new("/home/user")]);
    let found = mapper.get_fs_file_path(&FsPath::parse("a.typ"), never);
    assert_eq!(found.unwrap().to_string(), "/home/user/doc/a.typ");
}

#[test]
fn resolved_path_starts_with_a_root() {
    let mut mapper = PathMapper::new("/home/user/doc");
    mapper.set_allowed_paths(vec!["/usr/share/fonts".to_string(), "/srv/assets".to_string()]);
    let roots = ["/home/user/doc", "/usr/share/fonts", "/srv/assets"];
    let paths = [
        "a.typ",
        "sub/b.typ",
        "../../../usr/share/fonts/x.otf",
        "../../../srv/assets/img/y.png",
        "./sub/../c.typ",
    ];
    for path in paths {
        let found = mapper.get_fs_file_path(&FsPath::parse(path), always).unwrap().to_string();
        assert!(roots.iter().any(|root| found.starts_with(root)), "{found}");
    }
}

#[test]
fn parent_steps_leave_the_root() {
    let mapper = PathMapper::new("/home/user/doc");
    for path in ["..", "../..", "../../..", "../../../..", "../../../../.."] {
        let result = mapper.get_fs_file_path(&FsPath::parse(path), always);
        assert!(matches!(result, Err(FileFailure::AccessDenied)));
    }
}

#[test]
fn relative_allowed_paths_are_dropped() {
    let mut mapper = PathMapper::new("/doc");
    mapper.set_allowed_paths(vec!["shared".to_string(), "".to_string()]);
    let result = mapper.get_fs_file_path(&FsPath::parse("../shared/a"), always);
    assert!(matches!(result, Err(FileFailure::AccessDenied)));
}

#[test]
fn strip_prefix_goes_by_components() {
    let path = FsPath::parse("/home/username/x");
    assert!(path.strip_prefix(&FsPath::parse("/home/user")).is_none());
    let rest = path.strip_prefix(&FsPath::parse("/home/username")).unwrap();
    assert_eq!(rest.to_string(), "x");
    assert!(path.same_as(&FsPath::parse("//home/username/./x/")));
    assert_eq!(FsPath::parse("/a").join(&FsPath::parse("/b")).to_string(), "/b");
    assert_eq!(FsPath::parse("/a").join(&FsPath::parse("b/c")).to_string(), "/a/b/c");
}

#[test]
fn display_path_is_the_path_itself() {
    let path = FsPath::parse("/home/user/doc");
    let shown = typstdriver::pathmap::get_display_path(&path);
    assert_eq!(shown.to_string(), "/home/user/doc");
}
