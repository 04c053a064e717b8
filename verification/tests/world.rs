use std::cell::Cell;
use typst::syntax::Source;
use typstdriver::failure::FileFailure;
use typstdriver::packages::{
    PackageEntry, PackageFailure, PackageManagerError, PackageSpec, PackageVersion,
};
use typstdriver::pathmap::FsPath;
use typstdriver::world::{
    compiler_features, decode_source, get_file_content, CompilerFeature, Date, FileKey,
    FileSource, KatvanWorld,
};

fn world(root: &str, text: &str) -> KatvanWorld {
    let mut world = KatvanWorld::new(Source::detached("stale text"), root);
    assert_eq!(world.main_text(), "");
    world.set_source_text(text);
    world
}

fn on_disk(_: &FsPath) -> bool {
    true
}

fn no_proxy(_: &str, _: &str, _: &str) -> (String, PackageManagerError, String) {
    panic!("the proxy is not to be asked")
}

#[test]
fn edits_replace_utf16_ranges() {
    let mut w = world("", "hello world");
    w.apply_edit(0, 5, "HELLO");
    assert_eq!(w.main_text(), "HELLO world");
    w.apply_edit(11, 11, "!");
    assert_eq!(w.main_text(), "HELLO world!");
    w.apply_edit(5, 6, "");
    assert_eq!(w.main_text(), "HELLOworld!");
    w.apply_edit(0, 11, "");
    assert_eq!(w.main_text(), "");
    w.apply_edit(0, 0, "x");
    assert_eq!(w.main_text(), "x");
}

#[test]
fn edits_count_surrogate_pairs_twice() {
    let mut w = world("", "ä💛b\nc");
    w.apply_edit(1, 3, "");
    assert_eq!(w.main_text(), "äb\nc");
    w.set_source_text("ä💛b\nc");
    w.apply_edit(3, 4, "💛💛");
    assert_eq!(w.main_text(), "ä💛💛💛\nc");
    w.apply_edit(8, 9, "Z");
    assert_eq!(w.main_text(), "ä💛💛💛\nZ");
    assert_eq!(w.main_source().text(), "ä💛💛💛\nZ");
}

#[test]
fn stale_edits_are_dropped() {
    let mut w = world("", "abc💛");
    w.apply_edit(0, 6, "x");
    assert_eq!(w.main_text(), "abc💛");
    w.apply_edit(6, 7, "x");
    assert_eq!(w.main_text(), "abc💛");
    w.apply_edit(100, 2, "x");
    assert_eq!(w.main_text(), "abc💛");
    w.apply_edit(3, 1, "x");
    assert_eq!(w.main_text(), "abc💛");
    w.apply_edit(0, 4, "x");
    assert_eq!(w.main_text(), "abc💛");
    w.apply_edit(0, 5, "x");
    assert_eq!(w.main_text(), "x");
}

#[test]
fn edit_inside_a_pair_goes_to_the_next_character() {
    let mut w = world("", "a💛bc");
    w.apply_edit(2, 4, "-");
    assert_eq!(w.main_text(), "a💛-c");
}

#[test]
fn edits_in_sequence_equal_substitutions_in_sequence() {
    let mut w = world("", "The quick brown fox");
    let mut model = String::from("The quick brown fox");
    let edits: [(usize, usize, &str); 5] =
        [(4, 9, "slow"), (0, 3, "A"), (6, 6, " and"), (40, 41, "lost"), (2, 6, "")];
    for (from, to, text) in edits {
        w.apply_edit(from, to, text);
        if to <= model.len() {
            model.replace_range(from..to, text);
        }
        assert_eq!(w.main_text(), model);
    }
    assert_eq!(model, "A  and brown fox");
}

#[test]
fn today_follows_the_offset() {
    let mut w = world("", "");
    assert_eq!(w.today(None), None);
    w.reset_current_date("2024-03-15T23:30:00Z");
    assert_eq!(w.today(None), Some(Date { year: 2024, month: 3, day: 15 }));
    assert_eq!(w.today(Some(0)), Some(Date { year: 2024, month: 3, day: 15 }));
    assert_eq!(w.today(Some(1)), Some(Date { year: 2024, month: 3, day: 16 }));
    assert_eq!(w.today(Some(-24)), Some(Date { year: 2024, month: 3, day: 14 }));
    assert_eq!(w.today(Some(25)), Some(Date { year: 2024, month: 3, day: 17 }));
    assert_eq!(w.today(Some(26)), None);
    assert_eq!(w.today(Some(-26)), None);
    assert_eq!(w.today(Some(127)), None);
    assert_eq!(w.today(Some(128)), None);
    assert_eq!(w.today(Some(i64::MIN)), None);
    w.reset_current_date("2024-12-31T22:00:00-05:00");
    assert_eq!(w.today(None), Some(Date { year: 2024, month: 12, day: 31 }));
    assert_eq!(w.today(Some(0)), Some(Date { year: 2025, month: 1, day: 1 }));
    w.reset_current_date("yesterday");
    assert_eq!(w.today(None), None);
    assert_eq!(w.today(Some(0)), None);
}

#[test]
fn main_document_comes_from_the_buffer() {
    let mut w = world("/doc", "text");
    let found = w.source_location(&FileKey::Main, on_disk, no_proxy);
    assert!(matches!(found, Ok(FileSource::Buffer)));
}

#[test]
fn project_files_go_through_the_sandbox() {
    let mut w = world("/home/user/doc", "");
    let key = FileKey::File { package: None, vpath: "chapters/one.typ".to_string() };
    let found = w.source_location(&key, on_disk, no_proxy);
    assert!(matches!(found, Ok(FileSource::Disk(ref p)) if p == "/home/user/doc/chapters/one.typ"));
    let denied = w.get_file_path(None, "../../etc/passwd", on_disk, no_proxy);
    assert!(matches!(denied, Err(FileFailure::AccessDenied)));
    w.set_allowed_paths(vec!["/home/user/img".to_string()]);
    let allowed = w.get_file_path(None, "../img/a.png", on_disk, no_proxy);
    assert_eq!(allowed.unwrap(), "/home/user/img/a.png");
    let mut unsaved = world("", "");
    let refused = unsaved.get_file_path(None, "a.typ", on_disk, no_proxy);
    assert!(matches!(refused, Err(FileFailure::Unsaved)));
    assert_eq!(FileFailure::unsaved_message(), "unsaved files cannot include external files");
}

#[test]
fn package_files_resolve_in_the_package_directory() {
    let pkg = PackageSpec {
        namespace: "preview".to_string(),
        name: "cetz".to_string(),
        version: PackageVersion { major: 0, minor: 3, patch: 1 },
    };
    let calls = Cell::new(0u32);
    let ask = |namespace: &str, name: &str, version: &str| {
        calls.set(calls.get() + 1);
        assert_eq!((namespace, name, version), ("preview", "cetz", "0.3.1"));
        ("/cache/preview/cetz/0.3.1".to_string(), PackageManagerError::Success, String::new())
    };
    let mut w = world("", "");
    let found = w.get_file_path(Some(&pkg), "src/lib.typ", on_disk, ask);
    assert_eq!(found.unwrap(), "/cache/preview/cetz/0.3.1/src/lib.typ");
    let escaped = w.get_file_path(Some(&pkg), "../../secret", on_disk, ask);
    assert!(matches!(escaped, Err(FileFailure::AccessDenied)));
    assert_eq!(calls.get(), 1);
    w.discard_package_roots_cache();
    assert_eq!(w.get_package_root(&pkg, ask).unwrap(), "/cache/preview/cetz/0.3.1");
    assert_eq!(calls.get(), 2);
    let missing = PackageSpec { name: "none".to_string(), ..pkg.clone() };
    let gone = |_: &str, _: &str, _: &str| {
        (String::new(), PackageManagerError::NotFound, "no such package".to_string())
    };
    let failed = w.get_file_path(Some(&missing), "lib.typ", on_disk, gone);
    assert!(matches!(
        failed,
        Err(FileFailure::Package(PackageFailure::NotFound(ref p))) if p.same_as(&missing)
    ));
}

#[test]
fn directories_are_told_apart_before_reading() {
    assert!(matches!(get_file_content(true, Ok(vec![1, 2])), Err(FileFailure::IsDirectory)));
    assert!(matches!(
        get_file_content(true, Err(FileFailure::Other("is a directory".to_string()))),
        Err(FileFailure::IsDirectory)
    ));
    assert_eq!(get_file_content(false, Ok(vec![1, 2])).unwrap(), vec![1, 2]);
    assert!(matches!(
        get_file_content(false, Err(FileFailure::NotFound("/x".to_string()))),
        Err(FileFailure::NotFound(ref p)) if p == "/x"
    ));
}

#[test]
fn sources_must_be_utf8() {
    assert_eq!(decode_source("grüße 💛".as_bytes().to_vec()).unwrap(), "grüße 💛");
    assert_eq!(decode_source(vec![]).unwrap(), "");
    assert!(matches!(decode_source(vec![0x66, 0xff, 0x6f]), Err(FileFailure::InvalidUtf8)));
    assert!(matches!(decode_source(vec![0xed, 0xa0, 0x80]), Err(FileFailure::InvalidUtf8)));
}

#[test]
fn package_list_is_asked_for_once() {
    let calls = Cell::new(0u32);
    let entries = || {
        vec![
            PackageEntry { name: "a".into(), version: "1.0.0".into(), description: "first".into() },
            PackageEntry { name: "b".into(), version: "one".into(), description: "second".into() },
        ]
    };
    let mut w = world("", "");
    let failing = || {
        calls.set(calls.get() + 1);
        (entries(), PackageManagerError::NetworkError)
    };
    assert!(w.packages_offered(failing).is_empty());
    assert!(w.packages_offered(failing).is_empty());
    assert_eq!(calls.get(), 2);
    let working = || {
        calls.set(calls.get() + 1);
        (entries(), PackageManagerError::Success)
    };
    let listed = w.packages_offered(working);
    assert_eq!(listed.len(), 1);
    assert_eq!(listed[0].spec.name, "a");
    assert_eq!(calls.get(), 3);
    let again = w.packages_offered(failing);
    assert_eq!(again.len(), 1);
    assert_eq!(calls.get(), 3);
    w.discard_package_roots_cache();
    assert_eq!(w.packages_offered(failing).len(), 1);
    assert_eq!(calls.get(), 3);
}

#[test]
fn compiler_flags_switch_features() {
    assert_eq!(compiler_features(false), vec![]);
    assert_eq!(compiler_features(true), vec![CompilerFeature::A11yExtras]);
    let mut w = world("", "");
    assert!(!w.library().features.is_enabled(typst::Feature::A11yExtras));
    w.set_compiler_flags(true);
    assert!(w.library().features.is_enabled(typst::Feature::A11yExtras));
    w.set_compiler_flags(false);
    assert!(!w.library().features.is_enabled(typst::Feature::A11yExtras));
}

#[test]
fn edits_find_their_place_across_lines() {
    let text = "ä\tcde\nf💛g\r\nhi\rjkl";
    let mut w = world("", text);
    w.apply_edit(8, 9, "");
    assert_eq!(w.main_text(), text);
    w.apply_edit(7, 9, "");
    assert_eq!(w.main_text(), "ä\tcde\nfg\r\nhi\rjkl");
    w.apply_edit(10, 12, "HI");
    assert_eq!(w.main_text(), "ä\tcde\nfg\r\nHI\rjkl");
    w.apply_edit(8, 10, "\n");
    assert_eq!(w.main_text(), "ä\tcde\nfg\nHI\rjkl");
    w.apply_edit(15, 15, "!");
    assert_eq!(w.main_text(), "ä\tcde\nfg\nHI\rjkl!");
    w.apply_edit(17, 17, "?");
    assert_eq!(w.main_text(), "ä\tcde\nfg\nHI\rjkl!");
    w.apply_edit(0, 1, "ae");
    assert_eq!(w.main_text(), "ae\tcde\nfg\nHI\rjkl!");
}

#[test]
fn edits_around_carriage_returns_keep_the_buffer_sound() {
    let mut w = world("", "a\r\nb");
    w.apply_edit(2, 2, "\n");
    assert_eq!(w.main_text(), "a\r\n\nb");
    w.set_source_text("");
    assert_eq!(w.main_text(), "");
    w.apply_edit(0, 0, "x\r");
    w.apply_edit(2, 2, "\ny");
    assert_eq!(w.main_text(), "x\r\ny");
    w.apply_edit(0, 1, "");
    assert_eq!(w.main_text(), "\r\ny");
    w.apply_edit(1, 2, "");
    assert_eq!(w.main_text(), "\ry");
    w.apply_edit(1, 1, "\n");
    assert_eq!(w.main_text(), "\r\ny");
    w.apply_edit(0, 3, "done");
    assert_eq!(w.main_text(), "done");
}

#[test]
fn places_go_by_the_text_alone() {
    let mut edited = world("", "a\r\nc");
    edited.apply_edit(2, 2, "x");
    assert_eq!(edited.main_text(), "a\rx\nc");
    let fresh = world("", "a\rx\nc");
    for byte in 0..=6 {
        assert_eq!(
            typstdriver::diagnostics::position_at(&edited.main_source(), byte),
            typstdriver::diagnostics::position_at(&fresh.main_source(), byte)
        );
    }
    let at = typstdriver::diagnostics::position_at(&edited.main_source(), 2).unwrap();
    assert_eq!((at.line, at.column), (1, 0));
    let mut joined = world("", "a\rx\nc");
    joined.apply_edit(2, 3, "");
    assert_eq!(joined.main_text(), "a\r\nc");
    let place = typstdriver::diagnostics::position_at(&joined.main_source(), 3).unwrap();
    assert_eq!((place.line, place.column), (1, 0));
    joined.apply_edit(0, 0, "z");
    joined.apply_edit(4, 4, "!");
    assert_eq!(joined.main_text(), "za\r\n!c");
    let later = typstdriver::diagnostics::position_at(&joined.main_source(), 5).unwrap();
    assert_eq!((later.line, later.column), (1, 1));
}
