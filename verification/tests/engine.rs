use typst::diag::{FileError, FileResult, SourceDiagnostic};
use typst::foundations::{Bytes, Datetime};
use typst::layout::{Abs, PagedDocument, Point};
use typst::syntax::{FileId, Source, Span};
use typst::text::{Font, FontBook};
use typst::utils::LazyHash;
use typst::{Library, World};
use typst_kit::fonts::{FontSlot, Fonts};
use typstdriver::diagnostics::{
    choose_span, get_diagnostic_hints, log_diagnostics, position_at, position_to_file_location,
    span_to_location, Diagnostic, LogRecord, Severity, SourcePosition, SpanTarget,
};
use typstdriver::engine::{
    summarize, CompileOutcome, CompileReport, EngineFailure, EngineImpl, Jump, PreviewPosition,
    RenderedPage,
};
use typstdriver::export::ExportFailure;
use typstdriver::packages::{PackageSpec, PackageVersion};
use typstdriver::world::KatvanWorld;

struct TestWorld {
    library: LazyHash<Library>,
    book: LazyHash<FontBook>,
    fonts: Vec<FontSlot>,
    source: Source,
}

impl World for TestWorld {
    fn library(&self) -> &LazyHash<Library> {
        &self.library
    }

    fn book(&self) -> &LazyHash<FontBook> {
        &self.book
    }

    fn main(&self) -> FileId {
        self.source.id()
    }

    fn source(&self, id: FileId) -> FileResult<Source> {
        if id == self.source.id() {
            Ok(self.source.clone())
        } else {
            Err(FileError::AccessDenied)
        }
    }

    fn file(&self, _id: FileId) -> FileResult<Bytes> {
        Err(FileError::AccessDenied)
    }

    fn font(&self, index: usize) -> Option<Font> {
        self.fonts.get(index).and_then(FontSlot::get)
    }

    fn today(&self, _offset: Option<i64>) -> Option<Datetime> {
        None
    }
}

fn target(world: &TestWorld, span: Span) -> Option<SpanTarget> {
    let id = span.id()?;
    Some(SpanTarget {
        main: id == world.source.id(),
        package: None,
        vpath: id.vpath().as_rootless_path().to_string_lossy().into_owned(),
        source: world.source(id).ok(),
        span,
    })
}

fn diagnostic(world: &TestWorld, diag: &SourceDiagnostic) -> Diagnostic {
    Diagnostic {
        severity: match diag.severity {
            typst::diag::Severity::Error => Severity::Error,
            typst::diag::Severity::Warning => Severity::Warning,
        },
        message: diag.message.to_string(),
        span: target(world, diag.span),
        trace: diag.trace.iter().map(|point| target(world, point.span)).collect(),
        hints: diag.hints.iter().map(|hint| hint.to_string()).collect(),
    }
}

impl typst_ide::IdeWorld for TestWorld {
    fn upcast(&self) -> &dyn World {
        self
    }
}

fn host(world: &KatvanWorld, with_fonts: bool) -> TestWorld {
    let (book, fonts) = if with_fonts {
        let found = Fonts::searcher().include_system_fonts(false).include_embedded_fonts(true).search();
        (found.book, found.fonts)
    } else {
        (FontBook::new(), Vec::new())
    };
    TestWorld {
        library: LazyHash::new(world.library()),
        book: LazyHash::new(book),
        fonts,
        source: world.main_source(),
    }
}

fn run(world: KatvanWorld) -> (CompileOutcome, KatvanWorld) {
    run_on(host(&world, false), world)
}

fn run_with_fonts(world: KatvanWorld) -> (CompileOutcome, KatvanWorld) {
    run_on(host(&world, true), world)
}

fn typeset(text: &str) -> (EngineImpl, CompileReport) {
    let mut engine = EngineImpl::new(Source::detached(""), "");
    engine.set_source(text);
    engine.compile("2024-01-01T00:00:00Z", run_with_fonts)
}

fn run_on(host: TestWorld, world: KatvanWorld) -> (CompileOutcome, KatvanWorld) {
    let result = typst::compile::<PagedDocument>(&host);
    let warnings = result.warnings.iter().map(|diag| diagnostic(&host, diag)).collect();
    let output = match result.output {
        Ok(document) => Ok(document),
        Err(errors) => Err(errors.iter().map(|diag| diagnostic(&host, diag)).collect()),
    };
    (CompileOutcome { output, warnings, elapsed: "1.00ms".to_string() }, world)
}

fn compiled(text: &str) -> (EngineImpl, CompileReport) {
    let mut engine = EngineImpl::new(Source::detached(""), "");
    engine.set_source(text);
    engine.compile("2024-01-01T00:00:00Z", run)
}

fn render(document: &PagedDocument, page: usize, invert: bool) -> RenderedPage {
    let pixmap = typst_render::render(&document.pages[page], if invert { 2.0 } else { 1.0 });
    RenderedPage { width_px: pixmap.width(), height_px: pixmap.height(), buffer: pixmap.take() }
}

fn origin() -> Point {
    Point::new(Abs::pt(1.0), Abs::pt(1.0))
}

const PAGE: &str = "#set page(width: 100pt, height: 50pt, margin: 0pt)\n#rect(fill: red)";

#[test]
fn nothing_works_before_a_compile() {
    let engine = EngineImpl::new(Source::detached(""), "");
    assert_eq!(engine.render_page(0, false, render).err(), Some(EngineFailure::InvalidState));
    assert_eq!(engine.export_pdf("", "", true).err(), Some(ExportFailure::InvalidState));
    assert_eq!(engine.forward_search(0, 0).err(), Some(EngineFailure::InvalidState));
    let pos = PreviewPosition { page: 0, point: origin() };
    let (_, back) = engine.inverse_search(&pos, |_, _, _, _| panic!("there is no document"));
    assert_eq!(back.err(), Some(EngineFailure::InvalidState));
    assert_eq!(EngineFailure::InvalidState.message(), "Invalid state");
}

#[test]
fn everything_works_after_a_compile() {
    let (engine, report) = compiled(PAGE);
    assert_eq!(report.pages.len(), 1);
    let page = engine.render_page(0, false, render).unwrap();
    assert_eq!((page.width_px, page.height_px), (100, 50));
    assert_eq!(page.buffer.len(), 100 * 50 * 4);
    let dark = engine.render_page(0, true, render).unwrap();
    assert_eq!((dark.width_px, dark.height_px), (200, 100));
    let pdf = engine.export_pdf("", "", true).unwrap().unwrap();
    assert!(pdf.starts_with(b"%PDF"));
    assert!(engine.export_pdf("1.7", "", true).unwrap().is_ok());
    assert!(engine.export_pdf("1.7", "a-2b", true).is_ok());
    assert_eq!(engine.export_pdf("7.1", "", true).err(), Some(ExportFailure::UnknownStandard));
    assert!(engine.forward_search(0, 0).is_ok());
    let pos = PreviewPosition { page: 0, point: origin() };
    let (engine, back) = engine
        .inverse_search(&pos, |world, _, _, _| (Some(Jump::File { main: true, cursor: 52 }), world));
    assert_eq!(back, Ok(SourcePosition { line: 1, column: 1 }));
    assert!(engine.render_page(0, false, render).is_ok());
}

#[test]
fn failed_compile_leaves_no_snapshot() {
    let (engine, report) = compiled(PAGE);
    assert_eq!(report.pages.len(), 1);
    let mut engine = engine;
    engine.set_source("#nothing");
    let (engine, report) = engine.compile("2024-01-01T00:00:00Z", run);
    assert!(report.pages.is_empty());
    assert_eq!(engine.render_page(0, false, render).err(), Some(EngineFailure::InvalidState));
    assert_eq!(engine.export_pdf("", "", true).err(), Some(ExportFailure::InvalidState));
    assert_eq!(engine.forward_search(0, 0).err(), Some(EngineFailure::InvalidState));
}

#[test]
fn page_summary_tells_number_and_size() {
    let (_, report) = compiled("#set page(width: 100pt, height: 50pt)\n#rect()\n#pagebreak()\n#rect()");
    assert_eq!(report.pages.len(), 2);
    assert_eq!(report.pages[0].page_num, 1);
    assert_eq!(report.pages[1].page_num, 2);
    assert_eq!(report.pages[0].width.to_pt(), 100.0);
    assert_eq!(report.pages[0].height.to_pt(), 50.0);
    match report.log.last() {
        Some(LogRecord::Note(note)) => assert_eq!(note, "compiled successfully in 1.00ms"),
        other => panic!("{other:?}"),
    }
    assert_eq!(report.log.len(), 1);
}

#[test]
fn fingerprints_are_the_same_for_the_same_source() {
    let (engine, first) = compiled(PAGE);
    let (_, second) = engine.compile("2024-01-01T00:00:00Z", run);
    let (_, third) = compiled(PAGE);
    assert_eq!(first.pages[0].fingerprint, second.pages[0].fingerprint);
    assert_eq!(first.pages[0].fingerprint, third.pages[0].fingerprint);
}

#[test]
fn color_change_keeps_size_and_changes_fingerprint() {
    let (engine, before) = compiled(PAGE);
    let mut engine = engine;
    let at = PAGE.find("red").unwrap();
    engine.apply_content_edit(at, at + 3, "blue");
    let (_, after) = engine.compile("2024-01-01T00:00:00Z", run);
    assert_eq!(before.pages.len(), 1);
    assert_eq!(after.pages.len(), 1);
    assert_eq!(before.pages[0].width, after.pages[0].width);
    assert_eq!(before.pages[0].height, after.pages[0].height);
    assert_eq!(before.pages[0].page_num, after.pages[0].page_num);
    assert_ne!(before.pages[0].fingerprint, after.pages[0].fingerprint);
}

#[test]
fn change_on_one_page_leaves_the_other_fingerprint() {
    let text = "#set page(width: 100pt, height: 50pt)\n#rect(fill: red)\n#pagebreak()\n#rect(fill: green)";
    let (engine, before) = compiled(text);
    let mut engine = engine;
    let at = text.find("green").unwrap();
    engine.apply_content_edit(at, at + 5, "black");
    let (_, after) = engine.compile("2024-01-01T00:00:00Z", run);
    assert_eq!(before.pages[0].fingerprint, after.pages[0].fingerprint);
    assert_ne!(before.pages[1].fingerprint, after.pages[1].fingerprint);
}

#[test]
fn missing_page_is_told_apart() {
    let (engine, _) = compiled(PAGE);
    assert_eq!(engine.render_page(1, false, render).err(), Some(EngineFailure::NoSuchPage));
    let outside = PreviewPosition { page: 7, point: Point::new(Abs::pt(-10.0), Abs::pt(9999.0)) };
    let (engine, back) = engine.inverse_search(&outside, |_, _, _, _| panic!("there is no such page"));
    assert_eq!(back, Err(EngineFailure::NoSuchPage));
    let edge = PreviewPosition { page: 1, point: origin() };
    let (_, back) = engine.inverse_search(&edge, |_, _, _, _| panic!("there is no such page"));
    assert_eq!(back, Err(EngineFailure::NoSuchPage));
    assert_eq!(EngineFailure::NoSuchPage.message(), "No such page");
}

#[test]
fn inverse_search_goes_by_the_jump() {
    let (engine, _) = compiled(PAGE);
    let pos = PreviewPosition { page: 0, point: origin() };
    let (engine, none) = engine.inverse_search(&pos, |world, _, _, _| (None, world));
    assert_eq!(none, Err(EngineFailure::InverseSearchFailed));
    let (engine, url) = engine.inverse_search(&pos, |world, _, _, _| (Some(Jump::Url), world));
    assert_eq!(url, Err(EngineFailure::JumpNotApplicable));
    let (engine, position) =
        engine.inverse_search(&pos, |world, _, _, _| (Some(Jump::Position), world));
    assert_eq!(position, Err(EngineFailure::JumpNotApplicable));
    let (engine, elsewhere) = engine
        .inverse_search(&pos, |world, _, _, _| (Some(Jump::File { main: false, cursor: 0 }), world));
    assert_eq!(elsewhere, Err(EngineFailure::JumpNotApplicable));
    let (engine, beyond) = engine
        .inverse_search(&pos, |world, _, _, _| (Some(Jump::File { main: true, cursor: 9999 }), world));
    assert_eq!(beyond, Err(EngineFailure::JumpNotApplicable));
    let (engine, clicked) = engine.inverse_search(&pos, |world, document, page, point| {
        assert_eq!(world.main_text(), PAGE);
        assert_eq!(document.pages.len(), 1);
        assert_eq!(page, 0);
        assert_eq!(point, origin());
        (Some(Jump::File { main: true, cursor: 5 }), world)
    });
    assert_eq!(clicked, Ok(SourcePosition { line: 0, column: 5 }));
    assert_eq!(engine.convert_jump_to_source_position(Jump::Url), None);
    assert_eq!(EngineFailure::InverseSearchFailed.message(), "Inverse search failed");
    assert_eq!(EngineFailure::JumpNotApplicable.message(), "Jump target not applicable");
}

#[test]
fn forward_search_needs_a_place_in_the_text() {
    let (engine, _) = compiled(PAGE);
    assert_eq!(engine.forward_search(5, 0).err(), Some(EngineFailure::NoSuchPosition));
    assert!(engine.forward_search(1, 3).is_ok());
    assert_eq!(EngineFailure::NoSuchPosition.message(), "No such position");
}

#[test]
fn errors_are_logged_with_their_place() {
    let (_, report) = compiled("= Title\n#nothing");
    assert!(report.pages.is_empty());
    assert_eq!(report.log.len(), 2);
    match &report.log[0] {
        LogRecord::Error(entry) => {
            assert_eq!(entry.message, "unknown variable: nothing");
            assert_eq!(entry.location.file, "main.typ");
            assert_eq!((entry.location.start.line, entry.location.start.column), (1, 1));
            assert_eq!((entry.location.end.line, entry.location.end.column), (1, 8));
        }
        other => panic!("{other:?}"),
    }
    match &report.log[1] {
        LogRecord::Note(note) => assert_eq!(note, "compiled with errors in 1.00ms"),
        other => panic!("{other:?}"),
    }
}

#[test]
fn refusals_are_explained() {
    let (_, report) = compiled("#read(\"secret.txt\")");
    match &report.log[0] {
        LogRecord::Error(entry) => {
            assert!(entry.message.contains("(access denied)"), "{}", entry.message);
            assert_eq!(
                entry.hints,
                [
                    "by default cannot read file outside of document's directory",
                    "additional allowed paths can be set in compiler settings"
                ]
            );
        }
        other => panic!("{other:?}"),
    }
}

fn span_in(source: &Source) -> Span {
    source.root().children().next().unwrap().span()
}

fn message(severity: Severity, message: &str, span: Option<SpanTarget>, trace: Vec<Option<SpanTarget>>) -> Diagnostic {
    Diagnostic { severity, message: message.to_string(), span, trace, hints: vec!["a hint".to_string()] }
}

fn place(main: bool, vpath: &str, source: &Source) -> Option<SpanTarget> {
    Some(SpanTarget {
        main,
        package: None,
        vpath: vpath.to_string(),
        source: Some(source.clone()),
        span: span_in(source),
    })
}

#[test]
fn diagnostics_prefer_spans_in_the_document() {
    let source = Source::detached("hello *world*");
    let own = message(Severity::Warning, "m", place(true, "own.typ", &source), vec![place(true, "trace.typ", &source)]);
    assert_eq!(choose_span(&own).as_ref().unwrap().vpath, "own.typ");
    let traced = message(
        Severity::Warning,
        "m",
        place(false, "lib.typ", &source),
        vec![None, place(false, "other.typ", &source), place(true, "first.typ", &source), place(true, "second.typ", &source)],
    );
    assert_eq!(choose_span(&traced).as_ref().unwrap().vpath, "first.typ");
    let elsewhere = message(Severity::Warning, "m", place(false, "lib.typ", &source), vec![place(false, "other.typ", &source)]);
    assert_eq!(choose_span(&elsewhere).as_ref().unwrap().vpath, "lib.typ");
    let detached = message(Severity::Warning, "m", None, vec![None]);
    assert!(choose_span(&detached).is_none());
    let rescued = message(Severity::Warning, "m", None, vec![place(true, "main.typ", &source)]);
    assert_eq!(choose_span(&rescued).as_ref().unwrap().vpath, "main.typ");
}

#[test]
fn locations_name_package_files_by_their_package() {
    let source = Source::detached("hello *world*");
    let plain = span_to_location(&place(false, "lib/a.typ", &source));
    assert_eq!(plain.file, "lib/a.typ");
    assert_eq!((plain.start.line, plain.start.column), (0, 0));
    assert_eq!((plain.end.line, plain.end.column), (0, 5));
    let packaged = span_to_location(&Some(SpanTarget {
        main: false,
        package: Some(PackageSpec {
            namespace: "preview".to_string(),
            name: "cetz".to_string(),
            version: PackageVersion { major: 0, minor: 3, patch: 1 },
        }),
        vpath: "src/lib.typ".to_string(),
        source: None,
        span: Span::detached(),
    }));
    assert_eq!(packaged.file, "preview/cetz@0.3.1/src/lib.typ");
    assert_eq!((packaged.start.line, packaged.start.column), (-1, 0));
    assert_eq!((packaged.end.line, packaged.end.column), (-1, 0));
    let nowhere = span_to_location(&None);
    assert_eq!(nowhere.file, "");
    assert_eq!((nowhere.start.line, nowhere.start.column), (-1, 0));
    let foreign = span_to_location(&Some(SpanTarget {
        main: true,
        package: None,
        vpath: "main.typ".to_string(),
        source: Some(Source::detached("other")),
        span: Span::detached(),
    }));
    assert_eq!(foreign.file, "main.typ");
    assert_eq!((foreign.start.line, foreign.end.line), (-1, -1));
}

#[test]
fn log_keeps_order_and_severity() {
    let source = Source::detached("hello");
    let diagnostics = vec![
        message(Severity::Error, "first", place(true, "main.typ", &source), vec![]),
        message(Severity::Warning, "file not found (access denied)", None, vec![]),
    ];
    let mut log = vec![LogRecord::Note("kept".to_string())];
    log_diagnostics(&diagnostics, &mut log);
    assert_eq!(log.len(), 3);
    assert!(matches!(&log[0], LogRecord::Note(note) if note == "kept"));
    assert!(matches!(&log[1], LogRecord::Error(entry) if entry.message == "first" && entry.hints == ["a hint"]));
    assert!(matches!(&log[2], LogRecord::Warning(entry) if entry.hints.len() == 2 && entry.location.file.is_empty()));
    assert_eq!(get_diagnostic_hints(&diagnostics[0]), ["a hint"]);
}

#[test]
fn positions_follow_lines_and_columns() {
    let source = Source::detached("ab\ncä💛d\n");
    assert_eq!(position_at(&source, 0), Some(SourcePosition { line: 0, column: 0 }));
    assert_eq!(position_at(&source, 3), Some(SourcePosition { line: 1, column: 0 }));
    assert_eq!(position_at(&source, 10), Some(SourcePosition { line: 1, column: 3 }));
    assert_eq!(position_at(&source, 12), Some(SourcePosition { line: 2, column: 0 }));
    assert_eq!(position_at(&source, 13), None);
    assert_eq!(position_at(&source, 5), None);
    let location = position_to_file_location(&source, 10).unwrap();
    assert_eq!((location.line, location.column), (1, 3));
    assert!(position_to_file_location(&source, 99).is_none());
}

#[test]
fn summary_of_a_document_has_a_line_per_page() {
    let (engine, report) = compiled(PAGE);
    let pdf = engine.export_pdf("", "", false).unwrap().unwrap();
    assert!(!pdf.is_empty());
    let document = PagedDocument::default();
    assert!(summarize(&document).is_empty());
    assert_eq!(report.pages.len(), 1);
}

#[test]
fn metadata_and_words_need_a_document() {
    let (engine, _) = compiled(PAGE);
    let metadata = engine
        .get_metadata(|document, source| {
            assert_eq!(document.pages.len(), 1);
            assert_eq!(source.text(), PAGE);
            vec![typstdriver::analysis::ElementInfo {
                label: Some("fig".to_string()),
                span: Span::detached(),
                heading: None,
            }]
        })
        .unwrap();
    assert!(metadata.outline.is_empty());
    assert_eq!(metadata.labels.len(), 1);
    let label = |name: &str| typstdriver::analysis::ElementInfo {
        label: Some(name.to_string()),
        span: Span::detached(),
        heading: None,
    };
    let same = engine.get_metadata(|_, _| vec![label("fig")]).unwrap();
    let other = engine.get_metadata(|_, _| vec![label("tab")]).unwrap();
    assert_eq!(metadata.fingerprint, same.fingerprint);
    assert_ne!(metadata.fingerprint, other.fingerprint);
    let heading = |title: &str| typstdriver::analysis::ElementInfo {
        label: None,
        span: Span::detached(),
        heading: Some(typstdriver::analysis::HeadingInfo {
            outlined: true,
            level: 2,
            title: title.to_string(),
            span: Span::detached(),
            node: None,
        }),
    };
    let outline = engine.get_outline(|_, _| vec![label("fig"), heading("Intro")]).unwrap();
    assert_eq!(outline.entries.len(), 1);
    assert_eq!((outline.entries[0].title.as_str(), outline.entries[0].level), ("Intro", 2));
    let renamed = engine.get_outline(|_, _| vec![heading("Outro")]).unwrap();
    assert_ne!(outline.fingerprint, renamed.fingerprint);
    let words = engine.count_page_words(0, |_, page| {
        assert_eq!(page, 0);
        vec![typstdriver::analysis::WordItem::Text("three little words".to_string())]
    });
    assert_eq!(words, Ok(3));
    assert_eq!(engine.count_page_words(3, |_, _| vec![]), Err(EngineFailure::NoSuchPage));
}

const TWO_PAGES: &str = "#set page(width: 200pt, height: 100pt)\nHello\n#pagebreak()\nWorld";

#[test]
fn forward_search_counts_pages_from_zero() {
    let (engine, report) = typeset(TWO_PAGES);
    assert_eq!(report.pages.len(), 2);
    let first = engine.forward_search(1, 2).unwrap();
    assert!(!first.is_empty());
    assert!(first.iter().all(|position| position.page == 0));
    let second = engine.forward_search(3, 2).unwrap();
    assert!(!second.is_empty());
    assert!(second.iter().all(|position| position.page == 1));
    assert!(second[0].point.x.to_pt() > 0.0);
    assert!(engine.forward_search(2, 3).unwrap().is_empty());
}

#[test]
fn inverse_search_finds_the_text_that_was_clicked() {
    let (engine, _) = typeset(TWO_PAGES);
    let found = engine.forward_search(3, 2).unwrap();
    let place = PreviewPosition { page: found[0].page, point: found[0].point };
    let (_, back) = engine.inverse_search(&place, |world, document, page, click| {
        let host = host(&world, true);
        let jump = typst_ide::jump_from_click(&host, document, &document.pages[page].frame, click);
        let jump = jump.map(|jump| match jump {
            typst_ide::Jump::File(id, cursor) => Jump::File { main: id == host.source.id(), cursor },
            typst_ide::Jump::Url(_) => Jump::Url,
            typst_ide::Jump::Position(_) => Jump::Position,
        });
        (jump, world)
    });
    let position = back.unwrap();
    assert_eq!(position.line, 3);
    assert!(position.column <= 5);
}

#[test]
fn warnings_are_logged_before_the_note() {
    let (engine, report) = typeset("#set text(font: \"No Such Font\")\nHi");
    assert_eq!(report.pages.len(), 1);
    assert!(engine.render_page(0, false, render).is_ok());
    assert_eq!(report.log.len(), 2);
    match &report.log[0] {
        LogRecord::Warning(entry) => {
            assert_eq!(entry.message, "unknown font family: no such font");
            assert_eq!(entry.location.file, "main.typ");
            assert_eq!(entry.location.start.line, 0);
        }
        other => panic!("{other:?}"),
    }
    match &report.log[1] {
        LogRecord::Note(note) => assert_eq!(note, "compiled with warnings in 1.00ms"),
        other => panic!("{other:?}"),
    }
}

#[test]
fn text_color_change_keeps_page_and_changes_fingerprint() {
    let text = "#set page(width: 200pt, height: 100pt)\n#text(fill: red)[Hello]";
    let (engine, before) = typeset(text);
    let mut engine = engine;
    let at = text.find("red").unwrap();
    engine.apply_content_edit(at, at + 3, "blue");
    let (_, after) = engine.compile("2024-01-01T00:00:00Z", run_with_fonts);
    assert_eq!((before.pages.len(), after.pages.len()), (1, 1));
    assert_eq!(before.pages[0].width, after.pages[0].width);
    assert_eq!(before.pages[0].height, after.pages[0].height);
    assert_ne!(before.pages[0].fingerprint, after.pages[0].fingerprint);
}

#[test]
fn words_on_a_typeset_page_are_counted() {
    let (engine, _) = typeset("#set page(width: 200pt, height: 100pt)\nOne two three");
    fn items(frame: &typst::layout::Frame) -> Vec<typstdriver::analysis::WordItem> {
        frame
            .items()
            .map(|(_, item)| match item {
                typst::layout::FrameItem::Group(group) => {
                    typstdriver::analysis::WordItem::Group(items(&group.frame))
                }
                typst::layout::FrameItem::Text(text) => {
                    typstdriver::analysis::WordItem::Text(text.text.to_string())
                }
                _ => typstdriver::analysis::WordItem::Other,
            })
            .collect()
    }
    let words = engine.count_page_words(0, |document, page| items(&document.pages[page].frame));
    assert_eq!(words, Ok(3));
}

#[test]
fn line_feed_behind_carriage_return_does_no_harm() {
    let mut engine = EngineImpl::new(Source::detached(""), "");
    engine.set_source("a\r\nb");
    engine.apply_content_edit(2, 2, "\n");
    engine.set_source("");
    engine.apply_content_edit(0, 0, "#rect()");
    let (engine, report) = engine.compile("2024-01-01T00:00:00Z", run);
    assert_eq!(report.pages.len(), 1);
    assert!(engine.forward_search(0, 2).is_ok());
}
