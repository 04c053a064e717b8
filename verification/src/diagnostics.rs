use crate::packages::PackageSpec;
use crate::source::{
    byte_column, byte_line, source_byte_to_column, source_byte_to_line, source_text,
};
use crate::strings::{contains, contains_text, copy_str, push_text};
use vstd::prelude::*;

verus! {

/// A place in a text: line and column, both counted from zero.
#[derive(Clone, Copy, Debug, Default, PartialEq, Eq, Hash)]
pub struct SourcePosition {
    pub line: usize,
    pub column: usize,
}

/// The place of a byte offset in a text, if the offset is one of the text.
pub open spec fn position_of(text: Seq<char>, byte: nat) -> Option<(nat, nat)> {
    match (byte_line(text, byte), byte_column(text, byte)) {
        (Some(line), Some(column)) => Some((line, column)),
        _ => None,
    }
}

/// The place of a byte offset in a buffer.
pub fn position_at(source: &typst::syntax::Source, byte: usize) -> (position: Option<SourcePosition>)
    ensures
        match position_of(source_text(*source), byte as nat) {
            Some(place) => position matches Some(p) && p.line == place.0 && p.column == place.1,
            None => position is None,
        },
{
    let line = match source_byte_to_line(source, byte) {
        Some(line) => line,
        None => {
            return None;
        },
    };
    let column = match source_byte_to_column(source, byte) {
        Some(column) => column,
        None => {
            return None;
        },
    };
    Some(SourcePosition { line, column })
}

/// One end of the range that a diagnostic points at. A line of -1 says that
/// the place is not known.
#[derive(Clone, Copy, Debug, PartialEq, Eq, Structural)]
pub struct DiagnosticFileLocation {
    pub line: i64,
    pub column: i64,
}

impl DiagnosticFileLocation {
    /// The place that is not known.
    pub open spec fn unknown() -> DiagnosticFileLocation {
        DiagnosticFileLocation { line: -1i64, column: 0i64 }
    }
}

impl Default for DiagnosticFileLocation {
    fn default() -> (location: Self)
        ensures
            location == DiagnosticFileLocation::unknown(),
    {
        DiagnosticFileLocation { line: -1, column: 0 }
    }
}

/// The end of a diagnostic's range at a byte offset of a text; the place that
/// is not known where the offset is none of the text.
pub open spec fn file_location_of(text: Seq<char>, byte: nat) -> DiagnosticFileLocation {
    match position_of(text, byte) {
        Some(place) => DiagnosticFileLocation {
            line: (place.0 as usize) as i64,
            column: (place.1 as usize) as i64,
        },
        None => DiagnosticFileLocation::unknown(),
    }
}

/// The end of a diagnostic's range at a byte offset of a buffer.
pub fn position_to_file_location(source: &typst::syntax::Source, byte_idx: usize) -> (location:
    Option<DiagnosticFileLocation>)
    ensures
        position_of(source_text(*source), byte_idx as nat) is Some ==> location == Some(
            file_location_of(source_text(*source), byte_idx as nat),
        ),
        position_of(source_text(*source), byte_idx as nat) is None ==> location is None,
{
    match position_at(source, byte_idx) {
        Some(position) => Some(
            DiagnosticFileLocation {
                line: #[verifier::truncate]
                (position.line as i64),
                column: #[verifier::truncate]
                (position.column as i64),
            },
        ),
        None => None,
    }
}

/// `typst::syntax::Span`, the compiler's mark for a range of a source file.
/// Nothing of its inside is known here.
#[verifier::external_type_specification]
#[verifier::external_body]
pub struct ExSpan(typst::syntax::Span);

/// The range of bytes that a span covers in a buffer, if the span points
/// into that buffer.
pub uninterp spec fn span_range(source: typst::syntax::Source, span: typst::syntax::Span) -> Option<(nat, nat)>;

/// Calls `typst::syntax::Source::range` and hands out both ends of the
/// range.
#[verifier::external_body]
pub(crate) fn source_range(source: &typst::syntax::Source, span: typst::syntax::Span) -> (range: Option<(usize, usize)>)
    ensures
        range matches Some(r) ==> span_range(*source, span) == Some((r.0 as nat, r.1 as nat)),
        range is None ==> span_range(*source, span) is None,
{
    source.range(span).map(|range| (range.start, range.end))
}

/// How grave a diagnostic is.
#[derive(Clone, Copy, Debug, PartialEq, Eq, Structural)]
pub enum Severity {
    Error,
    Warning,
}

/// What a span of the compiler points at: a file, and a range in it.
pub struct SpanTarget {
    /// Whether the file is the document that is being edited.
    pub main: bool,
    /// The package that holds the file, if one does.
    pub package: Option<PackageSpec>,
    /// The virtual path of the file, without a leading slash.
    pub vpath: String,
    /// The text of the file, if it could be had.
    pub source: Option<typst::syntax::Source>,
    /// The span itself.
    pub span: typst::syntax::Span,
}

/// A message of the compiler. A span is absent where it points at no file.
pub struct Diagnostic {
    pub severity: Severity,
    pub message: String,
    pub span: Option<SpanTarget>,
    /// The spans of the calls that led to the message, nearest first.
    pub trace: Vec<Option<SpanTarget>>,
    pub hints: Vec<String>,
}

/// Where a diagnostic points, in the model.
pub struct LocationView {
    pub file: Seq<char>,
    pub start: DiagnosticFileLocation,
    pub end: DiagnosticFileLocation,
}

impl LocationView {
    /// The location of a diagnostic that points at no file.
    pub open spec fn unknown() -> LocationView {
        LocationView {
            file: Seq::empty(),
            start: DiagnosticFileLocation::unknown(),
            end: DiagnosticFileLocation::unknown(),
        }
    }
}

/// Where a diagnostic points: the file as it is shown to the user, and both
/// ends of the range.
#[derive(Debug)]
pub struct DiagnosticLocation {
    pub file: String,
    pub start: DiagnosticFileLocation,
    pub end: DiagnosticFileLocation,
}

impl View for DiagnosticLocation {
    type V = LocationView;

    open spec fn view(&self) -> LocationView {
        LocationView { file: self.file@, start: self.start, end: self.end }
    }
}

impl Default for DiagnosticLocation {
    fn default() -> (location: Self)
        ensures
            location@ == LocationView::unknown(),
    {
        DiagnosticLocation {
            file: String::new(),
            start: DiagnosticFileLocation::default(),
            end: DiagnosticFileLocation::default(),
        }
    }
}

/// The name under which a file is shown to the user: the virtual path,
/// behind the package's prefix where the file belongs to a package.
pub open spec fn display_path(package: Option<PackageSpec>, vpath: Seq<char>) -> Seq<char> {
    match package {
        Some(pkg) => pkg@.display_prefix() + vpath,
        None => vpath,
    }
}

/// Both ends of the range that a span covers in its file; the place that is
/// not known where the file's text or the range cannot be had.
pub open spec fn span_ends(target: SpanTarget) -> (DiagnosticFileLocation, DiagnosticFileLocation) {
    match target.source {
        Some(source) => match span_range(source, target.span) {
            Some(range) => (
                file_location_of(source_text(source), range.0),
                file_location_of(source_text(source), range.1),
            ),
            None => (DiagnosticFileLocation::unknown(), DiagnosticFileLocation::unknown()),
        },
        None => (DiagnosticFileLocation::unknown(), DiagnosticFileLocation::unknown()),
    }
}

/// Where a span points.
pub open spec fn location_of(target: Option<SpanTarget>) -> LocationView {
    match target {
        Some(target) => LocationView {
            file: display_path(target.package, target.vpath@),
            start: span_ends(target).0,
            end: span_ends(target).1,
        },
        None => LocationView::unknown(),
    }
}

/// Says where a span points.
pub fn span_to_location(target: &Option<SpanTarget>) -> (location: DiagnosticLocation)
    ensures
        location@ == location_of(*target),
{
    let target = match target {
        Some(target) => target,
        None => {
            return DiagnosticLocation::default();
        },
    };
    let mut file = match &target.package {
        Some(pkg) => pkg.display_prefix(),
        None => String::new(),
    };
    push_text(&mut file, target.vpath.as_str());
    assert(file@ =~= display_path(target.package, target.vpath@));
    let mut start = DiagnosticFileLocation::default();
    let mut end = DiagnosticFileLocation::default();
    match &target.source {
        Some(source) => {
            match source_range(source, target.span) {
                Some(range) => {
                    match position_to_file_location(source, range.0) {
                        Some(location) => {
                            start = location;
                        },
                        None => {},
                    }
                    match position_to_file_location(source, range.1) {
                        Some(location) => {
                            end = location;
                        },
                        None => {},
                    }
                },
                None => {},
            }
        },
        None => {},
    }
    DiagnosticLocation { file, start, end }
}

/// Whether a span points into the document that is being edited.
pub open spec fn in_main(target: Option<SpanTarget>) -> bool {
    target matches Some(t) && t.main
}

/// The index of the first span at or behind `from` that points into the
/// document that is being edited.
pub open spec fn first_in_main(spans: Seq<Option<SpanTarget>>, from: int) -> Option<int>
    decreases spans.len() - from,
{
    if from < 0 || from >= spans.len() {
        None
    } else if in_main(spans[from]) {
        Some(from)
    } else {
        first_in_main(spans, from + 1)
    }
}

/// The span that a diagnostic is shown at: its own where that points into
/// the document, else the first of its trace that does, and its own where
/// none does.
pub open spec fn chosen_span(own: Option<SpanTarget>, trace: Seq<Option<SpanTarget>>) -> Option<
    SpanTarget,
> {
    if in_main(own) {
        own
    } else {
        match first_in_main(trace, 0) {
            Some(at) => trace[at],
            None => own,
        }
    }
}

/// Picks the span that a diagnostic is shown at.
pub fn choose_span(diag: &Diagnostic) -> (span: &Option<SpanTarget>)
    ensures
        *span == chosen_span(diag.span, diag.trace@),
{
    match &diag.span {
        Some(target) => {
            if target.main {
                return &diag.span;
            }
        },
        None => {},
    }
    let mut i: usize = 0;
    while i < diag.trace.len()
        invariant
            i <= diag.trace.len(),
            !in_main(diag.span),
            first_in_main(diag.trace@, 0) == first_in_main(diag.trace@, i as int),
        decreases diag.trace.len() - i,
    {
        match &diag.trace[i] {
            Some(target) => {
                if target.main {
                    return &diag.trace[i];
                }
            },
            None => {},
        }
        i = i + 1;
    }
    &diag.span
}

/// The words in a message that tell that the sandbox has refused a file.
pub open spec fn denial_marker() -> Seq<char> {
    "(access denied)"@
}

/// The first thing that the user is told after the sandbox has refused a
/// file.
pub open spec fn denial_hint_policy() -> Seq<char> {
    "by default cannot read file outside of document's directory"@
}

/// The second thing that the user is told after the sandbox has refused a
/// file.
pub open spec fn denial_hint_settings() -> Seq<char> {
    "additional allowed paths can be set in compiler settings"@
}

/// The texts, in the model.
pub open spec fn text_views(texts: Seq<String>) -> Seq<Seq<char>> {
    texts.map_values(|text: String| text@)
}

/// The hints that are shown with a message: those that explain the sandbox
/// where the message tells of a refusal, and the compiler's own else.
pub open spec fn hints_of(message: Seq<char>, hints: Seq<Seq<char>>) -> Seq<Seq<char>> {
    if contains_text(message, denial_marker()) {
        seq![denial_hint_policy(), denial_hint_settings()]
    } else {
        hints
    }
}

/// The hints that are shown with a diagnostic.
pub fn get_diagnostic_hints(diag: &Diagnostic) -> (hints: Vec<String>)
    ensures
        text_views(hints@) == hints_of(diag.message@, text_views(diag.hints@)),
{
    let mut hints: Vec<String> = Vec::new();
    if contains(diag.message.as_str(), "(access denied)") {
        hints.push(copy_str("by default cannot read file outside of document's directory"));
        hints.push(copy_str("additional allowed paths can be set in compiler settings"));
        assert(text_views(hints@) =~= seq![denial_hint_policy(), denial_hint_settings()]);
    } else {
        let mut i: usize = 0;
        while i < diag.hints.len()
            invariant
                i <= diag.hints.len(),
                text_views(hints@) == text_views(diag.hints@).take(i as int),
            decreases diag.hints.len() - i,
        {
            let ghost before = text_views(hints@);
            hints.push(diag.hints[i].clone());
            proof {
                assert(text_views(hints@) =~= before.push(diag.hints[i as int]@));
                assert(text_views(diag.hints@).take(i + 1) =~= text_views(diag.hints@).take(
                    i as int,
                ).push(diag.hints[i as int]@));
            }
            i = i + 1;
        }
        assert(text_views(diag.hints@).take(diag.hints.len() as int) =~= text_views(diag.hints@));
    }
    hints
}

/// What is logged for a diagnostic, in the model.
pub struct EntryView {
    pub message: Seq<char>,
    pub location: LocationView,
    pub hints: Seq<Seq<char>>,
}

/// What is logged for a diagnostic.
#[derive(Debug)]
pub struct LogEntry {
    pub message: String,
    pub location: DiagnosticLocation,
    pub hints: Vec<String>,
}

impl View for LogEntry {
    type V = EntryView;

    open spec fn view(&self) -> EntryView {
        EntryView {
            message: self.message@,
            location: self.location@,
            hints: text_views(self.hints@),
        }
    }
}

/// One message to the logger, in the model.
pub enum RecordView {
    Note(Seq<char>),
    Warning(EntryView),
    Error(EntryView),
}

/// One message to the logger.
#[derive(Debug)]
pub enum LogRecord {
    Note(String),
    Warning(LogEntry),
    Error(LogEntry),
}

impl View for LogRecord {
    type V = RecordView;

    open spec fn view(&self) -> RecordView {
        match self {
            LogRecord::Note(message) => RecordView::Note(message@),
            LogRecord::Warning(entry) => RecordView::Warning(entry@),
            LogRecord::Error(entry) => RecordView::Error(entry@),
        }
    }
}

/// The messages, in the model.
pub open spec fn record_views(records: Seq<LogRecord>) -> Seq<RecordView> {
    records.map_values(|record: LogRecord| record@)
}

/// What is logged for a diagnostic: its message, the place of the span that
/// it is shown at, and its hints, as an error or a warning.
pub open spec fn record_of(diag: Diagnostic) -> RecordView {
    let entry = EntryView {
        message: diag.message@,
        location: location_of(chosen_span(diag.span, diag.trace@)),
        hints: hints_of(diag.message@, text_views(diag.hints@)),
    };
    match diag.severity {
        Severity::Error => RecordView::Error(entry),
        Severity::Warning => RecordView::Warning(entry),
    }
}

/// What is logged for a list of diagnostics, in their order.
pub open spec fn records_of(diagnostics: Seq<Diagnostic>) -> Seq<RecordView> {
    diagnostics.map_values(|diag: Diagnostic| record_of(diag))
}

/// Appends to `log` what is to be logged for each of the diagnostics.
pub fn log_diagnostics(diagnostics: &Vec<Diagnostic>, log: &mut Vec<LogRecord>)
    ensures
        record_views(final(log)@) == record_views(old(log)@) + records_of(diagnostics@),
{
    let mut i: usize = 0;
    assert(records_of(diagnostics@).take(0) =~= Seq::<RecordView>::empty());
    while i < diagnostics.len()
        invariant
            i <= diagnostics.len(),
            record_views(log@) == record_views(old(log)@) + records_of(diagnostics@).take(i as int),
        decreases diagnostics.len() - i,
    {
        let diag = &diagnostics[i];
        let span = choose_span(diag);
        let entry = LogEntry {
            message: diag.message.clone(),
            location: span_to_location(span),
            hints: get_diagnostic_hints(diag),
        };
        let record = match diag.severity {
            Severity::Error => LogRecord::Error(entry),
            Severity::Warning => LogRecord::Warning(entry),
        };
        let ghost before = record_views(log@);
        log.push(record);
        proof {
            assert(record@ == record_of(*diag));
            assert(record_views(log@) =~= before.push(record@));
            assert(records_of(diagnostics@).take(i + 1) =~= records_of(diagnostics@).take(
                i as int,
            ).push(record_of(diagnostics@[i as int])));
        }
        i = i + 1;
    }
    assert(records_of(diagnostics@).take(diagnostics.len() as int) =~= records_of(diagnostics@));
}

} // verus!
