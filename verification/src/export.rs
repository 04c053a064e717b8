use crate::diagnostics::{
    DiagnosticFileLocation, DiagnosticLocation, EntryView, LocationView, LogEntry, LogRecord,
    RecordView,
};
use crate::strings::{
    chars_of, copy_str, count_digits, decimal, decimal_string, decimal_width, push_char,
    push_text, push_zero_padded, replace, replaced, string_of, zero_padded,
};
use vstd::prelude::*;

verus! {

/// The name of the file for one page of a set, made from a pattern: `{p}`
/// stands for the page's number, `{n}` for the number filled up with zeros to
/// the width of the number of pages, and `{t}` for the number of pages.
pub open spec fn name_for_page(pattern: Seq<char>, page: nat, total_pages: nat) -> Seq<char> {
    let with_page = replaced(pattern, "{p}"@, decimal(page));
    let with_padded = replaced(with_page, "{n}"@, zero_padded(page, decimal_width(total_pages)));
    replaced(with_padded, "{t}"@, decimal(total_pages))
}

/// Makes the name of the file for one page of a set from a pattern.
pub fn process_name_pattern(pattern: &str, page: u64, total_pages: usize) -> (name: String)
    ensures
        name@ == name_for_page(pattern@, page as nat, total_pages as nat),
{
    let total_pages_width = count_digits(total_pages as u64);
    let page_text = chars_of(decimal_string(page).as_str());
    let mut padded = String::new();
    push_zero_padded(&mut padded, page, total_pages_width);
    assert(padded@ =~= zero_padded(page as nat, decimal_width(total_pages as nat)));
    let padded_text = chars_of(padded.as_str());
    let total_text = chars_of(decimal_string(total_pages as u64).as_str());
    proof {
        reveal_strlit("{p}");
        reveal_strlit("{n}");
        reveal_strlit("{t}");
    }
    let with_page = replace(&chars_of(pattern), &chars_of("{p}"), &page_text);
    let with_padded = replace(&with_page, &chars_of("{n}"), &padded_text);
    let with_total = replace(&with_padded, &chars_of("{t}"), &total_text);
    string_of(&with_total)
}

/// What was exported.
#[derive(Clone, Copy, Debug, PartialEq, Eq, Structural)]
pub enum ExportKind {
    Pdf,
    Png,
    PngSet,
}

impl ExportKind {
    /// The name of what was exported, as the user reads it.
    pub open spec fn label(self) -> Seq<char> {
        match self {
            ExportKind::Pdf => "PDF"@,
            ExportKind::Png => "PNG"@,
            ExportKind::PngSet => "PNG set"@,
        }
    }
}

/// The note that tells of an export that went well.
pub open spec fn export_note(kind: ExportKind, display_path: Seq<char>, elapsed: Seq<char>) -> Seq<
    char,
> {
    kind.label() + " exported successfully to "@ + display_path + " in "@ + elapsed
}

/// Tells that an export went well: what was written, where to, and how long
/// it took.
pub fn export_succeeded(kind: ExportKind, display_path: &str, elapsed: &str) -> (record: LogRecord)
    ensures
        record@ == RecordView::Note(export_note(kind, display_path@, elapsed@)),
{
    let mut note = match kind {
        ExportKind::Pdf => copy_str("PDF"),
        ExportKind::Png => copy_str("PNG"),
        ExportKind::PngSet => copy_str("PNG set"),
    };
    push_text(&mut note, " exported successfully to ");
    push_text(&mut note, display_path);
    push_text(&mut note, " in ");
    push_text(&mut note, elapsed);
    assert(note@ =~= export_note(kind, display_path@, elapsed@));
    LogRecord::Note(note)
}

/// The message that tells of a file that could not be written.
pub open spec fn write_failure(display_path: Seq<char>, error: Seq<char>) -> Seq<char> {
    "Unable to write to "@ + display_path + ": "@ + error
}

/// The place of a message that is about no file.
pub open spec fn nowhere() -> LocationView {
    LocationView {
        file: Seq::empty(),
        start: DiagnosticFileLocation { line: -1i64, column: -1i64 },
        end: DiagnosticFileLocation { line: -1i64, column: -1i64 },
    }
}

/// Tells that a file could not be written: where to, and why.
pub fn export_failed(display_path: &str, error: &str) -> (record: LogRecord)
    ensures
        record@ == RecordView::Error(
            EntryView {
                message: write_failure(display_path@, error@),
                location: nowhere(),
                hints: Seq::empty(),
            },
        ),
{
    let mut message = copy_str("Unable to write to ");
    push_text(&mut message, display_path);
    push_text(&mut message, ": ");
    push_text(&mut message, error);
    assert(message@ =~= write_failure(display_path@, error@));
    let hints: Vec<String> = Vec::new();
    assert(crate::diagnostics::text_views(hints@) =~= Seq::<Seq<char>>::empty());
    LogRecord::Error(
        LogEntry {
            message,
            location: DiagnosticLocation {
                file: String::new(),
                start: DiagnosticFileLocation { line: -1, column: -1 },
                end: DiagnosticFileLocation { line: -1, column: -1 },
            },
            hints,
        },
    )
}

/// `typst_pdf::PdfStandard`, a standard that a PDF file can conform to.
/// Nothing of its inside is known here.
#[verifier::external_type_specification]
#[verifier::external_body]
pub struct ExPdfStandard(typst_pdf::PdfStandard);

/// `typst_pdf::PdfStandards`, standards that go together. Nothing of its
/// inside is known here.
#[verifier::external_type_specification]
#[verifier::external_body]
pub struct ExPdfStandards(typst_pdf::PdfStandards);

/// `typst::diag::SourceDiagnostic`, a message of the compiler. Nothing of
/// its inside is known here.
#[verifier::external_type_specification]
#[verifier::external_body]
pub struct ExSourceDiagnostic(typst::diag::SourceDiagnostic);

/// The standard that a JSON text names, if it names one.
pub uninterp spec fn pdf_standard_of(json: Seq<char>) -> Option<typst_pdf::PdfStandard>;

/// The standards of a list taken together, if the list is consistent.
pub uninterp spec fn standards_for(list: Seq<typst_pdf::PdfStandard>) -> Option<typst_pdf::PdfStandards>;

/// Calls `serde_json::from_str` for a `typst_pdf::PdfStandard`.
#[verifier::external_body]
fn parse_pdf_standard(json: &str) -> (standard: Option<typst_pdf::PdfStandard>)
    ensures
        standard == pdf_standard_of(json@),
{
    serde_json::from_str::<typst_pdf::PdfStandard>(json).ok()
}

/// Calls `typst_pdf::PdfStandards::new`, which checks that the standards of
/// a list go together.
#[verifier::external_body]
fn combine_standards(list: &Vec<typst_pdf::PdfStandard>) -> (standards: Option<typst_pdf::PdfStandards>)
    ensures
        standards == standards_for(list@),
{
    typst_pdf::PdfStandards::new(list).ok()
}

/// What the exporter makes of a document under the given standards, or the
/// default standards where none are given, and the wish for tags: the bytes
/// of the file, or its messages on why there is none.
pub uninterp spec fn pdf_of(document: typst::layout::PagedDocument, standards: Option<typst_pdf::PdfStandards>, tagged: bool) -> Result<Seq<u8>, Seq<typst::diag::SourceDiagnostic>>;

/// Whether `result` holds what the exporter has made.
pub open spec fn is_pdf(
    made: Result<Seq<u8>, Seq<typst::diag::SourceDiagnostic>>,
    result: Result<Vec<u8>, Vec<typst::diag::SourceDiagnostic>>,
) -> bool {
    match made {
        Ok(bytes) => result matches Ok(data) && data@ == bytes,
        Err(errors) => result matches Err(raised) && raised@ == errors,
    }
}

/// Whether `result` is what an export of a document gives under the options
/// that were asked for: the failure of unsound options, and else what the
/// exporter makes of the document under them.
pub open spec fn exported(
    document: typst::layout::PagedDocument,
    options: Result<PdfSettings, ExportFailure>,
    result: Result<Result<Vec<u8>, Vec<typst::diag::SourceDiagnostic>>, ExportFailure>,
) -> bool {
    match options {
        Ok(settings) => result matches Ok(inner) && is_pdf(
            pdf_of(document, settings.standards, settings.tagged),
            inner,
        ),
        Err(failure) => result == Err::<
            Result<Vec<u8>, Vec<typst::diag::SourceDiagnostic>>,
            ExportFailure,
        >(failure),
    }
}

/// Calls `typst_pdf::pdf` with options that hold the standards, or the
/// default standards where none are given, and the wish for tags; no
/// identifier, timestamp or page range is set. It gives the bytes of the
/// file, or the compiler's messages on why there is none. The exporter reads
/// nothing but the document and the options.
#[verifier::external_body]
fn render_pdf(document: &typst::layout::PagedDocument, settings: &PdfSettings) -> (result: Result<Vec<u8>, Vec<typst::diag::SourceDiagnostic>>)
    ensures
        is_pdf(pdf_of(*document, settings.standards, settings.tagged), result),
{
    let options = typst_pdf::PdfOptions {
        standards: settings.standards.clone().unwrap_or_default(),
        tagged: settings.tagged,
        ..Default::default()
    };
    typst_pdf::pdf(document, &options).map_err(|errors| errors.into_iter().collect())
}

/// What an export to PDF is to observe.
pub struct PdfSettings {
    /// The standards that the file is to conform to; none for the default.
    pub standards: Option<typst_pdf::PdfStandards>,
    /// Whether the file is to carry tags.
    pub tagged: bool,
}

/// Why an export could not be started.
#[derive(Clone, Copy, Debug, PartialEq, Eq, Structural)]
pub enum ExportFailure {
    /// There is no compiled document.
    InvalidState,
    /// A name stands for no standard.
    UnknownStandard,
    /// The version and the standard do not go together.
    IncompatibleStandards,
}

impl ExportFailure {
    /// The failure in words.
    pub fn message(&self) -> (text: &'static str)
        ensures
            text@ == match *self {
                ExportFailure::InvalidState => "Invalid state"@,
                ExportFailure::UnknownStandard => "Invalid options"@,
                ExportFailure::IncompatibleStandards => "Invalid options"@,
            },
    {
        match self {
            ExportFailure::InvalidState => "Invalid state",
            ExportFailure::UnknownStandard => "Invalid options",
            ExportFailure::IncompatibleStandards => "Invalid options",
        }
    }
}

/// A name in JSON: between double quotes.
pub open spec fn quoted(name: Seq<char>) -> Seq<char> {
    seq!['"'] + name + seq!['"']
}

/// Puts a name between double quotes.
pub fn quote(name: &str) -> (json: String)
    ensures
        json@ == quoted(name@),
{
    let mut json = String::new();
    push_char(&mut json, '"');
    push_text(&mut json, name);
    push_char(&mut json, '"');
    assert(json@ =~= quoted(name@));
    json
}

/// The names that an export is to observe: the version and the standard, as
/// far as they are given.
pub open spec fn wanted_names(pdf_version: Seq<char>, pdfa_standard: Seq<char>) -> Seq<Seq<char>> {
    (if pdf_version.len() > 0 {
        seq![pdf_version]
    } else {
        Seq::empty()
    }) + (if pdfa_standard.len() > 0 {
        seq![pdfa_standard]
    } else {
        Seq::empty()
    })
}

/// Whether every name stands for a standard.
pub open spec fn all_known(names: Seq<Seq<char>>) -> bool {
    forall|i: int| 0 <= i < names.len() ==> pdf_standard_of(quoted(#[trigger] names[i])) is Some
}

/// The standards that the names stand for.
pub open spec fn named_standards(names: Seq<Seq<char>>) -> Seq<typst_pdf::PdfStandard> {
    names.map_values(|name: Seq<char>| pdf_standard_of(quoted(name))->0)
}

/// What an export with the given version, standard and wish for tags is to
/// observe: the default standards where neither is given; a failure where a
/// name stands for no standard or the two do not go together.
pub open spec fn options_for(
    pdf_version: Seq<char>,
    pdfa_standard: Seq<char>,
    tagged: bool,
) -> Result<PdfSettings, ExportFailure> {
    let names = wanted_names(pdf_version, pdfa_standard);
    if !all_known(names) {
        Err(ExportFailure::UnknownStandard)
    } else if names.len() == 0 {
        Ok(PdfSettings { standards: None, tagged })
    } else {
        match standards_for(named_standards(names)) {
            Some(standards) => Ok(PdfSettings { standards: Some(standards), tagged }),
            None => Err(ExportFailure::IncompatibleStandards),
        }
    }
}

/// Says what an export with the given version, standard and wish for tags is
/// to observe.
pub fn pdf_options(pdf_version: &str, pdfa_standard: &str, tagged: bool) -> (result: Result<
    PdfSettings,
    ExportFailure,
>)
    ensures
        result == options_for(pdf_version@, pdfa_standard@, tagged),
{
    let ghost names = wanted_names(pdf_version@, pdfa_standard@);
    let mut standards: Vec<typst_pdf::PdfStandard> = Vec::new();
    let ghost mut taken: Seq<Seq<char>> = Seq::empty();
    proof {
        assert(named_standards(taken) =~= standards@);
    }
    if !pdf_version.is_empty() {
        match parse_pdf_standard(quote(pdf_version).as_str()) {
            Some(standard) => {
                standards.push(standard);
                proof {
                    taken = taken.push(pdf_version@);
                    assert(named_standards(taken) =~= standards@);
                }
            },
            None => {
                assert(names[0] == pdf_version@);
                return Err(ExportFailure::UnknownStandard);
            },
        }
    }
    if !pdfa_standard.is_empty() {
        match parse_pdf_standard(quote(pdfa_standard).as_str()) {
            Some(standard) => {
                standards.push(standard);
                proof {
                    taken = taken.push(pdfa_standard@);
                    assert(named_standards(taken) =~= standards@);
                }
            },
            None => {
                assert(names[names.len() - 1] == pdfa_standard@);
                return Err(ExportFailure::UnknownStandard);
            },
        }
    }
    proof {
        assert(taken =~= names);
        assert(all_known(names));
    }
    if standards.len() == 0 {
        Ok(PdfSettings { standards: None, tagged })
    } else {
        match combine_standards(&standards) {
            Some(standards) => Ok(PdfSettings { standards: Some(standards), tagged }),
            None => Err(ExportFailure::IncompatibleStandards),
        }
    }
}

/// Makes the PDF of a compiled document, if there is one and the options are
/// sound. The inner result is what the exporter gave: the bytes of the file,
/// or its messages on why there is none.
pub fn export_pdf(
    document: Option<&typst::layout::PagedDocument>,
    pdf_version: &str,
    pdfa_standard: &str,
    tagged: bool,
) -> (result: Result<Result<Vec<u8>, Vec<typst::diag::SourceDiagnostic>>, ExportFailure>)
    ensures
        document is None ==> result == Err::<
            Result<Vec<u8>, Vec<typst::diag::SourceDiagnostic>>,
            ExportFailure,
        >(ExportFailure::InvalidState),
        document matches Some(given) ==> exported(
            *given,
            options_for(pdf_version@, pdfa_standard@, tagged),
            result,
        ),
{
    let document = match document {
        Some(document) => document,
        None => {
            return Err(ExportFailure::InvalidState);
        },
    };
    match pdf_options(pdf_version, pdfa_standard, tagged) {
        Ok(settings) => Ok(render_pdf(document, &settings)),
        Err(failure) => Err(failure),
    }
}

} // verus!
