use crate::diagnostics::{
    log_diagnostics, position_at, position_of, record_views, records_of, Diagnostic, LogRecord,
    RecordView, SourcePosition,
};
use crate::packages::SpecView;
use crate::source::{line_column_byte, source_line_column_to_byte, source_text};
use crate::strings::{copy_str, push_text};
use crate::world::{parsed_timestamp, KatvanWorld};
use std::hash::Hasher;
use vstd::std_specs::hash::DefaultHasherAdditionalSpecFns;
use vstd::prelude::*;

verus! {

/// `typst::layout::PagedDocument`, a compiled document. Nothing of its
/// inside is known here.
#[verifier::external_type_specification]
#[verifier::external_body]
pub struct ExPagedDocument(typst::layout::PagedDocument);

/// `typst::layout::Abs`, a length. Nothing of its inside is known here.
#[verifier::external_type_specification]
#[verifier::external_body]
pub struct ExAbs(typst::layout::Abs);

/// `typst::layout::Point`, a place on a page. Nothing of its inside is
/// known here.
#[verifier::external_type_specification]
#[verifier::external_body]
pub struct ExPoint(typst::layout::Point);

/// `typst::layout::Frame`, all that is drawn on a page or in a part of it.
/// Nothing of its inside is known here.
#[verifier::external_type_specification]
#[verifier::external_body]
pub struct ExFrame(typst::layout::Frame);

/// What a page of a compiled document is to the preview: its number, the
/// width and height of its frame, without sign, and the frame itself.
pub struct PageView {
    pub number: u64,
    pub width: typst::layout::Abs,
    pub height: typst::layout::Abs,
    pub frame: typst::layout::Frame,
}

/// What a frame feeds to a hasher, write by write. It goes by what the frame
/// holds and by nothing else.
pub uninterp spec fn frame_writes(frame: typst::layout::Frame) -> Seq<Seq<u8>>;

/// The number that stands for all that is drawn in a frame: what a hasher
/// that starts afresh makes of what the frame feeds it.
pub open spec fn frame_fingerprint(frame: typst::layout::Frame) -> u64 {
    std::hash::DefaultHasher::spec_finish(frame_writes(frame))
}

/// The pages of a compiled document, in their order.
pub uninterp spec fn document_pages(document: typst::layout::PagedDocument) -> Seq<PageView>;

/// Reads the length of `typst::layout::PagedDocument::pages`.
#[verifier::external_body]
fn page_count(document: &typst::layout::PagedDocument) -> (count: usize)
    ensures
        count == document_pages(*document).len(),
{
    document.pages.len()
}

/// Reads the number of one of `typst::layout::PagedDocument::pages`.
#[verifier::external_body]
fn page_number(document: &typst::layout::PagedDocument, index: usize) -> (number: u64)
    requires
        index < document_pages(*document).len(),
    ensures
        number == document_pages(*document)[index as int].number,
{
    document.pages[index].number
}

/// Calls `typst::layout::Frame::width` on the frame of one of the pages and
/// `typst::layout::Abs::abs` on the result.
#[verifier::external_body]
fn page_width(document: &typst::layout::PagedDocument, index: usize) -> (width: typst::layout::Abs)
    requires
        index < document_pages(*document).len(),
    ensures
        width == document_pages(*document)[index as int].width,
{
    document.pages[index].frame.width().abs()
}

/// Calls `typst::layout::Frame::height` on the frame of one of the pages and
/// `typst::layout::Abs::abs` on the result.
#[verifier::external_body]
fn page_height(document: &typst::layout::PagedDocument, index: usize) -> (height: typst::layout::Abs)
    requires
        index < document_pages(*document).len(),
    ensures
        height == document_pages(*document)[index as int].height,
{
    document.pages[index].frame.height().abs()
}

/// Calls `std::hash::Hash::hash` of the frame of one of the pages. The frame
/// writes what it holds to the hasher, behind what was written before.
#[verifier::external_body]
fn feed_page(hasher: &mut std::hash::DefaultHasher, document: &typst::layout::PagedDocument, index: usize)
    requires
        index < document_pages(*document).len(),
    ensures
        final(hasher)@ == old(hasher)@ + frame_writes(document_pages(*document)[index as int].frame),
{
    std::hash::Hash::hash(&document.pages[index].frame, hasher);
}

/// The fingerprint of one of the pages: what a fresh hasher makes of the
/// page's frame.
fn page_fingerprint(document: &typst::layout::PagedDocument, index: usize) -> (fingerprint: u64)
    requires
        index < document_pages(*document).len(),
    ensures
        fingerprint == frame_fingerprint(document_pages(*document)[index as int].frame),
{
    let mut hasher = std::hash::DefaultHasher::new();
    feed_page(&mut hasher, document, index);
    proof {
        let fed = frame_writes(document_pages(*document)[index as int].frame);
        assert(Seq::<Seq<u8>>::empty() + fed =~= fed);
    }
    hasher.finish()
}

/// Calls `typst::comemo::evict`, which drops the compiler's memoized results
/// that have not been used for `max_age` evictions.
#[verifier::external_body]
fn evict_memoized(max_age: usize) {
    typst::comemo::evict(max_age);
}

/// What the preview is told of a page: its number, its size, and a number
/// that changes when what is drawn on the page changes.
#[derive(Clone, Copy, Debug)]
pub struct PreviewPageDataInternal {
    pub page_num: u64,
    pub width: typst::layout::Abs,
    pub height: typst::layout::Abs,
    pub fingerprint: u64,
}

/// Whether a summary tells of each page of a document, in order, its
/// number, its size and the fingerprint of its frame.
pub open spec fn summarizes(
    summary: Seq<PreviewPageDataInternal>,
    document: typst::layout::PagedDocument,
) -> bool {
    &&& summary.len() == document_pages(document).len()
    &&& forall|i: int|
        0 <= i < summary.len() ==> {
            &&& (#[trigger] summary[i]).page_num == document_pages(document)[i].number
            &&& summary[i].width == document_pages(document)[i].width
            &&& summary[i].height == document_pages(document)[i].height
            &&& summary[i].fingerprint == frame_fingerprint(document_pages(document)[i].frame)
        }
}

/// A page keeps its fingerprint from one compiled document to another as
/// long as its frame stays the same; so two summaries of the same document
/// agree on every fingerprint.
pub proof fn lemma_same_frame_same_fingerprint(
    first: Seq<PreviewPageDataInternal>,
    first_document: typst::layout::PagedDocument,
    second: Seq<PreviewPageDataInternal>,
    second_document: typst::layout::PagedDocument,
    page: int,
)
    requires
        summarizes(first, first_document),
        summarizes(second, second_document),
        0 <= page < first.len(),
        page < second.len(),
        document_pages(first_document)[page].frame == document_pages(second_document)[page].frame,
    ensures
        first[page].fingerprint == second[page].fingerprint,
{
}

/// Two summaries of the same document are the same, page by page: number,
/// size and fingerprint.
pub proof fn lemma_same_document_same_summary(
    first: Seq<PreviewPageDataInternal>,
    second: Seq<PreviewPageDataInternal>,
    document: typst::layout::PagedDocument,
)
    requires
        summarizes(first, document),
        summarizes(second, document),
    ensures
        first.len() == second.len(),
        forall|i: int|
            0 <= i < first.len() ==> {
                &&& (#[trigger] first[i]).page_num == second[i].page_num
                &&& first[i].width == second[i].width
                &&& first[i].height == second[i].height
                &&& first[i].fingerprint == second[i].fingerprint
            },
{
    assert forall|i: int| 0 <= i < first.len() implies {
        &&& (#[trigger] first[i]).page_num == second[i].page_num
        &&& first[i].width == second[i].width
        &&& first[i].height == second[i].height
        &&& first[i].fingerprint == second[i].fingerprint
    } by {
        assert(second[i].page_num == document_pages(document)[i].number);
    }
}

/// Tells of each page of a document its number, its size and its
/// fingerprint.
pub fn summarize(document: &typst::layout::PagedDocument) -> (summary: Vec<PreviewPageDataInternal>)
    ensures
        summarizes(summary@, *document),
{
    let count = page_count(document);
    let mut summary: Vec<PreviewPageDataInternal> = Vec::new();
    let mut i: usize = 0;
    while i < count
        invariant
            i <= count,
            count == document_pages(*document).len(),
            summary.len() == i,
            forall|k: int|
                0 <= k < i ==> {
                    &&& (#[trigger] summary[k]).page_num == document_pages(*document)[k].number
                    &&& summary[k].width == document_pages(*document)[k].width
                    &&& summary[k].height == document_pages(*document)[k].height
                    &&& summary[k].fingerprint == frame_fingerprint(
                        document_pages(*document)[k].frame,
                    )
                },
        decreases count - i,
    {
        summary.push(
            PreviewPageDataInternal {
                page_num: page_number(document, i),
                width: page_width(document, i),
                height: page_height(document, i),
                fingerprint: page_fingerprint(document, i),
            },
        );
        i = i + 1;
    }
    summary
}

/// Why the engine could not do what it was asked.
#[derive(Clone, Copy, Debug, PartialEq, Eq, Structural)]
pub enum EngineFailure {
    /// There is no compiled document.
    InvalidState,
    /// The compiled document has no page with that index.
    NoSuchPage,
    /// The text has no place at that line and column.
    NoSuchPosition,
    /// Nothing in the document lies at the place that was clicked.
    InverseSearchFailed,
    /// What lies at the place that was clicked does not come from the
    /// document that is being edited.
    JumpNotApplicable,
    /// There is nothing to tell about the place.
    NoTooltip,
    /// There is nothing to complete at the place.
    NoCompletions,
    /// What stands at the place is defined nowhere that can be shown.
    DefinitionNotFound,
    /// There is no compiled document to describe.
    NotCompiled,
}

impl EngineFailure {
    /// The failure in words.
    pub fn message(&self) -> (text: &'static str)
        ensures
            text@ == match *self {
                EngineFailure::InvalidState => "Invalid state"@,
                EngineFailure::NoSuchPage => "No such page"@,
                EngineFailure::NoSuchPosition => "No such position"@,
                EngineFailure::InverseSearchFailed => "Inverse search failed"@,
                EngineFailure::JumpNotApplicable => "Jump target not applicable"@,
                EngineFailure::NoTooltip => "No available tooltip"@,
                EngineFailure::NoCompletions => "No available completions"@,
                EngineFailure::DefinitionNotFound => "Definition not found"@,
                EngineFailure::NotCompiled => "Not compiled yet"@,
            },
    {
        match self {
            EngineFailure::InvalidState => "Invalid state",
            EngineFailure::NoSuchPage => "No such page",
            EngineFailure::NoSuchPosition => "No such position",
            EngineFailure::InverseSearchFailed => "Inverse search failed",
            EngineFailure::JumpNotApplicable => "Jump target not applicable",
            EngineFailure::NoTooltip => "No available tooltip",
            EngineFailure::NoCompletions => "No available completions",
            EngineFailure::DefinitionNotFound => "Definition not found",
            EngineFailure::NotCompiled => "Not compiled yet",
        }
    }
}

/// What a run of the compiler has brought: the document or the errors that
/// kept it from being made, the warnings, and the time that the run took, as
/// it is to be shown.
pub struct CompileOutcome {
    pub output: Result<typst::layout::PagedDocument, Vec<Diagnostic>>,
    pub warnings: Vec<Diagnostic>,
    pub elapsed: String,
}

/// What the caller is told of a run of the compiler: the pages, and what is
/// to be logged.
pub struct CompileReport {
    pub pages: Vec<PreviewPageDataInternal>,
    pub log: Vec<LogRecord>,
}

/// The note that ends the log of a run of the compiler.
pub open spec fn closing_note(outcome: CompileOutcome) -> Seq<char> {
    match outcome.output {
        Ok(_) => if outcome.warnings@.len() == 0 {
            "compiled successfully in "@ + outcome.elapsed@
        } else {
            "compiled with warnings in "@ + outcome.elapsed@
        },
        Err(_) => "compiled with errors in "@ + outcome.elapsed@,
    }
}

/// What is logged for a run of the compiler: the errors, if it has failed,
/// then the warnings, then a note.
pub open spec fn log_of(outcome: CompileOutcome) -> Seq<RecordView> {
    match outcome.output {
        Ok(_) => records_of(outcome.warnings@).push(RecordView::Note(closing_note(outcome))),
        Err(errors) => (records_of(errors@) + records_of(outcome.warnings@)).push(
            RecordView::Note(closing_note(outcome)),
        ),
    }
}

/// Whether `report` and `snapshot` are what a run of the compiler with the
/// given outcome leaves: a document becomes the snapshot and is summarized;
/// without one there is no snapshot and no page.
pub open spec fn compiled(
    outcome: CompileOutcome,
    report: CompileReport,
    snapshot: Option<typst::layout::PagedDocument>,
) -> bool {
    &&& record_views(report.log@) == log_of(outcome)
    &&& match outcome.output {
        Ok(document) => snapshot == Some(document) && summarizes(report.pages@, document),
        Err(_) => snapshot is None && report.pages@.len() == 0,
    }
}

/// After a run of the compiler there is a snapshot if and only if the run
/// has made a document.
pub proof fn lemma_snapshot_follows_outcome(
    outcome: CompileOutcome,
    report: CompileReport,
    snapshot: Option<typst::layout::PagedDocument>,
)
    requires
        compiled(outcome, report, snapshot),
    ensures
        snapshot is Some <==> outcome.output is Ok,
        snapshot is None ==> report.pages@.len() == 0,
{
}

/// Takes in what a run of the compiler has brought.
fn take_outcome(outcome: CompileOutcome) -> (result: (
    CompileReport,
    Option<typst::layout::PagedDocument>,
))
    ensures
        compiled(outcome, result.0, result.1),
{
    let ghost given = outcome;
    let CompileOutcome { output, warnings, elapsed } = outcome;
    let mut log: Vec<LogRecord> = Vec::new();
    assert(record_views(log@) =~= Seq::<RecordView>::empty());
    match output {
        Ok(document) => {
            log_diagnostics(&warnings, &mut log);
            let mut note = if warnings.len() == 0 {
                copy_str("compiled successfully in ")
            } else {
                copy_str("compiled with warnings in ")
            };
            push_text(&mut note, elapsed.as_str());
            let ghost before = record_views(log@);
            log.push(LogRecord::Note(note));
            proof {
                assert(note@ == closing_note(given));
                assert(record_views(log@) =~= before.push(RecordView::Note(note@)));
                assert(before =~= records_of(warnings@));
            }
            evict_memoized(3);
            let pages = summarize(&document);
            (CompileReport { pages, log }, Some(document))
        },
        Err(errors) => {
            log_diagnostics(&errors, &mut log);
            log_diagnostics(&warnings, &mut log);
            let mut note = copy_str("compiled with errors in ");
            push_text(&mut note, elapsed.as_str());
            let ghost before = record_views(log@);
            log.push(LogRecord::Note(note));
            proof {
                assert(note@ == closing_note(given));
                assert(record_views(log@) =~= before.push(RecordView::Note(note@)));
                assert(before =~= records_of(errors@) + records_of(warnings@));
            }
            (CompileReport { pages: Vec::new(), log }, None)
        },
    }
}

/// A place on a page of the preview.
#[derive(Clone, Copy, Debug)]
pub struct PreviewPosition {
    /// The index of the page, counted from zero.
    pub page: usize,
    pub point: typst::layout::Point,
}

/// A place in a compiled document, as the compiler gives it.
#[derive(Clone, Copy, Debug)]
pub struct DocumentPosition {
    /// The number of the page, counted from one.
    pub page: usize,
    pub point: typst::layout::Point,
}

/// The places in a compiled document at which the text at a byte offset of
/// the document's source is drawn, in the order in which the compiler finds
/// them.
pub uninterp spec fn cursor_positions(document: typst::layout::PagedDocument, source: typst::syntax::Source, cursor: nat) -> Seq<DocumentPosition>;

/// Calls `typst_ide::jump_from_cursor` and hands out page and point of each
/// position. The pages are counted from one.
#[verifier::external_body]
fn jump_from_cursor(document: &typst::layout::PagedDocument, source: &typst::syntax::Source, cursor: usize) -> (positions: Vec<DocumentPosition>)
    ensures
        positions@ == cursor_positions(*document, *source, cursor as nat),
        forall|i: int| 0 <= i < positions.len() ==> (#[trigger] positions[i]).page >= 1,
{
    typst_ide::jump_from_cursor(document, source, cursor)
        .into_iter()
        .map(|position| DocumentPosition { page: position.page.get(), point: position.point })
        .collect()
}

/// What lies at a place of the preview that was clicked.
#[derive(Clone, Copy, Debug, PartialEq, Eq, Structural)]
pub enum Jump {
    /// A byte offset in a file; `main` says whether the file is the document
    /// that is being edited.
    File { main: bool, cursor: usize },
    /// A link to the outside.
    Url,
    /// A place in the document.
    Position,
}

/// What was rendered of a page: the size in pixels, and the pixels.
#[derive(Debug)]
pub struct RenderedPage {
    pub width_px: u32,
    pub height_px: u32,
    pub buffer: Vec<u8>,
}

/// The compiler's host: the session, and the document that the last run of
/// the compiler has made.
pub struct EngineImpl {
    world: KatvanWorld,
    result: Option<typst::layout::PagedDocument>,
}

/// Whether a search from the source into the preview has the given result:
/// every place that the compiler finds, in its order, with the pages counted
/// from zero.
pub open spec fn searched_forward(
    found: Seq<DocumentPosition>,
    result: Seq<PreviewPosition>,
) -> bool {
    &&& result.len() == found.len()
    &&& forall|i: int|
        0 <= i < result.len() ==> (#[trigger] result[i]).page == found[i].page - 1 && result[i].point
            == found[i].point
}

/// Whether `positions` are the places of the preview at which the text at
/// the byte offset `cursor` of the document is drawn, as the compiler finds
/// them for a buffer that holds the document's text.
pub open spec fn found_forward(
    document: typst::layout::PagedDocument,
    text: Seq<char>,
    cursor: nat,
    positions: Seq<PreviewPosition>,
) -> bool {
    exists|source: typst::syntax::Source|
        source_text(source) == text && searched_forward(
            #[trigger] cursor_positions(document, source, cursor),
            positions,
        )
}

/// Whether `engine` and `report` are what a run of the compiler leaves: the
/// session `before`, with `now` taken as the current time, went to `run` as
/// `given`; `run` brought `outcome` and the session that the engine goes on
/// with.
pub open spec fn compile_ran<C: FnOnce(KatvanWorld) -> (CompileOutcome, KatvanWorld)>(
    before: KatvanWorld,
    now: Seq<char>,
    run: C,
    given: KatvanWorld,
    outcome: CompileOutcome,
    engine: EngineImpl,
    report: CompileReport,
) -> bool {
    &&& given.now() == parsed_timestamp(now)
    &&& given.same_but_now(&before)
    &&& call_ensures(run, (given,), (outcome, engine.world()))
    &&& compiled(outcome, report, engine.snapshot())
}

/// The place in the document's text that a jump leads to; none for a jump
/// that leads elsewhere.
pub open spec fn jump_position(text: Seq<char>, jump: Jump) -> Option<(nat, nat)> {
    match jump {
        Jump::File { main, cursor } => if main {
            position_of(text, cursor as nat)
        } else {
            None
        },
        _ => None,
    }
}

impl EngineImpl {
    /// The session.
    pub closed spec fn world(&self) -> KatvanWorld {
        self.world
    }

    /// The document that the last run of the compiler has made, if it has
    /// made one.
    pub closed spec fn snapshot(&self) -> Option<typst::layout::PagedDocument> {
        self.result
    }

    /// A host for a document in the directory `root`, with `main` as the
    /// buffer that holds the document. Nothing is compiled yet.
    pub fn new(main: typst::syntax::Source, root: &str) -> (engine: EngineImpl)
        ensures
            engine.snapshot() is None,
            engine.world().text() == Seq::<char>::empty(),
            engine.world().sandbox().root == crate::pathmap::EntryView::plain(root@),
            engine.world().sandbox().allowed == Seq::<crate::pathmap::EntryView>::empty(),
            engine.world().packages() == Map::<SpecView, Seq<char>>::empty(),
            engine.world().now() is None,
    {
        EngineImpl { world: KatvanWorld::new(main, root), result: None }
    }

    /// A host for a document in a directory that is shown to the user under
    /// another path. Nothing is compiled yet.
    pub fn with_root(main: typst::syntax::Source, root: crate::pathmap::PathMapEntry) -> (engine:
        EngineImpl)
        ensures
            engine.snapshot() is None,
            engine.world().text() == Seq::<char>::empty(),
            engine.world().sandbox().root == root@,
            engine.world().sandbox().allowed == Seq::<crate::pathmap::EntryView>::empty(),
            engine.world().packages() == Map::<SpecView, Seq<char>>::empty(),
            engine.world().now() is None,
    {
        EngineImpl { world: KatvanWorld::with_root(main, root), result: None }
    }

    /// Replaces the directories that the document may read besides its own
    /// by those of `entries` that are absolute on disk.
    pub fn set_allowed_entries(&mut self, entries: &Vec<crate::pathmap::PathMapEntry>)
        ensures
            final(self).world().sandbox().root == old(self).world().sandbox().root,
            final(self).world().sandbox().allowed == entries@.map_values(
                |entry: crate::pathmap::PathMapEntry| entry@,
            ).filter(|entry: crate::pathmap::EntryView| crate::pathmap::is_absolute(entry.actual)),
            final(self).world().text() == old(self).world().text(),
            final(self).world().packages() == old(self).world().packages(),
            final(self).snapshot() == old(self).snapshot(),
    {
        self.world.set_allowed_entries(entries);
    }

    /// Switches features of the compiler on or off.
    pub fn set_compiler_flags(&mut self, a11y_extras: bool)
        ensures
            final(self).world().features() == crate::world::features_for(a11y_extras),
            final(self).world().text() == old(self).world().text(),
            final(self).world().sandbox() == old(self).world().sandbox(),
            final(self).world().packages() == old(self).world().packages(),
            final(self).snapshot() == old(self).snapshot(),
    {
        self.world.set_compiler_flags(a11y_extras);
    }

    /// The document that the last run of the compiler has made, if it has
    /// made one.
    pub fn document(&self) -> (document: Option<&typst::layout::PagedDocument>)
        ensures
            document == borrowed(&self.snapshot()),
    {
        self.result.as_ref()
    }

    /// Hands the session and the compiled document, if there is one, to
    /// `read`, and goes on with the session that `read` hands back and with
    /// the same document.
    pub fn with_world<T, R: FnOnce(KatvanWorld, Option<&typst::layout::PagedDocument>) -> (
        T,
        KatvanWorld,
    )>(self, read: R) -> (result: (EngineImpl, T))
        requires
            forall|world: KatvanWorld, document: Option<&typst::layout::PagedDocument>|
                call_requires(read, (world, document)),
        ensures
            call_ensures(
                read,
                (self.world(), borrowed(&self.snapshot())),
                (result.1, result.0.world()),
            ),
            result.0.snapshot() == self.snapshot(),
    {
        let EngineImpl { world, result } = self;
        let (found, world) = read(world, result.as_ref());
        (EngineImpl { world, result }, found)
    }

    /// Replaces the whole text of the document.
    pub fn set_source(&mut self, text: &str)
        ensures
            final(self).world().text() == text@,
            final(self).world().same_but_text(&old(self).world()),
            final(self).snapshot() == old(self).snapshot(),
    {
        self.world.set_source_text(text);
    }

    /// Replaces the text between two UTF-16 offsets by `text`; an edit whose
    /// offsets do not fit the document as it is now is dropped.
    pub fn apply_content_edit(&mut self, from_utf16_idx: usize, to_utf16_idx: usize, text: &str)
        ensures
            final(self).world().text() == crate::source::edited(
                old(self).world().text(),
                from_utf16_idx as nat,
                to_utf16_idx as nat,
                text@,
            ),
            final(self).world().same_but_text(&old(self).world()),
            final(self).snapshot() == old(self).snapshot(),
    {
        self.world.apply_edit(from_utf16_idx, to_utf16_idx, text);
    }

    /// Replaces the directories that the document may read besides its own.
    pub fn set_allowed_paths(&mut self, paths: Vec<String>)
        ensures
            final(self).world().sandbox().root == old(self).world().sandbox().root,
            final(self).world().sandbox().allowed == paths@.map_values(
                |path: String| crate::pathmap::EntryView::plain(path@),
            ).filter(|entry: crate::pathmap::EntryView| crate::pathmap::is_absolute(entry.actual)),
            final(self).world().text() == old(self).world().text(),
            final(self).world().packages() == old(self).world().packages(),
            final(self).snapshot() == old(self).snapshot(),
    {
        self.world.set_allowed_paths(paths);
    }

    /// Forgets where the packages lie.
    pub fn discard_lookup_caches(&mut self)
        ensures
            final(self).world().packages() == Map::<SpecView, Seq<char>>::empty(),
            final(self).world().text() == old(self).world().text(),
            final(self).world().sandbox() == old(self).world().sandbox(),
            final(self).snapshot() == old(self).snapshot(),
    {
        self.world.discard_package_roots_cache();
    }

    /// Runs the compiler. The session takes `now` as the current time and is
    /// handed to `run`, which compiles the document against it and hands it
    /// back with the outcome. A document becomes the new snapshot; without
    /// one no snapshot is left.
    pub fn compile<C: FnOnce(KatvanWorld) -> (CompileOutcome, KatvanWorld)>(
        self,
        now: &str,
        run: C,
    ) -> (result: (EngineImpl, CompileReport))
        requires
            forall|world: KatvanWorld| call_requires(run, (world,)),
        ensures
            exists|given: KatvanWorld, outcome: CompileOutcome| #[trigger]
                compile_ran(self.world(), now@, run, given, outcome, result.0, result.1),
    {
        let EngineImpl { world, result: _ } = self;
        let mut world = world;
        world.reset_current_date(now);
        let ghost given = world;
        let (outcome, world) = run(world);
        let ghost brought = outcome;
        let (report, snapshot) = take_outcome(outcome);
        let engine = EngineImpl { world, result: snapshot };
        proof {
            assert(call_ensures(run, (given,), (brought, engine.world())));
            assert(compiled(brought, report, engine.snapshot()));
            assert(compile_ran(self.world(), now@, run, given, brought, engine, report));
        }
        let result = (engine, report);
        assert(compile_ran(self.world(), now@, run, given, brought, result.0, result.1));
        result
    }

    /// Hands a page of the compiled document to `render`, together with the
    /// wish to have its colors inverted.
    pub fn render_page<R: FnOnce(&typst::layout::PagedDocument, usize, bool) -> RenderedPage>(
        &self,
        page: usize,
        invert_colors: bool,
        render: R,
    ) -> (result: Result<RenderedPage, EngineFailure>)
        requires
            forall|document: &typst::layout::PagedDocument, index: usize, invert: bool|
                call_requires(render, (document, index, invert)),
        ensures
            match self.snapshot() {
                None => result == Err::<RenderedPage, EngineFailure>(EngineFailure::InvalidState),
                Some(document) => if page < document_pages(document).len() {
                    result matches Ok(rendered) && call_ensures(
                        render,
                        (&document, page, invert_colors),
                        rendered,
                    )
                } else {
                    result == Err::<RenderedPage, EngineFailure>(EngineFailure::NoSuchPage)
                },
            },
    {
        let document = match &self.result {
            Some(document) => document,
            None => {
                return Err(EngineFailure::InvalidState);
            },
        };
        if page >= page_count(document) {
            return Err(EngineFailure::NoSuchPage);
        }
        Ok(render(document, page, invert_colors))
    }

    /// Finds the places in the preview at which the text at a line and a
    /// column of the document is drawn.
    pub fn forward_search(&self, line: usize, column: usize) -> (result: Result<
        Vec<PreviewPosition>,
        EngineFailure,
    >)
        ensures
            match self.snapshot() {
                None => result == Err::<Vec<PreviewPosition>, EngineFailure>(
                    EngineFailure::InvalidState,
                ),
                Some(document) => match line_column_byte(
                    self.world().text(),
                    line as nat,
                    column as nat,
                ) {
                    None => result == Err::<Vec<PreviewPosition>, EngineFailure>(
                        EngineFailure::NoSuchPosition,
                    ),
                    Some(cursor) => result matches Ok(positions) && found_forward(
                        document,
                        self.world().text(),
                        cursor,
                        positions@,
                    ),
                },
            },
    {
        let document = match &self.result {
            Some(document) => document,
            None => {
                return Err(EngineFailure::InvalidState);
            },
        };
        let main = self.world.main_source();
        let cursor = match source_line_column_to_byte(&main, line, column) {
            Some(cursor) => cursor,
            None => {
                return Err(EngineFailure::NoSuchPosition);
            },
        };
        let found = jump_from_cursor(document, &main, cursor);
        let mut positions: Vec<PreviewPosition> = Vec::new();
        let mut i: usize = 0;
        while i < found.len()
            invariant
                i <= found.len(),
                positions.len() == i,
                forall|k: int| 0 <= k < found.len() ==> (#[trigger] found[k]).page >= 1,
                forall|k: int|
                    0 <= k < i ==> (#[trigger] positions[k]).page == found[k].page - 1
                        && positions[k].point == found[k].point,
            decreases found.len() - i,
        {
            positions.push(PreviewPosition { page: found[i].page - 1, point: found[i].point });
            i = i + 1;
        }
        proof {
            assert(searched_forward(cursor_positions(*document, main, cursor as nat), positions@));
            assert(found_forward(*document, self.world().text(), cursor as nat, positions@));
        }
        Ok(positions)
    }

    /// Makes the PDF of the compiled document. The inner result is what the
    /// exporter gave: the bytes of the file, or its messages on why there is
    /// none.
    pub fn export_pdf(&self, pdf_version: &str, pdfa_standard: &str, tagged: bool) -> (result:
        Result<Result<Vec<u8>, Vec<typst::diag::SourceDiagnostic>>, crate::export::ExportFailure>)
        ensures
            self.snapshot() is None ==> result == Err::<
                Result<Vec<u8>, Vec<typst::diag::SourceDiagnostic>>,
                crate::export::ExportFailure,
            >(crate::export::ExportFailure::InvalidState),
            self.snapshot() is Some ==> crate::export::exported(
                self.snapshot()->0,
                crate::export::options_for(pdf_version@, pdfa_standard@, tagged),
                result,
            ),
    {
        crate::export::export_pdf(self.result.as_ref(), pdf_version, pdfa_standard, tagged)
    }

    /// The place in the document's text that a jump leads to.
    pub fn convert_jump_to_source_position(&self, jump: Jump) -> (position: Option<SourcePosition>)
        ensures
            match jump_position(self.world().text(), jump) {
                Some(place) => position matches Some(p) && p.line == place.0 && p.column == place.1,
                None => position is None,
            },
    {
        match jump {
            Jump::File { main, cursor } => {
                if main {
                    let source = self.world.main_source();
                    position_at(&source, cursor)
                } else {
                    None
                }
            },
            _ => None,
        }
    }

    /// Finds the place in the document's text that is drawn at a place of
    /// the preview. `click` asks the compiler what lies at the place; it is
    /// handed the session and hands it back.
    pub fn inverse_search<
        J: FnOnce(KatvanWorld, &typst::layout::PagedDocument, usize, typst::layout::Point) -> (
            Option<Jump>,
            KatvanWorld,
        ),
    >(self, pos: &PreviewPosition, click: J) -> (result: (
        EngineImpl,
        Result<SourcePosition, EngineFailure>,
    ))
        requires
            forall|
                world: KatvanWorld,
                document: &typst::layout::PagedDocument,
                page: usize,
                point: typst::layout::Point,
            |
                call_requires(click, (world, document, page, point)),
        ensures
            result.0.snapshot() == self.snapshot(),
            match self.snapshot() {
                None => result.1 == Err::<SourcePosition, EngineFailure>(
                    EngineFailure::InvalidState,
                ) && result.0.world() == self.world(),
                Some(document) => if pos.page < document_pages(document).len() {
                    clicked(self.world(), document, *pos, click, result.0.world(), result.1)
                } else {
                    result.1 == Err::<SourcePosition, EngineFailure>(EngineFailure::NoSuchPage)
                        && result.0.world() == self.world()
                },
            },
    {
        let valid = match &self.result {
            Some(document) => if pos.page < page_count(document) {
                Ok(())
            } else {
                Err(EngineFailure::NoSuchPage)
            },
            None => Err(EngineFailure::InvalidState),
        };
        match valid {
            Err(failure) => (self, Err(failure)),
            Ok(()) => {
                let ghost before = self;
                let EngineImpl { world, result } = self;
                let document = result.unwrap();
                let (jump, world) = click(world, &document, pos.page, pos.point);
                let engine = EngineImpl { world, result: Some(document) };
                let found = match jump {
                    None => Err(EngineFailure::InverseSearchFailed),
                    Some(jump) => match engine.convert_jump_to_source_position(jump) {
                        Some(position) => Ok(position),
                        None => Err(EngineFailure::JumpNotApplicable),
                    },
                };
                proof {
                    assert(call_ensures(
                        click,
                        (before.world(), &document, pos.page, pos.point),
                        (jump, engine.world()),
                    ));
                    assert(searched_back(engine.world().text(), jump, found));
                    assert(clicked(
                        before.world(),
                        document,
                        *pos,
                        click,
                        engine.world(),
                        found,
                    ));
                }
                let result = (engine, found);
                assert(clicked(before.world(), document, *pos, click, result.0.world(), result.1));
                result
            },
        }
    }
}

/// Whether `click`, asked with the session `before` what lies at a place of
/// the preview, has handed back the session `after`, and `result` is made
/// from its answer.
pub open spec fn clicked<
    J: FnOnce(KatvanWorld, &typst::layout::PagedDocument, usize, typst::layout::Point) -> (
        Option<Jump>,
        KatvanWorld,
    ),
>(
    before: KatvanWorld,
    document: typst::layout::PagedDocument,
    pos: PreviewPosition,
    click: J,
    after: KatvanWorld,
    result: Result<SourcePosition, EngineFailure>,
) -> bool {
    exists|jump: Option<Jump>|
        (#[trigger] call_ensures(click, (before, &document, pos.page, pos.point), (jump, after)))
            && searched_back(after.text(), jump, result)
}

/// Whether a search from the preview into the source has the given result,
/// where the compiler has said what lies at the place: nothing is a failure
/// of the search, and so is a jump that leads out of the document's text.
pub open spec fn searched_back(
    text: Seq<char>,
    jump: Option<Jump>,
    result: Result<SourcePosition, EngineFailure>,
) -> bool {
    match jump {
        None => result == Err::<SourcePosition, EngineFailure>(EngineFailure::InverseSearchFailed),
        Some(jump) => match jump_position(text, jump) {
            Some(place) => result matches Ok(p) && p.line == place.0 && p.column == place.1,
            None => result == Err::<SourcePosition, EngineFailure>(
                EngineFailure::JumpNotApplicable,
            ),
        },
    }
}

/// The document that may be there, borrowed.
pub open spec fn borrowed(document: &Option<typst::layout::PagedDocument>) -> Option<
    &typst::layout::PagedDocument,
> {
    match document {
        Some(document) => Some(document),
        None => None,
    }
}

/// What can stand at a place in the text, and from where on it replaces what
/// is there.
#[derive(Debug)]
pub struct Completions {
    pub from: SourcePosition,
    pub completions_json: String,
}

/// The outline of a compiled document, and a number that changes when it
/// changes.
#[derive(Debug)]
pub struct Outline {
    pub entries: Vec<crate::analysis::OutlineEntry>,
    pub fingerprint: u64,
}

/// The outline and the labels of a compiled document, and a number that
/// changes when they change.
#[derive(Debug)]
pub struct DocumentMetadata {
    pub outline: Vec<crate::analysis::OutlineEntry>,
    pub labels: Vec<crate::analysis::LabelEntry>,
    pub fingerprint: u64,
}

/// What is shown for what the compiler has to tell about a place; nothing to
/// tell is a failure.
pub open spec fn told(
    answer: Option<crate::analysis::IdeTooltip>,
    result: Result<crate::analysis::ToolTip, EngineFailure>,
) -> bool {
    match answer {
        Some(tooltip) => result matches Ok(plain) && plain.content@ == crate::analysis::shown(
            tooltip,
        ) && plain.details_url@ == Seq::<char>::empty(),
        None => result == Err::<crate::analysis::ToolTip, EngineFailure>(EngineFailure::NoTooltip),
    }
}

/// Whether a function or type that was found at a place has documentation to
/// show.
pub open spec fn has_documentation(hovered: Option<crate::analysis::HoverTarget>) -> bool {
    hovered is Some && hovered->0.name is Some && hovered->0.docs is Some
}

/// Whether `result` is what is shown for the byte offset `at` of the
/// document's text, and `after` the session that is left: `hover` was asked
/// what stands there, with the session `before`; where that has
/// documentation, it is shown; else `fallback` was asked what the compiler
/// has to tell, with the session that `hover` handed back.
pub open spec fn told_about<
    H: FnOnce(KatvanWorld, &typst::syntax::Source, usize) -> (
        Option<crate::analysis::HoverTarget>,
        KatvanWorld,
    ),
    F: FnOnce(
        KatvanWorld,
        &typst::syntax::Source,
        usize,
        Option<&typst::layout::PagedDocument>,
    ) -> (Option<crate::analysis::IdeTooltip>, KatvanWorld),
>(
    library: crate::tooltip::StandardLibrary,
    before: KatvanWorld,
    document: Option<typst::layout::PagedDocument>,
    at: nat,
    hover: H,
    fallback: F,
    after: KatvanWorld,
    result: Result<crate::analysis::ToolTip, EngineFailure>,
) -> bool {
    exists|
        source: typst::syntax::Source,
        cursor: usize,
        hovered: Option<crate::analysis::HoverTarget>,
        between: KatvanWorld,
        answer: Option<crate::analysis::IdeTooltip>,
    | #[trigger]
        told_at(
            library,
            before,
            document,
            at,
            hover,
            fallback,
            after,
            result,
            source,
            cursor,
            hovered,
            between,
            answer,
        )
}

/// What `told_about` says, for given answers of `hover` and `fallback`.
pub open spec fn told_at<
    H: FnOnce(KatvanWorld, &typst::syntax::Source, usize) -> (
        Option<crate::analysis::HoverTarget>,
        KatvanWorld,
    ),
    F: FnOnce(
        KatvanWorld,
        &typst::syntax::Source,
        usize,
        Option<&typst::layout::PagedDocument>,
    ) -> (Option<crate::analysis::IdeTooltip>, KatvanWorld),
>(
    library: crate::tooltip::StandardLibrary,
    before: KatvanWorld,
    document: Option<typst::layout::PagedDocument>,
    at: nat,
    hover: H,
    fallback: F,
    after: KatvanWorld,
    result: Result<crate::analysis::ToolTip, EngineFailure>,
    source: typst::syntax::Source,
    cursor: usize,
    hovered: Option<crate::analysis::HoverTarget>,
    between: KatvanWorld,
    answer: Option<crate::analysis::IdeTooltip>,
) -> bool {
    &&& cursor == at
    &&& source_text(source) == before.text()
    &&& call_ensures(hover, (before, &source, cursor), (hovered, between))
    &&& if has_documentation(hovered) {
        &&& after == between
        &&& result matches Ok(tooltip)
        &&& crate::analysis::documented(library, hovered->0, Some(tooltip))
    } else {
        &&& call_ensures(fallback, (between, &source, cursor, borrowed(&document)), (answer, after))
        &&& told(answer, result)
    }
}

/// Whether `result` is what can stand at a place, where the compiler has
/// answered `found`: the place from which the text is replaced, and the
/// proposals.
pub open spec fn completed_at(
    text: Seq<char>,
    found: Option<(usize, String)>,
    result: Result<Completions, EngineFailure>,
) -> bool {
    match found {
        None => result == Err::<Completions, EngineFailure>(EngineFailure::NoCompletions),
        Some(answer) => match position_of(text, answer.0 as nat) {
            Some(place) => result matches Ok(completions) && completions.from.line == place.0
                && completions.from.column == place.1 && completions.completions_json@
                == answer.1@,
            None => result == Err::<Completions, EngineFailure>(EngineFailure::NoCompletions),
        },
    }
}

/// Whether `result` is what can stand at the byte offset `at` of the
/// document's text, and `after` the session that is left, where `complete`
/// was asked with the session `before`.
pub open spec fn completed<
    C: FnOnce(
        KatvanWorld,
        &typst::syntax::Source,
        usize,
        Option<&typst::layout::PagedDocument>,
    ) -> (Option<(usize, String)>, KatvanWorld),
>(
    before: KatvanWorld,
    document: Option<typst::layout::PagedDocument>,
    at: nat,
    complete: C,
    after: KatvanWorld,
    result: Result<Completions, EngineFailure>,
) -> bool {
    exists|source: typst::syntax::Source, cursor: usize, found: Option<(usize, String)>| #[trigger]
        completion_ran(before, document, at, complete, after, result, source, cursor, found)
}

/// What `completed` says, for a given answer of `complete`.
pub open spec fn completion_ran<
    C: FnOnce(
        KatvanWorld,
        &typst::syntax::Source,
        usize,
        Option<&typst::layout::PagedDocument>,
    ) -> (Option<(usize, String)>, KatvanWorld),
>(
    before: KatvanWorld,
    document: Option<typst::layout::PagedDocument>,
    at: nat,
    complete: C,
    after: KatvanWorld,
    result: Result<Completions, EngineFailure>,
    source: typst::syntax::Source,
    cursor: usize,
    found: Option<(usize, String)>,
) -> bool {
    &&& cursor == at
    &&& source_text(source) == before.text()
    &&& call_ensures(complete, (before, &source, cursor, borrowed(&document)), (found, after))
    &&& completed_at(before.text(), found, result)
}

/// Whether `result` is the place where what stands at the byte offset `at`
/// of the document's text is defined, and `after` the session that is left,
/// where `find` was asked with the session `before`.
pub open spec fn defined<
    D: FnOnce(
        KatvanWorld,
        &typst::syntax::Source,
        usize,
        Option<&typst::layout::PagedDocument>,
    ) -> (Option<crate::analysis::DefinitionTarget>, KatvanWorld),
>(
    before: KatvanWorld,
    document: Option<typst::layout::PagedDocument>,
    at: nat,
    find: D,
    after: KatvanWorld,
    result: Result<crate::analysis::DefinitionLocation, EngineFailure>,
) -> bool {
    exists|
        source: typst::syntax::Source,
        cursor: usize,
        found: Option<crate::analysis::DefinitionTarget>,
    | #[trigger]
        definition_ran(before, document, at, find, after, result, source, cursor, found)
}

/// What `defined` says, for a given answer of `find`.
pub open spec fn definition_ran<
    D: FnOnce(
        KatvanWorld,
        &typst::syntax::Source,
        usize,
        Option<&typst::layout::PagedDocument>,
    ) -> (Option<crate::analysis::DefinitionTarget>, KatvanWorld),
>(
    before: KatvanWorld,
    document: Option<typst::layout::PagedDocument>,
    at: nat,
    find: D,
    after: KatvanWorld,
    result: Result<crate::analysis::DefinitionLocation, EngineFailure>,
    source: typst::syntax::Source,
    cursor: usize,
    found: Option<crate::analysis::DefinitionTarget>,
) -> bool {
    &&& cursor == at
    &&& source_text(source) == before.text()
    &&& call_ensures(find, (before, &source, cursor, borrowed(&document)), (found, after))
    &&& match result {
        Ok(location) => crate::analysis::defined_at(source, found, Some(location)),
        Err(failure) => failure == EngineFailure::DefinitionNotFound
            && crate::analysis::defined_at(source, found, None),
    }
}

impl EngineImpl {
    /// Says what is shown for the place at a line and a column of the
    /// document. `hover` finds the function or type that stands at a byte
    /// offset; `fallback` asks the compiler what it has to tell about it.
    /// Both are handed the session and hand it back.
    pub fn get_tooltip<
        H: FnOnce(KatvanWorld, &typst::syntax::Source, usize) -> (
            Option<crate::analysis::HoverTarget>,
            KatvanWorld,
        ),
        F: FnOnce(
            KatvanWorld,
            &typst::syntax::Source,
            usize,
            Option<&typst::layout::PagedDocument>,
        ) -> (Option<crate::analysis::IdeTooltip>, KatvanWorld),
    >(
        self,
        library: &crate::tooltip::StandardLibrary,
        line: usize,
        column: usize,
        hover: H,
        fallback: F,
    ) -> (result: (EngineImpl, Result<crate::analysis::ToolTip, EngineFailure>))
        requires
            forall|world: KatvanWorld, source: &typst::syntax::Source, cursor: usize|
                call_requires(hover, (world, source, cursor)),
            forall|
                world: KatvanWorld,
                source: &typst::syntax::Source,
                cursor: usize,
                document: Option<&typst::layout::PagedDocument>,
            |
                call_requires(fallback, (world, source, cursor, document)),
        ensures
            result.0.snapshot() == self.snapshot(),
            match line_column_byte(self.world().text(), line as nat, column as nat) {
                None => result.1 == Err::<crate::analysis::ToolTip, EngineFailure>(
                    EngineFailure::NoSuchPosition,
                ) && result.0.world() == self.world(),
                Some(at) => told_about(
                    *library,
                    self.world(),
                    self.snapshot(),
                    at,
                    hover,
                    fallback,
                    result.0.world(),
                    result.1,
                ),
            },
    {
        let main = self.world.main_source();
        let cursor = match source_line_column_to_byte(&main, line, column) {
            Some(cursor) => cursor,
            None => {
                return (self, Err(EngineFailure::NoSuchPosition));
            },
        };
        let ghost before = self;
        let EngineImpl { world, result: document } = self;
        let (hovered, world) = hover(world, &main, cursor);
        let ghost between = world;
        let documentation = match &hovered {
            Some(target) => crate::analysis::get_documentation_tooltip(library, target),
            None => None,
        };
        match documentation {
            Some(tooltip) => {
                let engine = EngineImpl { world, result: document };
                let found = Ok(tooltip);
                proof {
                    assert(has_documentation(hovered));
                    assert(told_at(
                        *library,
                        before.world(),
                        before.snapshot(),
                        cursor as nat,
                        hover,
                        fallback,
                        engine.world(),
                        found,
                        main,
                        cursor,
                        hovered,
                        between,
                        None,
                    ));
                }
                let result = (engine, found);
                assert(told_about(
                    *library,
                    before.world(),
                    before.snapshot(),
                    cursor as nat,
                    hover,
                    fallback,
                    result.0.world(),
                    result.1,
                ));
                result
            },
            None => {
                let (answer, world) = fallback(world, &main, cursor, document.as_ref());
                let ghost given = answer;
                let engine = EngineImpl { world, result: document };
                let found = match answer {
                    Some(tooltip) => Ok(crate::analysis::plain_tooltip(tooltip)),
                    None => Err(EngineFailure::NoTooltip),
                };
                proof {
                    assert(!has_documentation(hovered));
                    assert(call_ensures(
                        fallback,
                        (between, &main, cursor, borrowed(&before.snapshot())),
                        (given, engine.world()),
                    ));
                    assert(told(given, found));
                    assert(told_at(
                        *library,
                        before.world(),
                        before.snapshot(),
                        cursor as nat,
                        hover,
                        fallback,
                        engine.world(),
                        found,
                        main,
                        cursor,
                        hovered,
                        between,
                        given,
                    ));
                }
                let result = (engine, found);
                assert(told_about(
                    *library,
                    before.world(),
                    before.snapshot(),
                    cursor as nat,
                    hover,
                    fallback,
                    result.0.world(),
                    result.1,
                ));
                result
            },
        }
    }

    /// Says what can stand at the place at a line and a column of the
    /// document. `complete` asks the compiler, which answers with the byte
    /// offset from which the text is replaced, and the proposals; it is
    /// handed the session and hands it back.
    pub fn get_completions<
        C: FnOnce(
            KatvanWorld,
            &typst::syntax::Source,
            usize,
            Option<&typst::layout::PagedDocument>,
        ) -> (Option<(usize, String)>, KatvanWorld),
    >(self, line: usize, column: usize, complete: C) -> (result: (
        EngineImpl,
        Result<Completions, EngineFailure>,
    ))
        requires
            forall|
                world: KatvanWorld,
                source: &typst::syntax::Source,
                cursor: usize,
                document: Option<&typst::layout::PagedDocument>,
            |
                call_requires(complete, (world, source, cursor, document)),
        ensures
            result.0.snapshot() == self.snapshot(),
            match line_column_byte(self.world().text(), line as nat, column as nat) {
                None => result.1 == Err::<Completions, EngineFailure>(
                    EngineFailure::NoSuchPosition,
                ) && result.0.world() == self.world(),
                Some(at) => completed(
                    self.world(),
                    self.snapshot(),
                    at,
                    complete,
                    result.0.world(),
                    result.1,
                ),
            },
    {
        let main = self.world.main_source();
        let cursor = match source_line_column_to_byte(&main, line, column) {
            Some(cursor) => cursor,
            None => {
                return (self, Err(EngineFailure::NoSuchPosition));
            },
        };
        let ghost before = self;
        let EngineImpl { world, result: document } = self;
        let (found, world) = complete(world, &main, cursor, document.as_ref());
        let ghost given = found;
        let engine = EngineImpl { world, result: document };
        let answer = match found {
            None => Err(EngineFailure::NoCompletions),
            Some(answer) => match position_at(&main, answer.0) {
                Some(from) => Ok(Completions { from, completions_json: answer.1 }),
                None => Err(EngineFailure::NoCompletions),
            },
        };
        proof {
            assert(call_ensures(
                complete,
                (before.world(), &main, cursor, borrowed(&before.snapshot())),
                (given, engine.world()),
            ));
            assert(completed_at(before.world().text(), given, answer));
            assert(completion_ran(
                before.world(),
                before.snapshot(),
                cursor as nat,
                complete,
                engine.world(),
                answer,
                main,
                cursor,
                given,
            ));
        }
        let result = (engine, answer);
        assert(completed(
            before.world(),
            before.snapshot(),
            cursor as nat,
            complete,
            result.0.world(),
            result.1,
        ));
        result
    }

    /// Says where what stands at a line and a column of the document is
    /// defined. `find` asks the compiler; it is handed the session and hands
    /// it back.
    pub fn get_definition<
        D: FnOnce(
            KatvanWorld,
            &typst::syntax::Source,
            usize,
            Option<&typst::layout::PagedDocument>,
        ) -> (Option<crate::analysis::DefinitionTarget>, KatvanWorld),
    >(self, line: usize, column: usize, find: D) -> (result: (
        EngineImpl,
        Result<crate::analysis::DefinitionLocation, EngineFailure>,
    ))
        requires
            forall|
                world: KatvanWorld,
                source: &typst::syntax::Source,
                cursor: usize,
                document: Option<&typst::layout::PagedDocument>,
            |
                call_requires(find, (world, source, cursor, document)),
        ensures
            result.0.snapshot() == self.snapshot(),
            match line_column_byte(self.world().text(), line as nat, column as nat) {
                None => result.1 == Err::<crate::analysis::DefinitionLocation, EngineFailure>(
                    EngineFailure::NoSuchPosition,
                ) && result.0.world() == self.world(),
                Some(at) => defined(
                    self.world(),
                    self.snapshot(),
                    at,
                    find,
                    result.0.world(),
                    result.1,
                ),
            },
    {
        let main = self.world.main_source();
        let cursor = match source_line_column_to_byte(&main, line, column) {
            Some(cursor) => cursor,
            None => {
                return (self, Err(EngineFailure::NoSuchPosition));
            },
        };
        let ghost before = self;
        let EngineImpl { world, result: document } = self;
        let (found, world) = find(world, &main, cursor, document.as_ref());
        let ghost given = found;
        let engine = EngineImpl { world, result: document };
        let answer = match crate::analysis::get_definition(&main, found) {
            Some(location) => Ok(location),
            None => Err(EngineFailure::DefinitionNotFound),
        };
        proof {
            assert(call_ensures(
                find,
                (before.world(), &main, cursor, borrowed(&before.snapshot())),
                (given, engine.world()),
            ));
            assert(definition_ran(
                before.world(),
                before.snapshot(),
                cursor as nat,
                find,
                engine.world(),
                answer,
                main,
                cursor,
                given,
            ));
        }
        let result = (engine, answer);
        assert(defined(
            before.world(),
            before.snapshot(),
            cursor as nat,
            find,
            result.0.world(),
            result.1,
        ));
        result
    }

    /// Makes the outline and the list of labels of the compiled document.
    /// `introspect` reads the elements off the document.
    pub fn get_metadata<
        I: FnOnce(&typst::layout::PagedDocument, &typst::syntax::Source) -> Vec<
            crate::analysis::ElementInfo,
        >,
    >(&self, introspect: I) -> (result: Result<DocumentMetadata, EngineFailure>)
        requires
            forall|document: &typst::layout::PagedDocument, source: &typst::syntax::Source|
                call_requires(introspect, (document, source)),
        ensures
            match self.snapshot() {
                None => result == Err::<DocumentMetadata, EngineFailure>(
                    EngineFailure::NotCompiled,
                ),
                Some(document) => result matches Ok(metadata) && exists|
                    source: typst::syntax::Source,
                    elements: Vec<crate::analysis::ElementInfo>,
                |
                    source_text(source) == self.world().text() && (#[trigger] call_ensures(
                        introspect,
                        (&document, &source),
                        elements,
                    )) && crate::analysis::lists_outline(source, elements@, metadata.outline@)
                        && crate::analysis::lists_labels(source, elements@, metadata.labels@)
                        && metadata.fingerprint == crate::analysis::fingerprint_of(
                        crate::analysis::outline_views(metadata.outline@),
                        crate::analysis::label_views(metadata.labels@),
                    ),
            },
    {
        let document = match &self.result {
            Some(document) => document,
            None => {
                return Err(EngineFailure::NotCompiled);
            },
        };
        let main = self.world.main_source();
        let elements = introspect(document, &main);
        let (outline, labels) = crate::analysis::get_metadata(&main, &elements);
        let fingerprint = metadata_fingerprint(&outline, &labels);
        let result = Ok(DocumentMetadata { outline, labels, fingerprint });
        proof {
            assert(call_ensures(introspect, (document, &main), elements));
        }
        result
    }

    /// Makes the outline of the compiled document. `introspect` reads the
    /// elements off the document.
    pub fn get_outline<
        I: FnOnce(&typst::layout::PagedDocument, &typst::syntax::Source) -> Vec<
            crate::analysis::ElementInfo,
        >,
    >(&self, introspect: I) -> (result: Result<Outline, EngineFailure>)
        requires
            forall|document: &typst::layout::PagedDocument, source: &typst::syntax::Source|
                call_requires(introspect, (document, source)),
        ensures
            match self.snapshot() {
                None => result == Err::<Outline, EngineFailure>(EngineFailure::NotCompiled),
                Some(document) => result matches Ok(outline) && exists|
                    source: typst::syntax::Source,
                    elements: Vec<crate::analysis::ElementInfo>,
                |
                    source_text(source) == self.world().text() && (#[trigger] call_ensures(
                        introspect,
                        (&document, &source),
                        elements,
                    )) && crate::analysis::lists_outline(source, elements@, outline.entries@)
                        && outline.fingerprint == crate::analysis::fingerprint_of(
                        crate::analysis::outline_views(outline.entries@),
                        Seq::empty(),
                    ),
            },
    {
        let document = match &self.result {
            Some(document) => document,
            None => {
                return Err(EngineFailure::NotCompiled);
            },
        };
        let main = self.world.main_source();
        let elements = introspect(document, &main);
        let (entries, _) = crate::analysis::get_metadata(&main, &elements);
        let no_labels: Vec<crate::analysis::LabelEntry> = Vec::new();
        assert(crate::analysis::label_views(no_labels@) =~= Seq::empty());
        let fingerprint = metadata_fingerprint(&entries, &no_labels);
        let result = Ok(Outline { entries, fingerprint });
        proof {
            assert(call_ensures(introspect, (document, &main), elements));
        }
        result
    }

    /// Counts the words on a page of the compiled document. `frame` reads
    /// what is drawn on the page.
    pub fn count_page_words<W: FnOnce(&typst::layout::PagedDocument, usize) -> Vec<
        crate::analysis::WordItem,
    >>(&self, page: usize, frame: W) -> (result: Result<usize, EngineFailure>)
        requires
            forall|document: &typst::layout::PagedDocument, index: usize|
                call_requires(frame, (document, index)),
        ensures
            match self.snapshot() {
                None => result == Err::<usize, EngineFailure>(EngineFailure::InvalidState),
                Some(document) => if page < document_pages(document).len() {
                    result matches Ok(count) && exists|items: Vec<crate::analysis::WordItem>|
                        (#[trigger] call_ensures(frame, (&document, page), items)) && count
                            == crate::analysis::capped(
                            crate::analysis::words_among(items@, items@.len()),
                        )
                } else {
                    result == Err::<usize, EngineFailure>(EngineFailure::NoSuchPage)
                },
            },
    {
        let document = match &self.result {
            Some(document) => document,
            None => {
                return Err(EngineFailure::InvalidState);
            },
        };
        if page >= page_count(document) {
            return Err(EngineFailure::NoSuchPage);
        }
        let items = frame(document, page);
        let count = crate::analysis::count_words(&items);
        proof {
            assert(call_ensures(frame, (document, page), items));
        }
        Ok(count)
    }
}

/// The number that stands for an outline and a list of labels.
fn metadata_fingerprint(
    outline: &Vec<crate::analysis::OutlineEntry>,
    labels: &Vec<crate::analysis::LabelEntry>,
) -> (fingerprint: u64)
    ensures
        fingerprint == crate::analysis::fingerprint_of(
            crate::analysis::outline_views(outline@),
            crate::analysis::label_views(labels@),
        ),
{
    crate::analysis::calc_fingerprint(outline, labels)
}

} // verus!
