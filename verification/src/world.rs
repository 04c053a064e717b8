use crate::failure::FileFailure;
use crate::packages::{
    clone_listing, get_all_packages, line_views, listed_views, listing, root_resolved,
    ListedPackage, ListedView, PackageCache, PackageEntry, PackageFailure, PackageManagerError,
    PackageSpec, SpecView,
};
use crate::pathmap::{
    components, located, rendered, FsPath, MapperView, PathMapEntry, PathMapper,
};
use crate::source::{edited, source_text, Buffer};
use vstd::prelude::*;

verus! {

/// A point in time: nanoseconds since the Unix epoch, and the offset from
/// UTC, in seconds, in which the time was given.
#[derive(Clone, Copy, Debug, PartialEq, Eq, Structural)]
pub struct Timestamp {
    pub unix_nanos: i128,
    pub offset_seconds: i32,
}

/// A calendar date.
#[derive(Clone, Copy, Debug, PartialEq, Eq, Structural)]
pub struct Date {
    pub year: i32,
    pub month: u8,
    pub day: u8,
}

/// The point in time that a text in ISO 8601 form gives, if it is one.
pub uninterp spec fn parsed_timestamp(text: Seq<char>) -> Option<Timestamp>;

/// The calendar date of a point in time at an offset from UTC, given in
/// seconds; none where the offset or the date is out of range.
pub uninterp spec fn calendar_date(unix_nanos: int, offset_seconds: int) -> Option<Date>;

/// Calls `time::OffsetDateTime::parse` with the ISO 8601 description and
/// hands out the instant and offset of what it read.
#[verifier::external_body]
fn parse_timestamp(text: &str) -> (moment: Option<Timestamp>)
    ensures
        moment == parsed_timestamp(text@),
{
    time::OffsetDateTime::parse(text, &time::format_description::well_known::Iso8601::PARSING)
        .ok()
        .map(|t| Timestamp {
            unix_nanos: t.unix_timestamp_nanos(),
            offset_seconds: t.offset().whole_seconds(),
        })
}

/// Calls `time::OffsetDateTime::checked_to_offset` on the instant and takes
/// the date of the result.
#[verifier::external_body]
fn date_at(unix_nanos: i128, offset_seconds: i32) -> (date: Option<Date>)
    ensures
        date == calendar_date(unix_nanos as int, offset_seconds as int),
{
    let moment = time::OffsetDateTime::from_unix_timestamp_nanos(unix_nanos).ok()?;
    let offset = time::UtcOffset::from_whole_seconds(offset_seconds).ok()?;
    let date = moment.checked_to_offset(offset)?.date();
    Some(Date { year: date.year(), month: u8::from(date.month()), day: date.day() })
}

/// The place on disk of a package's file, if the virtual path stays inside
/// the package's directory.
pub uninterp spec fn resolved_in_root(root: Seq<char>, vpath: Seq<char>) -> Option<Seq<char>>;

/// Calls `typst::syntax::VirtualPath::resolve` with the package's directory
/// as root.
#[verifier::external_body]
fn resolve_in_root(root: &str, vpath: &str) -> (path: Option<String>)
    ensures
        path matches Some(p) ==> resolved_in_root(root@, vpath@) == Some(p@),
        path is None ==> resolved_in_root(root@, vpath@) is None,
{
    typst::syntax::VirtualPath::new(vpath)
        .resolve(std::path::Path::new(root))
        .map(|p| p.to_string_lossy().into_owned())
}

/// The text that bytes encode in UTF-8, if they encode one.
pub open spec fn decoded_text(bytes: Seq<u8>) -> Option<Seq<char>> {
    if vstd::utf8::valid_utf8(bytes) {
        Some(vstd::utf8::decode_utf8(bytes))
    } else {
        None
    }
}

/// Calls `String::from_utf8`: the text that the bytes encode, if they are
/// valid UTF-8.
#[verifier::external_body]
fn string_from_utf8(bytes: Vec<u8>) -> (text: Option<String>)
    ensures
        text matches Some(t) ==> decoded_text(bytes@) == Some(t@),
        text is None ==> decoded_text(bytes@) is None,
{
    String::from_utf8(bytes).ok()
}

/// Names a file that the compiler asks for.
#[derive(Debug)]
pub enum FileKey {
    /// The document that is being edited.
    Main,
    /// A file of the project, or of a package where one is given, at a
    /// virtual path written without a leading slash.
    File { package: Option<PackageSpec>, vpath: String },
}

/// Where the content of a file is to be taken from.
#[derive(Debug)]
pub enum FileSource {
    /// The live buffer.
    Buffer,
    /// The file at this path on disk.
    Disk(String),
}

/// A feature of the compiler that is still in development and has to be
/// switched on.
#[derive(Clone, Copy, Debug, PartialEq, Eq, Structural)]
pub enum CompilerFeature {
    /// Further accessibility data in the output.
    A11yExtras,
}

/// The features that the flags of a session switch on.
pub open spec fn features_for(a11y_extras: bool) -> Seq<CompilerFeature> {
    if a11y_extras {
        seq![CompilerFeature::A11yExtras]
    } else {
        Seq::empty()
    }
}

/// The features that the flags of a session switch on.
pub fn compiler_features(a11y_extras: bool) -> (features: Vec<CompilerFeature>)
    ensures
        features@ == features_for(a11y_extras),
{
    let mut features: Vec<CompilerFeature> = Vec::new();
    if a11y_extras {
        features.push(CompilerFeature::A11yExtras);
    }
    assert(features@ =~= features_for(a11y_extras));
    features
}

/// `typst::Library`, the standard library of the compiler. Nothing of its
/// inside is known here.
#[verifier::external_type_specification]
#[verifier::external_body]
pub struct ExLibrary(typst::Library);

/// The standard library of the compiler with exactly the given features
/// switched on.
pub uninterp spec fn library_with(features: Set<CompilerFeature>) -> typst::Library;

/// Calls `typst::LibraryBuilder::build` after `with_features`. The builder
/// keeps the features as a set and makes the library from its own
/// definitions and that set alone, so the library is the one that belongs to
/// the features that occur in the list.
#[verifier::external_body]
fn build_library(features: &Vec<CompilerFeature>) -> (library: typst::Library)
    ensures
        library == library_with(features@.to_set()),
{
    let wanted = features.iter().map(|feature| match feature {
        CompilerFeature::A11yExtras => typst::Feature::A11yExtras,
    });
    <typst::Library as typst::LibraryExt>::builder().with_features(wanted.collect()).build()
}

/// Whether `result` is the list of packages that is offered, and `after`
/// what is remembered of it, where `before` was remembered: a list that is
/// known is given again; else `list` was asked, and its answer is listed and
/// remembered if it is a success, and stands for no package if it is not.
pub open spec fn offered<L: FnOnce() -> (Vec<PackageEntry>, PackageManagerError)>(
    before: Option<Seq<ListedView>>,
    list: L,
    result: Seq<ListedView>,
    after: Option<Seq<ListedView>>,
) -> bool {
    match before {
        Some(known) => result == known && after == before,
        None => exists|answer: (Vec<PackageEntry>, PackageManagerError)|
            (#[trigger] call_ensures(list, (), answer)) && listed_answer(answer, result, after),
    }
}

/// Whether `result` and `after` are what the proxy's answer to a request for
/// its list leads to.
pub open spec fn listed_answer(
    answer: (Vec<PackageEntry>, PackageManagerError),
    result: Seq<ListedView>,
    after: Option<Seq<ListedView>>,
) -> bool {
    if answer.1 == PackageManagerError::Success {
        result == listing(line_views(answer.0@)) && after == Some(result)
    } else {
        result == Seq::<ListedView>::empty() && after is None
    }
}

/// The session's view of the files: the sandbox, the resolved packages, the
/// live text of the document, and the time that the document sees as now.
pub struct KatvanWorld {
    path_mapper: PathMapper,
    package_manager: PackageCache,
    packages_list: Option<Vec<ListedPackage>>,
    features: Vec<CompilerFeature>,
    source: Buffer,
    now: Option<Timestamp>,
}

impl KatvanWorld {
    /// The live text of the document.
    pub closed spec fn text(&self) -> Seq<char> {
        self.source.text()
    }

    /// The sandbox.
    pub closed spec fn sandbox(&self) -> MapperView {
        self.path_mapper@
    }

    /// The resolved packages.
    pub closed spec fn packages(&self) -> Map<SpecView, Seq<char>> {
        self.package_manager@
    }

    /// The time that the document sees as now.
    pub closed spec fn now(&self) -> Option<Timestamp> {
        self.now
    }

    /// The list of offered packages, as far as it is known.
    pub closed spec fn listed(&self) -> Option<Seq<ListedView>> {
        match self.packages_list {
            Some(packages) => Some(listed_views(packages@)),
            None => None,
        }
    }

    /// The features of the compiler that are switched on.
    pub closed spec fn features(&self) -> Seq<CompilerFeature> {
        self.features@
    }

    /// Whether `other` differs at most in the time that the document sees
    /// as now.
    pub open spec fn same_but_now(&self, other: &KatvanWorld) -> bool {
        &&& self.text() == other.text()
        &&& self.sandbox() == other.sandbox()
        &&& self.packages() == other.packages()
        &&& self.listed() == other.listed()
        &&& self.features() == other.features()
    }

    /// Whether `other` differs at most in the text of the document.
    pub open spec fn same_but_text(&self, other: &KatvanWorld) -> bool {
        &&& self.sandbox() == other.sandbox()
        &&& self.packages() == other.packages()
        &&& self.now() == other.now()
        &&& self.listed() == other.listed()
        &&& self.features() == other.features()
    }

    /// A session for a document in the directory `root`, with `main` as the
    /// buffer that holds the document. The buffer starts out empty.
    pub fn new(main: typst::syntax::Source, root: &str) -> (world: KatvanWorld)
        ensures
            world.text() == Seq::<char>::empty(),
            world.sandbox().root == crate::pathmap::EntryView::plain(root@),
            world.sandbox().allowed == Seq::<crate::pathmap::EntryView>::empty(),
            world.packages() == Map::<SpecView, Seq<char>>::empty(),
            world.now() is None,
            world.listed() is None,
            world.features() == Seq::<CompilerFeature>::empty(),
    {
        let source = Buffer::new(&main, "");
        proof {
            reveal_strlit("");
            assert(""@ =~= Seq::<char>::empty());
        }
        KatvanWorld {
            path_mapper: PathMapper::new(root),
            package_manager: PackageCache::new(),
            packages_list: None,
            features: Vec::new(),
            source,
            now: None,
        }
    }

    /// A session for a document in a directory that the host shows to the
    /// user under another path, with `main` as the buffer that holds the
    /// document. The buffer starts out empty.
    pub fn with_root(main: typst::syntax::Source, root: PathMapEntry) -> (world: KatvanWorld)
        ensures
            world.text() == Seq::<char>::empty(),
            world.sandbox().root == root@,
            world.sandbox().allowed == Seq::<crate::pathmap::EntryView>::empty(),
            world.packages() == Map::<SpecView, Seq<char>>::empty(),
            world.now() is None,
            world.listed() is None,
            world.features() == Seq::<CompilerFeature>::empty(),
    {
        let source = Buffer::new(&main, "");
        proof {
            reveal_strlit("");
            assert(""@ =~= Seq::<char>::empty());
        }
        KatvanWorld {
            path_mapper: PathMapper::with_root(root),
            package_manager: PackageCache::new(),
            packages_list: None,
            features: Vec::new(),
            source,
            now: None,
        }
    }

    /// Replaces the directories that the document may read besides its own
    /// by those of `entries` that are absolute on disk.
    pub fn set_allowed_entries(&mut self, entries: &Vec<PathMapEntry>)
        ensures
            final(self).sandbox().root == old(self).sandbox().root,
            final(self).sandbox().allowed == entries@.map_values(|entry: PathMapEntry| entry@).filter(
                |entry: crate::pathmap::EntryView| crate::pathmap::is_absolute(entry.actual),
            ),
            final(self).text() == old(self).text(),
            final(self).packages() == old(self).packages(),
            final(self).now() == old(self).now(),
            final(self).listed() == old(self).listed(),
            final(self).features() == old(self).features(),
    {
        self.path_mapper.set_allowed_entries(entries);
    }

    /// Replaces the whole text of the document.
    pub fn set_source_text(&mut self, text: &str)
        ensures
            final(self).text() == text@,
            final(self).same_but_text(old(self)),
    {
        self.source = self.source.with_text(text);
    }

    /// Replaces the text between two UTF-16 offsets by `text`. An edit whose
    /// offsets do not fit the document as it is now is dropped.
    pub fn apply_edit(&mut self, from_utf16_idx: usize, to_utf16_idx: usize, text: &str)
        ensures
            final(self).text() == edited(
                old(self).text(),
                from_utf16_idx as nat,
                to_utf16_idx as nat,
                text@,
            ),
            final(self).same_but_text(old(self)),
    {
        let current = self.source.duplicate();
        self.source = current.apply_edit(from_utf16_idx, to_utf16_idx, text);
    }

    /// Takes the text of a timestamp as now. A text that is no timestamp
    /// leaves the document without a current time.
    pub fn reset_current_date(&mut self, now: &str)
        ensures
            final(self).now() == parsed_timestamp(now@),
            final(self).same_but_now(old(self)),
    {
        self.now = parse_timestamp(now);
    }

    /// Forgets where the packages lie.
    pub fn discard_package_roots_cache(&mut self)
        ensures
            final(self).packages() == Map::<SpecView, Seq<char>>::empty(),
            final(self).text() == old(self).text(),
            final(self).sandbox() == old(self).sandbox(),
            final(self).now() == old(self).now(),
            final(self).listed() == old(self).listed(),
            final(self).features() == old(self).features(),
    {
        self.package_manager.discard();
    }

    /// Replaces the directories that the document may read besides its own
    /// by those of `paths` that are absolute.
    pub fn set_allowed_paths(&mut self, paths: Vec<String>)
        ensures
            final(self).sandbox().root == old(self).sandbox().root,
            final(self).sandbox().allowed == paths@.map_values(
                |path: String| crate::pathmap::EntryView::plain(path@),
            ).filter(|entry: crate::pathmap::EntryView| crate::pathmap::is_absolute(entry.actual)),
            final(self).text() == old(self).text(),
            final(self).packages() == old(self).packages(),
            final(self).now() == old(self).now(),
            final(self).listed() == old(self).listed(),
            final(self).features() == old(self).features(),
    {
        self.path_mapper.set_allowed_paths(paths);
    }

    /// Switches features of the compiler on or off.
    pub fn set_compiler_flags(&mut self, a11y_extras: bool)
        ensures
            final(self).features() == features_for(a11y_extras),
            final(self).text() == old(self).text(),
            final(self).sandbox() == old(self).sandbox(),
            final(self).packages() == old(self).packages(),
            final(self).now() == old(self).now(),
            final(self).listed() == old(self).listed(),
    {
        self.features = compiler_features(a11y_extras);
    }

    /// The standard library that the compiler is to use: the one with
    /// exactly the features of the session switched on.
    pub fn library(&self) -> (library: typst::Library)
        ensures
            library == library_with(self.features().to_set()),
    {
        build_library(&self.features)
    }

    /// The packages that are offered for completion. The list is asked for
    /// once: `list` asks the proxy, and a list that arrived is kept for the
    /// rest of the session.
    pub fn packages_offered<L: FnOnce() -> (Vec<PackageEntry>, PackageManagerError)>(
        &mut self,
        list: L,
    ) -> (packages: Vec<ListedPackage>)
        requires
            call_requires(list, ()),
        ensures
            offered(old(self).listed(), list, listed_views(packages@), final(self).listed()),
            final(self).text() == old(self).text(),
            final(self).sandbox() == old(self).sandbox(),
            final(self).packages() == old(self).packages(),
            final(self).now() == old(self).now(),
            final(self).features() == old(self).features(),
    {
        match &self.packages_list {
            Some(known) => clone_listing(known),
            None => {
                let answer = list();
                match get_all_packages(&answer.0, answer.1) {
                    Ok(packages) => {
                        let copy = clone_listing(&packages);
                        self.packages_list = Some(packages);
                        assert(listed_answer(answer, listed_views(copy@), self.listed()));
                        copy
                    },
                    Err(_) => {
                        let packages: Vec<ListedPackage> = Vec::new();
                        assert(listed_views(packages@) =~= Seq::<ListedView>::empty());
                        assert(listed_answer(answer, listed_views(packages@), self.listed()));
                        packages
                    },
                }
            },
        }
    }

    /// A copy of the buffer that holds the document.
    pub fn main_source(&self) -> (source: typst::syntax::Source)
        ensures
            source_text(source) == self.text(),
    {
        self.source.source()
    }

    /// The live text of the document.
    pub fn main_text(&self) -> (text: String)
        ensures
            text@ == self.text(),
    {
        self.source.to_string()
    }

    /// Resolves a package to its local directory, asking `acquire` for a
    /// package that is not known yet.
    pub fn get_package_root<P: FnOnce(&str, &str, &str) -> (String, PackageManagerError, String)>(
        &mut self,
        pkg: &PackageSpec,
        acquire: P,
    ) -> (result: Result<String, PackageFailure>)
        requires
            forall|namespace: &str, name: &str, version: &str|
                call_requires(acquire, (namespace, name, version)),
        ensures
            root_resolved(old(self).packages(), pkg@, acquire, result, final(self).packages()),
            final(self).text() == old(self).text(),
            final(self).sandbox() == old(self).sandbox(),
            final(self).now() == old(self).now(),
            final(self).listed() == old(self).listed(),
            final(self).features() == old(self).features(),
    {
        self.package_manager.get_package_root(pkg, acquire)
    }

    /// Finds where on disk the file at the virtual path `vpath` lies: in the
    /// directory of `package` where one is given, and else through the
    /// sandbox. `on_disk` says whether a path exists; `acquire` fetches a
    /// package.
    pub fn get_file_path<
        F: Fn(&FsPath) -> bool,
        P: FnOnce(&str, &str, &str) -> (String, PackageManagerError, String),
    >(&mut self, package: Option<&PackageSpec>, vpath: &str, on_disk: F, acquire: P) -> (result:
        Result<String, FileFailure>)
        requires
            forall|asked: &FsPath| call_requires(on_disk, (asked,)),
            forall|namespace: &str, name: &str, version: &str|
                call_requires(acquire, (namespace, name, version)),
        ensures
            file_located(
                old(self).sandbox(),
                old(self).packages(),
                package_of_ref(package),
                vpath@,
                on_disk,
                acquire,
                result,
                final(self).packages(),
            ),
            final(self).text() == old(self).text(),
            final(self).sandbox() == old(self).sandbox(),
            final(self).now() == old(self).now(),
            final(self).listed() == old(self).listed(),
            final(self).features() == old(self).features(),
    {
        match package {
            Some(pkg) => {
                let root = self.package_manager.get_package_root(pkg, acquire);
                let result = match &root {
                    Err(failure) => Err(FileFailure::Package(failure.clone())),
                    Ok(root) => match resolve_in_root(root.as_str(), vpath) {
                        Some(path) => Ok(path),
                        None => Err(FileFailure::AccessDenied),
                    },
                };
                proof {
                    assert(root_resolved(
                        old(self).packages(),
                        pkg@,
                        acquire,
                        root,
                        self.packages(),
                    ));
                    assert(package_file(root, vpath@, result));
                    assert(in_package(
                        old(self).packages(),
                        pkg@,
                        vpath@,
                        acquire,
                        result,
                        self.packages(),
                    ));
                }
                result
            },
            None => {
                let path = FsPath::parse(vpath);
                let found = self.path_mapper.get_fs_file_path(&path, on_disk);
                let result = match &found {
                    Ok(path) => Ok(path.to_string()),
                    Err(failure) => Err(failure.clone()),
                };
                proof {
                    assert(located(self.sandbox(), components(vpath@), on_disk, found));
                    assert(sandbox_file(found, result));
                    assert(in_sandbox(self.sandbox(), vpath@, on_disk, result));
                }
                result
            },
        }
    }

    /// Says where the text of a source file comes from: the live buffer for
    /// the document itself, and a place on disk for any other file.
    pub fn source_location<
        F: Fn(&FsPath) -> bool,
        P: FnOnce(&str, &str, &str) -> (String, PackageManagerError, String),
    >(&mut self, key: &FileKey, on_disk: F, acquire: P) -> (result: Result<FileSource, FileFailure>)
        requires
            forall|asked: &FsPath| call_requires(on_disk, (asked,)),
            forall|namespace: &str, name: &str, version: &str|
                call_requires(acquire, (namespace, name, version)),
        ensures
            match key {
                FileKey::Main => result matches Ok(FileSource::Buffer) && final(self).packages()
                    == old(self).packages(),
                FileKey::File { package, vpath } => exists|path: Result<String, FileFailure>|
                    (#[trigger] file_located(
                        old(self).sandbox(),
                        old(self).packages(),
                        package_of(*package),
                        vpath@,
                        on_disk,
                        acquire,
                        path,
                        final(self).packages(),
                    )) && match path {
                        Ok(text) => result matches Ok(FileSource::Disk(place)) && place@ == text@,
                        Err(failure) => result matches Err(raised) && raised@ == failure@,
                    },
            },
            final(self).text() == old(self).text(),
            final(self).sandbox() == old(self).sandbox(),
            final(self).now() == old(self).now(),
            final(self).listed() == old(self).listed(),
            final(self).features() == old(self).features(),
    {
        match key {
            FileKey::Main => Ok(FileSource::Buffer),
            FileKey::File { package, vpath } => {
                let path = self.get_file_path(package.as_ref(), vpath.as_str(), on_disk, acquire);
                let ghost located = path;
                let result = match path {
                    Ok(text) => Ok(FileSource::Disk(text)),
                    Err(failure) => Err(failure),
                };
                proof {
                    assert(file_located(
                        old(self).sandbox(),
                        old(self).packages(),
                        package_of(*package),
                        vpath@,
                        on_disk,
                        acquire,
                        located,
                        self.packages(),
                    ));
                }
                result
            },
        }
    }

    /// The date that the document sees as today, at `offset` hours from UTC
    /// or, without one, at the offset of the time that was set.
    pub fn today(&self, offset: Option<i64>) -> (date: Option<Date>)
        ensures
            date == today_of(self.now(), offset),
    {
        let now = match self.now {
            Some(now) => now,
            None => {
                return None;
            },
        };
        match offset {
            None => date_at(now.unix_nanos, now.offset_seconds),
            Some(hours) => {
                if hours < -128 || hours > 127 {
                    None
                } else {
                    date_at(now.unix_nanos, (hours as i32) * 3600)
                }
            },
        }
    }
}

/// The package that a file key names, in the model.
pub open spec fn package_of(package: Option<PackageSpec>) -> Option<SpecView> {
    match package {
        Some(pkg) => Some(pkg@),
        None => None,
    }
}

/// The package that a borrowed file key names, in the model.
pub open spec fn package_of_ref(package: Option<&PackageSpec>) -> Option<SpecView> {
    match package {
        Some(pkg) => Some(pkg@),
        None => None,
    }
}

/// Whether `result` is the place of a package's file: the virtual path
/// resolved in the package's directory, a denial where it leaves that
/// directory, and the package's failure where there is no directory.
pub open spec fn package_file(
    root: Result<String, PackageFailure>,
    vpath: Seq<char>,
    result: Result<String, FileFailure>,
) -> bool {
    match root {
        Err(failure) => result matches Err(FileFailure::Package(raised)) && raised@ == failure@,
        Ok(root) => match resolved_in_root(root@, vpath) {
            Some(path) => result matches Ok(text) && text@ == path,
            None => result matches Err(FileFailure::AccessDenied),
        },
    }
}

/// Whether `result` is what the sandbox found, written as text.
pub open spec fn sandbox_file(
    found: Result<FsPath, FileFailure>,
    result: Result<String, FileFailure>,
) -> bool {
    match found {
        Ok(path) => result matches Ok(text) && text@ == rendered(path@),
        Err(failure) => result matches Err(raised) && raised@ == failure@,
    }
}

/// Whether `result` is the place on disk of the file at `vpath`, of the
/// package where one is given and of the project else, with the resolved
/// packages going from `before` to `after`.
pub open spec fn file_located<
    F: Fn(&FsPath) -> bool,
    P: FnOnce(&str, &str, &str) -> (String, PackageManagerError, String),
>(
    sandbox: MapperView,
    before: Map<SpecView, Seq<char>>,
    package: Option<SpecView>,
    vpath: Seq<char>,
    on_disk: F,
    acquire: P,
    result: Result<String, FileFailure>,
    after: Map<SpecView, Seq<char>>,
) -> bool {
    match package {
        Some(pkg) => in_package(before, pkg, vpath, acquire, result, after),
        None => after == before && in_sandbox(sandbox, vpath, on_disk, result),
    }
}

/// Whether `result` is the place of the file at `vpath` in the package
/// `pkg`, with the resolved packages going from `before` to `after`.
pub open spec fn in_package<P: FnOnce(&str, &str, &str) -> (String, PackageManagerError, String)>(
    before: Map<SpecView, Seq<char>>,
    pkg: SpecView,
    vpath: Seq<char>,
    acquire: P,
    result: Result<String, FileFailure>,
    after: Map<SpecView, Seq<char>>,
) -> bool {
    exists|root: Result<String, PackageFailure>|
        (#[trigger] root_resolved(before, pkg, acquire, root, after)) && package_file(
            root,
            vpath,
            result,
        )
}

/// Whether `result` is the place of the project's file at `vpath`.
pub open spec fn in_sandbox<F: Fn(&FsPath) -> bool>(
    sandbox: MapperView,
    vpath: Seq<char>,
    on_disk: F,
    result: Result<String, FileFailure>,
) -> bool {
    exists|found: Result<FsPath, FileFailure>|
        (#[trigger] located(sandbox, components(vpath), on_disk, found)) && sandbox_file(
            found,
            result,
        )
}

/// What the compiler gets for a file that was read: a directory is told
/// apart before the outcome of reading is looked at.
pub fn get_file_content(is_dir: bool, read: Result<Vec<u8>, FileFailure>) -> (content: Result<
    Vec<u8>,
    FileFailure,
>)
    ensures
        is_dir ==> content matches Err(FileFailure::IsDirectory),
        !is_dir ==> content == read,
{
    if is_dir {
        Err(FileFailure::IsDirectory)
    } else {
        read
    }
}

/// The source text that the bytes of a file hold.
pub fn decode_source(bytes: Vec<u8>) -> (text: Result<String, FileFailure>)
    ensures
        match decoded_text(bytes@) {
            Some(decoded) => text matches Ok(t) && t@ == decoded,
            None => text matches Err(FileFailure::InvalidUtf8),
        },
{
    match string_from_utf8(bytes) {
        Some(text) => Ok(text),
        None => Err(FileFailure::InvalidUtf8),
    }
}

/// The date that a document sees as today: none while no time is set or
/// where the hours do not fit into eight bits; else the calendar date of the
/// time at the offset asked for.
pub open spec fn today_of(now: Option<Timestamp>, offset: Option<i64>) -> Option<Date> {
    match now {
        None => None,
        Some(now) => match offset {
            None => calendar_date(now.unix_nanos as int, now.offset_seconds as int),
            Some(hours) => if -128 <= hours <= 127 {
                calendar_date(now.unix_nanos as int, hours * 3600)
            } else {
                None
            },
        },
    }
}

} // verus!
