use crate::strings::{copy_str, push_char, push_decimal, push_text};
use vstd::prelude::*;

verus! {

/// The version of a package.
#[derive(Clone, Copy, Debug, PartialEq, Eq, Structural)]
pub struct PackageVersion {
    pub major: u32,
    pub minor: u32,
    pub patch: u32,
}

impl PackageVersion {
    /// The version as text: the three numbers in decimal with a dot between
    /// them.
    pub open spec fn text(self) -> Seq<char> {
        crate::strings::decimal(self.major as nat) + seq!['.'] + crate::strings::decimal(
            self.minor as nat,
        ) + seq!['.'] + crate::strings::decimal(self.patch as nat)
    }

    /// Writes the version as text.
    pub fn to_string(&self) -> (text: String)
        ensures
            text@ == self.text(),
    {
        let mut text = String::new();
        push_decimal(&mut text, self.major as u64);
        push_char(&mut text, '.');
        push_decimal(&mut text, self.minor as u64);
        push_char(&mut text, '.');
        push_decimal(&mut text, self.patch as u64);
        assert(text@ =~= self.text());
        text
    }
}

/// What identifies a package, in the model.
pub struct SpecView {
    pub namespace: Seq<char>,
    pub name: Seq<char>,
    pub version: PackageVersion,
}

impl SpecView {
    /// The prefix under which files of the package are shown in diagnostics.
    pub open spec fn display_prefix(self) -> Seq<char> {
        self.namespace + seq!['/'] + self.name + seq!['@'] + self.version.text() + seq!['/']
    }
}

/// Identifies a package: namespace, name and version.
#[derive(Debug)]
pub struct PackageSpec {
    pub namespace: String,
    pub name: String,
    pub version: PackageVersion,
}

impl View for PackageSpec {
    type V = SpecView;

    open spec fn view(&self) -> SpecView {
        SpecView { namespace: self.namespace@, name: self.name@, version: self.version }
    }
}

impl Clone for PackageSpec {
    fn clone(&self) -> (copy: Self)
        ensures
            copy@ == self@,
    {
        PackageSpec {
            namespace: self.namespace.clone(),
            name: self.name.clone(),
            version: self.version,
        }
    }
}

impl PackageSpec {
    /// Whether both name the same package in the same version.
    pub fn same_as(&self, other: &PackageSpec) -> (same: bool)
        ensures
            same == (self@ == other@),
    {
        self.namespace == other.namespace && self.name == other.name && self.version.major
            == other.version.major && self.version.minor == other.version.minor
            && self.version.patch == other.version.patch
    }

    /// The prefix under which files of the package are shown in diagnostics.
    pub fn display_prefix(&self) -> (text: String)
        ensures
            text@ == self@.display_prefix(),
    {
        let mut text = self.namespace.clone();
        push_char(&mut text, '/');
        push_text(&mut text, self.name.as_str());
        push_char(&mut text, '@');
        let version = self.version.to_string();
        push_text(&mut text, version.as_str());
        push_char(&mut text, '/');
        assert(text@ =~= self@.display_prefix());
        text
    }
}

/// How the acquisition proxy says that a request ended.
#[derive(Clone, Copy, Debug, PartialEq, Eq, Structural)]
pub enum PackageManagerError {
    Success,
    NotAllowed,
    NotFound,
    NetworkError,
    IoError,
    ArchiveError,
    ParseError,
    /// A code that the proxy does not document.
    Unspecified,
}

/// Why a package could not be made available, in the model.
pub enum FailureView {
    NotFound(SpecView),
    NetworkFailed(Seq<char>),
    LocalIo(Seq<char>),
    MalformedArchive(Seq<char>),
    NotAllowed(Seq<char>),
    ParseError(Seq<char>),
    Other(Seq<char>),
}

/// Why a package could not be made available locally. All variants but the
/// first carry the proxy's message.
#[derive(Debug)]
pub enum PackageFailure {
    /// The package does not exist.
    NotFound(PackageSpec),
    /// Fetching the package failed on the network.
    NetworkFailed(String),
    /// Storing or reading the package locally failed.
    LocalIo(String),
    /// The package's archive could not be unpacked.
    MalformedArchive(String),
    /// The host does not allow the package to be fetched.
    NotAllowed(String),
    /// The package's description could not be read.
    ParseError(String),
    /// A failure of no known kind.
    Other(String),
}

impl View for PackageFailure {
    type V = FailureView;

    open spec fn view(&self) -> FailureView {
        match self {
            PackageFailure::NotFound(spec) => FailureView::NotFound(spec@),
            PackageFailure::NetworkFailed(message) => FailureView::NetworkFailed(message@),
            PackageFailure::LocalIo(message) => FailureView::LocalIo(message@),
            PackageFailure::MalformedArchive(message) => FailureView::MalformedArchive(message@),
            PackageFailure::NotAllowed(message) => FailureView::NotAllowed(message@),
            PackageFailure::ParseError(message) => FailureView::ParseError(message@),
            PackageFailure::Other(message) => FailureView::Other(message@),
        }
    }
}

impl Clone for PackageFailure {
    fn clone(&self) -> (copy: Self)
        ensures
            copy@ == self@,
    {
        match self {
            PackageFailure::NotFound(spec) => PackageFailure::NotFound(spec.clone()),
            PackageFailure::NetworkFailed(message) => PackageFailure::NetworkFailed(message.clone()),
            PackageFailure::LocalIo(message) => PackageFailure::LocalIo(message.clone()),
            PackageFailure::MalformedArchive(message) => PackageFailure::MalformedArchive(
                message.clone(),
            ),
            PackageFailure::NotAllowed(message) => PackageFailure::NotAllowed(message.clone()),
            PackageFailure::ParseError(message) => PackageFailure::ParseError(message.clone()),
            PackageFailure::Other(message) => PackageFailure::Other(message.clone()),
        }
    }
}

/// The failure that an outcome of the proxy stands for; none for success.
pub open spec fn failure_of(
    error: PackageManagerError,
    message: Seq<char>,
    spec: SpecView,
) -> Option<FailureView> {
    match error {
        PackageManagerError::Success => None,
        PackageManagerError::NotFound => Some(FailureView::NotFound(spec)),
        PackageManagerError::NetworkError => Some(FailureView::NetworkFailed(message)),
        PackageManagerError::IoError => Some(FailureView::LocalIo(message)),
        PackageManagerError::ArchiveError => Some(FailureView::MalformedArchive(message)),
        PackageManagerError::NotAllowed => Some(FailureView::NotAllowed(message)),
        PackageManagerError::ParseError => Some(FailureView::ParseError(message)),
        PackageManagerError::Unspecified => Some(FailureView::Other(message)),
    }
}

/// Turns the proxy's outcome for a request about `pkg` into a result.
pub fn check_package_manager_error(
    error: PackageManagerError,
    message: &str,
    pkg: &PackageSpec,
) -> (result: Result<(), PackageFailure>)
    ensures
        match failure_of(error, message@, pkg@) {
            None => result is Ok,
            Some(failure) => result matches Err(raised) && raised@ == failure,
        },
{
    match error {
        PackageManagerError::Success => Ok(()),
        PackageManagerError::NotFound => Err(PackageFailure::NotFound(pkg.clone())),
        PackageManagerError::NetworkError => Err(PackageFailure::NetworkFailed(copy_str(message))),
        PackageManagerError::IoError => Err(PackageFailure::LocalIo(copy_str(message))),
        PackageManagerError::ArchiveError => Err(
            PackageFailure::MalformedArchive(copy_str(message)),
        ),
        PackageManagerError::NotAllowed => Err(PackageFailure::NotAllowed(copy_str(message))),
        PackageManagerError::ParseError => Err(PackageFailure::ParseError(copy_str(message))),
        PackageManagerError::Unspecified => Err(PackageFailure::Other(copy_str(message))),
    }
}

/// The map that a list of resolved packages stands for; a later entry for a
/// package overrides an earlier one.
pub open spec fn cache_map(entries: Seq<(SpecView, Seq<char>)>) -> Map<SpecView, Seq<char>>
    decreases entries.len(),
{
    if entries.len() == 0 {
        Map::empty()
    } else {
        cache_map(entries.drop_last()).insert(entries.last().0, entries.last().1)
    }
}

/// Whether no package has two entries.
pub open spec fn distinct_keys(entries: Seq<(SpecView, Seq<char>)>) -> bool {
    forall|i: int, j: int|
        0 <= i < j < entries.len() ==> (#[trigger] entries[i]).0 != (#[trigger] entries[j]).0
}

proof fn lemma_cache_map_keys(entries: Seq<(SpecView, Seq<char>)>, key: SpecView)
    ensures
        cache_map(entries).contains_key(key) <==> exists|i: int|
            0 <= i < entries.len() && (#[trigger] entries[i]).0 == key,
    decreases entries.len(),
{
    if entries.len() > 0 {
        lemma_cache_map_keys(entries.drop_last(), key);
        if cache_map(entries).contains_key(key) {
            if entries.last().0 == key {
                assert(entries[entries.len() - 1].0 == key);
            } else {
                let i = choose|i: int|
                    0 <= i < entries.drop_last().len() && (#[trigger] entries.drop_last()[i]).0
                        == key;
                assert(entries[i].0 == key);
            }
        }
        if exists|i: int| 0 <= i < entries.len() && (#[trigger] entries[i]).0 == key {
            let i = choose|i: int| 0 <= i < entries.len() && (#[trigger] entries[i]).0 == key;
            if i < entries.len() - 1 {
                assert(entries.drop_last()[i].0 == key);
            }
        }
    }
}

proof fn lemma_cache_map_value(entries: Seq<(SpecView, Seq<char>)>, at: int)
    requires
        distinct_keys(entries),
        0 <= at < entries.len(),
    ensures
        cache_map(entries).contains_key(entries[at].0),
        cache_map(entries)[entries[at].0] == entries[at].1,
    decreases entries.len(),
{
    if at < entries.len() - 1 {
        assert(distinct_keys(entries.drop_last())) by {
            assert forall|i: int, j: int| 0 <= i < j < entries.drop_last().len() implies (
            #[trigger] entries.drop_last()[i]).0 != (#[trigger] entries.drop_last()[j]).0 by {
                assert(entries[i].0 != entries[j].0);
            }
        }
        lemma_cache_map_value(entries.drop_last(), at);
        assert(entries.drop_last()[at] == entries[at]);
        assert(entries[at].0 != entries[entries.len() - 1].0);
    }
}

/// What the cache asks of its caller when a package is to be resolved.
#[derive(Debug)]
pub enum Acquisition {
    /// The package is known to lie in this directory; nothing is to be done.
    Cached(String),
    /// The package is unknown: the proxy has to be asked for it, with these
    /// three arguments.
    Acquire { namespace: String, name: String, version: String },
}

/// Remembers in which local directory each resolved package lies.
#[derive(Debug)]
pub struct PackageCache {
    roots: Vec<(PackageSpec, String)>,
}

/// The entries of a cache, in the model.
pub open spec fn entry_views(roots: Seq<(PackageSpec, String)>) -> Seq<(SpecView, Seq<char>)> {
    roots.map_values(|entry: (PackageSpec, String)| (entry.0@, entry.1@))
}

impl View for PackageCache {
    type V = Map<SpecView, Seq<char>>;

    closed spec fn view(&self) -> Map<SpecView, Seq<char>> {
        cache_map(entry_views(self.roots@))
    }
}

impl PackageCache {
    #[verifier::type_invariant]
    spec fn inv(self) -> bool {
        distinct_keys(entry_views(self.roots@))
    }

    /// A cache that knows no package.
    pub fn new() -> (cache: PackageCache)
        ensures
            cache@ == Map::<SpecView, Seq<char>>::empty(),
    {
        PackageCache { roots: Vec::new() }
    }

    fn position(&self, pkg: &PackageSpec) -> (at: Option<usize>)
        ensures
            match at {
                Some(i) => i < self.roots.len() && self.roots[i as int].0@ == pkg@,
                None => forall|i: int| 0 <= i < self.roots.len() ==> self.roots[i].0@ != pkg@,
            },
    {
        let mut i: usize = 0;
        while i < self.roots.len()
            invariant
                i <= self.roots.len(),
                forall|k: int| 0 <= k < i ==> self.roots[k].0@ != pkg@,
            decreases self.roots.len() - i,
        {
            if self.roots[i].0.same_as(pkg) {
                return Some(i);
            }
            i = i + 1;
        }
        None
    }

    /// The directory of a package, if the cache knows it.
    pub fn lookup(&self, pkg: &PackageSpec) -> (root: Option<String>)
        ensures
            self@.contains_key(pkg@) ==> (root matches Some(path) && path@ == self@[pkg@]),
            !self@.contains_key(pkg@) ==> root is None,
    {
        proof {
            use_type_invariant(self);
            lemma_cache_map_keys(entry_views(self.roots@), pkg@);
        }
        match self.position(pkg) {
            Some(i) => {
                proof {
                    lemma_cache_map_value(entry_views(self.roots@), i as int);
                }
                Some(self.roots[i].1.clone())
            },
            None => {
                assert forall|i: int| 0 <= i < entry_views(self.roots@).len() implies (
                #[trigger] entry_views(self.roots@)[i]).0 != pkg@ by {
                    assert(self.roots[i].0@ != pkg@);
                }
                None
            },
        }
    }

    /// Says what is to be done to resolve `pkg`: nothing, if the cache knows
    /// it, and else a request to the proxy.
    pub fn begin(&self, pkg: &PackageSpec) -> (step: Acquisition)
        ensures
            must_acquire(self@, pkg@) ==> (step matches Acquisition::Acquire {
                namespace,
                name,
                version,
            } && namespace@ == pkg@.namespace && name@ == pkg@.name && version@
                == pkg@.version.text()),
            !must_acquire(self@, pkg@) ==> (step matches Acquisition::Cached(path) && path@
                == self@[pkg@]),
    {
        match self.lookup(pkg) {
            Some(path) => Acquisition::Cached(path),
            None => Acquisition::Acquire {
                namespace: pkg.namespace.clone(),
                name: pkg.name.clone(),
                version: pkg.version.to_string(),
            },
        }
    }

    /// Takes in what the proxy answered to a request for `pkg`: on success
    /// the directory is remembered and returned, on failure nothing changes.
    pub fn complete(
        &mut self,
        pkg: &PackageSpec,
        path: String,
        error: PackageManagerError,
        message: &str,
    ) -> (result: Result<String, PackageFailure>)
        ensures
            match failure_of(error, message@, pkg@) {
                None => result matches Ok(root) && root@ == path@ && final(self)@ == old(self)@.insert(
                    pkg@,
                    path@,
                ),
                Some(failure) => result matches Err(raised) && raised@ == failure && final(self)@
                    == old(self)@,
            },
    {
        match check_package_manager_error(error, message, pkg) {
            Err(raised) => Err(raised),
            Ok(()) => {
                self.insert(pkg, path.clone());
                Ok(path)
            },
        }
    }

    fn insert(&mut self, pkg: &PackageSpec, path: String)
        ensures
            final(self)@ == old(self)@.insert(pkg@, path@),
    {
        proof {
            use_type_invariant(&*self);
        }
        let ghost before = entry_views(self.roots@);
        match self.position(pkg) {
            Some(i) => {
                let mut roots: Vec<(PackageSpec, String)> = Vec::new();
                let mut k: usize = 0;
                while k < self.roots.len()
                    invariant
                        k <= self.roots.len(),
                        i < self.roots.len(),
                        self.roots[i as int].0@ == pkg@,
                        before == entry_views(self.roots@),
                        entry_views(roots@) == before.update(i as int, (pkg@, path@)).take(
                            k as int,
                        ),
                    decreases self.roots.len() - k,
                {
                    let ghost sofar = entry_views(roots@);
                    if k == i {
                        roots.push((pkg.clone(), path.clone()));
                    } else {
                        roots.push((self.roots[k].0.clone(), self.roots[k].1.clone()));
                    }
                    proof {
                        let target = before.update(i as int, (pkg@, path@));
                        assert(entry_views(roots@) =~= sofar.push(target[k as int]));
                        assert(target.take(k + 1) =~= target.take(k as int).push(target[k as int]));
                    }
                    k = k + 1;
                }
                proof {
                    let target = before.update(i as int, (pkg@, path@));
                    assert(target.take(self.roots.len() as int) =~= target);
                    lemma_cache_map_update(before, i as int, path@);
                    assert(target =~= before.update(i as int, (before[i as int].0, path@)));
                }
                self.roots = roots;
            },
            None => {
                let mut roots: Vec<(PackageSpec, String)> = Vec::new();
                let mut k: usize = 0;
                while k < self.roots.len()
                    invariant
                        k <= self.roots.len(),
                        before == entry_views(self.roots@),
                        entry_views(roots@) == before.take(k as int),
                    decreases self.roots.len() - k,
                {
                    let ghost sofar = entry_views(roots@);
                    roots.push((self.roots[k].0.clone(), self.roots[k].1.clone()));
                    proof {
                        assert(entry_views(roots@) =~= sofar.push(before[k as int]));
                        assert(before.take(k + 1) =~= before.take(k as int).push(before[k as int]));
                    }
                    k = k + 1;
                }
                let ghost sofar = entry_views(roots@);
                roots.push((pkg.clone(), path));
                proof {
                    assert(before.take(self.roots.len() as int) =~= before);
                    let after = entry_views(roots@);
                    assert(after =~= before.push((pkg@, path@)));
                    assert(after.drop_last() =~= before);
                    assert forall|a: int, b: int| 0 <= a < b < after.len() implies (
                    #[trigger] after[a]).0 != (#[trigger] after[b]).0 by {
                        if b < before.len() {
                            assert(before[a].0 != before[b].0);
                        } else {
                            assert(self.roots[a].0@ != pkg@);
                        }
                    }
                }
                self.roots = roots;
            },
        }
    }

    /// Forgets every package.
    pub fn discard(&mut self)
        ensures
            final(self)@ == Map::<SpecView, Seq<char>>::empty(),
    {
        self.roots = Vec::new();
    }

    /// Resolves `pkg` to its local directory. A package that the cache knows
    /// is answered from the cache. For any other, `acquire` is asked with
    /// namespace, name and version, and answers with the directory, the
    /// outcome and a message; a success is remembered.
    pub fn get_package_root<P: FnOnce(&str, &str, &str) -> (String, PackageManagerError, String)>(
        &mut self,
        pkg: &PackageSpec,
        acquire: P,
    ) -> (result: Result<String, PackageFailure>)
        requires
            forall|namespace: &str, name: &str, version: &str|
                call_requires(acquire, (namespace, name, version)),
        ensures
            root_resolved(old(self)@, pkg@, acquire, result, final(self)@),
    {
        match self.begin(pkg) {
            Acquisition::Cached(path) => Ok(path),
            Acquisition::Acquire { namespace, name, version } => {
                let asked_namespace = namespace.as_str();
                let asked_name = name.as_str();
                let asked_version = version.as_str();
                let answer = acquire(asked_namespace, asked_name, asked_version);
                let ghost given = answer;
                let result = self.complete(pkg, answer.0, answer.1, answer.2.as_str());
                proof {
                    assert(call_ensures(
                        acquire,
                        (asked_namespace, asked_name, asked_version),
                        given,
                    ));
                    assert(completed(old(self)@, pkg@, given, result, self@));
                }
                result
            },
        }
    }
}

/// Whether `result` and the cache `after` are what resolving `pkg` leads to
/// from the cache `before`: a known package is answered from the cache,
/// which stays as it is; for any other, `acquire` was asked with the
/// package's namespace, name and version, and its answer was taken in.
pub open spec fn root_resolved<P: FnOnce(&str, &str, &str) -> (String, PackageManagerError, String)>(
    before: Map<SpecView, Seq<char>>,
    pkg: SpecView,
    acquire: P,
    result: Result<String, PackageFailure>,
    after: Map<SpecView, Seq<char>>,
) -> bool {
    if must_acquire(before, pkg) {
        exists|
            namespace: &str,
            name: &str,
            version: &str,
            answer: (String, PackageManagerError, String),
        |
            {
                &&& namespace@ == pkg.namespace
                &&& name@ == pkg.name
                &&& version@ == pkg.version.text()
                &&& #[trigger] call_ensures(acquire, (namespace, name, version), answer)
                &&& completed(before, pkg, answer, result, after)
            }
    } else {
        after == before && (result matches Ok(root) && root@ == before[pkg])
    }
}

/// Whether resolving `pkg` needs the proxy.
pub open spec fn must_acquire(cache: Map<SpecView, Seq<char>>, pkg: SpecView) -> bool {
    !cache.contains_key(pkg)
}

/// Whether `result` and the cache `after` are what the proxy's `answer` to a
/// request for `pkg` leads to, from the cache `before`.
pub open spec fn completed(
    before: Map<SpecView, Seq<char>>,
    pkg: SpecView,
    answer: (String, PackageManagerError, String),
    result: Result<String, PackageFailure>,
    after: Map<SpecView, Seq<char>>,
) -> bool {
    match failure_of(answer.1, answer.2@, pkg) {
        None => result matches Ok(root) && root@ == answer.0@ && after == before.insert(
            pkg,
            answer.0@,
        ),
        Some(failure) => result matches Err(raised) && raised@ == failure && after == before,
    }
}

proof fn lemma_cache_map_update(entries: Seq<(SpecView, Seq<char>)>, at: int, path: Seq<char>)
    requires
        distinct_keys(entries),
        0 <= at < entries.len(),
    ensures
        distinct_keys(entries.update(at, (entries[at].0, path))),
        cache_map(entries.update(at, (entries[at].0, path))) == cache_map(entries).insert(
            entries[at].0,
            path,
        ),
    decreases entries.len(),
{
    let key = entries[at].0;
    let changed = entries.update(at, (key, path));
    assert forall|i: int, j: int| 0 <= i < j < changed.len() implies (#[trigger] changed[i]).0 != (
    #[trigger] changed[j]).0 by {
        assert(entries[i].0 != entries[j].0);
    }
    if at == entries.len() - 1 {
        assert(changed.drop_last() =~= entries.drop_last());
        assert(cache_map(changed) =~= cache_map(entries).insert(key, path));
    } else {
        assert(distinct_keys(entries.drop_last())) by {
            assert forall|i: int, j: int| 0 <= i < j < entries.drop_last().len() implies (
            #[trigger] entries.drop_last()[i]).0 != (#[trigger] entries.drop_last()[j]).0 by {
                assert(entries[i].0 != entries[j].0);
            }
        }
        lemma_cache_map_update(entries.drop_last(), at, path);
        assert(changed.drop_last() =~= entries.drop_last().update(
            at,
            (entries.drop_last()[at].0, path),
        ));
        assert(entries[at].0 != entries[entries.len() - 1].0);
        assert(changed.last() == entries.last());
        assert(cache_map(changed) =~= cache_map(entries).insert(key, path));
    }
}

/// A package that the cache does not know needs the proxy; once the proxy's
/// directory for it is remembered, it is answered from the cache with that
/// directory; and after the cache is emptied it needs the proxy again.
pub proof fn lemma_proxy_asked_once(
    cache: Map<SpecView, Seq<char>>,
    pkg: SpecView,
    path: Seq<char>,
)
    ensures
        !cache.contains_key(pkg) ==> must_acquire(cache, pkg),
        !must_acquire(cache.insert(pkg, path), pkg),
        cache.insert(pkg, path)[pkg] == path,
        must_acquire(Map::empty(), pkg),
{
}

/// The version that a text of the form `major.minor.patch` gives, if it is
/// of that form.
pub uninterp spec fn parsed_version(text: Seq<char>) -> Option<PackageVersion>;

/// Calls `str::parse` for `typst::syntax::package::PackageVersion` and hands
/// out the three numbers of the version that was read.
#[verifier::external_body]
fn parse_version(text: &str) -> (version: Option<PackageVersion>)
    ensures
        version == parsed_version(text@),
{
    match text.parse::<typst::syntax::package::PackageVersion>() {
        Ok(v) => Some(PackageVersion { major: v.major, minor: v.minor, patch: v.patch }),
        Err(_) => None,
    }
}

/// One line of the proxy's list of available packages.
#[derive(Debug)]
pub struct PackageEntry {
    pub name: String,
    pub version: String,
    pub description: String,
}

/// One line of the proxy's list, in the model.
pub struct LineView {
    pub name: Seq<char>,
    pub version: Seq<char>,
    pub description: Seq<char>,
}

impl View for PackageEntry {
    type V = LineView;

    open spec fn view(&self) -> LineView {
        LineView { name: self.name@, version: self.version@, description: self.description@ }
    }
}

/// A package that is offered for completion, in the model: what identifies
/// it, and its description where it has one.
pub struct ListedView {
    pub spec: SpecView,
    pub description: Option<Seq<char>>,
}

/// A package that is offered for completion.
#[derive(Debug)]
pub struct ListedPackage {
    pub spec: PackageSpec,
    pub description: Option<String>,
}

impl View for ListedPackage {
    type V = ListedView;

    open spec fn view(&self) -> ListedView {
        ListedView {
            spec: self.spec@,
            description: match self.description {
                Some(text) => Some(text@),
                None => None,
            },
        }
    }
}

impl Clone for ListedPackage {
    fn clone(&self) -> (copy: Self)
        ensures
            copy@ == self@,
    {
        ListedPackage {
            spec: self.spec.clone(),
            description: match &self.description {
                Some(text) => Some(text.clone()),
                None => None,
            },
        }
    }
}

/// The namespace of the packages that the proxy lists.
pub open spec fn preview_namespace() -> Seq<char> {
    seq!['p', 'r', 'e', 'v', 'i', 'e', 'w']
}

/// What a line of the proxy's list is listed as, given the version that its
/// version text was read as: nothing where that text is no version.
pub open spec fn listed(entry: LineView, version: Option<PackageVersion>) -> Option<ListedView> {
    match version {
        Some(version) => Some(
            ListedView {
                spec: SpecView { namespace: preview_namespace(), name: entry.name, version },
                description: Some(entry.description),
            },
        ),
        None => None,
    }
}

/// What the proxy's list is listed as: its lines in order, without those
/// whose version text is no version.
pub open spec fn listing(entries: Seq<LineView>) -> Seq<ListedView> {
    entries.filter_map(|entry: LineView| listed(entry, parsed_version(entry.version)))
}

/// Lists one line of the proxy's list, given the version that its version
/// text was read as.
pub fn listed_package(entry: &PackageEntry, version: Option<PackageVersion>) -> (package: Option<
    ListedPackage,
>)
    ensures
        match listed(entry@, version) {
            Some(view) => package matches Some(p) && p@ == view,
            None => package is None,
        },
{
    match version {
        Some(version) => {
            proof {
                reveal_strlit("preview");
                assert("preview"@ =~= preview_namespace());
            }
            Some(
                ListedPackage {
                    spec: PackageSpec {
                        namespace: copy_str("preview"),
                        name: entry.name.clone(),
                        version,
                    },
                    description: Some(entry.description.clone()),
                },
            )
        },
        None => None,
    }
}

/// The packages, in the model.
pub open spec fn listed_views(packages: Seq<ListedPackage>) -> Seq<ListedView> {
    packages.map_values(|package: ListedPackage| package@)
}

/// The lines, in the model.
pub open spec fn line_views(entries: Seq<PackageEntry>) -> Seq<LineView> {
    entries.map_values(|entry: PackageEntry| entry@)
}

/// Turns the proxy's answer to a request for its list into the list of
/// packages that are offered: nothing on failure, and else the lines whose
/// version can be read, in their order.
pub fn get_all_packages(entries: &Vec<PackageEntry>, error: PackageManagerError) -> (result: Result<
    Vec<ListedPackage>,
    (),
>)
    ensures
        error != PackageManagerError::Success ==> result is Err,
        error == PackageManagerError::Success ==> (result matches Ok(packages) && listed_views(
            packages@,
        ) == listing(line_views(entries@))),
{
    if error != PackageManagerError::Success {
        return Err(());
    }
    let ghost lines = line_views(entries@);
    let ghost pick = |entry: LineView| listed(entry, parsed_version(entry.version));
    let mut packages: Vec<ListedPackage> = Vec::new();
    let mut i: usize = 0;
    proof {
        assert(lines.take(0) =~= Seq::<LineView>::empty());
        assert(lines.take(0).filter_map(pick) =~= Seq::<ListedView>::empty());
    }
    while i < entries.len()
        invariant
            i <= entries.len(),
            lines == line_views(entries@),
            pick == |entry: LineView| listed(entry, parsed_version(entry.version)),
            listed_views(packages@) == lines.take(i as int).filter_map(pick),
        decreases entries.len() - i,
    {
        let version = parse_version(entries[i].version.as_str());
        let ghost before = listed_views(packages@);
        proof {
            lines.lemma_filter_map_take_succ(pick, i as int);
        }
        match listed_package(&entries[i], version) {
            Some(package) => {
                packages.push(package);
                assert(listed_views(packages@) =~= before.push(package@));
            },
            None => {},
        }
        i = i + 1;
    }
    proof {
        assert(lines.take(entries.len() as int) =~= lines);
    }
    Ok(packages)
}

/// Copies a list of packages.
pub fn clone_listing(packages: &Vec<ListedPackage>) -> (copy: Vec<ListedPackage>)
    ensures
        listed_views(copy@) == listed_views(packages@),
{
    let mut copy: Vec<ListedPackage> = Vec::new();
    let mut i: usize = 0;
    while i < packages.len()
        invariant
            i <= packages.len(),
            listed_views(copy@) == listed_views(packages@).take(i as int),
        decreases packages.len() - i,
    {
        let ghost before = listed_views(copy@);
        copy.push(packages[i].clone());
        proof {
            assert(listed_views(copy@) =~= before.push(packages[i as int]@));
            assert(listed_views(packages@).take(i + 1) =~= listed_views(packages@).take(
                i as int,
            ).push(packages[i as int]@));
        }
        i = i + 1;
    }
    proof {
        assert(listed_views(packages@).take(packages.len() as int) =~= listed_views(packages@));
    }
    copy
}

} // verus!
