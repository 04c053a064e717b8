use crate::failure::FileFailure;
use crate::strings::push_char;
use vstd::prelude::*;

verus! {

broadcast use vstd::seq_lib::group_seq_properties;

/// State of a left-to-right scan that cuts `text` at every `'/'`: the pieces
/// that a slash has already closed, and the piece that is still open.
pub open spec fn scan_segments(text: Seq<char>) -> (Seq<Seq<char>>, Seq<char>)
    decreases text.len(),
{
    if text.len() == 0 {
        (Seq::empty(), Seq::empty())
    } else {
        let (closed, open) = scan_segments(text.drop_last());
        if text.last() == '/' {
            (closed.push(open), Seq::empty())
        } else {
            (closed, open.push(text.last()))
        }
    }
}

/// The pieces of `text` between its slashes; there is always at least one.
pub open spec fn split_segments(text: Seq<char>) -> Seq<Seq<char>> {
    scan_segments(text).0.push(scan_segments(text).1)
}

/// The component that stands for the filesystem root.
pub open spec fn root_part() -> Seq<char> {
    seq!['/']
}

/// The component that names the current directory.
pub open spec fn dot_part() -> Seq<char> {
    seq!['.']
}

/// The component that names the parent directory.
pub open spec fn dot_dot_part() -> Seq<char> {
    seq!['.', '.']
}

/// Whether a piece between slashes is a component. Empty pieces never are;
/// `.` is one only where it opens a relative path.
pub open spec fn keeps_segment(segment: Seq<char>, leading: bool) -> bool {
    segment.len() > 0 && (segment != dot_part() || leading)
}

/// The pieces that are components, in order. `relative` says whether the path
/// they were cut from is relative.
pub open spec fn kept_segments(segments: Seq<Seq<char>>, relative: bool) -> Seq<Seq<char>>
    decreases segments.len(),
{
    if segments.len() == 0 {
        Seq::empty()
    } else {
        let before = kept_segments(segments.drop_last(), relative);
        if keeps_segment(segments.last(), relative && segments.len() == 1) {
            before.push(segments.last())
        } else {
            before
        }
    }
}

/// Whether the text of a path starts at the filesystem root.
pub open spec fn is_absolute_text(text: Seq<char>) -> bool {
    text.len() > 0 && text[0] == '/'
}

/// The components of a path written with `'/'` as separator. An absolute
/// path starts with the root component; repeated and trailing slashes and
/// inner `.` pieces leave no trace.
pub open spec fn components(text: Seq<char>) -> Seq<Seq<char>> {
    if is_absolute_text(text) {
        seq![root_part()] + kept_segments(split_segments(text), false)
    } else {
        kept_segments(split_segments(text), true)
    }
}

/// Whether a component sequence starts at the filesystem root.
pub open spec fn is_absolute(path: Seq<Seq<char>>) -> bool {
    path.len() > 0 && path[0] == root_part()
}

/// The path without its last component; the root and the empty path have
/// nothing to give up.
pub open spec fn popped(path: Seq<Seq<char>>) -> Seq<Seq<char>> {
    if path.len() == 0 || path.last() == root_part() {
        path
    } else {
        path.drop_last()
    }
}

/// The path extended by one component; the root component starts over.
pub open spec fn pushed(path: Seq<Seq<char>>, part: Seq<char>) -> Seq<Seq<char>> {
    if part == root_part() {
        seq![root_part()]
    } else {
        path.push(part)
    }
}

/// `rest` appended to `path`; an absolute `rest` replaces `path`.
pub open spec fn joined(path: Seq<Seq<char>>, rest: Seq<Seq<char>>) -> Seq<Seq<char>> {
    if is_absolute(rest) {
        rest
    } else {
        path + rest
    }
}

/// One step of normalizing: `.` is dropped, `..` gives up the last component,
/// anything else is appended.
pub open spec fn normalize_step(path: Seq<Seq<char>>, part: Seq<char>) -> Seq<Seq<char>> {
    if part == dot_part() {
        path
    } else if part == dot_dot_part() {
        popped(path)
    } else {
        pushed(path, part)
    }
}

/// `base` followed by the components of `path`, taken one by one from the
/// left and normalized on the way.
pub open spec fn join_normalized(base: Seq<Seq<char>>, path: Seq<Seq<char>>) -> Seq<Seq<char>>
    decreases path.len(),
{
    if path.len() == 0 {
        base
    } else {
        normalize_step(join_normalized(base, path.drop_last()), path.last())
    }
}

/// Whether the root component stands nowhere but in front.
pub open spec fn well_rooted(path: Seq<Seq<char>>) -> bool {
    forall|i: int| 0 < i < path.len() ==> path[i] != root_part()
}

/// A filesystem path, held as its components.
#[derive(Debug)]
pub struct FsPath {
    parts: Vec<String>,
}

impl View for FsPath {
    type V = Seq<Seq<char>>;

    closed spec fn view(&self) -> Seq<Seq<char>> {
        self.parts@.map_values(|part: String| part@)
    }
}

impl Clone for FsPath {
    fn clone(&self) -> (copy: Self)
        ensures
            copy@ == self@,
    {
        let mut parts: Vec<String> = Vec::new();
        let mut i: usize = 0;
        while i < self.parts.len()
            invariant
                i <= self.parts.len(),
                parts@.map_values(|part: String| part@) == self@.take(i as int),
            decreases self.parts.len() - i,
        {
            parts.push(self.parts[i].clone());
            proof {
                assert(self@.take(i + 1) =~= self@.take(i as int).push(self@[i as int]));
            }
            i = i + 1;
        }
        proof {
            assert(self@.take(self.parts.len() as int) =~= self@);
            use_type_invariant(self);
        }
        FsPath { parts }
    }
}

fn keeps(segment: &String, leading: bool) -> (keep: bool)
    ensures
        keep == keeps_segment(segment@, leading),
{
    if segment.as_str().is_empty() {
        false
    } else if leading {
        true
    } else {
        let dot = String::from_str(".");
        proof {
            reveal_strlit(".");
            assert("."@ =~= dot_part());
        }
        *segment != dot
    }
}

impl FsPath {
    #[verifier::type_invariant]
    spec fn inv(self) -> bool {
        well_rooted(self@)
    }

    /// Splits the text of a path into its components.
    pub fn parse(text: &str) -> (path: FsPath)
        ensures
            path@ == components(text@),
            well_rooted(path@),
    {
        let mut parts: Vec<String> = Vec::new();
        let mut open = String::new();
        let mut absolute = false;
        let mut at_start = true;
        let mut in_first = true;
        let ghost mut closed: Seq<Seq<char>> = Seq::empty();
        for c in it: text.chars()
            invariant
                it.seq() == text@,
                scan_segments(text@.take(it.index())) == (closed, open@),
                at_start == (it.index() == 0),
                at_start ==> !absolute && in_first,
                !at_start ==> absolute == is_absolute_text(text@),
                in_first == (closed.len() == 0),
                !open@.contains('/'),
                well_rooted(parts@.map_values(|part: String| part@)),
                parts@.map_values(|part: String| part@) == if absolute {
                    seq![root_part()] + kept_segments(closed, false)
                } else {
                    kept_segments(closed, true)
                },
        {
            proof {
                assert(text@.take(it.index() + 1).drop_last() =~= text@.take(it.index()));
            }
            if at_start {
                at_start = false;
                if c == '/' {
                    absolute = true;
                    proof {
                        reveal_strlit("/");
                        assert("/"@ =~= root_part());
                    }
                    parts.push(String::from_str("/"));
                    assert(parts@.map_values(|part: String| part@) =~= seq![root_part()]
                        + kept_segments(closed, false));
                }
            }
            if c == '/' {
                let ghost before = parts@.map_values(|part: String| part@);
                let keep = keeps(&open, in_first && !absolute);
                proof {
                    assert(closed.push(open@).drop_last() =~= closed);
                    assert(root_part().contains('/')) by {
                        assert(root_part()[0] == '/');
                    }
                }
                if keep {
                    parts.push(open);
                    assert(parts@.map_values(|part: String| part@) =~= before.push(
                        closed.push(open@).last(),
                    ));
                }
                proof {
                    closed = closed.push(open@);
                }
                open = String::new();
                in_first = false;
            } else {
                let ghost before = open@;
                push_char(&mut open, c);
                proof {
                    assert forall|k: int| 0 <= k < open@.len() implies open@[k] != '/' by {
                        if k < before.len() {
                            assert(before.contains(before[k]));
                        }
                    }
                }
            }
        }
        proof {
            assert(text@.take(text@.len() as int) =~= text@);
            assert(closed.push(open@).drop_last() =~= closed);
            assert(root_part().contains('/')) by {
                assert(root_part()[0] == '/');
            }
        }
        let ghost before = parts@.map_values(|part: String| part@);
        if keeps(&open, in_first && !absolute) {
            parts.push(open);
            assert(parts@.map_values(|part: String| part@) =~= before.push(
                closed.push(open@).last(),
            ));
        }
        FsPath { parts }
    }

    /// Whether the path has no component at all.
    pub fn is_empty(&self) -> (empty: bool)
        ensures
            empty == (self@.len() == 0),
    {
        self.parts.len() == 0
    }

    /// Whether the path starts at the filesystem root.
    pub fn is_absolute(&self) -> (absolute: bool)
        ensures
            absolute == is_absolute(self@),
    {
        if self.parts.len() == 0 {
            false
        } else {
            let root = String::from_str("/");
            proof {
                reveal_strlit("/");
                assert("/"@ =~= root_part());
            }
            self.parts[0] == root
        }
    }

    /// Whether both paths have the same components.
    pub fn same_as(&self, other: &FsPath) -> (same: bool)
        ensures
            same == (self@ == other@),
    {
        if self.parts.len() != other.parts.len() {
            return false;
        }
        let mut i: usize = 0;
        while i < self.parts.len()
            invariant
                i <= self.parts.len(),
                self.parts.len() == other.parts.len(),
                self@.take(i as int) == other@.take(i as int),
            decreases self.parts.len() - i,
        {
            if self.parts[i] != other.parts[i] {
                assert(self@[i as int] != other@[i as int]);
                return false;
            }
            proof {
                assert(self@.take(i + 1) =~= self@.take(i as int).push(self@[i as int]));
                assert(other@.take(i + 1) =~= other@.take(i as int).push(other@[i as int]));
            }
            i = i + 1;
        }
        proof {
            assert(self@.take(self.parts.len() as int) =~= self@);
            assert(other@.take(other.parts.len() as int) =~= other@);
        }
        true
    }

    /// What is left of the path behind `base`, if the path starts with all
    /// the components of `base`.
    pub fn strip_prefix(&self, base: &FsPath) -> (rest: Option<FsPath>)
        ensures
            base@.is_prefix_of(self@) ==> rest is Some && rest->0@ == self@.skip(base@.len() as int),
            !base@.is_prefix_of(self@) ==> rest is None,
    {
        if base.parts.len() > self.parts.len() {
            return None;
        }
        let mut i: usize = 0;
        while i < base.parts.len()
            invariant
                i <= base.parts.len() <= self.parts.len(),
                self@.take(i as int) == base@.take(i as int),
            decreases base.parts.len() - i,
        {
            if self.parts[i] != base.parts[i] {
                assert(self@[i as int] != base@[i as int]);
                return None;
            }
            proof {
                assert(self@.take(i + 1) =~= self@.take(i as int).push(self@[i as int]));
                assert(base@.take(i + 1) =~= base@.take(i as int).push(base@[i as int]));
            }
            i = i + 1;
        }
        proof {
            assert(base@.take(base.parts.len() as int) =~= base@);
            assert(base@ =~= self@.subrange(0, base@.len() as int));
        }
        let mut parts: Vec<String> = Vec::new();
        let mut k: usize = base.parts.len();
        while k < self.parts.len()
            invariant
                base.parts.len() <= k <= self.parts.len(),
                parts@.map_values(|part: String| part@) == self@.subrange(
                    base.parts.len() as int,
                    k as int,
                ),
            decreases self.parts.len() - k,
        {
            parts.push(self.parts[k].clone());
            proof {
                assert(self@.subrange(base.parts.len() as int, k + 1) =~= self@.subrange(
                    base.parts.len() as int,
                    k as int,
                ).push(self@[k as int]));
            }
            k = k + 1;
        }
        proof {
            assert(self@.subrange(base.parts.len() as int, self.parts.len() as int) =~= self@.skip(
                base@.len() as int,
            ));
            use_type_invariant(self);
        }
        Some(FsPath { parts })
    }

    /// The path followed by `rest`; an absolute `rest` stands alone.
    pub fn join(&self, rest: &FsPath) -> (path: FsPath)
        ensures
            path@ == joined(self@, rest@),
    {
        if rest.is_absolute() {
            return rest.clone();
        }
        let mut parts = self.clone().parts;
        let mut i: usize = 0;
        while i < rest.parts.len()
            invariant
                i <= rest.parts.len(),
                parts@.map_values(|part: String| part@) == self@ + rest@.take(i as int),
            decreases rest.parts.len() - i,
        {
            let ghost before = parts@.map_values(|part: String| part@);
            parts.push(rest.parts[i].clone());
            proof {
                assert(parts@.map_values(|part: String| part@) =~= before.push(rest@[i as int]));
                assert(rest@.take(i + 1) =~= rest@.take(i as int).push(rest@[i as int]));
                assert(before.push(rest@[i as int]) =~= self@ + rest@.take(i + 1));
            }
            i = i + 1;
        }
        proof {
            assert(rest@.take(rest.parts.len() as int) =~= rest@);
            use_type_invariant(self);
            use_type_invariant(rest);
        }
        FsPath { parts }
    }

    /// Gives up the last component, as far as there is one to give up.
    pub fn pop(&mut self)
        ensures
            final(self)@ == popped(old(self)@),
    {
        let n = self.parts.len();
        if n > 0 {
            let root = String::from_str("/");
            proof {
                reveal_strlit("/");
                assert("/"@ =~= root_part());
            }
            if self.parts[n - 1] != root {
                proof {
                    use_type_invariant(&*self);
                }
                let mut parts = self.clone().parts;
                parts.pop();
                assert(parts@.map_values(|part: String| part@) =~= old(self)@.drop_last());
                *self = FsPath { parts };
            }
        }
    }

    /// Appends one component; the root component starts the path over.
    pub fn push(&mut self, part: &String)
        ensures
            final(self)@ == pushed(old(self)@, part@),
    {
        let root = String::from_str("/");
        proof {
            reveal_strlit("/");
            assert("/"@ =~= root_part());
        }
        proof {
            use_type_invariant(&*self);
        }
        let mut parts = if *part == root {
            Vec::new()
        } else {
            self.clone().parts
        };
        parts.push(part.clone());
        assert(parts@.map_values(|part: String| part@) =~= pushed(old(self)@, part@));
        *self = FsPath { parts };
    }

    /// The path as text, its components separated by `'/'`.
    pub fn to_string(&self) -> (text: String)
        ensures
            text@ == rendered(self@),
    {
        let mut text = String::new();
        let mut bare = true;
        let mut i: usize = 0;
        while i < self.parts.len()
            invariant
                i <= self.parts.len(),
                text@ == rendered(self@.take(i as int)),
                bare == (text@.len() == 0 || text@.last() == '/'),
            decreases self.parts.len() - i,
        {
            proof {
                assert(self@.take(i + 1).drop_last() =~= self@.take(i as int));
            }
            if !bare {
                push_char(&mut text, '/');
                bare = true;
            }
            let ghost start = text@;
            let part = &self.parts[i];
            for c in it: part.as_str().chars()
                invariant
                    it.seq() == part@,
                    text@ == start + part@.take(it.index()),
                    bare == (text@.len() == 0 || text@.last() == '/'),
            {
                push_char(&mut text, c);
                bare = c == '/';
                proof {
                    assert(part@.take(it.index() + 1) =~= part@.take(it.index()).push(c));
                    assert(text@ =~= start + part@.take(it.index() + 1));
                }
            }
            proof {
                assert(part@.take(part@.len() as int) =~= part@);
            }
            i = i + 1;
        }
        proof {
            assert(self@.take(self.parts.len() as int) =~= self@);
        }
        text
    }
}

/// The text of a path: its components in order, with a `'/'` between two of
/// them unless the text so far already ends in one.
pub open spec fn rendered(path: Seq<Seq<char>>) -> Seq<char>
    decreases path.len(),
{
    if path.len() == 0 {
        Seq::empty()
    } else {
        let before = rendered(path.drop_last());
        if before.len() == 0 || before.last() == '/' {
            before + path.last()
        } else {
            before.push('/') + path.last()
        }
    }
}

/// Joins `path` onto `base` component by component: `.` is skipped, `..`
/// takes the last component away again, and the root component starts over.
pub fn join_and_normalize_path(base: &FsPath, path: &FsPath) -> (result: FsPath)
    ensures
        result@ == join_normalized(base@, path@),
{
    let mut result = base.clone();
    let dot = String::from_str(".");
    let dot_dot = String::from_str("..");
    proof {
        reveal_strlit(".");
        reveal_strlit("..");
        assert("."@ =~= dot_part());
        assert(".."@ =~= dot_dot_part());
    }
    let mut i: usize = 0;
    while i < path.parts.len()
        invariant
            i <= path.parts.len(),
            dot@ == dot_part(),
            dot_dot@ == dot_dot_part(),
            result@ == join_normalized(base@, path@.take(i as int)),
        decreases path.parts.len() - i,
    {
        proof {
            assert(path@.take(i + 1).drop_last() =~= path@.take(i as int));
        }
        let part = &path.parts[i];
        if *part == dot {
        } else if *part == dot_dot {
            result.pop();
        } else {
            result.push(part);
        }
        i = i + 1;
    }
    proof {
        assert(path@.take(path.parts.len() as int) =~= path@);
    }
    result
}


/// What a sandbox root is in the model: the directory as it lies on disk, and
/// the same directory as the user sees it.
pub struct EntryView {
    pub actual: Seq<Seq<char>>,
    pub displayed: Seq<Seq<char>>,
}

impl EntryView {
    /// A directory that exists has a name to show.
    pub open spec fn wf(self) -> bool {
        self.actual.len() > 0 ==> self.displayed.len() > 0
    }

    /// The entry for a directory that is shown under its own path.
    pub open spec fn plain(text: Seq<char>) -> EntryView {
        EntryView { actual: components(text), displayed: components(text) }
    }

    /// The entry for a directory that the host shows under another path; an
    /// empty `shown` stands for none.
    pub open spec fn mapped(text: Seq<char>, shown: Seq<char>) -> EntryView {
        if components(shown).len() == 0 {
            Self::plain(text)
        } else {
            EntryView { actual: components(text), displayed: components(shown) }
        }
    }

    /// Where `path`, given in the user's view, lies on disk if it is below
    /// this root.
    pub open spec fn candidate(self, path: Seq<Seq<char>>) -> Option<Seq<Seq<char>>> {
        if self.displayed.is_prefix_of(path) {
            Some(joined(self.actual, path.skip(self.displayed.len() as int)))
        } else {
            None
        }
    }

    /// Whether a path found below this root must exist on disk to count.
    pub open spec fn remapped(self) -> bool {
        self.actual != self.displayed
    }
}

/// A sandbox root.
#[derive(Debug)]
pub struct PathMapEntry {
    actual: FsPath,
    displayed: FsPath,
}

impl View for PathMapEntry {
    type V = EntryView;

    closed spec fn view(&self) -> EntryView {
        EntryView { actual: self.actual@, displayed: self.displayed@ }
    }
}

impl Clone for PathMapEntry {
    fn clone(&self) -> (copy: Self)
        ensures
            copy@ == self@,
    {
        proof {
            use_type_invariant(self);
        }
        PathMapEntry { actual: self.actual.clone(), displayed: self.displayed.clone() }
    }
}

/// The path under which the user sees `path`. Without a host that remaps
/// directories this is the path itself.
pub fn get_display_path(path: &FsPath) -> (shown: FsPath)
    ensures
        shown@ == path@,
{
    path.clone()
}

impl PathMapEntry {
    #[verifier::type_invariant]
    spec fn inv(self) -> bool {
        self@.wf()
    }

    /// The entry for the directory at `path`.
    pub fn new(path: &str) -> (entry: PathMapEntry)
        ensures
            entry@ == EntryView::plain(path@),
    {
        let actual = FsPath::parse(path);
        let displayed = get_display_path(&actual);
        PathMapEntry { actual, displayed }
    }

    /// The entry for the directory at `path` which the host shows to the user
    /// as `shown`. An empty `shown` means that the host has no other name
    /// for it.
    pub fn mapped(path: &str, shown: &str) -> (entry: PathMapEntry)
        ensures
            entry@ == EntryView::mapped(path@, shown@),
    {
        let actual = FsPath::parse(path);
        let displayed = FsPath::parse(shown);
        if displayed.is_empty() {
            let displayed = get_display_path(&actual);
            PathMapEntry { actual, displayed }
        } else {
            PathMapEntry { actual, displayed }
        }
    }

    /// The directory as it lies on disk.
    pub fn actual(&self) -> (path: &FsPath)
        ensures
            path@ == self@.actual,
    {
        &self.actual
    }

    /// The directory as the user sees it.
    pub fn displayed(&self) -> (path: &FsPath)
        ensures
            path@ == self@.displayed,
    {
        &self.displayed
    }
}

/// What the sandbox is in the model.
pub struct MapperView {
    pub root: EntryView,
    pub allowed: Seq<EntryView>,
}

impl MapperView {
    /// The roots in the order in which they are tried: the document's
    /// directory first.
    pub open spec fn roots(self) -> Seq<EntryView> {
        seq![self.root] + self.allowed
    }

    /// Whether the document has a directory.
    pub open spec fn saved(self) -> bool {
        self.root.actual.len() > 0
    }

    /// The path in the user's view that a virtual path stands for.
    pub open spec fn shown_path(self, path: Seq<Seq<char>>) -> Seq<Seq<char>> {
        join_normalized(self.root.displayed, path)
    }

    /// Whether a virtual path leads out of every root.
    pub open spec fn escapes(self, path: Seq<Seq<char>>) -> bool {
        forall|i: int|
            0 <= i < self.roots().len() ==> (#[trigger] self.roots()[i]).candidate(
                self.shown_path(path),
            ) is None
    }

    /// Whether every root is well formed.
    pub open spec fn wf(self) -> bool {
        forall|i: int| 0 <= i < self.roots().len() ==> (#[trigger] self.roots()[i]).wf()
    }
}

/// Whether the existence test may answer `answer` when asked about `path`.
pub open spec fn answers<F: Fn(&FsPath) -> bool>(
    on_disk: F,
    path: Seq<Seq<char>>,
    answer: bool,
) -> bool {
    exists|asked: FsPath| asked@ == path && #[trigger] call_ensures(on_disk, (&asked,), answer)
}

/// Whether the search goes on behind `root`: the path is not below it, or it
/// is, but the root is remapped and the path does not exist there.
pub open spec fn passes_over<F: Fn(&FsPath) -> bool>(
    root: EntryView,
    shown: Seq<Seq<char>>,
    on_disk: F,
) -> bool {
    root.candidate(shown) matches Some(found) ==> root.remapped() && answers(on_disk, found, false)
}

/// Whether the search ends at `root` with `found`.
pub open spec fn settles_on<F: Fn(&FsPath) -> bool>(
    root: EntryView,
    shown: Seq<Seq<char>>,
    on_disk: F,
    found: Seq<Seq<char>>,
) -> bool {
    root.candidate(shown) == Some(found) && (root.remapped() ==> answers(on_disk, found, true))
}

/// Whether the search over `roots` ends at the root with index `at`, with
/// `found`: every root before it is passed over.
pub open spec fn resolved_at<F: Fn(&FsPath) -> bool>(
    roots: Seq<EntryView>,
    shown: Seq<Seq<char>>,
    on_disk: F,
    found: Seq<Seq<char>>,
    at: int,
) -> bool {
    &&& 0 <= at < roots.len()
    &&& settles_on(roots[at], shown, on_disk, found)
    &&& forall|j: int| 0 <= j < at ==> #[trigger] passes_over(roots[j], shown, on_disk)
}

/// Whether `result` is what the ordered search over `roots` gives for the
/// path `shown`, with the answers that `on_disk` gave on the way.
pub open spec fn resolution<F: Fn(&FsPath) -> bool>(
    roots: Seq<EntryView>,
    shown: Seq<Seq<char>>,
    on_disk: F,
    result: Result<FsPath, FileFailure>,
) -> bool {
    match result {
        Ok(found) => exists|at: int| #[trigger] resolved_at(roots, shown, on_disk, found@, at),
        Err(failure) => failure is AccessDenied && forall|j: int|
            0 <= j < roots.len() ==> #[trigger] passes_over(roots[j], shown, on_disk),
    }
}

/// Whether `result` is what the sandbox gives for the virtual path `path`:
/// nothing for a document without a directory, and else the result of the
/// search over the roots.
pub open spec fn located<F: Fn(&FsPath) -> bool>(
    sandbox: MapperView,
    path: Seq<Seq<char>>,
    on_disk: F,
    result: Result<FsPath, FileFailure>,
) -> bool {
    if sandbox.saved() {
        resolution(sandbox.roots(), sandbox.shown_path(path), on_disk, result)
    } else {
        result matches Err(FileFailure::Unsaved)
    }
}

/// The sandbox: the document's directory and the further directories that the
/// user has allowed.
#[derive(Debug)]
pub struct PathMapper {
    root: PathMapEntry,
    allowed_paths: Vec<PathMapEntry>,
}

impl View for PathMapper {
    type V = MapperView;

    closed spec fn view(&self) -> MapperView {
        MapperView {
            root: self.root@,
            allowed: self.allowed_paths@.map_values(|entry: PathMapEntry| entry@),
        }
    }
}

impl PathMapper {
    /// A sandbox around the document directory `root`; an empty `root` means
    /// that the document has none yet.
    pub fn new(root: &str) -> (mapper: PathMapper)
        ensures
            mapper@.root == EntryView::plain(root@),
            mapper@.allowed == Seq::<EntryView>::empty(),
    {
        let mapper = PathMapper { root: PathMapEntry::new(root), allowed_paths: Vec::new() };
        assert(mapper@.allowed =~= Seq::<EntryView>::empty());
        mapper
    }

    /// A sandbox around a root that the host shows under another path.
    pub fn with_root(root: PathMapEntry) -> (mapper: PathMapper)
        ensures
            mapper@.root == root@,
            mapper@.allowed == Seq::<EntryView>::empty(),
    {
        let mapper = PathMapper { root, allowed_paths: Vec::new() };
        assert(mapper@.allowed =~= Seq::<EntryView>::empty());
        mapper
    }

    /// Replaces the allowed directories by those of `paths` that are
    /// absolute, in their order.
    pub fn set_allowed_paths(&mut self, paths: Vec<String>)
        ensures
            final(self)@.root == old(self)@.root,
            final(self)@.allowed == paths@.map_values(|path: String| EntryView::plain(path@)).filter(
                |entry: EntryView| is_absolute(entry.actual),
            ),
    {
        let ghost all = paths@.map_values(|path: String| EntryView::plain(path@));
        let ghost wanted = |entry: EntryView| is_absolute(entry.actual);
        let mut entries: Vec<PathMapEntry> = Vec::new();
        let mut i: usize = 0;
        while i < paths.len()
            invariant
                i <= paths.len(),
                all == paths@.map_values(|path: String| EntryView::plain(path@)),
                wanted == |entry: EntryView| is_absolute(entry.actual),
                entries@.map_values(|entry: PathMapEntry| entry@) == all.take(i as int).filter(
                    wanted,
                ),
            decreases paths.len() - i,
        {
            let entry = PathMapEntry::new(paths[i].as_str());
            proof {
                assert(all.take(i + 1) =~= all.take(i as int).push(all[i as int]));
                all.take(i as int).lemma_filter_push(all[i as int], wanted);
            }
            if entry.actual.is_absolute() {
                let ghost before = entries@.map_values(|entry: PathMapEntry| entry@);
                entries.push(entry);
                assert(entries@.map_values(|entry: PathMapEntry| entry@) =~= before.push(
                    all[i as int],
                ));
            }
            i = i + 1;
        }
        proof {
            assert(all.take(paths.len() as int) =~= all);
        }
        self.allowed_paths = entries;
    }

    /// Replaces the allowed directories by those of `entries` that are
    /// absolute on disk, in their order.
    pub fn set_allowed_entries(&mut self, entries: &Vec<PathMapEntry>)
        ensures
            final(self)@.root == old(self)@.root,
            final(self)@.allowed == entries@.map_values(|entry: PathMapEntry| entry@).filter(
                |entry: EntryView| is_absolute(entry.actual),
            ),
    {
        let ghost all = entries@.map_values(|entry: PathMapEntry| entry@);
        let ghost wanted = |entry: EntryView| is_absolute(entry.actual);
        let mut kept: Vec<PathMapEntry> = Vec::new();
        let mut i: usize = 0;
        while i < entries.len()
            invariant
                i <= entries.len(),
                all == entries@.map_values(|entry: PathMapEntry| entry@),
                wanted == |entry: EntryView| is_absolute(entry.actual),
                kept@.map_values(|entry: PathMapEntry| entry@) == all.take(i as int).filter(wanted),
            decreases entries.len() - i,
        {
            proof {
                assert(all.take(i + 1) =~= all.take(i as int).push(all[i as int]));
                all.take(i as int).lemma_filter_push(all[i as int], wanted);
            }
            if entries[i].actual.is_absolute() {
                let ghost before = kept@.map_values(|entry: PathMapEntry| entry@);
                kept.push(entries[i].clone());
                assert(kept@.map_values(|entry: PathMapEntry| entry@) =~= before.push(
                    all[i as int],
                ));
            }
            i = i + 1;
        }
        proof {
            assert(all.take(entries.len() as int) =~= all);
        }
        self.allowed_paths = kept;
    }

    /// Tries one root: gives the place on disk if the search ends here.
    fn try_root<F: Fn(&FsPath) -> bool>(root: &PathMapEntry, shown: &FsPath, on_disk: &F) -> (found:
        Option<FsPath>)
        requires
            forall|asked: &FsPath| call_requires(*on_disk, (asked,)),
        ensures
            found matches Some(path) ==> settles_on(root@, shown@, *on_disk, path@)
                && root@.actual.is_prefix_of(path@),
            found is None ==> passes_over(root@, shown@, *on_disk),
    {
        match shown.strip_prefix(&root.displayed) {
            Some(rest) => {
                let found = root.actual.join(&rest);
                let accepted = if root.actual.same_as(&root.displayed) {
                    true
                } else {
                    on_disk(&found)
                };
                if accepted {
                    proof {
                        use_type_invariant(root);
                        use_type_invariant(shown);
                        lemma_candidate_below_root(root@, shown@);
                    }
                    Some(found)
                } else {
                    None
                }
            },
            None => None,
        }
    }

    /// Finds where on disk the virtual path `path` lies. The path is joined
    /// onto the document directory as the user sees it; the roots are then
    /// tried in order, and the first one that the joined path lies below
    /// gives the result. Below a remapped root a path counts only if `on_disk`
    /// confirms it.
    pub fn get_fs_file_path<F: Fn(&FsPath) -> bool>(&self, path: &FsPath, on_disk: F) -> (result:
        Result<FsPath, FileFailure>)
        requires
            forall|asked: &FsPath| call_requires(on_disk, (asked,)),
        ensures
            located(self@, path@, on_disk, result),
            self@.saved() && self@.escapes(path@) ==> result matches Err(FileFailure::AccessDenied),
            result matches Ok(found) ==> exists|i: int|
                0 <= i < self@.roots().len() && (#[trigger] self@.roots()[i]).actual.is_prefix_of(
                    found@,
                ),
    {
        if self.root.actual.is_empty() {
            return Err(FileFailure::Unsaved);
        }
        let shown = join_and_normalize_path(&self.root.displayed, path);
        let ghost roots = self@.roots();
        match Self::try_root(&self.root, &shown, &on_disk) {
            Some(found) => {
                assert(resolved_at(roots, shown@, on_disk, found@, 0));
                let result: Result<FsPath, FileFailure> = Ok(found);
                assert(result matches Ok(path) && path@ == found@);
                assert(resolution(roots, shown@, on_disk, result));
                return result;
            },
            None => {},
        }
        let mut i: usize = 0;
        while i < self.allowed_paths.len()
            invariant
                i <= self.allowed_paths.len(),
                self@.saved(),
                roots == self@.roots(),
                roots.len() == self.allowed_paths.len() + 1,
                shown@ == self@.shown_path(path@),
                forall|asked: &FsPath| call_requires(on_disk, (asked,)),
                forall|j: int| 0 <= j < i + 1 ==> #[trigger] passes_over(roots[j], shown@, on_disk),
            decreases self.allowed_paths.len() - i,
        {
            match Self::try_root(&self.allowed_paths[i], &shown, &on_disk) {
                Some(found) => {
                    proof {
                        assert(roots[i + 1] == self.allowed_paths[i as int]@);
                        assert(resolved_at(roots, shown@, on_disk, found@, i + 1));
                    }
                    let result: Result<FsPath, FileFailure> = Ok(found);
                    assert(result matches Ok(path) && path@ == found@);
                assert(resolution(roots, shown@, on_disk, result));
                    return result;
                },
                None => {
                    assert(roots[i + 1] == self.allowed_paths[i as int]@);
                },
            }
            i = i + 1;
        }
        Err(FileFailure::AccessDenied)
    }
}

/// A path found below a well-formed root starts with the root's place on
/// disk.
pub proof fn lemma_candidate_below_root(root: EntryView, shown: Seq<Seq<char>>)
    requires
        root.wf(),
        well_rooted(shown),
        root.candidate(shown) is Some,
    ensures
        root.actual.is_prefix_of(root.candidate(shown)->0),
{
    let rest = shown.skip(root.displayed.len() as int);
    if root.displayed.len() > 0 {
        if rest.len() > 0 {
            assert(rest[0] == shown[root.displayed.len() as int]);
        }
        assert(!is_absolute(rest));
    }
}

/// Normalizing never moves the root component away from the front.
pub proof fn lemma_join_normalized_well_rooted(base: Seq<Seq<char>>, path: Seq<Seq<char>>)
    requires
        well_rooted(base),
    ensures
        well_rooted(join_normalized(base, path)),
    decreases path.len(),
{
    if path.len() > 0 {
        lemma_join_normalized_well_rooted(base, path.drop_last());
    }
}

/// A virtual path that resolves below one of the sandbox's roots resolves to
/// a place that starts with that root's place on disk.
pub proof fn lemma_resolved_path_stays_inside(sandbox: MapperView, path: Seq<Seq<char>>, at: int)
    requires
        sandbox.wf(),
        well_rooted(sandbox.root.displayed),
        0 <= at < sandbox.roots().len(),
        sandbox.roots()[at].candidate(sandbox.shown_path(path)) is Some,
    ensures
        sandbox.roots()[at].actual.is_prefix_of(
            sandbox.roots()[at].candidate(sandbox.shown_path(path))->0,
        ),
{
    lemma_join_normalized_well_rooted(sandbox.root.displayed, path);
    lemma_candidate_below_root(sandbox.roots()[at], sandbox.shown_path(path));
}

/// The virtual path made of `steps` parent components.
pub open spec fn parent_steps(steps: nat) -> Seq<Seq<char>> {
    Seq::new(steps, |i: int| dot_dot_part())
}

/// Going up from a directory, once or more often, never ends at or below
/// that directory again.
pub proof fn lemma_parent_steps_leave(base: Seq<Seq<char>>, steps: nat)
    requires
        base.len() > 0,
        base.last() != root_part(),
        steps > 0,
    ensures
        join_normalized(base, parent_steps(steps)).len() < base.len(),
        !base.is_prefix_of(join_normalized(base, parent_steps(steps))),
    decreases steps,
{
    let path = parent_steps(steps);
    assert(path.last() == dot_dot_part());
    assert(dot_dot_part() != dot_part()) by {
        assert(dot_dot_part().len() != dot_part().len());
    }
    assert(path.drop_last() =~= parent_steps((steps - 1) as nat));
    if steps > 1 {
        lemma_parent_steps_leave(base, (steps - 1) as nat);
    } else {
        assert(path.drop_last().len() == 0);
    }
}

} // verus!
