use crate::strings::{
    contains, contains_text, copy_str, push_char, push_text, split, split_pieces, trim_matches,
    trimmed, views_of,
};
use vstd::prelude::*;

verus! {

/// What a character becomes where it is to be shown as it is in HTML.
pub open spec fn escaped_char(c: char) -> Seq<char> {
    if c == '<' {
        "&lt;"@
    } else if c == '>' {
        "&gt;"@
    } else if c == '&' {
        "&amp;"@
    } else if c == '"' {
        "&quot;"@
    } else {
        seq![c]
    }
}

/// A text with the characters that HTML gives a meaning to written out.
pub open spec fn escaped(text: Seq<char>) -> Seq<char>
    decreases text.len(),
{
    if text.len() == 0 {
        Seq::empty()
    } else {
        escaped(text.drop_last()) + escaped_char(text.last())
    }
}

/// Writes out the characters of a text that HTML gives a meaning to.
pub fn html_escape(value: &str) -> (result: String)
    ensures
        result@ == escaped(value@),
{
    let mut result = String::new();
    for ch in it: value.chars()
        invariant
            it.seq() == value@,
            result@ == escaped(value@.take(it.index())),
    {
        proof {
            assert(value@.take(it.index() + 1).drop_last() =~= value@.take(it.index()));
        }
        if ch == '<' {
            push_text(&mut result, "&lt;");
        } else if ch == '>' {
            push_text(&mut result, "&gt;");
        } else if ch == '&' {
            push_text(&mut result, "&amp;");
        } else if ch == '"' {
            push_text(&mut result, "&quot;");
        } else {
            push_char(&mut result, ch);
            assert(result@ =~= escaped(value@.take(it.index())) + seq![ch]);
        }
    }
    proof {
        assert(value@.take(value@.len() as int) =~= value@);
    }
    result
}

/// Where the documentation lies on the net.
pub open spec fn docs_prefix() -> Seq<char> {
    "https://typst.app/docs"@
}

/// Whether a name is that of a part of the documentation that is no part of
/// the reference.
pub open spec fn is_top_page(path: Seq<char>) -> bool {
    path == "tutorial"@ || path == "guides"@ || path == "reference"@
}

/// The address of a page of the documentation that is known by its name: a
/// top page, or else a page of the reference.
pub open spec fn well_known_page(path: Seq<char>) -> Seq<char> {
    if is_top_page(path) {
        docs_prefix() + "/"@ + path
    } else {
        docs_prefix() + "/"@ + "reference/"@ + path
    }
}

/// Whether two texts are the same.
pub fn same_text(a: &str, b: &str) -> (same: bool)
    ensures
        same == (a@ == b@),
{
    copy_str(a) == copy_str(b)
}

/// The address of a page of the documentation that is known by its name.
pub fn get_well_known_page_link(path: &str) -> (url: String)
    ensures
        url@ == well_known_page(path@),
{
    let mut url = copy_str("https://typst.app/docs");
    push_text(&mut url, "/");
    if same_text(path, "tutorial") || same_text(path, "guides") || same_text(path, "reference") {
        push_text(&mut url, path);
    } else {
        push_text(&mut url, "reference/");
        push_text(&mut url, path);
        assert(url@ =~= well_known_page(path@));
    }
    url
}

/// A function of the standard library, as far as the documentation's
/// addresses depend on it: the names of its parameters, and what is defined
/// on it.
pub struct FuncDef {
    pub params: Vec<String>,
    pub scope: Option<Scope>,
}

/// What a name of the standard library stands for.
pub enum Value {
    /// A module, with what it defines.
    Module(Scope),
    /// A type, with what is defined on it.
    Type(Scope),
    /// A function.
    Func(FuncDef),
    /// Anything that has no page of its own.
    Other,
}

/// A name's binding: what it stands for, and the part of the reference that
/// documents it.
pub struct Binding {
    pub value: Value,
    pub category: Option<String>,
}

/// The names that are defined in one place, each with its binding.
pub struct Scope {
    pub entries: Vec<(String, Binding)>,
}

/// What the documentation's addresses are made from: the names that a
/// document sees, the names below `std` if there are any, and the names
/// that are defined on every function.
pub struct StandardLibrary {
    pub global: Scope,
    pub std: Option<Scope>,
    pub func_type: Scope,
}

/// The first binding for `name` at or behind the index `from`.
pub open spec fn find_binding(entries: Seq<(String, Binding)>, name: Seq<char>, from: int) -> Option<
    Binding,
>
    decreases entries.len() - from,
{
    if from < 0 || from >= entries.len() {
        None
    } else if entries[from].0@ == name {
        Some(entries[from].1)
    } else {
        find_binding(entries, name, from + 1)
    }
}

/// Whether a function has a parameter of that name.
pub open spec fn has_param(params: Seq<String>, name: Seq<char>) -> bool {
    exists|i: int| 0 <= i < params.len() && (#[trigger] params[i])@ == name
}

impl Scope {
    /// The binding of a name in this scope.
    pub open spec fn binding(&self, name: Seq<char>) -> Option<Binding> {
        find_binding(self.entries@, name, 0)
    }

    /// Looks a name up in this scope.
    pub fn get(&self, name: &str) -> (found: Option<&Binding>)
        ensures
            match self.binding(name@) {
                Some(binding) => found matches Some(b) && *b == binding,
                None => found is None,
            },
    {
        let wanted = copy_str(name);
        let mut i: usize = 0;
        while i < self.entries.len()
            invariant
                i <= self.entries.len(),
                wanted@ == name@,
                find_binding(self.entries@, name@, 0) == find_binding(self.entries@, name@, i as int),
            decreases self.entries.len() - i,
        {
            if self.entries[i].0 == wanted {
                return Some(&self.entries[i].1);
            }
            i = i + 1;
        }
        None
    }
}

impl FuncDef {
    /// Whether the function has a parameter of that name.
    pub fn param(&self, name: &str) -> (found: bool)
        ensures
            found == has_param(self.params@, name@),
    {
        let wanted = copy_str(name);
        let mut i: usize = 0;
        while i < self.params.len()
            invariant
                i <= self.params.len(),
                wanted@ == name@,
                forall|k: int| 0 <= k < i ==> (#[trigger] self.params[k])@ != name@,
            decreases self.params.len() - i,
        {
            if self.params[i] == wanted {
                return true;
            }
            i = i + 1;
        }
        false
    }
}

/// The address of the page of a type or a function in the reference.
pub open spec fn page_url(category: Seq<char>, name: Seq<char>) -> Seq<char> {
    docs_prefix() + "/reference/"@ + category + "/"@ + name
}

/// The address of the page of the type of all functions.
pub open spec fn function_page() -> Seq<char> {
    docs_prefix() + "/reference/foundations/function"@
}

/// The address of a parameter on the page at `url`.
pub open spec fn param_url(url: Seq<char>, name: Seq<char>) -> Seq<char> {
    if contains_text(url, "#"@) {
        url + "-"@ + name
    } else {
        url + "#parameters-"@ + name
    }
}

/// The address of a function that is defined on what the page at `url`
/// documents.
pub open spec fn member_url(url: Seq<char>, name: Seq<char>) -> Seq<char> {
    if contains_text(url, "#"@) {
        url + "-definitions-"@ + name
    } else {
        url + "#definitions-"@ + name
    }
}

/// How far a path has been followed: the names that can come next, the
/// address so far, and the function that was reached last, if the last name
/// was one.
pub struct Walk {
    pub entries: Seq<(String, Binding)>,
    pub url: Option<Seq<char>>,
    pub in_func: Option<FuncDef>,
}

/// What following a path by one name leads to.
pub enum Step {
    /// The path ends here, with this address or without one.
    Done(Option<Seq<char>>),
    /// The path goes on.
    Next(Walk),
}

/// The binding of the next name of a path, with the address so far: the name
/// is looked for where the path has led to, and behind a function also among
/// the names that are defined on every function, which lie on the page of
/// the type of all functions.
pub open spec fn next_binding(func_type: Seq<(String, Binding)>, walk: Walk, name: Seq<char>) -> Option<
    (Binding, Option<Seq<char>>),
> {
    match find_binding(walk.entries, name, 0) {
        Some(binding) => Some((binding, walk.url)),
        None => if walk.in_func is Some {
            match find_binding(func_type, name, 0) {
                Some(binding) => Some((binding, Some(function_page()))),
                None => None,
            }
        } else {
            None
        },
    }
}

/// What is defined on a function.
pub open spec fn func_entries(func: FuncDef) -> Seq<(String, Binding)> {
    match func.scope {
        Some(scope) => scope.entries@,
        None => Seq::empty(),
    }
}

/// Follows a path by one name. Behind a function, a parameter's name ends
/// the path on the function's page. A module is entered without a change of
/// address; a type starts a page; a function starts a page where there is
/// none yet, and is a member of the page else. An unknown name, and a name
/// that stands for anything else, ends the path without an address.
pub open spec fn walk_step(func_type: Seq<(String, Binding)>, walk: Walk, name: Seq<char>) -> Step {
    if walk.in_func is Some && has_param(walk.in_func->0.params@, name) {
        match walk.url {
            Some(url) => Step::Done(Some(param_url(url, name))),
            None => Step::Done(None),
        }
    } else {
        match next_binding(func_type, walk, name) {
            None => Step::Done(None),
            Some((binding, url)) => match binding.value {
                Value::Module(scope) => Step::Next(
                    Walk { entries: scope.entries@, url, in_func: None },
                ),
                Value::Type(scope) => match binding.category {
                    Some(category) => Step::Next(
                        Walk {
                            entries: scope.entries@,
                            url: Some(page_url(category@, name)),
                            in_func: None,
                        },
                    ),
                    None => Step::Done(None),
                },
                Value::Func(func) => match url {
                    Some(url) => Step::Next(
                        Walk {
                            entries: func_entries(func),
                            url: Some(member_url(url, name)),
                            in_func: Some(func),
                        },
                    ),
                    None => match binding.category {
                        Some(category) => Step::Next(
                            Walk {
                                entries: func_entries(func),
                                url: Some(page_url(category@, name)),
                                in_func: Some(func),
                            },
                        ),
                        None => Step::Done(None),
                    },
                },
                Value::Other => Step::Done(None),
            },
        }
    }
}

/// The address that a path leads to, from where the walk stands.
pub open spec fn walk_path(func_type: Seq<(String, Binding)>, walk: Walk, path: Seq<Seq<char>>) -> Option<
    Seq<char>,
>
    decreases path.len(),
{
    if path.len() == 0 {
        walk.url
    } else {
        match walk_step(func_type, walk, path[0]) {
            Step::Done(url) => url,
            Step::Next(next) => walk_path(func_type, next, path.skip(1)),
        }
    }
}

/// The address in the documentation of what a path of names stands for,
/// looked up from a scope.
pub open spec fn link_in_scope(
    scope: Seq<(String, Binding)>,
    func_type: Seq<(String, Binding)>,
    path: Seq<Seq<char>>,
) -> Option<Seq<char>> {
    walk_path(func_type, Walk { entries: scope, url: None, in_func: None }, path)
}

/// The names of a path, in the model.
pub open spec fn path_views(path: Seq<&str>) -> Seq<Seq<char>> {
    path.map_values(|name: &str| name@)
}

/// The text that may be there, in the model.
pub open spec fn text_of(text: Option<String>) -> Option<Seq<char>> {
    match text {
        Some(text) => Some(text@),
        None => None,
    }
}

/// The function that may be there.
pub open spec fn func_of(func: Option<&FuncDef>) -> Option<FuncDef> {
    match func {
        Some(func) => Some(*func),
        None => None,
    }
}

/// Says which address in the documentation a result stands for.
pub open spec fn is_link(result: Option<String>, link: Option<Seq<char>>) -> bool {
    match link {
        Some(url) => result matches Some(text) && text@ == url,
        None => result is None,
    }
}

/// Finds the address in the documentation of what a path of names stands
/// for, from a scope. `func_type` holds the names that are defined on every
/// function.
pub fn get_reference_link_in_scope(scope: &Scope, func_type: &Scope, path: &Vec<&str>) -> (result:
    Option<String>)
    ensures
        is_link(result, link_in_scope(scope.entries@, func_type.entries@, path_views(path@))),
{
    let empty_scope = Scope { entries: Vec::new() };
    let mut current = scope;
    let mut url: Option<String> = None;
    let mut in_func: Option<&FuncDef> = None;
    let ghost names = path_views(path@);
    let ghost start = Walk { entries: scope.entries@, url: None, in_func: None };
    let mut i: usize = 0;
    proof {
        assert(names.skip(0) =~= names);
    }
    while i < path.len()
        invariant
            i <= path.len(),
            names == path_views(path@),
            start == (Walk { entries: scope.entries@, url: None, in_func: None }),
            empty_scope.entries@ == Seq::<(String, Binding)>::empty(),
            walk_path(func_type.entries@, start, names) == walk_path(
                func_type.entries@,
                Walk {
                    entries: current.entries@,
                    url: text_of(url),
                    in_func: func_of(in_func),
                },
                names.skip(i as int),
            ),
        decreases path.len() - i,
    {
        let elem = path[i];
        let ghost walk = Walk {
            entries: current.entries@,
            url: text_of(url),
            in_func: func_of(in_func),
        };
        proof {
            assert(names.skip(i as int)[0] == elem@);
            assert(names.skip(i as int).skip(1) =~= names.skip(i + 1));
        }
        match in_func {
            Some(func) => {
                if func.param(elem) {
                    return match url {
                        Some(url) => {
                            let mut url = url;
                            if contains(url.as_str(), "#") {
                                push_text(&mut url, "-");
                            } else {
                                push_text(&mut url, "#parameters-");
                            }
                            push_text(&mut url, elem);
                            Some(url)
                        },
                        None => None,
                    };
                }
            },
            None => {},
        }
        let mut binding = current.get(elem);
        if binding.is_none() {
            if in_func.is_some() {
                binding = func_type.get(elem);
            }
            if binding.is_some() {
                let mut page = copy_str("https://typst.app/docs");
                push_text(&mut page, "/reference/foundations/function");
                url = Some(page);
            }
        }
        let binding = match binding {
            Some(binding) => binding,
            None => {
                return None;
            },
        };
        assert(next_binding(func_type.entries@, walk, elem@) == Some((*binding, text_of(url))));
        match &binding.value {
            Value::Module(module) => {
                in_func = None;
                current = module;
            },
            Value::Type(defined) => {
                in_func = None;
                current = defined;
                match &binding.category {
                    Some(category) => {
                        url = Some(reference_page(category.as_str(), elem));
                    },
                    None => {
                        return None;
                    },
                }
            },
            Value::Func(func) => {
                in_func = Some(func);
                current = match &func.scope {
                    Some(defined) => defined,
                    None => &empty_scope,
                };
                match url {
                    Some(prev_url) => {
                        let mut member = prev_url;
                        if contains(member.as_str(), "#") {
                            push_text(&mut member, "-definitions-");
                        } else {
                            push_text(&mut member, "#definitions-");
                        }
                        push_text(&mut member, elem);
                        url = Some(member);
                    },
                    None => {
                        match &binding.category {
                            Some(category) => {
                                url = Some(reference_page(category.as_str(), elem));
                            },
                            None => {
                                return None;
                            },
                        }
                    },
                }
            },
            Value::Other => {
                return None;
            },
        }
        i = i + 1;
    }
    url
}

/// The address of the page of a type or a function in the reference.
pub fn reference_page(category: &str, name: &str) -> (url: String)
    ensures
        url@ == page_url(category@, name@),
{
    let mut url = copy_str("https://typst.app/docs");
    push_text(&mut url, "/reference/");
    push_text(&mut url, category);
    push_text(&mut url, "/");
    push_text(&mut url, name);
    url
}

/// The type or module that holds a name which a document can use without
/// saying where it comes from.
pub open spec fn prelude_home(name: Seq<char>) -> Option<Seq<char>> {
    if name == "luma"@ || name == "oklab"@ || name == "oklch"@ || name == "rgb"@ || name
        == "cmyk"@ {
        Some("color"@)
    } else if name == "range"@ {
        Some("array"@)
    } else {
        None
    }
}

/// A path with the home of its first name put in front, where the first name
/// has one.
pub open spec fn qualified(path: Seq<Seq<char>>) -> Seq<Seq<char>> {
    if path.len() > 0 && prelude_home(path[0]) is Some {
        seq![prelude_home(path[0])->0] + path
    } else {
        path
    }
}

/// The address in the documentation of what a path of names stands for. A
/// path that starts with `std` is looked up below `std`, any other among the
/// names that a document sees.
pub open spec fn reference_link(library: StandardLibrary, path: Seq<Seq<char>>) -> Option<Seq<char>> {
    if path.len() > 0 && path[0] == "std"@ {
        match library.std {
            Some(scope) => link_in_scope(
                scope.entries@,
                library.func_type.entries@,
                qualified(path.skip(1)),
            ),
            None => None,
        }
    } else {
        link_in_scope(library.global.entries@, library.func_type.entries@, qualified(path))
    }
}

/// Finds the address in the documentation of what a path of names stands
/// for.
pub fn get_reference_link(library: &StandardLibrary, path: Vec<&str>) -> (result: Option<String>)
    ensures
        is_link(result, reference_link(*library, path_views(path@))),
{
    let ghost names = path_views(path@);
    let mut from: usize = 0;
    let mut scope = &library.global;
    if path.len() > 0 && same_text(path[0], "std") {
        from = 1;
        scope = match &library.std {
            Some(scope) => scope,
            None => {
                return None;
            },
        };
    }
    let home: Option<&'static str> = if from < path.len() {
        let first = path[from];
        if same_text(first, "luma") || same_text(first, "oklab") || same_text(first, "oklch")
            || same_text(first, "rgb") || same_text(first, "cmyk") {
            Some("color")
        } else if same_text(first, "range") {
            Some("array")
        } else {
            None
        }
    } else {
        None
    };
    let mut full: Vec<&str> = Vec::new();
    match home {
        Some(home) => {
            full.push(home);
        },
        None => {},
    }
    let ghost head = path_views(full@);
    let mut i: usize = from;
    proof {
        assert(names.subrange(from as int, from as int) =~= Seq::<Seq<char>>::empty());
        assert(path_views(full@) =~= head + names.subrange(from as int, i as int));
    }
    while i < path.len()
        invariant
            from <= i <= path.len(),
            names == path_views(path@),
            path_views(full@) == head + names.subrange(from as int, i as int),
        decreases path.len() - i,
    {
        let ghost before = path_views(full@);
        full.push(path[i]);
        proof {
            assert(path_views(full@) =~= before.push(path[i as int]@));
            assert(names.subrange(from as int, i + 1) =~= names.subrange(from as int, i as int).push(
                names[i as int],
            ));
        }
        i = i + 1;
    }
    proof {
        assert(names.subrange(from as int, path.len() as int) =~= names.skip(from as int));
        assert(names.skip(0) =~= names);
        let rest = names.skip(from as int);
        if rest.len() > 0 {
            assert(rest[0] == names[from as int]);
        }
        assert(path_views(full@) =~= qualified(rest));
    }
    get_reference_link_in_scope(scope, &library.func_type, &full)
}

/// The index of the first `c` in a text at or behind `from`.
pub open spec fn first_index_of(text: Seq<char>, c: char, from: int) -> Option<int>
    decreases text.len() - from,
{
    if from < 0 || from >= text.len() {
        None
    } else if text[from] == c {
        Some(from)
    } else {
        first_index_of(text, c, from + 1)
    }
}

/// A link of the documentation's own, cut in two: the path of names up to
/// the first slash, and what follows from the slash on.
pub open spec fn cut_link(link: Seq<char>) -> (Seq<char>, Seq<char>) {
    match first_index_of(link, '/', 0) {
        Some(at) => (link.take(at), link.skip(at)),
        None => (link, Seq::empty()),
    }
}

/// The address that a link of the documentation's own stands for: that of
/// what its path of names stands for or, where that is nothing, of the page
/// that is known by the path; what follows the path is kept behind an
/// address that points at a whole page.
pub open spec fn internal_link(library: StandardLibrary, link: Seq<char>) -> Seq<char> {
    let (path, annex) = cut_link(link);
    let url = match reference_link(library, split_pieces(path, '.')) {
        Some(url) => url,
        None => well_known_page(path),
    };
    if annex.len() > 0 && !contains_text(url, "#"@) {
        url + annex
    } else {
        url
    }
}

/// The names in a list of texts.
fn borrow_all(texts: &Vec<String>) -> (names: Vec<&str>)
    ensures
        path_views(names@) == views_of(texts@),
{
    let mut names: Vec<&str> = Vec::new();
    let mut i: usize = 0;
    while i < texts.len()
        invariant
            i <= texts.len(),
            path_views(names@) == views_of(texts@).take(i as int),
        decreases texts.len() - i,
    {
        let ghost before = path_views(names@);
        names.push(texts[i].as_str());
        proof {
            assert(path_views(names@) =~= before.push(texts[i as int]@));
            assert(views_of(texts@).take(i + 1) =~= views_of(texts@).take(i as int).push(
                texts[i as int]@,
            ));
        }
        i = i + 1;
    }
    proof {
        assert(views_of(texts@).take(texts.len() as int) =~= views_of(texts@));
    }
    names
}

/// Turns a link of the documentation's own into an address on the net.
pub fn process_docs_internal_link(library: &StandardLibrary, path: &str) -> (url: String)
    ensures
        url@ == internal_link(*library, path@),
{
    let chars = crate::strings::chars_of(path);
    let mut at: usize = 0;
    while at < chars.len() && chars[at] != '/'
        invariant
            at <= chars.len(),
            first_index_of(chars@, '/', 0) == first_index_of(chars@, '/', at as int),
        decreases chars.len() - at,
    {
        at = at + 1;
    }
    let mut head: Vec<char> = Vec::new();
    let mut annex: Vec<char> = Vec::new();
    let mut i: usize = 0;
    while i < chars.len()
        invariant
            i <= chars.len(),
            at <= chars.len(),
            head@ == chars@.take(if i < at { i as int } else { at as int }),
            annex@ == chars@.subrange(at as int, if i < at { at as int } else { i as int }),
        decreases chars.len() - i,
    {
        if i < at {
            head.push(chars[i]);
            assert(chars@.take(i + 1) =~= chars@.take(i as int).push(chars@[i as int]));
        } else {
            annex.push(chars[i]);
            assert(chars@.subrange(at as int, i + 1) =~= chars@.subrange(at as int, i as int).push(
                chars@[i as int],
            ));
        }
        i = i + 1;
    }
    proof {
        assert(chars@.subrange(at as int, chars.len() as int) =~= chars@.skip(at as int));
        if at == chars.len() {
            assert(chars@.take(at as int) =~= chars@);
            assert(chars@.skip(at as int) =~= Seq::<char>::empty());
        }
        assert(cut_link(path@) == (head@, annex@));
    }
    let head = crate::strings::string_of(&head);
    let annex = crate::strings::string_of(&annex);
    let parts = split(head.as_str(), '.');
    let mut url = match get_reference_link(library, borrow_all(&parts)) {
        Some(url) => url,
        None => get_well_known_page_link(head.as_str()),
    };
    if !annex.as_str().is_empty() && !contains(url.as_str(), "#") {
        push_text(&mut url, annex.as_str());
    }
    url
}

/// What a reference that the documentation leaves open is linked to: the
/// address of what the reference names, without the backticks around the
/// name, and the reference itself as the link's title. Only a reference
/// that is written as a bare name in brackets is linked.
pub open spec fn broken_link(library: StandardLibrary, is_shortcut: bool, reference: Seq<char>) -> Option<
    (Seq<char>, Seq<char>),
> {
    if !is_shortcut {
        None
    } else {
        match reference_link(library, split_pieces(trimmed(reference, '`'), '.')) {
            Some(url) => Some((url, reference)),
            None => None,
        }
    }
}

/// Links a reference that the documentation leaves open.
pub fn process_docs_broken_link(library: &StandardLibrary, is_shortcut: bool, reference: &str) -> (link:
    Option<(String, String)>)
    ensures
        match broken_link(*library, is_shortcut, reference@) {
            Some(target) => link matches Some(found) && found.0@ == target.0 && found.1@ == target.1,
            None => link is None,
        },
{
    if !is_shortcut {
        return None;
    }
    let name = trim_matches(reference, '`');
    let parts = split(name.as_str(), '.');
    match get_reference_link(library, borrow_all(&parts)) {
        Some(url) => Some((url, copy_str(reference))),
        None => None,
    }
}

} // verus!
