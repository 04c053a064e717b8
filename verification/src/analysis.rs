use crate::diagnostics::{position_at, position_of, source_range, span_range, SourcePosition};
use crate::strings::{chars_of, copy_str, push_text, string_of, views_of};
use crate::tooltip::{
    escaped, get_reference_link, html_escape, internal_link, process_docs_broken_link,
    process_docs_internal_link, reference_link, StandardLibrary,
};
use crate::source::source_text;
use std::hash::Hasher;
use vstd::std_specs::hash::DefaultHasherAdditionalSpecFns;
use vstd::prelude::*;

verus! {

/// What is shown for a place in the text: a text in HTML, and the address of
/// a page that tells more, or an empty text where there is none.
#[derive(Debug)]
pub struct ToolTip {
    pub content: String,
    pub details_url: String,
}

/// What the compiler has to tell about a place in the text.
#[derive(Debug)]
pub enum IdeTooltip {
    /// A plain text.
    Text(String),
    /// A piece of code.
    Code(String),
}

/// What is shown for a piece of code.
pub open spec fn code_block(code: Seq<char>) -> Seq<char> {
    "<code><pre>"@ + escaped(code) + "</pre></code>"@
}

/// What is shown for what the compiler has to tell: a text as it is, and
/// code as a block.
pub open spec fn shown(tooltip: IdeTooltip) -> Seq<char> {
    match tooltip {
        IdeTooltip::Text(text) => text@,
        IdeTooltip::Code(code) => code_block(code@),
    }
}

/// Shows what the compiler has to tell about a place.
pub fn plain_tooltip(tooltip: IdeTooltip) -> (result: ToolTip)
    ensures
        result.content@ == shown(tooltip),
        result.details_url@ == Seq::<char>::empty(),
{
    let content = match tooltip {
        IdeTooltip::Text(text) => text,
        IdeTooltip::Code(code) => {
            let mut content = copy_str("<code><pre>");
            push_text(&mut content, html_escape(code.as_str()).as_str());
            push_text(&mut content, "</pre></code>");
            content
        },
    };
    ToolTip { content, details_url: String::new() }
}

/// What the target of a field access stands for.
#[derive(Debug)]
pub enum TargetValue {
    /// A module, a function or a type, with its name.
    Named(String),
    /// A module or a function without a name.
    Unnamed,
    /// Any other value, with the name of its type.
    Other(String),
    /// Nothing, or more than one value.
    Ambiguous,
}

/// The target of a field access: whether it was found in the text, and what
/// it stands for.
#[derive(Debug)]
pub struct FieldTarget {
    pub found: bool,
    pub value: TargetValue,
}

/// The path of names that the targets of nested field accesses spell, taken
/// from the target with index `from` inwards. The targets are given from the
/// outermost to the innermost.
pub open spec fn target_path(targets: Seq<FieldTarget>, from: int) -> Option<Seq<Seq<char>>>
    decreases targets.len() - from,
{
    if from < 0 || from >= targets.len() || !targets[from].found {
        None
    } else {
        match targets[from].value {
            TargetValue::Named(name) => if from + 1 < targets.len() {
                match target_path(targets, from + 1) {
                    Some(path) => Some(path.push(name@)),
                    None => None,
                }
            } else {
                Some(seq![name@])
            },
            TargetValue::Other(ty) => Some(seq![ty@]),
            TargetValue::Unnamed => None,
            TargetValue::Ambiguous => None,
        }
    }
}

/// Says which path of names a result stands for.
pub open spec fn is_path(result: Option<Vec<String>>, path: Option<Seq<Seq<char>>>) -> bool {
    match path {
        Some(names) => result matches Some(found) && views_of(found@) == names,
        None => result is None,
    }
}

fn resolve_from(targets: &Vec<FieldTarget>, from: usize) -> (result: Option<Vec<String>>)
    ensures
        is_path(result, target_path(targets@, from as int)),
    decreases targets.len() - from,
{
    if from >= targets.len() || !targets[from].found {
        return None;
    }
    match &targets[from].value {
        TargetValue::Named(name) => {
            if from + 1 < targets.len() {
                match resolve_from(targets, from + 1) {
                    Some(path) => {
                        let mut path = path;
                        let ghost before = views_of(path@);
                        path.push(name.clone());
                        assert(views_of(path@) =~= before.push(name@));
                        Some(path)
                    },
                    None => None,
                }
            } else {
                let mut path: Vec<String> = Vec::new();
                path.push(name.clone());
                assert(views_of(path@) =~= seq![name@]);
                Some(path)
            }
        },
        TargetValue::Other(ty) => {
            let mut path: Vec<String> = Vec::new();
            path.push(ty.clone());
            assert(views_of(path@) =~= seq![ty@]);
            Some(path)
        },
        TargetValue::Unnamed => None,
        TargetValue::Ambiguous => None,
    }
}

/// Spells the path of names that leads to the field of a field access, from
/// the targets of the access and of the accesses nested in it, given from
/// the outermost to the innermost.
pub fn resolve_field_target_path(targets: &Vec<FieldTarget>) -> (result: Option<Vec<String>>)
    ensures
        is_path(result, target_path(targets@, 0)),
{
    resolve_from(targets, 0)
}

/// `pulldown_cmark::Event`, one event of a text in Markdown. Nothing of its
/// inside is known here.
#[verifier::external_type_specification]
#[verifier::external_body]
pub struct ExEvent<'a>(pulldown_cmark::Event<'a>);

/// The events that a text in Markdown is made of, with the references that
/// the text leaves open linked into the documentation.
pub uninterp spec fn markdown_events(docs: Seq<char>, library: StandardLibrary) -> Seq<pulldown_cmark::Event<'static>>;

/// Where a link leads, if the event starts a link.
pub uninterp spec fn link_destination(event: pulldown_cmark::Event<'static>) -> Option<Seq<char>>;

/// Whether the event starts a heading.
pub uninterp spec fn starts_heading(event: pulldown_cmark::Event<'static>) -> bool;

/// The event that starts the same link to another place.
pub uninterp spec fn redirected(event: pulldown_cmark::Event<'static>, url: Seq<char>) -> pulldown_cmark::Event<'static>;

/// The HTML that events are written as.
pub uninterp spec fn html_of(events: Seq<pulldown_cmark::Event<'static>>) -> Seq<char>;

/// Calls `pulldown_cmark::Parser::new_with_broken_link_callback` without
/// options and collects the events. A reference that the text leaves open is
/// handed to `process_docs_broken_link`.
#[verifier::external_body]
fn parse_markdown(docs: &str, library: &StandardLibrary) -> (events: Vec<pulldown_cmark::Event<'static>>)
    ensures
        events@ == markdown_events(docs@, *library),
{
    let link = |link: pulldown_cmark::BrokenLink| {
        let shortcut = link.link_type == pulldown_cmark::LinkType::Shortcut;
        process_docs_broken_link(library, shortcut, &link.reference)
            .map(|(url, title)| (url.into(), title.into()))
    };
    let options = pulldown_cmark::Options::empty();
    pulldown_cmark::Parser::new_with_broken_link_callback(docs, options, Some(link))
        .map(|event| event.into_static())
        .collect()
}

/// Reads the destination of a `pulldown_cmark::Tag::Link` that an event
/// starts.
#[verifier::external_body]
fn event_link(event: &pulldown_cmark::Event<'static>) -> (url: Option<String>)
    ensures
        url matches Some(u) ==> link_destination(*event) == Some(u@),
        url is None ==> link_destination(*event) is None,
{
    match event {
        pulldown_cmark::Event::Start(pulldown_cmark::Tag::Link { dest_url, .. }) => {
            Some(dest_url.to_string())
        },
        _ => None,
    }
}

/// Tells whether an event starts a `pulldown_cmark::Tag::Heading`.
#[verifier::external_body]
fn event_starts_heading(event: &pulldown_cmark::Event<'static>) -> (heading: bool)
    ensures
        heading == starts_heading(*event),
{
    matches!(event, pulldown_cmark::Event::Start(pulldown_cmark::Tag::Heading { .. }))
}

/// Builds the `pulldown_cmark::Tag::Link` of an event anew with another
/// destination; any other event stays as it is.
#[verifier::external_body]
fn redirect(event: pulldown_cmark::Event<'static>, url: String) -> (result: pulldown_cmark::Event<'static>)
    ensures
        result == redirected(event, url@),
{
    match event {
        pulldown_cmark::Event::Start(pulldown_cmark::Tag::Link { link_type, title, id, .. }) => {
            let dest_url = url.into();
            pulldown_cmark::Event::Start(pulldown_cmark::Tag::Link { link_type, dest_url, title, id })
        },
        other => other,
    }
}

/// Calls `pulldown_cmark::html::push_html` on an empty text.
#[verifier::external_body]
fn render_html(events: Vec<pulldown_cmark::Event<'static>>) -> (html: String)
    ensures
        html@ == html_of(events@),
{
    let mut html = String::new();
    pulldown_cmark::html::push_html(&mut html, events.into_iter());
    html
}

/// Whether a link is one of the documentation's own: those start with a
/// dollar sign.
pub open spec fn is_internal(url: Seq<char>) -> bool {
    url.len() > 0 && url[0] == '$'
}

/// An event as it is shown: a link of the documentation's own leads to its
/// address on the net.
pub open spec fn shown_event(library: StandardLibrary, event: pulldown_cmark::Event<'static>) -> pulldown_cmark::Event<'static> {
    match link_destination(event) {
        Some(url) => if is_internal(url) {
            redirected(event, internal_link(library, url.skip(1)))
        } else {
            event
        },
        None => event,
    }
}

/// The events of the overview, from the index `from` on: those before the
/// first heading, each as it is shown.
pub open spec fn overview(library: StandardLibrary, events: Seq<pulldown_cmark::Event<'static>>, from: int) -> Seq<pulldown_cmark::Event<'static>>
    decreases events.len() - from,
{
    if from < 0 || from >= events.len() || starts_heading(events[from]) {
        Seq::empty()
    } else {
        seq![shown_event(library, events[from])] + overview(library, events, from + 1)
    }
}

/// What is shown of a documentation text: its overview, as HTML.
pub open spec fn docs_html(library: StandardLibrary, docs: Seq<char>) -> Seq<char> {
    html_of(overview(library, markdown_events(docs, library), 0))
}

/// Turns a documentation text in Markdown into the HTML of its overview: the
/// part before the first heading, with the links of the documentation's own
/// leading to their addresses on the net.
pub fn process_docs_markdown(library: &StandardLibrary, docs: &str) -> (html: String)
    ensures
        html@ == docs_html(*library, docs@),
{
    let events = parse_markdown(docs, library);
    let ghost all = events@;
    let mut kept: Vec<pulldown_cmark::Event<'static>> = Vec::new();
    let mut done = false;
    for event in it: events.into_iter()
        invariant
            it.seq() == all,
            kept@ + (if done {
                Seq::empty()
            } else {
                overview(*library, all, it.index())
            }) == overview(*library, all, 0),
    {
        let ghost before = kept@;
        if !done {
            if event_starts_heading(&event) {
                done = true;
            } else {
                match event_link(&event) {
                    Some(url) => {
                        let chars = chars_of(url.as_str());
                        if chars.len() > 0 && chars[0] == '$' {
                            let mut rest: Vec<char> = Vec::new();
                            let mut k: usize = 1;
                            while k < chars.len()
                                invariant
                                    1 <= k <= chars.len(),
                                    rest@ == chars@.subrange(1, k as int),
                                decreases chars.len() - k,
                            {
                                rest.push(chars[k]);
                                assert(chars@.subrange(1, k + 1) =~= chars@.subrange(1, k as int).push(
                                    chars@[k as int],
                                ));
                                k = k + 1;
                            }
                            assert(chars@.subrange(1, chars.len() as int) =~= chars@.skip(1));
                            let target = process_docs_internal_link(library, string_of(&rest).as_str());
                            kept.push(redirect(event, target));
                        } else {
                            kept.push(event);
                        }
                    },
                    None => {
                        kept.push(event);
                    },
                }
                proof {
                    assert(kept@ =~= before.push(shown_event(*library, all[it.index()])));
                    assert(kept@ + overview(*library, all, it.index() + 1) =~= before + overview(
                        *library,
                        all,
                        it.index(),
                    ));
                }
            }
        }
    }
    proof {
        assert(kept@ + Seq::<pulldown_cmark::Event<'static>>::empty() =~= kept@);
    }
    render_html(kept)
}

/// What stands at a place in the text, if it is a function or a type: its
/// name, if it has one, its documentation, if it has one, and, where it is
/// the field of a field access, the targets of the access and of the
/// accesses nested in it, from the outermost to the innermost.
#[derive(Debug)]
pub struct HoverTarget {
    pub name: Option<String>,
    pub docs: Option<String>,
    pub field_targets: Option<Vec<FieldTarget>>,
}

/// A node of the syntax tree on the way from a place in the text up to the
/// root, as far as the choice of what is hovered over needs it.
#[derive(Clone, Copy, Debug, PartialEq, Eq, Structural)]
pub struct NodeInfo {
    /// Whether the node is space or a comment.
    pub is_trivia: bool,
    /// Whether the node is an expression.
    pub is_expr: bool,
    /// Whether the node is a field access.
    pub is_field_access: bool,
    /// The place of the node among the children of the node above it.
    pub index: usize,
}

/// What the compiler finds an expression to stand for.
#[derive(Debug)]
pub enum FoundValue {
    /// A function, with its name and its documentation, as far as it has
    /// them.
    Func { name: Option<String>, docs: Option<String> },
    /// A type, with its name and its documentation.
    Type { short_name: String, text: String },
    /// Anything else.
    Other,
}

/// The index of the first expression among the nodes at or behind `from`.
pub open spec fn nearest_expression(ancestors: Seq<NodeInfo>, from: int) -> Option<int>
    decreases ancestors.len() - from,
{
    if from < 0 || from >= ancestors.len() {
        None
    } else if ancestors[from].is_expr {
        Some(from)
    } else {
        nearest_expression(ancestors, from + 1)
    }
}

/// The index of the expression that a place in the text belongs to, where
/// the nodes are given from the leaf at the place upwards: the nearest
/// expression at or above the leaf, and none where the leaf is space or a
/// comment.
pub open spec fn hovered_expression(ancestors: Seq<NodeInfo>) -> Option<int> {
    if ancestors.len() == 0 || ancestors[0].is_trivia {
        None
    } else {
        nearest_expression(ancestors, 0)
    }
}

/// Finds the expression that a place in the text belongs to, among the nodes
/// from the leaf at the place upwards.
pub fn find_expression(ancestors: &Vec<NodeInfo>) -> (found: Option<usize>)
    ensures
        match hovered_expression(ancestors@) {
            Some(at) => found == Some(at as usize) && at < ancestors.len(),
            None => found is None,
        },
{
    if ancestors.len() == 0 || ancestors[0].is_trivia {
        return None;
    }
    let mut at: usize = 0;
    while at < ancestors.len()
        invariant
            at <= ancestors.len(),
            ancestors.len() > 0,
            !ancestors[0].is_trivia,
            nearest_expression(ancestors@, 0) == nearest_expression(ancestors@, at as int),
        decreases ancestors.len() - at,
    {
        if ancestors[at].is_expr {
            return Some(at);
        }
        at = at + 1;
    }
    None
}

/// Whether the node with index `at` is the field of a field access: the node
/// above it is one, and the node is not its first child.
pub open spec fn is_field_of_access(ancestors: Seq<NodeInfo>, at: int) -> bool {
    0 <= at && at + 1 < ancestors.len() && ancestors[at + 1].is_field_access && ancestors[at].index
        > 0
}

/// Name and documentation of what an expression stands for, where it stands
/// for exactly one value and that is a type, or a function that has both.
pub open spec fn documented_value(values: Seq<FoundValue>) -> Option<(Seq<char>, Seq<char>)> {
    if values.len() != 1 {
        None
    } else {
        match values[0] {
            FoundValue::Func { name, docs } => if name is Some && docs is Some {
                Some((name->0@, docs->0@))
            } else {
                None
            },
            FoundValue::Type { short_name, text } => Some((short_name@, text@)),
            FoundValue::Other => None,
        }
    }
}

/// Whether `hover` is what is hovered over, where the expression with index
/// `at` stands for `values`: nothing unless that is one documented function
/// or type; else its name and documentation, with the targets that
/// `targets` finds where the expression is the field of a field access, and
/// without targets else.
pub open spec fn picked<T: FnOnce() -> Vec<FieldTarget>>(
    ancestors: Seq<NodeInfo>,
    at: int,
    values: Seq<FoundValue>,
    targets: T,
    hover: Option<HoverTarget>,
) -> bool {
    match documented_value(values) {
        None => hover is None,
        Some((name, docs)) => {
            &&& hover matches Some(found)
            &&& found.name matches Some(text) && text@ == name
            &&& found.docs matches Some(text) && text@ == docs
            &&& if is_field_of_access(ancestors, at) {
                found.field_targets matches Some(list) && call_ensures(targets, (), list)
            } else {
                found.field_targets is None
            }
        },
    }
}

/// Says what is hovered over at a place in the text. `ancestors` are the
/// nodes from the leaf at the place upwards, `at` is the index of the
/// expression that the place belongs to, and `values` is what the compiler
/// finds that expression to stand for. `targets` reads the targets of the
/// field access around the expression; it is asked only where there is one.
pub fn pick_hover<T: FnOnce() -> Vec<FieldTarget>>(
    ancestors: &Vec<NodeInfo>,
    at: usize,
    values: &Vec<FoundValue>,
    targets: T,
) -> (hover: Option<HoverTarget>)
    requires
        call_requires(targets, ()),
    ensures
        picked(ancestors@, at as int, values@, targets, hover),
{
    if values.len() != 1 {
        return None;
    }
    let (name, docs) = match &values[0] {
        FoundValue::Func { name, docs } => match (name, docs) {
            (Some(name), Some(docs)) => (name.clone(), docs.clone()),
            _ => {
                return None;
            },
        },
        FoundValue::Type { short_name, text } => (short_name.clone(), text.clone()),
        FoundValue::Other => {
            return None;
        },
    };
    let in_access = at < ancestors.len() && ancestors.len() - at > 1 && ancestors[at
        + 1].is_field_access && ancestors[at].index > 0;
    let field_targets = if in_access {
        Some(targets())
    } else {
        None
    };
    Some(HoverTarget { name: Some(name), docs: Some(docs), field_targets })
}

/// The path of names that leads to what stands at a place: the path that the
/// field access spells, as far as it can be spelled, and the name itself.
pub open spec fn hover_path(hover: HoverTarget) -> Seq<Seq<char>> {
    let prefix = match hover.field_targets {
        Some(targets) => match target_path(targets@, 0) {
            Some(path) => path,
            None => Seq::empty(),
        },
        None => Seq::empty(),
    };
    prefix.push(hover.name->0@)
}

/// Whether `result` is the documentation of what stands at a place: none
/// without a name or without documentation; else the overview of the
/// documentation, and the address of the page in the reference, which is
/// empty where there is no page.
pub open spec fn documented(
    library: StandardLibrary,
    hover: HoverTarget,
    result: Option<ToolTip>,
) -> bool {
    if hover.name is None || hover.docs is None {
        result is None
    } else {
        &&& result matches Some(tooltip)
        &&& tooltip.content@ == docs_html(library, hover.docs->0@)
        &&& tooltip.details_url@ == match reference_link(library, hover_path(hover)) {
            Some(url) => url,
            None => Seq::empty(),
        }
    }
}

/// Shows the documentation of what stands at a place in the text.
pub fn get_documentation_tooltip(library: &StandardLibrary, hover: &HoverTarget) -> (result: Option<
    ToolTip,
>)
    ensures
        documented(*library, *hover, result),
{
    let name = match &hover.name {
        Some(name) => name,
        None => {
            return None;
        },
    };
    let docs = match &hover.docs {
        Some(docs) => docs,
        None => {
            return None;
        },
    };
    let mut path: Vec<String> = match &hover.field_targets {
        Some(targets) => match resolve_field_target_path(targets) {
            Some(path) => path,
            None => Vec::new(),
        },
        None => Vec::new(),
    };
    let ghost prefix = views_of(path@);
    path.push(name.clone());
    proof {
        assert(views_of(path@) =~= prefix.push(name@));
        assert(views_of(path@) == hover_path(*hover));
    }
    let content = process_docs_markdown(library, docs.as_str());
    let mut names: Vec<&str> = Vec::new();
    let mut i: usize = 0;
    while i < path.len()
        invariant
            i <= path.len(),
            crate::tooltip::path_views(names@) == views_of(path@).take(i as int),
        decreases path.len() - i,
    {
        let ghost before = crate::tooltip::path_views(names@);
        names.push(path[i].as_str());
        proof {
            assert(crate::tooltip::path_views(names@) =~= before.push(path[i as int]@));
            assert(views_of(path@).take(i + 1) =~= views_of(path@).take(i as int).push(
                path[i as int]@,
            ));
        }
        i = i + 1;
    }
    proof {
        assert(views_of(path@).take(path.len() as int) =~= views_of(path@));
    }
    let details_url = match get_reference_link(library, names) {
        Some(url) => url,
        None => String::new(),
    };
    Some(ToolTip { content, details_url })
}

/// Whether `result` is what is shown for a place in the text: the
/// documentation of what stands there, where there is one, and else what
/// `fallback` had to tell.
pub open spec fn tooltip_shown<F: FnOnce() -> Option<IdeTooltip>>(
    library: StandardLibrary,
    hover: Option<HoverTarget>,
    fallback: F,
    result: Option<ToolTip>,
) -> bool {
    if hover is Some && hover->0.name is Some && hover->0.docs is Some {
        documented(library, hover->0, result)
    } else {
        exists|told: Option<IdeTooltip>|
            (#[trigger] call_ensures(fallback, (), told)) && match told {
                Some(tooltip) => result matches Some(plain) && plain.content@ == shown(tooltip)
                    && plain.details_url@ == Seq::<char>::empty(),
                None => result is None,
            }
    }
}

/// Says what is shown for a place in the text. `hover` is what stands at the
/// place, if it is a function or a type; `fallback` asks the compiler what it
/// has to tell about the place.
pub fn get_tooltip<F: FnOnce() -> Option<IdeTooltip>>(
    library: &StandardLibrary,
    hover: Option<HoverTarget>,
    fallback: F,
) -> (result: Option<ToolTip>)
    requires
        call_requires(fallback, ()),
    ensures
        tooltip_shown(*library, hover, fallback, result),
{
    let documentation = match &hover {
        Some(hover) => get_documentation_tooltip(library, hover),
        None => None,
    };
    match documentation {
        Some(tooltip) => Some(tooltip),
        None => {
            let told = fallback();
            let ghost given = told;
            let result = match told {
                Some(tooltip) => Some(plain_tooltip(tooltip)),
                None => None,
            };
            proof {
                assert(call_ensures(fallback, (), given));
            }
            result
        },
    }
}

/// The place in a buffer at which a span starts.
pub open spec fn span_start(source: typst::syntax::Source, span: typst::syntax::Span) -> Option<
    (nat, nat),
> {
    match span_range(source, span) {
        Some(range) => position_of(source_text(source), range.0),
        None => None,
    }
}

/// Says at which place in a buffer a span starts.
pub fn span_location(source: &typst::syntax::Source, span: typst::syntax::Span) -> (position: Option<
    SourcePosition,
>)
    ensures
        match span_start(*source, span) {
            Some(place) => position matches Some(p) && p.line == place.0 && p.column == place.1,
            None => position is None,
        },
{
    match source_range(source, span) {
        Some(range) => position_at(source, range.0),
        None => None,
    }
}

/// Where the compiler has found a definition.
pub enum DefinitionTarget {
    /// In the standard library.
    Std,
    /// At a span; `in_source` says whether the span lies in the buffer that
    /// was searched from.
    Span { in_source: bool, span: typst::syntax::Span },
}

/// Where a definition lies: in the standard library, or at a place in the
/// text.
#[derive(Clone, Copy, Debug)]
pub struct DefinitionLocation {
    pub in_std: bool,
    pub position: SourcePosition,
}

/// Whether `result` is the place of a definition that the compiler has
/// found: a definition in the standard library has no place; a definition in
/// the buffer lies where its span starts; any other cannot be shown.
pub open spec fn defined_at(
    source: typst::syntax::Source,
    definition: Option<DefinitionTarget>,
    result: Option<DefinitionLocation>,
) -> bool {
    match definition {
        None => result is None,
        Some(DefinitionTarget::Std) => result matches Some(location) && location.in_std
            && location.position.line == 0 && location.position.column == 0,
        Some(DefinitionTarget::Span { in_source, span }) => if in_source {
            match span_start(source, span) {
                Some(place) => result matches Some(location) && !location.in_std
                    && location.position.line == place.0 && location.position.column == place.1,
                None => result is None,
            }
        } else {
            result is None
        },
    }
}

/// Says where a definition lies that the compiler has found.
pub fn get_definition(source: &typst::syntax::Source, definition: Option<DefinitionTarget>) -> (result:
    Option<DefinitionLocation>)
    ensures
        defined_at(*source, definition, result),
{
    match definition {
        None => None,
        Some(DefinitionTarget::Std) => Some(
            DefinitionLocation { in_std: true, position: SourcePosition { line: 0, column: 0 } },
        ),
        Some(DefinitionTarget::Span { in_source, span }) => {
            if in_source {
                match span_location(source, span) {
                    Some(position) => Some(DefinitionLocation { in_std: false, position }),
                    None => None,
                }
            } else {
                None
            }
        },
    }
}

/// A node of a syntax tree, as far as the search for text needs it: whether
/// it is a piece of text, its span, and the nodes below it.
pub struct SyntaxTree {
    pub is_text: bool,
    pub span: typst::syntax::Span,
    pub children: Vec<SyntaxTree>,
}

/// The first piece of text among the first `count` of the nodes, going
/// through each of them and all that lies below it before the next.
pub open spec fn first_text_among(nodes: Seq<SyntaxTree>, count: nat) -> Option<SyntaxTree>
    decreases nodes, 1nat, count,
{
    if count == 0 || count > nodes.len() {
        None
    } else {
        match first_text_among(nodes, (count - 1) as nat) {
            Some(found) => Some(found),
            None => first_text(nodes[count - 1]),
        }
    }
}

/// The first piece of text at or below a node: the node itself, if it is
/// one, and else the first that is found below its children, in their
/// order.
pub open spec fn first_text(node: SyntaxTree) -> Option<SyntaxTree>
    decreases node, 0nat, 0nat,
{
    if node.is_text {
        Some(node)
    } else {
        first_text_among(node.children@, node.children@.len())
    }
}

/// Finds the first piece of text at or below a node.
pub fn find_first_text_node(node: &SyntaxTree) -> (found: Option<&SyntaxTree>)
    ensures
        match first_text(*node) {
            Some(text) => found matches Some(f) && *f == text,
            None => found is None,
        },
    decreases node,
{
    if node.is_text {
        return Some(node);
    }
    let mut i: usize = 0;
    while i < node.children.len()
        invariant
            i <= node.children.len(),
            !node.is_text,
            first_text_among(node.children@, i as nat) is None,
        decreases node.children.len() - i,
    {
        match find_first_text_node(&node.children[i]) {
            Some(found) => {
                proof {
                    assert(first_text_among(node.children@, (i + 1) as nat) == first_text(
                        node.children@[i as int],
                    ));
                    lemma_first_text_stays(node.children@, (i + 1) as nat, node.children@.len());
                }
                return Some(found);
            },
            None => {},
        }
        i = i + 1;
    }
    None
}

/// Once a piece of text is found among the first nodes, looking at more
/// nodes finds the same.
pub proof fn lemma_first_text_stays(nodes: Seq<SyntaxTree>, count: nat, more: nat)
    requires
        count <= more <= nodes.len(),
        first_text_among(nodes, count) is Some,
    ensures
        first_text_among(nodes, more) == first_text_among(nodes, count),
    decreases more,
{
    if count < more {
        lemma_first_text_stays(nodes, count, (more - 1) as nat);
    }
}

/// The span whose start a jump to a node is to go to: that of the first
/// piece of text at or below the node, since only text can be found again in
/// the preview, and the span itself where there is no text or no node.
pub open spec fn text_span(span: typst::syntax::Span, node: Option<SyntaxTree>) -> typst::syntax::Span {
    match node {
        Some(node) => match first_text(node) {
            Some(text) => text.span,
            None => span,
        },
        None => span,
    }
}

/// Says to which place in a buffer a jump to a span is to go. `node` is the
/// node of the syntax tree that has the span, if there is one.
pub fn find_text_position_for_span(
    source: &typst::syntax::Source,
    span: typst::syntax::Span,
    node: Option<&SyntaxTree>,
) -> (position: Option<SourcePosition>)
    ensures
        match span_start(
            *source,
            text_span(
                span,
                match node {
                    Some(node) => Some(*node),
                    None => None,
                },
            ),
        ) {
            Some(place) => position matches Some(p) && p.line == place.0 && p.column == place.1,
            None => position is None,
        },
{
    let text = match node {
        Some(node) => find_first_text_node(node),
        None => None,
    };
    let span = match text {
        Some(text) => text.span,
        None => span,
    };
    span_location(source, span)
}

/// A heading of the document.
pub struct HeadingInfo {
    /// Whether the heading is to stand in the outline.
    pub outlined: bool,
    pub level: usize,
    pub title: String,
    pub span: typst::syntax::Span,
    /// The node of the syntax tree that has the heading's span, if there is
    /// one.
    pub node: Option<SyntaxTree>,
}

/// An element of the compiled document, as far as the outline and the list
/// of labels need it.
pub struct ElementInfo {
    pub label: Option<String>,
    pub span: typst::syntax::Span,
    pub heading: Option<HeadingInfo>,
}

/// A line of the outline: level and title of a heading, and the place in the
/// text to jump to, if there is one.
#[derive(Debug, Hash)]
pub struct OutlineEntry {
    pub level: usize,
    pub title: String,
    pub has_position: bool,
    pub position: SourcePosition,
}

/// A label of the document, and the place in the text where it stands, if
/// there is one.
#[derive(Debug, Hash)]
pub struct LabelEntry {
    pub name: String,
    pub has_position: bool,
    pub position: SourcePosition,
}

/// Whether `position` and `has_position` tell of the place: the place where
/// there is one, and the start of the text with a mark where there is none.
pub open spec fn tells_place(
    place: Option<(nat, nat)>,
    has_position: bool,
    position: SourcePosition,
) -> bool {
    match place {
        Some(found) => has_position && position.line == found.0 && position.column == found.1,
        None => !has_position && position.line == 0 && position.column == 0,
    }
}

/// Whether `entry` is the label of an element.
pub open spec fn is_label_of(
    source: typst::syntax::Source,
    element: ElementInfo,
    entry: LabelEntry,
) -> bool {
    &&& element.label is Some
    &&& entry.name@ == element.label->0@
    &&& tells_place(span_start(source, element.span), entry.has_position, entry.position)
}

/// Whether `entry` is the line of the outline for a heading.
pub open spec fn is_outline_of(
    source: typst::syntax::Source,
    heading: HeadingInfo,
    entry: OutlineEntry,
) -> bool {
    &&& entry.level == heading.level
    &&& entry.title@ == heading.title@
    &&& tells_place(
        span_start(source, text_span(heading.span, heading.node)),
        entry.has_position,
        entry.position,
    )
}

/// Whether an element has a label.
pub open spec fn labelled(element: ElementInfo) -> bool {
    element.label is Some
}

/// Whether an element is a heading that stands in the outline.
pub open spec fn outlined(element: ElementInfo) -> bool {
    element.heading is Some && element.heading->0.outlined
}

/// Whether `labels` are the labels of the elements, in their order.
pub open spec fn lists_labels(
    source: typst::syntax::Source,
    elements: Seq<ElementInfo>,
    labels: Seq<LabelEntry>,
) -> bool {
    let with_label = elements.filter(|element: ElementInfo| labelled(element));
    &&& labels.len() == with_label.len()
    &&& forall|i: int| 0 <= i < labels.len() ==> is_label_of(source, with_label[i], #[trigger] labels[i])
}

/// Whether `outline` has a line for each heading among the elements that
/// stands in the outline, in their order.
pub open spec fn lists_outline(
    source: typst::syntax::Source,
    elements: Seq<ElementInfo>,
    outline: Seq<OutlineEntry>,
) -> bool {
    let headings = elements.filter(|element: ElementInfo| outlined(element));
    &&& outline.len() == headings.len()
    &&& forall|i: int|
        0 <= i < outline.len() ==> is_outline_of(source, headings[i].heading->0, #[trigger] outline[i])
}

/// Makes the outline and the list of labels of a compiled document from its
/// elements.
pub fn get_metadata(source: &typst::syntax::Source, elements: &Vec<ElementInfo>) -> (result: (
    Vec<OutlineEntry>,
    Vec<LabelEntry>,
))
    ensures
        lists_outline(*source, elements@, result.0@),
        lists_labels(*source, elements@, result.1@),
{
    let mut outline: Vec<OutlineEntry> = Vec::new();
    let mut labels: Vec<LabelEntry> = Vec::new();
    let ghost has_label = |element: ElementInfo| labelled(element);
    let ghost in_outline = |element: ElementInfo| outlined(element);
    let mut i: usize = 0;
    proof {
        assert(elements@.take(0) =~= Seq::<ElementInfo>::empty());
    }
    while i < elements.len()
        invariant
            i <= elements.len(),
            has_label == |element: ElementInfo| labelled(element),
            in_outline == |element: ElementInfo| outlined(element),
            lists_outline(*source, elements@.take(i as int), outline@),
            lists_labels(*source, elements@.take(i as int), labels@),
        decreases elements.len() - i,
    {
        let item = &elements[i];
        proof {
            assert(elements@.take(i + 1) =~= elements@.take(i as int).push(elements@[i as int]));
            elements@.take(i as int).lemma_filter_push(elements@[i as int], has_label);
            elements@.take(i as int).lemma_filter_push(elements@[i as int], in_outline);
        }
        match &item.label {
            Some(label) => {
                let position = span_location(source, item.span);
                labels.push(
                    LabelEntry {
                        name: label.clone(),
                        has_position: position.is_some(),
                        position: match position {
                            Some(position) => position,
                            None => SourcePosition { line: 0, column: 0 },
                        },
                    },
                );
            },
            None => {},
        }
        match &item.heading {
            Some(heading) => {
                if heading.outlined {
                    let position = find_text_position_for_span(
                        source,
                        heading.span,
                        heading.node.as_ref(),
                    );
                    outline.push(
                        OutlineEntry {
                            level: heading.level,
                            title: heading.title.clone(),
                            has_position: position.is_some(),
                            position: match position {
                                Some(position) => position,
                                None => SourcePosition { line: 0, column: 0 },
                            },
                        },
                    );
                }
            },
            None => {},
        }
        i = i + 1;
    }
    proof {
        assert(elements@.take(elements.len() as int) =~= elements@);
    }
    (outline, labels)
}

/// A line of the outline, in the model.
pub struct OutlineView {
    pub level: usize,
    pub title: Seq<char>,
    pub has_position: bool,
    pub position: SourcePosition,
}

/// A label, in the model.
pub struct LabelView {
    pub name: Seq<char>,
    pub has_position: bool,
    pub position: SourcePosition,
}

impl View for OutlineEntry {
    type V = OutlineView;

    open spec fn view(&self) -> OutlineView {
        OutlineView {
            level: self.level,
            title: self.title@,
            has_position: self.has_position,
            position: self.position,
        }
    }
}

impl View for LabelEntry {
    type V = LabelView;

    open spec fn view(&self) -> LabelView {
        LabelView { name: self.name@, has_position: self.has_position, position: self.position }
    }
}

/// The lines of an outline, in the model.
pub open spec fn outline_views(outline: Seq<OutlineEntry>) -> Seq<OutlineView> {
    outline.map_values(|entry: OutlineEntry| entry@)
}

/// The labels, in the model.
pub open spec fn label_views(labels: Seq<LabelEntry>) -> Seq<LabelView> {
    labels.map_values(|entry: LabelEntry| entry@)
}

/// What an outline and a list of labels, as a pair, feed to a hasher, write
/// by write. It goes by what the two hold and by nothing else.
pub uninterp spec fn metadata_writes(outline: Seq<OutlineView>, labels: Seq<LabelView>) -> Seq<Seq<u8>>;

/// The number that stands for an outline and a list of labels: what a hasher
/// that starts afresh makes of what the two feed it.
pub open spec fn fingerprint_of(outline: Seq<OutlineView>, labels: Seq<LabelView>) -> u64 {
    std::hash::DefaultHasher::spec_finish(metadata_writes(outline, labels))
}

/// Calls `std::hash::Hash::hash` of the pair of an outline and a list of
/// labels. Each entry writes its fields in order to the hasher, behind what
/// was written before.
#[verifier::external_body]
fn feed_metadata(hasher: &mut std::hash::DefaultHasher, outline: &Vec<OutlineEntry>, labels: &Vec<LabelEntry>)
    ensures
        final(hasher)@ == old(hasher)@ + metadata_writes(outline_views(outline@), label_views(labels@)),
{
    std::hash::Hash::hash(&(outline, labels), hasher);
}

/// The number that stands for an outline and a list of labels.
pub fn calc_fingerprint(outline: &Vec<OutlineEntry>, labels: &Vec<LabelEntry>) -> (fingerprint: u64)
    ensures
        fingerprint == fingerprint_of(outline_views(outline@), label_views(labels@)),
{
    let mut hasher = std::hash::DefaultHasher::new();
    feed_metadata(&mut hasher, outline, labels);
    proof {
        let fed = metadata_writes(outline_views(outline@), label_views(labels@));
        assert(Seq::<Seq<u8>>::empty() + fed =~= fed);
    }
    hasher.finish()
}

/// The number of words in a text, by the rules of Unicode.
pub uninterp spec fn unicode_word_count(text: Seq<char>) -> nat;

/// Calls `unicode_segmentation::UnicodeSegmentation::unicode_words` and
/// counts what it yields.
#[verifier::external_body]
fn count_unicode_words(text: &str) -> (count: usize)
    ensures
        count == unicode_word_count(text@),
{
    unicode_segmentation::UnicodeSegmentation::unicode_words(text).count()
}

/// One thing that is drawn in a frame, as far as counting words needs it.
pub enum WordItem {
    /// A frame within the frame.
    Group(Vec<WordItem>),
    /// A run of text.
    Text(String),
    /// Anything without words.
    Other,
}

/// The number of words in the first `count` things of a frame.
pub open spec fn words_among(items: Seq<WordItem>, count: nat) -> nat
    decreases items, 1nat, count,
{
    if count == 0 || count > items.len() {
        0
    } else {
        words_among(items, (count - 1) as nat) + words_in(items[count - 1])
    }
}

/// The number of words in one thing of a frame.
pub open spec fn words_in(item: WordItem) -> nat
    decreases item, 0nat, 0nat,
{
    match item {
        WordItem::Group(items) => words_among(items@, items@.len()),
        WordItem::Text(text) => unicode_word_count(text@),
        WordItem::Other => 0,
    }
}

/// A count as far as it can be held.
pub open spec fn capped(count: nat) -> usize {
    if count <= usize::MAX {
        count as usize
    } else {
        usize::MAX
    }
}

/// Counts the words in a frame and in the frames within it.
pub fn count_words(frame: &Vec<WordItem>) -> (count: usize)
    ensures
        count == capped(words_among(frame@, frame@.len())),
    decreases frame,
{
    let mut count: usize = 0;
    let mut i: usize = 0;
    while i < frame.len()
        invariant
            i <= frame.len(),
            count == capped(words_among(frame@, i as nat)),
        decreases frame.len() - i,
    {
        let more = match &frame[i] {
            WordItem::Group(items) => count_words(items),
            WordItem::Text(text) => count_unicode_words(text.as_str()),
            WordItem::Other => 0,
        };
        assert(more == capped(words_in(frame@[i as int])));
        count = count.saturating_add(more);
        i = i + 1;
    }
    count
}

} // verus!
