use typst::syntax::{Source, Span};
use typstdriver::analysis::{
    find_expression, pick_hover, FoundValue, NodeInfo,
    count_words, find_first_text_node, find_text_position_for_span,
    get_definition, get_documentation_tooltip, get_metadata, get_tooltip, plain_tooltip,
    process_docs_markdown, resolve_field_target_path, span_location, DefinitionTarget,
    ElementInfo, FieldTarget, HeadingInfo, HoverTarget, IdeTooltip, SyntaxTree, TargetValue,
    WordItem,
};
use typstdriver::diagnostics::SourcePosition;
use typstdriver::engine::{Completions, EngineFailure, EngineImpl};
use typstdriver::tooltip::{Binding, FuncDef, Scope, StandardLibrary, Value};

fn function(params: &[&str], category: &str) -> Binding {
    Binding {
        value: Value::Func(FuncDef {
            params: params.iter().map(|p| p.to_string()).collect(),
            scope: None,
        }),
        category: Some(category.to_string()),
    }
}

fn library() -> StandardLibrary {
    let calc = Scope { entries: vec![("abs".to_string(), function(&["value"], "foundations"))] };
    let global = Scope {
        entries: vec![
            ("calc".to_string(), Binding { value: Value::Module(calc), category: None }),
            ("text".to_string(), function(&["size"], "text")),
        ],
    };
    StandardLibrary { global, std: None, func_type: Scope { entries: vec![] } }
}

#[test]
fn plain_tooltips_show_text_and_code() {
    let text = plain_tooltip(IdeTooltip::Text("a <b>".to_string()));
    assert_eq!(text.content, "a <b>");
    assert_eq!(text.details_url, "");
    let code = plain_tooltip(IdeTooltip::Code("let x = \"<\" & y".to_string()));
    assert_eq!(code.content, "<code><pre>let x = &quot;&lt;&quot; &amp; y</pre></code>");
    assert_eq!(code.details_url, "");
}

fn named(name: &str) -> FieldTarget {
    FieldTarget { found: true, value: TargetValue::Named(name.to_string()) }
}

#[test]
fn field_targets_spell_a_path() {
    assert_eq!(resolve_field_target_path(&vec![named("b"), named("a")]), Some(vec!["a".to_string(), "b".to_string()]));
    assert_eq!(resolve_field_target_path(&vec![named("a")]), Some(vec!["a".to_string()]));
    assert_eq!(resolve_field_target_path(&vec![]), None);
    let missing = FieldTarget { found: false, value: TargetValue::Named("a".to_string()) };
    assert_eq!(resolve_field_target_path(&vec![named("b"), missing]), None);
    let other = |ty: &str| FieldTarget { found: true, value: TargetValue::Other(ty.to_string()) };
    assert_eq!(resolve_field_target_path(&vec![other("str"), named("a")]), Some(vec!["str".to_string()]));
    assert_eq!(
        resolve_field_target_path(&vec![named("c"), other("dict"), named("a")]),
        Some(vec!["dict".to_string(), "c".to_string()])
    );
    let unnamed = FieldTarget { found: true, value: TargetValue::Unnamed };
    assert_eq!(resolve_field_target_path(&vec![named("b"), unnamed]), None);
    let ambiguous = FieldTarget { found: true, value: TargetValue::Ambiguous };
    assert_eq!(resolve_field_target_path(&vec![ambiguous, named("a")]), None);
}

#[test]
fn docs_are_cut_at_the_first_heading() {
    let docs = "Takes the *absolute* value, see [text]($text) and [more]($tutorial/basics).\n\n# Example\nNot shown.";
    let html = process_docs_markdown(&library(), docs);
    assert_eq!(
        html,
        "<p>Takes the <em>absolute</em> value, see \
         <a href=\"https://typst.app/docs/reference/text/text\">text</a> and \
         <a href=\"https://typst.app/docs/tutorial/basics\">more</a>.</p>\n"
    );
    assert_eq!(process_docs_markdown(&library(), ""), "");
    assert_eq!(process_docs_markdown(&library(), "# Only heading"), "");
    assert_eq!(
        process_docs_markdown(&library(), "[out](https://example.org/$x)"),
        "<p><a href=\"https://example.org/$x\">out</a></p>\n"
    );
}

#[test]
fn open_references_are_linked() {
    let html = process_docs_markdown(&library(), "See [`calc.abs`] or [`nothing`].");
    assert!(html.contains("<a href=\"https://typst.app/docs/reference/foundations/abs\""), "{html}");
    assert!(html.contains("[<code>nothing</code>]"), "{html}");
}

#[test]
fn documentation_tooltip_names_the_page() {
    let hover = HoverTarget {
        name: Some("abs".to_string()),
        docs: Some("Absolute *value*.".to_string()),
        field_targets: Some(vec![named("calc")]),
    };
    let tooltip = get_documentation_tooltip(&library(), &hover).unwrap();
    assert_eq!(tooltip.content, "<p>Absolute <em>value</em>.</p>\n");
    assert_eq!(tooltip.details_url, "https://typst.app/docs/reference/foundations/abs");
    let bare = HoverTarget { name: Some("abs".to_string()), docs: Some("x".to_string()), field_targets: None };
    assert_eq!(get_documentation_tooltip(&library(), &bare).unwrap().details_url, "");
    let nameless = HoverTarget { name: None, docs: Some("x".to_string()), field_targets: None };
    assert!(get_documentation_tooltip(&library(), &nameless).is_none());
    let undocumented = HoverTarget { name: Some("text".to_string()), docs: None, field_targets: None };
    assert!(get_documentation_tooltip(&library(), &undocumented).is_none());
}

#[test]
fn tooltip_falls_back_to_the_compiler() {
    let hover = HoverTarget { name: Some("text".to_string()), docs: Some("Text.".to_string()), field_targets: None };
    let documented = get_tooltip(&library(), Some(hover), || panic!("documentation comes first")).unwrap();
    assert_eq!(documented.details_url, "https://typst.app/docs/reference/text/text");
    let told = get_tooltip(&library(), None, || Some(IdeTooltip::Code("1 + 1".to_string()))).unwrap();
    assert_eq!(told.content, "<code><pre>1 + 1</pre></code>");
    assert!(get_tooltip(&library(), None, || None).is_none());
    let nameless = HoverTarget { name: None, docs: None, field_targets: None };
    let plain = get_tooltip(&library(), Some(nameless), || Some(IdeTooltip::Text("t".to_string()))).unwrap();
    assert_eq!(plain.content, "t");
}

fn first_span(source: &Source) -> Span {
    source.root().children().next().unwrap().span()
}

#[test]
fn definitions_lie_in_std_or_in_the_text() {
    let source = Source::detached("\n  hello");
    let std = get_definition(&source, Some(DefinitionTarget::Std)).unwrap();
    assert!(std.in_std);
    assert_eq!(std.position, SourcePosition { line: 0, column: 0 });
    let span = source.root().children().last().unwrap().span();
    let here = get_definition(&source, Some(DefinitionTarget::Span { in_source: true, span })).unwrap();
    assert!(!here.in_std);
    assert_eq!(here.position, SourcePosition { line: 1, column: 2 });
    assert!(get_definition(&source, Some(DefinitionTarget::Span { in_source: false, span })).is_none());
    let detached = DefinitionTarget::Span { in_source: true, span: Span::detached() };
    assert!(get_definition(&source, Some(detached)).is_none());
    assert!(get_definition(&source, None).is_none());
    assert_eq!(span_location(&source, span), Some(SourcePosition { line: 1, column: 2 }));
}

fn leaf(is_text: bool, span: Span) -> SyntaxTree {
    SyntaxTree { is_text, span, children: vec![] }
}

#[test]
fn first_text_is_found_in_reading_order() {
    let source = Source::detached("= *Big* title");
    let spans: Vec<Span> = source.root().children().map(|node| node.span()).collect();
    let heading = source.root().children().next().unwrap();
    let inner: Vec<Span> = heading.children().map(|node| node.span()).collect();
    let tree = SyntaxTree {
        is_text: false,
        span: spans[0],
        children: vec![
            leaf(false, inner[0]),
            SyntaxTree { is_text: false, span: inner[1], children: vec![leaf(false, inner[0]), leaf(true, inner[2])] },
            leaf(true, inner[1]),
        ],
    };
    assert_eq!(find_first_text_node(&tree).unwrap().span, inner[2]);
    assert!(find_first_text_node(&leaf(false, spans[0])).is_none());
    let text = leaf(true, spans[0]);
    assert_eq!(find_first_text_node(&text).unwrap().span, spans[0]);
    let at_text = find_text_position_for_span(&source, spans[0], Some(&tree));
    assert_eq!(at_text, span_location(&source, inner[2]));
    let at_span = find_text_position_for_span(&source, spans[0], None);
    assert_eq!(at_span, Some(SourcePosition { line: 0, column: 0 }));
}

#[test]
fn metadata_lists_outline_and_labels() {
    let source = Source::detached("= One <a>\ntext <b>\n= Two");
    let span = first_span(&source);
    let heading = |title: &str, level: usize, outlined: bool| HeadingInfo {
        outlined,
        level,
        title: title.to_string(),
        span,
        node: None,
    };
    let elements = vec![
        ElementInfo { label: Some("a".to_string()), span, heading: Some(heading("One", 1, true)) },
        ElementInfo { label: None, span: Span::detached(), heading: None },
        ElementInfo { label: Some("b".to_string()), span: Span::detached(), heading: None },
        ElementInfo { label: None, span, heading: Some(heading("Hidden", 2, false)) },
        ElementInfo { label: None, span: Span::detached(), heading: Some(HeadingInfo { span: Span::detached(), ..heading("Two", 3, true) }) },
    ];
    let (outline, labels) = get_metadata(&source, &elements);
    assert_eq!(outline.len(), 2);
    assert_eq!((outline[0].title.as_str(), outline[0].level, outline[0].has_position), ("One", 1, true));
    assert_eq!(outline[0].position, SourcePosition { line: 0, column: 0 });
    assert_eq!((outline[1].title.as_str(), outline[1].level, outline[1].has_position), ("Two", 3, false));
    assert_eq!(outline[1].position, SourcePosition { line: 0, column: 0 });
    assert_eq!(labels.len(), 2);
    assert_eq!((labels[0].name.as_str(), labels[0].has_position), ("a", true));
    assert_eq!((labels[1].name.as_str(), labels[1].has_position), ("b", false));
}

#[test]
fn words_are_counted_through_groups() {
    let frame = vec![
        WordItem::Text("Hello, wörld! It's 3.14".to_string()),
        WordItem::Other,
        WordItem::Group(vec![
            WordItem::Text("two words".to_string()),
            WordItem::Group(vec![WordItem::Text("—".to_string()), WordItem::Text("one".to_string())]),
        ]),
        WordItem::Text(String::new()),
    ];
    assert_eq!(count_words(&frame), 7);
    assert_eq!(count_words(&vec![]), 0);
}

#[test]
fn engine_answers_at_a_place_in_the_text() {
    let mut engine = EngineImpl::new(Source::detached(""), "");
    engine.set_source("#calc.abs(1)\nsecond line");
    let lib = library();
    let (engine, missing) = engine.get_tooltip(
        &lib,
        9,
        0,
        |_, _, _| panic!("no such place"),
        |_, _, _, _| panic!("no such place"),
    );
    assert_eq!(missing.err(), Some(EngineFailure::NoSuchPosition));
    let (engine, documented) = engine.get_tooltip(
        &lib,
        0,
        7,
        |world, source, cursor| {
            assert_eq!(source.text(), "#calc.abs(1)\nsecond line");
            assert_eq!(cursor, 7);
            let hover = HoverTarget {
                name: Some("abs".to_string()),
                docs: Some("Absolute.".to_string()),
                field_targets: Some(vec![named("calc")]),
            };
            (Some(hover), world)
        },
        |_, _, _, _| panic!("documentation comes first"),
    );
    assert_eq!(documented.unwrap().details_url, "https://typst.app/docs/reference/foundations/abs");
    let (engine, told) = engine.get_tooltip(
        &lib,
        1,
        3,
        |world, _, _| (None, world),
        |world, _, cursor, document| {
            assert_eq!(cursor, 16);
            assert!(document.is_none());
            (Some(IdeTooltip::Text("plain".to_string())), world)
        },
    );
    assert_eq!(told.unwrap().content, "plain");
    let (engine, silent) =
        engine.get_tooltip(&lib, 1, 3, |world, _, _| (None, world), |world, _, _, _| (None, world));
    assert_eq!(silent.err(), Some(EngineFailure::NoTooltip));
    assert_eq!(engine.forward_search(0, 0).err(), Some(EngineFailure::InvalidState));
    assert_eq!(EngineFailure::NoTooltip.message(), "No available tooltip");
}

#[test]
fn engine_completes_and_finds_definitions() {
    let mut engine = EngineImpl::new(Source::detached(""), "");
    engine.set_source("#let x = 1\n#x");
    let (engine, done) = engine.get_completions(1, 2, |world, _, cursor, _| {
        (Some((cursor - 1, "[\"x\"]".to_string())), world)
    });
    let done: Completions = done.unwrap();
    assert_eq!(done.from, SourcePosition { line: 1, column: 1 });
    assert_eq!(done.completions_json, "[\"x\"]");
    let (engine, none) = engine.get_completions(1, 2, |world, _, _, _| (None, world));
    assert_eq!(none.err(), Some(EngineFailure::NoCompletions));
    let (engine, beyond) =
        engine.get_completions(1, 2, |world, _, _, _| (Some((999, String::new())), world));
    assert_eq!(beyond.err(), Some(EngineFailure::NoCompletions));
    let (engine, nowhere) = engine.get_completions(7, 0, |_, _, _, _| panic!("no such place"));
    assert_eq!(nowhere.err(), Some(EngineFailure::NoSuchPosition));
    let (engine, std) =
        engine.get_definition(1, 1, |world, _, _, _| (Some(DefinitionTarget::Std), world));
    assert!(std.unwrap().in_std);
    let (engine, found) = engine.get_definition(1, 1, |world, source, _, _| {
        let span = source.root().children().next().unwrap().span();
        (Some(DefinitionTarget::Span { in_source: true, span }), world)
    });
    assert_eq!(found.unwrap().position, SourcePosition { line: 0, column: 0 });
    let (engine, none) = engine.get_definition(1, 1, |world, _, _, _| (None, world));
    assert_eq!(none.err(), Some(EngineFailure::DefinitionNotFound));
    let (engine, nowhere) = engine.get_definition(5, 1, |_, _, _, _| panic!("no such place"));
    assert_eq!(nowhere.err(), Some(EngineFailure::NoSuchPosition));
    assert_eq!(engine.get_metadata(|_, _| vec![]).err(), Some(EngineFailure::NotCompiled));
    assert_eq!(engine.get_outline(|_, _| vec![]).err(), Some(EngineFailure::NotCompiled));
    assert_eq!(engine.count_page_words(0, |_, _| vec![]).err(), Some(EngineFailure::InvalidState));
    assert_eq!(EngineFailure::NotCompiled.message(), "Not compiled yet");
    assert_eq!(EngineFailure::DefinitionNotFound.message(), "Definition not found");
    assert_eq!(EngineFailure::NoCompletions.message(), "No available completions");
}

fn node(is_trivia: bool, is_expr: bool, is_field_access: bool, index: usize) -> NodeInfo {
    NodeInfo { is_trivia, is_expr, is_field_access, index }
}

#[test]
fn hovered_expression_is_the_nearest_above_the_leaf() {
    let plain = node(false, false, false, 0);
    let expr = node(false, true, false, 1);
    assert_eq!(find_expression(&vec![]), None);
    assert_eq!(find_expression(&vec![node(true, true, false, 0), expr]), None);
    assert_eq!(find_expression(&vec![plain, plain]), None);
    assert_eq!(find_expression(&vec![expr, expr]), Some(0));
    assert_eq!(find_expression(&vec![plain, node(true, false, false, 0), expr, expr]), Some(2));
}

#[test]
fn hover_takes_one_documented_function_or_type() {
    let func = |name: Option<&str>, docs: Option<&str>| FoundValue::Func {
        name: name.map(str::to_string),
        docs: docs.map(str::to_string),
    };
    let inside = vec![node(false, true, false, 2), node(false, true, true, 0)];
    let first_child = vec![node(false, true, false, 0), node(false, true, true, 0)];
    let alone = vec![node(false, true, false, 2), node(false, true, false, 0)];
    let found = pick_hover(&inside, 0, &vec![func(Some("abs"), Some("Absolute."))], || vec![named("calc")])
        .unwrap();
    assert_eq!(found.name.as_deref(), Some("abs"));
    assert_eq!(found.docs.as_deref(), Some("Absolute."));
    assert_eq!(found.field_targets.map(|targets| targets.len()), Some(1));
    let ty = FoundValue::Type { short_name: "color".to_string(), text: "A color.".to_string() };
    let plain = pick_hover(&first_child, 0, &vec![ty], || panic!("there is no field access")).unwrap();
    assert_eq!(plain.name.as_deref(), Some("color"));
    assert!(plain.field_targets.is_none());
    let values = vec![func(Some("abs"), Some("Absolute."))];
    assert!(pick_hover(&alone, 0, &values, || panic!("no access")).unwrap().field_targets.is_none());
    assert!(pick_hover(&alone, 1, &values, || panic!("no access")).unwrap().field_targets.is_none());
    let none = || -> Vec<typstdriver::analysis::FieldTarget> { panic!("nothing is hovered over") };
    assert!(pick_hover(&inside, 0, &vec![], none).is_none());
    assert!(pick_hover(&inside, 0, &vec![FoundValue::Other], none).is_none());
    assert!(pick_hover(&inside, 0, &vec![func(None, Some("d"))], none).is_none());
    assert!(pick_hover(&inside, 0, &vec![func(Some("n"), None)], none).is_none());
    let two = vec![func(Some("a"), Some("d")), func(Some("b"), Some("d"))];
    assert!(pick_hover(&inside, 0, &two, none).is_none());
}
