use typst::foundations::{Func, Type};
use typst::{Library, LibraryExt};
use typstdriver::tooltip::{
    get_reference_link, get_reference_link_in_scope, get_well_known_page_link, html_escape,
    process_docs_broken_link, process_docs_internal_link, Binding, FuncDef, Scope,
    StandardLibrary, Value,
};

const ONLINE_DOCS_PREFIX: &str = "https://typst.app/docs";

fn scope_of(scope: &typst::foundations::Scope, depth: usize) -> Scope {
    let mut entries = Vec::new();
    for (name, binding) in scope.iter() {
        entries.push((name.to_string(), binding_of(binding, depth)));
    }
    Scope { entries }
}

fn binding_of(binding: &typst::foundations::Binding, depth: usize) -> Binding {
    let category = binding.category().map(|category| category.name().to_string());
    let value = match binding.read() {
        _ if depth == 0 => Value::Other,
        typst::foundations::Value::Module(module) => Value::Module(scope_of(module.scope(), depth - 1)),
        typst::foundations::Value::Type(ty) => Value::Type(scope_of(ty.scope(), depth - 1)),
        typst::foundations::Value::Func(func) => Value::Func(FuncDef {
            params: func
                .params()
                .map(|params| params.iter().map(|param| param.name.to_string()).collect())
                .unwrap_or_default(),
            scope: func.scope().map(|scope| scope_of(scope, depth - 1)),
        }),
        _ => Value::Other,
    };
    Binding { value, category }
}

fn standard_library() -> StandardLibrary {
    let library = Library::default();
    StandardLibrary {
        global: scope_of(library.global.scope(), 6),
        std: library.std.read().scope().map(|scope| scope_of(scope, 6)),
        func_type: scope_of(Type::of::<Func>().scope(), 6),
    }
}

fn reference_link(library: &StandardLibrary, path: &str) -> Option<String> {
    let path: Vec<_> = path.split('.').collect();
    get_reference_link(library, path).map(|s| s.trim_start_matches(ONLINE_DOCS_PREFIX).to_string())
}

#[test]
fn test_get_reference_link_basic() {
    let world = standard_library();

    assert_eq!(
        reference_link(&world, "page"),
        Some(format!("/reference/layout/page"))
    );
    assert_eq!(
        reference_link(&world, "pdf.attach"),
        Some(format!("/reference/pdf/attach"))
    );
    assert_eq!(
        reference_link(&world, "std.pdf.attach"),
        Some(format!("/reference/pdf/attach"))
    );
    assert_eq!(
        reference_link(&world, "color"),
        Some(format!("/reference/visualize/color"))
    );
    assert_eq!(
        reference_link(&world, "color.rgb"),
        Some(format!("/reference/visualize/color#definitions-rgb"))
    );
    assert_eq!(
        reference_link(&world, "rgb"),
        Some(format!("/reference/visualize/color#definitions-rgb"))
    );
    assert_eq!(
        reference_link(&world, "outline.depth"),
        Some(format!("/reference/model/outline#parameters-depth"))
    );
    assert_eq!(
        reference_link(&world, "outline.entry.indented.prefix"),
        Some(format!(
            "/reference/model/outline#definitions-entry-definitions-indented-prefix"
        ))
    );
    assert_eq!(
        reference_link(&world, "outline.entry.where"),
        Some(format!("/reference/foundations/function#definitions-where"))
    );

    assert_eq!(reference_link(&world, "nosuchthing"), None);
    assert_eq!(reference_link(&world, "pdf.nosuchthing"), None);
}

fn func(params: &[&str], scope: Option<Scope>, category: Option<&str>) -> Binding {
    Binding {
        value: Value::Func(FuncDef {
            params: params.iter().map(|p| p.to_string()).collect(),
            scope,
        }),
        category: category.map(str::to_string),
    }
}

fn small_library() -> StandardLibrary {
    let color = Scope {
        entries: vec![("rgb".to_string(), func(&["red", "green"], None, Some("visualize")))],
    };
    let array = Scope { entries: vec![("range".to_string(), func(&["step"], None, None))] };
    let calc = Scope {
        entries: vec![
            ("abs".to_string(), func(&["value"], None, Some("foundations"))),
            ("pi".to_string(), Binding { value: Value::Other, category: Some("foundations".to_string()) }),
        ],
    };
    let global = Scope {
        entries: vec![
            ("color".to_string(), Binding { value: Value::Type(color), category: Some("visualize".to_string()) }),
            ("array".to_string(), Binding { value: Value::Type(array), category: Some("foundations".to_string()) }),
            ("calc".to_string(), Binding { value: Value::Module(calc), category: Some("foundations".to_string()) }),
            ("nameless".to_string(), Binding { value: Value::Type(Scope { entries: vec![] }), category: None }),
            ("text".to_string(), func(&["size"], None, Some("text"))),
        ],
    };
    let func_type = Scope {
        entries: vec![("with".to_string(), func(&["args"], None, Some("foundations")))],
    };
    StandardLibrary { global, std: None, func_type }
}

#[test]
fn resolver_follows_modules_types_and_functions() {
    let library = small_library();
    let link = |path: &str| reference_link(&library, path);
    assert_eq!(link("calc.abs"), Some("/reference/foundations/abs".to_string()));
    assert_eq!(link("calc.abs.value"), Some("/reference/foundations/abs#parameters-value".to_string()));
    assert_eq!(link("calc.pi"), None);
    assert_eq!(link("calc"), None);
    assert_eq!(link("color.rgb.red"), Some("/reference/visualize/color#definitions-rgb-red".to_string()));
    assert_eq!(link("range"), Some("/reference/foundations/array#definitions-range".to_string()));
    assert_eq!(link("range.step"), Some("/reference/foundations/array#definitions-range-step".to_string()));
    assert_eq!(link("text.with"), Some("/reference/foundations/function#definitions-with".to_string()));
    assert_eq!(link("text.with.args"), Some("/reference/foundations/function#definitions-with-args".to_string()));
    assert_eq!(link("color.with"), None);
    assert_eq!(link("nameless"), None);
    assert_eq!(link("std.color"), None);
    assert_eq!(link("text.size.more"), Some("/reference/text/text#parameters-size".to_string()));
    assert_eq!(link(""), None);
    assert_eq!(get_reference_link(&library, vec![]), None);
}

#[test]
fn resolver_starts_from_the_scope_it_is_given() {
    let library = small_library();
    let from_calc = match &library.global.entries[2].1.value {
        Value::Module(scope) => scope,
        _ => panic!("module expected"),
    };
    let found = get_reference_link_in_scope(from_calc, &library.func_type, &vec!["abs"]);
    assert_eq!(found, Some(format!("{ONLINE_DOCS_PREFIX}/reference/foundations/abs")));
    assert!(from_calc.get("abs").is_some());
    assert!(from_calc.get("ab").is_none());
}

#[test]
fn html_escape_writes_out_markup() {
    assert_eq!(html_escape("a < b && c > \"d\""), "a &lt; b &amp;&amp; c &gt; &quot;d&quot;");
    assert_eq!(html_escape(""), "");
    assert_eq!(html_escape("plain 'text' ü"), "plain 'text' ü");
}

#[test]
fn well_known_pages_have_addresses() {
    assert_eq!(get_well_known_page_link("tutorial"), "https://typst.app/docs/tutorial");
    assert_eq!(get_well_known_page_link("guides"), "https://typst.app/docs/guides");
    assert_eq!(get_well_known_page_link("reference"), "https://typst.app/docs/reference");
    assert_eq!(get_well_known_page_link("styling"), "https://typst.app/docs/reference/styling");
    assert_eq!(get_well_known_page_link(""), "https://typst.app/docs/reference/");
}

#[test]
fn internal_links_become_addresses() {
    let library = small_library();
    let link = |path: &str| process_docs_internal_link(&library, path);
    assert_eq!(link("calc.abs"), "https://typst.app/docs/reference/foundations/abs");
    assert_eq!(link("calc.abs/#example"), "https://typst.app/docs/reference/foundations/abs/#example");
    assert_eq!(link("color.rgb/more"), "https://typst.app/docs/reference/visualize/color#definitions-rgb");
    assert_eq!(link("tutorial"), "https://typst.app/docs/tutorial");
    assert_eq!(link("tutorial/writing"), "https://typst.app/docs/tutorial/writing");
    assert_eq!(link("styling/#set-rules"), "https://typst.app/docs/reference/styling/#set-rules");
}

#[test]
fn broken_links_resolve_shortcuts_only() {
    let library = small_library();
    let found = process_docs_broken_link(&library, true, "`calc.abs`");
    assert_eq!(
        found,
        Some(("https://typst.app/docs/reference/foundations/abs".to_string(), "`calc.abs`".to_string()))
    );
    assert_eq!(process_docs_broken_link(&library, false, "`calc.abs`"), None);
    assert_eq!(process_docs_broken_link(&library, true, "`nothing`"), None);
    assert_eq!(process_docs_broken_link(&library, true, "``"), None);
}
