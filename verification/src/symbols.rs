use crate::strings::{copy_str, push_text, trim_matches, trimmed};
use vstd::prelude::*;

verus! {

/// `unicode_math_class::MathClass`, the classes of mathematical characters,
/// with its variants.
#[verifier::external_type_specification]
pub struct ExMathClass(unicode_math_class::MathClass);

/// The name under which a class of mathematical characters is shown.
pub open spec fn class_name(class: unicode_math_class::MathClass) -> Seq<char> {
    match class {
        unicode_math_class::MathClass::Normal => "Normal"@,
        unicode_math_class::MathClass::Alphabetic => "Alphabetic"@,
        unicode_math_class::MathClass::Binary => "Binary"@,
        unicode_math_class::MathClass::Closing => "Closing"@,
        unicode_math_class::MathClass::Diacritic => "Diacritic"@,
        unicode_math_class::MathClass::Fence => "Fence"@,
        unicode_math_class::MathClass::Large => "Large"@,
        unicode_math_class::MathClass::Opening => "Opening"@,
        unicode_math_class::MathClass::Punctuation => "Punctuation"@,
        unicode_math_class::MathClass::Relation => "Relation"@,
        unicode_math_class::MathClass::Space => "Space"@,
        unicode_math_class::MathClass::Unary => "Unary"@,
        unicode_math_class::MathClass::GlyphPart => "Other"@,
        unicode_math_class::MathClass::Vary => "Other"@,
        unicode_math_class::MathClass::Special => "Other"@,
    }
}

/// The name under which a class of mathematical characters is shown.
pub fn math_class_name(clazz: unicode_math_class::MathClass) -> (name: &'static str)
    ensures
        name@ == class_name(clazz),
{
    match clazz {
        unicode_math_class::MathClass::Normal => "Normal",
        unicode_math_class::MathClass::Alphabetic => "Alphabetic",
        unicode_math_class::MathClass::Binary => "Binary",
        unicode_math_class::MathClass::Closing => "Closing",
        unicode_math_class::MathClass::Diacritic => "Diacritic",
        unicode_math_class::MathClass::Fence => "Fence",
        unicode_math_class::MathClass::Large => "Large",
        unicode_math_class::MathClass::Opening => "Opening",
        unicode_math_class::MathClass::Punctuation => "Punctuation",
        unicode_math_class::MathClass::Relation => "Relation",
        unicode_math_class::MathClass::Space => "Space",
        unicode_math_class::MathClass::Unary => "Unary",
        unicode_math_class::MathClass::GlyphPart => "Other",
        unicode_math_class::MathClass::Vary => "Other",
        unicode_math_class::MathClass::Special => "Other",
    }
}

/// The name that Unicode gives to a character, if it gives one.
pub uninterp spec fn character_name(c: char) -> Option<Seq<char>>;

/// The class of a mathematical character, if it is one.
pub uninterp spec fn character_class(c: char) -> Option<unicode_math_class::MathClass>;

/// Calls `unicode_names2::name` and writes the name out.
#[verifier::external_body]
fn unicode_name(c: char) -> (name: Option<String>)
    ensures
        name matches Some(n) ==> character_name(c) == Some(n@),
        name is None ==> character_name(c) is None,
{
    unicode_names2::name(c).map(|name| name.to_string())
}

/// Calls `unicode_math_class::class`.
#[verifier::external_body]
fn math_class(c: char) -> (class: Option<unicode_math_class::MathClass>)
    ensures
        class == character_class(c),
{
    unicode_math_class::class(c)
}

/// A symbol as the picker shows it, in the model.
pub struct SymbolView {
    pub value: Seq<char>,
    pub name: Seq<char>,
    pub description: Seq<char>,
    pub category: Seq<char>,
}

/// A symbol as the picker shows it: the text that it stands for, its name,
/// the Unicode name of its first character, and its category.
#[derive(Debug)]
pub struct SymbolEntry {
    pub value: String,
    pub name: String,
    pub description: String,
    pub category: String,
}

impl View for SymbolEntry {
    type V = SymbolView;

    open spec fn view(&self) -> SymbolView {
        SymbolView {
            value: self.value@,
            name: self.name@,
            description: self.description@,
            category: self.category@,
        }
    }
}

/// The first character of a text.
pub open spec fn first_char(text: Seq<char>) -> Option<char> {
    if text.len() > 0 {
        Some(text[0])
    } else {
        None
    }
}

/// The Unicode name of the first character of a symbol; empty where there
/// is none.
pub open spec fn description_of(value: Seq<char>) -> Seq<char> {
    match first_char(value) {
        Some(c) => match character_name(c) {
            Some(name) => name,
            None => Seq::empty(),
        },
        None => Seq::empty(),
    }
}

/// The category of a symbol: that of the emoji for a name below `emoji`, and
/// else the class of its first character; empty where it has none.
pub open spec fn category_of(value: Seq<char>, name: Seq<char>) -> Seq<char> {
    if "emoji."@.is_prefix_of(name) {
        "Emoji"@
    } else {
        match first_char(value) {
            Some(c) => match character_class(c) {
                Some(class) => class_name(class),
                None => Seq::empty(),
            },
            None => Seq::empty(),
        }
    }
}

/// The symbol with the given text and name. Dots at the ends of the name are
/// left out.
pub open spec fn symbol_of(value: Seq<char>, name: Seq<char>) -> SymbolView {
    SymbolView {
        value,
        name: trimmed(name, '.'),
        description: description_of(value),
        category: category_of(value, trimmed(name, '.')),
    }
}

/// Whether a text starts with another.
pub fn starts_with(text: &str, prefix: &str) -> (found: bool)
    ensures
        found == prefix@.is_prefix_of(text@),
{
    let text = crate::strings::chars_of(text);
    let prefix = crate::strings::chars_of(prefix);
    let found = crate::strings::matches_at(&text, &prefix, 0);
    proof {
        if found {
            assert(prefix@ =~= text@.subrange(0, prefix@.len() as int));
        }
        if prefix@.is_prefix_of(text@) {
            assert(text@.subrange(0, prefix@.len() as int) =~= prefix@);
        }
    }
    found
}

impl SymbolEntry {
    /// The symbol with the given text and name.
    pub fn new(value: &str, name: &str) -> (entry: SymbolEntry)
        ensures
            entry@ == symbol_of(value@, name@),
    {
        let name = trim_matches(name, '.');
        let codepoint = if value.unicode_len() > 0 {
            Some(value.get_char(0))
        } else {
            None
        };
        let description = match codepoint {
            Some(c) => match unicode_name(c) {
                Some(name) => name,
                None => String::new(),
            },
            None => String::new(),
        };
        let category = if starts_with(name.as_str(), "emoji.") {
            copy_str("Emoji")
        } else {
            match codepoint {
                Some(c) => match math_class(c) {
                    Some(class) => copy_str(math_class_name(class)),
                    None => String::new(),
                },
                None => String::new(),
            }
        };
        SymbolEntry { value: copy_str(value), name, description, category }
    }
}

/// One way to write a symbol that has several: the modifiers that select it,
/// and the text that it stands for.
pub struct SymbolVariant {
    pub modifiers: String,
    pub value: String,
}

/// What a name of a module of symbols stands for.
pub enum SymbolDef {
    /// A symbol that is written in one way.
    Single(String),
    /// A symbol that is written in several ways.
    Multi(Vec<SymbolVariant>),
    /// A module of further names.
    Module(Vec<SymbolNode>),
}

/// A name of a module of symbols, with what it stands for.
pub struct SymbolNode {
    pub name: String,
    pub def: SymbolDef,
}

/// A name below another.
pub open spec fn dotted(prefix: Seq<char>, name: Seq<char>) -> Seq<char> {
    prefix + "."@ + name
}

/// The symbols that the ways of writing one symbol give, in their order.
pub open spec fn variant_symbols(variants: Seq<SymbolVariant>, name: Seq<char>) -> Seq<SymbolView>
    decreases variants.len(),
{
    if variants.len() == 0 {
        Seq::empty()
    } else {
        variant_symbols(variants.drop_last(), name).push(
            symbol_of(variants.last().value@, dotted(name, variants.last().modifiers@)),
        )
    }
}

/// The symbols that the first `count` names of a module give, in their
/// order, with the module's name in front of each.
pub open spec fn module_symbols(nodes: Seq<SymbolNode>, prefix: Seq<char>, count: nat) -> Seq<
    SymbolView,
>
    decreases nodes, 1nat, count,
{
    if count == 0 || count > nodes.len() {
        Seq::empty()
    } else {
        module_symbols(nodes, prefix, (count - 1) as nat) + node_symbols(
            nodes[count - 1],
            prefix,
        )
    }
}

/// The symbols that one name of a module gives.
pub open spec fn node_symbols(node: SymbolNode, prefix: Seq<char>) -> Seq<SymbolView>
    decreases node, 0nat, 0nat,
{
    let name = dotted(prefix, node.name@);
    match node.def {
        SymbolDef::Single(value) => seq![symbol_of(value@, name)],
        SymbolDef::Multi(variants) => variant_symbols(variants@, name),
        SymbolDef::Module(nodes) => module_symbols(nodes@, name, nodes@.len()),
    }
}

/// The symbols, in the model.
pub open spec fn symbol_views(symbols: Seq<SymbolEntry>) -> Seq<SymbolView> {
    symbols.map_values(|symbol: SymbolEntry| symbol@)
}

/// Appends to `output` the symbols of a module and of the modules below it,
/// each under its full name.
pub fn collect_symbols(module: &Vec<SymbolNode>, module_name: &str, output: &mut Vec<SymbolEntry>)
    ensures
        symbol_views(final(output)@) == symbol_views(old(output)@) + module_symbols(
            module@,
            module_name@,
            module@.len(),
        ),
    decreases module@,
{
    let mut i: usize = 0;
    while i < module.len()
        invariant
            i <= module.len(),
            symbol_views(output@) == symbol_views(old(output)@) + module_symbols(
                module@,
                module_name@,
                i as nat,
            ),
        decreases module.len() - i,
    {
        let node = &module[i];
        let mut item_name = copy_str(module_name);
        push_text(&mut item_name, ".");
        push_text(&mut item_name, node.name.as_str());
        assert(item_name@ =~= dotted(module_name@, node.name@));
        let ghost before = symbol_views(output@);
        match &node.def {
            SymbolDef::Single(value) => {
                output.push(SymbolEntry::new(value.as_str(), item_name.as_str()));
                assert(symbol_views(output@) =~= before + node_symbols(*node, module_name@));
            },
            SymbolDef::Multi(variants) => {
                let mut k: usize = 0;
                while k < variants.len()
                    invariant
                        k <= variants.len(),
                        symbol_views(output@) == before + variant_symbols(
                            variants@.take(k as int),
                            item_name@,
                        ),
                    decreases variants.len() - k,
                {
                    let mut full = item_name.clone();
                    push_text(&mut full, ".");
                    push_text(&mut full, variants[k].modifiers.as_str());
                    assert(full@ =~= dotted(item_name@, variants[k as int].modifiers@));
                    let ghost sofar = symbol_views(output@);
                    output.push(SymbolEntry::new(variants[k].value.as_str(), full.as_str()));
                    proof {
                        assert(variants@.take(k + 1).drop_last() =~= variants@.take(k as int));
                        assert(symbol_views(output@) =~= sofar.push(
                            symbol_of(variants[k as int].value@, full@),
                        ));
                    }
                    k = k + 1;
                }
                proof {
                    assert(variants@.take(variants.len() as int) =~= variants@);
                }
            },
            SymbolDef::Module(nodes) => {
                collect_symbols(nodes, item_name.as_str(), output);
            },
        }
        proof {
            assert(symbol_views(output@) == before + node_symbols(*node, module_name@));
            assert(module_symbols(module@, module_name@, (i + 1) as nat) == module_symbols(
                module@,
                module_name@,
                i as nat,
            ) + node_symbols(module@[i as int], module_name@));
            assert(symbol_views(output@) =~= symbol_views(old(output)@) + module_symbols(
                module@,
                module_name@,
                (i + 1) as nat,
            ));
        }
        i = i + 1;
    }
}

/// All symbols of the two modules that the picker shows: those of `sym`
/// under the name `sym`, then those of `emoji` under the name `emoji`.
pub fn collect_all_symbols(sym: &Vec<SymbolNode>, emoji: &Vec<SymbolNode>) -> (output: Vec<SymbolEntry>)
    ensures
        symbol_views(output@) == module_symbols(sym@, "sym"@, sym@.len()) + module_symbols(
            emoji@,
            "emoji"@,
            emoji@.len(),
        ),
{
    let mut output: Vec<SymbolEntry> = Vec::new();
    assert(symbol_views(output@) =~= Seq::<SymbolView>::empty());
    collect_symbols(sym, "sym", &mut output);
    collect_symbols(emoji, "emoji", &mut output);
    output
}

} // verus!
