use vvv::engine::HighlightKind;
use vvv::engine::Role;
use vvv::query::Query;
use vvv::syntax::searcher::SearchError;
use vvv::syntax::searcher::CaptureValue;
use vvv::query::SymbolKind;
use vvv::rust::facts::ReachKind;
use vvv::syntax::grammar::Grammar;
use vvv::syntax::grammar::Semantics;
use vvv::syntax::grammar::PathSyntax;
use vvv::syntax::searcher::AstGrepLanguage;
use vvv::syntax::searcher::AstGrepSearcher;
use vvv::syntax::tree::Lang;
use vvv::syntax::tree::SyntaxTree;
use vvv::typescript::{Head, ModulePath};

const DECLS: &str = r#"
pub fn free() {}
pub struct Point { x: i32 }
impl Point {
    pub fn new() -> Self { fn helper() {} Self { x: 0 } }
}
pub trait Shape { fn area(&self) -> f64; fn name(&self) -> &str { "shape" } }
pub enum Dir { Up, Down }
type Alias = Point;
const MAX: u8 = 1;
static COUNT: u8 = 0;
mod inner {}
macro_rules! m { () => {} }
"#;

const TS_DECLS: &str = r#"
export function f() {}
export class C { x = 1; m() {} }
interface I { y: number; n(): void }
type T = string;
enum E { A, B }
const arrow = () => {};
"#;

const SRC: &str = "fn alpha() {}\nstruct S;\nfn beta(x: u8, y: u8) {}\n";

fn query(pattern: Option<&str>, kind: Option<&str>, symbol: Option<SymbolKind>, name: Option<&str>) -> Query {
    Query {
        pattern: pattern.map(str::to_owned),
        kind: kind.map(str::to_owned),
        symbol,
        name: name.map(str::to_owned),
        language: None,
    }
}

fn rust() -> AstGrepSearcher {
    AstGrepSearcher::new(Lang::Rust, Grammar::rust())
}

fn typescript() -> AstGrepSearcher {
    AstGrepSearcher::new(Lang::TypeScript, Grammar::typescript())
}

fn tsx() -> AstGrepSearcher {
    AstGrepSearcher::new(Lang::Tsx, Grammar::typescript())
}

#[test]
fn extents_take_attributes_and_docs_up_to_a_blank_line() {
    let src = "// section\n\n/// Docs.\n#[derive(Debug)]\n#[cfg(test)]\npub(crate) struct S;\n\nfn f() {}\n";
    let symbols = rust().symbols(src);
    let s = &symbols[0];
    assert_eq!(
        &src[s.extent.start..s.extent.end],
        "/// Docs.\n#[derive(Debug)]\n#[cfg(test)]\npub(crate) struct S;"
    );
    assert_eq!(&src[s.span.start..s.span.end], "pub(crate) struct S;");
    assert_eq!(s.modifier(), Some("pub(crate)"));
    let f = &symbols[1];
    assert_eq!(&src[f.extent.start..f.extent.end], "fn f() {}");
    assert_eq!(f.modifier(), None);
}

#[test]
fn every_visibility_form_is_read_and_variants_take_none() {
    let src = "pub fn a() {}\npub(super) fn b() {}\npub(in crate::x) fn c() {}\nfn d() {}\npub enum E { /// doc\n V }\n";
    let mods: Vec<(String, Option<String>)> = rust()
        .symbols(src)
        .into_iter()
        .map(|s| (s.name.clone(), s.modifier().map(str::to_owned)))
        .collect();
    assert_eq!(
        mods,
        [
            ("a".to_owned(), Some("pub".to_owned())),
            ("b".to_owned(), Some("pub(super)".to_owned())),
            ("c".to_owned(), Some("pub(in crate::x)".to_owned())),
            ("d".to_owned(), None),
            ("E".to_owned(), Some("pub".to_owned())),
            ("V".to_owned(), None),
        ]
    );
    let sem = Semantics::rust();
    assert_eq!(sem.reach_kind(Some("pub(in crate::x)")), ReachKind::Path);
    assert!(sem.is_addressable(SymbolKind::Struct) && !sem.is_addressable(SymbolKind::Method));
}

#[test]
fn highlights_cover_keywords_strings_types_and_calls() {
    let src = "/// doc\npub fn f(x: u8) -> String { let s = \"hi\"; g(1); s.len(); m!() }";
    let got: Vec<(HighlightKind, &str)> = rust()
        .highlights(src)
        .into_iter()
        .map(|h| (h.kind, src[h.span.start..h.span.end].trim_end()))
        .collect();
    let expected = [
        (HighlightKind::Comment, "/// doc"),
        (HighlightKind::Keyword, "pub"),
        (HighlightKind::Keyword, "fn"),
        (HighlightKind::Function, "f"),
        (HighlightKind::Type, "u8"),
        (HighlightKind::Type, "String"),
        (HighlightKind::Keyword, "let"),
        (HighlightKind::String, "\"hi\""),
        (HighlightKind::Function, "g"),
        (HighlightKind::Number, "1"),
        (HighlightKind::Function, "len"),
        (HighlightKind::Macro, "m"),
    ];
    assert_eq!(got, expected);
}

#[test]
fn extracts_every_declaration_kind() {
    let expected = [
        (SymbolKind::Function, "free"),
        (SymbolKind::Struct, "Point"),
        (SymbolKind::Field, "x"),
        (SymbolKind::Impl, "Point"),
        (SymbolKind::Method, "new"),
        (SymbolKind::Function, "helper"),
        (SymbolKind::Trait, "Shape"),
        (SymbolKind::Method, "area"),
        (SymbolKind::Method, "name"),
        (SymbolKind::Enum, "Dir"),
        (SymbolKind::Variant, "Up"),
        (SymbolKind::Variant, "Down"),
        (SymbolKind::TypeAlias, "Alias"),
        (SymbolKind::Const, "MAX"),
        (SymbolKind::Static, "COUNT"),
        (SymbolKind::Module, "inner"),
        (SymbolKind::Macro, "m"),
    ];
    let got: Vec<(SymbolKind, String)> = rust().symbols(DECLS).into_iter().map(|s| (s.kind, s.name)).collect();
    let got: Vec<(SymbolKind, &str)> = got.iter().map(|(k, n)| (*k, n.as_str())).collect();
    assert_eq!(got, expected);
}

#[test]
fn references_are_identifier_tokens_only() {
    let src = "fn foo() {}\nfn bar() { foo(); let foo = 1; \"foo\"; /* foo */ x.foo }";
    let refs = rust().references(src, "foo");
    let kinds: Vec<&str> = refs.iter().map(|r| r.kind.as_str()).collect();
    assert_eq!(kinds, ["identifier", "identifier", "identifier", "field_identifier"]);
    assert!(refs.iter().all(|r| r.text == "foo"));
}

#[test]
fn export_is_the_modifier_and_joins_the_extent() {
    let src = "/** Doc */\nexport class A {}\nexport default function f() {}\nexport const k = 1, j = 2;\nclass B {}\n";
    let symbols = typescript().symbols(src);
    let view: Vec<(String, Option<String>, String)> = symbols
        .iter()
        .map(|s| {
            (
                s.name.clone(),
                s.modifier().map(str::to_owned),
                src[s.extent.start..s.extent.end].to_owned(),
            )
        })
        .collect();
    assert_eq!(
        view,
        [
            ("A".to_owned(), Some("export".to_owned()), "/** Doc */\nexport class A {}".to_owned()),
            (
                "f".to_owned(),
                Some("export default".to_owned()),
                "export default function f() {}".to_owned()
            ),
            ("k".to_owned(), Some("export".to_owned()), "export const k = 1, j = 2;".to_owned()),
            ("j".to_owned(), Some("export".to_owned()), "export const k = 1, j = 2;".to_owned()),
            ("B".to_owned(), None, "class B {}".to_owned()),
        ]
    );
    assert_eq!(Semantics::typescript().reach_kind(Some("export")), ReachKind::Everyone);
}

#[test]
fn extracts_declarations() {
    let got: Vec<(SymbolKind, String)> = typescript().symbols(TS_DECLS).into_iter().map(|s| (s.kind, s.name)).collect();
    let expected = [
        (SymbolKind::Function, "f"),
        (SymbolKind::Class, "C"),
        (SymbolKind::Field, "x"),
        (SymbolKind::Method, "m"),
        (SymbolKind::Interface, "I"),
        (SymbolKind::Field, "y"),
        (SymbolKind::Method, "n"),
        (SymbolKind::TypeAlias, "T"),
        (SymbolKind::Enum, "E"),
        (SymbolKind::Variant, "A"),
        (SymbolKind::Variant, "B"),
        (SymbolKind::Variable, "arrow"),
    ];
    let got: Vec<(SymbolKind, &str)> = got.iter().map(|(k, n)| (*k, n.as_str())).collect();
    assert_eq!(got, expected);
}

#[test]
fn tsx_shares_the_rules() {
    let src = "function App() { return <div>{f()}</div>; }";
    let syms = tsx().symbols(src);
    assert_eq!(syms[0].name, "App");
    assert_eq!(tsx().references(src, "f").len(), 1);
}

#[test]
fn references_in_import_statements_are_imports() {
    let src = "use a::{b, Language as L};\nextern crate Language;\nfn f() { Language::new(); }";
    let roles: Vec<Role> = rust().references(src, "Language").iter().map(|r| r.role).collect();
    assert_eq!(roles, [Role::Import, Role::Import, Role::Use]);
    let ts = "import { Engine } from './b';\nexport { Engine as E } from './b';\nexport const Engine = 1;\nnew Engine();\n";
    let roles: Vec<Role> = typescript().references(ts, "Engine").iter().map(|r| r.role).collect();
    assert_eq!(roles, [Role::Import, Role::Import, Role::Use, Role::Use]);
}

#[test]
fn a_blank_line_cuts_the_docs_off() {
    let src = "// far\n\n// near\nfn f() {}\n";
    let s = &rust().symbols(src)[0];
    assert_eq!(&src[s.extent.start..s.extent.end], "// near\nfn f() {}");
    assert_eq!(s.name_span.end - s.name_span.start, 1);
}

#[test]
fn a_parse_lists_every_node_once_with_its_parent_before_it() {
    let tree = SyntaxTree::parse(Lang::Rust, "fn f() {}");
    assert!(!tree.nodes.is_empty());
    assert_eq!(tree.nodes[0].kind, "source_file");
    assert!(tree.nodes[0].parent.is_none());
    for (i, n) in tree.nodes.iter().enumerate().skip(1) {
        assert!(n.parent.unwrap() < i);
    }
    let f = tree.nodes.iter().position(|n| n.kind == "function_item").unwrap();
    let name = tree.nodes[f].fields[0].unwrap();
    assert_eq!(tree.nodes[name].kind, "identifier");
}

#[test]
fn an_unknown_modifier_gets_the_default_reach() {
    let sem = Semantics::rust();
    assert_eq!(sem.reach_kind(None), ReachKind::Declaring);
    assert_eq!(sem.reach_kind(Some("pub(crate)")), ReachKind::Package);
    assert_eq!(sem.reach_kind(Some("pub(super)")), ReachKind::Parent);
    assert_eq!(sem.reach_kind(Some("priv")), ReachKind::Declaring);
}

#[test]
fn bare_name_finds_every_identifier_position_and_labels_declarations() {
    let src = "use a::Language;\npub trait Language {}\nimpl Language for S {}\nfn f(l: &dyn Language) {}\nlet Languages = 1;";
    let found = rust().find(src, &query(Some("Language"), None, None, None)).unwrap();
    let kinds: Vec<&str> = found.iter().map(|m| m.kind.as_str()).collect();
    assert_eq!(
        kinds,
        ["identifier", "type_identifier", "type_identifier", "type_identifier"],
        "use path, trait name, impl target, dyn type; not `Languages`"
    );
    assert_eq!(found[1].symbol.as_ref().unwrap().kind, SymbolKind::Trait);
    assert!(found[0].symbol.is_none() && found[2].symbol.is_none());
    let roles: Vec<Role> = found.iter().map(|m| m.role).collect();
    assert_eq!(roles, [Role::Import, Role::Declaration, Role::Use, Role::Use]);
}

#[test]
fn roles_see_through_grouped_and_extern_imports() {
    let src = "use a::{b, Language as L};
extern crate Language;
mod m { pub use x::Language; }
fn f() { Language::new(); }";
    let found = rust().find(src, &query(Some("Language"), None, None, None)).unwrap();
    let roles: Vec<Role> = found.iter().map(|m| m.role).collect();
    assert_eq!(roles, [Role::Import, Role::Import, Role::Import, Role::Use]);
    let structural = rust().find(src, &query(None, Some("use_declaration"), None, None)).unwrap();
    assert!(structural.iter().all(|m| m.role == Role::Import));
}

#[test]
fn kind_only() {
    let found = rust().find(SRC, &query(None, Some("struct_item"), None, None)).unwrap();
    assert_eq!(found.len(), 1);
    assert_eq!(found[0].text, "struct S;");
}

#[test]
fn bad_kind_is_an_error() {
    let err = rust().find(SRC, &query(None, Some("nope"), None, None)).unwrap_err();
    assert!(matches!(err, SearchError::Kind(_)));
}

#[test]
fn structural_matches_are_annotated_and_symbolic_queries_filter() {
    let found = rust().find(DECLS, &query(None, Some("function_item"), None, None)).unwrap();
    assert_eq!(found[0].symbol.as_ref().unwrap().name, "free");

    let methods = rust().find(DECLS, &query(None, None, Some(SymbolKind::Method), None)).unwrap();
    let names: Vec<&str> = methods.iter().map(|m| m.symbol.as_ref().unwrap().name.as_str()).collect();
    assert_eq!(names, ["new", "area", "name"]);

    let both = rust()
        .find(DECLS, &query(None, Some("function_item"), Some(SymbolKind::Method), None))
        .unwrap();
    let names: Vec<&str> = both.iter().map(|m| m.symbol.as_ref().unwrap().name.as_str()).collect();
    assert_eq!(names, ["new", "name"], "bodiless `area` is a function_signature_item");

    let named = rust().find(DECLS, &query(None, None, None, Some("Point"))).unwrap();
    assert_eq!(named.len(), 1);
    assert_eq!(named[0].symbol.as_ref().unwrap().kind, SymbolKind::Struct);
}

#[test]
fn finds_interfaces() {
    let src = "interface A { x: number }\nfunction f() {}\ninterface B {}\n";
    let found = typescript().find(src, &query(Some("interface $N { $$$ }"), None, None, None)).unwrap();
    assert_eq!(found.len(), 2);
}

#[test]
fn imports_are_import_statements_and_re_exports_not_exported_declarations() {
    let src = "import { Engine } from './b';\nexport { Engine as E } from './b';\nexport const Engine = 1;\nnew Engine();\n";
    let found = typescript().find(src, &query(Some("Engine"), None, None, None)).unwrap();
    let roles: Vec<Role> = found.iter().map(|m| m.role).collect();
    assert_eq!(roles, [Role::Import, Role::Import, Role::Declaration, Role::Use]);
}

#[test]
fn a_pattern_that_does_not_parse_is_an_error_and_a_bare_name_is_always_accepted() {
    let bad = query(Some(""), None, None, None);
    assert!(matches!(rust().accepts(&bad), Err(SearchError::Pattern(_))));
    assert!(matches!(rust().find(SRC, &bad), Err(SearchError::Pattern(_))));
    assert!(rust().accepts(&query(Some("anything"), None, None, None)).is_ok());
    match rust().accepts(&query(None, Some("nope"), None, None)) {
        Err(SearchError::Kind(m)) => assert_eq!(m, "Kind `nope` is invalid."),
        other => panic!("unexpected {other:?}"),
    }
}

#[test]
fn a_pattern_finds_its_hits_in_order_with_their_text() {
    let found = rust().find(SRC, &query(Some("fn $NAME($$$ARGS) {}"), None, None, None)).unwrap();
    let texts: Vec<&str> = found.iter().map(|m| m.text.as_str()).collect();
    assert_eq!(texts, ["fn alpha() {}", "fn beta(x: u8, y: u8) {}"]);
    assert!(found.iter().all(|m| m.role == Role::Declaration && m.symbol.is_some()));
}

#[test]
fn imports_are_outermost_paths_with_nested_entries_flagged() {
    let src = "use crate::a::b::C;\nuse super::x::{Y, z::W, q::*, r::{self, S}};\nfn f() { crate::a::g::<u8>(); let t: crate::a::T<u8> = crate::a::m!(); }";
    let got: Vec<(String, bool, bool)> = rust()
        .imports(src)
        .unwrap()
        .into_iter()
        .map(|r| (r.path.scoped(), r.is_standalone(), r.declares))
        .collect();
    let expected = [
        ("crate::a::b::C", true, true),
        ("super::x", true, true),
        ("super::x::Y", false, true),
        ("super::x::z::W", false, true),
        ("super::x::q", false, true),
        ("super::x::r", false, true),
        ("super::x::r::S", false, true),
        ("crate::a::g", true, false),
        ("crate::a::T", true, false),
        ("crate::a::m", true, false),
    ];
    let got: Vec<(&str, bool, bool)> = got.iter().map(|(p, s, d)| (p.as_str(), *s, *d)).collect();
    assert_eq!(got, expected);
}

#[test]
fn group_context_describes_each_entry() {
    let src = "pub use crate::u::{a::B as C, d::*, e::{self, F}, g};";
    let imports = rust().imports(src).unwrap();
    let entry = |path: &str| imports.iter().find(|i| i.path.scoped() == path).unwrap().clone();
    let item = |r: &vvv::rust::facts::ImportRef| {
        let g = r.group.as_ref().unwrap();
        src[g.item.start..g.item.end].to_owned()
    };

    let b = entry("crate::u::a::B");
    let g = b.group.as_ref().unwrap();
    assert_eq!(g.prefix.scoped(), "crate::u");
    assert_eq!(item(&b), "a::B as C");
    assert_eq!(&src[g.list.start..g.list.end], "{a::B as C, d::*, e::{self, F}, g}");
    assert_eq!(g.items, 4);
    assert_eq!(&src[g.statement.start..g.statement.end], src);
    assert!(g.top_level);

    let f = entry("crate::u::e::F");
    let g = f.group.as_ref().unwrap();
    assert_eq!(g.prefix.scoped(), "crate::u::e");
    assert_eq!(item(&f), "F");
    assert_eq!(g.items, 2);
    assert!(!g.top_level);

    assert_eq!(item(&entry("crate::u::e")), "e::{self, F}");
    assert_eq!(item(&entry("crate::u::d")), "d::*");
    assert!(entry("crate::u::d").glob && !entry("crate::u::g").glob);
    assert_eq!(item(&entry("crate::u::g")), "g");

    let top = rust().imports("use crate::a::b::*;\nuse crate::a::c;").unwrap();
    assert!(top[0].glob && !top[1].glob);
}

#[test]
fn aliases_are_the_binding() {
    let imports = rust()
        .imports("use crate::a::B as C;\nuse crate::u::{d::E as F, g, H as I};\nuse crate::h::*;\nuse J as K;")
        .unwrap();
    let bound: Vec<(String, Option<&str>)> = imports.iter().map(|i| (i.path.scoped(), i.binding())).collect();
    assert_eq!(
        bound,
        [
            ("crate::a::B".to_owned(), Some("C")),
            ("crate::u".to_owned(), Some("u")),
            ("crate::u::d::E".to_owned(), Some("F")),
            ("crate::u::g".to_owned(), Some("g")),
            ("crate::u::H".to_owned(), Some("I")),
            ("crate::h".to_owned(), None),
            ("J".to_owned(), Some("K")),
        ]
    );
}

#[test]
fn imports_cover_static_dynamic_and_reexports() {
    let src = "import { a } from './a/b';\nimport type T from '../t';\nexport * from './e';\nconst m = import('./dyn');\nconst r = require('./req');\nimport 'side';";
    let got: Vec<String> = typescript().imports(src).unwrap().into_iter().map(|i| i.path.spelled()).collect();
    assert_eq!(got, ["./a/b", "../t", "./e", "./dyn", "./req", "side"]);
}

#[test]
fn a_pub_use_is_a_reexport_and_an_export_from_is_one_too() {
    let rs = rust().imports("pub use crate::a::B;\nuse crate::c::D;").unwrap();
    let flags: Vec<bool> = rs.iter().map(|i| i.reexport).collect();
    assert_eq!(flags, [true, false]);
    let ts = typescript().imports("export { x } from './x';\nimport { y } from './y';").unwrap();
    let flags: Vec<bool> = ts.iter().map(|i| i.reexport).collect();
    assert_eq!(flags, [true, false]);
}

#[test]
fn facts_are_the_union_of_the_single_questions() {
    let lang = rust();
    let src = format!("{DECLS}\nuse crate::a::b;\nfn g() {{ let p = Point::new(); }}\n");
    let facts = lang.facts(&src).unwrap();
    assert_eq!(facts.symbols, lang.symbols(&src));
    assert_eq!(facts.imports, lang.imports(&src).unwrap());
    assert_eq!(facts.highlights, lang.highlights(&src));
    for name in ["Point", "new", "x", "free", "b"] {
        let from_facts: Vec<vvv::engine::Span> = facts.tokens_named(name).into_iter().map(|(s, _)| s).collect();
        let from_refs: Vec<vvv::engine::Span> = lang.references(&src, name).into_iter().map(|r| r.span).collect();
        assert_eq!(from_facts, from_refs, "{name}");
    }
}

#[test]
fn a_specifier_reads_back_by_its_leading_dots() {
    let p = ModulePath::parse_posix("../../a/b").unwrap();
    assert_eq!(p.head, Head::Up(2));
    assert_eq!(p.segments, ["a", "b"]);
    let here = ModulePath::parse_posix("./x").unwrap();
    assert_eq!(here.head, Head::Here);
    assert_eq!(here.segments, ["x"]);
    let named = ModulePath::parse_posix("react/jsx").unwrap();
    assert_eq!(named.head, Head::Named);
    assert_eq!(named.segments, ["react", "jsx"]);
}

#[test]
fn languages_carry_their_parts() {
    let rust_lang = AstGrepLanguage::rust();
    assert_eq!(rust_lang.id, "rust");
    assert_eq!(rust_lang.extensions, ["rs"]);
    assert_eq!(rust_lang.searcher().glob_marker(), Some("::*"));
    assert_eq!(rust_lang.searcher().paths(), PathSyntax::Scoped);
    let ts = AstGrepLanguage::typescript();
    assert_eq!(ts.extensions, ["ts", "mts", "cts"]);
    assert_eq!(ts.searcher().paths(), PathSyntax::Posix);
    assert_eq!(ts.searcher().glob_marker(), None);
    let tsx_lang = AstGrepLanguage::tsx();
    assert_eq!(tsx_lang.id, "tsx");
    assert_eq!(tsx_lang.searcher().symbols("function App() { return <div/>; }")[0].name, "App");
}

#[test]
fn pattern_with_captures() {
    let found = rust().find(SRC, &query(Some("fn $NAME($$$ARGS) {}"), None, None, None)).unwrap();
    let names: Vec<&str> = found
        .iter()
        .map(|m| match m.capture("NAME") {
            Some(CaptureValue::Single(c)) => c.text.as_str(),
            other => panic!("unexpected capture {other:?}"),
        })
        .collect();
    assert_eq!(names, ["alpha", "beta"]);
    assert!(matches!(
        found[1].capture("ARGS"),
        Some(CaptureValue::Multiple(args)) if args.len() == 3 // `x: u8`, `,`, `y: u8`
    ));
}

#[test]
fn captures_carry_their_range_and_only_patterns_capture() {
    let found = rust().find(SRC, &query(Some("fn $NAME($$$ARGS) {}"), None, None, None)).unwrap();
    match found[0].capture("NAME") {
        Some(CaptureValue::Single(c)) => assert_eq!((c.span.start, c.span.end), (3, 8)),
        other => panic!("unexpected capture {other:?}"),
    }
    assert!(found[0].capture("OTHER").is_none());
    let kinds = rust().find(SRC, &query(None, Some("struct_item"), None, None)).unwrap();
    assert!(kinds.iter().all(|m| m.captures.is_empty()));
}

#[test]
fn a_pattern_beside_a_kind_keeps_the_hits_of_that_kind() {
    let q = |kind: &str| query(Some("fn $NAME($$$ARGS) {}"), Some(kind), None, None);
    let found = rust().find(SRC, &q("function_item")).unwrap();
    assert_eq!(found.iter().map(|m| m.text.as_str()).collect::<Vec<_>>(), ["fn alpha() {}", "fn beta(x: u8, y: u8) {}"]);
    assert!(matches!(found[1].capture("NAME"), Some(CaptureValue::Single(c)) if c.text == "beta"));
    assert!(rust().find(SRC, &q("struct_item")).unwrap().is_empty());
    assert!(matches!(rust().find(SRC, &q("nope")), Err(SearchError::Kind(_))));
}

#[test]
fn a_parse_is_kept_for_the_surgery_only_when_its_facts_fit_the_text() {
    let src = "pub mod a;\nuse crate::b::C;\n";
    let facts = rust().facts(src).unwrap();
    let path = vec!["src".to_owned(), "lib.rs".to_owned()];
    let kept = vvv::rust::facts::Parsed::fitting(path.clone(), src.to_owned(), facts.clone()).unwrap();
    assert_eq!(kept.facts, facts);
    let mut wrong = facts.clone();
    let module = wrong.symbols.iter_mut().find(|s| s.kind == SymbolKind::Module).unwrap();
    module.name = "b".into();
    assert!(vvv::rust::facts::Parsed::fitting(path.clone(), src.to_owned(), wrong).is_none(), "the name is not the text's");
    let mut outside = facts;
    outside.imports[0].span.end = 400;
    assert!(vvv::rust::facts::Parsed::fitting(path, src.to_owned(), outside).is_none(), "an import past the end");
}
