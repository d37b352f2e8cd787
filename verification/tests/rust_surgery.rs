use vvv::engine::Span;
use vvv::query::SymbolKind;
use vvv::rust::facts::{Facts, Modifier, Parsed, ReachKind, SideEdit, Symbol};
use vvv::rust::layout::{Project, ResolveError, RustLayout};
use vvv::rust::surgery::RustSurgery;

fn p(s: &str) -> Vec<String> {
    s.split('/').filter(|x| !x.is_empty()).map(String::from).collect()
}

const FILES: &[(&str, &str)] = &[
    ("Cargo.toml", "[package]\nname = \"fixture\"\n"),
    ("src/lib.rs", "pub mod foo;\npub mod baz;\n"),
    ("src/foo.rs", "pub mod bar;\nmod other;\n"),
    ("src/foo/bar.rs", "use super::other::X;\n"),
    ("src/foo/other.rs", "pub struct X;\n"),
    ("src/baz/mod.rs", "// baz\n"),
    ("src/bin/tool.rs", ""),
];

fn rules() -> Project {
    let mut sorted: Vec<(Vec<String>, &str)> = FILES.iter().map(|(f, t)| (p(f), *t)).collect();
    sorted.sort();
    let packages = sorted
        .iter()
        .filter(|(f, _)| f.last().map(String::as_str) == Some("Cargo.toml"))
        .filter_map(|(f, t)| RustLayout::package(f, t))
        .collect();
    Project { packages, files: sorted.into_iter().map(|(f, _)| f).collect() }
}

/// The `mod` declarations a parse of `src` reports: one per line written
/// `[modifier ]mod name;`, the item without its line break.
fn mod_symbols(src: &str) -> Vec<Symbol> {
    let mut out = Vec::new();
    let mut offset = 0;
    for line in src.split_inclusive('\n') {
        let body = line.trim_end_matches('\n');
        if let Some(at) = body.find("mod ") {
            if body.ends_with(';') {
                let vis = body[..at].trim_end();
                let name = &body[at + 4..body.len() - 1];
                let name_start = offset + at + 4;
                let span = Span { start: offset, end: offset + body.len() };
                out.push(Symbol {
                    kind: SymbolKind::Module,
                    name: name.to_owned(),
                    name_span: Span { start: name_start, end: name_start + name.len() },
                    span,
                    extent: span,
                    visibility: if vis.is_empty() {
                        None
                    } else {
                        Some(Modifier { span: Span { start: offset, end: offset + vis.len() }, text: vis.to_owned() })
                    },
                });
            }
        }
        offset += line.len();
    }
    out
}

/// What the engine does for a move: ask the layout which files change,
/// hand them over with what their parse found, and let the surgery edit.
fn relocate_widening(from: &str, to: &str, widen_to: Option<ReachKind>) -> Result<Vec<SideEdit>, ResolveError> {
    let r = rules();
    let touched = RustLayout::touched_by_move(&r, &p(from), &p(to))?;
    let parsed: Vec<Parsed> = touched
        .into_iter()
        .map(|path| {
            let text = FILES.iter().find(|(f, _)| p(f) == path).map(|(_, t)| *t).unwrap_or("");
            Parsed {
                path,
                source: text.to_owned(),
                facts: Facts { symbols: mod_symbols(text), imports: Vec::new(), highlights: Vec::new(), tokens: Vec::new() },
            }
        })
        .collect();
    RustSurgery::relocate(&r, &p(from), &p(to), &parsed, widen_to)
}

fn relocate(from: &str, to: &str) -> Result<Vec<SideEdit>, ResolveError> {
    relocate_widening(from, to, None)
}

#[test]
fn relocate_moves_the_mod_declaration() {
    let edits = relocate("src/foo/bar.rs", "src/baz/bar.rs").unwrap();
    assert_eq!(edits.len(), 2);
    assert_eq!(edits[0].path, p("src/foo.rs"));
    assert_eq!(edits[0].edit.replacement, "");
    assert_eq!(edits[0].edit.span, Span { start: 0, end: 13 }, "`pub mod bar;\\n` removed");
    assert_eq!(edits[1].path, p("src/baz/mod.rs"));
    assert_eq!(edits[1].edit.replacement, "pub mod bar;\n");
}

#[test]
fn relocate_widens_the_mod_line_only_as_told() {
    let from = "src/foo/other.rs";
    let to = "src/baz/other.rs";
    // Nobody outside needs it: the line moves as written.
    let edits = relocate(from, to).unwrap();
    assert_eq!(edits[1].edit.replacement, "mod other;\n");
    // The engine found consumers elsewhere in the crate.
    let edits = relocate_widening(from, to, Some(ReachKind::Package)).unwrap();
    assert_eq!(edits[1].edit.replacement, "pub(crate) mod other;\n");
    // A `pub mod` moving keeps its modifier; widening replaces one that exists.
    let edits = relocate_widening("src/foo/bar.rs", "src/baz/bar.rs", Some(ReachKind::Parent)).unwrap();
    assert_eq!(edits[1].edit.replacement, "pub(super) mod bar;\n");
}

#[test]
fn widen_replaces_or_inserts_the_modifier() {
    let src = "pub(super) fn a() {}\nfn b() {}\npub fn c() {}\n";
    let function = |start: usize, end: usize, name: &str, vis: Option<(usize, usize)>| Symbol {
        kind: SymbolKind::Function,
        name: name.to_owned(),
        name_span: Span { start, end: start },
        span: Span { start, end },
        extent: Span { start, end },
        visibility: vis.map(|(s, e)| Modifier { span: Span { start: s, end: e }, text: src[s..e].to_owned() }),
    };
    let symbols = [
        function(0, 20, "a", Some((0, 10))),
        function(21, 30, "b", None),
        function(31, 44, "c", Some((31, 34))),
    ];
    let apply = |i: usize, to: ReachKind| RustSurgery::widen(&symbols[i], src, to).map(|e| (e.span, e.replacement));
    assert_eq!(
        apply(0, ReachKind::Package),
        Some((symbols[0].visibility.as_ref().unwrap().span, "pub(crate)".to_owned()))
    );
    assert_eq!(
        apply(1, ReachKind::Parent),
        Some((Span { start: symbols[1].span.start, end: symbols[1].span.start }, "pub(super) ".to_owned()))
    );
    assert_eq!(apply(2, ReachKind::Everyone), None, "never inferred");
}

#[test]
fn relocate_within_parent_renames_in_place() {
    let edits = relocate("src/foo/bar.rs", "src/foo/qux.rs").unwrap();
    assert_eq!(edits.len(), 1);
    assert_eq!(edits[0].edit.replacement, "qux");
}

#[test]
fn a_module_moves_as_file_plus_directory() {
    let r = rules();
    // Named by the file: the directory comes along, and vice versa.
    assert_eq!(
        RustLayout::companions(&r, &p("src/foo.rs"), &p("src/baz/foo.rs")),
        vec![(p("src/foo"), p("src/baz/foo"))]
    );
    assert_eq!(
        RustLayout::companions(&r, &p("src/foo"), &p("src/baz/foo")),
        vec![(p("src/foo.rs"), p("src/baz/foo.rs"))]
    );
    assert!(RustLayout::companions(&r, &p("src/foo/other.rs"), &p("src/x.rs")).is_empty());
    // Relocating the module named either way moves `mod foo;` into baz.
    let edits = relocate("src/foo", "src/baz/foo").unwrap();
    assert_eq!(edits[0].path, p("src/lib.rs"));
    assert_eq!(edits[1].path, p("src/baz/mod.rs"));
    assert_eq!(edits[1].edit.replacement, "pub mod foo;\n");
}

#[test]
fn relocate_refuses_what_it_cannot_do() {
    let err = |from: &str, to: &str| relocate(from, to).unwrap_err();
    assert!(matches!(err("src/lib.rs", "src/x.rs"), ResolveError::Root(_)));
    let missing = err("src/foo/bar.rs", "src/nope/bar.rs");
    assert!(matches!(
        &missing,
        ResolveError::NoParentFile { module, candidates, declaration }
            if module == "crate::nope" && candidates.len() == 2 && declaration == "mod bar;"
    ));
    assert_eq!(
        missing.message(),
        "no file declares module `crate::nope`; create src/nope.rs (or src/nope/mod.rs) first so `mod bar;` has a home"
    );
}

#[test]
fn a_moved_line_is_taken_out_once_and_put_after_the_last() {
    // Moving into a parent that already declares modules puts the line
    // after its last one.
    let edits = relocate("src/foo/other.rs", "src/other.rs").unwrap();
    assert_eq!(edits[0].path, p("src/foo.rs"));
    assert_eq!(edits[0].edit.span, Span { start: 13, end: 24 });
    assert_eq!(edits[1].path, p("src/lib.rs"));
    assert_eq!(edits[1].edit.span, Span { start: 25, end: 25 });
    assert_eq!(edits[1].edit.replacement, "\nmod other;");
}
