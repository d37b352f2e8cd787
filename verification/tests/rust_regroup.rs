use vvv::engine::Span;
use vvv::rust::facts::{Edit, Facts, ImportGroup, ImportRef, Parsed};
use vvv::rust::layout::{Address, Project, RustLayout};
use vvv::rust::surgery::RustSurgery;
use vvv::typescript::ModulePath;

// `regroup` on one statement at a time. The workspace is what a move of
// `crate::util::parse` to `crate::net::parse` sees before it happens.

const OLD: &[&str] = &["util", "parse"];
const NEW: &[&str] = &["net", "parse"];

fn p(s: &str) -> Vec<String> {
    s.split('/').filter(|x| !x.is_empty()).map(String::from).collect()
}

fn fixture() -> Project {
    let files: &[(&str, &str)] = &[
        ("Cargo.toml", "[package]\nname = \"fixture\"\n"),
        ("src/lib.rs", "pub mod util;\npub mod net;\n"),
        ("src/util.rs", "pub mod parse;\npub mod strings;\n"),
        ("src/util/parse.rs", ""),
        ("src/util/strings.rs", ""),
        ("src/net.rs", "pub mod client;\n"),
        ("src/net/client.rs", ""),
    ];
    let mut sorted: Vec<(Vec<String>, &str)> = files.iter().map(|(f, t)| (p(f), *t)).collect();
    sorted.sort();
    let packages = sorted
        .iter()
        .filter(|(f, _)| f.last().map(String::as_str) == Some("Cargo.toml"))
        .filter_map(|(f, t)| RustLayout::package(f, t))
        .collect();
    Project { packages, files: sorted.into_iter().map(|(f, _)| f).collect() }
}

/// One grouped entry as a parse reports it: the path node within the
/// entry, the entry itself, and the group around it.
struct Entry<'a> {
    prefix: &'a str,
    node: &'a str,
    item: &'a str,
    items: usize,
    top_level: bool,
    glob: bool,
}

fn parse(s: &str) -> ModulePath {
    ModulePath::parse_scoped(s).unwrap()
}

/// The statement starting at `start` and running to its `;`.
fn statement(src: &str, start: usize) -> Span {
    Span { start, end: start + src[start..].find(';').unwrap() + 1 }
}

fn import(src: &str, after: usize, e: &Entry, statement: Span) -> ImportRef {
    let item_start = after + src[after..].find(e.item).unwrap();
    let node_start = item_start + e.item.find(e.node).unwrap();
    let open = src[..item_start].rfind('{').unwrap();
    let close = item_start + src[item_start..].find('}').unwrap() + 1;
    ImportRef {
        span: Span { start: node_start, end: node_start + e.node.len() },
        path: parse(&format!("{}::{}", e.prefix, e.node)),
        group: Some(ImportGroup {
            prefix: parse(e.prefix),
            item: Span { start: item_start, end: item_start + e.item.len() },
            list: Span { start: open, end: close },
            items: e.items,
            statement,
            top_level: e.top_level,
        }),
        glob: e.glob,
        declares: true,
        reexport: false,
        alias: None,
    }
}

fn starts_with(a: &Address, prefix: &[&str]) -> bool {
    a.package == "fixture" && a.path.len() >= prefix.len() && a.path.iter().zip(prefix).all(|(x, y)| x == y)
}

/// Apply `regroup` to the entries whose resolved address is under OLD and
/// whose prefix is not, rebased onto NEW.
fn regroup(file: &str, src: &str, imports: Vec<ImportRef>) -> String {
    let fx = fixture();
    let from = p(file);
    let entries: Vec<(ImportRef, Address)> = imports
        .into_iter()
        .filter_map(|r| {
            let resolved = RustLayout::resolve(&fx, &from, &r.path)?;
            let prefix = &r.group.as_ref().unwrap().prefix;
            if RustLayout::resolve(&fx, &from, prefix).is_some_and(|a| starts_with(&a, OLD)) {
                return None;
            }
            if !starts_with(&resolved, OLD) {
                return None;
            }
            let mut path: Vec<String> = NEW.iter().map(|s| s.to_string()).collect();
            path.extend(resolved.path[OLD.len()..].iter().cloned());
            Some((r, Address { package: "fixture".to_owned(), path }))
        })
        .collect();
    let out = RustSurgery::regroup(&fx, &from, src, &entries);
    apply(src, out.edits)
}

/// The text with the edits made, the later ones first.
fn apply(src: &str, mut edits: Vec<Edit>) -> String {
    edits.sort_by_key(|e| (e.span.start, e.span.end));
    let mut out = src.to_owned();
    for e in edits.iter().rev() {
        out.replace_range(e.span.start..e.span.end, &e.replacement);
    }
    out
}

#[test]
fn entry_stays_in_group_when_prefix_still_covers_it() {
    let src = "use crate::{util::parse::parse_line, net::Client};\n";
    let st = statement(src, 0);
    let group = |node: &'static str| Entry { prefix: "crate", node, item: node, items: 2, top_level: true, glob: false };
    let imports = vec![import(src, 0, &group("util::parse::parse_line"), st), import(src, 0, &group("net::Client"), st)];
    assert_eq!(
        regroup("src/lib.rs", src, imports),
        "use crate::{net::parse::parse_line, net::Client};\n"
    );
}

#[test]
fn entry_leaves_group_into_its_own_statement() {
    let src = "use crate::util::{parse::Config, strings};\n";
    let st = statement(src, 0);
    let group = |node: &'static str| Entry { prefix: "crate::util", node, item: node, items: 2, top_level: true, glob: false };
    let imports = vec![import(src, 0, &group("parse::Config"), st), import(src, 0, &group("strings"), st)];
    assert_eq!(
        regroup("src/lib.rs", src, imports),
        "use crate::util::{strings};\nuse crate::net::parse::Config;\n"
    );
}

#[test]
fn alias_wildcard_and_nested_tails_are_kept() {
    let src = "use crate::util::{parse::Config as Cfg, strings};\n";
    let st = statement(src, 0);
    let imports = vec![
        import(src, 0, &Entry { prefix: "crate::util", node: "parse::Config", item: "parse::Config as Cfg", items: 2, top_level: true, glob: false }, st),
        import(src, 0, &Entry { prefix: "crate::util", node: "strings", item: "strings", items: 2, top_level: true, glob: false }, st),
    ];
    assert_eq!(
        regroup("src/lib.rs", src, imports),
        "use crate::util::{strings};\nuse crate::net::parse::Config as Cfg;\n"
    );

    let src = "use crate::util::{strings, parse::*};\n";
    let st = statement(src, 0);
    let imports = vec![
        import(src, 0, &Entry { prefix: "crate::util", node: "strings", item: "strings", items: 2, top_level: true, glob: false }, st),
        import(src, 0, &Entry { prefix: "crate::util", node: "parse", item: "parse::*", items: 2, top_level: true, glob: true }, st),
    ];
    assert_eq!(
        regroup("src/lib.rs", src, imports),
        "use crate::util::{strings};\nuse crate::net::parse::*;\n"
    );

    let src = "use crate::util::{strings, parse::{self, Config}};\n";
    let st = statement(src, 0);
    let inner = src.find("{self").unwrap();
    let imports = vec![
        import(src, 0, &Entry { prefix: "crate::util", node: "strings", item: "strings", items: 2, top_level: true, glob: false }, st),
        import(src, 0, &Entry { prefix: "crate::util", node: "parse", item: "parse::{self, Config}", items: 2, top_level: true, glob: false }, st),
        import(src, inner, &Entry { prefix: "crate::util::parse", node: "Config", item: "Config", items: 2, top_level: false, glob: false }, st),
    ];
    assert_eq!(
        regroup("src/lib.rs", src, imports),
        "use crate::util::{strings};\nuse crate::net::parse::{self, Config};\n"
    );
}

#[test]
fn whole_statement_is_replaced_when_every_entry_leaves() {
    let src = "    pub(crate) use crate::util::{parse::*, parse::Config};\n";
    let st = statement(src, 4);
    let imports = vec![
        import(src, 0, &Entry { prefix: "crate::util", node: "parse", item: "parse::*", items: 2, top_level: true, glob: true }, st),
        import(src, 0, &Entry { prefix: "crate::util", node: "parse::Config", item: "parse::Config", items: 2, top_level: true, glob: false }, st),
    ];
    assert_eq!(
        regroup("src/net.rs", src, imports),
        "    pub(crate) use crate::net::parse::*;\n    pub(crate) use crate::net::parse::Config;\n"
    );
}

#[test]
fn multi_line_groups_lose_whole_lines() {
    let src = "use crate::util::{\n    strings::trim,\n    parse::Config,\n    parse::parse_line,\n};\n";
    let st = statement(src, 0);
    let group = |node: &'static str| Entry { prefix: "crate::util", node, item: node, items: 3, top_level: true, glob: false };
    let imports = vec![
        import(src, 0, &group("strings::trim"), st),
        import(src, 0, &group("parse::Config"), st),
        import(src, 0, &group("parse::parse_line"), st),
    ];
    assert_eq!(
        regroup("src/net/client.rs", src, imports),
        "use crate::util::{\n    strings::trim,\n};\nuse crate::net::parse::Config;\nuse crate::net::parse::parse_line;\n"
    );
}

#[test]
fn indentation_and_visibility_follow_the_statement() {
    let src = "fn f() {\n    pub use crate::util::{parse::Config, strings};\n}\n";
    let st = statement(src, 13);
    let group = |node: &'static str| Entry { prefix: "crate::util", node, item: node, items: 2, top_level: true, glob: false };
    let imports = vec![import(src, 0, &group("parse::Config"), st), import(src, 0, &group("strings"), st)];
    assert_eq!(
        regroup("src/lib.rs", src, imports),
        "fn f() {\n    pub use crate::util::{strings};\n    pub use crate::net::parse::Config;\n}\n"
    );
}

#[test]
fn a_new_use_line_goes_after_the_last_one_or_the_header() {
    let src = "//! docs\n#![allow(x)]\n\nfn f() {}\n";
    let file = Parsed { path: p("src/lib.rs"), source: src.to_owned(), facts: Facts { symbols: vec![], imports: vec![], highlights: vec![], tokens: vec![] } };
    assert_eq!(RustSurgery::import_insertion(&file), 23, "after the docs, the attribute and the blank line");
    let src = "use a::b;\nuse c::d;\nfn f() {}\n";
    let used = |start: usize, end: usize| ImportRef {
        span: Span { start, end },
        path: parse("a::b"),
        group: None,
        glob: false,
        declares: true,
        reexport: false,
        alias: None,
    };
    let file = Parsed {
        path: p("src/lib.rs"),
        source: src.to_owned(),
        facts: Facts { symbols: vec![], imports: vec![used(4, 8), used(14, 18)], highlights: vec![], tokens: vec![] },
    };
    assert_eq!(RustSurgery::import_insertion(&file), 20, "after the line of the last `use`");
}
