use vvv::rust::layout::{Address, Dependency, Project, ResolveError, RustLayout};
use vvv::rust::surgery::RustSurgery;
use vvv::typescript::{Head, ModulePath};

fn p(s: &str) -> Vec<String> {
    s.split('/').filter(|x| !x.is_empty()).map(String::from).collect()
}

/// Workspace-relative paths and their contents; the manifests among them
/// declare the packages, in path order.
fn project(files: &[(&str, &str)]) -> Project {
    let mut sorted: Vec<(Vec<String>, &str)> = files.iter().map(|(f, t)| (p(f), *t)).collect();
    sorted.sort();
    let packages = sorted
        .iter()
        .filter(|(f, _)| f.last().map(String::as_str) == Some("Cargo.toml"))
        .filter_map(|(f, t)| RustLayout::package(f, t))
        .collect();
    Project {
        packages,
        files: sorted.into_iter().map(|(f, _)| f).collect(),
    }
}

fn resolver() -> Project {
    project(&[
        ("Cargo.toml", "[package]\nname = \"fixture\"\n"),
        ("src/lib.rs", "pub mod foo;\npub mod baz;\n"),
        ("src/foo.rs", "pub mod bar;\nmod other;\n"),
        ("src/foo/bar.rs", "use super::other::X;\n"),
        ("src/foo/other.rs", "pub struct X;\n"),
        ("src/baz/mod.rs", "// baz\n"),
        ("src/bin/tool.rs", ""),
    ])
}

/// A Cargo workspace: `core` is used by `app` under a renamed dependency,
/// `serde` is external, the root manifest declares no package.
fn multi_crate() -> Project {
    project(&[
        ("Cargo.toml", "[workspace]\nmembers = [\"crates/*\"]\n"),
        (
            "crates/core/Cargo.toml",
            "[package]\nname = \"fff-search\"\n\n[lib]\npath = \"src/lib.rs\"\n",
        ),
        ("crates/core/src/lib.rs", "pub mod grep;\n"),
        ("crates/core/src/grep.rs", "pub struct GrepMatch;\n"),
        (
            "crates/app/Cargo.toml",
            "[package]\nname = \"fff-app\"\n\n[dependencies]\nfff = { package = \"fff-search\", path = \"../core\" }\nserde = \"1\"\n",
        ),
        ("crates/app/src/lib.rs", "use fff::grep::GrepMatch;\n"),
    ])
}

fn address(package: &str, path: &[&str]) -> Address {
    Address {
        package: package.to_owned(),
        path: path.iter().map(|s| s.to_string()).collect(),
    }
}

/// `crate::a::b` in the fixture crate.
fn addr(s: &str) -> Address {
    let rest = s.strip_prefix("crate").unwrap_or(s);
    Address {
        package: "fixture".to_owned(),
        path: rest.split("::").filter(|seg| !seg.is_empty()).map(String::from).collect(),
    }
}

fn resolve(r: &Project, from: &str, import: &str) -> Option<Address> {
    RustLayout::resolve(r, &p(from), &ModulePath::parse_scoped(import).unwrap())
}

fn render(r: &Project, from: &str, target: &Address, original: &str) -> String {
    RustSurgery::render(r, &p(from), target, &ModulePath::parse_scoped(original).unwrap()).scoped()
}

#[test]
fn crates_are_addressed_by_the_name_paths_use() {
    let r = multi_crate();
    assert_eq!(
        RustLayout::address(&r, &p("crates/core/src/grep.rs")).unwrap(),
        address("fff_search", &["grep"])
    );
    assert_eq!(
        RustLayout::address(&r, &p("crates/app/src/lib.rs")).unwrap(),
        address("fff_app", &[])
    );
    assert!(
        RustLayout::address(&r, &p("Cargo.toml")).is_err(),
        "no package at the root"
    );
}

#[test]
fn paths_into_other_crates_resolve_through_the_dependency_name() {
    let r = multi_crate();
    let app = "crates/app/src/lib.rs";
    assert_eq!(
        resolve(&r, app, "fff::grep::GrepMatch"),
        Some(address("fff_search", &["grep", "GrepMatch"])),
        "renamed workspace dependency"
    );
    assert_eq!(
        resolve(&r, app, "serde::Serialize"),
        Some(address("serde", &["Serialize"])),
        "external dependency, by its own name"
    );
    assert_eq!(resolve(&r, app, "tokio::spawn"), None, "not a dependency");
    assert_eq!(
        resolve(&r, app, "std::collections::BTreeMap"),
        Some(address("std", &["collections", "BTreeMap"])),
        "the standard library needs no manifest entry"
    );
    assert_eq!(
        resolve(&r, app, "core::fmt::Display"),
        Some(address("core", &["fmt", "Display"]))
    );
    assert_eq!(
        resolve(&r, "crates/core/src/grep.rs", "crate::grep::GrepMatch"),
        Some(address("fff_search", &["grep", "GrepMatch"]))
    );
}

#[test]
fn cross_crate_paths_render_with_the_dependency_name() {
    let r = multi_crate();
    let target = address("fff_search", &["scan", "GrepMatch"]);
    assert_eq!(
        render(&r, "crates/app/src/lib.rs", &target, "fff::grep::GrepMatch"),
        "fff::scan::GrepMatch"
    );
    assert_eq!(
        render(&r, "crates/core/src/lib.rs", &target, "crate::grep::GrepMatch"),
        "crate::scan::GrepMatch"
    );
}

#[test]
fn addresses_follow_cargo_layout() {
    let r = resolver();
    let address_of = |s: &str| RustLayout::address(&r, &p(s));
    assert_eq!(address_of("src/lib.rs").unwrap(), addr("crate"));
    assert_eq!(address_of("src/foo.rs").unwrap(), addr("crate::foo"));
    assert_eq!(address_of("src/foo/bar.rs").unwrap(), addr("crate::foo::bar"));
    assert_eq!(address_of("src/baz/mod.rs").unwrap(), addr("crate::baz"));
    assert_eq!(address_of("src/new/dir/x.rs").unwrap(), addr("crate::new::dir::x"));
    assert_eq!(address_of("src/foo").unwrap(), addr("crate::foo"), "a directory is its module");
    assert_eq!(address_of("src/new/dir").unwrap(), addr("crate::new::dir"));
    assert!(address_of("src").is_err(), "the crate root dir is not a module");
    assert!(address_of("src/bin/tool.rs").is_err());
    assert!(address_of("README.md").is_err());
}

#[test]
fn resolves_crate_self_and_super() {
    let r = resolver();
    let bar = "src/foo/bar.rs";
    assert_eq!(resolve(&r, bar, "crate::a::B"), Some(addr("crate::a::B")));
    assert_eq!(resolve(&r, bar, "self::Y"), Some(addr("crate::foo::bar::Y")));
    assert_eq!(resolve(&r, bar, "super::other::X"), Some(addr("crate::foo::other::X")));
    assert_eq!(resolve(&r, bar, "super::super::baz"), Some(addr("crate::baz")));
    assert_eq!(resolve(&r, bar, "super::super::super::x"), None);
    assert_eq!(resolve(&r, bar, "tokio::fmt"), None, "an unknown crate");
    assert_eq!(
        resolve(&r, bar, "std::fmt"),
        Some(address("std", &["fmt"])),
        "the standard library"
    );
    // child-module paths: `bar::X` in foo.rs is `crate::foo::bar::X`
    assert_eq!(resolve(&r, "src/foo.rs", "bar::X"), Some(addr("crate::foo::bar::X")));
    assert_eq!(resolve(&r, "src/foo.rs", "nope::X"), None, "no such child file");
    assert_eq!(resolve(&r, "src/foo.rs", "self::bar"), Some(addr("crate::foo::bar")));
}

#[test]
fn render_keeps_relative_style_when_still_valid() {
    let r = resolver();
    let bar = "src/foo/bar.rs";
    assert_eq!(render(&r, bar, &addr("crate::foo::other::X"), "super::other::X"), "super::other::X");
    assert_eq!(render(&r, bar, &addr("crate::baz::X"), "super::other::X"), "crate::baz::X");
    assert_eq!(render(&r, bar, &addr("crate::foo::bar::Y"), "self::Y"), "self::Y");
    assert_eq!(render(&r, bar, &addr("crate::q::Y"), "crate::z::Y"), "crate::q::Y");
    // child-module style survives a rename within the same parent, not a move out
    let foo = "src/foo.rs";
    assert_eq!(render(&r, foo, &addr("crate::foo::qux::X"), "bar::X"), "qux::X");
    assert_eq!(render(&r, foo, &addr("crate::baz::bar::X"), "bar::X"), "crate::baz::bar::X");
}

#[test]
fn manifests_name_crates_as_paths_do() {
    let core = RustLayout::package(
        &p("crates/core/Cargo.toml"),
        "[package]\nname = \"fff-search\"\n\n[lib]\npath = \"src/lib.rs\"\n",
    )
    .unwrap();
    assert_eq!(core.id, "fff_search");
    assert_eq!(core.name, "fff-search");
    assert_eq!(core.root, p("crates/core"));
    let lib = RustLayout::package(&p("Cargo.toml"), "[package]\nname = \"a-b\"\n[lib]\nname = \"ab\"\n").unwrap();
    assert_eq!(lib.id, "ab", "the lib name wins");
    assert_eq!(lib.root, Vec::<String>::new());
    assert!(RustLayout::package(&p("Cargo.toml"), "[workspace]\n").is_none());
    assert!(RustLayout::package(&p("Cargo.toml"), "not = toml = at all").is_none());
}

#[test]
fn dependencies_come_sorted_one_per_name() {
    let text = "[package]\nname = \"app\"\n\n[dependencies]\nzeta = \"1\"\nfoo-bar = \"1\"\n\n[dev-dependencies]\nfoo_bar = { package = \"other\" }\nalpha = \"1\"\n\n[target.'cfg(unix)'.dependencies]\nlibc = \"0.2\"\n";
    let app = RustLayout::package(&p("app/Cargo.toml"), text).unwrap();
    let got: Vec<(String, String)> = app
        .dependencies
        .iter()
        .map(|d: &Dependency| (d.used_as.clone(), d.package.clone()))
        .collect();
    assert_eq!(
        got,
        vec![
            ("alpha".to_owned(), "alpha".to_owned()),
            ("foo_bar".to_owned(), "foo-bar".to_owned()),
            ("libc".to_owned(), "libc".to_owned()),
            ("zeta".to_owned(), "zeta".to_owned()),
        ],
        "the first of two keys used under one name stays"
    );
}

#[test]
fn a_rendered_path_resolves_back() {
    let r = resolver();
    let bar = "src/foo/bar.rs";
    for (target, original) in [
        (addr("crate::foo::other::X"), "super::other::X"),
        (addr("crate::baz::X"), "super::other::X"),
        (addr("crate::foo::bar::Y"), "self::Y"),
        (addr("crate::q::Y"), "crate::z::Y"),
    ] {
        let path = RustSurgery::render(&r, &p(bar), &target, &ModulePath::parse_scoped(original).unwrap());
        assert_eq!(RustLayout::resolve(&r, &p(bar), &path), Some(target));
    }
    let m = multi_crate();
    let target = address("fff_search", &["scan", "GrepMatch"]);
    let path = RustSurgery::render(&m, &p("crates/app/src/lib.rs"), &target, &ModulePath::parse_scoped("fff::grep::GrepMatch").unwrap());
    assert_eq!(RustLayout::resolve(&m, &p("crates/app/src/lib.rs"), &path), Some(target));
}

#[test]
fn paths_are_read_and_spelled_with_double_colons() {
    let parse = |s: &str| ModulePath::parse_scoped(s).unwrap();
    assert_eq!(parse("super::super::x").head, Head::Up(2));
    assert_eq!(parse("super::super::x").segments, vec!["x".to_owned()]);
    assert_eq!(parse("::std::fmt").head, Head::Root);
    assert_eq!(parse("::std::fmt").scoped(), "::std::fmt");
    assert_eq!(parse("Self::new").head, Head::SelfType);
    assert_eq!(parse("a::b").head, Head::Named);
    assert_eq!(parse("crate").scoped(), "crate");
    assert_eq!(parse("self::a").scoped(), "self::a");
    let many = vec!["super"; 256].join("::");
    assert!(ModulePath::parse_scoped(&many).is_none(), "more `super` than a head holds");
}

#[test]
fn a_move_into_a_missing_parent_names_its_candidates() {
    let r = resolver();
    let err = RustLayout::move_sites(&r, &p("src/foo/bar.rs"), &p("src/nope/bar.rs")).unwrap_err();
    match err {
        ResolveError::NoParentFile { module, candidates, declaration } => {
            assert_eq!(module, "crate::nope");
            assert_eq!(candidates, vec![p("src/nope.rs"), p("src/nope/mod.rs")]);
            assert_eq!(declaration, "mod bar;");
        },
        other => panic!("{other:?}"),
    }
    assert!(matches!(
        RustLayout::move_sites(&r, &p("src/lib.rs"), &p("src/x.rs")),
        Err(ResolveError::Root(_))
    ));
    let sites = RustLayout::move_sites(&r, &p("src/foo/bar.rs"), &p("src/baz/bar.rs")).unwrap();
    assert_eq!(sites.old_parent, p("src/foo.rs"));
    assert_eq!(sites.new_parent, p("src/baz/mod.rs"));
    assert_eq!(
        RustLayout::touched_by_move(&r, &p("src/foo/bar.rs"), &p("src/foo/qux.rs")).unwrap(),
        vec![p("src/foo.rs")]
    );
}
