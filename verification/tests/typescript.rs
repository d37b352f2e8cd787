use vvv::text::Fit;
use vvv::typescript::{Head, LayoutError, ModulePath, TsLayout, TsSurgery};

fn p(s: &str) -> Vec<String> {
    s.split('/').filter(|x| !x.is_empty()).map(String::from).collect()
}

fn spec(head: Head, s: &str) -> ModulePath {
    ModulePath { head, segments: p(s) }
}

#[test]
fn normalize_collapses_dots_without_the_disk() {
    assert_eq!(TsLayout::normalize(&p("a/./b/../c")), p("a/c"));
    assert_eq!(TsLayout::normalize(&p("../../a")), p("a"), "nothing above the start");
    assert_eq!(TsLayout::normalize(&p("a/b/..")), p("a"));
    assert_eq!(TsLayout::normalize(&vec![]), Vec::<String>::new());
}

#[test]
fn the_longest_known_extension_wins() {
    assert_eq!(TsLayout::known_extension("x.ts"), Some("ts"));
    assert_eq!(TsLayout::known_extension("x.d.ts"), Some("d.ts"));
    assert_eq!(TsLayout::known_extension("x.tsx"), Some("tsx"));
    assert_eq!(TsLayout::known_extension("x.mjs"), Some("mjs"));
    assert_eq!(TsLayout::known_extension("x.rs"), None);
    assert_eq!(TsLayout::known_extension("ts"), None, "the dot is part of it");
    assert_eq!(TsLayout::known_extension("x"), None);
}

#[test]
fn relative_specifiers_go_up_then_down() {
    let r = TsLayout::relative(&p("src/a"), &p("src/b/c.ts"));
    assert_eq!(r, spec(Head::Up(1), "b/c.ts"));
    let here = TsLayout::relative(&p("src"), &p("src/x"));
    assert_eq!(here, spec(Head::Here, "x"));
    assert_eq!(here.spelled(), "./x");
    assert_eq!(spec(Head::Up(2), "a/b").spelled(), "../../a/b");
    assert_eq!(spec(Head::Up(1), "").spelled(), "..");
    assert_eq!(spec(Head::Here, "").spelled(), ".");
}

#[test]
fn addresses_need_a_known_extension_or_none() {
    assert_eq!(TsLayout::address(&p("src/a.ts")), Ok(p("src/a.ts")));
    assert_eq!(TsLayout::address(&p("src/dir")), Ok(p("src/dir")), "a directory");
    assert_eq!(TsLayout::address(&p("src/.hidden")), Ok(p("src/.hidden")), "a leading dot is no extension");
    assert_eq!(TsLayout::address(&p("src/a.rs")), Err(LayoutError::NotAddressable(p("src/a.rs"))));
}

#[test]
fn resolution_tries_extensions_then_index_files() {
    let files = vec![p("src/a.ts"), p("src/lib/index.tsx"), p("src/b.tsx"), p("src/c.ts")];
    let from = p("src/main.ts");
    assert_eq!(TsLayout::resolve(&files, &from, &spec(Head::Here, "a")), Some(p("src/a.ts")));
    assert_eq!(TsLayout::resolve(&files, &from, &spec(Head::Here, "lib")), Some(p("src/lib/index.tsx")));
    assert_eq!(TsLayout::resolve(&files, &from, &spec(Head::Here, "b.tsx")), Some(p("src/b.tsx")));
    assert_eq!(TsLayout::resolve(&files, &from, &spec(Head::Here, "c.js")), Some(p("src/c.ts")), "ESM style");
    assert_eq!(TsLayout::resolve(&files, &p("src/lib/index.tsx"), &spec(Head::Up(1), "a")), Some(p("src/a.ts")));
    assert_eq!(TsLayout::resolve(&files, &from, &spec(Head::Named, "react")), None, "bare specifiers are not files");
    assert_eq!(TsLayout::resolve(&files, &from, &spec(Head::Here, "missing")), None);
}

#[test]
fn rendered_specifiers_keep_the_original_style() {
    let original_js = spec(Head::Here, "old.js");
    let r = TsSurgery::render(&p("src/main.ts"), &p("src/net/parse.ts"), &original_js);
    assert_eq!(r.spelled(), "./net/parse.js", "the original's extension stays");
    let bare = spec(Head::Here, "old");
    let r = TsSurgery::render(&p("src/net/main.ts"), &p("src/util/parse.ts"), &bare);
    assert_eq!(r.spelled(), "../util/parse", "no extension when it had none");
    let r = TsSurgery::render(&p("src/main.ts"), &p("src/lib/index.ts"), &bare);
    assert_eq!(r.spelled(), "./lib", "an index file is its directory");
    let index = spec(Head::Here, "index");
    let r = TsSurgery::render(&p("src/main.ts"), &p("src/lib/index.ts"), &index);
    assert_eq!(r.spelled(), "./lib/index");
    assert_eq!(
        TsSurgery::import_statement(&p("src/main.ts"), &p("src/util/x.ts"), "X"),
        "import { X } from './util/x';"
    );
}

#[test]
fn fit_cuts_with_an_ellipsis() {
    assert_eq!(Fit("hello", 10).fitted(), "hello");
    assert_eq!(Fit("hello", 5).fitted(), "hello");
    assert_eq!(Fit("hello", 4).fitted(), "hel…");
    assert_eq!(Fit("héllo", 2).fitted(), "h…", "characters, not bytes");
    assert_eq!(Fit("x", 0).fitted(), "…");
}

/// A specifier as the resolver reads it: `.` and `..` lead, names follow.
fn parsed(s: &str) -> ModulePath {
    let parts: Vec<&str> = s.split('/').collect();
    let ups = parts.iter().take_while(|x| **x == "..").count();
    if parts[0] == "." {
        ModulePath { head: Head::Here, segments: parts[1..].iter().map(|x| x.to_string()).collect() }
    } else if ups > 0 {
        ModulePath { head: Head::Up(ups as u8), segments: parts[ups..].iter().map(|x| x.to_string()).collect() }
    } else {
        ModulePath { head: Head::Named, segments: parts.iter().map(|x| x.to_string()).collect() }
    }
}

fn project() -> Vec<Vec<String>> {
    vec![p("src/a/b.ts"), p("src/a/index.ts"), p("src/c.tsx"), p("src/main.ts")]
}

fn resolve(file: &str, specifier: &str) -> Option<Vec<String>> {
    TsLayout::resolve(&project(), &p(file), &parsed(specifier))
}

fn render(file: &str, target: &str, original: &str) -> String {
    TsSurgery::render(&p(file), &p(target), &parsed(original)).spelled()
}

#[test]
fn resolves_extensions_and_index() {
    let main = "src/main.ts";
    assert_eq!(resolve(main, "./a/b"), Some(p("src/a/b.ts")));
    assert_eq!(resolve(main, "./a/b.js"), Some(p("src/a/b.ts")));
    assert_eq!(resolve(main, "./a"), Some(p("src/a/index.ts")));
    assert_eq!(resolve(main, "./c"), Some(p("src/c.tsx")));
    assert_eq!(resolve("src/a/b.ts", "../c"), Some(p("src/c.tsx")));
    assert_eq!(resolve(main, "./nope"), None);
    assert_eq!(resolve(main, "react"), None);
}

#[test]
fn render_preserves_style() {
    let main = "src/main.ts";
    assert_eq!(render(main, "src/x/b.ts", "./a/b"), "./x/b");
    assert_eq!(render(main, "src/x/b.ts", "./a/b.js"), "./x/b.js");
    assert_eq!(render(main, "src/x/index.ts", "./a"), "./x");
    assert_eq!(render(main, "src/x/index.ts", "./a/index"), "./x/index");
    assert_eq!(render("src/deep/dir/f.ts", "src/c.tsx", "../../c"), "../../c");
    assert_eq!(render("lib/f.ts", "src/c.tsx", "./c"), "../src/c");
    assert_eq!(render("src/a/p/f.ts", "src/a/index.ts", "../a"), "..");
    assert_eq!(render("src/a/f.ts", "src/a/index.ts", "./index"), "./index");
}
