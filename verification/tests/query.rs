use vvv::query::{Filter, QueryBar, QueryParseError, SymbolKind};

fn bar(text: &str) -> QueryBar {
    let mut q = QueryBar::default();
    for c in text.chars() {
        q.push(c);
    }
    q
}

#[test]
fn bare_word_is_a_pattern() {
    let q = bar("Language").parse().unwrap();
    assert_eq!(q.pattern.as_deref(), Some("Language"));
    assert_eq!(q.kind, None);
    assert_eq!(q.symbol, None);
    assert_eq!(q.name, None);
    assert_eq!(q.language, None);
}

#[test]
fn filters_come_out_of_the_pattern() {
    let q = bar("symbol:method name:new lang:rust").parse().unwrap();
    assert_eq!(q.symbol, Some(SymbolKind::Method));
    assert_eq!(q.name.as_deref(), Some("new"));
    assert_eq!(q.language.as_deref(), Some("rust"));
    assert_eq!(q.pattern, None);
}

#[test]
fn pattern_and_filters_mix() {
    let q = bar("fn $N($$$) { $$$ } k:function_item s:method").parse().unwrap();
    assert_eq!(q.pattern.as_deref(), Some("fn $N($$$) { $$$ }"));
    assert_eq!(q.kind.as_deref(), Some("function_item"));
    assert_eq!(q.symbol, Some(SymbolKind::Method));
}

#[test]
fn empty_and_bad_filters_are_errors() {
    assert!(matches!(bar("").parse(), Err(QueryParseError::Query(_))));
    assert!(matches!(bar("s:nope").parse(), Err(QueryParseError::Filter(_))));
}

#[test]
fn set_filter_edits_the_line_in_place() {
    let mut q = bar("Foo s:struct lang:rust");
    q.set_filter(Filter::Symbol, Some("trait"));
    assert_eq!(q.text(), "Foo lang:rust symbol:trait ");
    assert_eq!(q.filter(Filter::Symbol), Some("trait"));
    q.set_filter(Filter::Lang, None);
    assert_eq!(q.text(), "Foo symbol:trait ");
    q.set_filter(Filter::Symbol, None);
    assert_eq!(q.text(), "Foo ");
}

#[test]
fn a_bad_symbol_kind_is_named_in_the_error() {
    match bar("Foo s:nope").parse() {
        Err(e) => assert_eq!(e.message(), "unknown symbol kind `nope`"),
        Ok(q) => panic!("{q:?}"),
    }
    match bar("   ").parse() {
        Err(e) => assert_eq!(e.message(), "type a name, a pattern or a filter"),
        Ok(q) => panic!("{q:?}"),
    }
}

#[test]
fn the_last_filter_word_wins_and_the_first_is_read() {
    let q = bar("lang:rust lang:typescript Foo").parse().unwrap();
    assert_eq!(q.language.as_deref(), Some("typescript"));
    assert_eq!(q.pattern.as_deref(), Some("Foo"));
    assert_eq!(bar("lang:rust lang:typescript").filter(Filter::Lang), Some("rust"));
}

#[test]
fn short_and_long_keys_name_the_same_filter() {
    assert_eq!(Filter::Symbol.keys(), ["symbol", "s"]);
    assert_eq!(Filter::Name.keys(), ["name", "n"]);
    assert_eq!(Filter::Kind.keys(), ["kind", "k"]);
    assert_eq!(Filter::Lang.keys(), ["lang", "l"]);
    assert_eq!(Filter::parse("n:foo"), Some((Filter::Name, "foo")));
    assert_eq!(Filter::parse("nope:foo"), None);
    assert_eq!(Filter::parse("foo"), None);
}

#[test]
fn setting_then_reading_a_filter_gives_the_value_back() {
    let mut q = bar("x  y s:enum");
    q.set_filter(Filter::Kind, Some("impl_item"));
    assert_eq!(q.filter(Filter::Kind), Some("impl_item"));
    assert_eq!(q.filter(Filter::Symbol), Some("enum"));
    q.set_filter(Filter::Kind, None);
    assert_eq!(q.filter(Filter::Kind), None);
    assert_eq!(q.text(), "x y s:enum ", "other filter words stay as written");
}

#[test]
fn push_then_pop_gives_the_line_back() {
    let mut q = bar("ab");
    q.push('c');
    q.pop();
    assert_eq!(q.text(), "ab");
    let mut empty = QueryBar::default();
    empty.pop();
    assert_eq!(empty.text(), "");
    assert!(bar(" \t").is_empty());
    assert!(!bar(" a ").is_empty());
    let mut c = bar("abc");
    c.clear();
    assert_eq!(c.text(), "");
}

#[test]
fn symbol_kinds_are_spelled_as_filters_spell_them() {
    assert_eq!(SymbolKind::all().len(), 16);
    assert_eq!(SymbolKind::TypeAlias.as_str(), "type_alias");
    assert_eq!(bar("s:type_alias").parse().unwrap().symbol, Some(SymbolKind::TypeAlias));
    assert_eq!(bar("s:impl").parse().unwrap().symbol, Some(SymbolKind::Impl));
}

#[test]
fn setting_a_filter_twice_is_setting_it_once_and_keeps_the_others() {
    let mut q = bar("Foo s:struct lang:rust k:impl_item");
    q.set_filter(Filter::Symbol, Some("trait"));
    let once = q.text().to_owned();
    q.set_filter(Filter::Symbol, Some("trait"));
    assert_eq!(q.text(), once);
    assert_eq!(q.filter(Filter::Lang), Some("rust"));
    assert_eq!(q.filter(Filter::Kind), Some("impl_item"));
}
