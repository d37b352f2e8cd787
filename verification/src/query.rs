//! The query bar: the CLI's search grammar plus filter words.
//!
//! `Language` is a name search, `fn $N($$$) { $$$ }` a structural pattern,
//! and `symbol:trait`, `name:Foo`, `kind:impl_item`, `lang:rust` may appear
//! anywhere in the line. Everything else is the pattern. The bar is the one
//! source of truth for the search; menus edit it rather than storing filters
//! elsewhere.

use vstd::prelude::*;

use crate::text::{
    is_word, lemma_filter_all, lemma_words_are_words, lemma_words_join, lemma_words_trailing_space,
    chars_of, first_index, is_whitespace, is_ws, join, lemma_first_index, pop_char, push_char,
    push_chars, push_str, spells, string_of, word_spans, words,
};

verus! {

/// A filter word's key, with the short form it also accepts.
#[derive(Debug, Clone, Copy, PartialEq, Eq, Structural)]
pub enum Filter {
    Symbol,
    Name,
    Kind,
    Lang,
}

/// The long and the short key of a filter.
pub open spec fn filter_keys(f: Filter) -> (Seq<char>, Seq<char>) {
    match f {
        Filter::Symbol => ("symbol"@, "s"@),
        Filter::Name => ("name"@, "n"@),
        Filter::Kind => ("kind"@, "k"@),
        Filter::Lang => ("lang"@, "l"@),
    }
}

/// The filter a key names, long or short.
pub open spec fn filter_of_key(key: Seq<char>) -> Option<Filter> {
    if key == "symbol"@ || key == "s"@ {
        Some(Filter::Symbol)
    } else if key == "name"@ || key == "n"@ {
        Some(Filter::Name)
    } else if key == "kind"@ || key == "k"@ {
        Some(Filter::Kind)
    } else if key == "lang"@ || key == "l"@ {
        Some(Filter::Lang)
    } else {
        None
    }
}

/// A word read as a filter: the key before its first `:` names a filter,
/// and the value is everything after that `:`.
pub open spec fn parse_word(w: Seq<char>) -> Option<(Filter, Seq<char>)> {
    match first_index(w, ':') {
        Some(c) => match filter_of_key(w.take(c)) {
            Some(f) => Some((f, w.skip(c + 1))),
            None => None,
        },
        None => None,
    }
}

/// The word is a filter word for `f`.
pub open spec fn is_filter(w: Seq<char>, f: Filter) -> bool {
    parse_word(w) matches Some((g, _)) && g == f
}

/// The value of the first word of `ws` that is a filter word for `f`.
pub open spec fn first_value(ws: Seq<Seq<char>>, f: Filter) -> Option<Seq<char>>
    decreases ws.len(),
{
    if ws.len() == 0 {
        None
    } else if is_filter(ws[0], f) {
        Some(parse_word(ws[0]).unwrap().1)
    } else {
        first_value(ws.drop_first(), f)
    }
}

/// The value of the last word of `ws` that is a filter word for `f`.
pub open spec fn last_value(ws: Seq<Seq<char>>, f: Filter) -> Option<Seq<char>>
    decreases ws.len(),
{
    if ws.len() == 0 {
        None
    } else if is_filter(ws.last(), f) {
        Some(parse_word(ws.last()).unwrap().1)
    } else {
        last_value(ws.drop_last(), f)
    }
}

/// The words that are not filter words for `f`.
pub open spec fn without_filter(ws: Seq<Seq<char>>, f: Filter) -> Seq<Seq<char>> {
    ws.filter(|w: Seq<char>| !is_filter(w, f))
}

/// The line `set_filter` leaves: the other words, then `key:value` with the
/// long key when there is a value, joined by spaces, with a trailing space
/// when anything is left.
pub open spec fn with_filter(text: Seq<char>, f: Filter, value: Option<Seq<char>>) -> Seq<char> {
    let kept = without_filter(words(text), f);
    let all = match value {
        Some(v) => kept.push(filter_keys(f).0 + seq![':'] + v),
        None => kept,
    };
    let line = join(all, seq![' ']);
    if line.len() > 0 {
        line.push(' ')
    } else {
        line
    }
}

/// The characters of an optional string slice.
pub open spec fn opt_chars(value: Option<&str>) -> Option<Seq<char>> {
    match value {
        Some(v) => Some(v@),
        None => None,
    }
}

/// Where the key of a filter word ends and its value starts, in
/// `chars[from..to]`: the index of the `:`.
fn filter_in(chars: &Vec<char>, from: usize, to: usize) -> (r: Option<(Filter, usize)>)
    requires
        from <= to <= chars@.len(),
    ensures
        match parse_word(chars@.subrange(from as int, to as int)) {
            Some((f, v)) => r matches Some((g, c)) && g == f && from <= c < to
                && v == chars@.subrange(c + 1, to as int),
            None => r is None,
        },
{
    let ghost w = chars@.subrange(from as int, to as int);
    let mut c = from;
    while c < to && chars[c] != ':'
        invariant
            from <= c <= to <= chars@.len(),
            w == chars@.subrange(from as int, to as int),
            forall|k: int| 0 <= k < c - from ==> w[k] != ':',
        decreases to - c,
    {
        c = c + 1;
    }
    proof {
        lemma_first_index(w, ':', c - from);
    }
    if c == to {
        return None;
    }
    proof {
        assert(w.take(c - from) =~= chars@.subrange(from as int, c as int));
        assert(w.skip(c - from + 1) =~= chars@.subrange(c + 1, to as int));
    }
    let f = if spells(chars, from, c, "symbol") || spells(chars, from, c, "s") {
        Filter::Symbol
    } else if spells(chars, from, c, "name") || spells(chars, from, c, "n") {
        Filter::Name
    } else if spells(chars, from, c, "kind") || spells(chars, from, c, "k") {
        Filter::Kind
    } else if spells(chars, from, c, "lang") || spells(chars, from, c, "l") {
        Filter::Lang
    } else {
        return None;
    };
    Some((f, c))
}

impl Filter {
    /// The long key and the short one.
    pub fn keys(self) -> (r: [&'static str; 2])
        ensures
            r@[0]@ == filter_keys(self).0,
            r@[1]@ == filter_keys(self).1,
    {
        match self {
            Filter::Symbol => ["symbol", "s"],
            Filter::Name => ["name", "n"],
            Filter::Kind => ["kind", "k"],
            Filter::Lang => ["lang", "l"],
        }
    }

    /// A word read as a filter word: the filter and its value.
    pub fn parse(word: &str) -> (r: Option<(Self, &str)>)
        ensures
            match parse_word(word@) {
                Some((f, v)) => r matches Some((g, s)) && g == f && s@ == v,
                None => r is None,
            },
    {
        let chars = chars_of(word);
        proof {
            assert(chars@.subrange(0, chars@.len() as int) =~= word@);
        }
        match filter_in(&chars, 0, chars.len()) {
            Some((f, c)) => Some((f, word.substring_char(c + 1, chars.len()))),
            None => None,
        }
    }
}

/// The query bar's line.
#[derive(Debug, Clone, PartialEq, Eq)]
pub struct QueryBar {
    text: String,
}

impl Default for QueryBar {
    fn default() -> (q: Self)
        ensures
            q@ == Seq::<char>::empty(),
    {
        QueryBar { text: String::new() }
    }
}

impl View for QueryBar {
    type V = Seq<char>;

    open spec fn view(&self) -> Seq<char> {
        self.spec_text()
    }
}

impl QueryBar {
    pub closed spec fn spec_text(&self) -> Seq<char> {
        self.text@
    }

    pub fn text(&self) -> (r: &str)
        ensures
            r@ == self@,
    {
        self.text.as_str()
    }

    pub fn push(&mut self, c: char)
        ensures
            final(self)@ == old(self)@.push(c),
    {
        push_char(&mut self.text, c);
    }

    pub fn pop(&mut self)
        ensures
            final(self)@ == if old(self)@.len() > 0 {
                old(self)@.drop_last()
            } else {
                old(self)@
            },
    {
        pop_char(&mut self.text);
    }

    pub fn clear(&mut self)
        ensures
            final(self)@ == Seq::<char>::empty(),
    {
        self.text = String::new();
    }

    /// Nothing but white space.
    pub fn is_empty(&self) -> (r: bool)
        ensures
            r == forall|i: int| 0 <= i < self@.len() ==> is_ws(#[trigger] self@[i]),
    {
        let chars = chars_of(self.text.as_str());
        let mut i: usize = 0;
        while i < chars.len()
            invariant
                chars@ == self@,
                0 <= i <= chars@.len(),
                forall|k: int| 0 <= k < i ==> is_ws(#[trigger] chars@[k]),
            decreases chars@.len() - i,
        {
            if !is_whitespace(chars[i]) {
                return false;
            }
            i = i + 1;
        }
        true
    }

    /// The current value of a filter word, if present: the first one.
    pub fn filter(&self, filter: Filter) -> (r: Option<&str>)
        ensures
            match first_value(words(self@), filter) {
                Some(v) => r matches Some(s) && s@ == v,
                None => r is None,
            },
    {
        let text = self.text.as_str();
        let chars = chars_of(text);
        let spans = word_spans(&chars);
        let ghost ws = words(chars@);
        let n = spans.len();
        let mut k: usize = 0;
        proof {
            assert(ws.skip(0) =~= ws);
        }
        while k < n
            invariant
                chars@ == self@,
                ws == words(chars@),
                n == spans@.len() == ws.len(),
                text@ == self@,
                0 <= k <= n,
                forall|m: int|
                    0 <= m < spans@.len() ==> {
                        &&& 0 <= (#[trigger] spans@[m]).0 < spans@[m].1 <= chars@.len()
                        &&& chars@.subrange(spans@[m].0 as int, spans@[m].1 as int) == ws[m]
                    },
                first_value(ws, filter) == first_value(ws.skip(k as int), filter),
            decreases n - k,
        {
            let (a, b) = spans[k];
            proof {
                assert(ws.skip(k as int)[0] == ws[k as int]);
                assert(ws.skip(k as int).drop_first() =~= ws.skip(k + 1));
            }
            match filter_in(&chars, a, b) {
                Some((f, c)) => {
                    if f == filter {
                        return Some(text.substring_char(c + 1, b));
                    }
                },
                None => {},
            }
            k = k + 1;
        }
        None
    }

    /// Replace (or with `None`, remove) a filter word, keeping the rest.
    pub fn set_filter(&mut self, filter: Filter, value: Option<&str>)
        ensures
            final(self)@ == with_filter(old(self)@, filter, opt_chars(value)),
    {
        let chars = chars_of(self.text.as_str());
        let spans = word_spans(&chars);
        let ghost ws = words(chars@);
        let ghost keep = |w: Seq<char>| !is_filter(w, filter);
        let mut line = String::new();
        let n = spans.len();
        let mut k: usize = 0;
        while k < n
            invariant
                chars@ == old(self)@,
                ws == words(chars@),
                keep == (|w: Seq<char>| !is_filter(w, filter)),
                n == spans@.len() == ws.len(),
                0 <= k <= n,
                forall|m: int|
                    0 <= m < spans@.len() ==> {
                        &&& 0 <= (#[trigger] spans@[m]).0 < spans@[m].1 <= chars@.len()
                        &&& chars@.subrange(spans@[m].0 as int, spans@[m].1 as int) == ws[m]
                    },
                line@ == join(ws.take(k as int).filter(keep), seq![' ']),
                line@.len() == 0 <==> ws.take(k as int).filter(keep).len() == 0,
            decreases n - k,
        {
            let (a, b) = spans[k];
            proof {
                assert(ws.take(k + 1) =~= ws.take(k as int).push(ws[k as int]));
                ws.take(k as int).lemma_filter_push(ws[k as int], keep);
            }
            let drop = match filter_in(&chars, a, b) {
                Some((f, _)) => f == filter,
                None => false,
            };
            if !drop {
                let ghost before = ws.take(k as int).filter(keep);
                if !line.as_str().is_empty() {
                    proof {
                        reveal_strlit(" ");
                    }
                    push_str(&mut line, " ");
                }
                push_chars(&mut line, &chars, a, b);
                proof {
                    lemma_join_push(before, ws[k as int]);
                }
            }
            k = k + 1;
        }
        proof {
            assert(ws.take(n as int) =~= ws);
        }
        let ghost kept = ws.filter(keep);
        match value {
            Some(v) => {
                let ghost before = line@;
                if !line.as_str().is_empty() {
                    proof {
                        reveal_strlit(" ");
                    }
                    push_str(&mut line, " ");
                }
                let keys = filter.keys();
                push_str(&mut line, keys[0]);
                push_char(&mut line, ':');
                push_str(&mut line, v);
                proof {
                    let word = filter_keys(filter).0 + seq![':'] + v@;
                    lemma_join_push(kept, word);
                    assert(line@ =~= if before.len() > 0 { before + seq![' '] + word } else { word });
                }
            },
            None => {},
        }
        if !line.as_str().is_empty() {
            push_char(&mut line, ' ');
        }
        self.text = line;
    }
}

/// Joining one more non-empty part: after a space, unless nothing came before.
pub proof fn lemma_join_push(parts: Seq<Seq<char>>, w: Seq<char>)
    requires
        join(parts, seq![' ']).len() == 0 <==> parts.len() == 0,
        w.len() > 0,
    ensures
        join(parts.push(w), seq![' ']) == if parts.len() > 0 {
            join(parts, seq![' ']) + seq![' '] + w
        } else {
            w
        },
        join(parts.push(w), seq![' ']).len() > 0,
{
    assert(parts.push(w).drop_last() =~= parts);
}


/// The kind of a declaration, as a `symbol:` filter names it.
#[derive(Debug, Clone, Copy, PartialEq, Eq, Structural)]
pub enum SymbolKind {
    Function,
    Method,
    Struct,
    Enum,
    Variant,
    Trait,
    TypeAlias,
    Const,
    Static,
    Field,
    Module,
    Macro,
    Impl,
    Class,
    Interface,
    Variable,
}

/// How a symbol kind is spelled in a filter.
pub open spec fn kind_name(k: SymbolKind) -> Seq<char> {
    match k {
        SymbolKind::Function => "function"@,
        SymbolKind::Method => "method"@,
        SymbolKind::Struct => "struct"@,
        SymbolKind::Enum => "enum"@,
        SymbolKind::Variant => "variant"@,
        SymbolKind::Trait => "trait"@,
        SymbolKind::TypeAlias => "type_alias"@,
        SymbolKind::Const => "const"@,
        SymbolKind::Static => "static"@,
        SymbolKind::Field => "field"@,
        SymbolKind::Module => "module"@,
        SymbolKind::Macro => "macro"@,
        SymbolKind::Impl => "impl"@,
        SymbolKind::Class => "class"@,
        SymbolKind::Interface => "interface"@,
        SymbolKind::Variable => "variable"@,
    }
}

/// The first kind of `kinds` that `name` spells.
pub open spec fn first_kind_named(kinds: Seq<SymbolKind>, name: Seq<char>) -> Option<SymbolKind>
    decreases kinds.len(),
{
    if kinds.len() == 0 {
        None
    } else if kind_name(kinds[0]) == name {
        Some(kinds[0])
    } else {
        first_kind_named(kinds.drop_first(), name)
    }
}

/// The symbol kind a name spells, if any.
pub open spec fn kind_named(name: Seq<char>) -> Option<SymbolKind> {
    first_kind_named(all_kinds(), name)
}

/// Every symbol kind, in the order the symbol menu lists them.
pub open spec fn all_kinds() -> Seq<SymbolKind> {
    seq![
        SymbolKind::Function,
        SymbolKind::Method,
        SymbolKind::Struct,
        SymbolKind::Enum,
        SymbolKind::Variant,
        SymbolKind::Trait,
        SymbolKind::TypeAlias,
        SymbolKind::Const,
        SymbolKind::Static,
        SymbolKind::Field,
        SymbolKind::Module,
        SymbolKind::Macro,
        SymbolKind::Impl,
        SymbolKind::Class,
        SymbolKind::Interface,
        SymbolKind::Variable,
    ]
}

impl SymbolKind {
    pub fn as_str(self) -> (r: &'static str)
        ensures
            r@ == kind_name(self),
    {
        match self {
            SymbolKind::Function => "function",
            SymbolKind::Method => "method",
            SymbolKind::Struct => "struct",
            SymbolKind::Enum => "enum",
            SymbolKind::Variant => "variant",
            SymbolKind::Trait => "trait",
            SymbolKind::TypeAlias => "type_alias",
            SymbolKind::Const => "const",
            SymbolKind::Static => "static",
            SymbolKind::Field => "field",
            SymbolKind::Module => "module",
            SymbolKind::Macro => "macro",
            SymbolKind::Impl => "impl",
            SymbolKind::Class => "class",
            SymbolKind::Interface => "interface",
            SymbolKind::Variable => "variable",
        }
    }

    /// Every kind, in the symbol menu's order.
    pub fn all() -> (r: Vec<SymbolKind>)
        ensures
            r@ == all_kinds(),
    {
        let r = vec![
            SymbolKind::Function,
            SymbolKind::Method,
            SymbolKind::Struct,
            SymbolKind::Enum,
            SymbolKind::Variant,
            SymbolKind::Trait,
            SymbolKind::TypeAlias,
            SymbolKind::Const,
            SymbolKind::Static,
            SymbolKind::Field,
            SymbolKind::Module,
            SymbolKind::Macro,
            SymbolKind::Impl,
            SymbolKind::Class,
            SymbolKind::Interface,
            SymbolKind::Variable,
        ];
        proof {
            assert(r@ =~= all_kinds());
        }
        r
    }
}

/// The kind named by `chars[from..to]`, if any.
fn kind_in(chars: &Vec<char>, from: usize, to: usize) -> (r: Option<SymbolKind>)
    requires
        from <= to <= chars@.len(),
    ensures
        r == kind_named(chars@.subrange(from as int, to as int)),
{
    let kinds = SymbolKind::all();
    let ghost name = chars@.subrange(from as int, to as int);
    let mut i: usize = 0;
    proof {
        assert(kinds@.skip(0) =~= kinds@);
    }
    while i < kinds.len()
        invariant
            kinds@ == all_kinds(),
            name == chars@.subrange(from as int, to as int),
            from <= to <= chars@.len(),
            0 <= i <= kinds@.len(),
            kind_named(name) == first_kind_named(kinds@.skip(i as int), name),
        decreases kinds@.len() - i,
    {
        proof {
            assert(kinds@.skip(i as int)[0] == kinds@[i as int]);
            assert(kinds@.skip(i as int).drop_first() =~= kinds@.skip(i + 1));
        }
        if spells(chars, from, to, kinds[i].as_str()) {
            return Some(kinds[i]);
        }
        i = i + 1;
    }
    None
}

/// A search: a pattern or a name, narrowed by filters.
#[derive(Debug, Clone, PartialEq, Eq)]
pub struct Query {
    pub pattern: Option<String>,
    pub kind: Option<String>,
    pub symbol: Option<SymbolKind>,
    pub name: Option<String>,
    pub language: Option<String>,
}

/// What a query is, as characters.
pub struct QueryView {
    pub pattern: Option<Seq<char>>,
    pub kind: Option<Seq<char>>,
    pub symbol: Option<SymbolKind>,
    pub name: Option<Seq<char>>,
    pub language: Option<Seq<char>>,
}

pub open spec fn opt_string(s: Option<String>) -> Option<Seq<char>> {
    match s {
        Some(v) => Some(v@),
        None => None,
    }
}

impl View for Query {
    type V = QueryView;

    open spec fn view(&self) -> QueryView {
        QueryView {
            pattern: opt_string(self.pattern),
            kind: opt_string(self.kind),
            symbol: self.symbol,
            name: opt_string(self.name),
            language: opt_string(self.language),
        }
    }
}

/// Why the parts of a query make no query.
#[derive(Debug, Clone, Copy, PartialEq, Eq, Structural)]
pub enum QueryError {
    /// Nothing to search for: no pattern, no name, no kind and no symbol
    /// kind. A language alone only narrows.
    Empty,
}

/// A query searches for something: a language alone only narrows.
pub open spec fn searches_something(q: QueryView) -> bool {
    q.pattern is Some || q.kind is Some || q.symbol is Some || q.name is Some
}

impl Query {
    /// The query of these parts, or why they make none.
    pub fn build(
        pattern: Option<String>,
        kind: Option<String>,
        symbol: Option<SymbolKind>,
        name: Option<String>,
        language: Option<String>,
    ) -> (r: Result<Query, QueryError>)
        ensures
            ({
                let q = QueryView {
                    pattern: opt_string(pattern),
                    kind: opt_string(kind),
                    symbol,
                    name: opt_string(name),
                    language: opt_string(language),
                };
                if searches_something(q) {
                    r matches Ok(query) && query@ == q
                } else {
                    r == Err::<Query, QueryError>(QueryError::Empty)
                }
            }),
    {
        if pattern.is_none() && kind.is_none() && symbol.is_none() && name.is_none() {
            return Err(QueryError::Empty);
        }
        Ok(Query { pattern, kind, symbol, name, language })
    }
}

/// Why the bar's line is no query.
#[derive(Debug, Clone, PartialEq, Eq)]
pub enum QueryParseError {
    Query(QueryError),
    Filter(String),
}

/// The message for a `symbol:` value that names no kind.
pub open spec fn bad_kind_message(v: Seq<char>) -> Seq<char> {
    "unknown symbol kind `"@ + v + "`"@
}

/// The message for a line that searches for nothing.
pub open spec fn empty_query_message() -> Seq<char> {
    "type a name, a pattern or a filter"@
}

impl QueryParseError {
    /// How the error reads in the status bar.
    pub fn message(&self) -> (s: String)
        ensures
            s@ == match self {
                QueryParseError::Query(_) => empty_query_message(),
                QueryParseError::Filter(m) => m@,
            },
    {
        match self {
            QueryParseError::Query(_) => "type a name, a pattern or a filter".to_owned(),
            QueryParseError::Filter(m) => m.clone(),
        }
    }
}

/// The words that are not filter words: the pattern's.
pub open spec fn pattern_words(ws: Seq<Seq<char>>) -> Seq<Seq<char>> {
    ws.filter(|w: Seq<char>| parse_word(w) is None)
}

/// The value of the first `symbol:` word that names no kind.
pub open spec fn first_bad_symbol(ws: Seq<Seq<char>>) -> Option<Seq<char>>
    decreases ws.len(),
{
    if ws.len() == 0 {
        None
    } else {
        match first_bad_symbol(ws.drop_last()) {
            Some(v) => Some(v),
            None => if is_filter(ws.last(), Filter::Symbol) && kind_named(
                parse_word(ws.last()).unwrap().1,
            ) is None {
                Some(parse_word(ws.last()).unwrap().1)
            } else {
                None
            },
        }
    }
}

/// The first bad `symbol:` word of a prefix is the first of the whole.
pub proof fn lemma_bad_symbol_stays(ws: Seq<Seq<char>>, j: int)
    requires
        0 <= j <= ws.len(),
        first_bad_symbol(ws.take(j)) is Some,
    ensures
        first_bad_symbol(ws) == first_bad_symbol(ws.take(j)),
    decreases ws.len() - j,
{
    if j < ws.len() {
        assert(ws.take(j + 1).drop_last() =~= ws.take(j));
        lemma_bad_symbol_stays(ws, j + 1);
    } else {
        assert(ws.take(j) =~= ws);
    }
}

/// The query a line's words make, when every `symbol:` word names a kind:
/// the pattern words joined, and the last value of each filter.
pub open spec fn query_of(ws: Seq<Seq<char>>) -> QueryView {
    let pw = pattern_words(ws);
    QueryView {
        pattern: if pw.len() > 0 {
            Some(join(pw, seq![' ']))
        } else {
            None
        },
        kind: last_value(ws, Filter::Kind),
        symbol: match last_value(ws, Filter::Symbol) {
            Some(v) => kind_named(v),
            None => None,
        },
        name: last_value(ws, Filter::Name),
        language: last_value(ws, Filter::Lang),
    }
}

/// What parsing a line answers.
pub open spec fn parsed(text: Seq<char>, r: Result<Query, QueryParseError>) -> bool {
    let ws = words(text);
    match first_bad_symbol(ws) {
        Some(v) => r matches Err(QueryParseError::Filter(m)) && m@ == bad_kind_message(v),
        None => if searches_something(query_of(ws)) {
            r matches Ok(q) && q@ == query_of(ws)
        } else {
            r == Err::<Query, QueryParseError>(QueryParseError::Query(QueryError::Empty))
        },
    }
}

impl QueryBar {
    /// Filter words out, pattern in; `Err` for an unknown symbol kind or a
    /// line that searches for nothing.
    pub fn parse(&self) -> (r: Result<Query, QueryParseError>)
        ensures
            parsed(self@, r),
    {
        let chars = chars_of(self.text.as_str());
        let spans = word_spans(&chars);
        let ghost ws = words(chars@);
        let ghost is_pattern = |w: Seq<char>| parse_word(w) is None;
        let mut pattern = String::new();
        let mut kind: Option<String> = None;
        let mut symbol: Option<SymbolKind> = None;
        let mut name: Option<String> = None;
        let mut language: Option<String> = None;
        let n = spans.len();
        let mut k: usize = 0;
        while k < n
            invariant
                chars@ == self@,
                ws == words(chars@),
                is_pattern == (|w: Seq<char>| parse_word(w) is None),
                n == spans@.len() == ws.len(),
                0 <= k <= n,
                forall|m: int|
                    0 <= m < spans@.len() ==> {
                        &&& 0 <= (#[trigger] spans@[m]).0 < spans@[m].1 <= chars@.len()
                        &&& chars@.subrange(spans@[m].0 as int, spans@[m].1 as int) == ws[m]
                    },
                first_bad_symbol(ws.take(k as int)) is None,
                pattern@ == join(ws.take(k as int).filter(is_pattern), seq![' ']),
                pattern@.len() == 0 <==> ws.take(k as int).filter(is_pattern).len() == 0,
                opt_string(kind) == last_value(ws.take(k as int), Filter::Kind),
                opt_string(name) == last_value(ws.take(k as int), Filter::Name),
                opt_string(language) == last_value(ws.take(k as int), Filter::Lang),
                symbol == match last_value(ws.take(k as int), Filter::Symbol) {
                    Some(v) => kind_named(v),
                    None => None,
                },
                last_value(ws.take(k as int), Filter::Symbol) matches Some(v) ==> kind_named(v) is Some,
            decreases n - k,
        {
            let (a, b) = spans[k];
            let ghost pre = ws.take(k as int);
            let ghost now = ws.take(k + 1);
            proof {
                assert(now =~= pre.push(ws[k as int]));
                assert(now.drop_last() =~= pre);
                pre.lemma_filter_push(ws[k as int], is_pattern);
            }
            match filter_in(&chars, a, b) {
                Some((f, c)) => {
                    match f {
                        Filter::Symbol => {
                            match kind_in(&chars, c + 1, b) {
                                Some(kd) => {
                                    symbol = Some(kd);
                                },
                                None => {
                                    let mut m = "unknown symbol kind `".to_owned();
                                    push_chars(&mut m, &chars, c + 1, b);
                                    push_str(&mut m, "`");
                                    proof {
                                        assert(first_bad_symbol(now) == Some(chars@.subrange(c + 1, b as int)));
                                        lemma_bad_symbol_stays(ws, k + 1);
                                    }
                                    return Err(QueryParseError::Filter(m));
                                },
                            }
                        },
                        Filter::Name => {
                            name = Some(string_of(&chars, c + 1, b));
                        },
                        Filter::Kind => {
                            kind = Some(string_of(&chars, c + 1, b));
                        },
                        Filter::Lang => {
                            language = Some(string_of(&chars, c + 1, b));
                        },
                    }
                },
                None => {
                    let ghost before = pre.filter(is_pattern);
                    if !pattern.as_str().is_empty() {
                        proof {
                            reveal_strlit(" ");
                        }
                        push_str(&mut pattern, " ");
                    }
                    push_chars(&mut pattern, &chars, a, b);
                    proof {
                        lemma_join_push(before, ws[k as int]);
                    }
                },
            }
            k = k + 1;
        }
        proof {
            assert(ws.take(n as int) =~= ws);
        }
        let pattern = if pattern.as_str().is_empty() {
            None
        } else {
            Some(pattern)
        };
        match Query::build(pattern, kind, symbol, name, language) {
            Ok(q) => Ok(q),
            Err(e) => Err(QueryParseError::Query(e)),
        }
    }
}

/// The long key of a filter, a colon, and a value: a filter word for that
/// filter, with that value.
proof fn lemma_filter_word(f: Filter, v: Seq<char>)
    ensures
        parse_word(filter_keys(f).0 + seq![':'] + v) == Some((f, v)),
{
    reveal_strlit("symbol");
    reveal_strlit("s");
    reveal_strlit("name");
    reveal_strlit("n");
    reveal_strlit("kind");
    reveal_strlit("k");
    reveal_strlit("lang");
    reveal_strlit("l");
    let key = filter_keys(f).0;
    let w = key + seq![':'] + v;
    assert forall|k: int| 0 <= k < key.len() implies w[k] != ':' by {
        assert(w[k] == key[k]);
    }
    lemma_first_index(w, ':', key.len() as int);
    assert(w.take(key.len() as int) =~= key);
    assert(w.skip(key.len() + 1 as int) =~= v);
}

proof fn lemma_first_value_push(kept: Seq<Seq<char>>, x: Seq<char>, f: Filter)
    requires
        forall|i: int| 0 <= i < kept.len() ==> !is_filter(#[trigger] kept[i], f),
    ensures
        first_value(kept.push(x), f) == first_value(seq![x], f),
        first_value(kept, f) is None,
    decreases kept.len(),
{
    if kept.len() > 0 {
        let rest = kept.drop_first();
        assert forall|i: int| 0 <= i < rest.len() implies !is_filter(#[trigger] rest[i], f) by {
            assert(rest[i] == kept[i + 1]);
        }
        lemma_first_value_push(rest, x, f);
        assert(kept.push(x).drop_first() =~= rest.push(x));
        assert(!is_filter(kept[0], f));
        assert(kept.push(x)[0] == kept[0]);
    } else {
        assert(kept.push(x) =~= seq![x]);
    }
}

proof fn lemma_kept_words(text: Seq<char>, f: Filter)
    ensures
        forall|i: int|
            0 <= i < without_filter(words(text), f).len() ==> {
                &&& is_word(#[trigger] without_filter(words(text), f)[i])
                &&& !is_filter(without_filter(words(text), f)[i], f)
            },
{
    let ws = words(text);
    let keep = |w: Seq<char>| !is_filter(w, f);
    lemma_words_are_words(text);
    lemma_filter_all(ws, keep, |w: Seq<char>| is_word(w));
    assert forall|i: int| 0 <= i < ws.filter(keep).len() implies !is_filter(#[trigger] ws.filter(keep)[i], f) by {
        ws.lemma_filter_pred(keep, i);
    }
}

proof fn lemma_filter_word_is_word(f: Filter, v: Seq<char>)
    requires
        forall|i: int| 0 <= i < v.len() ==> !is_ws(#[trigger] v[i]),
    ensures
        is_word(filter_keys(f).0 + seq![':'] + v),
{
    reveal_strlit("symbol");
    reveal_strlit("name");
    reveal_strlit("kind");
    reveal_strlit("lang");
    let key = filter_keys(f).0;
    let word = key + seq![':'] + v;
    assert forall|i: int| 0 <= i < word.len() implies !is_ws(#[trigger] word[i]) by {
        if i >= key.len() + 1 {
            assert(word[i] == v[i - key.len() - 1]);
        } else if i < key.len() {
            assert(word[i] == key[i]);
        }
    }
}

proof fn lemma_line_words(text: Seq<char>, f: Filter, value: Option<Seq<char>>)
    requires
        value matches Some(v) ==> forall|i: int| 0 <= i < v.len() ==> !is_ws(#[trigger] v[i]),
    ensures
        words(with_filter(text, f, value)) == match value {
            Some(v) => without_filter(words(text), f).push(filter_keys(f).0 + seq![':'] + v),
            None => without_filter(words(text), f),
        },
        forall|i: int|
            0 <= i < without_filter(words(text), f).len() ==> !is_filter(
                #[trigger] without_filter(words(text), f)[i],
                f,
            ),
{
    let kept = without_filter(words(text), f);
    lemma_kept_words(text, f);
    let all = match value {
        Some(v) => kept.push(filter_keys(f).0 + seq![':'] + v),
        None => kept,
    };
    if let Some(v) = value {
        lemma_filter_word_is_word(f, v);
    }
    assert forall|i: int| 0 <= i < all.len() implies is_word(#[trigger] all[i]) by {
        if i < kept.len() {
            assert(all[i] == kept[i]);
        }
    }
    lemma_words_join(all);
    let line = join(all, seq![' ']);
    if line.len() > 0 {
        lemma_words_trailing_space(line);
    }
}

/// Setting a filter and reading it back gives the value set, when the value
/// holds no white space (a value with a space would split into two words).
pub proof fn law_set_then_read(text: Seq<char>, f: Filter, v: Seq<char>)
    requires
        forall|i: int| 0 <= i < v.len() ==> !is_ws(#[trigger] v[i]),
    ensures
        first_value(words(with_filter(text, f, Some(v))), f) == Some(v),
{
    lemma_line_words(text, f, Some(v));
    let kept = without_filter(words(text), f);
    let word = filter_keys(f).0 + seq![':'] + v;
    lemma_first_value_push(kept, word, f);
    lemma_filter_word(f, v);
}

/// Removing a filter leaves no word of it.
pub proof fn law_remove_then_read(text: Seq<char>, f: Filter)
    ensures
        first_value(words(with_filter(text, f, None)), f) is None,
{
    lemma_line_words(text, f, None);
    let kept = without_filter(words(text), f);
    lemma_first_value_push(kept, seq![], f);
}

/// Setting or removing a filter keeps every other word of the line, in
/// order.
pub proof fn law_set_keeps_other_words(text: Seq<char>, f: Filter, value: Option<Seq<char>>)
    requires
        value matches Some(v) ==> forall|i: int| 0 <= i < v.len() ==> !is_ws(#[trigger] v[i]),
    ensures
        without_filter(words(with_filter(text, f, value)), f) == without_filter(words(text), f),
{
    lemma_line_words(text, f, value);
    let keep = |w: Seq<char>| !is_filter(w, f);
    let kept = without_filter(words(text), f);
    lemma_filter_all(kept, keep, |w: Seq<char>| true);
    if let Some(v) = value {
        let word = filter_keys(f).0 + seq![':'] + v;
        lemma_filter_word(f, v);
        kept.lemma_filter_push(word, keep);
    }
}

/// Setting a filter twice to the same value leaves the line as setting it
/// once, when the value holds no white space.
pub proof fn law_set_twice(text: Seq<char>, f: Filter, value: Option<Seq<char>>)
    requires
        value matches Some(v) ==> forall|i: int| 0 <= i < v.len() ==> !is_ws(#[trigger] v[i]),
    ensures
        with_filter(with_filter(text, f, value), f, value) == with_filter(text, f, value),
{
    law_set_keeps_other_words(text, f, value);
}

/// Dropping the words of filter `f` does not change what filter `g` reads.
proof fn lemma_first_value_without(ws: Seq<Seq<char>>, f: Filter, g: Filter)
    requires
        f != g,
    ensures
        first_value(without_filter(ws, f), g) == first_value(ws, g),
    decreases ws.len(),
{
    let keep = |w: Seq<char>| !is_filter(w, f);
    if ws.len() > 0 {
        let rest = ws.drop_first();
        lemma_first_value_without(rest, f, g);
        assert(ws =~= seq![ws[0]] + rest);
        rest.lemma_filter_prepend(ws[0], keep);
        if keep(ws[0]) {
            let fs = without_filter(ws, f);
            assert(fs == seq![ws[0]] + rest.filter(keep));
            assert(fs[0] == ws[0]);
            assert(fs.drop_first() =~= rest.filter(keep));
        } else {
            assert(without_filter(ws, f) =~= rest.filter(keep));
            assert(!is_filter(ws[0], g));
        }
    } else {
        assert(without_filter(ws, f) =~= Seq::<Seq<char>>::empty());
    }
}

/// Setting or removing one filter leaves every other filter reading back
/// what it read before, when the value holds no white space.
pub proof fn law_set_keeps_other_filters(text: Seq<char>, f: Filter, g: Filter, value: Option<Seq<char>>)
    requires
        f != g,
        value matches Some(v) ==> forall|i: int| 0 <= i < v.len() ==> !is_ws(#[trigger] v[i]),
    ensures
        first_value(words(with_filter(text, f, value)), g) == first_value(words(text), g),
{
    lemma_line_words(text, f, value);
    let kept = without_filter(words(text), f);
    lemma_first_value_without(words(text), f, g);
    if let Some(v) = value {
        let word = filter_keys(f).0 + seq![':'] + v;
        lemma_filter_word(f, v);
        assert(!is_filter(word, g));
        lemma_first_value_append(kept, word, g);
    }
}

/// A word that is no filter word for `g` at the end does not change what
/// `g` reads.
proof fn lemma_first_value_append(ws: Seq<Seq<char>>, x: Seq<char>, g: Filter)
    requires
        !is_filter(x, g),
    ensures
        first_value(ws.push(x), g) == first_value(ws, g),
    decreases ws.len(),
{
    if ws.len() > 0 {
        lemma_first_value_append(ws.drop_first(), x, g);
        assert(ws.push(x).drop_first() =~= ws.drop_first().push(x));
        assert(ws.push(x)[0] == ws[0]);
    } else {
        assert(ws.push(x) =~= seq![x]);
        assert(seq![x].drop_first() =~= Seq::<Seq<char>>::empty());
        assert(first_value(seq![x].drop_first(), g) is None);
        assert(first_value(ws, g) is None);
        assert(first_value(seq![x], g) == first_value(seq![x].drop_first(), g));
    }
}

/// Typing a character and erasing it gives the line back.
pub proof fn law_push_pop(text: Seq<char>, c: char)
    ensures
        text.push(c).len() > 0,
        text.push(c).drop_last() == text,
{
    assert(text.push(c).drop_last() =~= text);
}

} // verus!
