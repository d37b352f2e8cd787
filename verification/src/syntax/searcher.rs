//! Reading one grammar's files: parse, then apply the grammar's tables to
//! find declarations, identifier tokens and colours.

use vstd::prelude::*;
use vstd::multiset::Multiset;

use std::ops::Range;

use crate::engine::{Highlight, Role, Span};
use crate::modes::bytes_of;
use crate::rust::facts::{token_view, tokens_with, Facts, ImportRef, Symbol, Token};
use crate::syntax::grammar::{
    rust_grammar, rust_semantics, typescript_grammar, typescript_semantics, Grammar, PathSyntax, Semantics,
};
use crate::syntax::imports::{imports_of, imports_view, ImportExtractor, ImportRule, ImportView, ImportsFailure};
use crate::syntax::highlights::{highlight_rules_view, highlights_of, Highlighter};
use crate::syntax::symbols::{
    copy_symbol, field_of, found_view, kinds_view, parent_of, symbol_view, symbols_from, SymbolExtractor, SymbolView,
};
use crate::syntax::tree::{parse_of, text_at, text_of, tree_of, tree_view, well_formed, Lang, NodeView, SyntaxTree};
use crate::query::{opt_string, Query, QueryView, SymbolKind};
use crate::syntax::matching::{
    bindings_of, bindings_view, bound_view, check_kind, kind_hits, kind_matches_of, kinded_hits, kinded_matches_of, pair, hits_view, invalid_kind_message, kind_valid, matches_of,
    outcome_view, pattern_bindings, pattern_hits, Bindings, Bound, BoundView, Hit,
};
use crate::text::{identifier, is_identifier, owned, str_eq};

verus! {

/// The fields a tree records, as values.
pub open spec fn recorded_fields() -> Seq<Seq<char>> {
    seq!["name"@, "type"@, "path"@, "alias"@, "source"@]
}

/// What a search found at one place: the range, the node's kind, its
/// text, the declaration it is when it is one, and what it is to its name.
#[derive(Debug, Clone)]
pub struct RawMatch {
    pub span: Span,
    pub kind: String,
    pub text: String,
    pub symbol: Option<Symbol>,
    pub role: Role,
    /// What a pattern's meta-variables took at this hit, by name.
    pub captures: Vec<(String, CaptureValue)>,
}

/// A match as values.
pub type RawMatchView = (Span, Seq<char>, Seq<char>, Option<SymbolView>, Role);

/// A match as values.
pub open spec fn raw_match_view(m: RawMatch) -> RawMatchView {
    (
        m.span,
        m.kind@,
        m.text@,
        match m.symbol {
            Some(s) => Some(symbol_view(s)),
            None => None,
        },
        m.role,
    )
}

/// Matches as values.
pub open spec fn raw_matches_view(ms: Seq<RawMatch>) -> Seq<RawMatchView> {
    ms.map_values(|m: RawMatch| raw_match_view(m))
}

/// A piece of the file a meta-variable took: its range and its text.
#[derive(Debug, Clone, PartialEq, Eq)]
pub struct Capture {
    pub span: Span,
    pub text: String,
}

/// What a meta-variable took: one node (`$A`), or a run of them (`$$$A`).
#[derive(Debug, Clone, PartialEq, Eq)]
pub enum CaptureValue {
    Single(Capture),
    Multiple(Vec<Capture>),
}

/// A capture as values.
pub open spec fn capture_view(c: Capture) -> (Span, Seq<char>) {
    (c.span, c.text@)
}

/// What a meta-variable took, as values.
pub enum CaptureView {
    Single((Span, Seq<char>)),
    Multiple(Seq<(Span, Seq<char>)>),
}

pub open spec fn value_view(v: CaptureValue) -> CaptureView {
    match v {
        CaptureValue::Single(c) => CaptureView::Single(capture_view(c)),
        CaptureValue::Multiple(cs) => CaptureView::Multiple(cs@.map_values(|c: Capture| capture_view(c))),
    }
}

/// Named captures as values.
pub open spec fn captures_view(cs: Seq<(String, CaptureValue)>) -> Seq<(Seq<char>, CaptureView)> {
    cs.map_values(|c: (String, CaptureValue)| (c.0@, value_view(c.1)))
}

/// The bytes `s..e` of a file as a capture.
pub open spec fn piece_at(b: Seq<u8>, s: usize, e: usize) -> (Span, Seq<char>) {
    (Span { start: s, end: e }, text_at(b, Span { start: s, end: e }))
}

/// The capture a binding makes: a single variable that took a node, or a
/// multiple one with the nodes it took; nothing for one that took nothing
/// or binds nothing.
pub open spec fn bound_capture(b: Seq<u8>, x: BoundView) -> Option<(Seq<char>, CaptureView)> {
    match x {
        BoundView::Single(n, Some(r)) => Some((n, CaptureView::Single(piece_at(b, r.0, r.1)))),
        BoundView::Multi(n, rs) => Some((n, CaptureView::Multiple(rs.map_values(|r: (usize, usize)| piece_at(b, r.0, r.1))))),
        _ => None,
    }
}

/// The captures a hit's bindings make, in the bindings' order.
pub open spec fn captures_from(b: Seq<u8>, xs: Seq<BoundView>) -> Seq<(Seq<char>, CaptureView)>
    decreases xs.len(),
{
    if xs.len() == 0 {
        seq![]
    } else {
        let rest = captures_from(b, xs.drop_last());
        match bound_capture(b, xs.last()) {
            Some(c) => rest.push(c),
            None => rest,
        }
    }
}

/// The bindings of the first hit at `span`.
pub open spec fn bindings_at(es: Seq<(usize, usize, Multiset<BoundView>)>, span: Span) -> Option<Multiset<BoundView>>
    decreases es.len(),
{
    if es.len() == 0 {
        None
    } else if es[0].0 == span.start && es[0].1 == span.end {
        Some(es[0].2)
    } else {
        bindings_at(es.drop_first(), span)
    }
}

/// A match carries the captures of the hit at its range: its bindings, in
/// an order ast-grep leaves open, each made a capture; none where no hit
/// is at its range.
pub open spec fn carries(m: RawMatch, b: Seq<u8>, es: Seq<(usize, usize, Multiset<BoundView>)>) -> bool {
    match bindings_at(es, m.span) {
        Some(bs) => exists|p: Seq<BoundView>| #![trigger captures_from(b, p)] p.to_multiset() == bs && captures_view(m.captures@) == captures_from(b, p),
        None => m.captures@.len() == 0,
    }
}

/// The bindings a query's pattern makes: none for a bare name, a kind
/// alone, or a pattern that does not compile.
pub open spec fn query_bindings(lang: Lang, source: Seq<char>, q: QueryView) -> Seq<(usize, usize, Multiset<BoundView>)> {
    match (bare_name(q), q.pattern) {
        (None, Some(p)) => match pattern_bindings(lang, source, p) {
            Ok(es) => es,
            Err(_) => seq![],
        },
        _ => seq![],
    }
}

impl RawMatch {
    /// What the meta-variable `name` took here, if it took anything.
    pub fn capture(&self, name: &str) -> (r: Option<&CaptureValue>)
        ensures
            match r {
                Some(v) => exists|i: int| 0 <= i < self.captures@.len() && self.captures@[i].0@ == name@ && self.captures@[i].1 == *v,
                None => forall|i: int| 0 <= i < self.captures@.len() ==> self.captures@[i].0@ != name@,
            },
    {
        let mut i: usize = 0;
        while i < self.captures.len()
            invariant
                0 <= i <= self.captures@.len(),
                forall|j: int| 0 <= j < i ==> self.captures@[j].0@ != name@,
            decreases self.captures@.len() - i,
        {
            if str_eq(self.captures[i].0.as_str(), name) {
                return Some(&self.captures[i].1);
            }
            i = i + 1;
        }
        None
    }
}

/// The captures a hit's bindings make.
fn captures_in(source: &str, bs: &Vec<Bound>) -> (r: Vec<(String, CaptureValue)>)
    ensures
        captures_view(r@) == captures_from(bytes_of(source@), bs@.map_values(|x: Bound| bound_view(x))),
{
    let ghost b = bytes_of(source@);
    let ghost xs = bs@.map_values(|x: Bound| bound_view(x));
    let mut out: Vec<(String, CaptureValue)> = Vec::new();
    let mut i: usize = 0;
    while i < bs.len()
        invariant
            b == bytes_of(source@),
            xs == bs@.map_values(|x: Bound| bound_view(x)),
            0 <= i <= bs@.len(),
            captures_view(out@) =~= captures_from(b, xs.take(i as int)),
        decreases bs@.len() - i,
    {
        proof {
            assert(xs.take(i + 1).drop_last() =~= xs.take(i as int));
            assert(xs.take(i + 1).last() == bound_view(bs@[i as int]));
        }
        let ghost before = captures_view(out@);
        match &bs[i] {
            Bound::Single(Some(x), n) => {
                let (s, e) = (x.start, x.end);
                let c = Capture { span: Span { start: s, end: e }, text: text_of(source, Span { start: s, end: e }) };
                out.push((owned(n.as_str()), CaptureValue::Single(c)));
                proof {
                    assert(captures_view(out@) =~= before.push((n@, CaptureView::Single(piece_at(b, s, e)))));
                }
            },
            Bound::Multi(rs, n) => {
                let mut cs: Vec<Capture> = Vec::new();
                let mut k: usize = 0;
                while k < rs.len()
                    invariant
                        0 <= k <= rs@.len(),
                        b == bytes_of(source@),
                        cs@.map_values(|c: Capture| capture_view(c)) =~= rs@.take(k as int).map_values(|r: Range<usize>| piece_at(b, r.start, r.end)),
                    decreases rs@.len() - k,
                {
                    let (s, e) = (rs[k].start, rs[k].end);
                    let ghost seen = cs@.map_values(|c: Capture| capture_view(c));
                    let c = Capture { span: Span { start: s, end: e }, text: text_of(source, Span { start: s, end: e }) };
                    cs.push(c);
                    proof {
                        assert(capture_view(c) == piece_at(b, s, e));
                        assert(cs@.map_values(|c: Capture| capture_view(c)) =~= seen.push(piece_at(b, s, e)));
                        assert(rs@.take(k + 1) =~= rs@.take(k as int).push(rs@[k as int]));
                    }
                    k = k + 1;
                }
                proof {
                    assert(rs@.take(k as int) =~= rs@);
                }
                out.push((owned(n.as_str()), CaptureValue::Multiple(cs)));
                proof {
                    assert(rs@.map_values(|r: Range<usize>| piece_at(b, r.start, r.end)) =~= rs@.map_values(|r: Range<usize>| pair(r)).map_values(|r: (usize, usize)| piece_at(b, r.0, r.1)));
                    assert(captures_view(out@) =~= before.push((n@, CaptureView::Multiple(rs@.map_values(|r: Range<usize>| pair(r)).map_values(|r: (usize, usize)| piece_at(b, r.0, r.1))))));
                }
            },
            _ => {},
        }
        i = i + 1;
    }
    proof {
        assert(xs.take(i as int) =~= xs);
    }
    out
}

/// The bindings of the first hit at `span`.
fn bindings_for<'a>(es: &'a Vec<Bindings>, span: Span) -> (r: Option<&'a Vec<Bound>>)
    ensures
        match r {
            Some(bs) => bindings_at(bindings_view(es@), span) == Some(bs@.map_values(|x: Bound| bound_view(x)).to_multiset()),
            None => bindings_at(bindings_view(es@), span) is None,
        },
{
    let mut i: usize = 0;
    proof {
        assert(bindings_view(es@).skip(0) =~= bindings_view(es@));
    }
    while i < es.len()
        invariant
            0 <= i <= es@.len(),
            bindings_at(bindings_view(es@), span) == bindings_at(bindings_view(es@).skip(i as int), span),
        decreases es@.len() - i,
    {
        proof {
            assert(bindings_view(es@).skip(i as int)[0] == bindings_view(es@)[i as int]);
            assert(bindings_view(es@).skip(i as int).drop_first() =~= bindings_view(es@).skip(i + 1));
        }
        if es[i].0.start == span.start && es[i].0.end == span.end {
            return Some(&es[i].1);
        }
        i = i + 1;
    }
    None
}

/// The matches, each given the captures of the hit at its range.
fn with_captures(ms: &Vec<RawMatch>, source: &str, es: &Vec<Bindings>) -> (r: Vec<RawMatch>)
    ensures
        raw_matches_view(r@) == raw_matches_view(ms@),
        forall|i: int| 0 <= i < r@.len() ==> carries(#[trigger] r@[i], bytes_of(source@), bindings_view(es@)),
{
    let ghost b = bytes_of(source@);
    let mut out: Vec<RawMatch> = Vec::new();
    let mut i: usize = 0;
    while i < ms.len()
        invariant
            b == bytes_of(source@),
            0 <= i <= ms@.len(),
            raw_matches_view(out@) =~= raw_matches_view(ms@).take(i as int),
            forall|j: int| 0 <= j < out@.len() ==> carries(#[trigger] out@[j], b, bindings_view(es@)),
        decreases ms@.len() - i,
    {
        let m = &ms[i];
        let captures = match bindings_for(es, m.span) {
            Some(bs) => captures_in(source, bs),
            None => Vec::new(),
        };
        let symbol = match &m.symbol {
            Some(s) => Some(copy_symbol(s)),
            None => None,
        };
        let x = RawMatch { span: m.span, kind: owned(m.kind.as_str()), text: owned(m.text.as_str()), symbol, role: m.role, captures };
        proof {
            match bindings_at(bindings_view(es@), x.span) {
                Some(bs) => {
                    let p = choose|p: Seq<BoundView>| p.to_multiset() == bs && captures_view(x.captures@) == captures_from(b, p);
                },
                None => {},
            }
        }
        let ghost before = out@;
        out.push(x);
        proof {
            assert(raw_matches_view(out@) =~= raw_matches_view(before).push(raw_match_view(x)));
            assert(raw_matches_view(ms@).take(i + 1) =~= raw_matches_view(ms@).take(i as int).push(raw_match_view(ms@[i as int])));
            assert(out@[i as int] == x);
        }
        i = i + 1;
    }
    proof {
        assert(raw_matches_view(ms@).take(i as int) =~= raw_matches_view(ms@));
    }
    out
}

/// Node `x` is itself an import: a statement kind the grammar names, or,
/// where it names none, a kind whose path field is filled.
pub open spec fn import_here(
    v: Seq<NodeView>,
    statements: Seq<Seq<char>>,
    rules: Seq<ImportRule>,
    x: int,
) -> bool {
    if statements.len() > 0 {
        statements.contains(v[x].0)
    } else {
        exists|k: int| 0 <= k < rules.len() && rule_reads_path(#[trigger] rules[k], v, x)
    }
}

/// The rule reads a path from a field of node `x`, and that field is
/// filled.
pub open spec fn rule_reads_path(r: ImportRule, v: Seq<NodeView>, x: int) -> bool {
    match r {
        ImportRule::Node { kind, field: Some(f), .. } => kind@ == v[x].0 && field_of(v, x, f) is Some,
        _ => false,
    }
}

/// Node `x` sits in an import: it or one of its ancestors is one.
pub open spec fn in_import(
    v: Seq<NodeView>,
    statements: Seq<Seq<char>>,
    rules: Seq<ImportRule>,
    x: int,
) -> bool
    decreases x,
{
    if import_here(v, statements, rules, x) {
        true
    } else {
        match parent_of(v, x) {
            Some(p) => if 0 <= p < x {
                in_import(v, statements, rules, p)
            } else {
                false
            },
            None => false,
        }
    }
}

/// What node `x` is to its name short of a declaration: an import inside
/// an import statement, else a use.
pub open spec fn role_at(v: Seq<NodeView>, g: Grammar, x: int) -> Role {
    if in_import(v, kinds_view(g.imports.statements@), g.imports.rules@, x) {
        Role::Import
    } else {
        Role::Use
    }
}

/// The identifier tokens among the nodes from the `k`-th on that spell
/// `name`, in order.
pub open spec fn identifiers_from(v: Seq<NodeView>, b: Seq<u8>, g: Grammar, name: Seq<char>, k: int) -> Seq<RawMatchView>
    decreases v.len() - k,
{
    if k < 0 || k >= v.len() {
        seq![]
    } else {
        let here = if kinds_view(g.identifiers@).contains(v[k].0) && text_at(b, v[k].2) == name {
            seq![(v[k].2, v[k].0, text_at(b, v[k].2), None::<SymbolView>, role_at(v, g, k))]
        } else {
            seq![]
        };
        here + identifiers_from(v, b, g, name, k + 1)
    }
}

/// The declarations found, without their nodes.
pub open spec fn symbols_only(f: Seq<(usize, SymbolView)>) -> Seq<SymbolView> {
    f.map_values(|e: (usize, SymbolView)| e.1)
}

/// The nodes a grammar parses `source` into.
pub open spec fn nodes_of(lang: Lang, source: Seq<char>) -> Seq<NodeView> {
    parse_of(lang, source, recorded_fields())
}

/// Why a query cannot be run against a grammar.
#[derive(Debug, Clone, PartialEq, Eq)]
pub enum SearchError {
    /// The pattern does not compile; ast-grep's message.
    Pattern(String),
    /// The grammar has no node kind of that name; ast-grep's message.
    Kind(String),
}

/// What a search gives, as values.
pub enum FindOutcome {
    Matches(Seq<RawMatchView>),
    BadPattern(Seq<char>),
    BadKind(Seq<char>),
}

/// A search's result as values.
pub open spec fn find_view(r: Result<Vec<RawMatch>, SearchError>) -> FindOutcome {
    match r {
        Ok(ms) => FindOutcome::Matches(raw_matches_view(ms@)),
        Err(SearchError::Pattern(m)) => FindOutcome::BadPattern(m@),
        Err(SearchError::Kind(m)) => FindOutcome::BadKind(m@),
    }
}

/// The name a query asks for as a bare word: a pattern that is one
/// identifier, with no kind beside it.
pub open spec fn bare_name(q: QueryView) -> Option<Seq<char>> {
    match q.pattern {
        Some(p) => if is_identifier(p) && q.kind is None {
            Some(p)
        } else {
            None
        },
        None => None,
    }
}

/// The query has a structural part: a pattern or a kind.
pub open spec fn structural(q: QueryView) -> bool {
    q.pattern is Some || q.kind is Some
}

/// The query narrows to declarations: by symbol kind or by name.
pub open spec fn symbolic(q: QueryView) -> bool {
    q.symbol is Some || q.name is Some
}

/// The first node, from the `k`-th on, with the hit's range and kind.
pub open spec fn locate(v: Seq<NodeView>, h: (usize, usize, Seq<char>), k: int) -> Option<int>
    decreases v.len() - k,
{
    if k < 0 || k >= v.len() {
        None
    } else if v[k].2 == (Span { start: h.0, end: h.1 }) && v[k].0 == h.2 {
        Some(k)
    } else {
        locate(v, h, k + 1)
    }
}

/// A pattern's hit as a match: an import or a use by where its node sits.
pub open spec fn pattern_match(v: Seq<NodeView>, b: Seq<u8>, g: Grammar, h: (usize, usize, Seq<char>)) -> RawMatchView {
    let span = Span { start: h.0, end: h.1 };
    (
        span,
        h.2,
        text_at(b, span),
        None,
        match locate(v, h, 0) {
            Some(k) => role_at(v, g, k),
            None => Role::Use,
        },
    )
}

/// The pattern's hits as matches, those of another kind than `kind`
/// left out when a kind is asked for.
pub open spec fn pattern_matches(v: Seq<NodeView>, b: Seq<u8>, g: Grammar, kind: Option<Seq<char>>, hs: Seq<(usize, usize, Seq<char>)>) -> Seq<RawMatchView>
    decreases hs.len(),
{
    if hs.len() == 0 {
        seq![]
    } else {
        let rest = pattern_matches(v, b, g, kind, hs.drop_last());
        let h = hs.last();
        match kind {
            Some(k) => if h.2 == k {
                rest.push(pattern_match(v, b, g, h))
            } else {
                rest
            },
            None => rest.push(pattern_match(v, b, g, h)),
        }
    }
}

/// The hits a structural query works from: a pattern's (the separately
/// found hits of a pattern of a kind, when a kind is given beside it), or
/// a kind's nodes alone.
pub open spec fn structural_hits(lang: Lang, source: Seq<char>, q: QueryView, hs: Seq<(usize, usize, Seq<char>)>) -> Seq<(usize, usize, Seq<char>)> {
    match q.pattern {
        Some(p) => match q.kind {
            Some(k) => match kinded_hits(lang, source, p, k) {
                Ok(ks) => ks,
                Err(_) => seq![],
            },
            None => hs,
        },
        None => match q.kind {
            Some(k) => kind_hits(lang, source, k),
            None => seq![],
        },
    }
}

/// The declarations themselves as matches.
pub open spec fn declaration_matches(v: Seq<NodeView>, b: Seq<u8>, found: Seq<(usize, SymbolView)>) -> Seq<RawMatchView> {
    found.map_values(
        |e: (usize, SymbolView)| (v[e.0 as int].2, v[e.0 as int].0, text_at(b, v[e.0 as int].2), Some(e.1), Role::Use),
    )
}

/// The last declaration whose name (or, for a structural hit, whose
/// node) has exactly this range.
pub open spec fn keyed(found: Seq<(usize, SymbolView)>, span: Span, by_name: bool) -> Option<SymbolView>
    decreases found.len(),
{
    if found.len() == 0 {
        None
    } else {
        let s = found.last().1;
        if (if by_name { s.2 } else { s.3 }) == span {
            Some(s)
        } else {
            keyed(found.drop_last(), span, by_name)
        }
    }
}

/// Each match given the declaration it sits on.
pub open spec fn attached(ms: Seq<RawMatchView>, found: Seq<(usize, SymbolView)>, by_name: bool) -> Seq<RawMatchView> {
    ms.map_values(|m: RawMatchView| (m.0, m.1, m.2, keyed(found, m.0, by_name), m.4))
}

/// One match through the query's narrowing: an `impl` block is no
/// declaration unless asked for; without a structural part only
/// declarations stay; symbol and name filters keep what they name; a
/// declaration is marked as one.
pub open spec fn finish(m: RawMatchView, q: QueryView) -> Option<RawMatchView> {
    let not_impl = q.symbol != Some(SymbolKind::Impl);
    let symbol = match m.3 {
        Some(s) => if not_impl && s.0 == SymbolKind::Impl {
            None
        } else {
            Some(s)
        },
        None => None,
    };
    let keep_plain = !not_impl || structural(q) || symbol is Some;
    let keep_named = !symbolic(q) || match symbol {
        Some(s) => (match q.symbol {
            Some(k) => k == s.0,
            None => true,
        }) && (match q.name {
            Some(n) => n == s.1,
            None => true,
        }),
        None => false,
    };
    if keep_plain && keep_named {
        Some((m.0, m.1, m.2, symbol, if symbol is Some { Role::Declaration } else { m.4 }))
    } else {
        None
    }
}

/// The matches through the query's narrowing, in order.
pub open spec fn finished(ms: Seq<RawMatchView>, q: QueryView) -> Seq<RawMatchView>
    decreases ms.len(),
{
    if ms.len() == 0 {
        seq![]
    } else {
        let rest = finished(ms.drop_last(), q);
        match finish(ms.last(), q) {
            Some(m) => rest.push(m),
            None => rest,
        }
    }
}

/// What searching `source` in `lang` by `q` gives. A bare name is every
/// identifier token spelling it. Otherwise the pattern must compile and
/// the kind must be one of the grammar's; a pattern gives its hits (of
/// the kind, when one is asked for), a kind alone the named nodes of that
/// kind, and neither the declarations themselves. Hits are given the
/// declaration they sit on, then narrowed by the query.
pub open spec fn find_outcome(lang: Lang, source: Seq<char>, q: QueryView, g: Grammar) -> FindOutcome {
    let v = nodes_of(lang, source);
    let b = bytes_of(source);
    let found = symbols_from(v, b, kinds_view(g.leading@), g.symbols@, 0);
    match bare_name(q) {
        Some(name) => FindOutcome::Matches(finished(attached(identifiers_from(v, b, g, name, 0), found, true), q)),
        None => {
            let compiled = match q.pattern {
                Some(p) => pattern_hits(lang, source, p),
                None => Ok(seq![]),
            };
            match compiled {
                Err(m) => FindOutcome::BadPattern(m),
                Ok(hs) => match q.kind {
                    Some(k) if !kind_valid(lang, k) => FindOutcome::BadKind(invalid_kind_message(k)),
                    _ => if !structural(q) {
                        FindOutcome::Matches(finished(declaration_matches(v, b, found), q))
                    } else {
                        let hits = pattern_matches(v, b, g, None, structural_hits(lang, source, q, hs));
                        FindOutcome::Matches(finished(attached(hits, found, false), q))
                    },
                },
            }
        },
    }
}

/// A match as a search hands it out: a declaration exactly when it
/// carries one, an `impl` block only when the query asks for them, and,
/// for a query that narrows to declarations, one that the query names.
pub open spec fn handed_out(m: RawMatchView, q: QueryView) -> bool {
    &&& (m.3 is Some <==> m.4 == Role::Declaration)
    &&& (m.3 matches Some(s) && s.0 == SymbolKind::Impl ==> q.symbol == Some(SymbolKind::Impl))
    &&& (symbolic(q) ==> (m.3 matches Some(s) && (match q.symbol {
        Some(k) => k == s.0,
        None => true,
    }) && (match q.name {
        Some(n) => n == s.1,
        None => true,
    })))
}

proof fn lemma_finish_handed_out(m0: RawMatchView, q: QueryView)
    requires
        m0.4 != Role::Declaration,
    ensures
        finish(m0, q) matches Some(m) ==> handed_out(m, q),
{
}

proof fn lemma_finished_handed_out(ms: Seq<RawMatchView>, q: QueryView)
    requires
        forall|i: int| 0 <= i < ms.len() ==> (#[trigger] ms[i]).4 != Role::Declaration,
    ensures
        forall|i: int| 0 <= i < finished(ms, q).len() ==> handed_out(#[trigger] finished(ms, q)[i], q),
    decreases ms.len(),
{
    if ms.len() > 0 {
        let u = ms.drop_last();
        assert forall|i: int| 0 <= i < u.len() implies (#[trigger] u[i]).4 != Role::Declaration by {
            assert(u[i] == ms[i]);
        }
        lemma_finished_handed_out(u, q);
        assert(ms.last() == ms[ms.len() - 1]);
        lemma_finish_handed_out(ms.last(), q);
        let rest = finished(u, q);
        match finish(ms.last(), q) {
            Some(m) => {
                assert forall|i: int| 0 <= i < rest.push(m).len() implies handed_out(#[trigger] rest.push(m)[i], q) by {
                    if i < rest.len() {
                        assert(rest.push(m)[i] == rest[i]);
                    }
                }
            },
            None => {},
        }
    }
}

proof fn lemma_no_declaration_roles(v: Seq<NodeView>, b: Seq<u8>, g: Grammar, name: Seq<char>, k: int)
    ensures
        forall|i: int| 0 <= i < identifiers_from(v, b, g, name, k).len() ==> (#[trigger] identifiers_from(v, b, g, name, k)[i]).4 != Role::Declaration,
    decreases v.len() - k,
{
    if 0 <= k < v.len() {
        lemma_no_declaration_roles(v, b, g, name, k + 1);
        let rest = identifiers_from(v, b, g, name, k + 1);
        let all = identifiers_from(v, b, g, name, k);
        assert forall|i: int| 0 <= i < all.len() implies (#[trigger] all[i]).4 != Role::Declaration by {
            if all.len() > rest.len() && i == 0 {
            } else {
                assert(all[i] == rest[i - (all.len() - rest.len())]);
            }
        }
    }
}

proof fn lemma_pattern_roles(v: Seq<NodeView>, b: Seq<u8>, g: Grammar, kind: Option<Seq<char>>, hs: Seq<(usize, usize, Seq<char>)>)
    ensures
        forall|i: int| 0 <= i < pattern_matches(v, b, g, kind, hs).len() ==> (#[trigger] pattern_matches(v, b, g, kind, hs)[i]).4 != Role::Declaration,
    decreases hs.len(),
{
    if hs.len() > 0 {
        lemma_pattern_roles(v, b, g, kind, hs.drop_last());
    }
}

/// What a search hands out is a declaration exactly when it is marked as
/// one; an `impl` block only when the query asks for that kind; and when
/// the query narrows by symbol kind or name, only declarations of that
/// kind and name.
pub proof fn law_searches_hand_out_what_the_query_names(lang: Lang, source: Seq<char>, q: QueryView, g: Grammar)
    requires
        find_outcome(lang, source, q, g) is Matches,
    ensures
        forall|i: int| 0 <= i < find_outcome(lang, source, q, g)->Matches_0.len() ==> handed_out(
            #[trigger] find_outcome(lang, source, q, g)->Matches_0[i],
            q,
        ),
{
    let v = nodes_of(lang, source);
    let b = bytes_of(source);
    let found = symbols_from(v, b, kinds_view(g.leading@), g.symbols@, 0);
    match bare_name(q) {
        Some(name) => {
            lemma_no_declaration_roles(v, b, g, name, 0);
            let ms = identifiers_from(v, b, g, name, 0);
            let a = attached(ms, found, true);
            assert forall|i: int| 0 <= i < a.len() implies (#[trigger] a[i]).4 != Role::Declaration by {
                assert(a[i].4 == ms[i].4);
            }
            lemma_finished_handed_out(a, q);
        },
        None => {
            let compiled = match q.pattern {
                Some(p) => crate::syntax::matching::pattern_hits(lang, source, p),
                None => Ok(seq![]),
            };
            if let Ok(hs) = compiled {
                if !structural(q) {
                    let d = declaration_matches(v, b, found);
                    lemma_finished_handed_out(d, q);
                } else {
                    let hits = pattern_matches(v, b, g, None, structural_hits(lang, source, q, hs));
                    lemma_pattern_roles(v, b, g, None, structural_hits(lang, source, q, hs));
                    let a = attached(hits, found, false);
                    assert forall|i: int| 0 <= i < a.len() implies (#[trigger] a[i]).4 != Role::Declaration by {
                        assert(a[i].4 == hits[i].4);
                    }
                    lemma_finished_handed_out(a, q);
                }
            }
        },
    }
}

/// Whether `kind` is among `kinds`.
pub(crate) fn listed(kinds: &Vec<&'static str>, kind: &str) -> (r: bool)
    ensures
        r == kinds_view(kinds@).contains(kind@),
{
    let ghost ks = kinds_view(kinds@);
    let mut k: usize = 0;
    while k < kinds.len()
        invariant
            ks == kinds_view(kinds@),
            0 <= k <= kinds@.len(),
            forall|m: int| 0 <= m < k ==> ks[m] != kind@,
        decreases kinds@.len() - k,
    {
        if str_eq(kinds[k], kind) {
            proof {
                assert(ks[k as int] == kind@);
            }
            return true;
        }
        k = k + 1;
    }
    false
}

/// Each declaration found sits on a node of the tree.
proof fn lemma_found_nodes(v: Seq<NodeView>, b: Seq<u8>, leading: Seq<Seq<char>>, rules: Seq<crate::syntax::symbols::SymbolRule>, k: int)
    requires
        0 <= k,
    ensures
        forall|j: int| 0 <= j < symbols_from(v, b, leading, rules, k).len() ==> (#[trigger] symbols_from(v, b, leading, rules, k)[j]).0 < v.len(),
    decreases v.len() - k,
{
    if k < v.len() {
        lemma_found_nodes(v, b, leading, rules, k + 1);
        let rest = symbols_from(v, b, leading, rules, k + 1);
        let all = symbols_from(v, b, leading, rules, k);
        assert forall|j: int| 0 <= j < all.len() implies (#[trigger] all[j]).0 < v.len() by {
            if all.len() > rest.len() && j == 0 {
            } else {
                let d = all.len() - rest.len();
                assert(all[j] == rest[j - d]);
            }
        }
    }
}

/// The last declaration found whose name (or node) has exactly `span`.
fn keyed_symbol(found: &Vec<(usize, Symbol)>, span: Span, by_name: bool) -> (r: Option<Symbol>)
    ensures
        match r {
            Some(s) => keyed(found_view(found@), span, by_name) == Some(symbol_view(s)),
            None => keyed(found_view(found@), span, by_name) is None,
        },
{
    let ghost fv = found_view(found@);
    let mut k: usize = found.len();
    proof {
        assert(fv.take(k as int) =~= fv);
    }
    while k > 0
        invariant
            fv == found_view(found@),
            0 <= k <= found@.len(),
            keyed(fv, span, by_name) == keyed(fv.take(k as int), span, by_name),
        decreases k,
    {
        let s = &found[k - 1].1;
        let key = if by_name {
            s.name_span
        } else {
            s.span
        };
        proof {
            assert(fv.take(k as int).drop_last() =~= fv.take(k - 1));
            assert(fv.take(k as int).last().1 == symbol_view(*s));
        }
        if key == span {
            return Some(copy_symbol(s));
        }
        k = k - 1;
    }
    proof {
        assert(fv.take(0) =~= Seq::<(usize, SymbolView)>::empty());
    }
    None
}

/// Each match given the declaration it sits on.
fn attach_symbols(ms: &Vec<RawMatch>, found: &Vec<(usize, Symbol)>, by_name: bool) -> (r: Vec<RawMatch>)
    ensures
        raw_matches_view(r@) == attached(raw_matches_view(ms@), found_view(found@), by_name),
{
    let ghost want = attached(raw_matches_view(ms@), found_view(found@), by_name);
    let mut out: Vec<RawMatch> = Vec::new();
    let mut k: usize = 0;
    while k < ms.len()
        invariant
            want == attached(raw_matches_view(ms@), found_view(found@), by_name),
            0 <= k <= ms@.len(),
            raw_matches_view(out@) == want.take(k as int),
        decreases ms@.len() - k,
    {
        let m = &ms[k];
        let symbol = keyed_symbol(found, m.span, by_name);
        let ghost before = out@;
        out.push(RawMatch { span: m.span, kind: owned(m.kind.as_str()), text: owned(m.text.as_str()), symbol, role: m.role, captures: Vec::new() });
        proof {
            assert(raw_matches_view(out@) =~= raw_matches_view(before).push(raw_match_view(out@.last())));
            assert(want.take(k + 1) =~= want.take(k as int).push(want[k as int]));
        }
        k = k + 1;
    }
    proof {
        assert(want.take(k as int) =~= want);
    }
    out
}

/// One match through the query's narrowing.
fn finish_match(m: &RawMatch, q: &Query) -> (r: Option<RawMatch>)
    ensures
        r matches Some(x) ==> x.captures@.len() == 0,
        match r {
            Some(x) => finish(raw_match_view(*m), q@) == Some(raw_match_view(x)),
            None => finish(raw_match_view(*m), q@) is None,
        },
{
    let not_impl = match q.symbol {
        Some(SymbolKind::Impl) => false,
        _ => true,
    };
    let symbol = match &m.symbol {
        Some(s) => if not_impl && s.kind == SymbolKind::Impl {
            None
        } else {
            Some(copy_symbol(s))
        },
        None => None,
    };
    let keep_plain = !not_impl || q.pattern.is_some() || q.kind.is_some() || symbol.is_some();
    let keep_named = if q.symbol.is_some() || q.name.is_some() {
        match &symbol {
            Some(s) => {
                let kind_fits = match q.symbol {
                    Some(k) => k == s.kind,
                    None => true,
                };
                let name_fits = match &q.name {
                    Some(n) => str_eq(n.as_str(), s.name.as_str()),
                    None => true,
                };
                kind_fits && name_fits
            },
            None => false,
        }
    } else {
        true
    };
    if keep_plain && keep_named {
        let role = if symbol.is_some() {
            Role::Declaration
        } else {
            m.role
        };
        Some(RawMatch { span: m.span, kind: owned(m.kind.as_str()), text: owned(m.text.as_str()), symbol, role, captures: Vec::new() })
    } else {
        None
    }
}

/// The matches through the query's narrowing, in order.
fn finish_matches(ms: &Vec<RawMatch>, q: &Query) -> (r: Vec<RawMatch>)
    ensures
        raw_matches_view(r@) == finished(raw_matches_view(ms@), q@),
        forall|i: int| 0 <= i < r@.len() ==> (#[trigger] r@[i]).captures@.len() == 0,
{
    let ghost mv = raw_matches_view(ms@);
    let mut out: Vec<RawMatch> = Vec::new();
    let mut k: usize = 0;
    while k < ms.len()
        invariant
            mv == raw_matches_view(ms@),
            0 <= k <= ms@.len(),
            raw_matches_view(out@) == finished(mv.take(k as int), q@),
            forall|i: int| 0 <= i < out@.len() ==> (#[trigger] out@[i]).captures@.len() == 0,
        decreases ms@.len() - k,
    {
        let ghost before = out@;
        proof {
            assert(mv.take(k + 1).drop_last() =~= mv.take(k as int));
            assert(mv.take(k + 1).last() == raw_match_view(ms@[k as int]));
        }
        match finish_match(&ms[k], q) {
            Some(x) => {
                out.push(x);
                proof {
                    assert(raw_matches_view(out@) =~= raw_matches_view(before).push(raw_match_view(x)));
                }
            },
            None => {},
        }
        k = k + 1;
    }
    proof {
        assert(mv.take(k as int) =~= mv);
    }
    out
}

/// The declarations found, without their nodes.
fn symbols_of(found: &Vec<(usize, Symbol)>) -> (r: Vec<Symbol>)
    ensures
        r@.map_values(|s: Symbol| symbol_view(s)) == symbols_only(found_view(found@)),
{
    let mut out: Vec<Symbol> = Vec::new();
    let mut k: usize = 0;
    while k < found.len()
        invariant
            0 <= k <= found@.len(),
            out@.map_values(|s: Symbol| symbol_view(s)) == symbols_only(found_view(found@)).take(k as int),
        decreases found@.len() - k,
    {
        let ghost before = out@;
        out.push(copy_symbol(&found[k].1));
        proof {
            assert(symbols_only(found_view(found@))[k as int] == symbol_view(found@[k as int].1));
            assert(out@.map_values(|s: Symbol| symbol_view(s)) =~= before.map_values(|s: Symbol| symbol_view(s)).push(symbol_view(found@[k as int].1)));
            assert(out@.map_values(|s: Symbol| symbol_view(s)) =~= symbols_only(found_view(found@)).take(k + 1));
        }
        k = k + 1;
    }
    proof {
        assert(symbols_only(found_view(found@)).take(k as int) =~= symbols_only(found_view(found@)));
    }
    out
}

/// The identifier tokens among the nodes from the `k`-th on, in order:
/// text, kind and range.
pub open spec fn tokens_from(v: Seq<NodeView>, b: Seq<u8>, g: Grammar, k: int) -> Seq<(Seq<char>, Seq<char>, Span)>
    decreases v.len() - k,
{
    if k < 0 || k >= v.len() {
        seq![]
    } else {
        (if kinds_view(g.identifiers@).contains(v[k].0) {
            seq![(text_at(b, v[k].2), v[k].0, v[k].2)]
        } else {
            seq![]
        }) + tokens_from(v, b, g, k + 1)
    }
}

/// The identifier tokens from the `k`-th node on that spell `name` are
/// exactly the references to it, range for range.
proof fn lemma_tokens_are_references(v: Seq<NodeView>, b: Seq<u8>, g: Grammar, name: Seq<char>, k: int)
    requires
        0 <= k,
    ensures
        tokens_with(tokens_from(v, b, g, k), name).map_values(|e: (Span, Seq<char>)| e.0)
            == identifiers_from(v, b, g, name, k).map_values(|m: RawMatchView| m.0),
    decreases v.len() - k,
{
    if k < v.len() {
        lemma_tokens_are_references(v, b, g, name, k + 1);
        let here = if kinds_view(g.identifiers@).contains(v[k].0) {
            seq![(text_at(b, v[k].2), v[k].0, v[k].2)]
        } else {
            seq![]
        };
        lemma_tokens_with_append(here, tokens_from(v, b, g, k + 1), name);
        let rest_t = tokens_with(tokens_from(v, b, g, k + 1), name);
        let rest_i = identifiers_from(v, b, g, name, k + 1);
        let head_t = tokens_with(here, name);
        let head_i = if kinds_view(g.identifiers@).contains(v[k].0) && text_at(b, v[k].2) == name {
            seq![(v[k].2, v[k].0, text_at(b, v[k].2), None::<SymbolView>, role_at(v, g, k))]
        } else {
            seq![]
        };
        assert(tokens_from(v, b, g, k) == here + tokens_from(v, b, g, k + 1));
        assert(identifiers_from(v, b, g, name, k) == head_i + rest_i);
        if here.len() > 0 {
            assert(here.drop_last() =~= Seq::<(Seq<char>, Seq<char>, Span)>::empty());
            assert(tokens_with(here.drop_last(), name) =~= Seq::<(Span, Seq<char>)>::empty());
            assert(here.last() == (text_at(b, v[k].2), v[k].0, v[k].2));
        }
        assert(head_t.map_values(|e: (Span, Seq<char>)| e.0) =~= head_i.map_values(|m: RawMatchView| m.0));
        assert((head_t + rest_t).map_values(|e: (Span, Seq<char>)| e.0) =~= head_t.map_values(|e: (Span, Seq<char>)| e.0) + rest_t.map_values(|e: (Span, Seq<char>)| e.0));
        assert((head_i + rest_i).map_values(|m: RawMatchView| m.0) =~= head_i.map_values(|m: RawMatchView| m.0) + rest_i.map_values(|m: RawMatchView| m.0));
    }
}

proof fn lemma_tokens_with_append(a: Seq<(Seq<char>, Seq<char>, Span)>, c: Seq<(Seq<char>, Seq<char>, Span)>, name: Seq<char>)
    ensures
        tokens_with(a + c, name) == tokens_with(a, name) + tokens_with(c, name),
    decreases c.len(),
{
    if c.len() == 0 {
        assert(a + c =~= a);
        assert(tokens_with(a, name) + tokens_with(c, name) =~= tokens_with(a, name));
    } else {
        lemma_tokens_with_append(a, c.drop_last(), name);
        assert((a + c).drop_last() =~= a + c.drop_last());
        assert((a + c).last() == c.last());
        if c.last().0 == name {
            assert(tokens_with(a, name) + tokens_with(c, name) =~= (tokens_with(a, name) + tokens_with(c.drop_last(), name)).push((c.last().2, c.last().1)));
        }
    }
}

/// What one parse tells of the tokens spelling a name is what asking for
/// the references to that name gives: the same ranges, in the same order.
pub proof fn law_tokens_named_are_the_references(lang: Lang, source: Seq<char>, g: Grammar, name: Seq<char>)
    ensures
        tokens_with(tokens_from(nodes_of(lang, source), bytes_of(source), g, 0), name).map_values(|e: (Span, Seq<char>)| e.0)
            == identifiers_from(nodes_of(lang, source), bytes_of(source), g, name, 0).map_values(|m: RawMatchView| m.0),
{
    lemma_tokens_are_references(nodes_of(lang, source), bytes_of(source), g, name, 0);
}

/// Search and declaration finding over one grammar.
pub struct AstGrepSearcher {
    pub lang: Lang,
    pub grammar: Grammar,
}

impl AstGrepSearcher {
    pub fn new(lang: Lang, grammar: Grammar) -> (s: AstGrepSearcher)
        ensures
            s.lang == lang,
            s.grammar == grammar,
    {
        AstGrepSearcher { lang, grammar }
    }

    /// How this grammar spells paths.
    pub fn paths(&self) -> (r: PathSyntax)
        ensures
            r == self.grammar.paths,
    {
        self.grammar.paths
    }

    /// What ends a glob import in this grammar, where there is one.
    pub fn glob_marker(&self) -> (r: Option<&'static str>)
        ensures
            r == self.grammar.glob_marker,
    {
        self.grammar.glob_marker
    }

    /// The colours of `source`, in the order a walk from the root meets
    /// them.
    pub fn highlights(&self, source: &str) -> (r: Vec<Highlight>)
        ensures
            r@ == highlights_of(
                nodes_of(self.lang, source@),
                bytes_of(source@),
                highlight_rules_view(self.grammar.highlights@),
            ),
    {
        let tree = SyntaxTree::parse(self.lang, source);
        Highlighter::new(&self.grammar.highlights).extract(&tree, source)
    }

    /// The declarations in `source`, in the order of their nodes.
    pub fn symbols(&self, source: &str) -> (r: Vec<Symbol>)
        ensures
            r@.map_values(|s: Symbol| symbol_view(s)) == symbols_only(
                symbols_from(
                    nodes_of(self.lang, source@),
                    bytes_of(source@),
                    kinds_view(self.grammar.leading@),
                    self.grammar.symbols@,
                    0,
                ),
            ),
    {
        let tree = SyntaxTree::parse(self.lang, source);
        let found = SymbolExtractor::new(&self.grammar.symbols, &self.grammar.leading).extract(&tree, source);
        symbols_of(&found)
    }

    /// The paths `source` imports, sorted by where they start, the
    /// outermost kept; or why the grammar's import rules cannot run.
    pub fn imports(&self, source: &str) -> (r: Result<Vec<ImportRef>, SearchError>)
        ensures
            match r {
                Ok(rs) => imports_of(self.lang, source@, self.grammar.imports) == Ok::<Seq<ImportView>, ImportsFailure>(imports_view(rs@)),
                Err(SearchError::Kind(m)) => imports_of(self.lang, source@, self.grammar.imports) == Err::<Seq<ImportView>, ImportsFailure>(ImportsFailure::Kind(m@)),
                Err(SearchError::Pattern(m)) => imports_of(self.lang, source@, self.grammar.imports) == Err::<Seq<ImportView>, ImportsFailure>(ImportsFailure::Pattern(m@)),
            },
    {
        let tree = SyntaxTree::parse(self.lang, source);
        ImportExtractor::new(&self.grammar.imports, self.lang).extract(&tree, source)
    }

    /// What one parse of `source` tells: its declarations, as `symbols`
    /// gives them; its imports, as `imports` gives them; its colours, as
    /// `highlights` gives them; and its identifier tokens in order.
    pub fn facts(&self, source: &str) -> (r: Result<Facts, SearchError>)
        ensures
            match r {
                Ok(f) => {
                    &&& f.symbols@.map_values(|s: Symbol| symbol_view(s)) == symbols_only(
                        symbols_from(
                            nodes_of(self.lang, source@),
                            bytes_of(source@),
                            kinds_view(self.grammar.leading@),
                            self.grammar.symbols@,
                            0,
                        ),
                    )
                    &&& imports_of(self.lang, source@, self.grammar.imports) == Ok::<Seq<ImportView>, ImportsFailure>(imports_view(f.imports@))
                    &&& f.highlights@ == highlights_of(
                        nodes_of(self.lang, source@),
                        bytes_of(source@),
                        highlight_rules_view(self.grammar.highlights@),
                    )
                    &&& f.tokens@.map_values(|t: Token| token_view(t)) == tokens_from(nodes_of(self.lang, source@), bytes_of(source@), self.grammar, 0)
                },
                Err(SearchError::Kind(m)) => imports_of(self.lang, source@, self.grammar.imports) == Err::<Seq<ImportView>, ImportsFailure>(ImportsFailure::Kind(m@)),
                Err(SearchError::Pattern(m)) => imports_of(self.lang, source@, self.grammar.imports) == Err::<Seq<ImportView>, ImportsFailure>(ImportsFailure::Pattern(m@)),
            },
    {
        let tree = SyntaxTree::parse(self.lang, source);
        let imports = match ImportExtractor::new(&self.grammar.imports, self.lang).extract(&tree, source) {
            Ok(i) => i,
            Err(e) => {
                return Err(e);
            },
        };
        let found = SymbolExtractor::new(&self.grammar.symbols, &self.grammar.leading).extract(&tree, source);
        let symbols = symbols_of(&found);
        let highlights = Highlighter::new(&self.grammar.highlights).extract(&tree, source);
        let tokens = self.tokens(&tree, source);
        Ok(Facts { symbols, imports, highlights, tokens })
    }

    /// The identifier tokens of the tree, in order.
    fn tokens(&self, tree: &SyntaxTree, source: &str) -> (r: Vec<Token>)
        ensures
            r@.map_values(|t: Token| token_view(t)) == tokens_from(tree_view(*tree), bytes_of(source@), self.grammar, 0),
    {
        let ghost v = tree_view(*tree);
        let ghost b = bytes_of(source@);
        let mut out: Vec<Token> = Vec::new();
        let mut k: usize = 0;
        while k < tree.nodes.len()
            invariant
                v == tree_view(*tree),
                b == bytes_of(source@),
                0 <= k <= tree.nodes@.len(),
                out@.map_values(|t: Token| token_view(t)) + tokens_from(v, b, self.grammar, k as int) == tokens_from(v, b, self.grammar, 0),
            decreases tree.nodes@.len() - k,
        {
            let ghost before = out@.map_values(|t: Token| token_view(t));
            let node = &tree.nodes[k];
            if listed(&self.grammar.identifiers, node.kind.as_str()) {
                out.push(Token { text: text_of(source, node.span), kind: owned(node.kind.as_str()), span: node.span });
            }
            proof {
                assert(out@.map_values(|t: Token| token_view(t)) + tokens_from(v, b, self.grammar, k + 1)
                    =~= before + tokens_from(v, b, self.grammar, k as int));
            }
            k = k + 1;
        }
        proof {
            assert(out@.map_values(|t: Token| token_view(t)) =~= out@.map_values(|t: Token| token_view(t)) + tokens_from(v, b, self.grammar, k as int));
        }
        out
    }

    /// Every identifier token in `source` spelling `name`, in order, each
    /// an import when it sits in an import statement, else a use.
    pub fn references(&self, source: &str, name: &str) -> (r: Vec<RawMatch>)
        ensures
            raw_matches_view(r@) == identifiers_from(nodes_of(self.lang, source@), bytes_of(source@), self.grammar, name@, 0),
    {
        let tree = SyntaxTree::parse(self.lang, source);
        self.identifiers(&tree, source, name)
    }

    /// Every identifier token of the tree spelling `name`, in order.
    fn identifiers(&self, tree: &SyntaxTree, source: &str, name: &str) -> (r: Vec<RawMatch>)
        requires
            well_formed(*tree),
        ensures
            raw_matches_view(r@) == identifiers_from(tree_view(*tree), bytes_of(source@), self.grammar, name@, 0),
    {
        let ghost v = tree_view(*tree);
        let ghost b = bytes_of(source@);
        let mut out: Vec<RawMatch> = Vec::new();
        let mut k: usize = 0;
        while k < tree.nodes.len()
            invariant
                well_formed(*tree),
                v == tree_view(*tree),
                b == bytes_of(source@),
                0 <= k <= tree.nodes@.len(),
                raw_matches_view(out@) + identifiers_from(v, b, self.grammar, name@, k as int)
                    == identifiers_from(v, b, self.grammar, name@, 0),
            decreases tree.nodes@.len() - k,
        {
            let ghost before = out@;
            let node = &tree.nodes[k];
            if listed(&self.grammar.identifiers, node.kind.as_str()) {
                let text = text_of(source, node.span);
                if str_eq(text.as_str(), name) {
                    let role = self.role_of(tree, k);
                    out.push(RawMatch { span: node.span, kind: node.kind.clone(), text, symbol: None, role, captures: Vec::new() });
                }
            }
            proof {
                assert(raw_matches_view(out@) + identifiers_from(v, b, self.grammar, name@, k + 1)
                    =~= raw_matches_view(before) + identifiers_from(v, b, self.grammar, name@, k as int));
            }
            k = k + 1;
        }
        proof {
            assert(raw_matches_view(out@) =~= raw_matches_view(out@) + identifiers_from(v, b, self.grammar, name@, k as int));
        }
        out
    }

    /// Whether node `x` is itself an import.
    fn import_here(&self, tree: &SyntaxTree, x: usize) -> (r: bool)
        requires
            well_formed(*tree),
            x < tree.nodes@.len(),
        ensures
            r == import_here(tree_view(*tree), kinds_view(self.grammar.imports.statements@), self.grammar.imports.rules@, x as int),
    {
        let ghost v = tree_view(*tree);
        let node = &tree.nodes[x];
        if self.grammar.imports.statements.len() > 0 {
            return listed(&self.grammar.imports.statements, node.kind.as_str());
        }
        let rules = &self.grammar.imports.rules;
        let mut k: usize = 0;
        while k < rules.len()
            invariant
                well_formed(*tree),
                v == tree_view(*tree),
                x < tree.nodes@.len(),
                *node == tree.nodes@[x as int],
                *rules == self.grammar.imports.rules,
                self.grammar.imports.statements@.len() == 0,
                0 <= k <= rules@.len(),
                forall|m: int| 0 <= m < k ==> !rule_reads_path(#[trigger] rules@[m], v, x as int),
            decreases rules@.len() - k,
        {
            match rules[k] {
                ImportRule::Node { kind, field: Some(f), .. } => {
                    if str_eq(node.kind.as_str(), kind) && f < node.fields.len() {
                        match node.fields[f] {
                            Some(_) => {
                                proof {
                                    assert(rule_reads_path(rules@[k as int], v, x as int));
                                    assert(kinds_view(self.grammar.imports.statements@).len() == 0);
                                }
                                return true;
                            },
                            None => {},
                        }
                    }
                },
                _ => {},
            }
            k = k + 1;
        }
        false
    }

    /// What node `x` is to its name short of a declaration.
    fn role_of(&self, tree: &SyntaxTree, x: usize) -> (r: Role)
        requires
            well_formed(*tree),
            x < tree.nodes@.len(),
        ensures
            r == role_at(tree_view(*tree), self.grammar, x as int),
    {
        let ghost v = tree_view(*tree);
        let ghost ss = kinds_view(self.grammar.imports.statements@);
        let ghost fs = self.grammar.imports.rules@;
        let mut cur: usize = x;
        loop
            invariant
                well_formed(*tree),
                v == tree_view(*tree),
                ss == kinds_view(self.grammar.imports.statements@),
                fs == self.grammar.imports.rules@,
                cur < tree.nodes@.len(),
                in_import(v, ss, fs, x as int) == in_import(v, ss, fs, cur as int),
            decreases cur,
        {
            if self.import_here(tree, cur) {
                return Role::Import;
            }
            match tree.nodes[cur].parent {
                Some(p) => {
                    cur = p;
                },
                None => {
                    return Role::Use;
                },
            }
        }
    }

    /// The first node with the hit's range and kind.
    pub(crate) fn located(tree: &SyntaxTree, h: &Hit) -> (r: Option<usize>)
        ensures
            match r {
                Some(k) => k < tree.nodes@.len() && locate(tree_view(*tree), (h.0, h.1, h.2@), 0) == Some(k as int),
                None => locate(tree_view(*tree), (h.0, h.1, h.2@), 0) is None,
            },
    {
        let ghost v = tree_view(*tree);
        let ghost hv = (h.0, h.1, h.2@);
        let mut k: usize = 0;
        while k < tree.nodes.len()
            invariant
                v == tree_view(*tree),
                hv == (h.0, h.1, h.2@),
                0 <= k <= tree.nodes@.len(),
                locate(v, hv, 0) == locate(v, hv, k as int),
            decreases tree.nodes@.len() - k,
        {
            let node = &tree.nodes[k];
            if node.span.start == h.0 && node.span.end == h.1 && str_eq(node.kind.as_str(), h.2.as_str()) {
                return Some(k);
            }
            k = k + 1;
        }
        None
    }

    /// A pattern's hits as matches, of `kind` when one is asked for.
    fn pattern_hit_matches(&self, tree: &SyntaxTree, source: &str, kind: &Option<String>, hs: &Vec<Hit>) -> (r: Vec<RawMatch>)
        requires
            well_formed(*tree),
        ensures
            raw_matches_view(r@) == pattern_matches(tree_view(*tree), bytes_of(source@), self.grammar, opt_string(*kind), hits_view(hs@)),
    {
        let ghost v = tree_view(*tree);
        let ghost b = bytes_of(source@);
        let ghost hv = hits_view(hs@);
        let mut out: Vec<RawMatch> = Vec::new();
        let mut k: usize = 0;
        while k < hs.len()
            invariant
                well_formed(*tree),
                v == tree_view(*tree),
                b == bytes_of(source@),
                hv == hits_view(hs@),
                0 <= k <= hs@.len(),
                raw_matches_view(out@) == pattern_matches(v, b, self.grammar, opt_string(*kind), hv.take(k as int)),
            decreases hs@.len() - k,
        {
            let h = &hs[k];
            let ghost before = out@;
            proof {
                assert(hv.take(k + 1).drop_last() =~= hv.take(k as int));
                assert(hv.take(k + 1).last() == (h.0, h.1, h.2@));
            }
            let wanted = match kind {
                Some(want) => str_eq(h.2.as_str(), want.as_str()),
                None => true,
            };
            if wanted {
                let span = Span { start: h.0, end: h.1 };
                let role = match Self::located(tree, h) {
                    Some(n) => self.role_of(tree, n),
                    None => Role::Use,
                };
                out.push(RawMatch { span, kind: owned(h.2.as_str()), text: text_of(source, span), symbol: None, role, captures: Vec::new() });
                proof {
                    assert(raw_matches_view(out@) =~= raw_matches_view(before).push(raw_match_view(out@.last())));
                }
            }
            k = k + 1;
        }
        proof {
            assert(hv.take(k as int) =~= hv);
        }
        out
    }

    /// The declarations themselves as matches.
    fn declaration_hits(tree: &SyntaxTree, source: &str, found: &Vec<(usize, Symbol)>) -> (r: Vec<RawMatch>)
        requires
            forall|j: int| 0 <= j < found@.len() ==> (#[trigger] found@[j]).0 < tree.nodes@.len(),
        ensures
            raw_matches_view(r@) == declaration_matches(tree_view(*tree), bytes_of(source@), found_view(found@)),
    {
        let ghost want = declaration_matches(tree_view(*tree), bytes_of(source@), found_view(found@));
        let mut out: Vec<RawMatch> = Vec::new();
        let mut k: usize = 0;
        while k < found.len()
            invariant
                want == declaration_matches(tree_view(*tree), bytes_of(source@), found_view(found@)),
                forall|j: int| 0 <= j < found@.len() ==> (#[trigger] found@[j]).0 < tree.nodes@.len(),
                0 <= k <= found@.len(),
                raw_matches_view(out@) == want.take(k as int),
            decreases found@.len() - k,
        {
            let n = found[k].0;
            let node = &tree.nodes[n];
            let ghost before = out@;
            out.push(RawMatch {
                span: node.span,
                kind: owned(node.kind.as_str()),
                text: text_of(source, node.span),
                symbol: Some(copy_symbol(&found[k].1)),
                role: Role::Use,
                captures: Vec::new(),
            });
            proof {
                assert(raw_matches_view(out@) =~= raw_matches_view(before).push(raw_match_view(out@.last())));
                assert(want.take(k + 1) =~= want.take(k as int).push(want[k as int]));
            }
            k = k + 1;
        }
        proof {
            assert(want.take(k as int) =~= want);
        }
        out
    }

    /// Runs `query` against `source`: a bare name gives every identifier
    /// token spelling it; a pattern its hits, of the query's kind when
    /// one is given; a kind alone the named nodes of that kind; neither
    /// the declarations. Each hit gets the declaration it sits on, then
    /// the query's symbol and name filters narrow them; a pattern's hits
    /// carry what its meta-variables took.
    pub fn find(&self, source: &str, query: &Query) -> (r: Result<Vec<RawMatch>, SearchError>)
        ensures
            find_view(r) == find_outcome(self.lang, source@, query@, self.grammar),
            r matches Ok(ms) ==> forall|i: int| 0 <= i < ms@.len() ==> carries(
                #[trigger] ms@[i],
                bytes_of(source@),
                query_bindings(self.lang, source@, query@),
            ),
    {
        let tree = SyntaxTree::parse(self.lang, source);
        let found = SymbolExtractor::new(&self.grammar.symbols, &self.grammar.leading).extract(&tree, source);
        let ghost v = tree_view(tree);
        let ghost b = bytes_of(source@);
        proof {
            lemma_found_nodes(v, b, kinds_view(self.grammar.leading@), self.grammar.symbols@, 0);
        }
        let bare = match &query.pattern {
            Some(p) => identifier(p.as_str()) && query.kind.is_none(),
            None => false,
        };
        if bare {
            let name = match &query.pattern {
                Some(p) => p.as_str(),
                None => "",
            };
            let hits = self.identifiers(&tree, source, name);
            let attached = attach_symbols(&hits, &found, true);
            return Ok(finish_matches(&attached, query));
        }
        let hits = match &query.pattern {
            Some(p) => match matches_of(self.lang, source, p.as_str()) {
                Ok(hs) => hs,
                Err(m) => {
                    return Err(SearchError::Pattern(m));
                },
            },
            None => Vec::new(),
        };
        match &query.kind {
            Some(k) => match check_kind(self.lang, k.as_str()) {
                Ok(()) => {},
                Err(m) => {
                    return Err(SearchError::Kind(m));
                },
            },
            None => {},
        }
        if query.pattern.is_none() && query.kind.is_none() {
            proof {
                assert forall|j: int| 0 <= j < found@.len() implies (#[trigger] found@[j]).0 < tree.nodes@.len() by {
                    assert(found_view(found@)[j].0 == found@[j].0);
                }
            }
            let decls = Self::declaration_hits(&tree, source, &found);
            return Ok(finish_matches(&decls, query));
        }
        let raw_hits = match (&query.pattern, &query.kind) {
            (Some(p), Some(k)) => match kinded_matches_of(self.lang, source, p.as_str(), k.as_str()) {
                Ok(ks) => ks,
                Err(_) => Vec::new(),
            },
            (None, Some(k)) => kind_matches_of(self.lang, source, k.as_str()),
            _ => hits,
        };
        let structural_hits = self.pattern_hit_matches(&tree, source, &None, &raw_hits);
        let attached = attach_symbols(&structural_hits, &found, false);
        let finished = finish_matches(&attached, query);
        let bindings: Vec<Bindings> = match &query.pattern {
            Some(p) => match bindings_of(self.lang, source, p.as_str()) {
                Ok(es) => es,
                Err(_) => Vec::new(),
            },
            None => Vec::new(),
        };
        proof {
            assert(bindings_view(bindings@) == query_bindings(self.lang, source@, query@));
        }
        Ok(with_captures(&finished, source, &bindings))
    }

    /// Whether `query` can run against this grammar: a bare name always
    /// can; otherwise its pattern must compile and its kind be one of the
    /// grammar's.
    pub fn accepts(&self, query: &Query) -> (r: Result<(), SearchError>)
        ensures
            match r {
                Ok(()) => bare_name(query@) is Some || ((match query@.pattern {
                    Some(p) => pattern_hits(self.lang, seq![], p) is Ok,
                    None => true,
                }) && (match query@.kind {
                    Some(k) => kind_valid(self.lang, k),
                    None => true,
                })),
                Err(SearchError::Pattern(m)) => bare_name(query@) is None && (match query@.pattern {
                    Some(p) => pattern_hits(self.lang, seq![], p) == Err::<Seq<(usize, usize, Seq<char>)>, Seq<char>>(m@),
                    None => false,
                }),
                Err(SearchError::Kind(m)) => bare_name(query@) is None && (match query@.pattern {
                    Some(p) => pattern_hits(self.lang, seq![], p) is Ok,
                    None => true,
                }) && (match query@.kind {
                    Some(k) => !kind_valid(self.lang, k) && m@ == invalid_kind_message(k),
                    None => false,
                }),
            },
    {
        let bare = match &query.pattern {
            Some(p) => identifier(p.as_str()) && query.kind.is_none(),
            None => false,
        };
        if bare {
            return Ok(());
        }
        match &query.pattern {
            Some(p) => {
                proof {
                    reveal_strlit("");
                    assert(""@ =~= Seq::<char>::empty());
                }
                match matches_of(self.lang, "", p.as_str()) {
                    Ok(_) => {},
                    Err(m) => {
                        return Err(SearchError::Pattern(m));
                    },
                }
            },
            None => {},
        }
        match &query.kind {
            Some(k) => match check_kind(self.lang, k.as_str()) {
                Ok(()) => Ok(()),
                Err(m) => Err(SearchError::Kind(m)),
            },
            None => Ok(()),
        }
    }
}

/// A language as data: its id, the file extensions it claims, what its
/// modifiers mean, and the searcher over its grammar.
pub struct AstGrepLanguage {
    pub id: String,
    pub extensions: Vec<&'static str>,
    pub semantics: Semantics,
    pub searcher: AstGrepSearcher,
}

impl AstGrepLanguage {
    /// A language of these parts.
    pub fn describe(id: String, extensions: Vec<&'static str>, lang: Lang, grammar: Grammar, semantics: Semantics) -> (l: AstGrepLanguage)
        ensures
            l.id == id,
            l.extensions == extensions,
            l.semantics == semantics,
            l.searcher.lang == lang,
            l.searcher.grammar == grammar,
    {
        AstGrepLanguage { id, extensions, semantics, searcher: AstGrepSearcher::new(lang, grammar) }
    }

    /// The searcher over the language's grammar.
    pub fn searcher(&self) -> (r: &AstGrepSearcher)
        ensures
            *r == self.searcher,
    {
        &self.searcher
    }

    /// Rust: `.rs` files, tree-sitter-rust's tables and Rust's modifiers.
    pub fn rust() -> (l: AstGrepLanguage)
        ensures
            l.id@ == "rust"@,
            l.extensions@ == seq!["rs"],
            l.searcher.lang == Lang::Rust,
            rust_grammar(l.searcher.grammar),
            rust_semantics(l.semantics),
    {
        let id = crate::text::owned("rust");
        AstGrepLanguage::describe(id, vec!["rs"], Lang::Rust, Grammar::rust(), Semantics::rust())
    }

    /// TypeScript: `.ts`, `.mts` and `.cts` files.
    pub fn typescript() -> (l: AstGrepLanguage)
        ensures
            l.id@ == "typescript"@,
            l.extensions@ == seq!["ts", "mts", "cts"],
            l.searcher.lang == Lang::TypeScript,
            typescript_grammar(l.searcher.grammar),
            typescript_semantics(l.semantics),
    {
        let id = crate::text::owned("typescript");
        AstGrepLanguage::describe(id, vec!["ts", "mts", "cts"], Lang::TypeScript, Grammar::typescript(), Semantics::typescript())
    }

    /// TSX: `.tsx` files, with TypeScript's tables.
    pub fn tsx() -> (l: AstGrepLanguage)
        ensures
            l.id@ == "tsx"@,
            l.extensions@ == seq!["tsx"],
            l.searcher.lang == Lang::Tsx,
            typescript_grammar(l.searcher.grammar),
            typescript_semantics(l.semantics),
    {
        let id = crate::text::owned("tsx");
        AstGrepLanguage::describe(id, vec!["tsx"], Lang::Tsx, Grammar::typescript(), Semantics::typescript())
    }
}

} // verus!
