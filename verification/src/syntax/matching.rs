//! Structural matching, which ast-grep does: where a code pattern matches
//! a file, and which node kinds a grammar has.

use vstd::prelude::*;
use vstd::multiset::Multiset;

use std::ops::Range;

use ast_grep_core::matcher::KindMatcher;
use ast_grep_core::meta_var::MetaVariable;
use ast_grep_core::ops::Op;
use ast_grep_core::tree_sitter::LanguageExt;
use ast_grep_core::Pattern;

use crate::syntax::tree::Lang;

verus! {

/// Where a pattern matched: the matched node's byte range and its kind.
pub type Hit = (usize, usize, String);

/// The hits as values.
pub open spec fn hits_view(hs: Seq<Hit>) -> Seq<(usize, usize, Seq<char>)> {
    hs.map_values(|h: Hit| (h.0, h.1, h.2@))
}

/// An outcome of matching as values.
pub open spec fn outcome_view(r: Result<Vec<Hit>, String>) -> Result<Seq<(usize, usize, Seq<char>)>, Seq<char>> {
    match r {
        Ok(hs) => Ok(hits_view(hs@)),
        Err(m) => Err(m@),
    }
}

/// Where the Rust pattern `pattern` matches `source`, in the order of a
/// pre-order walk; or, when the pattern does not compile, ast-grep's
/// message.
pub uninterp spec fn rust_pattern_hits(source: Seq<char>, pattern: Seq<char>) -> Result<Seq<(usize, usize, Seq<char>)>, Seq<char>>;

/// The same for TypeScript.
pub uninterp spec fn typescript_pattern_hits(source: Seq<char>, pattern: Seq<char>) -> Result<Seq<(usize, usize, Seq<char>)>, Seq<char>>;

/// The same for TSX.
pub uninterp spec fn tsx_pattern_hits(source: Seq<char>, pattern: Seq<char>) -> Result<Seq<(usize, usize, Seq<char>)>, Seq<char>>;

/// Where a grammar's pattern matches a file.
pub open spec fn pattern_hits(lang: Lang, source: Seq<char>, pattern: Seq<char>) -> Result<Seq<(usize, usize, Seq<char>)>, Seq<char>> {
    match lang {
        Lang::Rust => rust_pattern_hits(source, pattern),
        Lang::TypeScript => typescript_pattern_hits(source, pattern),
        Lang::Tsx => tsx_pattern_hits(source, pattern),
    }
}

/// Whether a grammar has a node kind of this name.
pub uninterp spec fn kind_valid(lang: Lang, kind: Seq<char>) -> bool;

/// ast-grep's message for a kind a grammar does not have.
pub open spec fn invalid_kind_message(kind: Seq<char>) -> Seq<char> {
    "Kind `"@ + kind + "` is invalid."@
}

/// Compiles `pattern` with ast-grep (`Pattern::try_new`) for Rust and
/// hands over where it matches `source` (`Node::find_all`). The contract
/// names the outcome: the same text and pattern give the same hits.
#[verifier::external_body]
fn rust_matches(source: &str, pattern: &str) -> (r: Result<Vec<Hit>, String>)
    ensures
        outcome_view(r) == rust_pattern_hits(source@, pattern@),
{
    let p = Pattern::try_new(pattern, ast_grep_language::Rust).map_err(|e| e.to_string())?;
    let root = ast_grep_language::Rust.ast_grep(source);
    let node = root.root();
    let hits = node.find_all(p).map(|m| (m.range().start, m.range().end, m.kind().to_string()));
    Ok(hits.collect())
}

/// The same for TypeScript.
#[verifier::external_body]
fn typescript_matches(source: &str, pattern: &str) -> (r: Result<Vec<Hit>, String>)
    ensures
        outcome_view(r) == typescript_pattern_hits(source@, pattern@),
{
    let p = Pattern::try_new(pattern, ast_grep_language::TypeScript).map_err(|e| e.to_string())?;
    let root = ast_grep_language::TypeScript.ast_grep(source);
    let node = root.root();
    let hits = node.find_all(p).map(|m| (m.range().start, m.range().end, m.kind().to_string()));
    Ok(hits.collect())
}

/// The same for TSX.
#[verifier::external_body]
fn tsx_matches(source: &str, pattern: &str) -> (r: Result<Vec<Hit>, String>)
    ensures
        outcome_view(r) == tsx_pattern_hits(source@, pattern@),
{
    let p = Pattern::try_new(pattern, ast_grep_language::Tsx).map_err(|e| e.to_string())?;
    let root = ast_grep_language::Tsx.ast_grep(source);
    let node = root.root();
    let hits = node.find_all(p).map(|m| (m.range().start, m.range().end, m.kind().to_string()));
    Ok(hits.collect())
}

/// What a capture took at each hit of a pattern: the captured node's
/// range and kind, when the hit captured something.
pub type Captured = Option<(usize, usize, String)>;

/// The captures as values.
pub open spec fn captured_view(cs: Seq<Captured>) -> Seq<Option<(usize, usize, Seq<char>)>> {
    cs.map_values(
        |c: Captured| match c {
            Some(h) => Some((h.0, h.1, h.2@)),
            None => None,
        },
    )
}

/// An outcome of capturing as values.
pub open spec fn captures_outcome_view(r: Result<Vec<Captured>, String>) -> Result<Seq<Option<(usize, usize, Seq<char>)>>, Seq<char>> {
    match r {
        Ok(cs) => Ok(captured_view(cs@)),
        Err(m) => Err(m@),
    }
}

/// What the meta-variable `var` of the Rust pattern `pattern` takes at
/// each of its hits in `source`, in the order of a pre-order walk; or,
/// when the pattern does not compile, ast-grep's message.
pub uninterp spec fn rust_captures(source: Seq<char>, pattern: Seq<char>, var: Seq<char>) -> Result<Seq<Option<(usize, usize, Seq<char>)>>, Seq<char>>;

/// The same for TypeScript.
pub uninterp spec fn typescript_captures(source: Seq<char>, pattern: Seq<char>, var: Seq<char>) -> Result<Seq<Option<(usize, usize, Seq<char>)>>, Seq<char>>;

/// The same for TSX.
pub uninterp spec fn tsx_captures(source: Seq<char>, pattern: Seq<char>, var: Seq<char>) -> Result<Seq<Option<(usize, usize, Seq<char>)>>, Seq<char>>;

/// What a grammar's pattern captures in a file.
pub open spec fn captures_of(lang: Lang, source: Seq<char>, pattern: Seq<char>, var: Seq<char>) -> Result<Seq<Option<(usize, usize, Seq<char>)>>, Seq<char>> {
    match lang {
        Lang::Rust => rust_captures(source, pattern, var),
        Lang::TypeScript => typescript_captures(source, pattern, var),
        Lang::Tsx => tsx_captures(source, pattern, var),
    }
}

/// Compiles `pattern` for Rust (`Pattern::try_new`) and hands over, for
/// each hit in `source` (`Node::find_all`), the node the meta-variable
/// `var` matched (`MetaVarEnv::get_match`). The contract names the outcome.
#[verifier::external_body]
fn rust_captured(source: &str, pattern: &str, var: &str) -> (r: Result<Vec<Captured>, String>)
    ensures
        captures_outcome_view(r) == rust_captures(source@, pattern@, var@),
{
    let p = Pattern::try_new(pattern, ast_grep_language::Rust).map_err(|e| e.to_string())?;
    let root = ast_grep_language::Rust.ast_grep(source);
    let node = root.root();
    let hits = node.find_all(p).map(|m| m.get_env().get_match(var).map(|c| (c.range().start, c.range().end, c.kind().to_string())));
    Ok(hits.collect())
}

/// The same for TypeScript.
#[verifier::external_body]
fn typescript_captured(source: &str, pattern: &str, var: &str) -> (r: Result<Vec<Captured>, String>)
    ensures
        captures_outcome_view(r) == typescript_captures(source@, pattern@, var@),
{
    let p = Pattern::try_new(pattern, ast_grep_language::TypeScript).map_err(|e| e.to_string())?;
    let root = ast_grep_language::TypeScript.ast_grep(source);
    let node = root.root();
    let hits = node.find_all(p).map(|m| m.get_env().get_match(var).map(|c| (c.range().start, c.range().end, c.kind().to_string())));
    Ok(hits.collect())
}

/// The same for TSX.
#[verifier::external_body]
fn tsx_captured(source: &str, pattern: &str, var: &str) -> (r: Result<Vec<Captured>, String>)
    ensures
        captures_outcome_view(r) == tsx_captures(source@, pattern@, var@),
{
    let p = Pattern::try_new(pattern, ast_grep_language::Tsx).map_err(|e| e.to_string())?;
    let root = ast_grep_language::Tsx.ast_grep(source);
    let node = root.root();
    let hits = node.find_all(p).map(|m| m.get_env().get_match(var).map(|c| (c.range().start, c.range().end, c.kind().to_string())));
    Ok(hits.collect())
}

/// What a grammar's pattern captures in a file, or why it does not compile.
pub fn captured_in(lang: Lang, source: &str, pattern: &str, var: &str) -> (r: Result<Vec<Captured>, String>)
    ensures
        captures_outcome_view(r) == captures_of(lang, source@, pattern@, var@),
{
    match lang {
        Lang::Rust => rust_captured(source, pattern, var),
        Lang::TypeScript => typescript_captured(source, pattern, var),
        Lang::Tsx => tsx_captured(source, pattern, var),
    }
}

/// Asks ast-grep (`KindMatcher::try_new`) whether a grammar has a node
/// kind of this name. The contract names the answer, and states the
/// message ast-grep's error carries when the answer is no.
#[verifier::external_body]
pub(crate) fn check_kind(lang: Lang, kind: &str) -> (r: Result<(), String>)
    ensures
        match r {
            Ok(()) => kind_valid(lang, kind@),
            Err(m) => !kind_valid(lang, kind@) && m@ == invalid_kind_message(kind@),
        },
{
    let checked = match lang {
        Lang::Rust => KindMatcher::try_new(kind, ast_grep_language::Rust).map(|_| ()),
        Lang::TypeScript => KindMatcher::try_new(kind, ast_grep_language::TypeScript).map(|_| ()),
        Lang::Tsx => KindMatcher::try_new(kind, ast_grep_language::Tsx).map(|_| ()),
    };
    checked.map_err(|e| e.to_string())
}

/// Where a grammar's pattern matches a file, or why it does not compile.
pub fn matches_of(lang: Lang, source: &str, pattern: &str) -> (r: Result<Vec<Hit>, String>)
    ensures
        outcome_view(r) == pattern_hits(lang, source@, pattern@),
{
    match lang {
        Lang::Rust => rust_matches(source, pattern),
        Lang::TypeScript => typescript_matches(source, pattern),
        Lang::Tsx => tsx_matches(source, pattern),
    }
}

/// A meta-variable a hit bound: a single one with the range of the node it
/// took, if any, then its name; a multiple one with the ranges of the nodes
/// it took, then its name; or one of the kinds that bind nothing.
#[derive(Debug)]
pub enum Bound {
    Single(Option<Range<usize>>, String),
    Multi(Vec<Range<usize>>, String),
    Other,
}

/// A bound meta-variable as values: its name first.
pub enum BoundView {
    Single(Seq<char>, Option<(usize, usize)>),
    Multi(Seq<char>, Seq<(usize, usize)>),
    Other,
}

/// A range as a pair.
pub open spec fn pair(r: Range<usize>) -> (usize, usize) {
    (r.start, r.end)
}

pub open spec fn bound_view(b: Bound) -> BoundView {
    match b {
        Bound::Single(r, n) => BoundView::Single(
            n@,
            match r {
                Some(x) => Some(pair(x)),
                None => None,
            },
        ),
        Bound::Multi(rs, n) => BoundView::Multi(n@, rs@.map_values(|x: Range<usize>| pair(x))),
        Bound::Other => BoundView::Other,
    }
}

/// One hit with what it bound: its range, then its meta-variables.
pub type Bindings = (Range<usize>, Vec<Bound>);

/// Hits with their bindings as values; a hit's bindings as a multiset, for
/// ast-grep hands them out in the order of a hash map's walk.
pub open spec fn bindings_view(bs: Seq<Bindings>) -> Seq<(usize, usize, Multiset<BoundView>)> {
    bs.map_values(|b: Bindings| (b.0.start, b.0.end, b.1@.map_values(|x: Bound| bound_view(x)).to_multiset()))
}

/// An outcome of binding as values.
pub open spec fn bindings_outcome_view(r: Result<Vec<Bindings>, String>) -> Result<Seq<(usize, usize, Multiset<BoundView>)>, Seq<char>> {
    match r {
        Ok(bs) => Ok(bindings_view(bs@)),
        Err(m) => Err(m@),
    }
}

/// What each hit of the Rust pattern `pattern` in `source` binds, hits in
/// the order of a pre-order walk; or, when the pattern does not compile,
/// ast-grep's message.
pub uninterp spec fn rust_pattern_bindings(source: Seq<char>, pattern: Seq<char>) -> Result<Seq<(usize, usize, Multiset<BoundView>)>, Seq<char>>;

/// The same for TypeScript.
pub uninterp spec fn typescript_pattern_bindings(source: Seq<char>, pattern: Seq<char>) -> Result<Seq<(usize, usize, Multiset<BoundView>)>, Seq<char>>;

/// The same for TSX.
pub uninterp spec fn tsx_pattern_bindings(source: Seq<char>, pattern: Seq<char>) -> Result<Seq<(usize, usize, Multiset<BoundView>)>, Seq<char>>;

/// What a grammar's pattern binds at each hit in a file.
pub open spec fn pattern_bindings(lang: Lang, source: Seq<char>, pattern: Seq<char>) -> Result<Seq<(usize, usize, Multiset<BoundView>)>, Seq<char>> {
    match lang {
        Lang::Rust => rust_pattern_bindings(source, pattern),
        Lang::TypeScript => typescript_pattern_bindings(source, pattern),
        Lang::Tsx => tsx_pattern_bindings(source, pattern),
    }
}

/// Compiles `pattern` for Rust (`Pattern::try_new`) and hands over, for
/// each hit in `source` (`Node::find_all`), its range and the variables
/// its environment bound (`MetaVarEnv::get_matched_variables`, which
/// yields only `Capture` and `MultiCapture`), each with what `get_match`
/// or `get_multiple_matches` gives for it. The contract names each hit's
/// bindings as a multiset, leaving their order open.
#[verifier::external_body]
fn rust_bindings(source: &str, pattern: &str) -> (r: Result<Vec<Bindings>, String>)
    ensures
        bindings_outcome_view(r) == rust_pattern_bindings(source@, pattern@),
{
    let p = Pattern::try_new(pattern, ast_grep_language::Rust).map_err(|e| e.to_string())?;
    let root = ast_grep_language::Rust.ast_grep(source);
    let node = root.root();
    Ok(node.find_all(p).map(|m| {
        let e = m.get_env();
        (m.range(), e.get_matched_variables().map(|v| match v {
            MetaVariable::Capture(n, _) => Bound::Single(e.get_match(&n).map(|x| x.range()), n),
            MetaVariable::MultiCapture(n) => Bound::Multi(e.get_multiple_matches(&n).iter().map(|x| x.range()).collect(), n),
            _ => Bound::Other,
        }).collect())
    }).collect())
}

/// The same for TypeScript.
#[verifier::external_body]
fn typescript_bindings(source: &str, pattern: &str) -> (r: Result<Vec<Bindings>, String>)
    ensures
        bindings_outcome_view(r) == typescript_pattern_bindings(source@, pattern@),
{
    let p = Pattern::try_new(pattern, ast_grep_language::TypeScript).map_err(|e| e.to_string())?;
    let root = ast_grep_language::TypeScript.ast_grep(source);
    let node = root.root();
    Ok(node.find_all(p).map(|m| {
        let e = m.get_env();
        (m.range(), e.get_matched_variables().map(|v| match v {
            MetaVariable::Capture(n, _) => Bound::Single(e.get_match(&n).map(|x| x.range()), n),
            MetaVariable::MultiCapture(n) => Bound::Multi(e.get_multiple_matches(&n).iter().map(|x| x.range()).collect(), n),
            _ => Bound::Other,
        }).collect())
    }).collect())
}

/// The same for TSX.
#[verifier::external_body]
fn tsx_bindings(source: &str, pattern: &str) -> (r: Result<Vec<Bindings>, String>)
    ensures
        bindings_outcome_view(r) == tsx_pattern_bindings(source@, pattern@),
{
    let p = Pattern::try_new(pattern, ast_grep_language::Tsx).map_err(|e| e.to_string())?;
    let root = ast_grep_language::Tsx.ast_grep(source);
    let node = root.root();
    Ok(node.find_all(p).map(|m| {
        let e = m.get_env();
        (m.range(), e.get_matched_variables().map(|v| match v {
            MetaVariable::Capture(n, _) => Bound::Single(e.get_match(&n).map(|x| x.range()), n),
            MetaVariable::MultiCapture(n) => Bound::Multi(e.get_multiple_matches(&n).iter().map(|x| x.range()).collect(), n),
            _ => Bound::Other,
        }).collect())
    }).collect())
}

/// What a grammar's pattern binds at each hit in a file, or why it does
/// not compile.
pub fn bindings_of(lang: Lang, source: &str, pattern: &str) -> (r: Result<Vec<Bindings>, String>)
    ensures
        bindings_outcome_view(r) == pattern_bindings(lang, source@, pattern@),
{
    match lang {
        Lang::Rust => rust_bindings(source, pattern),
        Lang::TypeScript => typescript_bindings(source, pattern),
        Lang::Tsx => tsx_bindings(source, pattern),
    }
}

// ------------------------------------------------------------ node kinds

/// The nodes of kind `kind` that tree-sitter's Rust grammar parses
/// `source` into, as ast-grep's kind matcher finds them: range and kind, in
/// the order of a pre-order walk.
pub uninterp spec fn rust_kind_hits(source: Seq<char>, kind: Seq<char>) -> Seq<(usize, usize, Seq<char>)>;

/// The same for TypeScript.
pub uninterp spec fn typescript_kind_hits(source: Seq<char>, kind: Seq<char>) -> Seq<(usize, usize, Seq<char>)>;

/// The same for TSX.
pub uninterp spec fn tsx_kind_hits(source: Seq<char>, kind: Seq<char>) -> Seq<(usize, usize, Seq<char>)>;

/// The nodes of a kind in a file.
pub open spec fn kind_hits(lang: Lang, source: Seq<char>, kind: Seq<char>) -> Seq<(usize, usize, Seq<char>)> {
    match lang {
        Lang::Rust => rust_kind_hits(source, kind),
        Lang::TypeScript => typescript_kind_hits(source, kind),
        Lang::Tsx => tsx_kind_hits(source, kind),
    }
}

/// Where the Rust pattern `pattern` matches a node of kind `kind` in
/// `source`, in the order of a pre-order walk; or, when the pattern does
/// not compile, ast-grep's message.
pub uninterp spec fn rust_kinded_hits(source: Seq<char>, pattern: Seq<char>, kind: Seq<char>) -> Result<Seq<(usize, usize, Seq<char>)>, Seq<char>>;

/// The same for TypeScript.
pub uninterp spec fn typescript_kinded_hits(source: Seq<char>, pattern: Seq<char>, kind: Seq<char>) -> Result<Seq<(usize, usize, Seq<char>)>, Seq<char>>;

/// The same for TSX.
pub uninterp spec fn tsx_kinded_hits(source: Seq<char>, pattern: Seq<char>, kind: Seq<char>) -> Result<Seq<(usize, usize, Seq<char>)>, Seq<char>>;

/// Where a grammar's pattern matches a node of a kind in a file.
pub open spec fn kinded_hits(lang: Lang, source: Seq<char>, pattern: Seq<char>, kind: Seq<char>) -> Result<Seq<(usize, usize, Seq<char>)>, Seq<char>> {
    match lang {
        Lang::Rust => rust_kinded_hits(source, pattern, kind),
        Lang::TypeScript => typescript_kinded_hits(source, pattern, kind),
        Lang::Tsx => tsx_kinded_hits(source, pattern, kind),
    }
}

/// Finds the Rust nodes of a kind with ast-grep: `KindMatcher::new`, which
/// goes by the grammar's kind id, then `Node::find_all`. The contract names
/// the hits.
#[verifier::external_body]
fn rust_kind_matches(source: &str, kind: &str) -> (r: Vec<Hit>)
    ensures
        hits_view(r@) == rust_kind_hits(source@, kind@),
{
    let k = KindMatcher::new(kind, ast_grep_language::Rust);
    let root = ast_grep_language::Rust.ast_grep(source);
    let node = root.root();
    let hits = node.find_all(k).map(|m| (m.range().start, m.range().end, m.kind().to_string()));
    hits.collect()
}

/// Compiles `pattern` for Rust (`Pattern::try_new`) and finds where it
/// matches a node of kind `kind` (`Op::every(..).and(KindMatcher)`, then
/// `Node::find_all`). The contract names the outcome.
#[verifier::external_body]
fn rust_kinded_matches(source: &str, pattern: &str, kind: &str) -> (r: Result<Vec<Hit>, String>)
    ensures
        outcome_view(r) == rust_kinded_hits(source@, pattern@, kind@),
{
    let p = Pattern::try_new(pattern, ast_grep_language::Rust).map_err(|e| e.to_string())?;
    let k = KindMatcher::new(kind, ast_grep_language::Rust);
    let root = ast_grep_language::Rust.ast_grep(source);
    let node = root.root();
    let hits = node.find_all(Op::every(p).and(k)).map(|m| (m.range().start, m.range().end, m.kind().to_string()));
    Ok(hits.collect())
}

/// The same for TypeScript.
#[verifier::external_body]
fn typescript_kind_matches(source: &str, kind: &str) -> (r: Vec<Hit>)
    ensures
        hits_view(r@) == typescript_kind_hits(source@, kind@),
{
    let k = KindMatcher::new(kind, ast_grep_language::TypeScript);
    let root = ast_grep_language::TypeScript.ast_grep(source);
    let node = root.root();
    let hits = node.find_all(k).map(|m| (m.range().start, m.range().end, m.kind().to_string()));
    hits.collect()
}

/// The same for TypeScript.
#[verifier::external_body]
fn typescript_kinded_matches(source: &str, pattern: &str, kind: &str) -> (r: Result<Vec<Hit>, String>)
    ensures
        outcome_view(r) == typescript_kinded_hits(source@, pattern@, kind@),
{
    let p = Pattern::try_new(pattern, ast_grep_language::TypeScript).map_err(|e| e.to_string())?;
    let k = KindMatcher::new(kind, ast_grep_language::TypeScript);
    let root = ast_grep_language::TypeScript.ast_grep(source);
    let node = root.root();
    let hits = node.find_all(Op::every(p).and(k)).map(|m| (m.range().start, m.range().end, m.kind().to_string()));
    Ok(hits.collect())
}

/// The same for TSX.
#[verifier::external_body]
fn tsx_kind_matches(source: &str, kind: &str) -> (r: Vec<Hit>)
    ensures
        hits_view(r@) == tsx_kind_hits(source@, kind@),
{
    let k = KindMatcher::new(kind, ast_grep_language::Tsx);
    let root = ast_grep_language::Tsx.ast_grep(source);
    let node = root.root();
    let hits = node.find_all(k).map(|m| (m.range().start, m.range().end, m.kind().to_string()));
    hits.collect()
}

/// The same for TSX.
#[verifier::external_body]
fn tsx_kinded_matches(source: &str, pattern: &str, kind: &str) -> (r: Result<Vec<Hit>, String>)
    ensures
        outcome_view(r) == tsx_kinded_hits(source@, pattern@, kind@),
{
    let p = Pattern::try_new(pattern, ast_grep_language::Tsx).map_err(|e| e.to_string())?;
    let k = KindMatcher::new(kind, ast_grep_language::Tsx);
    let root = ast_grep_language::Tsx.ast_grep(source);
    let node = root.root();
    let hits = node.find_all(Op::every(p).and(k)).map(|m| (m.range().start, m.range().end, m.kind().to_string()));
    Ok(hits.collect())
}

/// The nodes of a kind in a file.
pub fn kind_matches_of(lang: Lang, source: &str, kind: &str) -> (r: Vec<Hit>)
    ensures
        hits_view(r@) == kind_hits(lang, source@, kind@),
{
    match lang {
        Lang::Rust => rust_kind_matches(source, kind),
        Lang::TypeScript => typescript_kind_matches(source, kind),
        Lang::Tsx => tsx_kind_matches(source, kind),
    }
}

/// Where a grammar's pattern matches a node of a kind in a file, or why the
/// pattern does not compile.
pub fn kinded_matches_of(lang: Lang, source: &str, pattern: &str, kind: &str) -> (r: Result<Vec<Hit>, String>)
    ensures
        outcome_view(r) == kinded_hits(lang, source@, pattern@, kind@),
{
    match lang {
        Lang::Rust => rust_kinded_matches(source, pattern, kind),
        Lang::TypeScript => typescript_kinded_matches(source, pattern, kind),
        Lang::Tsx => tsx_kinded_matches(source, pattern, kind),
    }
}

} // verus!
