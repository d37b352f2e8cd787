//! What the engine answers and what it is asked, as plain values: matches,
//! judged occurrences, planned file changes, intents and history entries.
//! The picker reads these; the engine that produces them runs outside.

use vstd::prelude::*;

use std::collections::BTreeSet;

use crate::query::{Query, SymbolKind};
use crate::rust::facts::ReachKind;

verus! {

/// A byte range within a file.
#[derive(Debug, Clone, Copy, PartialEq, Eq, Structural)]
pub struct Span {
    pub start: usize,
    pub end: usize,
}

/// What a match is to its name.
#[derive(Debug, Clone, Copy, PartialEq, Eq, Structural)]
pub enum Role {
    Declaration,
    Import,
    Use,
}

/// A declaration's name and kind, and its visibility modifier's text when
/// it has one.
#[derive(Debug, Clone, PartialEq, Eq)]
pub struct Symbol {
    pub name: String,
    pub kind: SymbolKind,
    pub modifier: Option<String>,
}

/// One search hit.
#[derive(Debug, Clone, PartialEq, Eq)]
pub struct Match {
    pub id: u64,
    pub path: String,
    pub span: Span,
    /// The 0-based line the hit starts on.
    pub line: u32,
    /// The 0-based line the hit ends on.
    pub end_line: u32,
    /// The module path of the declaration the hit is, when the engine knows
    /// it.
    pub address: Option<String>,
    /// The matched text.
    pub text: String,
    /// The declaration the hit is, when it is one.
    pub symbol: Option<Symbol>,
    pub role: Role,
}

/// How sure a rename is that an occurrence refers to its declaration.
#[derive(Debug, Clone, Copy, PartialEq, Eq, Structural)]
pub enum Confidence {
    /// `?`: cannot tell.
    Unresolved,
    /// `✓`: refers to the declaration.
    Resolved,
    /// `✗`: refers to another one.
    Other,
}

/// A match with the rename's verdict on it.
#[derive(Debug, Clone, PartialEq, Eq)]
pub struct Occurrence {
    pub m: Match,
    pub confidence: Confidence,
}

/// One file a plan changes: where it goes when it moves, the spans it
/// edits, and its diff.
#[derive(Debug, Clone, PartialEq, Eq)]
pub struct FileChange {
    pub path: String,
    pub moved_to: Option<String>,
    pub edits: Vec<Span>,
    pub diff: String,
}

/// An import path a move rewrites: where it is (its line and column,
/// from 0), what it said and what it will say.
#[derive(Debug, Clone, PartialEq, Eq)]
pub struct Respelling {
    pub path: String,
    pub span: Span,
    pub line: u32,
    pub column: u32,
    /// The old path.
    pub from: String,
    /// The new path.
    pub to: String,
}

/// What a move leaves to the user.
#[derive(Debug, Clone, PartialEq, Eq)]
pub enum NoticeKind {
    /// An import inside a group the move cannot split: it would become
    /// `replacement`.
    UnrewritableImport { import: String, replacement: String },
    /// An import that now names a declaration of its own file.
    RedundantImport { import: String },
    /// `item` is used from `from`, which needs it seen as far as `needs`.
    Unreachable { item: String, from: String, needs: ReachKind },
}

/// Something a move leaves to the user, with where it is (its line and
/// column, from 0).
#[derive(Debug, Clone, PartialEq, Eq)]
pub struct Notice {
    pub path: String,
    pub line: u32,
    pub column: u32,
    pub kind: NoticeKind,
}

/// Which matches a plan acts on: all, or the ones with these ids.
#[derive(Debug, Clone, PartialEq, Eq)]
pub enum Selection {
    All,
    Ids(BTreeSet<u64>),
}

/// Rename `name` to `to`.
#[derive(Debug, Clone, PartialEq, Eq)]
pub struct RenameIntent {
    pub name: String,
    pub to: String,
    pub symbol: Option<SymbolKind>,
    pub language: Option<String>,
    pub declared_in: Option<String>,
    pub selection: Selection,
}

/// Rewrite the query's matches by a template.
#[derive(Debug, Clone, PartialEq, Eq)]
pub struct RewriteIntent {
    pub query: Query,
    pub template: String,
    pub selection: Selection,
}

/// A change the engine plans and writes.
#[derive(Debug, Clone, PartialEq, Eq)]
pub enum Intent {
    Rename(RenameIntent),
    Move { from: String, to: String },
    MoveSymbol { name: String, from: String, to: String },
    Rewrite(RewriteIntent),
}

/// One written change, undoable while it is the newest.
#[derive(Debug, Clone, PartialEq, Eq)]
pub struct HistoryEntry {
    pub id: u64,
    pub intent: Intent,
}

/// A source row of a report: a file and a 0-based line.
#[derive(Debug, Clone, PartialEq, Eq)]
pub struct Site {
    pub path: String,
    pub line: u32,
}

/// What an apply produced, as the source rows its report stands for, in
/// the order it draws them.
#[derive(Debug, Clone, PartialEq, Eq)]
pub struct Report {
    pub title: String,
    pub sites: Vec<Site>,
}

/// What a highlight colours.
#[derive(Debug, Clone, Copy, PartialEq, Eq, Structural)]
pub enum HighlightKind {
    Comment,
    String,
    Number,
    Type,
    Attribute,
    Function,
    Macro,
    Keyword,
}

/// A coloured byte range of a file.
#[derive(Debug, Clone, Copy, PartialEq, Eq, Structural)]
pub struct Highlight {
    pub span: Span,
    pub kind: HighlightKind,
}

/// The ids a selection names, or `None` for all of them.
pub open spec fn selected(s: Selection) -> Option<Set<u64>> {
    match s {
        Selection::All => None,
        Selection::Ids(ids) => Some(ids@),
    }
}

/// Two intents ask for the same change: equal but for how their id sets
/// are stored.
pub open spec fn same_intent(a: Intent, b: Intent) -> bool {
    match (a, b) {
        (Intent::Rename(x), Intent::Rename(y)) => x.name == y.name && x.to == y.to && x.symbol
            == y.symbol && x.language == y.language && x.declared_in == y.declared_in
            && selected(x.selection) == selected(y.selection),
        (Intent::Rewrite(x), Intent::Rewrite(y)) => x.query == y.query && x.template == y.template
            && selected(x.selection) == selected(y.selection),
        _ => a == b,
    }
}

pub(crate) fn copy_opt(s: &Option<String>) -> (r: Option<String>)
    ensures
        r == *s,
{
    match s {
        Some(v) => Some(v.clone()),
        None => None,
    }
}

fn copy_selection(s: &Selection) -> (r: Selection)
    ensures
        selected(r) == selected(*s),
{
    match s {
        Selection::All => Selection::All,
        Selection::Ids(ids) => Selection::Ids(ids.clone()),
    }
}

/// A query with the same parts.
pub(crate) fn copy_query(q: &Query) -> (r: Query)
    ensures
        r == *q,
{
    Query {
        pattern: copy_opt(&q.pattern),
        kind: copy_opt(&q.kind),
        symbol: q.symbol,
        name: copy_opt(&q.name),
        language: copy_opt(&q.language),
    }
}

impl Match {
    /// A match with the same fields.
    pub(crate) fn copied(&self) -> (r: Match)
        ensures
            r == *self,
    {
        Match {
            id: self.id,
            path: self.path.clone(),
            span: self.span,
            line: self.line,
            end_line: self.end_line,
            address: self.address.clone(),
            text: self.text.clone(),
            symbol: match &self.symbol {
                Some(s) => Some(Symbol { name: s.name.clone(), kind: s.kind, modifier: s.modifier.clone() }),
                None => None,
            },
            role: self.role,
        }
    }
}

/// Copies of the matches, in order.
pub(crate) fn copy_matches(ms: &Vec<Match>) -> (r: Vec<Match>)
    ensures
        r@ == ms@,
{
    let mut r: Vec<Match> = Vec::new();
    let mut i: usize = 0;
    while i < ms.len()
        invariant
            0 <= i <= ms@.len(),
            r@ == ms@.take(i as int),
        decreases ms@.len() - i,
    {
        r.push(ms[i].copied());
        proof {
            assert(ms@.take(i + 1) =~= ms@.take(i as int).push(ms@[i as int]));
        }
        i = i + 1;
    }
    proof {
        assert(ms@.take(i as int) =~= ms@);
    }
    r
}

impl Intent {
    /// An intent asking for the same change.
    pub(crate) fn copied(&self) -> (r: Intent)
        ensures
            same_intent(r, *self),
    {
        match self {
            Intent::Rename(x) => Intent::Rename(RenameIntent {
                name: x.name.clone(),
                to: x.to.clone(),
                symbol: x.symbol,
                language: copy_opt(&x.language),
                declared_in: copy_opt(&x.declared_in),
                selection: copy_selection(&x.selection),
            }),
            Intent::Move { from, to } => Intent::Move { from: from.clone(), to: to.clone() },
            Intent::MoveSymbol { name, from, to } => Intent::MoveSymbol {
                name: name.clone(),
                from: from.clone(),
                to: to.clone(),
            },
            Intent::Rewrite(x) => Intent::Rewrite(RewriteIntent {
                query: copy_query(&x.query),
                template: x.template.clone(),
                selection: copy_selection(&x.selection),
            }),
        }
    }
}

} // verus!
