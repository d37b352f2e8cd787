//! Finding the paths a file imports: a grammar's rules name the nodes
//! that hold a path, and how grouped imports (`use a::{b, c::d}`),
//! globs, aliases and re-exports are written.

use vstd::prelude::*;

use crate::engine::Span;
use crate::modes::bytes_of;
use crate::paths::segs;
use crate::rust::facts::{ImportGroup, ImportRef};
use crate::rust::layout::parsed_scoped;
use crate::syntax::grammar::PathSyntax;
use crate::syntax::matching::{captured_in, captures_of, check_kind, invalid_kind_message, kind_valid, Captured};
use crate::syntax::searcher::{listed, locate};
use crate::syntax::symbols::{child_of, child_of_kind, field_of, kinds_view, parent_of, SymbolExtractor};
use crate::syntax::tree::{text_at, text_of, tree_view, well_formed, Lang, NodeView, SyntaxTree};
use crate::text::{join, push_str, str_eq};
use crate::typescript::{parsed_posix, Head, ModulePath};

verus! {

/// Where a grammar's imported paths are: every named node of a kind (or
/// the child filling one of its fields), optionally only under a parent
/// of a kind; or what a pattern's meta-variable captures.
#[derive(Debug, Clone, Copy)]
pub enum ImportRule {
    Node { kind: &'static str, field: Option<usize>, under: Option<&'static str> },
    Pattern { pattern: &'static str, capture: &'static str },
}

/// How grouped imports nest: the braced `list`, the `scope` that hangs a
/// list under a path in its `prefix_field`, and the `statement` around it.
#[derive(Debug, Clone, Copy)]
pub struct ImportNesting {
    pub list: &'static str,
    pub scope: &'static str,
    pub prefix_field: usize,
    pub statement: &'static str,
}

/// What makes an import a re-export: never; a modifier of the given kind
/// on its statement (`pub use`); or a statement of the given kind around it
/// (`export .. from`).
#[derive(Debug, Clone, Copy)]
pub enum ReExportRule {
    Never,
    Modifier(&'static str),
    Statement(&'static str),
}

/// A grammar's rules for imports.
pub struct ImportGrammar {
    pub syntax: PathSyntax,
    pub rules: Vec<ImportRule>,
    pub nesting: Option<ImportNesting>,
    /// The kinds of import statements.
    pub statements: Vec<&'static str>,
    /// The parent kind an alias hangs under, and its field holding the alias.
    pub alias: Option<(&'static str, usize)>,
    pub reexports: ReExportRule,
    /// The parent kind that makes a path a glob.
    pub glob_under: Option<&'static str>,
}

/// A path as values.
pub type PathView = (Head, Seq<Seq<char>>);

/// A group as values: prefix, item, list, how many entries, statement,
/// whether the list is the statement's own.
pub type GroupView = (PathView, Span, Span, usize, Span, bool);

/// An import as values: range, path, group, glob, declares, re-export,
/// alias.
pub type ImportView = (Span, PathView, Option<GroupView>, bool, bool, bool, Option<Seq<char>>);

/// A path as values.
pub open spec fn module_path_view(p: ModulePath) -> PathView {
    (p.head, segs(p.segments@))
}

/// An import as values.
pub open spec fn import_view(r: ImportRef) -> ImportView {
    (
        r.span,
        module_path_view(r.path),
        match r.group {
            Some(g) => Some((module_path_view(g.prefix), g.item, g.list, g.items, g.statement, g.top_level)),
            None => None,
        },
        r.glob,
        r.declares,
        r.reexport,
        match r.alias {
            Some(a) => Some(a@),
            None => None,
        },
    )
}

/// Imports as values.
pub open spec fn imports_view(rs: Seq<ImportRef>) -> Seq<ImportView> {
    rs.map_values(|r: ImportRef| import_view(r))
}

/// How the grammar joins a path's segments.
pub open spec fn separator(syntax: PathSyntax) -> Seq<char> {
    match syntax {
        PathSyntax::Scoped => seq![':', ':'],
        PathSyntax::Posix => seq!['/'],
    }
}

/// A path the grammar spells, read back.
pub open spec fn parse_path(syntax: PathSyntax, text: Seq<char>) -> Option<PathView> {
    match syntax {
        PathSyntax::Scoped => parsed_scoped(text),
        PathSyntax::Posix => parsed_posix(text),
    }
}

/// The nearest ancestor of node `x` of kind `kind`.
pub open spec fn nearest_of_kind(v: Seq<NodeView>, x: int, kind: Seq<char>) -> Option<int>
    decreases x,
{
    match parent_of(v, x) {
        None => None,
        Some(p) => if v[p].0 == kind {
            Some(p)
        } else if 0 <= p < x {
            nearest_of_kind(v, p, kind)
        } else {
            None
        },
    }
}

/// The nearest ancestor of node `x` whose kind is among `kinds`.
pub open spec fn nearest_in(v: Seq<NodeView>, x: int, kinds: Seq<Seq<char>>) -> Option<int>
    decreases x,
{
    match parent_of(v, x) {
        None => None,
        Some(p) => if kinds.contains(v[p].0) {
            Some(p)
        } else if 0 <= p < x {
            nearest_in(v, p, kinds)
        } else {
            None
        },
    }
}

/// For a string literal, its fragment between the quotes; else the node.
pub open spec fn unquoted(v: Seq<NodeView>, x: int) -> int {
    if v[x].0 == "string"@ {
        match child_of_kind(v, x, "string_fragment"@, 0) {
            Some(c) => c,
            None => x,
        }
    } else {
        x
    }
}

/// The first child of `l`, from the `k`-th on, whose range holds node `x`.
pub open spec fn child_containing(v: Seq<NodeView>, l: int, x: int, k: int) -> Option<int>
    decreases v[l].4.len() - k,
{
    if 0 <= l < v.len() && 0 <= k < v[l].4.len() {
        match child_of(v, l, k) {
            Some(c) => if v[c].2.start <= v[x].2.start && v[x].2.end <= v[c].2.end {
                Some(c)
            } else {
                child_containing(v, l, x, k + 1)
            },
            None => child_containing(v, l, x, k + 1),
        }
    } else {
        None
    }
}

/// How many children of `l`, from the `k`-th on, are named.
pub open spec fn named_children(v: Seq<NodeView>, l: int, k: int) -> nat
    decreases v[l].4.len() - k,
{
    if 0 <= l < v.len() && 0 <= k < v[l].4.len() {
        (match child_of(v, l, k) {
            Some(c) => if v[c].1 {
                1nat
            } else {
                0nat
            },
            None => 0nat,
        }) + named_children(v, l, k + 1)
    } else {
        0
    }
}

/// The prefixes of the scopes around node `x`, outermost first: the text
/// of each `scope` ancestor's prefix field, except a prefix that holds the
/// range `own` (`b` in `use a::{b::{c}}` is under `a`, not `a::b`).
pub open spec fn scope_prefixes(v: Seq<NodeView>, b: Seq<u8>, x: int, own: Span, scope: Seq<char>, f: usize) -> Seq<Seq<char>>
    decreases x,
{
    match parent_of(v, x) {
        None => seq![],
        Some(a) => if 0 <= a < x {
            scope_prefixes(v, b, a, own, scope, f) + if v[a].0 == scope {
                match field_of(v, a, f) {
                    Some(p) => if v[p].2.start <= own.start && own.end <= v[p].2.end {
                        seq![]
                    } else {
                        seq![text_at(b, v[p].2)]
                    },
                    None => seq![],
                }
            } else {
                seq![]
            }
        } else {
            seq![]
        },
    }
}

/// The prefix and group of node `x` when it is an entry of a grouped
/// import: the list around it, its item there, the statement, the joined
/// prefixes, how many named entries the list has, and whether the list
/// hangs right under the statement.
pub open spec fn group_of(v: Seq<NodeView>, b: Seq<u8>, g: ImportGrammar, x: int) -> Option<(Seq<char>, GroupView)> {
    match g.nesting {
        None => None,
        Some(n) => match nearest_of_kind(v, x, n.list@) {
            None => None,
            Some(l) => match child_containing(v, l, x, 0) {
                None => None,
                Some(item) => match nearest_of_kind(v, x, n.statement@) {
                    None => None,
                    Some(st) => {
                        let prefix = join(scope_prefixes(v, b, x, v[x].2, n.scope@, n.prefix_field), separator(g.syntax));
                        let top_level = match parent_of(v, l) {
                            Some(sc) => match parent_of(v, sc) {
                                Some(pp) => v[pp].2 == v[st].2,
                                None => false,
                            },
                            None => false,
                        };
                        match parse_path(g.syntax, prefix) {
                            Some(pv) => Some((prefix, (pv, v[item].2, v[l].2, named_children(v, l, 0) as usize, v[st].2, top_level))),
                            None => None,
                        }
                    },
                },
            },
        },
    }
}

/// The import that the path at node `x0` makes, unless its path cannot
/// be read back.
pub open spec fn import_at(v: Seq<NodeView>, b: Seq<u8>, g: ImportGrammar, x0: int) -> Option<ImportView> {
    let x = unquoted(v, x0);
    let span = v[x].2;
    let text = text_at(b, span);
    let (path, group) = match group_of(v, b, g, x) {
        Some((prefix, gv)) => (parse_path(g.syntax, prefix + separator(g.syntax) + text), Some(gv)),
        None => (parse_path(g.syntax, text), None),
    };
    let glob = match g.glob_under {
        Some(k) => match parent_of(v, x) {
            Some(p) => v[p].0 == k@,
            None => false,
        },
        None => false,
    };
    let statement = nearest_in(v, x, kinds_view(g.statements@));
    let declares = g.statements@.len() == 0 || statement is Some;
    let reexport = match g.reexports {
        ReExportRule::Never => false,
        ReExportRule::Modifier(k) => match statement {
            Some(st) => child_of_kind(v, st, k@, 0) is Some,
            None => false,
        },
        ReExportRule::Statement(k) => nearest_of_kind(v, x, k@) is Some,
    };
    let alias = match g.alias {
        Some((under, f)) => match parent_of(v, x) {
            Some(p) => if v[p].0 == under@ {
                match field_of(v, p, f) {
                    Some(a) => Some(text_at(b, v[a].2)),
                    None => None,
                }
            } else {
                None
            },
            None => None,
        },
        None => None,
    };
    match path {
        Some(pv) => Some((span, pv, group, glob, declares, reexport, alias)),
        None => None,
    }
}

/// An optional import as a sequence of at most one.
pub open spec fn opt_seq(o: Option<ImportView>) -> Seq<ImportView> {
    match o {
        Some(i) => seq![i],
        None => seq![],
    }
}

/// The imports a node rule finds among the nodes from the `k`-th on.
pub open spec fn node_rule_imports(
    v: Seq<NodeView>,
    b: Seq<u8>,
    g: ImportGrammar,
    kind: Seq<char>,
    field: Option<usize>,
    under: Option<Seq<char>>,
    k: int,
) -> Seq<ImportView>
    decreases v.len() - k,
{
    if k < 0 || k >= v.len() {
        seq![]
    } else {
        let fits = v[k].1 && v[k].0 == kind && match under {
            None => true,
            Some(u) => match parent_of(v, k) {
                Some(p) => v[p].0 == u,
                None => false,
            },
        };
        let path_node = match field {
            None => Some(k),
            Some(f) => field_of(v, k, f),
        };
        let here = if fits {
            match path_node {
                Some(x) => opt_seq(import_at(v, b, g, x)),
                None => seq![],
            }
        } else {
            seq![]
        };
        here + node_rule_imports(v, b, g, kind, field, under, k + 1)
    }
}

/// The imports a pattern rule's captures make, in order.
pub open spec fn capture_imports(v: Seq<NodeView>, b: Seq<u8>, g: ImportGrammar, cs: Seq<Option<(usize, usize, Seq<char>)>>) -> Seq<ImportView>
    decreases cs.len(),
{
    if cs.len() == 0 {
        seq![]
    } else {
        capture_imports(v, b, g, cs.drop_last()) + match cs.last() {
            Some(h) => match locate(v, h, 0) {
                Some(x) => opt_seq(import_at(v, b, g, x)),
                None => seq![],
            },
            None => seq![],
        }
    }
}

/// Why a grammar's import rules cannot run: a kind it does not have, or a
/// pattern that does not compile.
pub enum ImportsFailure {
    Kind(Seq<char>),
    Pattern(Seq<char>),
}

/// The imports the `k`-th rule finds, or why it cannot run.
pub open spec fn rule_here(lang: Lang, source: Seq<char>, g: ImportGrammar, k: int) -> Result<Seq<ImportView>, ImportsFailure> {
    let v = crate::syntax::searcher::nodes_of(lang, source);
    let b = bytes_of(source);
    match g.rules@[k] {
        ImportRule::Node { kind, field, under } => if kind_valid(lang, kind@) {
            Ok(node_rule_imports(v, b, g, kind@, field, crate::syntax::symbols::kind_opt(under), 0))
        } else {
            Err(ImportsFailure::Kind(invalid_kind_message(kind@)))
        },
        ImportRule::Pattern { pattern, capture } => match captures_of(lang, source, pattern@, capture@) {
            Ok(cs) => Ok(capture_imports(v, b, g, cs)),
            Err(m) => Err(ImportsFailure::Pattern(m)),
        },
    }
}

/// The imports the rules from the `k`-th on find, rule by rule, or the
/// first rule's failure.
pub open spec fn rule_imports(lang: Lang, source: Seq<char>, g: ImportGrammar, k: int) -> Result<Seq<ImportView>, ImportsFailure>
    decreases g.rules@.len() - k,
{
    if k < 0 || k >= g.rules@.len() {
        Ok(seq![])
    } else {
        match rule_here(lang, source, g, k) {
            Err(e) => Err(e),
            Ok(found) => match rule_imports(lang, source, g, k + 1) {
                Err(e) => Err(e),
                Ok(rest) => Ok(found + rest),
            },
        }
    }
}

/// `a` comes before `b`: it starts earlier, or at the same place and ends
/// later.
pub open spec fn before(a: Span, b: Span) -> bool {
    a.start < b.start || (a.start == b.start && a.end > b.end)
}

/// `x` put into the sorted `t` after everything not after it.
pub open spec fn inserted(t: Seq<ImportView>, x: ImportView) -> Seq<ImportView>
    decreases t.len(),
{
    if t.len() == 0 {
        seq![x]
    } else if before(x.0, t.last().0) {
        inserted(t.drop_last(), x).push(t.last())
    } else {
        t.push(x)
    }
}

/// The imports in order of where they start, longer first, ties kept in
/// the order found.
pub open spec fn sorted_imports(s: Seq<ImportView>) -> Seq<ImportView>
    decreases s.len(),
{
    if s.len() == 0 {
        seq![]
    } else {
        inserted(sorted_imports(s.drop_last()), s.last())
    }
}

/// `outer` holds `inner`.
pub open spec fn holds(outer: Span, inner: Span) -> bool {
    outer.start <= inner.start && inner.end <= outer.end
}

/// The sorted imports without those inside the one kept before them:
/// `crate::a::b` is one path, not three.
pub open spec fn outermost(s: Seq<ImportView>) -> Seq<ImportView>
    decreases s.len(),
{
    if s.len() == 0 {
        seq![]
    } else {
        let kept = outermost(s.drop_last());
        if kept.len() > 0 && holds(kept.last().0, s.last().0) {
            kept
        } else {
            kept.push(s.last())
        }
    }
}

/// The imports of `source`: what the rules find, sorted, outermost kept.
pub open spec fn imports_of(lang: Lang, source: Seq<char>, g: ImportGrammar) -> Result<Seq<ImportView>, ImportsFailure> {
    match rule_imports(lang, source, g, 0) {
        Ok(found) => Ok(outermost(sorted_imports(found))),
        Err(e) => Err(e),
    }
}

/// No import comes before one found ahead of it.
pub open spec fn in_order(s: Seq<ImportView>) -> bool {
    forall|i: int, j: int| 0 <= i < j < s.len() ==> !before(#[trigger] s[j].0, #[trigger] s[i].0)
}

proof fn lemma_inserted_in_order(t: Seq<ImportView>, x: ImportView)
    requires
        in_order(t),
    ensures
        in_order(inserted(t, x)),
        inserted(t, x).len() == t.len() + 1,
        forall|i: int| 0 <= i < inserted(t, x).len() ==> (#[trigger] inserted(t, x)[i] == x || t.contains(inserted(t, x)[i])),
    decreases t.len(),
{
    if t.len() == 0 {
    } else if before(x.0, t.last().0) {
        let u = t.drop_last();
        assert(in_order(u)) by {
            assert forall|i: int, j: int| 0 <= i < j < u.len() implies !before(#[trigger] u[j].0, #[trigger] u[i].0) by {
                assert(u[i] == t[i] && u[j] == t[j]);
            }
        }
        lemma_inserted_in_order(u, x);
        let w = inserted(u, x);
        let r = w.push(t.last());
        assert(inserted(t, x) == r);
        assert forall|i: int| 0 <= i < w.len() implies !before(t.last().0, #[trigger] w[i].0) by {
            if w[i] != x {
                assert(u.contains(w[i]));
                let k = choose|k: int| 0 <= k < u.len() && u[k] == w[i];
                assert(t[k] == u[k]);
                assert(!before(t[t.len() - 1].0, t[k].0));
            }
        }
        assert forall|i: int, j: int| 0 <= i < j < r.len() implies !before(#[trigger] r[j].0, #[trigger] r[i].0) by {
            if j == r.len() - 1 {
                assert(r[j] == t.last());
                assert(r[i] == w[i]);
            } else {
                assert(r[i] == w[i] && r[j] == w[j]);
            }
        }
        assert forall|i: int| 0 <= i < r.len() implies (#[trigger] r[i] == x || t.contains(r[i])) by {
            if i == r.len() - 1 {
                assert(t[t.len() - 1] == r[i]);
            } else {
                assert(r[i] == w[i]);
                if w[i] != x {
                    let k = choose|k: int| 0 <= k < u.len() && u[k] == w[i];
                    assert(t[k] == u[k]);
                }
            }
        }
    } else {
        let r = t.push(x);
        assert(inserted(t, x) == r);
        assert forall|i: int, j: int| 0 <= i < j < r.len() implies !before(#[trigger] r[j].0, #[trigger] r[i].0) by {
            if j == r.len() - 1 {
                assert(r[i] == t[i]);
                if i < t.len() - 1 {
                    assert(!before(t[t.len() - 1].0, t[i].0));
                }
            } else {
                assert(r[i] == t[i] && r[j] == t[j]);
            }
        }
        assert forall|i: int| 0 <= i < r.len() implies (#[trigger] r[i] == x || t.contains(r[i])) by {
            if i < t.len() {
                assert(r[i] == t[i]);
            }
        }
    }
}

proof fn lemma_sorted_in_order(s: Seq<ImportView>)
    ensures
        in_order(sorted_imports(s)),
    decreases s.len(),
{
    if s.len() > 0 {
        lemma_sorted_in_order(s.drop_last());
        lemma_inserted_in_order(sorted_imports(s.drop_last()), s.last());
    }
}

proof fn lemma_outermost(s: Seq<ImportView>)
    requires
        in_order(s),
    ensures
        in_order(outermost(s)),
        forall|i: int| 0 < i < outermost(s).len() ==> !holds(outermost(s)[i - 1].0, #[trigger] outermost(s)[i].0),
        forall|i: int| 0 <= i < outermost(s).len() ==> s.contains(#[trigger] outermost(s)[i]),
    decreases s.len(),
{
    if s.len() > 0 {
        let u = s.drop_last();
        assert(in_order(u)) by {
            assert forall|i: int, j: int| 0 <= i < j < u.len() implies !before(#[trigger] u[j].0, #[trigger] u[i].0) by {
                assert(u[i] == s[i] && u[j] == s[j]);
            }
        }
        lemma_outermost(u);
        let kept = outermost(u);
        let c = s.last();
        if kept.len() > 0 && holds(kept.last().0, c.0) {
            assert forall|i: int| 0 <= i < kept.len() implies s.contains(#[trigger] kept[i]) by {
                let k = choose|k: int| 0 <= k < u.len() && u[k] == kept[i];
                assert(s[k] == u[k]);
            }
        } else {
            let r = kept.push(c);
            assert forall|i: int| 0 <= i < kept.len() implies !before(c.0, #[trigger] kept[i].0) by {
                let k = choose|k: int| 0 <= k < u.len() && u[k] == kept[i];
                assert(s[k] == u[k]);
                assert(!before(s[s.len() - 1].0, s[k].0));
            }
            assert forall|i: int, j: int| 0 <= i < j < r.len() implies !before(#[trigger] r[j].0, #[trigger] r[i].0) by {
                assert(r[i] == kept[i]);
                if j < r.len() - 1 {
                    assert(r[j] == kept[j]);
                }
            }
            assert forall|i: int| 0 < i < r.len() implies !holds(r[i - 1].0, #[trigger] r[i].0) by {
                if i == r.len() - 1 {
                    assert(r[i - 1] == kept.last());
                } else {
                    assert(r[i] == kept[i] && r[i - 1] == kept[i - 1]);
                }
            }
            assert forall|i: int| 0 <= i < r.len() implies s.contains(#[trigger] r[i]) by {
                if i == r.len() - 1 {
                    assert(s[s.len() - 1] == r[i]);
                } else {
                    let k = choose|k: int| 0 <= k < u.len() && u[k] == kept[i];
                    assert(s[k] == u[k]);
                    assert(r[i] == kept[i]);
                }
            }
        }
    }
}

/// The imports of a file come in the order of where they start, the
/// longer of two that start together first, and none lies within the one
/// before it: `crate::a::b` is one path, not three.
pub proof fn law_imports_are_ordered_and_outermost(lang: Lang, source: Seq<char>, g: ImportGrammar)
    requires
        imports_of(lang, source, g) is Ok,
    ensures
        in_order(imports_of(lang, source, g)->Ok_0),
        forall|i: int| 0 < i < imports_of(lang, source, g)->Ok_0.len() ==> !holds(
            imports_of(lang, source, g)->Ok_0[i - 1].0,
            #[trigger] imports_of(lang, source, g)->Ok_0[i].0,
        ),
{
    let found = rule_imports(lang, source, g, 0)->Ok_0;
    lemma_sorted_in_order(found);
    lemma_outermost(sorted_imports(found));
}

/// A path the grammar spells, read back.
fn read_path(syntax: PathSyntax, text: &str) -> (r: Option<ModulePath>)
    ensures
        match r {
            Some(p) => parse_path(syntax, text@) == Some(module_path_view(p)),
            None => parse_path(syntax, text@) is None,
        },
{
    match syntax {
        PathSyntax::Scoped => ModulePath::parse_scoped(text),
        PathSyntax::Posix => ModulePath::parse_posix(text),
    }
}

/// How the grammar joins a path's segments.
fn separator_of(syntax: PathSyntax) -> (r: &'static str)
    ensures
        r@ == separator(syntax),
{
    match syntax {
        PathSyntax::Scoped => {
            proof {
                reveal_strlit("::");
            }
            "::"
        },
        PathSyntax::Posix => {
            proof {
                reveal_strlit("/");
            }
            "/"
        },
    }
}

/// Applies an import grammar to a parsed file.
pub struct ImportExtractor<'g> {
    pub grammar: &'g ImportGrammar,
    pub lang: Lang,
}

impl<'g> ImportExtractor<'g> {
    pub fn new(grammar: &'g ImportGrammar, lang: Lang) -> (e: ImportExtractor<'g>)
        ensures
            *e.grammar == *grammar,
            e.lang == lang,
    {
        ImportExtractor { grammar, lang }
    }

    /// The nearest ancestor of node `x` of kind `kind`.
    fn nearest_of_kind(tree: &SyntaxTree, x: usize, kind: &str) -> (r: Option<usize>)
        requires
            well_formed(*tree),
            x < tree.nodes@.len(),
        ensures
            match r {
                Some(p) => nearest_of_kind(tree_view(*tree), x as int, kind@) == Some(p as int) && p < tree.nodes@.len(),
                None => nearest_of_kind(tree_view(*tree), x as int, kind@) is None,
            },
    {
        let ghost v = tree_view(*tree);
        let mut cur: usize = x;
        loop
            invariant
                well_formed(*tree),
                v == tree_view(*tree),
                cur < tree.nodes@.len(),
                nearest_of_kind(v, x as int, kind@) == nearest_of_kind(v, cur as int, kind@),
            decreases cur,
        {
            match tree.nodes[cur].parent {
                None => {
                    return None;
                },
                Some(p) => {
                    if str_eq(tree.nodes[p].kind.as_str(), kind) {
                        return Some(p);
                    }
                    cur = p;
                },
            }
        }
    }

    /// The nearest ancestor of node `x` whose kind is among `kinds`.
    fn nearest_in(tree: &SyntaxTree, x: usize, kinds: &Vec<&'static str>) -> (r: Option<usize>)
        requires
            well_formed(*tree),
            x < tree.nodes@.len(),
        ensures
            match r {
                Some(p) => nearest_in(tree_view(*tree), x as int, kinds_view(kinds@)) == Some(p as int) && p < tree.nodes@.len(),
                None => nearest_in(tree_view(*tree), x as int, kinds_view(kinds@)) is None,
            },
    {
        let ghost v = tree_view(*tree);
        let mut cur: usize = x;
        loop
            invariant
                well_formed(*tree),
                v == tree_view(*tree),
                cur < tree.nodes@.len(),
                nearest_in(v, x as int, kinds_view(kinds@)) == nearest_in(v, cur as int, kinds_view(kinds@)),
            decreases cur,
        {
            match tree.nodes[cur].parent {
                None => {
                    return None;
                },
                Some(p) => {
                    if listed(kinds, tree.nodes[p].kind.as_str()) {
                        return Some(p);
                    }
                    cur = p;
                },
            }
        }
    }

    /// For a string literal, its fragment between the quotes.
    fn unquoted(tree: &SyntaxTree, x: usize) -> (r: usize)
        requires
            well_formed(*tree),
            x < tree.nodes@.len(),
        ensures
            r == unquoted(tree_view(*tree), x as int),
            r < tree.nodes@.len(),
    {
        proof {
            reveal_strlit("string");
            reveal_strlit("string_fragment");
        }
        if str_eq(tree.nodes[x].kind.as_str(), "string") {
            match SymbolExtractor::child_of_kind(tree, x, "string_fragment") {
                Some(c) => c,
                None => x,
            }
        } else {
            x
        }
    }

    /// The first child of `l` whose range holds node `x`.
    fn child_containing(tree: &SyntaxTree, l: usize, x: usize) -> (r: Option<usize>)
        requires
            well_formed(*tree),
            l < tree.nodes@.len(),
            x < tree.nodes@.len(),
        ensures
            match r {
                Some(c) => child_containing(tree_view(*tree), l as int, x as int, 0) == Some(c as int) && c < tree.nodes@.len(),
                None => child_containing(tree_view(*tree), l as int, x as int, 0) is None,
            },
    {
        let ghost v = tree_view(*tree);
        let children = &tree.nodes[l].children;
        let span = tree.nodes[x].span;
        let mut k: usize = 0;
        while k < children.len()
            invariant
                well_formed(*tree),
                v == tree_view(*tree),
                l < tree.nodes@.len(),
                x < tree.nodes@.len(),
                span == tree.nodes@[x as int].span,
                *children == tree.nodes@[l as int].children,
                0 <= k <= children@.len(),
                child_containing(v, l as int, x as int, 0) == child_containing(v, l as int, x as int, k as int),
            decreases children@.len() - k,
        {
            let c = children[k];
            let cs = tree.nodes[c].span;
            if cs.start <= span.start && span.end <= cs.end {
                return Some(c);
            }
            k = k + 1;
        }
        None
    }

    /// How many children of `l` are named.
    fn named_children(tree: &SyntaxTree, l: usize) -> (n: usize)
        requires
            well_formed(*tree),
            l < tree.nodes@.len(),
        ensures
            n as nat == named_children(tree_view(*tree), l as int, 0),
    {
        let ghost v = tree_view(*tree);
        let children = &tree.nodes[l].children;
        let mut n: usize = 0;
        let total = children.len();
        let mut k: usize = total;
        while k > 0
            invariant
                total == children@.len(),
                well_formed(*tree),
                v == tree_view(*tree),
                l < tree.nodes@.len(),
                *children == tree.nodes@[l as int].children,
                0 <= k <= children@.len(),
                n as nat == named_children(v, l as int, k as int),
                n <= children@.len() - k,
            decreases k,
        {
            let c = children[k - 1];
            if tree.nodes[c].named {
                n = n + 1;
            }
            k = k - 1;
        }
        n
    }

    /// The prefixes of the scopes around node `x`, outermost first.
    fn scope_prefixes(tree: &SyntaxTree, source: &str, x: usize, own: Span, scope: &str, f: usize) -> (r: Vec<String>)
        requires
            well_formed(*tree),
            x < tree.nodes@.len(),
        ensures
            segs(r@) == scope_prefixes(tree_view(*tree), bytes_of(source@), x as int, own, scope@, f),
        decreases x,
    {
        match tree.nodes[x].parent {
            None => Vec::new(),
            Some(a) => {
                let mut out = Self::scope_prefixes(tree, source, a, own, scope, f);
                if str_eq(tree.nodes[a].kind.as_str(), scope) {
                    match SymbolExtractor::field(tree, a, f) {
                        Some(p) => {
                            let ps = tree.nodes[p].span;
                            if !(ps.start <= own.start && own.end <= ps.end) {
                                let ghost before = segs(out@);
                                out.push(text_of(source, ps));
                                proof {
                                    assert(segs(out@) =~= before + seq![text_at(bytes_of(source@), ps)]);
                                }
                            } else {
                                proof {
                                    assert(segs(out@) =~= segs(out@) + Seq::<Seq<char>>::empty());
                                }
                            }
                        },
                        None => {
                            proof {
                                assert(segs(out@) =~= segs(out@) + Seq::<Seq<char>>::empty());
                            }
                        },
                    }
                } else {
                    proof {
                        assert(segs(out@) =~= segs(out@) + Seq::<Seq<char>>::empty());
                    }
                }
                out
            },
        }
    }

    /// The prefix and group of node `x` when it is an entry of a grouped
    /// import.
    fn group_of(&self, tree: &SyntaxTree, source: &str, x: usize) -> (r: Option<(String, ImportGroup)>)
        requires
            well_formed(*tree),
            x < tree.nodes@.len(),
        ensures
            match r {
                Some((prefix, g)) => group_of(tree_view(*tree), bytes_of(source@), *self.grammar, x as int) == Some(
                    (prefix@, (module_path_view(g.prefix), g.item, g.list, g.items, g.statement, g.top_level)),
                ),
                None => group_of(tree_view(*tree), bytes_of(source@), *self.grammar, x as int) is None,
            },
    {
        let n = match self.grammar.nesting {
            Some(n) => n,
            None => {
                return None;
            },
        };
        let l = match Self::nearest_of_kind(tree, x, n.list) {
            Some(l) => l,
            None => {
                return None;
            },
        };
        let item = match Self::child_containing(tree, l, x) {
            Some(c) => c,
            None => {
                return None;
            },
        };
        let st = match Self::nearest_of_kind(tree, x, n.statement) {
            Some(st) => st,
            None => {
                return None;
            },
        };
        let parts = Self::scope_prefixes(tree, source, x, tree.nodes[x].span, n.scope, n.prefix_field);
        let prefix = crate::paths::joined(&parts, separator_of(self.grammar.syntax));
        let top_level = match tree.nodes[l].parent {
            Some(sc) => match tree.nodes[sc].parent {
                Some(pp) => tree.nodes[pp].span == tree.nodes[st].span,
                None => false,
            },
            None => false,
        };
        let prefix_path = match read_path(self.grammar.syntax, prefix.as_str()) {
            Some(p) => p,
            None => {
                return None;
            },
        };
        let group = ImportGroup {
            prefix: prefix_path,
            item: tree.nodes[item].span,
            list: tree.nodes[l].span,
            items: Self::named_children(tree, l),
            statement: tree.nodes[st].span,
            top_level,
        };
        Some((prefix, group))
    }

    /// The import the path at node `x0` makes.
    fn import_at(&self, tree: &SyntaxTree, source: &str, x0: usize) -> (r: Option<ImportRef>)
        requires
            well_formed(*tree),
            x0 < tree.nodes@.len(),
        ensures
            match r {
                Some(i) => import_at(tree_view(*tree), bytes_of(source@), *self.grammar, x0 as int) == Some(import_view(i)),
                None => import_at(tree_view(*tree), bytes_of(source@), *self.grammar, x0 as int) is None,
            },
    {
        let ghost v = tree_view(*tree);
        let ghost b = bytes_of(source@);
        let x = Self::unquoted(tree, x0);
        let span = tree.nodes[x].span;
        let text = text_of(source, span);
        let (path, group) = match self.group_of(tree, source, x) {
            Some((prefix, g)) => {
                let mut full = prefix;
                push_str(&mut full, separator_of(self.grammar.syntax));
                push_str(&mut full, text.as_str());
                (read_path(self.grammar.syntax, full.as_str()), Some(g))
            },
            None => (read_path(self.grammar.syntax, text.as_str()), None),
        };
        let glob = match self.grammar.glob_under {
            Some(k) => match tree.nodes[x].parent {
                Some(p) => str_eq(tree.nodes[p].kind.as_str(), k),
                None => false,
            },
            None => false,
        };
        let statement = Self::nearest_in(tree, x, &self.grammar.statements);
        let declares = self.grammar.statements.len() == 0 || statement.is_some();
        let reexport = match self.grammar.reexports {
            ReExportRule::Never => false,
            ReExportRule::Modifier(k) => match statement {
                Some(st) => SymbolExtractor::child_of_kind(tree, st, k).is_some(),
                None => false,
            },
            ReExportRule::Statement(k) => Self::nearest_of_kind(tree, x, k).is_some(),
        };
        let alias = match self.grammar.alias {
            Some((under, f)) => match tree.nodes[x].parent {
                Some(p) => if str_eq(tree.nodes[p].kind.as_str(), under) {
                    match SymbolExtractor::field(tree, p, f) {
                        Some(a) => Some(text_of(source, tree.nodes[a].span)),
                        None => None,
                    }
                } else {
                    None
                },
                None => None,
            },
            None => None,
        };
        match path {
            Some(path) => Some(ImportRef { span, path, group, glob, declares, reexport, alias }),
            None => None,
        }
    }

    /// Push the imports a node rule finds.
    fn push_node_rule(
        &self,
        tree: &SyntaxTree,
        source: &str,
        kind: &str,
        field: Option<usize>,
        under: Option<&'static str>,
        out: &mut Vec<ImportRef>,
    )
        requires
            well_formed(*tree),
        ensures
            imports_view(final(out)@) == imports_view(old(out)@) + node_rule_imports(
                tree_view(*tree),
                bytes_of(source@),
                *self.grammar,
                kind@,
                field,
                crate::syntax::symbols::kind_opt(under),
                0,
            ),
    {
        let ghost v = tree_view(*tree);
        let ghost b = bytes_of(source@);
        let ghost g = *self.grammar;
        let ghost u = crate::syntax::symbols::kind_opt(under);
        let ghost start = imports_view(old(out)@);
        let mut k: usize = 0;
        while k < tree.nodes.len()
            invariant
                well_formed(*tree),
                v == tree_view(*tree),
                b == bytes_of(source@),
                g == *self.grammar,
                u == crate::syntax::symbols::kind_opt(under),
                0 <= k <= tree.nodes@.len(),
                imports_view(out@) + node_rule_imports(v, b, g, kind@, field, u, k as int)
                    == start + node_rule_imports(v, b, g, kind@, field, u, 0),
            decreases tree.nodes@.len() - k,
        {
            let ghost before = imports_view(out@);
            let node = &tree.nodes[k];
            let fits = node.named && str_eq(node.kind.as_str(), kind) && match under {
                None => true,
                Some(u) => match node.parent {
                    Some(p) => str_eq(tree.nodes[p].kind.as_str(), u),
                    None => false,
                },
            };
            if fits {
                let path_node = match field {
                    None => Some(k),
                    Some(f) => SymbolExtractor::field(tree, k, f),
                };
                match path_node {
                    Some(x) => match self.import_at(tree, source, x) {
                        Some(i) => {
                            out.push(i);
                            proof {
                                assert(imports_view(out@) =~= before.push(import_view(out@.last())));
                            }
                        },
                        None => {},
                    },
                    None => {},
                }
            }
            proof {
                assert(imports_view(out@) + node_rule_imports(v, b, g, kind@, field, u, k + 1)
                    =~= before + node_rule_imports(v, b, g, kind@, field, u, k as int));
            }
            k = k + 1;
        }
        proof {
            assert(imports_view(out@) =~= imports_view(out@) + node_rule_imports(v, b, g, kind@, field, u, k as int));
        }
    }

    /// Push the imports a pattern rule's captures make.
    fn push_captures(&self, tree: &SyntaxTree, source: &str, cs: &Vec<Captured>, out: &mut Vec<ImportRef>)
        requires
            well_formed(*tree),
        ensures
            imports_view(final(out)@) == imports_view(old(out)@) + capture_imports(
                tree_view(*tree),
                bytes_of(source@),
                *self.grammar,
                crate::syntax::matching::captured_view(cs@),
            ),
    {
        let ghost v = tree_view(*tree);
        let ghost b = bytes_of(source@);
        let ghost g = *self.grammar;
        let ghost cv = crate::syntax::matching::captured_view(cs@);
        let ghost start = imports_view(old(out)@);
        let mut k: usize = 0;
        while k < cs.len()
            invariant
                well_formed(*tree),
                v == tree_view(*tree),
                b == bytes_of(source@),
                g == *self.grammar,
                cv == crate::syntax::matching::captured_view(cs@),
                0 <= k <= cs@.len(),
                imports_view(out@) == start + capture_imports(v, b, g, cv.take(k as int)),
            decreases cs@.len() - k,
        {
            let ghost before = imports_view(out@);
            proof {
                assert(cv.take(k + 1).drop_last() =~= cv.take(k as int));
                assert(cv.take(k + 1).last() == cv[k as int]);
            }
            match &cs[k] {
                Some(h) => {
                    let hit = (h.0, h.1, crate::text::owned(h.2.as_str()));
                    match crate::syntax::searcher::AstGrepSearcher::located(tree, &hit) {
                        Some(x) => match self.import_at(tree, source, x) {
                            Some(i) => {
                                out.push(i);
                                proof {
                                    assert(imports_view(out@) =~= before.push(import_view(out@.last())));
                                }
                            },
                            None => {},
                        },
                        None => {},
                    }
                },
                None => {},
            }
            proof {
                assert(imports_view(out@) =~= start + capture_imports(v, b, g, cv.take(k + 1)));
            }
            k = k + 1;
        }
        proof {
            assert(cv.take(k as int) =~= cv);
        }
    }

    /// Run the `k`-th rule, pushing what it finds.
    fn run_rule(&self, tree: &SyntaxTree, source: &str, k: usize, found: &mut Vec<ImportRef>) -> (r: Result<(), crate::syntax::searcher::SearchError>)
        requires
            well_formed(*tree),
            tree_view(*tree) == crate::syntax::searcher::nodes_of(self.lang, source@),
            k < self.grammar.rules@.len(),
        ensures
            match r {
                Ok(()) => imports_view(old(found)@).len() <= imports_view(final(found)@).len()
                    && imports_view(final(found)@).take(imports_view(old(found)@).len() as int) == imports_view(old(found)@)
                    && rule_here(self.lang, source@, *self.grammar, k as int) == Ok::<Seq<ImportView>, ImportsFailure>(
                        imports_view(final(found)@).skip(imports_view(old(found)@).len() as int),
                    ),
                Err(crate::syntax::searcher::SearchError::Kind(m)) => rule_here(self.lang, source@, *self.grammar, k as int)
                    == Err::<Seq<ImportView>, ImportsFailure>(ImportsFailure::Kind(m@)),
                Err(crate::syntax::searcher::SearchError::Pattern(m)) => rule_here(self.lang, source@, *self.grammar, k as int)
                    == Err::<Seq<ImportView>, ImportsFailure>(ImportsFailure::Pattern(m@)),
            },
    {
        let ghost before = imports_view(found@);
        match self.grammar.rules[k] {
            ImportRule::Node { kind, field, under } => {
                match check_kind(self.lang, kind) {
                    Ok(()) => {},
                    Err(m) => {
                        return Err(crate::syntax::searcher::SearchError::Kind(m));
                    },
                }
                self.push_node_rule(tree, source, kind, field, under, found);
                proof {
                    let here = node_rule_imports(tree_view(*tree), bytes_of(source@), *self.grammar, kind@, field, crate::syntax::symbols::kind_opt(under), 0);
                    assert(imports_view(found@).skip(before.len() as int) =~= here);
                    assert(imports_view(found@).take(before.len() as int) =~= before);
                }
                Ok(())
            },
            ImportRule::Pattern { pattern, capture } => {
                match captured_in(self.lang, source, pattern, capture) {
                    Ok(cs) => {
                        self.push_captures(tree, source, &cs, found);
                        proof {
                            let here = capture_imports(tree_view(*tree), bytes_of(source@), *self.grammar, crate::syntax::matching::captured_view(cs@));
                            assert(imports_view(found@).skip(before.len() as int) =~= here);
                            assert(imports_view(found@).take(before.len() as int) =~= before);
                        }
                        Ok(())
                    },
                    Err(m) => Err(crate::syntax::searcher::SearchError::Pattern(m)),
                }
            },
        }
    }

    /// The imports of the file `tree` was parsed from: what the rules find,
    /// sorted by where they start (longer first), the outermost kept.
    pub fn extract(&self, tree: &SyntaxTree, source: &str) -> (r: Result<Vec<ImportRef>, crate::syntax::searcher::SearchError>)
        requires
            well_formed(*tree),
            tree_view(*tree) == crate::syntax::searcher::nodes_of(self.lang, source@),
        ensures
            match r {
                Ok(rs) => imports_of(self.lang, source@, *self.grammar) == Ok::<Seq<ImportView>, ImportsFailure>(imports_view(rs@)),
                Err(crate::syntax::searcher::SearchError::Kind(m)) => imports_of(self.lang, source@, *self.grammar) == Err::<Seq<ImportView>, ImportsFailure>(ImportsFailure::Kind(m@)),
                Err(crate::syntax::searcher::SearchError::Pattern(m)) => imports_of(self.lang, source@, *self.grammar) == Err::<Seq<ImportView>, ImportsFailure>(ImportsFailure::Pattern(m@)),
            },
    {
        let ghost g = *self.grammar;
        let mut found: Vec<ImportRef> = Vec::new();
        let rules = &self.grammar.rules;
        let mut k: usize = 0;
        while k < rules.len()
            invariant
                well_formed(*tree),
                tree_view(*tree) == crate::syntax::searcher::nodes_of(self.lang, source@),
                g == *self.grammar,
                *rules == self.grammar.rules,
                0 <= k <= rules@.len(),
                rule_imports(self.lang, source@, g, 0) == match rule_imports(self.lang, source@, g, k as int) {
                    Ok(rest) => Ok(imports_view(found@) + rest),
                    Err(e) => Err::<Seq<ImportView>, ImportsFailure>(e),
                },
            decreases rules@.len() - k,
        {
            let ghost before = imports_view(found@);
            match self.run_rule(tree, source, k, &mut found) {
                Ok(()) => {},
                Err(e) => {
                    return Err(e);
                },
            }
            proof {
                let here = imports_view(found@).skip(before.len() as int);
                assert(imports_view(found@) =~= before + here);
                match rule_imports(self.lang, source@, g, k + 1) {
                    Ok(rest) => {
                        assert(imports_view(found@) + rest =~= before + (here + rest));
                    },
                    Err(e) => {},
                }
            }
            k = k + 1;
        }
        proof {
            assert(imports_view(found@) + Seq::<ImportView>::empty() =~= imports_view(found@));
        }
        let sorted = sort_imports(&found);
        Ok(keep_outermost(&sorted))
    }
}

/// A copy of a path.
fn copy_module_path(p: &ModulePath) -> (r: ModulePath)
    ensures
        module_path_view(r) == module_path_view(*p),
{
    ModulePath { head: p.head, segments: crate::paths::copy_path(&p.segments) }
}

/// A copy of an import.
fn copy_import(r: &ImportRef) -> (c: ImportRef)
    ensures
        import_view(c) == import_view(*r),
{
    let group = match &r.group {
        Some(g) => Some(ImportGroup {
            prefix: copy_module_path(&g.prefix),
            item: g.item,
            list: g.list,
            items: g.items,
            statement: g.statement,
            top_level: g.top_level,
        }),
        None => None,
    };
    let alias = match &r.alias {
        Some(a) => Some(crate::text::owned(a.as_str())),
        None => None,
    };
    ImportRef {
        span: r.span,
        path: copy_module_path(&r.path),
        group,
        glob: r.glob,
        declares: r.declares,
        reexport: r.reexport,
        alias,
    }
}

/// Where `inserted` puts `x`: after the run of elements it does not come
/// before.
proof fn lemma_inserted(t: Seq<ImportView>, x: ImportView, j: int)
    requires
        0 <= j <= t.len(),
        forall|i: int| j <= i < t.len() ==> before(x.0, #[trigger] t[i].0),
        j == 0 || !before(x.0, t[j - 1].0),
    ensures
        inserted(t, x) == t.insert(j, x),
    decreases t.len(),
{
    if t.len() == 0 {
        assert(t.insert(0, x) =~= seq![x]);
    } else if j == t.len() {
        assert(t.insert(j, x) =~= t.push(x));
    } else {
        assert(before(x.0, t.last().0));
        lemma_inserted(t.drop_last(), x, j);
        assert(t.drop_last().insert(j, x).push(t.last()) =~= t.insert(j, x));
    }
}

/// The imports in order of where they start, longer first, ties kept in
/// the order found.
fn sort_imports(rs: &Vec<ImportRef>) -> (r: Vec<ImportRef>)
    ensures
        imports_view(r@) == sorted_imports(imports_view(rs@)),
{
    let ghost rv = imports_view(rs@);
    let mut out: Vec<ImportRef> = Vec::new();
    let mut k: usize = 0;
    while k < rs.len()
        invariant
            rv == imports_view(rs@),
            0 <= k <= rs@.len(),
            imports_view(out@) == sorted_imports(rv.take(k as int)),
        decreases rs@.len() - k,
    {
        let x = copy_import(&rs[k]);
        let ghost t = imports_view(out@);
        let ghost xv = import_view(x);
        let mut j: usize = out.len();
        while j > 0 && (x.span.start < out[j - 1].span.start || (x.span.start == out[j - 1].span.start && x.span.end > out[j - 1].span.end))
            invariant
                t == imports_view(out@),
                xv == import_view(x),
                0 <= j <= out@.len(),
                forall|i: int| j <= i < out@.len() ==> before(xv.0, #[trigger] t[i].0),
            decreases j,
        {
            proof {
                assert(t[j - 1] == import_view(out@[j - 1]));
            }
            j = j - 1;
        }
        proof {
            if j > 0 {
                assert(t[j - 1] == import_view(out@[j - 1]));
            }
            lemma_inserted(t, xv, j as int);
            assert(rv.take(k + 1).drop_last() =~= rv.take(k as int));
            assert(rv.take(k + 1).last() == xv);
        }
        out.insert(j, x);
        proof {
            assert(imports_view(out@) =~= t.insert(j as int, xv));
        }
        k = k + 1;
    }
    proof {
        assert(rv.take(k as int) =~= rv);
    }
    out
}

/// The sorted imports without those inside the one kept before them.
fn keep_outermost(rs: &Vec<ImportRef>) -> (r: Vec<ImportRef>)
    ensures
        imports_view(r@) == outermost(imports_view(rs@)),
{
    let ghost rv = imports_view(rs@);
    let mut out: Vec<ImportRef> = Vec::new();
    let mut k: usize = 0;
    while k < rs.len()
        invariant
            rv == imports_view(rs@),
            0 <= k <= rs@.len(),
            imports_view(out@) == outermost(rv.take(k as int)),
        decreases rs@.len() - k,
    {
        let ghost before = imports_view(out@);
        proof {
            assert(rv.take(k + 1).drop_last() =~= rv.take(k as int));
            assert(rv.take(k + 1).last() == import_view(rs@[k as int]));
        }
        let c = &rs[k];
        let held = if out.len() > 0 {
            let last = out.len() - 1;
            let o = out[last].span;
            proof {
                assert(before.last() == import_view(out@[last as int]));
            }
            o.start <= c.span.start && c.span.end <= o.end
        } else {
            false
        };
        if !held {
            out.push(copy_import(c));
            proof {
                assert(imports_view(out@) =~= before.push(import_view(*c)));
            }
        }
        k = k + 1;
    }
    proof {
        assert(rv.take(k as int) =~= rv);
    }
    out
}

} // verus!
