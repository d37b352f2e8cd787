//! Finding declarations in a parsed file: a table of rules names the node
//! kinds that declare something, where the name and the visibility are,
//! and whether the comments and attributes right above belong to it.

use vstd::prelude::*;

use crate::engine::Span;
use crate::modes::bytes_of;
use crate::query::SymbolKind;
use crate::rust::facts::{Modifier, Symbol};
use crate::syntax::tree::{text_at, text_of, tree_view, well_formed, NodeView, SyntaxTree};
use crate::text::{join, owned, str_eq};

verus! {

/// Where a declaration's visibility is written: a child of the given kind
/// (`pub(crate)`), or the keywords that open a wrapping statement of the
/// given kind (`export`, `export default`).
#[derive(Debug, Clone, Copy)]
pub enum ModifierAt {
    Child(&'static str),
    Parent(&'static str),
}

/// Nodes of kind `node` declare a `kind`. The name is the child filling
/// field `name_field` (the node itself when there is none), followed
/// down field `name_inner` as far as it goes. With `leading`, the
/// comments and attributes right above belong to the declaration. The
/// rule holds only under a parent of kind `under`, and only within an
/// ancestor of kind `within` that no nested node of the rule's own kind
/// comes before.
#[derive(Debug, Clone, Copy)]
pub struct SymbolRule {
    pub node: &'static str,
    pub name_field: Option<usize>,
    pub name_inner: Option<usize>,
    pub kind: SymbolKind,
    pub leading: bool,
    pub visibility: Option<ModifierAt>,
    pub under: Option<&'static str>,
    pub within: Option<&'static str>,
}

/// A declaration as values: kind, name, name's range, the node's range,
/// its extent, and its visibility modifier's range and text.
pub type SymbolView = (SymbolKind, Seq<char>, Span, Span, Span, Option<(Span, Seq<char>)>);

/// A declaration as values.
pub open spec fn symbol_view(s: Symbol) -> SymbolView {
    (
        s.kind,
        s.name@,
        s.name_span,
        s.span,
        s.extent,
        match s.visibility {
            Some(m) => Some((m.span, m.text@)),
            None => None,
        },
    )
}

/// An optional kind as values.
pub open spec fn kind_opt(k: Option<&'static str>) -> Option<Seq<char>> {
    match k {
        Some(s) => Some(s@),
        None => None,
    }
}

/// The node's parent, when it comes before it.
pub open spec fn parent_of(v: Seq<NodeView>, i: int) -> Option<int> {
    if 0 <= i < v.len() {
        match v[i].3 {
            Some(q) => if q < i {
                Some(q as int)
            } else {
                None
            },
            None => None,
        }
    } else {
        None
    }
}

/// The node filling field `f` of node `i`, when it comes after it.
pub open spec fn field_of(v: Seq<NodeView>, i: int, f: usize) -> Option<int> {
    if 0 <= i < v.len() && f < v[i].5.len() {
        match v[i].5[f as int] {
            Some(c) => if i < c < v.len() {
                Some(c as int)
            } else {
                None
            },
            None => None,
        }
    } else {
        None
    }
}

/// The `k`-th child of node `i`, when it comes after it.
pub open spec fn child_of(v: Seq<NodeView>, i: int, k: int) -> Option<int> {
    if 0 <= i < v.len() && 0 <= k < v[i].4.len() && i < v[i].4[k] < v.len() {
        Some(v[i].4[k] as int)
    } else {
        None
    }
}

/// An ancestor of kind `ancestor` comes before any of kind `barrier`.
pub open spec fn is_within(v: Seq<NodeView>, x: int, ancestor: Seq<char>, barrier: Seq<char>) -> bool
    decreases x,
{
    match parent_of(v, x) {
        None => false,
        Some(p) => if v[p].0 == ancestor {
            true
        } else if v[p].0 == barrier {
            false
        } else if 0 <= p < x {
            is_within(v, p, ancestor, barrier)
        } else {
            false
        },
    }
}

/// The rule holds of node `i`.
pub open spec fn rule_fits(v: Seq<NodeView>, i: int, r: SymbolRule) -> bool {
    &&& r.node@ == v[i].0
    &&& match r.under {
        None => true,
        Some(u) => match parent_of(v, i) {
            Some(p) => v[p].0 == u@,
            None => false,
        },
    }
    &&& match r.within {
        None => true,
        Some(a) => is_within(v, i, a@, r.node@),
    }
}

/// The first rule, from the `k`-th on, that holds of node `i`.
pub open spec fn first_symbol_rule(rules: Seq<SymbolRule>, v: Seq<NodeView>, i: int, k: int) -> Option<int>
    decreases rules.len() - k,
{
    if k < 0 || k >= rules.len() {
        None
    } else if rule_fits(v, i, rules[k]) {
        Some(k)
    } else {
        first_symbol_rule(rules, v, i, k + 1)
    }
}

/// Down field `f` from node `n` as far as it goes.
pub open spec fn descend(v: Seq<NodeView>, n: int, f: usize) -> int
    decreases v.len() - n,
{
    match field_of(v, n, f) {
        Some(c) => if n < c < v.len() {
            descend(v, c, f)
        } else {
            n
        },
        None => n,
    }
}

/// The node that names what node `i` declares.
pub open spec fn name_node(v: Seq<NodeView>, i: int, r: SymbolRule) -> int {
    let n = match r.name_field {
        Some(f) => match field_of(v, i, f) {
            Some(c) => c,
            None => i,
        },
        None => i,
    };
    match r.name_inner {
        Some(f) => descend(v, n, f),
        None => n,
    }
}

/// How many `\n` bytes lie in `b[from..to]`.
pub open spec fn newlines(b: Seq<u8>, from: int, to: int) -> nat
    decreases to - from,
{
    if from >= to || from < 0 || to > b.len() {
        0
    } else {
        newlines(b, from, to - 1) + if b[to - 1] == 10u8 {
            1nat
        } else {
            0nat
        }
    }
}

/// The node spans no bytes.
pub open spec fn empty_node(v: Seq<NodeView>, c: int) -> bool {
    v[c].2.start == v[c].2.end
}

/// Where the run of leading nodes before child `j` of `p` begins, `at`
/// being where the part already taken begins: going back over the
/// siblings before it, empty ones skipped, as long as each is a leading
/// kind with at most one line break between it and what follows it.
pub open spec fn run_back(v: Seq<NodeView>, b: Seq<u8>, leading: Seq<Seq<char>>, p: int, j: int, at: int) -> int
    decreases j,
{
    if j <= 0 {
        at
    } else {
        match child_of(v, p, j - 1) {
            None => run_back(v, b, leading, p, j - 1, at),
            Some(c) => if empty_node(v, c) {
                run_back(v, b, leading, p, j - 1, at)
            } else if leading.contains(v[c].0) && newlines(b, v[c].2.end as int, at) <= 1 {
                run_back(v, b, leading, p, j - 1, v[c].2.start as int)
            } else {
                at
            },
        }
    }
}

/// Where `x` stands among `cs`, from the `k`-th on.
pub open spec fn position(cs: Seq<usize>, x: int, k: int) -> Option<int>
    decreases cs.len() - k,
{
    if k < 0 || k >= cs.len() {
        None
    } else if cs[k] == x {
        Some(k)
    } else {
        position(cs, x, k + 1)
    }
}

/// Where node `i` with what leads it begins.
pub open spec fn lead_of(v: Seq<NodeView>, b: Seq<u8>, leading: Seq<Seq<char>>, i: int) -> int {
    match parent_of(v, i) {
        None => v[i].2.start as int,
        Some(p) => match position(v[p].4, i, 0) {
            Some(j) => run_back(v, b, leading, p, j, v[i].2.start as int),
            None => v[i].2.start as int,
        },
    }
}

/// Where the parent (`d` 0) or grandparent (`d` 1) of node `i` begins
/// with what leads it; the node's own start when there is none.
pub open spec fn ancestor_lead(v: Seq<NodeView>, b: Seq<u8>, leading: Seq<Seq<char>>, i: int, d: int) -> int {
    match parent_of(v, i) {
        None => v[i].2.start as int,
        Some(p) => if d == 0 {
            lead_of(v, b, leading, p)
        } else {
            match parent_of(v, p) {
                Some(g) => lead_of(v, b, leading, g),
                None => v[i].2.start as int,
            }
        },
    }
}

/// The statement that wraps node `i` and carries its modifier: its
/// parent or grandparent of the rule's kind, and how far up it is.
pub open spec fn wrapper_of(v: Seq<NodeView>, i: int, r: SymbolRule) -> Option<(int, int)> {
    match r.visibility {
        Some(ModifierAt::Parent(k)) => match parent_of(v, i) {
            Some(p) => if v[p].0 == k@ {
                Some((0, p))
            } else {
                match parent_of(v, p) {
                    Some(g) => if v[g].0 == k@ {
                        Some((1, g))
                    } else {
                        None
                    },
                    None => None,
                }
            },
            None => None,
        },
        _ => None,
    }
}

/// The first child of node `i`, from the `k`-th on, of kind `kind`.
pub open spec fn child_of_kind(v: Seq<NodeView>, i: int, kind: Seq<char>, k: int) -> Option<int>
    decreases v[i].4.len() - k,
{
    if 0 <= i < v.len() && 0 <= k < v[i].4.len() {
        match child_of(v, i, k) {
            Some(c) => if v[c].0 == kind {
                Some(c)
            } else {
                child_of_kind(v, i, kind, k + 1)
            },
            None => child_of_kind(v, i, kind, k + 1),
        }
    } else {
        None
    }
}

/// How many of node `w`'s children, from the `k`-th on, are unnamed
/// before the first named one.
pub open spec fn unnamed_run(v: Seq<NodeView>, w: int, k: int) -> int
    decreases v[w].4.len() - k,
{
    if 0 <= w < v.len() && 0 <= k < v[w].4.len() {
        match child_of(v, w, k) {
            Some(c) => if !v[c].1 {
                unnamed_run(v, w, k + 1)
            } else {
                k
            },
            None => k,
        }
    } else {
        k
    }
}

/// The keywords that open node `w` (`export`, `export default`): their
/// range and their texts joined by spaces.
pub open spec fn leading_keywords(v: Seq<NodeView>, b: Seq<u8>, w: int) -> (Span, Seq<char>) {
    let n = unnamed_run(v, w, 0);
    let words = Seq::new(n as nat, |k: int| text_at(b, v[v[w].4[k] as int].2));
    if n > 0 {
        (
            Span { start: v[v[w].4[0] as int].2.start, end: v[v[w].4[n - 1] as int].2.end },
            join(words, seq![' ']),
        )
    } else {
        (Span { start: v[w].2.start, end: v[w].2.start }, join(words, seq![' ']))
    }
}

/// The visibility modifier of node `i` under rule `r`.
pub open spec fn visibility_of(v: Seq<NodeView>, b: Seq<u8>, i: int, r: SymbolRule) -> Option<(Span, Seq<char>)> {
    match r.visibility {
        Some(ModifierAt::Child(k)) => match child_of_kind(v, i, k@, 0) {
            Some(c) => Some((v[c].2, text_at(b, v[c].2))),
            None => None,
        },
        Some(ModifierAt::Parent(_)) => match wrapper_of(v, i, r) {
            Some((_, w)) => Some(leading_keywords(v, b, w)),
            None => None,
        },
        None => None,
    }
}

/// What node `i` declares under rule `r`. Its extent runs from where the
/// wrapping statement, or else the node, begins with what leads it, to
/// where the wrapper or the node ends; a rule that takes nothing above
/// and no wrapper keeps the node's own range.
pub open spec fn symbol_at(v: Seq<NodeView>, b: Seq<u8>, leading: Seq<Seq<char>>, i: int, r: SymbolRule) -> SymbolView {
    let n = name_node(v, i, r);
    let extent = match wrapper_of(v, i, r) {
        Some((d, w)) => Span { start: ancestor_lead(v, b, leading, i, d) as usize, end: v[w].2.end },
        None => if !r.leading {
            v[i].2
        } else {
            Span { start: lead_of(v, b, leading, i) as usize, end: v[i].2.end }
        },
    };
    (r.kind, text_at(b, v[n].2), v[n].2, v[i].2, extent, visibility_of(v, b, i, r))
}

/// The declarations among the nodes from the `k`-th on, in order, each
/// with its node: a node that spans something and that a rule holds of.
pub open spec fn symbols_from(v: Seq<NodeView>, b: Seq<u8>, leading: Seq<Seq<char>>, rules: Seq<SymbolRule>, k: int) -> Seq<(usize, SymbolView)>
    decreases v.len() - k,
{
    if k < 0 || k >= v.len() {
        seq![]
    } else {
        let here = if empty_node(v, k) {
            seq![]
        } else {
            match first_symbol_rule(rules, v, k, 0) {
                Some(r) => seq![(k as usize, symbol_at(v, b, leading, k, rules[r]))],
                None => seq![],
            }
        };
        here + symbols_from(v, b, leading, rules, k + 1)
    }
}

/// A list of kinds as values.
pub open spec fn kinds_view(ks: Seq<&'static str>) -> Seq<Seq<char>> {
    ks.map_values(|k: &'static str| k@)
}

/// A list of found declarations as values.
pub open spec fn found_view(f: Seq<(usize, Symbol)>) -> Seq<(usize, SymbolView)> {
    f.map_values(|e: (usize, Symbol)| (e.0, symbol_view(e.1)))
}

/// A copy of a declaration.
pub(crate) fn copy_symbol(s: &Symbol) -> (r: Symbol)
    ensures
        symbol_view(r) == symbol_view(*s),
{
    let visibility = match &s.visibility {
        Some(m) => Some(Modifier { span: m.span, text: owned(m.text.as_str()) }),
        None => None,
    };
    Symbol {
        kind: s.kind,
        name: owned(s.name.as_str()),
        name_span: s.name_span,
        span: s.span,
        extent: s.extent,
        visibility,
    }
}

/// How many `\n` bytes lie in `b[from..to]`.
fn count_newlines(b: &[u8], from: usize, to: usize) -> (n: usize)
    ensures
        n == newlines(b@, from as int, to as int),
{
    if from >= to || to > b.len() {
        return 0;
    }
    let mut n: usize = 0;
    let mut m: usize = from;
    while m < to
        invariant
            from <= m <= to <= b@.len(),
            n == newlines(b@, from as int, m as int),
            n <= m - from,
        decreases to - m,
    {
        if b[m] == 10u8 {
            n = n + 1;
        }
        m = m + 1;
    }
    n
}

/// Where `x` first stands among `cs`.
fn position_in(cs: &Vec<usize>, x: usize) -> (r: Option<usize>)
    ensures
        match r {
            Some(j) => j < cs@.len() && position(cs@, x as int, 0) == Some(j as int),
            None => position(cs@, x as int, 0) is None,
        },
{
    let mut j: usize = 0;
    while j < cs.len()
        invariant
            0 <= j <= cs@.len(),
            position(cs@, x as int, 0) == position(cs@, x as int, j as int),
        decreases cs@.len() - j,
    {
        if cs[j] == x {
            return Some(j);
        }
        j = j + 1;
    }
    None
}

/// Walks a tree and applies a grammar's table of declarations.
pub struct SymbolExtractor<'r> {
    pub rules: &'r Vec<SymbolRule>,
    /// The kinds that, right above a declaration, belong to it.
    pub leading: &'r Vec<&'static str>,
}

impl<'r> SymbolExtractor<'r> {
    pub fn new(rules: &'r Vec<SymbolRule>, leading: &'r Vec<&'static str>) -> (e: SymbolExtractor<'r>)
        ensures
            e.rules@ == rules@,
            e.leading@ == leading@,
    {
        SymbolExtractor { rules, leading }
    }

    /// Whether `kind` is one that leads a declaration.
    fn is_leading(&self, kind: &str) -> (r: bool)
        ensures
            r == kinds_view(self.leading@).contains(kind@),
    {
        let ghost ks = kinds_view(self.leading@);
        let mut k: usize = 0;
        while k < self.leading.len()
            invariant
                ks == kinds_view(self.leading@),
                0 <= k <= self.leading@.len(),
                forall|m: int| 0 <= m < k ==> ks[m] != kind@,
            decreases self.leading@.len() - k,
        {
            if str_eq(self.leading[k], kind) {
                proof {
                    assert(ks[k as int] == kind@);
                }
                return true;
            }
            k = k + 1;
        }
        false
    }

    /// Whether an ancestor of node `x` of kind `ancestor` comes before
    /// any of kind `barrier`.
    fn within(tree: &SyntaxTree, x: usize, ancestor: &str, barrier: &str) -> (r: bool)
        requires
            well_formed(*tree),
            x < tree.nodes@.len(),
        ensures
            r == is_within(tree_view(*tree), x as int, ancestor@, barrier@),
    {
        let ghost v = tree_view(*tree);
        let mut cur: usize = x;
        loop
            invariant
                well_formed(*tree),
                v == tree_view(*tree),
                cur < tree.nodes@.len(),
                is_within(v, x as int, ancestor@, barrier@) == is_within(v, cur as int, ancestor@, barrier@),
            decreases cur,
        {
            match tree.nodes[cur].parent {
                None => {
                    return false;
                },
                Some(p) => {
                    let kind = tree.nodes[p].kind.as_str();
                    if str_eq(kind, ancestor) {
                        return true;
                    }
                    if str_eq(kind, barrier) {
                        return false;
                    }
                    cur = p;
                },
            }
        }
    }

    /// The first rule that holds of node `i`.
    fn rule_for(&self, tree: &SyntaxTree, i: usize) -> (r: Option<usize>)
        requires
            well_formed(*tree),
            i < tree.nodes@.len(),
        ensures
            match r {
                Some(k) => k < self.rules@.len() && first_symbol_rule(self.rules@, tree_view(*tree), i as int, 0) == Some(k as int),
                None => first_symbol_rule(self.rules@, tree_view(*tree), i as int, 0) is None,
            },
    {
        let ghost v = tree_view(*tree);
        let node = &tree.nodes[i];
        let mut k: usize = 0;
        while k < self.rules.len()
            invariant
                well_formed(*tree),
                i < tree.nodes@.len(),
                v == tree_view(*tree),
                *node == tree.nodes@[i as int],
                0 <= k <= self.rules@.len(),
                first_symbol_rule(self.rules@, v, i as int, 0) == first_symbol_rule(self.rules@, v, i as int, k as int),
            decreases self.rules@.len() - k,
        {
            let rule = self.rules[k];
            if str_eq(node.kind.as_str(), rule.node) {
                let under = match rule.under {
                    None => true,
                    Some(u) => match node.parent {
                        Some(p) => str_eq(tree.nodes[p].kind.as_str(), u),
                        None => false,
                    },
                };
                let within = match rule.within {
                    None => true,
                    Some(a) => Self::within(tree, i, a, rule.node),
                };
                if under && within {
                    return Some(k);
                }
            }
            k = k + 1;
        }
        None
    }

    /// The node filling field `f` of node `n`.
    pub(crate) fn field(tree: &SyntaxTree, n: usize, f: usize) -> (r: Option<usize>)
        requires
            well_formed(*tree),
            n < tree.nodes@.len(),
        ensures
            r == match field_of(tree_view(*tree), n as int, f) {
                Some(c) => Some(c as usize),
                None => None::<usize>,
            },
    {
        if f < tree.nodes[n].fields.len() {
            tree.nodes[n].fields[f]
        } else {
            None
        }
    }

    /// The node that names what node `i` declares under `rule`.
    fn name_node(tree: &SyntaxTree, i: usize, rule: SymbolRule) -> (n: usize)
        requires
            well_formed(*tree),
            i < tree.nodes@.len(),
        ensures
            n == name_node(tree_view(*tree), i as int, rule),
            n < tree.nodes@.len(),
    {
        let ghost v = tree_view(*tree);
        let mut n = match rule.name_field {
            Some(f) => match Self::field(tree, i, f) {
                Some(c) => c,
                None => i,
            },
            None => i,
        };
        match rule.name_inner {
            Some(f) => {
                let ghost start = n as int;
                loop
                    invariant
                        well_formed(*tree),
                        v == tree_view(*tree),
                        n < tree.nodes@.len(),
                        i < tree.nodes@.len(),
                        name_node(v, i as int, rule) == descend(v, start, f),
                        descend(v, start, f) == descend(v, n as int, f),
                    decreases tree.nodes@.len() - n,
                {
                    match Self::field(tree, n, f) {
                        Some(c) => {
                            n = c;
                        },
                        None => {
                            return n;
                        },
                    }
                }
            },
            None => n,
        }
    }

    /// Where node `i` with what leads it begins.
    fn lead(&self, tree: &SyntaxTree, b: &[u8], i: usize) -> (r: usize)
        requires
            well_formed(*tree),
            i < tree.nodes@.len(),
        ensures
            r as int == lead_of(tree_view(*tree), b@, kinds_view(self.leading@), i as int),
    {
        let ghost v = tree_view(*tree);
        let ghost ks = kinds_view(self.leading@);
        let start = tree.nodes[i].span.start;
        let p = match tree.nodes[i].parent {
            Some(p) => p,
            None => {
                return start;
            },
        };
        let siblings = &tree.nodes[p].children;
        let mut j = match position_in(siblings, i) {
            Some(j) => j,
            None => {
                return start;
            },
        };
        let ghost pos = j as int;
        proof {
            assert(lead_of(v, b@, ks, i as int) == run_back(v, b@, ks, p as int, pos, start as int));
        }
        let mut at: usize = start;
        loop
            invariant
                well_formed(*tree),
                v == tree_view(*tree),
                ks == kinds_view(self.leading@),
                p < tree.nodes@.len(),
                *siblings == tree.nodes@[p as int].children,
                0 <= j <= siblings@.len(),
                i < tree.nodes@.len(),
                lead_of(v, b@, ks, i as int) == run_back(v, b@, ks, p as int, pos, start as int),
                run_back(v, b@, ks, p as int, pos, start as int) == run_back(v, b@, ks, p as int, j as int, at as int),
            decreases j,
        {
            if j == 0 {
                return at;
            }
            let c = siblings[j - 1];
            if !(p < c && c < tree.nodes.len()) {
                j = j - 1;
            } else {
                let node = &tree.nodes[c];
                if node.span.start == node.span.end {
                    j = j - 1;
                } else if self.is_leading(node.kind.as_str()) && count_newlines(b, node.span.end, at) <= 1 {
                    at = node.span.start;
                    j = j - 1;
                } else {
                    return at;
                }
            }
        }
    }

    /// Where the parent (`d` 0) or grandparent (`d` 1) of node `i` begins
    /// with what leads it.
    fn ancestor_lead(&self, tree: &SyntaxTree, b: &[u8], i: usize, d: usize) -> (r: usize)
        requires
            well_formed(*tree),
            i < tree.nodes@.len(),
        ensures
            r as int == ancestor_lead(tree_view(*tree), b@, kinds_view(self.leading@), i as int, d as int),
    {
        match tree.nodes[i].parent {
            None => tree.nodes[i].span.start,
            Some(p) => if d == 0 {
                self.lead(tree, b, p)
            } else {
                match tree.nodes[p].parent {
                    Some(g) => self.lead(tree, b, g),
                    None => tree.nodes[i].span.start,
                }
            },
        }
    }

    /// The wrapping statement of node `i` under `rule`, and how far up.
    fn wrapper(tree: &SyntaxTree, i: usize, rule: SymbolRule) -> (r: Option<(usize, usize)>)
        requires
            well_formed(*tree),
            i < tree.nodes@.len(),
        ensures
            match r {
                Some((d, w)) => wrapper_of(tree_view(*tree), i as int, rule) == Some((d as int, w as int)) && w < tree.nodes@.len(),
                None => wrapper_of(tree_view(*tree), i as int, rule) is None,
            },
    {
        match rule.visibility {
            Some(ModifierAt::Parent(k)) => match tree.nodes[i].parent {
                Some(p) => if str_eq(tree.nodes[p].kind.as_str(), k) {
                    Some((0, p))
                } else {
                    match tree.nodes[p].parent {
                        Some(g) => if str_eq(tree.nodes[g].kind.as_str(), k) {
                            Some((1, g))
                        } else {
                            None
                        },
                        None => None,
                    }
                },
                None => None,
            },
            _ => None,
        }
    }

    /// The first child of node `i` of kind `kind`.
    pub(crate) fn child_of_kind(tree: &SyntaxTree, i: usize, kind: &str) -> (r: Option<usize>)
        requires
            well_formed(*tree),
            i < tree.nodes@.len(),
        ensures
            match r {
                Some(c) => child_of_kind(tree_view(*tree), i as int, kind@, 0) == Some(c as int) && c < tree.nodes@.len(),
                None => child_of_kind(tree_view(*tree), i as int, kind@, 0) is None,
            },
    {
        let ghost v = tree_view(*tree);
        let children = &tree.nodes[i].children;
        let mut k: usize = 0;
        while k < children.len()
            invariant
                well_formed(*tree),
                v == tree_view(*tree),
                i < tree.nodes@.len(),
                *children == tree.nodes@[i as int].children,
                0 <= k <= children@.len(),
                child_of_kind(v, i as int, kind@, 0) == child_of_kind(v, i as int, kind@, k as int),
            decreases children@.len() - k,
        {
            let c = children[k];
            if str_eq(tree.nodes[c].kind.as_str(), kind) {
                return Some(c);
            }
            k = k + 1;
        }
        None
    }

    /// The keywords that open node `w`: their range and their texts joined
    /// by spaces.
    fn leading_keywords(tree: &SyntaxTree, source: &str, w: usize) -> (m: Modifier)
        requires
            well_formed(*tree),
            w < tree.nodes@.len(),
        ensures
            (m.span, m.text@) == leading_keywords(tree_view(*tree), bytes_of(source@), w as int),
    {
        let ghost v = tree_view(*tree);
        let ghost b = bytes_of(source@);
        let children = &tree.nodes[w].children;
        let mut words: Vec<String> = Vec::new();
        let mut k: usize = 0;
        while k < children.len() && !tree.nodes[children[k]].named
            invariant
                well_formed(*tree),
                v == tree_view(*tree),
                b == bytes_of(source@),
                w < tree.nodes@.len(),
                *children == tree.nodes@[w as int].children,
                0 <= k <= children@.len(),
                unnamed_run(v, w as int, 0) == unnamed_run(v, w as int, k as int),
                words@.len() == k,
                forall|m: int| 0 <= m < k ==> (#[trigger] words@[m])@ == text_at(b, v[v[w as int].4[m] as int].2),
            decreases children@.len() - k,
        {
            let c = children[k];
            words.push(text_of(source, tree.nodes[c].span));
            k = k + 1;
        }
        let text = crate::paths::joined(&words, " ");
        let span = if k > 0 {
            Span { start: tree.nodes[children[0]].span.start, end: tree.nodes[children[k - 1]].span.end }
        } else {
            Span { start: tree.nodes[w].span.start, end: tree.nodes[w].span.start }
        };
        proof {
            let n = unnamed_run(v, w as int, 0);
            assert(n == k);
            let ws = Seq::new(n as nat, |m: int| text_at(b, v[v[w as int].4[m] as int].2));
            assert(crate::paths::segs(words@) =~= ws);
            reveal_strlit(" ");
            assert(" "@ =~= seq![' ']);
            assert(text@ == join(ws, seq![' ']));
        }
        Modifier { span, text }
    }

    /// The visibility modifier of node `i` under `rule`.
    fn visibility(tree: &SyntaxTree, source: &str, i: usize, rule: SymbolRule) -> (r: Option<Modifier>)
        requires
            well_formed(*tree),
            i < tree.nodes@.len(),
        ensures
            match r {
                Some(m) => visibility_of(tree_view(*tree), bytes_of(source@), i as int, rule) == Some((m.span, m.text@)),
                None => visibility_of(tree_view(*tree), bytes_of(source@), i as int, rule) is None,
            },
    {
        match rule.visibility {
            Some(ModifierAt::Child(k)) => match Self::child_of_kind(tree, i, k) {
                Some(c) => Some(Modifier { span: tree.nodes[c].span, text: text_of(source, tree.nodes[c].span) }),
                None => None,
            },
            Some(ModifierAt::Parent(_)) => match Self::wrapper(tree, i, rule) {
                Some((_, w)) => Some(Self::leading_keywords(tree, source, w)),
                None => None,
            },
            None => None,
        }
    }

    /// What node `i` declares under `rule`.
    fn symbol(&self, tree: &SyntaxTree, source: &str, i: usize, rule: SymbolRule) -> (s: Symbol)
        requires
            well_formed(*tree),
            i < tree.nodes@.len(),
        ensures
            symbol_view(s) == symbol_at(tree_view(*tree), bytes_of(source@), kinds_view(self.leading@), i as int, rule),
    {
        let b = source.as_bytes();
        let n = Self::name_node(tree, i, rule);
        let node = &tree.nodes[i];
        let extent = match Self::wrapper(tree, i, rule) {
            Some((d, w)) => Span { start: self.ancestor_lead(tree, b, i, d), end: tree.nodes[w].span.end },
            None => if !rule.leading {
                node.span
            } else {
                Span { start: self.lead(tree, b, i), end: node.span.end }
            },
        };
        let visibility = Self::visibility(tree, source, i, rule);
        Symbol {
            kind: rule.kind,
            name: text_of(source, tree.nodes[n].span),
            name_span: tree.nodes[n].span,
            span: node.span,
            extent,
            visibility,
        }
    }

    /// The declarations in the file `tree` was parsed from, in the order
    /// of its nodes, each with its node.
    pub fn extract(&self, tree: &SyntaxTree, source: &str) -> (r: Vec<(usize, Symbol)>)
        requires
            well_formed(*tree),
        ensures
            found_view(r@) == symbols_from(
                tree_view(*tree),
                bytes_of(source@),
                kinds_view(self.leading@),
                self.rules@,
                0,
            ),
    {
        let ghost v = tree_view(*tree);
        let ghost b = bytes_of(source@);
        let ghost ks = kinds_view(self.leading@);
        let mut out: Vec<(usize, Symbol)> = Vec::new();
        let mut k: usize = 0;
        while k < tree.nodes.len()
            invariant
                well_formed(*tree),
                v == tree_view(*tree),
                b == bytes_of(source@),
                ks == kinds_view(self.leading@),
                0 <= k <= tree.nodes@.len(),
                found_view(out@) + symbols_from(v, b, ks, self.rules@, k as int) == symbols_from(v, b, ks, self.rules@, 0),
            decreases tree.nodes@.len() - k,
        {
            let ghost before = out@;
            let span = tree.nodes[k].span;
            if span.start != span.end {
                match self.rule_for(tree, k) {
                    Some(r) => {
                        let symbol = self.symbol(tree, source, k, self.rules[r]);
                        out.push((k, symbol));
                    },
                    None => {},
                }
            }
            proof {
                assert(found_view(out@) + symbols_from(v, b, ks, self.rules@, k + 1)
                    =~= found_view(before) + symbols_from(v, b, ks, self.rules@, k as int));
            }
            k = k + 1;
        }
        proof {
            assert(found_view(out@) =~= found_view(out@) + symbols_from(v, b, ks, self.rules@, k as int));
        }
        out
    }
}

} // verus!
