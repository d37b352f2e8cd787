//! Colouring a parsed file: a table of rules names the node kinds that
//! take a colour, and the words the grammar spells with letters are its
//! keywords.

use vstd::prelude::*;

use crate::engine::{Highlight, HighlightKind};
use crate::modes::bytes_of;
use crate::syntax::tree::{text_at, text_of, tree_view, well_formed, NodeView, SyntaxTree};
use crate::text::{alphabetic, chars_of, is_alphabetic, str_eq};

verus! {

/// Nodes of kind `node` take the colour `kind`; with `under`, only those
/// whose parent is of that kind.
#[derive(Debug, Clone, Copy)]
pub struct HighlightRule {
    pub node: &'static str,
    pub under: Option<&'static str>,
    pub kind: HighlightKind,
}

/// A rule as values.
pub type HighlightRuleView = (Seq<char>, Option<Seq<char>>, HighlightKind);

/// A rule as values.
pub open spec fn highlight_rule_view(r: HighlightRule) -> HighlightRuleView {
    (
        r.node@,
        match r.under {
            Some(p) => Some(p@),
            None => None,
        },
        r.kind,
    )
}

/// A table as values.
pub open spec fn highlight_rules_view(rs: Seq<HighlightRule>) -> Seq<HighlightRuleView> {
    rs.map_values(|r: HighlightRule| highlight_rule_view(r))
}

/// The node's parent is of kind `under`, or no parent kind is asked for.
pub open spec fn parent_is(v: Seq<NodeView>, i: int, under: Option<Seq<char>>) -> bool {
    match under {
        None => true,
        Some(p) => match v[i].3 {
            Some(q) => 0 <= q < v.len() && v[q as int].0 == p,
            None => false,
        },
    }
}

/// The first rule, from the `k`-th on, that the `i`-th node meets.
pub open spec fn first_highlight_rule(rules: Seq<HighlightRuleView>, v: Seq<NodeView>, i: int, k: int) -> Option<int>
    decreases rules.len() - k,
{
    if k < 0 || k >= rules.len() {
        None
    } else if rules[k].0 == v[i].0 && parent_is(v, i, rules[k].1) {
        Some(k)
    } else {
        first_highlight_rule(rules, v, i, k + 1)
    }
}

/// Text the grammar spells with letters and `_` alone.
pub open spec fn keyword_text(t: Seq<char>) -> bool {
    &&& t.len() > 0
    &&& forall|j: int| 0 <= j < t.len() ==> (alphabetic(#[trigger] t[j]) || t[j] == '_')
}

/// What the walk colours from the `i`-th node down: the node itself when a
/// rule names it; else a leaf that is an unnamed word, as a keyword; else
/// what its children give, in order.
pub open spec fn highlights_from(v: Seq<NodeView>, b: Seq<u8>, rules: Seq<HighlightRuleView>, i: int) -> Seq<Highlight>
    decreases v.len() - i, v[i].4.len() + 1,
{
    if i < 0 || i >= v.len() {
        seq![]
    } else {
        match first_highlight_rule(rules, v, i, 0) {
            Some(k) => seq![Highlight { span: v[i].2, kind: rules[k].2 }],
            None => if v[i].4.len() == 0 {
                if !v[i].1 && keyword_text(text_at(b, v[i].2)) {
                    seq![Highlight { span: v[i].2, kind: HighlightKind::Keyword }]
                } else {
                    seq![]
                }
            } else {
                highlights_among(v, b, rules, i, 0)
            },
        }
    }
}

/// What the `i`-th node's children from the `k`-th on give, in order.
pub open spec fn highlights_among(v: Seq<NodeView>, b: Seq<u8>, rules: Seq<HighlightRuleView>, i: int, k: int) -> Seq<Highlight>
    decreases v.len() - i, v[i].4.len() - k,
{
    if i < 0 || i >= v.len() || k < 0 || k >= v[i].4.len() {
        seq![]
    } else {
        let c = v[i].4[k] as int;
        let rest = highlights_among(v, b, rules, i, k + 1);
        if i < c < v.len() {
            highlights_from(v, b, rules, c) + rest
        } else {
            rest
        }
    }
}

/// The colours of a whole file: the walk from its root.
pub open spec fn highlights_of(v: Seq<NodeView>, b: Seq<u8>, rules: Seq<HighlightRuleView>) -> Seq<Highlight> {
    highlights_from(v, b, rules, 0)
}

/// Walks a tree and applies a grammar's table of colours.
pub struct Highlighter<'r> {
    pub rules: &'r Vec<HighlightRule>,
}

impl<'r> Highlighter<'r> {
    pub fn new(rules: &'r Vec<HighlightRule>) -> (h: Highlighter<'r>)
        ensures
            h.rules@ == rules@,
    {
        Highlighter { rules }
    }

    /// The colours of the file `tree` was parsed from, in the order the walk
    /// meets them.
    pub fn extract(&self, tree: &SyntaxTree, source: &str) -> (r: Vec<Highlight>)
        requires
            well_formed(*tree),
        ensures
            r@ == highlights_of(tree_view(*tree), bytes_of(source@), highlight_rules_view(self.rules@)),
    {
        let mut out: Vec<Highlight> = Vec::new();
        if tree.nodes.len() > 0 {
            self.visit(tree, source, 0, &mut out);
        }
        out
    }

    fn visit(&self, tree: &SyntaxTree, source: &str, i: usize, out: &mut Vec<Highlight>)
        requires
            well_formed(*tree),
            i < tree.nodes@.len(),
        ensures
            final(out)@ == old(out)@ + highlights_from(
                tree_view(*tree),
                bytes_of(source@),
                highlight_rules_view(self.rules@),
                i as int,
            ),
        decreases tree.nodes@.len() - i, tree.nodes@[i as int].children@.len() + 1,
    {
        let ghost v = tree_view(*tree);
        let ghost b = bytes_of(source@);
        let ghost rules = highlight_rules_view(self.rules@);
        let node = &tree.nodes[i];
        match self.rule_for(tree, i) {
            Some(k) => {
                out.push(Highlight { span: node.span, kind: self.rules[k].kind });
                proof {
                    assert(highlights_from(v, b, rules, i as int) =~= seq![Highlight { span: v[i as int].2, kind: rules[k as int].2 }]);
                }
                return;
            },
            None => {},
        }
        if node.children.len() == 0 {
            if !node.named && Self::is_keyword(source, node) {
                out.push(Highlight { span: node.span, kind: HighlightKind::Keyword });
            }
            return;
        }
        let ghost start = old(out)@;
        let mut k: usize = 0;
        while k < node.children.len()
            invariant
                well_formed(*tree),
                i < tree.nodes@.len(),
                v == tree_view(*tree),
                b == bytes_of(source@),
                rules == highlight_rules_view(self.rules@),
                *node == tree.nodes@[i as int],
                0 <= k <= node.children@.len(),
                out@ + highlights_among(v, b, rules, i as int, k as int) == start + highlights_among(v, b, rules, i as int, 0),
            decreases node.children@.len() - k,
        {
            let c = node.children[k];
            let ghost before = out@;
            proof {
                assert(i < c < v.len());
            }
            self.visit(tree, source, c, out);
            proof {
                assert(highlights_among(v, b, rules, i as int, k as int)
                    == highlights_from(v, b, rules, c as int) + highlights_among(v, b, rules, i as int, k + 1));
                assert(out@ + highlights_among(v, b, rules, i as int, k + 1)
                    =~= before + highlights_among(v, b, rules, i as int, k as int));
            }
            k = k + 1;
        }
        proof {
            assert(out@ =~= out@ + highlights_among(v, b, rules, i as int, k as int));
        }
    }

    /// The first rule the `i`-th node meets.
    fn rule_for(&self, tree: &SyntaxTree, i: usize) -> (r: Option<usize>)
        requires
            well_formed(*tree),
            i < tree.nodes@.len(),
        ensures
            match r {
                Some(k) => k < self.rules@.len() && first_highlight_rule(highlight_rules_view(self.rules@), tree_view(*tree), i as int, 0) == Some(k as int),
                None => first_highlight_rule(highlight_rules_view(self.rules@), tree_view(*tree), i as int, 0) is None,
            },
    {
        let ghost v = tree_view(*tree);
        let ghost rules = highlight_rules_view(self.rules@);
        let node = &tree.nodes[i];
        let mut k: usize = 0;
        while k < self.rules.len()
            invariant
                well_formed(*tree),
                i < tree.nodes@.len(),
                v == tree_view(*tree),
                rules == highlight_rules_view(self.rules@),
                *node == tree.nodes@[i as int],
                0 <= k <= self.rules@.len(),
                first_highlight_rule(rules, v, i as int, 0) == first_highlight_rule(rules, v, i as int, k as int),
            decreases self.rules@.len() - k,
        {
            let rule = self.rules[k];
            if str_eq(node.kind.as_str(), rule.node) {
                let fits = match rule.under {
                    None => true,
                    Some(p) => match node.parent {
                        Some(q) => str_eq(tree.nodes[q].kind.as_str(), p),
                        None => false,
                    },
                };
                if fits {
                    return Some(k);
                }
            }
            k = k + 1;
        }
        None
    }

    /// Unnamed text made of letters and `_`: a keyword of the grammar.
    fn is_keyword(source: &str, node: &crate::syntax::tree::SyntaxNode) -> (r: bool)
        ensures
            r == keyword_text(text_at(bytes_of(source@), node.span)),
    {
        let text = text_of(source, node.span);
        let chars = chars_of(text.as_str());
        if chars.len() == 0 {
            return false;
        }
        let mut j: usize = 0;
        while j < chars.len()
            invariant
                chars@ == text@,
                text@ == text_at(bytes_of(source@), node.span),
                0 <= j <= chars@.len(),
                forall|m: int| 0 <= m < j ==> (alphabetic(#[trigger] chars@[m]) || chars@[m] == '_'),
            decreases chars@.len() - j,
        {
            if !(is_alphabetic(chars[j]) || chars[j] == '_') {
                proof {
                    let t = text_at(bytes_of(source@), node.span);
                    assert(t[j as int] == chars@[j as int]);
                }
                return false;
            }
            j = j + 1;
        }
        true
    }
}

} // verus!
