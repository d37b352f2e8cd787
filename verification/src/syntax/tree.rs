//! A parsed file as plain values: its nodes in pre-order, each with its
//! kind, whether the grammar names it, its byte range, its parent, its
//! children and the children that fill the fields the rules read. The
//! parse itself is tree-sitter's, through ast-grep.

use vstd::prelude::*;
use vstd::utf8::{decode_utf8, encode_utf8_decode_utf8, encode_utf8_valid_utf8, is_char_boundary};

use ast_grep_core::tree_sitter::LanguageExt;

use crate::engine::Span;
use crate::modes::bytes_of;
use crate::source::{piece, slice_of};
use crate::text::owned;

verus! {

/// A grammar the parser knows.
#[derive(Debug, Clone, Copy, PartialEq, Eq, Structural)]
pub enum Lang {
    Rust,
    TypeScript,
    Tsx,
}

/// A node as the parser hands it over: an id standing for it, its
/// parent's id, its kind, whether the grammar names it, its byte range,
/// and for each field asked about, the id of the child filling it.
#[derive(Debug)]
pub struct RawNode {
    pub id: usize,
    pub parent: Option<usize>,
    pub kind: String,
    pub named: bool,
    pub start: usize,
    pub end: usize,
    pub fields: Vec<Option<usize>>,
}

/// A parser's node as values.
pub struct RawRecord {
    pub id: usize,
    pub parent: Option<usize>,
    pub kind: Seq<char>,
    pub named: bool,
    pub start: usize,
    pub end: usize,
    pub fields: Seq<Option<usize>>,
}

/// A node as values.
pub open spec fn record(n: RawNode) -> RawRecord {
    RawRecord {
        id: n.id,
        parent: n.parent,
        kind: n.kind@,
        named: n.named,
        start: n.start,
        end: n.end,
        fields: n.fields@,
    }
}

/// The tree tree-sitter's Rust grammar parses `source` into: its nodes in
/// pre-order, each with its kind, whether it is named, its byte range,
/// and, as positions in that order, its parent, its children and the
/// children filling `fields`.
pub uninterp spec fn rust_parse(source: Seq<char>, fields: Seq<Seq<char>>) -> Seq<(Seq<char>, bool, Span, Option<usize>, Seq<usize>, Seq<Option<usize>>)>;

/// The tree tree-sitter's TypeScript grammar parses `source` into.
pub uninterp spec fn typescript_parse(source: Seq<char>, fields: Seq<Seq<char>>) -> Seq<(Seq<char>, bool, Span, Option<usize>, Seq<usize>, Seq<Option<usize>>)>;

/// The tree tree-sitter's TSX grammar parses `source` into.
pub uninterp spec fn tsx_parse(source: Seq<char>, fields: Seq<Seq<char>>) -> Seq<(Seq<char>, bool, Span, Option<usize>, Seq<usize>, Seq<Option<usize>>)>;

/// The parse of `source` by a grammar.
pub open spec fn parse_of(lang: Lang, source: Seq<char>, fields: Seq<Seq<char>>) -> Seq<NodeView> {
    match lang {
        Lang::Rust => rust_parse(source, fields),
        Lang::TypeScript => typescript_parse(source, fields),
        Lang::Tsx => tsx_parse(source, fields),
    }
}

/// The field names as values.
pub open spec fn field_names(fields: Seq<&str>) -> Seq<Seq<char>> {
    fields.map_values(|f: &str| f@)
}

/// Parses Rust with ast-grep (`LanguageExt::ast_grep` on
/// `ast_grep_language::Rust`) and hands over its nodes in ast-grep's
/// pre-order walk, each node and its parent and field children standing
/// by tree-sitter's node id. The ids are addresses, which differ from one
/// parse to the next, but within one tree no two nodes share one, so the
/// tree the records make (`tree_of`, which turns the ids into positions in
/// the walk) is the same for the same text: that tree is what the
/// contract names, not the ids.
#[verifier::external_body]
fn rust_nodes(source: &str, fields: &Vec<&str>) -> (r: Vec<RawNode>)
    ensures
        tree_of(r@.map_values(|n: RawNode| record(n))) == rust_parse(source@, field_names(fields@)),
{
    let root = ast_grep_language::Rust.ast_grep(source);
    root.root().dfs().map(|n| RawNode {
        id: n.node_id(),
        parent: n.parent().map(|p| p.node_id()),
        kind: n.kind().to_string(),
        named: n.is_named(),
        start: n.range().start,
        end: n.range().end,
        fields: fields.iter().map(|f| n.field(f).map(|c| c.node_id())).collect(),
    }).collect()
}

/// Parses TypeScript with ast-grep (`ast_grep_language::TypeScript`); as
/// for Rust, the contract names the tree the records make, not the ids.
#[verifier::external_body]
fn typescript_nodes(source: &str, fields: &Vec<&str>) -> (r: Vec<RawNode>)
    ensures
        tree_of(r@.map_values(|n: RawNode| record(n))) == typescript_parse(source@, field_names(fields@)),
{
    let root = ast_grep_language::TypeScript.ast_grep(source);
    root.root().dfs().map(|n| RawNode {
        id: n.node_id(),
        parent: n.parent().map(|p| p.node_id()),
        kind: n.kind().to_string(),
        named: n.is_named(),
        start: n.range().start,
        end: n.range().end,
        fields: fields.iter().map(|f| n.field(f).map(|c| c.node_id())).collect(),
    }).collect()
}

/// Parses TSX with ast-grep (`ast_grep_language::Tsx`); as for Rust, the
/// contract names the tree the records make, not the ids.
#[verifier::external_body]
fn tsx_nodes(source: &str, fields: &Vec<&str>) -> (r: Vec<RawNode>)
    ensures
        tree_of(r@.map_values(|n: RawNode| record(n))) == tsx_parse(source@, field_names(fields@)),
{
    let root = ast_grep_language::Tsx.ast_grep(source);
    root.root().dfs().map(|n| RawNode {
        id: n.node_id(),
        parent: n.parent().map(|p| p.node_id()),
        kind: n.kind().to_string(),
        named: n.is_named(),
        start: n.range().start,
        end: n.range().end,
        fields: fields.iter().map(|f| n.field(f).map(|c| c.node_id())).collect(),
    }).collect()
}

/// Where `name` stands among the fields a tree records.
pub const NAME_FIELD: usize = 0;
/// Where `type` stands among the fields a tree records.
pub const TYPE_FIELD: usize = 1;
/// Where `path` stands among the fields a tree records.
pub const PATH_FIELD: usize = 2;
/// Where `alias` stands among the fields a tree records.
pub const ALIAS_FIELD: usize = 3;
/// Where `source` stands among the fields a tree records.
pub const SOURCE_FIELD: usize = 4;

/// A node as values: kind, whether named, range, parent, children, and
/// the child filling each field.
pub type NodeView = (Seq<char>, bool, Span, Option<usize>, Seq<usize>, Seq<Option<usize>>);

/// A node of a parsed file.
#[derive(Debug)]
pub struct SyntaxNode {
    pub kind: String,
    pub named: bool,
    pub span: Span,
    /// The parent, always an earlier node.
    pub parent: Option<usize>,
    /// The children, later nodes, in order.
    pub children: Vec<usize>,
    /// The child filling each field asked about.
    pub fields: Vec<Option<usize>>,
}

/// A parsed file: its nodes in pre-order, the root first.
#[derive(Debug)]
pub struct SyntaxTree {
    pub nodes: Vec<SyntaxNode>,
}

/// The first record, from the `i`-th on, with this id.
pub open spec fn index_of_id(rs: Seq<RawRecord>, id: usize, i: int) -> Option<int>
    decreases rs.len() - i,
{
    if i < 0 || i >= rs.len() {
        None
    } else if rs[i].id == id {
        Some(i)
    } else {
        index_of_id(rs, id, i + 1)
    }
}

/// The node a record's parent id stands for, when it comes before it.
pub open spec fn parent_index(rs: Seq<RawRecord>, k: int) -> Option<int> {
    match rs[k].parent {
        Some(p) => match index_of_id(rs, p, 0) {
            Some(j) => if j < k {
                Some(j)
            } else {
                None
            },
            None => None,
        },
        None => None,
    }
}

/// The nodes among the first `n` whose parent is node `i`, in order.
pub open spec fn children_among(rs: Seq<RawRecord>, i: int, n: int) -> Seq<usize>
    decreases n,
{
    if n <= 0 {
        seq![]
    } else if parent_index(rs, n - 1) == Some(i) {
        children_among(rs, i, n - 1).push((n - 1) as usize)
    } else {
        children_among(rs, i, n - 1)
    }
}

/// The node filling each field, when it comes after the node.
pub open spec fn field_indices(rs: Seq<RawRecord>, k: int) -> Seq<Option<usize>> {
    rs[k].fields.map_values(
        |f: Option<usize>|
            match f {
                Some(id) => match index_of_id(rs, id, 0) {
                    Some(j) => if j > k {
                        Some(j as usize)
                    } else {
                        None
                    },
                    None => None,
                },
                None => None,
            },
    )
}

/// The tree the records make.
pub open spec fn tree_view(t: SyntaxTree) -> Seq<NodeView> {
    t.nodes@.map_values(
        |n: SyntaxNode| (n.kind@, n.named, n.span, n.parent, n.children@, n.fields@),
    )
}

/// The tree the parser's records make: each node with its kind, range and
/// fields, its parent found by id among the nodes before it, and its
/// children the later nodes whose parent it is.
pub open spec fn tree_of(rs: Seq<RawRecord>) -> Seq<NodeView> {
    Seq::new(
        rs.len(),
        |k: int|
            (
                rs[k].kind,
                rs[k].named,
                Span { start: rs[k].start, end: rs[k].end },
                match parent_index(rs, k) {
                    Some(j) => Some(j as usize),
                    None => None,
                },
                children_among(rs, k, rs.len() as int),
                field_indices(rs, k),
            ),
    )
}

/// The tree is well formed: each parent comes before its node, each child
/// and each field's node after it, all within the tree.
pub open spec fn well_formed(t: SyntaxTree) -> bool {
    &&& forall|i: int| 0 <= i < t.nodes@.len() ==> match (#[trigger] t.nodes@[i]).parent {
        Some(p) => p < i,
        None => true,
    }
    &&& forall|i: int, j: int|
        0 <= i < t.nodes@.len() && 0 <= j < t.nodes@[i].children@.len() ==> i < #[trigger] t.nodes@[i].children@[j]
            < t.nodes@.len()
    &&& forall|i: int, j: int|
        0 <= i < t.nodes@.len() && 0 <= j < t.nodes@[i].fields@.len() ==> match #[trigger] t.nodes@[i].fields@[j] {
            Some(c) => i < c < t.nodes@.len(),
            None => true,
        }
}

/// The text of a node: its bytes of the file, when they are a piece of it.
pub open spec fn text_at(b: Seq<u8>, s: Span) -> Seq<char> {
    if piece(b, s.start as int, s.end as int) {
        decode_utf8(b.subrange(s.start as int, s.end as int))
    } else {
        seq![]
    }
}

/// The text of the bytes of `span`, empty when they are no piece of it.
pub fn text_of(source: &str, span: Span) -> (r: String)
    ensures
        r@ == text_at(bytes_of(source@), span),
{
    proof {
        encode_utf8_valid_utf8(source@);
    }
    if span.start <= span.end && source.is_char_boundary(span.start) && source.is_char_boundary(span.end) {
        let s = slice_of(source, span.start, span.end);
        proof {
            encode_utf8_decode_utf8(s@);
        }
        owned(s)
    } else {
        proof {
            reveal_strlit("");
        }
        String::new()
    }
}

/// Where the first record with this id is.
fn find_id(ids: &Vec<usize>, id: usize, Ghost(rs): Ghost<Seq<RawRecord>>) -> (r: Option<usize>)
    requires
        ids@.len() == rs.len(),
        forall|k: int| 0 <= k < rs.len() ==> ids@[k] == (#[trigger] rs[k]).id,
    ensures
        match r {
            Some(j) => index_of_id(rs, id, 0) == Some(j as int),
            None => index_of_id(rs, id, 0) is None,
        },
{
    let mut j: usize = 0;
    while j < ids.len()
        invariant
            ids@.len() == rs.len(),
            forall|k: int| 0 <= k < rs.len() ==> ids@[k] == (#[trigger] rs[k]).id,
            0 <= j <= ids@.len(),
            index_of_id(rs, id, 0) == index_of_id(rs, id, j as int),
        decreases ids@.len() - j,
    {
        if ids[j] == id {
            proof {
                assert(rs[j as int].id == id);
            }
            return Some(j);
        }
        proof {
            assert(rs[j as int].id != id);
        }
        j = j + 1;
    }
    None
}

impl SyntaxTree {
    /// The field names the rules read, in the order nodes list them.
    pub fn fields() -> (r: Vec<&'static str>)
        ensures
            field_names(r@) == seq!["name"@, "type"@, "path"@, "alias"@, "source"@],
    {
        let r = vec!["name", "type", "path", "alias", "source"];
        proof {
            assert(field_names(r@) =~= seq!["name"@, "type"@, "path"@, "alias"@, "source"@]);
        }
        r
    }

    /// The tree of the parser's records.
    fn from_records(raw: &Vec<RawNode>) -> (t: SyntaxTree)
        ensures
            tree_view(t) == tree_of(raw@.map_values(|n: RawNode| record(n))),
            well_formed(t),
    {
        let ghost rs = raw@.map_values(|n: RawNode| record(n));
        let n = raw.len();
        let mut ids: Vec<usize> = Vec::new();
        let mut k: usize = 0;
        while k < n
            invariant
                n == raw@.len() == rs.len(),
                rs == raw@.map_values(|x: RawNode| record(x)),
                0 <= k <= n,
                ids@.len() == k,
                forall|j: int| 0 <= j < k ==> ids@[j] == (#[trigger] rs[j]).id,
            decreases n - k,
        {
            ids.push(raw[k].id);
            k = k + 1;
        }
        let mut parents: Vec<Option<usize>> = Vec::new();
        let mut children: Vec<Vec<usize>> = Vec::new();
        let mut i: usize = 0;
        while i < n
            invariant
                n == raw@.len() == rs.len(),
                rs == raw@.map_values(|x: RawNode| record(x)),
                ids@.len() == n,
                forall|j: int| 0 <= j < n ==> ids@[j] == (#[trigger] rs[j]).id,
                0 <= i <= n,
                parents@.len() == i,
                children@.len() == i,
                forall|j: int| 0 <= j < i ==> (#[trigger] parents@[j]) == match parent_index(rs, j) {
                    Some(p) => Some(p as usize),
                    None => None,
                },
                forall|j: int| 0 <= j < i ==> (#[trigger] children@[j])@ == children_among(rs, j, i as int),
            decreases n - i,
        {
            let p = match raw[i].parent {
                Some(pid) => match find_id(&ids, pid, Ghost(rs)) {
                    Some(j) => if j < i {
                        Some(j)
                    } else {
                        None
                    },
                    None => None,
                },
                None => None,
            };
            proof {
                assert(rs[i as int].parent == raw@[i as int].parent);
            }
            let ghost before = children@;
            match p {
                Some(j) => {
                    let mut c = children[j].clone();
                    c.push(i);
                    children.set(j, c);
                },
                None => {},
            }
            children.push(Vec::new());
            parents.push(p);
            proof {
                assert forall|j: int| 0 <= j < i + 1 implies (#[trigger] children@[j])@ == children_among(rs, j, i + 1) by {
                    if j < i {
                        if p == Some(j as usize) {
                            assert(children@[j]@ == before[j]@.push(i as usize));
                        } else {
                            assert(children@[j] == before[j]);
                        }
                    } else {
                        assert(children_among(rs, j, i as int) =~= Seq::<usize>::empty()) by {
                            lemma_children_after(rs, j, i as int);
                        }
                    }
                }
            }
            i = i + 1;
        }
        let mut nodes: Vec<SyntaxNode> = Vec::new();
        let mut m: usize = 0;
        while m < n
            invariant
                n == raw@.len() == rs.len(),
                rs == raw@.map_values(|x: RawNode| record(x)),
                ids@.len() == n,
                forall|j: int| 0 <= j < n ==> ids@[j] == (#[trigger] rs[j]).id,
                parents@.len() == n,
                children@.len() == n,
                forall|j: int| 0 <= j < n ==> (#[trigger] parents@[j]) == match parent_index(rs, j) {
                    Some(p) => Some(p as usize),
                    None => None,
                },
                forall|j: int| 0 <= j < n ==> (#[trigger] children@[j])@ == children_among(rs, j, n as int),
                0 <= m <= n,
                nodes@.len() == m,
                forall|j: int| 0 <= j < m ==> tree_view(SyntaxTree { nodes })[j] == #[trigger] tree_of(rs)[j],
            decreases n - m,
        {
            let r = &raw[m];
            let mut fs: Vec<Option<usize>> = Vec::new();
            let mut q: usize = 0;
            while q < r.fields.len()
                invariant
                    n == raw@.len() == rs.len(),
                    ids@.len() == n,
                    forall|j: int| 0 <= j < n ==> ids@[j] == (#[trigger] rs[j]).id,
                    m < n,
                    rs[m as int].fields == r.fields@,
                    0 <= q <= r.fields@.len(),
                    fs@ == field_indices(rs, m as int).take(q as int),
                decreases r.fields@.len() - q,
            {
                let f = match r.fields[q] {
                    Some(id) => match find_id(&ids, id, Ghost(rs)) {
                        Some(j) => if j > m {
                            Some(j)
                        } else {
                            None
                        },
                        None => None,
                    },
                    None => None,
                };
                fs.push(f);
                proof {
                    assert(field_indices(rs, m as int).take(q + 1) =~= field_indices(rs, m as int).take(q as int).push(f));
                }
                q = q + 1;
            }
            proof {
                assert(field_indices(rs, m as int).take(q as int) =~= field_indices(rs, m as int));
            }
            let node = SyntaxNode {
                kind: r.kind.clone(),
                named: r.named,
                span: Span { start: r.start, end: r.end },
                parent: parents[m],
                children: children[m].clone(),
                fields: fs,
            };
            let ghost before = nodes@;
            nodes.push(node);
            proof {
                assert forall|j: int| 0 <= j < m + 1 implies tree_view(SyntaxTree { nodes })[j] == #[trigger] tree_of(rs)[j] by {
                    if j < m {
                        assert(nodes@[j] == before[j]);
                    }
                }
            }
            m = m + 1;
        }
        let t = SyntaxTree { nodes };
        proof {
            assert(tree_view(t) =~= tree_of(rs));
            lemma_tree_of_well_formed(rs);
            assert forall|i: int| 0 <= i < t.nodes@.len() implies match (#[trigger] t.nodes@[i]).parent {
                Some(p) => p < i,
                None => true,
            } by {
                assert(tree_view(t)[i] == tree_of(rs)[i]);
            }
            assert forall|i: int, j: int|
                0 <= i < t.nodes@.len() && 0 <= j < t.nodes@[i].children@.len() implies i < #[trigger] t.nodes@[i].children@[j]
                    < t.nodes@.len() by {
                assert(tree_view(t)[i] == tree_of(rs)[i]);
                assert(tree_of(rs)[i].4[j] == t.nodes@[i].children@[j]);
            }
            assert forall|i: int, j: int|
                0 <= i < t.nodes@.len() && 0 <= j < t.nodes@[i].fields@.len() implies match #[trigger] t.nodes@[i].fields@[j] {
                    Some(c) => i < c < t.nodes@.len(),
                    None => true,
                } by {
                assert(tree_view(t)[i] == tree_of(rs)[i]);
                assert(tree_of(rs)[i].5[j] == t.nodes@[i].fields@[j]);
            }
        }
        t
    }

    /// The tree a grammar parses `source` into.
    pub fn parse(lang: Lang, source: &str) -> (t: SyntaxTree)
        ensures
            tree_view(t) == parse_of(lang, source@, seq!["name"@, "type"@, "path"@, "alias"@, "source"@]),
            well_formed(t),
    {
        let fields = Self::fields();
        let raw = match lang {
            Lang::Rust => rust_nodes(source, &fields),
            Lang::TypeScript => typescript_nodes(source, &fields),
            Lang::Tsx => tsx_nodes(source, &fields),
        };
        Self::from_records(&raw)
    }
}

/// No node among the first `n` has a later node as its parent.
proof fn lemma_children_after(rs: Seq<RawRecord>, i: int, n: int)
    requires
        n <= i + 1,
    ensures
        children_among(rs, i, n) =~= Seq::<usize>::empty(),
    decreases n,
{
    if n > 0 {
        lemma_children_after(rs, i, n - 1);
        assert(parent_index(rs, n - 1) != Some(i));
    }
}

proof fn lemma_children_among_bounds(rs: Seq<RawRecord>, i: int, n: int)
    requires
        n <= rs.len() <= usize::MAX,
    ensures
        forall|j: int| 0 <= j < children_among(rs, i, n).len() ==> i < #[trigger] children_among(rs, i, n)[j] < n,
    decreases n,
{
    if n > 0 {
        lemma_children_among_bounds(rs, i, n - 1);
        if parent_index(rs, n - 1) != Some(i) {
            assert(children_among(rs, i, n) == children_among(rs, i, n - 1));
        }
        if parent_index(rs, n - 1) == Some(i) {
            assert(i < n - 1);
            let c = children_among(rs, i, n - 1);
            assert(children_among(rs, i, n) == c.push((n - 1) as usize));
            assert forall|j: int| 0 <= j < c.push((n - 1) as usize).len() implies i < #[trigger] c.push((n - 1) as usize)[j] < n by {
                if j < c.len() {
                    assert(c.push((n - 1) as usize)[j] == c[j]);
                }
            }
        }
    }
}

proof fn lemma_tree_of_well_formed(rs: Seq<RawRecord>)
    requires
        rs.len() <= usize::MAX,
    ensures
        forall|k: int| 0 <= k < rs.len() ==> match (#[trigger] tree_of(rs)[k]).3 {
            Some(p) => p < k,
            None => true,
        },
        forall|k: int, j: int|
            0 <= k < rs.len() && 0 <= j < tree_of(rs)[k].4.len() ==> k < #[trigger] tree_of(rs)[k].4[j] < rs.len(),
        forall|k: int, j: int|
            0 <= k < rs.len() && 0 <= j < tree_of(rs)[k].5.len() ==> match #[trigger] tree_of(rs)[k].5[j] {
                Some(c) => k < c < rs.len(),
                None => true,
            },
{
    assert forall|k: int| 0 <= k < rs.len() implies match (#[trigger] tree_of(rs)[k]).3 {
        Some(p) => p < k,
        None => true,
    } by {
        assert(parent_index(rs, k) matches Some(x) ==> 0 <= x < k) by {
            match rs[k].parent {
                Some(p) => {
                    lemma_index_of_id_bounds(rs, p, 0);
                },
                None => {},
            }
        }
    }
    assert forall|k: int, j: int| 0 <= k < rs.len() && 0 <= j < tree_of(rs)[k].4.len() implies k < #[trigger] tree_of(
        rs,
    )[k].4[j] < rs.len() by {
        lemma_children_among_bounds(rs, k, rs.len() as int);
    }
    assert forall|k: int, j: int| 0 <= k < rs.len() && 0 <= j < tree_of(rs)[k].5.len() implies match #[trigger] tree_of(
        rs,
    )[k].5[j] {
        Some(c) => k < c < rs.len(),
        None => true,
    } by {
        assert(tree_of(rs)[k].5 == field_indices(rs, k));
        assert(field_indices(rs, k)[j] == match rs[k].fields[j] {
            Some(id) => match index_of_id(rs, id, 0) {
                Some(x) => if x > k {
                    Some(x as usize)
                } else {
                    None
                },
                None => None,
            },
            None => None,
        });
        match rs[k].fields[j] {
            Some(id) => {
                lemma_index_of_id_bounds(rs, id, 0);
            },
            None => {},
        }
    }
}

proof fn lemma_index_of_id_bounds(rs: Seq<RawRecord>, id: usize, i: int)
    ensures
        index_of_id(rs, id, i) matches Some(j) ==> 0 <= j < rs.len(),
    decreases rs.len() - i,
{
    if 0 <= i < rs.len() && rs[i].id != id {
        lemma_index_of_id_bounds(rs, id, i + 1);
    }
}

} // verus!
