//! What a parse reports of a Rust file, and the edits the surgery hands
//! back: spans are byte offsets into the file's text.

use vstd::prelude::*;

use crate::engine::{Highlight, Span};
use crate::modes::bytes_of;
use crate::paths::segs;
use crate::query::SymbolKind;
use crate::source::{is_piece, piece, slice_of};
use crate::text::str_eq;
use vstd::utf8::{encode_utf8_decode_utf8, encode_utf8_valid_utf8};
use crate::typescript::ModulePath;

verus! {

/// A modifier as written: where it is, and its text.
#[derive(Debug, Clone, PartialEq, Eq)]
pub struct Modifier {
    pub span: Span,
    pub text: String,
}

/// A declaration: its kind and name, where the name is, the item itself,
/// the item with the attributes and docs before it, and its visibility
/// modifier.
#[derive(Debug, Clone, PartialEq, Eq)]
pub struct Symbol {
    pub kind: SymbolKind,
    pub name: String,
    pub name_span: Span,
    pub span: Span,
    pub extent: Span,
    pub visibility: Option<Modifier>,
}

impl Symbol {
    /// The visibility modifier's text, if the declaration has one.
    pub fn modifier(&self) -> (r: Option<&str>)
        ensures
            match r {
                Some(t) => self.visibility is Some && t@ == self.visibility->0.text@,
                None => self.visibility is None,
            },
    {
        match &self.visibility {
            Some(m) => Some(m.text.as_str()),
            None => None,
        }
    }
}

/// The group an import sits in: `use prefix::{.., item, ..};`.
#[derive(Debug, Clone, PartialEq, Eq)]
pub struct ImportGroup {
    /// The path the group's list hangs under.
    pub prefix: ModulePath,
    /// The entry, with its tail (` as Alias`, `::*`, `::{..}`).
    pub item: Span,
    /// The braced list.
    pub list: Span,
    /// How many entries the list holds.
    pub items: usize,
    /// The whole `use` statement.
    pub statement: Span,
    /// The list is the statement's own, not one nested in it.
    pub top_level: bool,
}

/// A path a file imports or spells out.
#[derive(Debug, Clone, PartialEq, Eq)]
pub struct ImportRef {
    pub span: Span,
    pub path: ModulePath,
    pub group: Option<ImportGroup>,
    pub glob: bool,
    /// The path stands in an import statement.
    pub declares: bool,
    pub reexport: bool,
    pub alias: Option<String>,
}

impl ImportRef {
    /// The path stands alone, not as an entry of a group.
    pub fn is_standalone(&self) -> (r: bool)
        ensures
            r == self.group is None,
    {
        self.group.is_none()
    }

    /// The name the import brings into scope: its alias, else the path's
    /// last segment; a glob binds no one name.
    pub fn binding(&self) -> (r: Option<&str>)
        ensures
            match r {
                Some(t) => !self.glob && match self.alias {
                    Some(a) => t@ == a@,
                    None => self.path.segments@.len() > 0 && t@ == self.path.segments@.last()@,
                },
                None => self.glob || (self.alias is None && self.path.segments@.len() == 0),
            },
    {
        if self.glob {
            return None;
        }
        match &self.alias {
            Some(a) => Some(a.as_str()),
            None => {
                let n = self.path.segments.len();
                if n == 0 {
                    None
                } else {
                    Some(self.path.segments[n - 1].as_str())
                }
            },
        }
    }
}

/// An identifier token: its text, its node's kind, and where it is.
#[derive(Debug, Clone, PartialEq, Eq)]
pub struct Token {
    pub text: String,
    pub kind: String,
    pub span: Span,
}

/// A token as values.
pub open spec fn token_view(t: Token) -> (Seq<char>, Seq<char>, Span) {
    (t.text@, t.kind@, t.span)
}

/// What a parse found in a file: its declarations, its imports, its
/// colours and its identifier tokens.
#[derive(Debug, Clone, PartialEq, Eq)]
pub struct Facts {
    pub symbols: Vec<Symbol>,
    pub imports: Vec<ImportRef>,
    pub highlights: Vec<Highlight>,
    pub tokens: Vec<Token>,
}

/// The tokens spelling `name`, in order, each as its range and kind.
pub open spec fn tokens_with(ts: Seq<(Seq<char>, Seq<char>, Span)>, name: Seq<char>) -> Seq<(Span, Seq<char>)>
    decreases ts.len(),
{
    if ts.len() == 0 {
        seq![]
    } else {
        let rest = tokens_with(ts.drop_last(), name);
        if ts.last().0 == name {
            rest.push((ts.last().2, ts.last().1))
        } else {
            rest
        }
    }
}

impl Facts {
    /// The identifier tokens spelling `name`, in order: where each is, and
    /// its kind.
    pub fn tokens_named(&self, name: &str) -> (r: Vec<(Span, String)>)
        ensures
            r@.map_values(|e: (Span, String)| (e.0, e.1@)) == tokens_with(self.tokens@.map_values(|t: Token| token_view(t)), name@),
    {
        let ghost ts = self.tokens@.map_values(|t: Token| token_view(t));
        let mut out: Vec<(Span, String)> = Vec::new();
        let mut k: usize = 0;
        while k < self.tokens.len()
            invariant
                ts == self.tokens@.map_values(|t: Token| token_view(t)),
                0 <= k <= ts.len(),
                out@.map_values(|e: (Span, String)| (e.0, e.1@)) == tokens_with(ts.take(k as int), name@),
            decreases ts.len() - k,
        {
            let t = &self.tokens[k];
            let ghost before = out@.map_values(|e: (Span, String)| (e.0, e.1@));
            proof {
                assert(ts.take(k + 1).drop_last() =~= ts.take(k as int));
                assert(ts.take(k + 1).last() == token_view(*t));
            }
            if crate::text::str_eq(t.text.as_str(), name) {
                out.push((t.span, crate::text::owned(t.kind.as_str())));
                proof {
                    assert(out@.map_values(|e: (Span, String)| (e.0, e.1@)) =~= before.push((t.span, t.kind@)));
                }
            }
            k = k + 1;
        }
        proof {
            assert(ts.take(k as int) =~= ts);
        }
        out
    }
}

/// A file with its text and what its parse found.
#[derive(Debug, Clone, PartialEq, Eq)]
pub struct Parsed {
    pub path: Vec<String>,
    pub source: String,
    pub facts: Facts,
}

/// Replace the bytes of `span` by `replacement`.
#[derive(Debug, Clone, PartialEq, Eq)]
pub struct Edit {
    pub span: Span,
    pub replacement: String,
}

/// An edit of one file.
#[derive(Debug, Clone, PartialEq, Eq)]
pub struct SideEdit {
    pub path: Vec<String>,
    pub edit: Edit,
}

/// How far a declaration is seen.
#[derive(Debug, Clone, Copy, PartialEq, Eq, Structural)]
pub enum ReachKind {
    /// Its own module.
    Declaring,
    /// The module's parent.
    Parent,
    /// The whole crate.
    Package,
    /// Everyone.
    Everyone,
    /// A path the modifier names.
    Path,
}

/// An edit as values: the span, and the bytes that replace it.
pub open spec fn edit_view(e: Edit) -> (Span, Seq<u8>) {
    (e.span, bytes_of(e.replacement@))
}

/// An edit of a file as values.
pub open spec fn side_view(e: SideEdit) -> (Seq<Seq<char>>, Span, Seq<u8>) {
    (segs(e.path@), e.edit.span, bytes_of(e.edit.replacement@))
}

impl Edit {
    /// Put `text` in place of `span`.
    pub fn replace(span: Span, text: String) -> (e: Edit)
        ensures
            e.span == span,
            e.replacement@ == text@,
    {
        Edit { span, replacement: text }
    }

    /// Take out `span`.
    pub fn delete(span: Span) -> (e: Edit)
        ensures
            e.span == span,
            e.replacement@ == Seq::<char>::empty(),
    {
        Edit { span, replacement: String::new() }
    }

    /// Put `text` at `at`.
    pub fn insert(at: usize, text: String) -> (e: Edit)
        ensures
            e.span == (Span { start: at, end: at }),
            e.replacement@ == text@,
    {
        Edit { span: Span { start: at, end: at }, replacement: text }
    }
}

/// A `mod` declaration's facts fit the text they were read from: its item
/// and name are pieces of it, the name within the item and spelled as the
/// text spells it there, and a modifier, when there is one, is a piece of
/// it before the name.
pub open spec fn module_fits(b: Seq<u8>, s: Symbol) -> bool {
    s.kind == SymbolKind::Module ==> {
        &&& piece(b, s.span.start as int, s.span.end as int)
        &&& piece(b, s.name_span.start as int, s.name_span.end as int)
        &&& s.span.start <= s.name_span.start
        &&& s.name_span.end <= s.span.end
        &&& bytes_of(s.name@) == b.subrange(s.name_span.start as int, s.name_span.end as int)
        &&& match s.visibility {
            Some(m) => piece(b, m.span.start as int, m.span.end as int) && s.span.start <= m.span.start
                && m.span.end <= s.name_span.start,
            None => true,
        }
    }
}

/// Every `mod` declaration a parse reports fits the file's text.
pub open spec fn parsed_fits(p: Parsed) -> bool {
    forall|i: int| 0 <= i < p.facts.symbols@.len() ==> module_fits(bytes_of(p.source@), #[trigger] p.facts.symbols@[i])
}

/// An import's facts fit the text: where it stands in an import statement
/// its end is a piece of it, and in a group, its tail and the entry are.
pub open spec fn import_fits(b: Seq<u8>, r: ImportRef) -> bool {
    &&& r.declares ==> piece(b, r.span.end as int, r.span.end as int)
    &&& match r.group {
        Some(g) => piece(b, r.span.end as int, g.item.end as int) && piece(b, g.item.start as int, g.item.end as int),
        None => true,
    }
}

/// Every import a parse reports fits the file's text.
pub open spec fn imports_fit(p: Parsed) -> bool {
    forall|i: int| 0 <= i < p.facts.imports@.len() ==> import_fits(bytes_of(p.source@), #[trigger] p.facts.imports@[i])
}

/// Whether a declaration's facts fit `text`, as `module_fits` says.
fn module_fits_in(text: &str, s: &Symbol) -> (r: bool)
    ensures
        r == module_fits(bytes_of(text@), *s),
{
    if s.kind != SymbolKind::Module {
        return true;
    }
    if !(is_piece(text, s.span.start, s.span.end) && is_piece(text, s.name_span.start, s.name_span.end)
        && s.span.start <= s.name_span.start && s.name_span.end <= s.span.end) {
        return false;
    }
    let name = slice_of(text, s.name_span.start, s.name_span.end);
    proof {
        encode_utf8_decode_utf8(name@);
        encode_utf8_decode_utf8(s.name@);
    }
    if !str_eq(name, s.name.as_str()) {
        return false;
    }
    match &s.visibility {
        Some(m) => is_piece(text, m.span.start, m.span.end) && s.span.start <= m.span.start && m.span.end <= s.name_span.start,
        None => true,
    }
}

/// Whether an import's facts fit `text`, as `import_fits` says.
fn import_fits_in(text: &str, r: &ImportRef) -> (ok: bool)
    ensures
        ok == import_fits(bytes_of(text@), *r),
{
    if r.declares && !is_piece(text, r.span.end, r.span.end) {
        return false;
    }
    match &r.group {
        Some(g) => is_piece(text, r.span.end, g.item.end) && is_piece(text, g.item.start, g.item.end),
        None => true,
    }
}

impl Parsed {
    /// A file with what its parse found, kept only when every `mod`
    /// declaration and every import the parse reports fits the text; the
    /// surgery reads such a file.
    pub fn fitting(path: Vec<String>, source: String, facts: Facts) -> (r: Option<Parsed>)
        ensures
            match r {
                Some(p) => p.path@ == path@ && p.source@ == source@ && p.facts == facts && parsed_fits(p) && imports_fit(p),
                None => !parsed_fits((Parsed { path, source, facts })) || !imports_fit((Parsed { path, source, facts })),
            },
    {
        let ghost whole = Parsed { path, source, facts };
        let mut i: usize = 0;
        while i < facts.symbols.len()
            invariant
                whole == (Parsed { path, source, facts }),
                0 <= i <= facts.symbols@.len(),
                forall|j: int| 0 <= j < i ==> module_fits(bytes_of(source@), #[trigger] facts.symbols@[j]),
            decreases facts.symbols@.len() - i,
        {
            if !module_fits_in(source.as_str(), &facts.symbols[i]) {
                proof {
                    assert(!module_fits(bytes_of(whole.source@), whole.facts.symbols@[i as int]));
                }
                return None;
            }
            i = i + 1;
        }
        let mut k: usize = 0;
        while k < facts.imports.len()
            invariant
                whole == (Parsed { path, source, facts }),
                0 <= k <= facts.imports@.len(),
                parsed_fits(whole),
                forall|j: int| 0 <= j < k ==> import_fits(bytes_of(source@), #[trigger] facts.imports@[j]),
            decreases facts.imports@.len() - k,
        {
            if !import_fits_in(source.as_str(), &facts.imports[k]) {
                proof {
                    assert(!import_fits(bytes_of(whole.source@), whole.facts.imports@[k as int]));
                }
                return None;
            }
            k = k + 1;
        }
        Some(Parsed { path, source, facts })
    }
}

} // verus!
