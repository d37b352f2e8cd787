//! How to spell an edit in Rust: a path from one module to another, the
//! `use` line that imports it, a grouped `use` rewritten, a `mod`
//! declaration moved between parents. Text and facts in, edits out;
//! placement questions go to the layout. Spans are byte offsets.

use vstd::prelude::*;
use vstd::utf8::{
    char_u32_cast, decode_utf8, encode_scalar, encode_utf8_decode_utf8, encode_utf8_valid_utf8, is_char_boundary,
    is_char_boundary_start_end_of_seq, valid_utf8,
};

use crate::engine::Span;
use crate::modes::bytes_of;
use crate::paths::{concat, copy_path, is_prefix, joined, same_path, segs, skip, starts_with};
use crate::query::SymbolKind;
use crate::rust::facts::{
    edit_view, module_fits, parsed_fits, side_view, Edit, ImportGroup, ImportRef, Parsed, ReachKind, SideEdit, Symbol,
};
use crate::rust::layout::{
    candidates_in, dep_standing_for, dep_target, dep_used_as, files_of, first_held, index_with_id, mod_line,
    mod_line_for, move_sites_of, name_for, name_for_crate, names_unique, placed, referent, resolved, scoped_spelling,
    spell_scoped, Address, Dependency, Package, Project, Refusal, ResolveError, RustLayout,
};
use crate::source::{
    blanks, count_blanks, find_byte, first_byte, kept_before_ws, last_byte, leading_ws, lemma_ascii_boundaries,
    lemma_bytes_concat, piece, prefix_width, rfind_byte, slice_of,
};
use crate::text::{chars_of, is_blank, is_whitespace, join, owned, push_str, skip_ws, str_eq, trim, trim_end};
use crate::typescript::{Head, ModulePath};

verus! {

/// The Rust surgery.
#[derive(Debug, Clone, Copy, Default)]
pub struct RustSurgery;

/// What is left of `target` under the module `base` of the crate `pkg`.
pub open spec fn strip(target: (Seq<char>, Seq<Seq<char>>), pkg: Seq<char>, base: Seq<Seq<char>>) -> Option<Seq<Seq<char>>> {
    if target.0 == pkg && is_prefix(base, target.1) {
        Some(target.1.skip(base.len() as int))
    } else {
        None
    }
}

/// The path of `target` written in `from`, in the style of an original
/// path that started with `head`: a path relative to the module stays
/// relative (`self::` kept when it had one), `super::` chains stay as deep
/// as they were when the target is still under them; anything else is
/// spelled from the crate root, or from the crate's name across crates.
pub open spec fn rendered(project: Project, from: Seq<Seq<char>>, target: (Seq<char>, Seq<Seq<char>>), head: Head) -> (Head, Seq<Seq<char>>) {
    let pkgs = project.packages@;
    match placed(pkgs, from) {
        None => (Head::Named, seq![target.0] + target.1),
        Some((src, pid, m)) => {
            let kept: Option<(Head, Seq<Seq<char>>)> = match head {
                Head::Here | Head::Named => match strip(target, pid, m) {
                    Some(rest) => if rest.len() > 0 {
                        Some((head, rest))
                    } else {
                        None
                    },
                    None => None,
                },
                Head::Up(n) => if n <= m.len() {
                    match strip(target, pid, m.take(m.len() - n)) {
                        Some(rest) => if rest.len() > 0 {
                            Some((Head::Up(n), rest))
                        } else {
                            None
                        },
                        None => None,
                    }
                } else {
                    None
                },
                _ => None,
            };
            match kept {
                Some(k) => k,
                None => if pid == target.0 {
                    (Head::Package, target.1)
                } else {
                    (Head::Named, seq![name_for(pkgs, pid, target.0)] + target.1)
                },
            }
        },
    }
}

/// The path as head and names.
pub open spec fn path_view(p: ModulePath) -> (Head, Seq<Seq<char>>) {
    (p.head, segs(p.segments@))
}

/// What is left of `target` under `base` of the crate `pkg`.
fn strip_under(target: &Address, pkg: &String, base: &Vec<String>) -> (r: Option<Vec<String>>)
    ensures
        match r {
            Some(rest) => strip(target@, pkg@, segs(base@)) == Some(segs(rest@)),
            None => strip(target@, pkg@, segs(base@)) is None,
        },
{
    if str_eq(target.package.as_str(), pkg.as_str()) && starts_with(base, &target.path) {
        Some(skip(&target.path, base.len()))
    } else {
        None
    }
}

/// `crate::a::b`: a path to `target` from its own crate's root.
pub fn from_crate_root(target: &Address) -> (r: ModulePath)
    ensures
        path_view(r) == (Head::Package, segs(target.path@)),
{
    ModulePath { head: Head::Package, segments: copy_path(&target.path) }
}

/// `name::a::b`: a path to `target` in the crate called `name`.
pub fn from_crate_named(name: &str, target: &Address) -> (r: ModulePath)
    ensures
        path_view(r) == (Head::Named, seq![name@] + segs(target.path@)),
{
    let mut first: Vec<String> = Vec::new();
    first.push(owned(name));
    proof {
        assert(segs(first@) =~= seq![name@]);
    }
    ModulePath { head: Head::Named, segments: concat(&first, &target.path) }
}

impl ModulePath {
    /// The path as Rust writes it, with `::`.
    pub fn scoped(&self) -> (s: String)
        ensures
            s@ == scoped_spelling(self.head, segs(self.segments@)),
    {
        spell_scoped(self.head, &self.segments)
    }
}

impl RustSurgery {
    /// `target` spelled from `from` in the style of `original`.
    pub fn render(project: &Project, from: &Vec<String>, target: &Address, original: &ModulePath) -> (r: ModulePath)
        ensures
            path_view(r) == rendered(*project, segs(from@), target@, original.head),
    {
        let placed = match RustLayout::place(project, from) {
            Ok(p) => p,
            Err(_) => return from_crate_named(target.package.as_str(), target),
        };
        let module = &placed.module;
        match original.head {
            Head::Here | Head::Named => {
                match strip_under(target, &module.package, &module.path) {
                    Some(rest) => {
                        if rest.len() > 0 {
                            return ModulePath { head: original.head, segments: rest };
                        }
                    },
                    None => {},
                }
            },
            Head::Up(n) => {
                let k = n as usize;
                if k <= module.path.len() {
                    let mut base = copy_path(&module.path);
                    let mut j: usize = 0;
                    while j < k
                        invariant
                            k == n as usize,
                            k <= module.path@.len(),
                            0 <= j <= k,
                            segs(base@) == segs(module.path@).take(module.path@.len() - j),
                        decreases k - j,
                    {
                        let ghost before = segs(base@);
                        base.pop();
                        proof {
                            assert(segs(base@) =~= before.drop_last());
                            assert(segs(module.path@).take(module.path@.len() - j - 1) =~= before.drop_last());
                        }
                        j = j + 1;
                    }
                    match strip_under(target, &module.package, &base) {
                        Some(rest) => {
                            if rest.len() > 0 {
                                return ModulePath { head: Head::Up(n), segments: rest };
                            }
                        },
                        None => {},
                    }
                }
            },
            _ => {},
        }
        if str_eq(module.package.as_str(), target.package.as_str()) {
            return from_crate_root(target);
        }
        let name = name_for_crate(&project.packages, module.package.as_str(), target.package.as_str());
        from_crate_named(name.as_str(), target)
    }

    /// The `use` line that brings `target` into `from`: the path spelled
    /// as a bare path would be, relative when the target is under the
    /// module, from the crate root otherwise.
    pub fn import_statement(project: &Project, from: &Vec<String>, target: &Address, name: &str) -> (r: Option<String>)
        ensures
            r matches Some(s) && s@ == "use "@ + ({
                let p = rendered(*project, segs(from@), target@, Head::Named);
                scoped_spelling(p.0, p.1)
            }) + ";"@,
    {
        let bare = ModulePath { head: Head::Named, segments: Vec::new() };
        let p = Self::render(project, from, target, &bare);
        let mut s = owned("use ");
        push_str(&mut s, p.scoped().as_str());
        push_str(&mut s, ";");
        Some(s)
    }

    /// The `use` line for a path as it stands.
    pub fn import_of_path(path: &ModulePath, name: &str) -> (r: Option<String>)
        ensures
            r matches Some(s) && s@ == "use "@ + scoped_spelling(path.head, segs(path.segments@)) + ";"@,
    {
        let mut s = owned("use ");
        push_str(&mut s, path.scoped().as_str());
        push_str(&mut s, ";");
        Some(s)
    }
}

/// A path the surgery writes within a crate leads back to its target:
/// resolving, from the same file, a path rendered from the crate root or
/// relative to the file's module gives the target again.
pub proof fn law_paths_within_a_crate_resolve_back(
    project: Project,
    from: Seq<Seq<char>>,
    target: (Seq<char>, Seq<Seq<char>>),
    head: Head,
)
    requires
        placed(project.packages@, from) is Some,
        rendered(project, from, target, head).0 != Head::Named,
    ensures
        resolved(project, from, rendered(project, from, target, head).0, rendered(project, from, target, head).1)
            == Some(target),
{
    let (src, pid, m) = placed(project.packages@, from)->0;
    let r = rendered(project, from, target, head);
    match r.0 {
        Head::Package => {
            assert(pid == target.0);
            assert(r.1 == target.1);
        },
        Head::Here => {
            let rest = strip(target, pid, m)->0;
            assert(m + rest =~= target.1);
        },
        Head::Up(n) => {
            let base = m.take(m.len() - n);
            let rest = strip(target, pid, base)->0;
            assert(base + rest =~= target.1);
        },
        _ => {},
    }
}

/// A path the surgery keeps relative to a child module leads back to its
/// target while that child module's file exists.
pub proof fn law_child_paths_resolve_back(
    project: Project,
    from: Seq<Seq<char>>,
    target: (Seq<char>, Seq<Seq<char>>),
    head: Head,
)
    requires
        placed(project.packages@, from) matches Some(p) && p.1 == target.0 && {
            let r = rendered(project, from, target, head);
            r.0 == Head::Named && first_held(candidates_in(p.0, p.2.push(r.1[0])), files_of(project)) is Some
        },
    ensures
        resolved(project, from, rendered(project, from, target, head).0, rendered(project, from, target, head).1)
            == Some(target),
{
    let (src, pid, m) = placed(project.packages@, from)->0;
    let r = rendered(project, from, target, head);
    let rest = strip(target, pid, m)->0;
    assert(m + rest =~= target.1);
}

proof fn lemma_dep_used_as_found(ds: Seq<Dependency>, head: Seq<char>, i: int, k: int)
    requires
        names_unique(ds),
        0 <= i <= k < ds.len(),
        ds[k].used_as@ == head,
    ensures
        dep_used_as(ds, head, i) == Some(k),
    decreases k - i,
{
    if i < k {
        lemma_dep_used_as_found(ds, head, i + 1, k);
    }
}

proof fn lemma_dep_standing_for_found(pkgs: Seq<Package>, ds: Seq<Dependency>, target: Seq<char>, i: int)
    ensures
        dep_standing_for(pkgs, ds, target, i) matches Some(k) ==> i <= k < ds.len() && dep_target(pkgs, ds[k]) == target,
    decreases ds.len() - i,
{
    if 0 <= i < ds.len() && dep_target(pkgs, ds[i]) != target {
        lemma_dep_standing_for_found(pkgs, ds, target, i + 1);
    }
}

proof fn lemma_index_with_id_found(pkgs: Seq<Package>, id: Seq<char>, i: int)
    ensures
        index_with_id(pkgs, id, i) matches Some(k) ==> 0 <= k < pkgs.len() && pkgs[k].id@ == id,
    decreases pkgs.len() - i,
{
    if 0 <= i < pkgs.len() && pkgs[i].id@ != id {
        lemma_index_with_id_found(pkgs, id, i + 1);
    }
}

/// A path the surgery writes into another crate leads back to its target
/// when the file's crate names that crate through a dependency, its
/// dependencies go by distinct names, and the module has no child module
/// by that name.
pub proof fn law_paths_across_crates_resolve_back(
    project: Project,
    from: Seq<Seq<char>>,
    target: (Seq<char>, Seq<Seq<char>>),
    head: Head,
)
    requires
        placed(project.packages@, from) matches Some(p) && p.1 != target.0 && {
            let pkgs = project.packages@;
            let r = rendered(project, from, target, head);
            &&& r.0 == Head::Named
            &&& index_with_id(pkgs, p.1, 0) matches Some(f) && names_unique(pkgs[f].dependencies@)
                && dep_standing_for(pkgs, pkgs[f].dependencies@, target.0, 0) is Some
            &&& first_held(candidates_in(p.0, p.2.push(r.1[0])), files_of(project)) is None
        },
    ensures
        resolved(project, from, rendered(project, from, target, head).0, rendered(project, from, target, head).1)
            == Some(target),
{
    let pkgs = project.packages@;
    let (src, pid, m) = placed(pkgs, from)->0;
    let r = rendered(project, from, target, head);
    let f = index_with_id(pkgs, pid, 0)->0;
    let ds = pkgs[f].dependencies@;
    lemma_index_with_id_found(pkgs, pid, 0);
    lemma_dep_standing_for_found(pkgs, ds, target.0, 0);
    let k = dep_standing_for(pkgs, ds, target.0, 0)->0;
    assert(strip(target, pid, m) is None);
    assert(r == (Head::Named, seq![ds[k].used_as@] + target.1));
    lemma_dep_used_as_found(ds, ds[k].used_as@, 0, k);
    assert(referent(pkgs, pid, ds[k].used_as@) == Some(target.0));
    assert(r.1.skip(1) =~= target.1);
}

// -------------------------------------------------------------- mod lines

/// How Rust spells a reach the surgery is willing to grant: `Everyone` is
/// never inferred, and `Declaring` is what no modifier already means.
pub open spec fn modifier_text(to: ReachKind) -> Option<Seq<char>> {
    match to {
        ReachKind::Parent => Some("pub(super)"@),
        ReachKind::Package => Some("pub(crate)"@),
        _ => None,
    }
}

/// The modifier for a reach.
fn modifier_for(to: ReachKind) -> (r: Option<&'static str>)
    ensures
        match r {
            Some(t) => modifier_text(to) == Some(t@),
            None => modifier_text(to) is None,
        },
{
    match to {
        ReachKind::Parent => Some("pub(super)"),
        ReachKind::Package => Some("pub(crate)"),
        ReachKind::Declaring | ReachKind::Everyone | ReachKind::Path => None,
    }
}

/// The text ends with `;` but for white space.
pub open spec fn closes_with_semicolon(s: Seq<char>) -> bool {
    trim_end(s).len() > 0 && trim_end(s).last() == ';'
}

/// A declaration is a `mod name;` line, not an inline `mod name { .. }`.
pub open spec fn is_mod_decl(b: Seq<u8>, s: Symbol) -> bool {
    s.kind == SymbolKind::Module && closes_with_semicolon(decode_utf8(b.subrange(s.span.start as int, s.span.end as int)))
}

/// The `mod name;` declarations among `ss`, in order.
pub open spec fn mod_decls_in(b: Seq<u8>, ss: Seq<Symbol>) -> Seq<Symbol>
    decreases ss.len(),
{
    if ss.len() == 0 {
        seq![]
    } else {
        let r = mod_decls_in(b, ss.drop_last());
        if is_mod_decl(b, ss.last()) {
            r.push(ss.last())
        } else {
            r
        }
    }
}

/// The `mod name;` declarations of a parsed file.
pub open spec fn mod_decls(p: Parsed) -> Seq<Symbol> {
    mod_decls_in(bytes_of(p.source@), p.facts.symbols@)
}

/// A `mod name;` item: where it is, its name, its text, and the start and
/// length of its modifier.
pub struct ModDecl {
    pub span: Span,
    pub name_span: Span,
    pub name: String,
    pub text: String,
    pub modifier: Option<(usize, usize)>,
}

/// A declaration as values.
pub open spec fn decl_view(d: ModDecl) -> (Span, Span, Seq<char>, Seq<u8>, Option<(usize, usize)>) {
    (d.span, d.name_span, d.name@, bytes_of(d.text@), d.modifier)
}

/// The declaration a `mod` symbol of the text `b` makes.
pub open spec fn decl_of(b: Seq<u8>, s: Symbol) -> (Span, Span, Seq<char>, Seq<u8>, Option<(usize, usize)>) {
    (
        s.span,
        s.name_span,
        s.name@,
        b.subrange(s.span.start as int, s.span.end as int),
        match s.visibility {
            Some(m) => Some((m.span.start, (m.span.end - m.span.start) as usize)),
            None => None,
        },
    )
}

/// Whether the text ends with `;` but for white space.
fn ends_with_semicolon(text: &str) -> (r: bool)
    ensures
        r == closes_with_semicolon(text@),
{
    let c = chars_of(text);
    let mut k = c.len();
    proof {
        assert(c@.take(k as int) =~= c@);
    }
    while k > 0 && is_whitespace(c[k - 1])
        invariant
            k <= c@.len(),
            c@ == text@,
            trim_end(c@) == trim_end(c@.take(k as int)),
        decreases k,
    {
        proof {
            assert(c@.take(k as int).drop_last() =~= c@.take(k - 1));
        }
        k = k - 1;
    }
    proof {
        let t = c@.take(k as int);
        assert(trim_end(t) == t);
        if k > 0 {
            assert(t.last() == c@[k - 1]);
        }
    }
    k > 0 && c[k - 1] == ';'
}

/// The `mod name;` declarations in a parsed file.
fn mod_declarations(file: &Parsed) -> (r: Vec<ModDecl>)
    requires
        parsed_fits(*file),
    ensures
        r@.map_values(|d: ModDecl| decl_view(d)) == mod_decls(*file).map_values(|s: Symbol| decl_of(bytes_of(file.source@), s)),
{
    let ghost b = bytes_of(file.source@);
    let ghost ss = file.facts.symbols@;
    let symbols = &file.facts.symbols;
    let mut r: Vec<ModDecl> = Vec::new();
    let mut i: usize = 0;
    proof {
        assert(ss.take(0) =~= Seq::<Symbol>::empty());
        assert(r@.map_values(|d: ModDecl| decl_view(d)) =~= mod_decls_in(b, ss.take(0)).map_values(|s: Symbol| decl_of(b, s)));
    }
    while i < symbols.len()
        invariant
            0 <= i <= ss.len(),
            ss == file.facts.symbols@,
            symbols@ == ss,
            b == bytes_of(file.source@),
            parsed_fits(*file),
            r@.map_values(|d: ModDecl| decl_view(d)) == mod_decls_in(b, ss.take(i as int)).map_values(|s: Symbol| decl_of(b, s)),
        decreases ss.len() - i,
    {
        let s = &symbols[i];
        proof {
            assert(ss.take(i + 1).drop_last() =~= ss.take(i as int));
            assert(ss.take(i + 1).last() == ss[i as int]);
            assert(module_fits(b, ss[i as int]));
        }
        let ghost before = r@.map_values(|d: ModDecl| decl_view(d));
        if s.kind == SymbolKind::Module {
            let text = slice_of(file.source.as_str(), s.span.start, s.span.end);
            proof {
                encode_utf8_decode_utf8(text@);
            }
            if ends_with_semicolon(text) {
                let modifier = match &s.visibility {
                    Some(m) => Some((m.span.start, m.span.end - m.span.start)),
                    None => None,
                };
                r.push(ModDecl { span: s.span, name_span: s.name_span, name: s.name.clone(), text: owned_text(text), modifier });
                proof {
                    assert(r@.map_values(|d: ModDecl| decl_view(d)) =~= before.push(decl_of(b, ss[i as int])));
                }
            }
        }
        i = i + 1;
    }
    proof {
        assert(ss.take(i as int) =~= ss);
    }
    r
}

/// A string holding the text.
fn owned_text(s: &str) -> (r: String)
    ensures
        r@ == s@,
{
    owned(s)
}

/// The first declaration of `ds` named `name`.
pub open spec fn first_named(ds: Seq<Symbol>, name: Seq<char>) -> Option<Symbol>
    decreases ds.len(),
{
    if ds.len() == 0 {
        None
    } else if ds[0].name@ == name {
        Some(ds[0])
    } else {
        first_named(ds.drop_first(), name)
    }
}

/// The first of the files whose path is `path`.
pub open spec fn parsed_at(ps: Seq<Parsed>, path: Seq<Seq<char>>) -> Option<Parsed>
    decreases ps.len(),
{
    if ps.len() == 0 {
        None
    } else if segs(ps[0].path@) == path {
        Some(ps[0])
    } else {
        parsed_at(ps.drop_first(), path)
    }
}

/// The text of a `mod` line after the move: the item as written with the
/// new name in place of the old, and, when the move widens it, the
/// modifier in place of the one it had or before the line.
pub open spec fn moved_line(b: Seq<u8>, d: Symbol, new_name: Seq<char>, widen: Option<Seq<char>>) -> Seq<u8> {
    let text = b.subrange(d.span.start as int, d.span.end as int);
    let rel = d.name_span.start - d.span.start;
    let renamed = text.take(rel) + bytes_of(new_name) + text.skip(rel + bytes_of(d.name@).len());
    match widen {
        None => renamed,
        Some(t) => match d.visibility {
            Some(m) => renamed.take(m.span.start - d.span.start) + bytes_of(t) + renamed.skip(
                m.span.start - d.span.start + (m.span.end - m.span.start),
            ),
            None => bytes_of(t) + bytes_of(" "@) + renamed,
        },
    }
}

/// The edits a module move makes to `mod` lines: a rename in place when
/// the parent stays, else the line taken out of the old parent, with the
/// line break after it, and put after the new parent's last `mod` line, or
/// at its top when it has none.
pub open spec fn relocated(
    project: Project,
    from: Seq<Seq<char>>,
    to: Seq<Seq<char>>,
    touched: Seq<Parsed>,
    widen_to: Option<ReachKind>,
) -> Result<Seq<(Seq<Seq<char>>, Span, Seq<u8>)>, Refusal> {
    match move_sites_of(project, from, to) {
        Err(e) => Err(e),
        Ok((op, np, old_name, new_name)) => match parsed_at(touched, op) {
            None => Err(Refusal::Missing(op)),
            Some(old) => {
                let b = bytes_of(old.source@);
                match first_named(mod_decls(old), old_name) {
                    None => Err(Refusal::NoDeclaration(mod_line(old_name), op)),
                    Some(d) => if np == op {
                        Ok(seq![(op, d.name_span, bytes_of(new_name))])
                    } else {
                        let line = moved_line(
                            b,
                            d,
                            new_name,
                            match widen_to {
                                Some(k) => modifier_text(k),
                                None => None,
                            },
                        );
                        let delete_end = if d.span.end < b.len() && b[d.span.end as int] == 10 {
                            (d.span.end + 1) as usize
                        } else {
                            d.span.end
                        };
                        match parsed_at(touched, np) {
                            None => Err(Refusal::Missing(np)),
                            Some(new) => {
                                let decls = mod_decls(new);
                                let insert = if decls.len() > 0 {
                                    (Span { start: decls.last().span.end, end: decls.last().span.end }, bytes_of(seq!['\n']) + line)
                                } else {
                                    (Span { start: 0, end: 0 }, line + bytes_of(seq!['\n']))
                                };
                                Ok(
                                    seq![
                                        (op, Span { start: d.span.start, end: delete_end }, Seq::<u8>::empty()),
                                        (np, insert.0, insert.1),
                                    ],
                                )
                            },
                        }
                    },
                }
            },
        },
    }
}

/// The first of the files at `path`.
fn find_parsed<'a>(ps: &'a Vec<Parsed>, path: &Vec<String>) -> (r: Option<&'a Parsed>)
    ensures
        match r {
            Some(p) => parsed_at(ps@, segs(path@)) == Some(*p),
            None => parsed_at(ps@, segs(path@)) is None,
        },
{
    let mut i: usize = 0;
    proof {
        assert(ps@.skip(0) =~= ps@);
    }
    while i < ps.len()
        invariant
            0 <= i <= ps@.len(),
            parsed_at(ps@, segs(path@)) == parsed_at(ps@.skip(i as int), segs(path@)),
        decreases ps@.len() - i,
    {
        proof {
            assert(ps@.skip(i as int)[0] == ps@[i as int]);
            assert(ps@.skip(i as int).drop_first() =~= ps@.skip(i + 1));
        }
        if same_path(&ps[i].path, path) {
            return Some(&ps[i]);
        }
        i = i + 1;
    }
    None
}

/// The first declaration named `name`.
fn decl_named<'a>(ds: &'a Vec<ModDecl>, name: &str, Ghost(syms): Ghost<Seq<Symbol>>, Ghost(b): Ghost<Seq<u8>>) -> (r: Option<&'a ModDecl>)
    requires
        ds@.map_values(|d: ModDecl| decl_view(d)) == syms.map_values(|s: Symbol| decl_of(b, s)),
    ensures
        match r {
            Some(d) => first_named(syms, name@) matches Some(s) && decl_view(*d) == decl_of(b, s),
            None => first_named(syms, name@) is None,
        },
{
    let mut i: usize = 0;
    proof {
        assert(syms.skip(0) =~= syms);
        assert(ds@.map_values(|d: ModDecl| decl_view(d)).len() == ds@.len());
        assert(syms.map_values(|s: Symbol| decl_of(b, s)).len() == syms.len());
    }
    while i < ds.len()
        invariant
            0 <= i <= ds@.len(),
            ds@.len() == syms.len(),
            ds@.map_values(|d: ModDecl| decl_view(d)) == syms.map_values(|s: Symbol| decl_of(b, s)),
            first_named(syms, name@) == first_named(syms.skip(i as int), name@),
        decreases ds@.len() - i,
    {
        proof {
            assert(syms.skip(i as int)[0] == syms[i as int]);
            assert(syms.skip(i as int).drop_first() =~= syms.skip(i + 1));
            assert(ds@.map_values(|d: ModDecl| decl_view(d))[i as int] == decl_view(ds@[i as int]));
            assert(syms.map_values(|s: Symbol| decl_of(b, s))[i as int] == decl_of(b, syms[i as int]));
        }
        if crate::text::str_eq(ds[i].name.as_str(), name) {
            return Some(&ds[i]);
        }
        i = i + 1;
    }
    None
}

/// Appends the bytes `start..end` of `text`.
fn push_piece(s: &mut String, text: &str, start: usize, end: usize)
    requires
        piece(bytes_of(text@), start as int, end as int),
    ensures
        bytes_of(final(s)@) == bytes_of(old(s)@) + bytes_of(text@).subrange(start as int, end as int),
{
    let p = slice_of(text, start, end);
    let ghost before = s@;
    push_str(s, p);
    proof {
        lemma_bytes_concat(before, p@);
    }
}

/// Appends a text.
fn push_text(s: &mut String, t: &str)
    ensures
        bytes_of(final(s)@) == bytes_of(old(s)@) + bytes_of(t@),
{
    let ghost before = s@;
    push_str(s, t);
    proof {
        lemma_bytes_concat(before, t@);
    }
}

/// A `mod` symbol met in a file's declarations is one of its symbols.
proof fn lemma_mod_decl_is_symbol(b: Seq<u8>, ss: Seq<Symbol>, name: Seq<char>)
    ensures
        first_named(mod_decls_in(b, ss), name) matches Some(s) ==> exists|i: int| 0 <= i < ss.len() && ss[i] == s,
{
    lemma_first_named_in(mod_decls_in(b, ss), name);
    if first_named(mod_decls_in(b, ss), name) is Some {
        let s = first_named(mod_decls_in(b, ss), name)->0;
        let k = choose|k: int| 0 <= k < mod_decls_in(b, ss).len() && mod_decls_in(b, ss)[k] == s;
        lemma_mod_decls_in_symbols(b, ss, k);
    }
}

proof fn lemma_first_named_in(ds: Seq<Symbol>, name: Seq<char>)
    ensures
        first_named(ds, name) matches Some(s) ==> exists|k: int| 0 <= k < ds.len() && ds[k] == s,
    decreases ds.len(),
{
    if ds.len() > 0 && ds[0].name@ != name {
        lemma_first_named_in(ds.drop_first(), name);
        if first_named(ds, name) is Some {
            let s = first_named(ds, name)->0;
            let k = choose|k: int| 0 <= k < ds.drop_first().len() && ds.drop_first()[k] == s;
            assert(ds[k + 1] == s);
        }
    }
}

proof fn lemma_mod_decls_in_symbols(b: Seq<u8>, ss: Seq<Symbol>, k: int)
    requires
        0 <= k < mod_decls_in(b, ss).len(),
    ensures
        exists|i: int| 0 <= i < ss.len() && ss[i] == mod_decls_in(b, ss)[k],
    decreases ss.len(),
{
    let r = mod_decls_in(b, ss.drop_last());
    if k < r.len() {
        lemma_mod_decls_in_symbols(b, ss.drop_last(), k);
        let i = choose|i: int| 0 <= i < ss.drop_last().len() && ss.drop_last()[i] == r[k];
        assert(ss[i] == r[k]);
    } else {
        assert(ss[ss.len() - 1] == mod_decls_in(b, ss)[k]);
    }
}

/// The file found among `ps` is one of them.
proof fn lemma_parsed_at_in(ps: Seq<Parsed>, path: Seq<Seq<char>>)
    ensures
        parsed_at(ps, path) matches Some(p) ==> exists|i: int| 0 <= i < ps.len() && ps[i] == p,
    decreases ps.len(),
{
    if ps.len() > 0 && segs(ps[0].path@) != path {
        lemma_parsed_at_in(ps.drop_first(), path);
        if parsed_at(ps, path) is Some {
            let p = parsed_at(ps, path)->0;
            let k = choose|k: int| 0 <= k < ps.drop_first().len() && ps.drop_first()[k] == p;
            assert(ps[k + 1] == p);
        }
    }
}

impl RustSurgery {
    /// Widen a declaration to a reach the surgery grants: the modifier in
    /// place of the one it has, or before the item.
    pub fn widen(symbol: &Symbol, source: &str, to: ReachKind) -> (r: Option<Edit>)
        ensures
            match modifier_text(to) {
                None => r is None,
                Some(t) => r matches Some(e) && match symbol.visibility {
                    Some(m) => e.span == m.span && e.replacement@ == t,
                    None => e.span == (Span { start: symbol.span.start, end: symbol.span.start })
                        && e.replacement@ == t + " "@,
                },
            },
    {
        let text = match modifier_for(to) {
            Some(t) => t,
            None => return None,
        };
        match &symbol.visibility {
            Some(m) => Some(Edit::replace(m.span, owned(text))),
            None => {
                let mut t = owned(text);
                push_str(&mut t, " ");
                Some(Edit::insert(symbol.span.start, t))
            },
        }
    }

    /// Move the `mod` declaration: a rename in place when the parent stays,
    /// otherwise a removal from the old parent and an insertion after the
    /// new parent's last `mod` line, widened only as the move says.
    #[verifier::spinoff_prover]
    #[verifier::rlimit(50)]
    pub fn relocate(
        project: &Project,
        from: &Vec<String>,
        to: &Vec<String>,
        touched: &Vec<Parsed>,
        widen_to: Option<ReachKind>,
    ) -> (r: Result<Vec<SideEdit>, ResolveError>)
        requires
            forall|i: int| 0 <= i < touched@.len() ==> parsed_fits(#[trigger] touched@[i]),
        ensures
            match r {
                Ok(es) => relocated(*project, segs(from@), segs(to@), touched@, widen_to) == Ok::<_, Refusal>(
                    es@.map_values(|e: SideEdit| side_view(e)),
                ),
                Err(e) => relocated(*project, segs(from@), segs(to@), touched@, widen_to) == Err::<
                    Seq<(Seq<Seq<char>>, Span, Seq<u8>)>,
                    _,
                >(e@),
            },
    {
        let sites = match RustLayout::move_sites(project, from, to) {
            Ok(s) => s,
            Err(e) => return Err(e),
        };
        let old = match find_parsed(touched, &sites.old_parent) {
            Some(p) => p,
            None => return Err(ResolveError::Missing(copy_path(&sites.old_parent))),
        };
        proof {
            lemma_parsed_at_in(touched@, segs(sites.old_parent@));
        }
        let ghost b = bytes_of(old.source@);
        let decls = mod_declarations(old);
        let decl = match decl_named(&decls, sites.old_name.as_str(), Ghost(mod_decls(*old)), Ghost(b)) {
            Some(d) => d,
            None => {
                return Err(ResolveError::NoDeclaration {
                    declaration: mod_line_for(sites.old_name.as_str()),
                    parent: copy_path(&sites.old_parent),
                });
            },
        };
        let ghost sym = first_named(mod_decls(*old), sites.old_name@)->0;
        proof {
            lemma_mod_decl_is_symbol(b, old.facts.symbols@, sites.old_name@);
            let i = choose|i: int| 0 <= i < old.facts.symbols@.len() && old.facts.symbols@[i] == sym;
            assert(module_fits(b, old.facts.symbols@[i]));
            lemma_first_named_in(mod_decls(*old), sites.old_name@);
            let k = choose|k: int| 0 <= k < mod_decls(*old).len() && mod_decls(*old)[k] == sym;
            lemma_mod_decl_kind(b, old.facts.symbols@, k);
        }
        if same_path(&sites.old_parent, &sites.new_parent) {
            let mut v: Vec<SideEdit> = Vec::new();
            v.push(SideEdit { path: copy_path(&sites.old_parent), edit: Edit::replace(decl.name_span, sites.new_name.clone()) });
            proof {
                assert(v@.map_values(|e: SideEdit| side_view(e)) =~= seq![(segs(sites.old_parent@), sym.name_span, bytes_of(sites.new_name@))]);
            }
            return Ok(v);
        }
        let src = old.source.as_str();
        let ss = decl.span.start;
        let ns = decl.name_span.start;
        let ne = decl.name_span.end;
        let se = decl.span.end;
        let wid = match widen_to {
            Some(k) => modifier_for(k),
            None => None,
        };
        let mut line = String::new();
        match wid {
            None => {},
            Some(t) => match decl.modifier {
                Some((ms, ml)) => {
                    push_piece(&mut line, src, ss, ms);
                    push_text(&mut line, t);
                    push_piece(&mut line, src, ms + ml, ns);
                },
                None => {
                    push_text(&mut line, t);
                    push_text(&mut line, " ");
                    push_piece(&mut line, src, ss, ns);
                },
            },
        }
        if wid.is_none() {
            push_piece(&mut line, src, ss, ns);
        }
        push_text(&mut line, sites.new_name.as_str());
        push_piece(&mut line, src, ne, se);
        proof {
            let text = b.subrange(ss as int, se as int);
            let rel = ns - ss;
            assert(bytes_of(sym.name@).len() == ne - ns);
            assert(text.take(rel) =~= b.subrange(ss as int, ns as int));
            assert(text.skip(rel + bytes_of(sym.name@).len()) =~= b.subrange(ne as int, se as int));
            let renamed = text.take(rel) + bytes_of(sites.new_name@) + text.skip(rel + bytes_of(sym.name@).len());
            assert(bytes_of(Seq::<char>::empty()) =~= Seq::<u8>::empty());
            match wid {
                None => {
                    assert(bytes_of(line@) =~= renamed);
                },
                Some(t) => match sym.visibility {
                    Some(m) => {
                        assert(renamed.take(m.span.start - ss) =~= b.subrange(ss as int, m.span.start as int));
                        assert(renamed.skip(m.span.start - ss + (m.span.end - m.span.start)) =~= b.subrange(
                            m.span.end as int,
                            ns as int,
                        ) + bytes_of(sites.new_name@) + b.subrange(ne as int, se as int));
                        assert(bytes_of(line@) =~= renamed.take(m.span.start - ss) + bytes_of(t@) + renamed.skip(
                            m.span.start - ss + (m.span.end - m.span.start),
                        ));
                    },
                    None => {
                        assert(bytes_of(line@) =~= bytes_of(t@) + bytes_of(" "@) + renamed);
                    },
                },
            }
            assert(bytes_of(line@) == moved_line(b, sym, sites.new_name@, match widen_to {
                Some(k) => modifier_text(k),
                None => None,
            }));
        }
        let bs = src.as_bytes();
        let delete_end = if se < bs.len() && bs[se] == 10 {
            se + 1
        } else {
            se
        };
        let new = match find_parsed(touched, &sites.new_parent) {
            Some(p) => p,
            None => return Err(ResolveError::Missing(copy_path(&sites.new_parent))),
        };
        proof {
            lemma_parsed_at_in(touched@, segs(sites.new_parent@));
        }
        let new_decls = mod_declarations(new);
        let ghost nd = mod_decls(*new);
        let insert = if new_decls.len() > 0 {
            let last = &new_decls[new_decls.len() - 1];
            proof {
                assert(new_decls@.map_values(|d: ModDecl| decl_view(d)).len() == new_decls@.len());
                assert(nd.map_values(|s: Symbol| decl_of(bytes_of(new.source@), s)).len() == nd.len());
                assert(new_decls@.map_values(|d: ModDecl| decl_view(d))[new_decls@.len() - 1] == decl_view(*last));
                assert(nd.map_values(|s: Symbol| decl_of(bytes_of(new.source@), s))[nd.len() - 1] == decl_of(bytes_of(new.source@), nd.last()));
            }
            let mut t = String::new();
            push_text(&mut t, "\n");
            let ghost lb = bytes_of(line@);
            push_text(&mut t, line.as_str());
            proof {
                reveal_strlit("\n");
                assert("\n"@ =~= seq!['\n']);
                assert(bytes_of(Seq::<char>::empty()) =~= Seq::<u8>::empty());
                assert(bytes_of(t@) =~= bytes_of(seq!['\n']) + lb);
            }
            Edit::insert(last.span.end, t)
        } else {
            let mut t = String::new();
            push_text(&mut t, line.as_str());
            push_text(&mut t, "\n");
            proof {
                reveal_strlit("\n");
                assert("\n"@ =~= seq!['\n']);
                assert(bytes_of(Seq::<char>::empty()) =~= Seq::<u8>::empty());
                assert(bytes_of(t@) =~= bytes_of(line@) + bytes_of(seq!['\n']));
                assert(new_decls@.map_values(|d: ModDecl| decl_view(d)).len() == new_decls@.len());
            }
            Edit::insert(0, t)
        };
        let mut v: Vec<SideEdit> = Vec::new();
        v.push(SideEdit { path: copy_path(&sites.old_parent), edit: Edit::delete(Span { start: ss, end: delete_end }) });
        v.push(SideEdit { path: copy_path(&sites.new_parent), edit: insert });
        proof {
            assert(bytes_of(Seq::<char>::empty()) =~= Seq::<u8>::empty());
            assert(bs@ == b);
            let ghost line_b = moved_line(b, sym, sites.new_name@, match widen_to {
                Some(k) => modifier_text(k),
                None => None,
            });
            let ghost spec_insert = if nd.len() > 0 {
                (Span { start: nd.last().span.end, end: nd.last().span.end }, bytes_of(seq!['\n']) + line_b)
            } else {
                (Span { start: 0, end: 0 }, line_b + bytes_of(seq!['\n']))
            };
            assert(insert.span == spec_insert.0);
            assert(bytes_of(insert.replacement@) == spec_insert.1);
            let ghost expected = seq![
                (segs(sites.old_parent@), Span { start: ss, end: delete_end }, Seq::<u8>::empty()),
                (segs(sites.new_parent@), spec_insert.0, spec_insert.1),
            ];
            assert(v@.map_values(|e: SideEdit| side_view(e)) =~= expected);
        }
        Ok(v)
    }
}

/// A symbol among a file's `mod` declarations is a module.
proof fn lemma_mod_decl_kind(b: Seq<u8>, ss: Seq<Symbol>, k: int)
    requires
        0 <= k < mod_decls_in(b, ss).len(),
    ensures
        is_mod_decl(b, mod_decls_in(b, ss)[k]),
    decreases ss.len(),
{
    let r = mod_decls_in(b, ss.drop_last());
    if k < r.len() {
        lemma_mod_decl_kind(b, ss.drop_last(), k);
    }
}

// ---------------------------------------------------------------- groups

/// The bytes the leading white space of `s` takes.
pub open spec fn ws_width(s: Seq<char>) -> int {
    bytes_of(s).len() - bytes_of(skip_ws(s)).len()
}

/// Where the line holding byte `at` starts.
pub open spec fn line_start(b: Seq<u8>, at: int) -> int {
    match last_byte(b, at, 10) {
        Some(i) => i + 1,
        None => 0,
    }
}

/// What to delete to take the entry `item` out of its list: the entry and
/// the comma after it with the spaces that follow, the whole line when
/// the entry has a line to itself, or, for the last entry, the comma
/// before it.
pub open spec fn removal_of(b: Seq<u8>, item: Span) -> Span {
    let after = decode_utf8(b.skip(item.end as int));
    let lead = skip_ws(after);
    if lead.len() > 0 && lead[0] == ',' {
        let comma_end = item.end + ws_width(after) + 1;
        let ls = line_start(b, item.start as int);
        let owns_line = trim(decode_utf8(b.subrange(ls, item.start as int))).len() == 0;
        let keep = Span { start: item.start, end: (comma_end + blanks(b, comma_end)) as usize };
        match first_byte(b, comma_end, 10) {
            Some(nl) => if trim(decode_utf8(b.subrange(comma_end, nl))).len() == 0 && owns_line {
                Span { start: ls as usize, end: (nl + 1) as usize }
            } else {
                keep
            },
            None => keep,
        }
    } else {
        let t = trim_end(decode_utf8(b.take(item.start as int)));
        if t.len() > 0 && t.last() == ',' {
            Span { start: (bytes_of(t).len() - 1) as usize, end: item.end }
        } else {
            item
        }
    }
}

/// The encoding of `,` and of `\n`.
proof fn lemma_ascii_encodings(s: Seq<char>)
    ensures
        s.len() > 0 && s[0] == ',' ==> bytes_of(s).len() > 0 && bytes_of(s)[0] == 44,
        s.len() > 0 && s.last() == ',' ==> bytes_of(s).len() > 0 && bytes_of(s).last() == 44,
{
    assert((44u32 & 0x7Fu32) == 44u32) by (bit_vector);
    if s.len() > 0 && s[0] == ',' {
        char_u32_cast(s[0], s[0] as u32);
        assert(encode_scalar(s[0] as u32) =~= seq![44u8]);
    }
    if s.len() > 0 && s.last() == ',' {
        let t = seq![s.last()];
        char_u32_cast(t[0], t[0] as u32);
        assert(encode_scalar(t[0] as u32) =~= seq![44u8]);
        assert(t.drop_first() =~= Seq::<char>::empty());
        assert(bytes_of(Seq::<char>::empty()) =~= Seq::<u8>::empty());
        assert(bytes_of(t) =~= seq![44u8]);
        assert(s =~= s.drop_last() + t);
        lemma_bytes_concat(s.drop_last(), t);
    }
}

/// What to delete to take `item` out of its list.
fn item_removal(text: &str, item: Span) -> (r: Span)
    requires
        piece(bytes_of(text@), item.start as int, item.end as int),
        bytes_of(text@).len() <= usize::MAX,
    ensures
        r == removal_of(bytes_of(text@), item),
{
    let ghost b = bytes_of(text@);
    let bs = text.as_bytes();
    let n = bs.len();
    proof {
        encode_utf8_valid_utf8(text@);
        is_char_boundary_start_end_of_seq(b);
        assert(bs@ == b);
    }
    let after = slice_of(text, item.end, n);
    let ac = chars_of(after);
    proof {
        encode_utf8_decode_utf8(after@);
        assert(b.subrange(item.end as int, n as int) =~= b.skip(item.end as int));
        assert(ac@ =~= ac@.take(0) + ac@);
    }
    let k = leading_ws(&ac);
    proof {
        assert(ac@ =~= ac@.take(k as int) + ac@.skip(k as int));
        lemma_bytes_concat(ac@.take(k as int), ac@.skip(k as int));
    }
    let ws = prefix_width(&ac, k);
    if k < ac.len() && ac[k] == ',' {
        proof {
            lemma_ascii_encodings(ac@.skip(k as int));
            assert(bytes_of(after@) == b.subrange(item.end as int, n as int));
            assert(bytes_of(ac@)[ws as int] == bytes_of(ac@.skip(k as int))[0]);
            assert(b[item.end + ws] == bytes_of(ac@)[ws as int]);
            lemma_ascii_boundaries(b, item.end + ws);
        }
        let comma_end = item.end + ws + 1;
        let ls = match rfind_byte(bs, item.start, 10) {
            Some(i) => {
                proof {
                    lemma_last_byte_found(b, item.start as int, 10);
                    lemma_ascii_boundaries(b, i as int);
                }
                i + 1
            },
            None => 0,
        };
        let line = slice_of(text, ls, item.start);
        proof {
            encode_utf8_decode_utf8(line@);
        }
        let owns = is_blank(line);
        match find_byte(bs, comma_end, 10) {
            Some(nl) => {
                proof {
                    lemma_first_byte_found(b, comma_end as int, 10);
                    lemma_ascii_boundaries(b, nl as int);
                }
                let mid = slice_of(text, comma_end, nl);
                proof {
                    encode_utf8_decode_utf8(mid@);
                }
                if is_blank(mid) && owns {
                    return Span { start: ls, end: nl + 1 };
                }
            },
            None => {},
        }
        let spaces = count_blanks(bs, comma_end);
        return Span { start: item.start, end: comma_end + spaces };
    }
    let before = slice_of(text, 0, item.start);
    let bc = chars_of(before);
    proof {
        encode_utf8_decode_utf8(before@);
        assert(b.subrange(0, item.start as int) =~= b.take(item.start as int));
        assert(bc@ =~= bc@.take(bc@.len() as int));
    }
    let kept = kept_before_ws(&bc);
    if kept > 0 && bc[kept - 1] == ',' {
        proof {
            assert(bc@ =~= bc@.take(kept as int) + bc@.skip(kept as int));
            lemma_bytes_concat(bc@.take(kept as int), bc@.skip(kept as int));
            lemma_ascii_encodings(bc@.take(kept as int));
        }
        let w = prefix_width(&bc, kept);
        return Span { start: w - 1, end: item.end };
    }
    item
}

proof fn lemma_first_byte_found(b: Seq<u8>, from: int, x: u8)
    ensures
        first_byte(b, from, x) matches Some(i) ==> from <= i < b.len() && b[i] == x,
    decreases b.len() - from,
{
    if 0 <= from < b.len() && b[from] != x {
        lemma_first_byte_found(b, from + 1, x);
    }
}

proof fn lemma_last_byte_found(b: Seq<u8>, before: int, x: u8)
    ensures
        last_byte(b, before, x) matches Some(i) ==> 0 <= i < before && b[i] == x,
    decreases before,
{
    if 0 < before <= b.len() && b[before - 1] != x {
        lemma_last_byte_found(b, before - 1, x);
    }
}

/// Where `use ` first starts in the bytes `t`, from `i` on.
pub open spec fn find_use(t: Seq<u8>, i: int) -> Option<int>
    decreases t.len() - i,
{
    if i < 0 || i + 4 > t.len() {
        None
    } else if t[i] == 117 && t[i + 1] == 115 && t[i + 2] == 101 && t[i + 3] == 32 {
        Some(i)
    } else {
        find_use(t, i + 1)
    }
}

proof fn lemma_find_use_found(t: Seq<u8>, i: int)
    ensures
        find_use(t, i) matches Some(k) ==> i <= k && k + 4 <= t.len() && t[k] == 117 && t[k + 1] == 115 && t[k + 2]
            == 101 && t[k + 3] == 32,
    decreases t.len() - i,
{
    if 0 <= i && i + 4 <= t.len() && !(t[i] == 117 && t[i + 1] == 115 && t[i + 2] == 101 && t[i + 3] == 32) {
        lemma_find_use_found(t, i + 1);
    }
}

/// What a `use` statement starts with before `use `: its visibility.
pub open spec fn visibility_of(t: Seq<u8>) -> Seq<u8> {
    match find_use(t, 0) {
        Some(i) => t.take(i),
        None => seq![],
    }
}

/// A statement of its own for a path: the visibility, `use `, the path
/// and `;`.
pub open spec fn statement_for(vis: Seq<u8>, path: Seq<char>) -> Seq<u8> {
    vis + bytes_of("use "@) + bytes_of(path) + bytes_of(";"@)
}

/// The pieces joined by `sep`.
pub open spec fn joined_bytes(parts: Seq<Seq<u8>>, sep: Seq<u8>) -> Seq<u8>
    decreases parts.len(),
{
    if parts.len() == 0 {
        seq![]
    } else if parts.len() == 1 {
        parts[0]
    } else {
        joined_bytes(parts.drop_last(), sep) + sep + parts.last()
    }
}

/// Each piece after `lead`, one after the other.
pub open spec fn each_after(parts: Seq<Seq<u8>>, lead: Seq<u8>) -> Seq<u8>
    decreases parts.len(),
{
    if parts.len() == 0 {
        seq![]
    } else {
        each_after(parts.drop_last(), lead) + lead + parts.last()
    }
}

/// How many of the leaving entries sit in the statement's own list.
pub open spec fn top_count(ls: Seq<(ImportGroup, Seq<char>)>) -> nat
    decreases ls.len(),
{
    if ls.len() == 0 {
        0
    } else {
        top_count(ls.drop_last()) + if ls.last().0.top_level {
            1nat
        } else {
            0nat
        }
    }
}

/// How many entries the statement's own list holds, from the first
/// leaving entry that sits in it.
pub open spec fn first_top_items(ls: Seq<(ImportGroup, Seq<char>)>) -> Option<usize>
    decreases ls.len(),
{
    if ls.len() == 0 {
        None
    } else {
        let f = first_top_items(ls.drop_last());
        if f is Some {
            f
        } else if ls.last().0.top_level {
            Some(ls.last().0.items)
        } else {
            None
        }
    }
}

/// Spans ordered by start, then end.
pub open spec fn span_lt(a: Span, b: Span) -> bool {
    a.start < b.start || (a.start == b.start && a.end < b.end)
}

/// Where a span goes in `s`: before the first one after it.
pub open spec fn span_slot(s: Seq<Span>, x: Span) -> int
    decreases s.len(),
{
    if s.len() == 0 || span_lt(x, s[0]) {
        0
    } else {
        1 + span_slot(s.drop_first(), x)
    }
}

/// The spans in order.
pub open spec fn sorted_spans(s: Seq<Span>) -> Seq<Span>
    decreases s.len(),
{
    if s.len() == 0 {
        s
    } else {
        let t = sorted_spans(s.drop_last());
        t.insert(span_slot(t, s.last()), s.last())
    }
}

/// The span covering both.
pub open spec fn union(a: Span, b: Span) -> Span {
    Span {
        start: if a.start <= b.start {
            a.start
        } else {
            b.start
        },
        end: if a.end >= b.end {
            a.end
        } else {
            b.end
        },
    }
}

/// Ordered spans with those that touch or overlap merged.
pub open spec fn merged(s: Seq<Span>) -> Seq<Span>
    decreases s.len(),
{
    if s.len() == 0 {
        seq![]
    } else {
        let m = merged(s.drop_last());
        let x = s.last();
        if m.len() > 0 && m.last().end >= x.start {
            m.update(m.len() - 1, union(m.last(), x))
        } else {
            m.push(x)
        }
    }
}

/// The edits that take entries out of their `use` statement into
/// statements of their own, keeping its visibility and indentation: the
/// statement replaced by the new ones when every entry of its own list
/// leaves, else each entry deleted and the new statements put after it.
pub open spec fn leave_group_edits(b: Seq<u8>, statement: Span, ls: Seq<(ImportGroup, Seq<char>)>) -> Seq<(Span, Seq<u8>)> {
    let indent = b.subrange(line_start(b, statement.start as int), statement.start as int);
    let vis = visibility_of(b.subrange(statement.start as int, statement.end as int));
    let stmts = ls.map_values(|l: (ImportGroup, Seq<char>)| statement_for(vis, l.1));
    if first_top_items(ls) == Some(top_count(ls) as usize) {
        seq![(statement, joined_bytes(stmts, bytes_of("\n"@) + indent))]
    } else {
        merged(sorted_spans(ls.map_values(|l: (ImportGroup, Seq<char>)| removal_of(b, l.0.item)))).map_values(
            |x: Span| (x, Seq::<u8>::empty()),
        ).push((Span { start: statement.end, end: statement.end }, each_after(stmts, bytes_of("\n"@) + indent)))
    }
}

/// An entry leaving its group, with the path to write for it.
pub struct Leaving<'a> {
    pub group: &'a ImportGroup,
    pub path: String,
}

/// A leaving entry as values.
pub open spec fn leaving_view<'a>(l: Leaving<'a>) -> (ImportGroup, Seq<char>) {
    (*l.group, l.path@)
}

/// Where `use ` first starts among the bytes `from..to`.
fn find_use_in(b: &[u8], from: usize, to: usize) -> (r: Option<usize>)
    requires
        from <= to <= b@.len(),
    ensures
        match r {
            Some(i) => find_use(b@.subrange(from as int, to as int), 0) == Some(i - from) && from <= i && i + 4 <= to,
            None => find_use(b@.subrange(from as int, to as int), 0) is None,
        },
{
    let ghost t = b@.subrange(from as int, to as int);
    let mut i = from;
    while i < to && to - i >= 4
        invariant
            from <= i <= to <= b@.len(),
            t == b@.subrange(from as int, to as int),
            find_use(t, 0) == find_use(t, i - from),
        decreases to - i,
    {
        if b[i] == 117 && b[i + 1] == 115 && b[i + 2] == 101 && b[i + 3] == 32 {
            proof {
                assert(t[i - from] == b@[i as int]);
                assert(t[i - from + 1] == b@[i + 1]);
                assert(t[i - from + 2] == b@[i + 2]);
                assert(t[i - from + 3] == b@[i + 3]);
            }
            return Some(i);
        }
        proof {
            assert(t[i - from] == b@[i as int]);
            assert(t[i - from + 1] == b@[i + 1]);
            assert(t[i - from + 2] == b@[i + 2]);
            assert(t[i - from + 3] == b@[i + 3]);
        }
        i = i + 1;
    }
    None
}

/// The bytes of strings.
pub open spec fn bytes_each(ss: Seq<String>) -> Seq<Seq<u8>> {
    ss.map_values(|s: String| bytes_of(s@))
}

/// The strings joined by `sep`.
fn join_with(parts: &Vec<String>, sep: &str) -> (s: String)
    ensures
        bytes_of(s@) == joined_bytes(bytes_each(parts@), bytes_of(sep@)),
{
    let ghost ps = bytes_each(parts@);
    let mut s = String::new();
    let mut i: usize = 0;
    proof {
        assert(bytes_of(Seq::<char>::empty()) =~= Seq::<u8>::empty());
    }
    while i < parts.len()
        invariant
            ps == bytes_each(parts@),
            0 <= i <= parts@.len(),
            bytes_of(s@) == joined_bytes(ps.take(i as int), bytes_of(sep@)),
        decreases parts@.len() - i,
    {
        let ghost before = s@;
        if i > 0 {
            push_str(&mut s, sep);
        }
        let ghost mid = s@;
        push_str(&mut s, parts[i].as_str());
        proof {
            assert(ps.take(i + 1).drop_last() =~= ps.take(i as int));
            assert(ps.take(i + 1).last() == bytes_of(parts@[i as int]@));
            lemma_bytes_concat(mid, parts@[i as int]@);
            if i > 0 {
                lemma_bytes_concat(before, sep@);
            } else {
                assert(s@ =~= parts@[0]@);
                assert(ps.take(1) =~= seq![ps[0]]);
            }
        }
        i = i + 1;
    }
    proof {
        assert(ps.take(i as int) =~= ps);
    }
    s
}

/// Each string after `lead`, one after the other.
fn each_after_text(parts: &Vec<String>, lead: &str) -> (s: String)
    ensures
        bytes_of(s@) == each_after(bytes_each(parts@), bytes_of(lead@)),
{
    let ghost ps = bytes_each(parts@);
    let mut s = String::new();
    let mut i: usize = 0;
    proof {
        assert(bytes_of(Seq::<char>::empty()) =~= Seq::<u8>::empty());
        assert(ps.take(0) =~= Seq::<Seq<u8>>::empty());
    }
    while i < parts.len()
        invariant
            ps == bytes_each(parts@),
            0 <= i <= parts@.len(),
            bytes_of(s@) == each_after(ps.take(i as int), bytes_of(lead@)),
        decreases parts@.len() - i,
    {
        let ghost before = s@;
        push_str(&mut s, lead);
        let ghost mid = s@;
        push_str(&mut s, parts[i].as_str());
        proof {
            assert(ps.take(i + 1).drop_last() =~= ps.take(i as int));
            assert(ps.take(i + 1).last() == bytes_of(parts@[i as int]@));
            lemma_bytes_concat(before, lead@);
            lemma_bytes_concat(mid, parts@[i as int]@);
        }
        i = i + 1;
    }
    proof {
        assert(ps.take(i as int) =~= ps);
    }
    s
}

/// Where a span goes among ordered spans.
fn span_slot_of(s: &Vec<Span>, x: Span) -> (r: usize)
    ensures
        r as int == span_slot(s@, x),
        r <= s@.len(),
{
    let mut i: usize = 0;
    proof {
        assert(s@.skip(0) =~= s@);
    }
    while i < s.len() && !(x.start < s[i].start || (x.start == s[i].start && x.end < s[i].end))
        invariant
            0 <= i <= s@.len(),
            span_slot(s@, x) == i + span_slot(s@.skip(i as int), x),
        decreases s@.len() - i,
    {
        proof {
            assert(s@.skip(i as int)[0] == s@[i as int]);
            assert(s@.skip(i as int).drop_first() =~= s@.skip(i + 1));
        }
        i = i + 1;
    }
    proof {
        if i < s@.len() {
            assert(s@.skip(i as int)[0] == s@[i as int]);
        }
    }
    i
}

/// The spans in order.
fn sort_spans(s: &Vec<Span>) -> (r: Vec<Span>)
    ensures
        r@ == sorted_spans(s@),
{
    let mut r: Vec<Span> = Vec::new();
    let mut i: usize = 0;
    proof {
        assert(s@.take(0) =~= Seq::<Span>::empty());
    }
    while i < s.len()
        invariant
            0 <= i <= s@.len(),
            r@ == sorted_spans(s@.take(i as int)),
        decreases s@.len() - i,
    {
        let at = span_slot_of(&r, s[i]);
        r.insert(at, s[i]);
        proof {
            assert(s@.take(i + 1).drop_last() =~= s@.take(i as int));
            assert(s@.take(i + 1).last() == s@[i as int]);
        }
        i = i + 1;
    }
    proof {
        assert(s@.take(i as int) =~= s@);
    }
    r
}

/// Ordered spans with those that touch or overlap merged.
fn merge_spans(s: &Vec<Span>) -> (r: Vec<Span>)
    ensures
        r@ == merged(s@),
{
    let mut r: Vec<Span> = Vec::new();
    let mut i: usize = 0;
    proof {
        assert(s@.take(0) =~= Seq::<Span>::empty());
    }
    while i < s.len()
        invariant
            0 <= i <= s@.len(),
            r@ == merged(s@.take(i as int)),
        decreases s@.len() - i,
    {
        let x = s[i];
        proof {
            assert(s@.take(i + 1).drop_last() =~= s@.take(i as int));
            assert(s@.take(i + 1).last() == x);
        }
        let n = r.len();
        if n > 0 && r[n - 1].end >= x.start {
            let last = r[n - 1];
            let u = Span {
                start: if last.start <= x.start { last.start } else { x.start },
                end: if last.end >= x.end { last.end } else { x.end },
            };
            r.set(n - 1, u);
        } else {
            r.push(x);
        }
        i = i + 1;
    }
    proof {
        assert(s@.take(i as int) =~= s@);
    }
    r
}

/// The leaving entries' groups and paths fit the text: each entry is a
/// piece of it.
pub open spec fn leaving_fits(b: Seq<u8>, ls: Seq<(ImportGroup, Seq<char>)>) -> bool {
    forall|i: int| 0 <= i < ls.len() ==> piece(b, #[trigger] ls[i].0.item.start as int, ls[i].0.item.end as int)
}

/// Take the leaving entries out of their statement into statements of
/// their own.
fn leave_group(source: &str, statement: Span, leaving: &Vec<Leaving>) -> (r: Vec<Edit>)
    requires
        piece(bytes_of(source@), statement.start as int, statement.end as int),
        bytes_of(source@).len() <= usize::MAX,
        leaving_fits(bytes_of(source@), leaving@.map_values(|l: Leaving| leaving_view(l))),
    ensures
        r@.map_values(|e: Edit| edit_view(e)) == leave_group_edits(
            bytes_of(source@),
            statement,
            leaving@.map_values(|l: Leaving| leaving_view(l)),
        ),
{
    let ghost b = bytes_of(source@);
    let ghost ls = leaving@.map_values(|l: Leaving| leaving_view(l));
    let bs = source.as_bytes();
    proof {
        encode_utf8_valid_utf8(source@);
        is_char_boundary_start_end_of_seq(b);
        assert(bs@ == b);
    }
    let ls_start = match rfind_byte(bs, statement.start, 10) {
        Some(i) => {
            proof {
                lemma_last_byte_found(b, statement.start as int, 10);
                lemma_ascii_boundaries(b, i as int);
            }
            i + 1
        },
        None => 0,
    };
    let indent = slice_of(source, ls_start, statement.start);
    let vis: &str = match find_use_in(bs, statement.start, statement.end) {
        Some(i) => {
            proof {
                let t = b.subrange(statement.start as int, statement.end as int);
                lemma_find_use_found(t, 0);
                assert(t[i - statement.start] == b[i as int]);
                lemma_ascii_boundaries(b, i as int);
            }
            slice_of(source, statement.start, i)
        },
        None => "",
    };
    proof {
        reveal_strlit("");
        assert(bytes_of(""@) =~= Seq::<u8>::empty());
        let t = b.subrange(statement.start as int, statement.end as int);
        match find_use(t, 0) {
            Some(k) => {
                assert(t.take(k) =~= b.subrange(statement.start as int, statement.start + k));
            },
            None => {},
        }
        assert(bytes_of(vis@) == visibility_of(t));
    }
    let mut stmts: Vec<String> = Vec::new();
    let mut j: usize = 0;
    while j < leaving.len()
        invariant
            0 <= j <= leaving@.len(),
            ls == leaving@.map_values(|l: Leaving| leaving_view(l)),
            bytes_each(stmts@) == ls.take(j as int).map_values(|l: (ImportGroup, Seq<char>)| statement_for(bytes_of(vis@), l.1)),
        decreases leaving@.len() - j,
    {
        let mut t = owned(vis);
        push_str(&mut t, "use ");
        push_str(&mut t, leaving[j].path.as_str());
        push_str(&mut t, ";");
        proof {
            lemma_bytes_concat(vis@, "use "@);
            lemma_bytes_concat(vis@ + "use "@, leaving@[j as int].path@);
            lemma_bytes_concat(vis@ + "use "@ + leaving@[j as int].path@, ";"@);
            assert(t@ =~= vis@ + "use "@ + leaving@[j as int].path@ + ";"@);
        }
        let ghost before = stmts@;
        stmts.push(t);
        proof {
            assert(ls[j as int] == leaving_view(leaving@[j as int]));
            assert(bytes_each(stmts@) =~= bytes_each(before).push(bytes_of(t@)));
            assert(ls.take(j + 1) =~= ls.take(j as int).push(ls[j as int]));
        }
        j = j + 1;
    }
    proof {
        assert(ls.take(j as int) =~= ls);
    }
    let mut top: usize = 0;
    let mut first_items: Option<usize> = None;
    let mut k: usize = 0;
    proof {
        assert(ls.take(0) =~= Seq::<(ImportGroup, Seq<char>)>::empty());
    }
    while k < leaving.len()
        invariant
            0 <= k <= leaving@.len(),
            ls == leaving@.map_values(|l: Leaving| leaving_view(l)),
            top as nat == top_count(ls.take(k as int)),
            top <= k,
            first_items == first_top_items(ls.take(k as int)),
        decreases leaving@.len() - k,
    {
        proof {
            assert(ls.take(k + 1).drop_last() =~= ls.take(k as int));
            assert(ls.take(k + 1).last() == ls[k as int]);
            assert(ls[k as int] == leaving_view(leaving@[k as int]));
        }
        let g = leaving[k].group;
        if g.top_level {
            top = top + 1;
            if first_items.is_none() {
                first_items = Some(g.items);
            }
        }
        k = k + 1;
    }
    proof {
        assert(ls.take(k as int) =~= ls);
    }
    let mut sep = owned("\n");
    push_str(&mut sep, indent);
    proof {
        lemma_bytes_concat("\n"@, indent@);
        assert(bytes_of(indent@) == b.subrange(ls_start as int, statement.start as int));
        assert(ls_start as int == line_start(b, statement.start as int));
    }
    let mut edits: Vec<Edit> = Vec::new();
    if first_items == Some(top) {
        edits.push(Edit::replace(statement, join_with(&stmts, sep.as_str())));
        proof {
            assert(edits@.map_values(|e: Edit| edit_view(e)) =~= leave_group_edits(b, statement, ls));
        }
        return edits;
    }
    let mut removals: Vec<Span> = Vec::new();
    let mut m: usize = 0;
    while m < leaving.len()
        invariant
            0 <= m <= leaving@.len(),
            ls == leaving@.map_values(|l: Leaving| leaving_view(l)),
            b == bytes_of(source@),
            b.len() <= usize::MAX,
            leaving_fits(b, ls),
            removals@ == ls.take(m as int).map_values(|l: (ImportGroup, Seq<char>)| removal_of(b, l.0.item)),
        decreases leaving@.len() - m,
    {
        proof {
            assert(ls[m as int] == leaving_view(leaving@[m as int]));
            assert(piece(b, ls[m as int].0.item.start as int, ls[m as int].0.item.end as int));
        }
        removals.push(item_removal(source, leaving[m].group.item));
        proof {
            assert(ls.take(m + 1) =~= ls.take(m as int).push(ls[m as int]));
        }
        m = m + 1;
    }
    proof {
        assert(ls.take(m as int) =~= ls);
    }
    let spans = merge_spans(&sort_spans(&removals));
    let mut q: usize = 0;
    while q < spans.len()
        invariant
            0 <= q <= spans@.len(),
            edits@.map_values(|e: Edit| edit_view(e)) == spans@.take(q as int).map_values(|x: Span| (x, Seq::<u8>::empty())),
        decreases spans@.len() - q,
    {
        let ghost before_q = edits@.map_values(|e: Edit| edit_view(e));
        edits.push(Edit::delete(spans[q]));
        proof {
            assert(bytes_of(Seq::<char>::empty()) =~= Seq::<u8>::empty());
            assert(edits@.map_values(|e: Edit| edit_view(e)) =~= before_q.push((spans@[q as int], Seq::<u8>::empty())));
            assert(spans@.take(q + 1) =~= spans@.take(q as int).push(spans@[q as int]));
            assert(edits@.map_values(|e: Edit| edit_view(e)) =~= spans@.take(q + 1).map_values(|x: Span| (x, Seq::<u8>::empty())));
        }
        q = q + 1;
    }
    proof {
        assert(spans@.take(q as int) =~= spans@);
    }
    let ghost before = edits@.map_values(|e: Edit| edit_view(e));
    edits.push(Edit::insert(statement.end, each_after_text(&stmts, sep.as_str())));
    proof {
        assert(edits@.map_values(|e: Edit| edit_view(e)) =~= before.push((Span { start: statement.end, end: statement.end }, each_after(bytes_each(stmts@), bytes_of(sep@)))));
        assert(edits@.map_values(|e: Edit| edit_view(e)) =~= leave_group_edits(b, statement, ls));
    }
    edits
}

// -------------------------------------------------------------- regroup

/// The rest of `target` under what the group's prefix means from `file`,
/// spelled with `::`, when the target still sits under it.
pub open spec fn rest_within(project: Project, file: Seq<Seq<char>>, group: ImportGroup, target: (Seq<char>, Seq<Seq<char>>)) -> Option<Seq<char>> {
    match resolved(project, file, group.prefix.head, segs(group.prefix.segments@)) {
        None => None,
        Some(p) => match strip(target, p.0, p.1) {
            Some(rest) => if rest.len() > 0 {
                Some(join(rest, "::"@))
            } else {
                None
            },
            None => None,
        },
    }
}

/// The edits of the entries that stay in their group: each rewritten in
/// place to the rest of its target under the prefix.
pub open spec fn staying_edits(project: Project, file: Seq<Seq<char>>, es: Seq<(ImportRef, Address)>) -> Seq<(Span, Seq<u8>)>
    decreases es.len(),
{
    if es.len() == 0 {
        seq![]
    } else {
        let before = staying_edits(project, file, es.drop_last());
        let (import, target) = es.last();
        match import.group {
            Some(g) => match rest_within(project, file, g, target@) {
                Some(rest) => before.push((import.span, bytes_of(rest))),
                None => before,
            },
            None => before,
        }
    }
}

/// The entries that leave their group, each with the path to write for
/// it: its target rendered in the entry's style, then the entry's tail
/// (` as Alias`, `::*`, `::{self, X}`).
pub open spec fn leaving_entries(project: Project, file: Seq<Seq<char>>, b: Seq<u8>, es: Seq<(ImportRef, Address)>) -> Seq<(ImportGroup, Seq<char>)>
    decreases es.len(),
{
    if es.len() == 0 {
        seq![]
    } else {
        let before = leaving_entries(project, file, b, es.drop_last());
        let (import, target) = es.last();
        match import.group {
            Some(g) => match rest_within(project, file, g, target@) {
                Some(_) => before,
                None => {
                    let p = rendered(project, file, target@, import.path.head);
                    before.push((g, scoped_spelling(p.0, p.1) + decode_utf8(b.subrange(import.span.end as int, g.item.end as int))))
                },
            },
            None => before,
        }
    }
}

/// The edits that rebase the entries of one grouped `use` statement:
/// entries still under the group's prefix are rewritten in place, the
/// others leave into statements of their own.
pub open spec fn regrouped(project: Project, file: Seq<Seq<char>>, b: Seq<u8>, es: Seq<(ImportRef, Address)>) -> Seq<(Span, Seq<u8>)> {
    if es.len() == 0 || es[0].0.group is None {
        seq![]
    } else {
        let statement = es[0].0.group->0.statement;
        let leaving = leaving_entries(project, file, b, es);
        staying_edits(project, file, es) + if leaving.len() > 0 {
            leave_group_edits(b, statement, leaving)
        } else {
            seq![]
        }
    }
}

/// An entry's facts fit the text: the entry and its tail are pieces of it.
pub open spec fn entry_fits(b: Seq<u8>, e: (ImportRef, Address)) -> bool {
    match e.0.group {
        Some(g) => piece(b, e.0.span.end as int, g.item.end as int) && piece(b, g.item.start as int, g.item.end as int),
        None => true,
    }
}

/// What a regroup hands back: the edits.
#[derive(Debug, Clone, PartialEq, Eq)]
pub struct Regrouped {
    pub edits: Vec<Edit>,
}

proof fn lemma_leaving_fits(project: Project, file: Seq<Seq<char>>, b: Seq<u8>, es: Seq<(ImportRef, Address)>)
    requires
        forall|i: int| 0 <= i < es.len() ==> entry_fits(b, #[trigger] es[i]),
    ensures
        leaving_fits(b, leaving_entries(project, file, b, es)),
    decreases es.len(),
{
    if es.len() > 0 {
        assert forall|i: int| 0 <= i < es.drop_last().len() implies entry_fits(b, #[trigger] es.drop_last()[i]) by {
            assert(es.drop_last()[i] == es[i]);
        }
        lemma_leaving_fits(project, file, b, es.drop_last());
        assert(entry_fits(b, es[es.len() - 1]));
    }
}

impl RustSurgery {
    /// The rest of `target` under what the group's prefix means from `file`.
    fn rest_within_group(project: &Project, file: &Vec<String>, group: &ImportGroup, target: &Address) -> (r: Option<String>)
        ensures
            match r {
                Some(s) => rest_within(*project, segs(file@), *group, target@) == Some(s@),
                None => rest_within(*project, segs(file@), *group, target@) is None,
            },
    {
        let prefix_now = match RustLayout::resolve(project, file, &group.prefix) {
            Some(p) => p,
            None => return None,
        };
        match strip_under(target, &prefix_now.package, &prefix_now.path) {
            Some(rest) => {
                if rest.len() > 0 {
                    Some(joined(&rest, "::"))
                } else {
                    None
                }
            },
            None => None,
        }
    }

    /// Rebase the entries of one grouped `use` statement, given each entry
    /// with the address it now points at.
    pub fn regroup(project: &Project, from: &Vec<String>, source: &str, entries: &Vec<(ImportRef, Address)>) -> (r: Regrouped)
        requires
            bytes_of(source@).len() <= usize::MAX,
            forall|i: int| 0 <= i < entries@.len() ==> entry_fits(bytes_of(source@), #[trigger] entries@[i]),
            entries@.len() > 0 && entries@[0].0.group is Some ==> {
                let st = entries@[0].0.group->0.statement;
                piece(bytes_of(source@), st.start as int, st.end as int)
            },
        ensures
            r.edits@.map_values(|e: Edit| edit_view(e)) == regrouped(*project, segs(from@), bytes_of(source@), entries@),
    {
        let ghost b = bytes_of(source@);
        let ghost es = entries@;
        if entries.len() == 0 || entries[0].0.group.is_none() {
            let r = Regrouped { edits: Vec::new() };
            proof {
                assert(r.edits@.map_values(|e: Edit| edit_view(e)) =~= Seq::<(Span, Seq<u8>)>::empty());
            }
            return r;
        }
        let statement = match &entries[0].0.group {
            Some(g) => g.statement,
            None => Span { start: 0, end: 0 },
        };
        let mut edits: Vec<Edit> = Vec::new();
        let mut leaving: Vec<Leaving> = Vec::new();
        let mut i: usize = 0;
        proof {
            assert(es.take(0) =~= Seq::<(ImportRef, Address)>::empty());
            assert(edits@.map_values(|e: Edit| edit_view(e)) =~= Seq::<(Span, Seq<u8>)>::empty());
            assert(leaving@.map_values(|l: Leaving| leaving_view(l)) =~= Seq::<(ImportGroup, Seq<char>)>::empty());
        }
        while i < entries.len()
            invariant
                0 <= i <= es.len(),
                es == entries@,
                b == bytes_of(source@),
                forall|j: int| 0 <= j < es.len() ==> entry_fits(b, #[trigger] es[j]),
                edits@.map_values(|e: Edit| edit_view(e)) == staying_edits(*project, segs(from@), es.take(i as int)),
                leaving@.map_values(|l: Leaving| leaving_view(l)) == leaving_entries(*project, segs(from@), b, es.take(i as int)),
            decreases es.len() - i,
        {
            let (import, target) = (&entries[i].0, &entries[i].1);
            proof {
                assert(es.take(i + 1).drop_last() =~= es.take(i as int));
                assert(es.take(i + 1).last() == es[i as int]);
                assert(entry_fits(b, es[i as int]));
            }
            match &import.group {
                Some(group) => {
                    match Self::rest_within_group(project, from, group, target) {
                        Some(rest) => {
                            let ghost before = edits@.map_values(|e: Edit| edit_view(e));
                            edits.push(Edit::replace(import.span, rest));
                            proof {
                                assert(edits@.map_values(|e: Edit| edit_view(e)) =~= before.push((import.span, bytes_of(rest@))));
                            }
                        },
                        None => {
                            let p = Self::render(project, from, target, &import.path);
                            let mut path = p.scoped();
                            let tail = slice_of(source, import.span.end, group.item.end);
                            let ghost head = path@;
                            push_str(&mut path, tail);
                            proof {
                                encode_utf8_decode_utf8(tail@);
                            }
                            let ghost before = leaving@.map_values(|l: Leaving| leaving_view(l));
                            leaving.push(Leaving { group, path });
                            proof {
                                assert(leaving@.map_values(|l: Leaving| leaving_view(l)) =~= before.push((*group, head + tail@)));
                            }
                        },
                    }
                },
                None => {},
            }
            i = i + 1;
        }
        proof {
            assert(es.take(i as int) =~= es);
            lemma_leaving_fits(*project, segs(from@), b, es);
        }
        if leaving.len() > 0 {
            let more = leave_group(source, statement, &leaving);
            let ghost before = edits@.map_values(|e: Edit| edit_view(e));
            let mut k: usize = 0;
            while k < more.len()
                invariant
                    0 <= k <= more@.len(),
                    edits@.map_values(|e: Edit| edit_view(e)) == before + more@.take(k as int).map_values(|e: Edit| edit_view(e)),
                decreases more@.len() - k,
            {
                let ghost now = edits@.map_values(|e: Edit| edit_view(e));
                edits.push(copy_edit(&more[k]));
                proof {
                    assert(edits@.map_values(|e: Edit| edit_view(e)) =~= now.push(edit_view(more@[k as int])));
                    assert(more@.take(k + 1).map_values(|e: Edit| edit_view(e)) =~= more@.take(k as int).map_values(|e: Edit| edit_view(e)).push(edit_view(more@[k as int])));
                }
                k = k + 1;
            }
            proof {
                assert(more@.take(k as int) =~= more@);
            }
        } else {
            proof {
                assert(edits@.map_values(|e: Edit| edit_view(e)) =~= staying_edits(*project, segs(from@), es) + Seq::<(Span, Seq<u8>)>::empty());
            }
        }
        Regrouped { edits }
    }
}

/// A copy of an edit.
fn copy_edit(e: &Edit) -> (r: Edit)
    ensures
        edit_view(r) == edit_view(*e),
{
    Edit { span: e.span, replacement: e.replacement.clone() }
}

// ------------------------------------------------------------ insertions

/// The end of the last byte range of a declaring import, the greatest.
pub open spec fn max_declaring_end(is: Seq<ImportRef>) -> Option<usize>
    decreases is.len(),
{
    if is.len() == 0 {
        None
    } else {
        let m = max_declaring_end(is.drop_last());
        let x = is.last();
        if !x.declares {
            m
        } else {
            match m {
                Some(e) => if x.span.end > e {
                    Some(x.span.end)
                } else {
                    Some(e)
                },
                None => Some(x.span.end),
            }
        }
    }
}

/// `t` starts with `p`.
pub open spec fn starts_with_text(t: Seq<char>, p: Seq<char>) -> bool {
    p.len() <= t.len() && t.take(p.len() as int) == p
}

/// Where the lines from `from` on that must stay first end: inner docs
/// (`//!`), inner attributes (`#![..]`) and blank lines.
pub open spec fn header_end(b: Seq<u8>, from: int) -> int
    decreases b.len() - from,
{
    if from < 0 || from >= b.len() {
        from
    } else {
        let line_end = match first_byte(b, from, 10) {
            Some(i) => i + 1,
            None => b.len() as int,
        };
        let t = skip_ws(decode_utf8(b.subrange(from, line_end)));
        if from < line_end <= b.len() && (starts_with_text(t, "//!"@) || starts_with_text(t, "#!["@) || t.len() == 0) {
            header_end(b, line_end)
        } else {
            from
        }
    }
}

/// Where a new `use` line goes in a file: after the line of the last
/// `use`, or, with none, after the leading `//!` docs and `#![..]`
/// attributes, which must stay first.
pub open spec fn insertion_point(p: Parsed) -> int {
    let b = bytes_of(p.source@);
    match max_declaring_end(p.facts.imports@) {
        Some(end) => match first_byte(b, end as int, 10) {
            Some(nl) => nl + 1,
            None => b.len() as int,
        },
        None => header_end(b, 0),
    }
}

/// Whether the characters start with `p`.
fn starts_with_chars(t: &Vec<char>, from: usize, p: &str) -> (r: bool)
    requires
        from <= t@.len(),
    ensures
        r == starts_with_text(t@.skip(from as int), p@),
{
    let pc = chars_of(p);
    if t.len() - from < pc.len() {
        return false;
    }
    let r = crate::text::spells(t, from, from + pc.len(), p);
    proof {
        assert(t@.skip(from as int).take(pc@.len() as int) =~= t@.subrange(from as int, from + pc@.len()));
    }
    r
}

impl RustSurgery {
    /// Where a new `use` line goes in a parsed file.
    pub fn import_insertion(file: &Parsed) -> (r: usize)
        requires
            bytes_of(file.source@).len() <= usize::MAX,
            forall|i: int| 0 <= i < file.facts.imports@.len() && (#[trigger] file.facts.imports@[i]).declares ==> piece(
                bytes_of(file.source@),
                file.facts.imports@[i].span.end as int,
                file.facts.imports@[i].span.end as int,
            ),
        ensures
            r as int == insertion_point(*file),
    {
        let ghost b = bytes_of(file.source@);
        let text = file.source.as_str();
        let bs = text.as_bytes();
        let n = bs.len();
        proof {
            encode_utf8_valid_utf8(file.source@);
            is_char_boundary_start_end_of_seq(b);
            assert(bs@ == b);
        }
        let imports = &file.facts.imports;
        let mut best: Option<usize> = None;
        let mut i: usize = 0;
        proof {
            assert(imports@.take(0) =~= Seq::<ImportRef>::empty());
        }
        while i < imports.len()
            invariant
                0 <= i <= imports@.len(),
                best == max_declaring_end(imports@.take(i as int)),
                best matches Some(e) ==> exists|j: int| 0 <= j < imports@.len() && imports@[j].declares && imports@[j].span.end == e,
            decreases imports@.len() - i,
        {
            proof {
                assert(imports@.take(i + 1).drop_last() =~= imports@.take(i as int));
                assert(imports@.take(i + 1).last() == imports@[i as int]);
            }
            let x = &imports[i];
            if x.declares {
                best = match best {
                    Some(e) => if x.span.end > e {
                        Some(x.span.end)
                    } else {
                        Some(e)
                    },
                    None => Some(x.span.end),
                };
            }
            i = i + 1;
        }
        proof {
            assert(imports@.take(i as int) =~= imports@);
        }
        match best {
            Some(end) => {
                proof {
                    let j = choose|j: int| 0 <= j < imports@.len() && imports@[j].declares && imports@[j].span.end == end;
                    assert(piece(b, imports@[j].span.end as int, imports@[j].span.end as int));
                }
                return match find_byte(bs, end, 10) {
                    Some(nl) => {
                        proof {
                            lemma_first_byte_found(b, end as int, 10);
                        }
                        nl + 1
                    },
                    None => n,
                };
            },
            None => {},
        }
        let mut offset: usize = 0;
        while offset < n
            invariant
                offset <= n == b.len(),
                bs@ == b,
                bytes_of(text@) == b,
                valid_utf8(b),
                is_char_boundary(b, offset as int),
                is_char_boundary(b, n as int),
                header_end(b, 0) == header_end(b, offset as int),
                insertion_point(*file) == header_end(b, 0),
                b == bytes_of(file.source@),
            decreases n - offset,
        {
            let line_end = match find_byte(bs, offset, 10) {
                Some(k) => {
                    proof {
                        lemma_first_byte_found(b, offset as int, 10);
                        lemma_ascii_boundaries(b, k as int);
                    }
                    k + 1
                },
                None => n,
            };
            let line = slice_of(text, offset, line_end);
            let c = chars_of(line);
            proof {
                encode_utf8_decode_utf8(line@);
            }
            let k = leading_ws(&c);
            proof {
                assert(c@ == decode_utf8(b.subrange(offset as int, line_end as int)));
                assert(skip_ws(c@) == c@.skip(k as int));
            }
            if starts_with_chars(&c, k, "//!") || starts_with_chars(&c, k, "#![") || k == c.len() {
                offset = line_end;
            } else {
                proof {
                    assert(c@.skip(k as int).len() != 0);
                    assert(header_end(b, offset as int) == offset);
                }
                return offset;
            }
        }
        offset
    }
}

} // verus!
