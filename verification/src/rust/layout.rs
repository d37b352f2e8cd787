//! Cargo layout: how Rust files and paths map onto crates and modules.
//!
//! A file's address is its crate, named as `use` paths name it (the lib
//! name, or the package name with `-` as `_`), and its place under that
//! crate's `src/`: `src/a/b.rs` and `src/a/b/mod.rs` are both `a::b`. Import
//! paths starting with `crate`, `self` or `super` resolve against the file's
//! own crate; a path starting with another crate's name resolves into that
//! crate, through the dependency the file's crate declares under that name;
//! anything else is left alone. Paths are workspace-relative, written as
//! their segments, and nothing here touches a file system.

use vstd::prelude::*;

use crate::paths::{concat, copy_path, holds, joined, is_prefix, is_up, same_path, segs, skip, starts_with, up};
use crate::typescript::{Head, ModulePath};
use crate::text::{chars_of, join, owned, push_char, push_str, spells, str_eq, string_of};

verus! {

// ------------------------------------------------------------------ names

/// Where the last `.` of a name is, or `-1` when it has none.
pub open spec fn last_dot(s: Seq<char>) -> int
    decreases s.len(),
{
    if s.len() == 0 {
        -1
    } else if s.last() == '.' {
        s.len() - 1
    } else {
        last_dot(s.drop_last())
    }
}

/// A file name's extension: what follows its last `.`, unless that dot
/// opens the name (`.hidden` has none).
pub open spec fn extension_of(name: Seq<char>) -> Option<Seq<char>> {
    let i = last_dot(name);
    if i > 0 {
        Some(name.skip(i + 1))
    } else {
        None
    }
}

/// A file name without its extension and the dot before it.
pub open spec fn stem_of(name: Seq<char>) -> Seq<char> {
    let i = last_dot(name);
    if i > 0 {
        name.take(i)
    } else {
        name
    }
}

/// The last segment, unless the path is empty or ends in `..`.
pub open spec fn file_name(p: Seq<Seq<char>>) -> Option<Seq<char>> {
    if p.len() > 0 && !is_up(p.last()) {
        Some(p.last())
    } else {
        None
    }
}

/// The extension of the path's file name.
pub open spec fn path_extension(p: Seq<Seq<char>>) -> Option<Seq<char>> {
    match file_name(p) {
        Some(n) => extension_of(n),
        None => None,
    }
}

/// The path with its file name's extension set to `ext` (removed when `ext`
/// is empty); a path without a file name is left as it is.
pub open spec fn with_extension(p: Seq<Seq<char>>, ext: Seq<char>) -> Seq<Seq<char>> {
    match file_name(p) {
        Some(n) => p.drop_last().push(
            if ext.len() == 0 {
                stem_of(n)
            } else {
                stem_of(n) + seq!['.'] + ext
            },
        ),
        None => p,
    }
}

/// A name with every trailing `.rs` taken off.
pub open spec fn trim_rs(s: Seq<char>) -> Seq<char>
    decreases s.len(),
{
    if s.len() >= 3 && s.skip(s.len() - 3) == ".rs"@ {
        trim_rs(s.take(s.len() - 3))
    } else {
        s
    }
}

/// Where the last `.` of these characters is.
fn last_dot_in(c: &Vec<char>) -> (r: Option<usize>)
    ensures
        match r {
            Some(i) => i as int == last_dot(c@),
            None => last_dot(c@) == -1,
        },
        r matches Some(i) ==> i < c@.len() && c@[i as int] == '.',
{
    let mut k = c.len();
    proof {
        assert(c@.take(k as int) =~= c@);
    }
    while k > 0
        invariant
            k <= c@.len(),
            last_dot(c@) == last_dot(c@.take(k as int)),
            c@.take(k as int).len() == k,
        decreases k,
    {
        proof {
            assert(c@.take(k as int).drop_last() =~= c@.take(k - 1));
        }
        if c[k - 1] == '.' {
            return Some(k - 1);
        }
        k = k - 1;
    }
    None
}

/// The extension of a file name.
pub fn extension(name: &str) -> (r: Option<String>)
    ensures
        match r {
            Some(e) => extension_of(name@) == Some(e@),
            None => extension_of(name@) is None,
        },
{
    let c = chars_of(name);
    let n = c.len();
    match last_dot_in(&c) {
        Some(i) => {
            if i > 0 {
                let e = string_of(&c, i + 1, n);
                proof {
                    assert(c@.subrange(i + 1, c@.len() as int) =~= c@.skip(i + 1));
                }
                Some(e)
            } else {
                None
            }
        },
        None => None,
    }
}

/// A file name without its extension.
pub fn stem(name: &str) -> (r: String)
    ensures
        r@ == stem_of(name@),
{
    let c = chars_of(name);
    match last_dot_in(&c) {
        Some(i) => {
            if i > 0 {
                let s = string_of(&c, 0, i);
                proof {
                    assert(c@.subrange(0, i as int) =~= c@.take(i as int));
                }
                s
            } else {
                string_of(&c, 0, c.len())
            }
        },
        None => {
            let s = string_of(&c, 0, c.len());
            proof {
                assert(c@.subrange(0, c@.len() as int) =~= c@);
            }
            s
        },
    }
}

/// The path's file name.
pub fn file_name_of(p: &Vec<String>) -> (r: Option<&String>)
    ensures
        match r {
            Some(n) => file_name(segs(p@)) == Some(n@),
            None => file_name(segs(p@)) is None,
        },
{
    let n = p.len();
    if n > 0 && !up(p[n - 1].as_str()) {
        Some(&p[n - 1])
    } else {
        None
    }
}

/// The extension of the path's file name.
pub fn path_extension_of(p: &Vec<String>) -> (r: Option<String>)
    ensures
        match r {
            Some(e) => path_extension(segs(p@)) == Some(e@),
            None => path_extension(segs(p@)) is None,
        },
{
    match file_name_of(p) {
        Some(n) => extension(n.as_str()),
        None => None,
    }
}

/// The path with its extension set to `ext`.
pub fn set_extension(p: &Vec<String>, ext: &str) -> (r: Vec<String>)
    ensures
        segs(r@) == with_extension(segs(p@), ext@),
{
    let mut r = copy_path(p);
    match file_name_of(p) {
        Some(n) => {
            let mut name = stem(n.as_str());
            let ghost st = name@;
            if chars_of(ext).len() != 0 {
                push_char(&mut name, '.');
                push_str(&mut name, ext);
                proof {
                    assert(name@ =~= st + seq!['.'] + ext@);
                }
            }
            let ghost before = segs(r@);
            r.pop();
            r.push(name);
            proof {
                assert(segs(r@) =~= before.drop_last().push(name@));
            }
            r
        },
        None => r,
    }
}

/// A name with every trailing `.rs` taken off.
fn trimmed_rs(name: &str) -> (r: String)
    ensures
        r@ == trim_rs(name@),
{
    let c = chars_of(name);
    let mut end = c.len();
    proof {
        assert(c@.take(end as int) =~= c@);
    }
    while end >= 3 && spells(&c, end - 3, end, ".rs")
        invariant
            end <= c@.len(),
            trim_rs(c@) == trim_rs(c@.take(end as int)),
        decreases end,
    {
        proof {
            let t = c@.take(end as int);
            assert(t.skip(t.len() - 3) =~= c@.subrange(end - 3, end as int));
            assert(t.take(t.len() - 3) =~= c@.take(end - 3));
        }
        end = end - 3;
    }
    let r = string_of(&c, 0, end);
    proof {
        let t = c@.take(end as int);
        assert(c@.subrange(0, end as int) =~= t);
        if t.len() >= 3 {
            assert(t.skip(t.len() - 3) =~= c@.subrange(end - 3, end as int));
        }
    }
    r
}


// --------------------------------------------------------------- projects

/// A module: the crate that holds it, named as `use` paths name it, and its
/// path of module names under the crate's root.
#[derive(Debug, Clone, PartialEq, Eq)]
pub struct Address {
    pub package: String,
    pub path: Vec<String>,
}

impl View for Address {
    type V = (Seq<char>, Seq<Seq<char>>);

    open spec fn view(&self) -> (Seq<char>, Seq<Seq<char>>) {
        (self.package@, segs(self.path@))
    }
}

/// A crate's dependency: the name its code uses, and the package that name
/// stands for.
#[derive(Debug, Clone, PartialEq, Eq)]
pub struct Dependency {
    pub used_as: String,
    pub package: String,
}

/// A crate of the workspace: the name `use` paths give it, its package
/// name, the directory of its manifest, and what it depends on.
#[derive(Debug, Clone, PartialEq, Eq)]
pub struct Package {
    pub id: String,
    pub name: String,
    pub root: Vec<String>,
    pub dependencies: Vec<Dependency>,
}

/// What the layout knows of a project: its crates and the path of every
/// file.
#[derive(Debug, Clone, PartialEq, Eq)]
pub struct Project {
    pub packages: Vec<Package>,
    pub files: Vec<Vec<String>>,
}

/// Why a path has no place, or a move cannot be made.
#[derive(Debug, Clone, PartialEq, Eq)]
pub enum ResolveError {
    /// The path is no module of any crate.
    NotAddressable(Vec<String>),
    /// A crate root or a `mod.rs` is what holds a module, and does not move.
    Root(Vec<String>),
    /// The two paths lie in different crates.
    CrossProject { from: Vec<String>, to: Vec<String> },
    /// No file declares the module being moved.
    NoDeclaringFile { name: String },
    /// No file may receive the moved module's declaration.
    NoParentFile { module: String, candidates: Vec<Vec<String>>, declaration: String },
    /// A file the move needs was not handed over.
    Missing(Vec<String>),
    /// The parent holds no `mod` line for the module.
    NoDeclaration { declaration: String, parent: Vec<String> },
}

/// A file or directory placed in its crate: the crate's `src` and the
/// module.
#[derive(Debug, Clone, PartialEq, Eq)]
pub struct Placed {
    pub src: Vec<String>,
    pub module: Address,
}

/// The Cargo layout.
#[derive(Debug, Clone, Copy, Default)]
pub struct RustLayout;

/// The index of the crate whose root holds `path`, among the first `n`:
/// the deepest such root, the first of equally deep ones.
pub open spec fn deepest(pkgs: Seq<Package>, path: Seq<Seq<char>>, n: int) -> Option<int>
    decreases n,
{
    if n <= 0 {
        None
    } else {
        let best = deepest(pkgs, path, n - 1);
        let root = segs(pkgs[n - 1].root@);
        if is_prefix(root, path) && match best {
            Some(b) => segs(pkgs[b].root@).len() < root.len(),
            None => true,
        } {
            Some(n - 1)
        } else {
            best
        }
    }
}

/// The crate a path lies in.
pub open spec fn containing(pkgs: Seq<Package>, path: Seq<Seq<char>>) -> Option<int> {
    deepest(pkgs, path, pkgs.len() as int)
}

/// Directories under `src` that hold targets of their own, not modules.
pub open spec fn not_module_dir(s: Seq<char>) -> bool {
    s == "bin"@ || s == "tests"@ || s == "examples"@ || s == "benches"@
}

/// The module a path under `src` names: the crate root for `lib.rs` and
/// `main.rs` right under it, the directory for a `mod.rs`, else the
/// directories and the file name without `.rs`.
pub open spec fn module_of(rel: Seq<Seq<char>>) -> Seq<Seq<char>> {
    let parts = rel.drop_last();
    let last = rel.last();
    if (last == "lib.rs"@ || last == "main.rs"@) && parts.len() == 0 {
        parts
    } else if last == "mod.rs"@ {
        parts
    } else {
        parts.push(trim_rs(last))
    }
}

/// Where a `.rs` file, or a directory standing for the module it holds,
/// is placed: its crate's `src`, the crate, and the module's path; `None`
/// when it is no module.
pub open spec fn placed(pkgs: Seq<Package>, path: Seq<Seq<char>>) -> Option<(Seq<Seq<char>>, Seq<char>, Seq<Seq<char>>)> {
    if path_extension(path) is Some && path_extension(path) != Some("rs"@) {
        None
    } else {
        match containing(pkgs, path) {
            None => None,
            Some(i) => {
                let src = segs(pkgs[i].root@).push("src"@);
                if !is_prefix(src, path) {
                    None
                } else {
                    let rel = path.skip(src.len() as int);
                    if rel.len() == 0 || not_module_dir(rel[0]) {
                        None
                    } else {
                        let m = module_of(rel);
                        if m.len() == 0 && path_extension(path) is None {
                            None
                        } else {
                            Some((src, pkgs[i].id@, m))
                        }
                    }
                }
            },
        }
    }
}

/// The placement of a value, as `placed` gives it.
pub open spec fn placement(p: Placed) -> (Seq<Seq<char>>, Seq<char>, Seq<Seq<char>>) {
    (segs(p.src@), p.module.package@, segs(p.module.path@))
}

/// The error that says a path is no module.
pub open spec fn not_addressable(e: ResolveError, path: Seq<Seq<char>>) -> bool {
    e matches ResolveError::NotAddressable(q) && segs(q@) == path
}

impl RustLayout {
    /// The index of the crate holding `path`.
    fn crate_of(pkgs: &Vec<Package>, path: &Vec<String>) -> (r: Option<usize>)
        ensures
            match r {
                Some(i) => containing(pkgs@, segs(path@)) == Some(i as int) && i < pkgs@.len(),
                None => containing(pkgs@, segs(path@)) is None,
            },
    {
        let mut best: Option<usize> = None;
        let mut best_len: usize = 0;
        let mut i: usize = 0;
        while i < pkgs.len()
            invariant
                0 <= i <= pkgs@.len(),
                match best {
                    Some(b) => deepest(pkgs@, segs(path@), i as int) == Some(b as int) && b < i
                        && best_len == pkgs@[b as int].root@.len(),
                    None => deepest(pkgs@, segs(path@), i as int) is None,
                },
            decreases pkgs@.len() - i,
        {
            let root = &pkgs[i].root;
            if starts_with(root, path) && (best.is_none() || best_len < root.len()) {
                best = Some(i);
                best_len = root.len();
            }
            i = i + 1;
        }
        best
    }

    /// The crate a `.rs` file or a directory belongs to, and its module:
    /// `src/a/b.rs`, `src/a/b/mod.rs` and `src/a/b/` are all `a::b` of
    /// their crate.
    pub fn place(project: &Project, path: &Vec<String>) -> (r: Result<Placed, ResolveError>)
        ensures
            match r {
                Ok(p) => placed(project.packages@, segs(path@)) == Some(placement(p)),
                Err(e) => placed(project.packages@, segs(path@)) is None && not_addressable(e, segs(path@)),
            },
    {
        let ghost p = segs(path@);
        let ext = path_extension_of(path);
        let rs = match &ext {
            Some(e) => str_eq(e.as_str(), "rs"),
            None => true,
        };
        if !rs {
            return Err(ResolveError::NotAddressable(copy_path(path)));
        }
        let i = match Self::crate_of(&project.packages, path) {
            Some(i) => i,
            None => {
                return Err(ResolveError::NotAddressable(copy_path(path)));
            },
        };
        let package = &project.packages[i];
        let mut src = copy_path(&package.root);
        src.push(owned("src"));
        proof {
            assert(segs(src@) =~= segs(package.root@).push("src"@));
        }
        if !starts_with(&src, path) {
            return Err(ResolveError::NotAddressable(copy_path(path)));
        }
        let mut parts = skip(path, src.len());
        let ghost rel = segs(parts@);
        let n = parts.len();
        if n == 0 {
            return Err(ResolveError::NotAddressable(copy_path(path)));
        }
        let first = parts[0].as_str();
        if str_eq(first, "bin") || str_eq(first, "tests") || str_eq(first, "examples") || str_eq(first, "benches") {
            return Err(ResolveError::NotAddressable(copy_path(path)));
        }
        let last = parts.pop().unwrap();
        proof {
            assert(segs(parts@) =~= rel.drop_last());
        }
        let root_file = str_eq(last.as_str(), "lib.rs") || str_eq(last.as_str(), "main.rs");
        if root_file && parts.len() == 0 {
        } else if str_eq(last.as_str(), "mod.rs") {
        } else {
            let ghost before = segs(parts@);
            parts.push(trimmed_rs(last.as_str()));
            proof {
                assert(segs(parts@) =~= before.push(trim_rs(last@)));
            }
        }
        if parts.len() == 0 && ext.is_none() {
            return Err(ResolveError::NotAddressable(copy_path(path)));
        }
        Ok(Placed { src, module: Address { package: package.id.clone(), path: parts } })
    }
}

// ------------------------------------------------------------- candidates

/// The paths of the project's files.
pub open spec fn files_of(p: Project) -> Seq<Seq<Seq<char>>> {
    p.files@.map_values(|f: Vec<String>| segs(f@))
}

/// The files that may declare a module, in the order they are looked for:
/// `src/lib.rs` before `src/main.rs` for the crate root, `a/b.rs` before
/// `a/b/mod.rs` for `a::b`.
pub open spec fn candidates_in(src: Seq<Seq<char>>, module: Seq<Seq<char>>) -> Seq<Seq<Seq<char>>> {
    if module.len() == 0 {
        seq![src.push("lib.rs"@), src.push("main.rs"@)]
    } else {
        let dir = src + module;
        seq![with_extension(dir, "rs"@), dir.push("mod.rs"@)]
    }
}

/// The first of `cs` that is one of `files`.
pub open spec fn first_held(cs: Seq<Seq<Seq<char>>>, files: Seq<Seq<Seq<char>>>) -> Option<Seq<Seq<char>>>
    decreases cs.len(),
{
    if cs.len() == 0 {
        None
    } else if files.contains(cs[0]) {
        Some(cs[0])
    } else {
        first_held(cs.drop_first(), files)
    }
}

/// Some file of `files` lies under the directory `dir`.
pub open spec fn has_under(files: Seq<Seq<Seq<char>>>, dir: Seq<Seq<char>>) -> bool {
    exists|i: int| 0 <= i < files.len() && is_prefix(dir, files[i]) && files[i].len() > dir.len()
}

/// The other half of a module: the directory `a/` for `a.rs` when a file
/// lies under it, the file `a.rs` for `a/` when the project has it.
pub open spec fn other_half(files: Seq<Seq<Seq<char>>>, path: Seq<Seq<char>>) -> Option<Seq<Seq<char>>> {
    if path_extension(path) is Some {
        let dir = with_extension(path, Seq::empty());
        if has_under(files, dir) {
            Some(dir)
        } else {
            None
        }
    } else {
        let file = with_extension(path, "rs"@);
        if files.contains(file) {
            Some(file)
        } else {
            None
        }
    }
}

/// The module a path of segments stands for, its parent dropped.
pub open spec fn parent_of(m: Seq<Seq<char>>) -> Option<Seq<Seq<char>>> {
    if m.len() > 0 {
        Some(m.drop_last())
    } else {
        None
    }
}

/// Paths joined with `::`, after `crate`, `self`, each `super`, `Self` or
/// the empty root segment that the head stands for.
pub open spec fn scoped_spelling(head: Head, names: Seq<Seq<char>>) -> Seq<char> {
    let lead: Seq<Seq<char>> = match head {
        Head::Package => seq!["crate"@],
        Head::Here => seq!["self"@],
        Head::Up(n) => Seq::new(n as nat, |i: int| "super"@),
        Head::SelfType => seq!["Self"@],
        Head::Root => seq![Seq::empty()],
        Head::Named => Seq::empty(),
    };
    join(lead + names, "::"@)
}

/// A `mod` line for `name`.
pub open spec fn mod_line(name: Seq<char>) -> Seq<char> {
    "mod "@ + name + ";"@
}

/// Why a move is refused, as values.
pub enum Refusal {
    NotAddressable(Seq<Seq<char>>),
    Root(Seq<Seq<char>>),
    CrossProject(Seq<Seq<char>>, Seq<Seq<char>>),
    NoDeclaringFile(Seq<char>),
    NoParentFile(Seq<char>, Seq<Seq<Seq<char>>>, Seq<char>),
    Missing(Seq<Seq<char>>),
    NoDeclaration(Seq<char>, Seq<Seq<char>>),
}

impl View for ResolveError {
    type V = Refusal;

    open spec fn view(&self) -> Refusal {
        match self {
            ResolveError::NotAddressable(p) => Refusal::NotAddressable(segs(p@)),
            ResolveError::Root(p) => Refusal::Root(segs(p@)),
            ResolveError::CrossProject { from, to } => Refusal::CrossProject(segs(from@), segs(to@)),
            ResolveError::NoDeclaringFile { name } => Refusal::NoDeclaringFile(name@),
            ResolveError::NoParentFile { module, candidates, declaration } => Refusal::NoParentFile(
                module@,
                candidates@.map_values(|c: Vec<String>| segs(c@)),
                declaration@,
            ),
            ResolveError::Missing(p) => Refusal::Missing(segs(p@)),
            ResolveError::NoDeclaration { declaration, parent } => Refusal::NoDeclaration(declaration@, segs(parent@)),
        }
    }
}

/// The two files a module move edits, and the names involved.
#[derive(Debug, Clone, PartialEq, Eq)]
pub struct MoveSites {
    pub old_parent: Vec<String>,
    pub new_parent: Vec<String>,
    pub old_name: String,
    pub new_name: String,
}

impl View for MoveSites {
    type V = (Seq<Seq<char>>, Seq<Seq<char>>, Seq<char>, Seq<char>);

    open spec fn view(&self) -> Self::V {
        (segs(self.old_parent@), segs(self.new_parent@), self.old_name@, self.new_name@)
    }
}

/// A file name that holds a crate root or a directory's module.
pub open spec fn is_root_file(n: Option<Seq<char>>) -> bool {
    n == Some("lib.rs"@) || n == Some("main.rs"@) || n == Some("mod.rs"@)
}

/// Everything about a module move that paths alone decide: the file's
/// role, the crate, both parents and both names.
pub open spec fn move_sites_of(project: Project, from: Seq<Seq<char>>, to: Seq<Seq<char>>) -> Result<(Seq<Seq<char>>, Seq<Seq<char>>, Seq<char>, Seq<char>), Refusal> {
    let pk = project.packages@;
    let files = files_of(project);
    match placed(pk, from) {
        None => Err(Refusal::NotAddressable(from)),
        Some(pf) => match placed(pk, to) {
            None => Err(Refusal::NotAddressable(to)),
            Some(pt) => if is_root_file(file_name(from)) {
                Err(Refusal::Root(from))
            } else if pf.0 != pt.0 {
                Err(Refusal::CrossProject(from, to))
            } else {
                match (file_name(from), file_name(to)) {
                    (None, _) => Err(Refusal::NotAddressable(from)),
                    (Some(_), None) => Err(Refusal::NotAddressable(to)),
                    (Some(fname), Some(tname)) => {
                        let old_name = stem_of(fname);
                        let new_name = stem_of(tname);
                        let old_parent = match parent_of(pf.2) {
                            Some(m) => first_held(candidates_in(pf.0, m), files),
                            None => None,
                        };
                        let npm = match parent_of(pt.2) {
                            Some(m) => m,
                            None => Seq::empty(),
                        };
                        match old_parent {
                            None => Err(Refusal::NoDeclaringFile(mod_line(old_name))),
                            Some(op) => match first_held(candidates_in(pt.0, npm), files) {
                                None => Err(
                                    Refusal::NoParentFile(
                                        scoped_spelling(Head::Package, npm),
                                        candidates_in(pt.0, npm),
                                        mod_line(new_name),
                                    ),
                                ),
                                Some(np) => Ok((op, np, old_name, new_name)),
                            },
                        }
                    },
                }
            },
        },
    }
}

/// The first of `cs` that the project holds.
fn first_in(files: &Vec<Vec<String>>, cs: &Vec<Vec<String>>) -> (r: Option<Vec<String>>)
    ensures
        match r {
            Some(f) => first_held(cs@.map_values(|c: Vec<String>| segs(c@)), files@.map_values(|f: Vec<String>| segs(f@))) == Some(segs(f@)),
            None => first_held(cs@.map_values(|c: Vec<String>| segs(c@)), files@.map_values(|f: Vec<String>| segs(f@))) is None,
        },
{
    let ghost all = cs@.map_values(|c: Vec<String>| segs(c@));
    let ghost fs = files@.map_values(|f: Vec<String>| segs(f@));
    let mut i: usize = 0;
    proof {
        assert(all.skip(0) =~= all);
    }
    while i < cs.len()
        invariant
            0 <= i <= cs@.len(),
            all == cs@.map_values(|c: Vec<String>| segs(c@)),
            fs == files@.map_values(|f: Vec<String>| segs(f@)),
            first_held(all, fs) == first_held(all.skip(i as int), fs),
        decreases cs@.len() - i,
    {
        let ghost rest = all.skip(i as int);
        proof {
            assert(rest[0] == segs(cs@[i as int]@));
            assert(rest.drop_first() =~= all.skip(i + 1));
        }
        if holds(files, &cs[i]) {
            proof {
                let j = choose|j: int| 0 <= j < files@.len() && segs(#[trigger] files@[j]@) == segs(cs@[i as int]@);
                assert(fs[j] == rest[0]);
            }
            return Some(copy_path(&cs[i]));
        }
        proof {
            assert forall|j: int| 0 <= j < fs.len() implies fs[j] != rest[0] by {
                assert(fs[j] == segs(files@[j]@));
            }
        }
        i = i + 1;
    }
    proof {
        assert(all.skip(i as int).len() == 0);
    }
    None
}

/// One path with `name` after it.
fn pushed(p: &Vec<String>, name: &str) -> (r: Vec<String>)
    ensures
        segs(r@) == segs(p@).push(name@),
{
    let mut r = copy_path(p);
    let ghost before = segs(r@);
    r.push(owned(name));
    proof {
        assert(segs(r@) =~= before.push(name@));
    }
    r
}

impl RustLayout {
    /// The files that may declare `module` under `src`, in the order they
    /// are looked for.
    pub fn candidates_for(src: &Vec<String>, module: &Vec<String>) -> (r: Vec<Vec<String>>)
        ensures
            r@.map_values(|c: Vec<String>| segs(c@)) == candidates_in(segs(src@), segs(module@)),
    {
        let mut r: Vec<Vec<String>> = Vec::new();
        if module.len() == 0 {
            r.push(pushed(src, "lib.rs"));
            r.push(pushed(src, "main.rs"));
        } else {
            let dir = concat(src, module);
            r.push(set_extension(&dir, "rs"));
            r.push(pushed(&dir, "mod.rs"));
        }
        proof {
            assert(r@.map_values(|c: Vec<String>| segs(c@)) =~= candidates_in(segs(src@), segs(module@)));
        }
        r
    }

    /// The file declaring `module`, if the project has it.
    pub fn file_for(project: &Project, src: &Vec<String>, module: &Vec<String>) -> (r: Option<Vec<String>>)
        ensures
            match r {
                Some(f) => first_held(candidates_in(segs(src@), segs(module@)), files_of(*project)) == Some(segs(f@)),
                None => first_held(candidates_in(segs(src@), segs(module@)), files_of(*project)) is None,
            },
    {
        let cs = Self::candidates_for(src, module);
        first_in(&project.files, &cs)
    }
}

/// Paths spelled with `::`, as Rust writes them.
pub fn spell_scoped(head: Head, names: &Vec<String>) -> (s: String)
    ensures
        s@ == scoped_spelling(head, segs(names@)),
{
    let mut parts: Vec<String> = Vec::new();
    let ghost lead: Seq<Seq<char>> = match head {
        Head::Package => seq!["crate"@],
        Head::Here => seq!["self"@],
        Head::Up(n) => Seq::new(n as nat, |i: int| "super"@),
        Head::SelfType => seq!["Self"@],
        Head::Root => seq![Seq::empty()],
        Head::Named => Seq::empty(),
    };
    match head {
        Head::Package => parts.push(owned("crate")),
        Head::Here => parts.push(owned("self")),
        Head::SelfType => parts.push(owned("Self")),
        Head::Root => parts.push(String::new()),
        Head::Named => {},
        Head::Up(n) => {
            let mut k: u8 = 0;
            while k < n
                invariant
                    0 <= k <= n,
                    lead == Seq::new(n as nat, |i: int| "super"@),
                    segs(parts@) == lead.take(k as int),
                decreases n - k,
            {
                let ghost before = segs(parts@);
                parts.push(owned("super"));
                proof {
                    assert(segs(parts@) =~= before.push("super"@));
                    assert(lead.take(k + 1) =~= lead.take(k as int).push("super"@));
                }
                k = k + 1;
            }
            proof {
                assert(lead.take(k as int) =~= lead);
            }
        },
    }
    proof {
        assert(segs(parts@) =~= lead);
    }
    let ghost names_v = segs(names@);
    let mut i: usize = 0;
    while i < names.len()
        invariant
            names_v == segs(names@),
            0 <= i <= names_v.len(),
            segs(parts@) == lead + names_v.take(i as int),
        decreases names_v.len() - i,
    {
        let ghost before = segs(parts@);
        parts.push(names[i].clone());
        proof {
            assert(segs(parts@) =~= before.push(names_v[i as int]));
            assert(lead + names_v.take(i + 1) =~= (lead + names_v.take(i as int)).push(names_v[i as int]));
        }
        i = i + 1;
    }
    proof {
        assert(names_v.take(i as int) =~= names_v);
    }
    joined(&parts, "::")
}

/// A `mod` line for `name`.
pub(crate) fn mod_line_for(name: &str) -> (s: String)
    ensures
        s@ == mod_line(name@),
{
    let mut s = owned("mod ");
    push_str(&mut s, name);
    push_str(&mut s, ";");
    s
}

/// The path without its last segment, or `None` for the empty path.
fn parent_path(p: &Vec<String>) -> (r: Option<Vec<String>>)
    ensures
        match r {
            Some(q) => parent_of(segs(p@)) == Some(segs(q@)),
            None => parent_of(segs(p@)) is None,
        },
{
    if p.len() == 0 {
        return None;
    }
    let mut q = copy_path(p);
    q.pop();
    proof {
        assert(segs(q@) =~= segs(p@).drop_last());
    }
    Some(q)
}

/// Whether some file lies under the directory `dir`.
fn has_file_under(files: &Vec<Vec<String>>, dir: &Vec<String>) -> (r: bool)
    ensures
        r == has_under(files@.map_values(|f: Vec<String>| segs(f@)), segs(dir@)),
{
    let ghost fs = files@.map_values(|f: Vec<String>| segs(f@));
    let mut i: usize = 0;
    while i < files.len()
        invariant
            0 <= i <= files@.len(),
            fs == files@.map_values(|f: Vec<String>| segs(f@)),
            forall|j: int| 0 <= j < i ==> !(is_prefix(segs(dir@), fs[j]) && fs[j].len() > segs(dir@).len()),
        decreases files@.len() - i,
    {
        if starts_with(dir, &files[i]) && files[i].len() > dir.len() {
            proof {
                assert(is_prefix(segs(dir@), fs[i as int]) && fs[i as int].len() > segs(dir@).len());
            }
            return true;
        }
        i = i + 1;
    }
    false
}

impl RustLayout {
    /// The stem of a path's file name, which names the module it holds.
    pub fn stem(path: &Vec<String>) -> (r: Result<String, ResolveError>)
        ensures
            match r {
                Ok(s) => file_name(segs(path@)) matches Some(n) && s@ == stem_of(n),
                Err(e) => file_name(segs(path@)) is None && e@ == Refusal::NotAddressable(segs(path@)),
            },
    {
        match file_name_of(path) {
            Some(n) => Ok(stem(n.as_str())),
            None => Err(ResolveError::NotAddressable(copy_path(path))),
        }
    }

    /// The other half of a module: `a/` for `a.rs`, `a.rs` for `a/`.
    fn other_half(project: &Project, path: &Vec<String>) -> (r: Option<Vec<String>>)
        ensures
            match r {
                Some(h) => other_half(files_of(*project), segs(path@)) == Some(segs(h@)),
                None => other_half(files_of(*project), segs(path@)) is None,
            },
    {
        if path_extension_of(path).is_some() {
            let dir = set_extension(path, "");
            proof {
                reveal_strlit("");
                assert(""@ =~= Seq::<char>::empty());
            }
            if has_file_under(&project.files, &dir) {
                Some(dir)
            } else {
                None
            }
        } else {
            let file = set_extension(path, "rs");
            if holds(&project.files, &file) {
                proof {
                    let j = choose|j: int| 0 <= j < project.files@.len() && segs(#[trigger] project.files@[j]@) == segs(file@);
                    assert(files_of(*project)[j] == segs(file@));
                }
                Some(file)
            } else {
                proof {
                    assert forall|j: int| 0 <= j < files_of(*project).len() implies files_of(*project)[j] != segs(file@) by {
                        assert(files_of(*project)[j] == segs(project.files@[j]@));
                    }
                }
                None
            }
        }
    }

    /// What moves along with `from`: the directory of a file module, or the
    /// file of a directory module, each paired with where it goes.
    pub fn companions(project: &Project, from: &Vec<String>, to: &Vec<String>) -> (r: Vec<(Vec<String>, Vec<String>)>)
        ensures
            match other_half(files_of(*project), segs(from@)) {
                Some(h) => r@.len() == 1 && segs(r@[0].0@) == h && segs(r@[0].1@) == with_extension(
                    segs(to@),
                    if path_extension(h) is Some {
                        "rs"@
                    } else {
                        Seq::empty()
                    },
                ),
                None => r@.len() == 0,
            },
    {
        let mut r: Vec<(Vec<String>, Vec<String>)> = Vec::new();
        match Self::other_half(project, from) {
            Some(half) => {
                if path_extension_of(&half).is_some() {
                    let dest = set_extension(to, "rs");
                    r.push((half, dest));
                } else {
                    let dest = set_extension(to, "");
                    proof {
                        reveal_strlit("");
                assert(""@ =~= Seq::<char>::empty());
                    }
                    r.push((half, dest));
                }
            },
            None => {},
        }
        r
    }

    /// Everything about a module move that paths alone decide: the file's
    /// role, the crate, and both parents. What remains, the `mod` line
    /// itself, needs the parents' text.
    pub fn move_sites(project: &Project, from: &Vec<String>, to: &Vec<String>) -> (r: Result<MoveSites, ResolveError>)
        ensures
            match r {
                Ok(s) => move_sites_of(*project, segs(from@), segs(to@)) == Ok::<_, Refusal>(s@),
                Err(e) => move_sites_of(*project, segs(from@), segs(to@)) == Err::<(Seq<Seq<char>>, Seq<Seq<char>>, Seq<char>, Seq<char>), _>(e@),
            },
    {
        let src_from = match Self::place(project, from) {
            Ok(p) => p,
            Err(e) => return Err(e),
        };
        let src_to = match Self::place(project, to) {
            Ok(p) => p,
            Err(e) => return Err(e),
        };
        let root = match file_name_of(from) {
            Some(n) => str_eq(n.as_str(), "lib.rs") || str_eq(n.as_str(), "main.rs") || str_eq(n.as_str(), "mod.rs"),
            None => false,
        };
        if root {
            return Err(ResolveError::Root(copy_path(from)));
        }
        if !same_path(&src_from.src, &src_to.src) {
            return Err(ResolveError::CrossProject { from: copy_path(from), to: copy_path(to) });
        }
        let old_name = match Self::stem(from) {
            Ok(s) => s,
            Err(e) => return Err(e),
        };
        let new_name = match Self::stem(to) {
            Ok(s) => s,
            Err(e) => return Err(e),
        };
        let old_parent = match parent_path(&src_from.module.path) {
            Some(m) => Self::file_for(project, &src_from.src, &m),
            None => None,
        };
        let old_parent = match old_parent {
            Some(p) => p,
            None => return Err(ResolveError::NoDeclaringFile { name: mod_line_for(old_name.as_str()) }),
        };
        let npm = match parent_path(&src_to.module.path) {
            Some(m) => m,
            None => Vec::new(),
        };
        proof {
            assert(segs(npm@) == match parent_of(segs(src_to.module.path@)) {
                Some(m) => m,
                None => Seq::<Seq<char>>::empty(),
            });
        }
        match Self::file_for(project, &src_to.src, &npm) {
            Some(np) => Ok(MoveSites { old_parent, new_parent: np, old_name, new_name }),
            None => Err(ResolveError::NoParentFile {
                module: spell_scoped(Head::Package, &npm),
                candidates: Self::candidates_for(&src_to.src, &npm),
                declaration: mod_line_for(new_name.as_str()),
            }),
        }
    }

    /// The files a module move edits: the old parent, then the new one when
    /// it is another file.
    pub fn touched_by_move(project: &Project, from: &Vec<String>, to: &Vec<String>) -> (r: Result<Vec<Vec<String>>, ResolveError>)
        ensures
            match r {
                Ok(t) => move_sites_of(*project, segs(from@), segs(to@)) matches Ok(s) && t@.map_values(|f: Vec<String>| segs(f@)) == if s.1 == s.0 {
                    seq![s.0]
                } else {
                    seq![s.0, s.1]
                },
                Err(e) => move_sites_of(*project, segs(from@), segs(to@)) == Err::<(Seq<Seq<char>>, Seq<Seq<char>>, Seq<char>, Seq<char>), _>(e@),
            },
    {
        let sites = match Self::move_sites(project, from, to) {
            Ok(s) => s,
            Err(e) => return Err(e),
        };
        let mut touched: Vec<Vec<String>> = Vec::new();
        let same = same_path(&sites.new_parent, &sites.old_parent);
        touched.push(sites.old_parent);
        if !same {
            touched.push(sites.new_parent);
        }
        proof {
            assert(touched@.map_values(|f: Vec<String>| segs(f@)) =~= if same {
                seq![segs(sites.old_parent@)]
            } else {
                seq![segs(sites.old_parent@), segs(sites.new_parent@)]
            });
        }
        Ok(touched)
    }
}

// -------------------------------------------------------------- resolving

/// The first crate, from the `i`-th on, that paths name `id`.
pub open spec fn index_with_id(pkgs: Seq<Package>, id: Seq<char>, i: int) -> Option<int>
    decreases pkgs.len() - i,
{
    if i < 0 || i >= pkgs.len() {
        None
    } else if pkgs[i].id@ == id {
        Some(i)
    } else {
        index_with_id(pkgs, id, i + 1)
    }
}

/// The first crate, from the `i`-th on, whose package is called `name`.
pub open spec fn index_named(pkgs: Seq<Package>, name: Seq<char>, i: int) -> Option<int>
    decreases pkgs.len() - i,
{
    if i < 0 || i >= pkgs.len() {
        None
    } else if pkgs[i].name@ == name {
        Some(i)
    } else {
        index_named(pkgs, name, i + 1)
    }
}

/// A package name as `use` paths write it: `-` as `_`.
pub open spec fn underscored(s: Seq<char>) -> Seq<char> {
    s.map_values(|c: char| if c == '-' { '_' } else { c })
}

/// The crate a dependency stands for: the workspace crate of that package
/// name, else the external crate by its own name.
pub open spec fn dep_target(pkgs: Seq<Package>, d: Dependency) -> Seq<char> {
    match index_named(pkgs, d.package@, 0) {
        Some(j) => pkgs[j].id@,
        None => underscored(d.package@),
    }
}

/// The first dependency, from the `i`-th on, used as `head`.
pub open spec fn dep_used_as(ds: Seq<Dependency>, head: Seq<char>, i: int) -> Option<int>
    decreases ds.len() - i,
{
    if i < 0 || i >= ds.len() {
        None
    } else if ds[i].used_as@ == head {
        Some(i)
    } else {
        dep_used_as(ds, head, i + 1)
    }
}

/// The first dependency, from the `i`-th on, that stands for `target`.
pub open spec fn dep_standing_for(pkgs: Seq<Package>, ds: Seq<Dependency>, target: Seq<char>, i: int) -> Option<int>
    decreases ds.len() - i,
{
    if i < 0 || i >= ds.len() {
        None
    } else if dep_target(pkgs, ds[i]) == target {
        Some(i)
    } else {
        dep_standing_for(pkgs, ds, target, i + 1)
    }
}

/// The crate that the crate `from` names `head`, through the dependency it
/// declares under that name.
pub open spec fn referent(pkgs: Seq<Package>, from: Seq<char>, head: Seq<char>) -> Option<Seq<char>> {
    match index_with_id(pkgs, from, 0) {
        None => None,
        Some(f) => match dep_used_as(pkgs[f].dependencies@, head, 0) {
            None => None,
            Some(d) => Some(dep_target(pkgs, pkgs[f].dependencies@[d])),
        },
    }
}

/// The name the crate `from` gives the crate `target`: the name of the
/// dependency standing for it, else the crate's own.
pub open spec fn name_for(pkgs: Seq<Package>, from: Seq<char>, target: Seq<char>) -> Seq<char> {
    match index_with_id(pkgs, from, 0) {
        None => target,
        Some(f) => match dep_standing_for(pkgs, pkgs[f].dependencies@, target, 0) {
            None => target,
            Some(d) => pkgs[f].dependencies@[d].used_as@,
        },
    }
}

/// Distinct dependencies of a crate go by distinct names.
pub open spec fn names_unique(ds: Seq<Dependency>) -> bool {
    forall|i: int, j: int| 0 <= i < j < ds.len() ==> ds[i].used_as@ != ds[j].used_as@
}

/// Crates every Rust file can name without a manifest saying so.
pub open spec fn sysroot(s: Seq<char>) -> bool {
    s == "std"@ || s == "core"@ || s == "alloc"@
}

/// What an import path written in `from` points at: from the file's crate
/// root for `crate`, its module for `self`, a parent for each `super`; a
/// bare first name is a child module when that module's file exists, else
/// another crate by the name this crate uses for it, or the standard
/// library. `None` for paths that point outside what the layout knows.
pub open spec fn resolved(project: Project, from: Seq<Seq<char>>, head: Head, segments: Seq<Seq<char>>) -> Option<(Seq<char>, Seq<Seq<char>>)> {
    let pkgs = project.packages@;
    match placed(pkgs, from) {
        None => None,
        Some((src, pid, m)) => match head {
            Head::Package => Some((pid, segments)),
            Head::Here => Some((pid, m + segments)),
            Head::Up(n) => if n <= m.len() {
                Some((pid, m.take(m.len() - n) + segments))
            } else {
                None
            },
            Head::SelfType | Head::Root => None,
            Head::Named => if segments.len() == 0 {
                None
            } else {
                let first = segments[0];
                if first_held(candidates_in(src, m.push(first)), files_of(project)) is Some {
                    Some((pid, m + segments))
                } else {
                    match referent(pkgs, pid, first) {
                        Some(id) => Some((id, segments.skip(1))),
                        None => if sysroot(first) {
                            Some((first, segments.skip(1)))
                        } else {
                            None
                        },
                    }
                }
            },
        },
    }
}

/// Among the first `n` crates, the one `deepest` picks holds the path, and
/// no crate among them holds it at a deeper root, nor one before it at as
/// deep a root; when it picks none, none of them holds the path.
proof fn lemma_deepest_holds(pkgs: Seq<Package>, path: Seq<Seq<char>>, n: int)
    requires
        0 <= n <= pkgs.len(),
    ensures
        match deepest(pkgs, path, n) {
            Some(i) => {
                &&& 0 <= i < n
                &&& is_prefix(segs(pkgs[i].root@), path)
                &&& forall|j: int| 0 <= j < n && #[trigger] is_prefix(segs(pkgs[j].root@), path)
                    ==> segs(pkgs[j].root@).len() <= segs(pkgs[i].root@).len()
                &&& forall|j: int| 0 <= j < i && #[trigger] is_prefix(segs(pkgs[j].root@), path)
                    ==> segs(pkgs[j].root@).len() < segs(pkgs[i].root@).len()
            },
            None => forall|j: int| 0 <= j < n ==> !#[trigger] is_prefix(segs(pkgs[j].root@), path),
        },
    decreases n,
{
    if n > 0 {
        lemma_deepest_holds(pkgs, path, n - 1);
    }
}

/// A path belongs to the crate whose root holds it most deeply: the crate
/// `containing` names holds the path, every crate holding it has a root no
/// deeper, and every crate listed before it has a shallower root; no crate
/// is named exactly when no root holds the path.
pub proof fn law_a_path_belongs_to_its_deepest_crate(pkgs: Seq<Package>, path: Seq<Seq<char>>)
    ensures
        match containing(pkgs, path) {
            Some(i) => {
                &&& 0 <= i < pkgs.len()
                &&& is_prefix(segs(pkgs[i].root@), path)
                &&& forall|j: int| 0 <= j < pkgs.len() && #[trigger] is_prefix(segs(pkgs[j].root@), path)
                    ==> segs(pkgs[j].root@).len() <= segs(pkgs[i].root@).len()
                &&& forall|j: int| 0 <= j < i && #[trigger] is_prefix(segs(pkgs[j].root@), path)
                    ==> segs(pkgs[j].root@).len() < segs(pkgs[i].root@).len()
            },
            None => forall|j: int| 0 <= j < pkgs.len() ==> !#[trigger] is_prefix(segs(pkgs[j].root@), path),
        },
{
    lemma_deepest_holds(pkgs, path, pkgs.len() as int);
}

/// Where `place` puts a path is in the crate whose root holds it most
/// deeply: its `src` is that crate's root and `src`, its crate is that
/// crate's, and the path lies under that `src`. A path under the `src` of
/// a crate whose root is deeper than every other root holding the path is
/// never placed in another crate.
pub proof fn law_placed_in_the_deepest_crate(pkgs: Seq<Package>, path: Seq<Seq<char>>, k: int)
    requires
        0 <= k < pkgs.len(),
        is_prefix(segs(pkgs[k].root@), path),
        forall|j: int| 0 <= j < pkgs.len() && j != k && #[trigger] is_prefix(segs(pkgs[j].root@), path)
            ==> segs(pkgs[j].root@).len() < segs(pkgs[k].root@).len(),
    ensures
        containing(pkgs, path) == Some(k),
        placed(pkgs, path) matches Some((src, id, m)) ==> src == segs(pkgs[k].root@).push("src"@) && id == pkgs[k].id@
            && is_prefix(src, path),
{
    lemma_deepest_holds(pkgs, path, pkgs.len() as int);
    let i = containing(pkgs, path)->0;
    assert(is_prefix(segs(pkgs[k].root@), path));
    if i != k {
        assert(is_prefix(segs(pkgs[i].root@), path));
    }
}

/// The standard library's crates, `std`, `core` and `alloc`, and no other,
/// are named by every file: a bare path whose first name is no child module
/// with a file and no dependency's used name points into that crate, at the
/// rest of the path, when that name is `std`, `core` or `alloc`, and at
/// nothing otherwise.
pub proof fn law_the_standard_crates_resolve(project: Project, from: Seq<Seq<char>>, segments: Seq<Seq<char>>)
    requires
        segments.len() > 0,
        placed(project.packages@, from) matches Some((src, pid, m)) && first_held(
            candidates_in(src, m.push(segments[0])),
            files_of(project),
        ) is None && referent(project.packages@, pid, segments[0]) is None,
    ensures
        resolved(project, from, Head::Named, segments) == if segments[0] == "std"@ || segments[0] == "core"@
            || segments[0] == "alloc"@ {
            Some((segments[0], segments.skip(1)))
        } else {
            None::<(Seq<char>, Seq<Seq<char>>)>
        },
{
}

/// The first crate paths name `id`.
fn package_index(pkgs: &Vec<Package>, id: &str) -> (r: Option<usize>)
    ensures
        match r {
            Some(i) => index_with_id(pkgs@, id@, 0) == Some(i as int) && i < pkgs@.len(),
            None => index_with_id(pkgs@, id@, 0) is None,
        },
{
    let mut i: usize = 0;
    while i < pkgs.len()
        invariant
            0 <= i <= pkgs@.len(),
            index_with_id(pkgs@, id@, 0) == index_with_id(pkgs@, id@, i as int),
        decreases pkgs@.len() - i,
    {
        if str_eq(pkgs[i].id.as_str(), id) {
            return Some(i);
        }
        i = i + 1;
    }
    None
}

/// The first crate whose package is called `name`.
fn named_index(pkgs: &Vec<Package>, name: &str) -> (r: Option<usize>)
    ensures
        match r {
            Some(i) => index_named(pkgs@, name@, 0) == Some(i as int) && i < pkgs@.len(),
            None => index_named(pkgs@, name@, 0) is None,
        },
{
    let mut i: usize = 0;
    while i < pkgs.len()
        invariant
            0 <= i <= pkgs@.len(),
            index_named(pkgs@, name@, 0) == index_named(pkgs@, name@, i as int),
        decreases pkgs@.len() - i,
    {
        if str_eq(pkgs[i].name.as_str(), name) {
            return Some(i);
        }
        i = i + 1;
    }
    None
}

/// `s` with each `-` written `_`.
pub fn underscore(s: &str) -> (r: String)
    ensures
        r@ == underscored(s@),
{
    let c = chars_of(s);
    let mut r = String::new();
    let mut i: usize = 0;
    while i < c.len()
        invariant
            0 <= i <= c@.len(),
            c@ == s@,
            r@ == underscored(c@.take(i as int)),
        decreases c@.len() - i,
    {
        push_char(&mut r, if c[i] == '-' { '_' } else { c[i] });
        proof {
            assert(underscored(c@.take(i + 1)) =~= underscored(c@.take(i as int)).push(
                if c@[i as int] == '-' { '_' } else { c@[i as int] },
            ));
        }
        i = i + 1;
    }
    proof {
        assert(c@.take(i as int) =~= c@);
    }
    r
}

/// The crate a dependency stands for.
fn dependency_target(pkgs: &Vec<Package>, d: &Dependency) -> (r: String)
    ensures
        r@ == dep_target(pkgs@, *d),
{
    match named_index(pkgs, d.package.as_str()) {
        Some(j) => pkgs[j].id.clone(),
        None => underscore(d.package.as_str()),
    }
}

/// The crate the crate `from` names `head`.
pub fn referent_of(pkgs: &Vec<Package>, from: &str, head: &str) -> (r: Option<String>)
    ensures
        match r {
            Some(id) => referent(pkgs@, from@, head@) == Some(id@),
            None => referent(pkgs@, from@, head@) is None,
        },
{
    let f = match package_index(pkgs, from) {
        Some(f) => f,
        None => return None,
    };
    let ds = &pkgs[f].dependencies;
    let mut i: usize = 0;
    while i < ds.len()
        invariant
            0 <= i <= ds@.len(),
            f < pkgs@.len(),
            index_with_id(pkgs@, from@, 0) == Some(f as int),
            ds@ == pkgs@[f as int].dependencies@,
            dep_used_as(ds@, head@, 0) == dep_used_as(ds@, head@, i as int),
        decreases ds@.len() - i,
    {
        if str_eq(ds[i].used_as.as_str(), head) {
            let t = dependency_target(pkgs, &ds[i]);
            proof {
                assert(dep_used_as(ds@, head@, i as int) == Some(i as int));
            }
            return Some(t);
        }
        i = i + 1;
    }
    None
}

/// The name the crate `from` gives the crate `target`.
pub fn name_for_crate(pkgs: &Vec<Package>, from: &str, target: &str) -> (r: String)
    ensures
        r@ == name_for(pkgs@, from@, target@),
{
    let f = match package_index(pkgs, from) {
        Some(f) => f,
        None => return owned(target),
    };
    let ds = &pkgs[f].dependencies;
    let mut i: usize = 0;
    while i < ds.len()
        invariant
            0 <= i <= ds@.len(),
            f < pkgs@.len(),
            index_with_id(pkgs@, from@, 0) == Some(f as int),
            ds@ == pkgs@[f as int].dependencies@,
            dep_standing_for(pkgs@, ds@, target@, 0) == dep_standing_for(pkgs@, ds@, target@, i as int),
        decreases ds@.len() - i,
    {
        let t = dependency_target(pkgs, &ds[i]);
        if str_eq(t.as_str(), target) {
            proof {
                assert(dep_standing_for(pkgs@, ds@, target@, i as int) == Some(i as int));
            }
            return ds[i].used_as.clone();
        }
        i = i + 1;
    }
    owned(target)
}

impl RustLayout {
    /// The module a path stands for.
    pub fn address(project: &Project, path: &Vec<String>) -> (r: Result<Address, ResolveError>)
        ensures
            match r {
                Ok(a) => placed(project.packages@, segs(path@)) matches Some(p) && a@ == (p.1, p.2),
                Err(e) => placed(project.packages@, segs(path@)) is None && e@ == Refusal::NotAddressable(segs(path@)),
            },
    {
        match Self::place(project, path) {
            Ok(p) => Ok(p.module),
            Err(e) => Err(e),
        }
    }

    /// The files that may declare the module at `address`, none when the
    /// project has no such crate.
    pub fn candidates(project: &Project, address: &Address) -> (r: Vec<Vec<String>>)
        ensures
            r@.map_values(|c: Vec<String>| segs(c@)) == match index_with_id(project.packages@, address.package@, 0) {
                Some(i) => candidates_in(segs(project.packages@[i].root@).push("src"@), segs(address.path@)),
                None => Seq::empty(),
            },
    {
        match package_index(&project.packages, address.package.as_str()) {
            Some(i) => {
                let src = pushed(&project.packages[i].root, "src");
                Self::candidates_for(&src, &address.path)
            },
            None => {
                let r: Vec<Vec<String>> = Vec::new();
                proof {
                    assert(r@.map_values(|c: Vec<String>| segs(c@)) =~= Seq::<Seq<Seq<char>>>::empty());
                }
                r
            },
        }
    }

    /// What an import path written in `from` points at.
    pub fn resolve(project: &Project, from: &Vec<String>, import: &ModulePath) -> (r: Option<Address>)
        ensures
            match r {
                Some(a) => resolved(*project, segs(from@), import.head, segs(import.segments@)) == Some(a@),
                None => resolved(*project, segs(from@), import.head, segs(import.segments@)) is None,
            },
    {
        let placed = match Self::place(project, from) {
            Ok(p) => p,
            Err(_) => return None,
        };
        let module = placed.module;
        let segments = &import.segments;
        match import.head {
            Head::Package => Some(Address { package: module.package, path: copy_path(segments) }),
            Head::Here => Some(Address { package: module.package, path: concat(&module.path, segments) }),
            Head::Up(n) => {
                let k = n as usize;
                if k > module.path.len() {
                    return None;
                }
                let mut base = copy_path(&module.path);
                let mut j: usize = 0;
                while j < k
                    invariant
                        k == n as usize,
                        k <= module.path@.len(),
                        0 <= j <= k,
                        segs(base@) == segs(module.path@).take(module.path@.len() - j),
                    decreases k - j,
                {
                    let ghost before = segs(base@);
                    base.pop();
                    proof {
                        assert(segs(base@) =~= before.drop_last());
                        assert(segs(module.path@).take(module.path@.len() - j - 1) =~= before.drop_last());
                    }
                    j = j + 1;
                }
                Some(Address { package: module.package, path: concat(&base, segments) })
            },
            Head::SelfType | Head::Root => None,
            Head::Named => {
                if segments.len() == 0 {
                    return None;
                }
                let first = segments[0].as_str();
                let child = pushed(&module.path, first);
                if Self::file_for(project, &placed.src, &child).is_some() {
                    return Some(Address { package: module.package, path: concat(&module.path, segments) });
                }
                let rest = skip(segments, 1);
                match referent_of(&project.packages, module.package.as_str(), first) {
                    Some(id) => Some(Address { package: id, path: rest }),
                    None => {
                        if str_eq(first, "std") || str_eq(first, "core") || str_eq(first, "alloc") {
                            Some(Address { package: owned(first), path: rest })
                        } else {
                            None
                        }
                    },
                }
            },
        }
    }
}

// ---------------------------------------------------------------- parsing

/// A `::` starts at `j`.
pub open spec fn colons_at(s: Seq<char>, j: int) -> bool {
    s[j] == ':' && s[j + 1] == ':'
}

/// Where the first `::` of `s` starts, or `-1`.
pub open spec fn first_colons(s: Seq<char>) -> int
    decreases s.len(),
{
    if s.len() < 2 {
        -1
    } else if s[0] == ':' && s[1] == ':' {
        0
    } else {
        let k = first_colons(s.drop_first());
        if k < 0 {
            -1
        } else {
            k + 1
        }
    }
}

/// The pieces of `s` between its `::` separators, taken from the left.
pub open spec fn split_colons(s: Seq<char>) -> Seq<Seq<char>>
    decreases s.len(),
{
    let i = first_colons(s);
    if 0 <= i && i + 2 <= s.len() {
        seq![s.take(i)] + split_colons(s.skip(i + 2))
    } else {
        seq![s]
    }
}

proof fn lemma_first_colons(s: Seq<char>)
    ensures
        first_colons(s) == -1 || (0 <= first_colons(s) && first_colons(s) + 2 <= s.len()
            && s[first_colons(s)] == ':' && s[first_colons(s) + 1] == ':'),
        forall|j: int| 0 <= j < (if first_colons(s) < 0 { s.len() - 1 } else { first_colons(s) }) ==> !#[trigger] colons_at(s, j),
    decreases s.len(),
{
    if s.len() >= 2 && !(s[0] == ':' && s[1] == ':') {
        lemma_first_colons(s.drop_first());
        assert forall|j: int| 0 <= j < (if first_colons(s) < 0 { s.len() - 1 } else { first_colons(s) }) implies !colons_at(s, j) by {
            if j > 0 {
                assert(s.drop_first()[j - 1] == s[j]);
                assert(s.drop_first()[j] == s[j + 1]);
                assert(!colons_at(s.drop_first(), j - 1));
            }
        }
    }
}

/// How many of the first pieces are `super`.
pub open spec fn supers(p: Seq<Seq<char>>) -> nat
    decreases p.len(),
{
    if p.len() > 0 && p[0] == "super"@ {
        1 + supers(p.drop_first())
    } else {
        0
    }
}

/// A path as Rust writes it, read back: `crate`, `self`, `Self`, a leading
/// `::` or a run of `super` is the head, the rest are names. `None` when
/// the run of `super` is longer than a head holds.
pub open spec fn parsed_scoped(s: Seq<char>) -> Option<(Head, Seq<Seq<char>>)> {
    let p = split_colons(s);
    if p[0] == "crate"@ {
        Some((Head::Package, p.drop_first()))
    } else if p[0] == "self"@ {
        Some((Head::Here, p.drop_first()))
    } else if p[0] == "Self"@ {
        Some((Head::SelfType, p.drop_first()))
    } else if p.len() > 1 && p[0].len() == 0 {
        Some((Head::Root, p.drop_first()))
    } else if supers(p) > 0 {
        if supers(p) <= 255 {
            Some((Head::Up(supers(p) as u8), p.skip(supers(p) as int)))
        } else {
            None
        }
    } else {
        Some((Head::Named, p))
    }
}

/// The pieces of `s` between `::` separators.
fn split_scoped(s: &str) -> (r: Vec<String>)
    ensures
        segs(r@) == split_colons(s@),
        r@.len() > 0,
{
    let c = chars_of(s);
    let n = c.len();
    let mut r: Vec<String> = Vec::new();
    let mut start: usize = 0;
    let mut i: usize = 0;
    proof {
        assert(c@.skip(0) =~= c@);
        assert(segs(r@) + split_colons(c@.skip(0)) =~= split_colons(c@));
    }
    while n > 0 && i < n - 1
        invariant
            n == c@.len(),
            c@ == s@,
            0 <= start <= i <= n,
            segs(r@) + split_colons(c@.skip(start as int)) == split_colons(c@),
            forall|j: int| start <= j < i ==> !#[trigger] colons_at(c@, j),
        decreases n - i,
    {
        if c[i] == ':' && c[i + 1] == ':' {
            let ghost rest = c@.skip(start as int);
            proof {
                lemma_first_colons(rest);
                assert(rest[i - start] == ':' && rest[i - start + 1] == ':');
                assert forall|j: int| 0 <= j < i - start implies !colons_at(rest, j) by {
                    assert(rest[j] == c@[start + j]);
                    assert(rest[j + 1] == c@[start + j + 1]);
                    assert(!colons_at(c@, start + j));
                }
                assert(colons_at(rest, i - start));
                if first_colons(rest) >= 0 {
                    assert(colons_at(rest, first_colons(rest)));
                }
                assert(first_colons(rest) == i - start);
                assert(rest.take(i - start) =~= c@.subrange(start as int, i as int));
                assert(rest.skip(i - start + 2) =~= c@.skip(i + 2));
            }
            let ghost before = segs(r@);
            r.push(string_of(&c, start, i));
            proof {
                assert(segs(r@) =~= before.push(c@.subrange(start as int, i as int)));
                assert(segs(r@) + split_colons(c@.skip(i + 2)) =~= before + split_colons(rest));
            }
            i = i + 2;
            start = i;
        } else {
            i = i + 1;
        }
    }
    let ghost rest = c@.skip(start as int);
    proof {
        lemma_first_colons(rest);
        assert forall|j: int| 0 <= j < rest.len() - 1 implies !colons_at(rest, j) by {
            assert(rest[j] == c@[start + j]);
            assert(rest[j + 1] == c@[start + j + 1]);
            assert(!colons_at(c@, start + j));
        }
        if first_colons(rest) >= 0 {
            assert(colons_at(rest, first_colons(rest)));
        }
        assert(first_colons(rest) == -1);
        assert(c@.subrange(start as int, n as int) =~= rest);
    }
    let ghost before = segs(r@);
    r.push(string_of(&c, start, n));
    proof {
        assert(segs(r@) =~= before.push(rest));
        assert(split_colons(rest) =~= seq![rest]);
    }
    r
}

impl ModulePath {
    /// A path as Rust writes it, read back.
    pub fn parse_scoped(text: &str) -> (r: Option<ModulePath>)
        ensures
            match r {
                Some(p) => parsed_scoped(text@) == Some((p.head, segs(p.segments@))),
                None => parsed_scoped(text@) is None,
            },
    {
        let p = split_scoped(text);
        let ghost pv = segs(p@);
        let first = p[0].as_str();
        if str_eq(first, "crate") {
            return Some(ModulePath { head: Head::Package, segments: skip(&p, 1) });
        }
        if str_eq(first, "self") {
            return Some(ModulePath { head: Head::Here, segments: skip(&p, 1) });
        }
        if str_eq(first, "Self") {
            return Some(ModulePath { head: Head::SelfType, segments: skip(&p, 1) });
        }
        if p.len() > 1 && chars_of(first).len() == 0 {
            return Some(ModulePath { head: Head::Root, segments: skip(&p, 1) });
        }
        let mut k: usize = 0;
        proof {
            assert(pv.skip(0) =~= pv);
        }
        while k < p.len() && str_eq(p[k].as_str(), "super")
            invariant
                0 <= k <= p@.len(),
                pv == segs(p@),
                supers(pv) == k + supers(pv.skip(k as int)),
            decreases p@.len() - k,
        {
            proof {
                assert(pv.skip(k as int)[0] == pv[k as int]);
                assert(pv.skip(k as int).drop_first() =~= pv.skip(k + 1));
            }
            k = k + 1;
        }
        proof {
            if k < p@.len() {
                assert(pv.skip(k as int)[0] == pv[k as int]);
            }
        }
        if k == 0 {
            return Some(ModulePath { head: Head::Named, segments: p });
        }
        if k > 255 {
            return None;
        }
        Some(ModulePath { head: Head::Up(k as u8), segments: skip(&p, k) })
    }
}

// --------------------------------------------------------------- messages

/// A path written with `/`.
pub open spec fn shown(p: Seq<Seq<char>>) -> Seq<char> {
    join(p, "/"@)
}

/// The files to create, the first, then each other in brackets.
pub open spec fn choices(cs: Seq<Seq<Seq<char>>>) -> Seq<char>
    decreases cs.len(),
{
    if cs.len() == 0 {
        Seq::empty()
    } else if cs.len() == 1 {
        shown(cs[0])
    } else {
        choices(cs.drop_last()) + " (or "@ + shown(cs.last()) + ")"@
    }
}

/// What a refusal says.
pub open spec fn refusal_message(e: Refusal) -> Seq<char> {
    match e {
        Refusal::NotAddressable(p) => shown(p) + " is not a module of any crate"@,
        Refusal::Root(p) => shown(p) + " holds a crate's or a directory's root module, which stays"@,
        Refusal::CrossProject(f, t) => shown(f) + " and "@ + shown(t) + " lie in different crates"@,
        Refusal::NoDeclaringFile(name) => "no file declares `"@ + name + "`"@,
        Refusal::NoParentFile(module, candidates, declaration) => "no file declares module `"@ + module
            + "`; create "@ + choices(candidates) + " first so `"@ + declaration + "` has a home"@,
        Refusal::Missing(p) => shown(p) + " was not handed over"@,
        Refusal::NoDeclaration(declaration, parent) => shown(parent) + " has no `"@ + declaration + "`"@,
    }
}

/// The files to create, as text.
fn choices_text(cs: &Vec<Vec<String>>) -> (s: String)
    ensures
        s@ == choices(cs@.map_values(|c: Vec<String>| segs(c@))),
{
    let ghost v = cs@.map_values(|c: Vec<String>| segs(c@));
    let mut s = String::new();
    let mut i: usize = 0;
    proof {
        assert(v.take(0) =~= Seq::<Seq<Seq<char>>>::empty());
    }
    while i < cs.len()
        invariant
            0 <= i <= cs@.len(),
            v == cs@.map_values(|c: Vec<String>| segs(c@)),
            s@ == choices(v.take(i as int)),
        decreases cs@.len() - i,
    {
        let p = joined(&cs[i], "/");
        proof {
            assert(v.take(i + 1).drop_last() =~= v.take(i as int));
            assert(v.take(i + 1).last() == segs(cs@[i as int]@));
        }
        if i == 0 {
            s = p;
            proof {
                assert(v.take(1) =~= seq![segs(cs@[0]@)]);
            }
        } else {
            push_str(&mut s, " (or ");
            push_str(&mut s, p.as_str());
            push_str(&mut s, ")");
        }
        i = i + 1;
    }
    proof {
        assert(v.take(i as int) =~= v);
    }
    s
}

impl ResolveError {
    /// What the refusal says.
    pub fn message(&self) -> (s: String)
        ensures
            s@ == refusal_message(self@),
    {
        match self {
            ResolveError::NotAddressable(p) => {
                let mut s = joined(p, "/");
                push_str(&mut s, " is not a module of any crate");
                s
            },
            ResolveError::Root(p) => {
                let mut s = joined(p, "/");
                push_str(&mut s, " holds a crate's or a directory's root module, which stays");
                s
            },
            ResolveError::CrossProject { from, to } => {
                let mut s = joined(from, "/");
                push_str(&mut s, " and ");
                push_str(&mut s, joined(to, "/").as_str());
                push_str(&mut s, " lie in different crates");
                s
            },
            ResolveError::NoDeclaringFile { name } => {
                let mut s = owned("no file declares `");
                push_str(&mut s, name.as_str());
                push_str(&mut s, "`");
                s
            },
            ResolveError::NoParentFile { module, candidates, declaration } => {
                let mut s = owned("no file declares module `");
                push_str(&mut s, module.as_str());
                push_str(&mut s, "`; create ");
                push_str(&mut s, choices_text(candidates).as_str());
                push_str(&mut s, " first so `");
                push_str(&mut s, declaration.as_str());
                push_str(&mut s, "` has a home");
                s
            },
            ResolveError::Missing(p) => {
                let mut s = joined(p, "/");
                push_str(&mut s, " was not handed over");
                s
            },
            ResolveError::NoDeclaration { declaration, parent } => {
                let mut s = joined(parent, "/");
                push_str(&mut s, " has no `");
                push_str(&mut s, declaration.as_str());
                push_str(&mut s, "`");
                s
            },
        }
    }
}

} // verus!
