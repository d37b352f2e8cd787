//! How TypeScript files and relative specifiers (`./a/b`, `../c`) map onto
//! each other. A file's address is its workspace-relative path, written
//! here as its segments. Bare specifiers (`react`, `@scope/pkg`) are left
//! alone; extension and `index` probing ask the project's file list, never
//! the disk.

use vstd::prelude::*;

use crate::paths::{copy_path, here, is_here, is_up, same_path, segs, up};
use crate::text::{chars_of, join, push_char, push_str, str_eq};

verus! {

/// How a module path starts.
#[derive(Debug, Clone, Copy, PartialEq, Eq, Structural)]
pub enum Head {
    /// `./`: the importing file's directory.
    Here,
    /// `../` this many times.
    Up(u8),
    /// A bare name, such as a package.
    Named,
    Package,
    SelfType,
    Root,
}

/// A specifier: where it starts and the names after that.
#[derive(Debug, Clone, PartialEq, Eq)]
pub struct ModulePath {
    pub head: Head,
    pub segments: Vec<String>,
}

/// A path is not an address: a file whose extension TypeScript does not know.
#[derive(Debug, Clone, PartialEq, Eq)]
pub enum LayoutError {
    NotAddressable(Vec<String>),
}

/// The TypeScript layout.
#[derive(Debug, Clone, Copy, Default)]
pub struct TsLayout;

/// The TypeScript surgery: how an import is spelled.
#[derive(Debug, Clone, Copy, Default)]
pub struct TsSurgery;

/// The path with `.` and `..` collapsed: `..` drops the segment before it,
/// or nothing at the start.
pub open spec fn normalized(p: Seq<Seq<char>>) -> Seq<Seq<char>>
    decreases p.len(),
{
    if p.len() == 0 {
        seq![]
    } else {
        let prev = normalized(p.drop_last());
        if is_here(p.last()) {
            prev
        } else if is_up(p.last()) {
            if prev.len() > 0 {
                prev.drop_last()
            } else {
                prev
            }
        } else {
            prev.push(p.last())
        }
    }
}

/// `s` ends with `suffix`.
pub open spec fn ends_with(s: Seq<char>, suffix: Seq<char>) -> bool {
    s.len() >= suffix.len() && s.subrange(s.len() - suffix.len(), s.len() as int) == suffix
}

/// The extensions a TypeScript specifier may carry.
pub open spec fn extensions() -> Seq<Seq<char>> {
    seq!["ts"@, "tsx"@, "mts"@, "cts"@, "js"@, "jsx"@, "mjs"@, "cjs"@, "d.ts"@]
}

/// The longest of `es` that `name` ends with after a `.`; of two as long,
/// the later.
pub open spec fn longest_ext(name: Seq<char>, es: Seq<Seq<char>>) -> Option<Seq<char>>
    decreases es.len(),
{
    if es.len() == 0 {
        None
    } else {
        let prev = longest_ext(name, es.drop_last());
        let e = es.last();
        if ends_with(name, seq!['.'] + e) && (prev is None || e.len() >= prev->0.len()) {
            Some(e)
        } else {
            prev
        }
    }
}

/// The extension of a file name that TypeScript knows.
pub open spec fn known_ext(name: Seq<char>) -> Option<Seq<char>> {
    longest_ext(name, extensions())
}

/// The last segment, when the path names a file or a directory.
pub open spec fn file_name(p: Seq<Seq<char>>) -> Option<Seq<char>> {
    if p.len() > 0 && !is_up(p.last()) && !is_here(p.last()) {
        Some(p.last())
    } else {
        None
    }
}

/// The path with its last segment replaced by `n`; an empty `n` leaves the
/// directory.
pub open spec fn with_file_name(p: Seq<Seq<char>>, n: Seq<char>) -> Seq<Seq<char>> {
    let dir = if file_name(p) is Some {
        p.drop_last()
    } else {
        p
    };
    if n.len() == 0 {
        dir
    } else {
        dir.push(n)
    }
}

/// The name has an extension: a `.` after its first character.
pub open spec fn has_extension(name: Seq<char>) -> bool {
    exists|i: int| 0 < i < name.len() && name[i] == '.'
}

/// How many leading segments two paths share.
pub open spec fn shares(a: Seq<Seq<char>>, b: Seq<Seq<char>>, c: int) -> bool {
    &&& 0 <= c <= a.len()
    &&& c <= b.len()
    &&& forall|j: int| 0 <= j < c ==> a[j] == b[j]
    &&& (c == a.len() || c == b.len() || a[c] != b[c])
}

/// `target` spelled relative to `dir`: up out of what `dir` does not share,
/// then down into the rest of `target`. The count of ups is kept as a `u8`.
pub open spec fn relative_to(dir: Seq<Seq<char>>, target: Seq<Seq<char>>, r: ModulePath) -> bool {
    exists|c: int|
        #![trigger shares(dir, target, c)]
        shares(dir, target, c) && r.head == (if dir.len() - c == 0 {
            Head::Here
        } else {
            Head::Up((dir.len() - c) as u8)
        }) && segs(r.segments@) == target.subrange(c, target.len() as int)
}

/// The file a specifier with a known extension names, then the TypeScript
/// source an ESM `.js` style specifier stands for.
pub open spec fn swapped_ext(e: Seq<char>) -> Option<Seq<char>> {
    if e == "js"@ {
        Some("ts"@)
    } else if e == "jsx"@ {
        Some("tsx"@)
    } else if e == "mjs"@ {
        Some("mts"@)
    } else if e == "cjs"@ {
        Some("cts"@)
    } else {
        None
    }
}

/// The extensions tried on a specifier without one, in order.
pub open spec fn tried_extensions() -> Seq<Seq<char>> {
    seq!["ts"@, "tsx"@, "d.ts"@, "js"@, "jsx"@, "mts"@, "cts"@]
}

/// The index files tried in a directory, in order.
pub open spec fn index_files() -> Seq<Seq<char>> {
    seq!["index.ts"@, "index.tsx"@, "index.js"@]
}

/// `name` without the `.e` it ends with.
pub open spec fn stem_of(name: Seq<char>, e: Seq<char>) -> Seq<char> {
    name.subrange(0, name.len() - e.len() - 1)
}

/// The files a resolved base path may be, in the order they are tried.
pub open spec fn candidates_of(base: Seq<Seq<char>>, name: Seq<char>) -> Seq<Seq<Seq<char>>> {
    match known_ext(name) {
        Some(e) => match swapped_ext(e) {
            Some(s) => seq![base, with_file_name(base, stem_of(name, e) + seq!['.'] + s)],
            None => seq![base],
        },
        None => tried_extensions().map_values(|e: Seq<char>| with_file_name(base, name + seq!['.'] + e))
            + index_files().map_values(|i: Seq<char>| base.push(i)),
    }
}

/// The first of `cs` that is one of `files`.
pub open spec fn first_file(cs: Seq<Seq<Seq<char>>>, files: Seq<Seq<Seq<char>>>) -> Option<Seq<Seq<char>>>
    decreases cs.len(),
{
    if cs.len() == 0 {
        None
    } else if files.contains(cs[0]) {
        Some(cs[0])
    } else {
        first_file(cs.drop_first(), files)
    }
}

/// Where a specifier written in `file` leads among `files`: relative
/// specifiers only, from the file's directory, trying the name as written
/// and then the extensions and index files TypeScript would.
pub open spec fn resolved_to(files: Seq<Seq<Seq<char>>>, file: Seq<Seq<char>>, head: Head, segments: Seq<Seq<char>>) -> Option<Seq<Seq<char>>> {
    let ups: nat = match head {
        Head::Here => 0,
        Head::Up(n) => n as nat,
        _ => 0,
    };
    if !(head is Here || head is Up) || file.len() == 0 {
        None
    } else {
        let base = normalized(file.drop_last() + Seq::new(ups, |i: int| seq!['.', '.']) + segments);
        match file_name(base) {
            Some(name) => first_file(candidates_of(base, name), files),
            None => None,
        }
    }
}

/// A specifier without a known extension finds a declaration file: when
/// the file `name.d.ts` exists beside where the specifier leads and neither
/// `name.ts` nor `name.tsx` does, the specifier resolves to `name.d.ts`,
/// before any JavaScript file or index file is considered.
pub proof fn law_a_declaration_file_is_found(
    files: Seq<Seq<Seq<char>>>,
    file: Seq<Seq<char>>,
    head: Head,
    segments: Seq<Seq<char>>,
    base: Seq<Seq<char>>,
    name: Seq<char>,
)
    requires
        head is Here || head is Up,
        file.len() > 0,
        base == normalized(
            file.drop_last() + Seq::new(
                match head {
                    Head::Up(n) => n as nat,
                    _ => 0nat,
                },
                |i: int| seq!['.', '.'],
            ) + segments,
        ),
        file_name(base) == Some(name),
        known_ext(name) is None,
        files.contains(with_file_name(base, name + ".d.ts"@)),
        !files.contains(with_file_name(base, name + ".ts"@)),
        !files.contains(with_file_name(base, name + ".tsx"@)),
    ensures
        resolved_to(files, file, head, segments) == Some(with_file_name(base, name + ".d.ts"@)),
{
    let cs = candidates_of(base, name);
    assert(name + seq!['.'] + "ts"@ =~= name + ".ts"@) by {
        reveal_strlit("ts");
        reveal_strlit(".ts");
    }
    assert(name + seq!['.'] + "tsx"@ =~= name + ".tsx"@) by {
        reveal_strlit("tsx");
        reveal_strlit(".tsx");
    }
    assert(name + seq!['.'] + "d.ts"@ =~= name + ".d.ts"@) by {
        reveal_strlit("d.ts");
        reveal_strlit(".d.ts");
    }
    assert(cs[0] == with_file_name(base, name + ".ts"@));
    assert(cs[1] == with_file_name(base, name + ".tsx"@));
    assert(cs[2] == with_file_name(base, name + ".d.ts"@));
    assert(cs.drop_first()[0] == cs[1]);
    assert(cs.drop_first().drop_first()[0] == cs[2]);
    assert(first_file(cs.drop_first().drop_first(), files) == Some(cs[2]));
    assert(first_file(cs.drop_first(), files) == Some(cs[2]));
    assert(first_file(cs, files) == Some(cs[2]));
}

/// A specifier without a known extension leads to the first file that
/// exists of, in order: the name with `.ts`, `.tsx`, `.d.ts`, `.js`, `.jsx`,
/// `.mts`, `.cts` beside where it leads, then `index.ts`, `index.tsx` and
/// `index.js` inside the directory it names.
pub proof fn law_extensionless_specifiers_try_in_order(
    files: Seq<Seq<Seq<char>>>,
    file: Seq<Seq<char>>,
    head: Head,
    segments: Seq<Seq<char>>,
    base: Seq<Seq<char>>,
    name: Seq<char>,
)
    requires
        head is Here || head is Up,
        file.len() > 0,
        base == normalized(
            file.drop_last() + Seq::new(
                match head {
                    Head::Up(n) => n as nat,
                    _ => 0nat,
                },
                |i: int| seq!['.', '.'],
            ) + segments,
        ),
        file_name(base) == Some(name),
        known_ext(name) is None,
    ensures
        resolved_to(files, file, head, segments) == first_file(
            seq![
            with_file_name(base, name + ".ts"@),
            with_file_name(base, name + ".tsx"@),
            with_file_name(base, name + ".d.ts"@),
            with_file_name(base, name + ".js"@),
            with_file_name(base, name + ".jsx"@),
            with_file_name(base, name + ".mts"@),
            with_file_name(base, name + ".cts"@),
            base.push("index.ts"@),
            base.push("index.tsx"@),
            base.push("index.js"@),
            ],
            files,
        ),
{
    assert(name + seq!['.'] + "ts"@ =~= name + ".ts"@) by {
        reveal_strlit("ts");
        reveal_strlit(".ts");
    }
    assert(name + seq!['.'] + "tsx"@ =~= name + ".tsx"@) by {
        reveal_strlit("tsx");
        reveal_strlit(".tsx");
    }
    assert(name + seq!['.'] + "d.ts"@ =~= name + ".d.ts"@) by {
        reveal_strlit("d.ts");
        reveal_strlit(".d.ts");
    }
    assert(name + seq!['.'] + "js"@ =~= name + ".js"@) by {
        reveal_strlit("js");
        reveal_strlit(".js");
    }
    assert(name + seq!['.'] + "jsx"@ =~= name + ".jsx"@) by {
        reveal_strlit("jsx");
        reveal_strlit(".jsx");
    }
    assert(name + seq!['.'] + "mts"@ =~= name + ".mts"@) by {
        reveal_strlit("mts");
        reveal_strlit(".mts");
    }
    assert(name + seq!['.'] + "cts"@ =~= name + ".cts"@) by {
        reveal_strlit("cts");
        reveal_strlit(".cts");
    }
    assert(candidates_of(base, name) =~= seq![
            with_file_name(base, name + ".ts"@),
            with_file_name(base, name + ".tsx"@),
            with_file_name(base, name + ".d.ts"@),
            with_file_name(base, name + ".js"@),
            with_file_name(base, name + ".jsx"@),
            with_file_name(base, name + ".mts"@),
            with_file_name(base, name + ".cts"@),
            base.push("index.ts"@),
            base.push("index.tsx"@),
            base.push("index.js"@),
        ]);
}

/// A specifier with a known extension leads to the file it names when that
/// exists; else, for an ESM style `.js`, `.jsx`, `.mjs` or `.cjs`, to the
/// TypeScript source beside it with `.ts`, `.tsx`, `.mts` or `.cts`; any
/// other extension tries nothing more.
pub proof fn law_written_extensions_are_tried_first(
    files: Seq<Seq<Seq<char>>>,
    file: Seq<Seq<char>>,
    head: Head,
    segments: Seq<Seq<char>>,
    base: Seq<Seq<char>>,
    name: Seq<char>,
    e: Seq<char>,
)
    requires
        head is Here || head is Up,
        file.len() > 0,
        base == normalized(
            file.drop_last() + Seq::new(
                match head {
                    Head::Up(n) => n as nat,
                    _ => 0nat,
                },
                |i: int| seq!['.', '.'],
            ) + segments,
        ),
        file_name(base) == Some(name),
        known_ext(name) == Some(e),
    ensures
        files.contains(base) ==> resolved_to(files, file, head, segments) == Some(base),
        !files.contains(base) ==> resolved_to(files, file, head, segments) == (if e == "js"@ {
            first_file(seq![with_file_name(base, stem_of(name, e) + ".ts"@)], files)
        } else if e == "jsx"@ {
            first_file(seq![with_file_name(base, stem_of(name, e) + ".tsx"@)], files)
        } else if e == "mjs"@ {
            first_file(seq![with_file_name(base, stem_of(name, e) + ".mts"@)], files)
        } else if e == "cjs"@ {
            first_file(seq![with_file_name(base, stem_of(name, e) + ".cts"@)], files)
        } else {
            None
        }),
{
    let st = stem_of(name, e);
    assert(st + seq!['.'] + "ts"@ =~= st + ".ts"@) by {
        reveal_strlit("ts");
        reveal_strlit(".ts");
    }
    assert(st + seq!['.'] + "tsx"@ =~= st + ".tsx"@) by {
        reveal_strlit("tsx");
        reveal_strlit(".tsx");
    }
    assert(st + seq!['.'] + "mts"@ =~= st + ".mts"@) by {
        reveal_strlit("mts");
        reveal_strlit(".mts");
    }
    assert(st + seq!['.'] + "cts"@ =~= st + ".cts"@) by {
        reveal_strlit("cts");
        reveal_strlit(".cts");
    }
    reveal_strlit("js");
    reveal_strlit("jsx");
    reveal_strlit("mjs");
    reveal_strlit("cjs");
    let cs = candidates_of(base, name);
    if e == "js"@ {
        assert(cs =~= seq![base, with_file_name(base, st + ".ts"@)]);
    } else if e == "jsx"@ {
        assert(cs =~= seq![base, with_file_name(base, st + ".tsx"@)]);
    } else if e == "mjs"@ {
        assert(cs =~= seq![base, with_file_name(base, st + ".mts"@)]);
    } else if e == "cjs"@ {
        assert(cs =~= seq![base, with_file_name(base, st + ".cts"@)]);
    } else {
        assert(cs =~= seq![base]);
    }
    if !files.contains(base) {
        assert(first_file(cs, files) == first_file(cs.drop_first(), files));
        if cs.len() == 2 {
            assert(cs.drop_first() =~= seq![cs[1]]);
        } else {
            assert(cs.drop_first() =~= Seq::<Seq<Seq<char>>>::empty());
            assert(first_file(cs.drop_first(), files) is None);
        }
    }
}

/// `name` ends with `.` and `ext`.
fn ends_with_ext(name: &Vec<char>, ext: &str) -> (r: bool)
    ensures
        r == ends_with(name@, seq!['.'] + ext@),
{
    let e = chars_of(ext);
    let ghost suffix = seq!['.'] + e@;
    let n = name.len();
    if n < 1 || n - 1 < e.len() {
        return false;
    }
    let start = n - e.len() - 1;
    if name[start] != '.' {
        proof {
            assert(suffix[0] == '.');
            assert(name@.subrange(start as int, n as int)[0] == name@[start as int]);
            assert(name@.subrange(start as int, n as int)[0] != suffix[0]);
        }
        return false;
    }
    let mut k: usize = 0;
    while k < e.len()
        invariant
            n == name@.len(),
            start == n - e@.len() - 1,
            0 <= k <= e@.len(),
            suffix == seq!['.'] + e@,
            e@ == ext@,
            forall|j: int| 0 <= j < k ==> name@[start + 1 + j] == e@[j],
        decreases e@.len() - k,
    {
        if name[start + 1 + k] != e[k] {
            proof {
                assert(suffix[k + 1] == e@[k as int]);
                assert(name@.subrange(start as int, n as int)[k + 1] == name@[start + 1 + k]);
                assert(name@.subrange(start as int, n as int)[k + 1] != suffix[k + 1]);
            }
            return false;
        }
        k = k + 1;
    }
    proof {
        assert(name@.subrange(start as int, n as int) =~= suffix);
    }
    true
}

/// The extension of a file name that TypeScript knows, the longest that fits.
fn known_extension_of(name: &Vec<char>) -> (r: Option<&'static str>)
    ensures
        match r {
            Some(e) => known_ext(name@) == Some(e@),
            None => known_ext(name@) is None,
        },
{
    let exts: [&'static str; 9] = ["ts", "tsx", "mts", "cts", "js", "jsx", "mjs", "cjs", "d.ts"];
    let ghost es = exts@.map_values(|e: &'static str| e@);
    proof {
        assert(es =~= extensions());
    }
    let mut best: Option<&'static str> = None;
    let mut best_len: usize = 0;
    let mut i: usize = 0;
    while i < 9
        invariant
            es == exts@.map_values(|e: &'static str| e@),
            es == extensions(),
            exts@.len() == 9,
            0 <= i <= 9,
            match best {
                Some(b) => longest_ext(name@, es.take(i as int)) == Some(b@) && best_len == b@.len(),
                None => longest_ext(name@, es.take(i as int)) is None,
            },
        decreases 9 - i,
    {
        proof {
            assert(es.take(i + 1).drop_last() =~= es.take(i as int));
            assert(es.take(i + 1).last() == exts@[i as int]@);
        }
        let e = exts[i];
        let len = chars_of(e).len();
        if ends_with_ext(name, e) && (best.is_none() || len >= best_len) {
            best = Some(e);
            best_len = len;
        }
        i = i + 1;
    }
    proof {
        assert(es.take(9) =~= es);
    }
    best
}

/// The name ends with one of the known extensions after a dot, as the
/// subrange before it shows.
proof fn lemma_known_ext_fits(name: Seq<char>, es: Seq<Seq<char>>)
    ensures
        longest_ext(name, es) matches Some(e) ==> ends_with(name, seq!['.'] + e),
    decreases es.len(),
{
    if es.len() > 0 {
        lemma_known_ext_fits(name, es.drop_last());
    }
}

impl TsLayout {
    /// Collapse `.` and `..` without touching the file system.
    pub fn normalize(path: &Vec<String>) -> (r: Vec<String>)
        ensures
            segs(r@) == normalized(segs(path@)),
    {
        let ghost p = segs(path@);
        let mut out: Vec<String> = Vec::new();
        let mut i: usize = 0;
        while i < path.len()
            invariant
                p == segs(path@),
                0 <= i <= path@.len(),
                segs(out@) == normalized(p.take(i as int)),
            decreases path@.len() - i,
        {
            proof {
                assert(p.take(i + 1).drop_last() =~= p.take(i as int));
                assert(p.take(i + 1).last() == path@[i as int]@);
            }
            let s = path[i].as_str();
            if here(s) {
            } else if up(s) {
                if out.len() > 0 {
                    out.pop();
                    proof {
                        assert(segs(out@) =~= normalized(p.take(i as int)).drop_last());
                    }
                }
            } else {
                out.push(path[i].clone());
                proof {
                    assert(segs(out@) =~= normalized(p.take(i as int)).push(path@[i as int]@));
                }
            }
            i = i + 1;
        }
        proof {
            assert(p.take(i as int) =~= p);
        }
        out
    }

    /// The extension of a file name that TypeScript knows: the longest of
    /// `ts tsx mts cts js jsx mjs cjs d.ts` it ends with after a dot.
    pub fn known_extension(name: &str) -> (r: Option<&'static str>)
        ensures
            match r {
                Some(e) => known_ext(name@) == Some(e@),
                None => known_ext(name@) is None,
            },
    {
        let chars = chars_of(name);
        known_extension_of(&chars)
    }

    /// `target` spelled relative to `dir`, always starting with `./` or `../`.
    pub fn relative(dir: &Vec<String>, target: &Vec<String>) -> (r: ModulePath)
        ensures
            relative_to(segs(dir@), segs(target@), r),
    {
        let ghost d = segs(dir@);
        let ghost t = segs(target@);
        let mut c: usize = 0;
        while c < dir.len() && c < target.len() && str_eq(dir[c].as_str(), target[c].as_str())
            invariant
                d == segs(dir@),
                t == segs(target@),
                0 <= c <= dir@.len(),
                c <= target@.len(),
                forall|j: int| 0 <= j < c ==> d[j] == t[j],
            decreases dir@.len() - c,
        {
            c = c + 1;
        }
        let ups = dir.len() - c;
        let head = if ups == 0 {
            Head::Here
        } else {
            Head::Up(#[verifier::truncate] (ups as u8))
        };
        let mut segments: Vec<String> = Vec::new();
        let mut k: usize = c;
        while k < target.len()
            invariant
                t == segs(target@),
                c <= k <= target@.len(),
                segs(segments@) == t.subrange(c as int, k as int),
            decreases target@.len() - k,
        {
            let ghost before = segments@;
            segments.push(target[k].clone());
            proof {
                assert(segments@ =~= before.push(target@[k as int]));
                assert(segs(segments@) =~= segs(before).push(t[k as int]));
                assert(t.subrange(c as int, k + 1) =~= t.subrange(c as int, k as int).push(t[k as int]));
            }
            k = k + 1;
        }
        proof {
            assert(shares(d, t, c as int));
        }
        ModulePath { head, segments }
    }

    /// A path's address: itself, when it names a file TypeScript knows or
    /// a directory (a name without an extension).
    pub fn address(path: &Vec<String>) -> (r: Result<Vec<String>, LayoutError>)
        ensures
            ({
                let p = segs(path@);
                let known = match file_name(p) {
                    Some(n) => known_ext(n) is Some,
                    None => false,
                };
                let is_dir = !(file_name(p) matches Some(n) && has_extension(n));
                if known || is_dir {
                    r matches Ok(a) && a@ == path@
                } else {
                    r matches Err(LayoutError::NotAddressable(a)) && a@ == path@
                }
            }),
    {
        let ghost p = segs(path@);
        let n = path.len();
        let named = n > 0 && !up(path[n - 1].as_str()) && !here(path[n - 1].as_str());
        if !named {
            return Ok(copy_vec(path));
        }
        proof {
            assert(file_name(p) == Some(path@[n - 1]@));
        }
        let name = chars_of(path[n - 1].as_str());
        if known_extension_of(&name).is_some() {
            return Ok(copy_vec(path));
        }
        let mut i: usize = 1;
        let mut dotted = false;
        while i < name.len()
            invariant
                1 <= i <= name@.len() || (name@.len() == 0 && i == 1),
                dotted == exists|j: int| 0 < j < i && name@[j] == '.',
            decreases name@.len() - i,
        {
            if name[i] == '.' {
                dotted = true;
            }
            i = i + 1;
        }
        if dotted {
            Err(LayoutError::NotAddressable(copy_vec(path)))
        } else {
            proof {
                assert forall|j: int| 0 < j < name@.len() implies name@[j] != '.' by {
                    assert(j < i);
                }
            }
            Ok(copy_vec(path))
        }
    }
}

/// The same segments.
fn copy_vec(p: &Vec<String>) -> (r: Vec<String>)
    ensures
        r@ == p@,
{
    copy_path(p)
}

/// The paths of the project's files, as characters.
pub open spec fn file_list(files: Seq<Vec<String>>) -> Seq<Seq<Seq<char>>> {
    files.map_values(|p: Vec<String>| segs(p@))
}

/// `..`, spelled.
fn up_segment() -> (s: String)
    ensures
        s@ == seq!['.', '.'],
{
    let mut s = String::new();
    push_char(&mut s, '.');
    push_char(&mut s, '.');
    proof {
        assert(s@ =~= seq!['.', '.']);
    }
    s
}

/// The path with its last segment replaced by `n`.
fn with_name(p: &Vec<String>, n: String) -> (r: Vec<String>)
    ensures
        segs(r@) == with_file_name(segs(p@), n@),
{
    let mut r = copy_path(p);
    let k = r.len();
    let named = k > 0 && !up(r[k - 1].as_str()) && !here(r[k - 1].as_str());
    proof {
        assert(segs(r@) == segs(p@));
    }
    if named {
        r.pop();
        proof {
            assert(segs(r@) =~= segs(p@).drop_last());
        }
    }
    if chars_of(n.as_str()).len() > 0 {
        let ghost before = segs(r@);
        r.push(n);
        proof {
            assert(segs(r@) =~= before.push(n@));
        }
    }
    r
}

/// The ESM spelling's source extension.
fn swapped(e: &str) -> (r: Option<&'static str>)
    ensures
        match r {
            Some(s) => swapped_ext(e@) == Some(s@),
            None => swapped_ext(e@) is None,
        },
{
    if str_eq(e, "js") {
        Some("ts")
    } else if str_eq(e, "jsx") {
        Some("tsx")
    } else if str_eq(e, "mjs") {
        Some("mts")
    } else if str_eq(e, "cjs") {
        Some("cts")
    } else {
        None
    }
}

/// `a`, a dot, then `b`.
fn dotted(a: &str, b: &str) -> (s: String)
    ensures
        s@ == a@ + seq!['.'] + b@,
{
    let mut s = String::new();
    push_str(&mut s, a);
    push_char(&mut s, '.');
    push_str(&mut s, b);
    s
}

/// `name` without the `.e` it ends with.
fn stem(name: &str, e: &str) -> (s: String)
    requires
        ends_with(name@, seq!['.'] + e@),
    ensures
        s@ == stem_of(name@, e@),
{
    let c = chars_of(name);
    let k = chars_of(e).len();
    crate::text::string_of(&c, 0, c.len() - k - 1)
}

/// One of the files holds this path.
fn in_files(files: &Vec<Vec<String>>, c: &Vec<String>) -> (r: bool)
    ensures
        r == file_list(files@).contains(segs(c@)),
{
    let ghost fl = file_list(files@);
    let mut i: usize = 0;
    while i < files.len()
        invariant
            fl == file_list(files@),
            0 <= i <= files@.len(),
            forall|j: int| 0 <= j < i ==> fl[j] != segs(c@),
        decreases files@.len() - i,
    {
        if same_path(&files[i], c) {
            proof {
                assert(fl[i as int] == segs(c@));
            }
            return true;
        }
        i = i + 1;
    }
    false
}

impl TsLayout {
    /// The files a specifier written in `file` may name, in the order
    /// TypeScript tries them, of which the first in `files` is the answer.
    /// Bare specifiers (`react`, `@scope/pkg`) and other heads are not
    /// files of this tree.
    pub fn resolve(files: &Vec<Vec<String>>, file: &Vec<String>, import: &ModulePath) -> (r: Option<Vec<String>>)
        ensures
            match r {
                Some(a) => resolved_to(file_list(files@), segs(file@), import.head, segs(import.segments@)) == Some(segs(a@)),
                None => resolved_to(file_list(files@), segs(file@), import.head, segs(import.segments@)) is None,
            },
    {
        let ups: u8 = match import.head {
            Head::Here => 0,
            Head::Up(n) => n,
            _ => return None,
        };
        if file.len() == 0 {
            return None;
        }
        let ghost f = segs(file@);
        let ghost is = segs(import.segments@);
        let ghost ups_seq = Seq::new(ups as nat, |i: int| seq!['.', '.']);
        let mut raw: Vec<String> = Vec::new();
        let mut i: usize = 0;
        while i < file.len() - 1
            invariant
                f == segs(file@),
                file@.len() > 0,
                0 <= i <= file@.len() - 1,
                segs(raw@) == f.take(i as int),
            decreases file@.len() - 1 - i,
        {
            let ghost before = segs(raw@);
            raw.push(file[i].clone());
            proof {
                assert(segs(raw@) =~= before.push(f[i as int]));
                assert(f.take(i + 1) =~= f.take(i as int).push(f[i as int]));
            }
            i = i + 1;
        }
        proof {
            assert(f.take(i as int) =~= f.drop_last());
        }
        let mut u: u8 = 0;
        while u < ups
            invariant
                0 <= u <= ups,
                ups_seq == Seq::new(ups as nat, |i: int| seq!['.', '.']),
                segs(raw@) == f.drop_last() + ups_seq.take(u as int),
            decreases ups - u,
        {
            let ghost before = segs(raw@);
            raw.push(up_segment());
            proof {
                assert(segs(raw@) =~= before.push(seq!['.', '.']));
                assert(ups_seq.take(u + 1) =~= ups_seq.take(u as int).push(seq!['.', '.']));
            }
            u = u + 1;
        }
        proof {
            assert(ups_seq.take(u as int) =~= ups_seq);
        }
        let mut k: usize = 0;
        while k < import.segments.len()
            invariant
                is == segs(import.segments@),
                0 <= k <= import.segments@.len(),
                segs(raw@) == f.drop_last() + ups_seq + is.take(k as int),
            decreases import.segments@.len() - k,
        {
            let ghost before = segs(raw@);
            raw.push(import.segments[k].clone());
            proof {
                assert(segs(raw@) =~= before.push(is[k as int]));
                assert(is.take(k + 1) =~= is.take(k as int).push(is[k as int]));
            }
            k = k + 1;
        }
        proof {
            assert(is.take(k as int) =~= is);
        }
        let base = TsLayout::normalize(&raw);
        let ghost b = segs(base@);
        let n = base.len();
        if !(n > 0 && !up(base[n - 1].as_str()) && !here(base[n - 1].as_str())) {
            return None;
        }
        let name = base[n - 1].as_str();
        proof {
            assert(file_name(b) == Some(name@));
        }
        let ghost cs = candidates_of(b, name@);
        let mut cands: Vec<Vec<String>> = Vec::new();
        match TsLayout::known_extension(name) {
            Some(e) => {
                cands.push(copy_path(&base));
                proof {
                    lemma_known_ext_fits(name@, extensions());
                }
                if let Some(s) = swapped(e) {
                    let st = stem(name, e);
                    let next = dotted(st.as_str(), s);
                    cands.push(with_name(&base, next));
                    proof {
                        assert(file_list(cands@) =~= cs);
                    }
                } else {
                    proof {
                        assert(file_list(cands@) =~= cs);
                    }
                }
            },
            None => {
                let tried: [&'static str; 7] = ["ts", "tsx", "d.ts", "js", "jsx", "mts", "cts"];
                let ghost ts = tried@.map_values(|e: &'static str| e@);
                proof {
                    assert(ts =~= tried_extensions());
                }
                let mut j: usize = 0;
                while j < 7
                    invariant
                        tried@.len() == 7,
                        ts == tried@.map_values(|e: &'static str| e@),
                        ts == tried_extensions(),
                        b == segs(base@),
                        0 <= j <= 7,
                        file_list(cands@) == ts.take(j as int).map_values(|e: Seq<char>| with_file_name(b, name@ + seq!['.'] + e)),
                    decreases 7 - j,
                {
                    let ghost before = file_list(cands@);
                    cands.push(with_name(&base, dotted(name, tried[j])));
                    proof {
                        assert(file_list(cands@) =~= before.push(with_file_name(b, name@ + seq!['.'] + ts[j as int])));
                        assert(ts.take(j + 1) =~= ts.take(j as int).push(ts[j as int]));
                        assert(ts.take(j + 1).map_values(|e: Seq<char>| with_file_name(b, name@ + seq!['.'] + e))
                            =~= ts.take(j as int).map_values(|e: Seq<char>| with_file_name(b, name@ + seq!['.'] + e)).push(
                            with_file_name(b, name@ + seq!['.'] + ts[j as int]),
                        ));
                    }
                    j = j + 1;
                }
                proof {
                    assert(ts.take(7) =~= ts);
                }
                let ghost tried_part = file_list(cands@);
                let index: [&'static str; 3] = ["index.ts", "index.tsx", "index.js"];
                let ghost ix = index@.map_values(|e: &'static str| e@);
                proof {
                    assert(ix =~= index_files());
                }
                let mut q: usize = 0;
                while q < 3
                    invariant
                        index@.len() == 3,
                        ix == index@.map_values(|e: &'static str| e@),
                        ix == index_files(),
                        b == segs(base@),
                        0 <= q <= 3,
                        file_list(cands@) == tried_part + ix.take(q as int).map_values(|i: Seq<char>| b.push(i)),
                    decreases 3 - q,
                {
                    let ghost before = file_list(cands@);
                    let mut p = copy_path(&base);
                    p.push(index[q].to_owned());
                    proof {
                        assert(segs(p@) =~= b.push(ix[q as int]));
                    }
                    cands.push(p);
                    proof {
                        assert(file_list(cands@) =~= before.push(b.push(ix[q as int])));
                        assert(ix.take(q + 1) =~= ix.take(q as int).push(ix[q as int]));
                        assert(ix.take(q + 1).map_values(|i: Seq<char>| b.push(i))
                            =~= ix.take(q as int).map_values(|i: Seq<char>| b.push(i)).push(b.push(ix[q as int])));
                    }
                    q = q + 1;
                }
                proof {
                    assert(ix.take(3) =~= ix);
                    assert(file_list(cands@) =~= cs);
                }
            },
        }
        let ghost fl = file_list(files@);
        proof {
            assert(segs(raw@) == f.drop_last() + ups_seq + is);
            assert(resolved_to(fl, f, import.head, is) == first_file(cs, fl));
            assert(cs.skip(0) =~= cs);
        }
        let mut c: usize = 0;
        while c < cands.len()
            invariant
                file_list(cands@) == cs,
                fl == file_list(files@),
                0 <= c <= cands@.len(),
                resolved_to(fl, f, import.head, is) == first_file(cs, fl),
                first_file(cs, fl) == first_file(cs.skip(c as int), fl),
                f == segs(file@),
                is == segs(import.segments@),
            decreases cands@.len() - c,
        {
            proof {
                assert(cs.skip(c as int)[0] == cs[c as int]);
                assert(cs.skip(c as int).drop_first() =~= cs.skip(c + 1));
                assert(cs[c as int] == segs(cands@[c as int]@));
            }
            if in_files(files, &cands[c]) {
                let found = copy_path(&cands[c]);
                proof {
                    assert(segs(found@) == cs[c as int]);
                    assert(first_file(cs.skip(c as int), fl) == Some(cs[c as int]));
                }
                return Some(found);
            }
            c = c + 1;
        }
        proof {
            assert(cs.skip(c as int) =~= Seq::<Seq<Seq<char>>>::empty());
        }
        None
    }
}

/// The path an import of `target` is spelled with, keeping the style of
/// the original specifier: its extension when it had one (`.js` for a
/// `.ts` file), else none, and a directory for an `index` file unless the
/// original named `index` itself.
pub open spec fn spelled_target(target: Seq<Seq<char>>, original: Seq<Seq<char>>) -> Seq<Seq<char>> {
    let oname = if original.len() > 0 {
        original.last()
    } else {
        Seq::empty()
    };
    let tname = file_name(target);
    let text = match tname {
        Some(n) => known_ext(n),
        None => None,
    };
    match (known_ext(oname), text) {
        (Some(oe), Some(e)) => {
            let st = with_file_name(target, stem_of(tname->0, e));
            let sname = match file_name(st) {
                Some(n) => n,
                None => Seq::empty(),
            };
            with_file_name(st, sname + seq!['.'] + oe)
        },
        (None, Some(e)) => {
            let s = stem_of(tname->0, e);
            let without = with_file_name(target, s);
            if s == "index"@ && oname != "index"@ && without.len() > 0 {
                without.drop_last()
            } else {
                without
            }
        },
        _ => target,
    }
}

/// The directory of a file: the path without its last segment.
pub open spec fn dir_of(file: Seq<Seq<char>>) -> Seq<Seq<char>> {
    if file.len() > 0 {
        file.drop_last()
    } else {
        file
    }
}

/// `s` cut at each `/`, as `str::split('/')` cuts it.
pub open spec fn split_slashes(s: Seq<char>) -> Seq<Seq<char>>
    decreases s.len(),
{
    if s.len() == 0 {
        seq![seq![]]
    } else {
        let rest = split_slashes(s.drop_last());
        if s.last() == '/' {
            rest.push(seq![])
        } else {
            rest.update(rest.len() - 1, rest.last().push(s.last()))
        }
    }
}

/// How many of the leading parts are `..`.
pub open spec fn leading_ups(p: Seq<Seq<char>>) -> nat
    decreases p.len(),
{
    if p.len() > 0 && p[0] == seq!['.', '.'] {
        1 + leading_ups(p.drop_first())
    } else {
        0
    }
}

/// A specifier read back: `.` leads a path from here, a run of `..` one
/// from that many levels up, anything else is a bare name; `None` when the
/// run of `..` is longer than a head holds.
pub open spec fn parsed_posix(s: Seq<char>) -> Option<(Head, Seq<Seq<char>>)> {
    let p = split_slashes(s);
    if p[0] == seq!['.'] {
        Some((Head::Here, p.drop_first()))
    } else if leading_ups(p) > 0 {
        if leading_ups(p) <= 255 {
            Some((Head::Up(leading_ups(p) as u8), p.skip(leading_ups(p) as int)))
        } else {
            None
        }
    } else {
        Some((Head::Named, p))
    }
}

proof fn lemma_split_slashes_nonempty(s: Seq<char>)
    ensures
        split_slashes(s).len() > 0,
    decreases s.len(),
{
    if s.len() > 0 {
        lemma_split_slashes_nonempty(s.drop_last());
    }
}

proof fn lemma_leading_ups_bound(p: Seq<Seq<char>>)
    ensures
        leading_ups(p) <= p.len(),
        forall|k: int| 0 <= k < leading_ups(p) ==> p[k] == seq!['.', '.'],
        leading_ups(p) < p.len() ==> p[leading_ups(p) as int] != seq!['.', '.'],
    decreases p.len(),
{
    if p.len() > 0 && p[0] == seq!['.', '.'] {
        lemma_leading_ups_bound(p.drop_first());
        assert forall|k: int| 0 <= k < leading_ups(p) implies p[k] == seq!['.', '.'] by {
            if k > 0 {
                assert(p[k] == p.drop_first()[k - 1]);
            }
        }
    }
}

/// `s` cut at each `/`.
fn split_on_slashes(s: &str) -> (r: Vec<String>)
    ensures
        segs(r@) == split_slashes(s@),
{
    let c = chars_of(s);
    let n = c.len();
    let mut r: Vec<String> = Vec::new();
    let mut cur = String::new();
    let mut i: usize = 0;
    proof {
        reveal_strlit("");
        assert(c@.take(0) =~= Seq::<char>::empty());
        assert(segs(r@).push(cur@) =~= split_slashes(c@.take(0)));
    }
    while i < n
        invariant
            n == c@.len(),
            c@ == s@,
            0 <= i <= n,
            segs(r@).push(cur@) == split_slashes(c@.take(i as int)),
        decreases n - i,
    {
        let ghost before = segs(r@).push(cur@);
        proof {
            assert(c@.take(i + 1).drop_last() =~= c@.take(i as int));
            assert(c@.take(i + 1).last() == c@[i as int]);
        }
        if c[i] == '/' {
            let done = cur;
            r.push(done);
            cur = String::new();
            proof {
                reveal_strlit("");
                assert(segs(r@).push(cur@) =~= before.push(seq![]));
            }
        } else {
            push_char(&mut cur, c[i]);
            proof {
                assert(segs(r@).push(cur@) =~= before.update(before.len() - 1, before.last().push(c@[i as int])));
            }
        }
        i = i + 1;
    }
    r.push(cur);
    proof {
        assert(c@.take(n as int) =~= c@);
    }
    r
}

impl ModulePath {
    /// A specifier as TypeScript writes it, read back.
    pub fn parse_posix(text: &str) -> (r: Option<ModulePath>)
        ensures
            match r {
                Some(p) => parsed_posix(text@) == Some((p.head, segs(p.segments@))),
                None => parsed_posix(text@) is None,
            },
    {
        let parts = split_on_slashes(text);
        let ghost pv = segs(parts@);
        proof {
            lemma_split_slashes_nonempty(text@);
            lemma_leading_ups_bound(pv);
            reveal_strlit(".");
            reveal_strlit("..");
            assert("."@ =~= seq!['.']);
            assert(".."@ =~= seq!['.', '.']);
        }
        if str_eq(parts[0].as_str(), ".") {
            let mut rest: Vec<String> = Vec::new();
            let mut k: usize = 1;
            while k < parts.len()
                invariant
                    pv == segs(parts@),
                    1 <= k <= parts@.len(),
                    segs(rest@) == pv.subrange(1, k as int),
                decreases parts@.len() - k,
            {
                let ghost before = segs(rest@);
                rest.push(crate::text::owned(parts[k].as_str()));
                proof {
                    assert(pv[k as int] == parts@[k as int]@);
                    assert(segs(rest@) =~= before.push(pv[k as int]));
                    assert(segs(rest@) =~= pv.subrange(1, k + 1));
                }
                k = k + 1;
            }
            proof {
                assert(pv.subrange(1, k as int) =~= pv.drop_first());
                assert(pv[0] == parts@[0]@);
                assert(pv[0] == seq!['.']);
            }
            return Some(ModulePath { head: Head::Here, segments: rest });
        }
        let mut ups: usize = 0;
        while ups < parts.len() && str_eq(parts[ups].as_str(), "..")
            invariant
                pv == segs(parts@),
                0 <= ups <= parts@.len(),
                forall|k: int| 0 <= k < ups ==> pv[k] == seq!['.', '.'],
                ups <= leading_ups(pv),
                ".."@ == seq!['.', '.'],
                leading_ups(pv) <= pv.len(),
                leading_ups(pv) < pv.len() ==> pv[leading_ups(pv) as int] != seq!['.', '.'],
            decreases parts@.len() - ups,
        {
            proof {
                assert(pv[ups as int] == parts@[ups as int]@);
                if ups == leading_ups(pv) {
                    assert(pv[ups as int] != seq!['.', '.']);
                }
            }
            ups = ups + 1;
        }
        proof {
            if ups < leading_ups(pv) {
                assert(pv[ups as int] == seq!['.', '.']);
                assert(pv[ups as int] == parts@[ups as int]@);
            }
            assert(ups == leading_ups(pv));
            assert(pv[0] == parts@[0]@);
            assert(pv[0] != seq!['.']);
        }
        if ups > 255 {
            return None;
        }
        let mut rest: Vec<String> = Vec::new();
        let mut k: usize = ups;
        while k < parts.len()
            invariant
                pv == segs(parts@),
                ups <= k <= parts@.len(),
                segs(rest@) == pv.subrange(ups as int, k as int),
            decreases parts@.len() - k,
        {
            let ghost before = segs(rest@);
            rest.push(crate::text::owned(parts[k].as_str()));
            proof {
                assert(pv[k as int] == parts@[k as int]@);
                assert(segs(rest@) =~= before.push(pv[k as int]));
                assert(segs(rest@) =~= pv.subrange(ups as int, k + 1));
            }
            k = k + 1;
        }
        proof {
            assert(pv.subrange(ups as int, k as int) =~= pv.skip(ups as int));
            assert(pv.skip(0) =~= pv);
        }
        let head = if ups > 0 {
            Head::Up(ups as u8)
        } else {
            Head::Named
        };
        Some(ModulePath { head, segments: rest })
    }
}

/// A specifier as TypeScript writes it: `.` for here or `..` for each step
/// up, then the names, all joined by `/`.
pub open spec fn spelled_specifier(head: Head, names: Seq<Seq<char>>) -> Seq<char> {
    let lead = match head {
        Head::Here => seq![seq!['.']],
        Head::Up(n) => Seq::new(n as nat, |i: int| seq!['.', '.']),
        _ => Seq::empty(),
    };
    join(lead + names, seq!['/'])
}

impl ModulePath {
    /// How the specifier is written.
    pub fn spelled(&self) -> (s: String)
        ensures
            s@ == spelled_specifier(self.head, segs(self.segments@)),
    {
        let mut parts: Vec<String> = Vec::new();
        let ghost lead: Seq<Seq<char>> = match self.head {
            Head::Here => seq![seq!['.']],
            Head::Up(n) => Seq::new(n as nat, |i: int| seq!['.', '.']),
            _ => Seq::empty(),
        };
        match self.head {
            Head::Here => {
                let mut dot = String::new();
                push_char(&mut dot, '.');
                parts.push(dot);
                proof {
                    assert(segs(parts@) =~= lead);
                }
            },
            Head::Up(n) => {
                let mut k: u8 = 0;
                while k < n
                    invariant
                        0 <= k <= n,
                        lead == Seq::new(n as nat, |i: int| seq!['.', '.']),
                        segs(parts@) == lead.take(k as int),
                    decreases n - k,
                {
                    let ghost before = segs(parts@);
                    parts.push(up_segment());
                    proof {
                        assert(segs(parts@) =~= before.push(seq!['.', '.']));
                        assert(lead.take(k + 1) =~= lead.take(k as int).push(seq!['.', '.']));
                    }
                    k = k + 1;
                }
                proof {
                    assert(lead.take(k as int) =~= lead);
                }
            },
            _ => {
                proof {
                    assert(segs(parts@) =~= lead);
                }
            },
        }
        let ghost names = segs(self.segments@);
        let mut i: usize = 0;
        while i < self.segments.len()
            invariant
                names == segs(self.segments@),
                0 <= i <= names.len(),
                segs(parts@) == lead + names.take(i as int),
            decreases names.len() - i,
        {
            let ghost before = segs(parts@);
            parts.push(self.segments[i].clone());
            proof {
                assert(segs(parts@) =~= before.push(names[i as int]));
                assert(lead + names.take(i + 1) =~= (lead + names.take(i as int)).push(names[i as int]));
            }
            i = i + 1;
        }
        proof {
            assert(names.take(i as int) =~= names);
        }
        join_with_slash(&parts)
    }
}

/// The parts joined by `/`.
fn join_with_slash(parts: &Vec<String>) -> (s: String)
    ensures
        s@ == join(segs(parts@), seq!['/']),
{
    let ghost ps = segs(parts@);
    let mut s = String::new();
    let mut i: usize = 0;
    while i < parts.len()
        invariant
            ps == segs(parts@),
            0 <= i <= ps.len(),
            s@ == join(ps.take(i as int), seq!['/']),
        decreases ps.len() - i,
    {
        if i > 0 {
            push_char(&mut s, '/');
        }
        push_str(&mut s, parts[i].as_str());
        proof {
            assert(ps.take(i + 1).drop_last() =~= ps.take(i as int));
            assert(ps.take(i + 1).last() == ps[i as int]);
            if i == 0 {
                assert(join(ps.take(0), seq!['/']) =~= Seq::<char>::empty());
                assert(s@ =~= join(ps.take(1), seq!['/']));
            } else {
                assert(s@ =~= join(ps.take(i + 1), seq!['/']));
            }
        }
        i = i + 1;
    }
    proof {
        assert(ps.take(i as int) =~= ps);
    }
    s
}

impl TsSurgery {
    /// The specifier `file` imports `target` by, in the style of the
    /// specifier it replaces.
    pub fn render(file: &Vec<String>, target: &Vec<String>, original: &ModulePath) -> (r: ModulePath)
        ensures
            relative_to(dir_of(segs(file@)), spelled_target(segs(target@), segs(original.segments@)), r),
    {
        let ghost t = segs(target@);
        let ghost o = segs(original.segments@);
        let mut dir = copy_path(file);
        if dir.len() > 0 {
            dir.pop();
        }
        proof {
            assert(segs(dir@) =~= dir_of(segs(file@)));
        }
        let empty = String::new();
        let k = original.segments.len();
        let oname: &str = if k > 0 {
            original.segments[k - 1].as_str()
        } else {
            empty.as_str()
        };
        proof {
            if k > 0 {
                assert(oname@ == o.last());
            } else {
                assert(oname@ =~= Seq::<char>::empty());
            }
        }
        let n = target.len();
        let named = n > 0 && !up(target[n - 1].as_str()) && !here(target[n - 1].as_str());
        let spelled: Vec<String> = if !named {
            copy_path(target)
        } else {
            let tname = target[n - 1].as_str();
            proof {
                assert(file_name(t) == Some(tname@));
                lemma_known_ext_fits(tname@, extensions());
            }
            match (TsLayout::known_extension(oname), TsLayout::known_extension(tname)) {
                (Some(oe), Some(e)) => {
                    let st = with_name(target, stem(tname, e));
                    let m = st.len();
                    let sname: String = if m > 0 && !up(st[m - 1].as_str()) && !here(st[m - 1].as_str()) {
                        st[m - 1].clone()
                    } else {
                        String::new()
                    };
                    proof {
                        assert(sname@ == match file_name(segs(st@)) {
                            Some(x) => x,
                            None => Seq::empty(),
                        });
                    }
                    with_name(&st, dotted(sname.as_str(), oe))
                },
                (None, Some(e)) => {
                    let s = stem(tname, e);
                    let without = with_name(target, stem(tname, e));
                    if str_eq(s.as_str(), "index") && !str_eq(oname, "index") && without.len() > 0 {
                        let mut w = without;
                        w.pop();
                        proof {
                            assert(segs(w@) =~= segs(without@).drop_last());
                        }
                        w
                    } else {
                        without
                    }
                },
                _ => copy_path(target),
            }
        };
        proof {
            assert(segs(spelled@) == spelled_target(t, o));
        }
        TsLayout::relative(&dir, &spelled)
    }

    /// The import statement that brings `name` from `target` into `from`.
    pub fn import_statement(from: &Vec<String>, target: &Vec<String>, name: &str) -> (s: String)
        ensures
            exists|p: ModulePath|
                relative_to(dir_of(segs(from@)), spelled_target(segs(target@), Seq::empty()), p)
                    && s@ == "import { "@ + name@ + " } from '"@ + spelled_specifier(p.head, segs(p.segments@)) + "';"@,
    {
        let bare = ModulePath { head: Head::Here, segments: Vec::new() };
        proof {
            assert(segs(bare.segments@) =~= Seq::<Seq<char>>::empty());
        }
        let p = TsSurgery::render(from, target, &bare);
        let spec = p.spelled();
        let mut s = String::new();
        push_str(&mut s, "import { ");
        push_str(&mut s, name);
        push_str(&mut s, " } from '");
        push_str(&mut s, spec.as_str());
        push_str(&mut s, "';");
        s
    }
}

} // verus!
