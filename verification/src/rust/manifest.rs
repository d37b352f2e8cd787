//! Cargo manifests: the crate a `Cargo.toml` declares, named as `use`
//! paths name it, and every crate it depends on under the name it is used
//! as. The TOML itself is read by the `toml` crate.

use vstd::prelude::*;

use crate::paths::{copy_path, segs};
use crate::rust::layout::{names_unique, underscore, underscored, Dependency, Package, RustLayout};
use crate::text::chars_of;

verus! {

// --------------------------------------------------------- the toml crate

/// `toml::map::Map`, the table type of the `toml` crate.
#[verifier::external_type_specification]
#[verifier::external_body]
#[verifier::reject_recursive_types(K)]
#[verifier::reject_recursive_types(V)]
pub struct ExTomlMap<K, V>(toml::map::Map<K, V>);

/// `toml::Value`, a TOML value of any kind.
#[verifier::external_type_specification]
#[verifier::external_body]
pub struct ExTomlValue(toml::Value);

/// The table that `text` parses to, when it is a TOML document.
pub uninterp spec fn toml_document(text: Seq<char>) -> Option<toml::Table>;

/// A table's entries, in the order it iterates them.
pub uninterp spec fn table_entries(t: toml::Table) -> Seq<(Seq<char>, toml::Value)>;

/// A value's string, when it is a string.
pub uninterp spec fn value_text(v: toml::Value) -> Option<Seq<char>>;

/// A value's table, when it is a table.
pub uninterp spec fn value_table(v: toml::Value) -> Option<toml::Table>;

/// The value of the first entry named `key`.
pub open spec fn entry_of(es: Seq<(Seq<char>, toml::Value)>, key: Seq<char>) -> Option<toml::Value>
    decreases es.len(),
{
    if es.len() == 0 {
        None
    } else if es[0].0 == key {
        Some(es[0].1)
    } else {
        entry_of(es.drop_first(), key)
    }
}

/// The value under `key` of a value that is a table.
pub open spec fn value_entry(v: toml::Value, key: Seq<char>) -> Option<toml::Value> {
    match value_table(v) {
        Some(t) => entry_of(table_entries(t), key),
        None => None,
    }
}

/// Parses `text` as a TOML table: a wrapper of `toml::Table`'s `FromStr`.
/// The contract names the outcome: the same text always gives the same
/// table, or none when it is not TOML.
#[verifier::external_body]
fn parse_table(text: &str) -> (r: Option<toml::Table>)
    ensures
        r == toml_document(text@),
{
    text.parse::<toml::Table>().ok()
}

/// The entries of a table: a wrapper of `toml::map::Map::iter`. The
/// contract claims they are the entries the table holds, in its order.
#[verifier::external_body]
fn entries<'a>(t: &'a toml::Table) -> (r: Vec<(&'a String, &'a toml::Value)>)
    ensures
        r@.map_values(|e: (&'a String, &'a toml::Value)| (e.0@, *e.1)) == table_entries(*t),
{
    t.iter().collect()
}

/// The value of a table's entry: a wrapper of `toml::map::Map::get`. The
/// contract claims it is the value of the entry with that key, and none
/// when there is no such entry.
#[verifier::external_body]
fn table_get<'a>(t: &'a toml::Table, key: &str) -> (r: Option<&'a toml::Value>)
    ensures
        match r {
            Some(x) => entry_of(table_entries(*t), key@) == Some(*x),
            None => entry_of(table_entries(*t), key@) is None,
        },
{
    t.get(key)
}

/// The value under a key of a value: a wrapper of `toml::Value::get` with a
/// string index. The contract claims, as the source shows, that it looks
/// the key up when the value is a table and gives none otherwise.
#[verifier::external_body]
fn value_get<'a>(v: &'a toml::Value, key: &str) -> (r: Option<&'a toml::Value>)
    ensures
        match r {
            Some(x) => value_entry(*v, key@) == Some(*x),
            None => value_entry(*v, key@) is None,
        },
{
    v.get(key)
}

/// A value's string: a wrapper of `toml::Value::as_str`.
#[verifier::external_body]
fn value_str(v: &toml::Value) -> (r: Option<String>)
    ensures
        match r {
            Some(s) => value_text(*v) == Some(s@),
            None => value_text(*v) is None,
        },
{
    v.as_str().map(String::from)
}

/// A value's table: a wrapper of `toml::Value::as_table`.
#[verifier::external_body]
fn value_as_table<'a>(v: &'a toml::Value) -> (r: Option<&'a toml::Table>)
    ensures
        match r {
            Some(x) => value_table(*v) == Some(*x),
            None => value_table(*v) is None,
        },
{
    v.as_table()
}

// ------------------------------------------------------------- manifests

/// A dependency as values: the name it is used as, and its package.
pub open spec fn dep_view(d: Dependency) -> (Seq<char>, Seq<char>) {
    (d.used_as@, d.package@)
}

/// `a` sorts before `b` as `str` sorts: by code points, a prefix first.
pub open spec fn text_lt(a: Seq<char>, b: Seq<char>) -> bool
    decreases a.len(),
{
    if b.len() == 0 {
        false
    } else if a.len() == 0 {
        true
    } else if a[0] != b[0] {
        (a[0] as u32) < (b[0] as u32)
    } else {
        text_lt(a.drop_first(), b.drop_first())
    }
}

/// Where a dependency named `k` goes in `s`: before the first one whose
/// name sorts after it.
pub open spec fn slot(s: Seq<(Seq<char>, Seq<char>)>, k: Seq<char>) -> int
    decreases s.len(),
{
    if s.len() == 0 || text_lt(k, s[0].0) {
        0
    } else {
        1 + slot(s.drop_first(), k)
    }
}

/// The dependencies ordered by name, those of one name in the order they
/// came: a stable sort.
pub open spec fn sorted_by_name(s: Seq<(Seq<char>, Seq<char>)>) -> Seq<(Seq<char>, Seq<char>)>
    decreases s.len(),
{
    if s.len() == 0 {
        s
    } else {
        let t = sorted_by_name(s.drop_last());
        t.insert(slot(t, s.last().0), s.last())
    }
}

/// Consecutive dependencies of one name reduced to the first of them.
pub open spec fn dedup_by_name(s: Seq<(Seq<char>, Seq<char>)>) -> Seq<(Seq<char>, Seq<char>)>
    decreases s.len(),
{
    if s.len() <= 1 {
        s
    } else if s.last().0 == s[s.len() - 2].0 {
        dedup_by_name(s.drop_last())
    } else {
        dedup_by_name(s.drop_last()).push(s.last())
    }
}

/// The table under `section`, when there is one.
pub open spec fn section_table(doc: toml::Table, section: Seq<char>) -> Option<toml::Table> {
    match entry_of(table_entries(doc), section) {
        Some(v) => value_table(v),
        None => None,
    }
}

/// `[section] name`, when it is a string.
pub open spec fn section_name(doc: toml::Table, section: Seq<char>) -> Option<Seq<char>> {
    match entry_of(table_entries(doc), section) {
        Some(v) => match value_entry(v, "name"@) {
            Some(n) => value_text(n),
            None => None,
        },
        None => None,
    }
}

/// The dependencies a table lists: each key, with `-` as `_`, used as the
/// package its `package` key names, else the package of the key's name.
pub open spec fn listed(es: Seq<(Seq<char>, toml::Value)>) -> Seq<(Seq<char>, Seq<char>)> {
    es.map_values(|e: (Seq<char>, toml::Value)| (underscored(e.0), match value_entry(e.1, "package"@) {
        Some(p) => match value_text(p) {
            Some(t) => t,
            None => e.0,
        },
        None => e.0,
    }))
}

/// The `[dependencies]` tables of the targets, in order.
pub open spec fn target_tables(es: Seq<(Seq<char>, toml::Value)>) -> Seq<toml::Table>
    decreases es.len(),
{
    if es.len() == 0 {
        seq![]
    } else {
        let rest = target_tables(es.drop_last());
        match value_entry(es.last().1, "dependencies"@) {
            Some(d) => match value_table(d) {
                Some(t) => rest.push(t),
                None => rest,
            },
            None => rest,
        }
    }
}

/// A table when there is one.
pub open spec fn one(t: Option<toml::Table>) -> Seq<toml::Table> {
    match t {
        Some(x) => seq![x],
        None => seq![],
    }
}

/// Every table of dependencies: the normal, dev and build ones, then each
/// target's.
pub open spec fn dependency_tables(doc: toml::Table) -> Seq<toml::Table> {
    one(section_table(doc, "dependencies"@)) + one(section_table(doc, "dev-dependencies"@)) + one(
        section_table(doc, "build-dependencies"@),
    ) + match section_table(doc, "target"@) {
        Some(targets) => target_tables(table_entries(targets)),
        None => seq![],
    }
}

/// The dependencies of the tables, table after table.
pub open spec fn all_listed(ts: Seq<toml::Table>) -> Seq<(Seq<char>, Seq<char>)>
    decreases ts.len(),
{
    if ts.len() == 0 {
        seq![]
    } else {
        all_listed(ts.drop_last()) + listed(table_entries(ts.last()))
    }
}

/// The directory of a manifest.
pub open spec fn dir_of(manifest: Seq<Seq<char>>) -> Seq<Seq<char>> {
    if manifest.len() > 0 {
        manifest.drop_last()
    } else {
        manifest
    }
}

/// The crate a manifest declares: named as `use` paths name it (`[lib]
/// name`, else `[package] name` with `-` as `_`), with its package name,
/// its directory, and every dependency by name, one per name. `None` for
/// a manifest that is not TOML or declares no package.
pub open spec fn manifest_package(manifest: Seq<Seq<char>>, text: Seq<char>) -> Option<(Seq<char>, Seq<char>, Seq<Seq<char>>, Seq<(Seq<char>, Seq<char>)>)> {
    match toml_document(text) {
        None => None,
        Some(doc) => match section_name(doc, "package"@) {
            None => None,
            Some(name) => Some(
                (
                    match section_name(doc, "lib"@) {
                        Some(l) => l,
                        None => underscored(name),
                    },
                    name,
                    dir_of(manifest),
                    dedup_by_name(sorted_by_name(all_listed(dependency_tables(doc)))),
                ),
            ),
        },
    }
}

/// A crate as values.
pub open spec fn package_view(p: Package) -> (Seq<char>, Seq<char>, Seq<Seq<char>>, Seq<(Seq<char>, Seq<char>)>) {
    (p.id@, p.name@, segs(p.root@), p.dependencies@.map_values(|d: Dependency| dep_view(d)))
}

/// Whether `a` sorts before `b`.
fn sorts_before(a: &str, b: &str) -> (r: bool)
    ensures
        r == text_lt(a@, b@),
{
    let x = chars_of(a);
    let y = chars_of(b);
    let mut i: usize = 0;
    proof {
        assert(x@.skip(0) =~= x@);
        assert(y@.skip(0) =~= y@);
    }
    while i < x.len() && i < y.len() && x[i] == y[i]
        invariant
            0 <= i <= x@.len(),
            i <= y@.len(),
            x@ == a@,
            y@ == b@,
            text_lt(a@, b@) == text_lt(x@.skip(i as int), y@.skip(i as int)),
        decreases x@.len() - i,
    {
        proof {
            assert(x@.skip(i as int).drop_first() =~= x@.skip(i + 1));
            assert(y@.skip(i as int).drop_first() =~= y@.skip(i + 1));
        }
        i = i + 1;
    }
    proof {
        if i < x@.len() {
            assert(x@.skip(i as int)[0] == x@[i as int]);
        }
        if i < y@.len() {
            assert(y@.skip(i as int)[0] == y@[i as int]);
        }
    }
    if i == y.len() {
        false
    } else if i == x.len() {
        true
    } else {
        (x[i] as u32) < (y[i] as u32)
    }
}

/// A copy of a dependency.
fn copy_dependency(d: &Dependency) -> (r: Dependency)
    ensures
        dep_view(r) == dep_view(*d),
{
    Dependency { used_as: d.used_as.clone(), package: d.package.clone() }
}

/// Where a dependency named `k` goes in `s`.
fn slot_of(s: &Vec<Dependency>, k: &str) -> (r: usize)
    ensures
        r as int == slot(s@.map_values(|d: Dependency| dep_view(d)), k@),
        r <= s@.len(),
{
    let ghost v = s@.map_values(|d: Dependency| dep_view(d));
    let mut i: usize = 0;
    proof {
        assert(v.skip(0) =~= v);
    }
    while i < s.len() && !sorts_before(k, s[i].used_as.as_str())
        invariant
            0 <= i <= s@.len(),
            v == s@.map_values(|d: Dependency| dep_view(d)),
            slot(v, k@) == i + slot(v.skip(i as int), k@),
        decreases s@.len() - i,
    {
        proof {
            assert(v.skip(i as int)[0] == dep_view(s@[i as int]));
            assert(v.skip(i as int).drop_first() =~= v.skip(i + 1));
        }
        i = i + 1;
    }
    proof {
        if i < s@.len() {
            assert(v.skip(i as int)[0] == dep_view(s@[i as int]));
        }
    }
    i
}

/// The dependencies ordered by name, stably.
fn sort_by_name(s: Vec<Dependency>) -> (r: Vec<Dependency>)
    ensures
        r@.map_values(|d: Dependency| dep_view(d)) == sorted_by_name(s@.map_values(|d: Dependency| dep_view(d))),
{
    let ghost v = s@.map_values(|d: Dependency| dep_view(d));
    let mut r: Vec<Dependency> = Vec::new();
    let mut i: usize = 0;
    proof {
        assert(v.take(0) =~= Seq::<(Seq<char>, Seq<char>)>::empty());
        assert(r@.map_values(|d: Dependency| dep_view(d)) =~= Seq::<(Seq<char>, Seq<char>)>::empty());
    }
    while i < s.len()
        invariant
            0 <= i <= s@.len(),
            v == s@.map_values(|d: Dependency| dep_view(d)),
            r@.map_values(|d: Dependency| dep_view(d)) == sorted_by_name(v.take(i as int)),
        decreases s@.len() - i,
    {
        let d = copy_dependency(&s[i]);
        let at = slot_of(&r, d.used_as.as_str());
        let ghost before = r@;
        r.insert(at, d);
        proof {
            let ghost t = v.take(i + 1);
            assert(t.drop_last() =~= v.take(i as int));
            assert(t.last() == v[i as int]);
            assert(dep_view(d) == v[i as int]);
            assert(r@.map_values(|x: Dependency| dep_view(x)) =~= before.map_values(|x: Dependency| dep_view(x)).insert(at as int, dep_view(d)));
        }
        i = i + 1;
    }
    proof {
        assert(v.take(i as int) =~= v);
    }
    r
}

/// Consecutive dependencies of one name reduced to the first.
fn dedup_names(s: &Vec<Dependency>) -> (r: Vec<Dependency>)
    ensures
        r@.map_values(|d: Dependency| dep_view(d)) == dedup_by_name(s@.map_values(|d: Dependency| dep_view(d))),
{
    let ghost v = s@.map_values(|d: Dependency| dep_view(d));
    let mut r: Vec<Dependency> = Vec::new();
    let mut i: usize = 0;
    proof {
        assert(r@.map_values(|d: Dependency| dep_view(d)) =~= dedup_by_name(v.take(0)));
    }
    while i < s.len()
        invariant
            0 <= i <= s@.len(),
            v == s@.map_values(|d: Dependency| dep_view(d)),
            r@.map_values(|d: Dependency| dep_view(d)) == dedup_by_name(v.take(i as int)),
        decreases s@.len() - i,
    {
        let ghost before = r@.map_values(|d: Dependency| dep_view(d));
        let ghost t = v.take(i + 1);
        proof {
            assert(t.drop_last() =~= v.take(i as int));
            assert(t.last() == dep_view(s@[i as int]));
            if i > 0 {
                assert(t[t.len() - 2] == dep_view(s@[i - 1]));
            }
        }
        if i == 0 || !crate::text::str_eq(s[i].used_as.as_str(), s[i - 1].used_as.as_str()) {
            r.push(copy_dependency(&s[i]));
            proof {
                if i == 0 {
                    assert(v.take(0) =~= Seq::<(Seq<char>, Seq<char>)>::empty());
                    assert(dedup_by_name(t) =~= seq![dep_view(s@[0])]);
                }
                assert(r@.map_values(|d: Dependency| dep_view(d)) =~= before.push(dep_view(s@[i as int])));
            }
        }
        i = i + 1;
    }
    proof {
        assert(v.take(i as int) =~= v);
    }
    r
}

/// The value under `key` of a table value.
fn entry_value<'a>(doc: &'a toml::Table, section: &str) -> (r: Option<&'a toml::Table>)
    ensures
        match r {
            Some(t) => section_table(*doc, section@) == Some(*t),
            None => section_table(*doc, section@) is None,
        },
{
    match table_get(doc, section) {
        Some(v) => value_as_table(v),
        None => None,
    }
}

/// `[section] name`.
fn name_in(doc: &toml::Table, section: &str) -> (r: Option<String>)
    ensures
        match r {
            Some(n) => section_name(*doc, section@) == Some(n@),
            None => section_name(*doc, section@) is None,
        },
{
    match table_get(doc, section) {
        Some(v) => match value_get(v, "name") {
            Some(n) => value_str(n),
            None => None,
        },
        None => None,
    }
}

/// Appends the dependencies a table lists.
fn push_listed(out: &mut Vec<Dependency>, t: &toml::Table)
    ensures
        final(out)@.map_values(|d: Dependency| dep_view(d)) == old(out)@.map_values(|d: Dependency| dep_view(d)) + listed(table_entries(*t)),
{
    let es = entries(t);
    let ghost start = out@.map_values(|d: Dependency| dep_view(d));
    let ghost l = listed(table_entries(*t));
    let mut i: usize = 0;
    proof {
        assert(l.take(0) =~= Seq::<(Seq<char>, Seq<char>)>::empty());
        assert(start + l.take(0) =~= start);
    }
    while i < es.len()
        invariant
            0 <= i <= es@.len(),
            es@.map_values(|e: (&String, &toml::Value)| (e.0@, *e.1)) == table_entries(*t),
            l == listed(table_entries(*t)),
            out@.map_values(|d: Dependency| dep_view(d)) == start + l.take(i as int),
        decreases es@.len() - i,
    {
        let (key, spec) = es[i];
        proof {
            assert(table_entries(*t)[i as int] == (key@, *spec));
        }
        let package = match value_get(spec, "package") {
            Some(p) => match value_str(p) {
                Some(s) => s,
                None => key.clone(),
            },
            None => key.clone(),
        };
        let d = Dependency { used_as: underscore(key.as_str()), package };
        let ghost before = out@.map_values(|x: Dependency| dep_view(x));
        out.push(d);
        proof {
            assert(l[i as int] == dep_view(d));
            assert(out@.map_values(|x: Dependency| dep_view(x)) =~= before.push(dep_view(d)));
            assert(l.take(i + 1) =~= l.take(i as int).push(l[i as int]));
        }
        i = i + 1;
    }
    proof {
        assert(l.take(i as int) =~= l);
    }
}

impl RustLayout {
    /// The crate a manifest declares, with every crate it depends on under
    /// the name it is used as; `None` for a workspace-only manifest.
    pub fn package(manifest: &Vec<String>, text: &str) -> (r: Option<Package>)
        ensures
            match r {
                Some(p) => manifest_package(segs(manifest@), text@) == Some(package_view(p)) && names_unique(
                    p.dependencies@,
                ),
                None => manifest_package(segs(manifest@), text@) is None,
            },
    {
        let doc = match parse_table(text) {
            Some(d) => d,
            None => return None,
        };
        let name = match name_in(&doc, "package") {
            Some(n) => n,
            None => return None,
        };
        let id = match name_in(&doc, "lib") {
            Some(l) => l,
            None => underscore(name.as_str()),
        };
        let mut tables: Vec<&toml::Table> = Vec::new();
        match entry_value(&doc, "dependencies") {
            Some(t) => tables.push(t),
            None => {},
        }
        match entry_value(&doc, "dev-dependencies") {
            Some(t) => tables.push(t),
            None => {},
        }
        match entry_value(&doc, "build-dependencies") {
            Some(t) => tables.push(t),
            None => {},
        }
        let ghost head = tables@.map_values(|t: &toml::Table| *t);
        proof {
            assert(head =~= one(section_table(doc, "dependencies"@)) + one(section_table(doc, "dev-dependencies"@)) + one(
                section_table(doc, "build-dependencies"@),
            ));
        }
        match entry_value(&doc, "target") {
            Some(targets) => {
                let es = entries(targets);
                let ghost te = table_entries(*targets);
                let mut i: usize = 0;
                proof {
                    assert(te.take(0) =~= Seq::<(Seq<char>, toml::Value)>::empty());
                    assert(head + target_tables(te.take(0)) =~= head);
                }
                while i < es.len()
                    invariant
                        0 <= i <= es@.len(),
                        es@.map_values(|e: (&String, &toml::Value)| (e.0@, *e.1)) == te,
                        tables@.map_values(|t: &toml::Table| *t) == head + target_tables(te.take(i as int)),
                    decreases es@.len() - i,
                {
                    let (_, target) = es[i];
                    proof {
                        assert(te.take(i + 1).drop_last() =~= te.take(i as int));
                        assert(te.take(i + 1).last() == te[i as int]);
                        assert(te[i as int].1 == *target);
                    }
                    let ghost before = tables@.map_values(|t: &toml::Table| *t);
                    match value_get(target, "dependencies") {
                        Some(d) => match value_as_table(d) {
                            Some(t) => {
                                tables.push(t);
                                proof {
                                    assert(tables@.map_values(|t: &toml::Table| *t) =~= before.push(*t));
                                }
                            },
                            None => {},
                        },
                        None => {},
                    }
                    i = i + 1;
                }
                proof {
                    assert(te.take(i as int) =~= te);
                }
            },
            None => {
                proof {
                    assert(head + Seq::<toml::Table>::empty() =~= head);
                }
            },
        }
        let ghost ts = tables@.map_values(|t: &toml::Table| *t);
        proof {
            assert(ts == dependency_tables(doc));
        }
        let mut deps: Vec<Dependency> = Vec::new();
        let mut k: usize = 0;
        proof {
            assert(ts.take(0) =~= Seq::<toml::Table>::empty());
            assert(deps@.map_values(|d: Dependency| dep_view(d)) =~= all_listed(ts.take(0)));
        }
        while k < tables.len()
            invariant
                0 <= k <= tables@.len(),
                ts == tables@.map_values(|t: &toml::Table| *t),
                deps@.map_values(|d: Dependency| dep_view(d)) == all_listed(ts.take(k as int)),
            decreases tables@.len() - k,
        {
            push_listed(&mut deps, tables[k]);
            proof {
                assert(ts.take(k + 1).drop_last() =~= ts.take(k as int));
                assert(ts.take(k + 1).last() == ts[k as int]);
            }
            k = k + 1;
        }
        proof {
            assert(ts.take(k as int) =~= ts);
        }
        let sorted = sort_by_name(deps);
        let dependencies = dedup_names(&sorted);
        let mut root = copy_path(manifest);
        if root.len() > 0 {
            root.pop();
        }
        proof {
            assert(segs(root@) =~= dir_of(segs(manifest@)));
        }
        let p = Package { id, name, root, dependencies };
        proof {
            law_dependencies_go_by_distinct_names(segs(manifest@), text@);
            let dv = p.dependencies@.map_values(|d: Dependency| dep_view(d));
            assert(manifest_dependencies(segs(manifest@), text@) == dv);
            assert forall|i: int, j: int| 0 <= i < j < p.dependencies@.len() implies p.dependencies@[i].used_as@
                != p.dependencies@[j].used_as@ by {
                assert(dv[i].0 == p.dependencies@[i].used_as@);
                assert(dv[j].0 == p.dependencies@[j].used_as@);
            }
        }
        Some(p)
    }
}

// ------------------------------------------------------------------ laws

proof fn lemma_text_lt_irreflexive(a: Seq<char>)
    ensures
        !text_lt(a, a),
    decreases a.len(),
{
    if a.len() > 0 {
        lemma_text_lt_irreflexive(a.drop_first());
    }
}

proof fn lemma_text_lt_transitive(a: Seq<char>, b: Seq<char>, c: Seq<char>)
    requires
        text_lt(a, b),
        text_lt(b, c),
    ensures
        text_lt(a, c),
    decreases a.len(),
{
    if a.len() > 0 && b.len() > 0 && c.len() > 0 && a[0] == b[0] && b[0] == c[0] {
        lemma_text_lt_transitive(a.drop_first(), b.drop_first(), c.drop_first());
    }
}

proof fn lemma_text_lt_total(a: Seq<char>, b: Seq<char>)
    ensures
        a == b || text_lt(a, b) || text_lt(b, a),
    decreases a.len(),
{
    if a.len() > 0 && b.len() > 0 {
        if a[0] == b[0] {
            lemma_text_lt_total(a.drop_first(), b.drop_first());
            if a.drop_first() == b.drop_first() {
                assert(a =~= seq![a[0]] + a.drop_first());
                assert(b =~= seq![b[0]] + b.drop_first());
            }
        } else {
            assert(a[0] as u32 != b[0] as u32) by {
                vstd::utf8::char_u32_cast(a[0], a[0] as u32);
                vstd::utf8::char_u32_cast(b[0], b[0] as u32);
            }
        }
    } else if a.len() == 0 && b.len() == 0 {
        assert(a =~= b);
    }
}

/// The names do not go down.
pub open spec fn ascending(s: Seq<(Seq<char>, Seq<char>)>) -> bool {
    forall|i: int, j: int| 0 <= i < j < s.len() ==> !text_lt(#[trigger] s[j].0, #[trigger] s[i].0)
}

/// The names go up, each after the one before.
pub open spec fn strictly_ascending(s: Seq<(Seq<char>, Seq<char>)>) -> bool {
    forall|i: int, j: int| 0 <= i < j < s.len() ==> text_lt(#[trigger] s[i].0, #[trigger] s[j].0)
}

proof fn lemma_slot_bounds(t: Seq<(Seq<char>, Seq<char>)>, k: Seq<char>)
    requires
        ascending(t),
    ensures
        0 <= slot(t, k) <= t.len(),
        forall|i: int| 0 <= i < slot(t, k) ==> !text_lt(k, #[trigger] t[i].0),
        forall|i: int| slot(t, k) <= i < t.len() ==> text_lt(k, #[trigger] t[i].0),
    decreases t.len(),
{
    if t.len() > 0 && !text_lt(k, t[0].0) {
        let d = t.drop_first();
        assert forall|i: int, j: int| 0 <= i < j < d.len() implies !text_lt(#[trigger] d[j].0, #[trigger] d[i].0) by {
            assert(d[j] == t[j + 1]);
            assert(d[i] == t[i + 1]);
        }
        lemma_slot_bounds(d, k);
        assert forall|i: int| 0 <= i < slot(t, k) implies !text_lt(k, #[trigger] t[i].0) by {
            if i > 0 {
                assert(t[i] == d[i - 1]);
            }
        }
        assert forall|i: int| slot(t, k) <= i < t.len() implies text_lt(k, #[trigger] t[i].0) by {
            assert(t[i] == d[i - 1]);
        }
    } else if t.len() > 0 {
        assert forall|i: int| 0 <= i < t.len() implies text_lt(k, #[trigger] t[i].0) by {
            if i > 0 {
                assert(!text_lt(t[i].0, t[0].0));
                lemma_text_lt_total(t[i].0, t[0].0);
                if t[i].0 != t[0].0 {
                    lemma_text_lt_transitive(k, t[0].0, t[i].0);
                }
            }
        }
    }
}

proof fn lemma_sorted_ascending(s: Seq<(Seq<char>, Seq<char>)>)
    ensures
        ascending(sorted_by_name(s)),
        sorted_by_name(s).len() == s.len(),
    decreases s.len(),
{
    if s.len() > 0 {
        let t = sorted_by_name(s.drop_last());
        lemma_sorted_ascending(s.drop_last());
        let x = s.last();
        lemma_slot_bounds(t, x.0);
        let at = slot(t, x.0);
        let r = t.insert(at, x);
        assert forall|i: int, j: int| 0 <= i < j < r.len() implies !text_lt(#[trigger] r[j].0, #[trigger] r[i].0) by {
            if j < at {
                assert(r[i] == t[i] && r[j] == t[j]);
            } else if j == at {
                assert(r[i] == t[i]);
                assert(!text_lt(x.0, t[i].0));
            } else if i < at {
                assert(r[i] == t[i] && r[j] == t[j - 1]);
            } else if i == at {
                assert(r[j] == t[j - 1]);
                assert(text_lt(x.0, t[j - 1].0));
                if text_lt(t[j - 1].0, x.0) {
                    lemma_text_lt_transitive(x.0, t[j - 1].0, x.0);
                    lemma_text_lt_irreflexive(x.0);
                }
            } else {
                assert(r[i] == t[i - 1] && r[j] == t[j - 1]);
            }
        }
    }
}

proof fn lemma_dedup_strict(s: Seq<(Seq<char>, Seq<char>)>)
    requires
        ascending(s),
    ensures
        strictly_ascending(dedup_by_name(s)),
        dedup_by_name(s).len() <= s.len(),
        s.len() > 0 ==> dedup_by_name(s).len() > 0 && dedup_by_name(s).last().0 == s.last().0,
    decreases s.len(),
{
    if s.len() > 1 {
        let d = s.drop_last();
        assert forall|i: int, j: int| 0 <= i < j < d.len() implies !text_lt(#[trigger] d[j].0, #[trigger] d[i].0) by {
            assert(d[j] == s[j] && d[i] == s[i]);
        }
        lemma_dedup_strict(d);
        let m = dedup_by_name(d);
        if s.last().0 != s[s.len() - 2].0 {
            let r = m.push(s.last());
            assert(!text_lt(s.last().0, s[s.len() - 2].0));
            lemma_text_lt_total(s.last().0, s[s.len() - 2].0);
            assert(text_lt(m.last().0, s.last().0));
            assert forall|i: int, j: int| 0 <= i < j < r.len() implies text_lt(#[trigger] r[i].0, #[trigger] r[j].0) by {
                if j == r.len() - 1 {
                    if i < m.len() - 1 {
                        assert(text_lt(m[i].0, m[m.len() - 1].0));
                        lemma_text_lt_transitive(m[i].0, m.last().0, s.last().0);
                    }
                } else {
                    assert(r[i] == m[i] && r[j] == m[j]);
                }
            }
        }
    }
}

/// The dependencies a manifest lists, as its crate keeps them.
pub open spec fn manifest_dependencies(manifest: Seq<Seq<char>>, text: Seq<char>) -> Seq<(Seq<char>, Seq<char>)> {
    match manifest_package(manifest, text) {
        Some(p) => p.3,
        None => seq![],
    }
}

/// A manifest's crate depends on each crate under one name: its
/// dependencies come ordered by name, no name twice.
pub proof fn law_dependencies_go_by_distinct_names(manifest: Seq<Seq<char>>, text: Seq<char>)
    ensures
        strictly_ascending(manifest_dependencies(manifest, text)),
        forall|i: int, j: int| 0 <= i < j < manifest_dependencies(manifest, text).len()
            ==> #[trigger] manifest_dependencies(manifest, text)[i].0 != #[trigger] manifest_dependencies(manifest, text)[j].0,
{
    let d = manifest_dependencies(manifest, text);
    if manifest_package(manifest, text) is Some {
        let doc = toml_document(text)->0;
        let raw = all_listed(dependency_tables(doc));
        lemma_sorted_ascending(raw);
        lemma_dedup_strict(sorted_by_name(raw));
    }
    assert forall|i: int, j: int| 0 <= i < j < d.len() implies #[trigger] d[i].0 != #[trigger] d[j].0 by {
        assert(text_lt(d[i].0, d[j].0));
        if d[i].0 == d[j].0 {
            lemma_text_lt_irreflexive(d[i].0);
        }
    }
}

} // verus!
