//! Paths as their segments: workspace-relative file and directory names,
//! compared and copied segment by segment.

use vstd::prelude::*;

use crate::text::{chars_of, join, push_str, str_eq};

verus! {

/// The segments of a path as characters.
pub open spec fn segs(p: Seq<String>) -> Seq<Seq<char>> {
    p.map_values(|s: String| s@)
}

/// `..`, one directory up.
pub open spec fn is_up(s: Seq<char>) -> bool {
    s == seq!['.', '.']
}

/// A segment that names nothing: empty, or `.`.
pub open spec fn is_here(s: Seq<char>) -> bool {
    s.len() == 0 || s == seq!['.']
}

/// `s` names nothing: empty, or `.`.
pub fn here(s: &str) -> (r: bool)
    ensures
        r == is_here(s@),
{
    let c = chars_of(s);
    proof {
        if c@.len() == 1 && c@[0] == '.' {
            assert(c@ =~= seq!['.']);
        }
    }
    c.len() == 0 || (c.len() == 1 && c[0] == '.')
}

/// `s` is `..`.
pub fn up(s: &str) -> (r: bool)
    ensures
        r == is_up(s@),
{
    let c = chars_of(s);
    proof {
        if c@.len() == 2 && c@[0] == '.' && c@[1] == '.' {
            assert(c@ =~= seq!['.', '.']);
        }
    }
    c.len() == 2 && c[0] == '.' && c[1] == '.'
}

/// Copies of the segments, in order.
pub fn copy_path(p: &Vec<String>) -> (r: Vec<String>)
    ensures
        r@ == p@,
{
    let mut r: Vec<String> = Vec::new();
    let mut i: usize = 0;
    while i < p.len()
        invariant
            0 <= i <= p@.len(),
            r@ == p@.take(i as int),
        decreases p@.len() - i,
    {
        r.push(p[i].clone());
        proof {
            assert(p@.take(i + 1) =~= p@.take(i as int).push(p@[i as int]));
        }
        i = i + 1;
    }
    proof {
        assert(p@.take(i as int) =~= p@);
    }
    r
}

/// Two paths with the same segments.
pub fn same_path(a: &Vec<String>, b: &Vec<String>) -> (r: bool)
    ensures
        r == (segs(a@) == segs(b@)),
{
    if a.len() != b.len() {
        proof {
            assert(segs(a@).len() != segs(b@).len());
        }
        return false;
    }
    let mut i: usize = 0;
    while i < a.len()
        invariant
            a@.len() == b@.len(),
            0 <= i <= a@.len(),
            forall|j: int| 0 <= j < i ==> a@[j]@ == b@[j]@,
        decreases a@.len() - i,
    {
        if !str_eq(a[i].as_str(), b[i].as_str()) {
            proof {
                assert(segs(a@)[i as int] != segs(b@)[i as int]);
            }
            return false;
        }
        i = i + 1;
    }
    proof {
        assert(segs(a@) =~= segs(b@));
    }
    true
}

/// `a` is where `b` starts: its first segments, or all of them.
pub open spec fn is_prefix(a: Seq<Seq<char>>, b: Seq<Seq<char>>) -> bool {
    a.len() <= b.len() && b.take(a.len() as int) == a
}

/// Whether `p` starts with the segments of `prefix`.
pub fn starts_with(prefix: &Vec<String>, p: &Vec<String>) -> (r: bool)
    ensures
        r == is_prefix(segs(prefix@), segs(p@)),
{
    if prefix.len() > p.len() {
        return false;
    }
    let mut i: usize = 0;
    while i < prefix.len()
        invariant
            prefix@.len() <= p@.len(),
            0 <= i <= prefix@.len(),
            forall|j: int| 0 <= j < i ==> prefix@[j]@ == p@[j]@,
        decreases prefix@.len() - i,
    {
        if !str_eq(prefix[i].as_str(), p[i].as_str()) {
            proof {
                assert(segs(p@).take(prefix@.len() as int)[i as int] != segs(prefix@)[i as int]);
            }
            return false;
        }
        i = i + 1;
    }
    proof {
        assert(segs(p@).take(prefix@.len() as int) =~= segs(prefix@));
    }
    true
}

/// The segments of `a`, then those of `b`.
pub fn concat(a: &Vec<String>, b: &Vec<String>) -> (r: Vec<String>)
    ensures
        segs(r@) == segs(a@) + segs(b@),
{
    let mut r = copy_path(a);
    let mut i: usize = 0;
    while i < b.len()
        invariant
            0 <= i <= b@.len(),
            segs(r@) == segs(a@) + segs(b@).take(i as int),
        decreases b@.len() - i,
    {
        let ghost before = segs(r@);
        r.push(b[i].clone());
        proof {
            assert(segs(r@) =~= before.push(b@[i as int]@));
            assert(segs(b@).take(i + 1) =~= segs(b@).take(i as int).push(b@[i as int]@));
        }
        i = i + 1;
    }
    proof {
        assert(segs(b@).take(i as int) =~= segs(b@));
    }
    r
}

/// The segments of `p` from the `k`-th on.
pub fn skip(p: &Vec<String>, k: usize) -> (r: Vec<String>)
    requires
        k <= p@.len(),
    ensures
        segs(r@) == segs(p@).skip(k as int),
{
    let mut r: Vec<String> = Vec::new();
    let mut i = k;
    while i < p.len()
        invariant
            k <= i <= p@.len(),
            segs(r@) == segs(p@).subrange(k as int, i as int),
        decreases p@.len() - i,
    {
        let ghost before = segs(r@);
        r.push(p[i].clone());
        proof {
            assert(segs(r@) =~= before.push(p@[i as int]@));
            assert(segs(p@).subrange(k as int, i + 1) =~= segs(p@).subrange(k as int, i as int).push(p@[i as int]@));
        }
        i = i + 1;
    }
    proof {
        assert(segs(p@).subrange(k as int, i as int) =~= segs(p@).skip(k as int));
    }
    r
}

/// Whether one of `files` is the path `p`.
pub fn holds(files: &Vec<Vec<String>>, p: &Vec<String>) -> (r: bool)
    ensures
        r == exists|i: int| 0 <= i < files@.len() && segs(#[trigger] files@[i]@) == segs(p@),
{
    let mut i: usize = 0;
    while i < files.len()
        invariant
            0 <= i <= files@.len(),
            forall|j: int| 0 <= j < i ==> segs(#[trigger] files@[j]@) != segs(p@),
        decreases files@.len() - i,
    {
        if same_path(&files[i], p) {
            return true;
        }
        i = i + 1;
    }
    false
}

/// The segments joined by `sep`.
pub fn joined(parts: &Vec<String>, sep: &str) -> (s: String)
    ensures
        s@ == join(segs(parts@), sep@),
{
    let ghost ps = segs(parts@);
    let mut s = String::new();
    let mut i: usize = 0;
    while i < parts.len()
        invariant
            ps == segs(parts@),
            0 <= i <= ps.len(),
            s@ == join(ps.take(i as int), sep@),
        decreases ps.len() - i,
    {
        if i > 0 {
            push_str(&mut s, sep);
        }
        push_str(&mut s, parts[i].as_str());
        proof {
            assert(ps.take(i + 1).drop_last() =~= ps.take(i as int));
            assert(ps.take(i + 1).last() == ps[i as int]);
            if i == 0 {
                assert(join(ps.take(0), sep@) =~= Seq::<char>::empty());
                assert(s@ =~= join(ps.take(1), sep@));
            } else {
                assert(s@ =~= join(ps.take(i + 1), sep@));
            }
        }
        i = i + 1;
    }
    proof {
        assert(ps.take(i as int) =~= ps);
    }
    s
}

} // verus!
