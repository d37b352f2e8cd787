//! Source text addressed by byte offsets, as parsers report spans: a range
//! of bytes is a piece of text when both its ends fall between characters.

use vstd::prelude::*;
use vstd::utf8::{
    char_is_scalar, char_u32_cast, encode_scalar, encode_utf8, encode_utf8_valid_utf8, is_char_boundary,
    is_char_boundary_iff_not_is_continuation_byte, is_char_boundary_start_end_of_seq, valid_utf8, valid_utf8_split,
};

use crate::modes::bytes_of;
use crate::text::{is_whitespace, owned, push_str, skip_ws, trim_end};

verus! {

/// The bytes `start..end` of `b` are a piece of its text: in range, both
/// ends between characters.
pub open spec fn piece(b: Seq<u8>, start: int, end: int) -> bool {
    &&& 0 <= start <= end <= b.len()
    &&& is_char_boundary(b, start)
    &&& is_char_boundary(b, end)
}

/// The encoding of two texts one after the other is the one encoding after
/// the other.
pub proof fn lemma_bytes_concat(a: Seq<char>, b: Seq<char>)
    ensures
        bytes_of(a + b) == bytes_of(a) + bytes_of(b),
    decreases a.len(),
{
    if a.len() == 0 {
        assert(a + b =~= b);
        assert(bytes_of(a) =~= Seq::<u8>::empty());
        assert(bytes_of(a) + bytes_of(b) =~= bytes_of(b));
    } else {
        lemma_bytes_concat(a.drop_first(), b);
        assert((a + b).drop_first() =~= a.drop_first() + b);
        assert((a + b)[0] == a[0]);
        assert(bytes_of(a + b) =~= bytes_of(a) + bytes_of(b));
    }
}

/// A boundary inside a piece is a boundary of the piece.
pub proof fn lemma_boundary_in_piece(b: Seq<u8>, start: int, end: int, i: int)
    requires
        valid_utf8(b),
        piece(b, start, end),
        start <= i <= end,
        is_char_boundary(b, i),
    ensures
        valid_utf8(b.subrange(start, end)),
        is_char_boundary(b.subrange(start, end), i - start),
{
    let tail = b.subrange(start, b.len() as int);
    valid_utf8_split(b, start);
    assert(valid_utf8(tail));
    let p = b.subrange(start, end);
    if end < b.len() {
        assert(tail[end - start] == b[end]);
        is_char_boundary_iff_not_is_continuation_byte(b, end);
        is_char_boundary_iff_not_is_continuation_byte(tail, end - start);
    } else {
        assert(tail =~= p);
        is_char_boundary_start_end_of_seq(tail);
    }
    valid_utf8_split(tail, end - start);
    assert(tail.subrange(0, end - start) =~= p);
    assert(valid_utf8(p));
    if i < end {
        assert(p[i - start] == b[i]);
        is_char_boundary_iff_not_is_continuation_byte(b, i);
        is_char_boundary_iff_not_is_continuation_byte(p, i - start);
    } else {
        is_char_boundary_start_end_of_seq(p);
    }
}

/// Whether the bytes `start..end` are a piece of `text`.
pub fn is_piece(text: &str, start: usize, end: usize) -> (r: bool)
    ensures
        r == piece(bytes_of(text@), start as int, end as int),
{
    proof {
        encode_utf8_valid_utf8(text@);
    }
    start <= end && text.is_char_boundary(start) && text.is_char_boundary(end)
}

/// The text of the bytes `start..end` of `text`.
pub fn slice_of(text: &str, start: usize, end: usize) -> (r: &str)
    requires
        piece(bytes_of(text@), start as int, end as int),
    ensures
        bytes_of(r@) == bytes_of(text@).subrange(start as int, end as int),
{
    let ghost b = bytes_of(text@);
    proof {
        encode_utf8_valid_utf8(text@);
        is_char_boundary_start_end_of_seq(b);
        lemma_boundary_in_piece(b, start as int, b.len() as int, end as int);
    }
    let (_, tail) = text.split_at(start);
    proof {
        assert(bytes_of(tail@) =~= b.subrange(start as int, b.len() as int));
    }
    let (mid, _) = tail.split_at(end - start);
    proof {
        assert(bytes_of(mid@) =~= b.subrange(start as int, end as int));
    }
    mid
}

/// `text` with its bytes `from..to` replaced by `mid`.
pub fn splice(text: &str, from: usize, to: usize, mid: &str) -> (r: String)
    requires
        piece(bytes_of(text@), from as int, to as int),
    ensures
        bytes_of(r@) == bytes_of(text@).take(from as int) + bytes_of(mid@) + bytes_of(text@).skip(to as int),
{
    let ghost b = bytes_of(text@);
    proof {
        encode_utf8_valid_utf8(text@);
        is_char_boundary_start_end_of_seq(b);
        lemma_boundary_in_piece(b, 0, b.len() as int, from as int);
    }
    let (head, _) = text.split_at(from);
    let (_, tail) = text.split_at(to);
    let mut r = owned(head);
    push_str(&mut r, mid);
    push_str(&mut r, tail);
    proof {
        lemma_bytes_concat(head@, mid@);
        lemma_bytes_concat(head@ + mid@, tail@);
        assert(bytes_of(head@) =~= b.take(from as int));
        assert(bytes_of(tail@) =~= b.skip(to as int));
    }
    r
}

/// The width of a character's encoding, in bytes.
pub fn char_width(c: char) -> (n: usize)
    ensures
        n == bytes_of(seq![c]).len(),
        1 <= n <= 4,
{
    let v = c as u32;
    proof {
        char_is_scalar(c);
        char_u32_cast(c, v);
        assert(seq![c].drop_first() =~= Seq::<char>::empty());
        assert(bytes_of(seq![c]) =~= encode_scalar(c as u32) + encode_utf8(Seq::<char>::empty()));
    }
    if v < 0x80 {
        1
    } else if v < 0x800 {
        2
    } else if v < 0x10000 {
        3
    } else {
        4
    }
}

/// One more character, its width more bytes.
pub proof fn lemma_bytes_take_step(s: Seq<char>, k: int)
    requires
        0 <= k < s.len(),
    ensures
        bytes_of(s.take(k + 1)).len() == bytes_of(s.take(k)).len() + bytes_of(seq![s[k]]).len(),
{
    assert(s.take(k + 1) =~= s.take(k) + seq![s[k]]);
    lemma_bytes_concat(s.take(k), seq![s[k]]);
}

/// The bytes of the first `k` characters.
pub fn prefix_width(c: &Vec<char>, k: usize) -> (w: usize)
    requires
        k <= c@.len(),
        bytes_of(c@).len() <= usize::MAX,
    ensures
        w == bytes_of(c@.take(k as int)).len(),
{
    let mut w: usize = 0;
    let mut i: usize = 0;
    proof {
        assert(c@.take(0) =~= Seq::<char>::empty());
        assert(bytes_of(Seq::<char>::empty()) =~= Seq::<u8>::empty());
    }
    while i < k
        invariant
            i <= k <= c@.len(),
            bytes_of(c@).len() <= usize::MAX,
            w == bytes_of(c@.take(i as int)).len(),
        decreases k - i,
    {
        proof {
            lemma_bytes_take_step(c@, i as int);
            assert(c@ =~= c@.take(i + 1) + c@.skip(i + 1));
            lemma_bytes_concat(c@.take(i + 1), c@.skip(i + 1));
        }
        w = w + char_width(c[i]);
        i = i + 1;
    }
    w
}

/// How many leading characters of `s` are white space.
pub fn leading_ws(c: &Vec<char>) -> (k: usize)
    ensures
        k <= c@.len(),
        skip_ws(c@) == c@.skip(k as int),
{
    let mut k: usize = 0;
    proof {
        assert(c@.skip(0) =~= c@);
    }
    while k < c.len() && is_whitespace(c[k])
        invariant
            k <= c@.len(),
            skip_ws(c@) == skip_ws(c@.skip(k as int)),
        decreases c@.len() - k,
    {
        proof {
            assert(c@.skip(k as int).drop_first() =~= c@.skip(k + 1));
        }
        k = k + 1;
    }
    k
}

/// How many characters of `s` stay once trailing white space is gone.
pub fn kept_before_ws(c: &Vec<char>) -> (k: usize)
    ensures
        k <= c@.len(),
        trim_end(c@) == c@.take(k as int),
{
    let mut k = c.len();
    proof {
        assert(c@.take(k as int) =~= c@);
    }
    while k > 0 && is_whitespace(c[k - 1])
        invariant
            k <= c@.len(),
            trim_end(c@) == trim_end(c@.take(k as int)),
        decreases k,
    {
        proof {
            assert(c@.take(k as int).drop_last() =~= c@.take(k - 1));
        }
        k = k - 1;
    }
    proof {
        let t = c@.take(k as int);
        if k > 0 {
            assert(t.last() == c@[k - 1]);
        }
    }
    k
}

/// Where the first byte `x` at or after `from` is.
pub open spec fn first_byte(b: Seq<u8>, from: int, x: u8) -> Option<int>
    decreases b.len() - from,
{
    if from < 0 || from >= b.len() {
        None
    } else if b[from] == x {
        Some(from)
    } else {
        first_byte(b, from + 1, x)
    }
}

/// Where the last byte `x` before `before` is.
pub open spec fn last_byte(b: Seq<u8>, before: int, x: u8) -> Option<int>
    decreases before,
{
    if before <= 0 || before > b.len() {
        None
    } else if b[before - 1] == x {
        Some(before - 1)
    } else {
        last_byte(b, before - 1, x)
    }
}

/// How many spaces and tabs run from `from` on.
pub open spec fn blanks(b: Seq<u8>, from: int) -> int
    decreases b.len() - from,
{
    if 0 <= from < b.len() && (b[from] == 32 || b[from] == 9) {
        1 + blanks(b, from + 1)
    } else {
        0
    }
}

/// Where the first byte `x` at or after `from` is.
pub fn find_byte(b: &[u8], from: usize, x: u8) -> (r: Option<usize>)
    ensures
        match r {
            Some(i) => first_byte(b@, from as int, x) == Some(i as int),
            None => first_byte(b@, from as int, x) is None,
        },
{
    let mut i = from;
    while i < b.len()
        invariant
            from <= i,
            first_byte(b@, from as int, x) == first_byte(b@, i as int, x),
        decreases b@.len() - i,
    {
        if b[i] == x {
            return Some(i);
        }
        i = i + 1;
    }
    None
}

/// Where the last byte `x` before `before` is.
pub fn rfind_byte(b: &[u8], before: usize, x: u8) -> (r: Option<usize>)
    requires
        before <= b@.len(),
    ensures
        match r {
            Some(i) => last_byte(b@, before as int, x) == Some(i as int),
            None => last_byte(b@, before as int, x) is None,
        },
{
    let mut i = before;
    while i > 0
        invariant
            i <= before <= b@.len(),
            last_byte(b@, before as int, x) == last_byte(b@, i as int, x),
        decreases i,
    {
        if b[i - 1] == x {
            return Some(i - 1);
        }
        i = i - 1;
    }
    None
}

/// How many spaces and tabs run from `from` on.
pub fn count_blanks(b: &[u8], from: usize) -> (n: usize)
    requires
        from <= b@.len(),
    ensures
        n as int == blanks(b@, from as int),
        from + n <= b@.len(),
{
    let mut i = from;
    while i < b.len() && (b[i] == 32 || b[i] == 9)
        invariant
            from <= i <= b@.len(),
            blanks(b@, from as int) == (i - from) + blanks(b@, i as int),
        decreases b@.len() - i,
    {
        i = i + 1;
    }
    i - from
}

/// An ASCII byte of a text falls between characters, and so does the byte
/// after it.
pub proof fn lemma_ascii_boundaries(b: Seq<u8>, i: int)
    requires
        valid_utf8(b),
        0 <= i < b.len(),
        b[i] < 128,
    ensures
        is_char_boundary(b, i),
        is_char_boundary(b, i + 1),
{
    is_char_boundary_iff_not_is_continuation_byte(b, i);
    let suffix = b.subrange(i, b.len() as int);
    valid_utf8_split(b, i);
    assert(suffix[0] == b[i]);
    assert(is_char_boundary(suffix, 1)) by {
        reveal_with_fuel(is_char_boundary, 2);
        assert(vstd::utf8::length_of_first_scalar(suffix) == 1);
        is_char_boundary_start_end_of_seq(vstd::utf8::pop_first_scalar(suffix));
    }
    if i + 1 < b.len() {
        assert(suffix[1] == b[i + 1]);
        is_char_boundary_iff_not_is_continuation_byte(suffix, 1);
        is_char_boundary_iff_not_is_continuation_byte(b, i + 1);
    } else {
        is_char_boundary_start_end_of_seq(b);
    }
}

} // verus!
