//! Characters and strings: the few std string operations the library needs,
//! each with what it does to the characters.

use vstd::prelude::*;

verus! {

/// Appends one character: a wrapper of `String::push`, which vstd does not
/// specify. The contract claims that the character lands at the end and
/// nothing else changes.
#[verifier::external_body]
pub(crate) fn push_char(s: &mut String, c: char)
    ensures
        final(s)@ == old(s)@.push(c),
{
    s.push(c);
}

/// The characters of a string slice, in order.
pub fn chars_of(s: &str) -> (v: Vec<char>)
    ensures
        v@ == s@,
{
    let mut v: Vec<char> = Vec::new();
    let ghost whole = s@;
    for c in it: s.chars()
        invariant
            it.seq() == whole,
            v@ == it.seq().take(it.index() as int),
    {
        v.push(c);
        proof {
            assert(it.seq().take(it.index() + 1) =~= v@);
        }
    }
    proof {
        assert(v@ =~= whole);
    }
    v
}

} // verus!

verus! {

/// Whether two string slices hold the same characters: a wrapper of `str`'s
/// `==`, which vstd does not specify. The contract claims the comparison is
/// character equality.
#[verifier::external_body]
pub(crate) fn str_eq(a: &str, b: &str) -> (r: bool)
    ensures
        r == (a@ == b@),
{
    a == b
}

/// `a` then `b`, with one space between when both hold something.
pub open spec fn glue(a: Seq<char>, b: Seq<char>) -> Seq<char> {
    if a.len() > 0 && b.len() > 0 {
        a + seq![' '] + b
    } else {
        a + b
    }
}

/// The elements joined by `sep`.
pub open spec fn join(parts: Seq<Seq<char>>, sep: Seq<char>) -> Seq<char>
    decreases parts.len(),
{
    if parts.len() == 0 {
        seq![]
    } else if parts.len() == 1 {
        parts[0]
    } else {
        join(parts.drop_last(), sep) + sep + parts.last()
    }
}

/// Consecutive repeats collapsed into one, as `Vec::dedup` does.
pub open spec fn dedup(parts: Seq<Seq<char>>) -> Seq<Seq<char>>
    decreases parts.len(),
{
    if parts.len() <= 1 {
        parts
    } else if parts.last() == parts[parts.len() - 2] {
        dedup(parts.drop_last())
    } else {
        dedup(parts.drop_last()).push(parts.last())
    }
}

/// The last element survives a dedup.
pub proof fn lemma_dedup_last(parts: Seq<Seq<char>>)
    requires
        parts.len() > 0,
    ensures
        dedup(parts).len() > 0,
        dedup(parts).last() == parts.last(),
    decreases parts.len(),
{
    if parts.len() > 1 {
        lemma_dedup_last(parts.drop_last());
    }
}

/// A string holding the characters of `s`.
pub fn owned(s: &str) -> (r: String)
    ensures
        r@ == s@,
{
    let mut r = String::new();
    push_str(&mut r, s);
    proof {
        assert(r@ =~= s@);
    }
    r
}

/// Appends `other` to `s`.
pub(crate) fn push_str(s: &mut String, other: &str)
    ensures
        final(s)@ == old(s)@ + other@,
{
    s.append(other);
}

} // verus!

verus! {

/// Unicode's `White_Space` property, which `char::is_whitespace` tests.
pub open spec fn is_ws(c: char) -> bool {
    ||| ('\u{9}' <= c && c <= '\u{d}')
    ||| c == ' '
    ||| c == '\u{85}'
    ||| c == '\u{a0}'
    ||| c == '\u{1680}'
    ||| ('\u{2000}' <= c && c <= '\u{200a}')
    ||| c == '\u{2028}'
    ||| c == '\u{2029}'
    ||| c == '\u{202f}'
    ||| c == '\u{205f}'
    ||| c == '\u{3000}'
}

/// Whether `c` is white space, as `char::is_whitespace` says.
pub fn is_whitespace(c: char) -> (r: bool)
    ensures
        r == is_ws(c),
{
    ('\u{9}' <= c && c <= '\u{d}') || c == ' ' || c == '\u{85}' || c == '\u{a0}' || c == '\u{1680}'
        || ('\u{2000}' <= c && c <= '\u{200a}') || c == '\u{2028}' || c == '\u{2029}' || c
        == '\u{202f}' || c == '\u{205f}' || c == '\u{3000}'
}

/// `s` without its leading white space.
pub open spec fn skip_ws(s: Seq<char>) -> Seq<char>
    decreases s.len(),
{
    if s.len() > 0 && is_ws(s[0]) {
        skip_ws(s.drop_first())
    } else {
        s
    }
}

/// The leading run of `s` that is not white space.
pub open spec fn take_word(s: Seq<char>) -> Seq<char>
    decreases s.len(),
{
    if s.len() > 0 && !is_ws(s[0]) {
        seq![s[0]] + take_word(s.drop_first())
    } else {
        seq![]
    }
}

pub proof fn lemma_skip_ws_shorter(s: Seq<char>)
    ensures
        skip_ws(s).len() <= s.len(),
        skip_ws(s).len() > 0 ==> !is_ws(skip_ws(s)[0]),
        exists|k: int| 0 <= k <= s.len() && skip_ws(s) == s.skip(k),
    decreases s.len(),
{
    if s.len() > 0 && is_ws(s[0]) {
        lemma_skip_ws_shorter(s.drop_first());
        let k = choose|k: int| 0 <= k <= s.drop_first().len() && skip_ws(s.drop_first()) == s.drop_first().skip(k);
        assert(s.drop_first().skip(k) =~= s.skip(k + 1));
    } else {
        assert(s.skip(0) =~= s);
    }
}

pub proof fn lemma_take_word_len(s: Seq<char>)
    ensures
        take_word(s).len() <= s.len(),
        s.len() > 0 && !is_ws(s[0]) ==> take_word(s).len() >= 1,
        take_word(s) == s.take(take_word(s).len() as int),
        forall|i: int| 0 <= i < take_word(s).len() ==> !is_ws(#[trigger] take_word(s)[i]),
        take_word(s).len() < s.len() ==> is_ws(s[take_word(s).len() as int]),
    decreases s.len(),
{
    if s.len() > 0 && !is_ws(s[0]) {
        lemma_take_word_len(s.drop_first());
        let w = take_word(s.drop_first());
        assert(take_word(s) =~= seq![s[0]] + w);
        assert(seq![s[0]] + s.drop_first().take(w.len() as int) =~= s.take(w.len() + 1 as int));
        assert forall|i: int| 0 <= i < take_word(s).len() implies !is_ws(#[trigger] take_word(s)[i]) by {
            if i > 0 {
                assert(take_word(s)[i] == w[i - 1]);
            }
        }
        if take_word(s).len() < s.len() {
            assert(s[take_word(s).len() as int] == s.drop_first()[w.len() as int]);
        }
    } else {
        assert(s.take(0) =~= seq![]);
    }
}

/// The words of `s`: its runs of characters that are not white space, in
/// order, as `str::split_whitespace` yields them.
pub open spec fn words(s: Seq<char>) -> Seq<Seq<char>>
    decreases s.len(),
{
    let t = skip_ws(s);
    if t.len() == 0 {
        seq![]
    } else {
        let w = take_word(t);
        proof {
            lemma_skip_ws_shorter(s);
            lemma_take_word_len(t);
        }
        seq![w] + words(t.skip(w.len() as int))
    }
}

proof fn lemma_words_skip_space(s: Seq<char>, i: int)
    requires
        0 <= i < s.len(),
        is_ws(s[i]),
    ensures
        words(s.skip(i)) == words(s.skip(i + 1)),
{
    assert(s.skip(i).drop_first() =~= s.skip(i + 1));
    assert(skip_ws(s.skip(i)) == skip_ws(s.skip(i + 1)));
}

proof fn lemma_take_word_exact(s: Seq<char>, i: int, j: int)
    requires
        0 <= i <= j <= s.len(),
        forall|k: int| i <= k < j ==> !is_ws(#[trigger] s[k]),
        j == s.len() || is_ws(s[j]),
    ensures
        take_word(s.skip(i)) == s.subrange(i, j),
    decreases j - i,
{
    if i < j {
        lemma_take_word_exact(s, i + 1, j);
        assert(s.skip(i).drop_first() =~= s.skip(i + 1));
        assert(seq![s[i]] + s.subrange(i + 1, j) =~= s.subrange(i, j));
    } else {
        assert(s.subrange(i, j) =~= seq![]);
    }
}

proof fn lemma_words_take_word(s: Seq<char>, i: int, j: int)
    requires
        0 <= i < j <= s.len(),
        forall|k: int| i <= k < j ==> !is_ws(#[trigger] s[k]),
        j == s.len() || is_ws(s[j]),
    ensures
        words(s.skip(i)) == seq![s.subrange(i, j)] + words(s.skip(j)),
{
    lemma_take_word_exact(s, i, j);
    assert(skip_ws(s.skip(i)) == s.skip(i));
    assert(s.skip(i).skip(j - i) =~= s.skip(j));
}

/// Where the words of a character sequence sit: one `(start, end)` pair per
/// word, in order.
pub fn word_spans(chars: &Vec<char>) -> (spans: Vec<(usize, usize)>)
    ensures
        spans@.len() == words(chars@).len(),
        forall|k: int|
            0 <= k < spans@.len() ==> {
                &&& 0 <= (#[trigger] spans@[k]).0 < spans@[k].1 <= chars@.len()
                &&& chars@.subrange(spans@[k].0 as int, spans@[k].1 as int) == words(chars@)[k]
            },
{
    let n = chars.len();
    let mut spans: Vec<(usize, usize)> = Vec::new();
    let mut i: usize = 0;
    assert(chars@.skip(0) =~= chars@);
    while i < n
        invariant
            n == chars@.len(),
            0 <= i <= n,
            words(chars@) == spans@.map_values(
                |p: (usize, usize)| chars@.subrange(p.0 as int, p.1 as int),
            ) + words(chars@.skip(i as int)),
            forall|k: int|
                0 <= k < spans@.len() ==> 0 <= (#[trigger] spans@[k]).0 < spans@[k].1 <= n,
        decreases n - i,
    {
        if is_whitespace(chars[i]) {
            proof {
                lemma_words_skip_space(chars@, i as int);
            }
            i = i + 1;
        } else {
            let mut j = i + 1;
            while j < n && !is_whitespace(chars[j])
                invariant
                    n == chars@.len(),
                    i < j <= n,
                    forall|k: int| i <= k < j ==> !is_ws(#[trigger] chars@[k]),
                decreases n - j,
            {
                j = j + 1;
            }
            proof {
                lemma_words_take_word(chars@, i as int, j as int);
                let f = |p: (usize, usize)| chars@.subrange(p.0 as int, p.1 as int);
                assert(spans@.push((i, j)).map_values(f) =~= spans@.map_values(f).push(
                    chars@.subrange(i as int, j as int),
                ));
            }
            spans.push((i, j));
            i = j;
        }
    }
    proof {
        assert(chars@.skip(n as int) =~= seq![]);
        assert(skip_ws(seq![]) == Seq::<char>::empty());
        let f = |p: (usize, usize)| chars@.subrange(p.0 as int, p.1 as int);
        assert(words(chars@) =~= spans@.map_values(f));
    }
    spans
}

} // verus!

verus! {

/// Takes the last character off: a wrapper of `String::pop`, which vstd does
/// not specify. The contract claims the last character is removed and
/// returned, and an empty string is left alone.
#[verifier::external_body]
pub(crate) fn pop_char(s: &mut String) -> (r: Option<char>)
    ensures
        old(s)@.len() == 0 ==> r is None && final(s)@ == old(s)@,
        old(s)@.len() > 0 ==> r == Some(old(s)@.last()) && final(s)@ == old(s)@.drop_last(),
{
    s.pop()
}

/// Whether `chars[from..to]` spells `lit`.
pub fn spells(chars: &Vec<char>, from: usize, to: usize, lit: &str) -> (r: bool)
    requires
        from <= to <= chars@.len(),
    ensures
        r == (chars@.subrange(from as int, to as int) == lit@),
{
    let l = chars_of(lit);
    if to - from != l.len() {
        return false;
    }
    let mut k: usize = 0;
    while k < l.len()
        invariant
            from <= to <= chars@.len(),
            to - from == l@.len(),
            l@ == lit@,
            0 <= k <= l@.len(),
            forall|m: int| 0 <= m < k ==> chars@[from + m] == l@[m],
        decreases l@.len() - k,
    {
        if chars[from + k] != l[k] {
            proof {
                assert(chars@.subrange(from as int, to as int)[k as int] != lit@[k as int]);
            }
            return false;
        }
        k = k + 1;
    }
    proof {
        assert(chars@.subrange(from as int, to as int) =~= lit@);
    }
    true
}

/// A string holding these characters.
pub fn string_of(chars: &Vec<char>, from: usize, to: usize) -> (s: String)
    requires
        from <= to <= chars@.len(),
    ensures
        s@ == chars@.subrange(from as int, to as int),
{
    let mut s = String::new();
    let mut k = from;
    while k < to
        invariant
            from <= k <= to <= chars@.len(),
            s@ == chars@.subrange(from as int, k as int),
        decreases to - k,
    {
        push_char(&mut s, chars[k]);
        proof {
            assert(s@ =~= chars@.subrange(from as int, k + 1));
        }
        k = k + 1;
    }
    s
}

/// A line without the `\r` of a `\r\n` ending.
pub open spec fn strip_cr(l: Seq<char>) -> Seq<char> {
    if l.len() > 0 && l.last() == '\r' {
        l.drop_last()
    } else {
        l
    }
}

/// The lines of `s` that a `\n` ends, each without its ending, and the
/// text after the last `\n`.
pub open spec fn split_nl(s: Seq<char>) -> (Seq<Seq<char>>, Seq<char>)
    decreases s.len(),
{
    if s.len() == 0 {
        (seq![], seq![])
    } else {
        let (d, c) = split_nl(s.drop_last());
        if s.last() == '\n' {
            (d.push(strip_cr(c)), seq![])
        } else {
            (d, c.push(s.last()))
        }
    }
}

/// The lines of `s` as `str::lines` gives them: split at `\n`, each without
/// its `\n` or `\r\n`, and no empty line after a last `\n`.
pub open spec fn lines_of(s: Seq<char>) -> Seq<Seq<char>> {
    let (d, c) = split_nl(s);
    if c.len() > 0 {
        d.push(c)
    } else {
        d
    }
}

/// The lines of `s`.
pub fn lines(s: &str) -> (r: Vec<String>)
    ensures
        r@.map_values(|l: String| l@) == lines_of(s@),
{
    let chars = chars_of(s);
    let mut out: Vec<String> = Vec::new();
    let mut from: usize = 0;
    let mut i: usize = 0;
    while i < chars.len()
        invariant
            chars@ == s@,
            0 <= from <= i <= chars@.len(),
            out@.map_values(|l: String| l@) =~= split_nl(chars@.take(i as int)).0,
            chars@.subrange(from as int, i as int) =~= split_nl(chars@.take(i as int)).1,
        decreases chars@.len() - i,
    {
        proof {
            assert(chars@.take(i + 1).drop_last() =~= chars@.take(i as int));
            assert(chars@.take(i + 1).last() == chars@[i as int]);
        }
        if chars[i] == '\n' {
            let end = if i > from && chars[i - 1] == '\r' {
                i - 1
            } else {
                i
            };
            let line = string_of(&chars, from, end);
            proof {
                let c = chars@.subrange(from as int, i as int);
                assert(line@ =~= strip_cr(c));
            }
            out.push(line);
            from = i + 1;
        } else {
            proof {
                assert(chars@.subrange(from as int, i + 1) =~= chars@.subrange(from as int, i as int).push(chars@[i as int]));
            }
        }
        i = i + 1;
    }
    proof {
        assert(chars@.take(i as int) =~= chars@);
    }
    if from < chars.len() {
        out.push(string_of(&chars, from, chars.len()));
    }
    proof {
        assert(out@.map_values(|l: String| l@) =~= lines_of(s@));
    }
    out
}

/// Appends `chars[from..to]` to `s`.
pub fn push_chars(s: &mut String, chars: &Vec<char>, from: usize, to: usize)
    requires
        from <= to <= chars@.len(),
    ensures
        final(s)@ == old(s)@ + chars@.subrange(from as int, to as int),
{
    let ghost start = s@;
    let mut k = from;
    while k < to
        invariant
            from <= k <= to <= chars@.len(),
            s@ == start + chars@.subrange(from as int, k as int),
        decreases to - k,
    {
        push_char(s, chars[k]);
        proof {
            assert(s@ =~= start + chars@.subrange(from as int, k + 1));
        }
        k = k + 1;
    }
}

/// The index of the first `c` in `s`, if any.
pub open spec fn first_index(s: Seq<char>, c: char) -> Option<int>
    decreases s.len(),
{
    if s.len() == 0 {
        None
    } else if s[0] == c {
        Some(0)
    } else {
        match first_index(s.drop_first(), c) {
            Some(i) => Some(i + 1),
            None => None,
        }
    }
}

pub proof fn lemma_first_index(s: Seq<char>, c: char, i: int)
    requires
        0 <= i <= s.len(),
        forall|k: int| 0 <= k < i ==> s[k] != c,
    ensures
        i < s.len() && s[i] == c ==> first_index(s, c) == Some(i),
        i == s.len() ==> first_index(s, c) is None,
    decreases i,
{
    if i > 0 {
        lemma_first_index(s.drop_first(), c, i - 1);
    }
}

} // verus!

verus! {

/// A word: non-empty, no white space.
pub open spec fn is_word(w: Seq<char>) -> bool {
    w.len() > 0 && forall|i: int| 0 <= i < w.len() ==> !is_ws(#[trigger] w[i])
}

proof fn lemma_words_leading_space(s: Seq<char>)
    requires
        s.len() > 0,
        is_ws(s[0]),
    ensures
        words(s) == words(s.drop_first()),
{
    assert(skip_ws(s) == skip_ws(s.drop_first()));
}

proof fn lemma_take_word_space(a: Seq<char>, b: Seq<char>)
    ensures
        take_word(a + seq![' '] + b) == take_word(a),
    decreases a.len(),
{
    let x = a + seq![' '] + b;
    if a.len() == 0 {
        assert(x[0] == ' ');
    } else if is_ws(a[0]) {
        assert(x[0] == a[0]);
    } else {
        assert(x[0] == a[0]);
        assert(x.drop_first() =~= a.drop_first() + seq![' '] + b);
        lemma_take_word_space(a.drop_first(), b);
    }
}

/// A space between two texts separates their words.
pub proof fn lemma_words_space(a: Seq<char>, b: Seq<char>)
    ensures
        words(a + seq![' '] + b) == words(a) + words(b),
    decreases a.len(),
{
    let x = a + seq![' '] + b;
    if a.len() == 0 {
        assert(x.drop_first() =~= b);
        lemma_words_leading_space(x);
        assert(words(a) =~= seq![]);
        assert(words(a) + words(b) =~= words(b));
    } else if is_ws(a[0]) {
        assert(x.drop_first() =~= a.drop_first() + seq![' '] + b);
        lemma_words_leading_space(x);
        lemma_words_leading_space(a);
        lemma_words_space(a.drop_first(), b);
    } else {
        lemma_take_word_space(a, b);
        lemma_take_word_len(a);
        let w = take_word(a);
        assert(skip_ws(x) == x);
        assert(skip_ws(a) == a);
        assert(x.skip(w.len() as int) =~= a.skip(w.len() as int) + seq![' '] + b);
        lemma_words_space(a.skip(w.len() as int), b);
        assert(words(x) == seq![w] + words(x.skip(w.len() as int)));
        assert(words(a) == seq![w] + words(a.skip(w.len() as int)));
        assert(words(x) =~= words(a) + words(b));
    }
}

/// A word's words: itself.
pub proof fn lemma_words_of_word(w: Seq<char>)
    requires
        is_word(w),
    ensures
        words(w) == seq![w],
{
    lemma_take_word_exact(w, 0, w.len() as int);
    assert(w.skip(0) =~= w);
    assert(w.subrange(0, w.len() as int) =~= w);
    assert(take_word(w) == w);
    assert(skip_ws(w) == w);
    let rest = w.skip(w.len() as int);
    assert(rest =~= Seq::<char>::empty());
    assert(skip_ws(rest) == rest);
    assert(words(rest) =~= Seq::<Seq<char>>::empty());
    assert(words(w) == seq![w] + words(rest));
    assert(seq![w] + words(rest) =~= seq![w]);
}

/// Words joined by spaces read back as the same words.
pub proof fn lemma_words_join(ps: Seq<Seq<char>>)
    requires
        forall|i: int| 0 <= i < ps.len() ==> is_word(#[trigger] ps[i]),
    ensures
        words(join(ps, seq![' '])) == ps,
    decreases ps.len(),
{
    if ps.len() == 0 {
        assert(skip_ws(Seq::<char>::empty()) == Seq::<char>::empty());
    } else if ps.len() == 1 {
        lemma_words_of_word(ps[0]);
        assert(seq![ps[0]] =~= ps);
    } else {
        let init = ps.drop_last();
        assert forall|i: int| 0 <= i < init.len() implies is_word(#[trigger] init[i]) by {
            assert(init[i] == ps[i]);
        }
        lemma_words_join(init);
        lemma_words_space(join(init, seq![' ']), ps.last());
        lemma_words_of_word(ps.last());
        assert(init + seq![ps.last()] =~= ps);
    }
}

/// A trailing space adds no word.
pub proof fn lemma_words_trailing_space(s: Seq<char>)
    ensures
        words(s.push(' ')) == words(s),
{
    lemma_words_space(s, seq![]);
    assert(s + seq![' '] + Seq::<char>::empty() =~= s.push(' '));
    assert(skip_ws(Seq::<char>::empty()) == Seq::<char>::empty());
    assert(words(s) + words(Seq::<char>::empty()) =~= words(s));
}

/// The words of a text are words.
pub proof fn lemma_words_are_words(s: Seq<char>)
    ensures
        forall|i: int| 0 <= i < words(s).len() ==> is_word(#[trigger] words(s)[i]),
    decreases s.len(),
{
    let t = skip_ws(s);
    if t.len() > 0 {
        lemma_skip_ws_shorter(s);
        lemma_take_word_len(t);
        let w = take_word(t);
        lemma_words_are_words(t.skip(w.len() as int));
        assert forall|i: int| 0 <= i < words(s).len() implies is_word(#[trigger] words(s)[i]) by {
            if i > 0 {
                assert(words(s)[i] == words(t.skip(w.len() as int))[i - 1]);
            }
        }
    }
}

} // verus!

verus! {

/// What holds of every element holds of every element kept by a filter; a
/// filter that keeps everything changes nothing.
pub proof fn lemma_filter_all<A>(s: Seq<A>, p: spec_fn(A) -> bool, q: spec_fn(A) -> bool)
    requires
        forall|i: int| 0 <= i < s.len() ==> q(#[trigger] s[i]),
    ensures
        forall|i: int| 0 <= i < s.filter(p).len() ==> q(#[trigger] s.filter(p)[i]),
        (forall|i: int| 0 <= i < s.len() ==> p(#[trigger] s[i])) ==> s.filter(p) == s,
    decreases s.len(),
{
    reveal(Seq::filter);
    if s.len() > 0 {
        let init = s.drop_last();
        assert forall|i: int| 0 <= i < init.len() implies q(#[trigger] init[i]) by {
            assert(init[i] == s[i]);
        }
        lemma_filter_all(init, p, q);
        let f = s.filter(p);
        assert forall|i: int| 0 <= i < f.len() implies q(#[trigger] f[i]) by {
            if i < init.filter(p).len() {
                assert(f[i] == init.filter(p)[i]);
            } else {
                assert(f[i] == s.last());
            }
        }
        if forall|i: int| 0 <= i < s.len() ==> p(#[trigger] s[i]) {
            assert forall|i: int| 0 <= i < init.len() implies p(#[trigger] init[i]) by {
                assert(init[i] == s[i]);
            }
            assert(p(s[s.len() - 1]));
            assert(init.push(s.last()) =~= s);
        }
    }
}

} // verus!

verus! {

/// `s` without its trailing white space.
pub open spec fn trim_end(s: Seq<char>) -> Seq<char>
    decreases s.len(),
{
    if s.len() > 0 && is_ws(s.last()) {
        trim_end(s.drop_last())
    } else {
        s
    }
}

/// `s` without leading or trailing white space, as `str::trim` leaves it.
pub open spec fn trim(s: Seq<char>) -> Seq<char> {
    trim_end(skip_ws(s))
}

/// Where the trimmed text sits in `chars`.
pub fn trim_range(chars: &Vec<char>) -> (r: (usize, usize))
    ensures
        r.0 <= r.1 <= chars@.len(),
        chars@.subrange(r.0 as int, r.1 as int) == trim(chars@),
{
    let n = chars.len();
    let mut a: usize = 0;
    proof {
        assert(chars@.skip(0) =~= chars@);
    }
    while a < n && is_whitespace(chars[a])
        invariant
            0 <= a <= n == chars@.len(),
            skip_ws(chars@) == skip_ws(chars@.skip(a as int)),
        decreases n - a,
    {
        proof {
            assert(chars@.skip(a as int).drop_first() =~= chars@.skip(a + 1));
        }
        a = a + 1;
    }
    proof {
        assert(chars@.skip(0) =~= chars@);
    }
    let ghost t = chars@.skip(a as int);
    proof {
        assert(skip_ws(t) == t);
        assert(t =~= chars@.subrange(a as int, n as int));
    }
    let mut b: usize = n;
    while b > a && is_whitespace(chars[b - 1])
        invariant
            a <= b <= n == chars@.len(),
            t == chars@.subrange(a as int, n as int),
            trim_end(t) == trim_end(chars@.subrange(a as int, b as int)),
        decreases b,
    {
        proof {
            assert(chars@.subrange(a as int, b as int).drop_last() =~= chars@.subrange(a as int, b - 1));
        }
        b = b - 1;
    }
    proof {
        let u = chars@.subrange(a as int, b as int);
        if u.len() > 0 {
            assert(u.last() == chars@[b - 1]);
        }
        assert(trim_end(u) == u);
    }
    (a, b)
}

/// `s` trimmed, as a new string.
pub fn trimmed(s: &str) -> (r: String)
    ensures
        r@ == trim(s@),
{
    let chars = chars_of(s);
    let (a, b) = trim_range(&chars);
    string_of(&chars, a, b)
}

/// Whether `s` holds nothing but white space.
pub fn is_blank(s: &str) -> (r: bool)
    ensures
        r == (trim(s@).len() == 0),
{
    let chars = chars_of(s);
    let (a, b) = trim_range(&chars);
    a == b
}

/// Whether `c` has the Unicode Alphabetic property; what `char::is_alphabetic`
/// answers.
pub uninterp spec fn alphabetic(c: char) -> bool;

/// Whether `c` is alphabetic or numeric; what `char::is_alphanumeric` answers.
pub uninterp spec fn alphanumeric(c: char) -> bool;

/// A wrapper of `char::is_alphabetic`. The contract names its answer and
/// claims nothing more of it.
#[verifier::external_body]
pub(crate) fn is_alphabetic(c: char) -> (r: bool)
    ensures
        r == alphabetic(c),
{
    c.is_alphabetic()
}

/// A wrapper of `char::is_alphanumeric`. The contract names its answer and
/// claims nothing more of it.
#[verifier::external_body]
pub(crate) fn is_alphanumeric(c: char) -> (r: bool)
    ensures
        r == alphanumeric(c),
{
    c.is_alphanumeric()
}

/// A bare identifier: a letter or `_`, then letters, digits or `_`.
pub open spec fn is_identifier(t: Seq<char>) -> bool {
    &&& t.len() > 0
    &&& (alphabetic(t[0]) || t[0] == '_')
    &&& forall|i: int| 1 <= i < t.len() ==> (alphanumeric(#[trigger] t[i]) || t[i] == '_')
}

/// Whether `s` is a bare identifier.
pub fn identifier(s: &str) -> (r: bool)
    ensures
        r == is_identifier(s@),
{
    let chars = chars_of(s);
    if chars.len() == 0 {
        return false;
    }
    if !(is_alphabetic(chars[0]) || chars[0] == '_') {
        return false;
    }
    let mut i: usize = 1;
    while i < chars.len()
        invariant
            1 <= i <= chars@.len(),
            chars@ == s@,
            forall|k: int| 1 <= k < i ==> (alphanumeric(#[trigger] chars@[k]) || chars@[k] == '_'),
        decreases chars@.len() - i,
    {
        if !(is_alphanumeric(chars[i]) || chars[i] == '_') {
            return false;
        }
        i = i + 1;
    }
    true
}

/// `text` cut to `width` characters: whole when it fits, else its first
/// `width - 1` characters and an ellipsis.
pub open spec fn fit_of(text: Seq<char>, width: nat) -> Seq<char> {
    if text.len() <= width {
        text
    } else {
        text.take(if width == 0 { 0 } else { width - 1 }) + seq!['…']
    }
}

/// Text cut to `width` columns with an ellipsis, where a terminal would clip
/// it silently.
pub struct Fit<'a>(pub &'a str, pub usize);

impl<'a> Fit<'a> {
    /// The text as it fits.
    pub fn fitted(&self) -> (s: String)
        ensures
            s@ == fit_of(self.0@, self.1 as nat),
    {
        let chars = chars_of(self.0);
        let width = self.1;
        if chars.len() <= width {
            return string_of(&chars, 0, chars.len());
        }
        let keep = if width == 0 {
            0
        } else {
            width - 1
        };
        let mut s = string_of(&chars, 0, keep);
        push_char(&mut s, '…');
        proof {
            assert(chars@.subrange(0, keep as int) =~= chars@.take(keep as int));
            assert(chars@.subrange(0, chars@.len() as int) =~= chars@);
        }
        s
    }
}

} // verus!
