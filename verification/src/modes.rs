//! The state of the hub and of each mode in front of it: the search and its
//! results, a rename being judged, a move being planned, a rewrite being
//! shaped, the history, and a file shown for context.

use std::collections::BTreeSet;

use vstd::prelude::*;

use crate::engine::{
    copy_query, Confidence, FileChange, Highlight, HighlightKind, HistoryEntry, Intent, Match, Notice, Occurrence,
    Respelling, RewriteIntent, Role, Selection, Span,
};
use crate::model::{
    move_slot, panel_confidence, rename_slot, Cursor, HistoryPanel, MovePanel, RenamePanel,
    RewritePanel, SearchPanel,
};
use crate::query::{Query, QueryBar, SymbolKind};
use crate::syntax::tree::{text_at, text_of};
use crate::text::{chars_of, identifier, is_blank, is_identifier, owned, push_char, push_str, string_of, trim, trimmed};

verus! {

broadcast use vstd::std_specs::btree::group_btree_axioms;

// ---------------------------------------------------------------- file preview

/// The byte offsets just after each `\n` of `b`, in order.
pub open spec fn newline_starts(b: Seq<u8>) -> Seq<usize>
    decreases b.len(),
{
    if b.len() == 0 {
        seq![]
    } else if b.last() == 10 {
        newline_starts(b.drop_last()).push(b.len() as usize)
    } else {
        newline_starts(b.drop_last())
    }
}

/// Where each line of `b` starts: at 0, and after each `\n`.
pub open spec fn line_starts_of(b: Seq<u8>) -> Seq<usize> {
    seq![0usize] + newline_starts(b)
}

proof fn lemma_newline_starts(b: Seq<u8>)
    requires
        b.len() <= usize::MAX,
    ensures
        forall|i: int| 0 <= i < newline_starts(b).len() ==> 0 < #[trigger] newline_starts(b)[i] <= b.len(),
        forall|i: int, j: int|
            0 <= i < j < newline_starts(b).len() ==> newline_starts(b)[i] < newline_starts(b)[j],
    decreases b.len(),
{
    if b.len() > 0 {
        let prev = newline_starts(b.drop_last());
        lemma_newline_starts(b.drop_last());
        if b.last() == 10 {
            assert(newline_starts(b) == prev.push(b.len() as usize));
            assert forall|i: int, j: int|
                0 <= i < j < newline_starts(b).len() implies newline_starts(b)[i] < newline_starts(b)[j] by {
                if j == prev.len() {
                    assert(prev[i] <= b.len() - 1);
                }
            }
        } else {
            assert(newline_starts(b) == prev);
        }
    }
}

/// The end of `b[start..end]` once trailing `\n` and `\r` are dropped.
pub open spec fn strip_eol(b: Seq<u8>, start: int, end: int) -> int
    decreases end - start,
{
    if end > start && (b[end - 1] == 10 || b[end - 1] == 13) {
        strip_eol(b, start, end - 1)
    } else {
        end
    }
}

/// A file for a context or detail panel: its text, line boundaries, and
/// syntax colouring as byte spans.
#[derive(Debug)]
pub struct FilePreview {
    path: String,
    text: String,
    line_starts: Vec<usize>,
    highlights: Vec<Highlight>,
}

/// The UTF-8 bytes of a text.
pub open spec fn bytes_of(text: Seq<char>) -> Seq<u8> {
    vstd::utf8::encode_utf8(text)
}

/// Byte range of line `n` of `b` whose lines start at `starts`, terminator
/// excluded.
pub open spec fn line_span_of(b: Seq<u8>, starts: Seq<usize>, n: int) -> Option<(usize, usize)> {
    if 0 <= n < starts.len() {
        let start = starts[n] as int;
        let next = if n + 1 < starts.len() {
            starts[n + 1] as int
        } else {
            b.len() as int
        };
        Some((start as usize, strip_eol(b, start, next) as usize))
    } else {
        None
    }
}

/// Where each line of `text` starts, in bytes.
fn line_starts_in(text: &str) -> (v: Vec<usize>)
    ensures
        v@ == line_starts_of(bytes_of(text@)),
{
    let b = text.as_bytes();
    let ghost bs = b@;
    let mut line_starts: Vec<usize> = Vec::new();
    line_starts.push(0);
    let mut i: usize = 0;
    while i < b.len()
        invariant
            bs == b@,
            0 <= i <= bs.len(),
            line_starts@ == line_starts_of(bs.take(i as int)),
        decreases bs.len() - i,
    {
        proof {
            assert(bs.take(i + 1).drop_last() =~= bs.take(i as int));
        }
        if b[i] == 10 {
            line_starts.push(i + 1);
        }
        i = i + 1;
    }
    proof {
        assert(bs.take(i as int) =~= bs);
    }
    line_starts
}

impl FilePreview {
    #[verifier::type_invariant]
    spec fn starts_hold(self) -> bool {
        self.line_starts@ == line_starts_of(bytes_of(self.text@))
    }

    pub closed spec fn path_view(&self) -> Seq<char> {
        self.path@
    }

    pub closed spec fn text_view(&self) -> Seq<char> {
        self.text@
    }

    pub closed spec fn highlights_view(&self) -> Seq<Highlight> {
        self.highlights@
    }

    pub fn new(path: String, text: String, highlights: Vec<Highlight>) -> (p: Self)
        ensures
            p.path_view() == path@,
            p.text_view() == text@,
            p.highlights_view() == highlights@,
    {
        let line_starts = line_starts_in(text.as_str());
        FilePreview { path, text, line_starts, highlights }
    }

    /// The file's path.
    pub fn path(&self) -> (r: &str)
        ensures
            r@ == self.path_view(),
    {
        self.path.as_str()
    }

    /// The file's colouring.
    pub fn highlights(&self) -> (r: &Vec<Highlight>)
        ensures
            r@ == self.highlights_view(),
    {
        &self.highlights
    }

    pub fn line_count(&self) -> (r: usize)
        ensures
            r == line_starts_of(bytes_of(self.text_view())).len(),
    {
        proof {
            use_type_invariant(self);
        }
        self.line_starts.len()
    }

    /// Byte range of line `n`, terminator excluded.
    pub fn line_span(&self, n: usize) -> (r: Option<(usize, usize)>)
        ensures
            r == line_span_of(bytes_of(self.text_view()), line_starts_of(bytes_of(self.text_view())), n as int),
    {
        proof {
            use_type_invariant(self);
        }
        let b = self.text.as_str().as_bytes();
        let len = b.len();
        proof {
            assert(len == b@.len());
            lemma_newline_starts(b@);
        }
        let ghost bs = b@;
        let ghost starts = self.line_starts@;
        if n >= self.line_starts.len() {
            return None;
        }
        let start = self.line_starts[n];
        let next = if n + 1 < self.line_starts.len() {
            self.line_starts[n + 1]
        } else {
            b.len()
        };
        proof {
            assert(start <= next <= bs.len()) by {
                if n > 0 {
                    assert(starts[n as int] == newline_starts(bs)[n - 1]);
                }
                if n + 1 < starts.len() {
                    assert(starts[n + 1] == newline_starts(bs)[n as int]);
                }
            }
        }
        let mut end = next;
        while end > start && (b[end - 1] == 10 || b[end - 1] == 13)
            invariant
                bs == b@,
                start <= end <= next <= bs.len(),
                strip_eol(bs, start as int, end as int) == strip_eol(bs, start as int, next as int),
            decreases end,
        {
            end = end - 1;
        }
        Some((start, end))
    }

    pub fn text(&self) -> (r: &str)
        ensures
            r@ == self.text_view(),
    {
        self.text.as_str()
    }
}

// ---------------------------------------------------------- source lines

/// A run of one source line drawn in one style: its text, the colour of
/// the highlight it lies in, and whether it lies in the hit. The last run
/// of a line too wide for its columns ends in `…`.
#[derive(Debug, Clone, PartialEq, Eq)]
pub struct Piece {
    pub text: String,
    pub kind: Option<HighlightKind>,
    pub hit: bool,
}

/// A run as values.
pub open spec fn piece_view(p: Piece) -> (Seq<char>, Option<HighlightKind>, bool) {
    (p.text@, p.kind, p.hit)
}

/// `x` held to `[lo, hi]`.
pub open spec fn clamp_to(x: usize, lo: usize, hi: usize) -> usize {
    if x < lo {
        lo
    } else if x > hi {
        hi
    } else {
        x
    }
}

/// Where the highlights that reach into `[start, end)` begin and end,
/// held to it.
pub open spec fn highlight_cuts(hls: Seq<Highlight>, start: usize, end: usize) -> Seq<usize>
    decreases hls.len(),
{
    if hls.len() == 0 {
        seq![]
    } else {
        let h = hls.last();
        highlight_cuts(hls.drop_last(), start, end) + if h.span.end > start && h.span.start < end {
            seq![clamp_to(h.span.start, start, end), clamp_to(h.span.end, start, end)]
        } else {
            seq![]
        }
    }
}

/// Every place the style of line `[start, end)` can change: its ends, the
/// ends of the highlights in it, and the ends of the hit.
pub open spec fn cut_points(hls: Seq<Highlight>, hit: Option<(usize, usize)>, start: usize, end: usize) -> Seq<usize> {
    seq![start, end] + highlight_cuts(hls, start, end) + match hit {
        Some((a, b)) => seq![clamp_to(a, start, end), clamp_to(b, start, end)],
        None => seq![],
    }
}

/// The least of `ps` from the `k`-th on above `a`.
pub open spec fn next_cut(ps: Seq<usize>, a: int, k: int) -> Option<int>
    decreases ps.len() - k,
{
    if k < 0 || k >= ps.len() {
        None
    } else {
        let rest = next_cut(ps, a, k + 1);
        if ps[k] > a {
            match rest {
                Some(r) => Some(if r < ps[k] { r } else { ps[k] as int }),
                None => Some(ps[k] as int),
            }
        } else {
            rest
        }
    }
}

/// The colour of the first highlight, from the `k`-th on, that holds `[a, b)`.
pub open spec fn covering_kind(hls: Seq<Highlight>, a: int, b: int, k: int) -> Option<HighlightKind>
    decreases hls.len() - k,
{
    if k < 0 || k >= hls.len() {
        None
    } else if hls[k].span.start <= a && b <= hls[k].span.end {
        Some(hls[k].kind)
    } else {
        covering_kind(hls, a, b, k + 1)
    }
}

/// The runs of the line from `a` to `end`, `used` columns already taken
/// of `width`: each from one cut to the next, in the colour of the first
/// highlight holding it, marked when the hit holds it; the run that
/// would overflow is cut one column short and ends in `…`, and nothing
/// follows it.
pub open spec fn runs_from(
    t: Seq<u8>,
    hls: Seq<Highlight>,
    hit: Option<(usize, usize)>,
    ps: Seq<usize>,
    a: int,
    end: int,
    used: int,
    width: int,
) -> Seq<(Seq<char>, Option<HighlightKind>, bool)>
    decreases end - a,
{
    if a >= end {
        seq![]
    } else {
        match next_cut(ps, a, 0) {
            None => seq![],
            Some(c) => if c <= a || c > end {
                seq![]
            } else {
                let text = text_at(t, Span { start: a as usize, end: c as usize });
                let kind = covering_kind(hls, a, c, 0);
                let in_hit = match hit {
                    Some((hs, he)) => hs <= a && c <= he,
                    None => false,
                };
                if used + text.len() > width {
                    let room = if width - used >= 1 {
                        width - used - 1
                    } else {
                        0
                    };
                    seq![(text.take(room) + seq!['…'], kind, in_hit)]
                } else {
                    seq![(text, kind, in_hit)] + runs_from(t, hls, hit, ps, c, end, used + text.len(), width)
                }
            },
        }
    }
}

/// The least cut above `a`.
fn least_above(ps: &Vec<usize>, a: usize) -> (r: Option<usize>)
    ensures
        match r {
            Some(c) => next_cut(ps@, a as int, 0) == Some(c as int),
            None => next_cut(ps@, a as int, 0) is None,
        },
{
    let mut best: Option<usize> = None;
    let mut k: usize = ps.len();
    while k > 0
        invariant
            0 <= k <= ps@.len(),
            next_cut(ps@, a as int, k as int) == match best {
                Some(c) => Some(c as int),
                None => None::<int>,
            },
        decreases k,
    {
        let p = ps[k - 1];
        if p > a {
            best = match best {
                Some(r) => Some(if r < p { r } else { p }),
                None => Some(p),
            };
        }
        k = k - 1;
    }
    best
}

/// The colour of the first highlight that holds `[a, b)`.
fn covering(hls: &Vec<Highlight>, a: usize, b: usize) -> (r: Option<HighlightKind>)
    ensures
        r == covering_kind(hls@, a as int, b as int, 0),
{
    let mut k: usize = 0;
    while k < hls.len()
        invariant
            0 <= k <= hls@.len(),
            covering_kind(hls@, a as int, b as int, 0) == covering_kind(hls@, a as int, b as int, k as int),
        decreases hls@.len() - k,
    {
        if hls[k].span.start <= a && b <= hls[k].span.end {
            return Some(hls[k].kind);
        }
        k = k + 1;
    }
    None
}

/// `x` held to `[lo, hi]`.
fn clamped_to(x: usize, lo: usize, hi: usize) -> (r: usize)
    ensures
        r == clamp_to(x, lo, hi),
{
    if x < lo {
        lo
    } else if x > hi {
        hi
    } else {
        x
    }
}

/// Line `n` of a preview as runs of one style each, fitted to `width`
/// columns; empty past the last line.
pub open spec fn pieces_at(p: FilePreview, n: int, hit: Option<(usize, usize)>, width: int) -> Seq<
    (Seq<char>, Option<HighlightKind>, bool),
> {
    match line_span_of(bytes_of(p.text_view()), line_starts_of(bytes_of(p.text_view())), n) {
        Some((start, end)) => runs_from(
            bytes_of(p.text_view()),
            p.highlights_view(),
            hit,
            cut_points(p.highlights_view(), hit, start, end),
            start as int,
            end as int,
            0,
            width,
        ),
        None => seq![],
    }
}

impl FilePreview {
    /// Line `n` as runs of one style each, fitted to `width` columns: the
    /// highlights' colours, and `hit` (a byte range) marked on top. Empty
    /// past the last line.
    pub fn line_pieces(&self, n: usize, hit: Option<(usize, usize)>, width: usize) -> (r: Vec<Piece>)
        ensures
            r@.map_values(|p: Piece| piece_view(p)) == pieces_at(*self, n as int, hit, width as int),
    {
        let (start, end) = match self.line_span(n) {
            Some(s) => s,
            None => {
                return Vec::new();
            },
        };
        let hls = &self.highlights;
        let mut ps: Vec<usize> = vec![start, end];
        let mut k: usize = 0;
        while k < hls.len()
            invariant
                hls@ == self.highlights_view(),
                0 <= k <= hls@.len(),
                ps@ == seq![start, end] + highlight_cuts(hls@.take(k as int), start, end),
            decreases hls@.len() - k,
        {
            let h = hls[k];
            proof {
                assert(hls@.take(k + 1).drop_last() =~= hls@.take(k as int));
                assert(hls@.take(k + 1).last() == h);
            }
            if h.span.end > start && h.span.start < end {
                ps.push(clamped_to(h.span.start, start, end));
                ps.push(clamped_to(h.span.end, start, end));
            }
            proof {
                assert(ps@ =~= seq![start, end] + highlight_cuts(hls@.take(k + 1), start, end));
            }
            k = k + 1;
        }
        proof {
            assert(hls@.take(k as int) =~= hls@);
        }
        match hit {
            Some((a, b)) => {
                ps.push(clamped_to(a, start, end));
                ps.push(clamped_to(b, start, end));
            },
            None => {},
        }
        proof {
            assert(ps@ =~= cut_points(hls@, hit, start, end));
        }
        let source = self.text.as_str();
        let ghost t = bytes_of(self.text_view());
        let ghost want = runs_from(t, hls@, hit, ps@, start as int, end as int, 0, width as int);
        let mut out: Vec<Piece> = Vec::new();
        let mut a: usize = start;
        let mut used: usize = 0;
        while a < end
            invariant
                source@ == self.text_view(),
                t == bytes_of(self.text_view()),
                hls@ == self.highlights_view(),
                want == runs_from(t, hls@, hit, ps@, start as int, end as int, 0, width as int),
                ps@ == cut_points(self.highlights_view(), hit, start, end),
                line_span_of(bytes_of(self.text_view()), line_starts_of(bytes_of(self.text_view())), n as int) == Some((start, end)),
                start <= a,
                used <= width,
                out@.map_values(|p: Piece| piece_view(p)) + runs_from(t, hls@, hit, ps@, a as int, end as int, used as int, width as int) == want,
            decreases end - a,
        {
            let ghost before = out@.map_values(|p: Piece| piece_view(p));
            let c = match least_above(&ps, a) {
                Some(c) => c,
                None => {
                    proof {
                        assert(out@.map_values(|p: Piece| piece_view(p)) =~= want);
                    }
                    return out;
                },
            };
            if c <= a || c > end {
                proof {
                    assert(out@.map_values(|p: Piece| piece_view(p)) =~= want);
                }
                return out;
            }
            let span = Span { start: a, end: c };
            let text = text_of(source, span);
            let chars = chars_of(text.as_str());
            let count = chars.len();
            let kind = covering(hls, a, c);
            let in_hit = match hit {
                Some((hs, he)) => hs <= a && c <= he,
                None => false,
            };
            if count > width - used {
                let room = if width - used >= 1 {
                    width - used - 1
                } else {
                    0
                };
                let mut cut = string_of(&chars, 0, room);
                push_char(&mut cut, '…');
                proof {
                    assert(chars@.subrange(0, room as int) =~= text@.take(room as int));
                    assert(cut@ =~= text@.take(room as int) + seq!['…']);
                }
                let piece = Piece { text: cut, kind, hit: in_hit };
                proof {
                    assert(piece_view(piece) == (text@.take(room as int) + seq!['…'], kind, in_hit));
                }
                out.push(piece);
                proof {
                    assert(out@.map_values(|p: Piece| piece_view(p)) =~= before + seq![(text@.take(room as int) + seq!['…'], kind, in_hit)]);
                }
                return out;
            }
            out.push(Piece { text, kind, hit: in_hit });
            proof {
                assert(out@.map_values(|p: Piece| piece_view(p)) =~= before + seq![(text@, kind, in_hit)]);
            }
            used = used + count;
            a = c;
        }
        proof {
            assert(out@.map_values(|p: Piece| piece_view(p)) =~= want);
        }
        out
    }
}

/// The columns the line-number gutter takes before a source line.
pub const GUTTER: usize = 8;

/// One line of a source window: its number counted from 1, whether it is
/// one of the marked lines, and its runs.
#[derive(Debug, Clone, PartialEq, Eq)]
pub struct SourceRow {
    pub number: usize,
    pub marked: bool,
    pub pieces: Vec<Piece>,
}

/// A source row as values: its number, whether it is marked, its runs.
pub type SourceRowView = (int, bool, Seq<(Seq<char>, Option<HighlightKind>, bool)>);

/// A source row as values.
pub open spec fn source_row_view(r: SourceRow) -> SourceRowView {
    (r.number as int, r.marked, r.pieces@.map_values(|p: Piece| piece_view(p)))
}

/// The number of lines of a preview.
pub open spec fn line_total(p: FilePreview) -> int {
    line_starts_of(bytes_of(p.text_view())).len() as int
}

/// Line `n` lies in the marked range.
pub open spec fn in_marked(marked: Option<(usize, usize)>, n: int) -> bool {
    match marked {
        Some((a, b)) => a <= n <= b,
        None => false,
    }
}

/// `x - y`, or 0 where `y` is the larger.
pub open spec fn less(x: int, y: int) -> int {
    if x > y {
        x - y
    } else {
        0
    }
}

/// Lines `first..first + height` of a preview, those past its end left out:
/// each with the gutter's number, whether it is marked, and its runs in the
/// width the gutter leaves.
pub open spec fn window_of(
    p: FilePreview,
    first: int,
    height: int,
    width: int,
    hit: Option<(usize, usize)>,
    marked: Option<(usize, usize)>,
) -> Seq<SourceRowView> {
    let last = if first + height < line_total(p) {
        first + height
    } else {
        line_total(p)
    };
    Seq::new(
        less(last, first) as nat,
        |i: int| (first + i + 1, in_marked(marked, first + i), pieces_at(p, first + i, hit, less(width, GUTTER as int))),
    )
}

/// A source window holds no more lines than it was asked for, none past
/// the file's end, numbered one after the other from the first asked.
pub proof fn law_window_rows_follow_each_other(
    p: FilePreview,
    first: int,
    height: int,
    width: int,
    hit: Option<(usize, usize)>,
    marked: Option<(usize, usize)>,
)
    requires
        0 <= first,
        0 <= height,
    ensures
        window_of(p, first, height, width, hit, marked).len() <= height,
        window_of(p, first, height, width, hit, marked).len() <= less(line_total(p), first),
        forall|i: int| 0 <= i < window_of(p, first, height, width, hit, marked).len() ==> (#[trigger] window_of(p, first, height, width, hit, marked)[i]).0 == first + i + 1,
{
}

impl FilePreview {
    /// Lines `first..first + height` of the file, `hit` (a byte range)
    /// highlighted, `marked` lines flagged for their number's colour.
    pub fn source_window(
        &self,
        first: usize,
        height: usize,
        width: usize,
        hit: Option<(usize, usize)>,
        marked: Option<(usize, usize)>,
    ) -> (r: Vec<SourceRow>)
        ensures
            r@.map_values(|x: SourceRow| source_row_view(x)) == window_of(
                *self,
                first as int,
                height as int,
                width as int,
                hit,
                marked,
            ),
    {
        let count = self.line_count();
        let last = if first < count && height < count - first {
            first + height
        } else if first < count {
            count
        } else {
            first
        };
        let inner = if width > GUTTER {
            width - GUTTER
        } else {
            0
        };
        let ghost want = window_of(*self, first as int, height as int, width as int, hit, marked);
        let mut out: Vec<SourceRow> = Vec::new();
        let mut n: usize = first;
        while n < last
            invariant
                first <= n <= last,
                last <= count || last == first,
                count == line_total(*self),
                inner as int == less(width as int, GUTTER as int),
                want == window_of(*self, first as int, height as int, width as int, hit, marked),
                want.len() == last - first,
                out@.map_values(|x: SourceRow| source_row_view(x)) =~= want.take(n - first),
            decreases last - n,
        {
            let marked_here = match marked {
                Some((a, b)) => a <= n && n <= b,
                None => false,
            };
            let row = SourceRow { number: n + 1, marked: marked_here, pieces: self.line_pieces(n, hit, inner) };
            proof {
                assert(source_row_view(row) == want[n - first]);
            }
            out.push(row);
            proof {
                assert(want.take(n + 1 - first) =~= want.take(n - first).push(want[n - first]));
            }
            n = n + 1;
        }
        proof {
            assert(want.take(n - first) =~= want);
        }
        out
    }
}

// ---------------------------------------------------------------- search

/// The value an optional reference points at.
pub open spec fn deref_opt<T>(o: Option<&T>) -> Option<T> {
    match o {
        Some(x) => Some(*x),
        None => None,
    }
}

/// The element at `i`, when there is one.
pub open spec fn at<T>(s: Seq<T>, i: int) -> Option<T> {
    if 0 <= i < s.len() {
        Some(s[i])
    } else {
        None
    }
}

/// Where a cursor at `index` stays once its list holds `len` rows: on the
/// last row when it was past it, on the first of an empty list.
pub open spec fn clamped(index: int, len: int) -> int {
    if len == 0 {
        0
    } else if index > len - 1 {
        len - 1
    } else {
        index
    }
}

/// The hub: a query, its results, and context for the cursor row.
#[derive(Debug)]
pub struct Search {
    pub query: QueryBar,
    pub results: Results,
    pub focus: SearchPanel,
    pub preview: Option<FilePreview>,
    /// A manual context scroll position; `None` follows the cursor.
    pub preview_scroll: Option<usize>,
}

impl Default for Search {
    fn default() -> (s: Self)
        ensures
            s.query@.len() == 0,
            s.results.query is None,
            s.results.matches@.len() == 0,
            s.results.cursor.index == 0,
            s.focus == SearchPanel::Query,
            s.preview is None,
            s.preview_scroll is None,
    {
        Search {
            query: QueryBar::default(),
            results: Results::default(),
            focus: SearchPanel::Query,
            preview: None,
            preview_scroll: None,
        }
    }
}

/// Search results in the engine's order, declarations first, with the cursor.
#[derive(Debug)]
pub struct Results {
    pub query: Option<Query>,
    pub matches: Vec<Match>,
    pub cursor: Cursor,
}

impl Default for Results {
    fn default() -> (r: Self)
        ensures
            r.query is None,
            r.matches@.len() == 0,
            r.cursor.index == 0,
    {
        Results { query: None, matches: Vec::new(), cursor: Cursor { index: 0 } }
    }
}

/// The declarations among `ms` whose name is `name`, in order.
pub open spec fn named_declarations(ms: Seq<Match>, name: Seq<char>) -> Seq<Match>
    decreases ms.len(),
{
    if ms.len() == 0 {
        seq![]
    } else {
        let rest = named_declarations(ms.drop_last(), name);
        let d = ms.last();
        if d.role == Role::Declaration && (d.symbol matches Some(s) && s.name@ == name) {
            rest.push(d)
        } else {
            rest
        }
    }
}

/// The declaration rows among `ms`, in order.
pub open spec fn declarations_among(ms: Seq<Match>) -> Seq<Match>
    decreases ms.len(),
{
    if ms.len() == 0 {
        seq![]
    } else {
        let rest = declarations_among(ms.drop_last());
        if ms.last().role == Role::Declaration {
            rest.push(ms.last())
        } else {
            rest
        }
    }
}

/// The only element of `s`, when it has exactly one.
pub open spec fn sole<T>(s: Seq<T>) -> Option<T> {
    if s.len() == 1 {
        Some(s[0])
    } else {
        None
    }
}

/// What `r` acts on from a row: a declaration's name, kind and file, or an
/// identifier hit's token.
pub open spec fn target_of(m: Match) -> Option<RenameTarget> {
    match m.symbol {
        Some(s) => Some(RenameTarget { name: s.name, symbol: Some(s.kind), declared_in: Some(m.path) }),
        None => if is_identifier(m.text@) {
            Some(RenameTarget { name: m.text, symbol: None, declared_in: None })
        } else {
            None
        },
    }
}

impl Results {
    /// New rows; the cursor stays on a row.
    pub fn replace(&mut self, matches: Vec<Match>)
        ensures
            final(self).matches == matches,
            final(self).query == old(self).query,
            final(self).cursor.index == clamped(old(self).cursor.index as int, matches@.len() as int),
    {
        self.matches = matches;
        let len = self.matches.len();
        self.cursor.clamp(len);
    }

    /// The row under the cursor.
    pub fn current(&self) -> (r: Option<&Match>)
        ensures
            deref_opt(r) == at(self.matches@, self.cursor.index as int),
    {
        if self.cursor.index < self.matches.len() {
            Some(&self.matches[self.cursor.index])
        } else {
            None
        }
    }

    /// The rows that are declarations, in order.
    pub fn declarations(&self) -> (r: Vec<&Match>)
        ensures
            r@.map_values(|m: &Match| *m) == declarations_among(self.matches@),
    {
        let ghost ms = self.matches@;
        let mut out: Vec<&Match> = Vec::new();
        let mut i: usize = 0;
        while i < self.matches.len()
            invariant
                ms == self.matches@,
                0 <= i <= ms.len(),
                out@.map_values(|m: &Match| *m) == declarations_among(ms.take(i as int)),
            decreases ms.len() - i,
        {
            let d = &self.matches[i];
            let ghost before = out@;
            proof {
                assert(ms.take(i + 1).drop_last() =~= ms.take(i as int));
                assert(ms.take(i + 1).last() == ms[i as int]);
            }
            if d.role == Role::Declaration {
                out.push(d);
                proof {
                    assert(out@.map_values(|m: &Match| *m) =~= before.map_values(|m: &Match| *m).push(*d));
                }
            }
            i = i + 1;
        }
        proof {
            assert(ms.take(i as int) =~= ms);
        }
        out
    }

    /// The declaration a use row belongs to, when the results hold exactly
    /// one declaration of that name.
    pub fn declaration_of(&self, m: &Match) -> (r: Option<&Match>)
        ensures
            deref_opt(r) == sole(named_declarations(self.matches@, m.text@)),
    {
        let ghost ms = self.matches@;
        let mut found: Option<&Match> = None;
        let mut count: usize = 0;
        let mut i: usize = 0;
        while i < self.matches.len()
            invariant
                ms == self.matches@,
                0 <= i <= ms.len(),
                count <= 2,
                count == if named_declarations(ms.take(i as int), m.text@).len() >= 2 {
                    2
                } else {
                    named_declarations(ms.take(i as int), m.text@).len()
                },
                count >= 1 ==> deref_opt(found) == Some(named_declarations(ms.take(i as int), m.text@)[0]),
                count == 0 ==> found is None,
            decreases ms.len() - i,
        {
            let d = &self.matches[i];
            let ghost before = named_declarations(ms.take(i as int), m.text@);
            proof {
                assert(ms.take(i + 1).drop_last() =~= ms.take(i as int));
                assert(ms.take(i + 1).last() == ms[i as int]);
            }
            let same = match &d.symbol {
                Some(s) => d.role == Role::Declaration && crate::text::str_eq(s.name.as_str(), m.text.as_str()),
                None => false,
            };
            if same {
                proof {
                    assert(named_declarations(ms.take(i + 1), m.text@) == before.push(*d));
                    if before.len() > 0 {
                        assert(before.push(*d)[0] == before[0]);
                    }
                }
                if count == 0 {
                    found = Some(d);
                    count = 1;
                } else if count == 1 {
                    count = 2;
                }
            } else {
                proof {
                    assert(named_declarations(ms.take(i + 1), m.text@) == before);
                }
            }
            i = i + 1;
        }
        proof {
            assert(ms.take(i as int) =~= ms);
        }
        if count == 1 {
            found
        } else {
            None
        }
    }

    /// The name a rename would act on from the cursor: a declaration's name,
    /// kind and file, or an identifier hit's token.
    pub fn rename_target(&self) -> (r: Option<RenameTarget>)
        ensures
            r == match at(self.matches@, self.cursor.index as int) {
                Some(m) => target_of(m),
                None => None,
            },
    {
        let m = match self.current() {
            Some(m) => m,
            None => return None,
        };
        match &m.symbol {
            Some(s) => Some(RenameTarget {
                name: s.name.clone(),
                symbol: Some(s.kind),
                declared_in: Some(m.path.clone()),
            }),
            None => {
                if identifier(m.text.as_str()) {
                    Some(RenameTarget { name: m.text.clone(), symbol: None, declared_in: None })
                } else {
                    None
                }
            },
        }
    }
}

/// What `r` found under the cursor.
#[derive(Debug, Clone, PartialEq, Eq)]
pub struct RenameTarget {
    pub name: String,
    pub symbol: Option<SymbolKind>,
    pub declared_in: Option<String>,
}

// ---------------------------------------------------------------- rename

/// The occurrences with verdict `c`, in the engine's order.
pub open spec fn rows_of(os: Seq<Occurrence>, c: Confidence) -> Seq<Occurrence>
    decreases os.len(),
{
    if os.len() == 0 {
        seq![]
    } else if os.last().confidence == c {
        rows_of(os.drop_last(), c).push(os.last())
    } else {
        rows_of(os.drop_last(), c)
    }
}

/// How many of `os` are ticked.
pub open spec fn count_ticked(os: Seq<Occurrence>, ticks: Set<u64>) -> nat
    decreases os.len(),
{
    if os.len() == 0 {
        0
    } else {
        count_ticked(os.drop_last(), ticks) + if ticks.contains(os.last().m.id) {
            1nat
        } else {
            0nat
        }
    }
}

/// The ids of `os`.
pub open spec fn occurrence_ids(os: Seq<Occurrence>) -> Set<u64>
    decreases os.len(),
{
    if os.len() == 0 {
        Set::empty()
    } else {
        occurrence_ids(os.drop_last()).insert(os.last().m.id)
    }
}

/// `ticks` with `id` flipped: taken out when in, put in when out.
pub open spec fn flipped(ticks: Set<u64>, id: u64) -> Set<u64> {
    if ticks.contains(id) {
        ticks.remove(id)
    } else {
        ticks.insert(id)
    }
}

/// `ticks` with every id of a panel flipped together: all taken out when
/// they all are in, all put in otherwise.
pub open spec fn flipped_all(ticks: Set<u64>, ids: Set<u64>) -> Set<u64> {
    if ids.subset_of(ticks) {
        ticks.difference(ids)
    } else {
        ticks.union(ids)
    }
}

/// The plan edits the site `(path, span)` in file `f`.
pub open spec fn edits_site(f: FileChange, path: Seq<char>, span: Span) -> bool {
    f.path@ == path && f.edits@.contains(span)
}

/// The first file of `cs` that edits the site, as `file` finds it.
pub open spec fn first_editing(cs: Seq<FileChange>, path: Seq<char>, span: Span, r: Option<FileChange>) -> bool {
    match r {
        Some(f) => exists|i: int|
            0 <= i < cs.len() && cs[i] == f && edits_site(cs[i], path, span) && forall|j: int|
                0 <= j < i ==> !edits_site(#[trigger] cs[j], path, span),
        None => forall|j: int| 0 <= j < cs.len() ==> !edits_site(#[trigger] cs[j], path, span),
    }
}

/// The files holding a ticked match of `ms`.
pub open spec fn ticked_paths(ms: Seq<Match>, ticks: Set<u64>) -> Set<Seq<char>> {
    Set::new(|p: Seq<char>| exists|i: int| 0 <= i < ms.len() && ticks.contains(ms[i].id) && #[trigger] ms[i].path@ == p)
}

/// The matches of occurrences.
pub open spec fn matches_of(os: Seq<Occurrence>) -> Seq<Match> {
    os.map_values(|o: Occurrence| o.m)
}

/// How many files hold a ticked match of `ms`.
fn count_ticked_paths(ms: &Vec<&Match>, ticks: &BTreeSet<u64>) -> (r: usize)
    ensures
        r == ticked_paths(ms@.map_values(|m: &Match| *m), ticks@).len(),
{
    let ghost all = ms@.map_values(|m: &Match| *m);
    let mut seen: Vec<&String> = Vec::new();
    let mut i: usize = 0;
    while i < ms.len()
        invariant
            all == ms@.map_values(|m: &Match| *m),
            0 <= i <= ms@.len(),
            seen@.map_values(|p: &String| p@).no_duplicates(),
            seen@.map_values(|p: &String| p@).to_set() == ticked_paths(all.take(i as int), ticks@),
        decreases ms@.len() - i,
    {
        let m = ms[i];
        let ghost before = seen@.map_values(|p: &String| p@);
        if ticks.contains(&m.id) {
            let mut known = false;
            let mut k: usize = 0;
            while k < seen.len()
                invariant
                    0 <= k <= seen@.len(),
                    before == seen@.map_values(|p: &String| p@),
                    known == exists|j: int| 0 <= j < k && before[j] == m.path@,
                decreases seen@.len() - k,
            {
                proof {
                    assert(before[k as int] == seen@[k as int]@);
                }
                if *seen[k] == m.path {
                    known = true;
                }
                k = k + 1;
            }
            if !known {
                seen.push(&m.path);
                proof {
                    assert(seen@.map_values(|p: &String| p@) =~= before.push(m.path@));
                    assert(!before.contains(m.path@));
                }
            }
            proof {
                let now = seen@.map_values(|p: &String| p@);
                assert(all.take(i + 1) =~= all.take(i as int).push(*m));
                assert forall|p: Seq<char>| now.to_set().contains(p) == ticked_paths(all.take(i + 1), ticks@).contains(p) by {
                    let t = all.take(i + 1);
                    if now.to_set().contains(p) {
                        if p == m.path@ {
                            assert(t[i as int].path@ == p);
                        } else {
                            assert(now.contains(p));
                            if !known {
                                let j = choose|j: int| 0 <= j < now.len() && now[j] == p;
                                assert(before[j] == p);
                            }
                            assert(before.contains(p));
                            assert(ticked_paths(all.take(i as int), ticks@).contains(p));
                            let w = choose|w: int| 0 <= w < i && ticks@.contains(all.take(i as int)[w].id) && #[trigger] all.take(i as int)[w].path@ == p;
                            assert(t[w].path@ == p);
                        }
                    }
                    if ticked_paths(t, ticks@).contains(p) {
                        let w = choose|w: int| 0 <= w < t.len() && ticks@.contains(t[w].id) && #[trigger] t[w].path@ == p;
                        if w < i {
                            assert(all.take(i as int)[w].path@ == p);
                            assert(ticked_paths(all.take(i as int), ticks@).contains(p));
                            assert(before.contains(p));
                            let j = choose|j: int| 0 <= j < before.len() && before[j] == p;
                            if !known {
                                assert(now[j] == p);
                            }
                            assert(now.contains(p));
                        } else {
                            if known {
                                let j = choose|j: int| 0 <= j < before.len() && before[j] == m.path@;
                                assert(now[j] == p);
                            } else {
                                assert(now[before.len() as int] == p);
                            }
                            assert(now.contains(p));
                        }
                    }
                }
                assert(now.to_set() =~= ticked_paths(all.take(i + 1), ticks@));
            }
        } else {
            proof {
                assert(all.take(i + 1) =~= all.take(i as int).push(*m));
                let t = all.take(i + 1);
                assert forall|p: Seq<char>| ticked_paths(t, ticks@).contains(p) implies ticked_paths(all.take(i as int), ticks@).contains(p) by {
                    let w = choose|w: int| 0 <= w < t.len() && ticks@.contains(t[w].id) && #[trigger] t[w].path@ == p;
                    assert(w < i);
                    assert(all.take(i as int)[w].path@ == p);
                }
                assert forall|p: Seq<char>| ticked_paths(all.take(i as int), ticks@).contains(p) implies ticked_paths(t, ticks@).contains(p) by {
                    let w = choose|w: int| 0 <= w < i && ticks@.contains(all.take(i as int)[w].id) && #[trigger] all.take(i as int)[w].path@ == p;
                    assert(t[w].path@ == p);
                }
                assert(ticked_paths(t, ticks@) =~= ticked_paths(all.take(i as int), ticks@));
            }
        }
        i = i + 1;
    }
    proof {
        assert(all.take(i as int) =~= all);
        seen@.map_values(|p: &String| p@).unique_seq_to_set();
    }
    seen.len()
}

/// A rename being judged: the new name, every occurrence by verdict, and
/// which of them are ticked for the commit.
#[derive(Debug)]
pub struct RenameMode {
    pub target: RenameTarget,
    pub language: Option<String>,
    /// The new name, edited live; the plan is re-made as it grows.
    pub name: String,
    pub declarations: Vec<Match>,
    pub occurrences: Vec<Occurrence>,
    /// The last plan's files, each holding its diff: the preview the detail
    /// pane draws.
    pub changes: Vec<FileChange>,
    pub ticks: BTreeSet<u64>,
    pub focus: RenamePanel,
    /// Cursors of the `?`, `✓` and `✗` panels, in that order.
    pub cursors: [Cursor; 3],
    /// The list panel the detail follows when focus is elsewhere.
    pub last_list: RenamePanel,
    pub detail_scroll: usize,
    pub preview: Option<FilePreview>,
    /// The verdicts are in and the ticks seeded; later plans only refresh
    /// `changes`, so typing does not undo the user's ticks.
    pub judged: bool,
    /// Waiting for the judge, or for the commit.
    pub busy: bool,
    pub error: Option<String>,
}

/// The list panel whose row the detail explains: the focused one, or the
/// last one focused.
pub open spec fn rename_list(focus: RenamePanel, last_list: RenamePanel) -> RenamePanel {
    if panel_confidence(focus) is Some {
        focus
    } else {
        last_list
    }
}

impl RenameMode {
    /// The row the detail explains: the cursor's row of the list panel.
    pub open spec fn spec_current(&self) -> Option<Occurrence> {
        let p = rename_list(self.focus, self.last_list);
        match (panel_confidence(p), rename_slot(p)) {
            (Some(c), Some(s)) => at(rows_of(self.occurrences@, c), self.cursors@[s as int].index as int),
            _ => None,
        }
    }

    pub fn new(target: RenameTarget, language: Option<String>) -> (r: Self)
        ensures
            r.target == target,
            r.language == language,
            r.name@.len() == 0,
            r.declarations@.len() == 0,
            r.occurrences@.len() == 0,
            r.changes@.len() == 0,
            r.ticks@.is_empty(),
            r.focus == RenamePanel::Name,
            r.cursors@ == seq![Cursor { index: 0 }, Cursor { index: 0 }, Cursor { index: 0 }],
            r.last_list == RenamePanel::Unsure,
            r.detail_scroll == 0,
            r.preview is None,
            !r.judged,
            r.busy,
            r.error is None,
    {
        RenameMode {
            name: String::new(),
            target,
            language,
            declarations: Vec::new(),
            occurrences: Vec::new(),
            changes: Vec::new(),
            ticks: BTreeSet::new(),
            focus: RenamePanel::Name,
            cursors: [Cursor { index: 0 }, Cursor { index: 0 }, Cursor { index: 0 }],
            last_list: RenamePanel::Unsure,
            detail_scroll: 0,
            preview: None,
            judged: false,
            busy: true,
            error: None,
        }
    }

    /// The rows of one verdict panel, in the engine's order.
    pub fn rows(&self, confidence: Confidence) -> (r: Vec<&Occurrence>)
        ensures
            r@.map_values(|o: &Occurrence| *o) == rows_of(self.occurrences@, confidence),
    {
        let ghost os = self.occurrences@;
        let mut r: Vec<&Occurrence> = Vec::new();
        let mut i: usize = 0;
        while i < self.occurrences.len()
            invariant
                os == self.occurrences@,
                0 <= i <= os.len(),
                r@.map_values(|o: &Occurrence| *o) == rows_of(os.take(i as int), confidence),
            decreases os.len() - i,
        {
            proof {
                assert(os.take(i + 1).drop_last() =~= os.take(i as int));
            }
            if self.occurrences[i].confidence == confidence {
                r.push(&self.occurrences[i]);
            }
            proof {
                assert(r@.map_values(|o: &Occurrence| *o) =~= rows_of(os.take(i + 1), confidence));
            }
            i = i + 1;
        }
        proof {
            assert(os.take(i as int) =~= os);
        }
        r
    }

    pub fn cursor(&self, panel: RenamePanel) -> (r: Option<&Cursor>)
        ensures
            deref_opt(r) == match rename_slot(panel) {
                Some(s) => Some(self.cursors@[s as int]),
                None => None,
            },
    {
        match panel.slot() {
            Some(s) => Some(&self.cursors[s]),
            None => None,
        }
    }

    /// The cursor a panel uses, to move it; `None` for the panels
    /// without one. Nothing else of the mode changes through it.
    pub fn cursor_mut(&mut self, panel: RenamePanel) -> (r: Option<&mut Cursor>)
        ensures
            match rename_slot(panel) {
                Some(s) => r matches Some(c) && *c == old(self).cursors@[s as int]
                    && *final(self) == (RenameMode { cursors: final(self).cursors, ..*old(self) })
                    && final(self).cursors@ == old(self).cursors@.update(s as int, *final(c)),
                None => r is None && *final(self) == *old(self),
            },
    {
        match panel.slot() {
            Some(s) => Some(&mut self.cursors[s]),
            None => None,
        }
    }

    /// The list panel whose row the detail explains.
    pub fn list(&self) -> (r: RenamePanel)
        ensures
            r == rename_list(self.focus, self.last_list),
    {
        if self.focus.confidence().is_some() {
            self.focus
        } else {
            self.last_list
        }
    }

    pub fn current(&self) -> (r: Option<&Occurrence>)
        ensures
            deref_opt(r) == self.spec_current(),
    {
        let panel = self.list();
        let confidence = match panel.confidence() {
            Some(c) => c,
            None => return None,
        };
        let s = panel.slot().unwrap();
        let rows = self.rows(confidence);
        let index = self.cursors[s].index;
        if index < rows.len() {
            proof {
                assert(rows@.map_values(|o: &Occurrence| *o)[index as int] == *rows@[index as int]);
            }
            Some(rows[index])
        } else {
            None
        }
    }

    pub fn is_ticked(&self, o: &Occurrence) -> (r: bool)
        ensures
            r == self.ticks@.contains(o.m.id),
    {
        self.ticks.contains(&o.m.id)
    }

    /// How many rows of one verdict are ticked.
    pub fn ticked(&self, confidence: Confidence) -> (r: usize)
        ensures
            r == count_ticked(rows_of(self.occurrences@, confidence), self.ticks@),
    {
        let rows = self.rows(confidence);
        let ghost rs = rows@.map_values(|o: &Occurrence| *o);
        let mut n: usize = 0;
        let mut i: usize = 0;
        while i < rows.len()
            invariant
                rs == rows@.map_values(|o: &Occurrence| *o),
                0 <= i <= rs.len(),
                n == count_ticked(rs.take(i as int), self.ticks@),
                n <= i,
            decreases rs.len() - i,
        {
            proof {
                assert(rs.take(i + 1).drop_last() =~= rs.take(i as int));
                assert(rs[i as int] == *rows@[i as int]);
            }
            if self.is_ticked(rows[i]) {
                n = n + 1;
            }
            i = i + 1;
        }
        proof {
            assert(rs.take(i as int) =~= rs);
        }
        n
    }

    /// Tick the current row, or untick it.
    pub fn toggle(&mut self)
        ensures
            final(self).ticks@ == match old(self).spec_current() {
                Some(o) => flipped(old(self).ticks@, o.m.id),
                None => old(self).ticks@,
            },
            *final(self) == (RenameMode { ticks: final(self).ticks, ..*old(self) }),
    {
        let id = match self.current() {
            Some(o) => o.m.id,
            None => return,
        };
        if !self.ticks.remove(&id) {
            self.ticks.insert(id);
        }
    }

    /// Tick every row of the focused panel, or untick them all when they
    /// already are.
    pub fn toggle_panel(&mut self)
        ensures
            final(self).ticks@ == match panel_confidence(rename_list(old(self).focus, old(self).last_list)) {
                Some(c) => flipped_all(old(self).ticks@, occurrence_ids(rows_of(old(self).occurrences@, c))),
                None => old(self).ticks@,
            },
            *final(self) == (RenameMode { ticks: final(self).ticks, ..*old(self) }),
    {
        let confidence = match self.list().confidence() {
            Some(c) => c,
            None => return,
        };
        let mut ids: Vec<u64> = Vec::new();
        let ghost rs = rows_of(self.occurrences@, confidence);
        {
            let rows = self.rows(confidence);
            let mut i: usize = 0;
            while i < rows.len()
                invariant
                    rs == rows@.map_values(|o: &Occurrence| *o),
                    0 <= i <= rs.len(),
                    ids@.len() == i,
                    forall|k: int| 0 <= k < i ==> ids@[k] == #[trigger] rs[k].m.id,
                decreases rs.len() - i,
            {
                proof {
                    assert(rs[i as int] == *rows@[i as int]);
                }
                ids.push(rows[i].m.id);
                i = i + 1;
            }
        }
        let ghost idset = occurrence_ids(rs);
        proof {
            lemma_occurrence_ids(rs);
            assert(prefix_set(ids@, 0) =~= Set::empty());
            assert(self.ticks@.difference(Set::empty()) =~= self.ticks@);
            assert(self.ticks@.union(Set::empty()) =~= self.ticks@);
        }
        let ghost start = self.ticks@;
        let mut all = true;
        let mut i: usize = 0;
        while i < ids.len()
            invariant
                ids@.len() == rs.len(),
                forall|k: int| 0 <= k < ids@.len() ==> ids@[k] == #[trigger] rs[k].m.id,
                start == self.ticks@,
                0 <= i <= ids@.len(),
                all == forall|k: int| 0 <= k < i ==> start.contains(#[trigger] ids@[k]),
            decreases ids@.len() - i,
        {
            if !self.ticks.contains(&ids[i]) {
                all = false;
            }
            i = i + 1;
        }
        proof {
            if all {
                assert forall|x: u64| idset.contains(x) implies start.contains(x) by {
                    let k = choose|k: int| 0 <= k < rs.len() && rs[k].m.id == x;
                    assert(ids@[k] == x);
                }
            } else {
                let k = choose|k: int| 0 <= k < ids@.len() && !start.contains(#[trigger] ids@[k]);
                assert(idset.contains(rs[k].m.id));
            }
        }
        let mut j: usize = 0;
        while j < ids.len()
            invariant
                ids@.len() == rs.len(),
                forall|k: int| 0 <= k < ids@.len() ==> ids@[k] == #[trigger] rs[k].m.id,
                0 <= j <= ids@.len(),
                all ==> self.ticks@ == start.difference(prefix_set(ids@, j as int)),
                !all ==> self.ticks@ == start.union(prefix_set(ids@, j as int)),
                *self == (RenameMode { ticks: self.ticks, ..*old(self) }),
            decreases ids@.len() - j,
        {
            proof {
                lemma_prefix_set(ids@, j as int);
            }
            if all {
                self.ticks.remove(&ids[j]);
                proof {
                    assert(self.ticks@ =~= start.difference(prefix_set(ids@, j + 1)));
                }
            } else {
                self.ticks.insert(ids[j]);
                proof {
                    assert(self.ticks@ =~= start.union(prefix_set(ids@, j + 1)));
                }
            }
            j = j + 1;
        }
        proof {
            let whole = prefix_set(ids@, ids@.len() as int);
            assert forall|x: u64| whole.contains(x) == idset.contains(x) by {
                if whole.contains(x) {
                    let k = choose|k: int| 0 <= k < ids@.len() && ids@[k] == x;
                    assert(rs[k].m.id == x);
                }
                if idset.contains(x) {
                    let k = choose|k: int| 0 <= k < rs.len() && #[trigger] rs[k].m.id == x;
                    assert(ids@[k] == x);
                }
            }
            assert(whole =~= idset);
        }
    }

    /// The plan's change for the occurrence's file when the plan edits this
    /// very site: the diff the detail pane draws.
    pub fn file(&self, o: &Occurrence) -> (r: Option<&FileChange>)
        ensures
            first_editing(self.changes@, o.m.path@, o.m.span, deref_opt(r)),
    {
        file_editing(&self.changes, &o.m.path, o.m.span)
    }

    /// Files the commit touches, from the ticks.
    pub fn files(&self) -> (r: usize)
        ensures
            r == ticked_paths(matches_of(self.occurrences@), self.ticks@).len(),
    {
        let mut ms: Vec<&Match> = Vec::new();
        let mut i: usize = 0;
        while i < self.occurrences.len()
            invariant
                0 <= i <= self.occurrences@.len(),
                ms@.map_values(|m: &Match| *m) =~= matches_of(self.occurrences@).take(i as int),
            decreases self.occurrences@.len() - i,
        {
            let ghost before = ms@.map_values(|m: &Match| *m);
            ms.push(&self.occurrences[i].m);
            proof {
                assert(ms@.map_values(|m: &Match| *m) =~= before.push(self.occurrences@[i as int].m));
                assert(matches_of(self.occurrences@).take(i + 1) =~= matches_of(self.occurrences@).take(i as int).push(self.occurrences@[i as int].m));
            }
            i = i + 1;
        }
        proof {
            assert(matches_of(self.occurrences@).take(i as int) =~= matches_of(self.occurrences@));
        }
        count_ticked_paths(&ms, &self.ticks)
    }
}

/// The values among the first `j` of `s`.
pub open spec fn prefix_set(s: Seq<u64>, j: int) -> Set<u64> {
    Set::new(|x: u64| exists|k: int| 0 <= k < j && s[k] == x)
}

proof fn lemma_prefix_set(s: Seq<u64>, j: int)
    requires
        0 <= j < s.len(),
    ensures
        prefix_set(s, j + 1) == prefix_set(s, j).insert(s[j]),
{
    assert forall|x: u64| prefix_set(s, j + 1).contains(x) == prefix_set(s, j).insert(s[j]).contains(x) by {
        if prefix_set(s, j + 1).contains(x) && x != s[j] {
            let k = choose|k: int| 0 <= k < j + 1 && s[k] == x;
            assert(prefix_set(s, j).contains(x));
        }
        if prefix_set(s, j).contains(x) {
            let k = choose|k: int| 0 <= k < j && s[k] == x;
            assert(prefix_set(s, j + 1).contains(x));
        }
    }
    assert(prefix_set(s, j + 1) =~= prefix_set(s, j).insert(s[j]));
}

/// The ids of `os` are the ids of its elements.
proof fn lemma_occurrence_ids(os: Seq<Occurrence>)
    ensures
        forall|x: u64| occurrence_ids(os).contains(x) <==> exists|k: int| 0 <= k < os.len() && #[trigger] os[k].m.id == x,
    decreases os.len(),
{
    if os.len() > 0 {
        lemma_occurrence_ids(os.drop_last());
        assert forall|x: u64| occurrence_ids(os).contains(x) <==> exists|k: int| 0 <= k < os.len() && #[trigger] os[k].m.id == x by {
            if occurrence_ids(os).contains(x) && x != os.last().m.id {
                assert(occurrence_ids(os.drop_last()).contains(x));
                let k = choose|k: int| 0 <= k < os.drop_last().len() && #[trigger] os.drop_last()[k].m.id == x;
                assert(os[k].m.id == x);
            }
            if exists|k: int| 0 <= k < os.len() && #[trigger] os[k].m.id == x {
                let k = choose|k: int| 0 <= k < os.len() && #[trigger] os[k].m.id == x;
                if k < os.len() - 1 {
                    assert(os.drop_last()[k].m.id == x);
                    assert(occurrence_ids(os.drop_last()).contains(x));
                }
            }
        }
    }
}

/// The first of `cs` that edits the site.
pub(crate) fn file_editing<'a>(cs: &'a Vec<FileChange>, path: &String, span: Span) -> (r: Option<&'a FileChange>)
    ensures
        first_editing(cs@, path@, span, deref_opt(r)),
{
    let mut i: usize = 0;
    while i < cs.len()
        invariant
            0 <= i <= cs@.len(),
            forall|j: int| 0 <= j < i ==> !edits_site(#[trigger] cs@[j], path@, span),
        decreases cs@.len() - i,
    {
        let f = &cs[i];
        if f.path == *path {
            let mut k: usize = 0;
            let mut hit = false;
            while k < f.edits.len()
                invariant
                    0 <= k <= f.edits@.len(),
                    hit == exists|e: int| 0 <= e < k && f.edits@[e] == span,
                decreases f.edits@.len() - k,
            {
                if f.edits[k] == span {
                    hit = true;
                }
                k = k + 1;
            }
            if hit {
                proof {
                    assert(f.edits@.contains(span));
                    assert(edits_site(cs@[i as int], path@, span));
                }
                return Some(f);
            }
            proof {
                assert(!f.edits@.contains(span));
            }
        }
        i = i + 1;
    }
    None
}

// ---------------------------------------------------------------- move

/// A respelling accounts for the edit at `span` of the file at `path`.
pub open spec fn accounted(rs: Seq<Respelling>, path: Seq<char>, span: Span) -> bool {
    exists|k: int| 0 <= k < rs.len() && #[trigger] rs[k].path@ == path && rs[k].span == span
}

/// A structural change: the file moves, or holds an edit no respelling
/// accounts for.
pub open spec fn is_structural(f: FileChange, rs: Seq<Respelling>) -> bool {
    ||| f.moved_to is Some
    ||| exists|e: int| 0 <= e < f.edits@.len() && !accounted(rs, f.path@, #[trigger] f.edits@[e])
}

/// The indices of the structural changes of `fs`, in order.
pub open spec fn structural_of(fs: Seq<FileChange>, rs: Seq<Respelling>) -> Seq<usize>
    decreases fs.len(),
{
    if fs.len() == 0 {
        seq![]
    } else if is_structural(fs.last(), rs) {
        structural_of(fs.drop_last(), rs).push((fs.len() - 1) as usize)
    } else {
        structural_of(fs.drop_last(), rs)
    }
}

/// A move's plan, with the rows each of its panels lists.
#[derive(Debug)]
pub struct MovePlan {
    pub intent: Intent,
    pub files: Vec<FileChange>,
    pub respellings: Vec<Respelling>,
    pub notices: Vec<Notice>,
    /// Indices into `files` of the structural changes: moved, or holding an
    /// edit no respelling accounts for.
    pub structural: Vec<usize>,
}

/// Where the line starting at `from` ends: the next `\n`, or the end.
pub open spec fn line_end(d: Seq<char>, from: int) -> int
    decreases d.len() - from,
{
    if from < 0 || from >= d.len() || d[from] == '\n' {
        if from < 0 { 0 } else if from > d.len() { d.len() as int } else { from }
    } else {
        line_end(d, from + 1)
    }
}

/// The line `d[from..end]` as `str::lines` gives it: without a `\r`
/// before the break.
pub open spec fn line_text(d: Seq<char>, from: int, end: int) -> Seq<char> {
    let l = d.subrange(from, end);
    if l.len() > 0 && l.last() == '\r' {
        l.drop_last()
    } else {
        l
    }
}

/// A diff line that adds or removes text, not a file header.
pub open spec fn is_change_line(l: Seq<char>) -> bool {
    &&& l.len() > 0
    &&& (l[0] == '-' || l[0] == '+')
    &&& !(l.len() >= 3 && l.take(3) == seq!['-', '-', '-'])
    &&& !(l.len() >= 3 && l.take(3) == seq!['+', '+', '+'])
}

/// The first change line of `d` from the line starting at `from` on.
pub open spec fn first_change(d: Seq<char>, from: int) -> Option<Seq<char>>
    decreases d.len() - from,
{
    if from < 0 || from >= d.len() {
        None
    } else {
        let end = line_end(d, from);
        let l = line_text(d, from, end);
        if is_change_line(l) {
            Some(l)
        } else if from < end + 1 && end + 1 <= d.len() {
            first_change(d, end + 1)
        } else {
            None
        }
    }
}

/// One line for a file of a move: where it goes, or its first changed
/// line as its sign and its trimmed text.
pub open spec fn edits_label(f: FileChange) -> Seq<char> {
    match f.moved_to {
        Some(to) => f.path@ + " → "@ + to@,
        None => f.path@ + seq![' ', ' '] + match first_change(f.diff@, 0) {
            Some(l) => seq![l[0], ' '] + trim(l.drop_first()),
            None => seq![],
        },
    }
}

impl MovePlan {
    /// One line for the `i`-th file: where it goes, or its first changed
    /// line.
    pub fn structural_label(&self, i: usize) -> (r: String)
        requires
            i < self.files@.len(),
        ensures
            r@ == edits_label(self.files@[i as int]),
    {
        let file = &self.files[i];
        let mut out = owned(file.path.as_str());
        match &file.moved_to {
            Some(to) => {
                let arrow = " → ";
                proof {
                    reveal_strlit(" → ");
                }
                push_str(&mut out, arrow);
                push_str(&mut out, to.as_str());
                return out;
            },
            None => {},
        }
        push_char(&mut out, ' ');
        push_char(&mut out, ' ');
        let d = chars_of(file.diff.as_str());
        let ghost dv = d@;
        let n = d.len();
        let mut from: usize = 0;
        while from < n
            invariant
                dv == d@,
                n == dv.len(),
                dv == file.diff@,
                0 <= from <= n,
                out@ == file.path@ + seq![' ', ' '],
                first_change(dv, 0) == first_change(dv, from as int),
                file.moved_to is None,
                i < self.files@.len(),
                *file == self.files@[i as int],
            decreases n - from,
        {
            let mut end: usize = from;
            while end < n && d[end] != '\n'
                invariant
                    dv == d@,
                    n == dv.len(),
                    from <= end <= n,
                    line_end(dv, from as int) == line_end(dv, end as int),
                decreases n - end,
            {
                end = end + 1;
            }
            let mut stop: usize = end;
            if stop > from && d[stop - 1] == '\r' {
                stop = stop - 1;
            }
            let ghost l = line_text(dv, from as int, end as int);
            proof {
                assert(l =~= dv.subrange(from as int, stop as int));
            }
            let first_ok = stop > from && (d[from] == '-' || d[from] == '+');
            let header = stop - from >= 3 && ((d[from] == '-' && d[from + 1] == '-' && d[from + 2] == '-') || (d[from] == '+' && d[from + 1] == '+' && d[from + 2] == '+'));
            proof {
                if stop - from >= 3 {
                    assert(l.take(3) =~= seq![dv[from as int], dv[from + 1], dv[from + 2]]);
                }
            }
            if first_ok && !header {
                push_char(&mut out, d[from]);
                push_char(&mut out, ' ');
                let rest = string_of(&d, from + 1, stop);
                let t = trimmed(rest.as_str());
                push_str(&mut out, t.as_str());
                proof {
                    assert(first_change(dv, from as int) == Some(l));
                    assert(rest@ =~= l.drop_first());
                    assert(out@ =~= file.path@ + seq![' ', ' '] + (seq![l[0], ' '] + trim(l.drop_first())));
                }
                return out;
            }
            proof {
                assert(!is_change_line(l));
            }
            if end >= n {
                from = n;
            } else {
                from = end + 1;
            }
        }
        proof {
            assert(first_change(dv, from as int) is None);
            assert(out@ =~= file.path@ + seq![' ', ' '] + Seq::<char>::empty());
        }
        out
    }

    pub fn new(intent: Intent, files: Vec<FileChange>, respellings: Vec<Respelling>, notices: Vec<Notice>) -> (p: Self)
        ensures
            p.intent == intent,
            p.files == files,
            p.respellings == respellings,
            p.notices == notices,
            p.structural@ == structural_of(files@, respellings@),
    {
        let ghost fs = files@;
        let ghost rs = respellings@;
        let mut structural: Vec<usize> = Vec::new();
        let mut i: usize = 0;
        while i < files.len()
            invariant
                fs == files@,
                rs == respellings@,
                0 <= i <= fs.len(),
                structural@ == structural_of(fs.take(i as int), rs),
            decreases fs.len() - i,
        {
            let f = &files[i];
            let mut hit = f.moved_to.is_some();
            let mut k: usize = 0;
            while k < f.edits.len() && !hit
                invariant
                    0 <= k <= f.edits@.len(),
                    hit == (f.moved_to is Some || exists|e: int|
                        0 <= e < k && !accounted(rs, f.path@, #[trigger] f.edits@[e])),
                    rs == respellings@,
                decreases f.edits@.len() - k,
            {
                let e = f.edits[k];
                let mut found = false;
                let mut j: usize = 0;
                while j < respellings.len() && !found
                    invariant
                        0 <= j <= rs.len(),
                        rs == respellings@,
                        found == exists|q: int| 0 <= q < j && #[trigger] rs[q].path@ == f.path@ && rs[q].span == e,
                    decreases rs.len() - j,
                {
                    if respellings[j].path == f.path && respellings[j].span == e {
                        found = true;
                    }
                    j = j + 1;
                }
                if !found {
                    proof {
                        assert(!accounted(rs, f.path@, f.edits@[k as int]));
                    }
                    hit = true;
                }
                k = k + 1;
            }
            proof {
                assert(hit == is_structural(*f, rs));
                assert(fs.take(i + 1).drop_last() =~= fs.take(i as int));
                assert(fs.take(i + 1).last() == *f);
            }
            if hit {
                structural.push(i);
            }
            i = i + 1;
        }
        proof {
            assert(fs.take(i as int) =~= fs);
        }
        MovePlan { intent, files, respellings, notices, structural }
    }
}

/// What a move row points at, for the detail panel and the editor.
#[derive(Debug, Clone, Copy)]
pub enum MoveRow<'a> {
    Respelling(&'a Respelling),
    Edited(&'a FileChange),
    Notice(&'a Notice),
}

impl<'a> MoveRow<'a> {
    pub fn path(&self) -> (r: &'a String)
        ensures
            *r == match *self {
                MoveRow::Respelling(x) => x.path,
                MoveRow::Edited(f) => f.path,
                MoveRow::Notice(n) => n.path,
            },
    {
        match *self {
            MoveRow::Respelling(x) => &x.path,
            MoveRow::Edited(f) => &f.path,
            MoveRow::Notice(n) => &n.path,
        }
    }

    pub fn line(&self) -> (r: u32)
        ensures
            r == match *self {
                MoveRow::Respelling(x) => x.line,
                MoveRow::Edited(_) => 0,
                MoveRow::Notice(n) => n.line,
            },
    {
        match *self {
            MoveRow::Respelling(x) => x.line,
            MoveRow::Edited(_) => 0,
            MoveRow::Notice(n) => n.line,
        }
    }
}

/// A move being planned: the destination, edited live, and the plan it
/// yields, or why it yields none.
#[derive(Debug)]
pub struct MoveMode {
    pub from: String,
    /// `Some` when one declaration moves rather than the file.
    pub symbol: Option<String>,
    pub to: String,
    pub plan: Option<MovePlan>,
    pub error: Option<String>,
    pub focus: MovePanel,
    /// Cursors of the `→`, `±` and `!` panels.
    pub cursors: [Cursor; 3],
    pub last_list: MovePanel,
    pub detail_scroll: usize,
    pub preview: Option<FilePreview>,
    /// Show the whole file diff in the detail panel.
    pub diff: bool,
    pub busy: bool,
}

/// The list panel the detail follows: the focused one, or the last one.
pub open spec fn move_list(focus: MovePanel, last_list: MovePanel) -> MovePanel {
    if move_slot(focus) is Some {
        focus
    } else {
        last_list
    }
}

/// How many rows a panel of the plan lists.
pub open spec fn plan_len(plan: Option<MovePlan>, panel: MovePanel) -> nat {
    match plan {
        None => 0,
        Some(p) => match panel {
            MovePanel::Respellings => p.respellings@.len(),
            MovePanel::Edits => p.structural@.len(),
            MovePanel::Notices => p.notices@.len(),
            MovePanel::To | MovePanel::Detail => 0,
        },
    }
}

/// What the move asks for with the destination `to`: nothing while it is
/// blank, else the symbol's or the file's move to the trimmed destination.
pub open spec fn move_intent(from: String, symbol: Option<String>, to: Seq<char>, r: Option<Intent>) -> bool {
    if trim(to).len() == 0 {
        r is None
    } else {
        match (symbol, r) {
            (Some(name), Some(Intent::MoveSymbol { name: n, from: f, to: t })) => n == name && f == from && t@ == trim(to),
            (None, Some(Intent::Move { from: f, to: t })) => f == from && t@ == trim(to),
            _ => false,
        }
    }
}

impl MoveMode {
    /// The focused row: its panel and its index in that panel's source list
    /// (`files` for the edits).
    pub open spec fn spot(&self) -> Option<(MovePanel, int)> {
        let p = move_list(self.focus, self.last_list);
        match (self.plan, move_slot(p)) {
            (Some(plan), Some(s)) => {
                let i = self.cursors@[s as int].index as int;
                match p {
                    MovePanel::Respellings => if i < plan.respellings@.len() {
                        Some((p, i))
                    } else {
                        None
                    },
                    MovePanel::Edits => if i < plan.structural@.len() && plan.structural@[i] < plan.files@.len() {
                        Some((p, plan.structural@[i] as int))
                    } else {
                        None
                    },
                    MovePanel::Notices => if i < plan.notices@.len() {
                        Some((p, i))
                    } else {
                        None
                    },
                    _ => None,
                }
            },
            _ => None,
        }
    }

    /// The row at the spot.
    pub open spec fn row_is(&self, row: MoveRow) -> bool {
        match (self.spot(), self.plan) {
            (Some((p, i)), Some(plan)) => match row {
                MoveRow::Respelling(x) => p == MovePanel::Respellings && *x == plan.respellings@[i],
                MoveRow::Edited(f) => p == MovePanel::Edits && *f == plan.files@[i],
                MoveRow::Notice(n) => p == MovePanel::Notices && *n == plan.notices@[i],
            },
            _ => false,
        }
    }

    pub fn new(from: String, symbol: Option<String>) -> (m: Self)
        ensures
            m.from == from,
            m.symbol == symbol,
            symbol is None ==> m.to == from,
            m.to@ == (if symbol is Some { Seq::empty() } else { from@ }),
            m.plan is None,
            m.error is None,
            m.focus == MovePanel::To,
            m.cursors@ == seq![Cursor { index: 0 }, Cursor { index: 0 }, Cursor { index: 0 }],
            m.last_list == MovePanel::Respellings,
            m.detail_scroll == 0,
            m.preview is None,
            !m.diff,
            !m.busy,
    {
        let to = match &symbol {
            Some(_) => String::new(),
            None => from.clone(),
        };
        MoveMode {
            from,
            symbol,
            to,
            plan: None,
            error: None,
            focus: MovePanel::To,
            cursors: [Cursor { index: 0 }, Cursor { index: 0 }, Cursor { index: 0 }],
            last_list: MovePanel::Respellings,
            detail_scroll: 0,
            preview: None,
            diff: false,
            busy: false,
        }
    }

    /// What the destination asks for.
    pub fn intent(&self) -> (r: Option<Intent>)
        ensures
            move_intent(self.from, self.symbol, self.to@, r),
    {
        if is_blank(self.to.as_str()) {
            return None;
        }
        let to = trimmed(self.to.as_str());
        Some(match &self.symbol {
            Some(name) => Intent::MoveSymbol { name: name.clone(), from: self.from.clone(), to },
            None => Intent::Move { from: self.from.clone(), to },
        })
    }

    pub fn len(&self, panel: MovePanel) -> (r: usize)
        ensures
            r == plan_len(self.plan, panel),
    {
        match &self.plan {
            None => 0,
            Some(plan) => match panel {
                MovePanel::Respellings => plan.respellings.len(),
                MovePanel::Edits => plan.structural.len(),
                MovePanel::Notices => plan.notices.len(),
                MovePanel::To | MovePanel::Detail => 0,
            },
        }
    }

    pub fn cursor(&self, panel: MovePanel) -> (r: Option<&Cursor>)
        ensures
            deref_opt(r) == match move_slot(panel) {
                Some(s) => Some(self.cursors@[s as int]),
                None => None,
            },
    {
        match panel.slot() {
            Some(s) => Some(&self.cursors[s]),
            None => None,
        }
    }

    /// The cursor a panel uses, to move it; `None` for the destination and
    /// the detail. Nothing else of the mode changes through it.
    pub fn cursor_mut(&mut self, panel: MovePanel) -> (r: Option<&mut Cursor>)
        ensures
            match move_slot(panel) {
                Some(s) => r matches Some(c) && *c == old(self).cursors@[s as int]
                    && *final(self) == (MoveMode { cursors: final(self).cursors, ..*old(self) })
                    && final(self).cursors@ == old(self).cursors@.update(s as int, *final(c)),
                None => r is None && *final(self) == *old(self),
            },
    {
        match panel.slot() {
            Some(s) => Some(&mut self.cursors[s]),
            None => None,
        }
    }

    pub fn list(&self) -> (r: MovePanel)
        ensures
            r == move_list(self.focus, self.last_list),
    {
        if self.focus.slot().is_some() {
            self.focus
        } else {
            self.last_list
        }
    }

    pub fn current(&self) -> (r: Option<MoveRow<'_>>)
        ensures
            match r {
                Some(row) => self.row_is(row),
                None => self.spot() is None,
            },
    {
        let plan = match &self.plan {
            Some(p) => p,
            None => return None,
        };
        let panel = self.list();
        let s = match panel.slot() {
            Some(s) => s,
            None => return None,
        };
        let i = self.cursors[s].index;
        match panel {
            MovePanel::Respellings => if i < plan.respellings.len() {
                Some(MoveRow::Respelling(&plan.respellings[i]))
            } else {
                None
            },
            MovePanel::Edits => if i < plan.structural.len() && plan.structural[i] < plan.files.len() {
                Some(MoveRow::Edited(&plan.files[plan.structural[i]]))
            } else {
                None
            },
            MovePanel::Notices => if i < plan.notices.len() {
                Some(MoveRow::Notice(&plan.notices[i]))
            } else {
                None
            },
            _ => None,
        }
    }
}

// ---------------------------------------------------------------- rewrite

/// The ids of `ms`.
pub open spec fn match_ids(ms: Seq<Match>) -> Set<u64>
    decreases ms.len(),
{
    if ms.len() == 0 {
        Set::empty()
    } else {
        match_ids(ms.drop_last()).insert(ms.last().id)
    }
}

/// The ids of `ms`, gathered into a set.
fn ids_of(ms: &Vec<Match>) -> (r: BTreeSet<u64>)
    ensures
        r@ == match_ids(ms@),
{
    let mut r: BTreeSet<u64> = BTreeSet::new();
    let mut i: usize = 0;
    while i < ms.len()
        invariant
            0 <= i <= ms@.len(),
            r@ == match_ids(ms@.take(i as int)),
        decreases ms@.len() - i,
    {
        proof {
            assert(ms@.take(i + 1).drop_last() =~= ms@.take(i as int));
        }
        r.insert(ms[i].id);
        i = i + 1;
    }
    proof {
        assert(ms@.take(i as int) =~= ms@);
    }
    r
}

/// A rewrite being shaped: the search's matches, the template edited live,
/// and what each match becomes.
#[derive(Debug)]
pub struct RewriteMode {
    pub query: Query,
    pub template: String,
    pub matches: Vec<Match>,
    /// The last plan's files, each holding its diff: the preview the detail
    /// pane draws.
    pub changes: Vec<FileChange>,
    pub ticks: BTreeSet<u64>,
    pub focus: RewritePanel,
    pub cursor: Cursor,
    pub detail_scroll: usize,
    pub error: Option<String>,
    pub busy: bool,
}

impl RewriteMode {
    pub fn new(query: Query, matches: Vec<Match>) -> (r: Self)
        ensures
            r.query == query,
            r.template@.len() == 0,
            r.matches == matches,
            r.changes@.len() == 0,
            r.ticks@ == match_ids(matches@),
            r.focus == RewritePanel::Template,
            r.cursor.index == 0,
            r.detail_scroll == 0,
            r.error is None,
            !r.busy,
    {
        let ticks = ids_of(&matches);
        RewriteMode {
            query,
            template: String::new(),
            matches,
            changes: Vec::new(),
            ticks,
            focus: RewritePanel::Template,
            cursor: Cursor { index: 0 },
            detail_scroll: 0,
            error: None,
            busy: false,
        }
    }

    /// What the template asks for: nothing while it is blank.
    pub fn intent(&self) -> (r: Option<RewriteIntent>)
        ensures
            trim(self.template@).len() == 0 ==> r is None,
            trim(self.template@).len() != 0 ==> r == Some(RewriteIntent {
                query: self.query,
                template: self.template,
                selection: Selection::All,
            }),
    {
        if is_blank(self.template.as_str()) {
            return None;
        }
        Some(RewriteIntent {
            query: copy_query(&self.query),
            template: self.template.clone(),
            selection: Selection::All,
        })
    }

    pub fn current(&self) -> (r: Option<&Match>)
        ensures
            deref_opt(r) == at(self.matches@, self.cursor.index as int),
    {
        if self.cursor.index < self.matches.len() {
            Some(&self.matches[self.cursor.index])
        } else {
            None
        }
    }

    pub fn is_ticked(&self, m: &Match) -> (r: bool)
        ensures
            r == self.ticks@.contains(m.id),
    {
        self.ticks.contains(&m.id)
    }

    /// Tick the current match, or untick it.
    pub fn toggle(&mut self)
        ensures
            final(self).ticks@ == match at(old(self).matches@, old(self).cursor.index as int) {
                Some(m) => flipped(old(self).ticks@, m.id),
                None => old(self).ticks@,
            },
            *final(self) == (RewriteMode { ticks: final(self).ticks, ..*old(self) }),
    {
        let id = match self.current() {
            Some(m) => m.id,
            None => return,
        };
        if !self.ticks.remove(&id) {
            self.ticks.insert(id);
        }
    }

    /// Untick everything when as many are ticked as there are matches,
    /// else tick every match.
    pub fn toggle_all(&mut self)
        ensures
            final(self).ticks@ == if old(self).ticks@.len() == old(self).matches@.len() {
                Set::<u64>::empty()
            } else {
                match_ids(old(self).matches@)
            },
            *final(self) == (RewriteMode { ticks: final(self).ticks, ..*old(self) }),
    {
        if self.ticks.len() == self.matches.len() {
            self.ticks.clear();
        } else {
            self.ticks = ids_of(&self.matches);
        }
    }

    /// Files the commit touches, from the ticks.
    pub fn files(&self) -> (r: usize)
        ensures
            r == ticked_paths(self.matches@, self.ticks@).len(),
    {
        let mut ms: Vec<&Match> = Vec::new();
        let mut i: usize = 0;
        while i < self.matches.len()
            invariant
                0 <= i <= self.matches@.len(),
                ms@.map_values(|m: &Match| *m) =~= self.matches@.take(i as int),
            decreases self.matches@.len() - i,
        {
            let ghost before = ms@.map_values(|m: &Match| *m);
            ms.push(&self.matches[i]);
            proof {
                assert(ms@.map_values(|m: &Match| *m) =~= before.push(self.matches@[i as int]));
                assert(self.matches@.take(i + 1) =~= self.matches@.take(i as int).push(self.matches@[i as int]));
            }
            i = i + 1;
        }
        proof {
            assert(self.matches@.take(i as int) =~= self.matches@);
        }
        count_ticked_paths(&ms, &self.ticks)
    }
}

// ---------------------------------------------------------------- history

/// The history, newest last, with the cursor on an entry.
#[derive(Debug)]
pub struct HistoryMode {
    pub entries: Vec<HistoryEntry>,
    pub cursor: Cursor,
    pub focus: HistoryPanel,
    pub files_scroll: usize,
}

impl HistoryMode {
    /// The history with the cursor on the newest entry.
    pub fn new(entries: Vec<HistoryEntry>) -> (h: Self)
        ensures
            h.entries == entries,
            h.cursor.index == if entries@.len() == 0 { 0 } else { entries@.len() - 1 },
            h.focus == HistoryPanel::Entries,
            h.files_scroll == 0,
    {
        let n = entries.len();
        let index = if n == 0 {
            0
        } else {
            n - 1
        };
        HistoryMode { entries, cursor: Cursor { index }, focus: HistoryPanel::Entries, files_scroll: 0 }
    }

    pub fn current(&self) -> (r: Option<&HistoryEntry>)
        ensures
            deref_opt(r) == at(self.entries@, self.cursor.index as int),
    {
        if self.cursor.index < self.entries.len() {
            Some(&self.entries[self.cursor.index])
        } else {
            None
        }
    }

    /// Whether the cursor is on the newest entry, the only one that can be
    /// undone.
    pub fn is_newest(&self) -> (r: bool)
        ensures
            r == (self.cursor.index + 1 == self.entries@.len()),
    {
        self.cursor.index < self.entries.len() && self.cursor.index + 1 == self.entries.len()
    }
}

} // verus!
