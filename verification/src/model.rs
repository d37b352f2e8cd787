//! All picker state as plain data: the search hub, the mode in front of it,
//! and an overlay when a small question is open. Nothing here does I/O or
//! knows about terminals; see `update.rs` for how it changes.

use vstd::prelude::*;

use crate::action::Action;
use crate::engine::Confidence;
use crate::keymap::Layer;
use crate::screen::defaults::Defaults;

verus! {

/// How the picker lays a report's rows out.
#[derive(Debug, Clone, Copy, PartialEq, Eq, Structural)]
pub enum ReportView {
    /// One tight row per hit, as the modes have always shown them.
    Compact,
    /// The terminal's layout: file headers, ordinals, source, addresses.
    Detailed,
}

impl Default for ReportView {
    fn default() -> (r: Self)
        ensures
            r == ReportView::Compact,
    {
        ReportView::Compact
    }
}

/// The other view.
pub open spec fn toggled_view(v: ReportView) -> ReportView {
    match v {
        ReportView::Compact => ReportView::Detailed,
        ReportView::Detailed => ReportView::Compact,
    }
}

impl ReportView {
    /// The other view.
    pub fn toggled(self) -> (r: Self)
        ensures
            r == toggled_view(self),
    {
        match self {
            ReportView::Compact => ReportView::Detailed,
            ReportView::Detailed => ReportView::Compact,
        }
    }
}

/// Toggling the view twice gives it back, and toggling always changes it.
pub proof fn law_view_toggle_twice(v: ReportView)
    ensures
        toggled_view(toggled_view(v)) == v,
        toggled_view(v) != v,
{
}

/// `x` saturated into the range of `i32`.
pub open spec fn sat_i32(x: int) -> int {
    if x > i32::MAX {
        i32::MAX as int
    } else if x < i32::MIN {
        i32::MIN as int
    } else {
        x
    }
}

/// `x` held within `lo..=hi`.
pub open spec fn clamp(x: int, lo: int, hi: int) -> int {
    if x < lo {
        lo
    } else if x > hi {
        hi
    } else {
        x
    }
}

/// Where a cursor lands after moving by `by` within `len` rows: the nearest
/// row to `index + by`, the first row of an empty list.
pub open spec fn moved_index(index: int, by: int, len: int) -> int {
    if len == 0 {
        0
    } else {
        clamp(sat_i32(index + by), 0, len - 1)
    }
}

/// A list panel's cursor. Rows live in the mode; the cursor only knows how
/// to stay inside them.
#[derive(Debug, Clone, Copy, PartialEq, Eq, Structural)]
pub struct Cursor {
    pub index: usize,
}

impl Default for Cursor {
    fn default() -> (c: Self)
        ensures
            c.index == 0,
    {
        Cursor { index: 0 }
    }
}

impl Cursor {
    /// Move by `by` rows within a list of `len`, staying on a row. The
    /// arithmetic is in `i32`, as the index and the length read there: a
    /// length whose `i32` reading is not positive leaves no last row, and
    /// is refused.
    pub fn move_by(&mut self, by: i32, len: usize)
        requires
            len == 0 || 1 <= len as i32,
        ensures
            final(self).index == moved_index(
                (old(self).index as i32) as int,
                by as int,
                if len == 0 { 0 } else { (len as i32) as int },
            ),
    {
        if len == 0 {
            self.index = 0;
            return;
        }
        let l: i32 = len as i32;
        let last: i64 = l as i64 - 1;
        let i: i32 = self.index as i32;
        let sum: i64 = i as i64 + by as i64;
        let sat: i64 = if sum > i32::MAX as i64 {
            i32::MAX as i64
        } else if sum < i32::MIN as i64 {
            i32::MIN as i64
        } else {
            sum
        };
        let clamped: i64 = if sat < 0 {
            0
        } else if sat > last {
            last
        } else {
            sat
        };
        self.index = clamped as usize;
    }

    /// Stay on a row of a list that now holds `len` rows.
    pub fn clamp(&mut self, len: usize)
        ensures
            final(self).index == if len == 0 {
                0
            } else if old(self).index > len - 1 {
                (len - 1) as usize
            } else {
                old(self).index
            },
    {
        let last = if len == 0 {
            0
        } else {
            len - 1
        };
        if self.index > last {
            self.index = last;
        }
    }
}

/// A cursor that moved stays on a row: inside the list, or on the first
/// row of an empty one.
pub proof fn law_cursor_stays_inside(index: int, by: int, len: int)
    requires
        0 <= len <= i32::MAX,
    ensures
        len == 0 ==> moved_index(index, by, len) == 0,
        len > 0 ==> 0 <= moved_index(index, by, len) < len,
{
}

/// Moving by zero keeps a cursor that is on a row where it is.
pub proof fn law_cursor_zero_move(index: int, len: int)
    requires
        0 <= index < len <= i32::MAX,
    ensures
        moved_index(index, 0, len) == index,
{
}

/// What kind of panel is focused, which selects the keys it shares with
/// every other panel of that kind.
#[derive(Debug, Clone, Copy, PartialEq, Eq, Structural)]
pub enum PanelKind {
    /// Typing goes here: the query, a new name, a destination, a template.
    Input,
    /// Rows with a cursor.
    List,
    /// Text that scrolls: a file, a diff.
    Text,
}

impl PanelKind {
    /// The keys a panel of this kind shares; `None` for an input.
    pub fn layer(self, defaults: &Defaults) -> (r: Option<&Layer<Action>>)
        ensures
            match r {
                Some(x) => crate::screen::default_layer(*defaults, self) == Some(*x),
                None => crate::screen::default_layer(*defaults, self) is None,
            },
    {
        defaults.default_for(self)
    }
}

/// Focus order within a mode: `tab` walks it, `1`–`5` jump into it.
pub trait Panels: Sized + Copy {
    /// How many panels the order holds.
    spec fn count() -> nat;

    /// The panel's place in the focus order.
    spec fn position(self) -> nat;

    /// The panel at a place in the order.
    spec fn at(i: nat) -> Self;

    /// Places and panels correspond.
    proof fn lemma_order(self)
        ensures
            Self::count() > 0,
            self.position() < Self::count(),
            Self::at(self.position()) == self,
            forall|i: nat| i < Self::count() ==> (#[trigger] Self::at(i)).position() == i,
    ;

    /// The position of this panel in the focus order.
    fn index(self) -> (r: usize)
        ensures
            r == self.position(),
    ;

    /// The next panel, the first after the last.
    fn next(self) -> (r: Self)
        ensures
            r.position() == next_place(self.position(), Self::count()),
    ;

    /// The previous panel, the last before the first.
    fn prev(self) -> (r: Self)
        ensures
            r.position() == prev_place(self.position(), Self::count()),
    ;

    /// The panel `by` steps away, wrapping: how the arrow keys move focus.
    fn step(self, by: i32) -> (r: Self)
        ensures
            by > 0 ==> r.position() == next_place(self.position(), Self::count()),
            by <= 0 ==> r.position() == prev_place(self.position(), Self::count()),
    ;

    /// The n-th panel, counting from 1.
    fn nth(n: u8) -> (r: Option<Self>)
        ensures
            1 <= n <= Self::count() ==> r == Some(Self::at((n - 1) as nat)),
            (n == 0 || n > Self::count()) ==> r is None,
    ;
}

/// The place after `i` among `n`, wrapping to the first.
pub open spec fn next_place(i: nat, n: nat) -> nat {
    if i + 1 >= n {
        0
    } else {
        i + 1
    }
}

/// The place before `i` among `n`, wrapping to the last.
pub open spec fn prev_place(i: nat, n: nat) -> nat {
    if i == 0 {
        (n - 1) as nat
    } else {
        (i - 1) as nat
    }
}

/// Going forward then back, or back then forward, lands where one started;
/// `count` steps forward come back to the start.
pub proof fn law_next_prev<P: Panels>(p: P)
    ensures
        prev_place(next_place(p.position(), P::count()), P::count()) == p.position(),
        next_place(prev_place(p.position(), P::count()), P::count()) == p.position(),
{
    p.lemma_order();
}

/// The hub's panels.
#[derive(Debug, Clone, Copy, PartialEq, Eq, Structural)]
pub enum SearchPanel {
    Query,
    Results,
    Context,
}

impl Default for SearchPanel {
    fn default() -> (p: Self)
        ensures
            p == SearchPanel::Query,
    {
        SearchPanel::Query
    }
}

impl Panels for SearchPanel {
    open spec fn count() -> nat {
        3
    }

    open spec fn position(self) -> nat {
        match self {
            SearchPanel::Query => 0,
            SearchPanel::Results => 1,
            SearchPanel::Context => 2,
        }
    }

    open spec fn at(i: nat) -> Self {
        if i == 0 {
            SearchPanel::Query
        } else if i == 1 {
            SearchPanel::Results
        } else {
            SearchPanel::Context
        }
    }

    proof fn lemma_order(self) {
    }

    fn index(self) -> (r: usize) {
        match self {
            SearchPanel::Query => 0,
            SearchPanel::Results => 1,
            SearchPanel::Context => 2,
        }
    }

    fn next(self) -> (r: Self) {
        match self {
            SearchPanel::Query => SearchPanel::Results,
            SearchPanel::Results => SearchPanel::Context,
            SearchPanel::Context => SearchPanel::Query,
        }
    }

    fn prev(self) -> (r: Self) {
        match self {
            SearchPanel::Query => SearchPanel::Context,
            SearchPanel::Results => SearchPanel::Query,
            SearchPanel::Context => SearchPanel::Results,
        }
    }

    fn step(self, by: i32) -> (r: Self) {
        if by > 0 {
            self.next()
        } else {
            self.prev()
        }
    }

    fn nth(n: u8) -> (r: Option<Self>) {
        match n {
            1 => Some(SearchPanel::Query),
            2 => Some(SearchPanel::Results),
            3 => Some(SearchPanel::Context),
            _ => None,
        }
    }
}

/// The rename mode's panels.
#[derive(Debug, Clone, Copy, PartialEq, Eq, Structural)]
pub enum RenamePanel {
    Name,
    Unsure,
    Sure,
    Other,
    Detail,
}

impl Panels for RenamePanel {
    open spec fn count() -> nat {
        5
    }

    open spec fn position(self) -> nat {
        match self {
            RenamePanel::Name => 0,
            RenamePanel::Unsure => 1,
            RenamePanel::Sure => 2,
            RenamePanel::Other => 3,
            RenamePanel::Detail => 4,
        }
    }

    open spec fn at(i: nat) -> Self {
        if i == 0 {
            RenamePanel::Name
        } else if i == 1 {
            RenamePanel::Unsure
        } else if i == 2 {
            RenamePanel::Sure
        } else if i == 3 {
            RenamePanel::Other
        } else {
            RenamePanel::Detail
        }
    }

    proof fn lemma_order(self) {
    }

    fn index(self) -> (r: usize) {
        match self {
            RenamePanel::Name => 0,
            RenamePanel::Unsure => 1,
            RenamePanel::Sure => 2,
            RenamePanel::Other => 3,
            RenamePanel::Detail => 4,
        }
    }

    fn next(self) -> (r: Self) {
        match self {
            RenamePanel::Name => RenamePanel::Unsure,
            RenamePanel::Unsure => RenamePanel::Sure,
            RenamePanel::Sure => RenamePanel::Other,
            RenamePanel::Other => RenamePanel::Detail,
            RenamePanel::Detail => RenamePanel::Name,
        }
    }

    fn prev(self) -> (r: Self) {
        match self {
            RenamePanel::Name => RenamePanel::Detail,
            RenamePanel::Unsure => RenamePanel::Name,
            RenamePanel::Sure => RenamePanel::Unsure,
            RenamePanel::Other => RenamePanel::Sure,
            RenamePanel::Detail => RenamePanel::Other,
        }
    }

    fn step(self, by: i32) -> (r: Self) {
        if by > 0 {
            self.next()
        } else {
            self.prev()
        }
    }

    fn nth(n: u8) -> (r: Option<Self>) {
        match n {
            1 => Some(RenamePanel::Name),
            2 => Some(RenamePanel::Unsure),
            3 => Some(RenamePanel::Sure),
            4 => Some(RenamePanel::Other),
            5 => Some(RenamePanel::Detail),
            _ => None,
        }
    }
}

/// The verdict a rename panel lists.
pub open spec fn panel_confidence(p: RenamePanel) -> Option<Confidence> {
    match p {
        RenamePanel::Unsure => Some(Confidence::Unresolved),
        RenamePanel::Sure => Some(Confidence::Resolved),
        RenamePanel::Other => Some(Confidence::Other),
        RenamePanel::Name | RenamePanel::Detail => None,
    }
}

/// Which of the rename mode's cursors a panel uses.
pub open spec fn rename_slot(p: RenamePanel) -> Option<usize> {
    match p {
        RenamePanel::Unsure => Some(0),
        RenamePanel::Sure => Some(1),
        RenamePanel::Other => Some(2),
        RenamePanel::Name | RenamePanel::Detail => None,
    }
}

impl RenamePanel {
    /// The verdict this panel lists; `None` for the name and the detail.
    pub fn confidence(self) -> (r: Option<Confidence>)
        ensures
            r == panel_confidence(self),
    {
        match self {
            RenamePanel::Unsure => Some(Confidence::Unresolved),
            RenamePanel::Sure => Some(Confidence::Resolved),
            RenamePanel::Other => Some(Confidence::Other),
            RenamePanel::Name | RenamePanel::Detail => None,
        }
    }

    /// Which of the mode's cursors this panel uses.
    pub fn slot(self) -> (r: Option<usize>)
        ensures
            r == rename_slot(self),
    {
        match self {
            RenamePanel::Unsure => Some(0),
            RenamePanel::Sure => Some(1),
            RenamePanel::Other => Some(2),
            RenamePanel::Name | RenamePanel::Detail => None,
        }
    }
}

/// The move mode's panels.
#[derive(Debug, Clone, Copy, PartialEq, Eq, Structural)]
pub enum MovePanel {
    To,
    Respellings,
    Edits,
    Notices,
    Detail,
}

impl Panels for MovePanel {
    open spec fn count() -> nat {
        5
    }

    open spec fn position(self) -> nat {
        match self {
            MovePanel::To => 0,
            MovePanel::Respellings => 1,
            MovePanel::Edits => 2,
            MovePanel::Notices => 3,
            MovePanel::Detail => 4,
        }
    }

    open spec fn at(i: nat) -> Self {
        if i == 0 {
            MovePanel::To
        } else if i == 1 {
            MovePanel::Respellings
        } else if i == 2 {
            MovePanel::Edits
        } else if i == 3 {
            MovePanel::Notices
        } else {
            MovePanel::Detail
        }
    }

    proof fn lemma_order(self) {
    }

    fn index(self) -> (r: usize) {
        match self {
            MovePanel::To => 0,
            MovePanel::Respellings => 1,
            MovePanel::Edits => 2,
            MovePanel::Notices => 3,
            MovePanel::Detail => 4,
        }
    }

    fn next(self) -> (r: Self) {
        match self {
            MovePanel::To => MovePanel::Respellings,
            MovePanel::Respellings => MovePanel::Edits,
            MovePanel::Edits => MovePanel::Notices,
            MovePanel::Notices => MovePanel::Detail,
            MovePanel::Detail => MovePanel::To,
        }
    }

    fn prev(self) -> (r: Self) {
        match self {
            MovePanel::To => MovePanel::Detail,
            MovePanel::Respellings => MovePanel::To,
            MovePanel::Edits => MovePanel::Respellings,
            MovePanel::Notices => MovePanel::Edits,
            MovePanel::Detail => MovePanel::Notices,
        }
    }

    fn step(self, by: i32) -> (r: Self) {
        if by > 0 {
            self.next()
        } else {
            self.prev()
        }
    }

    fn nth(n: u8) -> (r: Option<Self>) {
        match n {
            1 => Some(MovePanel::To),
            2 => Some(MovePanel::Respellings),
            3 => Some(MovePanel::Edits),
            4 => Some(MovePanel::Notices),
            5 => Some(MovePanel::Detail),
            _ => None,
        }
    }
}

/// Which of the move mode's cursors a panel uses.
pub open spec fn move_slot(p: MovePanel) -> Option<usize> {
    match p {
        MovePanel::Respellings => Some(0),
        MovePanel::Edits => Some(1),
        MovePanel::Notices => Some(2),
        MovePanel::To | MovePanel::Detail => None,
    }
}

impl MovePanel {
    /// Which of the mode's cursors this panel uses; `None` for the
    /// destination and the detail.
    pub fn slot(self) -> (r: Option<usize>)
        ensures
            r == move_slot(self),
    {
        match self {
            MovePanel::Respellings => Some(0),
            MovePanel::Edits => Some(1),
            MovePanel::Notices => Some(2),
            MovePanel::To | MovePanel::Detail => None,
        }
    }
}

/// The rewrite mode's panels.
#[derive(Debug, Clone, Copy, PartialEq, Eq, Structural)]
pub enum RewritePanel {
    Template,
    Matches,
    Detail,
}

impl Panels for RewritePanel {
    open spec fn count() -> nat {
        3
    }

    open spec fn position(self) -> nat {
        match self {
            RewritePanel::Template => 0,
            RewritePanel::Matches => 1,
            RewritePanel::Detail => 2,
        }
    }

    open spec fn at(i: nat) -> Self {
        if i == 0 {
            RewritePanel::Template
        } else if i == 1 {
            RewritePanel::Matches
        } else {
            RewritePanel::Detail
        }
    }

    proof fn lemma_order(self) {
    }

    fn index(self) -> (r: usize) {
        match self {
            RewritePanel::Template => 0,
            RewritePanel::Matches => 1,
            RewritePanel::Detail => 2,
        }
    }

    fn next(self) -> (r: Self) {
        match self {
            RewritePanel::Template => RewritePanel::Matches,
            RewritePanel::Matches => RewritePanel::Detail,
            RewritePanel::Detail => RewritePanel::Template,
        }
    }

    fn prev(self) -> (r: Self) {
        match self {
            RewritePanel::Template => RewritePanel::Detail,
            RewritePanel::Matches => RewritePanel::Template,
            RewritePanel::Detail => RewritePanel::Matches,
        }
    }

    fn step(self, by: i32) -> (r: Self) {
        if by > 0 {
            self.next()
        } else {
            self.prev()
        }
    }

    fn nth(n: u8) -> (r: Option<Self>) {
        match n {
            1 => Some(RewritePanel::Template),
            2 => Some(RewritePanel::Matches),
            3 => Some(RewritePanel::Detail),
            _ => None,
        }
    }
}

/// The history mode's panels.
#[derive(Debug, Clone, Copy, PartialEq, Eq, Structural)]
pub enum HistoryPanel {
    Entries,
    Files,
}

impl Panels for HistoryPanel {
    open spec fn count() -> nat {
        2
    }

    open spec fn position(self) -> nat {
        match self {
            HistoryPanel::Entries => 0,
            HistoryPanel::Files => 1,
        }
    }

    open spec fn at(i: nat) -> Self {
        if i == 0 {
            HistoryPanel::Entries
        } else {
            HistoryPanel::Files
        }
    }

    proof fn lemma_order(self) {
    }

    fn index(self) -> (r: usize) {
        match self {
            HistoryPanel::Entries => 0,
            HistoryPanel::Files => 1,
        }
    }

    fn next(self) -> (r: Self) {
        match self {
            HistoryPanel::Entries => HistoryPanel::Files,
            HistoryPanel::Files => HistoryPanel::Entries,
        }
    }

    fn prev(self) -> (r: Self) {
        match self {
            HistoryPanel::Entries => HistoryPanel::Files,
            HistoryPanel::Files => HistoryPanel::Entries,
        }
    }

    fn step(self, by: i32) -> (r: Self) {
        if by > 0 {
            self.next()
        } else {
            self.prev()
        }
    }

    fn nth(n: u8) -> (r: Option<Self>) {
        match n {
            1 => Some(HistoryPanel::Entries),
            2 => Some(HistoryPanel::Files),
            _ => None,
        }
    }
}


// ---------------------------------------------------------------- overlays

/// Which filter a menu edits.
#[derive(Debug, Clone, Copy, PartialEq, Eq, Structural)]
pub enum MenuTarget {
    Symbol,
    Language,
}

/// One entry of a menu.
#[derive(Debug, Clone, PartialEq, Eq)]
pub struct MenuItem {
    pub label: String,
    /// The filter value, or `None` for "any".
    pub value: Option<String>,
}

/// A list to pick one value from; the choice edits the query bar.
#[derive(Debug, Clone, PartialEq, Eq)]
pub struct Menu {
    pub target: MenuTarget,
    pub items: Vec<MenuItem>,
    pub cursor: usize,
}

pub open spec fn opt_view(v: Option<String>) -> Option<Seq<char>> {
    match v {
        Some(s) => Some(s@),
        None => None,
    }
}

pub open spec fn opt_str_view(v: Option<&str>) -> Option<Seq<char>> {
    match v {
        Some(s) => Some(s@),
        None => None,
    }
}

/// What a menu offers: "any" first, then each value labelled by itself.
pub open spec fn menu_items(values: Seq<Seq<char>>) -> Seq<(Seq<char>, Option<Seq<char>>)> {
    seq![("any"@, None::<Seq<char>>)] + values.map_values(|v: Seq<char>| (v, Some(v)))
}

pub open spec fn item_view(i: MenuItem) -> (Seq<char>, Option<Seq<char>>) {
    (i.label@, opt_view(i.value))
}

/// The first entry holding `current`, or the first entry.
pub open spec fn preselected(items: Seq<(Seq<char>, Option<Seq<char>>)>, current: Option<Seq<char>>) -> int {
    if exists|i: int| 0 <= i < items.len() && items[i].1 == current {
        choose|i: int|
            0 <= i < items.len() && items[i].1 == current && forall|j: int|
                0 <= j < i ==> (#[trigger] items[j]).1 != current
    } else {
        0
    }
}

impl Menu {
    pub open spec fn items_view(&self) -> Seq<(Seq<char>, Option<Seq<char>>)> {
        self.items@.map_values(|i: MenuItem| item_view(i))
    }

    /// Symbol kinds, or the registered languages; `current` preselects.
    pub fn new(target: MenuTarget, values: Vec<String>, current: Option<&str>) -> (m: Self)
        ensures
            m.target == target,
            m.items_view() =~= menu_items(values@.map_values(|v: String| v@)),
            m.cursor == preselected(m.items_view(), opt_str_view(current)),
            m.cursor < m.items@.len(),
    {
        let ghost vs = values@.map_values(|v: String| v@);
        let mut items: Vec<MenuItem> = Vec::new();
        items.push(MenuItem { label: "any".to_owned(), value: None });
        let n = values.len();
        let mut i: usize = 0;
        while i < n
            invariant
                n == values@.len(),
                vs == values@.map_values(|v: String| v@),
                0 <= i <= n,
                items@.map_values(|i: MenuItem| item_view(i)) =~= menu_items(vs.take(i as int)),
            decreases n - i,
        {
            let v = values[i].clone();
            let label = values[i].clone();
            items.push(MenuItem { label, value: Some(v) });
            proof {
                assert(menu_items(vs.take(i + 1)) =~= menu_items(vs.take(i as int)).push((vs[i as int], Some(vs[i as int]))));
            }
            i = i + 1;
        }
        proof {
            assert(vs.take(n as int) =~= vs);
        }
        let ghost view = items@.map_values(|i: MenuItem| item_view(i));
        let ghost cur = opt_str_view(current);
        let mut cursor: usize = 0;
        let mut found = false;
        let mut k: usize = 0;
        while k < items.len()
            invariant
                view == items@.map_values(|i: MenuItem| item_view(i)),
                cur == opt_str_view(current),
                0 <= k <= items@.len(),
                found ==> cursor == preselected(view, cur),
                !found ==> cursor == 0,
                cursor < items@.len(),
                !found ==> forall|j: int| 0 <= j < k ==> (#[trigger] view[j]).1 != cur,
            decreases items@.len() - k,
        {
            let same = match (&items[k].value, current) {
                (None, None) => true,
                (Some(a), Some(b)) => crate::text::str_eq(a.as_str(), b),
                _ => false,
            };
            if !found && same {
                proof {
                    assert(view[k as int].1 == cur);
                    let c = choose|c: int|
                        0 <= c < view.len() && view[c].1 == cur && forall|j: int|
                            0 <= j < c ==> (#[trigger] view[j]).1 != cur;
                    assert(c == k as int) by {
                        if c < k {
                            assert(view[c].1 != cur);
                        } else if c > k {
                            assert(view[k as int].1 == cur);
                        }
                    }
                }
                cursor = k;
                found = true;
            }
            k = k + 1;
        }
        Menu { target, items, cursor }
    }

    pub fn title(&self) -> (r: &'static str)
        ensures
            r@ == match self.target {
                MenuTarget::Symbol => "symbol kind"@,
                MenuTarget::Language => "language"@,
            },
    {
        match self.target {
            MenuTarget::Symbol => "symbol kind",
            MenuTarget::Language => "language",
        }
    }

    pub fn current(&self) -> (r: &MenuItem)
        requires
            self.cursor < self.items@.len(),
        ensures
            *r == self.items@[self.cursor as int],
    {
        &self.items[self.cursor]
    }

    /// Move by `by` entries, staying on an entry. The arithmetic is in
    /// `i32`, as the cursor and the length read there: the sum must fit,
    /// and the length's reading must leave a last entry.
    pub fn move_cursor(&mut self, by: i32)
        requires
            1 <= old(self).items@.len() as i32,
            i32::MIN <= (old(self).cursor as i32) + by <= i32::MAX,
        ensures
            final(self).cursor == clamp((old(self).cursor as i32) + by, 0, (old(self).items@.len() as i32) - 1),
            final(self).items == old(self).items,
            final(self).target == old(self).target,
    {
        let last: i32 = self.items.len() as i32 - 1;
        let sum: i32 = self.cursor as i32 + by;
        let c: i32 = if sum < 0 {
            0
        } else if sum > last {
            last
        } else {
            sum
        };
        self.cursor = c as usize;
    }
}

/// A yes/no question before something irreversible-ish.
#[derive(Debug, Clone, PartialEq, Eq)]
pub struct Confirm {
    pub question: String,
    pub on_yes: Confirmed,
}

/// What a yes does.
#[derive(Debug, Clone, Copy, PartialEq, Eq, Structural)]
pub enum Confirmed {
    Undo,
}

// ---------------------------------------------------------------- shared

/// How a status message reads.
#[derive(Debug, Clone, Copy, PartialEq, Eq, Structural)]
pub enum Level {
    Info,
    Error,
}

/// The status bar's message and whether the engine is busy.
#[derive(Debug, Clone, PartialEq, Eq)]
pub struct Status {
    pub message: Option<(Level, String)>,
    pub busy: bool,
}

impl Default for Status {
    fn default() -> (s: Self)
        ensures
            s.message is None,
            !s.busy,
    {
        Status { message: None, busy: false }
    }
}

impl Status {
    pub fn info(&mut self, text: String)
        ensures
            final(self).message == Some((Level::Info, text)),
            final(self).busy == old(self).busy,
    {
        self.message = Some((Level::Info, text));
    }

    pub fn error(&mut self, text: String)
        ensures
            final(self).message == Some((Level::Error, text)),
            final(self).busy == old(self).busy,
    {
        self.message = Some((Level::Error, text));
    }

    pub fn clear(&mut self)
        ensures
            final(self).message is None,
            final(self).busy == old(self).busy,
    {
        self.message = None;
    }
}

} // verus!
