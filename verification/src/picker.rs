//! All picker state as plain data: the search hub, the mode in front of it,
//! and an overlay when a small question is open, with the keymaps that turn
//! keys into actions. Nothing here does I/O or knows about terminals; see
//! `update.rs` for how it changes.

use vstd::prelude::*;

use crate::action::Action;
use crate::engine::{Report, Site};
use crate::keymap::{Dispatch, When};
use crate::keys::{text_of, Key};
use crate::model::{
    clamp, Confirm, Menu, Panels, ReportView, SearchPanel, Status,
};
use crate::modes::{at, HistoryMode, MoveMode, RenameMode, RewriteMode, Search};
use crate::screen::defaults::Defaults;
use crate::keymap::{layer_view, row_view, rows_view, RowView};
use crate::screen::{screen_view, chain_resolved_by, key_chain, lemma_chain_resolved_by, panel_layers, rows_all, Screen};
use crate::modes::{matches_of, ticked_paths};
use crate::text::is_ws;
use crate::wording::{
    apply_files, apply_files_message, apply_message, apply_ticked, undo_entry, undo_message,
};

verus! {

/// Which view draws the keys: a mode's or an overlay's.
#[derive(Debug, Clone, Copy, PartialEq, Eq, Structural)]
pub enum ScreenId {
    Search,
    Rename,
    Move,
    Rewrite,
    History,
    Menu,
    Confirm,
    Help,
    Report,
}

/// Every view's keys, and the defaults they share.
#[derive(Debug)]
pub struct Keymaps {
    pub defaults: Defaults,
    pub search: Screen,
    pub rename: Screen,
    pub moving: Screen,
    pub rewrite: Screen,
    pub history: Screen,
    pub menu: Screen,
    pub confirm: Screen,
    pub help: Screen,
    pub report: Screen,
}

/// The keymaps the picker ships: each view's layers as its tables give them.
pub open spec fn standard_keys(r: Keymaps) -> bool {
    &&& layer_view(r.defaults.global) == crate::screen::defaults::global_table()
    &&& layer_view(r.defaults.navigate) == crate::screen::defaults::navigate_table()
    &&& layer_view(r.defaults.digits) == crate::screen::defaults::digits_table()
    &&& layer_view(r.defaults.list) == crate::screen::defaults::list_table()
    &&& layer_view(r.defaults.text) == crate::screen::defaults::text_table()
    &&& screen_view(r.search) == crate::screen::search::search_table()
    &&& screen_view(r.rename) == crate::screen::rename::rename_table()
    &&& screen_view(r.moving) == crate::screen::moving::moving_table()
    &&& screen_view(r.rewrite) == crate::screen::rewrite::rewrite_table()
    &&& screen_view(r.history) == crate::screen::history::history_table()
    &&& screen_view(r.menu) == crate::screen::overlay::menu_screen_table()
    &&& screen_view(r.confirm) == crate::screen::overlay::confirm_screen_table()
    &&& screen_view(r.help) == crate::screen::overlay::help_screen_table()
    &&& screen_view(r.report) == crate::screen::overlay::report_screen_table()
}

impl Keymaps {
    /// The keys of one view.
    pub open spec fn spec_screen(&self, id: ScreenId) -> Screen {
        match id {
            ScreenId::Search => self.search,
            ScreenId::Rename => self.rename,
            ScreenId::Move => self.moving,
            ScreenId::Rewrite => self.rewrite,
            ScreenId::History => self.history,
            ScreenId::Menu => self.menu,
            ScreenId::Confirm => self.confirm,
            ScreenId::Help => self.help,
            ScreenId::Report => self.report,
        }
    }

    /// The picker's keymaps.
    pub fn new() -> (r: Self)
        ensures
            standard_keys(r),
    {
        Keymaps {
            defaults: Defaults::new(),
            search: crate::screen::search::search(),
            rename: crate::screen::rename::rename(),
            moving: crate::screen::moving::moving(),
            rewrite: crate::screen::rewrite::rewrite(),
            history: crate::screen::history::history(),
            menu: crate::screen::overlay::menu_screen(),
            confirm: crate::screen::overlay::confirm_screen(),
            help: crate::screen::overlay::help_screen(),
            report: crate::screen::overlay::report_screen(),
        }
    }

    pub fn screen(&self, id: ScreenId) -> (r: &Screen)
        ensures
            *r == self.spec_screen(id),
    {
        match id {
            ScreenId::Search => &self.search,
            ScreenId::Rename => &self.rename,
            ScreenId::Move => &self.moving,
            ScreenId::Rewrite => &self.rewrite,
            ScreenId::History => &self.history,
            ScreenId::Menu => &self.menu,
            ScreenId::Confirm => &self.confirm,
            ScreenId::Help => &self.help,
            ScreenId::Report => &self.report,
        }
    }
}

/// One job, with its own layout and keys.
#[derive(Debug)]
pub enum Mode {
    Search,
    Rename(Box<RenameMode>),
    Move(Box<MoveMode>),
    Rewrite(Box<RewriteMode>),
    History(HistoryMode),
}

/// The view that draws a mode.
pub open spec fn mode_screen_of(m: Mode) -> ScreenId {
    match m {
        Mode::Search => ScreenId::Search,
        Mode::Rename(_) => ScreenId::Rename,
        Mode::Move(_) => ScreenId::Move,
        Mode::Rewrite(_) => ScreenId::Rewrite,
        Mode::History(_) => ScreenId::History,
    }
}

/// The focused panel's place in the view that draws the mode.
pub open spec fn focus_index_of(m: Mode, search: SearchPanel) -> nat {
    match m {
        Mode::Search => search.position(),
        Mode::Rename(r) => r.focus.position(),
        Mode::Move(mv) => mv.focus.position(),
        Mode::Rewrite(rw) => rw.focus.position(),
        Mode::History(h) => h.focus.position(),
    }
}

impl Mode {
    pub fn name(&self) -> (r: &'static str)
        ensures
            r@ == match *self {
                Mode::Search => "search"@,
                Mode::Rename(_) => "rename"@,
                Mode::Move(_) => "move"@,
                Mode::Rewrite(_) => "rewrite"@,
                Mode::History(_) => "history"@,
            },
    {
        match self {
            Mode::Search => "search",
            Mode::Rename(_) => "rename",
            Mode::Move(_) => "move",
            Mode::Rewrite(_) => "rewrite",
            Mode::History(_) => "history",
        }
    }

    /// The focused panel's index in the view that draws this mode.
    pub fn focus_index(&self, search: SearchPanel) -> (r: usize)
        ensures
            r == focus_index_of(*self, search),
    {
        match self {
            Mode::Search => search.index(),
            Mode::Rename(r) => r.focus.index(),
            Mode::Move(mv) => mv.focus.index(),
            Mode::Rewrite(rw) => rw.focus.index(),
            Mode::History(h) => h.focus.index(),
        }
    }
}

/// A small question in front of the mode.
#[derive(Debug, Clone)]
pub enum Overlay {
    Menu(Menu),
    Confirm(Confirm),
    /// The key list: the view the user was in and the panel that had the
    /// focus, kept so the list stays about them; `scroll` is how many rows
    /// are above the box.
    Help { screen: ScreenId, focus: usize, scroll: usize },
    /// What an apply produced, as the report the picker shows.
    Report {
        report: Report,
        /// Where the cursor stands among the report's source rows.
        cursor: usize,
    },
}

/// The view that draws an overlay.
pub open spec fn overlay_screen_of(o: Option<Overlay>) -> Option<ScreenId> {
    match o {
        Some(Overlay::Menu(_)) => Some(ScreenId::Menu),
        Some(Overlay::Confirm(_)) => Some(ScreenId::Confirm),
        Some(Overlay::Help { .. }) => Some(ScreenId::Help),
        Some(Overlay::Report { .. }) => Some(ScreenId::Report),
        None => None,
    }
}

/// The report's last source row, read as an `i32`.
pub open spec fn report_last(report: Report) -> int {
    (if report.sites@.len() == 0 {
        0usize
    } else {
        (report.sites@.len() - 1) as usize
    }) as i32 as int
}

/// The report cursor can move by `by`: the sum fits in an `i32` and the
/// last row's reading is not negative.
pub open spec fn report_move_fits(report: Report, cursor: usize, by: i32) -> bool {
    &&& 0 <= report_last(report)
    &&& i32::MIN <= (cursor as i32) + by <= i32::MAX
}

/// Where the report cursor lands.
pub open spec fn report_moved_to(report: Report, cursor: usize, by: i32) -> usize {
    clamp((cursor as i32) + by, 0, report_last(report)) as usize
}

/// The whole picker.
#[derive(Debug)]
pub struct Model {
    pub root: String,
    /// Ids of the registered languages, for the language menu.
    pub languages: Vec<String>,
    /// The hub; kept while a mode is open so `esc` comes back to it intact.
    pub search: Search,
    pub mode: Mode,
    /// A mode was entered and its first plan is still out: keys already go
    /// to it, but the screen stays on search until there is something to
    /// show, so the layout appears filled instead of empty then filled.
    pub arriving: bool,
    pub overlay: Option<Overlay>,
    /// How a report's rows are laid out; the picker's `v` toggles it.
    pub view: ReportView,
    /// Width of the left column as a percentage of the body.
    pub split: u16,
    pub status: Status,
    /// Bumps on every request whose answer may be superseded (search, plan).
    pub generation: u64,
    pub quit: bool,
    /// What each view's keys do.
    pub keys: Keymaps,
}

/// The query holds nothing but white space.
pub open spec fn blank(text: Seq<char>) -> bool {
    forall|i: int| 0 <= i < text.len() ==> is_ws(#[trigger] text[i])
}

/// What a keymap row's dispatch asks for, with the key that fired it: a
/// binding's action, or the key's character typed into the input.
pub open spec fn dispatched(d: Option<Dispatch<Action>>, key: Key) -> Option<Action> {
    match d {
        Some(Dispatch::Run(a)) => Some(a),
        Some(Dispatch::Type) => match text_of(key) {
            Some(c) => Some(Action::Input(c)),
            None => None,
        },
        None => None,
    }
}

impl Model {
    /// What holds of every model the picker makes: an open menu has a row
    /// under its cursor.
    pub open spec fn inv(&self) -> bool {
        self.overlay matches Some(Overlay::Menu(menu)) ==> 1 <= menu.items@.len() && menu.cursor < menu.items@.len()
    }

    /// The screen draws search while a mode is arriving.
    pub open spec fn shows_search(&self) -> bool {
        self.arriving || self.mode is Search
    }

    /// The view of the mode on screen.
    pub open spec fn spec_mode_screen(&self) -> ScreenId {
        if self.arriving {
            ScreenId::Search
        } else {
            mode_screen_of(self.mode)
        }
    }

    /// The view the keys go to: the overlay's when one is open.
    pub open spec fn spec_screen(&self) -> ScreenId {
        match overlay_screen_of(self.overlay) {
            Some(id) => id,
            None => self.spec_mode_screen(),
        }
    }

    /// The focused panel of the view the keys go to.
    pub open spec fn spec_focus(&self) -> nat {
        match self.overlay {
            Some(_) => 0,
            None => if self.arriving {
                self.search.focus.position()
            } else {
                focus_index_of(self.mode, self.search.focus)
            },
        }
    }

    /// Whether a binding's condition holds.
    pub open spec fn spec_holds(&self, when: When) -> bool {
        match when {
            When::Always => true,
            When::QueryEmpty => blank(self.search.query@),
            When::QueryNotEmpty => !blank(self.search.query@),
        }
    }

    /// Which binding conditions hold.
    pub open spec fn conditions(&self) -> spec_fn(When) -> bool {
        |w: When| self.spec_holds(w)
    }

    pub fn new(root: String, languages: Vec<String>) -> (m: Self)
        ensures
            m.root == root,
            m.languages == languages,
            m.search.query@.len() == 0,
            m.search.results.query is None,
            m.search.results.matches@.len() == 0,
            m.search.results.cursor.index == 0,
            m.search.focus == SearchPanel::Query,
            m.search.preview is None,
            m.search.preview_scroll is None,
            m.mode is Search,
            !m.arriving,
            m.overlay is None,
            m.view == ReportView::Compact,
            m.split == 50,
            m.status.message is None,
            !m.status.busy,
            m.generation == 0,
            !m.quit,
            standard_keys(m.keys),
            m.inv(),
    {
        Model {
            root,
            languages,
            search: Search::default(),
            mode: Mode::Search,
            arriving: false,
            overlay: None,
            view: ReportView::Compact,
            split: 50,
            status: Status::default(),
            generation: 0,
            quit: false,
            keys: Keymaps::new(),
        }
    }

    /// Whether the screen draws search: a mode entered but still waiting
    /// for its first plan is not drawn yet.
    pub fn shown_is_search(&self) -> (r: bool)
        ensures
            r == self.shows_search(),
    {
        self.arriving || matches!(self.mode, Mode::Search)
    }

    /// Whether a binding's condition holds now.
    pub fn holds(&self, when: When) -> (r: bool)
        ensures
            r == self.spec_holds(when),
    {
        match when {
            When::Always => true,
            When::QueryEmpty => self.search.query.is_empty(),
            When::QueryNotEmpty => !self.search.query.is_empty(),
        }
    }

    /// The view of the mode on screen.
    pub fn mode_screen(&self) -> (r: ScreenId)
        ensures
            r == self.spec_mode_screen(),
    {
        if self.arriving {
            return ScreenId::Search;
        }
        match &self.mode {
            Mode::Search => ScreenId::Search,
            Mode::Rename(_) => ScreenId::Rename,
            Mode::Move(_) => ScreenId::Move,
            Mode::Rewrite(_) => ScreenId::Rewrite,
            Mode::History(_) => ScreenId::History,
        }
    }

    /// The overlay's view, when one is open.
    pub fn overlay_screen(&self) -> (r: Option<ScreenId>)
        ensures
            r == overlay_screen_of(self.overlay),
    {
        match &self.overlay {
            Some(Overlay::Menu(_)) => Some(ScreenId::Menu),
            Some(Overlay::Confirm(_)) => Some(ScreenId::Confirm),
            Some(Overlay::Help { .. }) => Some(ScreenId::Help),
            Some(Overlay::Report { .. }) => Some(ScreenId::Report),
            None => None,
        }
    }

    /// The view the keys go to: the overlay when one is open, the mode otherwise.
    pub fn screen(&self) -> (r: ScreenId)
        ensures
            r == self.spec_screen(),
    {
        match self.overlay_screen() {
            Some(id) => id,
            None => self.mode_screen(),
        }
    }

    /// The focused panel's index within the active view.
    pub fn focus(&self) -> (r: usize)
        ensures
            r == self.spec_focus(),
    {
        match &self.overlay {
            Some(_) => 0,
            None => if self.arriving {
                self.search.focus.index()
            } else {
                self.mode.focus_index(self.search.focus)
            },
        }
    }

    /// Map a key to an action for the current view and focus: what the
    /// first layer of the key chain that knows the key dispatches, under
    /// the conditions that hold now. `None` = ignored.
    pub fn action_for(&self, key: Key) -> (r: Option<Action>)
        ensures
            exists|d: Option<Dispatch<Action>>|
                chain_resolved_by(
                    key_chain(self.keys.spec_screen(self.spec_screen()), self.keys.defaults, self.spec_focus() as int),
                    key,
                    self.conditions(),
                    d,
                ) && r == dispatched(d, key),
    {
        let screen = self.keys.screen(self.screen());
        let focus = self.focus();
        let holds = |w: When| -> (b: bool)
            ensures
                b == self.spec_holds(w),
            { self.holds(w) };
        let d = screen.resolve(&self.keys.defaults, focus, key, &holds);
        proof {
            lemma_chain_resolved_by(
                key_chain(*screen, self.keys.defaults, focus as int),
                key,
                holds,
                self.conditions(),
                d,
            );
        }
        let r = match d {
            Some(Dispatch::Run(a)) => Some(a),
            Some(Dispatch::Type) => match key.text() {
                Some(c) => Some(Action::Input(c)),
                None => None,
            },
            None => None,
        };
        proof {
            assert(r == dispatched(d, key));
        }
        r
    }

    /// Bump the generation: a new request supersedes every answer still out.
    pub fn next_generation(&mut self) -> (g: u64)
        requires
            old(self).generation < u64::MAX,
        ensures
            g == old(self).generation + 1,
            *final(self) == (Model { generation: g, ..*old(self) }),
    {
        self.generation = self.generation + 1;
        self.generation
    }

    /// Move the report overlay's cursor by `by` source rows, staying on one.
    /// The arithmetic is in `i32`, as the cursor and the last row read there:
    /// the sum must fit, and the last row's reading must not be negative.
    pub fn report_moved(&mut self, by: i32)
        requires
            old(self).overlay matches Some(Overlay::Report { report, cursor }) ==> report_move_fits(report, cursor, by),
        ensures
            *final(self) == match old(self).overlay {
                Some(Overlay::Report { report, cursor }) => Model {
                    overlay: Some(Overlay::Report { report, cursor: report_moved_to(report, cursor, by) }),
                    ..*old(self)
                },
                _ => *old(self),
            },
    {
        let (report, cursor) = match self.overlay.take() {
            Some(Overlay::Report { report, cursor }) => (report, cursor),
            other => {
                self.overlay = other;
                return;
            },
        };
        let n = report.sites.len();
        let last: i32 = if n == 0 {
            0
        } else {
            (n - 1) as i32
        };
        let sum: i32 = cursor as i32 + by;
        let c: i32 = if sum < 0 {
            0
        } else if sum > last {
            last
        } else {
            sum
        };
        self.overlay = Some(Overlay::Report { report, cursor: c as usize });
    }

    /// The source the report overlay's cursor stands on, when it is a report.
    pub fn report_site(&self) -> (r: Option<(String, u32)>)
        ensures
            r == match self.overlay {
                Some(Overlay::Report { report, cursor }) => match at(report.sites@, cursor as int) {
                    Some(s) => Some((s.path, s.line)),
                    None => None,
                },
                _ => None,
            },
    {
        match &self.overlay {
            Some(Overlay::Report { report, cursor }) => {
                if *cursor < report.sites.len() {
                    let s: &Site = &report.sites[*cursor];
                    Some((s.path.clone(), s.line))
                } else {
                    None
                }
            },
            _ => None,
        }
    }
}

/// The mode the screen draws.
pub open spec fn shown_mode(m: Model) -> Mode {
    if m.arriving {
        Mode::Search
    } else {
        m.mode
    }
}

/// The word the status bar shows for a row whose meaning depends on the
/// state: what `⏎` applies, which entry `u` undoes, what `d` shows.
pub open spec fn described(m: Model, d: Dispatch<Action>) -> Seq<char> {
    match d {
        Dispatch::Run(Action::Enter) => match shown_mode(m) {
            Mode::Rename(r) => apply_message(r.ticks@.len(), ticked_paths(matches_of(r.occurrences@), r.ticks@).len()),
            Mode::Rewrite(rw) => apply_message(rw.ticks@.len(), ticked_paths(rw.matches@, rw.ticks@).len()),
            Mode::Move(mv) => match mv.plan {
                Some(plan) => apply_files_message(plan.files@.len()),
                None => "apply"@,
            },
            _ => "apply"@,
        },
        Dispatch::Run(Action::Undo) => match shown_mode(m) {
            Mode::History(h) => if h.entries@.len() > 0 {
                undo_message(h.entries@.last().id)
            } else {
                "undo"@
            },
            _ => "undo"@,
        },
        Dispatch::Run(Action::Diff) => match shown_mode(m) {
            Mode::Move(mv) => if mv.diff {
                "source"@
            } else {
                "diff"@
            },
            _ => "diff"@,
        },
        _ => Seq::empty(),
    }
}

impl Model {
    /// The word the status bar shows for a row whose meaning depends on
    /// the state.
    pub fn describe(&self, dispatch: Dispatch<Action>) -> (s: String)
        ensures
            s@ == described(*self, dispatch),
    {
        let action = match dispatch {
            Dispatch::Run(a) => a,
            Dispatch::Type => return String::new(),
        };
        let mode = if self.arriving {
            &Mode::Search
        } else {
            &self.mode
        };
        match (action, mode) {
            (Action::Enter, Mode::Rename(r)) => {
                let files = r.files();
                apply_ticked(r.ticks.len(), files)
            },
            (Action::Enter, Mode::Rewrite(rw)) => {
                let files = rw.files();
                apply_ticked(rw.ticks.len(), files)
            },
            (Action::Enter, Mode::Move(mv)) => match &mv.plan {
                Some(plan) => apply_files(plan.files.len()),
                None => "apply".to_owned(),
            },
            (Action::Enter, _) => "apply".to_owned(),
            (Action::Undo, Mode::History(h)) => {
                let n = h.entries.len();
                if n > 0 {
                    undo_entry(h.entries[n - 1].id)
                } else {
                    "undo".to_owned()
                }
            },
            (Action::Undo, _) => "undo".to_owned(),
            (Action::Diff, Mode::Move(mv)) => if mv.diff {
                "source".to_owned()
            } else {
                "diff".to_owned()
            },
            (Action::Diff, _) => "diff".to_owned(),
            _ => String::new(),
        }
    }
}

/// The status bar's key hints for rows: each row that asks to be shown,
/// its keys and its word, or, for an empty word, what the state makes of it.
pub open spec fn hints_of(m: Model, rows: Seq<RowView<Action>>) -> Seq<(Seq<char>, Seq<char>)>
    decreases rows.len(),
{
    if rows.len() == 0 {
        seq![]
    } else {
        let prev = hints_of(m, rows.drop_last());
        match rows.last().legend.bar {
            Some(bar) => prev.push(
                (bar.keys@, if bar.word@.len() == 0 {
                    described(m, rows.last().first.dispatch)
                } else {
                    bar.word@
                }),
            ),
            None => prev,
        }
    }
}

impl Model {
    /// The keys that matter where the focus is, as the status bar shows
    /// them: the rows of the focused panel's layers that ask to be shown,
    /// most specific first, each with its word.
    pub fn hints(&self) -> (r: Vec<(String, String)>)
        ensures
            r@.map_values(|h: (String, String)| (h.0@, h.1@)) == hints_of(
                *self,
                rows_all(
                    panel_layers(self.keys.spec_screen(self.spec_screen()), self.keys.defaults, self.spec_focus() as int)
                        + seq![self.keys.defaults.global],
                ),
            ),
    {
        let screen = self.keys.screen(self.screen());
        let rows = screen.rows(&self.keys.defaults, self.focus());
        let ghost rs = rows_view(rows@);
        let mut r: Vec<(String, String)> = Vec::new();
        let mut i: usize = 0;
        while i < rows.len()
            invariant
                rs == rows_view(rows@),
                0 <= i <= rows@.len(),
                r@.map_values(|h: (String, String)| (h.0@, h.1@)) == hints_of(*self, rs.take(i as int)),
            decreases rows@.len() - i,
        {
            proof {
                assert(rs.take(i + 1).drop_last() =~= rs.take(i as int));
                assert(rs.take(i + 1).last() == row_view(rows@[i as int]));
            }
            let row = &rows[i];
            proof {
                assert(rs[i as int].legend == row.legend);
                assert(rs[i as int].first == *row.binding);
            }
            if let Some(bar) = row.legend.bar {
                let what = if bar.word.is_empty() {
                    self.describe(row.binding.dispatch)
                } else {
                    bar.word.to_owned()
                };
                let ghost before = r@.map_values(|h: (String, String)| (h.0@, h.1@));
                r.push((bar.keys.to_owned(), what));
                proof {
                    assert(r@.map_values(|h: (String, String)| (h.0@, h.1@)) =~= before.push((bar.keys@, what@)));
                }
            }
            i = i + 1;
        }
        proof {
            assert(rs.take(i as int) =~= rs);
        }
        r
    }
}

} // verus!
