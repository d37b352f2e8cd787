//! How the model changes: keys become [`Action`]s through the keymap, by
//! the mode and the focused panel; actions and engine [`Event`]s change the
//! [`Model`] and may ask for [`Effect`]s. No I/O here.

use vstd::prelude::*;

use std::collections::BTreeSet;

use crate::action::{Action, Effect, Event, Planned};
use crate::model::{
    clamp, move_slot, moved_index, next_place, panel_confidence, prev_place, rename_slot, Cursor,
    HistoryPanel, Menu, MovePanel, Panels, RenamePanel, RewritePanel, SearchPanel,
};
use crate::modes::{
    at, move_list, plan_len, rename_list, rows_of, FilePreview, HistoryMode, MoveMode, RenameMode,
    Results, RewriteMode, Search,
};
use crate::engine::{
    copy_matches, copy_opt, copy_query, same_intent, selected, Confidence, FileChange, Highlight,
    HistoryEntry, Intent, Match, Notice, Occurrence, RenameIntent, Report, Respelling, RewriteIntent,
    Selection,
};
use crate::model::{
    menu_items, opt_view, preselected, toggled_view, Confirm, Confirmed, Level, MenuTarget, Status,
};
use crate::modes::{
    bytes_of, clamped, edits_site, file_editing, flipped, flipped_all, line_starts_of, match_ids,
    move_intent, occurrence_ids, structural_of, target_of, MovePlan,
};
use crate::picker::{
    dispatched, blank, mode_screen_of, report_move_fits, report_moved_to, Mode, Model, Overlay, ScreenId,
};
use crate::keys::Key;
use crate::keymap::Dispatch;
use crate::screen::{chain_resolved_by, key_chain};
use crate::query::{
    all_kinds, bad_kind_message, empty_query_message, first_bad_symbol, first_value, kind_name,
    query_of, searches_something, with_filter, Filter, QueryView, SymbolKind,
};
use crate::wording::{
    applied, applied_message, question, skipped, skipped_message, undo_question, undone,
    undone_message,
};
use crate::text::{is_blank, pop_char, push_char, str_eq, trim, trimmed, words};

verus! {

/// The panel `by` steps from `p`: forward when `by` is positive, back
/// otherwise, wrapping.
pub open spec fn stepped<P: Panels>(p: P, by: i32) -> P {
    if by > 0 {
        P::at(next_place(p.position(), P::count()))
    } else {
        P::at(prev_place(p.position(), P::count()))
    }
}

proof fn lemma_stepped<P: Panels>(p: P, by: i32, r: P)
    requires
        by > 0 ==> r.position() == next_place(p.position(), P::count()),
        by <= 0 ==> r.position() == prev_place(p.position(), P::count()),
    ensures
        r == stepped(p, by),
{
    r.lemma_order();
}

/// The mode with its focus moved `by` panels.
pub open spec fn focus_stepped(m: Model, by: i32) -> Model {
    match m.mode {
        Mode::Search => Model { search: Search { focus: stepped(m.search.focus, by), ..m.search }, ..m },
        Mode::Rename(r) => Model { mode: Mode::Rename(Box::new(RenameMode { focus: stepped(r.focus, by), ..*r })), ..m },
        Mode::Move(mv) => Model { mode: Mode::Move(Box::new(MoveMode { focus: stepped(mv.focus, by), ..*mv })), ..m },
        Mode::Rewrite(rw) => Model { mode: Mode::Rewrite(Box::new(RewriteMode { focus: stepped(rw.focus, by), ..*rw })), ..m },
        Mode::History(h) => Model { mode: Mode::History(HistoryMode { focus: stepped(h.focus, by), ..h }), ..m },
    }
}

impl Model {
    fn focus_step(&mut self, by: i32)
        ensures
            *final(self) == focus_stepped(*old(self), by),
    {
        match &mut self.mode {
            Mode::Search => {
                let p = self.search.focus.step(by);
                proof { lemma_stepped(self.search.focus, by, p); }
                self.search.focus = p;
            },
            Mode::Rename(r) => {
                let p = r.focus.step(by);
                proof { lemma_stepped(r.focus, by, p); }
                r.focus = p;
            },
            Mode::Move(mv) => {
                let p = mv.focus.step(by);
                proof { lemma_stepped(mv.focus, by, p); }
                mv.focus = p;
            },
            Mode::Rewrite(rw) => {
                let p = rw.focus.step(by);
                proof { lemma_stepped(rw.focus, by, p); }
                rw.focus = p;
            },
            Mode::History(h) => {
                let p = h.focus.step(by);
                proof { lemma_stepped(h.focus, by, p); }
                h.focus = p;
            },
        }
    }
}

/// The panel numbered `n` from 1, when there is one; else `p` stays.
pub open spec fn nth_or<P: Panels>(p: P, n: u8) -> P {
    if 1 <= n <= P::count() {
        P::at((n - 1) as nat)
    } else {
        p
    }
}

/// The mode with focus on its `n`-th panel, when it has one.
pub open spec fn focus_numbered(m: Model, n: u8) -> Model {
    match m.mode {
        Mode::Search => Model { search: Search { focus: nth_or(m.search.focus, n), ..m.search }, ..m },
        Mode::Rename(r) => Model { mode: Mode::Rename(Box::new(RenameMode { focus: nth_or(r.focus, n), ..*r })), ..m },
        Mode::Move(mv) => Model { mode: Mode::Move(Box::new(MoveMode { focus: nth_or(mv.focus, n), ..*mv })), ..m },
        Mode::Rewrite(rw) => Model { mode: Mode::Rewrite(Box::new(RewriteMode { focus: nth_or(rw.focus, n), ..*rw })), ..m },
        Mode::History(h) => Model { mode: Mode::History(HistoryMode { focus: nth_or(h.focus, n), ..h }), ..m },
    }
}

/// The path of a preview, when there is one.
pub open spec fn preview_path(p: Option<FilePreview>) -> Option<Seq<char>> {
    match p {
        Some(f) => Some(f.path_view()),
        None => None,
    }
}

/// The path of the move row the cursor is on.
pub open spec fn move_row_path(mv: MoveMode) -> Option<String> {
    match (mv.spot(), mv.plan) {
        (Some((p, i)), Some(plan)) => Some(
            match p {
                MovePanel::Respellings => plan.respellings@[i].path,
                MovePanel::Edits => plan.files@[i].path,
                _ => plan.notices@[i].path,
            },
        ),
        _ => None,
    }
}

/// The file the focused row is in, when the mode's detail does not show it
/// yet. Rewrite's pane shows the plan's diff and history its entry, so they
/// never ask.
pub open spec fn preview_wanted(m: Model) -> Option<String> {
    let (path, shown) = match m.mode {
        Mode::Search => (
            match at(m.search.results.matches@, m.search.results.cursor.index as int) {
                Some(x) => Some(x.path),
                None => None,
            },
            preview_path(m.search.preview),
        ),
        Mode::Rename(r) => (
            match r.spec_current() {
                Some(o) => Some(o.m.path),
                None => None,
            },
            preview_path(r.preview),
        ),
        Mode::Move(mv) => (move_row_path(*mv), preview_path(mv.preview)),
        _ => (None, None),
    };
    match path {
        Some(p) => if shown == Some(p@) {
            None
        } else {
            Some(p)
        },
        None => None,
    }
}

/// The effects that ask for the focused row's file.
pub open spec fn preview_effects(m: Model) -> Seq<Effect> {
    match preview_wanted(m) {
        Some(p) => seq![Effect::Preview { path: p }],
        None => seq![],
    }
}

/// A length the picker's `i32` cursor arithmetic can hold: empty, or
/// positive when read as an `i32`.
pub open spec fn fits_i32(len: usize) -> bool {
    len == 0 || 1 <= len as i32
}

/// The cursor of the focused list can move by `by`.
pub open spec fn moves_fit(m: Model, by: i32) -> bool {
    match m.overlay {
        Some(Overlay::Menu(menu)) => 1 <= menu.items.len() as i32 && i32::MIN <= (menu.cursor as i32) + by <= i32::MAX,
        _ => match m.mode {
            Mode::Search => fits_i32(m.search.results.matches.len()),
            Mode::Rename(r) => match panel_confidence(rename_list(r.focus, r.last_list)) {
                Some(c) => fits_i32(rows_of(r.occurrences@, c).len() as usize),
                None => true,
            },
            Mode::Move(mv) => fits_i32(plan_len(mv.plan, move_list(mv.focus, mv.last_list)) as usize),
            Mode::Rewrite(rw) => fits_i32(rw.matches.len()),
            Mode::History(h) => fits_i32(h.entries.len()),
        },
    }
}

/// Where a cursor lands, in the picker's `i32` arithmetic.
pub open spec fn cursor_to(c: Cursor, by: i32, len: usize) -> Cursor {
    Cursor {
        index: moved_index((c.index as i32) as int, by as int, if len == 0 { 0 } else { (len as i32) as int }) as usize,
    }
}

/// The focused list's cursor moved by `by`, the mode's detail back at its
/// top; or, on search, the context back to following the cursor.
pub open spec fn cursor_moved(old: Model, new: Model, by: i32) -> bool {
    match old.mode {
        Mode::Search => new == Model {
            search: Search {
                results: Results {
                    cursor: cursor_to(old.search.results.cursor, by, old.search.results.matches.len()),
                    ..old.search.results
                },
                preview_scroll: None,
                ..old.search
            },
            ..old
        },
        Mode::Rename(r) => {
            let p = rename_list(r.focus, r.last_list);
            match (panel_confidence(p), rename_slot(p)) {
                (Some(c), Some(s)) => new.mode matches Mode::Rename(r2) && r2.cursors@ == r.cursors@.update(
                    s as int,
                    cursor_to(r.cursors@[s as int], by, rows_of(r.occurrences@, c).len() as usize),
                ) && new == Model {
                    mode: Mode::Rename(Box::new(RenameMode { cursors: r2.cursors, detail_scroll: 0, ..*r })),
                    ..old
                },
                _ => new == old,
            }
        },
        Mode::Move(mv) => {
            let p = move_list(mv.focus, mv.last_list);
            match move_slot(p) {
                Some(s) => new.mode matches Mode::Move(m2) && m2.cursors@ == mv.cursors@.update(
                    s as int,
                    cursor_to(mv.cursors@[s as int], by, plan_len(mv.plan, p) as usize),
                ) && new == Model {
                    mode: Mode::Move(Box::new(MoveMode { cursors: m2.cursors, detail_scroll: 0, ..*mv })),
                    ..old
                },
                None => new == Model { mode: Mode::Move(Box::new(MoveMode { detail_scroll: 0, ..*mv })), ..old },
            }
        },
        Mode::Rewrite(rw) => new == Model {
            mode: Mode::Rewrite(Box::new(RewriteMode { cursor: cursor_to(rw.cursor, by, rw.matches.len()), detail_scroll: 0, ..*rw })),
            ..old
        },
        Mode::History(h) => new == Model {
            mode: Mode::History(HistoryMode { cursor: cursor_to(h.cursor, by, h.entries.len()), files_scroll: 0, ..h }),
            ..old
        },
    }
}

/// `moved`: an open menu's cursor moves; else the focused list's, and the
/// focused row's file is asked for.
pub open spec fn moved_by(old: Model, new: Model, by: i32, e: Seq<Effect>) -> bool {
    match old.overlay {
        Some(Overlay::Menu(menu)) => {
            &&& new == Model {
                overlay: Some(Overlay::Menu(Menu {
                    cursor: clamp((menu.cursor as i32) + by, 0, (menu.items@.len() as i32) - 1) as usize,
                    ..menu
                })),
                ..old
            }
            &&& e.len() == 0
        },
        _ => cursor_moved(old, new, by) && e == preview_effects(new),
    }
}

impl Model {
    /// Ask for the focused row's file when the detail does not show it.
    fn preview_effect(&self) -> (e: Vec<Effect>)
        ensures
            e@ == preview_effects(*self),
    {
        let (path, shown): (Option<&String>, Option<&str>) = match &self.mode {
            Mode::Search => (
                match self.search.results.current() {
                    Some(x) => Some(&x.path),
                    None => None,
                },
                match &self.search.preview {
                    Some(p) => Some(p.path()),
                    None => None,
                },
            ),
            Mode::Rename(r) => (
                match r.current() {
                    Some(o) => Some(&o.m.path),
                    None => None,
                },
                match &r.preview {
                    Some(p) => Some(p.path()),
                    None => None,
                },
            ),
            Mode::Move(mv) => (
                match mv.current() {
                    Some(row) => Some(row.path()),
                    None => None,
                },
                match &mv.preview {
                    Some(p) => Some(p.path()),
                    None => None,
                },
            ),
            _ => (None, None),
        };
        match path {
            Some(p) => {
                let same = match shown {
                    Some(s) => str_eq(s, p.as_str()),
                    None => false,
                };
                if same {
                    Vec::new()
                } else {
                    vec![Effect::Preview { path: p.clone() }]
                }
            },
            None => Vec::new(),
        }
    }

    fn focus_by(&mut self, by: i32) -> (e: Vec<Effect>)
        ensures
            *final(self) == focus_stepped(*old(self), by),
            e@ == preview_effects(*final(self)),
    {
        self.focus_step(by);
        self.preview_effect()
    }

    fn focus_nth(&mut self, n: u8) -> (e: Vec<Effect>)
        ensures
            *final(self) == focus_numbered(*old(self), n),
            e@ == preview_effects(*final(self)),
    {
        match &mut self.mode {
            Mode::Search => {
                if let Some(p) = SearchPanel::nth(n) {
                    self.search.focus = p;
                }
            },
            Mode::Rename(r) => {
                if let Some(p) = RenamePanel::nth(n) {
                    r.focus = p;
                }
            },
            Mode::Move(mv) => {
                if let Some(p) = MovePanel::nth(n) {
                    mv.focus = p;
                }
            },
            Mode::Rewrite(rw) => {
                if let Some(p) = RewritePanel::nth(n) {
                    rw.focus = p;
                }
            },
            Mode::History(h) => {
                if let Some(p) = HistoryPanel::nth(n) {
                    h.focus = p;
                }
            },
        }
        self.preview_effect()
    }

    fn moved(&mut self, by: i32) -> (e: Vec<Effect>)
        requires
            moves_fit(*old(self), by),
        ensures
            moved_by(*old(self), *final(self), by, e@),
    {
        if let Some(Overlay::Menu(menu)) = &mut self.overlay {
            menu.move_cursor(by);
            return Vec::new();
        }
        match &mut self.mode {
            Mode::Search => {
                let len = self.search.results.matches.len();
                self.search.results.cursor.move_by(by, len);
                self.search.preview_scroll = None;
            },
            Mode::Rename(r) => {
                let panel = r.list();
                if let Some(confidence) = panel.confidence() {
                    let len = r.rows(confidence).len();
                    let s = panel.slot().unwrap();
                    let mut c = r.cursors[s];
                    c.move_by(by, len);
                    r.cursors[s] = c;
                    r.detail_scroll = 0;
                }
            },
            Mode::Move(mv) => {
                let panel = mv.list();
                let len = mv.len(panel);
                if let Some(s) = panel.slot() {
                    let mut c = mv.cursors[s];
                    c.move_by(by, len);
                    mv.cursors[s] = c;
                }
                mv.detail_scroll = 0;
            },
            Mode::Rewrite(rw) => {
                let len = rw.matches.len();
                rw.cursor.move_by(by, len);
                rw.detail_scroll = 0;
            },
            Mode::History(h) => {
                let len = h.entries.len();
                h.cursor.move_by(by, len);
                h.files_scroll = 0;
            },
        }
        self.preview_effect()
    }
}

/// The rename mode's state, when the mode is a rename.
pub open spec fn rename_of(m: Model) -> RenameMode {
    match m.mode {
        Mode::Rename(r) => *r,
        _ => arbitrary(),
    }
}

/// The move mode's state, when the mode is a move.
pub open spec fn move_of(m: Model) -> MoveMode {
    match m.mode {
        Mode::Move(mv) => *mv,
        _ => arbitrary(),
    }
}

/// The rewrite mode's state, when the mode is a rewrite.
pub open spec fn rewrite_of(m: Model) -> RewriteMode {
    match m.mode {
        Mode::Rewrite(rw) => *rw,
        _ => arbitrary(),
    }
}

/// The focused panel is a text panel that scrolls rather than a list with
/// a cursor.
pub open spec fn scroll_focused(m: Model) -> bool {
    match m.mode {
        Mode::Search => m.search.focus == SearchPanel::Context,
        Mode::Rename(r) => r.focus == RenamePanel::Detail,
        Mode::Move(mv) => mv.focus == MovePanel::Detail,
        Mode::Rewrite(rw) => rw.focus == RewritePanel::Detail,
        Mode::History(h) => h.focus == HistoryPanel::Files,
    }
}

/// How far `Top` and `Bottom` move a cursor: far enough to reach the end.
pub open spec fn far(top: bool) -> i32 {
    if top {
        -1073741824i32
    } else {
        1073741823i32
    }
}

/// The lines of the search preview.
pub open spec fn preview_lines(p: Option<FilePreview>) -> nat {
    match p {
        Some(f) => line_starts_of(bytes_of(f.text_view())).len(),
        None => 0,
    }
}

/// `Top` and `Bottom`: the search context jumps to its first or past its
/// last line; a list's cursor goes to its first or last row.
pub open spec fn jumped(old: Model, new: Model, top: bool, e: Seq<Effect>) -> bool {
    if old.mode is Search && scroll_focused(old) {
        &&& new == Model {
            search: Search {
                preview_scroll: Some(if top { 0 } else { preview_lines(old.search.preview) as usize }),
                ..old.search
            },
            ..old
        }
        &&& e.len() == 0
    } else {
        moved_by(old, new, far(top), e)
    }
}

/// The line the search context centres on when following the cursor: five
/// lines above the cursor row's.
pub open spec fn anchor_of(m: Model) -> usize {
    match at(m.search.results.matches@, m.search.results.cursor.index as int) {
        Some(x) => if x.line >= 5 {
            (x.line - 5) as usize
        } else {
            0
        },
        None => 0,
    }
}

/// A scroll position moved by `by`, never above the top; in `i32`.
pub open spec fn bumped(s: usize, by: i32) -> usize {
    if (s as i32) + by < 0 {
        0
    } else {
        ((s as i32) + by) as usize
    }
}

/// The scroll can move by `by` in `i32`.
pub open spec fn bump_fits(s: usize, by: i32) -> bool {
    i32::MIN <= (s as i32) + by <= i32::MAX
}

/// The search context's last line, read as an `i32`.
pub open spec fn context_max(m: Model) -> int {
    (if preview_lines(m.search.preview) == 0 {
        0usize
    } else {
        (preview_lines(m.search.preview) - 1) as usize
    }) as i32 as int
}

/// Where the search context stands: where it was scrolled to, or the anchor.
pub open spec fn context_at(m: Model) -> usize {
    match m.search.preview_scroll {
        Some(s) => s,
        None => anchor_of(m),
    }
}

/// A scroll by `by` fits the picker's `i32` arithmetic.
pub open spec fn scroll_fits(m: Model, by: i32) -> bool {
    match m.overlay {
        Some(Overlay::Help { scroll, .. }) => bump_fits(scroll, by),
        _ => if !scroll_focused(m) {
            moves_fit(m, by)
        } else {
            match m.mode {
                Mode::Search => 0 <= context_max(m) && bump_fits(context_at(m), by),
                Mode::Rename(r) => bump_fits(r.detail_scroll, by),
                Mode::Move(mv) => bump_fits(mv.detail_scroll, by),
                Mode::Rewrite(rw) => bump_fits(rw.detail_scroll, by),
                Mode::History(h) => bump_fits(h.files_scroll, by),
            }
        },
    }
}

/// `Scroll`: the help list, or the focused text panel; a list moves its
/// cursor instead.
pub open spec fn scrolled_by(old: Model, new: Model, by: i32, e: Seq<Effect>) -> bool {
    match old.overlay {
        Some(Overlay::Help { screen, focus, scroll }) => {
            &&& new == Model { overlay: Some(Overlay::Help { screen, focus, scroll: bumped(scroll, by) }), ..old }
            &&& e.len() == 0
        },
        _ => if !scroll_focused(old) {
            moved_by(old, new, by, e)
        } else {
            &&& e.len() == 0
            &&& new == match old.mode {
                Mode::Search => Model {
                    search: Search {
                        preview_scroll: Some(clamp((context_at(old) as i32) + by, 0, context_max(old)) as usize),
                        ..old.search
                    },
                    ..old
                },
                Mode::Rename(r) => Model { mode: Mode::Rename(Box::new(RenameMode { detail_scroll: bumped(r.detail_scroll, by), ..*r })), ..old },
                Mode::Move(mv) => Model { mode: Mode::Move(Box::new(MoveMode { detail_scroll: bumped(mv.detail_scroll, by), ..*mv })), ..old },
                Mode::Rewrite(rw) => Model { mode: Mode::Rewrite(Box::new(RewriteMode { detail_scroll: bumped(rw.detail_scroll, by), ..*rw })), ..old },
                Mode::History(h) => Model { mode: Mode::History(HistoryMode { files_scroll: bumped(h.files_scroll, by), ..h }), ..old },
            }
        },
    }
}

/// `Toggle` and `ToggleAll`: the rename's or the rewrite's ticks flip; a
/// single toggle then steps down a row.
pub open spec fn toggled_by(old: Model, new: Model, all: bool, e: Seq<Effect>) -> bool {
    match old.mode {
        Mode::Rename(r) => {
            let ticks = if all {
                match panel_confidence(rename_list(r.focus, r.last_list)) {
                    Some(c) => flipped_all(r.ticks@, occurrence_ids(rows_of(r.occurrences@, c))),
                    None => r.ticks@,
                }
            } else {
                match r.spec_current() {
                    Some(o) => flipped(r.ticks@, o.m.id),
                    None => r.ticks@,
                }
            };
            let mid = Model { mode: Mode::Rename(Box::new(RenameMode { ticks: rename_of(new).ticks, ..*r })), ..old };
            &&& new.mode is Rename
            &&& rename_of(new).ticks@ == ticks
            &&& if all {
                new == mid && e.len() == 0
            } else {
                moved_by(mid, new, 1, e)
            }
        },
        Mode::Rewrite(rw) => {
            let ticks = if all {
                if rw.ticks@.len() == rw.matches@.len() {
                    Set::<u64>::empty()
                } else {
                    match_ids(rw.matches@)
                }
            } else {
                match at(rw.matches@, rw.cursor.index as int) {
                    Some(m) => flipped(rw.ticks@, m.id),
                    None => rw.ticks@,
                }
            };
            let mid = Model { mode: Mode::Rewrite(Box::new(RewriteMode { ticks: rewrite_of(new).ticks, ..*rw })), ..old };
            &&& new.mode is Rewrite
            &&& rewrite_of(new).ticks@ == ticks
            &&& if all {
                new == mid && e.len() == 0
            } else {
                moved_by(mid, new, 1, e)
            }
        },
        _ => new == old && e.len() == 0,
    }
}

/// A line edited by one key: a character typed at the end, or the last
/// one erased.
pub open spec fn edited(s: Seq<char>, c: Option<char>) -> Seq<char> {
    match c {
        Some(c) => s.push(c),
        None => if s.len() > 0 {
            s.drop_last()
        } else {
            s
        },
    }
}

/// What the query bar's line asks for, when it makes a query.
pub open spec fn line_query(text: Seq<char>) -> Option<QueryView> {
    let ws = words(text);
    if first_bad_symbol(ws) is None && searches_something(query_of(ws)) {
        Some(query_of(ws))
    } else {
        None
    }
}

/// Why the query bar's line makes no query.
pub open spec fn line_error(text: Seq<char>) -> Seq<char> {
    match first_bad_symbol(words(text)) {
        Some(v) => bad_kind_message(v),
        None => empty_query_message(),
    }
}

/// A new search, but for the status bar: a new generation; the query the
/// line makes is asked for, or, when it makes none, the results empty out.
pub open spec fn searched_hub(old: Model, new: Model, e: Seq<Effect>) -> bool {
    let g = (old.generation + 1) as u64;
    match line_query(old.search.query@) {
        Some(qv) => {
            &&& new.search.results.query matches Some(q) && q@ == qv
            &&& e == seq![Effect::Search { generation: g, query: new.search.results.query->0 }]
            &&& new == Model {
                generation: g,
                status: new.status,
                search: Search { results: Results { query: new.search.results.query, ..old.search.results }, ..old.search },
                ..old
            }
        },
        None => {
            &&& new.search.results.matches@.len() == 0
            &&& e.len() == 0
            &&& new == Model {
                generation: g,
                status: new.status,
                search: Search {
                    results: Results { query: None, matches: new.search.results.matches, cursor: Cursor { index: 0 } },
                    ..old.search
                },
                ..old
            }
        },
    }
}

/// The status bar after a new search: busy while a query is out; else why
/// the line makes no query, unless it is blank.
pub open spec fn search_status(old: Model, new: Model) -> bool {
    match line_query(old.search.query@) {
        Some(_) => new.status == Status { message: None, busy: true },
        None => {
            &&& new.status.busy == old.status.busy
            &&& if blank(old.search.query@) {
                new.status.message is None
            } else {
                new.status.message matches Some((Level::Error, s)) && s@ == line_error(old.search.query@)
            }
        },
    }
}

/// A new search, the status bar included.
pub open spec fn searched(old: Model, new: Model, e: Seq<Effect>) -> bool {
    searched_hub(old, new, e) && search_status(old, new)
}

/// The rename the mode asks for: its target renamed to the trimmed new name.
pub open spec fn rename_intent_for(r: RenameMode, x: RenameIntent) -> bool {
    &&& x.name == r.target.name
    &&& x.to@ == trim(r.name@)
    &&& x.symbol == r.target.symbol
    &&& x.language == r.language
    &&& x.declared_in == r.target.declared_in
}

/// A new plan for the rename: a new generation; nothing to plan while the
/// name is blank, else the rename to the trimmed name is asked for.
pub open spec fn rename_planned(old: Model, new: Model, debounce: bool, e: Seq<Effect>) -> bool {
    let g = (old.generation + 1) as u64;
    match old.mode {
        Mode::Rename(r) => if trim(r.name@).len() == 0 {
            &&& new.mode is Rename
            &&& rename_of(new).changes@.len() == 0
            &&& new == Model {
                generation: g,
                mode: Mode::Rename(Box::new(RenameMode { changes: rename_of(new).changes, error: None, busy: false, ..*r })),
                ..old
            }
            &&& e.len() == 0
        } else {
            &&& new == Model { generation: g, mode: Mode::Rename(Box::new(RenameMode { busy: true, ..*r })), ..old }
            &&& e.len() == 1
            &&& e[0] matches Effect::Plan { generation, intent: Intent::Rename(x), debounce: d }
            &&& e[0]->Plan_generation == g
            &&& e[0]->Plan_debounce == debounce
            &&& e[0]->Plan_intent matches Intent::Rename(x) && rename_intent_for(*r, x) && x.selection == Selection::All
        },
        _ => new == Model { generation: g, ..old } && e.len() == 0,
    }
}

/// A new plan for the move: a new generation; nothing to plan while the
/// destination is blank, else the move to it is asked for.
pub open spec fn move_planned(old: Model, new: Model, debounce: bool, e: Seq<Effect>) -> bool {
    let g = (old.generation + 1) as u64;
    match old.mode {
        Mode::Move(mv) => if trim(mv.to@).len() == 0 {
            &&& new == Model {
                generation: g,
                mode: Mode::Move(Box::new(MoveMode { plan: None, error: None, busy: false, ..*mv })),
                ..old
            }
            &&& e.len() == 0
        } else {
            &&& new == Model { generation: g, mode: Mode::Move(Box::new(MoveMode { busy: true, ..*mv })), ..old }
            &&& e.len() == 1
            &&& e[0] matches Effect::Plan { generation, intent, debounce: d }
            &&& e[0]->Plan_generation == g
            &&& e[0]->Plan_debounce == debounce
            &&& move_intent(mv.from, mv.symbol, mv.to@, Some(e[0]->Plan_intent))
        },
        _ => new == Model { generation: g, ..old } && e.len() == 0,
    }
}

/// A new plan for the rewrite: a new generation; nothing to plan while the
/// template is blank, else the rewrite of the query's matches by it.
pub open spec fn rewrite_planned(old: Model, new: Model, e: Seq<Effect>) -> bool {
    let g = (old.generation + 1) as u64;
    match old.mode {
        Mode::Rewrite(rw) => if trim(rw.template@).len() == 0 {
            &&& new.mode is Rewrite
            &&& rewrite_of(new).changes@.len() == 0
            &&& new == Model {
                generation: g,
                mode: Mode::Rewrite(Box::new(RewriteMode { changes: rewrite_of(new).changes, error: None, busy: false, ..*rw })),
                ..old
            }
            &&& e.len() == 0
        } else {
            &&& new == Model { generation: g, mode: Mode::Rewrite(Box::new(RewriteMode { busy: true, ..*rw })), ..old }
            &&& e == seq![
                Effect::Plan {
                    generation: g,
                    intent: Intent::Rewrite(RewriteIntent { query: rw.query, template: rw.template, selection: Selection::All }),
                    debounce: true,
                },
            ]
        },
        _ => new == Model { generation: g, ..old } && e.len() == 0,
    }
}

/// A key typed into the mode's input (or, with `None`, one erased): the
/// line changes and the search or the plan follows it.
pub open spec fn input_done(old: Model, new: Model, c: Option<char>, e: Seq<Effect>) -> bool {
    match old.mode {
        Mode::Search => {
            &&& new.search.query@ == edited(old.search.query@, c)
            &&& searched(Model { search: Search { query: new.search.query, ..old.search }, ..old }, new, e)
        },
        Mode::Rename(r) => {
            &&& new.mode is Rename
            &&& rename_of(new).name@ == edited(r.name@, c)
            &&& rename_planned(Model { mode: Mode::Rename(Box::new(RenameMode { name: rename_of(new).name, ..*r })), ..old }, new, true, e)
        },
        Mode::Move(mv) => {
            &&& new.mode is Move
            &&& move_of(new).to@ == edited(mv.to@, c)
            &&& move_planned(Model { mode: Mode::Move(Box::new(MoveMode { to: move_of(new).to, ..*mv })), ..old }, new, true, e)
        },
        Mode::Rewrite(rw) => {
            &&& new.mode is Rewrite
            &&& rewrite_of(new).template@ == edited(rw.template@, c)
            &&& rewrite_planned(Model { mode: Mode::Rewrite(Box::new(RewriteMode { template: rewrite_of(new).template, ..*rw })), ..old }, new, e)
        },
        Mode::History(_) => new == old && e.len() == 0,
    }
}

fn edit(text: &mut String, c: Option<char>)
    ensures
        final(text)@ == edited(old(text)@, c),
{
    match c {
        Some(c) => push_char(text, c),
        None => {
            pop_char(text);
        },
    }
}

impl Model {
    fn scroll_is_focused(&self) -> (r: bool)
        ensures
            r == scroll_focused(*self),
    {
        match &self.mode {
            Mode::Search => self.search.focus == SearchPanel::Context,
            Mode::Rename(r) => r.focus == RenamePanel::Detail,
            Mode::Move(mv) => mv.focus == MovePanel::Detail,
            Mode::Rewrite(rw) => rw.focus == RewritePanel::Detail,
            Mode::History(h) => h.focus == HistoryPanel::Files,
        }
    }

    fn jump(&mut self, top: bool) -> (e: Vec<Effect>)
        requires
            !(old(self).mode is Search && scroll_focused(*old(self))) ==> moves_fit(*old(self), far(top)),
        ensures
            jumped(*old(self), *final(self), top, e@),
    {
        let far: i32 = if top {
            i32::MIN / 2
        } else {
            i32::MAX / 2
        };
        if matches!(self.mode, Mode::Search) && self.scroll_is_focused() {
            let to = if top {
                0
            } else {
                match &self.search.preview {
                    Some(p) => p.line_count(),
                    None => 0,
                }
            };
            self.search.preview_scroll = Some(to);
            return Vec::new();
        }
        self.moved(far)
    }

    /// The line the search context centres on when following the cursor.
    pub fn preview_anchor(&self) -> (r: usize)
        ensures
            r == anchor_of(*self),
    {
        match self.search.results.current() {
            Some(x) => if x.line >= 5 {
                (x.line - 5) as usize
            } else {
                0
            },
            None => 0,
        }
    }

    fn scrolled(&mut self, by: i32) -> (e: Vec<Effect>)
        requires
            scroll_fits(*old(self), by),
        ensures
            scrolled_by(*old(self), *final(self), by, e@),
    {
        if let Some(Overlay::Help { scroll, .. }) = &mut self.overlay {
            *scroll = bump(*scroll, by);
            return Vec::new();
        }
        if !self.scroll_is_focused() {
            return self.moved(by);
        }
        match &mut self.mode {
            Mode::Search => {
                let lines = match &self.search.preview {
                    Some(p) => p.line_count(),
                    None => 0,
                };
                let max: usize = if lines == 0 {
                    0
                } else {
                    lines - 1
                };
                let current = match self.search.preview_scroll {
                    Some(s) => s,
                    None => self.preview_anchor(),
                };
                let top: i32 = max as i32;
                let sum: i32 = current as i32 + by;
                let c: i32 = if sum < 0 {
                    0
                } else if sum > top {
                    top
                } else {
                    sum
                };
                self.search.preview_scroll = Some(c as usize);
            },
            Mode::Rename(r) => r.detail_scroll = bump(r.detail_scroll, by),
            Mode::Move(mv) => mv.detail_scroll = bump(mv.detail_scroll, by),
            Mode::Rewrite(rw) => rw.detail_scroll = bump(rw.detail_scroll, by),
            Mode::History(h) => h.files_scroll = bump(h.files_scroll, by),
        }
        Vec::new()
    }

    fn toggled(&mut self, all: bool) -> (e: Vec<Effect>)
        requires
            !all && (old(self).mode is Rename || old(self).mode is Rewrite) ==> moves_fit(*old(self), 1),
        ensures
            toggled_by(*old(self), *final(self), all, e@),
    {
        match &mut self.mode {
            Mode::Rename(r) => {
                if all {
                    r.toggle_panel();
                } else {
                    r.toggle();
                    return self.moved(1);
                }
            },
            Mode::Rewrite(rw) => {
                if all {
                    rw.toggle_all();
                } else {
                    rw.toggle();
                    return self.moved(1);
                }
            },
            _ => {},
        }
        Vec::new()
    }

    fn search(&mut self) -> (e: Vec<Effect>)
        requires
            old(self).generation < u64::MAX,
        ensures
            searched(*old(self), *final(self), e@),
    {
        let generation = self.next_generation();
        match self.search.query.parse() {
            Ok(query) => {
                self.status.busy = true;
                self.status.clear();
                let asked = copy_query(&query);
                self.search.results.query = Some(query);
                let e = vec![Effect::Search { generation, query: asked }];
                proof {
                    assert(e@ =~= seq![Effect::Search { generation, query: asked }]);
                }
                e
            },
            Err(err) => {
                self.search.results.replace(Vec::new());
                self.search.results.query = None;
                if self.search.query.is_empty() {
                    self.status.clear();
                } else {
                    self.status.error(err.message());
                }
                Vec::new()
            },
        }
    }

    fn plan_rename(&mut self, debounce: bool) -> (e: Vec<Effect>)
        requires
            old(self).generation < u64::MAX,
        ensures
            rename_planned(*old(self), *final(self), debounce, e@),
    {
        let generation = self.next_generation();
        let r = match &mut self.mode {
            Mode::Rename(r) => r,
            _ => return Vec::new(),
        };
        if is_blank(r.name.as_str()) {
            r.changes.clear();
            r.error = None;
            r.busy = false;
            return Vec::new();
        }
        let intent = RenameIntent {
            name: r.target.name.clone(),
            to: trimmed(r.name.as_str()),
            symbol: r.target.symbol,
            language: copy_opt(&r.language),
            declared_in: copy_opt(&r.target.declared_in),
            selection: Selection::All,
        };
        r.busy = true;
        vec![Effect::Plan { generation, intent: Intent::Rename(intent), debounce }]
    }

    fn plan_move(&mut self, debounce: bool) -> (e: Vec<Effect>)
        requires
            old(self).generation < u64::MAX,
        ensures
            move_planned(*old(self), *final(self), debounce, e@),
    {
        let generation = self.next_generation();
        let mv = match &mut self.mode {
            Mode::Move(mv) => mv,
            _ => return Vec::new(),
        };
        match mv.intent() {
            Some(intent) => {
                mv.busy = true;
                vec![Effect::Plan { generation, intent, debounce }]
            },
            None => {
                mv.plan = None;
                mv.error = None;
                mv.busy = false;
                Vec::new()
            },
        }
    }

    fn plan_rewrite(&mut self) -> (e: Vec<Effect>)
        requires
            old(self).generation < u64::MAX,
        ensures
            rewrite_planned(*old(self), *final(self), e@),
    {
        let generation = self.next_generation();
        let rw = match &mut self.mode {
            Mode::Rewrite(rw) => rw,
            _ => return Vec::new(),
        };
        match rw.intent() {
            Some(intent) => {
                rw.busy = true;
                let e = vec![Effect::Plan { generation, intent: Intent::Rewrite(intent), debounce: true }];
                proof {
                    assert(e@ =~= seq![Effect::Plan { generation, intent: Intent::Rewrite(intent), debounce: true }]);
                }
                e
            },
            None => {
                rw.changes.clear();
                rw.error = None;
                rw.busy = false;
                Vec::new()
            },
        }
    }

    /// A character typed (or, with `None`, erased) in the mode's input.
    fn input(&mut self, c: Option<char>) -> (e: Vec<Effect>)
        requires
            old(self).generation < u64::MAX,
        ensures
            input_done(*old(self), *final(self), c, e@),
    {
        match &mut self.mode {
            Mode::Search => {
                match c {
                    Some(c) => self.search.query.push(c),
                    None => self.search.query.pop(),
                }
                self.search()
            },
            Mode::Rename(r) => {
                edit(&mut r.name, c);
                self.plan_rename(true)
            },
            Mode::Move(mv) => {
                edit(&mut mv.to, c);
                self.plan_move(true)
            },
            Mode::Rewrite(rw) => {
                edit(&mut rw.template, c);
                self.plan_rewrite()
            },
            Mode::History(_) => Vec::new(),
        }
    }
}

/// A scroll position moved by `by`, never above the top.
fn bump(s: usize, by: i32) -> (r: usize)
    requires
        bump_fits(s, by),
    ensures
        r == bumped(s, by),
{
    let v: i32 = s as i32 + by;
    if v < 0 {
        0
    } else {
        v as usize
    }
}

/// The status says `msg` as an error; nothing else changes.
pub open spec fn failed_with(old: Model, new: Model, msg: Seq<char>, e: Seq<Effect>) -> bool {
    &&& new.status.message matches Some((Level::Error, s)) && s@ == msg
    &&& new == Model { status: Status { message: new.status.message, ..old.status }, ..old }
    &&& e.len() == 0
}

/// The file and line the editor opens at for the focused row.
pub open spec fn edit_site(m: Model) -> Option<(String, u32)> {
    match m.overlay {
        Some(Overlay::Report { report, cursor }) => match at(report.sites@, cursor as int) {
            Some(s) => Some((s.path, s.line)),
            None => None,
        },
        _ => match m.mode {
            Mode::Search => match at(m.search.results.matches@, m.search.results.cursor.index as int) {
                Some(x) => Some((x.path, x.line)),
                None => None,
            },
            Mode::Rename(r) => match r.spec_current() {
                Some(o) => Some((o.m.path, o.m.line)),
                None => None,
            },
            Mode::Move(mv) => match (move_row_path(*mv), mv.spot()) {
                (Some(p), Some((panel, i))) => Some((p, match panel {
                    MovePanel::Respellings => mv.plan->0.respellings@[i].line,
                    MovePanel::Notices => mv.plan->0.notices@[i].line,
                    _ => 0u32,
                })),
                _ => None,
            },
            Mode::Rewrite(rw) => match at(rw.matches@, rw.cursor.index as int) {
                Some(x) => Some((x.path, x.line)),
                None => None,
            },
            Mode::History(_) => None,
        },
    }
}

/// `$EDITOR` at the focused row's line, when there is a row.
pub open spec fn edit_effects(m: Model) -> Seq<Effect> {
    match edit_site(m) {
        Some((path, line)) => seq![Effect::Edit { path, line }],
        None => seq![],
    }
}

/// What a commit of the rename asks for: the ticked occurrences of the
/// target renamed to the trimmed name.
pub open spec fn rename_commit(r: RenameMode, x: RenameIntent) -> bool {
    &&& rename_intent_for(r, x)
    &&& selected(x.selection) == Some(r.ticks@)
}

/// `⏎`: on a confirmation, yes; in search, go to the results; in a mode,
/// commit what it shows, or say why not.
pub open spec fn entered_by(old: Model, new: Model, e: Seq<Effect>) -> bool {
    match old.overlay {
        Some(Overlay::Confirm(_)) => {
            &&& new == Model { overlay: None, status: Status { busy: true, ..old.status }, ..old }
            &&& e == seq![Effect::Undo]
        },
        _ => match old.mode {
            Mode::Search => new == Model { search: Search { focus: SearchPanel::Results, ..old.search }, ..old } && e.len() == 0,
            Mode::Rename(r) => if r.busy || r.occurrences@.len() == 0 {
                new == old && e.len() == 0
            } else if trim(r.name@).len() == 0 || trim(r.name@) == r.target.name@ {
                failed_with(old, new, "type the new name first"@, e)
            } else if r.ticks@.is_empty() {
                failed_with(old, new, "nothing ticked"@, e)
            } else {
                &&& new == Model {
                    mode: Mode::Rename(Box::new(RenameMode { busy: true, ..*r })),
                    status: Status { busy: true, ..old.status },
                    ..old
                }
                &&& e.len() == 1
                &&& e[0] matches Effect::Commit { intent: Intent::Rename(x) } && rename_commit(*r, x)
            },
            Mode::Move(mv) => match mv.plan {
                Some(plan) => if !mv.busy {
                    &&& new == Model {
                        mode: Mode::Move(Box::new(MoveMode { busy: true, ..*mv })),
                        status: Status { busy: true, ..old.status },
                        ..old
                    }
                    &&& e.len() == 1
                    &&& e[0] matches Effect::Commit { intent } && same_intent(intent, plan.intent)
                } else {
                    new == old && e.len() == 0
                },
                None => new == old && e.len() == 0,
            },
            Mode::Rewrite(rw) => if rw.busy || rw.changes@.len() == 0 {
                failed_with(old, new, "type a template first"@, e)
            } else if rw.ticks@.is_empty() {
                failed_with(old, new, "nothing ticked"@, e)
            } else if trim(rw.template@).len() == 0 {
                new == old && e.len() == 0
            } else {
                &&& new == Model {
                    mode: Mode::Rewrite(Box::new(RewriteMode { busy: true, ..*rw })),
                    status: Status { busy: true, ..old.status },
                    ..old
                }
                &&& e.len() == 1
                &&& e[0] matches Effect::Commit { intent: Intent::Rewrite(x) } && x.query == rw.query
                    && x.template == rw.template && selected(x.selection) == Some(rw.ticks@)
            },
            Mode::History(_) => undo_asked(old, new, e),
        },
    }
}

/// `u`: in history, ask before undoing the newest entry, or say why not;
/// elsewhere, ask for the history.
pub open spec fn undo_asked(old: Model, new: Model, e: Seq<Effect>) -> bool {
    match old.mode {
        Mode::History(h) => match at(h.entries@, h.cursor.index as int) {
            Some(entry) => if h.cursor.index + 1 == h.entries@.len() {
                &&& new.overlay matches Some(Overlay::Confirm(c)) && c.on_yes == Confirmed::Undo
                    && c.question@ == undo_question(entry.id, entry.intent)
                &&& new == Model { overlay: new.overlay, ..old }
                &&& e.len() == 0
            } else {
                failed_with(old, new, "only the newest entry can be undone"@, e)
            },
            None => failed_with(old, new, "nothing to undo"@, e),
        },
        _ => new == Model { status: Status { busy: true, ..old.status }, ..old } && e == seq![Effect::History],
    }
}

/// `esc`: close the overlay; else leave a mode for search, with the hub as
/// it was left.
pub open spec fn went_back(old: Model, new: Model, e: Seq<Effect>) -> bool {
    if old.overlay is Some {
        new == Model { overlay: None, ..old } && e.len() == 0
    } else if !(old.mode is Search) {
        &&& new == Model { mode: Mode::Search, arriving: false, status: Status { message: None, ..old.status }, ..old }
        &&& e == preview_effects(new)
    } else {
        new == old && e.len() == 0
    }
}

/// `r`: judge a rename of the name under the cursor, the name unchanged.
pub open spec fn rename_entered(old: Model, new: Model, e: Seq<Effect>) -> bool {
    match match at(old.search.results.matches@, old.search.results.cursor.index as int) {
        Some(m) => target_of(m),
        None => None,
    } {
        None => failed_with(old, new, "put the cursor on an identifier or a declaration to rename"@, e),
        Some(target) => {
            let language = match old.search.results.query {
                Some(q) => q.language,
                None => None,
            };
            let g = (old.generation + 1) as u64;
            &&& new.mode matches Mode::Rename(r) && r.target == target && r.language == language
                && fresh_rename(*r)
            &&& new == Model { mode: new.mode, arriving: true, generation: g, ..old }
            &&& e.len() == 1
            &&& e[0] matches Effect::Plan { generation, intent: Intent::Rename(x), debounce } && generation == g
                && !debounce && x.name == target.name && x.to == target.name && x.symbol == target.symbol
                && x.language == language && x.declared_in == target.declared_in && x.selection
                == Selection::All
        },
    }
}

/// A rename as `RenameMode::new` opens it, before any answer.
pub open spec fn fresh_rename(r: RenameMode) -> bool {
    &&& r.name@.len() == 0
    &&& r.declarations@.len() == 0
    &&& r.occurrences@.len() == 0
    &&& r.changes@.len() == 0
    &&& r.ticks@.is_empty()
    &&& r.focus == RenamePanel::Name
    &&& r.cursors@ == seq![Cursor { index: 0 }, Cursor { index: 0 }, Cursor { index: 0 }]
    &&& r.last_list == RenamePanel::Unsure
    &&& r.detail_scroll == 0
    &&& r.preview is None
    &&& !r.judged
    &&& r.busy
    &&& r.error is None
}

/// A move as `MoveMode::new` opens it for `from`.
pub open spec fn fresh_move(mv: MoveMode, from: String, symbol: Option<String>) -> bool {
    &&& mv.from == from
    &&& mv.symbol == symbol
    &&& mv.to@ == (if symbol is Some { Seq::empty() } else { from@ })
    &&& mv.plan is None
    &&& mv.error is None
    &&& mv.focus == MovePanel::To
    &&& mv.cursors@ == seq![Cursor { index: 0 }, Cursor { index: 0 }, Cursor { index: 0 }]
    &&& mv.last_list == MovePanel::Respellings
    &&& mv.detail_scroll == 0
    &&& mv.preview is None
    &&& !mv.diff
    &&& !mv.busy
}

/// `m` / `M`: move the cursor row's file, or its declaration, and plan at
/// once; the mode arrives when there is a plan to wait for.
pub open spec fn move_entered(old: Model, new: Model, symbol: bool, e: Seq<Effect>) -> bool {
    match at(old.search.results.matches@, old.search.results.cursor.index as int) {
        None => failed_with(old, new, "put the cursor on a match in the file to move"@, e),
        Some(m) => if symbol && !(m.symbol matches Some(s) && s.kind != SymbolKind::Impl) {
            failed_with(old, new, "put the cursor on a declaration to move it"@, e)
        } else {
            let name = if symbol {
                Some(m.symbol->0.name)
            } else {
                None
            };
            let opened = MoveMode { busy: false, ..move_of(new) };
            &&& new.arriving == (e.len() > 0)
            &&& new.mode is Move
            &&& fresh_move(opened, m.path, name)
            &&& move_planned(
                Model { mode: Mode::Move(Box::new(opened)), ..old },
                Model { arriving: old.arriving, ..new },
                false,
                e,
            )
        },
    }
}

/// `w`: rewrite the search's matches, every one ticked.
pub open spec fn rewrite_entered(old: Model, new: Model, e: Seq<Effect>) -> bool {
    match old.search.results.query {
        None => failed_with(old, new, "search for the pattern to rewrite first"@, e),
        Some(q) => if old.search.results.matches@.len() == 0 {
            failed_with(old, new, "nothing matched; a rewrite acts on the matches"@, e)
        } else {
            &&& new.mode matches Mode::Rewrite(rw) && rw.query == q && rw.matches@
                == old.search.results.matches@ && rw.template@.len() == 0 && rw.changes@.len() == 0
                && rw.ticks@ == match_ids(old.search.results.matches@) && rw.focus == RewritePanel::Template
                && rw.cursor.index == 0 && rw.detail_scroll == 0 && rw.error is None && !rw.busy
            &&& new == Model { mode: new.mode, ..old }
            &&& e.len() == 0
        },
    }
}

/// The values a menu offers.
pub open spec fn menu_values(m: Model, target: MenuTarget) -> Seq<Seq<char>> {
    match target {
        MenuTarget::Symbol => all_kinds().map_values(|k: SymbolKind| kind_name(k)),
        MenuTarget::Language => m.languages@.map_values(|s: String| s@),
    }
}

/// The filter a menu edits.
pub open spec fn menu_filter(target: MenuTarget) -> Filter {
    match target {
        MenuTarget::Symbol => Filter::Symbol,
        MenuTarget::Language => Filter::Lang,
    }
}

/// `s` / `l`: a menu of symbol kinds or languages, on the value the query
/// already filters by.
pub open spec fn menu_opened(old: Model, new: Model, target: MenuTarget, e: Seq<Effect>) -> bool {
    &&& new.overlay matches Some(Overlay::Menu(menu)) && menu.target == target && menu.items_view()
        == menu_items(menu_values(old, target)) && menu.cursor == preselected(
        menu.items_view(),
        first_value(words(old.search.query@), menu_filter(target)),
    )
    &&& new == Model { overlay: new.overlay, ..old }
    &&& e.len() == 0
}

/// `⏎` on a menu: the chosen value goes into the query as its filter, the
/// menu closes, and the search runs again.
pub open spec fn menu_chosen(old: Model, new: Model, e: Seq<Effect>) -> bool {
    match old.overlay {
        Some(Overlay::Menu(menu)) => {
            &&& new.search.query@ == with_filter(
                old.search.query@,
                menu_filter(menu.target),
                opt_view(menu.items@[menu.cursor as int].value),
            )
            &&& searched(Model { search: Search { query: new.search.query, ..old.search }, overlay: None, ..old }, new, e)
        },
        _ => new == old && e.len() == 0,
    }
}

/// Copies of the strings, in order.
fn copy_strings(v: &Vec<String>) -> (r: Vec<String>)
    ensures
        r@ == v@,
{
    let mut r: Vec<String> = Vec::new();
    let mut i: usize = 0;
    while i < v.len()
        invariant
            0 <= i <= v@.len(),
            r@ == v@.take(i as int),
        decreases v@.len() - i,
    {
        r.push(v[i].clone());
        proof {
            assert(v@.take(i + 1) =~= v@.take(i as int).push(v@[i as int]));
        }
        i = i + 1;
    }
    proof {
        assert(v@.take(i as int) =~= v@);
    }
    r
}

impl Model {
    fn fail(&mut self, message: &str) -> (e: Vec<Effect>)
        ensures
            failed_with(*old(self), *final(self), message@, e@),
    {
        self.status.error(message.to_owned());
        Vec::new()
    }

    fn undo_requested(&mut self) -> (e: Vec<Effect>)
        ensures
            undo_asked(*old(self), *final(self), e@),
    {
        match &self.mode {
            Mode::History(h) => match h.current() {
                Some(entry) => if h.is_newest() {
                    let q = question(entry.id, &entry.intent);
                    self.overlay = Some(Overlay::Confirm(Confirm { question: q, on_yes: Confirmed::Undo }));
                    Vec::new()
                } else {
                    self.fail("only the newest entry can be undone")
                },
                None => self.fail("nothing to undo"),
            },
            _ => {
                self.status.busy = true;
                let e = vec![Effect::History];
                proof {
                    assert(e@ =~= seq![Effect::History]);
                }
                e
            },
        }
    }

    /// `⏎`: in search, go to the results; in a mode, commit; on a
    /// confirmation, yes.
    fn entered(&mut self) -> (e: Vec<Effect>)
        ensures
            entered_by(*old(self), *final(self), e@),
    {
        if let Some(Overlay::Confirm(_)) = &self.overlay {
            self.overlay = None;
            self.status.busy = true;
            let e = vec![Effect::Undo];
            proof {
                assert(e@ =~= seq![Effect::Undo]);
            }
            return e;
        }
        match &mut self.mode {
            Mode::Search => {
                self.search.focus = SearchPanel::Results;
                Vec::new()
            },
            Mode::Rename(r) => {
                if r.busy || r.occurrences.len() == 0 {
                    return Vec::new();
                }
                if is_blank(r.name.as_str()) {
                    return self.fail("type the new name first");
                }
                let to = trimmed(r.name.as_str());
                if to == r.target.name {
                    return self.fail("type the new name first");
                }
                if r.ticks.is_empty() {
                    return self.fail("nothing ticked");
                }
                let intent = RenameIntent {
                    name: r.target.name.clone(),
                    to,
                    symbol: r.target.symbol,
                    language: copy_opt(&r.language),
                    declared_in: copy_opt(&r.target.declared_in),
                    selection: Selection::Ids(r.ticks.clone()),
                };
                r.busy = true;
                self.status.busy = true;
                vec![Effect::Commit { intent: Intent::Rename(intent) }]
            },
            Mode::Move(mv) => {
                if mv.busy {
                    return Vec::new();
                }
                match &mv.plan {
                    Some(plan) => {
                        let intent = plan.intent.copied();
                        mv.busy = true;
                        self.status.busy = true;
                        vec![Effect::Commit { intent }]
                    },
                    None => Vec::new(),
                }
            },
            Mode::Rewrite(rw) => {
                if rw.busy || rw.changes.len() == 0 {
                    return self.fail("type a template first");
                }
                if rw.ticks.is_empty() {
                    return self.fail("nothing ticked");
                }
                let intent = match rw.intent() {
                    Some(i) => i,
                    None => return Vec::new(),
                };
                let intent = RewriteIntent { selection: Selection::Ids(rw.ticks.clone()), ..intent };
                rw.busy = true;
                self.status.busy = true;
                vec![Effect::Commit { intent: Intent::Rewrite(intent) }]
            },
            Mode::History(_) => self.undo_requested(),
        }
    }

    fn back(&mut self) -> (e: Vec<Effect>)
        ensures
            went_back(*old(self), *final(self), e@),
    {
        if self.overlay.is_some() {
            self.overlay = None;
            return Vec::new();
        }
        if !matches!(self.mode, Mode::Search) {
            self.mode = Mode::Search;
            self.arriving = false;
            self.status.clear();
            return self.preview_effect();
        }
        Vec::new()
    }

    fn enter_rename(&mut self) -> (e: Vec<Effect>)
        requires
            old(self).generation < u64::MAX,
        ensures
            rename_entered(*old(self), *final(self), e@),
    {
        let target = match self.search.results.rename_target() {
            Some(t) => t,
            None => return self.fail("put the cursor on an identifier or a declaration to rename"),
        };
        let language = match &self.search.results.query {
            Some(q) => copy_opt(&q.language),
            None => None,
        };
        let intent = RenameIntent {
            name: target.name.clone(),
            to: target.name.clone(),
            symbol: target.symbol,
            language: copy_opt(&language),
            declared_in: copy_opt(&target.declared_in),
            selection: Selection::All,
        };
        self.mode = Mode::Rename(Box::new(RenameMode::new(target, language)));
        self.arriving = true;
        let generation = self.next_generation();
        vec![Effect::Plan { generation, intent: Intent::Rename(intent), debounce: false }]
    }

    fn enter_move(&mut self, symbol: bool) -> (e: Vec<Effect>)
        requires
            old(self).generation < u64::MAX,
        ensures
            move_entered(*old(self), *final(self), symbol, e@),
    {
        let (path, name) = match self.search.results.current() {
            None => return self.fail("put the cursor on a match in the file to move"),
            Some(m) => {
                let name = if symbol {
                    match &m.symbol {
                        Some(s) => if s.kind != SymbolKind::Impl {
                            Some(s.name.clone())
                        } else {
                            return self.fail("put the cursor on a declaration to move it");
                        },
                        None => return self.fail("put the cursor on a declaration to move it"),
                    }
                } else {
                    None
                };
                (m.path.clone(), name)
            },
        };
        let mv = MoveMode::new(path, name);
        let ghost fresh = mv;
        self.mode = Mode::Move(Box::new(mv));
        let ghost mid = *self;
        proof {
            assert(mid == Model { mode: Mode::Move(Box::new(fresh)), ..*old(self) });
        }
        let effects = self.plan_move(false);
        let ghost planned = *self;
        self.arriving = effects.len() > 0;
        proof {
            assert(planned == Model { arriving: old(self).arriving, ..*self });
            assert(move_planned(
                Model { mode: Mode::Move(Box::new(fresh)), ..*old(self) },
                Model { arriving: old(self).arriving, ..*self },
                false,
                effects@,
            ));
            let m0 = old(self).search.results.matches@[old(self).search.results.cursor.index as int];
            let spec_name = if symbol {
                Some(m0.symbol->0.name)
            } else {
                None
            };
            assert(fresh.from == m0.path);
            assert(fresh.symbol == spec_name);
            assert(MoveMode { busy: false, ..move_of(*self) } == fresh);
            assert(self.arriving == (effects@.len() > 0));
        }
        effects
    }

    fn enter_rewrite(&mut self) -> (e: Vec<Effect>)
        ensures
            rewrite_entered(*old(self), *final(self), e@),
    {
        let query = match &self.search.results.query {
            Some(q) => copy_query(q),
            None => return self.fail("search for the pattern to rewrite first"),
        };
        if self.search.results.matches.len() == 0 {
            return self.fail("nothing matched; a rewrite acts on the matches");
        }
        let matches = copy_matches(&self.search.results.matches);
        self.mode = Mode::Rewrite(Box::new(RewriteMode::new(query, matches)));
        Vec::new()
    }

    fn open_menu(&mut self, target: MenuTarget) -> (e: Vec<Effect>)
        ensures
            menu_opened(*old(self), *final(self), target, e@),
            final(self).inv(),
    {
        let (filter, values) = match target {
            MenuTarget::Symbol => {
                let kinds = SymbolKind::all();
                let mut names: Vec<String> = Vec::new();
                let mut i: usize = 0;
                while i < kinds.len()
                    invariant
                        0 <= i <= kinds@.len(),
                        kinds@ == all_kinds(),
                        names@.map_values(|s: String| s@) =~= kinds@.take(i as int).map_values(|k: SymbolKind| kind_name(k)),
                    decreases kinds@.len() - i,
                {
                    let ghost before = names@.map_values(|s: String| s@);
                    names.push(kinds[i].as_str().to_owned());
                    proof {
                        assert(names@.map_values(|s: String| s@) =~= before.push(kind_name(kinds@[i as int])));
                        assert(kinds@.take(i + 1) =~= kinds@.take(i as int).push(kinds@[i as int]));
                    }
                    i = i + 1;
                }
                proof {
                    assert(kinds@.take(i as int) =~= kinds@);
                }
                (Filter::Symbol, names)
            },
            MenuTarget::Language => (Filter::Lang, copy_strings(&self.languages)),
        };
        let current = match self.search.query.filter(filter) {
            Some(s) => Some(s.to_owned()),
            None => None,
        };
        let cur: Option<&str> = match &current {
            Some(s) => Some(s.as_str()),
            None => None,
        };
        let menu = Menu::new(target, values, cur);
        self.overlay = Some(Overlay::Menu(menu));
        Vec::new()
    }

    fn choose_menu(&mut self) -> (e: Vec<Effect>)
        requires
            old(self).inv(),
            old(self).generation < u64::MAX,
        ensures
            menu_chosen(*old(self), *final(self), e@),
    {
        let (filter, value) = match &self.overlay {
            Some(Overlay::Menu(menu)) => {
                let filter = match menu.target {
                    MenuTarget::Symbol => Filter::Symbol,
                    MenuTarget::Language => Filter::Lang,
                };
                (filter, copy_opt(&menu.current().value))
            },
            _ => return Vec::new(),
        };
        let v: Option<&str> = match &value {
            Some(s) => Some(s.as_str()),
            None => None,
        };
        self.search.query.set_filter(filter, v);
        self.overlay = None;
        self.search()
    }

    /// `$EDITOR` at the focused row's line.
    fn edit(&mut self) -> (e: Vec<Effect>)
        ensures
            *final(self) == *old(self),
            e@ == edit_effects(*old(self)),
    {
        let site: Option<(String, u32)> = if let Some(Overlay::Report { .. }) = &self.overlay {
            self.report_site()
        } else {
            match &self.mode {
                Mode::Search => match self.search.results.current() {
                    Some(x) => Some((x.path.clone(), x.line)),
                    None => None,
                },
                Mode::Rename(r) => match r.current() {
                    Some(o) => Some((o.m.path.clone(), o.m.line)),
                    None => None,
                },
                Mode::Move(mv) => match mv.current() {
                    Some(row) => Some((row.path().clone(), row.line())),
                    None => None,
                },
                Mode::Rewrite(rw) => match rw.current() {
                    Some(x) => Some((x.path.clone(), x.line)),
                    None => None,
                },
                Mode::History(_) => None,
            }
        };
        match site {
            Some((path, line)) => {
                let e = vec![Effect::Edit { path, line }];
                proof {
                    assert(e@ =~= seq![Effect::Edit { path, line }]);
                }
                e
            },
            None => Vec::new(),
        }
    }
}

/// The ids of the occurrences whose site some file of the plan edits: the
/// ticks a first plan seeds, what the engine's default selection edits.
pub open spec fn seeded(os: Seq<Occurrence>, cs: Seq<FileChange>) -> Set<u64>
    decreases os.len(),
{
    if os.len() == 0 {
        Set::empty()
    } else {
        let rest = seeded(os.drop_last(), cs);
        if exists|j: int| 0 <= j < cs.len() && edits_site(#[trigger] cs[j], os.last().m.path@, os.last().m.span) {
            rest.insert(os.last().m.id)
        } else {
            rest
        }
    }
}

/// A preview holds this file.
pub open spec fn preview_is(p: FilePreview, path: String, text: String, highlights: Vec<Highlight>) -> bool {
    p.path_view() == path@ && p.text_view() == text@ && p.highlights_view() == highlights@
}

/// A plan answered: the mode that asked takes what it shows. A rename's
/// first answer seeds the ticks from what the plan edits and starts where
/// judgment is needed; later answers only refresh the diffs.
pub open spec fn plan_answered(old: Model, new: Model, planned: Planned, e: Seq<Effect>) -> bool {
    match (old.mode, planned) {
        (Mode::Rename(r), Planned::Rename { declarations, occurrences, files }) => {
            let base = RenameMode { declarations, occurrences, changes: files, busy: false, error: None, ..*r };
            let next = if r.judged {
                base
            } else {
                RenameMode {
                    ticks: rename_of(new).ticks,
                    judged: true,
                    cursors: rename_of(new).cursors,
                    last_list: if rows_of(occurrences@, Confidence::Unresolved).len() == 0 {
                        RenamePanel::Sure
                    } else {
                        RenamePanel::Unsure
                    },
                    ..base
                }
            };
            &&& new.mode is Rename
            &&& !r.judged ==> rename_of(new).ticks@ == seeded(occurrences@, files@) && rename_of(new).cursors@
                == seq![Cursor { index: 0 }, Cursor { index: 0 }, Cursor { index: 0 }]
            &&& new == Model { mode: Mode::Rename(Box::new(next)), ..old }
            &&& e == preview_effects(new)
        },
        (Mode::Move(mv), Planned::Move { intent, respellings, notices, files }) => {
            let m2 = move_of(new);
            &&& new.mode is Move
            &&& m2.plan matches Some(p) && p.intent == intent && p.files == files && p.respellings == respellings
                && p.notices == notices && p.structural@ == structural_of(files@, respellings@)
            &&& m2.cursors@ == seq![
                Cursor { index: clamped(mv.cursors@[0].index as int, respellings@.len() as int) as usize },
                Cursor { index: clamped(mv.cursors@[1].index as int, structural_of(files@, respellings@).len() as int) as usize },
                Cursor { index: clamped(mv.cursors@[2].index as int, notices@.len() as int) as usize },
            ]
            &&& m2.last_list == if respellings@.len() > 0 {
                MovePanel::Respellings
            } else {
                MovePanel::Edits
            }
            &&& new == Model {
                mode: Mode::Move(Box::new(MoveMode { plan: m2.plan, error: None, busy: false, cursors: m2.cursors, last_list: m2.last_list, ..*mv })),
                ..old
            }
            &&& e == preview_effects(new)
        },
        (Mode::Rewrite(rw), Planned::Rewrite { files }) => {
            &&& new == Model { mode: Mode::Rewrite(Box::new(RewriteMode { changes: files, error: None, busy: false, ..*rw })), ..old }
            &&& e.len() == 0
        },
        _ => new == old && e.len() == 0,
    }
}

/// What an engine answer does to the model. Answers to a search or a plan
/// that a newer request superseded change nothing.
pub open spec fn event_seen(old: Model, new: Model, event: Event, e: Seq<Effect>) -> bool {
    match event {
        Event::Searched { generation, matches, skipped } => if generation != old.generation {
            new == old && e.len() == 0
        } else {
            &&& new == Model {
                status: Status { message: new.status.message, busy: false },
                search: Search {
                    results: Results {
                        matches,
                        cursor: Cursor { index: clamped(old.search.results.cursor.index as int, matches@.len() as int) as usize },
                        ..old.search.results
                    },
                    ..old.search
                },
                ..old
            }
            &&& if skipped@.len() == 0 {
                new.status.message is None
            } else {
                new.status.message matches Some((Level::Info, s)) && s@ == skipped_message(skipped@.map_values(|n: String| n@))
            }
            &&& e == preview_effects(new)
        },
        Event::Previewed { path, text, highlights } => {
            &&& e.len() == 0
            &&& match old.mode {
                Mode::Search => new.search.preview matches Some(p) && preview_is(p, path, text, highlights) && new == Model {
                    search: Search { preview: new.search.preview, preview_scroll: None, ..old.search },
                    ..old
                },
                Mode::Rename(r) => new.mode is Rename && (rename_of(new).preview matches Some(p) && preview_is(p, path, text, highlights))
                    && new == Model {
                    mode: Mode::Rename(Box::new(RenameMode { preview: rename_of(new).preview, detail_scroll: 0, ..*r })),
                    ..old
                },
                Mode::Move(mv) => new.mode is Move && (move_of(new).preview matches Some(p) && preview_is(p, path, text, highlights))
                    && new == Model {
                    mode: Mode::Move(Box::new(MoveMode { preview: move_of(new).preview, detail_scroll: 0, ..*mv })),
                    ..old
                },
                _ => new == old,
            }
        },
        Event::Planned { generation, planned } => if generation != old.generation {
            new == old && e.len() == 0
        } else {
            plan_answered(Model { arriving: false, ..old }, new, planned, e)
        },
        Event::PlanFailed { generation, message } => if generation != old.generation {
            new == old && e.len() == 0
        } else {
            &&& e.len() == 0
            &&& match old.mode {
                Mode::Rename(r) => new == Model {
                    arriving: false,
                    mode: Mode::Rename(Box::new(RenameMode { busy: false, error: Some(message), ..*r })),
                    ..old
                },
                Mode::Move(mv) => new == Model {
                    arriving: false,
                    mode: Mode::Move(Box::new(MoveMode { busy: false, plan: None, error: Some(message), ..*mv })),
                    ..old
                },
                Mode::Rewrite(rw) => new.mode is Rewrite && rewrite_of(new).changes@.len() == 0 && new == Model {
                    arriving: false,
                    mode: Mode::Rewrite(Box::new(RewriteMode { busy: false, changes: rewrite_of(new).changes, error: Some(message), ..*rw })),
                    ..old
                },
                _ => new == Model { arriving: false, status: Status { message: Some((Level::Error, message)), ..old.status }, ..old },
            }
        },
        Event::Applied { id, intent, report } => {
            &&& searched_hub(
                Model {
                    mode: Mode::Search,
                    search: Search { preview: None, ..old.search },
                    overlay: Some(Overlay::Report { report, cursor: 0 }),
                    ..old
                },
                new,
                e,
            )
            &&& !new.status.busy
            &&& new.status.message matches Some((Level::Info, s)) && s@ == applied_message(id, intent)
        },
        Event::History(entries) => {
            &&& e.len() == 0
            &&& if entries@.len() == 0 {
                &&& new == Model { status: Status { message: new.status.message, busy: false }, ..old }
                &&& new.status.message matches Some((Level::Info, s)) && s@ == "∅ no history"@
            } else {
                &&& new.mode matches Mode::History(h) && h.entries == entries && h.cursor.index == entries@.len() - 1
                    && h.focus == HistoryPanel::Entries && h.files_scroll == 0
                &&& new == Model { mode: new.mode, status: Status { busy: false, ..old.status }, ..old }
            }
        },
        Event::Undone(entry) => {
            &&& searched_hub(Model { mode: Mode::Search, search: Search { preview: None, ..old.search }, ..old }, new, e)
            &&& !new.status.busy
            &&& new.status.message matches Some((Level::Info, s)) && s@ == undone_message(entry.id, entry.intent)
        },
        Event::Failed(message) => {
            &&& e.len() == 0
            &&& new == Model {
                status: Status { message: Some((Level::Error, message)), busy: false },
                arriving: false,
                mode: match old.mode {
                    Mode::Rename(r) => Mode::Rename(Box::new(RenameMode { busy: false, ..*r })),
                    Mode::Move(mv) => Mode::Move(Box::new(MoveMode { busy: false, ..*mv })),
                    Mode::Rewrite(rw) => Mode::Rewrite(Box::new(RewriteMode { busy: false, ..*rw })),
                    other => other,
                },
                ..old
            }
        },
    }
}

/// The arithmetic an action does fits the picker's `i32` arithmetic.
pub open spec fn action_fits(m: Model, action: Action) -> bool {
    match action {
        Action::Move(n) => match m.overlay {
            Some(Overlay::Report { report, cursor }) => report_move_fits(report, cursor, n),
            _ => moves_fit(m, n),
        },
        Action::Page(n) => i32::MIN <= n * 10 <= i32::MAX && moves_fit(m, (n * 10) as i32),
        Action::Top => !(m.mode is Search && scroll_focused(m)) ==> moves_fit(m, far(true)),
        Action::Bottom => !(m.mode is Search && scroll_focused(m)) ==> moves_fit(m, far(false)),
        Action::Scroll(n) => scroll_fits(m, n),
        Action::Toggle => (m.mode is Rename || m.mode is Rewrite) ==> moves_fit(m, 1),
        _ => true,
    }
}

/// What an action does to the model, and what it asks of the engine.
pub open spec fn action_done(old: Model, new: Model, action: Action, e: Seq<Effect>) -> bool {
    match action {
        Action::Start => new == old && e.len() == 0,
        Action::Quit => new == Model { quit: true, ..old } && e.len() == 0,
        Action::FocusNext => new == focus_stepped(old, 1i32) && e == preview_effects(new),
        Action::FocusPrev => new == focus_stepped(old, -1i32) && e == preview_effects(new),
        Action::FocusNth(n) => new == focus_numbered(old, n) && e == preview_effects(new),
        Action::Move(n) => match old.overlay {
            Some(Overlay::Report { report, cursor }) => new == Model {
                overlay: Some(Overlay::Report { report, cursor: report_moved_to(report, cursor, n) }),
                ..old
            } && e.len() == 0,
            _ => moved_by(old, new, n, e),
        },
        Action::Page(n) => moved_by(old, new, (n * 10) as i32, e),
        Action::Top => jumped(old, new, true, e),
        Action::Bottom => jumped(old, new, false, e),
        Action::Scroll(n) => scrolled_by(old, new, n, e),
        Action::Resize(by) => new == Model { split: clamp(old.split + by, 20, 80) as u16, ..old } && e.len() == 0,
        Action::Toggle => toggled_by(old, new, false, e),
        Action::ToggleAll => toggled_by(old, new, true, e),
        Action::View => new == Model { view: toggled_view(old.view), ..old } && e.len() == 0,
        Action::Input(c) => input_done(old, new, Some(c), e),
        Action::Backspace => input_done(old, new, None, e),
        Action::Clear => if old.mode is Search {
            new.search.query@.len() == 0 && searched(Model { search: Search { query: new.search.query, ..old.search }, ..old }, new, e)
        } else {
            new == old && e.len() == 0
        },
        Action::Enter => entered_by(old, new, e),
        Action::Back => went_back(old, new, e),
        Action::Rename => rename_entered(old, new, e),
        Action::MoveFile => move_entered(old, new, false, e),
        Action::MoveSymbol => move_entered(old, new, true, e),
        Action::Rewrite => rewrite_entered(old, new, e),
        Action::History => new == Model { status: Status { busy: true, ..old.status }, ..old } && e == seq![Effect::History],
        Action::OpenMenu(target) => menu_opened(old, new, target, e),
        Action::MenuChoose => menu_chosen(old, new, e),
        Action::Undo => undo_asked(old, new, e),
        Action::Help => new == Model {
            overlay: Some(Overlay::Help { screen: old.spec_mode_screen(), focus: old.spec_focus() as usize, scroll: 0 }),
            ..old
        } && e.len() == 0,
        Action::Diff => e.len() == 0 && new == match old.mode {
            Mode::Move(mv) => Model { mode: Mode::Move(Box::new(MoveMode { diff: !mv.diff, detail_scroll: 0, ..*mv })), ..old },
            _ => old,
        },
        Action::Edit => new == old && e == edit_effects(old),
    }
}

/// The ticks a first rename plan seeds.
fn seed_ticks(os: &Vec<Occurrence>, cs: &Vec<FileChange>) -> (r: BTreeSet<u64>)
    ensures
        r@ == seeded(os@, cs@),
{
    let mut r: BTreeSet<u64> = BTreeSet::new();
    let mut i: usize = 0;
    while i < os.len()
        invariant
            0 <= i <= os@.len(),
            r@ == seeded(os@.take(i as int), cs@),
        decreases os@.len() - i,
    {
        proof {
            assert(os@.take(i + 1).drop_last() =~= os@.take(i as int));
            assert(os@.take(i + 1).last() == os@[i as int]);
        }
        let o = &os[i];
        if file_editing(cs, &o.m.path, o.m.span).is_some() {
            r.insert(o.m.id);
        }
        i = i + 1;
    }
    proof {
        assert(os@.take(i as int) =~= os@);
    }
    r
}

/// The rename takes a plan's answer.
fn take_rename_plan(r: &mut RenameMode, declarations: Vec<Match>, occurrences: Vec<Occurrence>, files: Vec<FileChange>)
    ensures
        ({
            let base = RenameMode { declarations, occurrences, changes: files, busy: false, error: None, ..*old(r) };
            &&& !old(r).judged ==> final(r).ticks@ == seeded(occurrences@, files@) && final(r).cursors@
                == seq![Cursor { index: 0 }, Cursor { index: 0 }, Cursor { index: 0 }]
            &&& *final(r) == if old(r).judged {
                base
            } else {
                RenameMode {
                    ticks: final(r).ticks,
                    judged: true,
                    cursors: final(r).cursors,
                    last_list: if rows_of(occurrences@, Confidence::Unresolved).len() == 0 {
                        RenamePanel::Sure
                    } else {
                        RenamePanel::Unsure
                    },
                    ..base
                }
            }
        }),
{
    r.declarations = declarations;
    r.occurrences = occurrences;
    r.changes = files;
    r.busy = false;
    r.error = None;
    if !r.judged {
        r.ticks = seed_ticks(&r.occurrences, &r.changes);
        r.judged = true;
        r.cursors = [Cursor { index: 0 }, Cursor { index: 0 }, Cursor { index: 0 }];
        proof {
            assert(r.cursors@ =~= seq![Cursor { index: 0 }, Cursor { index: 0 }, Cursor { index: 0 }]);
        }
        let unsure = r.rows(Confidence::Unresolved).len();
        r.last_list = if unsure == 0 {
            RenamePanel::Sure
        } else {
            RenamePanel::Unsure
        };
    }
}

/// The move takes a plan's answer; its cursors stay on rows.
fn take_move_plan(mv: &mut MoveMode, intent: Intent, respellings: Vec<Respelling>, notices: Vec<Notice>, files: Vec<FileChange>)
    ensures
        final(mv).plan matches Some(p) && p.intent == intent && p.files == files && p.respellings == respellings
            && p.notices == notices && p.structural@ == structural_of(files@, respellings@),
        final(mv).cursors@ == seq![
            Cursor { index: clamped(old(mv).cursors@[0].index as int, respellings@.len() as int) as usize },
            Cursor { index: clamped(old(mv).cursors@[1].index as int, structural_of(files@, respellings@).len() as int) as usize },
            Cursor { index: clamped(old(mv).cursors@[2].index as int, notices@.len() as int) as usize },
        ],
        final(mv).last_list == if respellings@.len() > 0 {
            MovePanel::Respellings
        } else {
            MovePanel::Edits
        },
        *final(mv) == (MoveMode {
            plan: final(mv).plan,
            error: None,
            busy: false,
            cursors: final(mv).cursors,
            last_list: final(mv).last_list,
            ..*old(mv)
        }),
{
    let ghost start = mv.cursors@;
    mv.plan = Some(MovePlan::new(intent, files, respellings, notices));
    mv.error = None;
    mv.busy = false;
    let a = mv.len(MovePanel::Respellings);
    let b = mv.len(MovePanel::Edits);
    let c = mv.len(MovePanel::Notices);
    let mut c0 = mv.cursors[0];
    c0.clamp(a);
    let mut c1 = mv.cursors[1];
    c1.clamp(b);
    let mut c2 = mv.cursors[2];
    c2.clamp(c);
    mv.cursors = [c0, c1, c2];
    proof {
        assert(mv.cursors@ =~= seq![c0, c1, c2]);
    }
    mv.last_list = if a > 0 {
        MovePanel::Respellings
    } else {
        MovePanel::Edits
    };
}

impl Model {
    /// A plan answered: the mode that asked takes what it shows.
    fn planned(&mut self, planned: Planned) -> (e: Vec<Effect>)
        ensures
            plan_answered(*old(self), *final(self), planned, e@),
    {
        match (&mut self.mode, planned) {
            (Mode::Rename(r), Planned::Rename { declarations, occurrences, files }) => {
                take_rename_plan(r, declarations, occurrences, files);
                self.preview_effect()
            },
            (Mode::Move(mv), Planned::Move { intent, respellings, notices, files }) => {
                take_move_plan(mv, intent, respellings, notices, files);
                self.preview_effect()
            },
            (Mode::Rewrite(rw), Planned::Rewrite { files }) => {
                rw.changes = files;
                rw.error = None;
                rw.busy = false;
                Vec::new()
            },
            _ => Vec::new(),
        }
    }

    fn on_searched(&mut self, generation: u64, matches: Vec<Match>, names: Vec<String>) -> (e: Vec<Effect>)
        requires
            old(self).inv(),
        ensures
            final(self).inv(),
            event_seen(*old(self), *final(self), Event::Searched { generation, matches, skipped: names }, e@),
    {
        if generation != self.generation {
            return Vec::new();
        }
        self.status.busy = false;
        self.search.results.replace(matches);
        if names.len() == 0 {
            self.status.clear();
        } else {
            self.status.info(skipped(&names));
        }
        self.preview_effect()
    }

    fn on_previewed(&mut self, path: String, text: String, highlights: Vec<Highlight>) -> (e: Vec<Effect>)
        requires
            old(self).inv(),
        ensures
            final(self).inv(),
            event_seen(*old(self), *final(self), Event::Previewed { path, text, highlights }, e@),
    {
        let preview = FilePreview::new(path, text, highlights);
        match &mut self.mode {
            Mode::Search => {
                self.search.preview = Some(preview);
                self.search.preview_scroll = None;
            },
            Mode::Rename(r) => {
                r.preview = Some(preview);
                r.detail_scroll = 0;
            },
            Mode::Move(mv) => {
                mv.preview = Some(preview);
                mv.detail_scroll = 0;
            },
            _ => {},
        }
        Vec::new()
    }

    fn on_planned(&mut self, generation: u64, planned: Planned) -> (e: Vec<Effect>)
        requires
            old(self).inv(),
        ensures
            final(self).inv(),
            event_seen(*old(self), *final(self), Event::Planned { generation, planned }, e@),
    {
        if generation != self.generation {
            return Vec::new();
        }
        self.arriving = false;
        self.planned(planned)
    }

    fn on_plan_failed(&mut self, generation: u64, message: String) -> (e: Vec<Effect>)
        requires
            old(self).inv(),
        ensures
            final(self).inv(),
            event_seen(*old(self), *final(self), Event::PlanFailed { generation, message }, e@),
    {
        if generation != self.generation {
            return Vec::new();
        }
        self.arriving = false;
        match &mut self.mode {
            Mode::Rename(r) => {
                r.busy = false;
                r.error = Some(message);
            },
            Mode::Move(mv) => {
                mv.busy = false;
                mv.plan = None;
                mv.error = Some(message);
            },
            Mode::Rewrite(rw) => {
                rw.busy = false;
                rw.changes.clear();
                rw.error = Some(message);
            },
            _ => self.status.error(message),
        }
        Vec::new()
    }

    fn on_applied(&mut self, id: u64, intent: Intent, report: Report) -> (e: Vec<Effect>)
        requires
            old(self).generation < u64::MAX,
        ensures
            final(self).inv(),
            event_seen(*old(self), *final(self), Event::Applied { id, intent, report }, e@),
    {
        self.mode = Mode::Search;
        self.search.preview = None;
        self.overlay = Some(Overlay::Report { report, cursor: 0 });
        let effects = self.search();
        self.status.busy = false;
        self.status.info(applied(id, &intent));
        effects
    }

    fn on_history(&mut self, entries: Vec<HistoryEntry>) -> (e: Vec<Effect>)
        requires
            old(self).inv(),
        ensures
            final(self).inv(),
            event_seen(*old(self), *final(self), Event::History(entries), e@),
    {
        self.status.busy = false;
        if entries.len() == 0 {
            self.status.info("∅ no history".to_owned());
        } else {
            self.mode = Mode::History(HistoryMode::new(entries));
        }
        Vec::new()
    }

    fn on_undone(&mut self, entry: HistoryEntry) -> (e: Vec<Effect>)
        requires
            old(self).inv(),
            old(self).generation < u64::MAX,
        ensures
            final(self).inv(),
            event_seen(*old(self), *final(self), Event::Undone(entry), e@),
    {
        self.mode = Mode::Search;
        self.search.preview = None;
        let effects = self.search();
        self.status.busy = false;
        self.status.info(undone(entry.id, &entry.intent));
        effects
    }

    fn on_failed(&mut self, message: String) -> (e: Vec<Effect>)
        requires
            old(self).inv(),
        ensures
            final(self).inv(),
            event_seen(*old(self), *final(self), Event::Failed(message), e@),
    {
        self.status.busy = false;
        self.arriving = false;
        match &mut self.mode {
            Mode::Rename(r) => r.busy = false,
            Mode::Move(mv) => mv.busy = false,
            Mode::Rewrite(rw) => rw.busy = false,
            _ => {},
        }
        self.status.error(message);
        Vec::new()
    }

    /// Take in what the engine answered.
    pub fn on_event(&mut self, event: Event) -> (e: Vec<Effect>)
        requires
            old(self).inv(),
            old(self).generation < u64::MAX,
        ensures
            final(self).inv(),
            event_seen(*old(self), *final(self), event, e@),
    {
        match event {
            Event::Searched { generation, matches, skipped } => self.on_searched(generation, matches, skipped),
            Event::Previewed { path, text, highlights } => self.on_previewed(path, text, highlights),
            Event::Planned { generation, planned } => self.on_planned(generation, planned),
            Event::PlanFailed { generation, message } => self.on_plan_failed(generation, message),
            Event::Applied { id, intent, report } => self.on_applied(id, intent, report),
            Event::History(entries) => self.on_history(entries),
            Event::Undone(entry) => self.on_undone(entry),
            Event::Failed(message) => self.on_failed(message),
        }
    }

    /// Do what an action asks.
    pub fn update(&mut self, action: Action) -> (e: Vec<Effect>)
        requires
            old(self).inv(),
            old(self).generation < u64::MAX,
            action_fits(*old(self), action),
        ensures
            final(self).inv(),
            action_done(*old(self), *final(self), action, e@),
    {
        match action {
            Action::Start => Vec::new(),
            Action::Quit => {
                self.quit = true;
                Vec::new()
            },
            Action::FocusNext => self.focus_by(1),
            Action::FocusPrev => self.focus_by(-1),
            Action::FocusNth(n) => self.focus_nth(n),
            Action::Move(n) => {
                if let Some(Overlay::Report { .. }) = &self.overlay {
                    self.report_moved(n);
                    Vec::new()
                } else {
                    self.moved(n)
                }
            },
            Action::Page(n) => self.moved(n * 10),
            Action::Top => self.jump(true),
            Action::Bottom => self.jump(false),
            Action::Scroll(n) => self.scrolled(n),
            Action::Resize(by) => {
                let v: i32 = self.split as i32 + by as i32;
                let c: i32 = if v < 20 {
                    20
                } else if v > 80 {
                    80
                } else {
                    v
                };
                self.split = c as u16;
                Vec::new()
            },
            Action::Toggle => self.toggled(false),
            Action::ToggleAll => self.toggled(true),
            Action::View => {
                self.view = self.view.toggled();
                Vec::new()
            },
            Action::Input(c) => self.input(Some(c)),
            Action::Backspace => self.input(None),
            Action::Clear => {
                if let Mode::Search = self.mode {
                    self.search.query.clear();
                    return self.search();
                }
                Vec::new()
            },
            Action::Enter => self.entered(),
            Action::Back => self.back(),
            Action::Rename => self.enter_rename(),
            Action::MoveFile => self.enter_move(false),
            Action::MoveSymbol => self.enter_move(true),
            Action::Rewrite => self.enter_rewrite(),
            Action::History => {
                self.status.busy = true;
                let e = vec![Effect::History];
                proof {
                    assert(e@ =~= seq![Effect::History]);
                }
                e
            },
            Action::OpenMenu(target) => self.open_menu(target),
            Action::MenuChoose => self.choose_menu(),
            Action::Undo => self.undo_requested(),
            Action::Help => {
                let screen = self.mode_screen();
                let focus = self.focus();
                self.overlay = Some(Overlay::Help { screen, focus, scroll: 0 });
                Vec::new()
            },
            Action::Diff => {
                if let Mode::Move(mv) = &mut self.mode {
                    mv.diff = !mv.diff;
                    mv.detail_scroll = 0;
                }
                Vec::new()
            },
            Action::Edit => self.edit(),
        }
    }
}

/// A length fits the picker's `i32` cursor arithmetic.
fn len_fits(len: usize) -> (r: bool)
    ensures
        r == fits_i32(len),
{
    len == 0 || 1 <= len as i32
}

/// A scroll moved by `by` fits in `i32`.
fn bump_ok(s: usize, by: i32) -> (r: bool)
    ensures
        r == bump_fits(s, by),
{
    let v: i64 = (s as i32) as i64 + by as i64;
    i32::MIN as i64 <= v && v <= i32::MAX as i64
}

impl Model {
    /// The cursor of the focused list can move by `by`.
    fn moves_ok(&self, by: i32) -> (r: bool)
        ensures
            r == moves_fit(*self, by),
    {
        if let Some(Overlay::Menu(menu)) = &self.overlay {
            let sum: i64 = (menu.cursor as i32) as i64 + by as i64;
            return 1 <= menu.items.len() as i32 && i32::MIN as i64 <= sum && sum <= i32::MAX as i64;
        }
        match &self.mode {
            Mode::Search => len_fits(self.search.results.matches.len()),
            Mode::Rename(r) => match r.list().confidence() {
                Some(c) => len_fits(r.rows(c).len()),
                None => true,
            },
            Mode::Move(mv) => len_fits(mv.len(mv.list())),
            Mode::Rewrite(rw) => len_fits(rw.matches.len()),
            Mode::History(h) => len_fits(h.entries.len()),
        }
    }

    /// A scroll by `by` fits the picker's `i32` arithmetic.
    fn scroll_ok(&self, by: i32) -> (r: bool)
        ensures
            r == scroll_fits(*self, by),
    {
        if let Some(Overlay::Help { scroll, .. }) = &self.overlay {
            return bump_ok(*scroll, by);
        }
        if !self.scroll_is_focused() {
            return self.moves_ok(by);
        }
        match &self.mode {
            Mode::Search => {
                let lines = match &self.search.preview {
                    Some(p) => p.line_count(),
                    None => 0,
                };
                let max: usize = if lines == 0 {
                    0
                } else {
                    lines - 1
                };
                let current = match self.search.preview_scroll {
                    Some(s) => s,
                    None => self.preview_anchor(),
                };
                0 <= max as i32 && bump_ok(current, by)
            },
            Mode::Rename(r) => bump_ok(r.detail_scroll, by),
            Mode::Move(mv) => bump_ok(mv.detail_scroll, by),
            Mode::Rewrite(rw) => bump_ok(rw.detail_scroll, by),
            Mode::History(h) => bump_ok(h.files_scroll, by),
        }
    }

    /// Handle a key: the action the keymaps give it for the current view
    /// and focus, when there is one and `update` can take it now; else
    /// nothing changes.
    pub fn on_key(&mut self, key: Key) -> (e: Vec<Effect>)
        requires
            old(self).inv(),
        ensures
            final(self).inv(),
            exists|d: Option<Dispatch<Action>>|
                chain_resolved_by(
                    key_chain(old(self).keys.spec_screen(old(self).spec_screen()), old(self).keys.defaults, old(self).spec_focus() as int),
                    key,
                    old(self).conditions(),
                    d,
                ) && match dispatched(d, key) {
                    Some(a) => if old(self).generation < u64::MAX && action_fits(*old(self), a) {
                        action_done(*old(self), *final(self), a, e@)
                    } else {
                        *final(self) == *old(self) && e@.len() == 0
                    },
                    None => *final(self) == *old(self) && e@.len() == 0,
                },
    {
        match self.action_for(key) {
            Some(a) => if self.fits(a) {
                self.update(a)
            } else {
                Vec::new()
            },
            None => Vec::new(),
        }
    }

    /// Whether `update` can take this action now: its arithmetic fits the
    /// picker's `i32` cursors and scrolls, and a request can still get a
    /// new generation.
    pub fn fits(&self, action: Action) -> (r: bool)
        ensures
            r == (self.generation < u64::MAX && action_fits(*self, action)),
    {
        if self.generation == u64::MAX {
            return false;
        }
        match action {
            Action::Move(n) => match &self.overlay {
                Some(Overlay::Report { report, cursor }) => {
                    let k = report.sites.len();
                    let last: usize = if k == 0 {
                        0
                    } else {
                        k - 1
                    };
                    let sum: i64 = (*cursor as i32) as i64 + n as i64;
                    0 <= last as i32 && i32::MIN as i64 <= sum && sum <= i32::MAX as i64
                },
                _ => self.moves_ok(n),
            },
            Action::Page(n) => {
                let p: i64 = n as i64 * 10;
                i32::MIN as i64 <= p && p <= i32::MAX as i64 && self.moves_ok(p as i32)
            },
            Action::Top => (matches!(self.mode, Mode::Search) && self.scroll_is_focused()) || self.moves_ok(-1073741824i32),
            Action::Bottom => (matches!(self.mode, Mode::Search) && self.scroll_is_focused()) || self.moves_ok(1073741823i32),
            Action::Scroll(n) => self.scroll_ok(n),
            Action::Toggle => !(matches!(self.mode, Mode::Rename(_)) || matches!(self.mode, Mode::Rewrite(_))) || self.moves_ok(1),
            _ => true,
        }
    }
}

// ---------------------------------------------------------------- laws

/// The effect asks the engine for something that may be superseded, with
/// this generation.
pub open spec fn asks_with(e: Effect, g: u64) -> bool {
    ||| e matches Effect::Search { generation, .. } && generation == g
    ||| e matches Effect::Plan { generation, .. } && generation == g
}

/// The effect asks for a search or a plan.
pub open spec fn is_request(e: Effect) -> bool {
    e is Search || e is Plan
}

/// Every search or plan an action asks for carries the newest generation,
/// fresh for it, and the generation never goes back: answers to anything
/// asked before are stale from then on.
#[verifier::spinoff_prover]
#[verifier::rlimit(60)]
pub proof fn law_requests_carry_a_fresh_generation(old: Model, new: Model, action: Action, e: Seq<Effect>)
    requires
        old.generation < u64::MAX,
        action_done(old, new, action, e),
    ensures
        old.generation <= new.generation <= old.generation + 1,
        forall|i: int| 0 <= i < e.len() && is_request(#[trigger] e[i]) ==> asks_with(e[i], new.generation)
            && new.generation == old.generation + 1,
{
}

/// What `Model::on_event` does with an answer to a search or a plan that a
/// newer request superseded: it changes nothing and asks for nothing.
pub proof fn law_stale_answers_change_nothing(old: Model, new: Model, event: Event, e: Seq<Effect>)
    requires
        event_seen(old, new, event, e),
        match event {
            Event::Searched { generation, .. } => generation != old.generation,
            Event::Planned { generation, .. } => generation != old.generation,
            Event::PlanFailed { generation, .. } => generation != old.generation,
            _ => false,
        },
    ensures
        new == old,
        e.len() == 0,
{
}

/// `esc` leaves the hub as it was: the query, the rows and the cursor stay;
/// from a mode, it comes back to search.
pub proof fn law_back_keeps_the_hub(old: Model, new: Model, e: Seq<Effect>)
    requires
        went_back(old, new, e),
    ensures
        new.search == old.search,
        new.generation == old.generation,
        old.overlay is None ==> new.mode is Search,
        old.overlay is None && !(old.mode is Search) ==> !new.arriving,
{
}

/// Flipping a tick twice gives the ticks back.
pub proof fn law_flip_twice(ticks: Set<u64>, id: u64)
    ensures
        flipped(flipped(ticks, id), id) == ticks,
{
    assert(flipped(flipped(ticks, id), id) =~= ticks);
}

/// A rename is judged with the name unchanged, and is not drawn until the
/// judge answers: the screen stays on search while the mode arrives.
pub proof fn law_rename_waits_for_its_judge(old: Model, new: Model, e: Seq<Effect>)
    requires
        old.generation < u64::MAX,
        rename_entered(old, new, e),
        !(old.mode is Rename),
        new.mode is Rename,
    ensures
        new.arriving,
        new.spec_mode_screen() == ScreenId::Search,
        e.len() == 1,
        asks_with(e[0], new.generation),
        e[0] matches Effect::Plan { intent: Intent::Rename(x), debounce, .. } && x.to == x.name && !debounce,
{
}

/// The answer to the newest plan puts the mode on screen.
pub proof fn law_an_answer_shows_the_mode(old: Model, new: Model, planned: Planned, e: Seq<Effect>)
    requires
        event_seen(old, new, Event::Planned { generation: old.generation, planned }, e),
    ensures
        !new.arriving,
        new.spec_mode_screen() == mode_screen_of(new.mode),
{
}

/// Once the verdicts are in, later plans (typing the new name) leave the
/// user's ticks alone.
pub proof fn law_judged_ticks_stand(old: Model, new: Model, planned: Planned, e: Seq<Effect>)
    requires
        plan_answered(old, new, planned, e),
        old.mode matches Mode::Rename(r) && r.judged,
        planned is Rename,
    ensures
        new.mode is Rename,
        rename_of(new).ticks == rename_of(old).ticks,
        rename_of(new).cursors == rename_of(old).cursors,
{
}

/// New search results keep the cursor on a row.
pub proof fn law_results_keep_the_cursor_on_a_row(old: Model, new: Model, generation: u64, matches: Vec<Match>, skipped: Vec<String>, e: Seq<Effect>)
    requires
        event_seen(old, new, Event::Searched { generation, matches, skipped }, e),
        generation == old.generation,
    ensures
        new.search.results.matches@.len() == 0 ==> new.search.results.cursor.index == 0,
        new.search.results.matches@.len() > 0 ==> new.search.results.cursor.index < new.search.results.matches@.len(),
{
}

/// Nothing is written before it was shown: a commit is asked for only by
/// `⏎` in a mode whose plan is on screen and not being re-made.
pub proof fn law_commits_follow_a_shown_plan(old: Model, new: Model, action: Action, e: Seq<Effect>)
    requires
        action_done(old, new, action, e),
        exists|i: int| 0 <= i < e.len() && #[trigger] e[i] is Commit,
    ensures
        action == Action::Enter,
        !(old.overlay matches Some(Overlay::Confirm(_))),
        match old.mode {
            Mode::Rename(r) => !r.busy && r.occurrences@.len() > 0 && !r.ticks@.is_empty(),
            Mode::Move(mv) => !mv.busy && mv.plan is Some,
            Mode::Rewrite(rw) => !rw.busy && rw.changes@.len() > 0 && !rw.ticks@.is_empty(),
            _ => false,
        },
{
}

/// An undo is asked for only by a yes to its question.
pub proof fn law_undo_needs_a_yes(old: Model, new: Model, action: Action, e: Seq<Effect>)
    requires
        action_done(old, new, action, e),
        exists|i: int| 0 <= i < e.len() && #[trigger] e[i] is Undo,
    ensures
        action == Action::Enter,
        old.overlay matches Some(Overlay::Confirm(c)) && c.on_yes == Confirmed::Undo,
        new.overlay is None,
{
}

} // verus!
