//! The keys of the move mode: the destination, the respellings, the
//! structural edits, the notices and the detail.

use vstd::prelude::*;

use crate::action::Action;
use crate::keymap::{layer_view, LayerView, Bar, Dispatch, Keybinding, Layer, Legend, Trigger, When};
use crate::keys::{Code, Modifiers};
use crate::keys::Key;
use crate::model::PanelKind;
use crate::screen::{panel_view, screen_view, Panel, PanelView, Screen};
use crate::engine::{FileChange, NoticeKind};
use crate::rust::facts::ReachKind;
use crate::model::MovePanel;
use crate::modes::{less, line_total, source_row_view, window_of, MoveMode, MoveRow, SourceRow, SourceRowView};
use crate::text::{lines, lines_of, owned, str_eq};

verus! {

/// The `mode` keys as values.
pub open spec fn mode_table() -> LayerView<Action> {
    ("Move"@, seq![
        (seq![Trigger::Key((Key { code: Code::Enter, modifiers: Modifiers(0) }))], Dispatch::Run(Action::Enter), When::Always, (Some(("⏎"@, ""@)), "what the status bar says"@)),
        (seq![Trigger::Key((Key { code: Code::Esc, modifiers: Modifiers(0) }))], Dispatch::Run(Action::Back), When::Always, (Some(("esc"@, "back"@)), "back"@)),
    ])
}

/// The keys of the whole mode.
pub fn mode() -> (r: Layer<Action>)
    ensures
        layer_view(r) == mode_table(),
{
    let r = Layer {
    name: "Move",
    bindings: vec![
        Keybinding {
            triggers: vec![Trigger::Key(Key::enter())],
            dispatch: Dispatch::Run(Action::Enter),
            when: When::Always,
            legend: Legend {
                bar: Some(Bar {
                    keys: "⏎",
                    word: "",
                }),
                help: "what the status bar says",
            },
        },
        Keybinding {
            triggers: vec![Trigger::Key(Key::esc())],
            dispatch: Dispatch::Run(Action::Back),
            when: When::Always,
            legend: Legend {
                bar: Some(Bar {
                    keys: "esc",
                    word: "back",
                }),
                help: "back",
            },
        },
    ],
};
    proof {
        assert(layer_view(r).1 =~~= mode_table().1);
    }
    r
}

/// The `destination` keys as values.
pub open spec fn destination_table() -> LayerView<Action> {
    ("Move"@, seq![
        (seq![Trigger::Key((Key { code: Code::Down, modifiers: Modifiers(0) }))], Dispatch::Run(Action::FocusNth(2)), When::Always, (Some(("↓/tab"@, "rows"@)), "the rows"@)),
        (seq![Trigger::Key((Key { code: Code::Backspace, modifiers: Modifiers(0) }))], Dispatch::Run(Action::Backspace), When::Always, (None, "erase"@)),
        (seq![Trigger::Key((Key { code: Code::Char('?'), modifiers: Modifiers(0) }))], Dispatch::Run(Action::Help), When::Always, (None, "keys"@)),
        (seq![Trigger::Text], Dispatch::Type, When::Always, (Some(("typing"@, "the destination"@)), "the destination; the plan is its validation"@)),
    ])
}

/// The destination.
pub fn destination() -> (r: Layer<Action>)
    ensures
        layer_view(r) == destination_table(),
{
    let r = Layer {
    name: "Move",
    bindings: vec![
        Keybinding {
            triggers: vec![Trigger::Key(Key::down())],
            dispatch: Dispatch::Run(Action::FocusNth(2)),
            when: When::Always,
            legend: Legend {
                bar: Some(Bar {
                    keys: "↓/tab",
                    word: "rows",
                }),
                help: "the rows",
            },
        },
        Keybinding {
            triggers: vec![Trigger::Key(Key::backspace())],
            dispatch: Dispatch::Run(Action::Backspace),
            when: When::Always,
            legend: Legend {
                bar: None,
                help: "erase",
            },
        },
        Keybinding {
            triggers: vec![Trigger::Key(Key::char('?'))],
            dispatch: Dispatch::Run(Action::Help),
            when: When::Always,
            legend: Legend {
                bar: None,
                help: "keys",
            },
        },
        Keybinding {
            triggers: vec![Trigger::Text],
            dispatch: Dispatch::Type,
            when: When::Always,
            legend: Legend {
                bar: Some(Bar {
                    keys: "typing",
                    word: "the destination",
                }),
                help: "the destination; the plan is its validation",
            },
        },
    ],
};
    proof {
        assert(layer_view(r).1 =~~= destination_table().1);
    }
    r
}

/// The `list` keys as values.
pub open spec fn list_table() -> LayerView<Action> {
    ("Move"@, seq![(seq![Trigger::Key((Key { code: Code::Char('d'), modifiers: Modifiers(0) }))], Dispatch::Run(Action::Diff), When::Always, (Some(("d"@, ""@)), "hunks instead of source in the detail"@))])
}

/// The respelling, structural and notice panels.
pub fn list() -> (r: Layer<Action>)
    ensures
        layer_view(r) == list_table(),
{
    let r = Layer {
    name: "Move",
    bindings: vec![Keybinding {
        triggers: vec![Trigger::Key(Key::char('d'))],
        dispatch: Dispatch::Run(Action::Diff),
        when: When::Always,
        legend: Legend {
            bar: Some(Bar {
                keys: "d",
                word: "",
            }),
            help: "hunks instead of source in the detail",
        },
    }],
};
    proof {
        assert(layer_view(r).1 =~~= list_table().1);
    }
    r
}

/// The `to_panel` panel as values.
pub open spec fn to_panel_table() -> PanelView {
    (destination_table(), Some(PanelKind::Input))
}

pub fn to_panel() -> (r: Panel)
    ensures
        panel_view(r) == to_panel_table(),
{
    Panel { layer: destination(), kind: Some(PanelKind::Input) }
}

/// The `respellings_panel` panel as values.
pub open spec fn respellings_panel_table() -> PanelView {
    (list_table(), Some(PanelKind::List))
}

pub fn respellings_panel() -> (r: Panel)
    ensures
        panel_view(r) == respellings_panel_table(),
{
    Panel { layer: list(), kind: Some(PanelKind::List) }
}

/// The `structural_panel` panel as values.
pub open spec fn structural_panel_table() -> PanelView {
    (list_table(), Some(PanelKind::List))
}

pub fn structural_panel() -> (r: Panel)
    ensures
        panel_view(r) == structural_panel_table(),
{
    Panel { layer: list(), kind: Some(PanelKind::List) }
}

/// The `notices_panel` panel as values.
pub open spec fn notices_panel_table() -> PanelView {
    (list_table(), Some(PanelKind::List))
}

pub fn notices_panel() -> (r: Panel)
    ensures
        panel_view(r) == notices_panel_table(),
{
    Panel { layer: list(), kind: Some(PanelKind::List) }
}

/// The `detail_panel` panel as values.
pub open spec fn detail_panel_table() -> PanelView {
    (("Move"@, seq![]), Some(PanelKind::Text))
}

pub fn detail_panel() -> (r: Panel)
    ensures
        panel_view(r) == detail_panel_table(),
{
    Panel { layer: Layer {
        name: "Move",
        bindings: vec![],
    }, kind: Some(PanelKind::Text) }
}

/// The `moving` screen as values.
pub open spec fn moving_table() -> (LayerView<Action>, Seq<PanelView>) {
    (mode_table(), seq![to_panel_table(), respellings_panel_table(), structural_panel_table(), notices_panel_table(), detail_panel_table()])
}

/// The move screen.
pub fn moving() -> (r: Screen)
    ensures
        screen_view(r) == moving_table(),
{
    Screen { layer: mode(), panels: vec![to_panel(), respellings_panel(), structural_panel(), notices_panel(), detail_panel()] }
}

// ---------------------------------------------------------------- the detail pane

/// What the detail pane shows under a respelling.
#[derive(Debug, Clone, PartialEq, Eq)]
pub enum DetailBody {
    /// The lines of the file's diff, from the scroll position on.
    Hunks(Vec<String>),
    /// The file around the respelled import.
    Source(Vec<SourceRow>),
    Nothing,
}

/// The detail of the row the move's lists point at.
#[derive(Debug, Clone, PartialEq, Eq)]
pub enum MoveDetail {
    /// An import the move respells, from `from` to `to`.
    Respelling { from: String, to: String, body: DetailBody },
    /// A file the move changes: where it moves, if it does, and its diff's
    /// lines from the scroll position on.
    Edited { from: String, moved_to: Option<String>, hunks: Vec<String> },
    /// What a notice leaves to the user.
    Notice { kind: NoticeKind },
}

/// The detail pane: its title (the row's file, or none) and the detail.
#[derive(Debug, Clone, PartialEq, Eq)]
pub struct MovePane {
    pub title: Option<String>,
    pub detail: Option<MoveDetail>,
}

/// A body as values.
pub enum BodyView {
    Hunks(Seq<Seq<char>>),
    Source(Seq<SourceRowView>),
    Nothing,
}

/// A detail as values.
pub enum DetailView {
    Respelling(Seq<char>, Seq<char>, BodyView),
    Edited(Seq<char>, Option<Seq<char>>, Seq<Seq<char>>),
    Notice(NoticeView),
}

/// A notice's kind as values.
pub enum NoticeView {
    UnrewritableImport(Seq<char>, Seq<char>),
    RedundantImport(Seq<char>),
    Unreachable(Seq<char>, Seq<char>, ReachKind),
}

pub open spec fn notice_view(k: NoticeKind) -> NoticeView {
    match k {
        NoticeKind::UnrewritableImport { import, replacement } => NoticeView::UnrewritableImport(import@, replacement@),
        NoticeKind::RedundantImport { import } => NoticeView::RedundantImport(import@),
        NoticeKind::Unreachable { item, from, needs } => NoticeView::Unreachable(item@, from@, needs),
    }
}

pub open spec fn strings_view(v: Vec<String>) -> Seq<Seq<char>> {
    v@.map_values(|l: String| l@)
}

pub open spec fn body_view(b: DetailBody) -> BodyView {
    match b {
        DetailBody::Hunks(ls) => BodyView::Hunks(strings_view(ls)),
        DetailBody::Source(rs) => BodyView::Source(rs@.map_values(|x: SourceRow| source_row_view(x))),
        DetailBody::Nothing => BodyView::Nothing,
    }
}

pub open spec fn detail_view(d: MoveDetail) -> DetailView {
    match d {
        MoveDetail::Respelling { from, to, body } => DetailView::Respelling(from@, to@, body_view(body)),
        MoveDetail::Edited { from, moved_to, hunks } => DetailView::Edited(
            from@,
            match moved_to {
                Some(t) => Some(t@),
                None => None,
            },
            strings_view(hunks),
        ),
        MoveDetail::Notice { kind } => DetailView::Notice(notice_view(kind)),
    }
}

/// A detail pane as values.
pub open spec fn move_pane_view(p: MovePane) -> (Option<Seq<char>>, Option<DetailView>) {
    (
        match p.title {
            Some(t) => Some(t@),
            None => None,
        },
        match p.detail {
            Some(d) => Some(detail_view(d)),
            None => None,
        },
    )
}

/// The lines of a diff from line `scroll` on.
pub open spec fn hunks_from(diff: Seq<char>, scroll: int) -> Seq<Seq<char>> {
    let ls = lines_of(diff);
    if scroll < ls.len() {
        ls.skip(scroll)
    } else {
        seq![]
    }
}

/// The first of `fs` whose path is `path`.
pub open spec fn file_at(fs: Seq<FileChange>, path: Seq<char>) -> Option<FileChange>
    decreases fs.len(),
{
    if fs.len() == 0 {
        None
    } else if fs[0].path@ == path {
        Some(fs[0])
    } else {
        file_at(fs.drop_first(), path)
    }
}

/// What the detail pane of a pane `height` rows by `width` columns, its
/// border included, shows for the row the lists point at: for a
/// respelling, its old and new path, then the file's diff when the diff is asked
/// for, else the file around the import when the preview holds it, the
/// window centred on the import's line and scrolled; for a changed file,
/// where it moves and its diff; for a notice, what it leaves to the user.
pub open spec fn move_detail_of(mv: MoveMode, height: int, width: int) -> (Option<Seq<char>>, Option<DetailView>) {
    match (mv.spot(), mv.plan) {
        (Some((p, i)), Some(plan)) => match p {
            MovePanel::Respellings => {
                let r = plan.respellings@[i];
                let body = if mv.diff {
                    match file_at(plan.files@, r.path@) {
                        Some(f) => BodyView::Hunks(hunks_from(f.diff@, mv.detail_scroll as int)),
                        None => BodyView::Nothing,
                    }
                } else {
                    match mv.preview {
                        Some(pv) => if pv.path_view() == r.path@ {
                            let rows = less(less(height, 2), 3);
                            let anchor = less(r.line as int, rows / 2);
                            let first = if anchor + mv.detail_scroll < less(line_total(pv), 1) {
                                anchor + mv.detail_scroll
                            } else {
                                less(line_total(pv), 1)
                            };
                            BodyView::Source(
                                window_of(
                                    pv,
                                    first,
                                    rows,
                                    less(width, 2),
                                    Some((r.span.start, r.span.end)),
                                    Some((r.line as usize, r.line as usize)),
                                ),
                            )
                        } else {
                            BodyView::Nothing
                        },
                        None => BodyView::Nothing,
                    }
                };
                (Some(r.path@), Some(DetailView::Respelling(r.from@, r.to@, body)))
            },
            MovePanel::Edits => {
                let f = plan.files@[i];
                (
                    Some(f.path@),
                    Some(DetailView::Edited(
                        f.path@,
                        match f.moved_to {
                            Some(t) => Some(t@),
                            None => None,
                        },
                        hunks_from(f.diff@, mv.detail_scroll as int),
                    )),
                )
            },
            MovePanel::Notices => {
                let n = plan.notices@[i];
                (Some(n.path@), Some(DetailView::Notice(notice_view(n.kind))))
            },
            _ => (None, None),
        },
        _ => (None, None),
    }
}

/// A copy of a notice's kind.
fn copy_notice_kind(k: &NoticeKind) -> (r: NoticeKind)
    ensures
        notice_view(r) == notice_view(*k),
{
    match k {
        NoticeKind::UnrewritableImport { import, replacement } => NoticeKind::UnrewritableImport {
            import: owned(import.as_str()),
            replacement: owned(replacement.as_str()),
        },
        NoticeKind::RedundantImport { import } => NoticeKind::RedundantImport { import: owned(import.as_str()) },
        NoticeKind::Unreachable { item, from, needs } => NoticeKind::Unreachable {
            item: owned(item.as_str()),
            from: owned(from.as_str()),
            needs: *needs,
        },
    }
}

/// The lines of `diff` from line `scroll` on.
fn hunks(diff: &str, scroll: usize) -> (r: Vec<String>)
    ensures
        strings_view(r) == hunks_from(diff@, scroll as int),
{
    let ls = lines(diff);
    let ghost all = strings_view(ls);
    let mut out: Vec<String> = Vec::new();
    let mut k: usize = scroll;
    if k >= ls.len() {
        proof {
            assert(strings_view(out) =~= hunks_from(diff@, scroll as int));
        }
        return out;
    }
    while k < ls.len()
        invariant
            scroll <= k <= ls@.len(),
            all == strings_view(ls),
            all == lines_of(diff@),
            strings_view(out) =~= all.subrange(scroll as int, k as int),
        decreases ls@.len() - k,
    {
        let l = owned(ls[k].as_str());
        let ghost before = strings_view(out);
        out.push(l);
        proof {
            assert(all[k as int] == l@);
            assert(strings_view(out) =~= before.push(l@));
            assert(strings_view(out) =~= all.subrange(scroll as int, k + 1));
        }
        k = k + 1;
    }
    proof {
        assert(strings_view(out) =~= hunks_from(diff@, scroll as int));
    }
    out
}

/// The first of `fs` whose path is `path`.
fn find_file<'a>(fs: &'a Vec<FileChange>, path: &str) -> (r: Option<&'a FileChange>)
    ensures
        match r {
            Some(f) => Some(*f),
            None => None,
        } == file_at(fs@, path@),
{
    let mut i: usize = 0;
    proof {
        assert(fs@.skip(0) =~= fs@);
    }
    while i < fs.len()
        invariant
            0 <= i <= fs@.len(),
            file_at(fs@, path@) == file_at(fs@.skip(i as int), path@),
        decreases fs@.len() - i,
    {
        proof {
            assert(fs@.skip(i as int)[0] == fs@[i as int]);
            assert(fs@.skip(i as int).drop_first() =~= fs@.skip(i + 1));
        }
        if str_eq(fs[i].path.as_str(), path) {
            return Some(&fs[i]);
        }
        i = i + 1;
    }
    None
}

/// What the detail pane shows, for a pane `height` rows by `width` columns
/// with its border.
pub fn move_detail(mv: &MoveMode, height: usize, width: usize) -> (r: MovePane)
    ensures
        move_pane_view(r) == move_detail_of(*mv, height as int, width as int),
{
    let row = match mv.current() {
        Some(row) => row,
        None => {
            return MovePane { title: None, detail: None };
        },
    };
    match row {
        MoveRow::Respelling(r) => {
            let body = if mv.diff {
                let plan = mv.plan.as_ref().unwrap();
                match find_file(&plan.files, r.path.as_str()) {
                    Some(f) => DetailBody::Hunks(hunks(f.diff.as_str(), mv.detail_scroll)),
                    None => DetailBody::Nothing,
                }
            } else {
                match &mv.preview {
                    Some(pv) => if str_eq(pv.path(), r.path.as_str()) {
                        let inner = if height > 2 {
                            height - 2
                        } else {
                            0
                        };
                        let rows = if inner > 3 {
                            inner - 3
                        } else {
                            0
                        };
                        let line = r.line as usize;
                        let anchor = if line > rows / 2 {
                            line - rows / 2
                        } else {
                            0
                        };
                        let count = pv.line_count();
                        let top = if count > 0 {
                            count - 1
                        } else {
                            0
                        };
                        let first = if anchor < top && mv.detail_scroll < top - anchor {
                            anchor + mv.detail_scroll
                        } else {
                            top
                        };
                        let cols = if width > 2 {
                            width - 2
                        } else {
                            0
                        };
                        DetailBody::Source(
                            pv.source_window(first, rows, cols, Some((r.span.start, r.span.end)), Some((line, line))),
                        )
                    } else {
                        DetailBody::Nothing
                    },
                    None => DetailBody::Nothing,
                }
            };
            MovePane {
                title: Some(r.path.clone()),
                detail: Some(MoveDetail::Respelling { from: r.from.clone(), to: r.to.clone(), body }),
            }
        },
        MoveRow::Edited(f) => {
            let moved_to = match &f.moved_to {
                Some(t) => Some(t.clone()),
                None => None,
            };
            MovePane {
                title: Some(f.path.clone()),
                detail: Some(MoveDetail::Edited { from: f.path.clone(), moved_to, hunks: hunks(f.diff.as_str(), mv.detail_scroll) }),
            }
        },
        MoveRow::Notice(n) => MovePane { title: Some(n.path.clone()), detail: Some(MoveDetail::Notice { kind: copy_notice_kind(&n.kind) }) },
    }
}

} // verus!
