use std::collections::BTreeSet;

use vvv::engine::{NoticeKind, Confidence, FileChange, Highlight, HighlightKind, Intent, Match, Notice, Occurrence, Respelling, Role, Span, Symbol};
use vvv::model::{Cursor, Menu, MenuTarget, MovePanel, Panels, RenamePanel, SearchPanel, Status};
use vvv::modes::{FilePreview, HistoryMode, MovePlan, MoveMode, MoveRow, Piece, RenameMode, RenameTarget, Results, RewriteMode};
use vvv::query::{Query, SymbolKind};
use vvv::wording;

fn hit(id: u64, path: &str, text: &str) -> Match {
    Match {
        id,
        path: path.into(),
        span: Span { start: id as usize, end: id as usize + text.len() },
        line: id as u32,
        end_line: id as u32,
        address: None,
        text: text.into(),
        symbol: None,
        role: Role::Use,
    }
}

fn declaration(id: u64, path: &str, name: &str) -> Match {
    Match { symbol: Some(Symbol { name: name.into(), kind: SymbolKind::Struct, modifier: None }), role: Role::Declaration, ..hit(id, path, name) }
}

#[test]
fn a_preview_knows_where_each_line_starts_and_ends() {
    let p = FilePreview::new("a.rs".into(), "ab\r\ncd\n\nz".into(), vec![]);
    assert_eq!(p.line_count(), 4);
    assert_eq!(p.line_span(0), Some((0, 2)), "the line ends before its \\r\\n");
    assert_eq!(p.line_span(1), Some((4, 6)));
    assert_eq!(p.line_span(2), Some((7, 7)));
    assert_eq!(p.line_span(3), Some((8, 9)));
    assert_eq!(p.line_span(4), None);
    assert_eq!(p.text(), "ab\r\ncd\n\nz");
    assert_eq!(p.path(), "a.rs");
    let empty = FilePreview::new("e".into(), String::new(), vec![]);
    assert_eq!(empty.line_count(), 1);
    assert_eq!(empty.line_span(0), Some((0, 0)));
    let multibyte = FilePreview::new("m".into(), "é\nx".into(), vec![]);
    assert_eq!(multibyte.line_span(0), Some((0, 2)), "offsets are bytes");
    assert_eq!(multibyte.line_span(1), Some((3, 4)));
}

#[test]
fn replacing_results_keeps_the_cursor_on_a_row() {
    let mut r = Results::default();
    r.replace(vec![hit(1, "a", "x"), hit(2, "b", "x"), hit(3, "c", "x")]);
    r.cursor.index = 2;
    r.replace(vec![hit(4, "d", "x")]);
    assert_eq!(r.cursor.index, 0);
    assert_eq!(r.current().map(|m| m.id), Some(4));
    r.replace(vec![]);
    assert_eq!(r.cursor.index, 0);
    assert!(r.current().is_none());
}

#[test]
fn a_use_row_belongs_to_the_only_declaration_of_its_name() {
    let mut r = Results::default();
    r.replace(vec![declaration(1, "a.rs", "Foo"), hit(2, "b.rs", "Foo"), declaration(3, "c.rs", "Bar")]);
    assert_eq!(r.declaration_of(&hit(9, "x", "Foo")).map(|d| d.id), Some(1));
    assert_eq!(r.declaration_of(&hit(9, "x", "Baz")).map(|d| d.id), None);
    r.replace(vec![declaration(1, "a.rs", "Foo"), declaration(5, "e.rs", "Foo")]);
    assert_eq!(r.declaration_of(&hit(9, "x", "Foo")), None, "two declarations: neither");
}

#[test]
fn rename_targets_come_from_declarations_or_identifiers() {
    let mut r = Results::default();
    r.replace(vec![declaration(1, "a.rs", "Foo"), hit(2, "b.rs", "bar_2"), hit(3, "c.rs", "a.b"), hit(4, "d.rs", "2x")]);
    assert_eq!(
        r.rename_target(),
        Some(RenameTarget { name: "Foo".into(), symbol: Some(SymbolKind::Struct), declared_in: Some("a.rs".into()) })
    );
    r.cursor.index = 1;
    assert_eq!(r.rename_target(), Some(RenameTarget { name: "bar_2".into(), symbol: None, declared_in: None }));
    r.cursor.index = 2;
    assert_eq!(r.rename_target(), None, "not an identifier");
    r.cursor.index = 3;
    assert_eq!(r.rename_target(), None, "an identifier does not start with a digit");
}

#[test]
fn a_move_plan_lists_what_no_respelling_accounts_for() {
    let respelled = FileChange { path: "a.rs".into(), moved_to: None, edits: vec![Span { start: 1, end: 2 }], diff: String::new() };
    let partly = FileChange {
        path: "b.rs".into(),
        moved_to: None,
        edits: vec![Span { start: 1, end: 2 }, Span { start: 5, end: 6 }],
        diff: String::new(),
    };
    let bare = FileChange { path: "c.rs".into(), moved_to: None, edits: vec![], diff: String::new() };
    let moved = FileChange { path: "d.rs".into(), moved_to: Some("e.rs".into()), edits: vec![Span { start: 0, end: 1 }], diff: String::new() };
    let rs = vec![
        Respelling { path: "a.rs".into(), span: Span { start: 1, end: 2 }, line: 0, column: 0, from: "old".into(), to: "x".into() },
        Respelling { path: "b.rs".into(), span: Span { start: 1, end: 2 }, line: 0, column: 0, from: "old".into(), to: "x".into() },
        Respelling { path: "d.rs".into(), span: Span { start: 0, end: 1 }, line: 0, column: 0, from: "old".into(), to: "x".into() },
    ];
    let plan = MovePlan::new(Intent::Move { from: "d.rs".into(), to: "e.rs".into() }, vec![respelled, partly, bare, moved], rs, vec![]);
    assert_eq!(plan.structural, vec![1, 3], "an unmoved file with no edit is no structural change");
}

#[test]
fn a_move_asks_for_the_trimmed_destination() {
    let mut mv = MoveMode::new("src/a.rs".into(), None);
    assert_eq!(mv.to, "src/a.rs");
    mv.to = "  src/b.rs ".into();
    assert_eq!(mv.intent(), Some(Intent::Move { from: "src/a.rs".into(), to: "src/b.rs".into() }));
    mv.to = "   ".into();
    assert_eq!(mv.intent(), None);
    let mut sym = MoveMode::new("src/a.rs".into(), Some("Foo".into()));
    assert_eq!(sym.to, "");
    sym.to = "src/c.rs".into();
    assert_eq!(sym.intent(), Some(Intent::MoveSymbol { name: "Foo".into(), from: "src/a.rs".into(), to: "src/c.rs".into() }));
}

#[test]
fn the_move_row_follows_the_list_panel() {
    let mut mv = MoveMode::new("src/a.rs".into(), None);
    assert!(mv.current().is_none(), "no plan, no row");
    mv.plan = Some(MovePlan::new(
        Intent::Move { from: "a".into(), to: "b".into() },
        vec![FileChange { path: "m.rs".into(), moved_to: Some("n.rs".into()), edits: vec![], diff: String::new() }],
        vec![Respelling { path: "r.rs".into(), span: Span { start: 0, end: 1 }, line: 7, column: 0, from: "old".into(), to: "x".into() }],
        vec![Notice { path: "n.rs".into(), line: 9, column: 0, kind: NoticeKind::RedundantImport { import: "w".into() } }],
    ));
    assert_eq!(mv.list(), MovePanel::Respellings);
    let row = mv.current().unwrap();
    assert_eq!((row.path().as_str(), row.line()), ("r.rs", 7));
    mv.focus = MovePanel::Edits;
    assert!(matches!(mv.current(), Some(MoveRow::Edited(f)) if f.path == "m.rs"));
    assert_eq!(mv.current().unwrap().line(), 0);
    mv.focus = MovePanel::Notices;
    assert_eq!(mv.current().map(|r| r.line()), Some(9));
    mv.focus = MovePanel::Detail;
    assert_eq!(mv.list(), MovePanel::Respellings, "the detail follows the last list");
    assert_eq!(mv.len(MovePanel::Edits), 1);
    assert_eq!(mv.len(MovePanel::To), 0);
}

#[test]
fn rename_ticks_toggle_and_count_files() {
    let target = RenameTarget { name: "Foo".into(), symbol: None, declared_in: None };
    let mut r = RenameMode::new(target, None);
    r.occurrences = vec![
        Occurrence { m: hit(1, "a.rs", "Foo"), confidence: Confidence::Resolved },
        Occurrence { m: hit(2, "a.rs", "Foo"), confidence: Confidence::Resolved },
        Occurrence { m: hit(3, "b.rs", "Foo"), confidence: Confidence::Unresolved },
        Occurrence { m: hit(4, "c.rs", "Foo"), confidence: Confidence::Other },
    ];
    r.focus = RenamePanel::Sure;
    assert_eq!(r.rows(Confidence::Resolved).len(), 2);
    r.toggle_panel();
    assert_eq!(r.ticks, BTreeSet::from([1, 2]));
    assert_eq!(r.files(), 1, "both in one file");
    r.toggle_panel();
    assert!(r.ticks.is_empty(), "all ticked: all cleared");
    r.toggle();
    assert_eq!(r.ticks, BTreeSet::from([1]));
    r.toggle();
    assert!(r.ticks.is_empty(), "toggled twice: back");
    r.focus = RenamePanel::Other;
    r.toggle();
    r.focus = RenamePanel::Unsure;
    r.toggle();
    assert_eq!(r.files(), 2);
    assert_eq!(r.ticked(Confidence::Other), 1);
    let site = &r.occurrences[0];
    r.changes = vec![
        FileChange { path: "a.rs".into(), moved_to: None, edits: vec![Span { start: 9, end: 10 }], diff: "x".into() },
        FileChange { path: "a.rs".into(), moved_to: None, edits: vec![site.m.span], diff: "y".into() },
    ];
    assert_eq!(r.file(&r.occurrences[0]).map(|f| f.diff.as_str()), Some("y"));
    assert_eq!(r.file(&r.occurrences[2]), None);
}

#[test]
fn rewrite_ticks_every_match_and_clears_them_all() {
    let q = Query { pattern: Some("Foo".into()), kind: None, symbol: None, name: None, language: None };
    let mut rw = RewriteMode::new(q, vec![hit(1, "a.rs", "Foo"), hit(2, "b.rs", "Foo")]);
    assert_eq!(rw.ticks.len(), 2);
    assert_eq!(rw.files(), 2);
    assert_eq!(rw.intent(), None, "blank template");
    rw.toggle_all();
    assert!(rw.ticks.is_empty());
    rw.toggle_all();
    assert_eq!(rw.ticks.len(), 2);
    rw.toggle();
    assert!(!rw.is_ticked(&rw.matches[0].clone()));
    rw.template = " Bar".into();
    assert_eq!(rw.intent().map(|i| i.template), Some(" Bar".into()), "the template as typed");
}

#[test]
fn history_starts_on_the_newest_entry() {
    let e = |id: u64| vvv::engine::HistoryEntry { id, intent: Intent::Move { from: "a".into(), to: "b".into() } };
    let h = HistoryMode::new(vec![e(1), e(2), e(3)]);
    assert_eq!(h.cursor.index, 2);
    assert!(h.is_newest());
    assert_eq!(h.current().map(|x| x.id), Some(3));
    let empty = HistoryMode::new(vec![]);
    assert_eq!(empty.cursor.index, 0);
    assert!(!empty.is_newest());
    assert!(empty.current().is_none());
}

#[test]
fn cursors_stay_on_rows() {
    let mut c = Cursor { index: 3 };
    c.move_by(10, 5);
    assert_eq!(c.index, 4);
    c.move_by(-100, 5);
    assert_eq!(c.index, 0);
    c.move_by(1, 0);
    assert_eq!(c.index, 0);
    c.move_by(0, 5);
    assert_eq!(c.index, 0, "a zero move stays");
    let mut d = Cursor { index: 9 };
    d.clamp(3);
    assert_eq!(d.index, 2);
    d.clamp(0);
    assert_eq!(d.index, 0);
}

#[test]
fn panels_wrap_both_ways() {
    assert_eq!(SearchPanel::Context.next(), SearchPanel::Query);
    assert_eq!(SearchPanel::Query.prev(), SearchPanel::Context);
    assert_eq!(SearchPanel::Results.step(1), SearchPanel::Context);
    assert_eq!(SearchPanel::Results.step(-1), SearchPanel::Query);
    assert_eq!(RenamePanel::nth(5), Some(RenamePanel::Detail));
    assert_eq!(RenamePanel::nth(0), None);
    assert_eq!(MovePanel::nth(6), None);
    assert_eq!(MovePanel::Notices.index(), 3);
    assert_eq!(RenamePanel::Sure.slot(), Some(1));
    assert_eq!(MovePanel::Edits.slot(), Some(1));
    assert_eq!(MovePanel::To.slot(), None);
    assert_eq!(RenamePanel::Other.confidence(), Some(Confidence::Other));
}

#[test]
fn a_menu_preselects_the_current_value() {
    let menu = Menu::new(MenuTarget::Language, vec!["rust".into(), "typescript".into()], Some("typescript"));
    assert_eq!(menu.items.len(), 3);
    assert_eq!(menu.items[0].label, "any");
    assert_eq!(menu.items[0].value, None);
    assert_eq!(menu.cursor, 2);
    assert_eq!(menu.title(), "language");
    let none = Menu::new(MenuTarget::Symbol, vec!["a".into()], Some("zzz"));
    assert_eq!(none.cursor, 0, "no such value: any");
    let mut m = none.clone();
    m.move_cursor(5);
    assert_eq!(m.cursor, 1);
    m.move_cursor(-5);
    assert_eq!(m.cursor, 0);
}

#[test]
fn the_status_keeps_its_busy_flag() {
    let mut s = Status::default();
    s.busy = true;
    s.info("hi".into());
    assert!(s.busy);
    assert_eq!(s.message.as_ref().map(|m| m.1.as_str()), Some("hi"));
    s.clear();
    assert_eq!(s.message, None);
}

#[test]
fn numbers_and_messages_read_as_written() {
    assert_eq!(wording::decimal(0), "0");
    assert_eq!(wording::decimal(1070), "1070");
    assert_eq!(wording::decimal(u64::MAX), "18446744073709551615");
    assert_eq!(wording::apply_ticked(3, 1), "apply 3 in 1 file");
    assert_eq!(wording::apply_ticked(4, 2), "apply 4 in 2 files");
    assert_eq!(wording::apply_files(0), "apply 0 files");
    assert_eq!(wording::undo_entry(12), "undo #12");
    let i = Intent::Move { from: "a.rs".into(), to: "b.rs".into() };
    assert_eq!(wording::applied(3, &i), "✓ #3  move a.rs → b.rs  ·  u undoes it");
    assert_eq!(wording::undone(3, &i), "↩ #3  move a.rs → b.rs");
    assert_eq!(wording::question(3, &i), "↩ #3  move a.rs → b.rs?");
    assert_eq!(wording::skipped(&vec!["rust".into(), "tsx".into()]), "rust, tsx skipped: the pattern does not parse there");
}

fn piece(text: &str, kind: Option<HighlightKind>, hit: bool) -> Piece {
    Piece { text: text.to_owned(), kind, hit }
}

#[test]
fn a_source_line_is_cut_where_its_colours_and_the_hit_change() {
    let highlights = vec![
        Highlight { span: Span { start: 0, end: 3 }, kind: HighlightKind::Keyword },
        Highlight { span: Span { start: 8, end: 9 }, kind: HighlightKind::Number },
    ];
    let p = FilePreview::new("a.rs".into(), "let x = 1;\nfn f() {}\n".into(), highlights);
    assert_eq!(
        p.line_pieces(0, Some((4, 5)), 80),
        [
            piece("let", Some(HighlightKind::Keyword), false),
            piece(" ", None, false),
            piece("x", None, true),
            piece(" = ", None, false),
            piece("1", Some(HighlightKind::Number), false),
            piece(";", None, false),
        ]
    );
    assert_eq!(
        p.line_pieces(0, Some((4, 5)), 5),
        [
            piece("let", Some(HighlightKind::Keyword), false),
            piece(" ", None, false),
            piece("x", None, true),
            piece("…", None, false),
        ]
    );
    assert_eq!(p.line_pieces(1, None, 80), [piece("fn f() {}", None, false)]);
    assert!(p.line_pieces(7, None, 80).is_empty());
}

#[test]
fn a_move_file_is_labelled_by_its_destination_or_its_first_change() {
    let moved = FileChange { path: "src/a.rs".into(), moved_to: Some("src/b.rs".into()), edits: vec![], diff: String::new() };
    let edited = FileChange {
        path: "src/c.rs".into(),
        moved_to: None,
        edits: vec![],
        diff: "--- a/src/c.rs\n+++ b/src/c.rs\n@@ -1 +1 @@\n-use crate::a::X;  \n+use crate::b::X;\n".into(),
    };
    let plan = MovePlan::new(Intent::Move { from: "src/a.rs".into(), to: "src/b.rs".into() }, vec![moved, edited], vec![], vec![]);
    assert_eq!(plan.structural_label(0), "src/a.rs → src/b.rs");
    assert_eq!(plan.structural_label(1), "src/c.rs  - use crate::a::X;");
}
