use vvv::engine::{NoticeKind, FileChange, Highlight, HighlightKind, Intent, Match, Notice, Respelling, Role, Span, Symbol};
use vvv::model::MovePanel;
use vvv::modes::{FilePreview, MoveMode, MovePlan, Piece, RenameMode, RenameTarget, SourceRow};
use vvv::picker::Model;
use vvv::query::SymbolKind;
use vvv::screen::moving::{move_detail, DetailBody, MoveDetail, MovePane};
use vvv::screen::rename::{rename_header, Declared, RenameHeader};
use vvv::screen::search::{search_context, ContextCard, ContextPane};
use vvv::text::lines;

fn piece(text: &str, kind: Option<HighlightKind>, hit: bool) -> Piece {
    Piece { text: text.to_owned(), kind, hit }
}

fn row(number: usize, marked: bool, pieces: Vec<Piece>) -> SourceRow {
    SourceRow { number, marked, pieces }
}

fn found(id: u64, path: &str, line: u32, text: &str, start: usize) -> Match {
    Match {
        id,
        path: path.into(),
        span: Span { start, end: start + text.len() },
        line,
        end_line: line,
        address: None,
        text: text.into(),
        symbol: None,
        role: Role::Use,
    }
}

fn declared(id: u64, path: &str, line: u32, name: &str, start: usize) -> Match {
    Match { symbol: Some(Symbol { name: name.into(), kind: SymbolKind::Struct, modifier: None }), role: Role::Declaration, ..found(id, path, line, name, start) }
}

#[test]
fn lines_split_as_str_lines_does() {
    assert_eq!(lines("x\r\ny\n\nz"), ["x", "y", "", "z"]);
    assert_eq!(lines("a\n"), ["a"]);
    assert!(lines("").is_empty());
    assert_eq!(lines("a\r"), ["a\r"], "a last line keeps a bare \\r");
}

#[test]
fn a_source_window_numbers_marks_and_cuts_its_lines() {
    let highlights = vec![Highlight { span: Span { start: 4, end: 5 }, kind: HighlightKind::Keyword }];
    let p = FilePreview::new("a.rs".into(), "a\nb\nc\nd".into(), highlights);
    assert_eq!(
        p.source_window(1, 2, 20, Some((2, 3)), Some((1, 1))),
        [row(2, true, vec![piece("b", None, true)]), row(3, false, vec![piece("c", Some(HighlightKind::Keyword), false)])]
    );
    assert_eq!(p.source_window(3, 5, 20, None, None), [row(4, false, vec![piece("d", None, false)])], "lines past the end are left out");
    assert!(p.source_window(9, 5, 20, None, None).is_empty());
    assert_eq!(
        p.source_window(0, 1, 9, None, None),
        [row(1, false, vec![piece("a", None, false)])],
        "one column is left after the gutter"
    );
    assert_eq!(p.source_window(0, 1, 8, None, None), [row(1, false, vec![piece("…", None, false)])]);
}

fn searched(matches: Vec<Match>, cursor: usize) -> Model {
    let mut m = Model::new("/p".into(), vec!["rust".into()]);
    m.search.results.replace(matches);
    m.search.results.cursor.index = cursor;
    m
}

#[test]
fn the_context_of_a_declaration_counts_its_uses_then_shows_its_file() {
    let text = "a\nb\nc\nd\ne\nf\ng\nstruct Foo;\ni\nj";
    let mut m = searched(
        vec![declared(1, "a.rs", 7, "Foo", 21), found(2, "b.rs", 0, "Foo", 0), found(3, "c.rs", 4, "Foo", 9), found(4, "c.rs", 5, "Bar", 9)],
        0,
    );
    m.search.preview = Some(FilePreview::new("a.rs".into(), text.into(), vec![]));
    let c = search_context(&m, 7, 30);
    assert_eq!(c.title.as_deref(), Some("a.rs"));
    assert_eq!(
        c.card,
        Some(ContextCard::Declaration {
            kind: SymbolKind::Struct,
            name: "Foo".into(),
            modifier: None,
            address: None,
            uses: vec!["b.rs".into(), "c.rs".into()],
        })
    );
    // Five rows inside the border, three for the card: two source lines
    // from the anchor, five lines above the row.
    assert_eq!(c.source, [row(3, false, vec![piece("c", None, false)]), row(4, false, vec![piece("d", None, false)])]);
    m.search.preview_scroll = Some(7);
    let c = search_context(&m, 7, 30);
    assert_eq!(
        c.source,
        [
            row(8, true, vec![piece("struct ", None, false), piece("Foo", None, true), piece(";", None, false)]),
            row(9, false, vec![piece("i", None, false)]),
        ]
    );
}

#[test]
fn the_context_of_a_use_names_its_declaration() {
    let mut m = searched(vec![declared(1, "a.rs", 7, "Foo", 14), found(2, "b.rs", 0, "Foo", 0)], 1);
    m.search.preview = Some(FilePreview::new("a.rs".into(), "x".into(), vec![]));
    let c = search_context(&m, 10, 30);
    assert_eq!(
        c,
        ContextPane {
            title: Some("b.rs".into()),
            card: Some(ContextCard::Use { kind: SymbolKind::Struct, name: "Foo".into(), address: None, path: "a.rs".into(), line: 8 }),
            source: vec![],
        },
        "the preview holds another file: no source"
    );
    let alone = searched(vec![found(2, "b.rs", 0, "Foo", 0)], 0);
    assert_eq!(search_context(&alone, 10, 30).card, None);
    let empty = searched(vec![], 0);
    assert_eq!(search_context(&empty, 10, 30), ContextPane { title: None, card: None, source: vec![] });
}

fn planned() -> MoveMode {
    let mut mv = MoveMode::new("src/a.rs".into(), None);
    mv.plan = Some(MovePlan::new(
        Intent::Move { from: "src/a.rs".into(), to: "src/b.rs".into() },
        vec![
            FileChange { path: "r.rs".into(), moved_to: None, edits: vec![Span { start: 8, end: 9 }], diff: "@@ -1 +1 @@\n-use a;\n+use b;\n".into() },
            FileChange { path: "src/a.rs".into(), moved_to: Some("src/b.rs".into()), edits: vec![], diff: "renamed\n".into() },
        ],
        vec![Respelling { path: "r.rs".into(), span: Span { start: 8, end: 9 }, line: 2, column: 0, from: "old".into(), to: "crate::b".into() }],
        vec![Notice { path: "n.rs".into(), line: 9, column: 0, kind: NoticeKind::RedundantImport { import: "crate::a::B".into() } }],
    ));
    mv
}

#[test]
fn the_move_detail_shows_the_row_the_lists_point_at() {
    let mut mv = planned();
    assert_eq!(
        move_detail(&mv, 20, 40),
        MovePane { title: Some("r.rs".into()), detail: Some(MoveDetail::Respelling { from: "old".into(), to: "crate::b".into(), body: DetailBody::Nothing }) },
        "no preview of the file yet"
    );
    mv.preview = Some(FilePreview::new("r.rs".into(), "a\nb\nuse a;\nd".into(), vec![]));
    // Seven rows under the three of the respelling: the window starts three
    // lines above the import, so at the first line.
    assert_eq!(
        move_detail(&mv, 12, 40).detail,
        Some(MoveDetail::Respelling {
            from: "old".into(),
            to: "crate::b".into(),
            body: DetailBody::Source(vec![
                row(1, false, vec![piece("a", None, false)]),
                row(2, false, vec![piece("b", None, false)]),
                row(3, true, vec![piece("use ", None, false), piece("a", None, true), piece(";", None, false)]),
                row(4, false, vec![piece("d", None, false)]),
            ]),
        })
    );
    mv.diff = true;
    mv.detail_scroll = 1;
    assert_eq!(
        move_detail(&mv, 12, 40).detail,
        Some(MoveDetail::Respelling { from: "old".into(), to: "crate::b".into(), body: DetailBody::Hunks(vec!["-use a;".into(), "+use b;".into()]) })
    );
    mv.focus = MovePanel::Edits;
    mv.detail_scroll = 0;
    assert_eq!(
        move_detail(&mv, 12, 40),
        MovePane {
            title: Some("src/a.rs".into()),
            detail: Some(MoveDetail::Edited { from: "src/a.rs".into(), moved_to: Some("src/b.rs".into()), hunks: vec!["renamed".into()] }),
        }
    );
    mv.focus = MovePanel::Notices;
    assert_eq!(move_detail(&mv, 12, 40).detail, Some(MoveDetail::Notice { kind: NoticeKind::RedundantImport { import: "crate::a::B".into() } }));
    assert_eq!(move_detail(&MoveMode::new("x".into(), None), 12, 40), MovePane { title: None, detail: None });
}

#[test]
fn the_rename_header_counts_verdicts_and_names_the_declaration() {
    let target = RenameTarget { name: "Foo".into(), symbol: Some(SymbolKind::Struct), declared_in: None };
    let mut r = RenameMode::new(target, None);
    let h = rename_header(&r);
    assert_eq!(
        h,
        RenameHeader {
            focused: true,
            kind: Some(SymbolKind::Struct),
            name: "Foo".into(),
            new_name: None,
            resolved: 0,
            unresolved: 0,
            other: 0,
            declared: Declared::Waiting,
            error: None,
        }
    );
    r.busy = false;
    r.name = "Bar".into();
    r.error = Some("taken".into());
    r.declarations = vec![declared(1, "a.rs", 3, "Foo", 0), declared(2, "b.rs", 5, "Foo", 0)];
    let h = rename_header(&r);
    assert_eq!(h.new_name.as_deref(), Some("Bar"));
    assert_eq!(h.declared, Declared::At { address: None, path: "a.rs".into(), line: 4, more: 1 });
    assert_eq!(h.error.as_deref(), Some("taken"));
    r.declarations.clear();
    assert_eq!(rename_header(&r).declared, Declared::ByName);
    r.busy = true;
    assert_eq!(rename_header(&r).declared, Declared::Waiting);
}

#[test]
fn the_context_shows_the_address_and_modifier_and_marks_every_line_of_the_row() {
    let mut d = declared(1, "a.rs", 1, "Foo", 2);
    d.end_line = 2;
    d.address = Some("crate::a".into());
    d.symbol = Some(Symbol { name: "Foo".into(), kind: SymbolKind::Struct, modifier: Some("pub".into()) });
    let mut m = searched(vec![d, found(2, "b.rs", 0, "Foo", 0)], 0);
    m.search.preview = Some(FilePreview::new("a.rs".into(), "a\nb\nc\nd".into(), vec![]));
    let c = search_context(&m, 20, 30);
    assert_eq!(
        c.card,
        Some(ContextCard::Declaration {
            kind: SymbolKind::Struct,
            name: "Foo".into(),
            modifier: Some("pub".into()),
            address: Some("crate::a".into()),
            uses: vec!["b.rs".into()],
        })
    );
    let marked: Vec<usize> = c.source.iter().filter(|r| r.marked).map(|r| r.number).collect();
    assert_eq!(marked, [2, 3]);
    m.search.results.cursor.index = 1;
    assert_eq!(
        search_context(&m, 20, 30).card,
        Some(ContextCard::Use {
            kind: SymbolKind::Struct,
            name: "Foo".into(),
            address: Some("crate::a".into()),
            path: "a.rs".into(),
            line: 2,
        })
    );
}
