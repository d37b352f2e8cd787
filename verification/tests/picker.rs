use vvv::action::{Action, Effect, Event, Planned};
use vvv::engine::{
    NoticeKind, Confidence, FileChange, HistoryEntry, Intent, Match, Notice, Occurrence, RenameIntent, Report,
    Respelling, Role, Selection, Site, Span, Symbol,
};
use vvv::keymap::Dispatch;
use vvv::keys::Key;
use vvv::model::{Level, MenuTarget, MovePanel, RenamePanel, ReportView, RewritePanel, SearchPanel};
use vvv::picker::{Mode, Model, Overlay};
use vvv::query::{Filter, SymbolKind};
use vvv::rust::facts::ReachKind;

fn model() -> Model {
    Model::new("~/dev/nx".into(), vec!["rust".into(), "typescript".into()])
}

/// A hit on `text` at `line`:`col` of `path`, whose line reads `source_line`.
fn m(path: &str, line: u32, col: usize, text: &str, source_line: &str) -> Match {
    let trimmed = source_line.trim_start();
    Match {
        id: line as u64 * 1000 + col as u64,
        path: path.into(),
        span: Span { start: col, end: col + text.len() },
        line,
        end_line: line,
        address: None,
        text: text.into(),
        symbol: None,
        role: if trimmed.starts_with("use ") || trimmed.starts_with("pub use ") {
            Role::Import
        } else {
            Role::Use
        },
    }
}

/// The same match at byte offset `start`.
fn at(mut m: Match, start: usize) -> Match {
    m.span = Span { start, end: start + m.text.len() };
    m
}

fn decl(path: &str, line: u32, kind: SymbolKind, name: &str, source_line: &str) -> Match {
    let mut d = m(path, line, 0, source_line, source_line);
    d.symbol = Some(Symbol { name: name.into(), kind, modifier: None });
    d.role = Role::Declaration;
    d
}

fn search_matches() -> Vec<Match> {
    vec![
        decl("src/lang/mod.rs", 63, SymbolKind::Trait, "Language", "pub trait Language: Send + Sync {"),
        m("src/lang/registry.rs", 3, 12, "Language", "use super::{Language, LanguageId};"),
        m("src/lib.rs", 25, 15, "Language", "pub use lang::{Language, LanguageId};"),
        m("src/lib.rs", 40, 4, "Language", "    Language::new()"),
    ]
}

fn preview(path: &str, lines: &[&str]) -> Event {
    Event::Previewed { path: path.into(), text: lines.join("\n"), highlights: vec![] }
}

/// Lines `1..=n`, each `// line k` except the given overrides.
fn numbered(n: usize, overrides: &[(usize, &str)]) -> Vec<String> {
    (1..=n)
        .map(|k| {
            overrides
                .iter()
                .find(|(line, _)| *line == k)
                .map_or_else(|| format!("// line {k}"), |(_, text)| (*text).to_owned())
        })
        .collect()
}

fn typed(model: &mut Model, text: &str) -> Vec<Effect> {
    text.chars().flat_map(|c| model.update(Action::Input(c))).collect()
}

fn generation_of(effects: &[Effect]) -> u64 {
    match effects.last() {
        Some(Effect::Search { generation, .. } | Effect::Plan { generation, .. }) => *generation,
        other => panic!("expected a search or a plan, got {other:?}"),
    }
}

/// A model showing the search's matches, as if the engine answered, with
/// the declaration's file previewed.
fn searched() -> Model {
    let mut m = model();
    let effects = typed(&mut m, "Language");
    m.on_event(Event::Searched { generation: generation_of(&effects), matches: search_matches(), skipped: vec![] });
    let lines = numbered(70, &[(64, "pub trait Language: Send + Sync {")]);
    let refs: Vec<&str> = lines.iter().map(String::as_str).collect();
    m.on_event(preview("src/lang/mod.rs", &refs));
    m
}

fn occurrences() -> Vec<Occurrence> {
    vec![
        Occurrence {
            m: m("src/lang/mod.rs", 63, 10, "Language", "pub trait Language: Send + Sync {"),
            confidence: Confidence::Resolved,
        },
        Occurrence {
            m: m("src/lib.rs", 25, 15, "Language", "pub use lang::{Language, LanguageId};"),
            confidence: Confidence::Resolved,
        },
        Occurrence {
            m: at(m("src/other.rs", 12, 9, "Language", "    vvv::Language::default()"), 300),
            confidence: Confidence::Resolved,
        },
        Occurrence {
            m: at(m("src/other.rs", 9, 4, "Language", "    Language::new()"), 200),
            confidence: Confidence::Unresolved,
        },
    ]
}

/// One file's change: the edits of its sure sites, and a diff.
fn change(path: &str, edits: Vec<Span>) -> FileChange {
    FileChange { path: path.into(), moved_to: None, edits, diff: format!("--- {path}\n+++ {path}\n") }
}

/// The plan a `Language → Lang` rename answers with.
fn rename_plan() -> Planned {
    let os = occurrences();
    let files = ["src/lang/mod.rs", "src/lib.rs", "src/other.rs"]
        .iter()
        .map(|path| {
            let edits = os
                .iter()
                .filter(|o| o.m.path == *path && o.confidence == Confidence::Resolved)
                .map(|o| o.m.span)
                .collect();
            change(path, edits)
        })
        .collect();
    Planned::Rename {
        declarations: vec![decl("src/lang/mod.rs", 63, SymbolKind::Trait, "Language", "pub trait Language: Send + Sync {")],
        occurrences: os,
        files,
    }
}

/// `searched()`, then `r` on the declaration and the judge's answer.
fn renaming() -> Model {
    let mut m = searched();
    let effects = m.update(Action::Rename);
    m.on_event(Event::Planned { generation: generation_of(&effects), planned: rename_plan() });
    m
}

fn moved_file(path: &str, moved_to: Option<&str>) -> FileChange {
    FileChange {
        path: path.into(),
        moved_to: moved_to.map(String::from),
        edits: vec![Span { start: 0, end: 1 }],
        diff: String::new(),
    }
}

fn move_plan() -> Planned {
    Planned::Move {
        intent: Intent::Move { from: "src/util/parse.rs".into(), to: "src/net/parse.rs".into() },
        respellings: vec![
            Respelling {
                path: "src/lib.rs".into(),
                span: Span { start: 0, end: 1 },
                line: 0,
                column: 4,
                from: "crate::util::parse::X".into(),
                to: "crate::net::parse::X".into(),
            },
            Respelling {
                path: "src/main.rs".into(),
                span: Span { start: 0, end: 1 },
                line: 6,
                column: 4,
                from: "crate::util::parse::{Config, X}".into(),
                to: "crate::net::parse::{Config, X}".into(),
            },
        ],
        notices: vec![
            Notice {
                path: "src/net.rs".into(),
                line: 2,
                column: 18,
                kind: NoticeKind::UnrewritableImport {
                    import: "crate::util::parse::Config".into(),
                    replacement: "crate::net::parse::Config".into(),
                },
            },
            Notice {
                path: "src/lib.rs".into(),
                line: 1,
                column: 4,
                kind: NoticeKind::Unreachable { item: "net".into(), from: "cli".into(), needs: ReachKind::Everyone },
            },
        ],
        files: vec![
            moved_file("src/lib.rs", None),
            moved_file("src/main.rs", None),
            moved_file("src/util/mod.rs", None),
            moved_file("src/util/parse.rs", Some("src/net/parse.rs")),
        ],
    }
}

/// `searched()`, then `m` on the row and a destination that plans.
fn moving() -> Model {
    let mut m = searched();
    let effects = m.update(Action::MoveFile);
    m.on_event(Event::Planned { generation: generation_of(&effects), planned: move_plan() });
    m
}

fn rewrite_files() -> Vec<FileChange> {
    ["src/lang/mod.rs", "src/lang/registry.rs", "src/lib.rs"]
        .iter()
        .map(|path| {
            let edits = search_matches().iter().filter(|m| m.path == *path).map(|m| m.span).collect();
            change(path, edits)
        })
        .collect()
}

/// `searched()`, then `w`, a template, and the plan's diff.
fn rewriting() -> Model {
    let mut m = searched();
    m.update(Action::Rewrite);
    let effects = typed(&mut m, "Lang");
    m.on_event(Event::Planned { generation: generation_of(&effects), planned: Planned::Rewrite { files: rewrite_files() } });
    m
}

fn rename_intent(name: &str, to: &str) -> Intent {
    Intent::Rename(RenameIntent {
        name: name.into(),
        to: to.into(),
        symbol: None,
        language: None,
        declared_in: None,
        selection: Selection::All,
    })
}

fn history_entry(id: u64) -> HistoryEntry {
    HistoryEntry { id, intent: rename_intent("Config", "Settings") }
}

// ------------------------------------------------------------------ search

#[test]
fn typing_requests_a_search_with_a_fresh_generation_each_time() {
    let mut m = model();
    let first = typed(&mut m, "L");
    let second = typed(&mut m, "a");
    assert_eq!(generation_of(&first) + 1, generation_of(&second));
    assert!(m.status.busy);
}

#[test]
fn stale_search_results_are_ignored() {
    let mut m = model();
    let effects = typed(&mut m, "La");
    let generation = generation_of(&effects);
    m.on_event(Event::Searched { generation: generation - 1, matches: search_matches(), skipped: vec![] });
    assert!(m.search.results.matches.is_empty(), "older generation dropped");
    m.on_event(Event::Searched { generation, matches: search_matches(), skipped: vec![] });
    assert_eq!(m.search.results.matches.len(), 4);
    assert!(!m.status.busy);
}

#[test]
fn bad_filters_show_an_error_instead_of_searching() {
    let mut m = model();
    typed(&mut m, "s:nop");
    let effects = m.update(Action::Input('e'));
    assert!(effects.is_empty(), "{effects:?}");
    assert!(matches!(&m.status.message, Some((Level::Error, _))));
}

#[test]
fn keys_depend_on_the_focused_panel() {
    let mut m = searched();
    assert_eq!(m.search.focus, SearchPanel::Query);
    assert_eq!(m.action_for(Key::char('j')), Some(Action::Input('j')));
    assert_eq!(m.action_for(Key::tab()), Some(Action::FocusNext));
    assert_eq!(m.action_for(Key::ctrl('r')), None, "no control key is a mode accelerator");
    assert_eq!(m.action_for(Key::ctrl('n')), Some(Action::Move(1)), "walk the results without leaving the query");
    assert_eq!(m.action_for(Key::ctrl('p')), Some(Action::Move(-1)));
    assert_eq!(m.action_for(Key::char('?')), Some(Action::Input('?')), "a printable key types, even first");
    assert_eq!(m.action_for(Key::char('v')), Some(Action::Input('v')), "the view toggle is a list key, not a query one");
    assert_eq!(m.action_for(Key::char('2')), Some(Action::Input('2')), "digits are text in an input");

    m.update(Action::Enter);
    assert_eq!(m.search.focus, SearchPanel::Results);
    assert_eq!(m.action_for(Key::char('j')), Some(Action::Move(1)));
    assert_eq!(m.action_for(Key::char('r')), Some(Action::Rename));
    assert_eq!(m.action_for(Key::char('M')), Some(Action::MoveSymbol));
    assert_eq!(m.action_for(Key::char('3')), Some(Action::FocusNth(3)));
    assert_eq!(m.action_for(Key::char('e')), Some(Action::Edit));
    assert_eq!(m.action_for(Key::char('v')), Some(Action::View));

    m.update(Action::FocusNth(3));
    assert_eq!(m.search.focus, SearchPanel::Context);
    assert_eq!(m.action_for(Key::char('j')), Some(Action::Scroll(1)));
    m.update(Action::FocusNext);
    assert_eq!(m.search.focus, SearchPanel::Query, "tab wraps");
}

#[test]
fn globals_outrank_an_overlay_and_a_mode_outranks_its_panels() {
    // A mode's own key beats the default its panel kind would answer.
    let mut m = searched();
    m.on_event(Event::History(vec![history_entry(1)]));
    m.update(Action::FocusNext);
    assert_eq!(m.action_for(Key::char('u')), Some(Action::Undo), "the mode's `u` beats the text panel's scroll");
    assert_eq!(m.action_for(Key::char('d')), Some(Action::Scroll(20)), "the text default still answers what the mode does not");

    // A confirmation captures the rest, but the globals are checked first.
    m.update(Action::Undo);
    assert!(matches!(m.overlay, Some(Overlay::Confirm(_))));
    assert_eq!(m.action_for(Key::char('n')), Some(Action::Back));
    assert_eq!(m.action_for(Key::ctrl('c')), Some(Action::Quit));
    assert_eq!(m.action_for(Key::tab()), Some(Action::Back), "the overlay's catch-all takes the rest");

    // An identifier cannot hold `?`, so it opens the key list.
    let r = renaming();
    assert_eq!(r.action_for(Key::char('?')), Some(Action::Help));
}

#[test]
fn a_condition_picks_between_rows_of_one_key() {
    let mut m = searched();
    assert_eq!(m.search.focus, SearchPanel::Query);
    // The query holds "Language", so `esc` clears.
    assert_eq!(m.action_for(Key::esc()), Some(Action::Clear));

    // Empty, `esc` quits; `?` types: the query has no help key.
    m.update(Action::Clear);
    assert!(m.search.query.is_empty());
    assert_eq!(m.action_for(Key::esc()), Some(Action::Quit));
    assert_eq!(m.action_for(Key::char('?')), Some(Action::Input('?')));
}

#[test]
fn moving_the_cursor_asks_for_the_row_file_once() {
    let mut m = searched();
    m.update(Action::Enter);
    // Row 0 is the declaration in src/lang/mod.rs, already previewed.
    assert!(m.update(Action::Move(0)).is_empty());
    let effects = m.update(Action::Move(1));
    assert!(matches!(&effects[..], [Effect::Preview { path }] if path.ends_with("registry.rs")), "{effects:?}");
    let effects = m.update(Action::Move(1));
    assert!(matches!(&effects[..], [Effect::Preview { path }] if path.ends_with("lib.rs")), "a third file");
    m.on_event(preview("src/lib.rs", &["a"]));
    assert!(m.update(Action::Move(1)).is_empty(), "same file, already shown");
}

#[test]
fn symbol_menu_writes_a_filter_into_the_query() {
    let mut m = searched();
    m.update(Action::OpenMenu(MenuTarget::Symbol));
    let Some(Overlay::Menu(menu)) = &m.overlay else {
        panic!("{:?}", m.overlay)
    };
    assert_eq!(menu.cursor, 0, "no filter yet");
    m.update(Action::Move(3));
    let effects = m.update(Action::MenuChoose);
    assert!(m.overlay.is_none());
    assert_eq!(m.search.query.filter(Filter::Symbol), Some("struct"));
    assert!(matches!(effects.last(), Some(Effect::Search { .. })));
    m.update(Action::OpenMenu(MenuTarget::Symbol));
    let Some(Overlay::Menu(menu)) = &m.overlay else { panic!() };
    assert_eq!(menu.current().value.as_deref(), Some("struct"), "preselected");
}

#[test]
fn edit_opens_the_editor_at_the_row() {
    let mut m = searched();
    m.update(Action::Enter);
    let effects = m.update(Action::Edit);
    assert!(
        matches!(&effects[..], [Effect::Edit { path, line }] if path.ends_with("mod.rs") && *line == 63),
        "{effects:?}"
    );
}

// ------------------------------------------------------------------ rename

#[test]
fn a_mode_is_drawn_only_once_its_first_plan_answers() {
    let mut m = searched();
    let effects = m.update(Action::Rename);
    assert!(matches!(&effects[..], [Effect::Plan { debounce: false, .. }]));
    assert!(matches!(m.mode, Mode::Rename(_)), "keys already go to it");
    assert!(m.shown_is_search(), "the screen waits for something to show");

    let m = renaming();
    assert!(!m.arriving);
    assert!(!m.shown_is_search());
    assert!(matches!(m.mode, Mode::Rename(_)));

    let mut m = searched();
    m.update(Action::Rename);
    m.update(Action::Back);
    assert!(!m.arriving && matches!(m.mode, Mode::Search));
}

#[test]
fn rename_judges_with_the_name_unchanged_and_starts_where_judgment_is_needed() {
    let mut m = searched();
    let effects = m.update(Action::Rename);
    match &effects[..] {
        [Effect::Plan { intent: Intent::Rename(i), .. }] => {
            assert_eq!((i.name.as_str(), i.to.as_str()), ("Language", "Language"));
            assert_eq!(i.declared_in.as_deref(), Some("src/lang/mod.rs"));
        }
        other => panic!("{other:?}"),
    }
    let m = renaming();
    let Mode::Rename(r) = &m.mode else { panic!() };
    assert_eq!(r.focus, RenamePanel::Name);
    assert_eq!(r.list(), RenamePanel::Unsure, "the detail follows `?` first");
    assert_eq!(r.ticks.len(), 3, "the engine's default: what its plan edits, the re-export included");
    assert!(!r.busy);
}

#[test]
fn rename_ticks_feed_the_commit_and_the_name_follows_typing() {
    let mut m = renaming();
    let effects = typed(&mut m, "LangX");
    m.on_event(Event::Planned { generation: generation_of(&effects), planned: rename_plan() });
    let Mode::Rename(r) = &m.mode else { panic!() };
    assert_eq!(r.name, "LangX");
    let unsure = r.current().unwrap();
    assert!(!r.is_ticked(unsure), "unsure rows start unticked here");

    m.update(Action::FocusNth(2));
    m.update(Action::Toggle);
    let Mode::Rename(r) = &m.mode else { panic!() };
    assert_eq!(r.ticked(Confidence::Unresolved), 1);
    assert_eq!(r.cursor(RenamePanel::Unsure).unwrap().index, 0, "toggle stays on the last row");
    m.update(Action::ToggleAll);
    let Mode::Rename(r) = &m.mode else { panic!() };
    assert_eq!(r.ticked(Confidence::Unresolved), 0, "`a` on a fully ticked panel clears it");
    m.update(Action::ToggleAll);
    let Mode::Rename(r) = &m.mode else { panic!() };
    assert_eq!(r.ticked(Confidence::Unresolved), 1);
    let ticks = r.ticks.clone();

    let effects = m.update(Action::Enter);
    match &effects[..] {
        [Effect::Commit { intent: Intent::Rename(i) }] => {
            assert_eq!(i.to, "LangX");
            assert_eq!(i.selection, Selection::Ids(ticks));
        }
        other => panic!("{other:?}"),
    }
}

#[test]
fn rename_refuses_to_commit_without_a_new_name() {
    let mut m = renaming();
    assert!(m.update(Action::Enter).is_empty());
    assert!(matches!(&m.status.message, Some((Level::Error, _))));
}

#[test]
fn esc_returns_to_search_with_the_rows_intact() {
    let mut m = renaming();
    m.update(Action::Back);
    assert!(matches!(m.mode, Mode::Search));
    assert_eq!(m.search.results.matches.len(), 4);
    assert_eq!(m.search.query.text(), "Language");
}

// ------------------------------------------------------------------ move

#[test]
fn move_plans_as_the_destination_changes_and_commits_the_plan() {
    let mut m = searched();
    let effects = m.update(Action::MoveFile);
    let first = generation_of(&effects);
    assert!(matches!(&effects[..], [Effect::Plan { intent: Intent::Move { .. }, .. }]));
    let effects = typed(&mut m, "x");
    assert_eq!(generation_of(&effects), first + 1, "every keystroke re-plans");
    m.on_event(Event::PlanFailed { generation: first + 1, message: "src/lang/mod.rsx: not addressable".into() });
    let Mode::Move(mv) = &m.mode else { panic!() };
    assert!(mv.plan.is_none());
    assert!(mv.error.as_deref().unwrap().contains("not addressable"));
    assert!(m.update(Action::Enter).is_empty(), "nothing to commit");

    let mut m = moving();
    let Mode::Move(mv) = &m.mode else { panic!() };
    let plan = mv.plan.as_ref().unwrap();
    assert_eq!(plan.respellings.len(), 2);
    assert_eq!(plan.structural.len(), 2, "the mod line and the moved file");
    assert_eq!(plan.notices.len(), 2);
    assert!(mv.error.is_none());
    let effects = m.update(Action::Enter);
    assert!(matches!(&effects[..], [Effect::Commit { intent: Intent::Move { .. } }]));
}

#[test]
fn move_symbol_needs_a_declaration_row() {
    let mut m = searched();
    m.update(Action::Enter);
    m.update(Action::Move(1));
    assert!(m.update(Action::MoveSymbol).is_empty());
    assert!(matches!(&m.status.message, Some((Level::Error, _))));
    m.update(Action::Top);
    let effects = m.update(Action::MoveSymbol);
    assert!(effects.is_empty(), "no destination yet: nothing to plan ({effects:?})");
    let Mode::Move(mv) = &m.mode else { panic!() };
    assert_eq!(mv.symbol.as_deref(), Some("Language"));
    assert_eq!(mv.focus, MovePanel::To);
}

// ------------------------------------------------------------------ rewrite

#[test]
fn rewrite_expands_the_template_live_and_commits_the_ticks() {
    let mut m = searched();
    let effects = m.update(Action::Rewrite);
    assert!(!effects.iter().any(|e| matches!(e, Effect::Plan { .. })), "no template yet: nothing to plan");
    let Mode::Rewrite(rw) = &m.mode else { panic!() };
    assert_eq!(rw.focus, RewritePanel::Template);
    assert_eq!(rw.ticks.len(), 4, "every match starts ticked");

    let mut m = rewriting();
    let Mode::Rewrite(rw) = &m.mode else { panic!() };
    assert_eq!(rw.changes.len(), 3, "the plan's files, each with its diff");

    m.update(Action::FocusNth(2));
    m.update(Action::Toggle);
    let effects = m.update(Action::Enter);
    match &effects[..] {
        [Effect::Commit { intent: Intent::Rewrite(i) }] => {
            assert_eq!(i.template, "Lang");
            assert!(matches!(&i.selection, Selection::Ids(ids) if ids.len() == 3));
        }
        other => panic!("{other:?}"),
    }
}

// ------------------------------------------------------------------ history

#[test]
fn history_undoes_the_newest_after_a_confirmation() {
    let mut m = searched();
    m.update(Action::Enter);
    assert!(matches!(&m.update(Action::History)[..], [Effect::History]));
    m.on_event(Event::History(vec![history_entry(1), history_entry(2)]));
    let Mode::History(h) = &m.mode else { panic!() };
    assert_eq!(h.cursor.index, 1, "the newest is under the cursor");
    m.update(Action::Move(-1));
    assert!(m.update(Action::Undo).is_empty());
    assert!(matches!(&m.status.message, Some((Level::Error, _))), "only the newest");
    m.update(Action::Move(1));
    m.update(Action::Undo);
    assert!(matches!(m.overlay, Some(Overlay::Confirm(_))));
    let effects = m.update(Action::Enter);
    assert!(matches!(&effects[..], [Effect::Undo]));
    m.on_event(Event::Undone(history_entry(2)));
    assert!(matches!(m.mode, Mode::Search));
}

#[test]
fn an_apply_returns_to_search_and_searches_again() {
    let mut m = renaming();
    let effects = m.on_event(Event::Applied {
        id: 3,
        intent: rename_intent("Config", "Settings"),
        report: Report { title: String::new(), sites: vec![] },
    });
    assert!(matches!(m.mode, Mode::Search));
    assert!(matches!(effects.last(), Some(Effect::Search { .. })));
    assert!(m.status.message.as_ref().unwrap().1.starts_with("✓ #3"));
}

#[test]
fn the_report_overlay_walks_its_source_rows() {
    let sites = search_matches().iter().map(|x| Site { path: x.path.clone(), line: x.line }).collect();
    let mut m = model();
    m.overlay = Some(Overlay::Report { report: Report { title: "search".into(), sites }, cursor: 0 });
    let first = m.report_site();
    assert!(first.is_some(), "the cursor starts on a source row");
    m.update(Action::Move(1));
    let second = m.report_site();
    assert!(second.is_some() && second != first, "and moves to the next one");
    m.update(Action::Move(-1));
    assert_eq!(m.report_site(), first, "and back");
}

#[test]
fn v_toggles_the_report_view() {
    let mut m = searched();
    assert_eq!(m.view, ReportView::Compact, "compact by default");
    m.update(Action::View);
    assert_eq!(m.view, ReportView::Detailed);
    m.update(Action::View);
    assert_eq!(m.view, ReportView::Compact);
}

// ------------------------------------------------------------------ laws on concrete values

#[test]
fn every_request_carries_the_newest_generation() {
    let mut m = model();
    for c in "ab".chars() {
        let before = m.generation;
        let effects = m.update(Action::Input(c));
        assert_eq!(m.generation, before + 1);
        assert!(effects.iter().all(|e| match e {
            Effect::Search { generation, .. } | Effect::Plan { generation, .. } => *generation == m.generation,
            _ => true,
        }));
    }
    let before = m.generation;
    m.update(Action::View);
    m.update(Action::FocusNext);
    assert_eq!(m.generation, before, "no request, no new generation");
}

#[test]
fn a_stale_plan_answer_changes_nothing() {
    let mut m = searched();
    let effects = m.update(Action::Rename);
    let g = generation_of(&effects);
    let effects = m.on_event(Event::Planned { generation: g - 1, planned: rename_plan() });
    assert!(effects.is_empty());
    assert!(m.arriving, "still waiting for the newest answer");
    let effects = m.on_event(Event::PlanFailed { generation: g + 5, message: "late".into() });
    assert!(effects.is_empty());
    assert!(m.status.message.is_none());
}

#[test]
fn back_leaves_the_hub_as_it_was() {
    let mut m = searched();
    m.update(Action::Enter);
    m.update(Action::Move(2));
    let cursor = m.search.results.cursor.index;
    m.update(Action::Rewrite);
    m.update(Action::Back);
    assert!(matches!(m.mode, Mode::Search));
    assert_eq!(m.search.results.cursor.index, cursor);
    assert_eq!(m.search.focus, SearchPanel::Results);
    assert_eq!(m.search.query.text(), "Language");
    m.update(Action::Help);
    assert!(matches!(m.overlay, Some(Overlay::Help { .. })));
    m.update(Action::Back);
    assert!(m.overlay.is_none(), "esc closes the overlay first");
}

#[test]
fn later_plans_leave_the_ticks_alone() {
    let mut m = renaming();
    m.update(Action::FocusNth(2));
    m.update(Action::Toggle);
    let Mode::Rename(r) = &m.mode else { panic!() };
    let ticks = r.ticks.clone();
    assert_eq!(ticks.len(), 4);
    let effects = typed(&mut m, "L");
    m.on_event(Event::Planned { generation: generation_of(&effects), planned: rename_plan() });
    let Mode::Rename(r) = &m.mode else { panic!() };
    assert_eq!(r.ticks, ticks);
}

#[test]
fn the_help_is_about_the_view_on_screen() {
    let mut m = searched();
    m.update(Action::Enter);
    m.update(Action::Help);
    match &m.overlay {
        Some(Overlay::Help { screen, focus, scroll }) => {
            assert_eq!(*screen, vvv::picker::ScreenId::Search);
            assert_eq!(*focus, 1);
            assert_eq!(*scroll, 0);
        }
        other => panic!("{other:?}"),
    }
    m.update(Action::Scroll(3));
    assert!(matches!(m.overlay, Some(Overlay::Help { scroll: 3, .. })));
    m.update(Action::Scroll(-10));
    assert!(matches!(m.overlay, Some(Overlay::Help { scroll: 0, .. })), "never above the top");
}

#[test]
fn the_context_scrolls_within_the_file() {
    let mut m = searched();
    m.update(Action::FocusNth(3));
    assert_eq!(m.preview_anchor(), 58, "five lines above the row");
    m.update(Action::Scroll(1));
    assert_eq!(m.search.preview_scroll, Some(59));
    m.update(Action::Scroll(100));
    assert_eq!(m.search.preview_scroll, Some(69), "the last line");
    m.update(Action::Top);
    assert_eq!(m.search.preview_scroll, Some(0));
    m.update(Action::Bottom);
    assert_eq!(m.search.preview_scroll, Some(70));
}

#[test]
fn resize_stays_between_a_fifth_and_four_fifths() {
    let mut m = model();
    m.update(Action::Resize(100));
    assert_eq!(m.split, 80);
    m.update(Action::Resize(-100));
    assert_eq!(m.split, 20);
    m.update(Action::Resize(5));
    assert_eq!(m.split, 25);
}

#[test]
fn the_status_names_what_enter_and_u_do() {
    let m = renaming();
    assert_eq!(m.describe(Dispatch::Run(Action::Enter)), "apply 3 in 3 files");
    assert_eq!(m.describe(Dispatch::Run(Action::Undo)), "undo");
    assert_eq!(m.describe(Dispatch::Run(Action::Diff)), "diff");
    assert_eq!(m.describe(Dispatch::Type), "");
    let mut h = searched();
    h.on_event(Event::History(vec![history_entry(4), history_entry(7)]));
    assert_eq!(h.describe(Dispatch::Run(Action::Undo)), "undo #7");
    let mut mv = moving();
    assert_eq!(mv.describe(Dispatch::Run(Action::Enter)), "apply 4 files");
    mv.update(Action::Diff);
    assert_eq!(mv.describe(Dispatch::Run(Action::Diff)), "source");
}

#[test]
fn skipped_languages_are_named_in_the_status() {
    let mut m = model();
    let effects = typed(&mut m, "fn");
    m.on_event(Event::Searched { generation: generation_of(&effects), matches: vec![], skipped: vec!["rust".into(), "tsx".into()] });
    let (level, text) = m.status.message.clone().unwrap();
    assert_eq!(level, Level::Info);
    assert_eq!(text, "rust, tsx skipped: the pattern does not parse there");
}

#[test]
fn failures_end_the_wait_and_say_why() {
    let mut m = searched();
    m.update(Action::Rename);
    m.on_event(Event::Failed("engine down".into()));
    assert!(!m.arriving);
    assert!(!m.status.busy);
    assert_eq!(m.status.message, Some((Level::Error, "engine down".to_string())));
    let Mode::Rename(r) = &m.mode else { panic!() };
    assert!(!r.busy);
    let mut e = model();
    let effects = e.on_event(Event::History(vec![]));
    assert!(effects.is_empty());
    assert_eq!(e.status.message, Some((Level::Info, "∅ no history".to_string())));
}

#[test]
fn a_rewrite_needs_a_search_and_matches() {
    let mut m = model();
    assert!(m.update(Action::Rewrite).is_empty());
    assert_eq!(m.status.message, Some((Level::Error, "search for the pattern to rewrite first".to_string())));
    let effects = typed(&mut m, "Nothing");
    m.on_event(Event::Searched { generation: generation_of(&effects), matches: vec![], skipped: vec![] });
    m.update(Action::Rewrite);
    assert_eq!(m.status.message, Some((Level::Error, "nothing matched; a rewrite acts on the matches".to_string())));
    assert!(matches!(m.mode, Mode::Search));
}

#[test]
fn quit_sets_the_flag() {
    let mut m = model();
    assert!(!m.quit);
    m.update(Action::Quit);
    assert!(m.quit);
}

#[test]
fn the_status_bar_hints_spell_out_what_enter_does() {
    let m = renaming();
    let hints = m.hints();
    assert!(hints.contains(&("⏎".to_string(), "apply 3 in 3 files".to_string())), "{hints:?}");
    let mut h = searched();
    h.on_event(Event::History(vec![history_entry(5)]));
    assert!(h.hints().contains(&("u".to_string(), "undo #5".to_string())), "{:?}", h.hints());
}
