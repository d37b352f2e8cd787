//! The keys of the search hub: the query, the results and the context.

use vstd::prelude::*;

use crate::action::Action;
use crate::keymap::{layer_view, LayerView, Bar, Dispatch, Keybinding, Layer, Legend, Trigger, When};
use crate::keys::{Code, Modifiers};
use crate::keys::Key;
use crate::model::{MenuTarget, PanelKind};
use crate::screen::{panel_view, screen_view, Panel, PanelView, Screen};
use crate::engine::{Match, Role};
use crate::modes::{at, less, line_total, named_declarations, sole, source_row_view, window_of, Results, SourceRow, SourceRowView};
use crate::picker::Model;
use crate::query::SymbolKind;
use crate::text::str_eq;
use crate::update::anchor_of;

verus! {

/// The `mode` keys as values.
pub open spec fn mode_table() -> LayerView<Action> {
    ("Search"@, seq![])
}

/// The search screen has no keys of its own: every key is a panel's, or the
/// default for the panel's kind.
pub fn mode() -> (r: Layer<Action>)
    ensures
        layer_view(r) == mode_table(),
{
    let r = Layer {
    name: "Search",
    bindings: vec![],
};
    proof {
        assert(layer_view(r).1 =~~= mode_table().1);
    }
    r
}

/// The `query` keys as values.
pub open spec fn query_table() -> LayerView<Action> {
    ("Search"@, seq![
        (seq![Trigger::Key((Key { code: Code::Down, modifiers: Modifiers(0) })), Trigger::Key((Key { code: Code::Enter, modifiers: Modifiers(0) }))], Dispatch::Run(Action::Enter), When::Always, (Some(("↓"@, "results"@)), "results"@)),
        (seq![Trigger::Key((Key { code: Code::Esc, modifiers: Modifiers(0) }))], Dispatch::Run(Action::Clear), When::QueryNotEmpty, (None, "clear"@)),
        (seq![Trigger::Key((Key { code: Code::Esc, modifiers: Modifiers(0) }))], Dispatch::Run(Action::Quit), When::QueryEmpty, (None, "quit"@)),
        (seq![Trigger::Key((Key { code: Code::Backspace, modifiers: Modifiers(0) }))], Dispatch::Run(Action::Backspace), When::Always, (None, "erase"@)),
        (seq![Trigger::Key((Key { code: Code::Char('n'), modifiers: Modifiers(1) }))], Dispatch::Run(Action::Move(1)), When::Always, (Some(("ctrl+n ctrl+p"@, "walk"@)), "walk the results without leaving the query"@)),
        (seq![Trigger::Key((Key { code: Code::Char('p'), modifiers: Modifiers(1) }))], Dispatch::Run(Action::Move(-1i32)), When::Always, (Some(("ctrl+n ctrl+p"@, "walk"@)), "walk the results without leaving the query"@)),
        (seq![Trigger::Text], Dispatch::Type, When::Always, (None, "a name, an ast-grep pattern, or filters: symbol:trait name:Foo kind:impl_item lang:rust"@)),
    ])
}

/// The query: a name, a pattern, or filters.
pub fn query() -> (r: Layer<Action>)
    ensures
        layer_view(r) == query_table(),
{
    let r = Layer {
    name: "Search",
    bindings: vec![
        Keybinding {
            triggers: vec![Trigger::Key(Key::down()), Trigger::Key(Key::enter())],
            dispatch: Dispatch::Run(Action::Enter),
            when: When::Always,
            legend: Legend {
                bar: Some(Bar {
                    keys: "↓",
                    word: "results",
                }),
                help: "results",
            },
        },
        Keybinding {
            triggers: vec![Trigger::Key(Key::esc())],
            dispatch: Dispatch::Run(Action::Clear),
            when: When::QueryNotEmpty,
            legend: Legend {
                bar: None,
                help: "clear",
            },
        },
        Keybinding {
            triggers: vec![Trigger::Key(Key::esc())],
            dispatch: Dispatch::Run(Action::Quit),
            when: When::QueryEmpty,
            legend: Legend {
                bar: None,
                help: "quit",
            },
        },
        Keybinding {
            triggers: vec![Trigger::Key(Key::backspace())],
            dispatch: Dispatch::Run(Action::Backspace),
            when: When::Always,
            legend: Legend {
                bar: None,
                help: "erase",
            },
        },
        Keybinding {
            triggers: vec![Trigger::Key(Key::ctrl('n'))],
            dispatch: Dispatch::Run(Action::Move(1)),
            when: When::Always,
            legend: Legend {
                bar: Some(Bar {
                    keys: "ctrl+n ctrl+p",
                    word: "walk",
                }),
                help: "walk the results without leaving the query",
            },
        },
        Keybinding {
            triggers: vec![Trigger::Key(Key::ctrl('p'))],
            dispatch: Dispatch::Run(Action::Move(-1)),
            when: When::Always,
            legend: Legend {
                bar: Some(Bar {
                    keys: "ctrl+n ctrl+p",
                    word: "walk",
                }),
                help: "walk the results without leaving the query",
            },
        },
        Keybinding {
            triggers: vec![Trigger::Text],
            dispatch: Dispatch::Type,
            when: When::Always,
            legend: Legend {
                bar: None,
                help: "a name, an ast-grep pattern, or filters: symbol:trait name:Foo kind:impl_item lang:rust",
            },
        },
    ],
};
    proof {
        assert(layer_view(r).1 =~~= query_table().1);
    }
    r
}

/// The `results` keys as values.
pub open spec fn results_table() -> LayerView<Action> {
    ("Search"@, seq![
        (seq![Trigger::Key((Key { code: Code::Char('r'), modifiers: Modifiers(0) }))], Dispatch::Run(Action::Rename), When::Always, (Some(("r"@, "rename"@)), "rename"@)),
        (seq![Trigger::Key((Key { code: Code::Char('m'), modifiers: Modifiers(0) }))], Dispatch::Run(Action::MoveFile), When::Always, (Some(("m/M"@, "move file/symbol"@)), "move the file / the declaration"@)),
        (seq![Trigger::Key((Key { code: Code::Char('M'), modifiers: Modifiers(0) }))], Dispatch::Run(Action::MoveSymbol), When::Always, (Some(("m/M"@, "move file/symbol"@)), "move the file / the declaration"@)),
        (seq![Trigger::Key((Key { code: Code::Char('w'), modifiers: Modifiers(0) }))], Dispatch::Run(Action::Rewrite), When::Always, (Some(("w"@, "rewrite"@)), "rewrite"@)),
        (seq![Trigger::Key((Key { code: Code::Char('s'), modifiers: Modifiers(0) }))], Dispatch::Run(Action::OpenMenu(MenuTarget::Symbol)), When::Always, (Some(("s"@, "kind"@)), "pick a symbol kind"@)),
        (seq![Trigger::Key((Key { code: Code::Char('L'), modifiers: Modifiers(0) }))], Dispatch::Run(Action::OpenMenu(MenuTarget::Language)), When::Always, (Some(("L"@, "lang"@)), "pick a language"@)),
        (seq![Trigger::Key((Key { code: Code::Char('h'), modifiers: Modifiers(0) }))], Dispatch::Run(Action::History), When::Always, (Some(("h"@, "history"@)), "history"@)),
        (seq![Trigger::Key((Key { code: Code::Char('u'), modifiers: Modifiers(0) }))], Dispatch::Run(Action::Undo), When::Always, (None, "undo the newest apply"@)),
        (seq![
                Trigger::Key((Key { code: Code::Right, modifiers: Modifiers(0) })),
                Trigger::Key((Key { code: Code::Enter, modifiers: Modifiers(0) })),
                Trigger::Key((Key { code: Code::Char('l'), modifiers: Modifiers(0) })),
            ], Dispatch::Run(Action::FocusNth(3)), When::Always, (Some(("→"@, "context"@)), "the context panel"@)),
        (seq![
                Trigger::Key((Key { code: Code::Esc, modifiers: Modifiers(0) })),
                Trigger::Key((Key { code: Code::Char('/'), modifiers: Modifiers(0) })),
                Trigger::Key((Key { code: Code::Char('i'), modifiers: Modifiers(0) })),
            ], Dispatch::Run(Action::FocusNth(1)), When::Always, (Some(("/"@, "query"@)), "the query"@)),
        (seq![Trigger::Key((Key { code: Code::Char('<'), modifiers: Modifiers(0) })), Trigger::Key((Key { code: Code::Char('>'), modifiers: Modifiers(0) }))], Dispatch::Run(Action::Resize(-5i16)), When::Always, (None, "resize"@)),
        (seq![Trigger::Key((Key { code: Code::Char('q'), modifiers: Modifiers(0) }))], Dispatch::Run(Action::Quit), When::Always, (None, "quit"@)),
    ])
}

/// The result rows.
pub fn results() -> (r: Layer<Action>)
    ensures
        layer_view(r) == results_table(),
{
    let r = Layer {
    name: "Search",
    bindings: vec![
        Keybinding {
            triggers: vec![Trigger::Key(Key::char('r'))],
            dispatch: Dispatch::Run(Action::Rename),
            when: When::Always,
            legend: Legend {
                bar: Some(Bar {
                    keys: "r",
                    word: "rename",
                }),
                help: "rename",
            },
        },
        Keybinding {
            triggers: vec![Trigger::Key(Key::char('m'))],
            dispatch: Dispatch::Run(Action::MoveFile),
            when: When::Always,
            legend: Legend {
                bar: Some(Bar {
                    keys: "m/M",
                    word: "move file/symbol",
                }),
                help: "move the file / the declaration",
            },
        },
        Keybinding {
            triggers: vec![Trigger::Key(Key::char('M'))],
            dispatch: Dispatch::Run(Action::MoveSymbol),
            when: When::Always,
            legend: Legend {
                bar: Some(Bar {
                    keys: "m/M",
                    word: "move file/symbol",
                }),
                help: "move the file / the declaration",
            },
        },
        Keybinding {
            triggers: vec![Trigger::Key(Key::char('w'))],
            dispatch: Dispatch::Run(Action::Rewrite),
            when: When::Always,
            legend: Legend {
                bar: Some(Bar {
                    keys: "w",
                    word: "rewrite",
                }),
                help: "rewrite",
            },
        },
        Keybinding {
            triggers: vec![Trigger::Key(Key::char('s'))],
            dispatch: Dispatch::Run(Action::OpenMenu(MenuTarget::Symbol)),
            when: When::Always,
            legend: Legend {
                bar: Some(Bar {
                    keys: "s",
                    word: "kind",
                }),
                help: "pick a symbol kind",
            },
        },
        Keybinding {
            triggers: vec![Trigger::Key(Key::char('L'))],
            dispatch: Dispatch::Run(Action::OpenMenu(MenuTarget::Language)),
            when: When::Always,
            legend: Legend {
                bar: Some(Bar {
                    keys: "L",
                    word: "lang",
                }),
                help: "pick a language",
            },
        },
        Keybinding {
            triggers: vec![Trigger::Key(Key::char('h'))],
            dispatch: Dispatch::Run(Action::History),
            when: When::Always,
            legend: Legend {
                bar: Some(Bar {
                    keys: "h",
                    word: "history",
                }),
                help: "history",
            },
        },
        Keybinding {
            triggers: vec![Trigger::Key(Key::char('u'))],
            dispatch: Dispatch::Run(Action::Undo),
            when: When::Always,
            legend: Legend {
                bar: None,
                help: "undo the newest apply",
            },
        },
        Keybinding {
            triggers: vec![
                Trigger::Key(Key::right()),
                Trigger::Key(Key::enter()),
                Trigger::Key(Key::char('l')),
            ],
            dispatch: Dispatch::Run(Action::FocusNth(3)),
            when: When::Always,
            legend: Legend {
                bar: Some(Bar {
                    keys: "→",
                    word: "context",
                }),
                help: "the context panel",
            },
        },
        Keybinding {
            triggers: vec![
                Trigger::Key(Key::esc()),
                Trigger::Key(Key::char('/')),
                Trigger::Key(Key::char('i')),
            ],
            dispatch: Dispatch::Run(Action::FocusNth(1)),
            when: When::Always,
            legend: Legend {
                bar: Some(Bar {
                    keys: "/",
                    word: "query",
                }),
                help: "the query",
            },
        },
        Keybinding {
            triggers: vec![Trigger::Key(Key::char('<')), Trigger::Key(Key::char('>'))],
            dispatch: Dispatch::Run(Action::Resize(-5)),
            when: When::Always,
            legend: Legend {
                bar: None,
                help: "resize",
            },
        },
        Keybinding {
            triggers: vec![Trigger::Key(Key::char('q'))],
            dispatch: Dispatch::Run(Action::Quit),
            when: When::Always,
            legend: Legend {
                bar: None,
                help: "quit",
            },
        },
    ],
};
    proof {
        assert(layer_view(r).1 =~~= results_table().1);
    }
    r
}

/// The `context` keys as values.
pub open spec fn context_table() -> LayerView<Action> {
    ("Search"@, seq![
        (seq![
                Trigger::Key((Key { code: Code::Esc, modifiers: Modifiers(0) })),
                Trigger::Key((Key { code: Code::Left, modifiers: Modifiers(0) })),
                Trigger::Key((Key { code: Code::Char('h'), modifiers: Modifiers(0) })),
            ], Dispatch::Run(Action::FocusNth(2)), When::Always, (Some(("←"@, "results"@)), "the results"@)),
        (seq![Trigger::Key((Key { code: Code::Char('/'), modifiers: Modifiers(0) })), Trigger::Key((Key { code: Code::Char('i'), modifiers: Modifiers(0) }))], Dispatch::Run(Action::FocusNth(1)), When::Always, (None, "query"@)),
        (seq![Trigger::Key((Key { code: Code::Char('<'), modifiers: Modifiers(0) })), Trigger::Key((Key { code: Code::Char('>'), modifiers: Modifiers(0) }))], Dispatch::Run(Action::Resize(-5i16)), When::Always, (Some(("< >"@, "resize"@)), "resize the split"@)),
        (seq![Trigger::Key((Key { code: Code::Char('q'), modifiers: Modifiers(0) }))], Dispatch::Run(Action::Quit), When::Always, (None, "quit"@)),
    ])
}

/// The context for the cursor row.
pub fn context() -> (r: Layer<Action>)
    ensures
        layer_view(r) == context_table(),
{
    let r = Layer {
    name: "Search",
    bindings: vec![
        Keybinding {
            triggers: vec![
                Trigger::Key(Key::esc()),
                Trigger::Key(Key::left()),
                Trigger::Key(Key::char('h')),
            ],
            dispatch: Dispatch::Run(Action::FocusNth(2)),
            when: When::Always,
            legend: Legend {
                bar: Some(Bar {
                    keys: "←",
                    word: "results",
                }),
                help: "the results",
            },
        },
        Keybinding {
            triggers: vec![Trigger::Key(Key::char('/')), Trigger::Key(Key::char('i'))],
            dispatch: Dispatch::Run(Action::FocusNth(1)),
            when: When::Always,
            legend: Legend {
                bar: None,
                help: "query",
            },
        },
        Keybinding {
            triggers: vec![Trigger::Key(Key::char('<')), Trigger::Key(Key::char('>'))],
            dispatch: Dispatch::Run(Action::Resize(-5)),
            when: When::Always,
            legend: Legend {
                bar: Some(Bar {
                    keys: "< >",
                    word: "resize",
                }),
                help: "resize the split",
            },
        },
        Keybinding {
            triggers: vec![Trigger::Key(Key::char('q'))],
            dispatch: Dispatch::Run(Action::Quit),
            when: When::Always,
            legend: Legend {
                bar: None,
                help: "quit",
            },
        },
    ],
};
    proof {
        assert(layer_view(r).1 =~~= context_table().1);
    }
    r
}

/// The `query_panel` panel as values.
pub open spec fn query_panel_table() -> PanelView {
    (query_table(), Some(PanelKind::Input))
}

pub fn query_panel() -> (r: Panel)
    ensures
        panel_view(r) == query_panel_table(),
{
    Panel { layer: query(), kind: Some(PanelKind::Input) }
}

/// The `results_panel` panel as values.
pub open spec fn results_panel_table() -> PanelView {
    (results_table(), Some(PanelKind::List))
}

pub fn results_panel() -> (r: Panel)
    ensures
        panel_view(r) == results_panel_table(),
{
    Panel { layer: results(), kind: Some(PanelKind::List) }
}

/// The `context_panel` panel as values.
pub open spec fn context_panel_table() -> PanelView {
    (context_table(), Some(PanelKind::Text))
}

pub fn context_panel() -> (r: Panel)
    ensures
        panel_view(r) == context_panel_table(),
{
    Panel { layer: context(), kind: Some(PanelKind::Text) }
}

/// The `search` screen as values.
pub open spec fn search_table() -> (LayerView<Action>, Seq<PanelView>) {
    (mode_table(), seq![query_panel_table(), results_panel_table(), context_panel_table()])
}

/// The search screen.
pub fn search() -> (r: Screen)
    ensures
        screen_view(r) == search_table(),
{
    Screen { layer: mode(), panels: vec![query_panel(), results_panel(), context_panel()] }
}

// ---------------------------------------------------------------- the context pane

/// What the context pane says of the cursor row before the file around it.
#[derive(Debug, Clone, PartialEq, Eq)]
pub enum ContextCard {
    /// The row declares `name`, a `kind`, with its visibility `modifier`
    /// and module `address` where known; `uses` holds the file of each row
    /// that uses the name, in the results' order.
    Declaration { kind: SymbolKind, name: String, modifier: Option<String>, address: Option<String>, uses: Vec<String> },
    /// The row uses a name whose one declaration among the results is
    /// `name`, a `kind`, at module `address` where known, in `path` on line
    /// `line`, counted from 1.
    Use { kind: SymbolKind, name: String, address: Option<String>, path: String, line: u64 },
}

/// A card as values.
pub enum CardView {
    Declaration(SymbolKind, Seq<char>, Option<Seq<char>>, Option<Seq<char>>, Seq<Seq<char>>),
    Use(SymbolKind, Seq<char>, Option<Seq<char>>, Seq<char>, int),
}

/// An optional string as values.
pub open spec fn opt_view(s: Option<String>) -> Option<Seq<char>> {
    match s {
        Some(x) => Some(x@),
        None => None,
    }
}

pub open spec fn card_view(c: ContextCard) -> CardView {
    match c {
        ContextCard::Declaration { kind, name, modifier, address, uses } => CardView::Declaration(
            kind,
            name@,
            opt_view(modifier),
            opt_view(address),
            uses@.map_values(|u: String| u@),
        ),
        ContextCard::Use { kind, name, address, path, line } => CardView::Use(kind, name@, opt_view(address), path@, line as int),
    }
}

/// The context pane: its title (the cursor row's file, or none), its card,
/// and the source lines under the card.
#[derive(Debug, Clone, PartialEq, Eq)]
pub struct ContextPane {
    pub title: Option<String>,
    pub card: Option<ContextCard>,
    pub source: Vec<SourceRow>,
}

/// A context pane as values.
pub open spec fn context_pane_view(c: ContextPane) -> (Option<Seq<char>>, Option<CardView>, Seq<SourceRowView>) {
    (
        match c.title {
            Some(t) => Some(t@),
            None => None,
        },
        match c.card {
            Some(k) => Some(card_view(k)),
            None => None,
        },
        c.source@.map_values(|x: SourceRow| source_row_view(x)),
    )
}

/// The files of the rows among `ms` that use `name` without declaring it.
pub open spec fn uses_of(ms: Seq<Match>, name: Seq<char>) -> Seq<Seq<char>>
    decreases ms.len(),
{
    if ms.len() == 0 {
        seq![]
    } else {
        let rest = uses_of(ms.drop_last(), name);
        let x = ms.last();
        if x.role != Role::Declaration && x.text@ == name {
            rest.push(x.path@)
        } else {
            rest
        }
    }
}

/// The card for the row `c` among `ms`: a declaration's kind, name and
/// uses; for another row, the one declaration of its text, where there is
/// exactly one.
pub open spec fn card_of(ms: Seq<Match>, c: Match) -> Option<CardView> {
    match c.symbol {
        Some(sym) if c.role == Role::Declaration => Some(
            CardView::Declaration(sym.kind, sym.name@, opt_view(sym.modifier), opt_view(c.address), uses_of(ms, sym.name@)),
        ),
        _ => match sole(named_declarations(ms, c.text@)) {
            Some(d) => match d.symbol {
                Some(s) => Some(CardView::Use(s.kind, s.name@, opt_view(d.address), d.path@, d.line + 1)),
                None => None,
            },
            None => None,
        },
    }
}

/// The rows a card takes, the blank row under it included.
pub open spec fn card_rows(card: Option<CardView>) -> int {
    match card {
        None => 0,
        Some(CardView::Declaration(_, _, _, _, uses)) => if uses.len() > 0 {
            3
        } else {
            2
        },
        Some(CardView::Use(..)) => 2,
    }
}

/// What the context pane of a pane `height` rows by `width` columns, its
/// border included, shows: the cursor row's file as title and its card;
/// under the card, when the preview holds that file, the lines from the
/// manual scroll or else the anchor above the row, the row's bytes as the
/// hit and its lines marked.
pub open spec fn context_of(m: Model, height: int, width: int) -> (Option<Seq<char>>, Option<CardView>, Seq<SourceRowView>) {
    let ms = m.search.results.matches@;
    match at(ms, m.search.results.cursor.index as int) {
        None => (None, None, seq![]),
        Some(c) => {
            let card = card_of(ms, c);
            let source = match m.search.preview {
                Some(p) => if p.path_view() == c.path@ {
                    let wanted = match m.search.preview_scroll {
                        Some(s) => s as int,
                        None => anchor_of(m) as int,
                    };
                    let first = if wanted < less(line_total(p), 1) {
                        wanted
                    } else {
                        less(line_total(p), 1)
                    };
                    window_of(
                        p,
                        first,
                        less(less(height, 2), card_rows(card)),
                        less(width, 2),
                        Some((c.span.start, c.span.end)),
                        Some((c.line as usize, c.end_line as usize)),
                    )
                } else {
                    seq![]
                },
                None => seq![],
            };
            (Some(c.path@), card, source)
        },
    }
}

/// The files of the rows that use `name` without declaring it.
fn uses_in(ms: &Vec<Match>, name: &str) -> (r: Vec<String>)
    ensures
        r@.map_values(|u: String| u@) == uses_of(ms@, name@),
{
    let mut out: Vec<String> = Vec::new();
    let mut i: usize = 0;
    while i < ms.len()
        invariant
            0 <= i <= ms@.len(),
            out@.map_values(|u: String| u@) =~= uses_of(ms@.take(i as int), name@),
        decreases ms@.len() - i,
    {
        let x = &ms[i];
        proof {
            assert(ms@.take(i + 1).drop_last() =~= ms@.take(i as int));
            assert(ms@.take(i + 1).last() == *x);
        }
        if x.role != Role::Declaration && str_eq(x.text.as_str(), name) {
            out.push(x.path.clone());
        }
        i = i + 1;
    }
    proof {
        assert(ms@.take(i as int) =~= ms@);
    }
    out
}

/// The card for the row `c` of `results`.
fn card_for(results: &Results, c: &Match) -> (r: Option<ContextCard>)
    ensures
        match r {
            Some(k) => Some(card_view(k)),
            None => None,
        } == card_of(results.matches@, *c),
{
    match &c.symbol {
        Some(sym) => if c.role == Role::Declaration {
            let uses = uses_in(&results.matches, sym.name.as_str());
            return Some(
                ContextCard::Declaration {
                    kind: sym.kind,
                    name: sym.name.clone(),
                    modifier: sym.modifier.clone(),
                    address: c.address.clone(),
                    uses,
                },
            );
        },
        None => {},
    }
    match results.declaration_of(c) {
        Some(d) => match &d.symbol {
            Some(s) => Some(
                ContextCard::Use {
                    kind: s.kind,
                    name: s.name.clone(),
                    address: d.address.clone(),
                    path: d.path.clone(),
                    line: d.line as u64 + 1,
                },
            ),
            None => None,
        },
        None => None,
    }
}

/// What the context pane shows, for a pane `height` rows by `width`
/// columns with its border: the cursor row's card, then the file around
/// it.
pub fn search_context(model: &Model, height: usize, width: usize) -> (r: ContextPane)
    ensures
        context_pane_view(r) == context_of(*model, height as int, width as int),
{
    let s = &model.search;
    let c = match s.results.current() {
        Some(c) => c,
        None => {
            return ContextPane { title: None, card: None, source: Vec::new() };
        },
    };
    let card = card_for(&s.results, c);
    let head: usize = match &card {
        None => 0,
        Some(ContextCard::Declaration { uses, .. }) => if uses.len() > 0 {
            3
        } else {
            2
        },
        Some(ContextCard::Use { .. }) => 2,
    };
    let source = match &s.preview {
        Some(p) => if str_eq(p.path(), c.path.as_str()) {
            let wanted = match s.preview_scroll {
                Some(x) => x,
                None => model.preview_anchor(),
            };
            let count = p.line_count();
            let top = if count > 0 {
                count - 1
            } else {
                0
            };
            let first = if wanted < top {
                wanted
            } else {
                top
            };
            let inner_height = if height > 2 {
                height - 2
            } else {
                0
            };
            let rows = if inner_height > head {
                inner_height - head
            } else {
                0
            };
            let inner_width = if width > 2 {
                width - 2
            } else {
                0
            };
            p.source_window(first, rows, inner_width, Some((c.span.start, c.span.end)), Some((c.line as usize, c.end_line as usize)))
        } else {
            Vec::new()
        },
        None => Vec::new(),
    };
    let r = ContextPane { title: Some(c.path.clone()), card, source };
    proof {
        let v = context_pane_view(r);
        let w = context_of(*model, height as int, width as int);
        assert(v.2 =~= w.2);
    }
    r
}

} // verus!
