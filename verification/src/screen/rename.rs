//! The keys of the rename mode: the new name, the three verdict panels and
//! the detail.

use vstd::prelude::*;

use crate::action::Action;
use crate::keymap::{layer_view, LayerView, Bar, Dispatch, Keybinding, Layer, Legend, Trigger, When};
use crate::keys::{Code, Modifiers};
use crate::keys::Key;
use crate::model::PanelKind;
use crate::screen::{panel_view, screen_view, Panel, PanelView, Screen};
use crate::engine::Confidence;
use crate::model::RenamePanel;
use crate::modes::RenameMode;
use crate::query::SymbolKind;

verus! {

/// The `mode` keys as values.
pub open spec fn mode_table() -> LayerView<Action> {
    ("Rename"@, seq![
        (seq![Trigger::Key((Key { code: Code::Enter, modifiers: Modifiers(0) }))], Dispatch::Run(Action::Enter), When::Always, (Some(("⏎"@, ""@)), "what the status bar says"@)),
        (seq![Trigger::Key((Key { code: Code::Esc, modifiers: Modifiers(0) }))], Dispatch::Run(Action::Back), When::Always, (Some(("esc"@, "back"@)), "back"@)),
    ])
}

/// The keys of the whole mode.
pub fn mode() -> (r: Layer<Action>)
    ensures
        layer_view(r) == mode_table(),
{
    let r = Layer {
    name: "Rename",
    bindings: vec![
        Keybinding {
            triggers: vec![Trigger::Key(Key::enter())],
            dispatch: Dispatch::Run(Action::Enter),
            when: When::Always,
            legend: Legend {
                bar: Some(Bar {
                    keys: "⏎",
                    word: "",
                }),
                help: "what the status bar says",
            },
        },
        Keybinding {
            triggers: vec![Trigger::Key(Key::esc())],
            dispatch: Dispatch::Run(Action::Back),
            when: When::Always,
            legend: Legend {
                bar: Some(Bar {
                    keys: "esc",
                    word: "back",
                }),
                help: "back",
            },
        },
    ],
};
    proof {
        assert(layer_view(r).1 =~~= mode_table().1);
    }
    r
}

/// The `name` keys as values.
pub open spec fn name_table() -> LayerView<Action> {
    ("Rename"@, seq![
        (seq![Trigger::Key((Key { code: Code::Down, modifiers: Modifiers(0) }))], Dispatch::Run(Action::FocusNth(2)), When::Always, (Some(("↓/tab"@, "sites"@)), "the sites"@)),
        (seq![Trigger::Key((Key { code: Code::Backspace, modifiers: Modifiers(0) }))], Dispatch::Run(Action::Backspace), When::Always, (None, "erase"@)),
        // An identifier cannot hold `?`.
        (seq![Trigger::Key((Key { code: Code::Char('?'), modifiers: Modifiers(0) }))], Dispatch::Run(Action::Help), When::Always, (None, "keys"@)),
        (seq![Trigger::Text], Dispatch::Type, When::Always, (Some(("typing"@, "the new name"@)), "the new name; rows follow"@)),
    ])
}

/// The new name.
pub fn name() -> (r: Layer<Action>)
    ensures
        layer_view(r) == name_table(),
{
    let r = Layer {
    name: "Rename",
    bindings: vec![
        Keybinding {
            triggers: vec![Trigger::Key(Key::down())],
            dispatch: Dispatch::Run(Action::FocusNth(2)),
            when: When::Always,
            legend: Legend {
                bar: Some(Bar {
                    keys: "↓/tab",
                    word: "sites",
                }),
                help: "the sites",
            },
        },
        Keybinding {
            triggers: vec![Trigger::Key(Key::backspace())],
            dispatch: Dispatch::Run(Action::Backspace),
            when: When::Always,
            legend: Legend {
                bar: None,
                help: "erase",
            },
        },
        // An identifier cannot hold `?`.
        Keybinding {
            triggers: vec![Trigger::Key(Key::char('?'))],
            dispatch: Dispatch::Run(Action::Help),
            when: When::Always,
            legend: Legend {
                bar: None,
                help: "keys",
            },
        },
        Keybinding {
            triggers: vec![Trigger::Text],
            dispatch: Dispatch::Type,
            when: When::Always,
            legend: Legend {
                bar: Some(Bar {
                    keys: "typing",
                    word: "the new name",
                }),
                help: "the new name; rows follow",
            },
        },
    ],
};
    proof {
        assert(layer_view(r).1 =~~= name_table().1);
    }
    r
}

/// The `list` keys as values.
pub open spec fn list_table() -> LayerView<Action> {
    ("Rename"@, seq![
        (seq![Trigger::Key((Key { code: Code::Char(' '), modifiers: Modifiers(0) }))], Dispatch::Run(Action::Toggle), When::Always, (Some(("space"@, "toggle"@)), "tick the row"@)),
        (seq![Trigger::Key((Key { code: Code::Char('a'), modifiers: Modifiers(0) }))], Dispatch::Run(Action::ToggleAll), When::Always, (Some(("a"@, "all here"@)), "tick every row of the panel"@)),
    ])
}

/// The verdict panels, ticked per site.
pub fn list() -> (r: Layer<Action>)
    ensures
        layer_view(r) == list_table(),
{
    let r = Layer {
    name: "Rename",
    bindings: vec![
        Keybinding {
            triggers: vec![Trigger::Key(Key::char(' '))],
            dispatch: Dispatch::Run(Action::Toggle),
            when: When::Always,
            legend: Legend {
                bar: Some(Bar {
                    keys: "space",
                    word: "toggle",
                }),
                help: "tick the row",
            },
        },
        Keybinding {
            triggers: vec![Trigger::Key(Key::char('a'))],
            dispatch: Dispatch::Run(Action::ToggleAll),
            when: When::Always,
            legend: Legend {
                bar: Some(Bar {
                    keys: "a",
                    word: "all here",
                }),
                help: "tick every row of the panel",
            },
        },
    ],
};
    proof {
        assert(layer_view(r).1 =~~= list_table().1);
    }
    r
}

/// The `name_panel` panel as values.
pub open spec fn name_panel_table() -> PanelView {
    (name_table(), Some(PanelKind::Input))
}

pub fn name_panel() -> (r: Panel)
    ensures
        panel_view(r) == name_panel_table(),
{
    Panel { layer: name(), kind: Some(PanelKind::Input) }
}

/// The `unsure_panel` panel as values.
pub open spec fn unsure_panel_table() -> PanelView {
    (list_table(), Some(PanelKind::List))
}

pub fn unsure_panel() -> (r: Panel)
    ensures
        panel_view(r) == unsure_panel_table(),
{
    Panel { layer: list(), kind: Some(PanelKind::List) }
}

/// The `sure_panel` panel as values.
pub open spec fn sure_panel_table() -> PanelView {
    (list_table(), Some(PanelKind::List))
}

pub fn sure_panel() -> (r: Panel)
    ensures
        panel_view(r) == sure_panel_table(),
{
    Panel { layer: list(), kind: Some(PanelKind::List) }
}

/// The `other_panel` panel as values.
pub open spec fn other_panel_table() -> PanelView {
    (list_table(), Some(PanelKind::List))
}

pub fn other_panel() -> (r: Panel)
    ensures
        panel_view(r) == other_panel_table(),
{
    Panel { layer: list(), kind: Some(PanelKind::List) }
}

/// The `detail_panel` panel as values.
pub open spec fn detail_panel_table() -> PanelView {
    (("Rename"@, seq![]), Some(PanelKind::Text))
}

pub fn detail_panel() -> (r: Panel)
    ensures
        panel_view(r) == detail_panel_table(),
{
    Panel { layer: Layer {
        name: "Rename",
        bindings: vec![],
    }, kind: Some(PanelKind::Text) }
}

/// The `rename` screen as values.
pub open spec fn rename_table() -> (LayerView<Action>, Seq<PanelView>) {
    (mode_table(), seq![name_panel_table(), unsure_panel_table(), sure_panel_table(), other_panel_table(), detail_panel_table()])
}

/// The rename screen.
pub fn rename() -> (r: Screen)
    ensures
        screen_view(r) == rename_table(),
{
    Screen { layer: mode(), panels: vec![name_panel(), unsure_panel(), sure_panel(), other_panel(), detail_panel()] }
}

// ---------------------------------------------------------------- the header

/// Where the header says the target is declared.
#[derive(Debug, Clone, PartialEq, Eq)]
pub enum Declared {
    /// The first declaration's module address where known, its file and
    /// line, counted from 1, and how many more declarations there are.
    At { address: Option<String>, path: String, line: u64, more: usize },
    /// No declaration yet: the judge is still out.
    Waiting,
    /// No declaration: the rename goes by name alone.
    ByName,
}

/// The rename header: whether the name input has the focus, the target's
/// kind and name, the new name (`None` while it is empty), the rows of each
/// verdict (`✓`, `?`, `✗`), where the target is declared, and the error.
#[derive(Debug, Clone, PartialEq, Eq)]
pub struct RenameHeader {
    pub focused: bool,
    pub kind: Option<SymbolKind>,
    pub name: String,
    pub new_name: Option<String>,
    pub resolved: usize,
    pub unresolved: usize,
    pub other: usize,
    pub declared: Declared,
    pub error: Option<String>,
}

/// Where the target is declared, as values.
pub enum DeclaredView {
    At(Option<Seq<char>>, Seq<char>, int, int),
    Waiting,
    ByName,
}

/// A header as values.
pub type HeaderView = (bool, Option<SymbolKind>, Seq<char>, Option<Seq<char>>, (int, int, int), DeclaredView, Option<Seq<char>>);

pub open spec fn opt_chars(s: Option<String>) -> Option<Seq<char>> {
    match s {
        Some(x) => Some(x@),
        None => None,
    }
}

pub open spec fn header_view(h: RenameHeader) -> HeaderView {
    (
        h.focused,
        h.kind,
        h.name@,
        opt_chars(h.new_name),
        (h.resolved as int, h.unresolved as int, h.other as int),
        match h.declared {
            Declared::At { address, path, line, more } => DeclaredView::At(opt_chars(address), path@, line as int, more as int),
            Declared::Waiting => DeclaredView::Waiting,
            Declared::ByName => DeclaredView::ByName,
        },
        opt_chars(h.error),
    )
}

/// What the rename header shows.
pub open spec fn rename_header_of(r: RenameMode) -> HeaderView {
    let ds = r.declarations@;
    (
        r.focus == RenamePanel::Name,
        r.target.symbol,
        r.target.name@,
        if r.name@.len() == 0 {
            None
        } else {
            Some(r.name@)
        },
        (
            crate::modes::rows_of(r.occurrences@, Confidence::Resolved).len() as int,
            crate::modes::rows_of(r.occurrences@, Confidence::Unresolved).len() as int,
            crate::modes::rows_of(r.occurrences@, Confidence::Other).len() as int,
        ),
        if ds.len() > 0 {
            DeclaredView::At(opt_chars(ds[0].address), ds[0].path@, ds[0].line + 1, ds.len() - 1)
        } else if r.busy {
            DeclaredView::Waiting
        } else {
            DeclaredView::ByName
        },
        opt_chars(r.error),
    )
}

/// The rename header.
pub fn rename_header(r: &RenameMode) -> (h: RenameHeader)
    ensures
        header_view(h) == rename_header_of(*r),
{
    let new_name = if crate::text::chars_of(r.name.as_str()).len() == 0 {
        None
    } else {
        Some(r.name.clone())
    };
    let resolved = r.rows(Confidence::Resolved).len();
    let unresolved = r.rows(Confidence::Unresolved).len();
    let other = r.rows(Confidence::Other).len();
    let declared = if r.declarations.len() > 0 {
        let d = &r.declarations[0];
        Declared::At { address: d.address.clone(), path: d.path.clone(), line: d.line as u64 + 1, more: r.declarations.len() - 1 }
    } else if r.busy {
        Declared::Waiting
    } else {
        Declared::ByName
    };
    let error = match &r.error {
        Some(e) => Some(e.clone()),
        None => None,
    };
    let h = RenameHeader {
        focused: r.focus == RenamePanel::Name,
        kind: r.target.symbol,
        name: r.target.name.clone(),
        new_name,
        resolved,
        unresolved,
        other,
        declared,
        error,
    };
    proof {
        let v = header_view(h);
        let w = rename_header_of(*r);
        assert(v.0 == w.0);
        assert(v.3 == w.3);
        assert(v.4 == w.4);
        assert(v.5 == w.5);
        assert(v.6 == w.6);
    }
    h
}

} // verus!
