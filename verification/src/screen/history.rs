//! The keys of the history mode: the ledger and the files of its cursor's
//! entry.

use vstd::prelude::*;

use crate::action::Action;
use crate::keymap::{layer_view, Bar, Dispatch, Keybinding, Layer, LayerView, Legend, Trigger, When};
use crate::keys::{Code, Modifiers};
use crate::keys::Key;
use crate::model::PanelKind;
use crate::screen::{panel_view, screen_view, Panel, PanelView, Screen};

verus! {

/// The `mode` keys as values.
pub open spec fn mode_table() -> LayerView<Action> {
    ("History"@, seq![
        (seq![Trigger::Key((Key { code: Code::Char('u'), modifiers: Modifiers(0) })), Trigger::Key((Key { code: Code::Enter, modifiers: Modifiers(0) }))], Dispatch::Run(Action::Undo), When::Always, (Some(("u"@, ""@)), "undo the newest apply"@)),
        (seq![Trigger::Key((Key { code: Code::Esc, modifiers: Modifiers(0) })), Trigger::Key((Key { code: Code::Char('q'), modifiers: Modifiers(0) }))], Dispatch::Run(Action::Back), When::Always, (Some(("esc"@, "back"@)), "back"@)),
    ])
}

/// The ledger and the files of the cursor's entry.
pub fn mode() -> (r: Layer<Action>)
    ensures
        layer_view(r) == mode_table(),
{
    let r = Layer {
    name: "History",
    bindings: vec![
        Keybinding {
            triggers: vec![Trigger::Key(Key::char('u')), Trigger::Key(Key::enter())],
            dispatch: Dispatch::Run(Action::Undo),
            when: When::Always,
            legend: Legend {
                bar: Some(Bar {
                    keys: "u",
                    word: "",
                }),
                help: "undo the newest apply",
            },
        },
        Keybinding {
            triggers: vec![Trigger::Key(Key::esc()), Trigger::Key(Key::char('q'))],
            dispatch: Dispatch::Run(Action::Back),
            when: When::Always,
            legend: Legend {
                bar: Some(Bar {
                    keys: "esc",
                    word: "back",
                }),
                help: "back",
            },
        },
    ],
};
    proof {
        assert(layer_view(r).1 =~~= mode_table().1);
    }
    r
}

/// The `header_panel` panel as values.
pub open spec fn header_panel_table() -> PanelView {
    (("History"@, seq![]), None)
}

pub fn header_panel() -> (r: Panel)
    ensures
        panel_view(r) == header_panel_table(),
{
    Panel { layer: Layer {
        name: "History",
        bindings: vec![],
    }, kind: None }
}

/// The `entries_panel` panel as values.
pub open spec fn entries_panel_table() -> PanelView {
    (("History"@, seq![]), Some(PanelKind::List))
}

pub fn entries_panel() -> (r: Panel)
    ensures
        panel_view(r) == entries_panel_table(),
{
    Panel { layer: Layer {
        name: "History",
        bindings: vec![],
    }, kind: Some(PanelKind::List) }
}

/// The `files_panel` panel as values.
pub open spec fn files_panel_table() -> PanelView {
    (("History"@, seq![]), Some(PanelKind::Text))
}

pub fn files_panel() -> (r: Panel)
    ensures
        panel_view(r) == files_panel_table(),
{
    Panel { layer: Layer {
        name: "History",
        bindings: vec![],
    }, kind: Some(PanelKind::Text) }
}

/// The `history` screen as values.
pub open spec fn history_table() -> (LayerView<Action>, Seq<PanelView>) {
    (mode_table(), seq![header_panel_table(), entries_panel_table(), files_panel_table()])
}

/// The history screen.
pub fn history() -> (r: Screen)
    ensures
        screen_view(r) == history_table(),
{
    Screen { layer: mode(), panels: vec![header_panel(), entries_panel(), files_panel()] }
}

} // verus!
