//! The keys of the rewrite mode: the template, the matches and the detail.

use vstd::prelude::*;

use crate::action::Action;
use crate::keymap::{layer_view, LayerView, Bar, Dispatch, Keybinding, Layer, Legend, Trigger, When};
use crate::keys::{Code, Modifiers};
use crate::keys::Key;
use crate::model::PanelKind;
use crate::screen::{panel_view, screen_view, Panel, PanelView, Screen};

verus! {

/// The `mode` keys as values.
pub open spec fn mode_table() -> LayerView<Action> {
    ("Rewrite"@, seq![
        (seq![Trigger::Key((Key { code: Code::Enter, modifiers: Modifiers(0) }))], Dispatch::Run(Action::Enter), When::Always, (Some(("⏎"@, ""@)), "what the status bar says"@)),
        (seq![Trigger::Key((Key { code: Code::Esc, modifiers: Modifiers(0) }))], Dispatch::Run(Action::Back), When::Always, (Some(("esc"@, "back"@)), "back"@)),
    ])
}

/// The keys of the whole mode.
pub fn mode() -> (r: Layer<Action>)
    ensures
        layer_view(r) == mode_table(),
{
    let r = Layer {
    name: "Rewrite",
    bindings: vec![
        Keybinding {
            triggers: vec![Trigger::Key(Key::enter())],
            dispatch: Dispatch::Run(Action::Enter),
            when: When::Always,
            legend: Legend {
                bar: Some(Bar {
                    keys: "⏎",
                    word: "",
                }),
                help: "what the status bar says",
            },
        },
        Keybinding {
            triggers: vec![Trigger::Key(Key::esc())],
            dispatch: Dispatch::Run(Action::Back),
            when: When::Always,
            legend: Legend {
                bar: Some(Bar {
                    keys: "esc",
                    word: "back",
                }),
                help: "back",
            },
        },
    ],
};
    proof {
        assert(layer_view(r).1 =~~= mode_table().1);
    }
    r
}

/// The `template` keys as values.
pub open spec fn template_table() -> LayerView<Action> {
    ("Rewrite"@, seq![
        (seq![Trigger::Key((Key { code: Code::Down, modifiers: Modifiers(0) }))], Dispatch::Run(Action::FocusNth(2)), When::Always, (Some(("↓/tab"@, "matches"@)), "the matches"@)),
        (seq![Trigger::Key((Key { code: Code::Backspace, modifiers: Modifiers(0) }))], Dispatch::Run(Action::Backspace), When::Always, (None, "erase"@)),
        (seq![Trigger::Text], Dispatch::Type, When::Always, (Some(("typing"@, "the template"@)), "the template; rows follow"@)),
    ])
}

/// The template.
pub fn template() -> (r: Layer<Action>)
    ensures
        layer_view(r) == template_table(),
{
    let r = Layer {
    name: "Rewrite",
    bindings: vec![
        Keybinding {
            triggers: vec![Trigger::Key(Key::down())],
            dispatch: Dispatch::Run(Action::FocusNth(2)),
            when: When::Always,
            legend: Legend {
                bar: Some(Bar {
                    keys: "↓/tab",
                    word: "matches",
                }),
                help: "the matches",
            },
        },
        Keybinding {
            triggers: vec![Trigger::Key(Key::backspace())],
            dispatch: Dispatch::Run(Action::Backspace),
            when: When::Always,
            legend: Legend {
                bar: None,
                help: "erase",
            },
        },
        Keybinding {
            triggers: vec![Trigger::Text],
            dispatch: Dispatch::Type,
            when: When::Always,
            legend: Legend {
                bar: Some(Bar {
                    keys: "typing",
                    word: "the template",
                }),
                help: "the template; rows follow",
            },
        },
    ],
};
    proof {
        assert(layer_view(r).1 =~~= template_table().1);
    }
    r
}

/// The `matches` keys as values.
pub open spec fn matches_table() -> LayerView<Action> {
    ("Rewrite"@, seq![
        (seq![Trigger::Key((Key { code: Code::Char(' '), modifiers: Modifiers(0) }))], Dispatch::Run(Action::Toggle), When::Always, (Some(("space"@, "toggle"@)), "tick the row"@)),
        (seq![Trigger::Key((Key { code: Code::Char('a'), modifiers: Modifiers(0) }))], Dispatch::Run(Action::ToggleAll), When::Always, (Some(("a"@, "all"@)), "tick every row"@)),
    ])
}

/// The matches, ticked per row.
pub fn matches() -> (r: Layer<Action>)
    ensures
        layer_view(r) == matches_table(),
{
    let r = Layer {
    name: "Rewrite",
    bindings: vec![
        Keybinding {
            triggers: vec![Trigger::Key(Key::char(' '))],
            dispatch: Dispatch::Run(Action::Toggle),
            when: When::Always,
            legend: Legend {
                bar: Some(Bar {
                    keys: "space",
                    word: "toggle",
                }),
                help: "tick the row",
            },
        },
        Keybinding {
            triggers: vec![Trigger::Key(Key::char('a'))],
            dispatch: Dispatch::Run(Action::ToggleAll),
            when: When::Always,
            legend: Legend {
                bar: Some(Bar {
                    keys: "a",
                    word: "all",
                }),
                help: "tick every row",
            },
        },
    ],
};
    proof {
        assert(layer_view(r).1 =~~= matches_table().1);
    }
    r
}

/// The `template_panel` panel as values.
pub open spec fn template_panel_table() -> PanelView {
    (template_table(), Some(PanelKind::Input))
}

pub fn template_panel() -> (r: Panel)
    ensures
        panel_view(r) == template_panel_table(),
{
    Panel { layer: template(), kind: Some(PanelKind::Input) }
}

/// The `matches_panel` panel as values.
pub open spec fn matches_panel_table() -> PanelView {
    (matches_table(), Some(PanelKind::List))
}

pub fn matches_panel() -> (r: Panel)
    ensures
        panel_view(r) == matches_panel_table(),
{
    Panel { layer: matches(), kind: Some(PanelKind::List) }
}

/// The `detail_panel` panel as values.
pub open spec fn detail_panel_table() -> PanelView {
    (("Rewrite"@, seq![]), Some(PanelKind::Text))
}

pub fn detail_panel() -> (r: Panel)
    ensures
        panel_view(r) == detail_panel_table(),
{
    Panel { layer: Layer {
        name: "Rewrite",
        bindings: vec![],
    }, kind: Some(PanelKind::Text) }
}

/// The `rewrite` screen as values.
pub open spec fn rewrite_table() -> (LayerView<Action>, Seq<PanelView>) {
    (mode_table(), seq![template_panel_table(), matches_panel_table(), detail_panel_table()])
}

/// The rewrite screen.
pub fn rewrite() -> (r: Screen)
    ensures
        screen_view(r) == rewrite_table(),
{
    Screen { layer: mode(), panels: vec![template_panel(), matches_panel(), detail_panel()] }
}

} // verus!
