//! The keys of the overlays: a menu, a yes/no question, the key list and an
//! apply's report.

use vstd::prelude::*;

use crate::action::Action;
use crate::keymap::{layer_view, LayerView, Bar, Dispatch, Keybinding, Layer, Legend, Trigger, When};
use crate::keys::{Code, Modifiers};
use crate::keys::Key;
use crate::screen::{panel_view, screen_view, Panel, PanelView, Screen};

verus! {

/// The `menu` keys as values.
pub open spec fn menu_table() -> LayerView<Action> {
    ("Menus and questions"@, seq![
        (seq![Trigger::Key((Key { code: Code::Enter, modifiers: Modifiers(0) })), Trigger::Key((Key { code: Code::Char(' '), modifiers: Modifiers(0) }))], Dispatch::Run(Action::MenuChoose), When::Always, (Some(("⏎"@, "choose"@)), "choose"@)),
        (seq![Trigger::Key((Key { code: Code::Esc, modifiers: Modifiers(0) })), Trigger::Key((Key { code: Code::Char('q'), modifiers: Modifiers(0) }))], Dispatch::Run(Action::Back), When::Always, (Some(("esc"@, "cancel"@)), "cancel"@)),
        (seq![Trigger::Key((Key { code: Code::Down, modifiers: Modifiers(0) })), Trigger::Key((Key { code: Code::Char('j'), modifiers: Modifiers(0) }))], Dispatch::Run(Action::Move(1)), When::Always, (None, "move"@)),
        (seq![Trigger::Key((Key { code: Code::Up, modifiers: Modifiers(0) })), Trigger::Key((Key { code: Code::Char('k'), modifiers: Modifiers(0) }))], Dispatch::Run(Action::Move(-1i32)), When::Always, (None, "move"@)),
    ])
}

/// Picking one value from a list.
pub fn menu() -> (r: Layer<Action>)
    ensures
        layer_view(r) == menu_table(),
{
    let r = Layer {
    name: "Menus and questions",
    bindings: vec![
        Keybinding {
            triggers: vec![Trigger::Key(Key::enter()), Trigger::Key(Key::char(' '))],
            dispatch: Dispatch::Run(Action::MenuChoose),
            when: When::Always,
            legend: Legend {
                bar: Some(Bar {
                    keys: "⏎",
                    word: "choose",
                }),
                help: "choose",
            },
        },
        Keybinding {
            triggers: vec![Trigger::Key(Key::esc()), Trigger::Key(Key::char('q'))],
            dispatch: Dispatch::Run(Action::Back),
            when: When::Always,
            legend: Legend {
                bar: Some(Bar {
                    keys: "esc",
                    word: "cancel",
                }),
                help: "cancel",
            },
        },
        Keybinding {
            triggers: vec![Trigger::Key(Key::down()), Trigger::Key(Key::char('j'))],
            dispatch: Dispatch::Run(Action::Move(1)),
            when: When::Always,
            legend: Legend {
                bar: None,
                help: "move",
            },
        },
        Keybinding {
            triggers: vec![Trigger::Key(Key::up()), Trigger::Key(Key::char('k'))],
            dispatch: Dispatch::Run(Action::Move(-1)),
            when: When::Always,
            legend: Legend {
                bar: None,
                help: "move",
            },
        },
    ],
};
    proof {
        assert(layer_view(r).1 =~~= menu_table().1);
    }
    r
}

/// The `confirm` keys as values.
pub open spec fn confirm_table() -> LayerView<Action> {
    ("Menus and questions"@, seq![
        (seq![Trigger::Key((Key { code: Code::Char('y'), modifiers: Modifiers(0) })), Trigger::Key((Key { code: Code::Enter, modifiers: Modifiers(0) }))], Dispatch::Run(Action::Enter), When::Always, (Some(("y"@, "yes"@)), "yes"@)),
        (seq![Trigger::Key((Key { code: Code::Char('n'), modifiers: Modifiers(0) }))], Dispatch::Run(Action::Back), When::Always, (Some(("n"@, "no"@)), "no"@)),
        (seq![Trigger::Any], Dispatch::Run(Action::Back), When::Always, (Some(("n"@, "no"@)), "no"@)),
    ])
}

/// A yes/no question; anything but yes is no.
pub fn confirm() -> (r: Layer<Action>)
    ensures
        layer_view(r) == confirm_table(),
{
    let r = Layer {
    name: "Menus and questions",
    bindings: vec![
        Keybinding {
            triggers: vec![Trigger::Key(Key::char('y')), Trigger::Key(Key::enter())],
            dispatch: Dispatch::Run(Action::Enter),
            when: When::Always,
            legend: Legend {
                bar: Some(Bar {
                    keys: "y",
                    word: "yes",
                }),
                help: "yes",
            },
        },
        Keybinding {
            triggers: vec![Trigger::Key(Key::char('n'))],
            dispatch: Dispatch::Run(Action::Back),
            when: When::Always,
            legend: Legend {
                bar: Some(Bar {
                    keys: "n",
                    word: "no",
                }),
                help: "no",
            },
        },
        Keybinding {
            triggers: vec![Trigger::Any],
            dispatch: Dispatch::Run(Action::Back),
            when: When::Always,
            legend: Legend {
                bar: Some(Bar {
                    keys: "n",
                    word: "no",
                }),
                help: "no",
            },
        },
    ],
};
    proof {
        assert(layer_view(r).1 =~~= confirm_table().1);
    }
    r
}

/// The `help` keys as values.
pub open spec fn help_table() -> LayerView<Action> {
    ("Menus and questions"@, seq![
        (seq![Trigger::Key((Key { code: Code::Down, modifiers: Modifiers(0) })), Trigger::Key((Key { code: Code::Char('j'), modifiers: Modifiers(0) }))], Dispatch::Run(Action::Scroll(1)), When::Always, (Some(("j/k"@, "scroll"@)), "scroll"@)),
        (seq![Trigger::Key((Key { code: Code::Up, modifiers: Modifiers(0) })), Trigger::Key((Key { code: Code::Char('k'), modifiers: Modifiers(0) }))], Dispatch::Run(Action::Scroll(-1i32)), When::Always, (Some(("j/k"@, "scroll"@)), "scroll"@)),
        (seq![Trigger::Any], Dispatch::Run(Action::Back), When::Always, (Some(("any key"@, "close"@)), "close"@)),
    ])
}

/// The key list itself; anything closes it.
pub fn help() -> (r: Layer<Action>)
    ensures
        layer_view(r) == help_table(),
{
    let r = Layer {
    name: "Menus and questions",
    bindings: vec![
        Keybinding {
            triggers: vec![Trigger::Key(Key::down()), Trigger::Key(Key::char('j'))],
            dispatch: Dispatch::Run(Action::Scroll(1)),
            when: When::Always,
            legend: Legend {
                bar: Some(Bar {
                    keys: "j/k",
                    word: "scroll",
                }),
                help: "scroll",
            },
        },
        Keybinding {
            triggers: vec![Trigger::Key(Key::up()), Trigger::Key(Key::char('k'))],
            dispatch: Dispatch::Run(Action::Scroll(-1)),
            when: When::Always,
            legend: Legend {
                bar: Some(Bar {
                    keys: "j/k",
                    word: "scroll",
                }),
                help: "scroll",
            },
        },
        Keybinding {
            triggers: vec![Trigger::Any],
            dispatch: Dispatch::Run(Action::Back),
            when: When::Always,
            legend: Legend {
                bar: Some(Bar {
                    keys: "any key",
                    word: "close",
                }),
                help: "close",
            },
        },
    ],
};
    proof {
        assert(layer_view(r).1 =~~= help_table().1);
    }
    r
}

/// The `report` keys as values.
pub open spec fn report_table() -> LayerView<Action> {
    ("Menus and questions"@, seq![
        (seq![Trigger::Key((Key { code: Code::Down, modifiers: Modifiers(0) })), Trigger::Key((Key { code: Code::Char('j'), modifiers: Modifiers(0) }))], Dispatch::Run(Action::Move(1)), When::Always, (Some(("j/k"@, "row"@)), "walk the source rows"@)),
        (seq![Trigger::Key((Key { code: Code::Up, modifiers: Modifiers(0) })), Trigger::Key((Key { code: Code::Char('k'), modifiers: Modifiers(0) }))], Dispatch::Run(Action::Move(-1i32)), When::Always, (Some(("j/k"@, "row"@)), "walk the source rows"@)),
        (seq![Trigger::Key((Key { code: Code::Char('e'), modifiers: Modifiers(0) }))], Dispatch::Run(Action::Edit), When::Always, (Some(("e"@, "editor"@)), "open the row's source"@)),
        (seq![Trigger::Any], Dispatch::Run(Action::Back), When::Always, (Some(("any key"@, "close"@)), "close"@)),
    ])
}

/// The report itself: `j`/`k` walk its source rows, `e` opens one, anything
/// else closes it.
pub fn report() -> (r: Layer<Action>)
    ensures
        layer_view(r) == report_table(),
{
    let r = Layer {
    name: "Menus and questions",
    bindings: vec![
        Keybinding {
            triggers: vec![Trigger::Key(Key::down()), Trigger::Key(Key::char('j'))],
            dispatch: Dispatch::Run(Action::Move(1)),
            when: When::Always,
            legend: Legend {
                bar: Some(Bar {
                    keys: "j/k",
                    word: "row",
                }),
                help: "walk the source rows",
            },
        },
        Keybinding {
            triggers: vec![Trigger::Key(Key::up()), Trigger::Key(Key::char('k'))],
            dispatch: Dispatch::Run(Action::Move(-1)),
            when: When::Always,
            legend: Legend {
                bar: Some(Bar {
                    keys: "j/k",
                    word: "row",
                }),
                help: "walk the source rows",
            },
        },
        Keybinding {
            triggers: vec![Trigger::Key(Key::char('e'))],
            dispatch: Dispatch::Run(Action::Edit),
            when: When::Always,
            legend: Legend {
                bar: Some(Bar {
                    keys: "e",
                    word: "editor",
                }),
                help: "open the row's source",
            },
        },
        Keybinding {
            triggers: vec![Trigger::Any],
            dispatch: Dispatch::Run(Action::Back),
            when: When::Always,
            legend: Legend {
                bar: Some(Bar {
                    keys: "any key",
                    word: "close",
                }),
                help: "close",
            },
        },
    ],
};
    proof {
        assert(layer_view(r).1 =~~= report_table().1);
    }
    r
}

/// The `menu_panel` panel as values.
pub open spec fn menu_panel_table() -> PanelView {
    (("Menus and questions"@, seq![]), None)
}

pub fn menu_panel() -> (r: Panel)
    ensures
        panel_view(r) == menu_panel_table(),
{
    Panel { layer: Layer {
        name: "Menus and questions",
        bindings: vec![],
    }, kind: None }
}

/// The `confirm_panel` panel as values.
pub open spec fn confirm_panel_table() -> PanelView {
    (("Menus and questions"@, seq![]), None)
}

pub fn confirm_panel() -> (r: Panel)
    ensures
        panel_view(r) == confirm_panel_table(),
{
    Panel { layer: Layer {
        name: "Menus and questions",
        bindings: vec![],
    }, kind: None }
}

/// The `help_panel` panel as values.
pub open spec fn help_panel_table() -> PanelView {
    (("Menus and questions"@, seq![]), None)
}

pub fn help_panel() -> (r: Panel)
    ensures
        panel_view(r) == help_panel_table(),
{
    Panel { layer: Layer {
        name: "Menus and questions",
        bindings: vec![],
    }, kind: None }
}

/// The `report_panel` panel as values.
pub open spec fn report_panel_table() -> PanelView {
    (("Menus and questions"@, seq![]), None)
}

pub fn report_panel() -> (r: Panel)
    ensures
        panel_view(r) == report_panel_table(),
{
    Panel { layer: Layer {
        name: "Menus and questions",
        bindings: vec![],
    }, kind: None }
}

/// The `menu_screen` screen as values.
pub open spec fn menu_screen_table() -> (LayerView<Action>, Seq<PanelView>) {
    (menu_table(), seq![menu_panel_table()])
}

pub fn menu_screen() -> (r: Screen)
    ensures
        screen_view(r) == menu_screen_table(),
{
    Screen { layer: menu(), panels: vec![menu_panel()] }
}

/// The `confirm_screen` screen as values.
pub open spec fn confirm_screen_table() -> (LayerView<Action>, Seq<PanelView>) {
    (confirm_table(), seq![confirm_panel_table()])
}

pub fn confirm_screen() -> (r: Screen)
    ensures
        screen_view(r) == confirm_screen_table(),
{
    Screen { layer: confirm(), panels: vec![confirm_panel()] }
}

/// The `help_screen` screen as values.
pub open spec fn help_screen_table() -> (LayerView<Action>, Seq<PanelView>) {
    (help_table(), seq![help_panel_table()])
}

pub fn help_screen() -> (r: Screen)
    ensures
        screen_view(r) == help_screen_table(),
{
    Screen { layer: help(), panels: vec![help_panel()] }
}

/// The `report_screen` screen as values.
pub open spec fn report_screen_table() -> (LayerView<Action>, Seq<PanelView>) {
    (report_table(), seq![report_panel_table()])
}

pub fn report_screen() -> (r: Screen)
    ensures
        screen_view(r) == report_screen_table(),
{
    Screen { layer: report(), panels: vec![report_panel()] }
}

} // verus!
