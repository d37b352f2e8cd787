//! The bindings every view shares: the globals that are never shadowed, the
//! focus keys, and the defaults a panel of each kind answers.



use vstd::prelude::*;

use crate::action::Action;
use crate::keymap::{layer_view, LayerView, Bar, Dispatch, Keybinding, Layer, Legend, Trigger, When};
use crate::keys::{Code, Modifiers};
use crate::keys::Key;
use crate::model::PanelKind;
use crate::screen::default_layer;

verus! {

/// A status-bar entry.
pub fn bar(keys: &'static str, word: &'static str) -> (b: Option<Bar>)
    ensures
        b == Some(Bar { keys, word }),
{
    Some(Bar { keys, word })
}

/// The layers every view shares.
#[derive(Debug, Clone)]
pub struct Defaults {
    pub global: Layer<Action>,
    pub navigate: Layer<Action>,
    pub digits: Layer<Action>,
    pub list: Layer<Action>,
    pub text: Layer<Action>,
}

impl Defaults {
    pub fn new() -> (r: Self)
        ensures
            layer_view(r.global) == global_table(),
            layer_view(r.navigate) == navigate_table(),
            layer_view(r.digits) == digits_table(),
            layer_view(r.list) == list_table(),
            layer_view(r.text) == text_table(),
    {
        Defaults { global: global(), navigate: navigate(), digits: digits(), list: list(), text: text() }
    }

    /// The keys a panel of this kind shares; `None` for an input.
    pub fn default_for(&self, kind: PanelKind) -> (r: Option<&Layer<Action>>)
        ensures
            match r {
                Some(x) => default_layer(*self, kind) == Some(*x),
                None => default_layer(*self, kind) is None,
            },
    {
        match kind {
            PanelKind::Input => None,
            PanelKind::List => Some(&self.list),
            PanelKind::Text => Some(&self.text),
        }
    }
}

/// The `global` keys as values.
pub open spec fn global_table() -> LayerView<Action> {
    ("Everywhere"@, seq![(seq![Trigger::Key((Key { code: Code::Char('c'), modifiers: Modifiers(1) }))], Dispatch::Run(Action::Quit), When::Always, (None, "quit"@))])
}

/// Checked before every layer, overlays included: quitting is not a view's
/// business.
pub fn global() -> (r: Layer<Action>)
    ensures
        layer_view(r) == global_table(),
{
    let r = Layer {
    name: "Everywhere",
    bindings: vec![Keybinding {
        triggers: vec![Trigger::Key(Key::ctrl('c'))],
        dispatch: Dispatch::Run(Action::Quit),
        when: When::Always,
        legend: Legend {
            bar: None,
            help: "quit",
        },
    }],
};
    proof {
        assert(layer_view(r).1 =~~= global_table().1);
    }
    r
}

/// The `navigate` keys as values.
pub open spec fn navigate_table() -> LayerView<Action> {
    ("Everywhere"@, seq![
        (seq![Trigger::Key((Key { code: Code::Tab, modifiers: Modifiers(0) }))], Dispatch::Run(Action::FocusNext), When::Always, (None, "next / previous panel"@)),
        (seq![Trigger::Key((Key { code: Code::BackTab, modifiers: Modifiers(0) }))], Dispatch::Run(Action::FocusPrev), When::Always, (None, "next / previous panel"@)),
    ])
}

/// Moving focus; every view that is not an overlay answers it.
pub fn navigate() -> (r: Layer<Action>)
    ensures
        layer_view(r) == navigate_table(),
{
    let r = Layer {
    name: "Everywhere",
    bindings: vec![
        Keybinding {
            triggers: vec![Trigger::Key(Key::tab())],
            dispatch: Dispatch::Run(Action::FocusNext),
            when: When::Always,
            legend: Legend {
                bar: None,
                help: "next / previous panel",
            },
        },
        Keybinding {
            triggers: vec![Trigger::Key(Key::back_tab())],
            dispatch: Dispatch::Run(Action::FocusPrev),
            when: When::Always,
            legend: Legend {
                bar: None,
                help: "next / previous panel",
            },
        },
    ],
};
    proof {
        assert(layer_view(r).1 =~~= navigate_table().1);
    }
    r
}

/// The `digits` keys as values.
pub open spec fn digits_table() -> LayerView<Action> {
    ("Everywhere"@, seq![
        (seq![Trigger::Key((Key { code: Code::Char('1'), modifiers: Modifiers(0) }))], Dispatch::Run(Action::FocusNth(1)), When::Always, (None, "the n-th panel"@)),
        (seq![Trigger::Key((Key { code: Code::Char('2'), modifiers: Modifiers(0) }))], Dispatch::Run(Action::FocusNth(2)), When::Always, (None, "the n-th panel"@)),
        (seq![Trigger::Key((Key { code: Code::Char('3'), modifiers: Modifiers(0) }))], Dispatch::Run(Action::FocusNth(3)), When::Always, (None, "the n-th panel"@)),
        (seq![Trigger::Key((Key { code: Code::Char('4'), modifiers: Modifiers(0) }))], Dispatch::Run(Action::FocusNth(4)), When::Always, (None, "the n-th panel"@)),
        (seq![Trigger::Key((Key { code: Code::Char('5'), modifiers: Modifiers(0) }))], Dispatch::Run(Action::FocusNth(5)), When::Always, (None, "the n-th panel"@)),
    ])
}

/// Jumping to the n-th panel; a view whose focus is an input leaves it out,
/// because there the digits are text.
pub fn digits() -> (r: Layer<Action>)
    ensures
        layer_view(r) == digits_table(),
{
    let r = Layer {
    name: "Everywhere",
    bindings: vec![
        Keybinding {
            triggers: vec![Trigger::Key(Key::char('1'))],
            dispatch: Dispatch::Run(Action::FocusNth(1)),
            when: When::Always,
            legend: Legend {
                bar: None,
                help: "the n-th panel",
            },
        },
        Keybinding {
            triggers: vec![Trigger::Key(Key::char('2'))],
            dispatch: Dispatch::Run(Action::FocusNth(2)),
            when: When::Always,
            legend: Legend {
                bar: None,
                help: "the n-th panel",
            },
        },
        Keybinding {
            triggers: vec![Trigger::Key(Key::char('3'))],
            dispatch: Dispatch::Run(Action::FocusNth(3)),
            when: When::Always,
            legend: Legend {
                bar: None,
                help: "the n-th panel",
            },
        },
        Keybinding {
            triggers: vec![Trigger::Key(Key::char('4'))],
            dispatch: Dispatch::Run(Action::FocusNth(4)),
            when: When::Always,
            legend: Legend {
                bar: None,
                help: "the n-th panel",
            },
        },
        Keybinding {
            triggers: vec![Trigger::Key(Key::char('5'))],
            dispatch: Dispatch::Run(Action::FocusNth(5)),
            when: When::Always,
            legend: Legend {
                bar: None,
                help: "the n-th panel",
            },
        },
    ],
};
    proof {
        assert(layer_view(r).1 =~~= digits_table().1);
    }
    r
}

/// The `list` keys as values.
pub open spec fn list_table() -> LayerView<Action> {
    ("Lists"@, seq![
        (seq![Trigger::Key((Key { code: Code::Down, modifiers: Modifiers(0) })), Trigger::Key((Key { code: Code::Char('j'), modifiers: Modifiers(0) }))], Dispatch::Run(Action::Move(1)), When::Always, (Some(("j/k"@, "move"@)), "move"@)),
        (seq![Trigger::Key((Key { code: Code::Up, modifiers: Modifiers(0) })), Trigger::Key((Key { code: Code::Char('k'), modifiers: Modifiers(0) }))], Dispatch::Run(Action::Move(-1i32)), When::Always, (Some(("j/k"@, "move"@)), "move"@)),
        (seq![Trigger::Key((Key { code: Code::PageDown, modifiers: Modifiers(0) })), Trigger::Key((Key { code: Code::PageUp, modifiers: Modifiers(0) }))], Dispatch::Run(Action::Page(1)), When::Always, (None, "page"@)),
        (seq![Trigger::Key((Key { code: Code::Home, modifiers: Modifiers(0) })), Trigger::Key((Key { code: Code::Char('g'), modifiers: Modifiers(0) }))], Dispatch::Run(Action::Top), When::Always, (None, "first / last row"@)),
        (seq![Trigger::Key((Key { code: Code::End, modifiers: Modifiers(0) })), Trigger::Key((Key { code: Code::Char('G'), modifiers: Modifiers(0) }))], Dispatch::Run(Action::Bottom), When::Always, (None, "first / last row"@)),
        (seq![Trigger::Key((Key { code: Code::Char('e'), modifiers: Modifiers(0) }))], Dispatch::Run(Action::Edit), When::Always, (Some(("e"@, "editor"@)), "open $EDITOR at the row"@)),
        (seq![Trigger::Key((Key { code: Code::Char('?'), modifiers: Modifiers(0) }))], Dispatch::Run(Action::Help), When::Always, (Some(("?"@, "keys"@)), "this list"@)),
        (seq![Trigger::Key((Key { code: Code::Char('v'), modifiers: Modifiers(0) }))], Dispatch::Run(Action::View), When::Always, (Some(("v"@, "view"@)), "compact / detailed rows"@)),
    ])
}

/// What any list answers.
pub fn list() -> (r: Layer<Action>)
    ensures
        layer_view(r) == list_table(),
{
    let r = Layer {
    name: "Lists",
    bindings: vec![
        Keybinding {
            triggers: vec![Trigger::Key(Key::down()), Trigger::Key(Key::char('j'))],
            dispatch: Dispatch::Run(Action::Move(1)),
            when: When::Always,
            legend: Legend {
                bar: bar("j/k", "move"),
                help: "move",
            },
        },
        Keybinding {
            triggers: vec![Trigger::Key(Key::up()), Trigger::Key(Key::char('k'))],
            dispatch: Dispatch::Run(Action::Move(-1)),
            when: When::Always,
            legend: Legend {
                bar: bar("j/k", "move"),
                help: "move",
            },
        },
        Keybinding {
            triggers: vec![Trigger::Key(Key::page_down()), Trigger::Key(Key::page_up())],
            dispatch: Dispatch::Run(Action::Page(1)),
            when: When::Always,
            legend: Legend {
                bar: None,
                help: "page",
            },
        },
        Keybinding {
            triggers: vec![Trigger::Key(Key::home()), Trigger::Key(Key::char('g'))],
            dispatch: Dispatch::Run(Action::Top),
            when: When::Always,
            legend: Legend {
                bar: None,
                help: "first / last row",
            },
        },
        Keybinding {
            triggers: vec![Trigger::Key(Key::end()), Trigger::Key(Key::char('G'))],
            dispatch: Dispatch::Run(Action::Bottom),
            when: When::Always,
            legend: Legend {
                bar: None,
                help: "first / last row",
            },
        },
        Keybinding {
            triggers: vec![Trigger::Key(Key::char('e'))],
            dispatch: Dispatch::Run(Action::Edit),
            when: When::Always,
            legend: Legend {
                bar: bar("e", "editor"),
                help: "open $EDITOR at the row",
            },
        },
        Keybinding {
            triggers: vec![Trigger::Key(Key::char('?'))],
            dispatch: Dispatch::Run(Action::Help),
            when: When::Always,
            legend: Legend {
                bar: bar("?", "keys"),
                help: "this list",
            },
        },
        Keybinding {
            triggers: vec![Trigger::Key(Key::char('v'))],
            dispatch: Dispatch::Run(Action::View),
            when: When::Always,
            legend: Legend {
                bar: bar("v", "view"),
                help: "compact / detailed rows",
            },
        },
    ],
};
    proof {
        assert(layer_view(r).1 =~~= list_table().1);
    }
    r
}

/// The `text` keys as values.
pub open spec fn text_table() -> LayerView<Action> {
    ("Text panels"@, seq![
        (seq![Trigger::Key((Key { code: Code::Down, modifiers: Modifiers(0) })), Trigger::Key((Key { code: Code::Char('j'), modifiers: Modifiers(0) }))], Dispatch::Run(Action::Scroll(1)), When::Always, (Some(("j/k"@, "scroll"@)), "scroll"@)),
        (seq![Trigger::Key((Key { code: Code::Up, modifiers: Modifiers(0) })), Trigger::Key((Key { code: Code::Char('k'), modifiers: Modifiers(0) }))], Dispatch::Run(Action::Scroll(-1i32)), When::Always, (Some(("j/k"@, "scroll"@)), "scroll"@)),
        (seq![Trigger::Key((Key { code: Code::PageDown, modifiers: Modifiers(0) })), Trigger::Key((Key { code: Code::Char('d'), modifiers: Modifiers(0) }))], Dispatch::Run(Action::Scroll(20)), When::Always, (Some(("d/u"@, "page"@)), "page"@)),
        (seq![Trigger::Key((Key { code: Code::PageUp, modifiers: Modifiers(0) })), Trigger::Key((Key { code: Code::Char('u'), modifiers: Modifiers(0) }))], Dispatch::Run(Action::Scroll(-20i32)), When::Always, (Some(("d/u"@, "page"@)), "page"@)),
        (seq![Trigger::Key((Key { code: Code::Home, modifiers: Modifiers(0) })), Trigger::Key((Key { code: Code::Char('g'), modifiers: Modifiers(0) }))], Dispatch::Run(Action::Top), When::Always, (None, "top / bottom"@)),
        (seq![Trigger::Key((Key { code: Code::End, modifiers: Modifiers(0) })), Trigger::Key((Key { code: Code::Char('G'), modifiers: Modifiers(0) }))], Dispatch::Run(Action::Bottom), When::Always, (None, "top / bottom"@)),
        (seq![Trigger::Key((Key { code: Code::Char('e'), modifiers: Modifiers(0) }))], Dispatch::Run(Action::Edit), When::Always, (Some(("e"@, "editor"@)), "open $EDITOR at the row"@)),
        (seq![Trigger::Key((Key { code: Code::Char('?'), modifiers: Modifiers(0) }))], Dispatch::Run(Action::Help), When::Always, (None, "keys"@)),
        (seq![Trigger::Key((Key { code: Code::Char('v'), modifiers: Modifiers(0) }))], Dispatch::Run(Action::View), When::Always, (Some(("v"@, "view"@)), "compact / detailed rows"@)),
    ])
}

/// What any text panel answers.
pub fn text() -> (r: Layer<Action>)
    ensures
        layer_view(r) == text_table(),
{
    let r = Layer {
    name: "Text panels",
    bindings: vec![
        Keybinding {
            triggers: vec![Trigger::Key(Key::down()), Trigger::Key(Key::char('j'))],
            dispatch: Dispatch::Run(Action::Scroll(1)),
            when: When::Always,
            legend: Legend {
                bar: bar("j/k", "scroll"),
                help: "scroll",
            },
        },
        Keybinding {
            triggers: vec![Trigger::Key(Key::up()), Trigger::Key(Key::char('k'))],
            dispatch: Dispatch::Run(Action::Scroll(-1)),
            when: When::Always,
            legend: Legend {
                bar: bar("j/k", "scroll"),
                help: "scroll",
            },
        },
        Keybinding {
            triggers: vec![Trigger::Key(Key::page_down()), Trigger::Key(Key::char('d'))],
            dispatch: Dispatch::Run(Action::Scroll(20)),
            when: When::Always,
            legend: Legend {
                bar: bar("d/u", "page"),
                help: "page",
            },
        },
        Keybinding {
            triggers: vec![Trigger::Key(Key::page_up()), Trigger::Key(Key::char('u'))],
            dispatch: Dispatch::Run(Action::Scroll(-20)),
            when: When::Always,
            legend: Legend {
                bar: bar("d/u", "page"),
                help: "page",
            },
        },
        Keybinding {
            triggers: vec![Trigger::Key(Key::home()), Trigger::Key(Key::char('g'))],
            dispatch: Dispatch::Run(Action::Top),
            when: When::Always,
            legend: Legend {
                bar: None,
                help: "top / bottom",
            },
        },
        Keybinding {
            triggers: vec![Trigger::Key(Key::end()), Trigger::Key(Key::char('G'))],
            dispatch: Dispatch::Run(Action::Bottom),
            when: When::Always,
            legend: Legend {
                bar: None,
                help: "top / bottom",
            },
        },
        Keybinding {
            triggers: vec![Trigger::Key(Key::char('e'))],
            dispatch: Dispatch::Run(Action::Edit),
            when: When::Always,
            legend: Legend {
                bar: bar("e", "editor"),
                help: "open $EDITOR at the row",
            },
        },
        Keybinding {
            triggers: vec![Trigger::Key(Key::char('?'))],
            dispatch: Dispatch::Run(Action::Help),
            when: When::Always,
            legend: Legend {
                bar: None,
                help: "keys",
            },
        },
        Keybinding {
            triggers: vec![Trigger::Key(Key::char('v'))],
            dispatch: Dispatch::Run(Action::View),
            when: When::Always,
            legend: Legend {
                bar: bar("v", "view"),
                help: "compact / detailed rows",
            },
        },
    ],
};
    proof {
        assert(layer_view(r).1 =~~= text_table().1);
    }
    r
}

} // verus!
