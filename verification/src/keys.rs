//! Terminal-independent key values: what a binding matches and a person
//! presses. Nothing here knows about a terminal library.

use vstd::prelude::*;

use crate::text::push_char;

verus! {

/// Modifiers held with a key. Shift is folded into the character itself
/// (`Char('M')`), so it is not tracked.
#[derive(Debug, Clone, Copy, PartialEq, Eq, Structural, Hash)]
pub struct Modifiers(pub u8);

impl Modifiers {
    /// No modifier.
    pub fn none() -> (m: Self)
        ensures
            m == Modifiers(0),
    {
        Modifiers(0)
    }

    /// Control.
    pub fn ctrl() -> (m: Self)
        ensures
            m == Modifiers(1),
    {
        Modifiers(1)
    }

    /// Alt.
    pub fn alt() -> (m: Self)
        ensures
            m == Modifiers(2),
    {
        Modifiers(2)
    }

    /// Both sets of modifiers held together.
    pub fn union(self, other: Self) -> (r: Self)
        ensures
            r.0 == self.0 | other.0,
    {
        Modifiers(self.0 | other.0)
    }

    pub open spec fn spec_holds(self, other: Self) -> bool {
        self.0 & other.0 == other.0
    }

    /// Every modifier of `other` is held in `self`.
    pub fn contains(self, other: Self) -> (r: bool)
        ensures
            r == self.spec_holds(other),
    {
        self.0 & other.0 == other.0
    }
}

/// What a union holds: each side, and nothing but what either side holds.
pub proof fn lemma_union_holds_both(a: Modifiers, b: Modifiers)
    ensures
        Modifiers(a.0 | b.0).spec_holds(a),
        Modifiers(a.0 | b.0).spec_holds(b),
        forall|c: Modifiers|
            a.spec_holds(c) ==> #[trigger] Modifiers(a.0 | b.0).spec_holds(c),
{
    let x = a.0;
    let y = b.0;
    assert((x | y) & x == x) by (bit_vector);
    assert((x | y) & y == y) by (bit_vector);
    assert forall|c: Modifiers| a.spec_holds(c) implies #[trigger] Modifiers(a.0 | b.0).spec_holds(c) by {
        let z = c.0;
        assert(x & z == z ==> (x | y) & z == z) by (bit_vector);
    }
}

/// No modifier is held without being pressed: `NONE` holds only `NONE`, and
/// `CTRL` and `ALT` are distinct bits.
pub proof fn lemma_modifier_bits()
    ensures
        !Modifiers(0).spec_holds(Modifiers(1)),
        !Modifiers(0).spec_holds(Modifiers(2)),
        !Modifiers(1).spec_holds(Modifiers(2)),
        !Modifiers(2).spec_holds(Modifiers(1)),
        forall|m: Modifiers| #[trigger] m.spec_holds(Modifiers(0)),
{
    assert(0u8 & 1u8 != 1u8) by (bit_vector);
    assert(0u8 & 2u8 != 2u8) by (bit_vector);
    assert(1u8 & 2u8 != 2u8) by (bit_vector);
    assert(2u8 & 1u8 != 1u8) by (bit_vector);
    assert forall|m: Modifiers| #[trigger] m.spec_holds(Modifiers(0)) by {
        let z = m.0;
        assert(z & 0u8 == 0u8) by (bit_vector);
    }
}

/// A key without its modifiers.
#[derive(Debug, Clone, Copy, PartialEq, Eq, Structural, Hash)]
pub enum Code {
    Char(char),
    Enter,
    Esc,
    Tab,
    BackTab,
    Backspace,
    Delete,
    Up,
    Down,
    Left,
    Right,
    Home,
    End,
    PageUp,
    PageDown,
}

/// A key press: a code and the modifiers held with it.
#[derive(Debug, Clone, Copy, PartialEq, Eq, Structural, Hash)]
pub struct Key {
    pub code: Code,
    pub modifiers: Modifiers,
}

/// How a key is written in the help and the status bar.
pub open spec fn spell_of(key: Key) -> Seq<char> {
    match key.code {
        Code::Char(c) => if key.modifiers.spec_holds(Modifiers(1)) {
            "ctrl+"@.push(c)
        } else if key.modifiers.spec_holds(Modifiers(2)) {
            "alt+"@.push(c)
        } else if c == ' ' {
            "space"@
        } else {
            seq![c]
        },
        Code::Enter => "⏎"@,
        Code::Esc => "esc"@,
        Code::Tab => "tab"@,
        Code::BackTab => "s-tab"@,
        Code::Backspace => "bksp"@,
        Code::Delete => "del"@,
        Code::Up => "↑"@,
        Code::Down => "↓"@,
        Code::Left => "←"@,
        Code::Right => "→"@,
        Code::PageUp => "pgup"@,
        Code::PageDown => "pgdn"@,
        Code::Home => "home"@,
        Code::End => "end"@,
    }
}

/// The character a key types, when it types one.
pub open spec fn text_of(key: Key) -> Option<char> {
    match key.code {
        Code::Char(c) => if !key.modifiers.spec_holds(Modifiers(1)) {
            Some(c)
        } else {
            None
        },
        _ => None,
    }
}

impl Key {
    pub fn new(code: Code, modifiers: Modifiers) -> (k: Self)
        ensures
            k == (Key { code, modifiers }),
    {
        Key { code, modifiers }
    }

    pub fn char(c: char) -> (k: Self)
        ensures
            k == (Key { code: Code::Char(c), modifiers: Modifiers(0) }),
    {
        Self::new(Code::Char(c), Modifiers::none())
    }

    pub fn ctrl(c: char) -> (k: Self)
        ensures
            k == (Key { code: Code::Char(c), modifiers: Modifiers(1) }),
    {
        Self::new(Code::Char(c), Modifiers::ctrl())
    }

    pub fn code(code: Code) -> (k: Self)
        ensures
            k == (Key { code, modifiers: Modifiers(0) }),
    {
        Self::new(code, Modifiers::none())
    }

    pub fn enter() -> (k: Self)
        ensures
            k == (Key { code: Code::Enter, modifiers: Modifiers(0) }),
    {
        Self::code(Code::Enter)
    }

    pub fn esc() -> (k: Self)
        ensures
            k == (Key { code: Code::Esc, modifiers: Modifiers(0) }),
    {
        Self::code(Code::Esc)
    }

    pub fn tab() -> (k: Self)
        ensures
            k == (Key { code: Code::Tab, modifiers: Modifiers(0) }),
    {
        Self::code(Code::Tab)
    }

    pub fn back_tab() -> (k: Self)
        ensures
            k == (Key { code: Code::BackTab, modifiers: Modifiers(0) }),
    {
        Self::code(Code::BackTab)
    }

    pub fn backspace() -> (k: Self)
        ensures
            k == (Key { code: Code::Backspace, modifiers: Modifiers(0) }),
    {
        Self::code(Code::Backspace)
    }

    pub fn up() -> (k: Self)
        ensures
            k == (Key { code: Code::Up, modifiers: Modifiers(0) }),
    {
        Self::code(Code::Up)
    }

    pub fn down() -> (k: Self)
        ensures
            k == (Key { code: Code::Down, modifiers: Modifiers(0) }),
    {
        Self::code(Code::Down)
    }

    pub fn left() -> (k: Self)
        ensures
            k == (Key { code: Code::Left, modifiers: Modifiers(0) }),
    {
        Self::code(Code::Left)
    }

    pub fn right() -> (k: Self)
        ensures
            k == (Key { code: Code::Right, modifiers: Modifiers(0) }),
    {
        Self::code(Code::Right)
    }

    pub fn home() -> (k: Self)
        ensures
            k == (Key { code: Code::Home, modifiers: Modifiers(0) }),
    {
        Self::code(Code::Home)
    }

    pub fn end() -> (k: Self)
        ensures
            k == (Key { code: Code::End, modifiers: Modifiers(0) }),
    {
        Self::code(Code::End)
    }

    pub fn page_up() -> (k: Self)
        ensures
            k == (Key { code: Code::PageUp, modifiers: Modifiers(0) }),
    {
        Self::code(Code::PageUp)
    }

    pub fn page_down() -> (k: Self)
        ensures
            k == (Key { code: Code::PageDown, modifiers: Modifiers(0) }),
    {
        Self::code(Code::PageDown)
    }

    /// The character this key types, if it is a plain character: what goes
    /// into an input.
    pub fn text(&self) -> (r: Option<char>)
        ensures
            r == text_of(*self),
    {
        match self.code {
            Code::Char(c) => {
                if !self.modifiers.contains(Modifiers::ctrl()) {
                    Some(c)
                } else {
                    None
                }
            },
            _ => None,
        }
    }

    /// How the key is written in the help and the status bar.
    pub fn spell(&self) -> (s: String)
        ensures
            s@ == spell_of(*self),
    {
        if let Code::Char(c) = self.code {
            if self.modifiers.contains(Modifiers::ctrl()) {
                let mut s = "ctrl+".to_owned();
                push_char(&mut s, c);
                return s;
            }
            if self.modifiers.contains(Modifiers::alt()) {
                let mut s = "alt+".to_owned();
                push_char(&mut s, c);
                return s;
            }
        }
        match self.code {
            Code::Char(c) => {
                if c == ' ' {
                    "space".to_owned()
                } else {
                    let mut s = String::new();
                    push_char(&mut s, c);
                    proof {
                        assert(s@ =~= seq![c]);
                    }
                    s
                }
            },
            Code::Enter => "⏎".to_owned(),
            Code::Esc => "esc".to_owned(),
            Code::Tab => "tab".to_owned(),
            Code::BackTab => "s-tab".to_owned(),
            Code::Backspace => "bksp".to_owned(),
            Code::Delete => "del".to_owned(),
            Code::Up => "↑".to_owned(),
            Code::Down => "↓".to_owned(),
            Code::Left => "←".to_owned(),
            Code::Right => "→".to_owned(),
            Code::PageUp => "pgup".to_owned(),
            Code::PageDown => "pgdn".to_owned(),
            Code::Home => "home".to_owned(),
            Code::End => "end".to_owned(),
        }
    }
}

} // verus!
