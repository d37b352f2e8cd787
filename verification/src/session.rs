//! The decisions of the picker's session loop: which effects wait for the
//! typing to pause, which go to the engine at once, and how the editor is
//! started. The loop itself, the clock, the terminal and the engine's
//! thread stay outside; they hand these functions plain values.

use vstd::prelude::*;

use crate::action::Effect;
use crate::text::{push_char, push_str, string_of, chars_of, word_spans, words};
use crate::wording::{decimal, decimal_of};

verus! {

/// Where an effect goes.
#[derive(Debug, Clone, PartialEq, Eq)]
pub enum Route {
    /// Wait for the typing to pause; a newer request replaces it.
    Hold,
    /// To the engine now.
    Send,
    /// Hand the terminal to the editor at this file and line.
    Edit { path: String, line: u32 },
    /// There is no editor to open.
    NoEditor,
}

/// How the session routes an effect: searches and typed plans wait for a
/// pause, an edit needs an editor, everything else goes at once.
pub open spec fn routed(effect: Effect, editor: bool) -> Route {
    match effect {
        Effect::Search { .. } => Route::Hold,
        Effect::Plan { debounce, .. } => if debounce {
            Route::Hold
        } else {
            Route::Send
        },
        Effect::Edit { path, line } => if editor {
            Route::Edit { path, line }
        } else {
            Route::NoEditor
        },
        _ => Route::Send,
    }
}

/// Where an effect goes.
pub fn route(effect: &Effect, editor: bool) -> (r: Route)
    ensures
        r == routed(*effect, editor),
{
    match effect {
        Effect::Search { .. } => Route::Hold,
        Effect::Plan { debounce, .. } => if *debounce {
            Route::Hold
        } else {
            Route::Send
        },
        Effect::Edit { path, line } => if editor {
            Route::Edit { path: path.clone(), line: *line }
        } else {
            Route::NoEditor
        },
        _ => Route::Send,
    }
}

/// The request waiting for the typing to pause, with when it was made.
#[derive(Debug)]
pub struct Debounce {
    pub pending: Option<(Effect, u64)>,
}

impl Debounce {
    pub fn new() -> (d: Self)
        ensures
            d.pending is None,
    {
        Debounce { pending: None }
    }

    /// Hold `effect`, made at `now`; it replaces whatever was held.
    pub fn hold(&mut self, effect: Effect, now: u64)
        ensures
            final(self).pending == Some((effect, now)),
    {
        self.pending = Some((effect, now));
    }

    /// The held request, once `wait` has passed since it was made; it is
    /// no longer held then.
    pub fn release(&mut self, now: u64, wait: u64) -> (r: Option<Effect>)
        ensures
            match old(self).pending {
                Some((e, since)) => if now >= since && now - since >= wait {
                    r == Some(e) && final(self).pending is None
                } else {
                    r is None && final(self).pending == old(self).pending
                },
                None => r is None && final(self).pending is None,
            },
    {
        let due = match &self.pending {
            Some((_, since)) => now >= *since && now - *since >= wait,
            None => false,
        };
        if due {
            match self.pending.take() {
                Some((e, _)) => Some(e),
                None => None,
            }
        } else {
            None
        }
    }
}

/// The editor's program and its arguments for opening `line` (0-based):
/// the command's words, then `+` and the 1-based line.
pub open spec fn editor_call(editor: Seq<char>, line: u32) -> Option<(Seq<char>, Seq<Seq<char>>)> {
    let ws = words(editor);
    if ws.len() == 0 {
        None
    } else {
        Some((ws[0], ws.drop_first().push(seq!['+'] + decimal_of((line + 1) as nat))))
    }
}

/// The program and arguments that open the editor at `line`: `None` for
/// a command with no words.
pub fn editor_command(editor: &str, line: u32) -> (r: Option<(String, Vec<String>)>)
    requires
        line < u32::MAX,
    ensures
        match editor_call(editor@, line) {
            Some((program, args)) => r matches Some((p, a)) && p@ == program && a@.map_values(|s: String| s@) == args,
            None => r is None,
        },
{
    let chars = chars_of(editor);
    let spans = word_spans(&chars);
    let ghost ws = words(chars@);
    if spans.len() == 0 {
        return None;
    }
    let program = string_of(&chars, spans[0].0, spans[0].1);
    let mut args: Vec<String> = Vec::new();
    let mut k: usize = 1;
    while k < spans.len()
        invariant
            ws == words(chars@),
            spans@.len() == ws.len(),
            1 <= k <= spans@.len(),
            forall|j: int|
                0 <= j < spans@.len() ==> {
                    &&& 0 <= (#[trigger] spans@[j]).0 < spans@[j].1 <= chars@.len()
                    &&& chars@.subrange(spans@[j].0 as int, spans@[j].1 as int) == ws[j]
                },
            args@.map_values(|s: String| s@) == ws.subrange(1, k as int),
        decreases spans@.len() - k,
    {
        let ghost before = args@.map_values(|s: String| s@);
        args.push(string_of(&chars, spans[k].0, spans[k].1));
        proof {
            assert(spans@[k as int].0 < spans@[k as int].1);
            assert(args@.map_values(|s: String| s@) =~= before.push(ws[k as int]));
            assert(ws.subrange(1, k + 1) =~= ws.subrange(1, k as int).push(ws[k as int]));
        }
        k = k + 1;
    }
    let mut at = String::new();
    push_char(&mut at, '+');
    let n = decimal((line + 1) as u64);
    push_str(&mut at, n.as_str());
    let ghost before = args@.map_values(|s: String| s@);
    args.push(at);
    proof {
        assert(spans@[0].0 < spans@[0].1);
        assert(ws.subrange(1, k as int) =~= ws.drop_first());
        assert(args@.map_values(|s: String| s@) =~= ws.drop_first().push(seq!['+'] + decimal_of((line + 1) as nat)));
    }
    Some((program, args))
}

} // verus!
