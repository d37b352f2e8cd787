//! How the picker words what happened: numbers in decimal, an intent on
//! one line, and the status bar's sentences.

use vstd::prelude::*;

use crate::engine::Intent;
use crate::text::{join, push_char, push_str};

verus! {

/// The digit character for `d`.
pub open spec fn digit_char(d: nat) -> char {
    if d == 0 {
        '0'
    } else if d == 1 {
        '1'
    } else if d == 2 {
        '2'
    } else if d == 3 {
        '3'
    } else if d == 4 {
        '4'
    } else if d == 5 {
        '5'
    } else if d == 6 {
        '6'
    } else if d == 7 {
        '7'
    } else if d == 8 {
        '8'
    } else {
        '9'
    }
}

/// `n` written in decimal, without leading zeros.
pub open spec fn decimal_of(n: nat) -> Seq<char>
    decreases n,
{
    if n < 10 {
        seq![digit_char(n)]
    } else {
        decimal_of(n / 10).push(digit_char(n % 10))
    }
}

fn digit(d: u64) -> (c: char)
    requires
        d < 10,
    ensures
        c == digit_char(d as nat),
{
    match d {
        0 => '0',
        1 => '1',
        2 => '2',
        3 => '3',
        4 => '4',
        5 => '5',
        6 => '6',
        7 => '7',
        8 => '8',
        _ => '9',
    }
}

/// `n` in decimal.
pub fn decimal(n: u64) -> (s: String)
    ensures
        s@ == decimal_of(n as nat),
    decreases n,
{
    if n < 10 {
        let mut s = String::new();
        push_char(&mut s, digit(n));
        s
    } else {
        let mut s = decimal(n / 10);
        push_char(&mut s, digit(n % 10));
        s
    }
}

/// One line saying what an intent changes.
pub open spec fn intent_line(i: Intent) -> Seq<char> {
    match i {
        Intent::Rename(x) => "rename "@ + x.name@ + " → "@ + x.to@,
        Intent::Move { from, to } => "move "@ + from@ + " → "@ + to@,
        Intent::MoveSymbol { name, from, to } => "move "@ + name@ + " from "@ + from@ + " → "@ + to@,
        Intent::Rewrite(x) => "rewrite "@ + match x.query.pattern {
            Some(p) => p@,
            None => match x.query.name {
                Some(n) => n@,
                None => Seq::empty(),
            },
        } + " → "@ + x.template@,
    }
}

/// Writes what an intent changes on one line.
pub fn describe_intent(i: &Intent) -> (s: String)
    ensures
        s@ == intent_line(*i),
{
    let mut s = String::new();
    match i {
        Intent::Rename(x) => {
            push_str(&mut s, "rename ");
            push_str(&mut s, x.name.as_str());
            push_str(&mut s, " → ");
            push_str(&mut s, x.to.as_str());
        },
        Intent::Move { from, to } => {
            push_str(&mut s, "move ");
            push_str(&mut s, from.as_str());
            push_str(&mut s, " → ");
            push_str(&mut s, to.as_str());
        },
        Intent::MoveSymbol { name, from, to } => {
            push_str(&mut s, "move ");
            push_str(&mut s, name.as_str());
            push_str(&mut s, " from ");
            push_str(&mut s, from.as_str());
            push_str(&mut s, " → ");
            push_str(&mut s, to.as_str());
        },
        Intent::Rewrite(x) => {
            push_str(&mut s, "rewrite ");
            match &x.query.pattern {
                Some(p) => push_str(&mut s, p.as_str()),
                None => match &x.query.name {
                    Some(n) => push_str(&mut s, n.as_str()),
                    None => {},
                },
            }
            push_str(&mut s, " → ");
            push_str(&mut s, x.template.as_str());
        },
    }
    s
}

/// `#` and the entry's number, two spaces, and what it changed.
pub open spec fn entry_line(id: u64, i: Intent) -> Seq<char> {
    "#"@ + decimal_of(id as nat) + "  "@ + intent_line(i)
}

fn entry_words(s: &mut String, id: u64, i: &Intent)
    ensures
        final(s)@ == old(s)@ + entry_line(id, *i),
{
    push_str(s, "#");
    let n = decimal(id);
    push_str(s, n.as_str());
    push_str(s, "  ");
    let line = describe_intent(i);
    push_str(s, line.as_str());
}

/// What the status bar says once a change is written.
pub open spec fn applied_message(id: u64, i: Intent) -> Seq<char> {
    "✓ "@ + entry_line(id, i) + "  ·  u undoes it"@
}

pub fn applied(id: u64, i: &Intent) -> (s: String)
    ensures
        s@ == applied_message(id, *i),
{
    let mut s = String::new();
    push_str(&mut s, "✓ ");
    entry_words(&mut s, id, i);
    push_str(&mut s, "  ·  u undoes it");
    s
}

/// What the status bar says once a change is undone.
pub open spec fn undone_message(id: u64, i: Intent) -> Seq<char> {
    "↩ "@ + entry_line(id, i)
}

pub fn undone(id: u64, i: &Intent) -> (s: String)
    ensures
        s@ == undone_message(id, *i),
{
    let mut s = String::new();
    push_str(&mut s, "↩ ");
    entry_words(&mut s, id, i);
    s
}

/// The question before an undo.
pub open spec fn undo_question(id: u64, i: Intent) -> Seq<char> {
    "↩ "@ + entry_line(id, i) + "?"@
}

pub fn question(id: u64, i: &Intent) -> (s: String)
    ensures
        s@ == undo_question(id, *i),
{
    let mut s = String::new();
    push_str(&mut s, "↩ ");
    entry_words(&mut s, id, i);
    push_str(&mut s, "?");
    s
}

/// What the status bar says when some languages could not run a pattern.
pub open spec fn skipped_message(names: Seq<Seq<char>>) -> Seq<char> {
    join(names, ", "@) + " skipped: the pattern does not parse there"@
}

pub fn skipped(names: &Vec<String>) -> (s: String)
    requires
        names@.len() > 0,
    ensures
        s@ == skipped_message(names@.map_values(|n: String| n@)),
{
    let ghost ns = names@.map_values(|n: String| n@);
    let mut s = String::new();
    push_str(&mut s, names[0].as_str());
    let mut i: usize = 1;
    proof {
        assert(ns.take(1) =~= seq![ns[0]]);
    }
    while i < names.len()
        invariant
            ns == names@.map_values(|n: String| n@),
            1 <= i <= ns.len(),
            s@ == join(ns.take(i as int), ", "@),
        decreases ns.len() - i,
    {
        push_str(&mut s, ", ");
        push_str(&mut s, names[i].as_str());
        proof {
            assert(ns.take(i + 1).drop_last() =~= ns.take(i as int));
            assert(ns.take(i + 1).last() == ns[i as int]);
        }
        i = i + 1;
    }
    proof {
        assert(ns.take(i as int) =~= ns);
    }
    push_str(&mut s, " skipped: the pattern does not parse there");
    s
}

/// `n file` or `n files`.
pub open spec fn files_phrase(n: nat) -> Seq<char> {
    decimal_of(n) + (if n == 1 {
        " file"@
    } else {
        " files"@
    })
}

fn push_files(s: &mut String, n: usize)
    requires
        n <= u64::MAX,
    ensures
        final(s)@ == old(s)@ + files_phrase(n as nat),
{
    let d = decimal(n as u64);
    push_str(s, d.as_str());
    if n == 1 {
        push_str(s, " file");
    } else {
        push_str(s, " files");
    }
}

/// `apply t in f files`: what `⏎` commits.
pub open spec fn apply_message(ticked: nat, files: nat) -> Seq<char> {
    "apply "@ + decimal_of(ticked) + " in "@ + files_phrase(files)
}

pub fn apply_ticked(ticked: usize, files: usize) -> (s: String)
    requires
        ticked <= u64::MAX,
        files <= u64::MAX,
    ensures
        s@ == apply_message(ticked as nat, files as nat),
{
    let mut s = String::new();
    push_str(&mut s, "apply ");
    let d = decimal(ticked as u64);
    push_str(&mut s, d.as_str());
    push_str(&mut s, " in ");
    push_files(&mut s, files);
    s
}

/// `apply f files`: what `⏎` commits for a move.
pub open spec fn apply_files_message(files: nat) -> Seq<char> {
    "apply "@ + files_phrase(files)
}

pub fn apply_files(files: usize) -> (s: String)
    requires
        files <= u64::MAX,
    ensures
        s@ == apply_files_message(files as nat),
{
    let mut s = String::new();
    push_str(&mut s, "apply ");
    push_files(&mut s, files);
    s
}

/// `undo #n`: which entry `u` undoes.
pub open spec fn undo_message(id: u64) -> Seq<char> {
    "undo #"@ + decimal_of(id as nat)
}

pub fn undo_entry(id: u64) -> (s: String)
    ensures
        s@ == undo_message(id),
{
    let mut s = String::new();
    push_str(&mut s, "undo #");
    let d = decimal(id);
    push_str(&mut s, d.as_str());
    s
}

} // verus!
