//! The keymap vocabulary: [`Key`] is a press, [`Trigger`] is what a
//! [`Keybinding`] listens for, [`Dispatch`] is what it does, and a
//! [`Layer`] is a named set of bindings. No terminal library and no action
//! type; the concrete layers live with the screens.

use vstd::prelude::*;

use crate::keys::{spell_of, text_of, Key};
use crate::text::{dedup, glue, join, lemma_dedup_last, push_str, str_eq};

verus! {

/// What a binding listens for.
#[derive(Debug, Clone, Copy, PartialEq, Eq, Structural)]
pub enum Trigger {
    /// Exactly this key.
    Key(Key),
    /// Any key that types a plain character.
    Text,
    /// Whatever is pressed.
    Any,
}

pub open spec fn trigger_matches(t: Trigger, key: Key) -> bool {
    match t {
        Trigger::Key(bound) => bound == key,
        Trigger::Text => text_of(key) is Some,
        Trigger::Any => true,
    }
}

pub open spec fn trigger_spell(t: Trigger) -> Seq<char> {
    match t {
        Trigger::Key(key) => spell_of(key),
        Trigger::Text => "typing"@,
        Trigger::Any => "any key"@,
    }
}

impl Trigger {
    pub fn matches(self, key: Key) -> (r: bool)
        ensures
            r == trigger_matches(self, key),
    {
        match self {
            Trigger::Key(bound) => bound == key,
            Trigger::Text => key.text().is_some(),
            Trigger::Any => true,
        }
    }

    /// How the trigger is written in the help and the status bar.
    pub fn spell(self) -> (s: String)
        ensures
            s@ == trigger_spell(self),
    {
        match self {
            Trigger::Key(key) => key.spell(),
            Trigger::Text => "typing".to_owned(),
            Trigger::Any => "any key".to_owned(),
        }
    }
}

/// What pressing a key does.
#[derive(Debug, Clone, Copy, PartialEq, Eq)]
pub enum Dispatch<A> {
    /// Run this action.
    Run(A),
    /// Put the typed character into the focused input.
    Type,
}

/// The status bar's entry for a binding: the keys as a short label and the
/// word after them. An empty word means the model supplies it.
#[derive(Debug, Clone, Copy)]
pub struct Bar {
    pub keys: &'static str,
    pub word: &'static str,
}

/// How a binding is named to a person.
#[derive(Debug, Clone, Copy)]
pub struct Legend {
    /// The status bar's entry, when the binding has one.
    pub bar: Option<Bar>,
    /// The help overlay's words.
    pub help: &'static str,
}

/// Two legends read the same: same bar entry, same help words.
pub open spec fn same_legend(a: Legend, b: Legend) -> bool {
    &&& a.help@ == b.help@
    &&& match (a.bar, b.bar) {
        (None, None) => true,
        (Some(x), Some(y)) => x.keys@ == y.keys@ && x.word@ == y.word@,
        _ => false,
    }
}

impl Legend {
    /// Whether two legends read the same.
    pub fn same(&self, other: &Legend) -> (r: bool)
        ensures
            r == same_legend(*self, *other),
    {
        if !str_eq(self.help, other.help) {
            return false;
        }
        match (&self.bar, &other.bar) {
            (None, None) => true,
            (Some(x), Some(y)) => str_eq(x.keys, y.keys) && str_eq(x.word, y.word),
            _ => false,
        }
    }
}

/// A condition on the model a binding needs.
#[derive(Debug, Clone, Copy, PartialEq, Eq, Structural)]
pub enum When {
    Always,
    /// The search query holds nothing.
    QueryEmpty,
    /// The search query holds something.
    QueryNotEmpty,
}

/// One row of a keymap: the keys that fire it, what they do, when, and how
/// the row reads.
#[derive(Debug, Clone)]
pub struct Keybinding<A> {
    pub triggers: Vec<Trigger>,
    pub dispatch: Dispatch<A>,
    pub when: When,
    pub legend: Legend,
}

/// Some trigger of the binding fires on `key`.
pub open spec fn binding_matches<A>(b: Keybinding<A>, key: Key) -> bool {
    exists|i: int| 0 <= i < b.triggers@.len() && trigger_matches(#[trigger] b.triggers@[i], key)
}

/// Every key of the binding spelled, repeats collapsed, joined by spaces.
pub open spec fn spelled_of(triggers: Seq<Trigger>) -> Seq<char> {
    join(dedup(triggers.map_values(|t: Trigger| trigger_spell(t))), seq![' '])
}

impl<A: Copy> Keybinding<A> {
    /// Every key of the row spelled, for the help.
    pub fn spelled(&self) -> (s: String)
        ensures
            s@ == spelled_of(self.triggers@),
    {
        let ghost spells = self.triggers@.map_values(|t: Trigger| trigger_spell(t));
        let mut out = String::new();
        let mut last: Option<String> = None;
        let n = self.triggers.len();
        let mut i: usize = 0;
        while i < n
            invariant
                n == self.triggers@.len(),
                spells == self.triggers@.map_values(|t: Trigger| trigger_spell(t)),
                0 <= i <= n,
                out@ == join(dedup(spells.take(i as int)), seq![' ']),
                i == 0 ==> last is None,
                i > 0 ==> (last matches Some(l) && l@ == spells[i - 1]),
            decreases n - i,
        {
            let spelled = self.triggers[i].spell();
            let ghost pre = spells.take(i as int);
            let ghost now = spells.take(i + 1);
            assert(now.drop_last() =~= pre);
            assert(now.last() == spelled@);
            let repeat = match &last {
                Some(l) => *l == spelled,
                None => false,
            };
            if !repeat {
                proof {
                    if i > 0 {
                        lemma_dedup_last(pre);
                        assert(pre.last() == spells[i - 1]);
                        assert(now[now.len() - 2] == pre.last());
                        assert(dedup(now) == dedup(pre).push(spelled@));
                        assert(dedup(now).drop_last() =~= dedup(pre));
                    } else {
                        assert(dedup(now) =~= seq![spelled@]);
                    }
                }
                if i > 0 {
                    proof {
                        reveal_strlit(" ");
                    }
                    push_str(&mut out, " ");
                }
                push_str(&mut out, spelled.as_str());
                proof {
                    if i > 0 {
                        lemma_dedup_last(pre);
                        assert(dedup(now).len() >= 2);
                    }
                }
            } else {
                proof {
                    assert(now[now.len() - 2] == spells[i - 1]);
                    assert(dedup(now) == dedup(pre));
                }
            }
            last = Some(spelled);
            i = i + 1;
        }
        proof {
            assert(spells.take(n as int) =~= spells);
        }
        out
    }
}

/// A named set of bindings.
#[derive(Debug, Clone)]
pub struct Layer<A> {
    pub name: &'static str,
    pub bindings: Vec<Keybinding<A>>,
}

/// A legend as values: its bar entry's keys and word, and its help words.
pub type LegendView = (Option<(Seq<char>, Seq<char>)>, Seq<char>);

/// A binding as values: triggers, dispatch, condition and legend.
pub type BindingView<A> = (Seq<Trigger>, Dispatch<A>, When, LegendView);

/// A layer as values: its name and its bindings in order.
pub type LayerView<A> = (Seq<char>, Seq<BindingView<A>>);

/// A legend as values.
pub open spec fn legend_view(l: Legend) -> LegendView {
    (
        match l.bar {
            Some(b) => Some((b.keys@, b.word@)),
            None => None,
        },
        l.help@,
    )
}

/// A binding as values.
pub open spec fn binding_view<A>(b: Keybinding<A>) -> BindingView<A> {
    (b.triggers@, b.dispatch, b.when, legend_view(b.legend))
}

/// A layer as values.
pub open spec fn layer_view<A>(l: Layer<A>) -> LayerView<A> {
    (l.name@, l.bindings@.map_values(|b: Keybinding<A>| binding_view(b)))
}

/// A line of the help and the status bar: consecutive bindings that share a
/// legend read as one row.
#[derive(Debug, Clone)]
pub struct Row<'a, A> {
    pub spelled: String,
    pub legend: Legend,
    pub binding: &'a Keybinding<A>,
}

/// What a row is: its spelled keys, its legend, and the binding it starts at.
pub struct RowView<A> {
    pub spelled: Seq<char>,
    pub legend: Legend,
    pub first: Keybinding<A>,
}

/// The bindings gathered into display rows: a run that shares a legend
/// collapses into one, its keys joined by a space.
pub open spec fn rows_of<A>(bs: Seq<Keybinding<A>>) -> Seq<RowView<A>>
    decreases bs.len(),
{
    if bs.len() == 0 {
        seq![]
    } else {
        let prev = rows_of(bs.drop_last());
        let b = bs.last();
        if prev.len() > 0 && same_legend(prev.last().legend, b.legend) {
            prev.update(
                prev.len() - 1,
                RowView {
                    spelled: glue(prev.last().spelled, spelled_of(b.triggers@)),
                    legend: prev.last().legend,
                    first: prev.last().first,
                },
            )
        } else {
            prev.push(RowView { spelled: spelled_of(b.triggers@), legend: b.legend, first: b })
        }
    }
}

pub open spec fn row_view<A>(r: Row<'_, A>) -> RowView<A> {
    RowView { spelled: r.spelled@, legend: r.legend, first: *r.binding }
}

/// What each row of a list is.
pub open spec fn rows_view<A>(rows: Seq<Row<'_, A>>) -> Seq<RowView<A>> {
    rows.map_values(|r: Row<'_, A>| row_view(r))
}

/// The first binding whose condition holds and which fires on the key:
/// `holds` answered `true` for it, `false` for every earlier binding that
/// fires.
pub open spec fn first_resolved<A, F: Fn(When) -> bool>(
    bs: Seq<Keybinding<A>>,
    key: Key,
    holds: F,
    i: int,
) -> bool {
    &&& 0 <= i < bs.len()
    &&& binding_matches(bs[i], key)
    &&& call_ensures(holds, (bs[i].when,), true)
    &&& forall|j: int|
        0 <= j < i && #[trigger] binding_matches(bs[j], key) ==> call_ensures(
            holds,
            (bs[j].when,),
            false,
        )
}

/// No binding resolves: every binding that fires had `holds` answer `false`.
pub open spec fn none_resolved<A, F: Fn(When) -> bool>(
    bs: Seq<Keybinding<A>>,
    key: Key,
    holds: F,
) -> bool {
    forall|j: int|
        0 <= j < bs.len() && #[trigger] binding_matches(bs[j], key) ==> call_ensures(
            holds,
            (bs[j].when,),
            false,
        )
}

/// What `resolve` answers: the dispatch of the first binding that holds and
/// fires, or nothing.
pub open spec fn resolved<A, F: Fn(When) -> bool>(
    bs: Seq<Keybinding<A>>,
    key: Key,
    holds: F,
    r: Option<Dispatch<A>>,
) -> bool {
    match r {
        Some(d) => exists|i: int| first_resolved(bs, key, holds, i) && bs[i].dispatch == d,
        None => none_resolved(bs, key, holds),
    }
}

/// `none_resolved` with the conditions read from a spec function.
pub open spec fn none_resolved_by<A>(bs: Seq<Keybinding<A>>, key: Key, cond: spec_fn(When) -> bool) -> bool {
    forall|j: int| 0 <= j < bs.len() && #[trigger] binding_matches(bs[j], key) ==> !cond(bs[j].when)
}

/// `first_resolved` with the conditions read from a spec function.
pub open spec fn first_resolved_by<A>(bs: Seq<Keybinding<A>>, key: Key, cond: spec_fn(When) -> bool, i: int) -> bool {
    &&& 0 <= i < bs.len()
    &&& binding_matches(bs[i], key)
    &&& cond(bs[i].when)
    &&& forall|j: int| 0 <= j < i && #[trigger] binding_matches(bs[j], key) ==> !cond(bs[j].when)
}

/// `resolved` with the conditions read from a spec function.
pub open spec fn resolved_by<A>(bs: Seq<Keybinding<A>>, key: Key, cond: spec_fn(When) -> bool, r: Option<Dispatch<A>>) -> bool {
    match r {
        Some(d) => exists|i: int| first_resolved_by(bs, key, cond, i) && bs[i].dispatch == d,
        None => none_resolved_by(bs, key, cond),
    }
}

/// A closure that answers as `cond` resolves a layer as `cond` does.
pub proof fn lemma_resolved_by<A, F: Fn(When) -> bool>(
    bs: Seq<Keybinding<A>>,
    key: Key,
    holds: F,
    cond: spec_fn(When) -> bool,
    r: Option<Dispatch<A>>,
)
    requires
        resolved(bs, key, holds, r),
        forall|w: When, b: bool| call_ensures(holds, (w,), b) ==> b == cond(w),
    ensures
        resolved_by(bs, key, cond, r),
{
    match r {
        Some(d) => {
            let i = choose|i: int| first_resolved(bs, key, holds, i) && bs[i].dispatch == d;
            assert(first_resolved_by(bs, key, cond, i));
        },
        None => {},
    }
}

impl<A: Copy> Layer<A> {
    /// What `key` does here, given which conditions hold: the first binding
    /// that matches.
    pub fn resolve<F: Fn(When) -> bool>(&self, key: Key, holds: &F) -> (r: Option<Dispatch<A>>)
        requires
            forall|w: When| call_requires(*holds, (w,)),
        ensures
            resolved(self.bindings@, key, *holds, r),
    {
        let n = self.bindings.len();
        let mut i: usize = 0;
        while i < n
            invariant
                n == self.bindings@.len(),
                0 <= i <= n,
                forall|w: When| call_requires(*holds, (w,)),
                forall|j: int|
                    0 <= j < i && #[trigger] binding_matches(self.bindings@[j], key)
                        ==> call_ensures(*holds, (self.bindings@[j].when,), false),
            decreases n - i,
        {
            let b = &self.bindings[i];
            let h = holds(b.when);
            if h {
                let t = b.triggers.len();
                let mut k: usize = 0;
                let mut fires = false;
                while k < t
                    invariant
                        t == b.triggers@.len(),
                        0 <= k <= t,
                        fires <==> exists|m: int|
                            0 <= m < k && trigger_matches(#[trigger] b.triggers@[m], key),
                    decreases t - k,
                {
                    if b.triggers[k].matches(key) {
                        fires = true;
                    }
                    k = k + 1;
                }
                if fires {
                    proof {
                        assert(binding_matches(self.bindings@[i as int], key));
                        assert(first_resolved(self.bindings@, key, *holds, i as int));
                    }
                    return Some(b.dispatch);
                }
            }
            i = i + 1;
        }
        None
    }

    /// The bindings gathered into display rows: a run that shares a legend
    /// collapses into one, its keys joined.
    pub fn rows(&self) -> (rows: Vec<Row<'_, A>>)
        ensures
            rows_view(rows@) =~= rows_of(self.bindings@),
    {
        let mut rows: Vec<Row<'_, A>> = Vec::new();
        let n = self.bindings.len();
        let mut i: usize = 0;
        while i < n
            invariant
                n == self.bindings@.len(),
                0 <= i <= n,
                rows_view(rows@) =~= rows_of(self.bindings@.take(i as int)),
            decreases n - i,
        {
            let binding = &self.bindings[i];
            let spelled = binding.spelled();
            let ghost bs = self.bindings@.take(i + 1);
            proof {
                assert(bs.drop_last() =~= self.bindings@.take(i as int));
                assert(bs.last() == *binding);
            }
            let merge = rows.len() > 0 && rows[rows.len() - 1].legend.same(&binding.legend);
            if merge {
                let ghost before = rows@;
                let mut row = rows.pop().unwrap();
                let ghost was = row.spelled@;
                if !row.spelled.as_str().is_empty() && !spelled.as_str().is_empty() {
                    proof {
                        reveal_strlit(" ");
                    }
                    push_str(&mut row.spelled, " ");
                }
                push_str(&mut row.spelled, spelled.as_str());
                proof {
                    assert(row.spelled@ =~= glue(was, spelled@));
                }
                rows.push(row);
                proof {
                    assert(rows@ =~= before.update(before.len() - 1, row));
                }
            } else {
                rows.push(Row { spelled, legend: binding.legend, binding });
            }
            i = i + 1;
        }
        proof {
            assert(self.bindings@.take(n as int) =~= self.bindings@);
        }
        rows
    }
}

} // verus!
