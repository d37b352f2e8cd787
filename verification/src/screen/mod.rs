//! The keys of each screen: the keys that work from any of its panels, and
//! the panels it is made of, each with its own keys and the kind that
//! selects its shared defaults. How a key resolves walks that tree.

use vstd::prelude::*;

use crate::action::Action;
use crate::keymap::{
    binding_matches, first_resolved_by, lemma_resolved_by, none_resolved, none_resolved_by, resolved,
    resolved_by, rows_of, rows_view, Keybinding,
    layer_view, Dispatch, Layer, LayerView, Row, RowView, When,
};
use crate::keys::Key;
use crate::model::PanelKind;
use crate::text::str_eq;

pub mod defaults;
pub mod history;
pub mod moving;
pub mod overlay;
pub mod rename;
pub mod rewrite;
pub mod search;

use self::defaults::Defaults;

verus! {

/// One region of a screen: its own keys, and the kind that selects the
/// shared defaults. `None` for a region that is drawn but never focused,
/// such as a header or an overlay's box.
#[derive(Debug, Clone)]
pub struct Panel {
    pub layer: Layer<Action>,
    pub kind: Option<PanelKind>,
}

/// One screen: the keys that work from any of its panels, and the panels
/// it is made of.
#[derive(Debug, Clone)]
pub struct Screen {
    pub layer: Layer<Action>,
    pub panels: Vec<Panel>,
}

/// A panel as values: its keys and its kind.
pub type PanelView = (LayerView<Action>, Option<PanelKind>);

/// A panel as values.
pub open spec fn panel_view(p: Panel) -> PanelView {
    (layer_view(p.layer), p.kind)
}

/// A screen as values: its own keys and its panels in order.
pub open spec fn screen_view(s: Screen) -> (LayerView<Action>, Seq<PanelView>) {
    (layer_view(s.layer), s.panels@.map_values(|p: Panel| panel_view(p)))
}

/// The panels that can hold the focus, in order.
pub open spec fn focusable(panels: Seq<Panel>) -> Seq<Panel> {
    panels.filter(|p: Panel| p.kind is Some)
}

/// The layer of defaults a panel of this kind answers.
pub open spec fn default_layer(d: Defaults, kind: PanelKind) -> Option<Layer<Action>> {
    match kind {
        PanelKind::Input => None,
        PanelKind::List => Some(d.list),
        PanelKind::Text => Some(d.text),
    }
}

/// The layers a key goes through, most specific first, after the globals:
/// the focused panel, the screen, the panel kind's defaults, focus movement,
/// then the digits when the panel is not an input. Without a focusable
/// panel, the screen alone.
pub open spec fn panel_layers(screen: Screen, d: Defaults, focus: int) -> Seq<Layer<Action>> {
    let f = focusable(screen.panels@);
    if 0 <= focus < f.len() {
        let p = f[focus];
        let kind = p.kind.unwrap();
        seq![p.layer, screen.layer] + (match default_layer(d, kind) {
            Some(l) => seq![l],
            None => seq![],
        }) + seq![d.navigate] + (if kind != PanelKind::Input {
            seq![d.digits]
        } else {
            seq![]
        })
    } else {
        seq![screen.layer]
    }
}

/// The whole chain a key goes through: the globals first.
pub open spec fn key_chain(screen: Screen, d: Defaults, focus: int) -> Seq<Layer<Action>> {
    seq![d.global] + panel_layers(screen, d, focus)
}

/// The chain's answer: the first layer that resolves the key, every layer
/// before it resolving nothing; or nothing when no layer does.
pub open spec fn chain_resolved<F: Fn(When) -> bool>(
    ls: Seq<Layer<Action>>,
    key: Key,
    holds: F,
    r: Option<Dispatch<Action>>,
) -> bool {
    match r {
        Some(d) => exists|k: int| resolved_at(ls, key, holds, k, d),
        None => forall|j: int| 0 <= j < ls.len() ==> none_resolved(#[trigger] ls[j].bindings@, key, holds),
    }
}

/// Layer `k` resolves the key to `d`, every layer before it resolving
/// nothing.
pub open spec fn resolved_at<F: Fn(When) -> bool>(
    ls: Seq<Layer<Action>>,
    key: Key,
    holds: F,
    k: int,
    d: Dispatch<Action>,
) -> bool {
    &&& 0 <= k < ls.len()
    &&& forall|j: int| 0 <= j < k ==> none_resolved(#[trigger] ls[j].bindings@, key, holds)
    &&& resolved(ls[k].bindings@, key, holds, Some(d))
}

/// `chain_resolved` with the conditions read from a spec function.
pub open spec fn chain_resolved_by(
    ls: Seq<Layer<Action>>,
    key: Key,
    cond: spec_fn(When) -> bool,
    r: Option<Dispatch<Action>>,
) -> bool {
    match r {
        Some(d) => exists|k: int|
            0 <= k < ls.len() && (forall|j: int| 0 <= j < k ==> none_resolved_by(#[trigger] ls[j].bindings@, key, cond))
                && resolved_by(ls[k].bindings@, key, cond, Some(d)),
        None => forall|j: int| 0 <= j < ls.len() ==> none_resolved_by(#[trigger] ls[j].bindings@, key, cond),
    }
}

/// A closure that answers as `cond` resolves a chain as `cond` does.
pub proof fn lemma_chain_resolved_by<F: Fn(When) -> bool>(
    ls: Seq<Layer<Action>>,
    key: Key,
    holds: F,
    cond: spec_fn(When) -> bool,
    r: Option<Dispatch<Action>>,
)
    requires
        chain_resolved(ls, key, holds, r),
        forall|w: When, b: bool| call_ensures(holds, (w,), b) ==> b == cond(w),
    ensures
        chain_resolved_by(ls, key, cond, r),
{
    match r {
        Some(d) => {
            let k = choose|k: int| resolved_at(ls, key, holds, k, d);
            assert forall|j: int| 0 <= j < k implies none_resolved_by(#[trigger] ls[j].bindings@, key, cond) by {
                assert(none_resolved(ls[j].bindings@, key, holds));
                lemma_resolved_by(ls[j].bindings@, key, holds, cond, None);
            }
            lemma_resolved_by(ls[k].bindings@, key, holds, cond, Some(d));
        },
        None => {
            assert forall|j: int| 0 <= j < ls.len() implies none_resolved_by(#[trigger] ls[j].bindings@, key, cond) by {
                lemma_resolved_by(ls[j].bindings@, key, holds, cond, None);
            }
        },
    }
}

/// Under one reading of the conditions, a layer resolves a key to one
/// dispatch at most.
pub proof fn lemma_resolved_by_unique<A>(
    bs: Seq<Keybinding<A>>,
    key: Key,
    cond: spec_fn(When) -> bool,
    x: Dispatch<A>,
    y: Dispatch<A>,
)
    requires
        resolved_by(bs, key, cond, Some(x)),
        resolved_by(bs, key, cond, Some(y)),
    ensures
        x == y,
{
    let i = choose|i: int| first_resolved_by(bs, key, cond, i) && bs[i].dispatch == x;
    let k = choose|k: int| first_resolved_by(bs, key, cond, k) && bs[k].dispatch == y;
    if i < k {
        assert(binding_matches(bs[i], key));
    } else if k < i {
        assert(binding_matches(bs[k], key));
    }
}

/// The globals come first: a key that the global layer resolves does the
/// same on every screen and from every focus, whatever the panel, the
/// screen or their defaults bind it to, as long as each condition reads
/// the same each time it is asked.
pub proof fn law_globals_come_first<F: Fn(When) -> bool>(
    screen: Screen,
    d: Defaults,
    focus: int,
    key: Key,
    holds: F,
    cond: spec_fn(When) -> bool,
    x: Dispatch<Action>,
    r: Option<Dispatch<Action>>,
)
    requires
        forall|w: When, b: bool| call_ensures(holds, (w,), b) ==> b == cond(w),
        resolved_by(d.global.bindings@, key, cond, Some(x)),
        chain_resolved(key_chain(screen, d, focus), key, holds, r),
    ensures
        r == Some(x),
{
    let ls = key_chain(screen, d, focus);
    assert(ls[0] == d.global);
    lemma_chain_resolved_by(ls, key, holds, cond, r);
    let i = choose|i: int| first_resolved_by(d.global.bindings@, key, cond, i) && d.global.bindings@[i].dispatch == x;
    match r {
        None => {
            assert(none_resolved_by(ls[0].bindings@, key, cond));
            assert(binding_matches(d.global.bindings@[i], key));
        },
        Some(y) => {
            let k = choose|k: int|
                0 <= k < ls.len() && (forall|j: int| 0 <= j < k ==> none_resolved_by(#[trigger] ls[j].bindings@, key, cond))
                    && resolved_by(ls[k].bindings@, key, cond, Some(y));
            if k > 0 {
                assert(none_resolved_by(ls[0].bindings@, key, cond));
                assert(binding_matches(d.global.bindings@[i], key));
            } else {
                lemma_resolved_by_unique(d.global.bindings@, key, cond, x, y);
            }
        },
    }
}

/// The globals come first, for any closure that gives one answer per
/// condition: whatever the global layer resolves a key to with that
/// closure, the whole chain of any screen and focus resolves it to the
/// same.
pub proof fn law_globals_come_first_for_a_steady_closure<F: Fn(When) -> bool>(
    screen: Screen,
    d: Defaults,
    focus: int,
    key: Key,
    holds: F,
    x: Dispatch<Action>,
    r: Option<Dispatch<Action>>,
)
    requires
        forall|w: When, a: bool, b: bool| call_ensures(holds, (w,), a) && call_ensures(holds, (w,), b) ==> a == b,
        resolved(d.global.bindings@, key, holds, Some(x)),
        chain_resolved(key_chain(screen, d, focus), key, holds, r),
    ensures
        r == Some(x),
{
    let cond = |w: When| call_ensures(holds, (w,), true);
    assert forall|w: When, b: bool| call_ensures(holds, (w,), b) implies b == cond(w) by {
        if !b && call_ensures(holds, (w,), true) {
            assert(false);
        }
    }
    lemma_resolved_by(d.global.bindings@, key, holds, cond, Some(x));
    law_globals_come_first(screen, d, focus, key, holds, cond, x, r);
}

/// The rows of each layer, one after the other.
pub open spec fn rows_all(ls: Seq<Layer<Action>>) -> Seq<RowView<Action>>
    decreases ls.len(),
{
    if ls.len() == 0 {
        seq![]
    } else {
        rows_all(ls.drop_last()) + rows_of(ls.last().bindings@)
    }
}

/// `i` is the first section named `name`.
pub open spec fn first_named(prev: Seq<(Seq<char>, Seq<RowView<Action>>)>, name: Seq<char>, i: int) -> bool {
    &&& 0 <= i < prev.len()
    &&& prev[i].0 == name
    &&& forall|j: int| 0 <= j < i ==> (#[trigger] prev[j]).0 != name
}

/// One layer added to the help's sections: its rows appended to the first
/// section of its name, or a new section at the end; nothing for a layer
/// without rows.
pub open spec fn with_section(
    prev: Seq<(Seq<char>, Seq<RowView<Action>>)>,
    l: Layer<Action>,
) -> Seq<(Seq<char>, Seq<RowView<Action>>)> {
    let rows = rows_of(l.bindings@);
    if rows.len() == 0 {
        prev
    } else if exists|i: int| first_named(prev, l.name@, i) {
        let i = choose|i: int| first_named(prev, l.name@, i);
        prev.update(i, (prev[i].0, prev[i].1 + rows))
    } else {
        prev.push((l.name@, rows))
    }
}

/// The help's sections: layers grouped by name in the order the names
/// first appear.
pub open spec fn sections_of(ls: Seq<Layer<Action>>) -> Seq<(Seq<char>, Seq<RowView<Action>>)>
    decreases ls.len(),
{
    if ls.len() == 0 {
        seq![]
    } else {
        with_section(sections_of(ls.drop_last()), ls.last())
    }
}


impl Screen {
    /// The n-th focusable panel.
    pub fn panel(&self, focus: usize) -> (r: Option<&Panel>)
        ensures
            focus < focusable(self.panels@).len() ==> r == Some(&focusable(self.panels@)[focus as int]),
            focus >= focusable(self.panels@).len() ==> r is None,
    {
        let n = self.panels.len();
        let mut i: usize = 0;
        let mut seen: usize = 0;
        while i < n
            invariant
                n == self.panels@.len(),
                0 <= i <= n,
                seen == focusable(self.panels@.take(i as int)).len(),
                seen <= focus,
            decreases n - i,
        {
            proof {
                lemma_focusable_step(self.panels@, i as int);
            }
            if self.panels[i].kind.is_some() {
                if seen == focus {
                    proof {
                        lemma_focusable_prefix(self.panels@, i + 1);
                        assert(focusable(self.panels@.take(i + 1))[focus as int] == self.panels@[i as int]);
                        assert(focusable(self.panels@)[focus as int] == self.panels@[i as int]);
                    }
                    return Some(&self.panels[i]);
                }
                seen = seen + 1;
            }
            i = i + 1;
        }
        proof {
            assert(self.panels@.take(n as int) =~= self.panels@);
        }
        None
    }

    /// The chain of layers a key goes through for this focus.
    pub fn chain<'a>(&'a self, defaults: &'a Defaults, focus: usize) -> (ls: Vec<&'a Layer<Action>>)
        ensures
            ls@.map_values(|l: &Layer<Action>| *l) =~= key_chain(*self, *defaults, focus as int),
    {
        let mut ls: Vec<&'a Layer<Action>> = Vec::new();
        ls.push(&defaults.global);
        match self.panel(focus) {
            None => {
                ls.push(&self.layer);
            },
            Some(panel) => {
                ls.push(&panel.layer);
                ls.push(&self.layer);
                let kind = panel.kind.unwrap();
                match defaults.default_for(kind) {
                    Some(l) => ls.push(l),
                    None => {},
                }
                ls.push(&defaults.navigate);
                if kind != PanelKind::Input {
                    ls.push(&defaults.digits);
                }
            },
        }
        proof {
            lemma_focusable_kind(self.panels@, focus as int);
        }
        ls
    }

    /// What `key` does here: the globals first, then the focused panel, the
    /// screen, the panel's kind defaults, then navigation.
    pub fn resolve<F: Fn(When) -> bool>(
        &self,
        defaults: &Defaults,
        focus: usize,
        key: Key,
        holds: &F,
    ) -> (r: Option<Dispatch<Action>>)
        requires
            forall|w: When| call_requires(*holds, (w,)),
        ensures
            chain_resolved(key_chain(*self, *defaults, focus as int), key, *holds, r),
    {
        let ls = self.chain(defaults, focus);
        let ghost chain = key_chain(*self, *defaults, focus as int);
        let n = ls.len();
        let mut i: usize = 0;
        while i < n
            invariant
                n == ls@.len(),
                ls@.map_values(|l: &Layer<Action>| *l) =~= chain,
                chain == key_chain(*self, *defaults, focus as int),
                0 <= i <= n,
                forall|w: When| call_requires(*holds, (w,)),
                forall|j: int| 0 <= j < i ==> none_resolved(#[trigger] chain[j].bindings@, key, *holds),
            decreases n - i,
        {
            let found = ls[i].resolve(key, holds);
            proof {
                assert(chain[i as int] == *ls@[i as int]);
            }
            if let Some(d) = found {
                proof {
                    assert(resolved(chain[i as int].bindings@, key, *holds, Some(d)));
                    assert(resolved_at(chain, key, *holds, i as int, d));
                }
                return Some(d);
            }
            i = i + 1;
        }
        None
    }

    /// The layers the help and the status bar describe for a focus: the
    /// panel's chain without the globals, then the globals.
    pub fn help_layers<'a>(&'a self, defaults: &'a Defaults, focus: usize) -> (ls: Vec<&'a Layer<Action>>)
        ensures
            ls@.map_values(|l: &Layer<Action>| *l) =~= panel_layers(*self, *defaults, focus as int)
                + seq![defaults.global],
    {
        let mut ls: Vec<&'a Layer<Action>> = Vec::new();
        match self.panel(focus) {
            None => {
                ls.push(&self.layer);
            },
            Some(panel) => {
                ls.push(&panel.layer);
                ls.push(&self.layer);
                let kind = panel.kind.unwrap();
                match defaults.default_for(kind) {
                    Some(l) => ls.push(l),
                    None => {},
                }
                ls.push(&defaults.navigate);
                if kind != PanelKind::Input {
                    ls.push(&defaults.digits);
                }
            },
        }
        ls.push(&defaults.global);
        proof {
            lemma_focusable_kind(self.panels@, focus as int);
        }
        ls
    }

    /// The help's sections for a focus: the panel, the screen, the kind
    /// default and the globals, grouped by name.
    pub fn sections<'a>(&'a self, defaults: &'a Defaults, focus: usize) -> (r: Vec<(&'static str, Vec<Row<'a, Action>>)>)
        ensures
            r@.map_values(|s: (&'static str, Vec<Row<'a, Action>>)| section_view(s))
                =~= sections_of(panel_layers(*self, *defaults, focus as int) + seq![defaults.global]),
    {
        let ls = self.help_layers(defaults, focus);
        let ghost layers = panel_layers(*self, *defaults, focus as int) + seq![defaults.global];
        let mut sections = Sections { all: Vec::new() };
        let n = ls.len();
        let mut i: usize = 0;
        while i < n
            invariant
                n == ls@.len(),
                ls@.map_values(|l: &Layer<Action>| *l) =~= layers,
                0 <= i <= n,
                sections.view() =~= sections_of(layers.take(i as int)),
            decreases n - i,
        {
            proof {
                assert(layers.take(i + 1).drop_last() =~= layers.take(i as int));
                assert(layers.take(i + 1).last() == *ls@[i as int]);
            }
            sections.add(ls[i]);
            i = i + 1;
        }
        proof {
            assert(layers.take(n as int) =~= layers);
        }
        sections.into_vec()
    }

    /// The status bar's rows for a focus, most specific first.
    pub fn rows<'a>(&'a self, defaults: &'a Defaults, focus: usize) -> (r: Vec<Row<'a, Action>>)
        ensures
            rows_view(r@) =~= rows_all(panel_layers(*self, *defaults, focus as int) + seq![defaults.global]),
    {
        let ls = self.help_layers(defaults, focus);
        let ghost layers = panel_layers(*self, *defaults, focus as int) + seq![defaults.global];
        let mut rows: Vec<Row<'a, Action>> = Vec::new();
        let n = ls.len();
        let mut i: usize = 0;
        while i < n
            invariant
                n == ls@.len(),
                ls@.map_values(|l: &Layer<Action>| *l) =~= layers,
                0 <= i <= n,
                rows_view(rows@) =~= rows_all(layers.take(i as int)),
            decreases n - i,
        {
            proof {
                assert(layers.take(i + 1).drop_last() =~= layers.take(i as int));
                assert(layers.take(i + 1).last() == *ls@[i as int]);
            }
            let mut more = ls[i].rows();
            rows.append(&mut more);
            i = i + 1;
        }
        proof {
            assert(layers.take(n as int) =~= layers);
        }
        rows
    }
}

proof fn lemma_focusable_step(panels: Seq<Panel>, i: int)
    requires
        0 <= i < panels.len(),
    ensures
        focusable(panels.take(i + 1)) == if panels[i].kind is Some {
            focusable(panels.take(i)).push(panels[i])
        } else {
            focusable(panels.take(i))
        },
{
    assert(panels.take(i + 1) =~= panels.take(i).push(panels[i]));
    panels.take(i).lemma_filter_push(panels[i], |p: Panel| p.kind is Some);
}

proof fn lemma_focusable_prefix(panels: Seq<Panel>, i: int)
    requires
        0 <= i <= panels.len(),
    ensures
        forall|k: int| 0 <= k < focusable(panels.take(i)).len() ==> focusable(panels)[k] == #[trigger] focusable(panels.take(i))[k],
        focusable(panels.take(i)).len() <= focusable(panels).len(),
    decreases panels.len() - i,
{
    if i < panels.len() {
        lemma_focusable_prefix(panels, i + 1);
        lemma_focusable_step(panels, i);
        assert forall|k: int| 0 <= k < focusable(panels.take(i)).len() implies focusable(panels)[k]
            == #[trigger] focusable(panels.take(i))[k] by {
            assert(focusable(panels.take(i + 1))[k] == focusable(panels.take(i))[k]);
        }
    } else {
        assert(panels.take(i) =~= panels);
    }
}

proof fn lemma_focusable_kind(panels: Seq<Panel>, k: int)
    ensures
        0 <= k < focusable(panels).len() ==> focusable(panels)[k].kind is Some,
{
    if 0 <= k < focusable(panels).len() {
        panels.lemma_filter_pred(|p: Panel| p.kind is Some, k);
    }
}

/// What a section is: its name and its rows.
pub open spec fn section_view<'a>(s: (&'static str, Vec<Row<'a, Action>>)) -> (Seq<char>, Seq<RowView<Action>>) {
    (s.0@, rows_view(s.1@))
}

/// The help's sections while they are built: layers grouped by name, in the
/// order they are first added.
pub struct Sections<'a> {
    pub all: Vec<(&'static str, Vec<Row<'a, Action>>)>,
}

impl<'a> Sections<'a> {
    pub open spec fn view(&self) -> Seq<(Seq<char>, Seq<RowView<Action>>)> {
        self.all@.map_values(|s: (&'static str, Vec<Row<'a, Action>>)| section_view(s))
    }

    /// A layer's rows under its name: appended to the section of that name,
    /// or a new section at the end; nothing for a layer without rows.
    pub fn add(&mut self, layer: &'a Layer<Action>)
        ensures
            final(self).view() =~= with_section(old(self).view(), *layer),
    {
        let mut rows = layer.rows();
        let ghost fresh = rows_of(layer.bindings@);
        proof {
            assert(rows_view(rows@) =~= fresh);
        }
        if rows.len() == 0 {
            return;
        }
        let ghost prev = self.view();
        let n = self.all.len();
        let mut i: usize = 0;
        while i < n
            invariant
                n == self.all@.len(),
                prev == self.view(),
                prev == old(self).view(),
                rows_view(rows@) =~= rows_of(layer.bindings@),
                rows@.len() > 0,
                0 <= i <= n,
                forall|j: int| 0 <= j < i ==> (#[trigger] prev[j]).0 != layer.name@,
            decreases n - i,
        {
            if str_eq(self.all[i].0, layer.name) {
                proof {
                    assert(first_named(prev, layer.name@, i as int));
                    let c = choose|c: int| first_named(prev, layer.name@, c);
                    assert(c == i as int) by {
                        if c < i {
                            assert(prev[c].0 != layer.name@);
                        } else if c > i {
                            assert(prev[i as int].0 == layer.name@);
                        }
                    }
                }
                let ghost before = self.all@;
                let ghost added = rows_view(rows@);
                let (name, mut all) = self.all.remove(i);
                let ghost old_rows = rows_view(all@);
                all.append(&mut rows);
                let ghost new_rows = rows_view(all@);
                proof {
                    assert(new_rows =~= old_rows + added);
                }
                let ghost entry = (name, all);
                proof {
                    assert(section_view(entry).1 == new_rows);
                }
                self.all.insert(i, (name, all));
                proof {
                    assert(self.all@ =~= before.update(i as int, entry));
                    assert(name == before[i as int].0);
                    assert(prev[i as int] == section_view(before[i as int]));
                    assert(section_view(entry) == (prev[i as int].0, prev[i as int].1 + rows_of(layer.bindings@)));
                    assert forall|j: int| 0 <= j < prev.len() implies #[trigger] self.view()[j] == prev.update(i as int, (prev[i as int].0, prev[i as int].1 + rows_of(layer.bindings@)))[j] by {
                        if j != i {
                            assert(self.all@[j] == before[j]);
                        }
                    }
                    assert(self.view() =~= prev.update(i as int, (prev[i as int].0, prev[i as int].1 + rows_of(layer.bindings@))));
                }
                return;
            }
            i = i + 1;
        }
        proof {
            assert(!exists|c: int| first_named(prev, layer.name@, c));
        }
        let ghost before = self.all@;
        self.all.push((layer.name, rows));
        proof {
            assert(section_view(self.all@[before.len() as int]) == (layer.name@, rows_of(layer.bindings@)));
            assert(self.view() =~= prev.push((layer.name@, rows_of(layer.bindings@))));
        }
    }

    pub fn into_vec(self) -> (r: Vec<(&'static str, Vec<Row<'a, Action>>)>)
        ensures
            r@ == self.all@,
    {
        self.all
    }
}

} // verus!
