use vvv::action::Action;
use vvv::keymap::{Dispatch, Layer, Trigger, When};
use vvv::keys::{Code, Key, Modifiers};
use vvv::screen::defaults::{self, Defaults};
use vvv::screen::{history, moving, overlay, rename, rewrite, search, Screen};

fn layers() -> Vec<Layer<Action>> {
    let mut layers = vec![
        defaults::global(),
        defaults::navigate(),
        defaults::digits(),
        defaults::list(),
        defaults::text(),
    ];
    let screens: Vec<Screen> = vec![
        search::search(),
        rename::rename(),
        moving::moving(),
        rewrite::rewrite(),
        history::history(),
        overlay::menu_screen(),
        overlay::confirm_screen(),
        overlay::help_screen(),
    ];
    for screen in screens {
        layers.push(screen.layer.clone());
        for panel in screen.panels {
            layers.push(panel.layer.clone());
        }
    }
    layers
}

/// Every layer binds a key at most once per condition, and every bar label
/// is spelled from the keys of the row it describes.
#[test]
fn layers_are_well_formed() {
    for layer in layers() {
        for row in layer.rows() {
            let Some(bar) = row.legend.bar else {
                continue;
            };
            let spelled: Vec<&str> = row.spelled.split_whitespace().collect();
            let parts: Vec<&str> = if spelled.contains(&bar.keys) {
                vec![bar.keys]
            } else {
                bar.keys.split(['/', ' ']).filter(|p| !p.is_empty()).collect()
            };
            for part in parts {
                assert!(
                    spelled.contains(&part) || part == "tab",
                    "{:?} names {part:?}, which {:?} does not spell",
                    bar.keys,
                    row.spelled
                );
            }
        }
        let mut seen: Vec<(Key, When)> = Vec::new();
        for binding in &layer.bindings {
            for trigger in &binding.triggers {
                let Trigger::Key(key) = trigger else {
                    continue;
                };
                assert!(!seen.contains(&(*key, binding.when)), "{key:?} is bound twice in {:?}", layer.name);
                seen.push((*key, binding.when));
            }
        }
    }
}

#[test]
fn keys_spell_as_the_help_writes_them() {
    assert_eq!(Key::ctrl('c').spell(), "ctrl+c");
    assert_eq!(Key::char('j').spell(), "j");
    assert_eq!(Key::enter().spell(), "⏎");
    assert_eq!(Key::char('a').text(), Some('a'));
    assert_eq!(Key::ctrl('a').text(), None);
    assert_eq!(Key::tab().text(), None);
    let both = Modifiers::ctrl().union(Modifiers::alt());
    assert!(both.contains(Modifiers::ctrl()));
    assert!(both.contains(Modifiers::alt()));
    assert!(!Modifiers::none().contains(Modifiers::ctrl()));
    assert_eq!(Key::new(Code::Char('x'), Modifiers::none()), Key::char('x'));
}

#[test]
fn the_first_binding_that_holds_and_fires_wins() {
    let global = defaults::global();
    let always = |_: When| true;
    assert_eq!(global.resolve(Key::ctrl('c'), &always), Some(Dispatch::Run(Action::Quit)));
    assert_eq!(global.resolve(Key::char('z'), &always), None);
    let screen = search::search();
    let d = Defaults::new();
    // The query holds text: `esc` clears it.
    let not_empty = |w: When| w != When::QueryEmpty;
    assert_eq!(screen.resolve(&d, 0, Key::esc(), &not_empty), Some(Dispatch::Run(Action::Clear)));
    // Empty, `esc` quits.
    let empty = |w: When| w != When::QueryNotEmpty;
    assert_eq!(screen.resolve(&d, 0, Key::esc(), &empty), Some(Dispatch::Run(Action::Quit)));
}

#[test]
fn a_run_of_rows_with_one_legend_reads_as_one_row() {
    let layer = search::query();
    let rows = layer.rows();
    let walk: Vec<_> = rows.iter().filter(|r| r.legend.help == "walk the results without leaving the query").collect();
    assert_eq!(walk.len(), 1);
    assert_eq!(walk[0].spelled, "ctrl+n ctrl+p");
}

#[test]
fn help_lists_the_panel_then_the_globals() {
    let screen = search::search();
    let d = Defaults::new();
    let layers = screen.help_layers(&d, 1);
    let names: Vec<&str> = layers.iter().map(|l| l.name).collect();
    assert_eq!(names.last(), Some(&d.global.name));
    assert_eq!(names[0], screen.panels[1].layer.name);
    let chain = screen.chain(&d, 1);
    assert_eq!(chain[0].name, d.global.name);
}

#[test]
fn the_globals_answer_first_on_every_screen_and_focus() {
    let d = Defaults::new();
    let always = |_: When| true;
    let screens: Vec<Screen> = vec![
        search::search(),
        rename::rename(),
        moving::moving(),
        rewrite::rewrite(),
        history::history(),
        overlay::menu_screen(),
        overlay::confirm_screen(),
        overlay::help_screen(),
        overlay::report_screen(),
    ];
    for s in &screens {
        for focus in 0..=s.panels.len() {
            assert_eq!(s.resolve(&d, focus, Key::ctrl('c'), &always), Some(Dispatch::Run(Action::Quit)));
        }
    }
}
