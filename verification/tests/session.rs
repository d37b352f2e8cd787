use vvv::action::Effect;
use vvv::engine::Intent;
use vvv::query::Query;
use vvv::session::{editor_command, route, Debounce, Route};

fn query() -> Query {
    Query { pattern: Some("x".into()), kind: None, symbol: None, name: None, language: None }
}

fn plan(debounce: bool) -> Effect {
    Effect::Plan { generation: 1, intent: Intent::Move { from: "a".into(), to: "b".into() }, debounce }
}

#[test]
fn typing_waits_and_the_rest_goes_at_once() {
    assert_eq!(route(&Effect::Search { generation: 1, query: query() }, true), Route::Hold);
    assert_eq!(route(&plan(true), true), Route::Hold);
    assert_eq!(route(&plan(false), true), Route::Send, "the plan that opens a mode goes at once");
    assert_eq!(route(&Effect::History, false), Route::Send);
    assert_eq!(route(&Effect::Edit { path: "a.rs".into(), line: 3 }, true), Route::Edit { path: "a.rs".into(), line: 3 });
    assert_eq!(route(&Effect::Edit { path: "a.rs".into(), line: 3 }, false), Route::NoEditor);
}

#[test]
fn the_newest_held_request_goes_after_the_pause() {
    let mut d = Debounce::new();
    assert!(d.release(1000, 120).is_none());
    d.hold(plan(true), 100);
    d.hold(Effect::Search { generation: 2, query: query() }, 150);
    assert!(d.release(200, 120).is_none(), "not yet");
    match d.release(270, 120) {
        Some(Effect::Search { generation, .. }) => assert_eq!(generation, 2, "the newest wins"),
        other => panic!("{other:?}"),
    }
    assert!(d.pending.is_none());
    assert!(d.release(1000, 120).is_none(), "sent once");
}

#[test]
fn the_editor_opens_at_the_line() {
    assert_eq!(
        editor_command("code --wait", 41),
        Some(("code".to_string(), vec!["--wait".to_string(), "+42".to_string()]))
    );
    assert_eq!(editor_command("  hx ", 0), Some(("hx".to_string(), vec!["+1".to_string()])));
    assert_eq!(editor_command("   ", 3), None);
}
