use prism_notify::config::{Config, Corner, Opacity};
use prism_notify::notification::{image_from_data, Action, Notification, Urgency};
use prism_notify::ui::{
    Card, NotifyApp, Row, UiEvent, UiEventKind, UserAction, SHADOW_GUTTER, STACK_KEY,
};
use std::rc::Rc;

fn notification(id: u32) -> Notification {
    Notification {
        id,
        app_name: format!("app {id}"),
        summary: "summary".into(),
        body: "body".into(),
        urgency: Urgency::Normal,
        actions: vec![
            Action { key: "open".into(), label: "Open".into() },
            Action { key: "2-close".into(), label: "Odd".into() },
        ],
        has_default_action: false,
        image: None,
        expire_timeout: -1,
    }
}

fn app(corner: Corner, max_visible: usize, items: Vec<Notification>) -> NotifyApp {
    let config = Config { corner, max_visible, ..Config::default() };
    let mut app = NotifyApp::new(&config);
    app.set_state(items.into_iter().map(Rc::new).collect());
    app
}

fn labels(app: &NotifyApp) -> Vec<String> {
    app.build()
        .rows
        .iter()
        .map(|row| match row {
            Row::Card(card) => card.key.clone(),
            Row::More(label) => label.clone(),
        })
        .collect()
}

fn first_card(app: &NotifyApp) -> Card<'_> {
    match app.build().rows.remove(0) {
        Row::Card(card) => card,
        Row::More(label) => panic!("{label}"),
    }
}

#[test]
fn cards_stand_newest_first() {
    let app = app(Corner::TopRight, 8, vec![notification(12), notification(3)]);
    assert_eq!(labels(&app), vec!["n-12", "n-3"]);
}

#[test]
fn overflow_is_counted() {
    let items = || vec![notification(4), notification(3), notification(2), notification(1)];
    assert_eq!(labels(&app(Corner::TopLeft, 2, items())), vec!["n-4", "n-3", "+2 more"]);
    assert_eq!(labels(&app(Corner::TopLeft, 4, items())), vec!["n-4", "n-3", "n-2", "n-1"]);
    assert_eq!(labels(&app(Corner::TopLeft, 0, items())), vec!["+4 more"]);
}

#[test]
fn bottom_corners_grow_upward() {
    let items = vec![notification(3), notification(2), notification(1)];
    let app = app(Corner::BottomLeft, 2, items);
    assert_eq!(labels(&app), vec!["+1 more", "n-2", "n-3"]);
}

#[test]
fn the_tree_has_the_configured_gap() {
    let app = app(Corner::TopRight, 8, vec![]);
    let tree = app.build();
    assert!(tree.rows.is_empty());
    assert_eq!((tree.gap, tree.padding), (8, SHADOW_GUTTER));
    assert_eq!((SHADOW_GUTTER, STACK_KEY), (16, "stack"));
}

#[test]
fn a_card_shows_its_notification() {
    let mut n = notification(7);
    n.image = image_from_data(1, 1, 3, false, 8, 3, &[1, 2, 3]);
    let app = app(Corner::TopRight, 8, vec![n]);
    let card = first_card(&app);
    assert_eq!((card.key.as_str(), card.close_key.as_str()), ("n-7", "n-7-close"));
    assert_eq!(card.app_name, "app 7");
    assert_eq!((card.title, card.description), (Some("summary"), Some("body")));
    assert_eq!(card.image.unwrap().pixels(), &[1, 2, 3, 0xff]);
    assert_eq!(card.buttons.len(), 2);
    assert_eq!((card.buttons[0].key.as_str(), card.buttons[0].label), ("n-7-act-open", "Open"));
    assert_eq!((card.buttons[1].key.as_str(), card.buttons[1].label), ("n-7-act-2-close", "Odd"));
}

#[test]
fn empty_texts_make_no_lines() {
    let mut n = notification(7);
    n.summary.clear();
    n.body.clear();
    n.actions.clear();
    let app = app(Corner::TopRight, 8, vec![n]);
    let card = first_card(&app);
    assert!(card.title.is_none() && card.description.is_none());
    assert!(card.image.is_none() && card.buttons.is_empty());
}

#[test]
fn urgency_shows() {
    let looks = |urgency: Urgency| {
        let app = app(Corner::TopRight, 8, vec![Notification { urgency, ..notification(1) }]);
        let card = first_card(&app);
        (card.critical, card.dimmed, card.opacity)
    };
    let configured = Opacity { bits: 0.8f32.to_bits() };
    assert_eq!(looks(Urgency::Low), (false, true, configured));
    assert_eq!(looks(Urgency::Normal), (false, false, configured));
    assert_eq!(looks(Urgency::Critical), (true, false, Opacity { bits: 1.0f32.to_bits() }));
}

fn event(kind: UiEventKind, key: Option<&str>) -> UiEvent {
    UiEvent { kind, key: key.map(String::from) }
}

fn clicked(app: &mut NotifyApp, key: &str) -> Vec<UserAction> {
    app.on_event(&event(UiEventKind::Click, Some(key)));
    app.take_actions()
}

#[test]
fn the_cross_dismisses() {
    let mut app = app(Corner::TopRight, 8, vec![notification(1), notification(11)]);
    assert!(matches!(clicked(&mut app, "n-11-close")[..], [UserAction::Dismiss(11)]));
    assert!(matches!(clicked(&mut app, "n-1-close")[..], [UserAction::Dismiss(1)]));
}

#[test]
fn buttons_invoke_their_actions() {
    let mut app = app(Corner::TopRight, 8, vec![notification(1), notification(11)]);
    match &clicked(&mut app, "n-11-act-open")[..] {
        [UserAction::Invoke(11, key)] => assert_eq!(key, "open"),
        other => panic!("{other:?}"),
    }
    match &clicked(&mut app, "n-1-act-2-close")[..] {
        [UserAction::Invoke(1, key)] => assert_eq!(key, "2-close"),
        other => panic!("{other:?}"),
    }
    assert!(clicked(&mut app, "n-1-act-nothing").is_empty());
}

#[test]
fn the_body_invokes_the_default_action_or_dismisses() {
    let with_default = Notification { has_default_action: true, ..notification(2) };
    let mut app = app(Corner::TopRight, 8, vec![notification(1), with_default]);
    assert!(matches!(clicked(&mut app, "n-1")[..], [UserAction::Dismiss(1)]));
    match &clicked(&mut app, "n-2")[..] {
        [UserAction::Invoke(2, key)] => assert_eq!(key, "default"),
        other => panic!("{other:?}"),
    }
}

#[test]
fn other_events_do_nothing() {
    let mut app = app(Corner::TopRight, 1, vec![notification(1), notification(2)]);
    app.on_event(&event(UiEventKind::Other, Some("n-1-close")));
    app.on_event(&event(UiEventKind::Click, None));
    // The second notification has no card.
    app.on_event(&event(UiEventKind::Click, Some("n-2-close")));
    app.on_event(&event(UiEventKind::Click, Some("stack")));
    assert!(app.take_actions().is_empty());
    app.on_event(&event(UiEventKind::Activate, Some("n-1-close")));
    assert!(matches!(app.take_actions()[..], [UserAction::Dismiss(1)]));
    assert!(app.take_actions().is_empty());
}

#[test]
fn events_match_the_toolkit() {
    let theirs = damascene_core::UiEvent::synthetic_click("n-1");
    let ours = event(UiEventKind::Click, theirs.route());
    for key in ["n-1", "n-2", ""] {
        assert_eq!(ours.is_click_or_activate(key), theirs.is_click_or_activate(key));
    }
}
