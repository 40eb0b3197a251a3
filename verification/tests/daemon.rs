use prism_notify::config::{Config, ConfigError, Corner};
use prism_notify::daemon::{
    linux_button, Daemon, PointerAction, PointerButton, PointerEventKind, ScaleAction,
    SurfaceAction, SyncStep,
};
use prism_notify::dbus::{Event, Signal};
use prism_notify::notification::{Action, CloseReason, Notification, Urgency};
use prism_notify::surface::{
    anchor, pick_preferred, Anchor, FrameAction, FrameStatus, NotifySurface, PixelSize,
    SwapchainAction,
};
use prism_notify::ui::{UiEvent, UiEventKind};

const MS: u64 = 1_000_000;

fn notification(id: u32, expire_timeout: i32) -> Notification {
    Notification {
        id,
        app_name: "app".into(),
        summary: "summary".into(),
        body: "body".into(),
        urgency: Urgency::Normal,
        actions: vec![Action { key: "open".into(), label: "Open".into() }],
        has_default_action: false,
        image: None,
        expire_timeout,
    }
}

fn daemon() -> Daemon {
    Daemon::new(Config::default())
}

fn notify(daemon: &mut Daemon, n: Notification, now: u64) {
    assert!(daemon.on_dbus_event(Event::Notify(n), now).is_none());
}

fn ids(daemon: &Daemon) -> Vec<u32> {
    (0..daemon.stack.len()).map(|i| daemon.stack.get(i).notif.id).collect()
}

fn shown(daemon: &Daemon) -> Vec<u32> {
    daemon.app.items.iter().map(|n| n.id).collect()
}

/// A daemon that shows the given notifications on a surface.
fn showing(notifications: Vec<Notification>) -> Daemon {
    let mut daemon = daemon();
    for n in notifications {
        notify(&mut daemon, n, 0);
    }
    assert_eq!(daemon.sync_surface(), SyncStep::Measure);
    daemon.stack_measured(100);
    daemon
}

fn click(key: &str) -> UiEvent {
    UiEvent { kind: UiEventKind::Click, key: Some(key.into()) }
}

#[test]
fn new_notifications_come_first() {
    let mut daemon = daemon();
    for id in [1, 2, 3] {
        notify(&mut daemon, notification(id, -1), 0);
    }
    assert_eq!(ids(&daemon), vec![3, 2, 1]);
    assert!(daemon.stack_changed);
}

#[test]
fn the_newest_is_shown_first() {
    let mut daemon = Daemon::new(Config { max_visible: 2, ..Config::default() });
    for id in [1, 2, 3] {
        notify(&mut daemon, notification(id, -1), 0);
        daemon.sync_surface();
        assert_eq!(shown(&daemon)[0], id);
    }
    assert_eq!((shown(&daemon), daemon.app.total), (vec![3, 2], 3));
}

#[test]
fn a_replacement_keeps_its_place_and_starts_its_timer() {
    let mut daemon = daemon();
    for id in [1, 2, 3] {
        notify(&mut daemon, notification(id, 10), 0);
    }
    let replacement = Notification { summary: "new".into(), ..notification(2, 10) };
    notify(&mut daemon, replacement, 7 * MS);
    assert_eq!(ids(&daemon), vec![3, 2, 1]);
    assert_eq!(daemon.stack.get(1).notif.summary, "new");
    assert_eq!(daemon.stack.get(1).deadline, Some(17 * MS as u128));
    assert_eq!(daemon.stack.get(0).deadline, Some(10 * MS as u128));
}

#[test]
fn the_stack_stands_by_arrival() {
    let mut daemon = daemon();
    for id in [1, 2, 3] {
        notify(&mut daemon, notification(id, 0), 0);
    }
    // A replacement is no arrival; coming back after being closed or expiring is one.
    notify(&mut daemon, notification(1, 0), 1);
    daemon.close(2, CloseReason::Dismissed);
    notify(&mut daemon, notification(4, 5), 2);
    notify(&mut daemon, notification(2, 0), 3);
    assert_eq!(ids(&daemon), vec![2, 4, 3, 1]);
    daemon.expire(10 * MS);
    notify(&mut daemon, notification(4, 0), 10 * MS);
    assert_eq!(ids(&daemon), vec![4, 2, 3, 1]);
}

#[test]
fn close_calls_are_answered_once() {
    let mut daemon = showing(vec![notification(1, -1), notification(2, -1)]);
    let answer = daemon.on_dbus_event(Event::Close(1), 0);
    assert!(matches!(
        answer,
        Some(Signal::Closed { id: 1, reason: CloseReason::CloseCall })
    ));
    assert!(daemon.stack_changed);
    assert_eq!(ids(&daemon), vec![2]);
    daemon.sync_surface();
    assert!(daemon.on_dbus_event(Event::Close(1), 0).is_none());
    assert!(daemon.on_dbus_event(Event::Close(77), 0).is_none());
    assert!(!daemon.stack_changed);
    assert_eq!(ids(&daemon), vec![2]);
}

#[test]
fn losing_the_bus_name_ends_the_daemon() {
    let mut daemon = showing(vec![notification(1, -1)]);
    assert!(!daemon.exit);
    assert!(daemon.on_dbus_event(Event::NameLost, 0).is_none());
    assert!(daemon.exit);
    assert_eq!(ids(&daemon), vec![1]);
}

#[test]
fn expired_notifications_are_closed_in_order() {
    let mut daemon = daemon();
    notify(&mut daemon, notification(1, 5), 0);
    notify(&mut daemon, notification(2, 0), 0);
    notify(&mut daemon, notification(3, 20), 0);
    notify(&mut daemon, notification(4, 1), 0);
    notify(&mut daemon, Notification { urgency: Urgency::Critical, ..notification(5, 1) }, 0);
    daemon.sync_surface();
    assert!(daemon.expire(MS - 1).is_empty());
    assert!(!daemon.stack_changed);
    let sent = daemon.expire(5 * MS);
    let closed: Vec<u32> = sent
        .iter()
        .map(|signal| match signal {
            Signal::Closed { id, reason: CloseReason::Expired } => *id,
            other => panic!("{other:?}"),
        })
        .collect();
    assert_eq!(closed, vec![4, 1]);
    assert_eq!(ids(&daemon), vec![5, 3, 2]);
    assert!(daemon.stack_changed);
    assert_eq!(daemon.expire(u64::MAX).len(), 1);
    assert_eq!(ids(&daemon), vec![5, 2]);
}

#[test]
fn the_server_default_expires_others() {
    let mut daemon = Daemon::new(Config { default_timeout: 30, ..Config::default() });
    notify(&mut daemon, notification(1, -1), 2 * MS);
    assert_eq!(daemon.stack.get(0).deadline, Some(32 * MS as u128));
    let mut never = Daemon::new(Config { default_timeout: 0, ..Config::default() });
    notify(&mut never, notification(1, -1), 2 * MS);
    assert_eq!(never.stack.get(0).deadline, None);
    let mut late = Daemon::new(Config { default_timeout: u64::MAX, ..Config::default() });
    notify(&mut late, notification(1, -1), u64::MAX);
    let end = u64::MAX as u128 + u64::MAX as u128 * MS as u128;
    assert_eq!(late.stack.get(0).deadline, Some(end));
}

#[test]
fn the_surface_follows_the_stack() {
    let mut daemon = daemon();
    assert_eq!(daemon.sync_surface(), SyncStep::Idle);
    notify(&mut daemon, notification(1, -1), 0);
    assert_eq!(daemon.sync_surface(), SyncStep::Measure);
    assert_eq!(shown(&daemon), vec![1]);
    assert_eq!(daemon.stack_measured(0), SurfaceAction::Create { width: 392, height: 1 });
    let surface = daemon.surface.as_ref().unwrap();
    assert_eq!((surface.width, surface.height, surface.scale), (392, 1, 1));
    assert!(!surface.dirty);
    notify(&mut daemon, notification(2, -1), 0);
    assert_eq!(daemon.sync_surface(), SyncStep::Measure);
    assert_eq!(daemon.stack_measured(90), SurfaceAction::Resize { width: 392, height: 90 });
    assert!(daemon.wants_draw());
    notify(&mut daemon, notification(2, -1), 0);
    assert_eq!(daemon.sync_surface(), SyncStep::Measure);
    assert_eq!(daemon.stack_measured(90), SurfaceAction::Redraw);
    daemon.close(1, CloseReason::Dismissed);
    daemon.close(2, CloseReason::Dismissed);
    assert_eq!(daemon.sync_surface(), SyncStep::Destroy);
    assert!(daemon.surface.is_none());
    assert_eq!(daemon.sync_surface(), SyncStep::Idle);
    // Gone before it was shown.
    notify(&mut daemon, notification(3, -1), 0);
    daemon.close(3, CloseReason::CloseCall);
    assert_eq!(daemon.sync_surface(), SyncStep::Idle);
}

#[test]
fn the_surface_is_requested_as_configured() {
    let config = Config {
        output: Some("DP-1".into()),
        corner: Corner::BottomRight,
        margin: 5,
        width: 100,
        ..Config::default()
    };
    let daemon = Daemon::new(config);
    let request = daemon.create_surface(&[None, Some("DP-1".into())], 44);
    assert_eq!(request.output, Some(1));
    assert!(!request.output_absent);
    assert_eq!(request.anchor, Anchor { top: false, bottom: true, left: false, right: true });
    assert_eq!((request.margin, request.width, request.height), (5, 132, 44));
    assert_eq!(daemon.surface_width(), 132);
    let request = daemon.create_surface(&[Some("DP-2".into())], 44);
    assert_eq!((request.output, request.output_absent), (None, true));
    let request = Daemon::new(Config::default()).create_surface(&[Some("DP-2".into())], 44);
    assert_eq!((request.output, request.output_absent), (None, false));
}

#[test]
fn clicks_close_and_tell() {
    let mut daemon = showing(vec![notification(1, -1), notification(2, -1), notification(3, -1)]);
    daemon.surface.as_mut().unwrap().dirty = false;
    let sent = daemon.dispatch_ui_events(&[click("n-3-close"), click("n-1-act-open")]);
    assert_eq!(sent.len(), 3);
    assert!(matches!(
        sent[0],
        Signal::Closed { id: 3, reason: CloseReason::Dismissed }
    ));
    match &sent[1] {
        Signal::ActionInvoked { id: 1, key } => assert_eq!(key, "open"),
        other => panic!("{other:?}"),
    }
    assert!(matches!(
        sent[2],
        Signal::Closed { id: 1, reason: CloseReason::Dismissed }
    ));
    assert_eq!(ids(&daemon), vec![2]);
    assert!(daemon.stack_changed && daemon.wants_draw());
}

#[test]
fn a_second_click_finds_nothing() {
    let mut daemon = showing(vec![notification(1, -1)]);
    let sent = daemon.dispatch_ui_events(&[click("n-1-close"), click("n-1-close")]);
    assert_eq!(sent.len(), 1);
    // The card is still on the screen; the client learns of the action all the same.
    let sent = daemon.dispatch_ui_events(&[click("n-1-act-open")]);
    assert!(matches!(sent[..], [Signal::ActionInvoked { id: 1, .. }]));
    assert!(daemon.dispatch_ui_events(&[]).is_empty());
}

#[test]
fn a_failed_reload_keeps_the_configuration() {
    let mut daemon = showing(vec![notification(1, -1)]);
    let failure = daemon.reload_config(Err(ConfigError::ZeroWidth));
    assert!(matches!(failure, Some(ConfigError::ZeroWidth)));
    assert_eq!(daemon.config.width, 360);
    assert!(daemon.surface.is_some() && !daemon.stack_changed);
}

#[test]
fn a_reload_starts_over_with_the_same_stack() {
    let mut daemon = showing(vec![notification(1, -1), notification(2, -1)]);
    let config = Config { max_visible: 1, gap: 3, ..Config::default() };
    assert!(daemon.reload_config(Ok(config)).is_none());
    assert!(daemon.surface.is_none() && daemon.stack_changed);
    assert_eq!(daemon.sync_surface(), SyncStep::Measure);
    assert_eq!((ids(&daemon), shown(&daemon)), (vec![2, 1], vec![2]));
    assert_eq!((daemon.app.total, daemon.app.gap), (2, 3));
}

#[test]
fn bursts_of_changes_reload_once() {
    let mut daemon = daemon();
    daemon.config_touched(Some(b"other.kdl"), b"config.kdl", 0);
    daemon.config_touched(None, b"config.kdl", 0);
    assert_eq!(daemon.reload_at, None);
    daemon.config_touched(Some(b"config.kdl"), b"config.kdl", 0);
    daemon.config_touched(Some(b"config.kdl"), b"config.kdl", 100 * MS);
    assert!(!daemon.take_due_reload(200 * MS));
    assert!(!daemon.take_due_reload(250 * MS - 1));
    assert!(daemon.take_due_reload(250 * MS));
    assert!(!daemon.take_due_reload(300 * MS));
}

#[test]
fn sleep_ends_with_the_first_deadline() {
    let hour = 3_600_000 * MS;
    let mut daemon = daemon();
    assert_eq!(daemon.sleep(5), hour);
    notify(&mut daemon, notification(1, 0), 0);
    notify(&mut daemon, notification(2, 40), 0);
    notify(&mut daemon, notification(3, 30), 0);
    notify(&mut daemon, notification(4, i32::MAX), 0);
    assert_eq!(daemon.sleep(0), 30 * MS);
    assert_eq!(daemon.sleep(29 * MS), MS);
    assert_eq!(daemon.sleep(35 * MS), 0);
    daemon.config_touched(Some(b"c"), b"c", 0);
    daemon.expire(100 * MS);
    assert_eq!(daemon.sleep(100 * MS), 50 * MS);
    daemon.surface = Some(NotifySurface::new(1, 1));
    daemon.surface.as_mut().unwrap().end_draw(Some(7), false, 100 * MS);
    assert_eq!(daemon.sleep(100 * MS), 7);
}

#[test]
fn animations_make_the_surface_dirty() {
    let mut daemon = showing(vec![notification(1, 0)]);
    let surface = daemon.surface.as_mut().unwrap();
    surface.dirty = false;
    surface.end_draw(None, true, 50);
    assert_eq!(surface.anim_deadline, Some(50));
    surface.end_draw(Some(10), true, 50);
    assert_eq!(surface.anim_deadline, Some(60));
    daemon.tick(59);
    assert!(!daemon.wants_draw());
    daemon.tick(60);
    assert!(daemon.wants_draw());
    let surface = daemon.surface.as_mut().unwrap();
    assert_eq!(surface.anim_deadline, None);
    surface.end_draw(None, false, 50);
    assert_eq!(surface.anim_deadline, None);
}

#[test]
fn the_compositor_sizes_the_surface() {
    let mut daemon = showing(vec![notification(1, 0)]);
    assert_eq!(daemon.configure(false, 9, 9), None);
    let size = |width, height| PixelSize { width, height };
    assert_eq!(daemon.configure(true, 0, 0), Some(SwapchainAction::Create(size(392, 100))));
    assert!(daemon.wants_draw());
    assert_eq!(daemon.configure(true, 392, 100), Some(SwapchainAction::Keep));
    assert_eq!(daemon.configure(true, 0, 50), Some(SwapchainAction::Resize(size(392, 50))));
    assert_eq!(daemon.configure(true, 200, 0), Some(SwapchainAction::Resize(size(200, 50))));
    assert_eq!(daemon.surface.as_ref().unwrap().swapchain, Some(size(200, 50)));
}

#[test]
fn the_compositor_scales_the_surface() {
    let mut daemon = showing(vec![notification(1, 0)]);
    assert_eq!(daemon.scale_factor_changed(false, 2), ScaleAction::Ignore);
    assert_eq!(daemon.scale_factor_changed(true, 1), ScaleAction::Ignore);
    assert_eq!(daemon.scale_factor_changed(true, 3), ScaleAction::Apply(None));
    assert!(daemon.wants_draw());
    let size = |width, height| PixelSize { width, height };
    assert_eq!(daemon.configure(true, 10, 20), Some(SwapchainAction::Create(size(30, 60))));
    assert_eq!(
        daemon.scale_factor_changed(true, 2),
        ScaleAction::Apply(Some(SwapchainAction::Resize(size(20, 40))))
    );
    assert_eq!(
        daemon.scale_factor_changed(true, 0),
        ScaleAction::Apply(Some(SwapchainAction::Resize(size(1, 1))))
    );
}

#[test]
fn a_closed_surface_is_made_anew() {
    let mut daemon = showing(vec![notification(1, 0)]);
    daemon.closed(false);
    assert!(daemon.surface.is_some() && !daemon.stack_changed);
    daemon.closed(true);
    assert!(daemon.surface.is_none() && daemon.stack_changed);
    assert_eq!(daemon.sync_surface(), SyncStep::Measure);
    assert_eq!(daemon.stack_measured(7), SurfaceAction::Create { width: 392, height: 7 });
}

#[test]
fn the_stack_moves_to_the_configured_output() {
    let mut daemon = showing(vec![notification(1, 0)]);
    assert!(!daemon.new_output(Some("DP-1")));
    daemon.config.output = Some("DP-1".into());
    assert!(!daemon.new_output(None));
    assert!(!daemon.new_output(Some("DP-2")));
    assert!(daemon.surface.is_some());
    assert!(daemon.new_output(Some("DP-1")));
    assert!(daemon.surface.is_none() && daemon.stack_changed);
    assert!(!daemon.new_output(Some("DP-1")));
}

#[test]
fn pointer_events_reach_the_toolkit() {
    let mut daemon = showing(vec![notification(1, 0)]);
    assert_eq!(daemon.pointer_event(true, PointerEventKind::Enter), PointerAction::Track);
    assert_eq!(daemon.pointer_event(true, PointerEventKind::Leave), PointerAction::Ignore);
    assert_eq!(daemon.pointer_event(true, PointerEventKind::Press(0x110)), PointerAction::Ignore);
    daemon.configure(true, 0, 0);
    assert_eq!(daemon.pointer_event(false, PointerEventKind::Motion), PointerAction::Ignore);
    assert_eq!(daemon.pointer_event(true, PointerEventKind::Motion), PointerAction::Move);
    assert_eq!(daemon.pointer_event(true, PointerEventKind::Leave), PointerAction::Leave);
    assert_eq!(
        daemon.pointer_event(true, PointerEventKind::Press(0x110)),
        PointerAction::Down(PointerButton::Primary)
    );
    assert_eq!(
        daemon.pointer_event(true, PointerEventKind::Release(0x111)),
        PointerAction::Up(PointerButton::Secondary)
    );
    assert_eq!(daemon.pointer_event(true, PointerEventKind::Press(0x113)), PointerAction::Ignore);
    assert_eq!(daemon.pointer_event(true, PointerEventKind::Axis), PointerAction::Ignore);
}

#[test]
fn buttons_are_known_by_their_codes() {
    assert_eq!(linux_button(0x110), Some(PointerButton::Primary));
    assert_eq!(linux_button(0x111), Some(PointerButton::Secondary));
    assert_eq!(linux_button(0x112), Some(PointerButton::Middle));
    assert_eq!(linux_button(0x10f), None);
    assert_eq!(linux_button(0), None);
}

#[test]
fn corners_are_anchored() {
    let edges = |corner| {
        let a = anchor(corner);
        (a.top, a.bottom, a.left, a.right)
    };
    assert_eq!(edges(Corner::TopRight), (true, false, false, true));
    assert_eq!(edges(Corner::TopLeft), (true, false, true, false));
    assert_eq!(edges(Corner::BottomRight), (false, true, false, true));
    assert_eq!(edges(Corner::BottomLeft), (false, true, true, false));
}

#[test]
fn preferences_are_honoured() {
    assert_eq!(pick_preferred(&[false, false, true, true]), 2);
    assert_eq!(pick_preferred(&[false, false]), 0);
    assert_eq!(pick_preferred(&[true]), 0);
}

#[test]
fn drawing_waits_for_a_swapchain() {
    let mut surface = NotifySurface::new(10, 10);
    surface.dirty = true;
    assert!(!surface.begin_draw());
    assert!(!surface.dirty);
    surface.configure_swapchain();
    assert!(surface.begin_draw());
    assert_eq!(surface.frame(FrameStatus::Ready), FrameAction::Render);
    assert_eq!(surface.frame(FrameStatus::Unavailable), FrameAction::Skip);
    assert!(!surface.dirty);
    assert_eq!(surface.frame(FrameStatus::Stale), FrameAction::Reconfigure);
    assert!(surface.dirty);
}
