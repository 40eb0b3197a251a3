use prism_notify::dbus::{Event, Interface};
use prism_notify::hints::{
    image_from_value, image_hint, urgency_hint, HintValue, Hints, ImageStep,
};
use prism_notify::notification::{image_from_data, Notification, Urgency};

fn image_value(pixel: u8) -> HintValue {
    HintValue::Structure(vec![
        HintValue::Int32(1),
        HintValue::Int32(1),
        HintValue::Int32(3),
        HintValue::Bool(false),
        HintValue::Int32(8),
        HintValue::Int32(3),
        HintValue::Bytes(vec![pixel, pixel, pixel]),
    ])
}

fn notify(interface: &mut Interface, replaces_id: u32) -> (u32, Notification) {
    let (id, event) = interface.notify(
        "app".into(),
        replaces_id,
        "summary".into(),
        "<b>body</b>",
        &["default".to_string(), "Open".into(), "later".into(), "Later".into()],
        &Hints::new(),
        None,
        -1,
    );
    match event {
        Event::Notify(notification) => (id, notification),
        _ => panic!("not a notification"),
    }
}

#[test]
fn fresh_ids_count_up() {
    let mut interface = Interface::new();
    assert_eq!(notify(&mut interface, 0).0, 1);
    assert_eq!(notify(&mut interface, 0).0, 2);
    // A replacement takes no fresh id.
    assert_eq!(notify(&mut interface, 9).0, 9);
    assert_eq!(notify(&mut interface, 0).0, 3);
}

#[test]
fn ids_start_anew_after_the_last() {
    let mut interface = Interface { next_id: u32::MAX };
    assert_eq!(notify(&mut interface, 0).0, u32::MAX);
    assert_eq!(interface.next_id, 0);
}

#[test]
fn a_notification_is_made_ready() {
    let mut interface = Interface::new();
    let mut hints = Hints::new();
    hints.insert("urgency".into(), HintValue::Byte(2));
    let image = image_from_data(1, 1, 3, false, 8, 3, &[1, 2, 3]);
    let (id, event) = interface.notify(
        "mail".into(),
        0,
        "New <b>mail</b>".into(),
        "<b>a</b> &amp; b",
        &["default".to_string(), "Open".into(), "read".into(), "Mark read".into()],
        &hints,
        image,
        250,
    );
    let n = match event {
        Event::Notify(n) => n,
        _ => panic!("not a notification"),
    };
    assert_eq!((id, n.id), (1, 1));
    assert_eq!(n.app_name, "mail");
    // Only bodies have markup.
    assert_eq!(n.summary, "New <b>mail</b>");
    assert_eq!(n.body, "a & b");
    assert_eq!(n.urgency, Urgency::Critical);
    assert_eq!(n.actions.len(), 1);
    assert_eq!((n.actions[0].key.as_str(), n.actions[0].label.as_str()), ("read", "Mark read"));
    assert!(n.has_default_action);
    assert_eq!(n.image.unwrap().pixels(), &[1, 2, 3, 0xff]);
    assert_eq!(n.expire_timeout, 250);
}

#[test]
fn close_calls_are_handed_on() {
    assert!(matches!(Interface::new().close_notification(7), Event::Close(7)));
}

#[test]
fn capabilities_leave_out_markup() {
    assert_eq!(Interface::new().get_capabilities(), vec!["body", "actions", "icon-static"]);
}

#[test]
fn the_server_tells_who_it_is() {
    assert_eq!(
        Interface::new().get_server_information("0.1.0"),
        ("prism-notify", "prism", "0.1.0", "1.2")
    );
}

#[test]
fn hints_have_one_value_each() {
    let mut hints = Hints::new();
    assert!(hints.get("a").is_none());
    hints.insert("a".into(), HintValue::Byte(1));
    hints.insert("b".into(), HintValue::Bool(true));
    hints.insert("a".into(), HintValue::Int32(5));
    assert!(matches!(hints.get("a"), Some(HintValue::Int32(5))));
    assert!(matches!(hints.get("b"), Some(HintValue::Bool(true))));
    assert!(hints.get("c").is_none());
}

#[test]
fn urgency_comes_from_a_byte() {
    let with = |value: HintValue| {
        let mut hints = Hints::new();
        hints.insert("urgency".into(), value);
        urgency_hint(&hints)
    };
    assert_eq!(with(HintValue::Byte(0)), Urgency::Low);
    assert_eq!(with(HintValue::Byte(1)), Urgency::Normal);
    assert_eq!(with(HintValue::Byte(2)), Urgency::Critical);
    assert_eq!(with(HintValue::Byte(3)), Urgency::Normal);
    assert_eq!(with(HintValue::Int32(2)), Urgency::Normal);
    assert_eq!(urgency_hint(&Hints::new()), Urgency::Normal);
}

#[test]
fn image_structures_are_decoded() {
    assert_eq!(image_from_value(&image_value(9)).unwrap().pixels(), &[9, 9, 9, 0xff]);
    assert!(image_from_value(&HintValue::Byte(1)).is_none());
    assert!(image_from_value(&HintValue::Other).is_none());
    assert!(image_from_value(&HintValue::Structure(vec![])).is_none());
    let mut short = match image_value(1) {
        HintValue::Structure(fields) => fields,
        _ => unreachable!(),
    };
    short.pop();
    assert!(image_from_value(&HintValue::Structure(short)).is_none());
    let mut mistyped = match image_value(1) {
        HintValue::Structure(fields) => fields,
        _ => unreachable!(),
    };
    mistyped[3] = HintValue::Int32(0);
    assert!(image_from_value(&HintValue::Structure(mistyped)).is_none());
}

/// Runs the search to its end; `loads` says what comes of loading a file.
fn search(hints: &Hints, app_icon: &str, loads: &[(&str, u8)]) -> (Option<u8>, Vec<String>) {
    let mut asked = Vec::new();
    let mut from = 0;
    loop {
        match image_hint(hints, app_icon, from) {
            ImageStep::Found(image) => return (Some(image.pixels()[0]), asked),
            ImageStep::NotFound => return (None, asked),
            ImageStep::Load { path, next } => {
                let loaded = loads.iter().find(|(p, _)| *p == path).map(|(_, pixel)| *pixel);
                asked.push(path);
                if loaded.is_some() {
                    return (loaded, asked);
                }
                from = next;
            }
            ImageStep::Themed { next, .. } => from = next,
        }
    }
}

#[test]
fn themed_icons_are_told_and_skipped() {
    let mut hints = Hints::new();
    hints.insert("image-path".into(), HintValue::Text("file://face-smile".into()));
    hints.insert("icon_data".into(), image_value(6));
    match image_hint(&hints, "mail-unread", 0) {
        ImageStep::Themed { name, next } => assert_eq!((name.as_str(), next), ("face-smile", 3)),
        _ => panic!("not a themed icon"),
    }
    match image_hint(&hints, "mail-unread", 3) {
        ImageStep::Themed { name, next } => assert_eq!((name.as_str(), next), ("mail-unread", 5)),
        _ => panic!("not a themed icon"),
    }
    assert!(matches!(image_hint(&hints, "mail-unread", 5), ImageStep::Found(_)));
    assert!(matches!(image_hint(&hints, "", 3), ImageStep::Found(_)));
}

#[test]
fn image_data_comes_before_all_else() {
    let mut hints = Hints::new();
    hints.insert("image-path".into(), HintValue::Text("/p.png".into()));
    hints.insert("icon_data".into(), image_value(6));
    hints.insert("image_data".into(), image_value(2));
    assert_eq!(search(&hints, "/i.png", &[("/p.png", 3), ("/i.png", 5)]), (Some(2), vec![]));
    hints.insert("image-data".into(), image_value(1));
    assert_eq!(search(&hints, "/i.png", &[("/p.png", 3), ("/i.png", 5)]), (Some(1), vec![]));
}

#[test]
fn image_path_comes_before_app_icon() {
    let mut hints = Hints::new();
    hints.insert("image_path".into(), HintValue::Text("/q.png".into()));
    hints.insert("image-path".into(), HintValue::Text("file:///p.png".into()));
    hints.insert("icon_data".into(), image_value(6));
    let (found, asked) = search(&hints, "/i.png", &[("/p.png", 3), ("/i.png", 5)]);
    assert_eq!((found, asked), (Some(3), vec!["/p.png".to_string()]));
    let (found, asked) = search(&hints, "/i.png", &[("/q.png", 4), ("/i.png", 5)]);
    assert_eq!((found, asked), (Some(4), vec!["/p.png".to_string(), "/q.png".into()]));
}

#[test]
fn legacy_icon_data_comes_last() {
    let mut hints = Hints::new();
    hints.insert("icon_data".into(), image_value(6));
    let (found, asked) = search(&hints, "/i.png", &[("/i.png", 5)]);
    assert_eq!((found, asked), (Some(5), vec!["/i.png".to_string()]));
    let (found, asked) = search(&hints, "/i.png", &[]);
    assert_eq!((found, asked), (Some(6), vec!["/i.png".to_string()]));
    assert_eq!(search(&hints, "themed-name", &[]), (Some(6), vec![]));
}

#[test]
fn there_may_be_no_image() {
    assert_eq!(search(&Hints::new(), "", &[]), (None, vec![]));
    let mut hints = Hints::new();
    hints.insert("image-data".into(), HintValue::Byte(0));
    hints.insert("image-path".into(), HintValue::Byte(0));
    assert_eq!(search(&hints, "face-smile", &[]), (None, vec![]));
    assert!(matches!(image_hint(&hints, "/i.png", 6), ImageStep::NotFound));
}
