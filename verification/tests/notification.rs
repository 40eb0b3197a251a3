use prism_notify::image::{
    icon_file, image_from_frame, image_from_png_within_memory, themed_icon, PngFrame,
};
use prism_notify::notification::{
    image_from_data, image_from_png, parse_actions, strip_markup, CloseReason, Notification,
    Urgency,
};

#[test]
fn markup_stripped() {
    assert_eq!(strip_markup("<b>bold</b> &amp; <i>x</i>"), "bold & x");
    assert_eq!(strip_markup("a<br/>b"), "a\nb");
    assert_eq!(strip_markup("AT&T 5 &lt; 6"), "AT&T 5 < 6");
    assert_eq!(strip_markup("plain"), "plain");
}

#[test]
fn actions_split() {
    let raw: Vec<String> = vec![
        "default".into(),
        "Open".into(),
        "mark-read".into(),
        "Mark read".into(),
    ];
    let (actions, has_default) = parse_actions(&raw);
    assert!(has_default);
    assert_eq!(actions.len(), 1);
    assert_eq!(actions[0].key, "mark-read");
}

#[test]
fn image_data_rgb_to_rgba() {
    // 2x1 RGB with 8 bytes rowstride (2 pad bytes).
    let img = image_from_data(2, 1, 8, false, 8, 3, &[1, 2, 3, 4, 5, 6, 0, 0]).unwrap();
    assert_eq!((img.width(), img.height()), (2, 1));
    assert_eq!(img.pixels(), &[1, 2, 3, 0xff, 4, 5, 6, 0xff]);
}

#[test]
fn all_five_entities_are_unescaped() {
    assert_eq!(strip_markup("&lt;&gt;&amp;&apos;&quot;"), "<>&'\"");
}

#[test]
fn unescaping_is_done_once() {
    assert_eq!(strip_markup("&amp;lt;"), "&lt;");
}

#[test]
fn other_ampersands_are_kept() {
    assert_eq!(strip_markup("a & b"), "a & b");
    assert_eq!(strip_markup("R&D"), "R&D");
    assert_eq!(strip_markup("&"), "&");
    // The semicolon goes with the name.
    assert_eq!(strip_markup("&copy; 1"), "&copy 1");
    assert_eq!(strip_markup("&#38;"), "&#38");
    // A name has seven characters at most.
    assert_eq!(strip_markup("&abcdefgh;"), "&abcdefgh;");
    assert_eq!(strip_markup("&abcdefg;h"), "&abcdefgh");
}

#[test]
fn entities_need_no_semicolon() {
    assert_eq!(strip_markup("1 &lt 2"), "1 < 2");
}

#[test]
fn longer_tag_names_are_no_line_breaks() {
    assert_eq!(strip_markup("a<brand>b"), "ab");
    assert_eq!(strip_markup("a<br2/>b</bra>c<b r>d<BR>e"), "abcde");
    assert_eq!(strip_markup("a<br\tclear=\"all\">b<br\n/>c<//br>d<br/x>e"), "a\nb\nc\nd\ne");
    assert_eq!(strip_markup("a<brand"), "a");
}

#[test]
fn names_of_references_are_read_up_to_a_length() {
    assert_eq!(strip_markup("&unknown;x&lt;"), "&unknownx<");
    assert_eq!(strip_markup("&unknowns;x"), "&unknowns;x");
}

#[test]
fn line_breaks_become_newlines() {
    assert_eq!(strip_markup("a<br>b<br />c</br>d"), "a\nb\nc\nd");
    assert_eq!(strip_markup("<a href=\"x\">link</a><img src='y'/>"), "link");
}

#[test]
fn an_open_tag_hides_the_rest() {
    assert_eq!(strip_markup("a < b & c"), "a ");
    assert_eq!(strip_markup("a<br"), "a\n");
}

#[test]
fn text_beyond_ascii_is_kept() {
    assert_eq!(strip_markup("<i>\u{e4}\u{1f600}</i>\u{df}"), "\u{e4}\u{1f600}\u{df}");
    assert_eq!(strip_markup("&\u{e4};"), "&\u{e4};");
}

#[test]
fn a_key_without_label_is_ignored() {
    let raw: Vec<String> = vec!["a".into(), "A".into(), "default".into()];
    let (actions, has_default) = parse_actions(&raw);
    assert!(!has_default);
    assert_eq!(actions.len(), 1);
    assert_eq!(actions[0].label, "A");
    let (none, has_default) = parse_actions(&[]);
    assert!(none.is_empty() && !has_default);
}

#[test]
fn actions_keep_their_order() {
    let raw: Vec<String> = vec![
        "b".into(),
        "B".into(),
        "default".into(),
        "".into(),
        "a".into(),
        "A".into(),
    ];
    let (actions, has_default) = parse_actions(&raw);
    let keys: Vec<&str> = actions.iter().map(|a| a.key.as_str()).collect();
    assert_eq!(keys, vec!["b", "a"]);
    assert!(has_default);
}

fn notification(urgency: Urgency, expire_timeout: i32) -> Notification {
    Notification {
        id: 1,
        app_name: String::new(),
        summary: String::new(),
        body: String::new(),
        urgency,
        actions: Vec::new(),
        has_default_action: false,
        image: None,
        expire_timeout,
    }
}

#[test]
fn timeouts_are_resolved() {
    assert_eq!(notification(Urgency::Normal, -1).timeout(5000), Some(5000));
    assert_eq!(notification(Urgency::Normal, -1).timeout(0), None);
    assert_eq!(notification(Urgency::Normal, 0).timeout(5000), None);
    assert_eq!(notification(Urgency::Low, 1200).timeout(5000), Some(1200));
    assert_eq!(notification(Urgency::Low, i32::MIN).timeout(7), Some(7));
}

#[test]
fn critical_notifications_have_no_timeout() {
    assert_eq!(notification(Urgency::Critical, 1200).timeout(5000), None);
    assert_eq!(notification(Urgency::Critical, -1).timeout(5000), None);
}

#[test]
fn urgency_is_normal_by_default() {
    assert_eq!(Urgency::default(), Urgency::Normal);
}

#[test]
fn close_reasons_have_wire_codes() {
    assert_eq!(CloseReason::Expired.code(), 1);
    assert_eq!(CloseReason::Dismissed.code(), 2);
    assert_eq!(CloseReason::CloseCall.code(), 3);
}

#[test]
fn image_data_with_alpha_is_kept() {
    let img = image_from_data(1, 2, 5, true, 8, 4, &[1, 2, 3, 4, 9, 5, 6, 7, 8]).unwrap();
    assert_eq!((img.width(), img.height()), (1, 2));
    assert_eq!(img.pixels(), &[1, 2, 3, 4, 5, 6, 7, 8]);
}

#[test]
fn image_data_of_other_layouts_is_refused() {
    let data = [0u8; 64];
    assert!(image_from_data(0, 1, 8, false, 8, 3, &data).is_none());
    assert!(image_from_data(1, -1, 8, false, 8, 3, &data).is_none());
    assert!(image_from_data(1, 1, 0, false, 8, 3, &data).is_none());
    assert!(image_from_data(1, 1, 8, false, 16, 3, &data).is_none());
    assert!(image_from_data(1, 1, 8, true, 8, 3, &data).is_none());
    assert!(image_from_data(1, 1, 8, false, 8, 4, &data).is_none());
    assert!(image_from_data(1, 1, 8, false, 8, 1, &data).is_none());
    // Rows overlap.
    assert!(image_from_data(3, 1, 8, false, 8, 3, &data).is_none());
    assert!(image_from_data(i32::MAX, i32::MAX, i32::MAX, false, 8, 3, &data).is_none());
}

#[test]
fn image_data_may_end_with_the_last_pixel() {
    assert!(image_from_data(1, 2, 8, false, 8, 3, &[0; 11]).is_some());
    assert!(image_from_data(1, 2, 8, false, 8, 3, &[0; 10]).is_none());
}

fn png_file(width: u32, height: u32, color: png::ColorType, depth: png::BitDepth, data: &[u8]) -> Vec<u8> {
    let mut file = Vec::new();
    let mut encoder = png::Encoder::new(&mut file, width, height);
    encoder.set_color(color);
    encoder.set_depth(depth);
    let mut writer = encoder.write_header().unwrap();
    writer.write_image_data(data).unwrap();
    writer.finish().unwrap();
    file
}

#[test]
fn png_with_alpha_is_decoded() {
    let data = [1, 2, 3, 4, 5, 6, 7, 8];
    let file = png_file(1, 2, png::ColorType::Rgba, png::BitDepth::Eight, &data);
    let img = image_from_png(&file).unwrap();
    assert_eq!((img.width(), img.height()), (1, 2));
    assert_eq!(img.pixels(), &data);
}

#[test]
fn png_without_alpha_is_opaque() {
    let file = png_file(2, 1, png::ColorType::Rgb, png::BitDepth::Eight, &[1, 2, 3, 4, 5, 6]);
    let img = image_from_png_within_memory(&file).unwrap().unwrap();
    assert_eq!((img.width(), img.height()), (2, 1));
    assert_eq!(img.pixels(), &[1, 2, 3, 0xff, 4, 5, 6, 0xff]);
}

#[test]
fn other_png_files_are_refused() {
    let gray = png_file(2, 1, png::ColorType::Grayscale, png::BitDepth::Eight, &[1, 2]);
    assert!(image_from_png(&gray).is_none());
    let deep = png_file(1, 1, png::ColorType::Rgb, png::BitDepth::Sixteen, &[1, 2, 3, 4, 5, 6]);
    assert!(image_from_png(&deep).is_none());
    assert!(image_from_png(b"no png at all").is_none());
    assert!(image_from_png_within_memory(&[]).unwrap().is_none());
    let file = png_file(2, 1, png::ColorType::Rgb, png::BitDepth::Eight, &[1, 2, 3, 4, 5, 6]);
    assert!(image_from_png(&file[..file.len() - 20]).is_none());
}

fn crc(bytes: &[u8]) -> u32 {
    let mut crc = u32::MAX;
    for byte in bytes {
        crc ^= *byte as u32;
        for _ in 0..8 {
            crc = if crc & 1 == 1 { (crc >> 1) ^ 0xedb8_8320 } else { crc >> 1 };
        }
    }
    !crc
}

fn chunk(file: &mut Vec<u8>, kind: &[u8; 4], words: &[u32], tail: &[u8]) {
    let mut body = kind.to_vec();
    for word in words {
        body.extend_from_slice(&word.to_be_bytes());
    }
    body.extend_from_slice(tail);
    file.extend_from_slice(&(body.len() as u32 - 4).to_be_bytes());
    file.extend_from_slice(&body);
    file.extend_from_slice(&crc(&body).to_be_bytes());
}

#[test]
fn a_png_that_no_memory_can_hold_is_told_apart() {
    // An animation whose first frame is one pixel of a canvas beyond all measure.
    let side = 0x7fff_ffffu32;
    let mut file = b"\x89PNG\r\n\x1a\n".to_vec();
    chunk(&mut file, b"IHDR", &[side, side], &[8, 2, 0, 0, 0]);
    chunk(&mut file, b"acTL", &[1, 0], &[]);
    chunk(&mut file, b"fcTL", &[0, 1, 1, 0, 0], &[0, 1, 0, 1, 0, 0]);
    chunk(&mut file, b"IDAT", &[], &[0]);
    match image_from_png_within_memory(&file) {
        Err(size) => assert_eq!(size, 13_835_058_042_397_261_827),
        Ok(_) => panic!("the buffer cannot be allocated"),
    }
}

#[test]
fn frames_become_images() {
    let frame = |color_type: u8, bit_depth: u8| PngFrame {
        width: 1,
        height: 1,
        color_type,
        bit_depth,
        buffer_size: if color_type == 2 { 3 } else { 4 },
        buffer: vec![7, 8, 9, 10, 11],
    };
    assert_eq!(image_from_frame(frame(2, 8)).unwrap().pixels(), &[7, 8, 9, 0xff]);
    assert_eq!(image_from_frame(frame(6, 8)).unwrap().pixels(), &[7, 8, 9, 10]);
    assert!(image_from_frame(frame(6, 16)).is_none());
    assert!(image_from_frame(frame(3, 8)).is_none());
}

#[test]
fn icon_references_name_files() {
    assert_eq!(icon_file("/usr/share/x.png").as_deref(), Some("/usr/share/x.png"));
    assert_eq!(icon_file("file:///tmp/x.png").as_deref(), Some("/tmp/x.png"));
    assert_eq!(icon_file("file://host/x.png"), None);
    assert_eq!(icon_file("file://"), None);
    assert_eq!(icon_file("dialog-information"), None);
    assert_eq!(icon_file(""), None);
    assert_eq!(icon_file("/file:///x").as_deref(), Some("/file:///x"));
}

#[test]
fn other_references_name_themed_icons() {
    assert_eq!(themed_icon("dialog-information").as_deref(), Some("dialog-information"));
    assert_eq!(themed_icon("file://host/x.png").as_deref(), Some("host/x.png"));
    assert_eq!(themed_icon("/usr/share/x.png"), None);
    assert_eq!(themed_icon("file:///tmp/x.png"), None);
    assert_eq!(themed_icon("file://"), None);
    assert_eq!(themed_icon(""), None);
}
