use prism_notify::config::{
    Config, ConfigError, ConfigSource, Corner, Opacity, Settings,
};

fn nothing() -> Settings {
    Settings {
        output: None,
        corner: None,
        width: None,
        margin: None,
        gap: None,
        max_visible: None,
        opacity: None,
        default_timeout: None,
    }
}

fn opacity(value: f32) -> Opacity {
    Opacity { bits: value.to_bits() }
}

fn is_default(config: &Config) -> bool {
    config.output.is_none()
        && config.corner == Corner::TopRight
        && config.width == 360
        && config.margin == 8
        && config.gap == 8
        && config.max_visible == 8
        && config.opacity == opacity(0.8)
        && config.default_timeout == 5000
}

#[test]
fn without_a_file_the_defaults_hold() {
    assert!(is_default(&Config::default()));
    assert!(is_default(&Config::load(ConfigSource::NoPath).unwrap()));
    assert!(is_default(&Config::load(ConfigSource::Missing).unwrap()));
}

#[test]
fn an_empty_file_means_defaults() {
    assert!(is_default(&Config::load(ConfigSource::Parsed(nothing())).unwrap()));
}

#[test]
fn settings_are_taken_over() {
    let settings = Settings {
        output: Some("DP-1".into()),
        corner: Some(Corner::BottomLeft),
        width: Some(1),
        margin: Some(-3),
        gap: Some(0),
        max_visible: Some(2),
        opacity: Some(opacity(0.5)),
        default_timeout: Some(0),
    };
    let config = Config::load(ConfigSource::Parsed(settings)).unwrap();
    assert_eq!(config.output.as_deref(), Some("DP-1"));
    assert_eq!(config.corner, Corner::BottomLeft);
    assert_eq!((config.width, config.margin, config.gap), (1, -3, 0));
    assert_eq!(config.max_visible, 2);
    assert_eq!(config.opacity, opacity(0.5));
    assert_eq!(config.default_timeout, 0);
}

#[test]
fn a_width_of_zero_is_an_error() {
    let settings = Settings { width: Some(0), ..nothing() };
    let loaded = Config::load(ConfigSource::Parsed(settings));
    assert!(matches!(loaded, Err(ConfigError::ZeroWidth)));
}

#[test]
fn an_opacity_out_of_range_is_an_error() {
    for value in [-0.1f32, 1.0001, f32::NAN, f32::INFINITY, f32::NEG_INFINITY, -f32::MIN_POSITIVE] {
        let settings = Settings { opacity: Some(opacity(value)), ..nothing() };
        match Config::load(ConfigSource::Parsed(settings)) {
            Err(ConfigError::OpacityOutOfRange(found)) => assert_eq!(found, opacity(value)),
            other => panic!("{value}: {other:?}"),
        }
    }
}

#[test]
fn the_range_of_opacities_is_that_of_the_numbers() {
    let near = [0.0f32, -0.0, 1.0, 0.5, 2.0, -1.0, 1.0e-45, -1.0e-45, 0.99999994, 1.0000001];
    for value in near {
        assert_eq!(opacity(value).is_valid(), (0.0..=1.0).contains(&value), "{value}");
    }
    let mut bits: u32 = 0;
    loop {
        let value = f32::from_bits(bits);
        assert_eq!(Opacity { bits }.is_valid(), (0.0..=1.0).contains(&value), "{value}");
        match bits.checked_add(65_521) {
            Some(next) => bits = next,
            None => break,
        }
    }
}

#[test]
fn full_opacity_is_one() {
    assert_eq!(Opacity::opaque(), opacity(1.0));
}

#[test]
fn files_that_fail_are_errors() {
    match Config::load(ConfigSource::Unreadable("permission denied".into())) {
        Err(ConfigError::Unreadable(reason)) => assert_eq!(reason, "permission denied"),
        other => panic!("{other:?}"),
    }
    match Config::load(ConfigSource::Malformed("line 3".into())) {
        Err(ConfigError::Malformed(report)) => assert_eq!(report, "line 3"),
        other => panic!("{other:?}"),
    }
}

#[test]
fn corners_are_parsed() {
    assert_eq!(Corner::from_str("top-right"), Ok(Corner::TopRight));
    assert_eq!("top-left".parse::<Corner>(), Ok(Corner::TopLeft));
    assert_eq!("bottom-right".parse::<Corner>(), Ok(Corner::BottomRight));
    assert_eq!("bottom-left".parse::<Corner>(), Ok(Corner::BottomLeft));
    assert_eq!(Corner::default(), Corner::TopRight);
}

#[test]
fn other_corners_are_refused() {
    assert_eq!(
        Corner::from_str("middle"),
        Err("expected \"top-right\", \"top-left\", \"bottom-right\" or \"bottom-left\", got \"middle\"".into())
    );
    assert!(Corner::from_str("Top-Right").is_err());
    assert!(Corner::from_str("").is_err());
}

#[test]
fn bottom_corners_are_at_the_bottom() {
    assert!(Corner::BottomRight.is_bottom());
    assert!(Corner::BottomLeft.is_bottom());
    assert!(!Corner::TopRight.is_bottom());
    assert!(!Corner::TopLeft.is_bottom());
}

fn path(own: Option<&str>, xdg: Option<&str>, home: Option<&str>) -> Option<String> {
    let bytes = |s: Option<&str>| s.map(|s| s.as_bytes().to_vec());
    Config::path(bytes(own), bytes(xdg), bytes(home)).map(|p| String::from_utf8(p).unwrap())
}

#[test]
fn the_file_is_looked_for_in_order() {
    assert_eq!(path(Some("/x.kdl"), Some("/c"), Some("/h")).as_deref(), Some("/x.kdl"));
    assert_eq!(
        path(None, Some("/c"), Some("/h")).as_deref(),
        Some("/c/prism-notify/config.kdl")
    );
    assert_eq!(
        path(None, None, Some("/h")).as_deref(),
        Some("/h/.config/prism-notify/config.kdl")
    );
    assert_eq!(path(None, None, None), None);
}

#[test]
fn paths_are_joined_as_the_standard_library_does() {
    for base in ["/c/", "", "/", "c", "/c//"] {
        let joined = std::path::PathBuf::from(base).join("prism-notify").join("config.kdl");
        assert_eq!(path(None, Some(base), None).as_deref(), joined.to_str());
    }
}

#[test]
fn the_configured_output_is_picked() {
    let names = vec![None, Some("HDMI-A-1".to_string()), Some("DP-1".into()), Some("DP-1".into())];
    let mut config = Config::default();
    assert_eq!(config.pick_output(&names), None);
    config.output = Some("DP-1".into());
    assert_eq!(config.pick_output(&names), Some(2));
    config.output = Some("DP-2".into());
    assert_eq!(config.pick_output(&names), None);
}
