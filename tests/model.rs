use makoconf::mako_config::{
    allowed_values, bool_to_str, known_keys, parse_bool, parse_px, parse_u32, IconLocation, Layer,
    LayoutKind, MakoConfig, TextAlign,
};
use makoconf::text::trim;

#[test]
fn width_with_px_suffix() {
    let mut c = MakoConfig::new();
    c.set_from_kv("width", "120px");
    assert_eq!(c.width, Some(120));
}

#[test]
fn negative_width_is_unset() {
    let mut c = MakoConfig::new();
    c.set_from_kv("width", "-5");
    assert_eq!(c.width, None);
    c.set_from_kv("width", "300");
    c.set_from_kv("width", "1.5");
    assert_eq!(c.width, None);
}

#[test]
fn icons_on_and_maybe() {
    let mut c = MakoConfig::new();
    c.set_from_kv("icons", "on");
    assert_eq!(c.icons, Some(true));
    let mut d = MakoConfig::new();
    d.set_from_kv("icons", "maybe");
    assert_eq!(d.icons, None);
}

#[test]
fn layer_is_case_insensitive() {
    let mut c = MakoConfig::new();
    c.set_from_kv("layer", "Overlay");
    assert_eq!(c.layer, Some(Layer::Overlay));
    c.set_from_kv("layer", "sideways");
    assert_eq!(c.layer, Some(Layer::Overlay));
}

#[test]
fn unknown_key_changes_nothing() {
    let mut c = MakoConfig::new();
    c.set_from_kv("width", "10");
    let before = c.to_kv_pairs();
    c.set_from_kv("frobnicate", "1");
    assert_eq!(c.to_kv_pairs(), before);
    assert_eq!(MakoConfig::new().to_kv_pairs(), Vec::new());
}

#[test]
fn key_is_trimmed_and_text_fields_kept() {
    let mut c = MakoConfig::new();
    c.set_from_kv("  font ", "  monospace 10 ");
    c.set_from_kv("default-timeout", " 5000 ");
    c.set_from_kv("max-icon-size", "64px");
    assert_eq!(c.font.as_deref(), Some("monospace 10"));
    assert_eq!(c.default_timeout, Some(5000));
    assert_eq!(c.max_icon_size, Some(64));
}

#[test]
fn default_timeout_takes_no_suffix() {
    assert_eq!(parse_u32("100px"), None);
    assert_eq!(parse_u32("+7"), Some(7));
    assert_eq!(parse_u32("4294967296"), None);
}

#[test]
fn pixel_parsing() {
    assert_eq!(parse_px(" 42px "), Some(42));
    assert_eq!(parse_px("42"), Some(42));
    assert_eq!(parse_px("42 px"), None);
    assert_eq!(parse_px("px"), None);
    assert_eq!(parse_px(""), None);
}

#[test]
fn flag_words() {
    for w in ["1", "TRUE", "Yes", "on"] {
        assert_eq!(parse_bool(w), Some(true));
    }
    for w in ["0", "false", "NO", " Off "] {
        assert_eq!(parse_bool(w), Some(false));
    }
    assert_eq!(parse_bool("2"), None);
    assert_eq!(bool_to_str(true), "1");
    assert_eq!(bool_to_str(false), "0");
}

#[test]
fn open_enumerations_keep_other_names() {
    assert!(matches!(LayoutKind::parse(" Center "), LayoutKind::Center));
    match LayoutKind::parse(" Stacked ") {
        LayoutKind::Other(s) => assert_eq!(s, "Stacked"),
        other => panic!("unexpected {:?}", other),
    }
    assert!(matches!(IconLocation::parse("TopLeft"), IconLocation::TopLeft));
    assert!(matches!(IconLocation::parse("bottom-right"), IconLocation::BottomRight));
    assert!(matches!(IconLocation::parse("Bottom-Left"), IconLocation::BottomLeft));
    assert!(matches!(IconLocation::parse("BottomLeft"), IconLocation::BottomLeft));
    match IconLocation::parse(" Far-Away ") {
        IconLocation::Other(s) => assert_eq!(s, "Far-Away"),
        other => panic!("unexpected {:?}", other),
    }
    match "Grid".parse::<LayoutKind>() {
        Ok(LayoutKind::Other(s)) => assert_eq!(s, "Grid"),
        other => panic!("unexpected {:?}", other),
    }
    assert!(matches!(" CENTER ".parse::<LayoutKind>(), Ok(LayoutKind::Center)));
    assert_eq!(LayoutKind::Other("Grid".to_string()).name(), "Grid");
    assert_eq!(IconLocation::BottomLeft.name(), "bottom-left");
}

#[test]
fn closed_enumerations_reject_other_names() {
    assert_eq!(TextAlign::parse("RIGHT"), Some(TextAlign::Right));
    assert_eq!(TextAlign::parse("justify"), None);
    assert_eq!(Layer::parse("top"), Some(Layer::Top));
    assert_eq!("bottom".parse::<Layer>(), Ok(Layer::Bottom));
    assert_eq!("middle".parse::<TextAlign>(), Err(()));
}

#[test]
fn pairs_in_field_order_with_canonical_values() {
    let mut c = MakoConfig::new();
    c.set_from_kv("text-align", "Center");
    c.set_from_kv("icons", "yes");
    c.set_from_kv("layer", "TOP");
    c.set_from_kv("width", "120px");
    c.set_from_kv("sort", "-time");
    c.set_from_kv("icon-location", "topright");
    c.set_from_kv("layout", "Weird");
    let got = c.to_kv_pairs();
    let want: Vec<(String, String)> = [
        ("sort", "-time"),
        ("layer", "top"),
        ("width", "120"),
        ("icons", "1"),
        ("icon-location", "top-right"),
        ("layout", "Weird"),
        ("text-align", "center"),
    ]
    .iter()
    .map(|(k, v)| (k.to_string(), v.to_string()))
    .collect();
    assert_eq!(got, want);
}

#[test]
fn set_then_emit_then_set_again_is_stable() {
    let mut c = MakoConfig::new();
    c.set_from_kv("height", "0100");
    c.set_from_kv("markup", "FALSE");
    c.set_from_kv("icon-location", "Left");
    let first = c.to_kv_pairs();
    let mut d = MakoConfig::new();
    for (k, v) in &first {
        d.set_from_kv(k, v);
    }
    assert_eq!(d.to_kv_pairs(), first);
    assert_eq!(first[0], ("height".to_string(), "100".to_string()));
}

#[test]
fn registry_lists_known_keys_in_order() {
    let keys = known_keys();
    assert_eq!(keys.len(), 27);
    assert_eq!(keys[0].0, "sort");
    assert_eq!(keys[22].0, "<custom>");
    assert_eq!(keys[26], ("text-align", "Text alignment: left, center, right"));
}

#[test]
fn allowed_values_by_exact_key() {
    assert_eq!(allowed_values("layer"), Some(vec!["overlay", "normal", "top", "bottom"]));
    assert_eq!(allowed_values("text-align"), Some(vec!["left", "center", "right"]));
    assert_eq!(allowed_values("anchor-point").map(|v| v.len()), Some(13));
    let anchors = allowed_values("anchor").unwrap();
    for (i, a) in anchors.iter().enumerate() {
        assert!(!anchors[i + 1..].contains(a));
    }
    assert_eq!(allowed_values("Layer"), None);
    assert_eq!(allowed_values("font"), None);
}

#[test]
fn text_helpers() {
    assert_eq!(trim("\u{3000} a b\t\n"), "a b");
    assert_eq!(parse_bool("ÓN"), None);
    assert_eq!(TextAlign::parse("LEFT"), Some(TextAlign::Left));
    assert_eq!(Layer::Normal.name(), "normal");
}

#[test]
fn default_record_is_empty() {
    let c = MakoConfig::default();
    assert!(c.to_kv_pairs().is_empty());
    assert_eq!(c.width, None);
}

#[test]
fn every_allowed_value_reads_back_as_written() {
    for k in ["layer", "icons", "ignore-timeout", "markup", "icon-location", "text-align", "layout"] {
        for v in allowed_values(k).unwrap() {
            let mut c = MakoConfig::new();
            c.set_from_kv(k, v);
            assert!(!matches!(c.icon_location, Some(IconLocation::Other(_))));
            assert!(!matches!(c.layout, Some(LayoutKind::Other(_))));
            let pairs = c.to_kv_pairs();
            assert_eq!(pairs.len(), 1, "{} = {}", k, v);
            assert_eq!(pairs[0].0, k);
            if k == "icons" || k == "ignore-timeout" || k == "markup" {
                let want = if v == "1" || v == "true" { "1" } else { "0" };
                assert_eq!(pairs[0].1, want);
            } else {
                assert_eq!(pairs[0].1, v);
            }
        }
    }
}
