use makoconf::config::{Config, Param};
use makoconf::session::{clamp, filtered_keys, Effect, Key, Mode, Session};

fn two() -> Config {
    Config { params: vec![Param::new("font", "monospace 10"), Param::new("background-color", "#1d1f21")] }
}

fn three() -> Config {
    Config { params: vec![Param::new("a", "1"), Param::new("b", "2"), Param::new("c", "3")] }
}

fn type_text(s: &mut Session, cfg: &mut Config, text: &str) {
    for c in text.chars() {
        let e = s.handle_key(cfg, Key::Char(c));
        assert!(matches!(e, Effect::Stay));
    }
}

fn keys(cfg: &Config) -> Vec<String> {
    cfg.params.iter().map(|p| p.key.clone()).collect()
}

#[test]
fn add_known_key_through_filter() {
    let mut cfg = two();
    let mut s = Session::new(&cfg);
    assert!(matches!(s.handle_key(&mut cfg, Key::Char('a')), Effect::Stay));
    assert!(matches!(s.mode, Mode::AddKey { .. }));
    type_text(&mut s, &mut cfg, "group");
    assert_eq!(filtered_keys("group"), vec!["group-by"]);
    s.handle_key(&mut cfg, Key::Enter);
    match &s.mode {
        Mode::AddValue { key, input } => {
            assert_eq!(key, "group-by");
            assert_eq!(input, "");
        }
        other => panic!("unexpected {:?}", other),
    }
    type_text(&mut s, &mut cfg, "app-name");
    match s.handle_key(&mut cfg, Key::Enter) {
        Effect::Changed { key, value } => {
            assert_eq!(key, "group-by");
            assert_eq!(value, "app-name");
        }
        other => panic!("unexpected {:?}", other),
    }
    assert!(matches!(s.mode, Mode::Normal));
    assert_eq!(cfg.params.len(), 3);
    assert_eq!(cfg.params[2].key, "group-by");
    assert_eq!(cfg.params[2].value, "app-name");
    assert_eq!(s.selected, Some(2));
}

#[test]
fn delete_declined_then_confirmed() {
    let mut cfg = three();
    let mut s = Session::new(&cfg);
    s.handle_key(&mut cfg, Key::Down);
    assert_eq!(s.selected, Some(1));
    s.handle_key(&mut cfg, Key::Char('d'));
    assert!(matches!(s.mode, Mode::ConfirmDelete { idx: 1 }));
    assert!(matches!(s.handle_key(&mut cfg, Key::Char('n')), Effect::Stay));
    assert!(matches!(s.mode, Mode::Normal));
    assert_eq!(keys(&cfg), vec!["a", "b", "c"]);
    assert_eq!(s.selected, Some(1));
    s.handle_key(&mut cfg, Key::Char('d'));
    match s.handle_key(&mut cfg, Key::Char('y')) {
        Effect::Changed { key, value } => {
            assert_eq!(key, "b");
            assert_eq!(value, "<deleted>");
        }
        other => panic!("unexpected {:?}", other),
    }
    assert!(matches!(s.mode, Mode::Normal));
    assert_eq!(keys(&cfg), vec!["a", "c"]);
    assert_eq!(s.selected, Some(0));
}

#[test]
fn deleting_the_last_entry_clears_selection() {
    let mut cfg = Config { params: vec![Param::new("a", "1")] };
    let mut s = Session::new(&cfg);
    s.handle_key(&mut cfg, Key::Char('d'));
    s.handle_key(&mut cfg, Key::Char('Y'));
    assert!(cfg.params.is_empty());
    assert_eq!(s.selected, None);
    assert!(matches!(s.handle_key(&mut cfg, Key::Down), Effect::Stay));
    assert_eq!(s.selected, None);
    assert!(matches!(s.handle_key(&mut cfg, Key::Char('e')), Effect::Stay));
    assert!(matches!(s.mode, Mode::Normal));
}

#[test]
fn navigation_wraps_around() {
    let mut cfg = three();
    let mut s = Session::new(&cfg);
    s.handle_key(&mut cfg, Key::Up);
    assert_eq!(s.selected, Some(2));
    s.handle_key(&mut cfg, Key::Char('j'));
    assert_eq!(s.selected, Some(0));
    s.handle_key(&mut cfg, Key::Char('k'));
    assert_eq!(s.selected, Some(2));
}

#[test]
fn edit_value_commit_and_cancel() {
    let mut cfg = two();
    let mut s = Session::new(&cfg);
    s.handle_key(&mut cfg, Key::Enter);
    match &s.mode {
        Mode::EditValue { idx, input } => {
            assert_eq!(*idx, 0);
            assert_eq!(input, "monospace 10");
        }
        other => panic!("unexpected {:?}", other),
    }
    s.handle_key(&mut cfg, Key::Backspace);
    s.handle_key(&mut cfg, Key::Backspace);
    type_text(&mut s, &mut cfg, "12");
    match s.handle_key(&mut cfg, Key::Enter) {
        Effect::Changed { key, value } => {
            assert_eq!(key, "font");
            assert_eq!(value, "monospace 12");
        }
        other => panic!("unexpected {:?}", other),
    }
    assert_eq!(cfg.params[0].value, "monospace 12");
    s.handle_key(&mut cfg, Key::Char('e'));
    type_text(&mut s, &mut cfg, "xyz");
    assert!(matches!(s.handle_key(&mut cfg, Key::Esc), Effect::Stay));
    assert!(matches!(s.mode, Mode::Normal));
    assert_eq!(cfg.params[0].value, "monospace 12");
}

#[test]
fn custom_key_flow() {
    let mut cfg = two();
    let mut s = Session::new(&cfg);
    s.handle_key(&mut cfg, Key::Char('a'));
    type_text(&mut s, &mut cfg, "custom");
    assert_eq!(filtered_keys("custom"), vec!["<custom>"]);
    s.handle_key(&mut cfg, Key::Enter);
    assert!(matches!(s.mode, Mode::AddCustomKey { .. }));
    type_text(&mut s, &mut cfg, "  ");
    s.handle_key(&mut cfg, Key::Enter);
    assert!(matches!(s.mode, Mode::Normal));
    s.handle_key(&mut cfg, Key::Char('a'));
    type_text(&mut s, &mut cfg, "custom");
    s.handle_key(&mut cfg, Key::Enter);
    type_text(&mut s, &mut cfg, " on-button-left ");
    s.handle_key(&mut cfg, Key::Enter);
    match &s.mode {
        Mode::AddValue { key, .. } => assert_eq!(key, "on-button-left"),
        other => panic!("unexpected {:?}", other),
    }
    type_text(&mut s, &mut cfg, "dismiss");
    s.handle_key(&mut cfg, Key::Enter);
    assert_eq!(keys(&cfg), vec!["font", "background-color", "on-button-left"]);
    assert_eq!(s.selected, Some(2));
}

#[test]
fn key_list_navigation_and_empty_filter() {
    let mut cfg = two();
    let mut s = Session::new(&cfg);
    s.handle_key(&mut cfg, Key::Char('a'));
    s.handle_key(&mut cfg, Key::Down);
    assert_eq!(s.key_selected, Some(1));
    s.handle_key(&mut cfg, Key::Enter);
    match &s.mode {
        Mode::AddValue { key, .. } => assert_eq!(key, "layer"),
        other => panic!("unexpected {:?}", other),
    }
    s.handle_key(&mut cfg, Key::Esc);
    assert!(matches!(s.mode, Mode::Normal));
    s.handle_key(&mut cfg, Key::Char('a'));
    type_text(&mut s, &mut cfg, "zzz");
    assert!(filtered_keys("zzz").is_empty());
    s.handle_key(&mut cfg, Key::Enter);
    assert!(matches!(s.mode, Mode::Normal));
    assert_eq!(cfg.params.len(), 2);
}

#[test]
fn filter_matches_description_without_case() {
    assert_eq!(filtered_keys("PIXELS").len(), 8);
    assert_eq!(filtered_keys("").len(), 27);
    assert_eq!(filtered_keys("Alias"), vec!["anchor-point"]);
}

#[test]
fn quit_only_from_normal() {
    let mut cfg = two();
    let mut s = Session::new(&cfg);
    s.handle_key(&mut cfg, Key::Char('a'));
    s.handle_key(&mut cfg, Key::Char('c'));
    s.handle_key(&mut cfg, Key::Char('q'));
    assert!(matches!(s.mode, Mode::AddKey { .. }));
    s.handle_key(&mut cfg, Key::Esc);
    assert!(matches!(s.handle_key(&mut cfg, Key::Char('q')), Effect::Quit));
}

fn add_text_align(s: &mut Session, cfg: &mut Config) {
    s.handle_key(cfg, Key::Char('a'));
    type_text(s, cfg, "text-align");
    assert_eq!(filtered_keys("text-align"), vec!["text-align"]);
    s.handle_key(cfg, Key::Enter);
    type_text(s, cfg, "center");
    match s.handle_key(cfg, Key::Enter) {
        Effect::Changed { key, value } => {
            assert_eq!(key, "text-align");
            assert_eq!(value, "center");
        }
        other => panic!("unexpected {:?}", other),
    }
}

#[test]
fn add_after_stale_key_selection() {
    let mut cfg = two();
    let mut s = Session::new(&cfg);
    s.handle_key(&mut cfg, Key::Char('a'));
    for _ in 0..5 {
        s.handle_key(&mut cfg, Key::Down);
    }
    assert_eq!(s.key_selected, Some(5));
    s.handle_key(&mut cfg, Key::Esc);
    add_text_align(&mut s, &mut cfg);
    assert!(matches!(s.mode, Mode::Normal));
    assert_eq!(cfg.params.len(), 3);
    assert_eq!(cfg.params[2].key, "text-align");
    assert_eq!(cfg.params[2].value, "center");
    assert_eq!(s.selected, Some(2));
}

#[test]
fn add_after_empty_filter() {
    let mut cfg = two();
    let mut s = Session::new(&cfg);
    s.handle_key(&mut cfg, Key::Char('a'));
    type_text(&mut s, &mut cfg, "zzz");
    assert_eq!(s.key_selected, None);
    s.handle_key(&mut cfg, Key::Esc);
    add_text_align(&mut s, &mut cfg);
    assert_eq!(cfg.params.len(), 3);
    assert_eq!(s.selected, Some(2));
}

#[test]
fn typing_brings_selection_into_filtered_list() {
    let mut cfg = two();
    let mut s = Session::new(&cfg);
    s.handle_key(&mut cfg, Key::Char('a'));
    s.handle_key(&mut cfg, Key::Up);
    assert_eq!(s.key_selected, Some(26));
    type_text(&mut s, &mut cfg, "icon");
    assert_eq!(s.key_selected, Some(filtered_keys("icon").len() - 1));
    assert_eq!(clamp(Some(7), 3), Some(2));
    assert_eq!(clamp(None, 3), Some(0));
    assert_eq!(clamp(Some(1), 0), None);
}
