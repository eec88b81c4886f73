use makoconf::config::{Config, Param};

fn pairs(cfg: &Config) -> Vec<(String, String)> {
    cfg.params.iter().map(|p| (p.key.clone(), p.value.clone())).collect()
}

fn owned(v: &[(&str, &str)]) -> Vec<(String, String)> {
    v.iter().map(|(k, x)| (k.to_string(), x.to_string())).collect()
}

#[test]
fn save_then_load_gives_same_params() {
    let mut cfg = Config { params: Vec::new() };
    cfg.add_param("font", "monospace 10");
    cfg.add_param("background-color", "#1d1f21");
    cfg.add_param("width", "300");
    cfg.add_param("font", "sans 9");
    let text = cfg.to_text();
    assert_eq!(text, "font=monospace 10\nbackground-color=#1d1f21\nwidth=300\nfont=sans 9\n");
    let back = Config::from_text(&text);
    assert_eq!(pairs(&back), pairs(&cfg));
}

#[test]
fn save_then_load_of_empty_list() {
    let cfg = Config { params: Vec::new() };
    assert_eq!(cfg.to_text(), "");
    assert!(Config::from_text("").params.is_empty());
}

#[test]
fn double_quoted_value_is_unquoted_and_unescaped() {
    let cfg = Config::from_text("key=\"a\\\"b\"\n");
    assert_eq!(pairs(&cfg), owned(&[("key", "a\"b")]));
    assert_eq!(cfg.to_text(), "key=a\"b\n");
}

#[test]
fn single_quoted_value_is_unquoted() {
    let cfg = Config::from_text("key='x'");
    assert_eq!(pairs(&cfg), owned(&[("key", "x")]));
    assert_eq!(cfg.to_text(), "key=x\n");
}

#[test]
fn lone_quote_is_kept() {
    let cfg = Config::from_text("key=\"\nother='a\"");
    assert_eq!(pairs(&cfg), owned(&[("key", "\""), ("other", "'a\"")]));
}

#[test]
fn comments_blanks_and_bad_lines_are_skipped() {
    let text = "# comment\n\nfont=monospace 10\n   \nbad_line_no_equals\n  # indented comment\nwidth = 300\n";
    let cfg = Config::from_text(text);
    assert_eq!(pairs(&cfg), owned(&[("font", "monospace 10"), ("width", "300")]));
}

#[test]
fn whitespace_around_key_and_value_is_trimmed() {
    let cfg = Config::from_text("  border-size =\t2px  \r\nsort=-time");
    assert_eq!(pairs(&cfg), owned(&[("border-size", "2px"), ("sort", "-time")]));
}

#[test]
fn only_first_equals_splits() {
    let cfg = Config::from_text("format=<b>%s</b>=x\n=v\n");
    assert_eq!(pairs(&cfg), owned(&[("format", "<b>%s</b>=x"), ("", "v")]));
}

#[test]
fn save_trims_values() {
    let mut cfg = Config { params: Vec::new() };
    cfg.add_param("font", "  mono 9 ");
    assert_eq!(cfg.to_text(), "font=mono 9\n");
    assert_eq!(cfg.params[0].formatted_value(), "mono 9");
}

#[test]
fn remove_past_end_changes_nothing() {
    let mut cfg = Config { params: vec![Param::new("a", "1"), Param::new("b", "2")] };
    cfg.remove_param(2);
    cfg.remove_param(100);
    assert_eq!(pairs(&cfg), owned(&[("a", "1"), ("b", "2")]));
}

#[test]
fn remove_in_range_drops_that_entry() {
    let mut cfg = Config { params: vec![Param::new("a", "1"), Param::new("b", "2"), Param::new("c", "3")] };
    cfg.remove_param(1);
    assert_eq!(pairs(&cfg), owned(&[("a", "1"), ("c", "3")]));
}

#[test]
fn add_appends_at_the_end() {
    let mut cfg = Config { params: vec![Param::new("a", "1")] };
    cfg.add_param("a", "2");
    assert_eq!(pairs(&cfg), owned(&[("a", "1"), ("a", "2")]));
}

#[test]
fn set_value_keeps_key() {
    let mut cfg = Config { params: vec![Param::new("a", "1"), Param::new("b", "2")] };
    cfg.set_value(1, "9");
    assert_eq!(pairs(&cfg), owned(&[("a", "1"), ("b", "9")]));
}

#[test]
fn notify_message_joins_key_and_value() {
    assert_eq!(Config::notify_message("width", "120"), "width = 120");
}

#[test]
fn reload_outcome_trims_the_right_stream() {
    assert_eq!(Config::reload_outcome(true, " ok \n", "err"), Ok("ok".to_string()));
    assert_eq!(Config::reload_outcome(false, "out", "\tfailed\n"), Err("failed".to_string()));
}

#[test]
fn seed_defaults_only_when_empty() {
    let mut cfg = Config { params: Vec::new() };
    cfg.seed_defaults();
    assert_eq!(pairs(&cfg), owned(&[("font", "monospace 10"), ("background-color", "#1d1f21")]));
    let mut other = Config { params: vec![Param::new("a", "1")] };
    other.seed_defaults();
    assert_eq!(pairs(&other), owned(&[("a", "1")]));
}
