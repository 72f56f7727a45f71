use suzaku::event::{EventRec, GeoOutcome, RuleMeta};
use suzaku::extract::{format_event_time, render_list, resolve, to_ascii_lower};
use suzaku::profile::{load_profile_from_lines, parse_line};

fn event_with(fields: &[(&str, &str)]) -> EventRec {
    let mut ev = EventRec::new();
    for (k, v) in fields {
        ev.push_field(k.to_string(), v.to_string());
    }
    ev
}

fn rule_titled(title: &str) -> RuleMeta {
    RuleMeta::with_title(title.to_string())
}

#[test]
fn parse_line_key_value() {
    let r = parse_line("Timestamp: '.eventTime'").unwrap();
    assert_eq!(r.0, "Timestamp");
    assert_eq!(r.1, ".eventTime");
}

#[test]
fn parse_line_without_colon_is_skipped() {
    assert!(parse_line("no separator here").is_none());
    assert!(parse_line("").is_none());
}

#[test]
fn parse_line_trims_spaces_and_quotes() {
    let r = parse_line("  Level :   'sigma.level'  ").unwrap();
    assert_eq!(r.0, "Level");
    assert_eq!(r.1, "sigma.level");
}

#[test]
fn profile_keeps_file_order() {
    let lines = vec![
        "EventTime: '.eventTime'".to_string(),
        "skip me".to_string(),
        "RuleTitle: 'sigma.title'".to_string(),
    ];
    let p = load_profile_from_lines(&lines, false);
    assert_eq!(p.len(), 2);
    assert_eq!(p[0].0, "EventTime");
    assert_eq!(p[1].1, "sigma.title");
}

#[test]
fn geo_enabled_inserts_three_synthetic_columns_after_src_ip() {
    let lines = vec![
        "EventTime: '.eventTime'".to_string(),
        "SrcIP: '.sourceIPAddress'".to_string(),
        "RuleTitle: 'sigma.title'".to_string(),
    ];
    let with_geo = load_profile_from_lines(&lines, true);
    let names: Vec<&str> = with_geo.iter().map(|e| e.0.as_str()).collect();
    assert_eq!(
        names,
        vec!["EventTime", "SrcIP", "SrcASN", "SrcCity", "SrcCountry", "RuleTitle"]
    );
    assert_eq!(with_geo[2].1, "SrcASN");
    assert_eq!(with_geo[3].1, "SrcCity");
    assert_eq!(with_geo[4].1, "SrcCountry");

    let without_geo = load_profile_from_lines(&lines, false);
    assert_eq!(without_geo.len(), 3);
}

#[test]
fn resolve_event_field() {
    let ev = event_with(&[("eventName", "ConsoleLogin")]);
    let rule = rule_titled("t");
    let got = resolve(".eventName", &ev, &rule, &GeoOutcome::Disabled);
    assert_eq!(got, "ConsoleLogin");
}

#[test]
fn resolve_missing_field_gives_placeholder() {
    let ev = event_with(&[]);
    let rule = rule_titled("t");
    assert_eq!(resolve(".nothing", &ev, &rule, &GeoOutcome::Disabled), "-");
    assert_eq!(resolve("unprefixed", &ev, &rule, &GeoOutcome::Disabled), "-");
    assert_eq!(resolve("sigma.unknown", &ev, &rule, &GeoOutcome::Disabled), "-");
}

#[test]
fn resolve_event_time_reformats() {
    let ev = event_with(&[("eventTime", "2024-01-02T03:04:05Z")]);
    let rule = rule_titled("t");
    let got = resolve(".eventTime", &ev, &rule, &GeoOutcome::Disabled);
    assert_eq!(got, "2024-01-02 03:04:05");
    assert_eq!(format_event_time("2024-01-02T03:04:05Z"), "2024-01-02 03:04:05");
}

#[test]
fn resolve_sigma_metadata() {
    let ev = event_with(&[]);
    let mut rule = rule_titled("Suspicious API Call");
    rule.id = Some("abc-123".to_string());
    rule.status = Some("Stable".to_string());
    rule.author = Some("alice".to_string());
    rule.level = Some("High".to_string());
    rule.references = Some(vec!["https://a".to_string(), "https://b".to_string()]);
    let geo = GeoOutcome::Disabled;
    assert_eq!(resolve("sigma.title", &ev, &rule, &geo), "Suspicious API Call");
    assert_eq!(resolve("sigma.id", &ev, &rule, &geo), "abc-123");
    assert_eq!(resolve("sigma.status", &ev, &rule, &geo), "stable");
    assert_eq!(resolve("sigma.author", &ev, &rule, &geo), "alice");
    assert_eq!(resolve("sigma.level", &ev, &rule, &geo), "high");
    assert_eq!(
        resolve("sigma.references", &ev, &rule, &geo),
        "[\"https://a\", \"https://b\"]"
    );
    assert_eq!(resolve("sigma.description", &ev, &rule, &geo), "-");
    assert_eq!(resolve("sigma.level", &ev, &rule_titled("t"), &geo), "-");
}

#[test]
fn unresolved_ip_short_circuits_every_column() {
    let ev = event_with(&[("sourceIPAddress", "8.8.8.8"), ("eventName", "x")]);
    let rule = rule_titled("t");
    let geo = GeoOutcome::Unresolved("8.8.8.8".to_string());
    assert_eq!(resolve("SrcASN", &ev, &rule, &geo), "8.8.8.8");
    assert_eq!(resolve(".eventName", &ev, &rule, &geo), "8.8.8.8");
    assert_eq!(resolve("sigma.title", &ev, &rule, &geo), "8.8.8.8");
}

#[test]
fn resolved_ip_answers_geo_columns_and_falls_through() {
    let ev = event_with(&[("sourceIPAddress", "1.2.3.4"), ("eventName", "x")]);
    let rule = rule_titled("t");
    let geo = GeoOutcome::Resolved {
        asn: "AS15169".to_string(),
        city: "Mountain View".to_string(),
        country: "United States".to_string(),
    };
    assert_eq!(resolve("SrcASN", &ev, &rule, &geo), "AS15169");
    assert_eq!(resolve("SrcCity", &ev, &rule, &geo), "Mountain View");
    assert_eq!(resolve("SrcCountry", &ev, &rule, &geo), "United States");
    assert_eq!(resolve(".eventName", &ev, &rule, &geo), "x");
}

#[test]
fn resolve_is_idempotent() {
    let ev = event_with(&[("eventTime", "2024-01-02T03:04:05Z")]);
    let mut rule = rule_titled("t");
    rule.tags = Some(vec!["attack.t1078".to_string()]);
    let geo = GeoOutcome::NoSourceIp;
    for expr in ["sigma.tags", ".eventTime", ".missing", "plain"] {
        let a = resolve(expr, &ev, &rule, &geo);
        let b = resolve(expr, &ev, &rule, &geo);
        assert_eq!(a, b);
    }
}

#[test]
fn ascii_lower_and_lists() {
    assert_eq!(to_ascii_lower("MiXeD-42"), "mixed-42");
    assert_eq!(render_list(&vec![]), "[]");
    assert_eq!(render_list(&vec!["one".to_string()]), "[\"one\"]");
}
