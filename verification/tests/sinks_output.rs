use suzaku::csvenc::encode_csv_row;
use suzaku::event::{EventRec, GeoOutcome, RuleMeta};
use suzaku::severity::ColorCode;
use suzaku::sinks::{OutputType, Writers, csv_header, terminal_header, write_record};

fn profile() -> Vec<(String, String)> {
    vec![
        ("EventTime".to_string(), ".eventTime".to_string()),
        ("EventName".to_string(), ".eventName".to_string()),
        ("Level".to_string(), "sigma.level".to_string()),
        ("RuleTitle".to_string(), "sigma.title".to_string()),
    ]
}

fn sample_event() -> EventRec {
    let mut ev = EventRec::new();
    ev.push_field("eventTime".to_string(), "2024-01-02T03:04:05Z".to_string());
    ev.push_field("eventName".to_string(), "ConsoleLogin".to_string());
    ev
}

fn sample_rule() -> RuleMeta {
    let mut r = RuleMeta::with_title("Suspicious API Call".to_string());
    r.level = Some("High".to_string());
    r
}

#[test]
fn output_type_decodes() {
    assert_eq!(OutputType::from_u8(1), Some(OutputType::Csv));
    assert_eq!(OutputType::from_u8(2), Some(OutputType::Json));
    assert_eq!(OutputType::from_u8(3), Some(OutputType::Jsonl));
    assert_eq!(OutputType::from_u8(4), Some(OutputType::CsvAndJson));
    assert_eq!(OutputType::from_u8(5), Some(OutputType::CsvAndJsonl));
    assert_eq!(OutputType::from_u8(0), None);
    assert_eq!(OutputType::from_u8(6), None);
}

#[test]
fn mode_picks_sinks() {
    let w = Writers::from_mode(None, false, false);
    assert!(w.term && !w.csv && !w.json && !w.jsonl);
    let w = Writers::from_mode(Some(OutputType::CsvAndJson), false, false);
    assert!(!w.term && w.csv && w.json && !w.jsonl);
    let w = Writers::from_mode(Some(OutputType::CsvAndJsonl), false, false);
    assert!(!w.term && w.csv && !w.json && w.jsonl);
    let w = Writers::from_mode(Some(OutputType::Jsonl), false, false);
    assert!(!w.csv && w.jsonl);
}

#[test]
fn csv_encoding_matches_csv_crate() {
    let fields = vec![
        "plain".to_string(),
        "with,comma".to_string(),
        "with \"quote\"".to_string(),
        "line\nbreak".to_string(),
    ];
    let mine = encode_csv_row(&fields);
    let mut wtr = csv::WriterBuilder::new().from_writer(vec![]);
    wtr.write_record(&fields).unwrap();
    let theirs = String::from_utf8(wtr.into_inner().unwrap()).unwrap();
    assert_eq!(mine, theirs);
    assert_eq!(mine, "plain,\"with,comma\",\"with \"\"quote\"\"\",\"line\nbreak\"\n");
}

#[test]
fn headers_list_profile_columns() {
    let p = profile();
    assert_eq!(csv_header(&p), "EventTime,EventName,Level,RuleTitle\n");
    assert_eq!(terminal_header(&p), "EventTime · EventName · Level · RuleTitle\n");
}

#[test]
fn csv_sink_writes_one_row_per_hit() {
    let p = profile();
    let ev = sample_event();
    let rule = sample_rule();
    let mut w = Writers::from_mode(Some(OutputType::Csv), false, false);
    let out = write_record(&p, &ev, None, &rule, &mut w, &GeoOutcome::Disabled);
    assert_eq!(w.csv_rows, 1);
    assert!(out.term_segments.is_none());
    assert!(out.json_text.is_none());
    assert!(out.jsonl_text.is_none());
    let row = out.csv_row.unwrap();
    assert_eq!(row, "2024-01-02 03:04:05,ConsoleLogin,high,Suspicious API Call\n");
    let out2 = write_record(&p, &ev, None, &rule, &mut w, &GeoOutcome::Disabled);
    assert_eq!(w.csv_rows, 2);
    assert!(out2.csv_row.is_some());
}

#[test]
fn terminal_sink_abbreviates_and_colors() {
    let p = profile();
    let ev = sample_event();
    let rule = sample_rule();
    let mut w = Writers::from_mode(None, false, false);
    let out = write_record(&p, &ev, None, &rule, &mut w, &GeoOutcome::Disabled);
    let segs = out.term_segments.unwrap();
    let texts: Vec<&str> = segs.iter().map(|s| s.0.as_str()).collect();
    assert_eq!(
        texts,
        vec![
            "2024-01-02 03:04:05",
            " · ",
            "ConsoleLogin",
            " · ",
            "high",
            " · ",
            "Suspicious API Call",
        ]
    );
    // a high-severity line and its separators are both orange
    for seg in &segs {
        assert_eq!(seg.1, ColorCode::Orange);
    }
}

#[test]
fn terminal_sink_critical_is_red_and_default_is_info() {
    let p = profile();
    let ev = sample_event();
    let mut rule = sample_rule();
    rule.level = Some("Critical".to_string());
    let mut w = Writers::from_mode(None, false, false);
    let out = write_record(&p, &ev, None, &rule, &mut w, &GeoOutcome::Disabled);
    let segs = out.term_segments.unwrap();
    assert_eq!(segs[4].0, "crit");
    assert_eq!(segs[0].1, ColorCode::Red);
    assert_eq!(segs[1].1, ColorCode::Orange);

    // without a Level column everything is neutral
    let p2 = vec![("EventName".to_string(), ".eventName".to_string())];
    let mut w2 = Writers::from_mode(None, false, false);
    let out2 = write_record(&p2, &ev, None, &rule, &mut w2, &GeoOutcome::Disabled);
    let segs2 = out2.term_segments.unwrap();
    assert_eq!(segs2.len(), 1);
    assert_eq!(segs2[0].1, ColorCode::Neutral);
}

#[test]
fn no_color_renders_neutral() {
    let p = profile();
    let ev = sample_event();
    let rule = sample_rule();
    let mut w = Writers::from_mode(None, false, true);
    let out = write_record(&p, &ev, None, &rule, &mut w, &GeoOutcome::Disabled);
    for seg in out.term_segments.unwrap() {
        assert_eq!(seg.1, ColorCode::Neutral);
    }
}

#[test]
fn json_profile_mode_holds_all_columns_sorted() {
    let p = profile();
    let ev = sample_event();
    let rule = sample_rule();
    let mut w = Writers::from_mode(Some(OutputType::CsvAndJson), false, false);
    let out = write_record(&p, &ev, None, &rule, &mut w, &GeoOutcome::Disabled);
    assert_eq!(w.json_objs, 1);
    let text = out.json_text.unwrap();
    let v: serde_json::Value = serde_json::from_str(&text).unwrap();
    assert_eq!(v["EventTime"], "2024-01-02 03:04:05");
    assert_eq!(v["EventName"], "ConsoleLogin");
    assert_eq!(v["Level"], "high");
    assert_eq!(v["RuleTitle"], "Suspicious API Call");
    assert_eq!(v.as_object().unwrap().len(), 4);
    // pretty form spans lines
    assert!(text.contains('\n'));
}

#[test]
fn jsonl_raw_mode_overlays_sigma_columns_only() {
    let p = profile();
    let ev = sample_event();
    let rule = sample_rule();
    let base: serde_json::Value = serde_json::from_str(
        "{\"eventTime\":\"2024-01-02T03:04:05Z\",\"eventName\":\"ConsoleLogin\",\"extra\":42}",
    )
    .unwrap();
    let mut w = Writers::from_mode(Some(OutputType::Jsonl), true, false);
    let out = write_record(&p, &ev, Some(&base), &rule, &mut w, &GeoOutcome::Disabled);
    assert_eq!(w.jsonl_objs, 1);
    let line = out.jsonl_text.unwrap();
    assert!(!line.contains('\n'));
    let v: serde_json::Value = serde_json::from_str(&line).unwrap();
    // original payload kept
    assert_eq!(v["extra"], 42);
    assert_eq!(v["eventTime"], "2024-01-02T03:04:05Z");
    // only sigma.* columns overlaid, under their column names
    assert_eq!(v["Level"], "high");
    assert_eq!(v["RuleTitle"], "Suspicious API Call");
    assert!(v.get("EventTime").is_none());
    assert!(v.get("EventName").is_none());
}

#[test]
fn geo_columns_reach_every_sink() {
    let lines = vec![
        "SrcIP: '.sourceIPAddress'".to_string(),
        "RuleTitle: 'sigma.title'".to_string(),
    ];
    let p = suzaku::profile::load_profile_from_lines(&lines, true);
    let mut ev = EventRec::new();
    ev.push_field("sourceIPAddress".to_string(), "1.2.3.4".to_string());
    let rule = sample_rule();
    let geo = GeoOutcome::Resolved {
        asn: "AS1".to_string(),
        city: "Oslo".to_string(),
        country: "Norway".to_string(),
    };
    let mut w = Writers::from_mode(Some(OutputType::Csv), false, false);
    let out = write_record(&p, &ev, None, &rule, &mut w, &geo);
    assert_eq!(
        out.csv_row.unwrap(),
        "1.2.3.4,AS1,Oslo,Norway,Suspicious API Call\n"
    );
}

#[test]
fn extension_is_forced_only_when_different() {
    assert!(suzaku::sinks::needs_extension(None, "csv"));
    assert!(suzaku::sinks::needs_extension(Some(&"txt".to_string()), "csv"));
    assert!(!suzaku::sinks::needs_extension(Some(&"csv".to_string()), "csv"));
}
