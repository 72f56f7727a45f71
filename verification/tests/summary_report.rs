use suzaku::fmtnum::{format_count, format_pct2, format_pct_int, format_plain};
use suzaku::report::{
    author_counts, column_count_for_width, layout_author_columns, max_date, render_author_table,
    render_dates, render_header, render_level_lines, render_top_alerts, sort_entries, total_hits,
};
use suzaku::severity::{ColorCode, SeverityLevel, abbreviate_level, all_levels};
use suzaku::summary::DetectionSummary;
use suzaku::timefmt::{format_date, format_utc};
use suzaku::timeline::{TimelineRender, render_timeline};

// 2024-01-02T03:04:05Z
const TS: i64 = 1704164645;

#[test]
fn severity_parsing_and_names() {
    assert_eq!(SeverityLevel::from_name("critical"), Some(SeverityLevel::Critical));
    assert_eq!(SeverityLevel::from_name("informational"), Some(SeverityLevel::Informational));
    assert_eq!(SeverityLevel::from_name("bogus"), None);
    assert_eq!(SeverityLevel::High.name(), "high");
    assert_eq!(all_levels().len(), 5);
}

#[test]
fn abbreviations() {
    assert_eq!(abbreviate_level("critical"), "crit");
    assert_eq!(abbreviate_level("medium"), "med");
    assert_eq!(abbreviate_level("informational"), "info");
    assert_eq!(abbreviate_level("high"), "high");
    assert_eq!(abbreviate_level("anything"), "anything");
}

#[test]
fn number_formatting() {
    assert_eq!(format_count(0), "0");
    assert_eq!(format_count(999), "999");
    assert_eq!(format_count(1000), "1,000");
    assert_eq!(format_count(1234567), "1,234,567");
    assert_eq!(format_plain(1234567), "1234567");
    assert_eq!(format_pct2(1, 3), "33.33");
    assert_eq!(format_pct2(0, 0), "0.00");
    assert_eq!(format_pct2(2, 2), "100.00");
    assert_eq!(format_pct_int(43, 100), "43");
    assert_eq!(format_pct_int(5, 0), "0");
}

#[test]
fn chrono_rendering() {
    assert_eq!(format_date(TS), "2024-01-02");
    assert_eq!(format_utc(TS), "2024-01-02 03:04:05 UTC");
    assert_eq!(format_date(0), "1970-01-01");
}

#[test]
fn one_event_many_rules_counts_once() {
    let mut s = DetectionSummary::new();
    s.record_event();
    s.record_hit(TS, SeverityLevel::High, &"r1".to_string(), &"alice".to_string());
    s.record_hit(TS, SeverityLevel::High, &"r2".to_string(), &"alice".to_string());
    s.record_hit(TS, SeverityLevel::Low, &"r3".to_string(), &"bob".to_string());
    assert_eq!(s.total_events, 1);
    assert_eq!(s.event_with_hits, 1);
    s.record_event();
    assert_eq!(s.total_events, 2);
    assert_eq!(s.event_with_hits, 1);
    assert!(s.event_with_hits <= s.total_events);
}

#[test]
fn record_hit_updates_every_table() {
    let mut s = DetectionSummary::new();
    s.record_event();
    s.record_hit(
        TS,
        SeverityLevel::High,
        &"Suspicious API Call".to_string(),
        &"alice".to_string(),
    );
    let highs = s.level_hits.entries(SeverityLevel::High);
    assert_eq!(highs.len(), 1);
    assert_eq!(highs[0].0, "Suspicious API Call");
    assert_eq!(highs[0].1, 1);
    let dates = s.date_hits.entries(SeverityLevel::High);
    assert_eq!(dates[0].0, "2024-01-02");
    assert_eq!(dates[0].1, 1);
    assert_eq!(s.author_titles.len(), 1);
    assert_eq!(s.author_titles[0].0, "alice");
    assert_eq!(s.author_titles[0].1, vec!["Suspicious API Call".to_string()]);
    assert_eq!(s.timestamps, vec![TS]);
    assert_eq!(s.first_event_time, Some(TS));
    assert_eq!(s.last_event_time, Some(TS));
}

#[test]
fn repeated_hits_increment_counters() {
    let mut s = DetectionSummary::new();
    s.record_event();
    s.record_hit(TS, SeverityLevel::High, &"r".to_string(), &"a".to_string());
    s.record_event();
    s.record_hit(TS + 86400, SeverityLevel::High, &"r".to_string(), &"a".to_string());
    let highs = s.level_hits.entries(SeverityLevel::High);
    assert_eq!(highs.len(), 1);
    assert_eq!(highs[0].1, 2);
    let dates = s.date_hits.entries(SeverityLevel::High);
    assert_eq!(dates.len(), 2);
    assert_eq!(s.first_event_time, Some(TS));
    assert_eq!(s.last_event_time, Some(TS + 86400));
    // the same title is not credited twice
    assert_eq!(s.author_titles[0].1.len(), 1);
}

#[test]
fn comma_separated_authors_each_get_credit() {
    let mut s = DetectionSummary::new();
    s.record_event();
    s.record_hit(TS, SeverityLevel::Low, &"r".to_string(), &"alice, bob".to_string());
    assert_eq!(s.author_titles.len(), 2);
    assert_eq!(s.author_titles[0].0, "alice");
    assert_eq!(s.author_titles[1].0, "bob");
}

#[test]
fn sorting_counts_desc_names_asc() {
    let v = vec![
        ("carol".to_string(), 3u64),
        ("bob".to_string(), 5u64),
        ("alice".to_string(), 5u64),
    ];
    let s = sort_entries(&v);
    let names: Vec<&str> = s.iter().map(|e| e.0.as_str()).collect();
    assert_eq!(names, vec!["alice", "bob", "carol"]);
    assert_eq!(s[0].1, 5);
}

#[test]
fn max_date_breaks_ties_to_smallest_date() {
    let v = vec![
        ("2024-01-03".to_string(), 4u64),
        ("2024-01-01".to_string(), 4u64),
        ("2024-01-02".to_string(), 2u64),
    ];
    let best = max_date(&v);
    assert_eq!(best.0, "2024-01-01");
    assert_eq!(best.1, 4);
}

#[test]
fn width_breakpoints() {
    assert_eq!(column_count_for_width(80), 2);
    assert_eq!(column_count_for_width(105), 2);
    assert_eq!(column_count_for_width(106), 3);
    assert_eq!(column_count_for_width(139), 3);
    assert_eq!(column_count_for_width(140), 4);
    assert_eq!(column_count_for_width(174), 4);
    assert_eq!(column_count_for_width(175), 5);
    assert_eq!(column_count_for_width(210), 5);
    assert_eq!(column_count_for_width(211), 6);
}

#[test]
fn author_leaderboard_layout() {
    let mut s = DetectionSummary::new();
    s.record_event();
    for (title, author) in [
        ("r1", "alice"),
        ("r2", "alice"),
        ("r3", "alice"),
        ("r4", "alice"),
        ("r5", "alice, bob"),
        ("r6", "bob"),
        ("r7", "bob"),
        ("r8", "bob"),
        ("r9", "bob"),
        ("r1", "carol"),
        ("r2", "carol"),
        ("r3", "carol"),
    ] {
        s.record_hit(TS, SeverityLevel::Low, &title.to_string(), &author.to_string());
    }
    let counts = author_counts(&s);
    let sorted = sort_entries(&counts);
    assert_eq!(sorted[0].0, "alice");
    assert_eq!(sorted[0].1, 5);
    assert_eq!(sorted[1].0, "bob");
    assert_eq!(sorted[1].1, 5);
    assert_eq!(sorted[2].0, "carol");
    assert_eq!(sorted[2].1, 3);
    // two columns: ceil(3/2) = 2 rows, filled top-to-bottom then across
    let table = render_author_table(&s, column_count_for_width(80));
    assert_eq!(table.len(), 2);
    assert_eq!(table[0], vec!["alice (5)".to_string(), "bob (5)".to_string()]);
    assert_eq!(table[1], vec!["carol (3)".to_string()]);
}

#[test]
fn long_author_names_are_truncated() {
    let cells = vec!["abcdefghijklmnopqrstuvwxyz12 (1)".to_string()];
    // 28-character name was truncated by author_cells; verify through the
    // leaderboard end to end
    let mut s = DetectionSummary::new();
    s.record_event();
    s.record_hit(
        TS,
        SeverityLevel::Low,
        &"r".to_string(),
        &"abcdefghijklmnopqrstuvwxyz12".to_string(),
    );
    let table = render_author_table(&s, 2);
    assert_eq!(table.len(), 1);
    assert_eq!(table[0], vec!["abcdefghijklmnopqrstuvwx... (1)".to_string()]);
    assert_ne!(table[0], cells);
}

#[test]
fn empty_layout_is_empty() {
    let table = layout_author_columns(&vec![], 3);
    assert!(table.is_empty());
}

#[test]
fn header_reports_reduction() {
    let mut s = DetectionSummary::new();
    for _ in 0..4 {
        s.record_event();
    }
    s.record_hit(TS, SeverityLevel::High, &"r".to_string(), &"a".to_string());
    let segs = render_header(&s, false);
    let text: String = segs.iter().map(|p| p.0.as_str()).collect::<Vec<_>>().join("");
    assert_eq!(
        text,
        "Results Summary:\nEvents with hits / Total events: 1 / 4 (Data reduction: 3 events (75.00%))\n"
    );
    assert_eq!(segs[4].1, ColorCode::Yellow);
    let plain = render_header(&s, true);
    assert_eq!(plain[4].1, ColorCode::Neutral);
}

#[test]
fn header_guards_zero_events() {
    let s = DetectionSummary::new();
    let segs = render_header(&s, true);
    let text: String = segs.iter().map(|p| p.0.as_str()).collect::<Vec<_>>().join("");
    assert!(text.contains("(0.00%)"));
}

#[test]
fn level_lines_report_totals_and_uniques() {
    let mut s = DetectionSummary::new();
    s.record_event();
    s.record_hit(TS, SeverityLevel::High, &"r1".to_string(), &"a".to_string());
    s.record_hit(TS, SeverityLevel::High, &"r1".to_string(), &"a".to_string());
    s.record_hit(TS, SeverityLevel::High, &"r2".to_string(), &"a".to_string());
    let lines = render_level_lines(&s, true);
    assert_eq!(lines.len(), 5);
    assert_eq!(lines[0].0, "Total | Unique critical detections: 0 (0%) | 0 (0%)\n");
    assert_eq!(lines[1].0, "Total | Unique high detections: 3 (300%) | 2 (200%)\n");
}

#[test]
fn level_lines_guard_zero_hits() {
    let s = DetectionSummary::new();
    let lines = render_level_lines(&s, false);
    for l in &lines {
        assert!(l.0.contains("0 (0%) | 0 (0%)"));
    }
}

#[test]
fn dates_line_handles_data_and_absence() {
    let mut s = DetectionSummary::new();
    s.record_event();
    s.record_hit(TS, SeverityLevel::High, &"r".to_string(), &"a".to_string());
    s.record_hit(TS + 86400, SeverityLevel::High, &"r".to_string(), &"a".to_string());
    s.record_hit(TS + 86400, SeverityLevel::High, &"r2".to_string(), &"a".to_string());
    let segs = render_dates(&s, true);
    let text: String = segs.iter().map(|p| p.0.as_str()).collect::<Vec<_>>().join("");
    assert!(text.contains("high: 2024-01-03 (2)"));
    assert!(text.contains("critical: n/a"));
}

#[test]
fn event_time_lines() {
    let mut s = DetectionSummary::new();
    s.record_event();
    s.record_hit(TS, SeverityLevel::High, &"r".to_string(), &"a".to_string());
    let segs = suzaku::report::render_event_times(&s);
    let text: String = segs.iter().map(|p| p.0.as_str()).collect::<Vec<_>>().join("");
    assert_eq!(
        text,
        "First event time: 2024-01-02 03:04:05 UTC\nLast event time: 2024-01-02 03:04:05 UTC\n"
    );
    let empty = suzaku::report::render_event_times(&DetectionSummary::new());
    assert!(empty.is_empty());
}

#[test]
fn top_alerts_rank_and_pad() {
    let mut s = DetectionSummary::new();
    s.record_event();
    for _ in 0..3 {
        s.record_hit(TS, SeverityLevel::High, &"r-big".to_string(), &"a".to_string());
    }
    s.record_hit(TS, SeverityLevel::High, &"r-small".to_string(), &"a".to_string());
    let blocks = render_top_alerts(&s, true);
    assert_eq!(blocks.len(), 5);
    assert_eq!(blocks[1].0, "Top high alerts:");
    assert_eq!(
        blocks[1].2,
        vec![
            "r-big (3)".to_string(),
            "r-small (1)".to_string(),
            "n/a".to_string(),
            "n/a".to_string(),
            "n/a".to_string(),
        ]
    );
    assert_eq!(blocks[0].2, vec!["n/a"; 5]);
}

#[test]
fn total_hits_sums_counts() {
    let v = vec![("a".to_string(), 2u64), ("b".to_string(), 5u64)];
    assert_eq!(total_hits(&v), 7);
    assert_eq!(total_hits(&vec![]), 0);
}

#[test]
fn timeline_warns_below_five_timestamps() {
    let few = vec![TS, TS + 1, TS + 2, TS + 3];
    match render_timeline(&few, 100, 3) {
        TimelineRender::Warning(m) => {
            assert!(m.contains("could not be displayed"));
        },
        TimelineRender::Chart { .. } => panic!("expected a warning"),
    }
    match render_timeline(&vec![], 100, 3) {
        TimelineRender::Warning(_) => {},
        TimelineRender::Chart { .. } => panic!("expected a warning"),
    }
}

#[test]
fn timeline_charts_from_five_timestamps() {
    let ts = vec![TS, TS + 60, TS + 120, TS + 180, TS + 240, TS + 300];
    match render_timeline(&ts, 100, 3) {
        TimelineRender::Chart { title_indent, header, spark, footer } => {
            assert_eq!(title_indent, (100 - 28) / 2);
            assert!(!spark.is_empty());
            assert!(header.contains("2024-01-02"));
            assert!(footer.contains("2024-01-02"));
            // five sparkline rows at the chart width
            assert_eq!(spark.lines().count(), 5);
            assert_eq!(spark.lines().next().unwrap().chars().count(), 100 - 6);
        },
        TimelineRender::Warning(_) => panic!("expected a chart"),
    }
}

#[test]
fn summary_is_the_sections_in_order() {
    let mut s = DetectionSummary::new();
    s.record_event();
    s.record_hit(TS, SeverityLevel::High, &"r".to_string(), &"a".to_string());
    let whole = suzaku::report::render_summary(&s, true);
    let mut parts = render_header(&s, true);
    parts.extend(render_level_lines(&s, true));
    parts.extend(suzaku::report::render_event_times(&s));
    parts.extend(render_dates(&s, true));
    assert_eq!(whole.len(), parts.len());
    for (a, b) in whole.iter().zip(parts.iter()) {
        assert_eq!(a.0, b.0);
        assert_eq!(a.1, b.1);
    }
}

#[test]
fn timeline_charts_at_the_minimum_width() {
    // the narrowest allowed chart: 50 columns beside the margins
    let ts: Vec<i64> = (0..5).map(|i| TS + i * 60).collect();
    match render_timeline(&ts, 56, 3) {
        TimelineRender::Chart { header, spark, footer, .. } => {
            assert_eq!(spark.lines().next().unwrap().chars().count(), 50);
            assert!(header.contains("2024-01-02"));
            assert!(footer.contains("2024-01-02"));
        },
        TimelineRender::Warning(_) => panic!("expected a chart"),
    }
}

#[test]
fn timeline_charts_with_the_widest_marker_split() {
    // eight timestamps give six markers, the layout that pushes the last
    // footer timestamp furthest right
    let ts: Vec<i64> = (0..8).map(|i| TS + i * 3600).collect();
    match render_timeline(&ts, 56, 3) {
        TimelineRender::Chart { header, footer, .. } => {
            assert!(!header.is_empty());
            assert!(!footer.is_empty());
        },
        TimelineRender::Warning(_) => panic!("expected a chart"),
    }
}

#[test]
fn timeline_charts_with_the_full_marker_count() {
    // more than twenty timestamps cap the marker count at eighteen
    let ts: Vec<i64> = (0..30).map(|i| TS + i * 60).collect();
    match render_timeline(&ts, 56, 3) {
        TimelineRender::Chart { header, footer, .. } => {
            assert!(header.contains("2024-01-02"));
            assert!(footer.contains("2024-01-02"));
        },
        TimelineRender::Warning(_) => panic!("expected a chart"),
    }
}

#[test]
fn timeline_charts_at_the_calendar_extremes() {
    let ts: Vec<i64> = vec![
        suzaku::timefmt::MIN_EVENT_TS,
        suzaku::timefmt::MIN_EVENT_TS + 1,
        0,
        suzaku::timefmt::MAX_EVENT_TS - 1,
        suzaku::timefmt::MAX_EVENT_TS,
    ];
    match render_timeline(&ts, 100, 3) {
        TimelineRender::Chart { header, footer, .. } => {
            assert!(!header.is_empty());
            assert!(!footer.is_empty());
        },
        TimelineRender::Warning(_) => panic!("expected a chart"),
    }
}
