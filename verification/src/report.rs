//! The post-scan summary report: header counts, per-severity breakdown,
//! busiest dates, top-5 rule leaderboards, the author leaderboard and its
//! width-adaptive column layout. Everything is a pure function of the
//! finished aggregate; every ordering is deterministic, with ties broken by
//! lexicographically smallest name.

use vstd::prelude::*;
use crate::chars::{lemma_lex_asym, lemma_lex_trans, lex_lt};
use crate::fmtnum::{dec_rep, group3, pct2, pct_int};
use crate::severity::{ColorCode, SeverityLevel, level_color_spec, level_name_spec};
use crate::summary::{
    DetectionSummary, SummaryView, counts_positive, entries_of, lemma_len_le_sum, sum_counts,
    wf_summary,
};
use crate::timefmt::utc_display_of;

verus! {

/// Rendering order of leaderboard entries: higher count first, ties by
/// lexicographically smaller name.
pub open spec fn rank_before(a: (Seq<char>, u64), b: (Seq<char>, u64)) -> bool {
    a.1 > b.1 || (a.1 == b.1 && lex_lt(a.0, b.0))
}

/// No later entry ranks strictly before an earlier one.
pub open spec fn ranked(s: Seq<(Seq<char>, u64)>) -> bool {
    forall|i: int, j: int| 0 <= i < j < s.len() ==> !rank_before(s[j], s[i])
}

proof fn lemma_rank_asym(a: (Seq<char>, u64), b: (Seq<char>, u64))
    requires
        rank_before(a, b),
    ensures
        !rank_before(b, a),
{
    if a.1 == b.1 {
        lemma_lex_asym(a.0, b.0);
    }
}

proof fn lemma_rank_trans(a: (Seq<char>, u64), b: (Seq<char>, u64), c: (Seq<char>, u64))
    requires
        rank_before(a, b),
        rank_before(b, c),
    ensures
        rank_before(a, c),
{
    if a.1 == b.1 && b.1 == c.1 {
        lemma_lex_trans(a.0, b.0, c.0);
    }
}

fn rank_before_x(a: &(String, u64), b: &(String, u64)) -> (r: bool)
    ensures
        r == rank_before((a.0@, a.1), (b.0@, b.1)),
{
    if a.1 > b.1 {
        true
    } else if a.1 == b.1 {
        let ac = crate::chars::str_chars(a.0.as_str());
        let bc = crate::chars::str_chars(b.0.as_str());
        crate::chars::chars_lt(ac.as_slice(), bc.as_slice())
    } else {
        false
    }
}

fn find_insert_pos(r: &Vec<(String, u64)>, x: &(String, u64)) -> (p: usize)
    ensures
        p <= r.deep_view().len(),
        forall|m: int| 0 <= m < p ==> !rank_before((x.0@, x.1), #[trigger] r.deep_view()[m]),
        p < r.deep_view().len() ==> rank_before((x.0@, x.1), r.deep_view()[p as int]),
{
    let ghost rdv = r.deep_view();
    let n = r.len();
    proof {
        assert(rdv.len() == r@.len());
    }
    let mut p: usize = 0;
    while p < n
        invariant
            p <= n,
            n == r@.len(),
            rdv == r.deep_view(),
            rdv.len() == n,
            forall|m: int| 0 <= m < p ==> !rank_before((x.0@, x.1), #[trigger] rdv[m]),
        decreases n - p,
    {
        proof {
            assert(rdv[p as int] == (r@[p as int].0@, r@[p as int].1));
        }
        if rank_before_x(x, &r[p]) {
            return p;
        }
        p = p + 1;
    }
    p
}

/// Sorts leaderboard entries: count descending, names ascending on ties.
/// The result is a permutation of the input in that order.
pub fn sort_entries(v: &Vec<(String, u64)>) -> (r: Vec<(String, u64)>)
    ensures
        r.deep_view().to_multiset() == v.deep_view().to_multiset(),
        ranked(r.deep_view()),
        r.deep_view().len() == v.deep_view().len(),
{
    broadcast use vstd::seq_lib::group_to_multiset_ensures;

    let ghost dv = v.deep_view();
    let mut r: Vec<(String, u64)> = Vec::new();
    proof {
        assert(r.deep_view() =~= Seq::<(Seq<char>, u64)>::empty());
        assert(dv.take(0) =~= Seq::<(Seq<char>, u64)>::empty());
        assert(r.deep_view().to_multiset() =~= dv.take(0).to_multiset());
    }
    let mut i: usize = 0;
    while i < v.len()
        invariant
            i <= v@.len(),
            dv == v.deep_view(),
            dv.len() == v@.len(),
            r.deep_view().to_multiset() == dv.take(i as int).to_multiset(),
            r.deep_view().len() == i,
            ranked(r.deep_view()),
        decreases v@.len() - i,
    {
        broadcast use vstd::seq_lib::group_to_multiset_ensures;

        let ghost rdv = r.deep_view();
        proof {
            assert(dv[i as int] == (v@[i as int].0@, v@[i as int].1));
        }
        let x = (v[i].0.clone(), v[i].1);
        let ghost xv = (x.0@, x.1);
        proof {
            assert(xv == dv[i as int]);
        }
        let p = find_insert_pos(&r, &x);
        let ghost inserted = rdv.insert(p as int, xv);
        r.insert(p, x);
        proof {
            assert(r.deep_view() =~= inserted);
            // the new element is a known occupant, so removal gives the
            // multiset relation
            assert(inserted.remove(p as int) =~= rdv);
            assert(inserted[p as int] == xv);
            assert(inserted.to_multiset().remove(xv) =~= rdv.to_multiset());
            assert(inserted.to_multiset().contains(xv)) by {
                assert(inserted.contains(xv));
            }
            assert(inserted.to_multiset() =~= rdv.to_multiset().insert(xv));
            assert(dv.take(i + 1).drop_last() =~= dv.take(i as int));
            assert(dv.take(i + 1) =~= dv.take(i as int).push(dv[i as int]));
            assert(dv.take(i + 1).to_multiset() =~= dv.take(i as int).to_multiset().insert(
                dv[i as int],
            ));
            // order: entries before p do not rank after x, entries from p on
            // do not rank before x
            assert forall|a: int, b: int| 0 <= a < b < inserted.len() implies !rank_before(
                inserted[b],
                inserted[a],
            ) by {
                if b < p {
                    assert(inserted[a] == rdv[a] && inserted[b] == rdv[b]);
                } else if a > p {
                    assert(inserted[a] == rdv[a - 1] && inserted[b] == rdv[b - 1]);
                } else if a == p && b > p {
                    assert(inserted[b] == rdv[b - 1]);
                    if p < rdv.len() {
                        assert(rank_before(xv, rdv[p as int]));
                        if rank_before(inserted[b], xv) {
                            if b - 1 == p {
                                lemma_rank_asym(xv, rdv[p as int]);
                            } else {
                                lemma_rank_trans(rdv[b - 1], xv, rdv[p as int]);
                                assert(!rank_before(rdv[b - 1], rdv[p as int]));
                            }
                        }
                    } else {
                        assert(b - 1 < rdv.len());
                        assert(false);
                    }
                } else if b == p {
                    assert(inserted[a] == rdv[a]);
                    assert(!rank_before(xv, rdv[a]));
                    if rank_before(inserted[b], inserted[a]) {
                        lemma_rank_asym(xv, rdv[a]);
                    }
                } else if a < p && b > p {
                    assert(inserted[a] == rdv[a] && inserted[b] == rdv[b - 1]);
                }
            }
        }
        i = i + 1;
    }
    proof {
        assert(dv.take(dv.len() as int) =~= dv);
    }
    r
}

/// The width breakpoints that pick the author table's column count.
pub open spec fn columns_for_width(w: int) -> int {
    if w <= 105 {
        2
    } else if w < 140 {
        3
    } else if w < 175 {
        4
    } else if w <= 210 {
        5
    } else {
        6
    }
}

/// Number of author-table columns for a terminal width.
pub fn column_count_for_width(w: usize) -> (r: usize)
    ensures
        r == columns_for_width(w as int),
{
    if w <= 105 {
        2
    } else if w < 140 {
        3
    } else if w < 175 {
        4
    } else if w <= 210 {
        5
    } else {
        6
    }
}

/// The better of two dated counts: strictly more hits wins, ties go to the
/// lexicographically smaller date.
pub open spec fn better_date(a: (Seq<char>, u64), b: (Seq<char>, u64)) -> (Seq<char>, u64) {
    if b.1 > a.1 || (b.1 == a.1 && lex_lt(b.0, a.0)) {
        b
    } else {
        a
    }
}

/// The date with the most hits, deterministically.
pub open spec fn best_date(entries: Seq<(Seq<char>, u64)>) -> (Seq<char>, u64)
    recommends
        entries.len() > 0,
    decreases entries.len(),
{
    if entries.len() <= 1 {
        entries[0]
    } else {
        better_date(best_date(entries.drop_last()), entries.last())
    }
}

/// Picks the date with the most hits; ties go to the smallest date.
pub fn max_date(entries: &Vec<(String, u64)>) -> (r: (String, u64))
    requires
        entries.deep_view().len() > 0,
    ensures
        (r.0@, r.1) == best_date(entries.deep_view()),
{
    let ghost dv = entries.deep_view();
    proof {
        assert(dv[0] == (entries@[0].0@, entries@[0].1));
        assert(dv.take(1)[0] == dv[0]);
    }
    let mut best = (entries[0].0.clone(), entries[0].1);
    let mut i: usize = 1;
    while i < entries.len()
        invariant
            1 <= i <= entries@.len(),
            dv == entries.deep_view(),
            dv.len() == entries@.len(),
            dv.len() > 0,
            (best.0@, best.1) == best_date(dv.take(i as int)),
        decreases entries@.len() - i,
    {
        proof {
            assert(dv[i as int] == (entries@[i as int].0@, entries@[i as int].1));
            assert(dv.take(i + 1).drop_last() =~= dv.take(i as int));
            assert(dv.take(i + 1).last() == dv[i as int]);
        }
        let cand_count = entries[i].1;
        let take_new: bool = if cand_count > best.1 {
            true
        } else if cand_count == best.1 {
            let cc = crate::chars::str_chars(entries[i].0.as_str());
            let bc = crate::chars::str_chars(best.0.as_str());
            crate::chars::chars_lt(cc.as_slice(), bc.as_slice())
        } else {
            false
        };
        if take_new {
            best = (entries[i].0.clone(), entries[i].1);
        }
        i = i + 1;
    }
    proof {
        assert(dv.take(dv.len() as int) =~= dv);
    }
    best
}

/// Sums one severity's hit counts.
pub fn total_hits(entries: &Vec<(String, u64)>) -> (r: u128)
    ensures
        r == sum_counts(entries.deep_view()),
{
    let ghost dv = entries.deep_view();
    let mut sum: u128 = 0;
    let ghost bound = 0xffff_ffff_ffff_ffffint;
    let mut i: usize = 0;
    while i < entries.len()
        invariant
            i <= entries@.len(),
            dv == entries.deep_view(),
            dv.len() == entries@.len(),
            sum == sum_counts(dv.take(i as int)),
            sum <= i * bound,
            bound == 0xffff_ffff_ffff_ffffint,
        decreases entries@.len() - i,
    {
        proof {
            assert(dv[i as int] == (entries@[i as int].0@, entries@[i as int].1));
            assert(dv.take(i + 1).drop_last() =~= dv.take(i as int));
            assert(dv.take(i + 1).last() == dv[i as int]);
            assert(sum + entries@[i as int].1 <= i * bound + bound);
            assert((i + 1) * bound == i * bound + bound) by (nonlinear_arith);
            assert((i + 1) * bound <= u128::MAX) by (nonlinear_arith)
                requires
                    0 <= i + 1 <= 0xffff_ffff_ffff_ffffu64 + 1,
                    bound == 0xffff_ffff_ffff_ffffint,
            ;
        }
        sum = sum + (entries[i].1 as u128);
        i = i + 1;
    }
    proof {
        assert(dv.take(dv.len() as int) =~= dv);
    }
    sum
}

/// `Neutral` once colors are off.
pub open spec fn tinted(c: ColorCode, no_color: bool) -> ColorCode {
    if no_color {
        ColorCode::Neutral
    } else {
        c
    }
}

/// The data-reduction phrase of the header.
pub open spec fn reduction_text(s: SummaryView) -> Seq<char> {
    let diff = s.total_events - s.event_with_hits;
    "Data reduction: "@ + group3(dec_rep(diff as nat)) + " events ("@ + pct2(
        diff,
        s.total_events as int,
    ) + "%)"@
}

/// The colored segments of the report header.
pub open spec fn header_segments(s: SummaryView, no_color: bool) -> Seq<(Seq<char>, ColorCode)> {
    seq![
        ("Results Summary:\n"@, tinted(ColorCode::Green, no_color)),
        ("Events with hits"@, tinted(ColorCode::Green, no_color)),
        (" / "@, ColorCode::Neutral),
        ("Total events: "@, tinted(ColorCode::Green, no_color)),
        (group3(dec_rep(s.event_with_hits as nat)), tinted(ColorCode::Yellow, no_color)),
        (" / "@, ColorCode::Neutral),
        (group3(dec_rep(s.total_events as nat)), tinted(ColorCode::Cyan, no_color)),
        (" ("@, ColorCode::Neutral),
        (reduction_text(s), tinted(ColorCode::Green, no_color)),
        (")\n"@, ColorCode::Neutral),
    ]
}

/// Renders the header: events with hits / total events, and the data
/// reduction both as a count and a percentage, zero-guarded.
pub fn render_header(sum: &DetectionSummary, no_color: bool) -> (r: Vec<(String, ColorCode)>)
    requires
        wf_summary(sum@),
    ensures
        r.deep_view() == header_segments(sum@, no_color),
{
    let green = if no_color {
        ColorCode::Neutral
    } else {
        ColorCode::Green
    };
    let mut r: Vec<(String, ColorCode)> = Vec::new();
    r.push((<String as vstd::string::StringExecFns>::from_str("Results Summary:\n"), green));
    r.push((<String as vstd::string::StringExecFns>::from_str("Events with hits"), green));
    r.push((<String as vstd::string::StringExecFns>::from_str(" / "), ColorCode::Neutral));
    r.push((<String as vstd::string::StringExecFns>::from_str("Total events: "), green));
    r.push(
        (
            crate::fmtnum::format_count(sum.event_with_hits),
            if no_color {
                ColorCode::Neutral
            } else {
                ColorCode::Yellow
            },
        ),
    );
    r.push((<String as vstd::string::StringExecFns>::from_str(" / "), ColorCode::Neutral));
    r.push(
        (
            crate::fmtnum::format_count(sum.total_events),
            if no_color {
                ColorCode::Neutral
            } else {
                ColorCode::Cyan
            },
        ),
    );
    r.push((<String as vstd::string::StringExecFns>::from_str(" ("), ColorCode::Neutral));
    let diff = sum.total_events - sum.event_with_hits;
    let mut red: Vec<char> = Vec::new();
    crate::chars::append_str(&mut red, "Data reduction: ");
    let dc = crate::fmtnum::format_count(diff);
    crate::chars::append_str(&mut red, dc.as_str());
    crate::chars::append_str(&mut red, " events (");
    let pc = crate::fmtnum::format_pct2(diff, sum.total_events);
    crate::chars::append_str(&mut red, pc.as_str());
    crate::chars::append_str(&mut red, "%)");
    r.push((crate::chars::string_from_chars(red.as_slice()), green));
    r.push((<String as vstd::string::StringExecFns>::from_str(")\n"), ColorCode::Neutral));
    proof {
        assert(red@ == reduction_text(sum@));
        assert(r.deep_view() =~= header_segments(sum@, no_color));
    }
    r
}

/// The breakdown line of one severity: total and unique detections, each
/// with an integer percentage of the events with hits, zero-guarded.
pub open spec fn level_line_text(
    level: SeverityLevel,
    entries: Seq<(Seq<char>, u64)>,
    ewh: int,
) -> Seq<char> {
    if entries.len() == 0 {
        "Total | Unique "@ + level_name_spec(level) + " detections: "@ + "0 (0%) | 0 (0%)"@
    } else {
        let t = sum_counts(entries);
        let u = entries.len() as int;
        "Total | Unique "@ + level_name_spec(level) + " detections: "@ + group3(dec_rep(t as nat))
            + " ("@ + dec_rep(pct_int(t, ewh) as nat) + "%) | "@ + dec_rep(u as nat) + " ("@
            + dec_rep(pct_int(u, ewh) as nat) + "%)"@
    }
}

fn level_line(level: SeverityLevel, entries: &Vec<(String, u64)>, ewh: u64) -> (r: String)
    requires
        counts_positive(entries.deep_view()),
        sum_counts(entries.deep_view()) <= u64::MAX,
    ensures
        r@ == level_line_text(level, entries.deep_view(), ewh as int).push('\n'),
{
    let mut out: Vec<char> = Vec::new();
    crate::chars::append_str(&mut out, "Total | Unique ");
    crate::chars::append_str(&mut out, level.name());
    crate::chars::append_str(&mut out, " detections: ");
    if entries.len() == 0 {
        crate::chars::append_str(&mut out, "0 (0%) | 0 (0%)");
        proof {
            assert(entries.deep_view().len() == 0);
        }
    } else {
        proof {
            lemma_len_le_sum(entries.deep_view());
        }
        let t = crate::report::total_hits(entries);
        let tu = t as u64;
        let s1 = crate::fmtnum::format_count(tu);
        crate::chars::append_str(&mut out, s1.as_str());
        crate::chars::append_str(&mut out, " (");
        let s2 = crate::fmtnum::format_pct_int(tu, ewh);
        crate::chars::append_str(&mut out, s2.as_str());
        crate::chars::append_str(&mut out, "%) | ");
        let u = entries.len() as u64;
        let s3 = crate::fmtnum::format_plain(u);
        crate::chars::append_str(&mut out, s3.as_str());
        crate::chars::append_str(&mut out, " (");
        let s4 = crate::fmtnum::format_pct_int(u, ewh);
        crate::chars::append_str(&mut out, s4.as_str());
        crate::chars::append_str(&mut out, "%)");
    }
    out.push('\n');
    proof {
        assert(out@ =~= level_line_text(level, entries.deep_view(), ewh as int).push('\n'));
    }
    crate::chars::string_from_chars(out.as_slice())
}

/// The five severity breakdown lines, in order.
pub open spec fn level_line_segments(s: SummaryView, no_color: bool) -> Seq<
    (Seq<char>, ColorCode),
> {
    seq![
        (
            level_line_text(
                SeverityLevel::Critical,
                s.level_hits.critical,
                s.event_with_hits as int,
            ).push('\n'),
            tinted(ColorCode::Red, no_color),
        ),
        (
            level_line_text(SeverityLevel::High, s.level_hits.high, s.event_with_hits as int).push(
                '\n',
            ),
            tinted(ColorCode::Orange, no_color),
        ),
        (
            level_line_text(
                SeverityLevel::Medium,
                s.level_hits.medium,
                s.event_with_hits as int,
            ).push('\n'),
            tinted(ColorCode::Yellow, no_color),
        ),
        (
            level_line_text(SeverityLevel::Low, s.level_hits.low, s.event_with_hits as int).push(
                '\n',
            ),
            tinted(ColorCode::Green, no_color),
        ),
        (
            level_line_text(
                SeverityLevel::Informational,
                s.level_hits.informational,
                s.event_with_hits as int,
            ).push('\n'),
            ColorCode::Neutral,
        ),
    ]
}

/// Renders the per-severity breakdown.
pub fn render_level_lines(sum: &DetectionSummary, no_color: bool) -> (r: Vec<(String, ColorCode)>)
    requires
        wf_summary(sum@),
    ensures
        r.deep_view() == level_line_segments(sum@, no_color),
{
    let mut r: Vec<(String, ColorCode)> = Vec::new();
    r.push(
        (
            level_line(SeverityLevel::Critical, &sum.level_hits.critical, sum.event_with_hits),
            if no_color {
                ColorCode::Neutral
            } else {
                ColorCode::Red
            },
        ),
    );
    r.push(
        (
            level_line(SeverityLevel::High, &sum.level_hits.high, sum.event_with_hits),
            if no_color {
                ColorCode::Neutral
            } else {
                ColorCode::Orange
            },
        ),
    );
    r.push(
        (
            level_line(SeverityLevel::Medium, &sum.level_hits.medium, sum.event_with_hits),
            if no_color {
                ColorCode::Neutral
            } else {
                ColorCode::Yellow
            },
        ),
    );
    r.push(
        (
            level_line(SeverityLevel::Low, &sum.level_hits.low, sum.event_with_hits),
            if no_color {
                ColorCode::Neutral
            } else {
                ColorCode::Green
            },
        ),
    );
    r.push(
        (
            level_line(
                SeverityLevel::Informational,
                &sum.level_hits.informational,
                sum.event_with_hits,
            ),
            ColorCode::Neutral,
        ),
    );
    proof {
        assert(r.deep_view() =~= level_line_segments(sum@, no_color));
    }
    r
}

/// The first/last event time lines, present when the scan saw any hit.
pub open spec fn event_time_segments(s: SummaryView) -> Seq<(Seq<char>, ColorCode)> {
    (match s.first_event_time {
        Some(f) => seq![
            ("First event time: "@, ColorCode::Neutral),
            (utc_display_of(f as int).push('\n'), ColorCode::Neutral),
        ],
        None => Seq::<(Seq<char>, ColorCode)>::empty(),
    }) + (match s.last_event_time {
        Some(l) => seq![
            ("Last event time: "@, ColorCode::Neutral),
            (utc_display_of(l as int).push('\n'), ColorCode::Neutral),
        ],
        None => Seq::<(Seq<char>, ColorCode)>::empty(),
    })
}

/// Renders the first and last event times seen.
pub fn render_event_times(sum: &DetectionSummary) -> (r: Vec<(String, ColorCode)>)
    requires
        wf_summary(sum@),
    ensures
        r.deep_view() == event_time_segments(sum@),
{
    let mut r: Vec<(String, ColorCode)> = Vec::new();
    match sum.first_event_time {
        Some(f) => {
            r.push(
                (
                    <String as vstd::string::StringExecFns>::from_str("First event time: "),
                    ColorCode::Neutral,
                ),
            );
            let mut t = crate::timefmt::format_utc(f);
            crate::chars::push_char(&mut t, '\n');
            r.push((t, ColorCode::Neutral));
        },
        None => {},
    }
    match sum.last_event_time {
        Some(l) => {
            r.push(
                (
                    <String as vstd::string::StringExecFns>::from_str("Last event time: "),
                    ColorCode::Neutral,
                ),
            );
            let mut t = crate::timefmt::format_utc(l);
            crate::chars::push_char(&mut t, '\n');
            r.push((t, ColorCode::Neutral));
        },
        None => {},
    }
    proof {
        assert(r.deep_view() =~= event_time_segments(sum@));
    }
    r
}

/// One severity's entry on the busiest-dates line.
pub open spec fn date_cell(level: SeverityLevel, entries: Seq<(Seq<char>, u64)>) -> Seq<char> {
    if entries.len() == 0 {
        level_name_spec(level) + ": n/a"@
    } else {
        let b = best_date(entries);
        level_name_spec(level) + ": "@ + b.0 + " ("@ + group3(dec_rep(b.1 as nat)) + ")"@
    }
}

fn date_cell_x(level: SeverityLevel, entries: &Vec<(String, u64)>) -> (r: String)
    ensures
        r@ == date_cell(level, entries.deep_view()),
{
    let mut out: Vec<char> = Vec::new();
    crate::chars::append_str(&mut out, level.name());
    if entries.len() == 0 {
        crate::chars::append_str(&mut out, ": n/a");
        proof {
            assert(entries.deep_view().len() == 0);
        }
    } else {
        proof {
            assert(entries.deep_view().len() == entries@.len());
        }
        let best = max_date(entries);
        crate::chars::append_str(&mut out, ": ");
        crate::chars::append_str(&mut out, best.0.as_str());
        crate::chars::append_str(&mut out, " (");
        let c = crate::fmtnum::format_count(best.1);
        crate::chars::append_str(&mut out, c.as_str());
        crate::chars::append_str(&mut out, ")");
    }
    proof {
        assert(out@ =~= date_cell(level, entries.deep_view()));
    }
    crate::chars::string_from_chars(out.as_slice())
}

/// The busiest-date line: per severity the date with the most hits, ties
/// broken by the lexicographically smallest date, `n/a` without data.
pub open spec fn date_segments(s: SummaryView, no_color: bool) -> Seq<(Seq<char>, ColorCode)> {
    seq![
        ("Dates with most total detections:\n"@, ColorCode::Neutral),
        (date_cell(SeverityLevel::Critical, s.date_hits.critical), tinted(ColorCode::Red, no_color)),
        (", "@, ColorCode::Neutral),
        (date_cell(SeverityLevel::High, s.date_hits.high), tinted(ColorCode::Orange, no_color)),
        (", "@, ColorCode::Neutral),
        (date_cell(SeverityLevel::Medium, s.date_hits.medium), tinted(ColorCode::Yellow, no_color)),
        (", "@, ColorCode::Neutral),
        (date_cell(SeverityLevel::Low, s.date_hits.low), tinted(ColorCode::Green, no_color)),
        (", "@, ColorCode::Neutral),
        (
            date_cell(SeverityLevel::Informational, s.date_hits.informational),
            ColorCode::Neutral,
        ),
        ("\n"@, ColorCode::Neutral),
    ]
}

/// Renders the busiest-dates line.
pub fn render_dates(sum: &DetectionSummary, no_color: bool) -> (r: Vec<(String, ColorCode)>)
    ensures
        r.deep_view() == date_segments(sum@, no_color),
{
    let sep = ", ";
    let mut r: Vec<(String, ColorCode)> = Vec::new();
    r.push(
        (
            <String as vstd::string::StringExecFns>::from_str(
                "Dates with most total detections:\n",
            ),
            ColorCode::Neutral,
        ),
    );
    r.push(
        (
            date_cell_x(SeverityLevel::Critical, &sum.date_hits.critical),
            if no_color {
                ColorCode::Neutral
            } else {
                ColorCode::Red
            },
        ),
    );
    r.push((<String as vstd::string::StringExecFns>::from_str(sep), ColorCode::Neutral));
    r.push(
        (
            date_cell_x(SeverityLevel::High, &sum.date_hits.high),
            if no_color {
                ColorCode::Neutral
            } else {
                ColorCode::Orange
            },
        ),
    );
    r.push((<String as vstd::string::StringExecFns>::from_str(sep), ColorCode::Neutral));
    r.push(
        (
            date_cell_x(SeverityLevel::Medium, &sum.date_hits.medium),
            if no_color {
                ColorCode::Neutral
            } else {
                ColorCode::Yellow
            },
        ),
    );
    r.push((<String as vstd::string::StringExecFns>::from_str(sep), ColorCode::Neutral));
    r.push(
        (
            date_cell_x(SeverityLevel::Low, &sum.date_hits.low),
            if no_color {
                ColorCode::Neutral
            } else {
                ColorCode::Green
            },
        ),
    );
    r.push((<String as vstd::string::StringExecFns>::from_str(sep), ColorCode::Neutral));
    r.push(
        (
            date_cell_x(SeverityLevel::Informational, &sum.date_hits.informational),
            ColorCode::Neutral,
        ),
    );
    r.push((<String as vstd::string::StringExecFns>::from_str("\n"), ColorCode::Neutral));
    proof {
        assert(r.deep_view() =~= date_segments(sum@, no_color));
    }
    r
}

/// One leaderboard line: `title (count)`.
pub open spec fn alert_msg(e: (Seq<char>, u64)) -> Seq<char> {
    e.0 + " ("@ + group3(dec_rep(e.1 as nat)) + ")"@
}

/// The five leaderboard lines of one severity: the best-ranked entries in
/// order, padded with `n/a` to exactly five.
pub open spec fn top5_msgs(sorted: Seq<(Seq<char>, u64)>) -> Seq<Seq<char>> {
    Seq::new(5, |i: int| if i < sorted.len() { alert_msg(sorted[i]) } else { "n/a"@ })
}

fn top5_for(entries: &Vec<(String, u64)>) -> (r: Vec<String>)
    ensures
        exists|sorted: Seq<(Seq<char>, u64)>|
            #![auto]
            ranked(sorted) && sorted.to_multiset() == entries.deep_view().to_multiset()
                && sorted.len() == entries.deep_view().len() && r.deep_view() == top5_msgs(sorted),
{
    let s = sort_entries(entries);
    let ghost sdv = s.deep_view();
    let mut out: Vec<String> = Vec::new();
    let mut k: usize = 0;
    while k < 5
        invariant
            k <= 5,
            sdv == s.deep_view(),
            sdv.len() == s@.len(),
            out.deep_view().len() == k,
            forall|m: int| 0 <= m < k ==> out.deep_view()[m] == top5_msgs(sdv)[m],
        decreases 5 - k,
    {
        let ghost opre = out.deep_view();
        if k < s.len() {
            proof {
                assert(sdv[k as int] == (s@[k as int].0@, s@[k as int].1));
            }
            let mut mc: Vec<char> = Vec::new();
            crate::chars::append_str(&mut mc, s[k].0.as_str());
            crate::chars::append_str(&mut mc, " (");
            let c = crate::fmtnum::format_count(s[k].1);
            crate::chars::append_str(&mut mc, c.as_str());
            crate::chars::append_str(&mut mc, ")");
            proof {
                assert(mc@ =~= alert_msg(sdv[k as int]));
            }
            out.push(crate::chars::string_from_chars(mc.as_slice()));
            proof {
                assert(out.deep_view() =~= opre.push(alert_msg(sdv[k as int])));
            }
        } else {
            out.push(<String as vstd::string::StringExecFns>::from_str("n/a"));
            proof {
                assert(out.deep_view() =~= opre.push("n/a"@));
            }
        }
        k = k + 1;
    }
    proof {
        assert(out.deep_view() =~= top5_msgs(sdv));
    }
    out
}

/// Renders the top-5 leaderboard of each severity: for each of the five
/// severities in order, the header label, its color, and five lines of
/// `title (count)` in rank order padded with `n/a`.
pub fn render_top_alerts(sum: &DetectionSummary, no_color: bool) -> (r: Vec<
    (String, ColorCode, Vec<String>),
>)
    ensures
        r.deep_view().len() == 5,
        forall|k: int|
            0 <= k < 5 ==> #[trigger] r.deep_view()[k].0 == "Top "@ + level_name_spec(
                level_order()[k],
            ) + " alerts:"@,
        forall|k: int|
            0 <= k < 5 ==> #[trigger] r.deep_view()[k].1 == tinted(
                level_color_spec(level_order()[k]),
                no_color,
            ),
        forall|k: int|
            0 <= k < 5 ==> exists|sorted: Seq<(Seq<char>, u64)>|
                #![auto]
                ranked(sorted) && sorted.to_multiset() == entries_of(
                    sum@.level_hits,
                    level_order()[k],
                ).to_multiset() && sorted.len() == entries_of(
                    sum@.level_hits,
                    level_order()[k],
                ).len() && #[trigger] r.deep_view()[k].2 == top5_msgs(sorted),
{
    let levels = crate::severity::all_levels();
    let mut r: Vec<(String, ColorCode, Vec<String>)> = Vec::new();
    let ghost mut wit: Seq<Seq<(Seq<char>, u64)>> = Seq::empty();
    let mut k: usize = 0;
    while k < 5
        invariant
            k <= 5,
            levels@ =~= level_order(),
            r.deep_view().len() == k,
            wit.len() == k,
            forall|m: int|
                0 <= m < k ==> #[trigger] r.deep_view()[m].0 == "Top "@ + level_name_spec(
                    level_order()[m],
                ) + " alerts:"@,
            forall|m: int|
                0 <= m < k ==> #[trigger] r.deep_view()[m].1 == tinted(
                    level_color_spec(level_order()[m]),
                    no_color,
                ),
            forall|m: int|
                0 <= m < k ==> ranked(#[trigger] wit[m]) && wit[m].to_multiset() == entries_of(
                    sum@.level_hits,
                    level_order()[m],
                ).to_multiset() && wit[m].len() == entries_of(
                    sum@.level_hits,
                    level_order()[m],
                ).len() && r.deep_view()[m].2 == top5_msgs(wit[m]),
        decreases 5 - k,
    {
        let lv = levels[k];
        let mut head: Vec<char> = Vec::new();
        crate::chars::append_str(&mut head, "Top ");
        crate::chars::append_str(&mut head, lv.name());
        crate::chars::append_str(&mut head, " alerts:");
        let color = lv.color(no_color);
        let ent = sum.level_hits.entries(lv);
        let ghost e_dv = ent.deep_view();
        let msgs = top5_for(ent);
        let ghost rpre = r.deep_view();
        r.push((crate::chars::string_from_chars(head.as_slice()), color, msgs));
        proof {
            assert(r.deep_view() =~= rpre.push(
                ("Top "@ + level_name_spec(lv) + " alerts:"@, color, msgs.deep_view()),
            ));
            let w = choose|sorted: Seq<(Seq<char>, u64)>|
                #![auto]
                ranked(sorted) && sorted.to_multiset() == e_dv.to_multiset() && sorted.len()
                    == e_dv.len() && msgs.deep_view() == top5_msgs(sorted);
            assert(lv == level_order()[k as int]);
            assert(e_dv == entries_of(sum@.level_hits, level_order()[k as int]));
            wit = wit.push(w);
            assert(wit[k as int] == w);
            assert(forall|m: int| 0 <= m < k ==> #[trigger] wit[m] == wit.drop_last()[m]);
        }
        k = k + 1;
    }
    proof {
        assert forall|k: int| #![trigger level_order()[k]] 0 <= k < 5 implies exists|sorted: Seq<(Seq<char>, u64)>|
            #![auto]
            ranked(sorted) && sorted.to_multiset() == entries_of(
                sum@.level_hits,
                level_order()[k],
            ).to_multiset() && sorted.len() == entries_of(
                sum@.level_hits,
                level_order()[k],
            ).len() && r.deep_view()[k].2 == top5_msgs(sorted) by {
            let w = wit[k];
            assert(ranked(w) && w.to_multiset() == entries_of(
                sum@.level_hits,
                level_order()[k],
            ).to_multiset() && w.len() == entries_of(sum@.level_hits, level_order()[k]).len()
                && r.deep_view()[k].2 == top5_msgs(w));
        }
    }
    r
}

/// The severities in rendering order.
pub open spec fn level_order() -> Seq<SeverityLevel> {
    seq![
        SeverityLevel::Critical,
        SeverityLevel::High,
        SeverityLevel::Medium,
        SeverityLevel::Low,
        SeverityLevel::Informational,
    ]
}

/// The author leaderboard counts: each author with the number of distinct
/// rule titles credited to them.
pub open spec fn counts_view(at: Seq<(Seq<char>, Seq<Seq<char>>)>) -> Seq<(Seq<char>, u64)> {
    Seq::new(at.len(), |i: int| (at[i].0, at[i].1.len() as u64))
}

/// Counts distinct credited titles per author.
pub fn author_counts(sum: &DetectionSummary) -> (r: Vec<(String, u64)>)
    ensures
        r.deep_view() == counts_view(sum@.author_titles),
{
    let ghost adv = sum@.author_titles;
    let mut r: Vec<(String, u64)> = Vec::new();
    let mut i: usize = 0;
    while i < sum.author_titles.len()
        invariant
            i <= sum.author_titles@.len(),
            adv == sum@.author_titles,
            adv.len() == sum.author_titles@.len(),
            r.deep_view().len() == i,
            forall|m: int| 0 <= m < i ==> r.deep_view()[m] == counts_view(adv)[m],
        decreases sum.author_titles@.len() - i,
    {
        proof {
            assert(adv[i as int] == (
                sum.author_titles@[i as int].0@,
                sum.author_titles@[i as int].1.deep_view(),
            ));
            assert(adv[i as int].1.len() == sum.author_titles@[i as int].1@.len());
        }
        let ghost rpre = r.deep_view();
        let c = sum.author_titles[i].1.len() as u64;
        r.push((sum.author_titles[i].0.clone(), c));
        proof {
            assert(r.deep_view() =~= rpre.push((adv[i as int].0, adv[i as int].1.len() as u64)));
        }
        i = i + 1;
    }
    proof {
        assert(r.deep_view() =~= counts_view(adv));
    }
    r
}

/// One author-table cell: the name — truncated to 24 characters plus an
/// ellipsis when longer than 27 — with the title count.
pub open spec fn author_cell(e: (Seq<char>, u64)) -> Seq<char> {
    (if e.0.len() <= 27 {
        e.0
    } else {
        e.0.take(24) + "..."@
    }) + " ("@ + dec_rep(e.1 as nat) + ")"@
}

pub open spec fn author_cells_of(sorted: Seq<(Seq<char>, u64)>) -> Seq<Seq<char>> {
    Seq::new(sorted.len(), |i: int| author_cell(sorted[i]))
}

/// Builds the display cells of the sorted author leaderboard.
pub fn author_cells(sorted: &Vec<(String, u64)>) -> (r: Vec<String>)
    ensures
        r.deep_view() == author_cells_of(sorted.deep_view()),
{
    let ghost sdv = sorted.deep_view();
    let mut r: Vec<String> = Vec::new();
    let mut i: usize = 0;
    while i < sorted.len()
        invariant
            i <= sorted@.len(),
            sdv == sorted.deep_view(),
            sdv.len() == sorted@.len(),
            r.deep_view().len() == i,
            forall|m: int| 0 <= m < i ==> r.deep_view()[m] == author_cell(sdv[m]),
        decreases sorted@.len() - i,
    {
        proof {
            assert(sdv[i as int] == (sorted@[i as int].0@, sorted@[i as int].1));
        }
        let nc = crate::chars::str_chars(sorted[i].0.as_str());
        let mut cell: Vec<char> = Vec::new();
        if nc.len() <= 27 {
            crate::chars::append_chars(&mut cell, nc.as_slice());
        } else {
            let head = crate::chars::subrange_vec(nc.as_slice(), 0, 24);
            crate::chars::append_chars(&mut cell, head.as_slice());
            crate::chars::append_str(&mut cell, "...");
            proof {
                assert(head@ =~= sdv[i as int].0.take(24));
            }
        }
        crate::chars::append_str(&mut cell, " (");
        let c = crate::fmtnum::format_plain(sorted[i].1);
        crate::chars::append_str(&mut cell, c.as_str());
        crate::chars::append_str(&mut cell, ")");
        proof {
            assert(cell@ =~= author_cell(sdv[i as int]));
        }
        let ghost rpre = r.deep_view();
        r.push(crate::chars::string_from_chars(cell.as_slice()));
        proof {
            assert(r.deep_view() =~= rpre.push(author_cell(sdv[i as int])));
        }
        i = i + 1;
    }
    proof {
        assert(r.deep_view() =~= author_cells_of(sdv));
    }
    r
}

pub open spec fn ceil_div(n: int, d: int) -> int {
    (n + d - 1) / d
}

/// The cells of one table column under top-to-bottom, left-to-right filling.
pub open spec fn column_cells(cells: Seq<Seq<char>>, rows: int, c: int) -> Seq<Seq<char>> {
    cells.subrange(
        c * rows,
        if (c + 1) * rows <= cells.len() {
            (c + 1) * rows
        } else {
            cells.len() as int
        },
    )
}

/// The author-table layout: `ceil(cells / columns)` rows, columns filled
/// top-to-bottom then left-to-right, trailing empty columns dropped.
pub open spec fn author_layout(cells: Seq<Seq<char>>, ncols: int) -> Seq<Seq<Seq<char>>> {
    if cells.len() == 0 {
        Seq::<Seq<Seq<char>>>::empty()
    } else {
        let rows = ceil_div(cells.len() as int, ncols);
        Seq::new(ceil_div(cells.len() as int, rows) as nat, |c: int| column_cells(cells, rows, c))
    }
}

/// Lays the author cells out in columns.
pub fn layout_author_columns(cells: &Vec<String>, ncols: usize) -> (r: Vec<Vec<String>>)
    requires
        1 <= ncols,
        cells.deep_view().len() + ncols <= usize::MAX,
        cells.deep_view().len() * 2 <= usize::MAX,
    ensures
        r.deep_view() == author_layout(cells.deep_view(), ncols as int),
{
    let ghost cdv = cells.deep_view();
    let n = cells.len();
    proof {
        assert(cdv.len() == cells@.len());
    }
    if n == 0 {
        let r: Vec<Vec<String>> = Vec::new();
        proof {
            assert(r.deep_view() =~= author_layout(cdv, ncols as int));
        }
        return r;
    }
    let rows = (n + ncols - 1) / ncols;
    proof {
        vstd::arithmetic::div_mod::lemma_fundamental_div_mod((n + ncols - 1) as int, ncols as int);
        assert(rows >= 1) by {
            assert((n + ncols - 1) >= ncols);
            vstd::arithmetic::div_mod::lemma_div_is_ordered(
                ncols as int,
                (n + ncols - 1) as int,
                ncols as int,
            );
            vstd::arithmetic::div_mod::lemma_div_by_self(ncols as int);
        };
    }
    proof {
        assert((n as int) + ncols - 1 <= (n as int) * (ncols as int)) by (nonlinear_arith)
            requires
                n >= 1,
                ncols >= 1,
        ;
        vstd::arithmetic::div_mod::lemma_div_is_ordered(
            (n as int) + ncols - 1,
            (n as int) * (ncols as int),
            ncols as int,
        );
        vstd::arithmetic::div_mod::lemma_div_multiples_vanish(n as int, ncols as int);
        assert(rows <= n);
    }
    let used = (n + rows - 1) / rows;
    let ghost rows_i = rows as int;
    let ghost used_i = used as int;
    proof {
        vstd::arithmetic::div_mod::lemma_fundamental_div_mod((n + rows - 1) as int, rows_i);
        assert(used_i * rows_i <= n + rows - 1) by (nonlinear_arith)
            requires
                used_i == ((n + rows - 1) as int) / rows_i,
                rows_i >= 1,
                ((n + rows - 1) as int) == rows_i * used_i + ((n + rows - 1) as int) % rows_i,
                ((n + rows - 1) as int) % rows_i >= 0,
        ;
        assert((used_i - 1) * rows_i <= n - 1) by (nonlinear_arith)
            requires
                used_i * rows_i <= n + rows_i - 1,
                rows_i >= 1,
        ;
        assert(used_i >= 1) by {
            assert((n + rows - 1) >= rows);
            vstd::arithmetic::div_mod::lemma_div_is_ordered(
                rows_i,
                (n + rows - 1) as int,
                rows_i,
            );
            vstd::arithmetic::div_mod::lemma_div_by_self(rows_i);
        };
    }
    let mut r: Vec<Vec<String>> = Vec::new();
    let mut c: usize = 0;
    while c < used
        invariant
            c <= used,
            cdv == cells.deep_view(),
            cdv.len() == n,
            n == cells@.len(),
            n >= 1,
            rows >= 1,
            used >= 1,
            rows_i == rows,
            used_i == used,
            (used_i - 1) * rows_i <= n - 1,
            r.deep_view().len() == c,
            forall|m: int| 0 <= m < c ==> r.deep_view()[m] == column_cells(cdv, rows as int, m),
        decreases used - c,
    {
        proof {
            assert((c as int) * rows_i <= (used_i - 1) * rows_i) by (nonlinear_arith)
                requires
                    c as int <= used_i - 1,
                    rows_i >= 1,
            ;
        }
        let start = c * rows;
        let end = if rows < n - start {
            start + rows
        } else {
            n
        };
        proof {
            assert((c as int + 1) * rows_i == c as int * rows_i + rows_i) by (nonlinear_arith);
            assert(end as int == (if (c as int + 1) * rows_i <= cdv.len() as int {
                (c as int + 1) * rows_i
            } else {
                cdv.len() as int
            }));
        }
        let mut col: Vec<String> = Vec::new();
        let mut j: usize = start;
        while j < end
            invariant
                start <= j <= end <= n,
                cdv == cells.deep_view(),
                cdv.len() == n,
                n == cells@.len(),
                col.deep_view() == cdv.subrange(start as int, j as int),
            decreases end - j,
        {
            proof {
                assert(cdv[j as int] == cells@[j as int]@);
            }
            let ghost cpre = col.deep_view();
            col.push(cells[j].clone());
            proof {
                assert(col.deep_view() =~= cpre.push(cdv[j as int]));
                assert(col.deep_view() =~= cdv.subrange(start as int, j + 1));
            }
            j = j + 1;
        }
        let ghost rpre = r.deep_view();
        r.push(col);
        proof {
            assert(r.deep_view() =~= rpre.push(cdv.subrange(start as int, end as int)));
            assert(cdv.subrange(start as int, end as int) =~= column_cells(cdv, rows as int, c as int));
        }
        c = c + 1;
    }
    proof {
        assert(r.deep_view() =~= author_layout(cdv, ncols as int));
    }
    r
}

/// The whole author leaderboard: authors by distinct credited titles,
/// descending, names ascending on ties, laid out in `ncols` columns of
/// `ceil(authors / ncols)` rows, filled top-to-bottom then left-to-right.
pub fn render_author_table(sum: &DetectionSummary, ncols: usize) -> (r: Vec<Vec<String>>)
    requires
        1 <= ncols,
        sum@.author_titles.len() + ncols <= usize::MAX,
        sum@.author_titles.len() * 2 <= usize::MAX,
    ensures
        exists|sorted: Seq<(Seq<char>, u64)>|
            #![auto]
            ranked(sorted) && sorted.to_multiset() == counts_view(sum@.author_titles).to_multiset()
                && sorted.len() == sum@.author_titles.len() && r.deep_view() == author_layout(
                author_cells_of(sorted),
                ncols as int,
            ),
{
    let counts = author_counts(sum);
    let sorted = sort_entries(&counts);
    let cells = author_cells(&sorted);
    layout_author_columns(&cells, ncols)
}

/// The whole textual summary in print order: header, per-severity
/// breakdown, first/last event times, and the busiest-dates line. The top-5
/// leaderboard table follows separately via `render_top_alerts`.
pub open spec fn summary_segments(s: SummaryView, no_color: bool) -> Seq<(Seq<char>, ColorCode)> {
    header_segments(s, no_color) + level_line_segments(s, no_color) + event_time_segments(s)
        + date_segments(s, no_color)
}

/// Renders the summary sections in order.
pub fn render_summary(sum: &DetectionSummary, no_color: bool) -> (r: Vec<(String, ColorCode)>)
    requires
        wf_summary(sum@),
    ensures
        r.deep_view() == summary_segments(sum@, no_color),
{
    let mut r = render_header(sum, no_color);
    let ghost a = r.deep_view();
    let mut lv = render_level_lines(sum, no_color);
    let ghost b = lv.deep_view();
    r.append(&mut lv);
    proof {
        assert(r.deep_view() =~= a + b);
    }
    let ghost ab = r.deep_view();
    let mut et = render_event_times(sum);
    let ghost c = et.deep_view();
    r.append(&mut et);
    proof {
        assert(r.deep_view() =~= ab + c);
    }
    let ghost abc = r.deep_view();
    let mut dt = render_dates(sum, no_color);
    let ghost d = dt.deep_view();
    r.append(&mut dt);
    proof {
        assert(r.deep_view() =~= abc + d);
        assert(r.deep_view() =~= summary_segments(sum@, no_color));
    }
    r
}


} // verus!
