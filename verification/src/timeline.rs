//! The detection-frequency timeline: a density sparkline over the hit
//! timestamps with time markers above and below, or a warning when there are
//! too few timestamps to chart.

use vstd::prelude::*;
use crate::timefmt::{MAX_EVENT_TS, MIN_EVENT_TS};

verus! {

/// The sparkline krapslog draws for these timestamps at this width and
/// height: a function of its arguments alone.
pub uninterp spec fn spark_of(ts: Seq<i64>, width: int, height: int) -> Seq<char>;

/// The header and footer time-marker blocks krapslog draws: a function of
/// its arguments alone (dates are rendered in UTC).
pub uninterp spec fn time_markers_of(ts: Seq<i64>, count: int, width: int) -> (Seq<char>, Seq<char>);

/// Relies on `krapslog::build_sparkline`: deterministic in the timestamps,
/// width and height. It needs at least one timestamp, one bucket and one row
/// (it takes min/max of the bucket counts and joins the rows), and the
/// calendar timestamp range keeps its spread subtraction of the newest and
/// oldest timestamps inside `i64`.
#[verifier::external_body]
fn build_sparkline_x(ts: &Vec<i64>, width: usize, height: usize) -> (r: String)
    requires
        ts@.len() >= 1,
        width >= 1,
        height >= 1,
        forall|i: int| 0 <= i < ts@.len() ==> MIN_EVENT_TS <= #[trigger] ts@[i] <= MAX_EVENT_TS,
    ensures
        r@ == spark_of(ts@, width as int, height as int),
{
    krapslog::build_sparkline(ts.as_slice(), width, height)
}

/// Relies on `krapslog::build_time_markers`: deterministic in the
/// timestamps, marker count and width. Each marker writes a 19-character
/// timestamp (the calendar range keeps it exactly 19 characters); bottom
/// markers write forward from at most 3/5 of the width, top markers write
/// backward from at least half of it, so a width of 50 fits every marker of
/// a count up to 18. At least three markers keep every footer timestamp
/// index below the timestamp count, which must exceed the marker count by
/// two; the length cap keeps its floating-point ceilings exact.
#[verifier::external_body]
fn build_time_markers_x(ts: &Vec<i64>, count: usize, width: usize) -> (r: (String, String))
    requires
        3 <= count <= 18,
        count + 2 <= ts@.len() <= 100_000_000,
        width >= 50,
        forall|i: int| 0 <= i < ts@.len() ==> MIN_EVENT_TS <= #[trigger] ts@[i] <= MAX_EVENT_TS,
    ensures
        (r.0@, r.1@) == time_markers_of(ts@, count as int, width as int),
{
    krapslog::build_time_markers(ts.as_slice(), count, width)
}

/// What the timeline section shows: a chart, or a warning when there are
/// fewer than five timestamps.
pub enum TimelineRender {
    Warning(String),
    Chart { title_indent: usize, header: String, spark: String, footer: String },
}

/// Renders the detection-frequency timeline for the recorded hit
/// timestamps. With fewer than five timestamps the result is the warning
/// message, never a chart; with five or more it is always a chart, drawn at
/// the terminal width minus the side margins, with up to 18 evenly spaced
/// time markers and a centered title. A chart needs fifty columns beside the
/// margins, so that every time marker's 19-character timestamp fits.
pub fn render_timeline(ts: &Vec<i64>, width: usize, margin: usize) -> (r: TimelineRender)
    requires
        forall|i: int| 0 <= i < ts@.len() ==> MIN_EVENT_TS <= #[trigger] ts@[i] <= MAX_EVENT_TS,
        ts@.len() >= 5 ==> margin >= 1 && width >= 2 * margin + 50 && ts@.len() <= 100_000_000,
    ensures
        ts@.len() < 5 ==> (r matches TimelineRender::Warning(m) && m@
            == "Detection Frequency Timeline could not be displayed as there needs to be more than 5 events."@),
        ts@.len() >= 5 ==> (r matches TimelineRender::Chart { title_indent, header, spark, footer }
            && title_indent == (width - 28) / 2 && spark@ == spark_of(
            ts@,
            width - 2 * margin,
            5,
        ) && (header@, footer@) == time_markers_of(
            ts@,
            if ts@.len() - 2 < 18 {
                ts@.len() - 2
            } else {
                18
            },
            width - 2 * margin,
        )),
{
    if ts.len() < 5 {
        TimelineRender::Warning(
            <String as vstd::string::StringExecFns>::from_str(
                "Detection Frequency Timeline could not be displayed as there needs to be more than 5 events.",
            ),
        )
    } else {
        let marker_max = ts.len() - 2;
        let count: usize = if marker_max < 18 {
            marker_max
        } else {
            18
        };
        let chart_width = width - 2 * margin;
        let title = "Detection Frequency Timeline";
        proof {
            reveal_strlit("Detection Frequency Timeline");
        }
        let tlen = title.unicode_len();
        let title_indent = (width - tlen) / 2;
        let markers = build_time_markers_x(ts, count, chart_width);
        let spark = build_sparkline_x(ts, chart_width, 5);
        TimelineRender::Chart { title_indent, header: markers.0, spark, footer: markers.1 }
    }
}

} // verus!
