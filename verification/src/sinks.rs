//! Output sink selection and per-hit record encoding: the interactive
//! terminal line, the CSV row, and the JSON / JSONL objects in their raw and
//! profile content modes. Encoding happens here; the caller writes the
//! returned strings to the files it holds open.

use vstd::prelude::*;
use crate::chars::starts_with;
use crate::csvenc::csv_row;
use crate::event::{EventRec, GeoOutcome, RuleMeta};
use crate::extract::{ascii_lower, resolve_spec};
use crate::jsonval::{json_text_of, obj_set, pretty_of, value_is_obj};
use crate::severity::{ColorCode, abbrev_color_spec, abbrev_spec};

verus! {

/// Which combination of file output formats was requested.
#[derive(Debug, Clone, Copy, PartialEq, Eq, Structural)]
pub enum OutputType {
    Csv,
    Json,
    Jsonl,
    CsvAndJson,
    CsvAndJsonl,
}

impl OutputType {
    /// Decodes the numeric output-format selector used on the command line.
    pub fn from_u8(value: u8) -> (r: Option<OutputType>)
        ensures
            r == (match value {
                1u8 => Some(OutputType::Csv),
                2u8 => Some(OutputType::Json),
                3u8 => Some(OutputType::Jsonl),
                4u8 => Some(OutputType::CsvAndJson),
                5u8 => Some(OutputType::CsvAndJsonl),
                _ => None::<OutputType>,
            }),
    {
        match value {
            1 => Some(OutputType::Csv),
            2 => Some(OutputType::Json),
            3 => Some(OutputType::Jsonl),
            4 => Some(OutputType::CsvAndJson),
            5 => Some(OutputType::CsvAndJsonl),
            _ => None,
        }
    }
}

/// The set of active sinks and their running output counts. The interactive
/// terminal sink is active exactly when no output file was requested, and
/// JSON and JSONL are never active together.
pub struct Writers {
    pub term: bool,
    pub csv: bool,
    pub json: bool,
    pub jsonl: bool,
    pub raw_output: bool,
    pub no_color: bool,
    pub csv_rows: u64,
    pub json_objs: u64,
    pub jsonl_objs: u64,
}

impl Writers {
    /// The structural sink invariant: interactive output excludes every file
    /// sink, and the two JSON flavors exclude each other.
    pub open spec fn wf(self) -> bool {
        &&& (self.term ==> !self.csv && !self.json && !self.jsonl)
        &&& !(self.json && self.jsonl)
    }

    /// Opens the sink set implied by the requested output mode: no output
    /// path means the interactive terminal alone; otherwise the mode picks
    /// CSV and one of JSON/JSONL.
    pub fn from_mode(output: Option<OutputType>, raw_output: bool, no_color: bool) -> (r: Writers)
        ensures
            r.term == (output is None),
            r.csv == (output matches Some(t) && (t is Csv || t is CsvAndJson || t is CsvAndJsonl)),
            r.json == (output matches Some(t) && (t is Json || t is CsvAndJson)),
            r.jsonl == (output matches Some(t) && (t is Jsonl || t is CsvAndJsonl)),
            r.raw_output == raw_output,
            r.no_color == no_color,
            r.csv_rows == 0 && r.json_objs == 0 && r.jsonl_objs == 0,
            r.wf(),
    {
        let (term, csv, json, jsonl): (bool, bool, bool, bool) = match output {
            None => (true, false, false, false),
            Some(OutputType::Csv) => (false, true, false, false),
            Some(OutputType::Json) => (false, false, true, false),
            Some(OutputType::Jsonl) => (false, false, false, true),
            Some(OutputType::CsvAndJson) => (false, true, true, false),
            Some(OutputType::CsvAndJsonl) => (false, true, false, true),
        };
        Writers {
            term,
            csv,
            json,
            jsonl,
            raw_output,
            no_color,
            csv_rows: 0,
            json_objs: 0,
            jsonl_objs: 0,
        }
    }
}

/// Whether an output path's extension must be replaced so that it matches
/// the sink's format.
pub fn needs_extension(current: Option<&String>, wanted: &str) -> (r: bool)
    ensures
        r == (match current {
            Some(c) => c@ != wanted@,
            None => true,
        }),
{
    match current {
        Some(c) => !(crate::chars::str_eq(c.as_str(), wanted)),
        None => true,
    }
}

/// The resolved record: one value per profile column, in profile order.
pub open spec fn record_of(
    profile: Seq<(Seq<char>, Seq<char>)>,
    ev: Seq<(Seq<char>, Seq<char>)>,
    rule: RuleMeta,
    geo: GeoOutcome,
) -> Seq<Seq<char>> {
    Seq::new(profile.len(), |i: int| resolve_spec(profile[i].1, ev, rule, geo))
}

/// Index of the first profile column with the given name, or -1.
pub open spec fn find_name(profile: Seq<(Seq<char>, Seq<char>)>, name: Seq<char>) -> int
    decreases profile.len(),
{
    if profile.len() == 0 {
        -1
    } else if profile[0].0 == name {
        0
    } else {
        let r = find_name(profile.drop_first(), name);
        if r == -1 {
            -1
        } else {
            r + 1
        }
    }
}

proof fn lemma_find_name_none(profile: Seq<(Seq<char>, Seq<char>)>, name: Seq<char>)
    requires
        forall|m: int| 0 <= m < profile.len() ==> profile[m].0 != name,
    ensures
        find_name(profile, name) == -1,
    decreases profile.len(),
{
    if profile.len() > 0 {
        let t = profile.drop_first();
        assert(forall|m: int| 0 <= m < t.len() ==> t[m] == profile[m + 1]);
        lemma_find_name_none(t, name);
    }
}

proof fn lemma_find_name_at(profile: Seq<(Seq<char>, Seq<char>)>, name: Seq<char>, k: int)
    requires
        0 <= k < profile.len(),
        profile[k].0 == name,
        forall|m: int| 0 <= m < k ==> profile[m].0 != name,
    ensures
        find_name(profile, name) == k,
    decreases k,
{
    if k > 0 {
        let t = profile.drop_first();
        assert(forall|m: int| 0 <= m < t.len() ==> t[m] == profile[m + 1]);
        lemma_find_name_at(t, name, k - 1);
    }
}

/// The record as the terminal shows it, and the abbreviated level string the
/// line is colored by: the `Level` column, if any, is lower-cased and
/// abbreviated in place; without one the level defaults to `info`.
pub open spec fn term_record(
    profile: Seq<(Seq<char>, Seq<char>)>,
    record: Seq<Seq<char>>,
) -> (Seq<Seq<char>>, Seq<char>) {
    let idx = find_name(profile, "Level"@);
    if idx == -1 {
        (record, "info"@)
    } else {
        let abb = abbrev_spec(ascii_lower(record[idx]));
        (record.update(idx, abb), abb)
    }
}

/// The colored segments of one interactive line: each column in the line
/// color, separated by a middle dot in the separator color.
pub open spec fn term_segments(cols: Seq<Seq<char>>, lc: ColorCode, sc: ColorCode) -> Seq<
    (Seq<char>, ColorCode),
>
    decreases cols.len(),
{
    if cols.len() == 0 {
        Seq::<(Seq<char>, ColorCode)>::empty()
    } else if cols.len() == 1 {
        seq![(cols[0], lc)]
    } else {
        term_segments(cols.drop_last(), lc, sc).push((" · "@, sc)).push((cols.last(), lc))
    }
}

/// The whole interactive rendering of one record.
pub open spec fn terminal_line(
    profile: Seq<(Seq<char>, Seq<char>)>,
    record: Seq<Seq<char>>,
    no_color: bool,
) -> Seq<(Seq<char>, ColorCode)> {
    let tr = term_record(profile, record);
    let lc = if no_color {
        ColorCode::Neutral
    } else {
        abbrev_color_spec(tr.1)
    };
    let sc = if no_color {
        ColorCode::Neutral
    } else {
        ColorCode::Orange
    };
    term_segments(tr.0, lc, sc)
}

/// The raw-mode JSON content: the event's original payload with each
/// `sigma.`-expression column overlaid under its column name.
pub open spec fn overlay_sigma(
    t: Seq<char>,
    profile: Seq<(Seq<char>, Seq<char>)>,
    ev: Seq<(Seq<char>, Seq<char>)>,
    rule: RuleMeta,
    geo: GeoOutcome,
) -> Seq<char>
    decreases profile.len(),
{
    if profile.len() == 0 {
        t
    } else {
        let r = overlay_sigma(t, profile.drop_last(), ev, rule, geo);
        let e = profile.last();
        if starts_with(e.1, "sigma."@) {
            obj_set(r, e.0, resolve_spec(e.1, ev, rule, geo))
        } else {
            r
        }
    }
}

/// The profile-mode JSON content: a fresh object holding every profile
/// column under its name.
pub open spec fn profile_obj(
    profile: Seq<(Seq<char>, Seq<char>)>,
    ev: Seq<(Seq<char>, Seq<char>)>,
    rule: RuleMeta,
    geo: GeoOutcome,
) -> Seq<char>
    decreases profile.len(),
{
    if profile.len() == 0 {
        "{}"@
    } else {
        obj_set(
            profile_obj(profile.drop_last(), ev, rule, geo),
            profile.last().0,
            resolve_spec(profile.last().1, ev, rule, geo),
        )
    }
}

/// What one hit produced on each active sink.
pub struct RecordOutput {
    pub term_segments: Option<Vec<(String, ColorCode)>>,
    pub csv_row: Option<String>,
    pub json_text: Option<String>,
    pub jsonl_text: Option<String>,
}

/// How one `write_record` call moves the sink counters: each active sink
/// gains exactly one encoded row or object.
pub open spec fn emit_counter_step(a: Writers, b: Writers) -> bool {
    &&& b.term == a.term && b.csv == a.csv && b.json == a.json && b.jsonl == a.jsonl
    &&& b.raw_output == a.raw_output && b.no_color == a.no_color
    &&& b.csv_rows == a.csv_rows + (if a.csv {
        1int
    } else {
        0int
    })
    &&& b.json_objs == a.json_objs + (if a.json {
        1int
    } else {
        0int
    })
    &&& b.jsonl_objs == a.jsonl_objs + (if a.jsonl {
        1int
    } else {
        0int
    })
}

fn resolve_record(profile: &Vec<(String, String)>, event: &EventRec, rule: &RuleMeta, geo: &GeoOutcome) -> (r:
    Vec<String>)
    ensures
        r.deep_view() == record_of(profile.deep_view(), event@, *rule, *geo),
{
    let ghost pdv = profile.deep_view();
    let mut r: Vec<String> = Vec::new();
    let mut i: usize = 0;
    while i < profile.len()
        invariant
            i <= profile@.len(),
            pdv == profile.deep_view(),
            pdv.len() == profile@.len(),
            r.deep_view().len() == i,
            forall|m: int|
                0 <= m < i ==> r.deep_view()[m] == resolve_spec(pdv[m].1, event@, *rule, *geo),
        decreases profile@.len() - i,
    {
        proof {
            assert(pdv[i as int] == (profile@[i as int].0@, profile@[i as int].1@));
        }
        let v = crate::extract::resolve(profile[i].1.as_str(), event, rule, geo);
        let ghost rpre = r.deep_view();
        let ghost vv = v@;
        r.push(v);
        proof {
            assert(r.deep_view() =~= rpre.push(vv));
        }
        i = i + 1;
    }
    proof {
        assert(r.deep_view() =~= record_of(pdv, event@, *rule, *geo));
    }
    r
}

/// Fans one hit out to every active sink, in its own encoding, and counts
/// it. The returned strings are exactly what each sink's file (or the
/// terminal) receives for this hit.
pub fn write_record(
    profile: &Vec<(String, String)>,
    event: &EventRec,
    base: Option<&serde_json::Value>,
    rule: &RuleMeta,
    wrt: &mut Writers,
    geo: &GeoOutcome,
) -> (out: RecordOutput)
    requires
        old(wrt).csv_rows < u64::MAX,
        old(wrt).json_objs < u64::MAX,
        old(wrt).jsonl_objs < u64::MAX,
        ((old(wrt).json || old(wrt).jsonl) && old(wrt).raw_output) ==> (base matches Some(b)
            && value_is_obj(*b)),
    ensures
        emit_counter_step(*old(wrt), *final(wrt)),
        out.term_segments matches Some(v) <==> old(wrt).term,
        out.csv_row matches Some(s) <==> old(wrt).csv,
        out.json_text matches Some(s) <==> old(wrt).json,
        out.jsonl_text matches Some(s) <==> old(wrt).jsonl,
        (out.term_segments matches Some(v) ==> v.deep_view() == terminal_line(
            profile.deep_view(),
            record_of(profile.deep_view(), event@, *rule, *geo),
            old(wrt).no_color,
        )),
        (out.csv_row matches Some(s) ==> s@ == csv_row(
            record_of(profile.deep_view(), event@, *rule, *geo),
        )),
        (out.json_text matches Some(s) ==> s@ == (if old(wrt).raw_output {
            pretty_of(
                overlay_sigma(
                    json_text_of(*base->0),
                    profile.deep_view(),
                    event@,
                    *rule,
                    *geo,
                ),
            )
        } else {
            pretty_of(profile_obj(profile.deep_view(), event@, *rule, *geo))
        })),
        (out.jsonl_text matches Some(s) ==> s@ == (if old(wrt).raw_output {
            overlay_sigma(json_text_of(*base->0), profile.deep_view(), event@, *rule, *geo)
        } else {
            profile_obj(profile.deep_view(), event@, *rule, *geo)
        })),
{
    let ghost pdv = profile.deep_view();
    let ghost recspec = record_of(pdv, event@, *rule, *geo);
    let record = resolve_record(profile, event, rule, geo);

    let term_out: Option<Vec<(String, ColorCode)>> = if wrt.term {
        Some(render_terminal_line(profile, &record, wrt.no_color, Ghost(recspec)))
    } else {
        None
    };

    let csv_out: Option<String> = if wrt.csv {
        wrt.csv_rows = wrt.csv_rows + 1;
        Some(crate::csvenc::encode_csv_row(&record))
    } else {
        None
    };

    let json_out: Option<String> = if wrt.json {
        wrt.json_objs = wrt.json_objs + 1;
        if wrt.raw_output {
            let b = match base {
                Some(b) => b,
                None => vstd::pervasive::unreached(),
            };
            let jv = build_overlay(b, profile, &record, event, rule, geo, Ghost(recspec));
            Some(crate::jsonval::value_to_pretty(&jv))
        } else {
            let jv = build_profile_obj(profile, &record, event, rule, geo, Ghost(recspec));
            Some(crate::jsonval::value_to_pretty(&jv))
        }
    } else {
        None
    };

    let jsonl_out: Option<String> = if wrt.jsonl {
        wrt.jsonl_objs = wrt.jsonl_objs + 1;
        if wrt.raw_output {
            let b = match base {
                Some(b) => b,
                None => vstd::pervasive::unreached(),
            };
            let jv = build_overlay(b, profile, &record, event, rule, geo, Ghost(recspec));
            Some(crate::jsonval::value_to_compact(&jv))
        } else {
            let jv = build_profile_obj(profile, &record, event, rule, geo, Ghost(recspec));
            Some(crate::jsonval::value_to_compact(&jv))
        }
    } else {
        None
    };

    RecordOutput {
        term_segments: term_out,
        csv_row: csv_out,
        json_text: json_out,
        jsonl_text: jsonl_out,
    }
}

fn find_level_index(profile: &Vec<(String, String)>) -> (r: Option<usize>)
    ensures
        match r {
            Some(i) => i < profile.deep_view().len() && profile.deep_view()[i as int].0
                == "Level"@ && forall|m: int|
                0 <= m < i ==> profile.deep_view()[m].0 != "Level"@,
            None => forall|m: int|
                0 <= m < profile.deep_view().len() ==> profile.deep_view()[m].0 != "Level"@,
        },
{
    let ghost pdv = profile.deep_view();
    let lvl_name = crate::chars::str_chars("Level");
    let n = profile.len();
    proof {
        assert(pdv.len() == profile@.len());
    }
    let mut i: usize = 0;
    while i < n
        invariant
            i <= n,
            n == profile@.len(),
            pdv == profile.deep_view(),
            pdv.len() == n,
            lvl_name@ == "Level"@,
            forall|m: int| 0 <= m < i ==> pdv[m].0 != "Level"@,
        decreases n - i,
    {
        proof {
            assert(pdv[i as int] == (profile@[i as int].0@, profile@[i as int].1@));
        }
        let nm = crate::chars::str_chars(profile[i].0.as_str());
        if crate::chars::chars_eq(nm.as_slice(), lvl_name.as_slice()) {
            return Some(i);
        }
        i = i + 1;
    }
    None
}

fn render_terminal_line(
    profile: &Vec<(String, String)>,
    record: &Vec<String>,
    no_color: bool,
    Ghost(recspec): Ghost<Seq<Seq<char>>>,
) -> (r: Vec<(String, ColorCode)>)
    requires
        record.deep_view() == recspec,
        recspec.len() == profile.deep_view().len(),
    ensures
        r.deep_view() == terminal_line(profile.deep_view(), recspec, no_color),
{
    let ghost pdv = profile.deep_view();
    let idx = find_level_index(profile);
    let ghost tr = term_record(pdv, recspec);
    let mut disp: Vec<String> = Vec::new();
    let mut level_abb: String = <String as vstd::string::StringExecFns>::from_str("info");
    match idx {
        Some(ix) => {
            proof {
                lemma_find_name_at(pdv, "Level"@, ix as int);
            }
            let low = crate::extract::to_ascii_lower(record[ix].as_str());
            let ab = crate::severity::abbreviate_level(low.as_str());
            level_abb = <String as vstd::string::StringExecFns>::from_str(ab);
            let mut j: usize = 0;
            while j < record.len()
                invariant
                    j <= record@.len(),
                    record.deep_view() == recspec,
                    recspec.len() == record@.len(),
                    ix < record@.len(),
                    level_abb@ == abbrev_spec(ascii_lower(recspec[ix as int])),
                    disp.deep_view() == recspec.update(
                        ix as int,
                        abbrev_spec(ascii_lower(recspec[ix as int])),
                    ).take(j as int),
                decreases record@.len() - j,
            {
                let ghost upd = recspec.update(
                    ix as int,
                    abbrev_spec(ascii_lower(recspec[ix as int])),
                );
                let ghost dpre = disp.deep_view();
                if j == ix {
                    disp.push(level_abb.clone());
                    proof {
                        assert(disp.deep_view() =~= dpre.push(level_abb@));
                    }
                } else {
                    disp.push(record[j].clone());
                    proof {
                        assert(record.deep_view()[j as int] == record@[j as int]@);
                        assert(disp.deep_view() =~= dpre.push(recspec[j as int]));
                    }
                }
                proof {
                    assert(disp.deep_view() =~= upd.take(j + 1));
                }
                j = j + 1;
            }
            proof {
                assert(recspec.update(
                    ix as int,
                    abbrev_spec(ascii_lower(recspec[ix as int])),
                ).take(recspec.len() as int) =~= tr.0);
                assert(level_abb@ == tr.1);
            }
        },
        None => {
            proof {
                lemma_find_name_none(pdv, "Level"@);
            }
            let mut j: usize = 0;
            while j < record.len()
                invariant
                    j <= record@.len(),
                    record.deep_view() == recspec,
                    recspec.len() == record@.len(),
                    disp.deep_view() == recspec.take(j as int),
                decreases record@.len() - j,
            {
                let ghost dpre = disp.deep_view();
                disp.push(record[j].clone());
                proof {
                    assert(record.deep_view()[j as int] == record@[j as int]@);
                    assert(disp.deep_view() =~= dpre.push(recspec[j as int]));
                    assert(disp.deep_view() =~= recspec.take(j + 1));
                }
                j = j + 1;
            }
            proof {
                assert(recspec.take(recspec.len() as int) =~= tr.0);
                assert(level_abb@ == tr.1);
            }
        },
    }
    let lc = crate::severity::abbrev_color(level_abb.as_str(), no_color);
    let sc: ColorCode = if no_color {
        ColorCode::Neutral
    } else {
        ColorCode::Orange
    };
    let ghost cols = tr.0;
    let mut segs: Vec<(String, ColorCode)> = Vec::new();
    proof {
        assert(segs.deep_view() =~= term_segments(cols.take(0), lc, sc));
    }
    let mut k: usize = 0;
    while k < disp.len()
        invariant
            k <= disp@.len(),
            disp.deep_view() == cols,
            cols.len() == disp@.len(),
            segs.deep_view() == term_segments(cols.take(k as int), lc, sc),
        decreases disp@.len() - k,
    {
        let ghost spre = segs.deep_view();
        if k > 0 {
            segs.push((<String as vstd::string::StringExecFns>::from_str(" · "), sc));
            proof {
                assert(segs.deep_view() =~= spre.push((" · "@, sc)));
            }
        }
        let ghost smid = segs.deep_view();
        segs.push((disp[k].clone(), lc));
        proof {
            assert(disp.deep_view()[k as int] == disp@[k as int]@);
            assert(segs.deep_view() =~= smid.push((cols[k as int], lc)));
            assert(cols.take(k + 1).drop_last() =~= cols.take(k as int));
            assert(cols.take(k + 1).last() == cols[k as int]);
            if k == 0 {
                assert(term_segments(cols.take(1), lc, sc) == seq![(cols.take(1)[0], lc)]);
                assert(segs.deep_view() =~= term_segments(cols.take(k + 1), lc, sc));
            } else {
                assert(segs.deep_view() =~= term_segments(cols.take(k + 1), lc, sc));
            }
        }
        k = k + 1;
    }
    proof {
        assert(cols.take(cols.len() as int) =~= cols);
        assert(segs.deep_view() == terminal_line(pdv, recspec, no_color));
    }
    segs
}

fn build_overlay(
    base: &serde_json::Value,
    profile: &Vec<(String, String)>,
    record: &Vec<String>,
    event: &EventRec,
    rule: &RuleMeta,
    geo: &GeoOutcome,
    Ghost(recspec): Ghost<Seq<Seq<char>>>,
) -> (r: serde_json::Value)
    requires
        value_is_obj(*base),
        record.deep_view() == recspec,
        recspec == record_of(profile.deep_view(), event@, *rule, *geo),
    ensures
        json_text_of(r) == overlay_sigma(
            json_text_of(*base),
            profile.deep_view(),
            event@,
            *rule,
            *geo,
        ),
{
    let ghost pdv = profile.deep_view();
    let sigma_prefix = crate::chars::str_chars("sigma.");
    let mut jv = crate::jsonval::value_clone(base);
    proof {
        assert(overlay_sigma(json_text_of(*base), pdv.take(0), event@, *rule, *geo)
            == json_text_of(*base));
    }
    let mut i: usize = 0;
    while i < profile.len()
        invariant
            i <= profile@.len(),
            pdv == profile.deep_view(),
            pdv.len() == profile@.len(),
            record.deep_view() == recspec,
            recspec == record_of(pdv, event@, *rule, *geo),
            recspec.len() == profile@.len(),
            sigma_prefix@ == "sigma."@,
            value_is_obj(jv),
            json_text_of(jv) == overlay_sigma(
                json_text_of(*base),
                pdv.take(i as int),
                event@,
                *rule,
                *geo,
            ),
        decreases profile@.len() - i,
    {
        proof {
            assert(pdv[i as int] == (profile@[i as int].0@, profile@[i as int].1@));
            assert(pdv.take(i + 1).drop_last() =~= pdv.take(i as int));
            assert(pdv.take(i + 1).last() == pdv[i as int]);
        }
        let ec = crate::chars::str_chars(profile[i].1.as_str());
        if crate::chars::has_prefix(ec.as_slice(), sigma_prefix.as_slice()) {
            proof {
                assert(record.deep_view()[i as int] == record@[i as int]@);
            }
            crate::jsonval::value_set_str(
                &mut jv,
                profile[i].0.as_str(),
                record[i].as_str(),
            );
        }
        i = i + 1;
    }
    proof {
        assert(pdv.take(pdv.len() as int) =~= pdv);
    }
    jv
}

fn build_profile_obj(
    profile: &Vec<(String, String)>,
    record: &Vec<String>,
    event: &EventRec,
    rule: &RuleMeta,
    geo: &GeoOutcome,
    Ghost(recspec): Ghost<Seq<Seq<char>>>,
) -> (r: serde_json::Value)
    requires
        record.deep_view() == recspec,
        recspec == record_of(profile.deep_view(), event@, *rule, *geo),
    ensures
        json_text_of(r) == profile_obj(profile.deep_view(), event@, *rule, *geo),
{
    let ghost pdv = profile.deep_view();
    let mut jv = crate::jsonval::new_object();
    proof {
        assert(profile_obj(pdv.take(0), event@, *rule, *geo) == "{}"@);
    }
    let mut i: usize = 0;
    while i < profile.len()
        invariant
            i <= profile@.len(),
            pdv == profile.deep_view(),
            pdv.len() == profile@.len(),
            record.deep_view() == recspec,
            recspec == record_of(pdv, event@, *rule, *geo),
            recspec.len() == profile@.len(),
            value_is_obj(jv),
            json_text_of(jv) == profile_obj(pdv.take(i as int), event@, *rule, *geo),
        decreases profile@.len() - i,
    {
        proof {
            assert(pdv[i as int] == (profile@[i as int].0@, profile@[i as int].1@));
            assert(pdv.take(i + 1).drop_last() =~= pdv.take(i as int));
            assert(pdv.take(i + 1).last() == pdv[i as int]);
            assert(record.deep_view()[i as int] == record@[i as int]@);
        }
        crate::jsonval::value_set_str(&mut jv, profile[i].0.as_str(), record[i].as_str());
        i = i + 1;
    }
    proof {
        assert(pdv.take(pdv.len() as int) =~= pdv);
    }
    jv
}

/// The column names of a profile.
pub open spec fn names_of(profile: Seq<(Seq<char>, Seq<char>)>) -> Seq<Seq<char>> {
    Seq::new(profile.len(), |i: int| profile[i].0)
}

/// Names joined with a separator.
pub open spec fn join_with(names: Seq<Seq<char>>, sep: Seq<char>) -> Seq<char>
    decreases names.len(),
{
    if names.len() == 0 {
        Seq::<char>::empty()
    } else if names.len() == 1 {
        names[0]
    } else {
        join_with(names.drop_last(), sep) + sep + names.last()
    }
}

fn profile_names(profile: &Vec<(String, String)>) -> (r: Vec<String>)
    ensures
        r.deep_view() == names_of(profile.deep_view()),
{
    let ghost pdv = profile.deep_view();
    let mut r: Vec<String> = Vec::new();
    let mut i: usize = 0;
    while i < profile.len()
        invariant
            i <= profile@.len(),
            pdv == profile.deep_view(),
            pdv.len() == profile@.len(),
            r.deep_view().len() == i,
            forall|m: int| 0 <= m < i ==> r.deep_view()[m] == pdv[m].0,
        decreases profile@.len() - i,
    {
        proof {
            assert(pdv[i as int] == (profile@[i as int].0@, profile@[i as int].1@));
        }
        let ghost rpre = r.deep_view();
        r.push(profile[i].0.clone());
        proof {
            assert(r.deep_view() =~= rpre.push(pdv[i as int].0));
        }
        i = i + 1;
    }
    proof {
        assert(r.deep_view() =~= names_of(pdv));
    }
    r
}

/// The header line the interactive sink prints before the first record:
/// the column names joined with the middle-dot separator, newline-ended.
pub fn terminal_header(profile: &Vec<(String, String)>) -> (r: String)
    ensures
        r@ == join_with(names_of(profile.deep_view()), " · "@) + "\n"@,
{
    let names = profile_names(profile);
    let ghost ndv = names.deep_view();
    let mut out: Vec<char> = Vec::new();
    proof {
        assert(out@ =~= join_with(ndv.take(0), " · "@));
    }
    let mut i: usize = 0;
    while i < names.len()
        invariant
            i <= names@.len(),
            ndv == names.deep_view(),
            ndv.len() == names@.len(),
            out@ == join_with(ndv.take(i as int), " · "@),
        decreases names@.len() - i,
    {
        if i > 0 {
            crate::chars::append_str(&mut out, " · ");
        }
        crate::chars::append_str(&mut out, names[i].as_str());
        proof {
            assert(ndv[i as int] == names@[i as int]@);
            assert(ndv.take(i + 1).drop_last() =~= ndv.take(i as int));
            assert(ndv.take(i + 1).last() == ndv[i as int]);
            if i == 0 {
                assert(join_with(ndv.take(1), " · "@) == ndv.take(1)[0]);
                assert(out@ =~= join_with(ndv.take(i + 1), " · "@));
            } else {
                assert(out@ =~= join_with(ndv.take(i + 1), " · "@));
            }
        }
        i = i + 1;
    }
    out.push('\n');
    proof {
        reveal_strlit("\n");
        assert(ndv.take(ndv.len() as int) =~= ndv);
        assert(out@ =~= join_with(names_of(profile.deep_view()), " · "@) + "\n"@);
    }
    crate::chars::string_from_chars(out.as_slice())
}

/// The CSV header row: the column names, encoded once before any record.
pub fn csv_header(profile: &Vec<(String, String)>) -> (r: String)
    ensures
        r@ == csv_row(names_of(profile.deep_view())),
{
    let names = profile_names(profile);
    crate::csvenc::encode_csv_row(&names)
}

/// One encoded row or object per hit on each active sink: across any run of
/// `write_record` calls, the CSV row count — and likewise each JSON object
/// count — grows by exactly the number of hits written.
pub proof fn lemma_rows_match_hits(ws: Seq<Writers>)
    requires
        ws.len() >= 1,
        forall|i: int| 0 <= i < ws.len() - 1 ==> #[trigger] emit_counter_step(ws[i], ws[i + 1]),
    ensures
        ws.last().csv_rows == ws[0].csv_rows + (if ws[0].csv {
            ws.len() - 1
        } else {
            0
        }),
        ws.last().json_objs == ws[0].json_objs + (if ws[0].json {
            ws.len() - 1
        } else {
            0
        }),
        ws.last().jsonl_objs == ws[0].jsonl_objs + (if ws[0].jsonl {
            ws.len() - 1
        } else {
            0
        }),
        ws.last().csv == ws[0].csv && ws.last().json == ws[0].json && ws.last().jsonl == ws[0].jsonl,
    decreases ws.len(),
{
    if ws.len() > 1 {
        let front = ws.drop_last();
        assert forall|i: int| 0 <= i < front.len() - 1 implies #[trigger] emit_counter_step(
            front[i],
            front[i + 1],
        ) by {
            assert(front[i] == ws[i]);
            assert(front[i + 1] == ws[i + 1]);
        }
        lemma_rows_match_hits(front);
        let j = ws.len() - 2;
        assert(emit_counter_step(ws[j], ws[j + 1]));
        assert(front.last() == ws[j]);
        assert(front[0] == ws[0]);
    }
}

} // verus!
