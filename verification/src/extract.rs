//! Resolution of one profile extraction expression against a hit: the
//! geolocation short-circuit, `.field` event lookups, and `sigma.*` rule
//! metadata, with `-` as the placeholder for anything absent.

use vstd::prelude::*;
use crate::chars::starts_with;
use crate::event::{EventRec, GeoOutcome, RuleMeta, lookup_field};

verus! {

/// ASCII lower-casing of one character; everything else passes through.
pub open spec fn lower_char(c: char) -> char {
    match c {
        'A' => 'a',
        'B' => 'b',
        'C' => 'c',
        'D' => 'd',
        'E' => 'e',
        'F' => 'f',
        'G' => 'g',
        'H' => 'h',
        'I' => 'i',
        'J' => 'j',
        'K' => 'k',
        'L' => 'l',
        'M' => 'm',
        'N' => 'n',
        'O' => 'o',
        'P' => 'p',
        'Q' => 'q',
        'R' => 'r',
        'S' => 's',
        'T' => 't',
        'U' => 'u',
        'V' => 'v',
        'W' => 'w',
        'X' => 'x',
        'Y' => 'y',
        'Z' => 'z',
        _ => c,
    }
}

/// ASCII lower-casing of a whole string.
pub open spec fn ascii_lower(s: Seq<char>) -> Seq<char> {
    Seq::new(s.len(), |i: int| lower_char(s[i]))
}

/// Every `T` replaced by a space.
pub open spec fn replace_t(s: Seq<char>) -> Seq<char> {
    Seq::new(s.len(), |i: int| if s[i] == 'T' { ' ' } else { s[i] })
}

/// Every `Z` removed.
pub open spec fn strip_z(s: Seq<char>) -> Seq<char>
    decreases s.len(),
{
    if s.len() == 0 {
        s
    } else {
        let front = strip_z(s.drop_last());
        if s.last() == 'Z' {
            front
        } else {
            front.push(s.last())
        }
    }
}

/// How `eventTime` values are shown: `T` separators become spaces and `Z`
/// suffixes disappear.
pub open spec fn time_display(s: Seq<char>) -> Seq<char> {
    strip_z(replace_t(s))
}

/// A string wrapped in double quotes.
pub open spec fn quoted(s: Seq<char>) -> Seq<char> {
    seq!['"'] + s + seq!['"']
}

pub open spec fn list_body(items: Seq<Seq<char>>) -> Seq<char>
    decreases items.len(),
{
    if items.len() == 0 {
        Seq::<char>::empty()
    } else if items.len() == 1 {
        quoted(items[0])
    } else {
        list_body(items.drop_last()) + ", "@ + quoted(items.last())
    }
}

/// A metadata list rendered as a bracketed, comma-separated list of quoted
/// entries, e.g. `["a", "b"]`.
pub open spec fn list_fmt(items: Seq<Seq<char>>) -> Seq<char> {
    seq!['['] + list_body(items) + seq![']']
}

/// The placeholder for missing data.
pub open spec fn dash() -> Seq<char> {
    "-"@
}

pub open spec fn opt_or_dash(o: Option<String>) -> Seq<char> {
    match o {
        Some(s) => s@,
        None => dash(),
    }
}

pub open spec fn opt_lower(o: Option<String>) -> Seq<char> {
    match o {
        Some(s) => ascii_lower(s@),
        None => dash(),
    }
}

pub open spec fn opt_list(o: Option<Vec<String>>) -> Seq<char> {
    match o {
        Some(v) => list_fmt(v.deep_view()),
        None => dash(),
    }
}

/// Dispatch of a `sigma.`-prefixed expression over the rule's metadata.
pub open spec fn sigma_resolve(name: Seq<char>, rule: RuleMeta) -> Seq<char> {
    if name == "title"@ {
        rule.title@
    } else if name == "id"@ {
        opt_or_dash(rule.id)
    } else if name == "status"@ {
        opt_lower(rule.status)
    } else if name == "author"@ {
        opt_or_dash(rule.author)
    } else if name == "description"@ {
        opt_or_dash(rule.description)
    } else if name == "references"@ {
        opt_list(rule.references)
    } else if name == "date"@ {
        opt_or_dash(rule.date)
    } else if name == "modified"@ {
        opt_or_dash(rule.modified)
    } else if name == "tags"@ {
        opt_list(rule.tags)
    } else if name == "falsepositives"@ {
        opt_list(rule.falsepositives)
    } else if name == "level"@ {
        opt_lower(rule.level)
    } else {
        dash()
    }
}

/// Expression dispatch once geolocation did not short-circuit: `.field`
/// event lookups, `sigma.*` metadata, `-` for anything else.
pub open spec fn base_resolve(expr: Seq<char>, ev: Seq<(Seq<char>, Seq<char>)>, rule: RuleMeta) -> Seq<
    char,
> {
    if expr.len() > 0 && expr[0] == '.' {
        match lookup_field(ev, expr.skip(1)) {
            Some(v) => if expr.skip(1) == "eventTime"@ {
                time_display(v)
            } else {
                v
            },
            None => dash(),
        }
    } else if starts_with(expr, "sigma."@) {
        sigma_resolve(expr.skip("sigma."@.len() as int), rule)
    } else {
        dash()
    }
}

/// Full resolution of one expression against a hit. While the event's source
/// IP stays unresolved in the geolocation database, every expression yields
/// the raw IP string; a resolved IP answers only the three synthetic
/// geolocation columns and falls through otherwise.
pub open spec fn resolve_spec(
    expr: Seq<char>,
    ev: Seq<(Seq<char>, Seq<char>)>,
    rule: RuleMeta,
    geo: GeoOutcome,
) -> Seq<char> {
    match geo {
        GeoOutcome::Unresolved(ip) => ip@,
        GeoOutcome::Resolved { asn, city, country } => {
            if expr == "SrcASN"@ {
                asn@
            } else if expr == "SrcCity"@ {
                city@
            } else if expr == "SrcCountry"@ {
                country@
            } else {
                base_resolve(expr, ev, rule)
            }
        },
        _ => base_resolve(expr, ev, rule),
    }
}

fn lower_char_x(c: char) -> (r: char)
    ensures
        r == lower_char(c),
{
    match c {
        'A' => 'a',
        'B' => 'b',
        'C' => 'c',
        'D' => 'd',
        'E' => 'e',
        'F' => 'f',
        'G' => 'g',
        'H' => 'h',
        'I' => 'i',
        'J' => 'j',
        'K' => 'k',
        'L' => 'l',
        'M' => 'm',
        'N' => 'n',
        'O' => 'o',
        'P' => 'p',
        'Q' => 'q',
        'R' => 'r',
        'S' => 's',
        'T' => 't',
        'U' => 'u',
        'V' => 'v',
        'W' => 'w',
        'X' => 'x',
        'Y' => 'y',
        'Z' => 'z',
        _ => c,
    }
}

/// ASCII lower-casing of a string.
pub fn to_ascii_lower(s: &str) -> (r: String)
    ensures
        r@ == ascii_lower(s@),
{
    let v = crate::chars::str_chars(s);
    let mut out: Vec<char> = Vec::new();
    let mut i: usize = 0;
    while i < v.len()
        invariant
            i <= v@.len(),
            v@ == s@,
            out@.len() == i,
            forall|m: int| 0 <= m < i ==> out@[m] == lower_char(v@[m]),
        decreases v@.len() - i,
    {
        out.push(lower_char_x(v[i]));
        i = i + 1;
    }
    proof {
        assert(out@ =~= ascii_lower(s@));
    }
    crate::chars::string_from_chars(out.as_slice())
}

/// Rendering of an `eventTime` value for display.
pub fn format_event_time(s: &str) -> (r: String)
    ensures
        r@ == time_display(s@),
{
    let v = crate::chars::str_chars(s);
    let mut out: Vec<char> = Vec::new();
    let mut i: usize = 0;
    while i < v.len()
        invariant
            i <= v@.len(),
            v@ == s@,
            out@ == strip_z(replace_t(v@.take(i as int))),
        decreases v@.len() - i,
    {
        let c = v[i];
        proof {
            let rc = if v@[i as int] == 'T' {
                ' '
            } else {
                v@[i as int]
            };
            assert(replace_t(v@.take(i + 1)) =~= replace_t(v@.take(i as int)).push(rc));
            let y = replace_t(v@.take(i + 1));
            assert(y.drop_last() =~= replace_t(v@.take(i as int)));
            assert(y.last() == rc);
        }
        if c == 'Z' {
        } else if c == 'T' {
            out.push(' ');
        } else {
            out.push(c);
        }
        i = i + 1;
    }
    proof {
        assert(v@.take(v@.len() as int) =~= v@);
    }
    crate::chars::string_from_chars(out.as_slice())
}

fn dash_x() -> (r: String)
    ensures
        r@ == dash(),
{
    <String as vstd::string::StringExecFns>::from_str("-")
}

fn opt_or_dash_x(o: &Option<String>) -> (r: String)
    ensures
        r@ == opt_or_dash(*o),
{
    match o {
        Some(s) => s.clone(),
        None => dash_x(),
    }
}

fn opt_lower_x(o: &Option<String>) -> (r: String)
    ensures
        r@ == opt_lower(*o),
{
    match o {
        Some(s) => to_ascii_lower(s.as_str()),
        None => dash_x(),
    }
}

/// Bracketed, quoted, comma-separated rendering of a list.
pub fn render_list(items: &Vec<String>) -> (r: String)
    ensures
        r@ == list_fmt(items.deep_view()),
{
    let ghost dv = items.deep_view();
    let mut out: Vec<char> = Vec::new();
    out.push('[');
    proof {
        assert(out@ =~= seq!['['] + list_body(dv.take(0)));
    }
    let mut i: usize = 0;
    while i < items.len()
        invariant
            i <= items@.len(),
            dv == items.deep_view(),
            dv.len() == items@.len(),
            out@ == seq!['['] + list_body(dv.take(i as int)),
        decreases items@.len() - i,
    {
        if i > 0 {
            crate::chars::append_str(&mut out, ", ");
        }
        out.push('"');
        crate::chars::append_str(&mut out, items[i].as_str());
        out.push('"');
        proof {
            assert(dv[i as int] == items@[i as int]@);
            assert(dv.take(i + 1).drop_last() =~= dv.take(i as int));
            assert(dv.take(i + 1).last() == dv[i as int]);
            if i == 0 {
                assert(list_body(dv.take(1)) == quoted(dv.take(1)[0]));
                assert(out@ =~= seq!['['] + list_body(dv.take(i + 1)));
            } else {
                assert(list_body(dv.take(i + 1)) == list_body(dv.take(i as int)) + ", "@ + quoted(
                    dv[i as int],
                ));
                assert(out@ =~= seq!['['] + list_body(dv.take(i + 1)));
            }
        }
        i = i + 1;
    }
    out.push(']');
    proof {
        assert(dv.take(dv.len() as int) =~= dv);
        assert(out@ =~= list_fmt(dv));
    }
    crate::chars::string_from_chars(out.as_slice())
}

fn opt_list_x(o: &Option<Vec<String>>) -> (r: String)
    ensures
        r@ == opt_list(*o),
{
    match o {
        Some(v) => render_list(v),
        None => dash_x(),
    }
}

fn sigma_resolve_x(name: &[char], rule: &RuleMeta) -> (r: String)
    ensures
        r@ == sigma_resolve(name@, *rule),
{
    if crate::chars::chars_eq(name, crate::chars::str_chars("title").as_slice()) {
        rule.title.clone()
    } else if crate::chars::chars_eq(name, crate::chars::str_chars("id").as_slice()) {
        opt_or_dash_x(&rule.id)
    } else if crate::chars::chars_eq(name, crate::chars::str_chars("status").as_slice()) {
        opt_lower_x(&rule.status)
    } else if crate::chars::chars_eq(name, crate::chars::str_chars("author").as_slice()) {
        opt_or_dash_x(&rule.author)
    } else if crate::chars::chars_eq(name, crate::chars::str_chars("description").as_slice()) {
        opt_or_dash_x(&rule.description)
    } else if crate::chars::chars_eq(name, crate::chars::str_chars("references").as_slice()) {
        opt_list_x(&rule.references)
    } else if crate::chars::chars_eq(name, crate::chars::str_chars("date").as_slice()) {
        opt_or_dash_x(&rule.date)
    } else if crate::chars::chars_eq(name, crate::chars::str_chars("modified").as_slice()) {
        opt_or_dash_x(&rule.modified)
    } else if crate::chars::chars_eq(name, crate::chars::str_chars("tags").as_slice()) {
        opt_list_x(&rule.tags)
    } else if crate::chars::chars_eq(name, crate::chars::str_chars("falsepositives").as_slice()) {
        opt_list_x(&rule.falsepositives)
    } else if crate::chars::chars_eq(name, crate::chars::str_chars("level").as_slice()) {
        opt_lower_x(&rule.level)
    } else {
        dash_x()
    }
}

fn base_resolve_x(expr: &str, event: &EventRec, rule: &RuleMeta) -> (r: String)
    ensures
        r@ == base_resolve(expr@, event@, *rule),
{
    let ec = crate::chars::str_chars(expr);
    let sigma_prefix = crate::chars::str_chars("sigma.");
    if ec.len() > 0 && ec[0] == '.' {
        let key = crate::chars::subrange_vec(ec.as_slice(), 1, ec.len());
        proof {
            assert(key@ =~= expr@.skip(1));
        }
        let ks = crate::chars::string_from_chars(key.as_slice());
        match event.get(ks.as_str()) {
            Some(v) => {
                let et = crate::chars::str_chars("eventTime");
                if crate::chars::chars_eq(key.as_slice(), et.as_slice()) {
                    format_event_time(v.as_str())
                } else {
                    v
                }
            },
            None => dash_x(),
        }
    } else if crate::chars::has_prefix(ec.as_slice(), sigma_prefix.as_slice()) {
        let name = crate::chars::subrange_vec(ec.as_slice(), sigma_prefix.len(), ec.len());
        proof {
            assert(name@ =~= expr@.skip("sigma."@.len() as int));
        }
        sigma_resolve_x(name.as_slice(), rule)
    } else {
        dash_x()
    }
}

/// Resolves one extraction expression against a hit. A pure function of its
/// four inputs: resolving the same expression against the same event, rule
/// and geolocation outcome always yields the same string.
pub fn resolve(expr: &str, event: &EventRec, rule: &RuleMeta, geo: &GeoOutcome) -> (r: String)
    ensures
        r@ == resolve_spec(expr@, event@, *rule, *geo),
{
    match geo {
        GeoOutcome::Unresolved(ip) => ip.clone(),
        GeoOutcome::Resolved { asn, city, country } => {
            if crate::chars::str_eq(expr, "SrcASN") {
                asn.clone()
            } else if crate::chars::str_eq(expr, "SrcCity") {
                city.clone()
            } else if crate::chars::str_eq(expr, "SrcCountry") {
                country.clone()
            } else {
                base_resolve_x(expr, event, rule)
            }
        },
        _ => base_resolve_x(expr, event, rule),
    }
}

/// Resolving an expression is deterministic in the expression, event, rule
/// and geolocation state: two results of the same resolution are equal.
pub proof fn lemma_resolve_idempotent(
    expr: Seq<char>,
    ev: Seq<(Seq<char>, Seq<char>)>,
    rule: RuleMeta,
    geo: GeoOutcome,
    r1: Seq<char>,
    r2: Seq<char>,
)
    requires
        r1 == resolve_spec(expr, ev, rule, geo),
        r2 == resolve_spec(expr, ev, rule, geo),
    ensures
        r1 == r2,
{
}

} // verus!
