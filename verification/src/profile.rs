//! The field profile: ordered `(column name, extraction expression)` pairs
//! parsed from `Key: 'Value'` lines, with the synthetic geolocation columns
//! inserted after `SrcIP` when geolocation is enabled.

use vstd::prelude::*;
use crate::chars::{trim_quotes, trimmed};

verus! {

/// Index of the first occurrence of `c` in `s`, or -1.
pub open spec fn find_first(s: Seq<char>, c: char) -> int
    decreases s.len(),
{
    if s.len() == 0 {
        -1
    } else if s[0] == c {
        0
    } else {
        let r = find_first(s.drop_first(), c);
        if r == -1 {
            -1
        } else {
            r + 1
        }
    }
}

pub proof fn lemma_find_first_none(s: Seq<char>, c: char)
    requires
        forall|m: int| 0 <= m < s.len() ==> s[m] != c,
    ensures
        find_first(s, c) == -1,
    decreases s.len(),
{
    if s.len() > 0 {
        let t = s.drop_first();
        assert(forall|m: int| 0 <= m < t.len() ==> t[m] == s[m + 1]);
        lemma_find_first_none(t, c);
    }
}

pub proof fn lemma_find_first_at(s: Seq<char>, c: char, k: int)
    requires
        0 <= k < s.len(),
        s[k] == c,
        forall|m: int| 0 <= m < k ==> s[m] != c,
    ensures
        find_first(s, c) == k,
    decreases k,
{
    if k > 0 {
        let t = s.drop_first();
        assert(forall|m: int| 0 <= m < t.len() ==> t[m] == s[m + 1]);
        lemma_find_first_at(t, c, k - 1);
    }
}

/// One profile line parsed: the text left of the first colon, trimmed, and
/// the text right of it, trimmed and stripped of single quotes. Lines
/// without a colon parse to nothing and are skipped.
pub open spec fn parse_line_spec(line: Seq<char>) -> Option<(Seq<char>, Seq<char>)> {
    let k = find_first(line, ':');
    if k == -1 {
        None
    } else {
        Some((trimmed(line.take(k)), trim_quotes(trimmed(line.skip(k + 1)))))
    }
}

/// The three synthetic geolocation columns; name and expression are the same
/// sentinel string, answered specially by the extractor.
pub open spec fn geo_entries() -> Seq<(Seq<char>, Seq<char>)> {
    seq![("SrcASN"@, "SrcASN"@), ("SrcCity"@, "SrcCity"@), ("SrcCountry"@, "SrcCountry"@)]
}

/// What one parsed entry contributes to the profile.
pub open spec fn expand_entry(e: (Seq<char>, Seq<char>), geo: bool) -> Seq<(Seq<char>, Seq<char>)> {
    if geo && e.0 == "SrcIP"@ {
        seq![e] + geo_entries()
    } else {
        seq![e]
    }
}

/// The profile built from config lines, in file order.
pub open spec fn profile_from_lines(lines: Seq<Seq<char>>, geo: bool) -> Seq<
    (Seq<char>, Seq<char>),
>
    decreases lines.len(),
{
    if lines.len() == 0 {
        Seq::<(Seq<char>, Seq<char>)>::empty()
    } else {
        profile_from_lines(lines.drop_last(), geo) + (match parse_line_spec(lines.last()) {
            Some(e) => expand_entry(e, geo),
            None => Seq::<(Seq<char>, Seq<char>)>::empty(),
        })
    }
}

/// Parses one `Key: 'Value'` line.
pub fn parse_line(line: &str) -> (r: Option<(String, String)>)
    ensures
        match r {
            Some(e) => parse_line_spec(line@) == Some((e.0@, e.1@)),
            None => parse_line_spec(line@) is None,
        },
{
    let lc = crate::chars::str_chars(line);
    match crate::chars::find_char(lc.as_slice(), ':') {
        Some(k) => {
            proof {
                lemma_find_first_at(line@, ':', k as int);
            }
            let n = lc.len();
            let left = crate::chars::subrange_vec(lc.as_slice(), 0, k);
            let right = crate::chars::subrange_vec(lc.as_slice(), k + 1, n);
            proof {
                assert(left@ =~= line@.take(k as int));
                assert(right@ =~= line@.skip(k + 1));
            }
            let key = crate::chars::trim(left.as_slice());
            let val0 = crate::chars::trim(right.as_slice());
            let val = crate::chars::strip_quotes(val0.as_slice());
            Some(
                (
                    crate::chars::string_from_chars(key.as_slice()),
                    crate::chars::string_from_chars(val.as_slice()),
                ),
            )
        },
        None => {
            proof {
                lemma_find_first_none(line@, ':');
            }
            None
        },
    }
}

/// Builds the profile from the config file's lines. When `geo_enabled`
/// holds, each `SrcIP` entry is followed immediately by the three synthetic
/// geolocation columns; the relative order of all other entries is kept.
pub fn load_profile_from_lines(lines: &Vec<String>, geo_enabled: bool) -> (r: Vec<(String, String)>)
    ensures
        r.deep_view() == profile_from_lines(lines.deep_view(), geo_enabled),
{
    let ghost ldv = lines.deep_view();
    let mut r: Vec<(String, String)> = Vec::new();
    proof {
        assert(ldv.take(0) =~= Seq::<Seq<char>>::empty());
        assert(r.deep_view() =~= profile_from_lines(ldv.take(0), geo_enabled));
    }
    let mut i: usize = 0;
    while i < lines.len()
        invariant
            i <= lines@.len(),
            ldv == lines.deep_view(),
            ldv.len() == lines@.len(),
            r.deep_view() == profile_from_lines(ldv.take(i as int), geo_enabled),
        decreases lines@.len() - i,
    {
        let ghost pre = r.deep_view();
        proof {
            assert(ldv.take(i + 1).drop_last() =~= ldv.take(i as int));
            assert(ldv.take(i + 1).last() == ldv[i as int]);
            assert(ldv[i as int] == lines@[i as int]@);
        }
        match parse_line(lines[i].as_str()) {
            Some(entry) => {
                let is_src_ip = crate::chars::str_eq(entry.0.as_str(), "SrcIP");
                let ghost e = (entry.0@, entry.1@);
                r.push(entry);
                proof {
                    assert(r.deep_view() =~= pre.push(e));
                }
                if geo_enabled && is_src_ip {
                    r.push(
                        (
                            <String as vstd::string::StringExecFns>::from_str("SrcASN"),
                            <String as vstd::string::StringExecFns>::from_str("SrcASN"),
                        ),
                    );
                    r.push(
                        (
                            <String as vstd::string::StringExecFns>::from_str("SrcCity"),
                            <String as vstd::string::StringExecFns>::from_str("SrcCity"),
                        ),
                    );
                    r.push(
                        (
                            <String as vstd::string::StringExecFns>::from_str("SrcCountry"),
                            <String as vstd::string::StringExecFns>::from_str("SrcCountry"),
                        ),
                    );
                    proof {
                        assert(r.deep_view() =~= pre + expand_entry(e, geo_enabled));
                    }
                } else {
                    proof {
                        assert(r.deep_view() =~= pre + expand_entry(e, geo_enabled));
                    }
                }
            },
            None => {},
        }
        proof {
            assert(r.deep_view() =~= profile_from_lines(ldv.take(i + 1), geo_enabled));
        }
        i = i + 1;
    }
    proof {
        assert(ldv.take(ldv.len() as int) =~= ldv);
    }
    r
}

/// The geo-enabled contribution of each entry, applied across a whole
/// parsed profile.
pub open spec fn expand_all(entries: Seq<(Seq<char>, Seq<char>)>) -> Seq<(Seq<char>, Seq<char>)>
    decreases entries.len(),
{
    if entries.len() == 0 {
        Seq::<(Seq<char>, Seq<char>)>::empty()
    } else {
        expand_all(entries.drop_last()) + expand_entry(entries.last(), true)
    }
}

proof fn lemma_expand_all_concat(a: Seq<(Seq<char>, Seq<char>)>, b: Seq<(Seq<char>, Seq<char>)>)
    ensures
        expand_all(a + b) == expand_all(a) + expand_all(b),
    decreases b.len(),
{
    if b.len() == 0 {
        assert(a + b =~= a);
        assert(expand_all(a) + expand_all(b) =~= expand_all(a));
    } else {
        assert((a + b).drop_last() =~= a + b.drop_last());
        assert((a + b).last() == b.last());
        lemma_expand_all_concat(a, b.drop_last());
        assert(expand_all(a) + expand_all(b.drop_last()) + expand_entry(b.last(), true)
            =~= expand_all(a) + (expand_all(b.drop_last()) + expand_entry(b.last(), true)));
    }
}

/// With geolocation disabled a profile is exactly its parsed entries; with it
/// enabled, the same profile with the three synthetic entries `SrcASN`,
/// `SrcCity`, `SrcCountry` inserted, in that order, immediately after each
/// `SrcIP` entry, and nothing else changed.
pub proof fn lemma_geo_expansion(lines: Seq<Seq<char>>)
    ensures
        profile_from_lines(lines, true) == expand_all(profile_from_lines(lines, false)),
    decreases lines.len(),
{
    if lines.len() == 0 {
    } else {
        let l2 = lines.drop_last();
        lemma_geo_expansion(l2);
        match parse_line_spec(lines.last()) {
            Some(e) => {
                lemma_expand_all_concat(profile_from_lines(l2, false), seq![e]);
                assert(seq![e].drop_last() =~= Seq::<(Seq<char>, Seq<char>)>::empty());
                assert(seq![e].last() == e);
                assert(expand_all(seq![e]) == expand_all(Seq::<(Seq<char>, Seq<char>)>::empty())
                    + expand_entry(e, true));
                assert(Seq::<(Seq<char>, Seq<char>)>::empty() + expand_entry(e, true)
                    =~= expand_entry(e, true));
                assert(profile_from_lines(l2, false) + seq![e] =~= profile_from_lines(
                    lines,
                    false,
                ));
            },
            None => {
                assert(profile_from_lines(lines, false) =~= profile_from_lines(l2, false));
                assert(profile_from_lines(lines, true) =~= profile_from_lines(l2, true));
            },
        }
    }
}

} // verus!
