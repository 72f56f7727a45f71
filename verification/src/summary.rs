//! The running scan aggregate: once-per-event and once-per-hit updates, and
//! the invariant that events with hits never outnumber scanned events.

use vstd::prelude::*;
use crate::chars::trimmed;
use crate::profile::find_first;
use crate::severity::SeverityLevel;
use crate::timefmt::{MAX_EVENT_TS, MIN_EVENT_TS, date_of};

verus! {

/// Increments the count stored under `key`, first match wins; a missing key
/// is appended with count 1.
pub open spec fn bump(entries: Seq<(Seq<char>, u64)>, key: Seq<char>) -> Seq<(Seq<char>, u64)>
    decreases entries.len(),
{
    if entries.len() == 0 {
        seq![(key, 1u64)]
    } else if entries[0].0 == key {
        seq![(entries[0].0, ((entries[0].1 + 1) as u64))] + entries.drop_first()
    } else {
        seq![entries[0]] + bump(entries.drop_first(), key)
    }
}

proof fn lemma_bump_found(entries: Seq<(Seq<char>, u64)>, key: Seq<char>, i: int)
    requires
        0 <= i < entries.len(),
        entries[i].0 == key,
        forall|m: int| 0 <= m < i ==> entries[m].0 != key,
    ensures
        bump(entries, key) == entries.update(i, (entries[i].0, ((entries[i].1 + 1) as u64))),
    decreases i,
{
    if i == 0 {
        assert(bump(entries, key) =~= entries.update(
            0,
            (entries[0].0, ((entries[0].1 + 1) as u64)),
        ));
    } else {
        let t = entries.drop_first();
        assert(forall|m: int| 0 <= m < t.len() ==> t[m] == entries[m + 1]);
        lemma_bump_found(t, key, i - 1);
        assert(seq![entries[0]] + t.update(i - 1, (t[i - 1].0, ((t[i - 1].1 + 1) as u64)))
            =~= entries.update(i, (entries[i].0, ((entries[i].1 + 1) as u64))));
    }
}

proof fn lemma_bump_missing(entries: Seq<(Seq<char>, u64)>, key: Seq<char>)
    requires
        forall|m: int| 0 <= m < entries.len() ==> entries[m].0 != key,
    ensures
        bump(entries, key) == entries.push((key, 1u64)),
    decreases entries.len(),
{
    if entries.len() == 0 {
        assert(bump(entries, key) =~= entries.push((key, 1u64)));
    } else {
        let t = entries.drop_first();
        assert(forall|m: int| 0 <= m < t.len() ==> t[m] == entries[m + 1]);
        lemma_bump_missing(t, key);
        assert(seq![entries[0]] + t.push((key, 1u64)) =~= entries.push((key, 1u64)));
    }
}

/// All stored counts at most `bound`.
pub open spec fn counts_bounded(entries: Seq<(Seq<char>, u64)>, bound: int) -> bool {
    forall|m: int| 0 <= m < entries.len() ==> entries[m].1 <= bound
}

/// Every stored count at least 1: keys appear only once something was
/// counted under them.
pub open spec fn counts_positive(entries: Seq<(Seq<char>, u64)>) -> bool {
    forall|m: int| 0 <= m < entries.len() ==> entries[m].1 >= 1
}

/// Sum of the stored counts.
pub open spec fn sum_counts(entries: Seq<(Seq<char>, u64)>) -> int
    decreases entries.len(),
{
    if entries.len() == 0 {
        0
    } else {
        sum_counts(entries.drop_last()) + entries.last().1
    }
}

proof fn lemma_sum_concat(a: Seq<(Seq<char>, u64)>, b: Seq<(Seq<char>, u64)>)
    ensures
        sum_counts(a + b) == sum_counts(a) + sum_counts(b),
    decreases b.len(),
{
    if b.len() == 0 {
        assert(a + b =~= a);
    } else {
        assert((a + b).drop_last() =~= a + b.drop_last());
        assert((a + b).last() == b.last());
        lemma_sum_concat(a, b.drop_last());
    }
}

proof fn lemma_bump_sum(entries: Seq<(Seq<char>, u64)>, key: Seq<char>, bound: int)
    requires
        counts_bounded(entries, bound),
        bound < u64::MAX,
    ensures
        sum_counts(bump(entries, key)) == sum_counts(entries) + 1,
    decreases entries.len(),
{
    if entries.len() == 0 {
        assert(bump(entries, key).drop_last() =~= Seq::<(Seq<char>, u64)>::empty());
        assert(bump(entries, key).last() == (key, 1u64));
        assert(sum_counts(Seq::<(Seq<char>, u64)>::empty()) == 0);
        assert(sum_counts(bump(entries, key)) == 1);
    } else {
        let t = entries.drop_first();
        assert(forall|m: int| 0 <= m < t.len() ==> t[m] == entries[m + 1]);
        assert(entries =~= seq![entries[0]] + t);
        lemma_sum_concat(seq![entries[0]], t);
        assert(sum_counts(Seq::<(Seq<char>, u64)>::empty()) == 0);
        if entries[0].0 == key {
            let x = (entries[0].0, ((entries[0].1 + 1) as u64));
            lemma_sum_concat(seq![x], t);
            assert(seq![x].drop_last() =~= Seq::<(Seq<char>, u64)>::empty());
            assert(seq![entries[0]].drop_last() =~= Seq::<(Seq<char>, u64)>::empty());
            assert(seq![x].last() == x);
            assert(seq![entries[0]].last() == entries[0]);
            assert(sum_counts(seq![x]) == x.1);
            assert(sum_counts(seq![entries[0]]) == entries[0].1);
            assert(bump(entries, key) == seq![x] + t);
            assert(sum_counts(bump(entries, key)) == x.1 + sum_counts(t));
            assert(sum_counts(entries) == entries[0].1 + sum_counts(t));
        } else {
            lemma_bump_sum(t, key, bound);
            lemma_sum_concat(seq![entries[0]], bump(t, key));
            assert(seq![entries[0]].drop_last() =~= Seq::<(Seq<char>, u64)>::empty());
            assert(seq![entries[0]].last() == entries[0]);
            assert(sum_counts(seq![entries[0]]) == entries[0].1);
            assert(bump(entries, key) == seq![entries[0]] + bump(t, key));
            assert(sum_counts(bump(entries, key)) == entries[0].1 + sum_counts(bump(t, key)));
            assert(sum_counts(entries) == entries[0].1 + sum_counts(t));
        }
    }
}

proof fn lemma_bump_positive(entries: Seq<(Seq<char>, u64)>, key: Seq<char>, bound: int)
    requires
        counts_positive(entries),
        counts_bounded(entries, bound),
        bound < u64::MAX,
    ensures
        counts_positive(bump(entries, key)),
    decreases entries.len(),
{
    if entries.len() == 0 {
        assert(bump(entries, key)[0].1 == 1);
    } else if entries[0].0 == key {
        let b = bump(entries, key);
        assert forall|m: int| 0 <= m < b.len() implies b[m].1 >= 1 by {
            if m > 0 {
                assert(b[m] == entries[m]);
            }
        }
    } else {
        let t = entries.drop_first();
        assert(forall|m: int| 0 <= m < t.len() ==> t[m] == entries[m + 1]);
        lemma_bump_positive(t, key, bound);
        let b = bump(entries, key);
        assert forall|m: int| 0 <= m < b.len() implies b[m].1 >= 1 by {
            if m > 0 {
                assert(b[m] == bump(t, key)[m - 1]);
            }
        }
    }
}

/// With every count at least 1, there are no more keys than counted hits.
pub proof fn lemma_len_le_sum(entries: Seq<(Seq<char>, u64)>)
    requires
        counts_positive(entries),
    ensures
        entries.len() <= sum_counts(entries),
        sum_counts(entries) >= 0,
    decreases entries.len(),
{
    if entries.len() > 0 {
        let t = entries.drop_last();
        assert(forall|m: int| 0 <= m < t.len() ==> t[m] == entries[m]);
        lemma_len_le_sum(t);
    }
}

/// Increments the count stored under `key` in place.
fn bump_entry(v: &mut Vec<(String, u64)>, key: &String, Ghost(bound): Ghost<int>)
    requires
        counts_bounded(old(v).deep_view(), bound),
        bound < u64::MAX,
    ensures
        final(v).deep_view() == bump(old(v).deep_view(), key@),
{
    let ghost dv = v.deep_view();
    let n = v.len();
    proof {
        assert(dv.len() == v@.len());
    }
    let mut i: usize = 0;
    while i < n
        invariant
            i <= n,
            n == v@.len(),
            dv == v.deep_view(),
            dv == old(v).deep_view(),
            dv.len() == n,
            counts_bounded(dv, bound),
            bound < u64::MAX,
            forall|m: int| 0 <= m < i ==> dv[m].0 != key@,
        decreases n - i,
    {
        proof {
            assert(dv[i as int] == (v@[i as int].0@, v@[i as int].1));
        }
        if crate::chars::str_eq(v[i].0.as_str(), key.as_str()) {
            let c = v[i].1;
            v[i].1 = c + 1;
            proof {
                lemma_bump_found(dv, key@, i as int);
                assert(v.deep_view() =~= dv.update(
                    i as int,
                    (dv[i as int].0, ((dv[i as int].1 + 1) as u64)),
                ));
            }
            return;
        }
        i = i + 1;
    }
    v.push((key.clone(), 1));
    proof {
        lemma_bump_missing(dv, key@);
        assert(v.deep_view() =~= dv.push((key@, 1u64)));
    }
}

/// A non-empty trimmed name, or nothing.
pub open spec fn maybe_name(t: Seq<char>) -> Seq<Seq<char>> {
    if t.len() == 0 {
        Seq::<Seq<char>>::empty()
    } else {
        seq![t]
    }
}

/// Comma-separated author credits: each segment trimmed, empty segments
/// dropped.
pub open spec fn split_authors(s: Seq<char>) -> Seq<Seq<char>>
    decreases s.len(),
{
    let k = find_first(s, ',');
    if 0 <= k && k < s.len() {
        maybe_name(trimmed(s.take(k))) + split_authors(s.skip(k + 1))
    } else {
        maybe_name(trimmed(s))
    }
}

/// Splits an author field on commas, trimming each credit.
pub fn split_author_names(v: &[char]) -> (r: Vec<String>)
    ensures
        r.deep_view() == split_authors(v@),
    decreases v@.len(),
{
    match crate::chars::find_char(v, ',') {
        Some(k) => {
            proof {
                crate::profile::lemma_find_first_at(v@, ',', k as int);
            }
            let n = v.len();
            let head = crate::chars::subrange_vec(v, 0, k);
            let rest = crate::chars::subrange_vec(v, k + 1, n);
            proof {
                assert(head@ =~= v@.take(k as int));
                assert(rest@ =~= v@.skip(k + 1));
            }
            let name = crate::chars::trim(head.as_slice());
            let mut out: Vec<String> = Vec::new();
            if name.len() > 0 {
                out.push(crate::chars::string_from_chars(name.as_slice()));
            }
            let mut tail = split_author_names(rest.as_slice());
            let ghost outdv = out.deep_view();
            let ghost taildv = tail.deep_view();
            out.append(&mut tail);
            proof {
                assert(out.deep_view() =~= outdv + taildv);
                assert(outdv =~= maybe_name(trimmed(v@.take(k as int))));
                assert(out.deep_view() =~= split_authors(v@));
            }
            out
        },
        None => {
            proof {
                crate::profile::lemma_find_first_none(v@, ',');
            }
            let name = crate::chars::trim(v);
            let mut out: Vec<String> = Vec::new();
            if name.len() > 0 {
                out.push(crate::chars::string_from_chars(name.as_slice()));
            }
            proof {
                assert(out.deep_view() =~= maybe_name(trimmed(v@)));
            }
            out
        },
    }
}

/// Membership in a sequence of strings.
pub open spec fn seq_contains(xs: Seq<Seq<char>>, x: Seq<char>) -> bool {
    exists|i: int| 0 <= i < xs.len() && xs[i] == x
}

fn contains_str(v: &Vec<String>, t: &String) -> (r: bool)
    ensures
        r == seq_contains(v.deep_view(), t@),
{
    let ghost dv = v.deep_view();
    let n = v.len();
    let mut i: usize = 0;
    while i < n
        invariant
            i <= n,
            n == v@.len(),
            dv == v.deep_view(),
            dv.len() == n,
            forall|m: int| 0 <= m < i ==> dv[m] != t@,
        decreases n - i,
    {
        proof {
            assert(dv[i as int] == v@[i as int]@);
        }
        if crate::chars::str_eq(v[i].as_str(), t.as_str()) {
            return true;
        }
        i = i + 1;
    }
    false
}

/// Credits `title` to `author`, deduplicated; unknown authors are appended.
pub open spec fn add_title(
    sets: Seq<(Seq<char>, Seq<Seq<char>>)>,
    author: Seq<char>,
    title: Seq<char>,
) -> Seq<(Seq<char>, Seq<Seq<char>>)>
    decreases sets.len(),
{
    if sets.len() == 0 {
        seq![(author, seq![title])]
    } else if sets[0].0 == author {
        seq![
            (
                sets[0].0,
                if seq_contains(sets[0].1, title) {
                    sets[0].1
                } else {
                    sets[0].1.push(title)
                },
            ),
        ] + sets.drop_first()
    } else {
        seq![sets[0]] + add_title(sets.drop_first(), author, title)
    }
}

proof fn lemma_add_title_found(
    sets: Seq<(Seq<char>, Seq<Seq<char>>)>,
    author: Seq<char>,
    title: Seq<char>,
    i: int,
)
    requires
        0 <= i < sets.len(),
        sets[i].0 == author,
        forall|m: int| 0 <= m < i ==> sets[m].0 != author,
    ensures
        add_title(sets, author, title) == sets.update(
            i,
            (
                sets[i].0,
                if seq_contains(sets[i].1, title) {
                    sets[i].1
                } else {
                    sets[i].1.push(title)
                },
            ),
        ),
    decreases i,
{
    let upd = (
        sets[i].0,
        if seq_contains(sets[i].1, title) {
            sets[i].1
        } else {
            sets[i].1.push(title)
        },
    );
    if i == 0 {
        assert(add_title(sets, author, title) =~= sets.update(0, upd));
    } else {
        let t = sets.drop_first();
        assert(forall|m: int| 0 <= m < t.len() ==> t[m] == sets[m + 1]);
        lemma_add_title_found(t, author, title, i - 1);
        assert(seq![sets[0]] + t.update(
            i - 1,
            (
                t[i - 1].0,
                if seq_contains(t[i - 1].1, title) {
                    t[i - 1].1
                } else {
                    t[i - 1].1.push(title)
                },
            ),
        ) =~= sets.update(i, upd));
    }
}

proof fn lemma_add_title_missing(
    sets: Seq<(Seq<char>, Seq<Seq<char>>)>,
    author: Seq<char>,
    title: Seq<char>,
)
    requires
        forall|m: int| 0 <= m < sets.len() ==> sets[m].0 != author,
    ensures
        add_title(sets, author, title) == sets.push((author, seq![title])),
    decreases sets.len(),
{
    if sets.len() == 0 {
        assert(add_title(sets, author, title) =~= sets.push((author, seq![title])));
    } else {
        let t = sets.drop_first();
        assert(forall|m: int| 0 <= m < t.len() ==> t[m] == sets[m + 1]);
        lemma_add_title_missing(t, author, title);
        assert(seq![sets[0]] + t.push((author, seq![title])) =~= sets.push((author, seq![title])));
    }
}

fn add_title_entry(sets: &mut Vec<(String, Vec<String>)>, author: &String, title: &String)
    ensures
        final(sets).deep_view() == add_title(old(sets).deep_view(), author@, title@),
{
    let ghost dv = sets.deep_view();
    let n = sets.len();
    proof {
        assert(dv.len() == sets@.len());
    }
    let mut i: usize = 0;
    while i < n
        invariant
            i <= n,
            n == sets@.len(),
            dv == sets.deep_view(),
            dv == old(sets).deep_view(),
            dv.len() == n,
            forall|m: int| 0 <= m < i ==> dv[m].0 != author@,
        decreases n - i,
    {
        proof {
            assert(dv[i as int] == (sets@[i as int].0@, sets@[i as int].1.deep_view()));
        }
        if crate::chars::str_eq(sets[i].0.as_str(), author.as_str()) {
            let has = contains_str(&sets[i].1, title);
            if !(has) {
                let ghost inner = sets@[i as int].1.deep_view();
                sets[i].1.push(title.clone());
                proof {
                    assert(sets@[i as int].1.deep_view() =~= inner.push(title@));
                }
            }
            proof {
                lemma_add_title_found(dv, author@, title@, i as int);
                assert(sets.deep_view() =~= add_title(dv, author@, title@));
            }
            return;
        }
        i = i + 1;
    }
    let mut tv: Vec<String> = Vec::new();
    tv.push(title.clone());
    proof {
        assert(tv.deep_view() =~= seq![title@]);
    }
    sets.push((author.clone(), tv));
    proof {
        lemma_add_title_missing(dv, author@, title@);
        assert(sets.deep_view() =~= dv.push((author@, seq![title@])));
    }
}

/// Credits a title to each of several authors in turn.
pub open spec fn credit_authors(
    sets: Seq<(Seq<char>, Seq<Seq<char>>)>,
    authors: Seq<Seq<char>>,
    title: Seq<char>,
) -> Seq<(Seq<char>, Seq<Seq<char>>)>
    decreases authors.len(),
{
    if authors.len() == 0 {
        sets
    } else {
        credit_authors(add_title(sets, authors[0], title), authors.drop_first(), title)
    }
}

/// Per-severity count tables (rule titles, or dates).
pub struct LevelEntries {
    pub critical: Vec<(String, u64)>,
    pub high: Vec<(String, u64)>,
    pub medium: Vec<(String, u64)>,
    pub low: Vec<(String, u64)>,
    pub informational: Vec<(String, u64)>,
}

#[verifier::ext_equal]
pub struct LevelEntriesView {
    pub critical: Seq<(Seq<char>, u64)>,
    pub high: Seq<(Seq<char>, u64)>,
    pub medium: Seq<(Seq<char>, u64)>,
    pub low: Seq<(Seq<char>, u64)>,
    pub informational: Seq<(Seq<char>, u64)>,
}

impl View for LevelEntries {
    type V = LevelEntriesView;

    open spec fn view(&self) -> LevelEntriesView {
        LevelEntriesView {
            critical: self.critical.deep_view(),
            high: self.high.deep_view(),
            medium: self.medium.deep_view(),
            low: self.low.deep_view(),
            informational: self.informational.deep_view(),
        }
    }
}

/// The table one severity owns.
pub open spec fn entries_of(v: LevelEntriesView, level: SeverityLevel) -> Seq<(Seq<char>, u64)> {
    match level {
        SeverityLevel::Critical => v.critical,
        SeverityLevel::High => v.high,
        SeverityLevel::Medium => v.medium,
        SeverityLevel::Low => v.low,
        SeverityLevel::Informational => v.informational,
    }
}

/// One severity's table with `key` bumped.
pub open spec fn bump_level(v: LevelEntriesView, level: SeverityLevel, key: Seq<char>) -> LevelEntriesView {
    match level {
        SeverityLevel::Critical => LevelEntriesView { critical: bump(v.critical, key), ..v },
        SeverityLevel::High => LevelEntriesView { high: bump(v.high, key), ..v },
        SeverityLevel::Medium => LevelEntriesView { medium: bump(v.medium, key), ..v },
        SeverityLevel::Low => LevelEntriesView { low: bump(v.low, key), ..v },
        SeverityLevel::Informational => LevelEntriesView {
            informational: bump(v.informational, key),
            ..v
        },
    }
}

pub open spec fn all_counts_bounded(v: LevelEntriesView, bound: int) -> bool {
    counts_bounded(v.critical, bound) && counts_bounded(v.high, bound) && counts_bounded(
        v.medium,
        bound,
    ) && counts_bounded(v.low, bound) && counts_bounded(v.informational, bound)
}

pub open spec fn all_counts_positive(v: LevelEntriesView) -> bool {
    counts_positive(v.critical) && counts_positive(v.high) && counts_positive(v.medium)
        && counts_positive(v.low) && counts_positive(v.informational)
}

pub open spec fn all_sums_bounded(v: LevelEntriesView, bound: int) -> bool {
    sum_counts(v.critical) <= bound && sum_counts(v.high) <= bound && sum_counts(v.medium) <= bound
        && sum_counts(v.low) <= bound && sum_counts(v.informational) <= bound
}

impl LevelEntries {
    pub fn new() -> (r: LevelEntries)
        ensures
            r@ == empty_levels(),
    {
        let r = LevelEntries {
            critical: Vec::new(),
            high: Vec::new(),
            medium: Vec::new(),
            low: Vec::new(),
            informational: Vec::new(),
        };
        proof {
            assert(r@ =~= empty_levels());
        }
        r
    }

    /// The stored `(key, count)` table for one severity, in insertion order.
    pub fn entries(&self, level: SeverityLevel) -> (r: &Vec<(String, u64)>)
        ensures
            r.deep_view() == entries_of(self@, level),
    {
        match level {
            SeverityLevel::Critical => &self.critical,
            SeverityLevel::High => &self.high,
            SeverityLevel::Medium => &self.medium,
            SeverityLevel::Low => &self.low,
            SeverityLevel::Informational => &self.informational,
        }
    }

    fn bump_in(&mut self, level: SeverityLevel, key: &String, Ghost(bound): Ghost<int>)
        requires
            all_counts_bounded(old(self)@, bound),
            bound < u64::MAX,
        ensures
            final(self)@ == bump_level(old(self)@, level, key@),
    {
        match level {
            SeverityLevel::Critical => bump_entry(&mut self.critical, key, Ghost(bound)),
            SeverityLevel::High => bump_entry(&mut self.high, key, Ghost(bound)),
            SeverityLevel::Medium => bump_entry(&mut self.medium, key, Ghost(bound)),
            SeverityLevel::Low => bump_entry(&mut self.low, key, Ghost(bound)),
            SeverityLevel::Informational => bump_entry(&mut self.informational, key, Ghost(bound)),
        }
        proof {
            assert(self@ =~= bump_level(old(self)@, level, key@));
        }
    }
}

pub open spec fn empty_levels() -> LevelEntriesView {
    LevelEntriesView {
        critical: Seq::empty(),
        high: Seq::empty(),
        medium: Seq::empty(),
        low: Seq::empty(),
        informational: Seq::empty(),
    }
}

/// The whole running aggregate of one scan.
pub struct DetectionSummary {
    pub total_events: u64,
    pub event_with_hits: u64,
    pub current_event_hits: u64,
    pub level_hits: LevelEntries,
    pub date_hits: LevelEntries,
    pub author_titles: Vec<(String, Vec<String>)>,
    pub timestamps: Vec<i64>,
    pub first_event_time: Option<i64>,
    pub last_event_time: Option<i64>,
}

#[verifier::ext_equal]
pub struct SummaryView {
    pub total_events: u64,
    pub event_with_hits: u64,
    pub current_event_hits: u64,
    pub level_hits: LevelEntriesView,
    pub date_hits: LevelEntriesView,
    pub author_titles: Seq<(Seq<char>, Seq<Seq<char>>)>,
    pub timestamps: Seq<i64>,
    pub first_event_time: Option<i64>,
    pub last_event_time: Option<i64>,
}

impl View for DetectionSummary {
    type V = SummaryView;

    open spec fn view(&self) -> SummaryView {
        SummaryView {
            total_events: self.total_events,
            event_with_hits: self.event_with_hits,
            current_event_hits: self.current_event_hits,
            level_hits: self.level_hits@,
            date_hits: self.date_hits@,
            author_titles: self.author_titles.deep_view(),
            timestamps: self.timestamps.deep_view(),
            first_event_time: self.first_event_time,
            last_event_time: self.last_event_time,
        }
    }
}

pub open spec fn empty_summary() -> SummaryView {
    SummaryView {
        total_events: 0,
        event_with_hits: 0,
        current_event_hits: 0,
        level_hits: empty_levels(),
        date_hits: empty_levels(),
        author_titles: Seq::empty(),
        timestamps: Seq::empty(),
        first_event_time: None,
        last_event_time: None,
    }
}

/// Everything the renderer and the update operations may assume of a
/// summary: events with hits never outnumber events, counts never outnumber
/// recorded hits, and every timestamp lies in the supported calendar range.
pub open spec fn wf_summary(s: SummaryView) -> bool {
    &&& s.event_with_hits <= s.total_events
    &&& s.current_event_hits <= s.timestamps.len()
    &&& s.timestamps.len() <= u64::MAX
    &&& all_counts_bounded(s.level_hits, s.timestamps.len() as int)
    &&& all_counts_bounded(s.date_hits, s.timestamps.len() as int)
    &&& all_counts_positive(s.level_hits)
    &&& all_counts_positive(s.date_hits)
    &&& all_sums_bounded(s.level_hits, s.timestamps.len() as int)
    &&& all_sums_bounded(s.date_hits, s.timestamps.len() as int)
    &&& (forall|i: int|
        0 <= i < s.timestamps.len() ==> MIN_EVENT_TS <= #[trigger] s.timestamps[i] <= MAX_EVENT_TS)
    &&& (s.first_event_time matches Some(t) ==> MIN_EVENT_TS <= t <= MAX_EVENT_TS)
    &&& (s.last_event_time matches Some(t) ==> MIN_EVENT_TS <= t <= MAX_EVENT_TS)
}

/// The state after one more scanned event is recorded.
pub open spec fn event_step(s: SummaryView) -> SummaryView {
    SummaryView { total_events: ((s.total_events + 1) as u64), current_event_hits: 0, ..s }
}

/// The state after one `(event, matching rule)` hit is recorded.
pub open spec fn hit_step(
    s: SummaryView,
    ts: i64,
    level: SeverityLevel,
    title: Seq<char>,
    author: Seq<char>,
) -> SummaryView {
    SummaryView {
        total_events: s.total_events,
        event_with_hits: if s.current_event_hits == 0 {
            ((s.event_with_hits + 1) as u64)
        } else {
            s.event_with_hits
        },
        current_event_hits: ((s.current_event_hits + 1) as u64),
        level_hits: bump_level(s.level_hits, level, title),
        date_hits: bump_level(s.date_hits, level, date_of(ts as int)),
        author_titles: credit_authors(s.author_titles, split_authors(author), title),
        timestamps: s.timestamps.push(ts),
        first_event_time: match s.first_event_time {
            Some(f) => if ts < f {
                Some(ts)
            } else {
                Some(f)
            },
            None => Some(ts),
        },
        last_event_time: match s.last_event_time {
            Some(l) => if ts > l {
                Some(ts)
            } else {
                Some(l)
            },
            None => Some(ts),
        },
    }
}

impl DetectionSummary {
    /// The empty aggregate a scan starts from.
    pub fn new() -> (r: DetectionSummary)
        ensures
            r@ == empty_summary(),
            wf_summary(r@),
    {
        let r = DetectionSummary {
            total_events: 0,
            event_with_hits: 0,
            current_event_hits: 0,
            level_hits: LevelEntries::new(),
            date_hits: LevelEntries::new(),
            author_titles: Vec::new(),
            timestamps: Vec::new(),
            first_event_time: None,
            last_event_time: None,
        };
        proof {
            assert(r@ =~= empty_summary());
        }
        r
    }

    /// Called once per scanned event, hit or not.
    pub fn record_event(&mut self)
        requires
            old(self).total_events < u64::MAX,
        ensures
            final(self)@ == event_step(old(self)@),
            wf_summary(old(self)@) ==> wf_summary(final(self)@),
    {
        self.total_events = self.total_events + 1;
        self.current_event_hits = 0;
        proof {
            assert(self@ =~= event_step(old(self)@));
        }
    }

    /// Called once per `(event, matching rule)` pair. The first hit of each
    /// event — and only the first — counts the event as one with hits; every
    /// hit updates the severity, date, author and timestamp records.
    pub fn record_hit(
        &mut self,
        event_time: i64,
        level: SeverityLevel,
        rule_title: &String,
        author: &String,
    )
        requires
            wf_summary(old(self)@),
            old(self)@.timestamps.len() < u64::MAX,
            MIN_EVENT_TS <= event_time <= MAX_EVENT_TS,
            old(self)@.current_event_hits > 0 || old(self)@.event_with_hits < old(
                self,
            )@.total_events,
        ensures
            final(self)@ == hit_step(old(self)@, event_time, level, rule_title@, author@),
            wf_summary(final(self)@),
    {
        let ghost pre = self@;
        if self.current_event_hits == 0 {
            self.event_with_hits = self.event_with_hits + 1;
        }
        self.current_event_hits = self.current_event_hits + 1;
        let ghost bound = pre.timestamps.len() as int;
        self.level_hits.bump_in(level, rule_title, Ghost(bound));
        let date = crate::timefmt::format_date(event_time);
        self.date_hits.bump_in(level, &date, Ghost(bound));
        let authors = split_author_names(crate::chars::str_chars(author.as_str()).as_slice());
        let ghost adv = authors.deep_view();
        let ghost mid = self@;
        proof {
            assert(adv.take(0) =~= Seq::<Seq<char>>::empty());
        }
        let mut j: usize = 0;
        while j < authors.len()
            invariant
                j <= authors@.len(),
                adv == authors.deep_view(),
                adv.len() == authors@.len(),
                mid.author_titles == pre.author_titles,
                self@ == (SummaryView {
                    author_titles: credit_authors(pre.author_titles, adv.take(j as int), rule_title@),
                    ..mid
                }),
            decreases authors@.len() - j,
        {
            proof {
                assert(adv[j as int] == authors@[j as int]@);
            }
            add_title_entry(&mut self.author_titles, &authors[j], rule_title);
            proof {
                lemma_credit_step(pre.author_titles, adv, rule_title@, j as int);
                assert(self@ =~= (SummaryView {
                    author_titles: credit_authors(pre.author_titles, adv.take(j + 1), rule_title@),
                    ..mid
                }));
            }
            j = j + 1;
        }
        proof {
            assert(adv.take(adv.len() as int) =~= adv);
        }
        self.timestamps.push(event_time);
        self.first_event_time = match self.first_event_time {
            Some(f) => if event_time < f {
                Some(event_time)
            } else {
                Some(f)
            },
            None => Some(event_time),
        };
        self.last_event_time = match self.last_event_time {
            Some(l) => if event_time > l {
                Some(event_time)
            } else {
                Some(l)
            },
            None => Some(event_time),
        };
        proof {
            assert(self@.timestamps =~= pre.timestamps.push(event_time));
            assert(self@ =~= hit_step(pre, event_time, level, rule_title@, author@));
            lemma_bump_level_bound(pre.level_hits, level, rule_title@, bound);
            lemma_bump_level_bound(pre.date_hits, level, date_of(event_time as int), bound);
        }
    }
}

proof fn lemma_credit_step(
    sets: Seq<(Seq<char>, Seq<Seq<char>>)>,
    authors: Seq<Seq<char>>,
    title: Seq<char>,
    j: int,
)
    requires
        0 <= j < authors.len(),
    ensures
        add_title(credit_authors(sets, authors.take(j), title), authors[j], title)
            == credit_authors(sets, authors.take(j + 1), title),
    decreases j,
{
    if j == 0 {
        assert(authors.take(1).drop_first() =~= Seq::<Seq<char>>::empty());
        assert(authors.take(0) =~= Seq::<Seq<char>>::empty());
        assert(credit_authors(sets, authors.take(0), title) == sets);
        assert(authors.take(1)[0] == authors[0]);
        assert(credit_authors(sets, authors.take(1), title) == credit_authors(
            add_title(sets, authors[0], title),
            authors.take(1).drop_first(),
            title,
        ));
    } else {
        let s2 = add_title(sets, authors[0], title);
        let a2 = authors.drop_first();
        assert(authors.take(j + 1)[0] == authors[0]);
        assert(authors.take(j + 1).drop_first() =~= a2.take(j));
        assert(authors.take(j).drop_first() =~= a2.take(j - 1));
        assert(a2[j - 1] == authors[j]);
        lemma_credit_step(s2, a2, title, j - 1);
        assert(credit_authors(sets, authors.take(j), title) == credit_authors(
            s2,
            a2.take(j - 1),
            title,
        ));
        assert(credit_authors(sets, authors.take(j + 1), title) == credit_authors(
            s2,
            a2.take(j),
            title,
        ));
    }
}

proof fn lemma_bump_bound(entries: Seq<(Seq<char>, u64)>, key: Seq<char>, bound: int)
    requires
        counts_bounded(entries, bound),
        0 <= bound < u64::MAX,
    ensures
        counts_bounded(bump(entries, key), bound + 1),
    decreases entries.len(),
{
    if entries.len() == 0 {
        assert(bump(entries, key)[0].1 == 1);
    } else if entries[0].0 == key {
        let b = bump(entries, key);
        assert(entries[0].1 <= bound);
        assert forall|m: int| 0 <= m < b.len() implies b[m].1 <= bound + 1 by {
            if m > 0 {
                assert(b[m] == entries[m]);
            }
        }
    } else {
        let t = entries.drop_first();
        assert(forall|m: int| 0 <= m < t.len() ==> t[m] == entries[m + 1]);
        lemma_bump_bound(t, key, bound);
        assert(forall|m: int|
            0 <= m < bump(entries, key).len() ==> bump(entries, key)[m].1 <= bound + 1);
    }
}

proof fn lemma_bump_level_bound(v: LevelEntriesView, level: SeverityLevel, key: Seq<char>, bound: int)
    requires
        all_counts_bounded(v, bound),
        all_counts_positive(v),
        all_sums_bounded(v, bound),
        0 <= bound < u64::MAX,
    ensures
        all_counts_bounded(bump_level(v, level, key), bound + 1),
        all_counts_positive(bump_level(v, level, key)),
        all_sums_bounded(bump_level(v, level, key), bound + 1),
{
    match level {
        SeverityLevel::Critical => {
            lemma_bump_bound(v.critical, key, bound);
            lemma_bump_positive(v.critical, key, bound);
            lemma_bump_sum(v.critical, key, bound);
        },
        SeverityLevel::High => {
            lemma_bump_bound(v.high, key, bound);
            lemma_bump_positive(v.high, key, bound);
            lemma_bump_sum(v.high, key, bound);
        },
        SeverityLevel::Medium => {
            lemma_bump_bound(v.medium, key, bound);
            lemma_bump_positive(v.medium, key, bound);
            lemma_bump_sum(v.medium, key, bound);
        },
        SeverityLevel::Low => {
            lemma_bump_bound(v.low, key, bound);
            lemma_bump_positive(v.low, key, bound);
            lemma_bump_sum(v.low, key, bound);
        },
        SeverityLevel::Informational => {
            lemma_bump_bound(v.informational, key, bound);
            lemma_bump_positive(v.informational, key, bound);
            lemma_bump_sum(v.informational, key, bound);
        },
    }
}

/// One scanned event with the hits its matching rules produced.
pub open spec fn apply_hits(
    s: SummaryView,
    hits: Seq<(i64, SeverityLevel, Seq<char>, Seq<char>)>,
) -> SummaryView
    decreases hits.len(),
{
    if hits.len() == 0 {
        s
    } else {
        apply_hits(hit_step(s, hits[0].0, hits[0].1, hits[0].2, hits[0].3), hits.drop_first())
    }
}

proof fn lemma_hits_after_first(s: SummaryView, hits: Seq<(i64, SeverityLevel, Seq<char>, Seq<char>)>)
    requires
        s.current_event_hits > 0,
        s.current_event_hits <= s.timestamps.len(),
        s.timestamps.len() + hits.len() <= u64::MAX,
    ensures
        apply_hits(s, hits).event_with_hits == s.event_with_hits,
        apply_hits(s, hits).total_events == s.total_events,
    decreases hits.len(),
{
    if hits.len() > 0 {
        let s2 = hit_step(s, hits[0].0, hits[0].1, hits[0].2, hits[0].3);
        lemma_hits_after_first(s2, hits.drop_first());
    }
}

/// Counting distinct events: recording one event and then the hits of each
/// of its matching rules raises `total_events` by exactly 1 and
/// `event_with_hits` by exactly 1 if the event had any hit, else by 0 — so
/// `event_with_hits` counts events, not rule matches, and never exceeds
/// `total_events`.
pub proof fn lemma_event_hit_counting(
    s: SummaryView,
    hits: Seq<(i64, SeverityLevel, Seq<char>, Seq<char>)>,
)
    requires
        wf_summary(s),
        s.total_events < u64::MAX,
        s.timestamps.len() + hits.len() <= u64::MAX,
    ensures
        apply_hits(event_step(s), hits).total_events == s.total_events + 1,
        apply_hits(event_step(s), hits).event_with_hits == s.event_with_hits + (if hits.len() > 0 {
            1int
        } else {
            0int
        }),
        apply_hits(event_step(s), hits).event_with_hits <= apply_hits(
            event_step(s),
            hits,
        ).total_events,
{
    let s1 = event_step(s);
    if hits.len() == 0 {
    } else {
        let s2 = hit_step(s1, hits[0].0, hits[0].1, hits[0].2, hits[0].3);
        assert(s2.event_with_hits == s.event_with_hits + 1);
        assert(s2.current_event_hits == 1);
        assert(s2.timestamps.len() == s.timestamps.len() + 1);
        lemma_hits_after_first(s2, hits.drop_first());
    }
}

} // verus!
