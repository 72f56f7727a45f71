//! Plain-value models of the data a hit carries: the log event's fields, the
//! matching rule's metadata, and the outcome of the per-event geolocation
//! lookup done by the scan driver.

use vstd::prelude::*;

verus! {

/// One scanned log event, as the ordered list of its field paths and their
/// display values. Lookup returns the first entry with a matching name.
pub struct EventRec {
    pub fields: Vec<(String, String)>,
}

/// First value bound to `key`, scanning fields in order.
pub open spec fn lookup_field(fields: Seq<(Seq<char>, Seq<char>)>, key: Seq<char>) -> Option<
    Seq<char>,
>
    decreases fields.len(),
{
    if fields.len() == 0 {
        None
    } else if fields[0].0 == key {
        Some(fields[0].1)
    } else {
        lookup_field(fields.drop_first(), key)
    }
}

impl View for EventRec {
    type V = Seq<(Seq<char>, Seq<char>)>;

    open spec fn view(&self) -> Seq<(Seq<char>, Seq<char>)> {
        self.fields.deep_view()
    }
}

impl EventRec {
    /// An event with no fields.
    pub fn new() -> (r: EventRec)
        ensures
            r@ == Seq::<(Seq<char>, Seq<char>)>::empty(),
    {
        let r = EventRec { fields: Vec::new() };
        proof {
            assert(r@ =~= Seq::<(Seq<char>, Seq<char>)>::empty());
        }
        r
    }

    /// Appends a field binding.
    pub fn push_field(&mut self, name: String, value: String)
        ensures
            final(self)@ == old(self)@.push((name@, value@)),
    {
        let ghost pre = self@;
        self.fields.push((name, value));
        proof {
            assert(self@ =~= pre.push((name@, value@)));
        }
    }

    /// Looks a field path up, first match wins.
    pub fn get(&self, key: &str) -> (r: Option<String>)
        ensures
            match r {
                Some(v) => lookup_field(self@, key@) == Some(v@),
                None => lookup_field(self@, key@) is None,
            },
    {
        let kc = crate::chars::str_chars(key);
        let n = self.fields.len();
        let mut i: usize = 0;
        proof {
            assert(self@.skip(0) =~= self@);
        }
        while i < n
            invariant
                i <= n,
                n == self.fields@.len(),
                kc@ == key@,
                lookup_field(self@, key@) == lookup_field(self@.skip(i as int), key@),
            decreases n - i,
        {
            let name = crate::chars::str_chars(self.fields[i].0.as_str());
            proof {
                assert(self@[i as int] == (self.fields@[i as int].0@, self.fields@[i as int].1@));
                assert(self@.skip(i as int)[0] == self@[i as int]);
            }
            if crate::chars::chars_eq(name.as_slice(), kc.as_slice()) {
                let v = self.fields[i].1.clone();
                return Some(v);
            }
            proof {
                assert(self@.skip(i as int).drop_first() =~= self@.skip(i + 1));
            }
            i = i + 1;
        }
        proof {
            assert(self@.skip(n as int) =~= Seq::<(Seq<char>, Seq<char>)>::empty());
        }
        None
    }

    /// The event's source IP address field, when present; this is the value
    /// the scan driver hands to the geolocation service.
    pub fn source_ip(&self) -> (r: Option<String>)
        ensures
            match r {
                Some(v) => lookup_field(self@, "sourceIPAddress"@) == Some(v@),
                None => lookup_field(self@, "sourceIPAddress"@) is None,
            },
    {
        self.get("sourceIPAddress")
    }
}

/// The metadata of one detection rule that extraction expressions can name.
/// Absent entries render as the `-` placeholder.
pub struct RuleMeta {
    pub title: String,
    pub id: Option<String>,
    pub status: Option<String>,
    pub author: Option<String>,
    pub description: Option<String>,
    pub references: Option<Vec<String>>,
    pub date: Option<String>,
    pub modified: Option<String>,
    pub tags: Option<Vec<String>>,
    pub falsepositives: Option<Vec<String>>,
    pub level: Option<String>,
}

impl RuleMeta {
    /// A rule with only a title.
    pub fn with_title(title: String) -> (r: RuleMeta)
        ensures
            r.title == title,
            r.id is None,
            r.status is None,
            r.author is None,
            r.description is None,
            r.references is None,
            r.date is None,
            r.modified is None,
            r.tags is None,
            r.falsepositives is None,
            r.level is None,
    {
        RuleMeta {
            title,
            id: None,
            status: None,
            author: None,
            description: None,
            references: None,
            date: None,
            modified: None,
            tags: None,
            falsepositives: None,
            level: None,
        }
    }
}

/// What the geolocation service said about the current event, resolved once
/// per event by the scan driver and handed to every extraction for it.
pub enum GeoOutcome {
    /// No geolocation database is loaded.
    Disabled,
    /// Geolocation is on, but the event carries no source IP field.
    NoSourceIp,
    /// The source IP did not resolve; extraction returns the raw IP string
    /// for every expression while this holds.
    Unresolved(String),
    /// The source IP resolved to these attributes.
    Resolved { asn: String, city: String, country: String },
}

} // verus!
