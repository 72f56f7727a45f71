//! Severity levels, their display names, abbreviations, and colors.

use vstd::prelude::*;

verus! {

/// The five rule severities, in rendering order.
#[derive(Clone, Copy, Debug, PartialEq, Eq, Structural)]
pub enum SeverityLevel {
    Critical,
    High,
    Medium,
    Low,
    Informational,
}

/// The colors the terminal output distinguishes. `Neutral` is the terminal's
/// default foreground, used for everything once colors are disabled.
#[derive(Clone, Copy, Debug, PartialEq, Eq, Structural)]
pub enum ColorCode {
    Red,
    Orange,
    Yellow,
    Green,
    Cyan,
    Neutral,
}

impl vstd::prelude::DeepView for ColorCode {
    type V = ColorCode;

    open spec fn deep_view(&self) -> ColorCode {
        *self
    }
}

/// Display name of a severity level.
pub open spec fn level_name_spec(level: SeverityLevel) -> Seq<char> {
    match level {
        SeverityLevel::Critical => "critical"@,
        SeverityLevel::High => "high"@,
        SeverityLevel::Medium => "medium"@,
        SeverityLevel::Low => "low"@,
        SeverityLevel::Informational => "informational"@,
    }
}

/// The color a severity renders with when colors are enabled.
pub open spec fn level_color_spec(level: SeverityLevel) -> ColorCode {
    match level {
        SeverityLevel::Critical => ColorCode::Red,
        SeverityLevel::High => ColorCode::Orange,
        SeverityLevel::Medium => ColorCode::Yellow,
        SeverityLevel::Low => ColorCode::Green,
        SeverityLevel::Informational => ColorCode::Neutral,
    }
}

/// Abbreviation applied to a lower-cased level name; unknown names pass
/// through unchanged.
pub open spec fn abbrev_spec(s: Seq<char>) -> Seq<char> {
    if s == "critical"@ {
        "crit"@
    } else if s == "medium"@ {
        "med"@
    } else if s == "informational"@ {
        "info"@
    } else {
        s
    }
}

/// The line color the interactive sink picks from an abbreviated level.
pub open spec fn abbrev_color_spec(s: Seq<char>) -> ColorCode {
    if s == "crit"@ {
        ColorCode::Red
    } else if s == "high"@ {
        ColorCode::Orange
    } else if s == "med"@ {
        ColorCode::Yellow
    } else if s == "low"@ {
        ColorCode::Green
    } else {
        ColorCode::Neutral
    }
}

impl SeverityLevel {
    /// Display name, e.g. `critical`.
    pub fn name(&self) -> (r: &'static str)
        ensures
            r@ == level_name_spec(*self),
    {
        match self {
            SeverityLevel::Critical => "critical",
            SeverityLevel::High => "high",
            SeverityLevel::Medium => "medium",
            SeverityLevel::Low => "low",
            SeverityLevel::Informational => "informational",
        }
    }

    /// Color used for this severity, `Neutral` when colors are off.
    pub fn color(&self, no_color: bool) -> (r: ColorCode)
        ensures
            r == (if no_color {
                ColorCode::Neutral
            } else {
                level_color_spec(*self)
            }),
    {
        if no_color {
            ColorCode::Neutral
        } else {
            match self {
                SeverityLevel::Critical => ColorCode::Red,
                SeverityLevel::High => ColorCode::Orange,
                SeverityLevel::Medium => ColorCode::Yellow,
                SeverityLevel::Low => ColorCode::Green,
                SeverityLevel::Informational => ColorCode::Neutral,
            }
        }
    }

    /// Parses a lower-case level name.
    pub fn from_name(s: &str) -> (r: Option<SeverityLevel>)
        ensures
            r == (if s@ == "critical"@ {
                Some(SeverityLevel::Critical)
            } else if s@ == "high"@ {
                Some(SeverityLevel::High)
            } else if s@ == "medium"@ {
                Some(SeverityLevel::Medium)
            } else if s@ == "low"@ {
                Some(SeverityLevel::Low)
            } else if s@ == "informational"@ {
                Some(SeverityLevel::Informational)
            } else {
                None::<SeverityLevel>
            }),
    {
        if crate::chars::str_eq(s, "critical") {
            Some(SeverityLevel::Critical)
        } else if crate::chars::str_eq(s, "high") {
            Some(SeverityLevel::High)
        } else if crate::chars::str_eq(s, "medium") {
            Some(SeverityLevel::Medium)
        } else if crate::chars::str_eq(s, "low") {
            Some(SeverityLevel::Low)
        } else if crate::chars::str_eq(s, "informational") {
            Some(SeverityLevel::Informational)
        } else {
            None
        }
    }
}

/// The five severities in rendering order.
pub fn all_levels() -> (r: Vec<SeverityLevel>)
    ensures
        r@ == seq![
            SeverityLevel::Critical,
            SeverityLevel::High,
            SeverityLevel::Medium,
            SeverityLevel::Low,
            SeverityLevel::Informational,
        ],
{
    let mut r: Vec<SeverityLevel> = Vec::new();
    r.push(SeverityLevel::Critical);
    r.push(SeverityLevel::High);
    r.push(SeverityLevel::Medium);
    r.push(SeverityLevel::Low);
    r.push(SeverityLevel::Informational);
    proof {
        assert(r@ =~= seq![
            SeverityLevel::Critical,
            SeverityLevel::High,
            SeverityLevel::Medium,
            SeverityLevel::Low,
            SeverityLevel::Informational,
        ]);
    }
    r
}

/// Abbreviates a lower-cased level name as the interactive sink shows it.
pub fn abbreviate_level<'a>(level: &'a str) -> (r: &'a str)
    ensures
        r@ == abbrev_spec(level@),
{
    if crate::chars::str_eq(level, "critical") {
        "crit"
    } else if crate::chars::str_eq(level, "medium") {
        "med"
    } else if crate::chars::str_eq(level, "informational") {
        "info"
    } else {
        level
    }
}

/// Line color for an abbreviated level, `Neutral` when colors are off.
pub fn abbrev_color(s: &str, no_color: bool) -> (r: ColorCode)
    ensures
        r == (if no_color {
            ColorCode::Neutral
        } else {
            abbrev_color_spec(s@)
        }),
{
    if no_color {
        ColorCode::Neutral
    } else if crate::chars::str_eq(s, "crit") {
        ColorCode::Red
    } else if crate::chars::str_eq(s, "high") {
        ColorCode::Orange
    } else if crate::chars::str_eq(s, "med") {
        ColorCode::Yellow
    } else if crate::chars::str_eq(s, "low") {
        ColorCode::Green
    } else {
        ColorCode::Neutral
    }
}

} // verus!
