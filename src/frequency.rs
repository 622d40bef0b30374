//! The change-frequency hint of a sitemap entry.
use vstd::prelude::*;
use crate::text::{eq_ignore_ascii_case, eq_ignore_ascii_case_spec};

verus! {

/// The text of a `<changefreq>` element names none of the known frequencies.
#[derive(Debug, PartialEq, Eq, Structural, Clone, Copy)]
pub enum FrequencyParseError {
    InvalidFrequency,
}

/// The frequency of change to a page.
#[derive(Debug, PartialEq, Eq, Structural, Clone, Copy)]
pub enum Frequency {
    Always,
    Hourly,
    Daily,
    Weekly,
    Monthly,
    Yearly,
    Never,
}

/// The frequency that a text names, its ASCII letters compared without regard to case.
pub open spec fn frequency_of(s: Seq<char>) -> Option<Frequency> {
    if eq_ignore_ascii_case_spec(s, "always"@) {
        Some(Frequency::Always)
    } else if eq_ignore_ascii_case_spec(s, "hourly"@) {
        Some(Frequency::Hourly)
    } else if eq_ignore_ascii_case_spec(s, "daily"@) {
        Some(Frequency::Daily)
    } else if eq_ignore_ascii_case_spec(s, "weekly"@) {
        Some(Frequency::Weekly)
    } else if eq_ignore_ascii_case_spec(s, "monthly"@) {
        Some(Frequency::Monthly)
    } else if eq_ignore_ascii_case_spec(s, "yearly"@) {
        Some(Frequency::Yearly)
    } else if eq_ignore_ascii_case_spec(s, "never"@) {
        Some(Frequency::Never)
    } else {
        None
    }
}

impl Frequency {
    /// Reads one of `always`, `hourly`, `daily`, `weekly`, `monthly`, `yearly`
    /// or `never`, in any mix of ASCII case.
    pub fn from_str(s: &str) -> (r: Result<Frequency, FrequencyParseError>)
        ensures
            match frequency_of(s@) {
                Some(f) => r == Ok::<Frequency, FrequencyParseError>(f),
                None => r == Err::<Frequency, FrequencyParseError>(
                    FrequencyParseError::InvalidFrequency,
                ),
            },
    {
        if eq_ignore_ascii_case(s, "always") {
            Ok(Frequency::Always)
        } else if eq_ignore_ascii_case(s, "hourly") {
            Ok(Frequency::Hourly)
        } else if eq_ignore_ascii_case(s, "daily") {
            Ok(Frequency::Daily)
        } else if eq_ignore_ascii_case(s, "weekly") {
            Ok(Frequency::Weekly)
        } else if eq_ignore_ascii_case(s, "monthly") {
            Ok(Frequency::Monthly)
        } else if eq_ignore_ascii_case(s, "yearly") {
            Ok(Frequency::Yearly)
        } else if eq_ignore_ascii_case(s, "never") {
            Ok(Frequency::Never)
        } else {
            Err(FrequencyParseError::InvalidFrequency)
        }
    }
}

impl core::str::FromStr for Frequency {
    type Err = FrequencyParseError;

    fn from_str(s: &str) -> Result<Frequency, FrequencyParseError> {
        Frequency::from_str(s)
    }
}

} // verus!
