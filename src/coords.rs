//! Celestial coordinates: sexagesimal notation and the building blocks of the
//! Sun and star position models.
//!
//! An angle or a time written in sexagesimal notation reads `DD:MM:SS` (degrees,
//! minutes, seconds) or `HH:MM:SS` (hours, minutes, seconds); a leading `-`
//! makes a negative angle. This module splits such text into its fields; what
//! each field holds is a decimal number read by the caller.

pub mod noaa_sun;
pub mod struct_types;
pub mod sun;

use vstd::prelude::*;
use vstd::string::*;

verus! {

/// Position of the first `:` in `s` at or after `from`, or `s.len()` where
/// there is none.
pub open spec fn next_colon(s: Seq<char>, from: int) -> int
    decreases s.len() - from,
{
    if from >= s.len() {
        s.len() as int
    } else if s[from] == ':' {
        from
    } else {
        next_colon(s, from + 1)
    }
}

/// The first three `:`-separated fields of `s`, or `None` where `s` has fewer
/// than two `:`. Text after a third `:` is not part of any field.
pub open spec fn sexagesimal_fields(s: Seq<char>) -> Option<(Seq<char>, Seq<char>, Seq<char>)> {
    let i = next_colon(s, 0);
    let j = next_colon(s, i + 1);
    let k = next_colon(s, j + 1);
    if j < s.len() {
        Some((s.subrange(0, i), s.subrange(i + 1, j), s.subrange(j + 1, k)))
    } else {
        None
    }
}

/// Whether sexagesimal text denotes a negative value: it starts with `-`.
pub open spec fn starts_negative(s: Seq<char>) -> bool {
    s.len() > 0 && s[0] == '-'
}

/// The fields of a sexagesimal value `[-]UU:MM:SS`, each still as text.
pub struct SexagesimalFields {
    /// Whether the text starts with `-`; the sign applies to the whole value.
    pub negative: bool,
    /// Whole degrees or hours, sign included.
    pub units: String,
    /// Minutes.
    pub minutes: String,
    /// Seconds, possibly with a fractional part.
    pub seconds: String,
}

/// Position of the first `:` in `text` at or after `from`, or the length of
/// `text` in characters where there is none.
fn find_colon(text: &str, from: usize) -> (r: usize)
    requires
        from <= text@.len(),
    ensures
        from <= r <= text@.len(),
        r == next_colon(text@, from as int),
{
    let len: usize = text.unicode_len();
    let mut i: usize = from;
    while i < len && text.get_char(i) != ':'
        invariant
            from <= i <= len,
            len == text@.len(),
            next_colon(text@, from as int) == next_colon(text@, i as int),
        decreases len - i,
    {
        i = i + 1;
    }
    i
}

/// Splits sexagesimal text `[-]UU:MM:SS` into its sign and its first three
/// `:`-separated fields. Returns `None` where a field is missing, that is where
/// `text` holds fewer than two `:`.
pub fn split_sexagesimal(text: &str) -> (r: Option<SexagesimalFields>)
    ensures
        match r {
            Some(f) => sexagesimal_fields(text@) == Some((f.units@, f.minutes@, f.seconds@))
                && f.negative == starts_negative(text@),
            None => sexagesimal_fields(text@) is None,
        },
{
    let len: usize = text.unicode_len();
    let first: usize = find_colon(text, 0);
    if first == len {
        return None;
    }
    let second: usize = find_colon(text, first + 1);
    if second == len {
        return None;
    }
    let third: usize = find_colon(text, second + 1);
    let negative: bool = len > 0 && text.get_char(0) == '-';
    Some(
        SexagesimalFields {
            negative,
            units: text.substring_char(0, first).to_owned(),
            minutes: text.substring_char(first + 1, second).to_owned(),
            seconds: text.substring_char(second + 1, third).to_owned(),
        },
    )
}

} // verus!
