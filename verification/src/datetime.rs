//! Naive date-time values with second precision and no time zone.
//!
//! Log timestamps are compared lexicographically by their fields, which
//! matches chronological order for the `YYYY-MM-DD HH:MM:SS` layout the
//! log format uses.

use vstd::prelude::*;
use vstd::string::StringExecFns;
use crate::text::{dec_str_pad, u32_dec_pad};

verus! {

/// A naive date-time: calendar and clock fields, second precision, no zone.
#[derive(Debug, PartialEq, Eq, Structural, Clone, Copy)]
pub struct DateTime {
    pub year: u32,
    pub month: u32,
    pub day: u32,
    pub hour: u32,
    pub minute: u32,
    pub second: u32,
}

impl DateTime {
    /// Lexicographic order over the fields: chronological order for
    /// zero-padded timestamps.
    pub open spec fn le(self, other: Self) -> bool {
        if self.year != other.year {
            self.year < other.year
        } else if self.month != other.month {
            self.month < other.month
        } else if self.day != other.day {
            self.day < other.day
        } else if self.hour != other.hour {
            self.hour < other.hour
        } else if self.minute != other.minute {
            self.minute < other.minute
        } else {
            self.second <= other.second
        }
    }

    /// Decides whether `self` is at or before `other`.
    pub fn is_at_or_before(&self, other: &Self) -> (r: bool)
        ensures
            r == self.le(*other),
    {
        if self.year != other.year {
            self.year < other.year
        } else if self.month != other.month {
            self.month < other.month
        } else if self.day != other.day {
            self.day < other.day
        } else if self.hour != other.hour {
            self.hour < other.hour
        } else if self.minute != other.minute {
            self.minute < other.minute
        } else {
            self.second <= other.second
        }
    }

    /// The order is reflexive: a timestamp is at or before itself, so a
    /// range bound that equals an entry's timestamp keeps the entry.
    pub proof fn lemma_le_reflexive(self)
        ensures
            self.le(self),
    {
    }

    /// The canonical `YYYY-MM-DD HH:MM:SS` text of this date-time,
    /// zero-padded in every field.
    pub open spec fn render(self) -> Seq<char> {
        dec_str_pad(self.year as nat, 4) + seq!['-'] + dec_str_pad(self.month as nat, 2)
            + seq!['-'] + dec_str_pad(self.day as nat, 2) + seq![' '] + dec_str_pad(
            self.hour as nat,
            2,
        ) + seq![':'] + dec_str_pad(self.minute as nat, 2) + seq![':'] + dec_str_pad(
            self.second as nat,
            2,
        )
    }

    /// Renders this date-time in its canonical zero-padded form.
    pub fn to_display_string(&self) -> (r: String)
        ensures
            r@ == self.render(),
    {
        proof {
            reveal_strlit("-");
            reveal_strlit(" ");
            reveal_strlit(":");
        }
        let mut r = u32_dec_pad(self.year, 4);
        r.append("-");
        let month = u32_dec_pad(self.month, 2);
        r.append(month.as_str());
        r.append("-");
        let day = u32_dec_pad(self.day, 2);
        r.append(day.as_str());
        r.append(" ");
        let hour = u32_dec_pad(self.hour, 2);
        r.append(hour.as_str());
        r.append(":");
        let minute = u32_dec_pad(self.minute, 2);
        r.append(minute.as_str());
        r.append(":");
        let second = u32_dec_pad(self.second, 2);
        r.append(second.as_str());
        proof {
            assert(r@ =~= self.render());
        }
        r
    }
}

} // verus!
