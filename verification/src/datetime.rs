//! Calendar timestamps for export files.
//!
//! An export's timestamp is held as plain calendar fields. Ordering is done
//! through a single integer key that reflects lexicographic field order, so
//! "newest export" is a comparison of two integers.

use vstd::prelude::*;

verus! {

/// A calendar timestamp with minute or second precision.
#[derive(Clone, Copy, Debug, PartialEq, Eq, Structural)]
pub struct DateTime {
    pub year: u32,
    pub month: u32,
    pub day: u32,
    pub hour: u32,
    pub minute: u32,
    pub second: u32,
}

/// Gregorian leap-year rule.
pub open spec fn is_leap_year(y: int) -> bool {
    (y % 4 == 0 && y % 100 != 0) || y % 400 == 0
}

/// Number of days in a month of the Gregorian calendar.
pub open spec fn days_in_month(y: int, m: int) -> int {
    if m == 2 {
        if is_leap_year(y) {
            29
        } else {
            28
        }
    } else if m == 4 || m == 6 || m == 9 || m == 11 {
        30
    } else {
        31
    }
}

impl DateTime {
    /// A real calendar timestamp with a four-digit year.
    pub open spec fn valid(self) -> bool {
        &&& self.year <= 9999
        &&& 1 <= self.month <= 12
        &&& 1 <= self.day <= days_in_month(self.year as int, self.month as int)
        &&& self.hour <= 23
        &&& self.minute <= 59
        &&& self.second <= 59
    }

    /// The ordering key: a positional number over the six fields. For valid
    /// timestamps it orders exactly as the fields do lexicographically.
    pub open spec fn key_spec(self) -> int {
        ((((self.year * 13 + self.month) * 32 + self.day) * 24 + self.hour) * 60 + self.minute)
            * 60 + self.second
    }

    /// Decides validity.
    pub fn check_valid(&self) -> (r: bool)
        ensures
            r == self.valid(),
    {
        let leap = (self.year % 4 == 0 && self.year % 100 != 0) || self.year % 400 == 0;
        let dim: u32 = if self.month == 2 {
            if leap {
                29
            } else {
                28
            }
        } else if self.month == 4 || self.month == 6 || self.month == 9 || self.month == 11 {
            30
        } else {
            31
        };
        self.year <= 9999 && 1 <= self.month && self.month <= 12 && 1 <= self.day && self.day
            <= dim && self.hour <= 23 && self.minute <= 59 && self.second <= 59
    }

    /// Computes the ordering key.
    pub fn key(&self) -> (r: u64)
        ensures
            r as int == self.key_spec(),
    {
        let y = self.year as u64;
        let mo = self.month as u64;
        let d = self.day as u64;
        let h = self.hour as u64;
        let mi = self.minute as u64;
        let s = self.second as u64;
        ((((y * 13 + mo) * 32 + d) * 24 + h) * 60 + mi) * 60 + s
    }
}

/// `a` denotes a strictly earlier moment than `b`: lexicographic order over
/// the six fields, most significant first.
pub open spec fn time_before(a: DateTime, b: DateTime) -> bool {
    ||| a.year < b.year
    ||| (a.year == b.year && {
        ||| a.month < b.month
        ||| (a.month == b.month && {
            ||| a.day < b.day
            ||| (a.day == b.day && {
                ||| a.hour < b.hour
                ||| (a.hour == b.hour && {
                    ||| a.minute < b.minute
                    ||| (a.minute == b.minute && a.second < b.second)
                })
            })
        })
    })
}

proof fn lemma_time_before_key(a: DateTime, b: DateTime)
    requires
        a.valid(),
        b.valid(),
        time_before(a, b),
    ensures
        a.key_spec() < b.key_spec(),
{
    let ka1 = a.year * 13 + a.month;
    let kb1 = b.year * 13 + b.month;
    let ka2 = ka1 * 32 + a.day;
    let kb2 = kb1 * 32 + b.day;
    let ka3 = ka2 * 24 + a.hour;
    let kb3 = kb2 * 24 + b.hour;
    let ka4 = ka3 * 60 + a.minute;
    let kb4 = kb3 * 60 + b.minute;
    assert(a.month <= 12 && b.month >= 1);
    assert(a.day <= 31 && b.day >= 1) by {
        assert(days_in_month(a.year as int, a.month as int) <= 31);
    }
    if a.year < b.year {
        assert(ka1 < kb1);
    }
    if ka1 < kb1 {
        assert(ka2 < kb2);
    }
    if ka2 < kb2 {
        assert(ka3 < kb3);
    }
    if ka3 < kb3 {
        assert(ka4 < kb4);
    }
    if ka4 < kb4 {
        assert(ka4 * 60 + a.second < kb4 * 60 + b.second);
    }
}

/// The ordering key agrees with time order: for valid timestamps the key is
/// smaller exactly when the moment is earlier, and equal exactly when the
/// timestamps are equal. Newest-by-time therefore always wins a key
/// comparison, however the timestamp was written in the file name.
pub proof fn lemma_key_orders(a: DateTime, b: DateTime)
    requires
        a.valid(),
        b.valid(),
    ensures
        a.key_spec() < b.key_spec() <==> time_before(a, b),
        a.key_spec() == b.key_spec() <==> a == b,
{
    if time_before(a, b) {
        lemma_time_before_key(a, b);
    }
    if time_before(b, a) {
        lemma_time_before_key(b, a);
    }
}

} // verus!
