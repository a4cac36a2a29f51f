//! Parsing export file names.
//!
//! A usable export is named `<anything> <ACCOUNT-ID> - <TIMESTAMP>.csv`,
//! where the account identifier is a fixed-format bank account number (two
//! letters, two digits, then four groups of four digits, then two digits,
//! space-separated) and the timestamp is written in one of two known formats:
//! `YYYY-MM-DD HH.MM.SS` or `YYYY.MM.DD HH.MM`. Names that do not fit are
//! silently excluded. Where the account pattern could start at several
//! positions, the latest one is taken.

use vstd::prelude::*;
use vstd::string::StrSliceExecFns;

use crate::datetime::DateTime;

verus! {

/// An ASCII decimal digit.
pub open spec fn is_digit(c: char) -> bool {
    48 <= c as u32 <= 57
}

/// The numeric value of an ASCII decimal digit.
pub open spec fn digit_val(c: char) -> int {
    c as u32 - 48
}

/// The value of the two-digit group at `i`.
pub open spec fn two_digits(s: Seq<char>, i: int) -> int {
    digit_val(s[i]) * 10 + digit_val(s[i + 1])
}

/// The value of the four-digit group at `i`.
pub open spec fn four_digits(s: Seq<char>, i: int) -> int {
    two_digits(s, i) * 100 + two_digits(s, i + 2)
}

/// A full account identifier starts at `s`: `FIdd dddd dddd dddd dd`.
pub open spec fn account_id_at(name: Seq<char>, s: int) -> bool {
    &&& 0 <= s
    &&& s + 22 <= name.len()
    &&& name[s] == 'F'
    &&& name[s + 1] == 'I'
    &&& is_digit(name[s + 2])
    &&& is_digit(name[s + 3])
    &&& name[s + 4] == ' '
    &&& is_digit(name[s + 5])
    &&& is_digit(name[s + 6])
    &&& is_digit(name[s + 7])
    &&& is_digit(name[s + 8])
    &&& name[s + 9] == ' '
    &&& is_digit(name[s + 10])
    &&& is_digit(name[s + 11])
    &&& is_digit(name[s + 12])
    &&& is_digit(name[s + 13])
    &&& name[s + 14] == ' '
    &&& is_digit(name[s + 15])
    &&& is_digit(name[s + 16])
    &&& is_digit(name[s + 17])
    &&& is_digit(name[s + 18])
    &&& name[s + 19] == ' '
    &&& is_digit(name[s + 20])
    &&& is_digit(name[s + 21])
}

/// The name ends in `.csv`.
pub open spec fn ends_with_csv(name: Seq<char>) -> bool {
    &&& name.len() >= 4
    &&& name[name.len() - 4] == '.'
    &&& name[name.len() - 3] == 'c'
    &&& name[name.len() - 2] == 's'
    &&& name[name.len() - 1] == 'v'
}

/// The whole pattern holds with the account identifier starting at `s`: at
/// least one character and a space before it, ` - ` and a nonempty timestamp
/// after it, and the `.csv` suffix.
pub open spec fn name_matches_at(name: Seq<char>, s: int) -> bool {
    &&& 2 <= s
    &&& s + 29 < name.len()
    &&& name[s - 1] == ' '
    &&& account_id_at(name, s)
    &&& name[s + 22] == ' '
    &&& name[s + 23] == '-'
    &&& name[s + 24] == ' '
    &&& ends_with_csv(name)
}

/// The latest account-identifier position at or below `i`, if any.
pub open spec fn split_from(name: Seq<char>, i: int) -> Option<int>
    decreases i,
{
    if i < 2 {
        None
    } else if name_matches_at(name, i) {
        Some(i)
    } else {
        split_from(name, i - 1)
    }
}

/// The position where the account identifier starts, if the name matches.
pub open spec fn split_of(name: Seq<char>) -> Option<int> {
    split_from(name, name.len() as int)
}

/// Shape of the timestamp format `YYYY-MM-DD HH.MM.SS`.
pub open spec fn long_stamp_shape(s: Seq<char>) -> bool {
    &&& s.len() == 19
    &&& is_digit(s[0]) && is_digit(s[1]) && is_digit(s[2]) && is_digit(s[3])
    &&& s[4] == '-'
    &&& is_digit(s[5]) && is_digit(s[6])
    &&& s[7] == '-'
    &&& is_digit(s[8]) && is_digit(s[9])
    &&& s[10] == ' '
    &&& is_digit(s[11]) && is_digit(s[12])
    &&& s[13] == '.'
    &&& is_digit(s[14]) && is_digit(s[15])
    &&& s[16] == '.'
    &&& is_digit(s[17]) && is_digit(s[18])
}

/// The timestamp denoted by a long-format stamp.
pub open spec fn long_stamp_value(s: Seq<char>) -> DateTime {
    DateTime {
        year: four_digits(s, 0) as u32,
        month: two_digits(s, 5) as u32,
        day: two_digits(s, 8) as u32,
        hour: two_digits(s, 11) as u32,
        minute: two_digits(s, 14) as u32,
        second: two_digits(s, 17) as u32,
    }
}

/// Shape of the timestamp format `YYYY.MM.DD HH.MM`.
pub open spec fn short_stamp_shape(s: Seq<char>) -> bool {
    &&& s.len() == 16
    &&& is_digit(s[0]) && is_digit(s[1]) && is_digit(s[2]) && is_digit(s[3])
    &&& s[4] == '.'
    &&& is_digit(s[5]) && is_digit(s[6])
    &&& s[7] == '.'
    &&& is_digit(s[8]) && is_digit(s[9])
    &&& s[10] == ' '
    &&& is_digit(s[11]) && is_digit(s[12])
    &&& s[13] == '.'
    &&& is_digit(s[14]) && is_digit(s[15])
}

/// The timestamp denoted by a short-format stamp; seconds are zero.
pub open spec fn short_stamp_value(s: Seq<char>) -> DateTime {
    DateTime {
        year: four_digits(s, 0) as u32,
        month: two_digits(s, 5) as u32,
        day: two_digits(s, 8) as u32,
        hour: two_digits(s, 11) as u32,
        minute: two_digits(s, 14) as u32,
        second: 0,
    }
}

/// A stamp parses when it has one of the two shapes and denotes a real
/// calendar moment; the long format is tried first.
pub open spec fn parse_stamp_spec(s: Seq<char>) -> Option<DateTime> {
    if long_stamp_shape(s) && long_stamp_value(s).valid() {
        Some(long_stamp_value(s))
    } else if short_stamp_shape(s) && short_stamp_value(s).valid() {
        Some(short_stamp_value(s))
    } else {
        None
    }
}

/// What a file name denotes: the account identifier and the export
/// timestamp, or nothing when the name does not fit the pattern.
pub open spec fn parse_name_spec(name: Seq<char>) -> Option<(Seq<char>, DateTime)> {
    match split_of(name) {
        None => None,
        Some(s) => {
            let stamp = name.subrange(s + 25, name.len() - 4);
            match parse_stamp_spec(stamp) {
                None => None,
                Some(d) => Some((name.subrange(s, s + 22), d)),
            }
        },
    }
}

/// Copies the characters of a string into a vector.
fn chars_of(s: &str) -> (r: Vec<char>)
    ensures
        r@ == s@,
{
    let n = s.unicode_len();
    let mut r: Vec<char> = Vec::new();
    let mut i: usize = 0;
    while i < n
        invariant
            i <= n,
            n as nat == s@.len(),
            r@ == s@.take(i as int),
        decreases n - i,
    {
        let c = s.get_char(i);
        r.push(c);
        proof {
            assert(s@.take(i as int + 1) =~= s@.take(i as int).push(s@[i as int]));
        }
        i = i + 1;
    }
    proof {
        assert(s@.take(n as int) =~= s@);
    }
    r
}

/// Decides whether `c` is an ASCII decimal digit.
fn digit(c: char) -> (r: bool)
    ensures
        r == is_digit(c),
{
    let v = c as u32;
    48 <= v && v <= 57
}

/// Decides whether the account identifier pattern starts at `s`.
fn account_id_check(chars: &Vec<char>, s: usize) -> (r: bool)
    requires
        s + 22 <= chars@.len(),
    ensures
        r == account_id_at(chars@, s as int),
{
    let n = chars.len();
    assert(s + 22 <= n);
    chars[s] == 'F' && chars[s + 1] == 'I' && digit(chars[s + 2]) && digit(chars[s + 3])
        && chars[s + 4] == ' ' && digit(chars[s + 5]) && digit(chars[s + 6]) && digit(
        chars[s + 7],
    ) && digit(chars[s + 8]) && chars[s + 9] == ' ' && digit(chars[s + 10]) && digit(
        chars[s + 11],
    ) && digit(chars[s + 12]) && digit(chars[s + 13]) && chars[s + 14] == ' ' && digit(
        chars[s + 15],
    ) && digit(chars[s + 16]) && digit(chars[s + 17]) && digit(chars[s + 18]) && chars[s + 19]
        == ' ' && digit(chars[s + 20]) && digit(chars[s + 21])
}

/// Decides whether the whole pattern holds with the identifier at `s`.
fn matches_at(chars: &Vec<char>, s: usize) -> (r: bool)
    ensures
        r == name_matches_at(chars@, s as int),
{
    let n = chars.len();
    if s < 2 || n < 30 || s >= n - 29 {
        return false;
    }
    chars[n - 4] == '.' && chars[n - 3] == 'c' && chars[n - 2] == 's' && chars[n - 1] == 'v'
        && chars[s - 1] == ' ' && account_id_check(chars, s) && chars[s + 22] == ' ' && chars[s
        + 23] == '-' && chars[s + 24] == ' '
}

/// The value of the two-digit group at `i`.
fn read_two(chars: &Vec<char>, i: usize) -> (r: u32)
    requires
        i + 2 <= chars@.len(),
        is_digit(chars@[i as int]),
        is_digit(chars@[i as int + 1]),
    ensures
        r as int == two_digits(chars@, i as int),
{
    let n = chars.len();
    assert(i + 2 <= n);
    (chars[i] as u32 - 48) * 10 + (chars[i + 1] as u32 - 48)
}

/// Parses the stamp region `[lo, hi)` of `chars` against the two formats.
fn parse_stamp(chars: &Vec<char>, lo: usize, hi: usize) -> (r: Option<DateTime>)
    requires
        lo <= hi <= chars@.len(),
    ensures
        r == parse_stamp_spec(chars@.subrange(lo as int, hi as int)),
{
    let ghost sub = chars@.subrange(lo as int, hi as int);
    let len = hi - lo;
    if len == 19 {
        let shape = digit(chars[lo]) && digit(chars[lo + 1]) && digit(chars[lo + 2]) && digit(
            chars[lo + 3],
        ) && chars[lo + 4] == '-' && digit(chars[lo + 5]) && digit(chars[lo + 6]) && chars[lo + 7]
            == '-' && digit(chars[lo + 8]) && digit(chars[lo + 9]) && chars[lo + 10] == ' '
            && digit(chars[lo + 11]) && digit(chars[lo + 12]) && chars[lo + 13] == '.' && digit(
            chars[lo + 14],
        ) && digit(chars[lo + 15]) && chars[lo + 16] == '.' && digit(chars[lo + 17]) && digit(
            chars[lo + 18],
        );
        if !shape {
            return None;
        }
        let d = DateTime {
            year: read_two(chars, lo) * 100 + read_two(chars, lo + 2),
            month: read_two(chars, lo + 5),
            day: read_two(chars, lo + 8),
            hour: read_two(chars, lo + 11),
            minute: read_two(chars, lo + 14),
            second: read_two(chars, lo + 17),
        };
        assert(long_stamp_shape(sub));
        assert(d == long_stamp_value(sub));
        if d.check_valid() {
            Some(d)
        } else {
            None
        }
    } else if len == 16 {
        let shape = digit(chars[lo]) && digit(chars[lo + 1]) && digit(chars[lo + 2]) && digit(
            chars[lo + 3],
        ) && chars[lo + 4] == '.' && digit(chars[lo + 5]) && digit(chars[lo + 6]) && chars[lo + 7]
            == '.' && digit(chars[lo + 8]) && digit(chars[lo + 9]) && chars[lo + 10] == ' '
            && digit(chars[lo + 11]) && digit(chars[lo + 12]) && chars[lo + 13] == '.' && digit(
            chars[lo + 14],
        ) && digit(chars[lo + 15]);
        if !shape {
            return None;
        }
        let d = DateTime {
            year: read_two(chars, lo) * 100 + read_two(chars, lo + 2),
            month: read_two(chars, lo + 5),
            day: read_two(chars, lo + 8),
            hour: read_two(chars, lo + 11),
            minute: read_two(chars, lo + 14),
            second: 0,
        };
        assert(short_stamp_shape(sub));
        assert(d == short_stamp_value(sub));
        if d.check_valid() {
            Some(d)
        } else {
            None
        }
    } else {
        None
    }
}

/// Extracts the account identifier and the export timestamp from a file
/// name, or nothing when the name does not fit the pattern or neither
/// timestamp format denotes a real moment.
pub fn parse_file_name(name: &str) -> (r: Option<(String, DateTime)>)
    ensures
        match r {
            None => parse_name_spec(name@) is None,
            Some(p) => parse_name_spec(name@) == Some((p.0@, p.1)),
        },
{
    let chars = chars_of(name);
    let n = chars.len();
    let mut split: Option<usize> = None;
    let mut i: usize = n;
    while split.is_none() && i >= 2
        invariant
            i <= n,
            n == chars@.len(),
            chars@ == name@,
            match split {
                None => split_of(name@) == split_from(name@, i as int),
                Some(s) => split_of(name@) == Some(s as int) && name_matches_at(name@, s as int),
            },
        decreases (if split is None {
            1int
        } else {
            0int
        }), i,
    {
        if matches_at(&chars, i) {
            split = Some(i);
        } else {
            i = i - 1;
        }
    }
    match split {
        None => None,
        Some(s) => {
            match parse_stamp(&chars, s + 25, n - 4) {
                None => None,
                Some(d) => {
                    let id = name.substring_char(s, s + 22).to_owned();
                    Some((id, d))
                },
            }
        },
    }
}

} // verus!
