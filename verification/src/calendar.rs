//! Dates of the Gregorian calendar and how timestamps are written.

use crate::numerals::{decimal, digit_char, numeral, padded_decimal, zero_padded};
use vstd::prelude::*;
use vstd::string::StringExecFns;

verus! {

// ── The calendar ─────────────────────────────────────────────────────────────

/// A date of the Gregorian calendar.
pub struct Date {
    pub year: int,
    pub month: int,
    pub day: int,
}

/// Whether a year has 366 days.
pub open spec fn is_leap(year: int) -> bool {
    year % 4 == 0 && (year % 100 != 0 || year % 400 == 0)
}

/// How many days a month has.
pub open spec fn month_days(year: int, month: int) -> int {
    if month == 2 {
        if is_leap(year) {
            29
        } else {
            28
        }
    } else if month == 4 || month == 6 || month == 9 || month == 11 {
        30
    } else {
        31
    }
}

/// The date one day later.
pub open spec fn next_day(d: Date) -> Date {
    if d.day < month_days(d.year, d.month) {
        Date { day: d.day + 1, ..d }
    } else if d.month < 12 {
        Date { year: d.year, month: d.month + 1, day: 1 }
    } else {
        Date { year: d.year + 1, month: 1, day: 1 }
    }
}

/// The date `n` days after 1 January 1970.
pub open spec fn date_of(n: nat) -> Date
    decreases n,
{
    if n == 0 {
        Date { year: 1970, month: 1, day: 1 }
    } else {
        next_day(date_of((n - 1) as nat))
    }
}

/// How a moment is written: the date, and the time of day in UTC.
pub open spec fn rfc3339_text(secs: int) -> Seq<char> {
    let date = date_of((secs / 86400) as nat);
    zero_padded(decimal(date.year), 4) + "-"@ + zero_padded(decimal(date.month), 2) + "-"@
        + zero_padded(decimal(date.day), 2) + "T"@ + zero_padded(decimal((secs / 3600) % 24), 2)
        + ":"@ + zero_padded(decimal((secs / 60) % 60), 2) + ":"@ + zero_padded(
        decimal(secs % 60),
        2,
    ) + "Z"@
}

/// How a date is written: year, month and day. A year of more than four digits
/// has a sign.
pub open spec fn date_text(date: Date) -> Seq<char> {
    (if date.year > 9999 {
        "+"@
    } else {
        Seq::empty()
    }) + zero_padded(decimal(date.year), 4) + "-"@ + zero_padded(decimal(date.month), 2) + "-"@
        + zero_padded(decimal(date.day), 2)
}

// ── Years that begin in March ────────────────────────────────────────────────

/// How many days of an era of 400 years have passed when the year `y` of the
/// era begins. These years begin on 1 March, so that a leap day ends its year.
spec fn year_start(y: int) -> int {
    365 * y + y / 4 - y / 100
}

/// Which year of its era a day falls into.
spec fn year_of_day(doe: int) -> int {
    (doe - doe / 1460 + doe / 36524 - doe / 146096) / 365
}

/// The date of the day `doe` of the era `era`.
spec fn era_date(era: int, doe: int) -> Date {
    let yoe = year_of_day(doe);
    let doy = doe - year_start(yoe);
    let mp = (5 * doy + 2) / 153;
    let month = if mp < 10 {
        mp + 3
    } else {
        mp - 9
    };
    Date {
        year: yoe + era * 400 + if month <= 2 {
            1int
        } else {
            0int
        },
        month,
        day: doy - (153 * mp + 2) / 5 + 1,
    }
}

#[verifier::spinoff_prover]
proof fn lemma_year_of_day(doe: int)
    requires
        0 <= doe < 146097,
    ensures
        0 <= year_of_day(doe) < 400,
        year_start(year_of_day(doe)) <= doe,
        doe < year_start(year_of_day(doe) + 1) || year_of_day(doe) == 399,
        doe - year_start(year_of_day(doe)) <= 365,
{
}

#[verifier::spinoff_prover]
proof fn lemma_year_length(y: int)
    requires
        0 <= y,
    ensures
        year_start(y + 1) - year_start(y) == if (y + 1) % 4 == 0 && (y + 1) % 100 != 0 {
            366int
        } else {
            365int
        },
{
    assert((y + 1) / 4 - y / 4 == if (y + 1) % 4 == 0 {
        1int
    } else {
        0int
    });
    assert((y + 1) / 100 - y / 100 == if (y + 1) % 100 == 0 {
        1int
    } else {
        0int
    });
}

proof fn lemma_year_starts(y: int, z: int)
    requires
        0 <= y <= z,
    ensures
        year_start(y) <= year_start(z),
    decreases z - y,
{
    if y < z {
        lemma_year_length(y);
        lemma_year_starts(y + 1, z);
    }
}

/// The day after falls into the same year, or begins the next one.
#[verifier::spinoff_prover]
proof fn lemma_next_year(doe: int)
    requires
        0 <= doe < 146096,
    ensures
        ({
            let y = year_of_day(doe);
            let z = year_of_day(doe + 1);
            ||| z == y && (doe + 1 < year_start(y + 1) || y == 399)
            ||| z == y + 1 && doe + 1 == year_start(y + 1)
        }),
{
    let y = year_of_day(doe);
    let z = year_of_day(doe + 1);
    lemma_year_of_day(doe);
    lemma_year_of_day(doe + 1);
    lemma_year_length(y);
    if y + 1 < z {
        lemma_year_starts(y + 2, z);
        lemma_year_length(y + 1);
    } else if z < y {
        lemma_year_starts(z + 1, y);
    }
}

#[verifier::spinoff_prover]
proof fn lemma_leap(era: int, y: int)
    requires
        0 <= y < 400,
    ensures
        is_leap(y + 1 + era * 400) <==> y == 399 || year_start(y + 1) - year_start(y) == 366,
{
    lemma_year_length(y);
    let year = y + 1 + era * 400;
    assert(year % 4 == (y + 1) % 4);
    assert(year % 100 == (y + 1) % 100);
    assert(year % 400 == (y + 1) % 400);
}

/// The day of the year tells the month and the day of the month: a day later
/// is the next day of the same month, or the first of the next one.
#[verifier::spinoff_prover]
proof fn lemma_month_of_day(doy: int)
    requires
        0 <= doy <= 365,
    ensures
        ({
            let mp = (5 * doy + 2) / 153;
            let day = doy - (153 * mp + 2) / 5 + 1;
            let mp1 = (5 * doy + 7) / 153;
            let day1 = doy + 1 - (153 * mp1 + 2) / 5 + 1;
            let last: int = if mp == 1 || mp == 3 || mp == 6 || mp == 8 {
                30
            } else {
                31
            };
            &&& 0 <= mp <= 11
            &&& 1 <= day <= 31
            &&& mp < 11 ==> day <= last
            &&& mp < 11 && day < last ==> mp1 == mp && day1 == day + 1
            &&& mp < 11 && day == last ==> mp1 == mp + 1 && day1 == 1
            &&& mp == 11 ==> day == doy - 336
            &&& mp == 11 <==> doy >= 337
            &&& mp == 11 && doy < 365 ==> mp1 == mp && day1 == day + 1
        }),
{
    let mp = (5 * doy + 2) / 153;
    assert(mp == 0 || mp == 1 || mp == 2 || mp == 3 || mp == 4 || mp == 5 || mp == 6 || mp == 7
        || mp == 8 || mp == 9 || mp == 10 || mp == 11);
}

/// The day after a day of an era has the date that follows in the calendar.
#[verifier::spinoff_prover]
proof fn lemma_era_step(era: int, doe: int)
    requires
        0 <= doe < 146096,
    ensures
        era_date(era, doe + 1) == next_day(era_date(era, doe)),
{
    let y = year_of_day(doe);
    lemma_year_of_day(doe);
    lemma_month_of_day(doe - year_start(y));
    lemma_next_year(doe);
    lemma_year_length(y);
    lemma_leap(era, y);
}

/// The first day of an era follows the last day of the era before.
#[verifier::spinoff_prover]
proof fn lemma_era_wrap(era: int)
    ensures
        era_date(era + 1, 0) == next_day(era_date(era, 146096)),
{
    assert(is_leap((era + 1) * 400));
}

/// The date of a day, told from its era, is the one that counting gives.
#[verifier::spinoff_prover]
proof fn lemma_date_of(n: nat)
    ensures
        date_of(n) == era_date((n + 719468int) / 146097, (n + 719468int) % 146097),
    decreases n,
{
    if n > 0 {
        lemma_date_of((n - 1) as nat);
        let z = (n - 1 + 719468) as int;
        if z % 146097 == 146096 {
            lemma_era_wrap(z / 146097);
            assert((z + 1) / 146097 == z / 146097 + 1);
            assert((z + 1) % 146097 == 0);
        } else {
            lemma_era_step(z / 146097, z % 146097);
            assert((z + 1) / 146097 == z / 146097);
            assert((z + 1) % 146097 == z % 146097 + 1);
        }
    }
}

/// A date is a day of a month of the calendar.
pub proof fn lemma_date_is_valid(n: nat)
    ensures
        1970 <= date_of(n).year,
        1 <= date_of(n).month <= 12,
        1 <= date_of(n).day <= month_days(date_of(n).year, date_of(n).month),
    decreases n,
{
    if n > 0 {
        lemma_date_is_valid((n - 1) as nat);
    }
}

/// The year, month and day of the day that is `days` after 1 January 1970.
pub fn days_to_ymd(days: u64) -> (r: (u64, u64, u64))
    requires
        days + 719468 <= u64::MAX,
    ensures
        r.0 == date_of(days as nat).year,
        r.1 == date_of(days as nat).month,
        r.2 == date_of(days as nat).day,
{
    proof {
        lemma_date_of(days as nat);
        lemma_year_of_day((days + 719468) % 146097);
    }
    let z: u64 = days + 719_468;
    let era: u64 = z / 146_097;
    let doe: u64 = z % 146_097;
    let yoe: u64 = (doe - doe / 1460 + doe / 36524 - doe / 146_096) / 365;
    let y: u64 = yoe + era * 400;
    let doy: u64 = doe - (365 * yoe + yoe / 4 - yoe / 100);
    proof {
        lemma_month_of_day(doy as int);
    }
    let mp: u64 = (5 * doy + 2) / 153;
    let d: u64 = doy - (153 * mp + 2) / 5 + 1;
    let mo: u64 = if mp < 10 {
        mp + 3
    } else {
        mp - 9
    };
    let y: u64 = if mo <= 2 {
        y + 1
    } else {
        y
    };
    (y, mo, d)
}

/// Writes a moment, given in seconds since the beginning of 1970, as a date and
/// a time of day in UTC. A moment before 1970 is written as the beginning of
/// 1970.
pub fn unix_to_rfc3339(secs: i64) -> (r: String)
    ensures
        r@ == rfc3339_text(if secs < 0 {
            0
        } else {
            secs as int
        }),
{
    let s: u64 = if secs < 0 {
        0
    } else {
        secs as u64
    };
    let (y, mo, d) = days_to_ymd(s / 86400);
    padded_decimal(y, 4).concat("-").concat(padded_decimal(mo, 2).as_str()).concat("-").concat(
        padded_decimal(d, 2).as_str(),
    ).concat("T").concat(padded_decimal((s / 3600) % 24, 2).as_str()).concat(":").concat(
        padded_decimal((s / 60) % 60, 2).as_str(),
    ).concat(":").concat(padded_decimal(s % 60, 2).as_str()).concat("Z")
}

// ── Order ────────────────────────────────────────────────────────────────────

/// Whether two texts agree up to the position `k`, and there the first one ends
/// or has the smaller character.
pub open spec fn first_smaller_at(a: Seq<char>, b: Seq<char>, k: int) -> bool {
    &&& 0 <= k <= a.len()
    &&& k < b.len()
    &&& forall|i: int| 0 <= i < k ==> #[trigger] a[i] == b[i]
    &&& k < a.len() ==> a[k] < b[k]
}

/// Whether one text stands before another when texts are sorted.
pub open spec fn text_before(a: Seq<char>, b: Seq<char>) -> bool {
    exists|k: int| #[trigger] first_smaller_at(a, b, k)
}

/// Whether one date is earlier than another.
pub open spec fn date_before(a: Date, b: Date) -> bool {
    ||| a.year < b.year
    ||| a.year == b.year && a.month < b.month
    ||| a.year == b.year && a.month == b.month && a.day < b.day
}

/// Fewer days after the beginning of 1970 is an earlier date.
pub proof fn lemma_dates_in_order(a: nat, b: nat)
    requires
        a < b,
    ensures
        date_before(date_of(a), date_of(b)),
    decreases b,
{
    let p = (b - 1) as nat;
    lemma_date_is_valid(p);
    assert(date_before(date_of(p), date_of(b)));
    if a < p {
        lemma_dates_in_order(a, p);
    }
}

/// The last day that is written with a year of four digits is 31 December 9999.
proof fn lemma_year_has_four_digits(n: nat)
    requires
        n <= 2932896,
    ensures
        1970 <= date_of(n).year <= 9999,
{
    lemma_date_is_valid(n);
    lemma_date_of(2932896);
    if n < 2932896 {
        lemma_dates_in_order(n, 2932896);
    }
}

proof fn lemma_two_digits(n: int)
    requires
        0 <= n < 100,
    ensures
        zero_padded(decimal(n), 2) == seq![digit_char(n / 10), digit_char(n % 10)],
{
    reveal_with_fuel(numeral, 2);
    reveal_with_fuel(zero_padded, 2);
    if n < 10 {
        assert(seq!['0'] + decimal(n) =~= seq![digit_char(n / 10), digit_char(n % 10)]);
    } else {
        assert(decimal(n) =~= seq![digit_char(n / 10), digit_char(n % 10)]);
    }
}

proof fn lemma_four_digits(n: int)
    requires
        1000 <= n < 10000,
    ensures
        zero_padded(decimal(n), 4) == seq![
            digit_char(n / 1000),
            digit_char((n / 100) % 10),
            digit_char((n / 10) % 10),
            digit_char(n % 10),
        ],
{
    reveal_with_fuel(numeral, 4);
    assert((n / 10) / 10 == n / 100 && (n / 100) / 10 == n / 1000);
    assert(decimal(n) =~= seq![
        digit_char(n / 1000),
        digit_char((n / 100) % 10),
        digit_char((n / 10) % 10),
        digit_char(n % 10),
    ]);
}

/// Whether a text holds the digits of a date and of a time of day where a
/// timestamp has them.
spec fn is_timestamp(s: Seq<char>, date: Date, hour: int, minute: int, second: int) -> bool {
    &&& s.len() == 20
    &&& s[0] == digit_char(date.year / 1000)
    &&& s[1] == digit_char((date.year / 100) % 10)
    &&& s[2] == digit_char((date.year / 10) % 10)
    &&& s[3] == digit_char(date.year % 10)
    &&& s[4] == '-'
    &&& s[5] == digit_char(date.month / 10)
    &&& s[6] == digit_char(date.month % 10)
    &&& s[7] == '-'
    &&& s[8] == digit_char(date.day / 10)
    &&& s[9] == digit_char(date.day % 10)
    &&& s[10] == 'T'
    &&& s[11] == digit_char(hour / 10)
    &&& s[12] == digit_char(hour % 10)
    &&& s[13] == ':'
    &&& s[14] == digit_char(minute / 10)
    &&& s[15] == digit_char(minute % 10)
    &&& s[16] == ':'
    &&& s[17] == digit_char(second / 10)
    &&& s[18] == digit_char(second % 10)
    &&& s[19] == 'Z'
}

#[verifier::spinoff_prover]
proof fn lemma_is_timestamp(secs: int)
    requires
        0 <= secs < 253402300800,
    ensures
        is_timestamp(
            rfc3339_text(secs),
            date_of((secs / 86400) as nat),
            (secs / 3600) % 24,
            (secs / 60) % 60,
            secs % 60,
        ),
        1970 <= date_of((secs / 86400) as nat).year <= 9999,
{
    let date = date_of((secs / 86400) as nat);
    lemma_date_is_valid((secs / 86400) as nat);
    lemma_year_has_four_digits((secs / 86400) as nat);
    lemma_four_digits(date.year);
    lemma_two_digits(date.month);
    lemma_two_digits(date.day);
    lemma_two_digits((secs / 3600) % 24);
    lemma_two_digits((secs / 60) % 60);
    lemma_two_digits(secs % 60);
    reveal_strlit("-");
    reveal_strlit("T");
    reveal_strlit(":");
    reveal_strlit("Z");
}

/// Within a day, the later moment has the later time of day.
proof fn lemma_times_in_order(a: int, b: int)
    requires
        0 <= a < b,
        a / 86400 == b / 86400,
    ensures
        ({
            let (h, i) = ((a / 3600) % 24, (b / 3600) % 24);
            let (m, n) = ((a / 60) % 60, (b / 60) % 60);
            ||| h < i
            ||| h == i && m < n
            ||| h == i && m == n && a % 60 < b % 60
        }),
{
    assert(a / 3600 == 24 * (a / 86400) + (a / 3600) % 24);
    assert(b / 3600 == 24 * (b / 86400) + (b / 3600) % 24);
    assert(a / 60 == 60 * (a / 3600) + (a / 60) % 60);
    assert(b / 60 == 60 * (b / 3600) + (b / 60) % 60);
}

/// The two digits of the smaller number stand first.
proof fn lemma_digits_in_order(n: int, m: int)
    requires
        0 <= n < m < 100,
    ensures
        digit_char(n / 10) < digit_char(m / 10) || digit_char(n / 10) == digit_char(m / 10)
            && digit_char(n % 10) < digit_char(m % 10),
{
}

/// The digits of a year are those of its first and of its second half.
proof fn lemma_year_halves(y: int)
    requires
        0 <= y < 10000,
    ensures
        y / 1000 == (y / 100) / 10,
        (y / 10) % 10 == (y % 100) / 10,
        y % 10 == (y % 100) % 10,
{
    assert(y == 100 * (y / 100) + y % 100);
    assert(y / 10 == 10 * (y / 100) + (y % 100) / 10);
}

/// Texts that agree up to the position `k` and hold the digits of a smaller and
/// of a larger number there are in order.
proof fn lemma_order_at(s: Seq<char>, t: Seq<char>, k: int, n: int, m: int)
    requires
        0 <= k < s.len() - 1,
        s.len() == t.len(),
        forall|i: int| 0 <= i < k ==> #[trigger] s[i] == t[i],
        0 <= n < m < 100,
        s[k] == digit_char(n / 10),
        s[k + 1] == digit_char(n % 10),
        t[k] == digit_char(m / 10),
        t[k + 1] == digit_char(m % 10),
    ensures
        text_before(s, t),
{
    lemma_digits_in_order(n, m);
    if s[k] < t[k] {
        assert(first_smaller_at(s, t, k));
    } else {
        assert(first_smaller_at(s, t, k + 1));
    }
}

/// The timestamp of an earlier date stands first.
proof fn lemma_order_by_date(
    s: Seq<char>,
    d: Date,
    h: int,
    m: int,
    x: int,
    t: Seq<char>,
    e: Date,
    i: int,
    n: int,
    z: int,
)
    requires
        is_timestamp(s, d, h, m, x),
        is_timestamp(t, e, i, n, z),
        date_before(d, e),
        0 <= d.year <= 9999,
        0 <= e.year <= 9999,
        1 <= d.month <= 12,
        1 <= e.month <= 12,
        1 <= d.day <= 31,
        1 <= e.day <= 31,
    ensures
        text_before(s, t),
{
    if d.year < e.year {
        lemma_year_halves(d.year);
        lemma_year_halves(e.year);
        if d.year / 100 < e.year / 100 {
            lemma_order_at(s, t, 0, d.year / 100, e.year / 100);
        } else {
            lemma_order_at(s, t, 2, d.year % 100, e.year % 100);
        }
    } else if d.month < e.month {
        lemma_order_at(s, t, 5, d.month, e.month);
    } else {
        lemma_order_at(s, t, 8, d.day, e.day);
    }
}

/// Of two timestamps of one day, the one with the earlier time stands first.
proof fn lemma_order_by_time(
    s: Seq<char>,
    t: Seq<char>,
    d: Date,
    h: int,
    m: int,
    x: int,
    i: int,
    n: int,
    z: int,
)
    requires
        is_timestamp(s, d, h, m, x),
        is_timestamp(t, d, i, n, z),
        h < i || h == i && m < n || h == i && m == n && x < z,
        0 <= h < 24,
        0 <= i < 24,
        0 <= m < 60,
        0 <= n < 60,
        0 <= x < 60,
        0 <= z < 60,
    ensures
        text_before(s, t),
{
    if h < i {
        lemma_order_at(s, t, 11, h, i);
    } else if m < n {
        lemma_order_at(s, t, 14, m, n);
    } else {
        lemma_order_at(s, t, 17, x, z);
    }
}

/// Timestamps of different moments are texts of one length, and the text of the
/// earlier moment stands first, up to the end of the year 9999.
pub proof fn lemma_timestamps_sort_by_time(a: int, b: int)
    requires
        0 <= a < b < 253402300800,
    ensures
        text_before(rfc3339_text(a), rfc3339_text(b)),
        rfc3339_text(a).len() == 20,
        rfc3339_text(b).len() == 20,
{
    lemma_is_timestamp(a);
    lemma_is_timestamp(b);
    let s = rfc3339_text(a);
    let t = rfc3339_text(b);
    let d = date_of((a / 86400) as nat);
    let e = date_of((b / 86400) as nat);
    lemma_date_is_valid((a / 86400) as nat);
    lemma_date_is_valid((b / 86400) as nat);
    let (h, m, x) = ((a / 3600) % 24, (a / 60) % 60, a % 60);
    let (i, n, z) = ((b / 3600) % 24, (b / 60) % 60, b % 60);
    if a / 86400 < b / 86400 {
        lemma_dates_in_order((a / 86400) as nat, (b / 86400) as nat);
        lemma_order_by_date(s, d, h, m, x, t, e, i, n, z);
    } else {
        lemma_times_in_order(a, b);
        lemma_order_by_time(s, t, d, h, m, x, i, n, z);
    }
}

} // verus!
