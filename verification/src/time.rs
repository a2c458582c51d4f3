//! Calendar instants with a fixed UTC offset.
//!
//! A [`Timestamp`] holds the seven calendar fields of an RFC 3339 date-time
//! together with its offset from UTC in minutes.  The proleptic Gregorian
//! calendar over the years 0 through 9999 is modelled by recursive day
//! counts ([`days_before_year`], [`days_before_month`]); an instant is the
//! number of nanoseconds since the Unix epoch ([`instant_nanos`]).

use vstd::prelude::*;

verus! {

/// Days from 0000-01-01 to 1970-01-01 in the proleptic Gregorian calendar.
pub const DAYS_TO_UNIX_EPOCH: i64 = 719528;

/// A calendar date-time with a fixed offset from UTC, as carried by an
/// RFC 3339 text: `year-month-day T hour:minute:second[.nanos] offset`.
#[derive(Clone, Copy, Debug, PartialEq, Eq, Structural)]
pub struct Timestamp {
    pub year: i64,
    pub month: u8,
    pub day: u8,
    pub hour: u8,
    pub minute: u8,
    pub second: u8,
    pub nanos: u32,
    /// Offset of local time ahead of UTC, in minutes.
    pub offset_minutes: i64,
}

/// A leap year of the proleptic Gregorian calendar.
pub open spec fn is_leap_year(y: int) -> bool {
    y % 4 == 0 && (y % 100 != 0 || y % 400 == 0)
}

/// Number of days in month `m` (1-based) of year `y`.
pub open spec fn days_in_month(y: int, m: int) -> int {
    if m == 2 {
        if is_leap_year(y) {
            29
        } else {
            28
        }
    } else if m == 4 || m == 6 || m == 9 || m == 11 {
        30
    } else {
        31
    }
}

/// Number of days in year `y`.
pub open spec fn days_in_year(y: int) -> int {
    if is_leap_year(y) {
        366
    } else {
        365
    }
}

/// Days in all years before year `y`, counted from year 0.
pub open spec fn days_before_year(y: nat) -> int
    decreases y,
{
    if y == 0 {
        0
    } else {
        days_before_year((y - 1) as nat) + days_in_year(y - 1)
    }
}

/// Days in year `y` before month `m` (1-based).
pub open spec fn days_before_month(y: int, m: nat) -> int
    decreases m,
{
    if m <= 1 {
        0
    } else {
        days_before_month(y, (m - 1) as nat) + days_in_month(y, m - 1)
    }
}

/// Day count of the date `y-m-d` since 0000-01-01.
pub open spec fn day_index(y: int, m: int, d: int) -> int {
    days_before_year(y as nat) + days_before_month(y, m as nat) + d - 1
}

impl Timestamp {
    /// All fields within their calendar and offset ranges.
    pub open spec fn wf(&self) -> bool {
        &&& 0 <= self.year <= 9999
        &&& 1 <= self.month <= 12
        &&& 1 <= self.day <= days_in_month(self.year as int, self.month as int)
        &&& self.hour <= 23
        &&& self.minute <= 59
        &&& self.second <= 59
        &&& self.nanos <= 999_999_999
        &&& -1439 <= self.offset_minutes <= 1439
    }

    /// Seconds since the Unix epoch of the instant this date-time denotes.
    pub open spec fn epoch_seconds(&self) -> int {
        (day_index(self.year as int, self.month as int, self.day as int) - DAYS_TO_UNIX_EPOCH)
            * 86400 + self.hour * 3600 + self.minute * 60 + self.second - self.offset_minutes * 60
    }

    /// Nanoseconds since the Unix epoch: the instant the date-time denotes.
    pub open spec fn instant_nanos(&self) -> int {
        self.epoch_seconds() * 1_000_000_000 + self.nanos
    }
}

/// `days_before_year` grows by whole years, so it is bounded by 366 days a year.
pub proof fn lemma_days_before_year_bounds(y: nat)
    ensures
        365 * y <= days_before_year(y) <= 366 * y,
    decreases y,
{
    if y > 0 {
        lemma_days_before_year_bounds((y - 1) as nat);
    }
}

/// `days_before_month` is bounded by 31 days a month.
pub proof fn lemma_days_before_month_bounds(y: int, m: nat)
    ensures
        0 <= days_before_month(y, m) <= 31 * m,
    decreases m,
{
    if m > 1 {
        lemma_days_before_month_bounds(y, (m - 1) as nat);
    }
}

/// Leap-year test.
pub fn leap_year(y: i64) -> (r: bool)
    requires
        y >= 0,
    ensures
        r == is_leap_year(y as int),
{
    y % 4 == 0 && (y % 100 != 0 || y % 400 == 0)
}

/// Day count of month `m` in year `y`.
pub fn month_length(y: i64, m: u8) -> (r: u8)
    requires
        y >= 0,
    ensures
        r == days_in_month(y as int, m as int),
{
    if m == 2 {
        if leap_year(y) {
            29
        } else {
            28
        }
    } else if m == 4 || m == 6 || m == 9 || m == 11 {
        30
    } else {
        31
    }
}

/// Days in all years before year `y`.
fn days_before_year_exec(y: i64) -> (r: i64)
    requires
        0 <= y <= 10000,
    ensures
        r == days_before_year(y as nat),
{
    let mut i: i64 = 0;
    let mut acc: i64 = 0;
    while i < y
        invariant
            0 <= i <= y <= 10000,
            acc == days_before_year(i as nat),
            0 <= acc <= 366 * i,
        decreases y - i,
    {
        proof {
            lemma_days_before_year_bounds((i + 1) as nat);
        }
        if leap_year(i) {
            acc = acc + 366;
        } else {
            acc = acc + 365;
        }
        i = i + 1;
    }
    acc
}

/// Days in year `y` before month `m`.
fn days_before_month_exec(y: i64, m: u8) -> (r: i64)
    requires
        y >= 0,
        1 <= m <= 12,
    ensures
        r == days_before_month(y as int, m as nat),
{
    let mut i: u8 = 1;
    let mut acc: i64 = 0;
    while i < m
        invariant
            y >= 0,
            1 <= i <= m <= 12,
            acc == days_before_month(y as int, i as nat),
            0 <= acc <= 31 * i,
        decreases m - i,
    {
        acc = acc + month_length(y, i) as i64;
        i = i + 1;
    }
    acc
}

impl Timestamp {
    /// Field-range check, usable by callers that build a `Timestamp` from
    /// unchecked values.
    pub fn is_valid(&self) -> (r: bool)
        ensures
            r == self.wf(),
    {
        0 <= self.year && self.year <= 9999 && 1 <= self.month && self.month <= 12 && 1 <= self.day
            && self.day <= month_length(self.year, self.month) && self.hour <= 23 && self.minute
            <= 59 && self.second <= 59 && self.nanos <= 999_999_999 && -1439 <= self.offset_minutes
            && self.offset_minutes <= 1439
    }

    /// Orders two date-times by the instants they denote, not by their
    /// fields: `2000-01-01T01:00:00+01:00` equals `2000-01-01T00:00:00Z`.
    pub fn instant_le(&self, other: &Timestamp) -> (r: bool)
        requires
            self.wf(),
            other.wf(),
        ensures
            r == (self.instant_nanos() <= other.instant_nanos()),
    {
        let ea = self.to_epoch_seconds();
        let eb = other.to_epoch_seconds();
        proof {
            lemma_instant_order(*self, *other);
        }
        ea < eb || (ea == eb && self.nanos <= other.nanos)
    }

    /// Seconds since the Unix epoch.
    pub fn to_epoch_seconds(&self) -> (r: i64)
        requires
            self.wf(),
        ensures
            r == self.epoch_seconds(),
    {
        proof {
            lemma_days_before_year_bounds(self.year as nat);
            lemma_days_before_month_bounds(self.year as int, self.month as nat);
        }
        let days = days_before_year_exec(self.year) + days_before_month_exec(
            self.year,
            self.month,
        ) + self.day as i64 - 1;
        (days - DAYS_TO_UNIX_EPOCH) * 86400 + self.hour as i64 * 3600 + self.minute as i64 * 60
            + self.second as i64 - self.offset_minutes * 60
    }
}

/// Instants order lexicographically by (epoch seconds, nanoseconds).
proof fn lemma_instant_order(a: Timestamp, b: Timestamp)
    requires
        a.nanos <= 999_999_999,
        b.nanos <= 999_999_999,
    ensures
        (a.instant_nanos() <= b.instant_nanos()) == (a.epoch_seconds() < b.epoch_seconds() || (
        a.epoch_seconds() == b.epoch_seconds() && a.nanos <= b.nanos)),
{
    let ea = a.epoch_seconds();
    let eb = b.epoch_seconds();
    assert(ea < eb ==> ea * 1_000_000_000 + a.nanos < eb * 1_000_000_000 + b.nanos)
        by (nonlinear_arith)
        requires
            a.nanos < 1_000_000_000,
            0 <= b.nanos,
            ea == a.epoch_seconds(),
            eb == b.epoch_seconds(),
    ;
    assert(eb < ea ==> eb * 1_000_000_000 + b.nanos < ea * 1_000_000_000 + a.nanos)
        by (nonlinear_arith)
        requires
            b.nanos < 1_000_000_000,
            0 <= a.nanos,
            ea == a.epoch_seconds(),
            eb == b.epoch_seconds(),
    ;
}

/// A validated request range: both endpoints parsed, start not after end.
#[derive(Clone, Copy, Debug, PartialEq, Eq, Structural)]
pub struct TimeRange {
    pub start: Timestamp,
    pub end: Timestamp,
}

impl TimeRange {
    /// Both endpoints well formed and ordered by instant.
    pub open spec fn wf(&self) -> bool {
        &&& self.start.wf()
        &&& self.end.wf()
        &&& self.start.instant_nanos() <= self.end.instant_nanos()
    }
}

impl Timestamp {
    /// The local midnight that opens the calendar day this date-time
    /// falls on, in the same offset.
    pub fn start_of_day(&self) -> (r: Timestamp)
        requires
            self.wf(),
        ensures
            r.wf(),
            r == (Timestamp { hour: 0, minute: 0, second: 0, nanos: 0, ..*self }),
    {
        Timestamp { hour: 0, minute: 0, second: 0, nanos: 0, ..*self }
    }
}

// ---------------------------------------------------------------------------
// RFC 3339 text: the accepted grammar, as spec functions.
// ---------------------------------------------------------------------------
/// An ASCII decimal digit.
pub open spec fn is_digit(c: char) -> bool {
    48 <= c as u32 <= 57
}

/// Value of an ASCII decimal digit.
pub open spec fn digit_val(c: char) -> int {
    c as u32 - 48
}

/// Digits at positions `i` and `i + 1`.
pub open spec fn two_digits_at(s: Seq<char>, i: int) -> bool {
    is_digit(s[i]) && is_digit(s[i + 1])
}

/// Value of the two digits at positions `i` and `i + 1`.
pub open spec fn two_digit_val(s: Seq<char>, i: int) -> int {
    digit_val(s[i]) * 10 + digit_val(s[i + 1])
}

/// Digits at positions `i` through `i + 3`.
pub open spec fn four_digits_at(s: Seq<char>, i: int) -> bool {
    is_digit(s[i]) && is_digit(s[i + 1]) && is_digit(s[i + 2]) && is_digit(s[i + 3])
}

/// Value of the four digits at positions `i` through `i + 3`.
pub open spec fn four_digit_val(s: Seq<char>, i: int) -> int {
    digit_val(s[i]) * 1000 + digit_val(s[i + 1]) * 100 + digit_val(s[i + 2]) * 10 + digit_val(
        s[i + 3],
    )
}

/// The fixed `date "T" partial-time` prefix of an RFC 3339 date-time:
/// `YYYY-MM-DDThh:mm:ss` with `T` in either case.
pub open spec fn date_time_shape(s: Seq<char>) -> bool {
    &&& s.len() >= 19
    &&& four_digits_at(s, 0)
    &&& s[4] == '-'
    &&& two_digits_at(s, 5)
    &&& s[7] == '-'
    &&& two_digits_at(s, 8)
    &&& (s[10] == 'T' || s[10] == 't')
    &&& two_digits_at(s, 11)
    &&& s[13] == ':'
    &&& two_digits_at(s, 14)
    &&& s[16] == ':'
    &&& two_digits_at(s, 17)
}

/// Index of the first non-digit at or after `i`.
pub open spec fn digit_run_end(s: Seq<char>, i: int) -> int
    decreases s.len() - i,
{
    if i < 0 || i >= s.len() || !is_digit(s[i]) {
        i
    } else {
        digit_run_end(s, i + 1)
    }
}

/// Value of the digits at positions `i` (inclusive) through `j` (exclusive).
pub open spec fn digits_val(s: Seq<char>, i: int, j: int) -> int
    decreases j - i,
{
    if j <= i {
        0
    } else {
        digits_val(s, i, j - 1) * 10 + digit_val(s[j - 1])
    }
}

/// Ten to the `n`th.
pub open spec fn pow10(n: nat) -> int
    decreases n,
{
    if n == 0 {
        1
    } else {
        10 * pow10((n - 1) as nat)
    }
}

/// The optional `time-secfrac` at position `i`: `.` followed by one to nine
/// digits.  Yields the value scaled to nanoseconds and the index just past
/// the fraction; yields `None` when a fraction starts but is malformed.
pub open spec fn parse_frac(s: Seq<char>, i: int) -> Option<(int, int)> {
    if i < s.len() && s[i] == '.' {
        let fe = digit_run_end(s, i + 1);
        if fe == i + 1 || fe > i + 10 {
            None
        } else {
            Some((digits_val(s, i + 1, fe) * pow10((9 - (fe - i - 1)) as nat), fe))
        }
    } else {
        Some((0, i))
    }
}

/// The `time-offset` that must end the text at position `i`: `Z` in either
/// case, or a signed `hh:mm` no further than 23:59 from UTC.  Yields the
/// offset in minutes.
pub open spec fn parse_offset(s: Seq<char>, i: int) -> Option<int> {
    if i >= s.len() {
        None
    } else if (s[i] == 'Z' || s[i] == 'z') && s.len() == i + 1 {
        Some(0)
    } else if (s[i] == '+' || s[i] == '-') && s.len() == i + 6 && two_digits_at(s, i + 1) && s[i
        + 3] == ':' && two_digits_at(s, i + 4) && two_digit_val(s, i + 1) <= 23 && two_digit_val(
        s,
        i + 4,
    ) <= 59 {
        let m = two_digit_val(s, i + 1) * 60 + two_digit_val(s, i + 4);
        if s[i] == '-' {
            Some(-m)
        } else {
            Some(m)
        }
    } else {
        None
    }
}

/// The date-time an RFC 3339 text denotes, or `None` where the text is not
/// a well-formed date-time with an offset.  A leap second (`:60`) is
/// folded onto second 59, since the epoch arithmetic counts no leap
/// seconds; fractions carry at most nine digits.
pub open spec fn spec_parse_rfc3339(s: Seq<char>) -> Option<Timestamp> {
    if !date_time_shape(s) {
        None
    } else {
        let y = four_digit_val(s, 0);
        let mo = two_digit_val(s, 5);
        let d = two_digit_val(s, 8);
        let h = two_digit_val(s, 11);
        let mi = two_digit_val(s, 14);
        let sec = two_digit_val(s, 17);
        match parse_frac(s, 19) {
            None => None,
            Some((ns, rest)) => match parse_offset(s, rest) {
                None => None,
                Some(off) => {
                    if 1 <= mo <= 12 && 1 <= d <= days_in_month(y, mo) && h <= 23 && mi <= 59
                        && sec <= 60 {
                        Some(
                            Timestamp {
                                year: y as i64,
                                month: mo as u8,
                                day: d as u8,
                                hour: h as u8,
                                minute: mi as u8,
                                second: (if sec == 60 {
                                    59int
                                } else {
                                    sec
                                }) as u8,
                                nanos: ns as u32,
                                offset_minutes: off as i64,
                            },
                        )
                    } else {
                        None
                    }
                },
            },
        }
    }
}

proof fn lemma_pow10_pos(n: nat)
    ensures
        pow10(n) >= 1,
    decreases n,
{
    if n > 0 {
        lemma_pow10_pos((n - 1) as nat);
    }
}

proof fn lemma_pow10_mono(a: nat, b: nat)
    requires
        a <= b,
    ensures
        1 <= pow10(a) <= pow10(b),
    decreases b,
{
    lemma_pow10_pos(a);
    if a < b {
        lemma_pow10_mono(a, (b - 1) as nat);
    }
}

proof fn lemma_pow10_add(a: nat, b: nat)
    ensures
        pow10(a + b) == pow10(a) * pow10(b),
    decreases a,
{
    if a == 0 {
    } else {
        lemma_pow10_add((a - 1) as nat, b);
        assert(10 * (pow10((a - 1) as nat) * pow10(b)) == (10 * pow10((a - 1) as nat)) * pow10(b))
            by (nonlinear_arith);
    }
}

/// The digit run that starts at `i` spans exactly `[i, digit_run_end(s, i))`.
pub proof fn lemma_digit_run_end(s: Seq<char>, i: int)
    requires
        0 <= i <= s.len(),
    ensures
        i <= digit_run_end(s, i) <= s.len(),
        forall|q: int| i <= q < digit_run_end(s, i) ==> is_digit(#[trigger] s[q]),
        digit_run_end(s, i) == s.len() || !is_digit(s[digit_run_end(s, i)]),
    decreases s.len() - i,
{
    if i < s.len() && is_digit(s[i]) {
        lemma_digit_run_end(s, i + 1);
    }
}

/// A run of `j - i` digits is worth less than ten to the `j - i`.
proof fn lemma_digits_val_bound(s: Seq<char>, i: int, j: int)
    requires
        i <= j,
        forall|q: int| i <= q < j ==> is_digit(#[trigger] s[q]),
    ensures
        0 <= digits_val(s, i, j) < pow10((j - i) as nat),
    decreases j - i,
{
    if j > i {
        lemma_digits_val_bound(s, i, j - 1);
    }
}

fn pow10_exec(k: u32) -> (r: u32)
    requires
        k <= 9,
    ensures
        r == pow10(k as nat),
{
    proof {
        assert(pow10(9) == 1_000_000_000) by {
            reveal_with_fuel(pow10, 10);
        }
    }
    let mut i: u32 = 0;
    let mut acc: u32 = 1;
    while i < k
        invariant
            i <= k <= 9,
            acc == pow10(i as nat),
            pow10(9int as nat) == 1_000_000_000,
        decreases k - i,
    {
        proof {
            lemma_pow10_mono((i + 1) as nat, 9nat);
        }
        acc = acc * 10;
        i = i + 1;
    }
    acc
}

fn read_digit(s: &str, i: usize) -> (r: Option<u32>)
    requires
        i < s@.len(),
    ensures
        (r is Some) == is_digit(s@[i as int]),
        r matches Some(d) ==> d == digit_val(s@[i as int]) && d <= 9,
{
    let c = s.get_char(i);
    let u = c as u32;
    if 48 <= u && u <= 57 {
        Some(u - 48)
    } else {
        None
    }
}

fn read_two(s: &str, i: usize) -> (r: Option<u32>)
    requires
        i + 1 < s@.len(),
        s@.len() <= usize::MAX,
    ensures
        (r is Some) == two_digits_at(s@, i as int),
        r matches Some(v) ==> v == two_digit_val(s@, i as int) && v <= 99,
{
    match (read_digit(s, i), read_digit(s, i + 1)) {
        (Some(a), Some(b)) => Some(a * 10 + b),
        _ => None,
    }
}

fn read_four(s: &str, i: usize) -> (r: Option<u32>)
    requires
        i + 3 < s@.len(),
        s@.len() <= usize::MAX,
    ensures
        (r is Some) == four_digits_at(s@, i as int),
        r matches Some(v) ==> v == four_digit_val(s@, i as int) && v <= 9999,
{
    match (read_digit(s, i), read_digit(s, i + 1), read_digit(s, i + 2), read_digit(s, i + 3)) {
        (Some(a), Some(b), Some(c), Some(d)) => Some(a * 1000 + b * 100 + c * 10 + d),
        _ => None,
    }
}

/// Parses an RFC 3339 date-time with offset, as [`spec_parse_rfc3339`]
/// describes it; `None` on any malformed text.
pub fn parse_rfc3339(s: &str) -> (r: Option<Timestamp>)
    ensures
        r == spec_parse_rfc3339(s@),
        r matches Some(ts) ==> ts.wf(),
{
    let n = s.unicode_len();
    if n < 19 {
        return None;
    }
    let y = match read_four(s, 0) {
        Some(v) => v,
        None => {
            return None;
        },
    };
    if s.get_char(4) != '-' {
        return None;
    }
    let mo = match read_two(s, 5) {
        Some(v) => v,
        None => {
            return None;
        },
    };
    if s.get_char(7) != '-' {
        return None;
    }
    let d = match read_two(s, 8) {
        Some(v) => v,
        None => {
            return None;
        },
    };
    let t = s.get_char(10);
    if !(t == 'T' || t == 't') {
        return None;
    }
    let h = match read_two(s, 11) {
        Some(v) => v,
        None => {
            return None;
        },
    };
    if s.get_char(13) != ':' {
        return None;
    }
    let mi = match read_two(s, 14) {
        Some(v) => v,
        None => {
            return None;
        },
    };
    if s.get_char(16) != ':' {
        return None;
    }
    let sec = match read_two(s, 17) {
        Some(v) => v,
        None => {
            return None;
        },
    };
    assert(date_time_shape(s@));
    // Optional fraction of a second.
    let mut ns: u32 = 0;
    let mut rest: usize = 19;
    if n > 19 && s.get_char(19) == '.' {
        let mut j: usize = 20;
        loop
            invariant
                20 <= j <= n,
                n == s@.len(),
                digit_run_end(s@, 20) == digit_run_end(s@, j as int),
            ensures
                20 <= j <= n,
                j == digit_run_end(s@, 20),
            decreases n - j,
        {
            if j == n {
                break ;
            }
            if read_digit(s, j).is_none() {
                break ;
            }
            j = j + 1;
        }
        proof {
            lemma_digit_run_end(s@, 20);
        }
        if j == 20 || j > 29 {
            return None;
        }
        let k = (j - 20) as u32;
        let mut val: u32 = 0;
        let mut p: usize = 20;
        proof {
            assert(pow10(9) == 1_000_000_000) by {
                reveal_with_fuel(pow10, 10);
            }
        }
        while p < j
            invariant
                20 <= p <= j <= 29,
                val == digits_val(s@, 20, p as int),
                0 <= val < pow10((p - 20) as nat),
                j <= s@.len(),
                forall|q: int| 20 <= q < j ==> is_digit(#[trigger] s@[q]),
                pow10(9int as nat) == 1_000_000_000,
            decreases j - p,
        {
            proof {
                lemma_pow10_mono((p - 20 + 1) as nat, 9nat);
            }
            let dd = match read_digit(s, p) {
                Some(v) => v,
                None => {
                    proof {
                        assert(is_digit(s@[p as int]));
                    }
                    return None;
                },
            };
            val = val * 10 + dd;
            p = p + 1;
        }
        let mult = pow10_exec(9 - k);
        proof {
            lemma_digits_val_bound(s@, 20, j as int);
            lemma_pow10_add(k as nat, (9 - k) as nat);
            lemma_pow10_mono((9 - k) as nat, 9nat);
            assert(val * mult < 1_000_000_000) by (nonlinear_arith)
                requires
                    0 <= val,
                    val < pow10(k as nat),
                    mult == pow10((9 - k) as nat),
                    mult >= 1,
                    pow10(k as nat) * pow10((9 - k) as nat) == 1_000_000_000,
            ;
        }
        ns = val * mult;
        rest = j;
    }
    // Offset.
    if rest >= n {
        return None;
    }
    let c0 = s.get_char(rest);
    let off: i64;
    if c0 == 'Z' || c0 == 'z' {
        if n - rest != 1 {
            return None;
        }
        off = 0;
    } else if c0 == '+' || c0 == '-' {
        if n - rest != 6 {
            return None;
        }
        let hh = match read_two(s, rest + 1) {
            Some(v) => v,
            None => {
                return None;
            },
        };
        if s.get_char(rest + 3) != ':' {
            return None;
        }
        let mm = match read_two(s, rest + 4) {
            Some(v) => v,
            None => {
                return None;
            },
        };
        if hh > 23 || mm > 59 {
            return None;
        }
        let m = (hh * 60 + mm) as i64;
        off = if c0 == '-' {
            -m
        } else {
            m
        };
    } else {
        return None;
    }
    // Field ranges.
    if mo < 1 || mo > 12 {
        return None;
    }
    let dim = month_length(y as i64, mo as u8);
    if d < 1 || d > dim as u32 {
        return None;
    }
    if h > 23 || mi > 59 || sec > 60 {
        return None;
    }
    Some(
        Timestamp {
            year: y as i64,
            month: mo as u8,
            day: d as u8,
            hour: h as u8,
            minute: mi as u8,
            second: if sec == 60 {
                59
            } else {
                sec as u8
            },
            nanos: ns,
            offset_minutes: off,
        },
    )
}

// ---------------------------------------------------------------------------
// Rendering a Timestamp as canonical RFC 3339 text.
// ---------------------------------------------------------------------------
/// The ASCII digit for a value 0 through 9.
pub open spec fn digit_char(d: int) -> char {
    ((d + 48) as u8) as char
}

/// The last `n` decimal digits of `v`, most significant first.
pub open spec fn digits_of(v: int, n: nat) -> Seq<char>
    decreases n,
{
    if n == 0 {
        Seq::<char>::empty()
    } else {
        digits_of(v / 10, (n - 1) as nat) + seq![digit_char(v % 10)]
    }
}

/// The `full-date` part: `YYYY-MM-DD`.
pub open spec fn spec_date_text(ts: Timestamp) -> Seq<char> {
    digits_of(ts.year as int, 4) + seq!['-'] + digits_of(ts.month as int, 2) + seq!['-']
        + digits_of(ts.day as int, 2)
}

/// The `partial-time` part without fraction: `hh:mm:ss`.
pub open spec fn spec_time_text(ts: Timestamp) -> Seq<char> {
    digits_of(ts.hour as int, 2) + seq![':'] + digits_of(ts.minute as int, 2) + seq![':']
        + digits_of(ts.second as int, 2)
}

/// The fraction: empty for zero nanoseconds, else `.` and nine digits.
pub open spec fn spec_frac_text(ts: Timestamp) -> Seq<char> {
    if ts.nanos == 0 {
        Seq::<char>::empty()
    } else {
        seq!['.'] + digits_of(ts.nanos as int, 9)
    }
}

/// The numeric offset: `+hh:mm` or `-hh:mm`.
pub open spec fn spec_offset_text(off: int) -> Seq<char> {
    if off >= 0 {
        seq!['+'] + digits_of(off / 60, 2) + seq![':'] + digits_of(off % 60, 2)
    } else {
        seq!['-'] + digits_of((-off) / 60, 2) + seq![':'] + digits_of((-off) % 60, 2)
    }
}

/// The canonical RFC 3339 rendering of a date-time: uppercase `T`, at most
/// one nine-digit fraction, always a numeric offset.
pub open spec fn spec_rfc3339_text(ts: Timestamp) -> Seq<char> {
    spec_date_text(ts) + seq!['T'] + spec_time_text(ts) + spec_frac_text(ts) + spec_offset_text(
        ts.offset_minutes as int,
    )
}

/// An ASCII digit round-trips through its character.
proof fn lemma_digit_char_val(d: int)
    requires
        0 <= d <= 9,
    ensures
        is_digit(digit_char(d)),
        digit_val(digit_char(d)) == d,
{
}

fn digit_str(d: u8) -> (r: &'static str)
    requires
        d <= 9,
    ensures
        r@ =~= seq![digit_char(d as int)],
{
    proof {
        reveal_strlit("0");
        reveal_strlit("1");
        reveal_strlit("2");
        reveal_strlit("3");
        reveal_strlit("4");
        reveal_strlit("5");
        reveal_strlit("6");
        reveal_strlit("7");
        reveal_strlit("8");
        reveal_strlit("9");
    }
    match d {
        0 => "0",
        1 => "1",
        2 => "2",
        3 => "3",
        4 => "4",
        5 => "5",
        6 => "6",
        7 => "7",
        8 => "8",
        _ => "9",
    }
}

/// Appends the last `n` decimal digits of `v`, most significant first.
fn push_digits(out: &mut String, v: u32, n: u32)
    requires
        n <= 9,
        v < pow10(n as nat),
    ensures
        final(out)@ == old(out)@ + digits_of(v as int, n as nat),
    decreases n,
{
    if n == 0 {
        proof {
            assert(final(out)@ =~= old(out)@ + digits_of(v as int, 0));
        }
        return ;
    }
    proof {
        lemma_pow10_pos((n - 1) as nat);
        assert(v / 10 < pow10((n - 1) as nat)) by (nonlinear_arith)
            requires
                v < pow10(n as nat),
                pow10(n as nat) == 10 * pow10((n - 1) as nat),
                pow10((n - 1) as nat) >= 1,
        ;
    }
    push_digits(out, v / 10, n - 1);
    out.append(digit_str((v % 10) as u8));
    proof {
        assert(out@ =~= old(out)@ + digits_of(v as int, n as nat));
    }
}

/// Renders the date-time as canonical RFC 3339 text,
/// as [`spec_rfc3339_text`] describes it.
pub fn format_rfc3339(ts: &Timestamp) -> (r: String)
    requires
        ts.wf(),
    ensures
        r@ == spec_rfc3339_text(*ts),
{
    proof {
        assert(pow10(2) == 100 && pow10(4) == 10000 && pow10(9) == 1_000_000_000) by {
            reveal_with_fuel(pow10, 10);
        }
    }
    let mut out = String::new();
    push_digits(&mut out, ts.year as u32, 4);
    out.append("-");
    push_digits(&mut out, ts.month as u32, 2);
    out.append("-");
    push_digits(&mut out, ts.day as u32, 2);
    out.append("T");
    push_digits(&mut out, ts.hour as u32, 2);
    out.append(":");
    push_digits(&mut out, ts.minute as u32, 2);
    out.append(":");
    push_digits(&mut out, ts.second as u32, 2);
    if ts.nanos != 0 {
        out.append(".");
        push_digits(&mut out, ts.nanos, 9);
    }
    let off = ts.offset_minutes;
    let abs_off: u32 = if off >= 0 {
        off as u32
    } else {
        (-off) as u32
    };
    if off >= 0 {
        out.append("+");
    } else {
        out.append("-");
    }
    push_digits(&mut out, abs_off / 60, 2);
    out.append(":");
    push_digits(&mut out, abs_off % 60, 2);
    proof {
        reveal_strlit("-");
        reveal_strlit("T");
        reveal_strlit(":");
        reveal_strlit(".");
        reveal_strlit("+");
        assert(out@ =~= spec_rfc3339_text(*ts));
    }
    out
}

// ---------------------------------------------------------------------------
// Round trip: parsing the canonical rendering restores the date-time.
// ---------------------------------------------------------------------------
/// `digits_of` renders exactly `n` ASCII digits.
proof fn lemma_digits_of_shape(v: int, n: nat)
    ensures
        digits_of(v, n).len() == n,
        forall|k: int| 0 <= k < n ==> is_digit(#[trigger] digits_of(v, n)[k]),
    decreases n,
{
    if n > 0 {
        lemma_digits_of_shape(v / 10, (n - 1) as nat);
        lemma_digit_char_val(v % 10);
    }
}

/// Reading back `n` rendered digits restores the value.
proof fn lemma_digits_val_of(s: Seq<char>, i: int, v: int, n: nat)
    requires
        0 <= v < pow10(n),
        forall|k: int| 0 <= k < n ==> s[i + k] == #[trigger] digits_of(v, n)[k],
    ensures
        digits_val(s, i, i + n) == v,
    decreases n,
{
    lemma_digits_of_shape(v, n);
    if n == 0 {
    } else {
        lemma_pow10_pos((n - 1) as nat);
        assert(v / 10 < pow10((n - 1) as nat) && v % 10 < 10 && 0 <= v % 10 && 0 <= v / 10 && v
            == 10 * (v / 10) + v % 10) by (nonlinear_arith)
            requires
                0 <= v < pow10(n as nat),
                pow10(n as nat) == 10 * pow10((n - 1) as nat),
                pow10((n - 1) as nat) >= 1,
        ;
        lemma_digits_of_shape(v / 10, (n - 1) as nat);
        assert forall|k: int| 0 <= k < n - 1 implies s[i + k] == #[trigger] digits_of(
            v / 10,
            (n - 1) as nat,
        )[k] by {
            assert(digits_of(v, n)[k] == digits_of(v / 10, (n - 1) as nat)[k]);
        }
        lemma_digits_val_of(s, i, v / 10, (n - 1) as nat);
        lemma_digit_char_val(v % 10);
        assert(s[i + n - 1] == digits_of(v, n)[n - 1]);
        assert(digits_of(v, n)[n - 1] == digit_char(v % 10));
    }
}

/// The digit run stops exactly at the first non-digit.
proof fn lemma_digit_run_stops(s: Seq<char>, i: int, j: int)
    requires
        0 <= i <= j <= s.len(),
        forall|k: int| i <= k < j ==> is_digit(#[trigger] s[k]),
        j == s.len() || !is_digit(s[j]),
    ensures
        digit_run_end(s, i) == j,
    decreases j - i,
{
    if i < j {
        lemma_digit_run_stops(s, i + 1, j);
    }
}

/// Two- and four-digit reads agree with `digits_val`.
proof fn lemma_small_digit_vals(s: Seq<char>, i: int)
    ensures
        two_digit_val(s, i) == digits_val(s, i, i + 2),
        four_digit_val(s, i) == digits_val(s, i, i + 4),
{
    reveal_with_fuel(digits_val, 5);
}

/// Parsing the canonical RFC 3339 rendering of any well-formed date-time
/// yields that date-time back: rendering loses nothing, and in particular
/// the instant it denotes is kept exactly.
#[verifier::rlimit(50)]
pub proof fn lemma_rfc3339_round_trip(ts: Timestamp)
    requires
        ts.wf(),
    ensures
        spec_parse_rfc3339(spec_rfc3339_text(ts)) == Some(ts),
{
    assert(pow10(2) == 100 && pow10(4) == 10000 && pow10(9) == 1_000_000_000 && pow10(0) == 1) by {
        reveal_with_fuel(pow10, 10);
    }
    let s = spec_rfc3339_text(ts);
    let y = ts.year as int;
    let mo = ts.month as int;
    let d = ts.day as int;
    let h = ts.hour as int;
    let mi = ts.minute as int;
    let sec = ts.second as int;
    let ns = ts.nanos as int;
    let off = ts.offset_minutes as int;
    let abs_off = if off >= 0 {
        off
    } else {
        -off
    };
    lemma_digits_of_shape(y, 4);
    lemma_digits_of_shape(mo, 2);
    lemma_digits_of_shape(d, 2);
    lemma_digits_of_shape(h, 2);
    lemma_digits_of_shape(mi, 2);
    lemma_digits_of_shape(sec, 2);
    lemma_digits_of_shape(ns, 9);
    lemma_digits_of_shape(abs_off / 60, 2);
    lemma_digits_of_shape(abs_off % 60, 2);
    let flen: int = if ts.nanos == 0 {
        0
    } else {
        10
    };
    assert(spec_date_text(ts).len() == 10);
    assert(spec_time_text(ts).len() == 8);
    assert(spec_frac_text(ts).len() == flen);
    assert(spec_offset_text(off).len() == 6);
    assert(s.len() == 25 + flen);
    // The fixed prefix.
    assert(forall|k: int| 0 <= k < 4 ==> s[k] == #[trigger] digits_of(y, 4)[k]);
    assert(s[4] == '-');
    assert(forall|k: int| 0 <= k < 2 ==> s[5 + k] == #[trigger] digits_of(mo, 2)[k]);
    assert(s[7] == '-');
    assert(forall|k: int| 0 <= k < 2 ==> s[8 + k] == #[trigger] digits_of(d, 2)[k]);
    assert(s[10] == 'T');
    assert(forall|k: int| 0 <= k < 2 ==> s[11 + k] == #[trigger] digits_of(h, 2)[k]);
    assert(s[13] == ':');
    assert(forall|k: int| 0 <= k < 2 ==> s[14 + k] == #[trigger] digits_of(mi, 2)[k]);
    assert(s[16] == ':');
    assert(forall|k: int| 0 <= k < 2 ==> s[17 + k] == #[trigger] digits_of(sec, 2)[k]);
    assert(date_time_shape(s));
    lemma_small_digit_vals(s, 0);
    lemma_digits_val_of(s, 0, y, 4);
    lemma_small_digit_vals(s, 5);
    lemma_digits_val_of(s, 5, mo, 2);
    lemma_small_digit_vals(s, 8);
    lemma_digits_val_of(s, 8, d, 2);
    lemma_small_digit_vals(s, 11);
    lemma_digits_val_of(s, 11, h, 2);
    lemma_small_digit_vals(s, 14);
    lemma_digits_val_of(s, 14, mi, 2);
    lemma_small_digit_vals(s, 17);
    lemma_digits_val_of(s, 17, sec, 2);
    assert(four_digit_val(s, 0) == y);
    assert(two_digit_val(s, 5) == mo);
    assert(two_digit_val(s, 8) == d);
    assert(two_digit_val(s, 11) == h);
    assert(two_digit_val(s, 14) == mi);
    assert(two_digit_val(s, 17) == sec);
    // The offset text.
    let q = 19 + flen;
    assert(forall|k: int| 0 <= k < 6 ==> s[q + k] == #[trigger] spec_offset_text(off)[k]);
    assert(s[q] == (if off >= 0 {
        '+'
    } else {
        '-'
    }));
    assert(forall|k: int| 0 <= k < 2 ==> s[q + 1 + k] == #[trigger] digits_of(abs_off / 60, 2)[k]);
    assert(s[q + 3] == ':');
    assert(forall|k: int| 0 <= k < 2 ==> s[q + 4 + k] == #[trigger] digits_of(abs_off % 60, 2)[k]);
    assert(0 <= abs_off <= 1439);
    assert(abs_off / 60 <= 23 && abs_off % 60 <= 59 && abs_off / 60 >= 0 && abs_off % 60 >= 0 && 60
        * (abs_off / 60) + abs_off % 60 == abs_off) by (nonlinear_arith)
        requires
            0 <= abs_off <= 1439,
    ;
    lemma_small_digit_vals(s, q + 1);
    lemma_digits_val_of(s, q + 1, abs_off / 60, 2);
    lemma_small_digit_vals(s, q + 4);
    lemma_digits_val_of(s, q + 4, abs_off % 60, 2);
    assert(two_digit_val(s, q + 1) == abs_off / 60);
    assert(two_digit_val(s, q + 4) == abs_off % 60);
    assert(!is_digit('+') && !is_digit('-') && !is_digit(':'));
    assert(parse_offset(s, q) == Some(off));
    // The fraction.
    if ts.nanos == 0 {
        assert(s[19] != '.');
        assert(parse_frac(s, 19) == Some((0int, 19int)));
    } else {
        assert(s[19] == '.');
        assert(forall|k: int| 0 <= k < 9 ==> s[20 + k] == #[trigger] digits_of(ns, 9)[k]);
        assert(forall|k: int| 20 <= k < 29 ==> is_digit(#[trigger] s[k]));
        assert(!is_digit(s[29]));
        lemma_digit_run_stops(s, 20, 29);
        lemma_digits_val_of(s, 20, ns, 9);
        assert(parse_frac(s, 19) == Some((ns * pow10(0), 29int)));
        assert(ns * pow10(0) == ns) by (nonlinear_arith)
            requires
                pow10(0) == 1,
        ;
    }
    assert(spec_parse_rfc3339(s) == Some(ts));
}

// ---------------------------------------------------------------------------
// Range validation.
// ---------------------------------------------------------------------------
/// Both endpoints parse as RFC 3339 date-times and the end instant is not
/// before the start instant.
pub open spec fn spec_range_valid(start: Seq<char>, end: Seq<char>) -> bool {
    match (spec_parse_rfc3339(start), spec_parse_rfc3339(end)) {
        (Some(a), Some(b)) => a.instant_nanos() <= b.instant_nanos(),
        _ => false,
    }
}

/// Accepts exactly the ranges whose endpoints parse and are ordered;
/// a request failing this is rejected before any store interaction.
pub fn validate_range_params(params: &crate::RangeParams) -> (r: bool)
    ensures
        r == spec_range_valid(params.start@, params.end@),
{
    let start = match parse_rfc3339(params.start.as_str()) {
        Some(ts) => ts,
        None => {
            return false;
        },
    };
    let end = match parse_rfc3339(params.end.as_str()) {
        Some(ts) => ts,
        None => {
            return false;
        },
    };
    start.instant_le(&end)
}

/// Parses and validates a request range, or reports `InvalidRange`:
/// the error comes exactly on the inputs [`spec_range_valid`] refuses.
pub fn parse_time_range(params: &crate::RangeParams) -> (r: Result<TimeRange, crate::ApiError>)
    ensures
        (r is Ok) == spec_range_valid(params.start@, params.end@),
        r matches Ok(tr) ==> {
            &&& tr.wf()
            &&& Some(tr.start) == spec_parse_rfc3339(params.start@)
            &&& Some(tr.end) == spec_parse_rfc3339(params.end@)
        },
        r matches Err(e) ==> e is InvalidRange,
{
    let start = match parse_rfc3339(params.start.as_str()) {
        Some(ts) => ts,
        None => {
            return Err(crate::ApiError::InvalidRange);
        },
    };
    let end = match parse_rfc3339(params.end.as_str()) {
        Some(ts) => ts,
        None => {
            return Err(crate::ApiError::InvalidRange);
        },
    };
    if start.instant_le(&end) {
        Ok(TimeRange { start, end })
    } else {
        Err(crate::ApiError::InvalidRange)
    }
}

/// A validated range rendered as RFC 3339 and re-parsed yields the
/// identical endpoints — in particular the identical instants — and the
/// rendered pair passes range validation again.
pub proof fn lemma_time_range_round_trip(tr: TimeRange)
    requires
        tr.wf(),
    ensures
        spec_parse_rfc3339(spec_rfc3339_text(tr.start)) == Some(tr.start),
        spec_parse_rfc3339(spec_rfc3339_text(tr.end)) == Some(tr.end),
        spec_range_valid(spec_rfc3339_text(tr.start), spec_rfc3339_text(tr.end)),
{
    lemma_rfc3339_round_trip(tr.start);
    lemma_rfc3339_round_trip(tr.end);
}

// ---------------------------------------------------------------------------
// From an epoch instant back to calendar fields.
// ---------------------------------------------------------------------------
/// The sum of all month lengths is the year length.
proof fn lemma_year_months(y: int)
    ensures
        days_before_month(y, 13) == days_in_year(y),
{
    reveal_with_fuel(days_before_month, 14);
}

/// The calendar date-time at `secs` seconds since the Unix epoch, seen in
/// the clock offset `offset_minutes`; `None` exactly when the instant falls
/// outside the years 0 through 9999 of that clock.
pub fn timestamp_from_epoch(secs: i64, offset_minutes: i64) -> (r: Option<Timestamp>)
    requires
        -1439 <= offset_minutes <= 1439,
    ensures
        r matches Some(ts) ==> {
            &&& ts.wf()
            &&& ts.offset_minutes == offset_minutes
            &&& ts.nanos == 0
            &&& ts.epoch_seconds() == secs
        },
        (r is Some) == (0 <= secs + offset_minutes * 60 + DAYS_TO_UNIX_EPOCH * 86400
            < days_before_year(10000) * 86400),
{
    proof {
        lemma_days_before_year_bounds(10000);
    }
    let bound: i64 = days_before_year_exec(10000);
    let total_i128: i128 = secs as i128 + (offset_minutes * 60) as i128 + (DAYS_TO_UNIX_EPOCH
        * 86400) as i128;
    if total_i128 < 0 || total_i128 >= bound as i128 * 86400 {
        return None;
    }
    let total: i64 = total_i128 as i64;
    let day: i64 = total / 86400;
    let rem: i64 = total % 86400;
    proof {
        vstd::arithmetic::div_mod::lemma_fundamental_div_mod(total as int, 86400);
        assert(0 <= rem < 86400 && 0 <= day < days_before_year(10000)) by (nonlinear_arith)
            requires
                0 <= total < days_before_year(10000) * 86400,
                day == total / 86400,
                rem == total % 86400,
                total == 86400 * day + rem,
                0 <= total % 86400 < 86400,
        ;
    }
    // Peel off whole years.
    let mut year: i64 = 0;
    let mut rem_days: i64 = day;
    loop
        invariant
            0 <= year <= 9999,
            0 <= rem_days,
            days_before_year(year as nat) + rem_days == day,
            day < days_before_year(10000),
        ensures
            0 <= year <= 9999,
            0 <= rem_days < days_in_year(year as int),
            days_before_year(year as nat) + rem_days == day,
        decreases rem_days,
    {
        let len: i64 = if leap_year(year) {
            366
        } else {
            365
        };
        if rem_days < len {
            break ;
        }
        proof {
            if year == 9999 {
                assert(days_before_year(10000) == days_before_year(9999) + days_in_year(9999));
            }
        }
        rem_days = rem_days - len;
        year = year + 1;
    }
    // Peel off whole months.
    let ghost doy = rem_days as int;
    let mut month: u8 = 1;
    loop
        invariant
            1 <= month <= 12,
            0 <= year <= 9999,
            0 <= rem_days,
            days_before_month(year as int, month as nat) + rem_days == doy,
            doy < days_in_year(year as int),
        ensures
            1 <= month <= 12,
            0 <= rem_days < days_in_month(year as int, month as int),
            days_before_month(year as int, month as nat) + rem_days == doy,
        decreases 12 - month,
    {
        let dim: i64 = month_length(year, month) as i64;
        if rem_days < dim {
            break ;
        }
        proof {
            if month == 12 {
                lemma_year_months(year as int);
                assert(days_before_month(year as int, 13) == days_before_month(year as int, 12)
                    + days_in_month(year as int, 12));
            }
        }
        rem_days = rem_days - dim;
        month = month + 1;
    }
    let day_of_month: u8 = (rem_days + 1) as u8;
    let hour: i64 = rem / 3600;
    let rem2: i64 = rem % 3600;
    let minute: i64 = rem2 / 60;
    let second: i64 = rem2 % 60;
    proof {
        vstd::arithmetic::div_mod::lemma_fundamental_div_mod(rem as int, 3600);
        vstd::arithmetic::div_mod::lemma_fundamental_div_mod(rem2 as int, 60);
        assert(0 <= hour <= 23 && 0 <= rem2 < 3600 && 0 <= minute <= 59 && 0 <= second <= 59)
            by (nonlinear_arith)
            requires
                0 <= rem < 86400,
                hour == rem / 3600,
                rem2 == rem % 3600,
                minute == rem2 / 60,
                second == rem2 % 60,
        ;
    }
    let ts = Timestamp {
        year,
        month,
        day: day_of_month,
        hour: hour as u8,
        minute: minute as u8,
        second: second as u8,
        nanos: 0,
        offset_minutes,
    };
    proof {
        assert(day_index(ts.year as int, ts.month as int, ts.day as int) == day);
        assert(ts.epoch_seconds() == secs);
    }
    Some(ts)
}


} // verus!
