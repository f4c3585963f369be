//! Civil calendar dates in the proleptic Gregorian calendar.

use vstd::prelude::*;

use crate::text::{append_decimal_padded, append_str, decimal_padded};

verus! {

/// Whether `year` is a leap year.
pub open spec fn is_leap_year(year: int) -> bool {
    let a = if year < 0 { -year } else { year };
    a % 4 == 0 && (a % 100 != 0 || a % 400 == 0)
}

/// The number of days in `month` of `year`.
pub open spec fn days_in_month_of(year: int, month: int) -> int {
    if month == 2 {
        if is_leap_year(year) { 29 } else { 28 }
    } else if month == 4 || month == 6 || month == 9 || month == 11 {
        30
    } else {
        31
    }
}

/// The dates that a calendar date can name: years `-9999..=9999`, months
/// `1..=12` and a day within the month.
pub open spec fn is_valid_date(year: int, month: int, day: int) -> bool {
    &&& -9999 <= year <= 9999
    &&& 1 <= month <= 12
    &&& 1 <= day <= days_in_month_of(year, month)
}

/// A day of the calendar.
#[derive(Debug, Clone, Copy, PartialEq, Eq, Structural)]
pub struct CivilDate {
    year: i16,
    month: i8,
    day: i8,
}

/// The position of a date on the time line, as a triple ordered lexically.
pub open spec fn date_before(a: CivilDate, b: CivilDate) -> bool {
    ||| a.year_spec() < b.year_spec()
    ||| a.year_spec() == b.year_spec() && a.month_spec() < b.month_spec()
    ||| a.year_spec() == b.year_spec() && a.month_spec() == b.month_spec() && a.day_spec()
        < b.day_spec()
}

/// Whether the day `a` comes before the day `b`.
pub open spec fn parts_before(a: (int, int, int), b: (int, int, int)) -> bool {
    a.0 < b.0 || (a.0 == b.0 && a.1 < b.1) || (a.0 == b.0 && a.1 == b.1 && a.2 < b.2)
}

/// The day after the day `(y, m, d)`, when there is one.
pub open spec fn day_after(y: int, m: int, d: int) -> Option<(int, int, int)> {
    if d < days_in_month_of(y, m) {
        Some((y, m, d + 1))
    } else if m < 12 {
        Some((y, m + 1, 1))
    } else if y < 9999 {
        Some((y + 1, 1, 1))
    } else {
        None
    }
}

/// The day before the day `(y, m, d)`, when there is one.
pub open spec fn day_before(y: int, m: int, d: int) -> Option<(int, int, int)> {
    if d > 1 {
        Some((y, m, d - 1))
    } else if m > 1 {
        Some((y, m - 1, days_in_month_of(y, m - 1)))
    } else if y > -9999 {
        Some((y - 1, 12, 31))
    } else {
        None
    }
}

/// The day after `d`, when there is one.
pub open spec fn next_day(d: CivilDate) -> Option<(int, int, int)> {
    day_after(d.year_spec() as int, d.month_spec() as int, d.day_spec() as int)
}

/// The day before `d`, when there is one.
pub open spec fn previous_day(d: CivilDate) -> Option<(int, int, int)> {
    day_before(d.year_spec() as int, d.month_spec() as int, d.day_spec() as int)
}

/// The day `n` days after `(y, m, d)`, or the last representable day if
/// that comes first.
pub open spec fn days_forward(t: (int, int, int), n: nat) -> (int, int, int)
    decreases n,
{
    if n == 0 {
        t
    } else {
        match day_after(t.0, t.1, t.2) {
            Some(u) => days_forward(u, (n - 1) as nat),
            None => t,
        }
    }
}

/// The day `n` days before `(y, m, d)`, or the first representable day if
/// that comes first.
pub open spec fn days_backward(t: (int, int, int), n: nat) -> (int, int, int)
    decreases n,
{
    if n == 0 {
        t
    } else {
        match day_before(t.0, t.1, t.2) {
            Some(u) => days_backward(u, (n - 1) as nat),
            None => t,
        }
    }
}

/// One more day forward is one day after the first `n` days forward.
pub proof fn lemma_days_forward_step(t: (int, int, int), n: nat)
    ensures
        days_forward(t, n + 1) == match day_after(days_forward(t, n).0, days_forward(t, n).1, days_forward(t, n).2) {
            Some(u) => u,
            None => days_forward(t, n),
        },
    decreases n,
{
    match day_after(t.0, t.1, t.2) {
        Some(u) => {
            assert(days_forward(t, n + 1) == days_forward(u, n));
            if n > 0 {
                lemma_days_forward_step(u, (n - 1) as nat);
                assert(days_forward(t, n) == days_forward(u, (n - 1) as nat));
            }
        },
        None => {
            assert(days_forward(t, n + 1) == t);
            assert(days_forward(t, n) == t);
        },
    }
}

/// Walking `n` days forward from a valid day with room for them in the
/// calendar reaches the valid day numbered `n` more.
pub proof fn lemma_days_forward_number(t: (int, int, int), n: nat)
    requires
        is_valid_date(t.0, t.1, t.2),
        day_number(t.0, t.1, t.2) + n <= day_number(9999, 12, 31),
    ensures
        ({
            let u = days_forward(t, n);
            is_valid_date(u.0, u.1, u.2) && day_number(u.0, u.1, u.2) == day_number(t.0, t.1, t.2) + n
        }),
    decreases n,
{
    if n > 0 {
        lemma_day_steps_undo(t.0, t.1, t.2);
        let next = day_after(t.0, t.1, t.2)->0;
        lemma_day_number_step(t.0, t.1, t.2);
        lemma_days_forward_number(next, (n - 1) as nat);
    }
}

/// Walking `n` days back from a valid day with room for them in the calendar
/// reaches the valid day numbered `n` less.
pub proof fn lemma_days_backward_number(t: (int, int, int), n: nat)
    requires
        is_valid_date(t.0, t.1, t.2),
        day_number(t.0, t.1, t.2) - n >= day_number(-9999, 1, 1),
    ensures
        ({
            let u = days_backward(t, n);
            is_valid_date(u.0, u.1, u.2) && day_number(u.0, u.1, u.2) == day_number(t.0, t.1, t.2) - n
        }),
    decreases n,
{
    if n > 0 {
        lemma_day_steps_undo(t.0, t.1, t.2);
        let prev = day_before(t.0, t.1, t.2)->0;
        lemma_day_steps_undo(prev.0, prev.1, prev.2);
        lemma_day_number_step(prev.0, prev.1, prev.2);
        lemma_days_backward_number(prev, (n - 1) as nat);
    }
}

/// Walking `n` days back and then `n` days forward returns to the start,
/// wherever the calendar has room for the walk back.
pub proof fn lemma_days_round_trip(t: (int, int, int), n: nat)
    requires
        is_valid_date(t.0, t.1, t.2),
        day_number(t.0, t.1, t.2) - n >= day_number(-9999, 1, 1),
    ensures
        days_forward(days_backward(t, n), n) == t,
    decreases n,
{
    if n > 0 {
        lemma_day_steps_undo(t.0, t.1, t.2);
        let prev = day_before(t.0, t.1, t.2)->0;
        lemma_day_steps_undo(prev.0, prev.1, prev.2);
        lemma_day_number_step(prev.0, prev.1, prev.2);
        lemma_days_round_trip(prev, (n - 1) as nat);
        assert(days_backward(t, n) == days_backward(prev, (n - 1) as nat));
        let start = days_backward(t, n);
        lemma_days_forward_step(start, (n - 1) as nat);
    }
}

/// Stepping back a day and forward again returns to the same day, and the
/// other way round; the neighbours of a valid day are valid days.
pub proof fn lemma_day_steps_undo(y: int, m: int, d: int)
    requires
        is_valid_date(y, m, d),
    ensures
        day_before(y, m, d) matches Some((py, pm, pd)) ==> is_valid_date(py, pm, pd) && day_after(
            py,
            pm,
            pd,
        ) == Some((y, m, d)),
        day_after(y, m, d) matches Some((ny, nm, nd)) ==> is_valid_date(ny, nm, nd) && day_before(
            ny,
            nm,
            nd,
        ) == Some((y, m, d)),
{
}

/// The year, month and day of a date.
pub open spec fn date_parts(d: CivilDate) -> (int, int, int) {
    (d.year_spec() as int, d.month_spec() as int, d.day_spec() as int)
}

/// `YYYY-MM-DD`, with `-00` before the four digits of a year before zero.
pub open spec fn iso_date(d: CivilDate) -> Seq<char> {
    let y = d.year_spec() as int;
    let sign = if y < 0 { seq!['-', '0', '0'] } else { Seq::<char>::empty() };
    let a = if y < 0 { -y } else { y };
    sign + decimal_padded(a as nat, 4) + seq!['-'] + decimal_padded(d.month_spec() as nat, 2) + seq![
        '-',
    ] + decimal_padded(d.day_spec() as nat, 2)
}

/// Whether shifting the month of `d` by `offset` stays within the arithmetic
/// that the dashboard uses (a signed 16-bit month index) and within the
/// representable years.
pub open spec fn month_shift_fits(d: CivilDate, offset: int) -> bool {
    let index = d.year_spec() * 12 + (d.month_spec() - 1) + offset;
    &&& i16::MIN <= d.year_spec() * 12 <= i16::MAX
    &&& i16::MIN <= d.year_spec() * 12 + (d.month_spec() - 1) <= i16::MAX
    &&& i16::MIN <= index <= i16::MAX
    &&& -9999 <= floor_div12(index) <= 9999
}

/// Floor division by twelve.
pub open spec fn floor_div12(n: int) -> int {
    n / 12
}

/// The date `offset` months after `d`, with the day clamped to the length of
/// the target month.
pub open spec fn shifted_month(d: CivilDate, offset: int) -> (int, int, int) {
    let index = d.year_spec() * 12 + (d.month_spec() - 1) + offset;
    let year = index / 12;
    let month = index % 12 + 1;
    let last = days_in_month_of(year, month);
    (year, month, if d.day_spec() < last { d.day_spec() as int } else { last })
}

/// The number of days from 0000-03-01 to `(y, m, d)`. Years are counted
/// from March, so that a leap day closes its counting year; month `m` of such
/// a year starts `(153 * i + 2) / 5` days in, for `i` its position from March.
pub open spec fn day_number(y: int, m: int, d: int) -> int {
    let ys = if m <= 2 { y - 1 } else { y };
    let i = if m <= 2 { m + 9 } else { m - 3 };
    365 * ys + ys / 4 - ys / 100 + ys / 400 + (153 * i + 2) / 5 + d - 1
}

/// The weekday of `(y, m, d)`, from Monday (`0`) to Sunday (`6`): 0000-03-01
/// was a Wednesday.
pub open spec fn weekday_monday_offset(year: int, month: int, day: int) -> int {
    (day_number(year, month, day) + 2) % 7
}

proof fn lemma_floor_step(y: int, k: int)
    requires
        k > 0,
    ensures
        y / k - (y - 1) / k == (if y % k == 0 { 1int } else { 0int }),
{
    vstd::arithmetic::div_mod::lemma_fundamental_div_mod(y, k);
    vstd::arithmetic::div_mod::lemma_fundamental_div_mod(y - 1, k);
    vstd::arithmetic::div_mod::lemma_mod_bound(y, k);
    vstd::arithmetic::div_mod::lemma_mod_bound(y - 1, k);
    let q = y / k;
    let p = (y - 1) / k;
    assert(k * q + y % k == y);
    assert(k * p + (y - 1) % k == y - 1);
    assert(k * (q - p) == 1 + (y - 1) % k - y % k) by (nonlinear_arith)
        requires
            k * q + y % k == y,
            k * p + (y - 1) % k == y - 1,
    ;
    if q - p >= 2 {
        assert(k * (q - p) >= k * 2) by (nonlinear_arith)
            requires
                q - p >= 2,
                k > 0,
        ;
    }
    if q - p <= -1 {
        assert(k * (q - p) <= -k) by (nonlinear_arith)
            requires
                q - p <= -1,
                k > 0,
        ;
    }
    if q - p == 1 {
        assert(k * (q - p) == k) by (nonlinear_arith)
            requires
                q - p == 1,
        ;
    }
    if q - p == 0 {
        assert(k * (q - p) == 0) by (nonlinear_arith)
            requires
                q - p == 0,
        ;
    }
}

proof fn lemma_leap_by_floors(y: int)
    ensures
        (y / 4 - (y - 1) / 4) - (y / 100 - (y - 1) / 100) + (y / 400 - (y - 1) / 400) == (
        if is_leap_year(y) {
            1int
        } else {
            0int
        }),
{
    lemma_floor_step(y, 4);
    lemma_floor_step(y, 100);
    lemma_floor_step(y, 400);
    let a = if y < 0 { -y } else { y };
    assert((y % 4 == 0) == (a % 4 == 0)) by {
        vstd::arithmetic::div_mod::lemma_fundamental_div_mod(y, 4);
        vstd::arithmetic::div_mod::lemma_fundamental_div_mod(a, 4);
    }
    assert((y % 100 == 0) == (a % 100 == 0)) by {
        vstd::arithmetic::div_mod::lemma_fundamental_div_mod(y, 100);
        vstd::arithmetic::div_mod::lemma_fundamental_div_mod(a, 100);
    }
    assert((y % 400 == 0) == (a % 400 == 0)) by {
        vstd::arithmetic::div_mod::lemma_fundamental_div_mod(y, 400);
        vstd::arithmetic::div_mod::lemma_fundamental_div_mod(a, 400);
    }
    if y % 100 == 0 {
        assert(y % 4 == 0) by {
            vstd::arithmetic::div_mod::lemma_fundamental_div_mod(y, 100);
            vstd::arithmetic::div_mod::lemma_fundamental_div_mod(y, 4);
        }
    }
    if y % 400 == 0 {
        assert(y % 100 == 0) by {
            vstd::arithmetic::div_mod::lemma_fundamental_div_mod(y, 400);
            vstd::arithmetic::div_mod::lemma_fundamental_div_mod(y, 100);
        }
    }
}

/// The day after a day is numbered one more.
pub proof fn lemma_day_number_step(y: int, m: int, d: int)
    requires
        is_valid_date(y, m, d),
        day_after(y, m, d) is Some,
    ensures
        ({
            let n = day_after(y, m, d)->0;
            day_number(n.0, n.1, n.2) == day_number(y, m, d) + 1
        }),
{
    if d < days_in_month_of(y, m) {
    } else if m == 2 {
        lemma_leap_by_floors(y);
    } else if m < 12 {
    } else {
    }
}

/// Consecutive days have consecutive weekdays.
pub proof fn lemma_weekday_step(y: int, m: int, d: int)
    requires
        is_valid_date(y, m, d),
        day_after(y, m, d) is Some,
    ensures
        ({
            let n = day_after(y, m, d)->0;
            weekday_monday_offset(n.0, n.1, n.2) == (weekday_monday_offset(y, m, d) + 1) % 7
        }),
{
    lemma_day_number_step(y, m, d);
}

impl CivilDate {
    #[verifier::type_invariant]
    spec fn wf(self) -> bool {
        is_valid_date(self.year as int, self.month as int, self.day as int)
    }

    pub closed spec fn year_spec(self) -> i16 {
        self.year
    }

    pub closed spec fn month_spec(self) -> i8 {
        self.month
    }

    pub closed spec fn day_spec(self) -> i8 {
        self.day
    }

    /// The date with the given parts, or `None` where they name no day.
    pub fn new(year: i16, month: i8, day: i8) -> (r: Option<CivilDate>)
        ensures
            r is Some <==> is_valid_date(year as int, month as int, day as int),
            r matches Some(d) ==> d.year_spec() == year && d.month_spec() == month && d.day_spec()
                == day,
    {
        if -9999 <= year && year <= 9999 && 1 <= month && month <= 12 && 1 <= day && day
            <= days_in_month(year, month) {
            Some(CivilDate { year, month, day })
        } else {
            None
        }
    }

    pub fn year(&self) -> (r: i16)
        ensures
            r == self.year_spec(),
            -9999 <= r <= 9999,
    {
        proof {
            use_type_invariant(self);
        }
        self.year
    }

    pub fn month(&self) -> (r: i8)
        ensures
            r == self.month_spec(),
            1 <= r <= 12,
    {
        proof {
            use_type_invariant(self);
        }
        self.month
    }

    pub fn day(&self) -> (r: i8)
        ensures
            r == self.day_spec(),
            1 <= r <= days_in_month_of(self.year_spec() as int, self.month_spec() as int),
    {
        proof {
            use_type_invariant(self);
        }
        self.day
    }

    /// The number of days in this date's month.
    pub fn days_in_month(&self) -> (r: i8)
        ensures
            r == days_in_month_of(self.year_spec() as int, self.month_spec() as int),
    {
        proof {
            use_type_invariant(self);
        }
        days_in_month(self.year, self.month)
    }

    /// Whether this date comes before `other`.
    pub fn is_before(&self, other: &CivilDate) -> (r: bool)
        ensures
            r == date_before(*self, *other),
    {
        self.year < other.year || (self.year == other.year && self.month < other.month) || (
        self.year == other.year && self.month == other.month && self.day < other.day)
    }

    /// Whether this is the same day as `other`.
    pub fn same_day(&self, other: &CivilDate) -> (r: bool)
        ensures
            r == (*self == *other),
    {
        self.year == other.year && self.month == other.month && self.day == other.day
    }

    /// The date `n` days later, or the last representable day if that comes
    /// first (`Date::saturating_add` with a span of days).
    pub fn days_later(&self, n: u32) -> (r: CivilDate)
        ensures
            date_parts(r) == days_forward(date_parts(*self), n as nat),
    {
        let mut current = *self;
        let mut i: u32 = 0;
        while i < n
            invariant
                i <= n,
                days_forward(date_parts(*self), n as nat) == days_forward(
                    date_parts(current),
                    (n - i) as nat,
                ),
            decreases n - i,
        {
            match current.tomorrow() {
                Some(next) => {
                    current = next;
                },
                None => {
                    return current;
                },
            }
            i = i + 1;
        }
        current
    }

    /// The date `n` days earlier, or the first representable day if that
    /// comes first (`Date::saturating_sub` with a span of days).
    pub fn days_earlier(&self, n: u32) -> (r: CivilDate)
        ensures
            date_parts(r) == days_backward(date_parts(*self), n as nat),
    {
        let mut current = *self;
        let mut i: u32 = 0;
        while i < n
            invariant
                i <= n,
                days_backward(date_parts(*self), n as nat) == days_backward(
                    date_parts(current),
                    (n - i) as nat,
                ),
            decreases n - i,
        {
            match current.yesterday() {
                Some(previous) => {
                    current = previous;
                },
                None => {
                    return current;
                },
            }
            i = i + 1;
        }
        current
    }

    /// The next day, or `None` after the last representable day.
    pub fn tomorrow(&self) -> (r: Option<CivilDate>)
        ensures
            r matches Some(d) ==> next_day(*self) == Some(
                (d.year_spec() as int, d.month_spec() as int, d.day_spec() as int),
            ),
            r is None <==> next_day(*self) is None,
    {
        proof {
            use_type_invariant(self);
        }
        let last = days_in_month(self.year, self.month);
        if self.day < last {
            Some(CivilDate { year: self.year, month: self.month, day: self.day + 1 })
        } else if self.month < 12 {
            Some(CivilDate { year: self.year, month: self.month + 1, day: 1 })
        } else if self.year < 9999 {
            Some(CivilDate { year: self.year + 1, month: 1, day: 1 })
        } else {
            None
        }
    }

    /// The previous day, or `None` before the first representable day.
    pub fn yesterday(&self) -> (r: Option<CivilDate>)
        ensures
            r matches Some(d) ==> previous_day(*self) == Some(
                (d.year_spec() as int, d.month_spec() as int, d.day_spec() as int),
            ),
            r is None <==> previous_day(*self) is None,
    {
        proof {
            use_type_invariant(self);
        }
        if self.day > 1 {
            Some(CivilDate { year: self.year, month: self.month, day: self.day - 1 })
        } else if self.month > 1 {
            let last = days_in_month(self.year, self.month - 1);
            Some(CivilDate { year: self.year, month: self.month - 1, day: last })
        } else if self.year > -9999 {
            Some(CivilDate { year: self.year - 1, month: 12, day: 31 })
        } else {
            None
        }
    }

    /// Whether `shift_month(offset)` can be computed for this date.
    pub fn can_shift_month(&self, offset: i8) -> (r: bool)
        ensures
            r == month_shift_fits(*self, offset as int),
    {
        proof {
            use_type_invariant(self);
        }
        let year = self.year as i32;
        let scaled = year * 12;
        if scaled < i16::MIN as i32 || scaled > i16::MAX as i32 {
            return false;
        }
        let base = scaled + (self.month as i32 - 1);
        if base < i16::MIN as i32 || base > i16::MAX as i32 {
            return false;
        }
        let index = base + offset as i32;
        if index < i16::MIN as i32 || index > i16::MAX as i32 {
            return false;
        }
        let year_of_index = if index >= 0 {
            index / 12
        } else {
            -1 - (-1 - index) / 12
        };
        proof {
            let n = index as int;
            if n < 0 {
                let b = -1 - n;
                assert(b / 12 * 12 + b % 12 == b) by (nonlinear_arith)
                    requires
                        b >= 0,
                ;
                assert(0 <= b % 12 < 12);
                assert(n / 12 == -1 - b / 12) by (nonlinear_arith)
                    requires
                        b / 12 * 12 + b % 12 == b,
                        n == -1 - b,
                        0 <= b % 12 < 12,
                ;
            }
        }
        -9999 <= year_of_index && year_of_index <= 9999
    }

    /// The same day `offset` months later (or earlier), clamped to the end of
    /// the target month.
    pub fn shift_month(&self, offset: i8) -> (r: CivilDate)
        requires
            month_shift_fits(*self, offset as int),
        ensures
            (r.year_spec() as int, r.month_spec() as int, r.day_spec() as int) == shifted_month(
                *self,
                offset as int,
            ),
    {
        proof {
            use_type_invariant(self);
        }
        let month_index: i16 = self.year * 12 + (self.month as i16 - 1) + offset as i16;
        let (year, month) = if month_index >= 0 {
            (month_index / 12, month_index % 12 + 1)
        } else {
            let back: i16 = -1 - month_index;
            (-1 - back / 12, 12 - back % 12)
        };
        proof {
            let n = month_index as int;
            if n < 0 {
                let b = -1 - n;
                assert(n == -1 - b);
                assert(b / 12 * 12 + b % 12 == b) by (nonlinear_arith)
                    requires
                        b >= 0,
                ;
                assert((-1 - b / 12) * 12 + (11 - b % 12) == n) by (nonlinear_arith)
                    requires
                        b / 12 * 12 + b % 12 == b,
                        n == -1 - b,
                ;
                assert(0 <= b % 12 < 12);
                assert(n / 12 == -1 - b / 12 && n % 12 == 11 - b % 12) by (nonlinear_arith)
                    requires
                        (-1 - b / 12) * 12 + (11 - b % 12) == n,
                        0 <= 11 - b % 12 < 12,
                ;
            }
        }
        let year = year as i16;
        let month = month as i8;
        let last = days_in_month(year, month);
        let day = if self.day < last {
            self.day
        } else {
            last
        };
        CivilDate { year, month, day }
    }

    /// The weekday of this date as an offset from Monday (`0`) to Sunday (`6`).
    pub fn monday_zero_offset(&self) -> (r: i8)
        ensures
            r == weekday_monday_offset(
                self.year_spec() as int,
                self.month_spec() as int,
                self.day_spec() as int,
            ),
            0 <= r <= 6,
    {
        proof {
            use_type_invariant(self);
        }
        weekday_offset(self.year, self.month, self.day)
    }

    /// The date written as `YYYY-MM-DD`.
    pub fn to_iso_string(&self) -> (r: String)
        ensures
            r@ == iso_date(*self),
    {
        proof {
            use_type_invariant(self);
        }
        let mut s = String::new();
        let magnitude: u64 = if self.year < 0 {
            append_str(&mut s, "-00");
            (-(self.year as i32)) as u64
        } else {
            self.year as u64
        };
        proof {
            reveal_strlit("-00");
        }
        append_decimal_padded(&mut s, magnitude, 4);
        append_str(&mut s, "-");
        append_decimal_padded(&mut s, self.month as u64, 2);
        append_str(&mut s, "-");
        append_decimal_padded(&mut s, self.day as u64, 2);
        proof {
            reveal_strlit("-");
        }
        assert(s@ =~= iso_date(*self));
        s
    }
}

/// Two dates with the same year, month and day are the same date.
pub proof fn lemma_date_parts_determine(a: CivilDate, b: CivilDate)
    ensures
        (a.year_spec() == b.year_spec() && a.month_spec() == b.month_spec() && a.day_spec()
            == b.day_spec()) <==> a == b,
{
}

/// The number of days in `month` of `year`.
pub fn days_in_month(year: i16, month: i8) -> (r: i8)
    requires
        1 <= month <= 12,
    ensures
        r == days_in_month_of(year as int, month as int),
{
    if month == 2 {
        let a: u32 = if year < 0 {
            (-(year as i32)) as u32
        } else {
            year as u32
        };
        if a % 4 == 0 && (a % 100 != 0 || a % 400 == 0) {
            29
        } else {
            28
        }
    } else if month == 4 || month == 6 || month == 9 || month == 11 {
        30
    } else {
        31
    }
}

/// Computes the weekday of a valid date with `jiff::civil::date`,
/// `Date::weekday` and `Weekday::to_monday_zero_offset`. The contract claims
/// that the result is the weekday of the date in the proleptic Gregorian
/// calendar, which `jiff` documents as its calendar, counted from Monday as
/// `0` to Sunday as `6`.
#[verifier::external_body]
fn weekday_offset(year: i16, month: i8, day: i8) -> (r: i8)
    requires
        is_valid_date(year as int, month as int, day as int),
    ensures
        r == weekday_monday_offset(year as int, month as int, day as int),
        0 <= r <= 6,
{
    jiff::civil::date(year, month, day).weekday().to_monday_zero_offset()
}

} // verus!
