//! Tick-based time: processing speed, the simulation clock and calendar dates.
use vstd::prelude::*;
use vstd::arithmetic::div_mod::{lemma_fundamental_div_mod, lemma_fundamental_div_mod_converse};
use vstd::arithmetic::mul::lemma_mul_is_commutative;
use crate::text::{decimal, decimal_padded, push_decimal, push_decimal_padded};

verus! {

/// Processing speed settings.
#[derive(Debug, Clone, Copy, PartialEq, Eq, Structural)]
pub enum Speed {
    /// Processing is paused.
    Paused,
    /// Slowest speed.
    VerySlow,
    /// Slow speed.
    Slow,
    /// Normal speed.
    Normal,
    /// Fast speed.
    Fast,
    /// Fastest speed.
    VeryFast,
}

/// Milliseconds between ticks at a speed; none when paused.
pub open spec fn interval_ms(s: Speed) -> Option<u64> {
    match s {
        Speed::Paused => None,
        Speed::VerySlow => Some(2000),
        Speed::Slow => Some(1000),
        Speed::Normal => Some(500),
        Speed::Fast => Some(200),
        Speed::VeryFast => Some(50),
    }
}

impl Default for Speed {
    /// The default speed: paused.
    fn default() -> (r: Self)
        ensures
            r == Speed::Paused,
    {
        Speed::Paused
    }
}

impl Speed {
    /// The tick interval in milliseconds for this speed; `None` if paused.
    pub fn tick_interval_ms(&self) -> (r: Option<u64>)
        ensures
            r == interval_ms(*self),
    {
        match self {
            Speed::Paused => None,
            Speed::VerySlow => Some(2000),
            Speed::Slow => Some(1000),
            Speed::Normal => Some(500),
            Speed::Fast => Some(200),
            Speed::VeryFast => Some(50),
        }
    }

    /// Check if processing is paused.
    pub fn is_paused(&self) -> (r: bool)
        ensures
            r == (*self == Speed::Paused),
    {
        match self {
            Speed::Paused => true,
            _ => false,
        }
    }

}

// ---------------------------------------------------------------------------
// Calendar model (proleptic Gregorian calendar)
// ---------------------------------------------------------------------------

/// Whether `y` is a leap year.
pub open spec fn leap(y: int) -> bool {
    (y % 4 == 0 && y % 100 != 0) || y % 400 == 0
}

/// Number of days in month `m` (1..=12) of year `y`.
pub open spec fn month_len(y: int, m: int) -> int {
    if m == 2 {
        if leap(y) {
            29
        } else {
            28
        }
    } else if m == 4 || m == 6 || m == 9 || m == 11 {
        30
    } else {
        31
    }
}

/// Number of days in year `y`.
pub open spec fn year_len(y: int) -> int {
    if leap(y) {
        366
    } else {
        365
    }
}

/// Days from the first day of year 0 to the first day of year `y`
/// (negative for years before 0).
pub open spec fn days_before_year(y: int) -> int {
    365 * y + (y + 3) / 4 - (y + 99) / 100 + (y + 399) / 400
}

/// Days from the first day of year `y` to the first day of month `m` (1..=12).
pub open spec fn days_before_month(y: int, m: int) -> int {
    let base: int = if m == 1 {
        0
    } else if m == 2 {
        31
    } else if m == 3 {
        59
    } else if m == 4 {
        90
    } else if m == 5 {
        120
    } else if m == 6 {
        151
    } else if m == 7 {
        181
    } else if m == 8 {
        212
    } else if m == 9 {
        243
    } else if m == 10 {
        273
    } else if m == 11 {
        304
    } else {
        334
    };
    if m > 2 && leap(y) {
        base + 1
    } else {
        base
    }
}

/// The day number of day `d` of month `m` of year `y`; the first day of year 0 is 1.
/// `d` may lie outside the month, counting on from its first day.
pub open spec fn day_number(y: int, m: int, d: int) -> int {
    days_before_year(y) + days_before_month(y, m) + d
}

proof fn lemma_div_succ(x: int, d: int)
    requires
        d > 0,
    ensures
        (x + 1) / d == x / d + (if (x + 1) % d == 0 {
            1int
        } else {
            0int
        }),
        (x + d) % d == x % d,
{
    lemma_fundamental_div_mod(x, d);
    lemma_mul_is_commutative(d, x / d);
    let q = x / d;
    let r = x % d;
    assert((q + 1) * d == q * d + d) by (nonlinear_arith);
    if r + 1 < d {
        lemma_fundamental_div_mod_converse(x + 1, d, q, r + 1);
    } else {
        lemma_fundamental_div_mod_converse(x + 1, d, q + 1, 0);
    }
    lemma_fundamental_div_mod_converse(x + d, d, q + 1, r);
}

/// A year holds `year_len` days between the starts of it and the next one.
pub proof fn lemma_year_step(y: int)
    ensures
        days_before_year(y + 1) == days_before_year(y) + year_len(y),
{
    lemma_div_succ(y + 3, 4);
    lemma_div_succ(y, 4);
    lemma_div_succ(y + 99, 100);
    lemma_div_succ(y, 100);
    lemma_div_succ(y + 399, 400);
    lemma_div_succ(y, 400);
}

/// Going on from the end of a month lands on the first day of the next.
pub proof fn lemma_month_step(y: int, m: int)
    requires
        1 <= m <= 12,
    ensures
        m < 12 ==> day_number(y, m + 1, 0) == day_number(y, m, month_len(y, m)),
        m == 12 ==> day_number(y + 1, 1, 0) == day_number(y, 12, 31),
{
    lemma_year_step(y);
}

/// A later year starts after every day of an earlier one.
proof fn lemma_year_order(y1: int, y2: int)
    requires
        y1 < y2,
    ensures
        days_before_year(y1) + year_len(y1) <= days_before_year(y2),
    decreases y2 - y1,
{
    lemma_year_step(y1);
    if y1 + 1 < y2 {
        lemma_year_order(y1 + 1, y2);
    }
}

/// A day of a month lies within its year.
proof fn lemma_day_in_year(y: int, m: int, d: int)
    requires
        1 <= m <= 12,
        1 <= d <= month_len(y, m),
    ensures
        days_before_year(y) < day_number(y, m, d) <= days_before_year(y) + year_len(y),
{
}

/// Days of valid dates have different day numbers.
proof fn lemma_day_number_unique(y1: int, m1: int, d1: int, y2: int, m2: int, d2: int)
    requires
        1 <= m1 <= 12,
        1 <= d1 <= month_len(y1, m1),
        1 <= m2 <= 12,
        1 <= d2 <= month_len(y2, m2),
        day_number(y1, m1, d1) == day_number(y2, m2, d2),
    ensures
        y1 == y2 && m1 == m2 && d1 == d2,
{
    lemma_day_in_year(y1, m1, d1);
    lemma_day_in_year(y2, m2, d2);
    if y1 < y2 {
        lemma_year_order(y1, y2);
    } else if y2 < y1 {
        lemma_year_order(y2, y1);
    }
}

/// A calendar date.
#[derive(Debug, Clone, Copy, PartialEq, Eq, Structural)]
pub struct Timestamp {
    /// Year.
    pub year: i32,
    /// Month, 1..=12.
    pub month: u8,
    /// Day of the month.
    pub day: u8,
}

impl Timestamp {
    /// Create a new timestamp.
    pub fn new(year: i32, month: u8, day: u8) -> (r: Self)
        ensures
            r.year == year,
            r.month == month,
            r.day == day,
    {
        Timestamp { year, month, day }
    }

    /// Check if a year is a leap year.
    pub fn is_leap_year(year: i32) -> (r: bool)
        ensures
            r == leap(year as int),
    {
        (year % 4 == 0 && year % 100 != 0) || (year % 400 == 0)
    }

    /// Number of days in a month of a year.
    pub fn days_in_month(year: i32, month: u8) -> (r: u8)
        requires
            1 <= month <= 12,
        ensures
            r as int == month_len(year as int, month as int),
    {
        if month == 2 && Self::is_leap_year(year) {
            29
        } else if month == 2 {
            28
        } else if month == 4 || month == 6 || month == 9 || month == 11 {
            30
        } else {
            31
        }
    }

    /// Add `days` (possibly negative) to this date, normalising day and month.
    pub fn add_days(&self, days: i32) -> (r: Self)
        requires
            1 <= self.month <= 12,
            self.day + days <= i32::MAX,
            days_before_year(i32::MIN as int) + 1 <= day_number(
                self.year as int,
                self.month as int,
                self.day + days,
            ) <= days_before_year(i32::MAX as int + 1),
        ensures
            1 <= r.month <= 12,
            1 <= r.day <= month_len(r.year as int, r.month as int),
            day_number(r.year as int, r.month as int, r.day as int) == day_number(
                self.year as int,
                self.month as int,
                self.day + days,
            ),
    {
        let ghost target = day_number(self.year as int, self.month as int, self.day + days);
        let mut year = self.year;
        let mut month = self.month;
        let mut day: i32 = self.day as i32;
        day = day + days;
        while day > Self::days_in_month(year, month) as i32
            invariant
                1 <= month <= 12,
                day_number(year as int, month as int, day as int) == target,
                days_before_year(i32::MIN as int) + 1 <= target <= days_before_year(
                    i32::MAX as int + 1,
                ),
            decreases day,
        {
            let dim = Self::days_in_month(year, month) as i32;
            proof {
                lemma_month_step(year as int, month as int);
            }
            day = day - dim;
            month = month + 1;
            if month > 12 {
                proof {
                    if year == i32::MAX {
                        lemma_year_step(year as int);
                        assert(false);
                    }
                }
                month = 1;
                year = year + 1;
            }
        }
        while day < 1
            invariant
                1 <= month <= 12,
                day <= month_len(year as int, month as int),
                day_number(year as int, month as int, day as int) == target,
                days_before_year(i32::MIN as int) + 1 <= target <= days_before_year(
                    i32::MAX as int + 1,
                ),
            decreases (if day < 1 {
                1 - day
            } else {
                0
            }),
        {
            month = month - 1;
            if month < 1 {
                proof {
                    if year == i32::MIN {
                        assert(false);
                    }
                    lemma_month_step(year - 1, 12);
                }
                month = 12;
                year = year - 1;
            } else {
                proof {
                    lemma_month_step(year as int, month as int);
                }
            }
            day = day + Self::days_in_month(year, month) as i32;
        }
        Timestamp { year, month, day: day as u8 }
    }

    /// The date as text: year with four digits, month and day with two, joined by `-`.
    pub fn to_text(&self) -> (r: String)
        ensures
            self.year >= 0 ==> r@ == decimal_padded(self.year as nat, 4) + "-"@ + decimal_padded(
                self.month as nat,
                2,
            ) + "-"@ + decimal_padded(self.day as nat, 2),
            self.year < 0 ==> r@ == "-"@ + decimal_padded((-self.year) as nat, 3) + "-"@
                + decimal_padded(self.month as nat, 2) + "-"@ + decimal_padded(
                self.day as nat,
                2,
            ),
    {
        let mut s = String::new();
        if self.year >= 0 {
            push_decimal_padded(&mut s, self.year as u64, 4);
        } else {
            s.append("-");
            let mag: u64 = (-(self.year as i64)) as u64;
            push_decimal_padded(&mut s, mag, 3);
        }
        s.append("-");
        push_decimal_padded(&mut s, self.month as u64, 2);
        s.append("-");
        push_decimal_padded(&mut s, self.day as u64, 2);
        s
    }
}

/// The simulation clock.
#[derive(Debug, Clone, Copy)]
pub struct Clock {
    /// Current tick number.
    pub tick: u64,
    /// Current processing speed.
    pub speed: Speed,
    /// Start date (for display).
    pub start_date: Timestamp,
    /// Ticks per day (for date calculation).
    pub ticks_per_day: u32,
}

/// Whole days elapsed at a tick, as the 32-bit count that the clock uses.
pub open spec fn days_elapsed(c: Clock) -> i32 {
    (c.tick / (c.ticks_per_day as u64)) as i32
}

impl Clock {
    /// The state of a new clock.
    pub open spec fn new_spec() -> Clock {
        Clock {
            tick: 0,
            speed: Speed::Paused,
            start_date: Timestamp { year: 1, month: 1, day: 1 },
            ticks_per_day: 1,
        }
    }

    /// A clock at tick 0, paused, starting on 0001-01-01, one tick per day.
    pub fn new() -> (r: Self)
        ensures
            r == Clock::new_spec(),
    {
        Clock { tick: 0, speed: Speed::Paused, start_date: Timestamp::new(1, 1, 1), ticks_per_day: 1 }
    }

    /// A clock at tick 0, paused, starting on the given date, one tick per day.
    pub fn with_start_date(year: i32, month: u8, day: u8) -> (r: Self)
        ensures
            r.tick == 0,
            r.speed == Speed::Paused,
            r.start_date == (Timestamp { year, month, day }),
            r.ticks_per_day == 1,
    {
        Clock {
            tick: 0,
            speed: Speed::Paused,
            start_date: Timestamp::new(year, month, day),
            ticks_per_day: 1,
        }
    }

    /// Advance to the next tick.
    pub fn advance(&mut self)
        requires
            old(self).tick < u64::MAX,
        ensures
            *final(self) == (Clock { tick: (old(self).tick + 1) as u64, ..*old(self) }),
    {
        self.tick = self.tick + 1;
    }

    /// The current date: the start date plus the whole days elapsed.
    pub fn current_date(&self) -> (r: Timestamp)
        requires
            self.ticks_per_day > 0,
            1 <= self.start_date.month <= 12,
            self.start_date.day + days_elapsed(*self) <= i32::MAX,
            days_before_year(i32::MIN as int) + 1 <= day_number(
                self.start_date.year as int,
                self.start_date.month as int,
                self.start_date.day + days_elapsed(*self),
            ) <= days_before_year(i32::MAX as int + 1),
        ensures
            1 <= r.month <= 12,
            1 <= r.day <= month_len(r.year as int, r.month as int),
            day_number(r.year as int, r.month as int, r.day as int) == day_number(
                self.start_date.year as int,
                self.start_date.month as int,
                self.start_date.day + days_elapsed(*self),
            ),
    {
        let days_elapsed = (self.tick / self.ticks_per_day as u64) as i32;
        self.start_date.add_days(days_elapsed)
    }

    /// Set the processing speed.
    pub fn set_speed(&mut self, speed: Speed)
        ensures
            *final(self) == (Clock { speed, ..*old(self) }),
    {
        self.speed = speed;
    }

    /// Toggle pause: a paused clock resumes at `previous_speed` (at `Normal` if that is
    /// also paused); a running clock pauses. Returns the new speed.
    pub fn toggle_pause(&mut self, previous_speed: Speed) -> (r: Speed)
        ensures
            r == final(self).speed,
            final(self).speed == (if old(self).speed == Speed::Paused {
                if previous_speed == Speed::Paused {
                    Speed::Normal
                } else {
                    previous_speed
                }
            } else {
                Speed::Paused
            }),
            final(self).tick == old(self).tick,
            final(self).start_date == old(self).start_date,
            final(self).ticks_per_day == old(self).ticks_per_day,
    {
        if self.speed.is_paused() {
            self.speed = if previous_speed.is_paused() {
                Speed::Normal
            } else {
                previous_speed
            };
        } else {
            self.speed = Speed::Paused;
        }
        self.speed
    }
}


/// `r` is a valid date whose day number is that of `t` with `days` added.
pub open spec fn days_added(t: Timestamp, days: int, r: Timestamp) -> bool {
    &&& 1 <= r.month <= 12
    &&& 1 <= r.day <= month_len(r.year as int, r.month as int)
    &&& day_number(r.year as int, r.month as int, r.day as int) == day_number(
        t.year as int,
        t.month as int,
        t.day + days,
    )
}

/// Adding `a` days and then `b` days gives the date that adding `a + b` days gives.
pub proof fn lemma_add_days_compose(t: Timestamp, a: int, b: int, r: Timestamp, s: Timestamp, u: Timestamp)
    requires
        days_added(t, a, r),
        days_added(r, b, s),
        days_added(t, a + b, u),
    ensures
        s == u,
{
    lemma_day_number_unique(
        s.year as int,
        s.month as int,
        s.day as int,
        u.year as int,
        u.month as int,
        u.day as int,
    );
}

/// Adding no days to a valid date gives the date back.
pub proof fn lemma_add_zero_days(t: Timestamp, r: Timestamp)
    requires
        1 <= t.month <= 12,
        1 <= t.day <= month_len(t.year as int, t.month as int),
        days_added(t, 0, r),
    ensures
        r == t,
{
    lemma_day_number_unique(
        r.year as int,
        r.month as int,
        r.day as int,
        t.year as int,
        t.month as int,
        t.day as int,
    );
}

} // verus!
