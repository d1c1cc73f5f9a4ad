//! Calendar arithmetic and the OS clock.
//!
//! The clock holds an RTC-derived base time plus the seconds elapsed since
//! boot; reading the RTC itself is port I/O and happens outside this crate,
//! which only ever sees plain `DateTime` values.

use vstd::prelude::*;

use crate::textfmt::push_char;
use crate::textfmt::push_2digits;
use crate::textfmt::push_4digits;
use crate::textfmt::spec_two_digits;
use crate::textfmt::spec_four_digits;

verus! {

/// A civil date and time, as the RTC reports it.
#[derive(Clone, Copy, Debug, PartialEq, Eq, Structural)]
pub struct DateTime {
    pub year: u16,
    pub month: u8,
    pub day: u8,
    pub hour: u8,
    pub minute: u8,
    pub second: u8,
}

pub open spec fn spec_is_leap_year(y: int) -> bool {
    (y % 4 == 0 && y % 100 != 0) || y % 400 == 0
}

pub open spec fn spec_days_in_year(y: int) -> int {
    if spec_is_leap_year(y) {
        366
    } else {
        365
    }
}

pub open spec fn spec_days_in_month(y: int, m: int) -> int {
    if m == 2 {
        if spec_is_leap_year(y) {
            29
        } else {
            28
        }
    } else if m == 4 || m == 6 || m == 9 || m == 11 {
        30
    } else {
        31
    }
}

/// Days from the epoch (1970-01-01) to the start of year `y`.
pub open spec fn days_before_year(y: int) -> int
    decreases y,
{
    if y <= 1970 {
        0
    } else {
        days_before_year(y - 1) + spec_days_in_year(y - 1)
    }
}

/// Days from the start of year `y` to the start of month `m`.
pub open spec fn days_before_month(y: int, m: int) -> int
    decreases m,
{
    if m <= 1 {
        0
    } else {
        days_before_month(y, m - 1) + spec_days_in_month(y, m - 1)
    }
}

/// Seconds from the epoch to the given date and time.
pub open spec fn spec_ymd_hms_to_secs(y: int, m: int, d: int, h: int, mi: int, s: int) -> int {
    (days_before_year(y) + days_before_month(y, m) + (d - 1)) * 86400 + h * 3600 + mi * 60 + s
}

/// Field ranges under which the calendar arithmetic is meaningful.
pub open spec fn valid_datetime(t: DateTime) -> bool {
    &&& 1970 <= t.year <= 9999
    &&& 1 <= t.month <= 12
    &&& 1 <= t.day <= 31
    &&& t.hour <= 23
    &&& t.minute <= 59
    &&& t.second <= 59
}

pub open spec fn datetime_secs(t: DateTime) -> int {
    spec_ymd_hms_to_secs(
        t.year as int,
        t.month as int,
        t.day as int,
        t.hour as int,
        t.minute as int,
        t.second as int,
    )
}

pub fn is_leap_year(year: u64) -> (r: bool)
    ensures
        r == spec_is_leap_year(year as int),
{
    (year % 4 == 0 && year % 100 != 0) || (year % 400 == 0)
}

pub fn days_in_year(year: u64) -> (r: u64)
    ensures
        r == spec_days_in_year(year as int),
{
    if is_leap_year(year) {
        366
    } else {
        365
    }
}

pub fn days_in_month(year: u64, month: u64) -> (r: u64)
    requires
        1 <= month <= 12,
    ensures
        r == spec_days_in_month(year as int, month as int),
{
    if month == 2 {
        if is_leap_year(year) {
            29
        } else {
            28
        }
    } else if month == 4 || month == 6 || month == 9 || month == 11 {
        30
    } else {
        31
    }
}

/// Binary value of a two-digit binary-coded-decimal byte.
pub fn bcd_to_binary(value: u8) -> (r: u8)
    ensures
        r as int == (value as int / 16) * 10 + (value as int % 16),
{
    ((value / 16) * 10) + (value % 16)
}

/// A year's twelve months sum to its day count.
proof fn lemma_year_months(y: int)
    ensures
        days_before_month(y, 13) == spec_days_in_year(y),
{
    reveal_with_fuel(days_before_month, 14);
}

/// Days to the start of a year grow by at most 366 a year.
proof fn lemma_days_before_year_bound(y: int)
    requires
        1970 <= y,
    ensures
        0 <= days_before_year(y) <= (y - 1970) * 366,
    decreases y,
{
    if y > 1970 {
        lemma_days_before_year_bound(y - 1);
    }
}

/// Days to the start of a month stay under a year's worth.
proof fn lemma_days_before_month_bound(y: int, m: int)
    requires
        1 <= m <= 13,
    ensures
        0 <= days_before_month(y, m) <= (m - 1) * 31,
    decreases m,
{
    if m > 1 {
        lemma_days_before_month_bound(y, m - 1);
    }
}

/// A valid date's epoch seconds are non-negative.
pub proof fn lemma_datetime_secs_nonneg(t: DateTime)
    requires
        valid_datetime(t),
    ensures
        datetime_secs(t) >= 0,
{
    lemma_days_before_year_bound(t.year as int);
    lemma_days_before_month_bound(t.year as int, t.month as int);
}

/// Seconds from the epoch to the given date and time.  The caller supplies
/// in-range fields; out-of-range fields are a programming error upstream.
pub fn ymd_hms_to_secs(y: u64, m: u64, d: u64, h: u64, min: u64, s: u64) -> (r: u64)
    requires
        1970 <= y <= 9999,
        1 <= m <= 12,
        1 <= d <= 31,
        h <= 23,
        min <= 59,
        s <= 59,
    ensures
        r == spec_ymd_hms_to_secs(y as int, m as int, d as int, h as int, min as int, s as int),
{
    proof {
        lemma_days_before_year_bound(y as int);
        lemma_days_before_month_bound(y as int, m as int);
    }
    let mut days: u64 = 0;
    let mut year: u64 = 1970;
    while year < y
        invariant
            1970 <= year <= y <= 9999,
            days == days_before_year(year as int),
            days <= (year - 1970) * 366,
        decreases y - year,
    {
        days = days + days_in_year(year);
        year = year + 1;
    }
    let mut month: u64 = 1;
    while month < m
        invariant
            1 <= month <= m <= 12,
            1970 <= y <= 9999,
            days == days_before_year(y as int) + days_before_month(y as int, month as int),
            days <= (y - 1970) * 366 + (month - 1) * 31,
        decreases m - month,
    {
        days = days + days_in_month(y, month);
        month = month + 1;
    }
    days = days + (d - 1);
    days * 86400 + h * 3600 + min * 60 + s
}

/// Break seconds since the epoch into calendar fields; the result always
/// converts back to exactly the input.
pub fn secs_to_ymd_hms(secs: u64) -> (r: (u64, u64, u64, u64, u64, u64))
    ensures
        1970 <= r.0,
        1 <= r.1 <= 12,
        1 <= r.2 <= spec_days_in_month(r.0 as int, r.1 as int),
        r.3 <= 23,
        r.4 <= 59,
        r.5 <= 59,
        spec_ymd_hms_to_secs(
            r.0 as int,
            r.1 as int,
            r.2 as int,
            r.3 as int,
            r.4 as int,
            r.5 as int,
        ) == secs,
{
    let total_days: u64 = secs / 86400;
    let mut rem: u64 = secs % 86400;
    let mut days: u64 = total_days;
    let mut year: u64 = 1970;
    loop
        invariant
            1970 <= year,
            total_days <= u64::MAX / 86400,
            days_before_year(year as int) + days == total_days,
            year - 1970 <= total_days - days,
        ensures
            days_before_year(year as int) + days == total_days,
            days < spec_days_in_year(year as int),
            1970 <= year,
            year <= 1970 + total_days,
        decreases days,
    {
        let dy = days_in_year(year);
        if days >= dy {
            days = days - dy;
            year = year + 1;
        } else {
            break ;
        }
    }
    let mut month: u64 = 1;
    loop
        invariant
            1 <= month <= 12,
            days <= total_days,
            days_before_month(year as int, month as int) + days == total_days - days_before_year(
                year as int,
            ),
            total_days - days_before_year(year as int) < spec_days_in_year(year as int),
            1970 <= year <= 1970 + total_days,
        ensures
            1 <= month <= 12,
            days < spec_days_in_month(year as int, month as int),
            days_before_month(year as int, month as int) + days == total_days - days_before_year(
                year as int,
            ),
        decreases 12 - month,
    {
        let dm = days_in_month(year, month);
        if days >= dm {
            proof {
                if month == 12 {
                    lemma_year_months(year as int);
                    assert(false);
                }
            }
            days = days - dm;
            month = month + 1;
        } else {
            break ;
        }
    }
    let day = days + 1;
    let hour = rem / 3600;
    rem = rem % 3600;
    let minute = rem / 60;
    let second = rem % 60;
    (year, month, day, hour, minute, second)
}

/// The OS clock: an RTC base time plus elapsed whole seconds, and the
/// 12/24-hour display preference.
pub struct Clock {
    base: Option<DateTime>,
    uptime_seconds: u64,
    display_24h: bool,
}

impl Clock {
    pub closed spec fn base(&self) -> Option<DateTime> {
        self.base
    }

    pub closed spec fn uptime(&self) -> int {
        self.uptime_seconds as int
    }

    pub closed spec fn is_24h(&self) -> bool {
        self.display_24h
    }

    pub open spec fn wf(&self) -> bool {
        &&& 0 <= self.uptime() <= u64::MAX
        &&& self.base() is Some ==> valid_datetime(self.base().unwrap())
    }

    /// Seconds since the epoch this clock shows right now, if initialized.
    pub open spec fn now_secs(&self) -> Option<int> {
        match self.base() {
            None => None,
            Some(b) => Some(
                if datetime_secs(b) + self.uptime() <= u64::MAX {
                    datetime_secs(b) + self.uptime()
                } else {
                    u64::MAX as int
                },
            ),
        }
    }

    /// An uninitialized clock in 24-hour mode.
    pub fn new() -> (c: Clock)
        ensures
            c.wf(),
            c.base() is None,
            c.uptime() == 0,
            c.is_24h(),
    {
        Clock { base: None, uptime_seconds: 0, display_24h: true }
    }

    /// Base the clock on a freshly read RTC time and restart the uptime
    /// count.
    pub fn init_time(&mut self, rtc: DateTime)
        requires
            valid_datetime(rtc),
        ensures
            final(self).wf(),
            final(self).base() == Some(rtc),
            final(self).uptime() == 0,
            final(self).is_24h() == old(self).is_24h(),
    {
        self.base = Some(rtc);
        self.uptime_seconds = 0;
    }

    /// One elapsed second (driven by the timer interrupt).
    pub fn tick_second(&mut self)
        requires
            old(self).wf(),
        ensures
            final(self).wf(),
            final(self).base() == old(self).base(),
            final(self).is_24h() == old(self).is_24h(),
            final(self).uptime() == (if old(self).uptime() < u64::MAX {
                old(self).uptime() + 1
            } else {
                old(self).uptime()
            }),
    {
        self.uptime_seconds = self.uptime_seconds.saturating_add(1);
    }

    pub fn set_24h(&mut self, on: bool)
        requires
            old(self).wf(),
        ensures
            final(self).wf(),
            final(self).base() == old(self).base(),
            final(self).uptime() == old(self).uptime(),
            final(self).is_24h() == on,
    {
        self.display_24h = on;
    }

    pub fn uses_24h(&self) -> (r: bool)
        ensures
            r == self.is_24h(),
    {
        self.display_24h
    }

    /// Seconds since the epoch, or `None` before `init_time`.
    pub fn current_time_secs(&self) -> (r: Option<u64>)
        requires
            self.wf(),
        ensures
            match self.now_secs() {
                None => r is None,
                Some(v) => r == Some(v as u64),
            },
    {
        match self.base {
            None => None,
            Some(b) => {
                let base_seconds = ymd_hms_to_secs(
                    b.year as u64,
                    b.month as u64,
                    b.day as u64,
                    b.hour as u64,
                    b.minute as u64,
                    b.second as u64,
                );
                Some(base_seconds.saturating_add(self.uptime_seconds))
            },
        }
    }
}

/// The clock line the HUD shows for known fields: `MM/DD/YYYY HH:MM:SS`,
/// with an `AM`/`PM` suffix in 12-hour mode.
pub open spec fn spec_clock_chars(
    y: int,
    m: int,
    d: int,
    h: int,
    mi: int,
    s: int,
    h24: bool,
) -> Seq<char> {
    let date = spec_two_digits(m) + "/"@ + spec_two_digits(d) + "/"@ + spec_four_digits(y) + " "@;
    if h24 {
        date + spec_two_digits(h) + ":"@ + spec_two_digits(mi) + ":"@ + spec_two_digits(s)
    } else {
        let (dh, suffix) = spec_hour12(h);
        date + spec_two_digits(dh) + ":"@ + spec_two_digits(mi) + ":"@ + spec_two_digits(s) + (
        if suffix {
            " PM"@
        } else {
            " AM"@
        })
    }
}

/// The 12-hour display hour and whether it is PM.
pub open spec fn spec_hour12(h: int) -> (int, bool) {
    if h == 0 {
        (12, false)
    } else if h < 12 {
        (h, false)
    } else if h == 12 {
        (12, true)
    } else {
        (h - 12, true)
    }
}

/// Render one clock reading for the HUD.
pub fn clock_chars(y: u64, m: u64, d: u64, h: u64, mi: u64, s: u64, h24: bool) -> (r: String)
    ensures
        r@ == spec_clock_chars(y as int, m as int, d as int, h as int, mi as int, s as int, h24),
{
    let mut out = String::new();
    push_2digits(&mut out, m);
    push_char(&mut out, '/');
    push_2digits(&mut out, d);
    push_char(&mut out, '/');
    push_4digits(&mut out, y);
    push_char(&mut out, ' ');
    if h24 {
        push_2digits(&mut out, h);
        push_char(&mut out, ':');
        push_2digits(&mut out, mi);
        push_char(&mut out, ':');
        push_2digits(&mut out, s);
    } else {
        let disp_h: u64 = if h == 0 {
            12
        } else if h < 12 {
            h
        } else if h == 12 {
            12
        } else {
            h - 12
        };
        push_2digits(&mut out, disp_h);
        push_char(&mut out, ':');
        push_2digits(&mut out, mi);
        push_char(&mut out, ':');
        push_2digits(&mut out, s);
        if h >= 12 {
            out.append(" PM");
        } else {
            out.append(" AM");
        }
    }
    proof {
        reveal_strlit("/");
        reveal_strlit(" ");
        reveal_strlit(":");
        reveal_strlit(" AM");
        reveal_strlit(" PM");
        assert(out@ =~= spec_clock_chars(y as int, m as int, d as int, h as int, mi as int,
            s as int, h24));
    }
    out
}

impl Clock {
    /// The HUD time string: the current reading formatted per the display
    /// mode, or a placeholder while the clock is uninitialized.
    pub fn format_hud_time(&self) -> (r: String)
        requires
            self.wf(),
        ensures
            self.base() is None ==> r@ == "--/--/---- --:--:--"@,
            self.base() is Some ==> exists|y: int, m: int, d: int, h: int, mi: int, s: int|
                spec_ymd_hms_to_secs(y, m, d, h, mi, s) == self.now_secs().unwrap()
                    && #[trigger] r@ == spec_clock_chars(y, m, d, h, mi, s, self.is_24h()),
    {
        match self.current_time_secs() {
            None => {
                let mut out = String::new();
                out.append("--/--/---- --:--:--");
                out
            },
            Some(secs) => {
                let parts = secs_to_ymd_hms(secs);
                let out = clock_chars(parts.0, parts.1, parts.2, parts.3, parts.4, parts.5,
                    self.display_24h);
                proof {
                    let b = self.base().unwrap();
                    lemma_days_before_year_bound(b.year as int);
                    lemma_days_before_month_bound(b.year as int, b.month as int);
                    assert(self.now_secs().unwrap() == secs as int);
                    assert(out@ == spec_clock_chars(parts.0 as int, parts.1 as int,
                        parts.2 as int, parts.3 as int, parts.4 as int, parts.5 as int,
                        self.is_24h()));
                }
                out
            },
        }
    }
}

} // verus!
