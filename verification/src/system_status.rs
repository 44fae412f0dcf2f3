//! The UTC wall clock behind the top bar, and the cadence at which the
//! slower system services are re-read.
//!
//! Nothing here fabricates a value: a clock that cannot be read reports an
//! error, and the bar renders it as one.

use vstd::prelude::*;
use crate::text::{padded_decimal, push_char, push_padded_decimal};
use crate::topbar::{AudioStatus, ClockProvider, ClockStatus, NetworkStatus, PowerStatus, ProviderState, TopBarSnapshot};

verus! {

/// How often, in milliseconds, the system services behind the bar are re-read.
///
/// Each poll costs a D-Bus round trip and, for audio, two short-lived
/// processes; battery, connectivity, and volume do not change fast enough to
/// justify paying that every second.
pub const SYSTEM_POLL_INTERVAL_MS: u64 = 5000;

/// Whether the system services are due to be read again, given how long ago
/// (in milliseconds) they were last read, or `None` when they never were.
pub fn poll_due(since_last_poll_ms: Option<u64>) -> (due: bool)
    ensures
        due == match since_last_poll_ms {
            None => true,
            Some(elapsed) => elapsed >= SYSTEM_POLL_INTERVAL_MS,
        },
{
    match since_last_poll_ms {
        None => true,
        Some(elapsed) => elapsed >= SYSTEM_POLL_INTERVAL_MS,
    }
}

/// A copy of a provider state whose value is plain data.
fn copy_state<T: Copy>(state: &ProviderState<T>) -> (copy: ProviderState<T>)
    ensures
        copy == *state,
{
    match state {
        ProviderState::Available { value, stale } => ProviderState::Available {
            value: *value,
            stale: *stale,
        },
        ProviderState::Unavailable => ProviderState::Unavailable,
        ProviderState::Error(message) => ProviderState::Error(message.clone()),
    }
}

/// A copy of a network provider state.
fn copy_network_state(state: &ProviderState<NetworkStatus>) -> (copy: ProviderState<NetworkStatus>)
    ensures
        copy == *state,
{
    match state {
        ProviderState::Available { value, stale } => {
            let value = match value {
                NetworkStatus::Offline => NetworkStatus::Offline,
                NetworkStatus::Connecting => NetworkStatus::Connecting,
                NetworkStatus::Connected { name, signal_percent } => NetworkStatus::Connected {
                    name: name.clone(),
                    signal_percent: *signal_percent,
                },
            };
            ProviderState::Available { value, stale: *stale }
        },
        ProviderState::Unavailable => ProviderState::Unavailable,
        ProviderState::Error(message) => ProviderState::Error(message.clone()),
    }
}

/// The system services behind the bar as last read. The clock is read for
/// every snapshot; network, audio, and power are re-read only when
/// [`poll_due`] says so, and otherwise reused.
#[derive(Debug)]
pub struct StatusCache {
    network: ProviderState<NetworkStatus>,
    audio: ProviderState<AudioStatus>,
    power: ProviderState<PowerStatus>,
}

impl StatusCache {
    /// The network state last read.
    pub closed spec fn network_spec(&self) -> ProviderState<NetworkStatus> {
        self.network
    }

    /// The audio state last read.
    pub closed spec fn audio_spec(&self) -> ProviderState<AudioStatus> {
        self.audio
    }

    /// The power state last read.
    pub closed spec fn power_spec(&self) -> ProviderState<PowerStatus> {
        self.power
    }

    /// Nothing read yet: every service is unavailable, never a made-up value.
    pub fn new() -> (cache: Self)
        ensures
            cache.network_spec() == ProviderState::<NetworkStatus>::Unavailable,
            cache.audio_spec() == ProviderState::<AudioStatus>::Unavailable,
            cache.power_spec() == ProviderState::<PowerStatus>::Unavailable,
    {
        StatusCache {
            network: ProviderState::Unavailable,
            audio: ProviderState::Unavailable,
            power: ProviderState::Unavailable,
        }
    }

    /// Keep what one poll of the services read.
    pub fn record(
        &mut self,
        network: ProviderState<NetworkStatus>,
        audio: ProviderState<AudioStatus>,
        power: ProviderState<PowerStatus>,
    )
        ensures
            final(self).network_spec() == network,
            final(self).audio_spec() == audio,
            final(self).power_spec() == power,
    {
        self.network = network;
        self.audio = audio;
        self.power = power;
    }

    /// The bar's snapshot: the clock as just read, the services as last
    /// read. No workspace or activity source is connected to the system bar.
    pub fn snapshot(&self, clock: ProviderState<ClockStatus>) -> (snapshot: TopBarSnapshot)
        ensures
            snapshot.clock == clock,
            snapshot.network == self.network_spec(),
            snapshot.audio == self.audio_spec(),
            snapshot.power == self.power_spec(),
            snapshot.workspace == ProviderState::<crate::topbar::WorkspaceStatus>::Unavailable,
            snapshot.activity is Unavailable,
    {
        TopBarSnapshot {
            clock,
            workspace: ProviderState::Unavailable,
            network: copy_network_state(&self.network),
            audio: copy_state(&self.audio),
            power: copy_state(&self.power),
            activity: ProviderState::Unavailable,
        }
    }
}

// ---------------------------------------------------------------------------
// The proleptic Gregorian calendar.

/// Whether `year` has a 29th of February.
pub open spec fn is_leap_year(year: int) -> bool {
    (year % 4 == 0 && year % 100 != 0) || year % 400 == 0
}

/// Number of days in `year`.
pub open spec fn year_length(year: int) -> int {
    if is_leap_year(year) {
        366
    } else {
        365
    }
}

/// Number of days in `month` (1 to 12) of `year`.
pub open spec fn month_length(year: int, month: int) -> int {
    if month == 2 {
        if is_leap_year(year) {
            29
        } else {
            28
        }
    } else if month == 4 || month == 6 || month == 9 || month == 11 {
        30
    } else {
        31
    }
}

/// Days from 1970-01-01 to the first of January of `year`; negative for
/// the years before 1970.
pub open spec fn days_before_year(year: int) -> int
    decreases (if year >= 1970 {
        year - 1970
    } else {
        1970 - year
    }),
{
    if year == 1970 {
        0
    } else if year > 1970 {
        days_before_year(year - 1) + year_length(year - 1)
    } else {
        days_before_year(year + 1) - year_length(year)
    }
}

/// Days from the first of January of `year` to the first day of `month`.
pub open spec fn days_before_month(year: int, month: int) -> int
    decreases month,
{
    if month <= 1 {
        0
    } else {
        days_before_month(year, month - 1) + month_length(year, month - 1)
    }
}

/// A date of the proleptic Gregorian calendar.
pub open spec fn is_valid_date(year: int, month: int, day: int) -> bool {
    &&& 1 <= month <= 12
    &&& 1 <= day <= month_length(year, month)
}

/// Days since 1970-01-01 of the given date.
pub open spec fn day_number(year: int, month: int, day: int) -> int {
    days_before_year(year) + days_before_month(year, month) + day - 1
}

/// Adding a year adds that year's length.
proof fn lemma_days_before_next_year(year: int)
    ensures
        days_before_year(year + 1) == days_before_year(year) + year_length(year),
{
}

/// Later years start later.
proof fn lemma_days_before_year_monotonic(a: int, b: int)
    requires
        a <= b,
    ensures
        days_before_year(a) <= days_before_year(b),
    decreases b - a,
{
    if a < b {
        lemma_days_before_year_monotonic(a, b - 1);
        lemma_days_before_next_year(b - 1);
    }
}

/// Leap years among the years `1..=n` (for `n >= 0`).
spec fn leap_years_through(n: int) -> int {
    n / 4 - n / 100 + n / 400
}

/// Counting one more year counts one more leap year exactly when it is one.
proof fn lemma_leap_years_step(year: int)
    ensures
        leap_years_through(year) == leap_years_through(year - 1) + if is_leap_year(year) {
            1int
        } else {
            0int
        },
{
    vstd::arithmetic::div_mod::lemma_fundamental_div_mod(year, 4);
    vstd::arithmetic::div_mod::lemma_fundamental_div_mod(year - 1, 4);
    vstd::arithmetic::div_mod::lemma_fundamental_div_mod(year, 100);
    vstd::arithmetic::div_mod::lemma_fundamental_div_mod(year - 1, 100);
    vstd::arithmetic::div_mod::lemma_fundamental_div_mod(year, 400);
    vstd::arithmetic::div_mod::lemma_fundamental_div_mod(year - 1, 400);
}

/// The days before a year, counted in closed form.
proof fn lemma_days_before_year_closed(year: int)
    ensures
        days_before_year(year) == 365 * (year - 1970) + leap_years_through(year - 1)
            - leap_years_through(1969),
    decreases (if year >= 1970 {
        year - 1970
    } else {
        1970 - year
    }),
{
    if year > 1970 {
        lemma_days_before_year_closed(year - 1);
        lemma_leap_years_step(year - 1);
    } else if year < 1970 {
        lemma_days_before_year_closed(year + 1);
        lemma_leap_years_step(year);
    }
}

/// Four hundred consecutive years always hold 146097 days.
proof fn lemma_four_centuries(year: int)
    ensures
        days_before_year(year + 400) == days_before_year(year) + 146097,
{
    lemma_days_before_year_closed(year);
    lemma_days_before_year_closed(year + 400);
    lemma_div_shift(year - 1, 4, 100);
    lemma_div_shift(year - 1, 100, 4);
    lemma_div_shift(year - 1, 400, 1);
    assert(leap_years_through(year + 399) == leap_years_through(year - 1) + 97);
}

/// Adding `k` multiples of `d` adds `k` to the quotient.
proof fn lemma_div_shift(n: int, d: int, k: int)
    requires
        d > 0,
    ensures
        (n + d * k) / d == n / d + k,
{
    vstd::arithmetic::div_mod::lemma_fundamental_div_mod(n, d);
    let q = n / d;
    let r = n % d;
    assert(n + d * k == d * (q + k) + r) by (nonlinear_arith)
        requires
            n == d * q + r,
    ;
    vstd::arithmetic::div_mod::lemma_div_multiples_vanish_fancy(q + k, r, d);
}

/// Whole four-century cycles later (or earlier) the year starts that many
/// times 146097 days later (or earlier).
proof fn lemma_shift_cycles(year: int, cycles: int)
    ensures
        days_before_year(year + 400 * cycles) == days_before_year(year) + 146097 * cycles,
    decreases (if cycles >= 0 {
        cycles
    } else {
        -cycles
    }),
{
    if cycles > 0 {
        lemma_shift_cycles(year, cycles - 1);
        lemma_four_centuries(year + 400 * (cycles - 1));
    } else if cycles < 0 {
        lemma_shift_cycles(year, cycles + 1);
        lemma_four_centuries(year + 400 * cycles);
    }
}

/// Leap years repeat every four centuries.
proof fn lemma_leap_periodic(year: int, cycles: int)
    ensures
        is_leap_year(year + 400 * cycles) == is_leap_year(year),
{
    assert(400 * cycles == 4 * (100 * cycles)) by (nonlinear_arith);
    assert(400 * cycles == 100 * (4 * cycles)) by (nonlinear_arith);
    vstd::arithmetic::div_mod::lemma_mod_multiples_vanish(100 * cycles, year, 4);
    vstd::arithmetic::div_mod::lemma_mod_multiples_vanish(4 * cycles, year, 100);
    vstd::arithmetic::div_mod::lemma_mod_multiples_vanish(cycles, year, 400);
}

/// Months start on the same day of the year four centuries apart.
proof fn lemma_months_periodic(year: int, cycles: int, month: int)
    ensures
        days_before_month(year + 400 * cycles, month) == days_before_month(year, month),
        month_length(year + 400 * cycles, month) == month_length(year, month),
    decreases month,
{
    lemma_leap_periodic(year, cycles);
    if month > 1 {
        lemma_months_periodic(year, cycles, month - 1);
    }
}

/// A date four centuries later (or earlier) is a date, 146097 days later (or
/// earlier) per cycle.
proof fn lemma_date_shift(year: int, month: int, day: int, cycles: int)
    requires
        is_valid_date(year, month, day),
    ensures
        is_valid_date(year + 400 * cycles, month, day),
        day_number(year + 400 * cycles, month, day) == day_number(year, month, day) + 146097 * cycles,
{
    lemma_shift_cycles(year, cycles);
    lemma_months_periodic(year, cycles, month);
}

/// A date whose day number is not negative lies in 1970 or later.
proof fn lemma_epoch_or_later(year: int, month: int, day: int)
    requires
        is_valid_date(year, month, day),
        day_number(year, month, day) >= 0,
    ensures
        year >= 1970,
{
    if year < 1970 {
        lemma_day_within_year(year, month, day);
        lemma_days_before_next_year(year);
        lemma_days_before_year_monotonic(year + 1, 1970);
    }
}

/// The months of a year add up to the year.
proof fn lemma_months_fill_year(year: int)
    ensures
        days_before_month(year, 13) == year_length(year),
{
    reveal_with_fuel(days_before_month, 13);
}

/// Later months start later, and a month ends before the next begins.
proof fn lemma_days_before_month_monotonic(year: int, a: int, b: int)
    requires
        1 <= a <= b,
    ensures
        days_before_month(year, a) <= days_before_month(year, b),
    decreases b - a,
{
    if a < b {
        lemma_days_before_month_monotonic(year, a, b - 1);
    }
}

/// The day of a valid date lies inside its year.
proof fn lemma_day_within_year(year: int, month: int, day: int)
    requires
        is_valid_date(year, month, day),
    ensures
        0 <= days_before_month(year, month) + day - 1 < year_length(year),
{
    lemma_days_before_month_monotonic(year, 1, month);
    lemma_days_before_month_monotonic(year, month + 1, 13);
    lemma_months_fill_year(year);
}

/// Distinct valid dates have distinct day numbers: a day number names
/// exactly one date.
pub proof fn lemma_day_number_injective(y1: int, m1: int, d1: int, y2: int, m2: int, d2: int)
    requires
        is_valid_date(y1, m1, d1),
        is_valid_date(y2, m2, d2),
        day_number(y1, m1, d1) == day_number(y2, m2, d2),
    ensures
        y1 == y2 && m1 == m2 && d1 == d2,
{
    lemma_day_within_year(y1, m1, d1);
    lemma_day_within_year(y2, m2, d2);
    if y1 < y2 {
        lemma_days_before_next_year(y1);
        lemma_days_before_year_monotonic(y1 + 1, y2);
    } else if y2 < y1 {
        lemma_days_before_next_year(y2);
        lemma_days_before_year_monotonic(y2 + 1, y1);
    } else if m1 < m2 {
        lemma_days_before_month_monotonic(y1, m1 + 1, m2);
    } else if m2 < m1 {
        lemma_days_before_month_monotonic(y1, m2 + 1, m1);
    }
}

/// The calendar day after a date.
pub open spec fn next_date(year: int, month: int, day: int) -> (int, int, int) {
    if day < month_length(year, month) {
        (year, month, day + 1)
    } else if month < 12 {
        (year, month + 1, 1)
    } else {
        (year + 1, 1, 1)
    }
}

/// The day after a date is a date, one day number later.
pub proof fn lemma_next_date(year: int, month: int, day: int)
    requires
        is_valid_date(year, month, day),
    ensures
        is_valid_date(next_date(year, month, day).0, next_date(year, month, day).1, next_date(year, month, day).2),
        day_number(next_date(year, month, day).0, next_date(year, month, day).1, next_date(year, month, day).2)
            == day_number(year, month, day) + 1,
{
    if day >= month_length(year, month) && month == 12 {
        lemma_months_fill_year(year);
        lemma_days_before_next_year(year);
    }
}

/// Consecutive day numbers name consecutive calendar days: the date one day
/// number after a date is the day after it. So `civil_from_days(n + 1)` is
/// the day after `civil_from_days(n)`.
pub proof fn lemma_consecutive_days(
    year: int,
    month: int,
    day: int,
    later_year: int,
    later_month: int,
    later_day: int,
)
    requires
        is_valid_date(year, month, day),
        is_valid_date(later_year, later_month, later_day),
        day_number(later_year, later_month, later_day) == day_number(year, month, day) + 1,
    ensures
        (later_year, later_month, later_day) == next_date(year, month, day),
{
    lemma_next_date(year, month, day);
    let next = next_date(year, month, day);
    lemma_day_number_injective(later_year, later_month, later_day, next.0, next.1, next.2);
}

/// The date a timestamp is shown with depends on its day alone: two
/// timestamps of the same day show the same date, whatever their time.
pub proof fn lemma_date_depends_on_day(first: ClockStatus, first_seconds: u64, second: ClockStatus, second_seconds: u64)
    requires
        formats_utc(first, first_seconds),
        formats_utc(second, second_seconds),
        first_seconds / 86400 == second_seconds / 86400,
    ensures
        first.date@ == second.date@,
{
    let (y1, m1, d1) = choose|year: int, month: int, day: int|
        is_valid_date(year, month, day) && day_number(year, month, day) == first_seconds / 86400
            && first.date@ == #[trigger] date_text(year, month, day);
    let (y2, m2, d2) = choose|year: int, month: int, day: int|
        is_valid_date(year, month, day) && day_number(year, month, day) == second_seconds / 86400
            && second.date@ == #[trigger] date_text(year, month, day);
    lemma_day_number_injective(y1, m1, d1, y2, m2, d2);
}

fn year_len(year: u64) -> (len: u64)
    ensures
        len == year_length(year as int),
{
    if (year % 4 == 0 && year % 100 != 0) || year % 400 == 0 {
        366
    } else {
        365
    }
}

fn month_len(year: u64, month: u32) -> (len: u64)
    ensures
        len == month_length(year as int, month as int),
{
    if month == 2 {
        if (year % 4 == 0 && year % 100 != 0) || year % 400 == 0 {
            29
        } else {
            28
        }
    } else if month == 4 || month == 6 || month == 9 || month == 11 {
        30
    } else {
        31
    }
}

/// The calendar date `days` (not negative) days after 1970-01-01.
fn civil_from_days_after_epoch(days: u64) -> (date: (u64, u32, u32))
    ensures
        is_valid_date(date.0 as int, date.1 as int, date.2 as int),
        day_number(date.0 as int, date.1 as int, date.2 as int) == days,
{
    let cycles = days / 146097;
    let mut rest = days % 146097;
    proof {
        assert(cycles * 146097 + rest == days);
        assert(400 * cycles <= 400 * (u64::MAX / 146097)) by (nonlinear_arith)
            requires
                cycles <= u64::MAX / 146097,
        ;
        lemma_shift_cycles(1970, cycles as int);
    }
    let first = 1970 + 400 * cycles;
    let mut year = first;
    proof {
        lemma_four_centuries(first as int);
    }
    while rest >= year_len(year)
        invariant
            1970 <= first <= year <= first + 400,
            first + 400 <= u64::MAX,
            days_before_year(year as int) + rest == days,
            days_before_year(first + 400) - days_before_year(year as int) > rest,
        decreases rest,
    {
        let len = year_len(year);
        proof {
            lemma_days_before_next_year(year as int);
        }
        rest = rest - len;
        year = year + 1;
    }
    let ghost in_year = rest;
    let mut month: u32 = 1;
    proof {
        lemma_months_fill_year(year as int);
    }
    while rest >= month_len(year, month)
        invariant
            1 <= month <= 12,
            days_before_month(year as int, month as int) + rest == in_year,
            in_year < year_length(year as int),
            days_before_month(year as int, 13) == year_length(year as int),
        decreases rest,
    {
        proof {
            if month == 12 {
                assert(days_before_month(year as int, 13) == days_before_month(year as int, 12)
                    + month_length(year as int, 12));
            }
        }
        let len = month_len(year, month);
        rest = rest - len;
        month = month + 1;
    }
    (year, month, (rest + 1) as u32)
}

/// The proleptic Gregorian date `days` days after 1970-01-01; a negative
/// count gives a date before it.
pub fn civil_from_days(days: i64) -> (date: (i64, u32, u32))
    ensures
        is_valid_date(date.0 as int, date.1 as int, date.2 as int),
        day_number(date.0 as int, date.1 as int, date.2 as int) == days,
{
    let cycles: i64;
    let rest: u64;
    if days >= 0 {
        let whole = days as u64;
        cycles = (whole / 146097) as i64;
        rest = whole % 146097;
    } else {
        let before = (-(days + 1)) as u64;
        cycles = -((before / 146097) as i64) - 1;
        rest = 146096 - before % 146097;
    }
    proof {
        assert(days == 146097 * cycles + rest);
    }
    let (year, month, day) = civil_from_days_after_epoch(rest);
    proof {
        lemma_shift_cycles(1970, 1);
        if year >= 2370 {
            lemma_days_before_year_monotonic(2370, year as int);
            lemma_day_within_year(year as int, month as int, day as int);
        }
        lemma_date_shift(year as int, month as int, day as int, cycles as int);
        assert(400 * cycles <= 400 * (i64::MAX / 146097)) by (nonlinear_arith)
            requires
                cycles <= i64::MAX / 146097,
        ;
        assert(400 * cycles >= 400 * (i64::MIN / 146097 - 1)) by (nonlinear_arith)
            requires
                cycles >= i64::MIN / 146097 - 1,
        ;
    }
    (year as i64 + 400 * cycles, month, day)
}

/// `YYYY-MM-DD`, the year padded to at least four digits.
pub open spec fn date_text(year: int, month: int, day: int) -> Seq<char> {
    padded_decimal(year as nat, 4) + "-"@ + padded_decimal(month as nat, 2) + "-"@ + padded_decimal(
        day as nat,
        2,
    )
}

/// `HH:MMZ` for a time of day in seconds; the `Z` says the clock is UTC.
pub open spec fn time_text(time_of_day: int) -> Seq<char> {
    padded_decimal((time_of_day / 3600) as nat, 2) + ":"@ + padded_decimal(
        ((time_of_day % 3600) / 60) as nat,
        2,
    ) + "Z"@
}

/// Whether `status` shows the UTC date and time of the Unix timestamp `seconds`.
pub open spec fn formats_utc(status: ClockStatus, seconds: u64) -> bool {
    &&& status.time@ == time_text((seconds % 86400) as int)
    &&& exists|year: int, month: int, day: int|
        is_valid_date(year, month, day) && day_number(year, month, day) == seconds / 86400
            && status.date@ == #[trigger] date_text(year, month, day)
}

/// Split a Unix timestamp into a UTC date and time.
pub fn format_utc(seconds: u64) -> (status: ClockStatus)
    ensures
        formats_utc(status, seconds),
{
    let days = (seconds / 86400) as i64;
    let time_of_day = seconds % 86400;
    let (year, month, day) = civil_from_days(days);
    proof {
        lemma_epoch_or_later(year as int, month as int, day as int);
    }
    let year = year as u64;
    let mut time = String::new();
    push_padded_decimal(&mut time, time_of_day / 3600, 2);
    push_char(&mut time, ':');
    push_padded_decimal(&mut time, (time_of_day % 3600) / 60, 2);
    push_char(&mut time, 'Z');
    let mut date = String::new();
    push_padded_decimal(&mut date, year, 4);
    push_char(&mut date, '-');
    push_padded_decimal(&mut date, month as u64, 2);
    push_char(&mut date, '-');
    push_padded_decimal(&mut date, day as u64, 2);
    proof {
        reveal_strlit("-");
        reveal_strlit(":");
        reveal_strlit("Z");
        assert(time@ =~= time_text(time_of_day as int));
        assert(date@ =~= date_text(year as int, month as int, day as int));
    }
    ClockStatus { time, date }
}

/// The bar's clock for a reading of the system clock: seconds since the Unix
/// epoch, or the reason the clock lies before the epoch.
pub fn clock_from_reading(reading: Result<u64, String>) -> (state: ProviderState<ClockStatus>)
    ensures
        match reading {
            Ok(seconds) => state matches ProviderState::Available { value, stale } && !stale
                && formats_utc(value, seconds),
            Err(reason) => state matches ProviderState::Error(message) && message@
                == "system clock is before the epoch: "@ + reason@,
        },
{
    match reading {
        Ok(seconds) => ProviderState::Available { value: format_utc(seconds), stale: false },
        Err(reason) => {
            let mut message = String::from_str("system clock is before the epoch: ");
            message.append(reason.as_str());
            proof {
                reveal_strlit("system clock is before the epoch: ");
            }
            ProviderState::Error(message)
        },
    }
}

// ---------------------------------------------------------------------------
// Reading the system clock.

#[verifier::external_type_specification]
#[verifier::external_body]
pub struct ExSystemTime(std::time::SystemTime);

#[verifier::external_type_specification]
#[verifier::external_body]
pub struct ExSystemTimeError(std::time::SystemTimeError);

/// `SystemTime::now`: the current time of the system clock. Nothing is
/// stated of it; it depends on the moment of the call.
#[verifier::external_body]
fn system_time_now() -> std::time::SystemTime {
    std::time::SystemTime::now()
}

/// `SystemTime::duration_since` measured from `UNIX_EPOCH`: the time elapsed
/// since the epoch, or an error when the clock lies before it. Nothing is
/// stated of which comes back.
#[verifier::external_body]
fn since_unix_epoch(now: &std::time::SystemTime) -> Result<
    core::time::Duration,
    std::time::SystemTimeError,
> {
    now.duration_since(std::time::UNIX_EPOCH)
}

/// `Duration::as_secs`: the whole seconds of a duration. Nothing is stated of
/// the number, as the duration is opaque here.
#[verifier::external_body]
fn whole_seconds(duration: &core::time::Duration) -> u64 {
    duration.as_secs()
}

/// The `Display` text of a `SystemTimeError`. Nothing is stated of the text.
#[verifier::external_body]
fn system_time_error_text(error: &std::time::SystemTimeError) -> String {
    error.to_string()
}

/// A UTC wall clock derived from the system clock.
#[derive(Debug, Default, Clone, Copy)]
pub struct SystemClockProvider;

impl ClockProvider for SystemClockProvider {
    /// The current UTC date and time; an error when the system clock lies
    /// before 1970, which is a machine whose clock has not been set.
    fn clock(&self) -> (state: ProviderState<ClockStatus>)
        ensures
            state is Error || (state matches ProviderState::Available { value, stale } && !stale
                && exists|seconds: u64| formats_utc(value, seconds)),
            state matches ProviderState::Error(message) ==> "system clock is before the epoch: "@.is_prefix_of(
                message@,
            ),
    {
        let now = system_time_now();
        let reading = match since_unix_epoch(&now) {
            Ok(since) => Ok(whole_seconds(&since)),
            Err(error) => Err(system_time_error_text(&error)),
        };
        let ghost read = reading;
        let state = clock_from_reading(reading);
        proof {
            reveal_strlit("system clock is before the epoch: ");
            if let Err(reason) = read {
                assert(("system clock is before the epoch: "@ + reason@).subrange(0, 34)
                    =~= "system clock is before the epoch: "@);
            }
        }
        state
    }
}

} // verus!
