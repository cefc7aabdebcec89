//! Wake-time scheduling: given the current date and time and a list of
//! weekly time records, find the next (or the closest) scheduled time.
use core::time::Duration;
use vstd::prelude::*;

use crate::calendar::calendar_weekday;
use crate::calendar::days_from_epoch;
use crate::calendar::lemma_next_date_counts_one;
use crate::calendar::next_date;
use crate::calendar::weekday_of_day_number;
use crate::calendar::day_secs;
use crate::calendar::lemma_mod_is;
use crate::calendar::lemma_zeller_index_counts_days;
use crate::calendar::spec_days_in_month;
use crate::calendar::spec_is_leap_year;
use crate::calendar::spec_valid_date;
use crate::calendar::tdiv;
use crate::calendar::tmod;
use crate::calendar::week_secs;
use crate::calendar::weekday_of_zeller_index;
use crate::calendar::zeller_index;
use crate::calendar::zeller_year;

verus! {

pub const WEEKDAY_NONE: u8 = 0;

pub const MONDAY: u8 = 1;

pub const TUESDAY: u8 = 2;

pub const WEDNESDAY: u8 = 3;

pub const THURSDAY: u8 = 4;

pub const FRIDAY: u8 = 5;

pub const SATURDAY: u8 = 6;

pub const SUNDAY: u8 = 7;

pub const SECONDS_PER_DAY: u64 = 24 * 60 * 60;

/// A calendar date and a time of day.
#[derive(Debug, Clone, Copy, PartialEq, Eq)]
pub struct DateTime {
    pub year: i32,
    pub month: u8,
    pub day: u8,
    pub hour: u8,
    pub minute: u8,
    pub second: u8,
}

impl DateTime {
    pub fn new(year: i32, month: u8, day: u8, hour: u8, minute: u8, second: u8) -> (dt: Self)
        ensures
            dt == (DateTime { year, month, day, hour, minute, second }),
    {
        Self { year, month, day, hour, minute, second }
    }
}

/// A time of day that repeats on some weekdays.
#[derive(Debug, Clone, Copy, PartialEq, Eq)]
pub struct TimeRecord {
    pub hour: u8,
    pub minute: u8,
    /// Enabled weekdays. Use 1 = Monday through 7 = Sunday. Use 0 for unused slots.
    pub weekdays: [u8; 7],
}

impl TimeRecord {
    pub fn new(hour: u8, minute: u8, weekdays: [u8; 7]) -> (record: Self)
        ensures
            record == (TimeRecord { hour, minute, weekdays }),
    {
        Self { hour, minute, weekdays }
    }
}

#[derive(Debug, Clone, Copy, PartialEq, Eq)]
pub enum Error {
    InvalidDate,
    InvalidTime,
    InvalidWeekday(u8),
}

/// The next scheduled time: how long until it, and which record slot it is.
#[derive(Debug, Clone, Copy, PartialEq, Eq)]
pub struct NextWake {
    pub duration: Duration,
    pub hour: u8,
    pub minute: u8,
    pub weekday: u8,
}

/// The scheduled time nearest to now, in the future or in the past.
#[derive(Debug, Clone, Copy, PartialEq, Eq)]
pub struct ClosestWake {
    pub difference: Duration,
    pub hour: u8,
    pub minute: u8,
    pub weekday: u8,
    pub is_future: bool,
}

// ---------------------------------------------------------------------------
// Durations
// ---------------------------------------------------------------------------
/// The duration that `core::time::Duration::from_secs` builds from a number of
/// whole seconds.
pub uninterp spec fn duration_of_secs(secs: u64) -> Duration;

/// Calls `core::time::Duration::from_secs`. Trusted: the result is the duration
/// of `secs` whole seconds, named `duration_of_secs(secs)`.
#[verifier::external_body]
fn duration_from_secs(secs: u64) -> (d: Duration)
    ensures
        d == duration_of_secs(secs),
{
    Duration::from_secs(secs)
}

/// Calls `core::time::Duration::as_secs`. Trusted: on a duration built from
/// `n` whole seconds it gives back `n`. Of other durations (with a fractional
/// part) nothing is said.
#[verifier::external_body]
pub(crate) fn duration_as_secs(d: &Duration) -> (secs: u64)
    ensures
        forall|n: u64| *d == #[trigger] duration_of_secs(n) ==> secs == n,
{
    d.as_secs()
}

// ---------------------------------------------------------------------------
// Specification
// ---------------------------------------------------------------------------
pub open spec fn spec_seconds_since_midnight(hour: int, minute: int, second: int) -> int {
    hour * 3600 + minute * 60 + second
}

/// Offset in seconds of a weekday (1 = Monday) and a time of day from the
/// start of the week (Monday 00:00:00).
pub open spec fn week_position(weekday: int, secs: int) -> int {
    (weekday - 1) * day_secs() + secs
}

/// Where in the week (`0 .. one week`) one is `t` seconds after the given
/// weekday and time.
pub open spec fn position_after(weekday: int, secs: int, t: int) -> int {
    (week_position(weekday, secs) + t) % week_secs()
}

/// Seconds to wait from the current weekday/time until the target weekday/time
/// comes round, in `0 .. one week`.
pub open spec fn spec_forward_delta(
    current_weekday: int,
    target_weekday: int,
    now_secs: int,
    target_secs: int,
) -> int {
    (week_position(target_weekday, target_secs) - week_position(current_weekday, now_secs))
        % week_secs()
}

/// Seconds since the target weekday/time last came round, in `0 .. one week`.
pub open spec fn spec_backward_delta(
    current_weekday: int,
    target_weekday: int,
    now_secs: int,
    target_secs: int,
) -> int {
    (week_position(current_weekday, now_secs) - week_position(target_weekday, target_secs))
        % week_secs()
}

pub open spec fn date_error(year: int, month: int, day: int) -> Option<Error> {
    if spec_valid_date(year, month, day) {
        None
    } else {
        Some(Error::InvalidDate)
    }
}

pub open spec fn time_error(hour: int, minute: int, second: int) -> Option<Error> {
    if hour > 23 || minute > 59 || second > 59 {
        Some(Error::InvalidTime)
    } else {
        None
    }
}

pub open spec fn datetime_error(dt: DateTime) -> Option<Error> {
    match date_error(dt.year as int, dt.month as int, dt.day as int) {
        Some(e) => Some(e),
        None => time_error(dt.hour as int, dt.minute as int, dt.second as int),
    }
}

/// The first weekday among `weekdays[0..n]` that is out of range, as an error.
pub open spec fn weekdays_error_upto(weekdays: Seq<u8>, n: int) -> Option<Error>
    decreases n,
{
    if n <= 0 {
        None
    } else {
        match weekdays_error_upto(weekdays, n - 1) {
            Some(e) => Some(e),
            None => if weekdays[n - 1] > SUNDAY {
                Some(Error::InvalidWeekday(weekdays[n - 1]))
            } else {
                None
            },
        }
    }
}

pub open spec fn record_error(record: TimeRecord) -> Option<Error> {
    match time_error(record.hour as int, record.minute as int, 0) {
        Some(e) => Some(e),
        None => weekdays_error_upto(record.weekdays@, 7),
    }
}

/// The error of the first invalid record among `records[0..n]`.
pub open spec fn records_error_upto(records: Seq<TimeRecord>, n: int) -> Option<Error>
    decreases n,
{
    if n <= 0 {
        None
    } else {
        match records_error_upto(records, n - 1) {
            Some(e) => Some(e),
            None => record_error(records[n - 1]),
        }
    }
}

pub open spec fn records_error(records: Seq<TimeRecord>) -> Option<Error> {
    records_error_upto(records, records.len() as int)
}

/// What `weekday_from_date` returns.
pub open spec fn spec_weekday_from_date(year: int, month: int, day: int) -> Result<u8, Error> {
    if spec_valid_date(year, month, day) {
        Ok(weekday_of_zeller_index(zeller_index(year, month, day)) as u8)
    } else {
        Err(Error::InvalidDate)
    }
}

/// Machine arithmetic in the weekday computation cannot overflow.
pub open spec fn weekday_computable(year: int, month: int, day: int) -> bool {
    spec_valid_date(year, month, day) && month < 3 ==> year > i32::MIN
}

/// A wake query cannot overflow: when the date and time are valid (so the
/// weekday is computed), the year is not the smallest one in January or
/// February.
pub open spec fn wake_computable(now: DateTime) -> bool {
    datetime_error(now) is None && now.month < 3 ==> now.year > i32::MIN
}

pub open spec fn now_weekday(now: DateTime) -> int {
    weekday_of_zeller_index(zeller_index(now.year as int, now.month as int, now.day as int))
}

pub open spec fn now_secs(now: DateTime) -> int {
    spec_seconds_since_midnight(now.hour as int, now.minute as int, now.second as int)
}

pub open spec fn record_secs(record: TimeRecord) -> int {
    spec_seconds_since_midnight(record.hour as int, record.minute as int, 0)
}

/// Slot `k` of record `r` names a weekday.
pub open spec fn slot_active(records: Seq<TimeRecord>, r: int, k: int) -> bool {
    0 <= r < records.len() && 0 <= k < 7 && records[r].weekdays@[k] != WEEKDAY_NONE
}

/// Slot `(r1, k1)` is visited before slot `(r2, k2)`.
pub open spec fn slot_before(r1: int, k1: int, r2: int, k2: int) -> bool {
    r1 < r2 || (r1 == r2 && k1 < k2)
}

/// Seconds until slot `(r, k)` comes round.
pub open spec fn slot_forward(now: DateTime, records: Seq<TimeRecord>, r: int, k: int) -> int {
    spec_forward_delta(
        now_weekday(now),
        records[r].weekdays@[k] as int,
        now_secs(now),
        record_secs(records[r]),
    )
}

/// Seconds since slot `(r, k)` last came round.
pub open spec fn slot_backward(now: DateTime, records: Seq<TimeRecord>, r: int, k: int) -> int {
    spec_backward_delta(
        now_weekday(now),
        records[r].weekdays@[k] as int,
        now_secs(now),
        record_secs(records[r]),
    )
}

/// Distance of slot `(r, k)` from now, whichever way is shorter.
pub open spec fn slot_difference(now: DateTime, records: Seq<TimeRecord>, r: int, k: int) -> int {
    let f = slot_forward(now, records, r, k);
    let b = slot_backward(now, records, r, k);
    if f <= b {
        f
    } else {
        b
    }
}

/// Slot `(r, k)` is active, no active slot costs less, and every active slot
/// visited before it costs more.
pub open spec fn is_first_minimum(
    records: Seq<TimeRecord>,
    cost: spec_fn(int, int) -> int,
    r: int,
    k: int,
) -> bool {
    &&& slot_active(records, r, k)
    &&& forall|r2: int, k2: int|
        #![trigger slot_active(records, r2, k2)]
        slot_active(records, r2, k2) ==> cost(r, k) <= cost(r2, k2)
    &&& forall|r2: int, k2: int|
        #![trigger slot_active(records, r2, k2)]
        slot_active(records, r2, k2) && slot_before(r2, k2, r, k) ==> cost(r, k) < cost(r2, k2)
}

pub open spec fn forward_cost(now: DateTime, records: Seq<TimeRecord>) -> spec_fn(int, int) -> int {
    |r: int, k: int| slot_forward(now, records, r, k)
}

pub open spec fn difference_cost(now: DateTime, records: Seq<TimeRecord>) -> spec_fn(
    int,
    int,
) -> int {
    |r: int, k: int| slot_difference(now, records, r, k)
}

pub open spec fn next_wake_of_slot(now: DateTime, records: Seq<TimeRecord>, r: int, k: int) -> NextWake {
    NextWake {
        duration: duration_of_secs(slot_forward(now, records, r, k) as u64),
        hour: records[r].hour,
        minute: records[r].minute,
        weekday: records[r].weekdays@[k],
    }
}

pub open spec fn closest_wake_of_slot(
    now: DateTime,
    records: Seq<TimeRecord>,
    r: int,
    k: int,
) -> ClosestWake {
    ClosestWake {
        difference: duration_of_secs(slot_difference(now, records, r, k) as u64),
        hour: records[r].hour,
        minute: records[r].minute,
        weekday: records[r].weekdays@[k],
        is_future: slot_forward(now, records, r, k) <= slot_backward(now, records, r, k),
    }
}

/// The slot that comes round soonest (the first visited among equals), if any.
pub open spec fn next_wake_slot(now: DateTime, records: Seq<TimeRecord>) -> Option<(int, int)> {
    if exists|r: int, k: int| is_first_minimum(records, forward_cost(now, records), r, k) {
        Some(choose|r: int, k: int| is_first_minimum(records, forward_cost(now, records), r, k))
    } else {
        None
    }
}

/// The slot nearest to now either way (the first visited among equals), if any.
pub open spec fn closest_wake_slot(now: DateTime, records: Seq<TimeRecord>) -> Option<(int, int)> {
    if exists|r: int, k: int| is_first_minimum(records, difference_cost(now, records), r, k) {
        Some(choose|r: int, k: int| is_first_minimum(records, difference_cost(now, records), r, k))
    } else {
        None
    }
}

/// What `next_wake` returns: the first error, or the slot that comes round
/// soonest (the first one visited among equals), if any slot is active.
pub open spec fn spec_next_wake(now: DateTime, records: Seq<TimeRecord>) -> Result<Option<NextWake>, Error> {
    match datetime_error(now) {
        Some(e) => Err(e),
        None => match records_error(records) {
            Some(e) => Err(e),
            None => match next_wake_slot(now, records) {
                Some((r, k)) => Ok(Some(next_wake_of_slot(now, records, r, k))),
                None => Ok(None),
            },
        },
    }
}

/// What `closest_wake` returns: the first error, or the slot nearest to now
/// in either direction (the first one visited among equals), if any.
pub open spec fn spec_closest_wake(now: DateTime, records: Seq<TimeRecord>) -> Result<Option<ClosestWake>, Error> {
    match datetime_error(now) {
        Some(e) => Err(e),
        None => match records_error(records) {
            Some(e) => Err(e),
            None => match closest_wake_slot(now, records) {
                Some((r, k)) => Ok(Some(closest_wake_of_slot(now, records, r, k))),
                None => Ok(None),
            },
        },
    }
}

/// What `sleep_duration_until_next` returns.
pub open spec fn spec_sleep_duration_until_next(now: DateTime, records: Seq<TimeRecord>) -> Result<Option<Duration>, Error> {
    match spec_next_wake(now, records) {
        Err(e) => Err(e),
        Ok(None) => Ok(None),
        Ok(Some(w)) => Ok(Some(w.duration)),
    }
}

// ---------------------------------------------------------------------------
// Lemmas
// ---------------------------------------------------------------------------
/// At most one slot is the first minimum of a cost.
pub proof fn lemma_first_minimum_unique(
    records: Seq<TimeRecord>,
    cost: spec_fn(int, int) -> int,
    r1: int,
    k1: int,
    r2: int,
    k2: int,
)
    requires
        is_first_minimum(records, cost, r1, k1),
        is_first_minimum(records, cost, r2, k2),
    ensures
        r1 == r2 && k1 == k2,
{
    assert(slot_active(records, r1, k1));
    assert(slot_active(records, r2, k2));
}

/// Slot `(r, k)` is the first minimum of `cost` among the active slots
/// visited before slot `(i, j)`.
spec fn is_prefix_first_minimum(
    records: Seq<TimeRecord>,
    cost: spec_fn(int, int) -> int,
    i: int,
    j: int,
    r: int,
    k: int,
) -> bool {
    &&& slot_active(records, r, k)
    &&& slot_before(r, k, i, j)
    &&& forall|r2: int, k2: int|
        #![trigger slot_active(records, r2, k2)]
        slot_active(records, r2, k2) && slot_before(r2, k2, i, j) ==> cost(r, k) <= cost(r2, k2)
    &&& forall|r2: int, k2: int|
        #![trigger slot_active(records, r2, k2)]
        slot_active(records, r2, k2) && slot_before(r2, k2, r, k) ==> cost(r, k) < cost(r2, k2)
}

proof fn lemma_prefix_first_minimum_exists(
    records: Seq<TimeRecord>,
    cost: spec_fn(int, int) -> int,
    i: int,
    j: int,
)
    requires
        0 <= i,
        0 <= j <= 7,
    ensures
        (exists|r: int, k: int| slot_active(records, r, k) && slot_before(r, k, i, j)) ==> exists|
            r: int,
            k: int,
        | is_prefix_first_minimum(records, cost, i, j, r, k),
    decreases i, j,
{
    if exists|r: int, k: int| slot_active(records, r, k) && slot_before(r, k, i, j) {
        if j == 0 {
            if i == 0 {
                let (r, k) = choose|r: int, k: int|
                    slot_active(records, r, k) && slot_before(r, k, i, j);
                assert(false);
            } else {
                let pi = i - 1;
                lemma_prefix_first_minimum_exists(records, cost, pi, 7);
                let (r, k) = choose|r: int, k: int|
                    slot_active(records, r, k) && slot_before(r, k, i, j);
                assert(slot_active(records, r, k) && slot_before(r, k, pi, 7));
                let (br, bk) = choose|br: int, bk: int|
                    is_prefix_first_minimum(records, cost, pi, 7, br, bk);
                assert(is_prefix_first_minimum(records, cost, i, j, br, bk));
            }
        } else {
            let pj = j - 1;
            lemma_prefix_first_minimum_exists(records, cost, i, pj);
            let s_active = slot_active(records, i, pj);
            if exists|r: int, k: int| slot_active(records, r, k) && slot_before(r, k, i, pj) {
                let (br, bk) = choose|br: int, bk: int|
                    is_prefix_first_minimum(records, cost, i, pj, br, bk);
                if !s_active || cost(br, bk) <= cost(i, pj) {
                    assert(is_prefix_first_minimum(records, cost, i, j, br, bk));
                } else {
                    assert(is_prefix_first_minimum(records, cost, i, j, i, pj));
                }
            } else {
                assert(s_active);
                assert(is_prefix_first_minimum(records, cost, i, j, i, pj));
            }
        }
    }
}

/// Where any slot is active, some slot is the first minimum of `cost`.
proof fn lemma_first_minimum_exists(records: Seq<TimeRecord>, cost: spec_fn(int, int) -> int)
    ensures
        (exists|r: int, k: int| slot_active(records, r, k)) ==> exists|r: int, k: int|
            is_first_minimum(records, cost, r, k),
{
    if exists|r: int, k: int| slot_active(records, r, k) {
        let n = records.len() as int;
        let (r, k) = choose|r: int, k: int| slot_active(records, r, k);
        assert(slot_before(r, k, n, 0));
        lemma_prefix_first_minimum_exists(records, cost, n, 0);
        let (br, bk) = choose|br: int, bk: int| is_prefix_first_minimum(records, cost, n, 0, br, bk);
        assert(is_first_minimum(records, cost, br, bk));
    }
}

proof fn lemma_weekdays_error_none(weekdays: Seq<u8>, n: int)
    requires
        0 <= n <= weekdays.len(),
    ensures
        weekdays_error_upto(weekdays, n) is None <==> forall|k: int|
            0 <= k < n ==> weekdays[k] <= SUNDAY,
    decreases n,
{
    if n > 0 {
        lemma_weekdays_error_none(weekdays, n - 1);
    }
}

proof fn lemma_records_error_sticks(records: Seq<TimeRecord>, a: int, b: int)
    requires
        0 <= a <= b,
        records_error_upto(records, a) is Some,
    ensures
        records_error_upto(records, b) == records_error_upto(records, a),
    decreases b - a,
{
    if a < b {
        lemma_records_error_sticks(records, a, b - 1);
    }
}

/// A valid record names only weekdays 0 ..= 7.
proof fn lemma_valid_record_weekdays(record: TimeRecord)
    requires
        record_error(record) is None,
    ensures
        forall|k: int| 0 <= k < 7 ==> record.weekdays@[k] <= SUNDAY,
        record.hour <= 23 && record.minute <= 59,
{
    lemma_weekdays_error_none(record.weekdays@, 7);
}

// ---------------------------------------------------------------------------
// Laws
// ---------------------------------------------------------------------------
/// Waiting the forward delta from the current weekday and time lands exactly on
/// the target weekday and time, and no shorter wait does.
pub proof fn lemma_forward_delta_is_least_wait(
    current_weekday: int,
    target_weekday: int,
    now_secs: int,
    target_secs: int,
)
    ensures
        0 <= spec_forward_delta(current_weekday, target_weekday, now_secs, target_secs)
            < week_secs(),
        (week_position(current_weekday, now_secs) + spec_forward_delta(
            current_weekday,
            target_weekday,
            now_secs,
            target_secs,
        )) % week_secs() == week_position(target_weekday, target_secs) % week_secs(),
        forall|t: int|
            0 <= t < spec_forward_delta(current_weekday, target_weekday, now_secs, target_secs)
                ==> #[trigger] position_after(current_weekday, now_secs, t)
                != week_position(target_weekday, target_secs) % week_secs(),
{
    let p = week_position(current_weekday, now_secs);
    let q = week_position(target_weekday, target_secs);
    let f = spec_forward_delta(current_weekday, target_weekday, now_secs, target_secs);
    let w = week_secs();
    vstd::arithmetic::div_mod::lemma_fundamental_div_mod(q - p, w);
    vstd::arithmetic::div_mod::lemma_mod_bound(q - p, w);
    vstd::arithmetic::div_mod::lemma_fundamental_div_mod(q, w);
    vstd::arithmetic::div_mod::lemma_mod_bound(q, w);
    let a = (q - p) / w;
    // p + f == q - a * w
    lemma_mod_is(p + f, w, q / w - a, q % w);
    assert forall|t: int|
        0 <= t < f implies #[trigger] position_after(current_weekday, now_secs, t) != q % w by {
        vstd::arithmetic::div_mod::lemma_fundamental_div_mod(p + t, w);
        vstd::arithmetic::div_mod::lemma_mod_bound(p + t, w);
        if (p + t) % w == q % w {
            // then f - t is a positive multiple of w below w
            let c = q / w - (p + t) / w - a;
            assert(f - t == c * w);
            if c <= 0 {
                vstd::arithmetic::mul::lemma_mul_inequality(c, 0, w);
            } else {
                vstd::arithmetic::mul::lemma_mul_inequality(1, c, w);
            }
        }
    }
}

/// For dates from year 1 on (and for March to December of year 0), the
/// weekday that `weekday_from_date` computes is the one found by counting days
/// from Thursday 1970-01-01.
pub proof fn lemma_weekday_counts_days(year: int, month: int, day: int)
    requires
        spec_valid_date(year, month, day),
        zeller_year(year, month) >= 0,
    ensures
        spec_weekday_from_date(year, month, day) == Ok::<u8, Error>(
            weekday_of_day_number(days_from_epoch(year, month, day)) as u8,
        ),
{
    lemma_zeller_index_counts_days(year, month, day);
}

/// On the day after a date, `weekday_from_date` gives the next weekday
/// (Sunday is followed by Monday).
pub proof fn lemma_weekday_advances_daily(year: int, month: int, day: int)
    requires
        spec_valid_date(year, month, day),
        zeller_year(year, month) >= 0,
    ensures
        ({
            let (y2, m2, d2) = next_date(year, month, day);
            &&& spec_weekday_from_date(year, month, day) is Ok
            &&& spec_weekday_from_date(y2, m2, d2) == Ok::<u8, Error>(
                (spec_weekday_from_date(year, month, day)->Ok_0 % 7 + 1) as u8,
            )
        }),
{
    let (y2, m2, d2) = next_date(year, month, day);
    lemma_next_date_counts_one(year, month, day);
    lemma_weekday_counts_days(year, month, day);
    lemma_weekday_counts_days(y2, m2, d2);
    let n = days_from_epoch(year, month, day);
    vstd::arithmetic::div_mod::lemma_fundamental_div_mod(n + 3, 7);
    vstd::arithmetic::div_mod::lemma_mod_bound(n + 3, 7);
    let q = (n + 3) / 7;
    let r = (n + 3) % 7;
    if r < 6 {
        lemma_mod_is(n + 4, 7, q, r + 1);
    } else {
        lemma_mod_is(n + 4, 7, q + 1, 0);
    }
}

/// A slot's forward and backward deltas lie within one week.
pub proof fn lemma_slot_forward_bounds(now: DateTime, records: Seq<TimeRecord>, r: int, k: int)
    ensures
        0 <= slot_forward(now, records, r, k) < week_secs(),
        0 <= slot_backward(now, records, r, k) < week_secs(),
        0 <= slot_difference(now, records, r, k) < week_secs(),
{
    let cw = now_weekday(now);
    let tw = records[r].weekdays@[k] as int;
    vstd::arithmetic::div_mod::lemma_mod_bound(
        week_position(tw, record_secs(records[r])) - week_position(cw, now_secs(now)),
        week_secs(),
    );
    vstd::arithmetic::div_mod::lemma_mod_bound(
        week_position(cw, now_secs(now)) - week_position(tw, record_secs(records[r])),
        week_secs(),
    );
}

/// Looking forward and looking back from now to the same weekday slot cover
/// one whole week between them, unless the slot is now.
pub proof fn lemma_forward_backward_cover_week(
    current_weekday: int,
    target_weekday: int,
    now_secs: int,
    target_secs: int,
)
    ensures
        (spec_forward_delta(current_weekday, target_weekday, now_secs, target_secs) == 0)
            <==> (spec_backward_delta(current_weekday, target_weekday, now_secs, target_secs)
            == 0),
        spec_forward_delta(current_weekday, target_weekday, now_secs, target_secs) != 0
            ==> spec_forward_delta(current_weekday, target_weekday, now_secs, target_secs)
            + spec_backward_delta(current_weekday, target_weekday, now_secs, target_secs)
            == week_secs(),
{
    let x = week_position(target_weekday, target_secs) - week_position(current_weekday, now_secs);
    let w = week_secs();
    vstd::arithmetic::div_mod::lemma_fundamental_div_mod(x, w);
    vstd::arithmetic::div_mod::lemma_mod_bound(x, w);
    let q = x / w;
    let r = x % w;
    if r == 0 {
        lemma_mod_is(-x, w, -q, 0);
    } else {
        lemma_mod_is(-x, w, -q - 1, w - r);
    }
}

/// The closest scheduled slot is never more than half a week away, and it is
/// reported as lying ahead exactly when looking forward is not longer.
pub proof fn lemma_closest_within_half_week(now: DateTime, records: Seq<TimeRecord>, r: int, k: int)
    ensures
        0 <= slot_difference(now, records, r, k) <= week_secs() / 2,
        slot_difference(now, records, r, k) <= slot_forward(now, records, r, k),
        slot_difference(now, records, r, k) <= slot_backward(now, records, r, k),
{
    let cw = now_weekday(now);
    let tw = records[r].weekdays@[k] as int;
    lemma_forward_backward_cover_week(cw, tw, now_secs(now), record_secs(records[r]));
    lemma_forward_delta_is_least_wait(cw, tw, now_secs(now), record_secs(records[r]));
    vstd::arithmetic::div_mod::lemma_mod_bound(
        week_position(cw, now_secs(now)) - week_position(tw, record_secs(records[r])),
        week_secs(),
    );
}

/// The wake that `next_wake` picks is the first minimum of the forward delta;
/// a slot that is first minimum is unique, so the pick is determined.
pub proof fn lemma_next_wake_is_soonest(now: DateTime, records: Seq<TimeRecord>, w: NextWake)
    requires
        spec_next_wake(now, records) == Ok::<Option<NextWake>, Error>(Some(w)),
    ensures
        exists|r: int, k: int|
            #![trigger slot_active(records, r, k)]
            slot_active(records, r, k) && w == next_wake_of_slot(now, records, r, k) && (forall|
                r2: int,
                k2: int,
            |
                #![trigger slot_active(records, r2, k2)]
                slot_active(records, r2, k2) ==> slot_forward(now, records, r, k) <= slot_forward(
                    now,
                    records,
                    r2,
                    k2,
                )),
{
    let (r, k) = choose|r: int, k: int|
        is_first_minimum(records, forward_cost(now, records), r, k);
    assert(slot_active(records, r, k));
}

/// `sleep_duration_until_next` fails exactly as `next_wake` fails, finds
/// nothing exactly where it finds nothing, and otherwise gives the duration of
/// the wake `next_wake` picks.
pub proof fn lemma_sleep_duration_is_next_wake_duration(now: DateTime, records: Seq<TimeRecord>)
    ensures
        match (spec_sleep_duration_until_next(now, records), spec_next_wake(now, records)) {
            (Err(a), Err(b)) => a == b,
            (Ok(None), Ok(None)) => true,
            (Ok(Some(d)), Ok(Some(w))) => d == w.duration,
            _ => false,
        },
{
}

/// Seconds until the slot `next_wake` picks (0 where there is none).
pub open spec fn next_wake_secs(now: DateTime, records: Seq<TimeRecord>) -> int {
    match next_wake_slot(now, records) {
        Some((r, k)) => slot_forward(now, records, r, k),
        None => 0,
    }
}

/// Distance of the slot `closest_wake` picks (0 where there is none).
pub open spec fn closest_wake_secs(now: DateTime, records: Seq<TimeRecord>) -> int {
    match closest_wake_slot(now, records) {
        Some((r, k)) => slot_difference(now, records, r, k),
        None => 0,
    }
}

/// `closest_wake` fails exactly where `next_wake` fails, with the same error,
/// and finds nothing exactly where `next_wake` finds nothing; where both find
/// a slot, the closest one is no further away than the next one is ahead, and
/// exactly as far when it lies ahead.
pub proof fn lemma_closest_wake_against_next_wake(now: DateTime, records: Seq<TimeRecord>)
    ensures
        match (spec_closest_wake(now, records), spec_next_wake(now, records)) {
            (Err(a), Err(b)) => a == b,
            (Ok(None), Ok(None)) => true,
            (Ok(Some(c)), Ok(Some(w))) => {
                &&& c.difference == duration_of_secs(closest_wake_secs(now, records) as u64)
                &&& w.duration == duration_of_secs(next_wake_secs(now, records) as u64)
                &&& closest_wake_secs(now, records) <= next_wake_secs(now, records)
                &&& c.is_future ==> closest_wake_secs(now, records) == next_wake_secs(
                    now,
                    records,
                )
            },
            _ => false,
        },
{
    let fc = forward_cost(now, records);
    let dc = difference_cost(now, records);
    lemma_first_minimum_exists(records, fc);
    lemma_first_minimum_exists(records, dc);
    if datetime_error(now) is None && records_error(records) is None {
        if exists|r: int, k: int| slot_active(records, r, k) {
            let (rn, kn) = choose|r: int, k: int| is_first_minimum(records, fc, r, k);
            let (rc, kc) = choose|r: int, k: int| is_first_minimum(records, dc, r, k);
            assert(slot_active(records, rn, kn));
            assert(slot_active(records, rc, kc));
            assert(dc(rc, kc) <= dc(rn, kn));
            assert(fc(rn, kn) <= fc(rc, kc));
        } else {
            assert forall|r: int, k: int| !is_first_minimum(records, fc, r, k) by {
                if is_first_minimum(records, fc, r, k) {
                    assert(slot_active(records, r, k));
                }
            }
            assert forall|r: int, k: int| !is_first_minimum(records, dc, r, k) by {
                if is_first_minimum(records, dc, r, k) {
                    assert(slot_active(records, r, k));
                }
            }
        }
    }
}

// ---------------------------------------------------------------------------
// Executable code
// ---------------------------------------------------------------------------
/// Seconds until the next scheduled time, or `None` when no weekday is enabled.
pub fn sleep_duration_until_next(now: DateTime, records: &[TimeRecord]) -> (result: Result<
    Option<Duration>,
    Error,
>)
    requires
        wake_computable(now),
    ensures
        result == spec_sleep_duration_until_next(now, records@),
{
    match next_wake(now, records) {
        Err(e) => Err(e),
        Ok(None) => Ok(None),
        Ok(Some(wake)) => Ok(Some(wake.duration)),
    }
}

/// The next scheduled time: the enabled record slot that comes round soonest
/// (the first one in record and slot order among equally soon ones).
pub fn next_wake(now: DateTime, records: &[TimeRecord]) -> (result: Result<Option<NextWake>, Error>)
    requires
        wake_computable(now),
    ensures
        result == spec_next_wake(now, records@),
        datetime_error(now) is None && records_error(records@) is None ==> (result
            == Ok::<Option<NextWake>, Error>(None) <==> forall|r: int, k: int|
            !slot_active(records@, r, k)),
{
    match validate_datetime(now) {
        Err(e) => {
            return Err(e);
        },
        Ok(()) => {},
    }
    let current_weekday = match weekday_from_date(now.year, now.month, now.day) {
        Ok(w) => w,
        Err(e) => {
            return Err(e);
        },
    };
    let now_seconds = seconds_since_midnight(now.hour, now.minute, now.second);
    let ghost recs = records@;
    let ghost cost = forward_cost(now, recs);
    let mut best: Option<NextWake> = None;
    let ghost mut br: int = 0;
    let ghost mut bk: int = 0;
    let mut i: usize = 0;
    while i < records.len()
        invariant
            recs == records@,
            cost == forward_cost(now, recs),
            datetime_error(now) is None,
            1 <= current_weekday <= 7,
            current_weekday as int == now_weekday(now),
            now_seconds as int == now_secs(now),
            now_seconds < 86400,
            i <= records.len(),
            records_error_upto(recs, i as int) is None,
            best is None ==> forall|r: int, k: int|
                #![trigger slot_active(recs, r, k)]
                slot_active(recs, r, k) ==> !slot_before(r, k, i as int, 0),
            best matches Some(w) ==> {
                &&& slot_active(recs, br, bk)
                &&& slot_before(br, bk, i as int, 0)
                &&& w == next_wake_of_slot(now, recs, br, bk)
                &&& forall|r: int, k: int|
                    #![trigger slot_active(recs, r, k)]
                    slot_active(recs, r, k) && slot_before(r, k, i as int, 0) ==> cost(br, bk)
                        <= cost(r, k)
                &&& forall|r: int, k: int|
                    #![trigger slot_active(recs, r, k)]
                    slot_active(recs, r, k) && slot_before(r, k, br, bk) ==> cost(br, bk) < cost(
                        r,
                        k,
                    )
            },
        decreases records.len() - i,
    {
        let record = records[i];
        match validate_record(record) {
            Err(e) => {
                proof {
                    lemma_records_error_sticks(recs, i + 1, recs.len() as int);
                }
                return Err(e);
            },
            Ok(()) => {},
        }
        proof {
            lemma_valid_record_weekdays(record);
        }
        let target_seconds = seconds_since_midnight(record.hour, record.minute, 0);
        let mut j: usize = 0;
        while j < 7
            invariant
                recs == records@,
                cost == forward_cost(now, recs),
                0 <= i < records.len(),
                record == recs[i as int],
                forall|k: int| 0 <= k < 7 ==> record.weekdays@[k] <= SUNDAY,
                1 <= current_weekday <= 7,
                current_weekday as int == now_weekday(now),
                now_seconds as int == now_secs(now),
                now_seconds < 86400,
                target_seconds as int == record_secs(record),
                target_seconds < 86400,
                j <= 7,
                best is None ==> forall|r: int, k: int|
                    #![trigger slot_active(recs, r, k)]
                    slot_active(recs, r, k) ==> !slot_before(r, k, i as int, j as int),
                best matches Some(w) ==> {
                    &&& slot_active(recs, br, bk)
                    &&& slot_before(br, bk, i as int, j as int)
                    &&& w == next_wake_of_slot(now, recs, br, bk)
                    &&& forall|r: int, k: int|
                        #![trigger slot_active(recs, r, k)]
                        slot_active(recs, r, k) && slot_before(r, k, i as int, j as int) ==> cost(
                            br,
                            bk,
                        ) <= cost(r, k)
                    &&& forall|r: int, k: int|
                        #![trigger slot_active(recs, r, k)]
                        slot_active(recs, r, k) && slot_before(r, k, br, bk) ==> cost(br, bk)
                            < cost(r, k)
                },
            decreases 7 - j,
        {
            let weekday = record.weekdays[j];
            if weekday != WEEKDAY_NONE {
                let delta = forward_delta_seconds(
                    current_weekday,
                    weekday,
                    now_seconds,
                    target_seconds,
                );
                assert(delta as int == cost(i as int, j as int));
                let keep = match &best {
                    Some(existing) => duration_as_secs(&existing.duration) <= delta,
                    None => false,
                };
                if !keep {
                    let duration = duration_from_secs(delta);
                    best = Some(NextWake { duration, hour: record.hour, minute: record.minute, weekday });
                    proof {
                        br = i as int;
                        bk = j as int;
                    }
                }
            }
            j += 1;
        }
        i += 1;
    }
    proof {
        if best is Some {
            assert(is_first_minimum(recs, cost, br, bk));
            let (r, k) = choose|r: int, k: int| is_first_minimum(recs, cost, r, k);
            lemma_first_minimum_unique(recs, cost, r, k, br, bk);
        } else {
            assert forall|r: int, k: int| !is_first_minimum(recs, cost, r, k) by {
                if is_first_minimum(recs, cost, r, k) {
                    assert(slot_active(recs, r, k));
                }
            }
        }
    }
    Ok(best)
}

/// The scheduled time nearest to now, looking forward and backward: the enabled
/// record slot at the smallest distance (the first one in record and slot order
/// among equally near ones), and whether it lies ahead.
pub fn closest_wake(now: DateTime, records: &[TimeRecord]) -> (result: Result<Option<ClosestWake>, Error>)
    requires
        wake_computable(now),
    ensures
        result == spec_closest_wake(now, records@),
        datetime_error(now) is None && records_error(records@) is None ==> (result
            == Ok::<Option<ClosestWake>, Error>(None) <==> forall|r: int, k: int|
            !slot_active(records@, r, k)),
{
    match validate_datetime(now) {
        Err(e) => {
            return Err(e);
        },
        Ok(()) => {},
    }
    let current_weekday = match weekday_from_date(now.year, now.month, now.day) {
        Ok(w) => w,
        Err(e) => {
            return Err(e);
        },
    };
    let now_seconds = seconds_since_midnight(now.hour, now.minute, now.second);
    let ghost recs = records@;
    let ghost cost = difference_cost(now, recs);
    let mut best: Option<ClosestWake> = None;
    let ghost mut br: int = 0;
    let ghost mut bk: int = 0;
    let mut i: usize = 0;
    while i < records.len()
        invariant
            recs == records@,
            cost == difference_cost(now, recs),
            datetime_error(now) is None,
            1 <= current_weekday <= 7,
            current_weekday as int == now_weekday(now),
            now_seconds as int == now_secs(now),
            now_seconds < 86400,
            i <= records.len(),
            records_error_upto(recs, i as int) is None,
            best is None ==> forall|r: int, k: int|
                #![trigger slot_active(recs, r, k)]
                slot_active(recs, r, k) ==> !slot_before(r, k, i as int, 0),
            best matches Some(w) ==> {
                &&& slot_active(recs, br, bk)
                &&& slot_before(br, bk, i as int, 0)
                &&& w == closest_wake_of_slot(now, recs, br, bk)
                &&& forall|r: int, k: int|
                    #![trigger slot_active(recs, r, k)]
                    slot_active(recs, r, k) && slot_before(r, k, i as int, 0) ==> cost(br, bk)
                        <= cost(r, k)
                &&& forall|r: int, k: int|
                    #![trigger slot_active(recs, r, k)]
                    slot_active(recs, r, k) && slot_before(r, k, br, bk) ==> cost(br, bk) < cost(
                        r,
                        k,
                    )
            },
        decreases records.len() - i,
    {
        let record = records[i];
        match validate_record(record) {
            Err(e) => {
                proof {
                    lemma_records_error_sticks(recs, i + 1, recs.len() as int);
                }
                return Err(e);
            },
            Ok(()) => {},
        }
        proof {
            lemma_valid_record_weekdays(record);
        }
        let target_seconds = seconds_since_midnight(record.hour, record.minute, 0);
        let mut j: usize = 0;
        while j < 7
            invariant
                recs == records@,
                cost == difference_cost(now, recs),
                0 <= i < records.len(),
                record == recs[i as int],
                forall|k: int| 0 <= k < 7 ==> record.weekdays@[k] <= SUNDAY,
                1 <= current_weekday <= 7,
                current_weekday as int == now_weekday(now),
                now_seconds as int == now_secs(now),
                now_seconds < 86400,
                target_seconds as int == record_secs(record),
                target_seconds < 86400,
                j <= 7,
                best is None ==> forall|r: int, k: int|
                    #![trigger slot_active(recs, r, k)]
                    slot_active(recs, r, k) ==> !slot_before(r, k, i as int, j as int),
                best matches Some(w) ==> {
                    &&& slot_active(recs, br, bk)
                    &&& slot_before(br, bk, i as int, j as int)
                    &&& w == closest_wake_of_slot(now, recs, br, bk)
                    &&& forall|r: int, k: int|
                        #![trigger slot_active(recs, r, k)]
                        slot_active(recs, r, k) && slot_before(r, k, i as int, j as int) ==> cost(
                            br,
                            bk,
                        ) <= cost(r, k)
                    &&& forall|r: int, k: int|
                        #![trigger slot_active(recs, r, k)]
                        slot_active(recs, r, k) && slot_before(r, k, br, bk) ==> cost(br, bk)
                            < cost(r, k)
                },
            decreases 7 - j,
        {
            let weekday = record.weekdays[j];
            if weekday != WEEKDAY_NONE {
                let forward = forward_delta_seconds(
                    current_weekday,
                    weekday,
                    now_seconds,
                    target_seconds,
                );
                let backward = backward_delta_seconds(
                    current_weekday,
                    weekday,
                    now_seconds,
                    target_seconds,
                );
                let (difference, is_future) = if forward <= backward {
                    (forward, true)
                } else {
                    (backward, false)
                };
                assert(difference as int == cost(i as int, j as int));
                let keep = match &best {
                    Some(existing) => duration_as_secs(&existing.difference) <= difference,
                    None => false,
                };
                if !keep {
                    let difference = duration_from_secs(difference);
                    best = Some(
                        ClosestWake {
                            difference,
                            hour: record.hour,
                            minute: record.minute,
                            weekday,
                            is_future,
                        },
                    );
                    proof {
                        br = i as int;
                        bk = j as int;
                    }
                }
            }
            j += 1;
        }
        i += 1;
    }
    proof {
        if best is Some {
            assert(is_first_minimum(recs, cost, br, bk));
            let (r, k) = choose|r: int, k: int| is_first_minimum(recs, cost, r, k);
            lemma_first_minimum_unique(recs, cost, r, k, br, bk);
        } else {
            assert forall|r: int, k: int| !is_first_minimum(recs, cost, r, k) by {
                if is_first_minimum(recs, cost, r, k) {
                    assert(slot_active(recs, r, k));
                }
            }
        }
    }
    Ok(best)
}

pub fn weekday_from_date(year: i32, month: u8, day: u8) -> (result: Result<u8, Error>)
    requires
        weekday_computable(year as int, month as int, day as int),
    ensures
        result == spec_weekday_from_date(year as int, month as int, day as int),
        // by day counting from 1970-01-01, a Thursday
        zeller_year(year as int, month as int) >= 0 ==> (result matches Ok(w) ==> w
            == calendar_weekday(year as int, month as int, day as int)),
{
    match validate_date(year, month, day) {
        Err(e) => {
            return Err(e);
        },
        Ok(()) => {},
    }
    // Zeller's congruence for the Gregorian calendar.
    // h: 0 = Saturday, 1 = Sunday, 2 = Monday, ..., 6 = Friday.
    let (y, m) = if month < 3 {
        (year - 1, month as i32 + 12)
    } else {
        (year, month as i32)
    };
    let k = y % 100;
    let j = y / 100;
    assert(-100 < k < 100 && -21474837 <= j <= 21474837) by {
        assert(k == tmod(y as int, 100));
        assert(j == tdiv(y as int, 100));
    }
    let h = (day as i32 + ((13 * (m + 1)) / 5) + k + (k / 4) + (j / 4) + 5 * j) % 7;
    assert(-7 < h < 7);
    let h = ((h + 7) % 7) as u8;
    proof {
        assert(h as int == zeller_index(year as int, month as int, day as int));
        if zeller_year(year as int, month as int) >= 0 {
            lemma_zeller_index_counts_days(year as int, month as int, day as int);
        }
    }
    Ok(
        match h {
            0 => SATURDAY,
            1 => SUNDAY,
            2 => MONDAY,
            3 => TUESDAY,
            4 => WEDNESDAY,
            5 => THURSDAY,
            _ => FRIDAY,
        },
    )
}

pub fn is_leap_year(year: i32) -> (leap: bool)
    ensures
        leap == spec_is_leap_year(year as int),
{
    proof {
        crate::calendar::lemma_tmod_zero(year as int, 4);
        crate::calendar::lemma_tmod_zero(year as int, 100);
        crate::calendar::lemma_tmod_zero(year as int, 400);
    }
    year % 4 == 0 && (year % 100 != 0 || year % 400 == 0)
}

pub fn days_in_month(year: i32, month: u8) -> (days: Option<u8>)
    ensures
        1 <= month <= 12 ==> days == Some(spec_days_in_month(year as int, month as int) as u8),
        !(1 <= month <= 12) ==> days is None,
{
    match month {
        1 | 3 | 5 | 7 | 8 | 10 | 12 => Some(31),
        4 | 6 | 9 | 11 => Some(30),
        2 => if is_leap_year(year) {
            Some(29)
        } else {
            Some(28)
        },
        _ => None,
    }
}

fn validate_datetime(dt: DateTime) -> (result: Result<(), Error>)
    ensures
        result == (match datetime_error(dt) {
            Some(e) => Err(e),
            None => Ok(()),
        }),
{
    match validate_date(dt.year, dt.month, dt.day) {
        Err(e) => {
            return Err(e);
        },
        Ok(()) => {},
    }
    validate_time(dt.hour, dt.minute, dt.second)
}

fn validate_record(record: TimeRecord) -> (result: Result<(), Error>)
    ensures
        result == (match record_error(record) {
            Some(e) => Err(e),
            None => Ok(()),
        }),
{
    match validate_time(record.hour, record.minute, 0) {
        Err(e) => {
            return Err(e);
        },
        Ok(()) => {},
    }
    let mut k: usize = 0;
    while k < 7
        invariant
            k <= 7,
            time_error(record.hour as int, record.minute as int, 0) is None,
            weekdays_error_upto(record.weekdays@, k as int) is None,
        decreases 7 - k,
    {
        let weekday = record.weekdays[k];
        if weekday > SUNDAY {
            proof {
                lemma_weekdays_error_sticks(record.weekdays@, k + 1, 7);
            }
            return Err(Error::InvalidWeekday(weekday));
        }
        k += 1;
    }
    Ok(())
}

proof fn lemma_weekdays_error_sticks(weekdays: Seq<u8>, a: int, b: int)
    requires
        0 <= a <= b,
        weekdays_error_upto(weekdays, a) is Some,
    ensures
        weekdays_error_upto(weekdays, b) == weekdays_error_upto(weekdays, a),
    decreases b - a,
{
    if a < b {
        lemma_weekdays_error_sticks(weekdays, a, b - 1);
    }
}

fn validate_date(year: i32, month: u8, day: u8) -> (result: Result<(), Error>)
    ensures
        result == (match date_error(year as int, month as int, day as int) {
            Some(e) => Err(e),
            None => Ok(()),
        }),
{
    let max_day = match days_in_month(year, month) {
        Some(max_day) => max_day,
        None => {
            return Err(Error::InvalidDate);
        },
    };
    if day == 0 || day > max_day {
        return Err(Error::InvalidDate);
    }
    Ok(())
}

fn validate_time(hour: u8, minute: u8, second: u8) -> (result: Result<(), Error>)
    ensures
        result == (match time_error(hour as int, minute as int, second as int) {
            Some(e) => Err(e),
            None => Ok(()),
        }),
{
    if hour > 23 || minute > 59 || second > 59 {
        return Err(Error::InvalidTime);
    }
    Ok(())
}

fn seconds_since_midnight(hour: u8, minute: u8, second: u8) -> (secs: u64)
    ensures
        secs == spec_seconds_since_midnight(hour as int, minute as int, second as int),
        hour <= 23 && minute <= 59 && second <= 59 ==> secs < 86400,
{
    hour as u64 * 60 * 60 + minute as u64 * 60 + second as u64
}

fn forward_delta_seconds(
    current_weekday: u8,
    target_weekday: u8,
    now_seconds: u64,
    target_seconds: u64,
) -> (delta: u64)
    requires
        1 <= current_weekday <= 7,
        1 <= target_weekday <= 7,
        now_seconds < 86400,
        target_seconds < 86400,
    ensures
        delta == spec_forward_delta(
            current_weekday as int,
            target_weekday as int,
            now_seconds as int,
            target_seconds as int,
        ),
{
    let mut days_until = days_until_weekday(current_weekday, target_weekday);
    let ghost d = target_weekday as int - current_weekday as int;
    proof {
        if d >= 0 {
            lemma_mod_is(d + 7, 7, 1, d);
        } else {
            lemma_mod_is(d + 7, 7, 0, d + 7);
        }
    }
    if days_until == 0 && target_seconds < now_seconds {
        days_until = 7;
    }
    let mut delta = days_until as u64 * SECONDS_PER_DAY;
    if target_seconds >= now_seconds {
        delta += target_seconds - now_seconds;
    } else {
        delta -= now_seconds - target_seconds;
    }
    proof {
        let x = d * 86400 + target_seconds - now_seconds;
        if delta as int == x {
            lemma_mod_is(x, 604800, 0, delta as int);
        } else {
            lemma_mod_is(x, 604800, -1, delta as int);
        }
    }
    delta
}

fn backward_delta_seconds(
    current_weekday: u8,
    target_weekday: u8,
    now_seconds: u64,
    target_seconds: u64,
) -> (delta: u64)
    requires
        1 <= current_weekday <= 7,
        1 <= target_weekday <= 7,
        now_seconds < 86400,
        target_seconds < 86400,
    ensures
        delta == spec_backward_delta(
            current_weekday as int,
            target_weekday as int,
            now_seconds as int,
            target_seconds as int,
        ),
{
    let mut days_since = days_since_weekday(current_weekday, target_weekday);
    let ghost d = current_weekday as int - target_weekday as int;
    proof {
        if d >= 0 {
            lemma_mod_is(d + 7, 7, 1, d);
        } else {
            lemma_mod_is(d + 7, 7, 0, d + 7);
        }
    }
    if days_since == 0 && target_seconds > now_seconds {
        days_since = 7;
    }
    let mut delta = days_since as u64 * SECONDS_PER_DAY;
    if now_seconds >= target_seconds {
        delta += now_seconds - target_seconds;
    } else {
        delta -= target_seconds - now_seconds;
    }
    proof {
        let x = d * 86400 + now_seconds - target_seconds;
        if delta as int == x {
            lemma_mod_is(x, 604800, 0, delta as int);
        } else {
            lemma_mod_is(x, 604800, -1, delta as int);
        }
    }
    delta
}

fn days_until_weekday(current: u8, target: u8) -> (days: u8)
    requires
        current <= target + 7 <= 255,
    ensures
        days == (target + 7 - current) % 7,
{
    (target + 7 - current) % 7
}

fn days_since_weekday(current: u8, target: u8) -> (days: u8)
    requires
        target <= current + 7 <= 255,
    ensures
        days == (current + 7 - target) % 7,
{
    (current + 7 - target) % 7
}

} // verus!
