//! The watch's decision logic around the real-time clock: turning a day count
//! or a network time reply into a date, and the wake-schedule queries the
//! always-on display and the alert use.
use vstd::prelude::*;

use crate::calendar::days_before_month;
use crate::calendar::days_before_year;
use crate::calendar::lemma_year_of_day_count;
use crate::schedule::spec_wake_schedule;
use crate::schedule::wake_schedule;
use crate::schedule::EVERY_DAY;
use crate::apps::AppState;
use crate::time_manager::closest_wake;
use crate::time_manager::closest_wake_slot;
use crate::time_manager::is_first_minimum;
use crate::time_manager::difference_cost;
use crate::time_manager::datetime_error;
use crate::time_manager::duration_as_secs;
use crate::time_manager::next_wake;
use crate::time_manager::next_wake_slot;
use crate::time_manager::records_error;
use crate::time_manager::slot_active;
use crate::time_manager::slot_difference;
use crate::time_manager::slot_forward;
use crate::time_manager::spec_next_wake;
use crate::time_manager::weekday_from_date;
use crate::time_manager::DateTime;
use crate::time_manager::NextWake;
use crate::time_manager::TimeRecord;
use crate::time_manager::WEEKDAY_NONE;
use crate::calendar::days_from_epoch;
use crate::calendar::lemma_days_before_next_year;
use crate::calendar::lemma_months_fill_year;
use crate::calendar::spec_days_in_month;
use crate::calendar::spec_days_in_year;
use crate::calendar::spec_valid_date;
use crate::calendar::weekday_of_day_number;
use crate::time_manager::lemma_weekday_counts_days;
use crate::time_manager::spec_weekday_from_date;
use crate::time_manager::Error;
use crate::pages::Page;
use crate::pages::QuickViewKey;

verus! {

/// The date `days_since_epoch` days after 1970-01-01 as `(year, month, day)`.
/// A negative count gives year 1970, month 1 and the count plus one, cast.
pub fn days_to_date(days_since_epoch: i32) -> (date: (u32, u32, u32))
    ensures
        days_since_epoch >= 0 ==> {
            &&& date.0 >= 1970
            &&& spec_valid_date(date.0 as int, date.1 as int, date.2 as int)
            &&& days_from_epoch(date.0 as int, date.1 as int, date.2 as int)
                == days_since_epoch
        },
        days_since_epoch < 0 ==> date == (1970u32, 1u32, (days_since_epoch + 1) as u32),
{
    // Simplified date calculation from days since 1970-01-01
    let mut y: i32 = 1970;
    let mut remaining: i32 = days_since_epoch;
    loop
        invariant
            days_since_epoch >= 0 ==> {
                &&& 1970 <= y
                &&& 0 <= remaining
                &&& remaining == days_since_epoch - days_before_year(y as int)
                &&& 365 * (y - 1970) <= days_since_epoch - remaining
            },
            days_since_epoch < 0 ==> y == 1970 && remaining == days_since_epoch,
        ensures
            days_since_epoch >= 0 ==> {
                &&& 1970 <= y
                &&& 0 <= remaining < spec_days_in_year(y as int)
                &&& remaining == days_since_epoch - days_before_year(y as int)
            },
            days_since_epoch < 0 ==> y == 1970 && remaining == days_since_epoch,
        decreases remaining,
    {
        let days_in_year: i32 = if y % 4 == 0 && (y % 100 != 0 || y % 400 == 0) {
            366
        } else {
            365
        };
        assert(days_in_year == spec_days_in_year(y as int));
        if remaining < days_in_year {
            break ;
        }
        proof {
            lemma_days_before_next_year(y as int);
        }
        remaining -= days_in_year;
        y += 1;
    }
    let leap = y % 4 == 0 && (y % 100 != 0 || y % 400 == 0);
    let month_days: [i32; 12] = [
        31,
        if leap {
            29
        } else {
            28
        },
        31,
        30,
        31,
        30,
        31,
        31,
        30,
        31,
        30,
        31,
    ];
    let ghost r0 = remaining;
    proof {
        lemma_months_fill_year(y as int);
    }
    let mut m: usize = 0;
    while m < 12 && remaining >= month_days[m]
        invariant
            forall|k: int|
                0 <= k < 12 ==> month_days@[k] == spec_days_in_month(y as int, k + 1),
            days_since_epoch >= 0 ==> {
                &&& 1970 <= y
                &&& 0 <= r0 < spec_days_in_year(y as int)
                &&& r0 == days_since_epoch - days_before_year(y as int)
                &&& 0 <= remaining
                &&& m <= 12
                &&& m < 12 ==> remaining == r0 - days_before_month(y as int, m + 1)
                &&& m == 12 ==> remaining == r0 - spec_days_in_year(y as int)
            },
            days_since_epoch < 0 ==> y == 1970 && remaining == days_since_epoch && m == 0,
            forall|k: int|
                1 <= k < 12 ==> #[trigger] days_before_month(y as int, k + 1) == days_before_month(
                    y as int,
                    k,
                ) + spec_days_in_month(y as int, k),
            days_before_month(y as int, 12) + spec_days_in_month(y as int, 12) == spec_days_in_year(
                y as int,
            ),
        decreases 12 - m,
    {
        remaining -= month_days[m];
        m += 1;
    }
    (y as u32, (m + 1) as u32, (remaining + 1) as u32)
}

/// Day `n` after 1970-01-01 (a Thursday) falls on weekday `(n + 3) % 7 + 1`,
/// and `weekday_from_date` says so of the date that `days_to_date` gives.
pub proof fn lemma_epoch_day_weekday(n: int, year: int, month: int, day: int)
    requires
        n >= 0,
        year >= 1970,
        spec_valid_date(year, month, day),
        days_from_epoch(year, month, day) == n,
    ensures
        spec_weekday_from_date(year, month, day) == Ok::<u8, Error>(
            weekday_of_day_number(n) as u8,
        ),
        1 <= weekday_of_day_number(n) <= 7,
{
    lemma_weekday_counts_days(year, month, day);
}

/// Window in which a scheduled time counts as due for the alert display.
pub const AOD_ALERT_WINDOW_SECS: u64 = 2 * 60;

/// Longest wait for which the always-on display shows the next wake time.
pub const MAX_AOD_WAKE_SECS: u64 = 24 * 60 * 60;

/// Seconds the always-on display stays up before the watch powers down.
pub const AOD_DURATION_SECS: u64 = 7;

/// Seconds without a touch after which a radio left on is switched off.
pub const WIFI_IDLE_OFF_SECS: u64 = 300;

/// Seconds between two checks of the idle radio.
pub const WIFI_IDLE_CHECK_SECS: u64 = 60;

/// Offset of local time from UTC used when setting the clock from the network.
pub const NTP_UTC_OFFSET_SECS: u32 = 2 * 3600;

/// Seconds from 1900-01-01 (the network time epoch) to 1970-01-01.
pub const NTP_UNIX_EPOCH_OFFSET_SECS: u32 = 2_208_988_800;

/// Date and time as the real-time clock keeps them: the year counts from 2000.
#[derive(Debug, Clone, Copy, PartialEq, Eq)]
pub struct RtcDateTime {
    pub year: u8,
    pub month: u8,
    pub day: u8,
    pub weekday: u8,
    pub hours: u8,
    pub minutes: u8,
    pub seconds: u8,
}

pub open spec fn spec_rtc_to_datetime(dt: RtcDateTime) -> DateTime {
    DateTime {
        year: (2000 + dt.year) as i32,
        month: dt.month,
        day: dt.day,
        hour: dt.hours,
        minute: dt.minutes,
        second: dt.seconds,
    }
}

/// The clock's reading as a `DateTime`.
pub fn rtc_to_time_manager_datetime(dt: RtcDateTime) -> (out: DateTime)
    ensures
        out == spec_rtc_to_datetime(dt),
{
    DateTime::new(2000 + dt.year as i32, dt.month, dt.day, dt.hours, dt.minutes, dt.seconds)
}

/// Transmit-time seconds of a network time reply (bytes 40 ..= 43, big-endian).
pub open spec fn ntp_seconds(response: Seq<u8>) -> int {
    response[40] * 16777216 + response[41] * 65536 + response[42] * 256 + response[43]
}

/// Local seconds since 1970-01-01 of a network time reply: the transmit time
/// moved to the Unix epoch modulo 2^32, plus the local offset.
pub open spec fn ntp_local_seconds(response: Seq<u8>) -> int {
    (ntp_seconds(response) - NTP_UNIX_EPOCH_OFFSET_SECS) % 0x1_0000_0000 + NTP_UTC_OFFSET_SECS
}

/// The clock setting for a network time reply whose local time lies in the
/// years 2000 ..= 2106: time of day and calendar date of the local seconds, and
/// the weekday of that date.
pub fn ntp_reply_to_rtc_datetime(response: &[u8; 48]) -> (dt: RtcDateTime)
    requires
        946684800 <= ntp_local_seconds(response@) <= u32::MAX,
    ensures
        ({
            let local = ntp_local_seconds(response@);
            let days = local / 86400;
            &&& dt.hours == (local % 86400) / 3600
            &&& dt.minutes == (local % 3600) / 60
            &&& dt.seconds == local % 60
            &&& spec_valid_date(2000 + dt.year, dt.month as int, dt.day as int)
            &&& days_from_epoch(2000 + dt.year, dt.month as int, dt.day as int) == days
            &&& dt.weekday == weekday_of_day_number(days)
        }),
{
    let ntp_secs: u32 = response[40] as u32 * 16777216 + response[41] as u32 * 65536
        + response[42] as u32 * 256 + response[43] as u32;
    // Convert NTP epoch (1900) to Unix epoch (1970)
    let unix_secs = ntp_secs.wrapping_sub(NTP_UNIX_EPOCH_OFFSET_SECS);
    assert(unix_secs == (ntp_seconds(response@) - NTP_UNIX_EPOCH_OFFSET_SECS) % 0x1_0000_0000)
        by {
        let x = ntp_seconds(response@) - NTP_UNIX_EPOCH_OFFSET_SECS;
        if x >= 0 {
            crate::calendar::lemma_mod_is(x, 0x1_0000_0000, 0, x);
        } else {
            crate::calendar::lemma_mod_is(x, 0x1_0000_0000, -1, x + 0x1_0000_0000);
        }
    }
    let local_secs = unix_secs + NTP_UTC_OFFSET_SECS;
    let time_of_day = local_secs % 86400;
    let hours = (time_of_day / 3600) as u8;
    let minutes = ((time_of_day % 3600) / 60) as u8;
    let seconds = (time_of_day % 60) as u8;
    proof {
        let l = local_secs as int;
        vstd::arithmetic::div_mod::lemma_fundamental_div_mod(l, 86400);
        vstd::arithmetic::div_mod::lemma_fundamental_div_mod(l, 3600);
        vstd::arithmetic::div_mod::lemma_fundamental_div_mod(time_of_day as int, 3600);
        vstd::arithmetic::div_mod::lemma_mod_bound(time_of_day as int, 3600);
        let t = l / 86400;
        crate::calendar::lemma_mod_is(l, 3600, 24 * t + (time_of_day as int) / 3600, (time_of_day as int) % 3600);
        crate::calendar::lemma_mod_is(l, 60, 1440 * t + (time_of_day as int) / 60, (time_of_day as int) % 60);
        vstd::arithmetic::div_mod::lemma_fundamental_div_mod(time_of_day as int, 60);
        vstd::arithmetic::div_mod::lemma_mod_bound(time_of_day as int, 60);
    }
    let total_days = (local_secs / 86400) as i32;
    let (year, month, day) = days_to_date(total_days);
    proof {
        lemma_year_of_day_count(year as int, month as int, day as int, 2000, 2106);
    }
    let weekday = match weekday_from_date(year as i32, month as u8, day as u8) {
        Ok(w) => w,
        Err(_) => 0,
    };
    proof {
        lemma_epoch_day_weekday(total_days as int, year as int, month as int, day as int);
    }
    RtcDateTime {
        year: (year - 2000) as u8,
        month: month as u8,
        day: day as u8,
        weekday,
        hours,
        minutes,
        seconds,
    }
}

/// The alert record for an alert time: every day, at the time with the hour
/// capped at 23 and the minute at 59.
pub open spec fn alert_record(hours: u8, minutes: u8) -> TimeRecord {
    TimeRecord {
        hour: if hours < 23 { hours } else { 23 },
        minute: if minutes < 59 { minutes } else { 59 },
        weekdays: EVERY_DAY,
    }
}

/// The wake schedule, followed by the alert record when an alert time is set.
pub open spec fn records_with_alert(rtc_alert_time: Option<(u8, u8)>) -> Seq<TimeRecord> {
    match rtc_alert_time {
        Some((hours, minutes)) => spec_wake_schedule().push(alert_record(hours, minutes)),
        None => spec_wake_schedule(),
    }
}

/// A record at midnight that names no weekday.
pub open spec fn is_empty_record(record: TimeRecord) -> bool {
    record.hour == 0 && record.minute == 0 && forall|j: int|
        0 <= j < 7 ==> record.weekdays@[j] == WEEKDAY_NONE
}

/// The wake schedule with the alert time appended, in a fixed-size array, and
/// how many of its records are in use; the unused records name no weekday.
pub fn schedule_records_with_rtc_alert(rtc_alert_time: Option<(u8, u8)>) -> (out: (
    [TimeRecord; 6],
    usize,
))
    ensures
        out.1 == records_with_alert(rtc_alert_time).len(),
        out.0@.take(out.1 as int) == records_with_alert(rtc_alert_time),
        forall|k: int| out.1 <= k < 6 ==> is_empty_record(#[trigger] out.0@[k]),
{
    let empty = TimeRecord::new(0, 0, [WEEKDAY_NONE; 7]);
    let mut records = [empty; 6];
    let schedule = wake_schedule();
    let mut idx: usize = 0;
    while idx < 5
        invariant
            idx <= 5,
            schedule@ == spec_wake_schedule(),
            forall|k: int| 0 <= k < idx ==> records@[k] == schedule@[k],
            forall|k: int| idx <= k < 6 ==> records@[k] == empty,
            is_empty_record(empty),
        decreases 5 - idx,
    {
        records[idx] = schedule[idx];
        idx += 1;
    }
    let mut len: usize = 5;
    match rtc_alert_time {
        Some((hours, minutes)) => {
            records[len] = TimeRecord::new(hours.min(23), minutes.min(59), EVERY_DAY);
            len += 1;
        },
        None => {},
    }
    assert(records@.take(len as int) =~= records_with_alert(rtc_alert_time));
    (records, len)
}

/// The next wake over the wake schedule and the alert time.
pub fn next_wake_with_rtc_alert(now: DateTime, rtc_alert_time: Option<(u8, u8)>) -> (result: Result<
    Option<NextWake>,
    Error,
>)
    requires
        crate::time_manager::wake_computable(now),
    ensures
        result == spec_next_wake(now, records_with_alert(rtc_alert_time)),
{
    let (records, len) = schedule_records_with_rtc_alert(rtc_alert_time);
    let records = &records[0..len];
    next_wake(now, records)
}

/// The next wake time to show on the always-on display: the hour and minute of
/// the next scheduled wake (alert included) when it is at most a day away.
pub fn aod_next_wake_time(dt: RtcDateTime, rtc_alert_time: Option<(u8, u8)>) -> (shown: Option<(u8, u8)>)
    ensures
        ({
            let now = spec_rtc_to_datetime(dt);
            let records = records_with_alert(rtc_alert_time);
            shown == if datetime_error(now) is None && records_error(records) is None {
                match next_wake_slot(now, records) {
                    Some((r, k)) => if slot_forward(now, records, r, k) <= MAX_AOD_WAKE_SECS {
                        Some((records[r].hour, records[r].minute))
                    } else {
                        None
                    },
                    None => None,
                }
            } else {
                None
            }
        }),
{
    let now = rtc_to_time_manager_datetime(dt);
    match next_wake_with_rtc_alert(now, rtc_alert_time) {
        Ok(Some(wake)) => {
            proof {
                let records = records_with_alert(rtc_alert_time);
                let (r, k) = next_wake_slot(now, records)->Some_0;
                crate::time_manager::lemma_slot_forward_bounds(now, records, r, k);
            }
            if duration_as_secs(&wake.duration) <= MAX_AOD_WAKE_SECS {
                Some((wake.hour, wake.minute))
            } else {
                None
            }
        },
        _ => None,
    }
}

/// The alert time is due: it is set, the clock reading is a valid date and
/// time, and on some weekday the alert time lies less than the alert window
/// away from now, ahead or behind.
pub fn rtc_alert_due(dt: RtcDateTime, rtc_alert_time: Option<(u8, u8)>) -> (due: bool)
    ensures
        due == match rtc_alert_time {
            None => false,
            Some((hours, minutes)) => {
                let now = spec_rtc_to_datetime(dt);
                &&& datetime_error(now) is None
                &&& exists|k: int|
                    0 <= k < 7 && #[trigger] slot_difference(
                        now,
                        seq![alert_record(hours, minutes)],
                        0,
                        k,
                    ) < AOD_ALERT_WINDOW_SECS
            },
        },
{
    let (hours, minutes) = match rtc_alert_time {
        Some(t) => t,
        None => {
            return false;
        },
    };
    let record = TimeRecord::new(hours.min(23), minutes.min(59), EVERY_DAY);
    let now = rtc_to_time_manager_datetime(dt);
    let records = [record];
    let ghost recs = records@;
    proof {
        assert(recs =~= seq![alert_record(hours, minutes)]);
        reveal_with_fuel(crate::time_manager::weekdays_error_upto, 8);
        assert(crate::time_manager::record_error(recs[0]) is None);
        assert(crate::time_manager::records_error_upto(recs, 0) is None);
        assert(records_error(recs) is None);
    }
    match closest_wake(now, &records) {
        Ok(Some(wake)) => {
            let ghost (r, k) = closest_wake_slot(now, recs)->Some_0;
            proof {
                assert(is_first_minimum(recs, difference_cost(now, recs), r, k));
                crate::time_manager::lemma_slot_forward_bounds(now, recs, r, k);
                assert(slot_active(recs, r, k));
            }
            let due = duration_as_secs(&wake.difference) < AOD_ALERT_WINDOW_SECS;
            proof {
                if !due {
                    assert forall|k2: int|
                        0 <= k2 < 7 implies #[trigger] slot_difference(now, recs, 0, k2)
                        >= AOD_ALERT_WINDOW_SECS by {
                        assert(slot_active(recs, 0, k2));
                    }
                }
            }
            due
        },
        _ => {
            proof {
                if datetime_error(now) is None {
                    assert(slot_active(recs, 0, 0));
                }
            }
            false
        },
    }
}

/// Empty the quick-view time entry and show the set key.
pub fn clear_quick_view_alert_entry(
    quick_view_time_digits: &mut [Option<u8>; 4],
    quick_view_time_len: &mut usize,
    quick_view_show_set_key: &mut bool,
)
    ensures
        final(quick_view_time_digits)@ == seq![None::<u8>, None, None, None],
        *final(quick_view_time_len) == 0,
        *final(quick_view_show_set_key),
        (
            final(quick_view_time_digits)@,
            *final(quick_view_time_len) as int,
            *final(quick_view_show_set_key)
        ) == synced_entry(None),
{
    *quick_view_time_digits = [None, None, None, None];
    *quick_view_time_len = 0;
    *quick_view_show_set_key = true;
    assert(quick_view_time_digits@ =~= seq![None::<u8>, None, None, None]);
}

/// Show the alert time (or nothing) in the quick-view time entry: its four
/// digits HH:MM, and the set key only when no alert is set.
pub fn sync_quick_view_alert_entry(
    rtc_alert_time: Option<(u8, u8)>,
    quick_view_time_digits: &mut [Option<u8>; 4],
    quick_view_time_len: &mut usize,
    quick_view_show_set_key: &mut bool,
)
    ensures
        match rtc_alert_time {
            Some((hours, minutes)) => {
                &&& final(quick_view_time_digits)@ == seq![
                    Some((hours / 10) as u8),
                    Some((hours % 10) as u8),
                    Some((minutes / 10) as u8),
                    Some((minutes % 10) as u8),
                ]
                &&& *final(quick_view_time_len) == 4
                &&& !*final(quick_view_show_set_key)
            },
            None => {
                &&& final(quick_view_time_digits)@ == seq![None::<u8>, None, None, None]
                &&& *final(quick_view_time_len) == 0
                &&& *final(quick_view_show_set_key)
            },
        },
        (
            final(quick_view_time_digits)@,
            *final(quick_view_time_len) as int,
            *final(quick_view_show_set_key)
        ) == synced_entry(rtc_alert_time),
{
    if let Some((hours, minutes)) = rtc_alert_time {
        *quick_view_time_digits = [
            Some(hours / 10),
            Some(hours % 10),
            Some(minutes / 10),
            Some(minutes % 10),
        ];
        *quick_view_time_len = quick_view_time_digits.len();
        *quick_view_show_set_key = false;
        assert(quick_view_time_digits@ =~= seq![
            Some((hours / 10) as u8),
            Some((hours % 10) as u8),
            Some((minutes / 10) as u8),
            Some((minutes % 10) as u8),
        ]);
    } else {
        clear_quick_view_alert_entry(
            quick_view_time_digits,
            quick_view_time_len,
            quick_view_show_set_key,
        );
    }
}

/// The quick-view time entry: its four digits HH MM, how many have been
/// typed, and whether the set key shows.
pub type EntryModel = (Seq<Option<u8>>, int, bool);

/// The entry as `sync_quick_view_alert_entry` leaves it for an alert time.
pub open spec fn synced_entry(rtc_alert_time: Option<(u8, u8)>) -> EntryModel {
    match rtc_alert_time {
        Some((hours, minutes)) => (
            seq![
                Some((hours / 10) as u8),
                Some((hours % 10) as u8),
                Some((minutes / 10) as u8),
                Some((minutes % 10) as u8),
            ],
            4,
            false,
        ),
        None => (seq![None::<u8>, None, None, None], 0, true),
    }
}

/// What a keypad press on the quick view asks of the watch.
#[derive(Debug, Clone, Copy, PartialEq, Eq)]
pub enum QuickViewAction {
    /// Nothing changed: no redraw.
    Ignored,
    /// The entry changed: redraw the page.
    Redraw,
    /// Set the alert to this hour and minute, then redraw.
    SetAlert(u8, u8),
    /// Turn the alert off, then redraw.
    DisableAlert,
}

/// The value of an entry digit, an empty place counting as 0.
pub open spec fn digit_or_zero(digit: Option<u8>) -> int {
    match digit {
        Some(d) => d as int,
        None => 0,
    }
}

/// The hour and minute the four entry digits spell, empty places as 0.
pub open spec fn entry_hours(digits: Seq<Option<u8>>) -> int {
    digit_or_zero(digits[0]) * 10 + digit_or_zero(digits[1])
}

pub open spec fn entry_minutes(digits: Seq<Option<u8>>) -> int {
    digit_or_zero(digits[2]) * 10 + digit_or_zero(digits[3])
}

/// The hour and minute of the entry fit a byte, as the set key computes them.
pub open spec fn entry_time_fits(digits: Seq<Option<u8>>) -> bool {
    entry_hours(digits) <= 255 && entry_minutes(digits) <= 255
}

/// The entry with every empty place filled with 0.
pub open spec fn filled_entry(digits: Seq<Option<u8>>) -> Seq<Option<u8>> {
    digits.map_values(|d: Option<u8>| Some(digit_or_zero(d) as u8))
}

/// One keypad press on the quick view: a digit fills the next empty place
/// (ignored once all four are typed), Clear empties the entry, and the set
/// key, while it shows, sets the alert to the typed time (empty places as 0)
/// or, with nothing typed, turns the alert off and empties the entry.
pub open spec fn quick_view_step(entry: EntryModel, key: QuickViewKey) -> (EntryModel, QuickViewAction) {
    let (digits, len, show) = entry;
    match key {
        QuickViewKey::Digit(d) => if len < 4 {
            ((digits.update(len, Some(d)), len + 1, show), QuickViewAction::Redraw)
        } else {
            (entry, QuickViewAction::Ignored)
        },
        QuickViewKey::Clear => (synced_entry(None), QuickViewAction::Redraw),
        QuickViewKey::SetKey => if !show {
            (entry, QuickViewAction::Ignored)
        } else if len > 0 {
            (
                (filled_entry(digits), 4, false),
                QuickViewAction::SetAlert(
                    entry_hours(digits) as u8,
                    entry_minutes(digits) as u8,
                ),
            )
        } else {
            (synced_entry(None), QuickViewAction::DisableAlert)
        },
    }
}

/// Apply one keypad press to the quick-view time entry and say what the
/// watch must do about it.
pub fn quick_view_key_step(
    key: QuickViewKey,
    quick_view_time_digits: &mut [Option<u8>; 4],
    quick_view_time_len: &mut usize,
    quick_view_show_set_key: &mut bool,
) -> (action: QuickViewAction)
    requires
        key is SetKey && *old(quick_view_show_set_key) ==> entry_time_fits(old(quick_view_time_digits)@),
    ensures
        ((
            final(quick_view_time_digits)@,
            *final(quick_view_time_len) as int,
            *final(quick_view_show_set_key)
        ), action) == quick_view_step(
            (
                old(quick_view_time_digits)@,
                *old(quick_view_time_len) as int,
                *old(quick_view_show_set_key)
            ),
            key,
        ),
{
    match key {
        QuickViewKey::Digit(digit) => {
            if *quick_view_time_len < 4 {
                let at = *quick_view_time_len;
                quick_view_time_digits[at] = Some(digit);
                *quick_view_time_len = at + 1;
                QuickViewAction::Redraw
            } else {
                QuickViewAction::Ignored
            }
        },
        QuickViewKey::Clear => {
            clear_quick_view_alert_entry(
                quick_view_time_digits,
                quick_view_time_len,
                quick_view_show_set_key,
            );
            QuickViewAction::Redraw
        },
        QuickViewKey::SetKey => {
            if !*quick_view_show_set_key {
                return QuickViewAction::Ignored;
            }
            let had_input = *quick_view_time_len > 0;
            let ghost typed = quick_view_time_digits@;
            let mut i: usize = 0;
            while i < 4
                invariant
                    i <= 4,
                    typed.len() == 4,
                    forall|j: int| 0 <= j < i ==> quick_view_time_digits@[j] == filled_entry(typed)[j],
                    forall|j: int| i <= j < 4 ==> quick_view_time_digits@[j] == typed[j],
                decreases 4 - i,
            {
                if quick_view_time_digits[i].is_none() {
                    quick_view_time_digits[i] = Some(0);
                }
                assert(quick_view_time_digits@[i as int] == filled_entry(typed)[i as int]);
                i += 1;
            }
            assert(quick_view_time_digits@ =~= filled_entry(typed));
            let hours = digit_value(quick_view_time_digits[0]) * 10 + digit_value(
                quick_view_time_digits[1],
            );
            let minutes = digit_value(quick_view_time_digits[2]) * 10 + digit_value(
                quick_view_time_digits[3],
            );
            if had_input {
                *quick_view_time_len = 4;
                *quick_view_show_set_key = false;
                QuickViewAction::SetAlert(hours, minutes)
            } else {
                clear_quick_view_alert_entry(
                    quick_view_time_digits,
                    quick_view_time_len,
                    quick_view_show_set_key,
                );
                QuickViewAction::DisableAlert
            }
        },
    }
}

fn digit_value(digit: Option<u8>) -> (v: u8)
    ensures
        v == digit_or_zero(digit),
{
    match digit {
        Some(d) => d,
        None => 0,
    }
}

/// Typing four digits into an empty entry and pressing the set key sets the
/// alert to the time they spell, and leaves the entry as showing that alert
/// leaves it.
pub proof fn lemma_typed_time_sets_alert(a: u8, b: u8, c: u8, d: u8)
    requires
        a <= 9 && b <= 9 && c <= 9 && d <= 9,
    ensures
        ({
            let s1 = quick_view_step(synced_entry(None), QuickViewKey::Digit(a));
            let s2 = quick_view_step(s1.0, QuickViewKey::Digit(b));
            let s3 = quick_view_step(s2.0, QuickViewKey::Digit(c));
            let s4 = quick_view_step(s3.0, QuickViewKey::Digit(d));
            let s5 = quick_view_step(s4.0, QuickViewKey::SetKey);
            &&& s5.1 == QuickViewAction::SetAlert((a * 10 + b) as u8, (c * 10 + d) as u8)
            &&& s5.0 == synced_entry(Some(((a * 10 + b) as u8, (c * 10 + d) as u8)))
        }),
{
    let s1 = quick_view_step(synced_entry(None), QuickViewKey::Digit(a));
    let s2 = quick_view_step(s1.0, QuickViewKey::Digit(b));
    let s3 = quick_view_step(s2.0, QuickViewKey::Digit(c));
    let s4 = quick_view_step(s3.0, QuickViewKey::Digit(d));
    assert(s4.0.0 =~= seq![Some(a), Some(b), Some(c), Some(d)]);
    let h = (a * 10 + b) as u8;
    let m = (c * 10 + d) as u8;
    assert(h / 10 == a && h % 10 == b);
    assert(m / 10 == c && m % 10 == d);
    assert(filled_entry(s4.0.0) =~= seq![Some(a), Some(b), Some(c), Some(d)]);
}

/// Keypad presses in words: a digit fills the first empty place and counts
/// one more typed (once four are typed it changes nothing); Clear always
/// empties the entry and shows the set key; the set key while hidden changes
/// nothing; shown, with nothing typed it turns the alert off and empties the
/// entry, and otherwise sets the alert to the typed hour and minute (empty
/// places as 0), hides the set key and leaves every place filled.
pub proof fn lemma_keypad_presses(entry: EntryModel, key: QuickViewKey)
    requires
        entry.0.len() == 4,
        0 <= entry.1,
        key is SetKey ==> entry_time_fits(entry.0),
    ensures
        ({
            let (next, action) = quick_view_step(entry, key);
            &&& key matches QuickViewKey::Digit(d) ==> if entry.1 < 4 {
                &&& next.0[entry.1] == Some(d) && next.1 == entry.1 + 1 && next.2 == entry.2
                &&& forall|i: int| 0 <= i < 4 && i != entry.1 ==> next.0[i] == entry.0[i]
                &&& action == QuickViewAction::Redraw
            } else {
                next == entry && action == QuickViewAction::Ignored
            }
            &&& key is Clear ==> next.1 == 0 && next.2 && action == QuickViewAction::Redraw
                && forall|i: int| 0 <= i < 4 ==> next.0[i] is None
            &&& key is SetKey && !entry.2 ==> next == entry && action == QuickViewAction::Ignored
            &&& key is SetKey && entry.2 && entry.1 == 0 ==> action == QuickViewAction::DisableAlert
                && next.1 == 0 && next.2 && forall|i: int| 0 <= i < 4 ==> next.0[i] is None
            &&& key is SetKey && entry.2 && entry.1 > 0 ==> {
                &&& action matches QuickViewAction::SetAlert(h, m) && h == digit_or_zero(entry.0[0])
                    * 10 + digit_or_zero(entry.0[1]) && m == digit_or_zero(entry.0[2]) * 10
                    + digit_or_zero(entry.0[3])
                &&& next.1 == 4 && !next.2
                &&& forall|i: int| 0 <= i < 4 ==> next.0[i] == Some(digit_or_zero(entry.0[i]) as u8)
            }
        }),
{
}

/// The always-on display has been up long enough: nothing else is powering
/// the watch down, the page is the always-on one with the panel in its
/// always-on state (1), and `AOD_DURATION_SECS` have passed.
pub fn aod_timeout_due(low_power_pending: bool, page: Page, screen_state: u8, secs_in_aod: u64) -> (due: bool)
    ensures
        due == (!low_power_pending && page is Aod && screen_state == 1 && secs_in_aod
            >= AOD_DURATION_SECS),
{
    !low_power_pending && matches!(page, Page::Aod) && screen_state == 1 && secs_in_aod
        >= AOD_DURATION_SECS
}

/// A radio left on is switched off once the user has been idle
/// `WIFI_IDLE_OFF_SECS` and the last check lies `WIFI_IDLE_CHECK_SECS` back.
pub fn wifi_idle_auto_off(wifi_on_request: bool, idle_secs: u64, secs_since_idle_check: u64) -> (off: bool)
    ensures
        off == (wifi_on_request && idle_secs >= WIFI_IDLE_OFF_SECS && secs_since_idle_check
            >= WIFI_IDLE_CHECK_SECS),
{
    wifi_on_request && idle_secs >= WIFI_IDLE_OFF_SECS && secs_since_idle_check
        >= WIFI_IDLE_CHECK_SECS
}

/// Display power level shown on the power page.
#[derive(Debug, Clone, Copy, PartialEq, Eq)]
pub enum DisplayState {
    Off,
    Aod,
    Dim,
    Bright,
}

/// Radio state shown on the power page.
#[derive(Debug, Clone, Copy, PartialEq, Eq)]
pub enum WifiMode {
    Off,
    PowerSave,
    Active,
}

/// Live power read-out for the power page.
#[derive(Debug, Clone, Copy, PartialEq, Eq)]
pub struct PowerStats {
    pub display: Option<DisplayState>,
    pub wifi: Option<WifiMode>,
    pub imu_on: bool,
    pub brightness: u8,
    pub audio_on: bool,
    pub sd_on: bool,
    pub battery_mv: u16,
    pub battery_pct: u8,
    pub charging: bool,
    pub cpu_mhz: u32,
}

pub open spec fn display_state_of(screen_state: u8) -> DisplayState {
    if screen_state == 0 {
        DisplayState::Off
    } else if screen_state == 1 {
        DisplayState::Aod
    } else if screen_state == 2 {
        DisplayState::Dim
    } else {
        DisplayState::Bright
    }
}

pub open spec fn wifi_mode_of(wifi_connected: bool, wifi_on_request: bool) -> WifiMode {
    if !wifi_on_request && !wifi_connected {
        WifiMode::Off
    } else if wifi_connected {
        WifiMode::PowerSave
    } else {
        WifiMode::Active
    }
}

/// The radio is reported in power-save mode exactly when it is connected
/// (whatever was asked), off exactly when it is neither connected nor asked
/// for, and active while it is asked for but not yet connected.
pub proof fn lemma_wifi_mode_reported(wifi_connected: bool, wifi_on_request: bool)
    ensures
        (wifi_mode_of(wifi_connected, wifi_on_request) == WifiMode::PowerSave) <==> wifi_connected,
        (wifi_mode_of(wifi_connected, wifi_on_request) == WifiMode::Off) <==> (!wifi_connected
            && !wifi_on_request),
        (wifi_mode_of(wifi_connected, wifi_on_request) == WifiMode::Active) <==> (!wifi_connected
            && wifi_on_request),
{
}

/// The display is reported off, always-on or dimmed for panel states 0, 1
/// and 2, and bright for every higher one.
pub proof fn lemma_display_state_reported(screen_state: u8)
    ensures
        (display_state_of(screen_state) == DisplayState::Off) <==> screen_state == 0,
        (display_state_of(screen_state) == DisplayState::Aod) <==> screen_state == 1,
        (display_state_of(screen_state) == DisplayState::Dim) <==> screen_state == 2,
        (display_state_of(screen_state) == DisplayState::Bright) <==> screen_state >= 3,
{
}

/// Take a snapshot of the current power state into `stats`. Audio and SD card
/// are reported off; the CPU clock is left as it is.
pub fn update_power_stats(
    stats: &mut PowerStats,
    screen_state: u8,
    imu_on: bool,
    wifi_connected: bool,
    wifi_on_request: bool,
    brightness: u8,
    batt_mv: u16,
    batt_pct: u8,
    charging: bool,
)
    ensures
        *final(stats) == (PowerStats {
            display: Some(display_state_of(screen_state)),
            wifi: Some(wifi_mode_of(wifi_connected, wifi_on_request)),
            imu_on,
            brightness,
            audio_on: false,
            sd_on: false,
            battery_mv: batt_mv,
            battery_pct: batt_pct,
            charging,
            cpu_mhz: old(stats).cpu_mhz,
        }),
{
    stats.display = Some(
        match screen_state {
            0 => DisplayState::Off,
            1 => DisplayState::Aod,
            2 => DisplayState::Dim,
            _ => DisplayState::Bright,
        },
    );
    stats.wifi = Some(
        if !wifi_on_request && !wifi_connected {
            WifiMode::Off
        } else if wifi_connected {
            // power save is configured, so a connected radio is in power-save mode
            WifiMode::PowerSave
        } else {
            // radio up but handshake still in progress
            WifiMode::Active
        },
    );
    stats.imu_on = imu_on;
    stats.brightness = brightness;
    stats.audio_on = false;
    stats.sd_on = false;
    stats.battery_mv = batt_mv;
    stats.battery_pct = batt_pct;
    stats.charging = charging;
}

/// Apps that steer by tilting need the motion sensor running.
pub fn app_needs_motion_imu(app_state: AppState) -> (needs: bool)
    ensures
        needs == (app_state == AppState::Maze || app_state == AppState::Tetris || app_state
            == AppState::Flappy),
{
    match app_state {
        AppState::Maze => true,
        AppState::Tetris => true,
        AppState::Flappy => true,
        _ => false,
    }
}

} // verus!
