//! The watch's built-in weekly wake schedule.
use vstd::prelude::*;

use crate::time_manager::TimeRecord;
use crate::time_manager::datetime_error;
use crate::time_manager::duration_of_secs;
use crate::time_manager::forward_cost;
use crate::time_manager::is_first_minimum;
use crate::time_manager::lemma_first_minimum_unique;
use crate::time_manager::now_secs;
use crate::time_manager::now_weekday;
use crate::time_manager::records_error;
use crate::time_manager::records_error_upto;
use crate::time_manager::record_error;
use crate::time_manager::record_secs;
use crate::time_manager::slot_active;
use crate::time_manager::spec_forward_delta;
use crate::time_manager::spec_next_wake;
use crate::time_manager::weekdays_error_upto;
use crate::time_manager::Error;
use crate::time_manager::DateTime;
use crate::time_manager::NextWake;
use crate::time_manager::FRIDAY;
use crate::time_manager::MONDAY;
use crate::time_manager::SATURDAY;
use crate::time_manager::SUNDAY;
use crate::time_manager::THURSDAY;
use crate::time_manager::TUESDAY;
use crate::time_manager::WEDNESDAY;

verus! {

pub const WORKING_DAYS: [u8; 7] = [MONDAY, TUESDAY, WEDNESDAY, THURSDAY, FRIDAY, 0, 0];

pub const EVERY_DAY: [u8; 7] = [MONDAY, TUESDAY, WEDNESDAY, THURSDAY, FRIDAY, SATURDAY, SUNDAY];

/// The weekly wake schedule: each record's time of day and the weekdays it
/// applies to.
pub open spec fn spec_wake_schedule() -> Seq<TimeRecord> {
    seq![
        TimeRecord { hour: 9, minute: 25, weekdays: [MONDAY, WEDNESDAY, FRIDAY, 0, 0, 0, 0] },
        TimeRecord { hour: 9, minute: 54, weekdays: [TUESDAY, 0, 0, 0, 0, 0, 0] },
        TimeRecord { hour: 11, minute: 27, weekdays: WORKING_DAYS },
        TimeRecord { hour: 17, minute: 30, weekdays: WORKING_DAYS },
        TimeRecord { hour: 20, minute: 57, weekdays: EVERY_DAY },
    ]
}

/// The weekly wake schedule.
pub fn wake_schedule() -> (schedule: [TimeRecord; 5])
    ensures
        schedule@ == spec_wake_schedule(),
{
    let schedule = [
        TimeRecord::new(9, 25, [MONDAY, WEDNESDAY, FRIDAY, 0, 0, 0, 0]),
        TimeRecord::new(9, 54, [TUESDAY, 0, 0, 0, 0, 0, 0]),
        TimeRecord::new(11, 27, WORKING_DAYS),
        TimeRecord::new(17, 30, WORKING_DAYS),
        TimeRecord::new(20, 57, EVERY_DAY),
    ];
    assert(schedule@ =~= spec_wake_schedule());
    schedule
}

/// Seconds since midnight of the working-day evening wake, 17:30.
pub open spec fn evening_wake_secs() -> int {
    63000int
}

/// Seconds since midnight of the working-day late-morning wake, 11:27.
pub open spec fn late_morning_wake_secs() -> int {
    41220int
}

/// The forward delta between two weekdays (1 ..= 7) and times of day: the
/// same day and a later time gives the difference; the same day and an
/// earlier time a week less the difference; another day at least a day less
/// the time already gone.
proof fn lemma_forward_delta_cases(cw: int, tw: int, s: int, t: int)
    requires
        1 <= cw <= 7,
        1 <= tw <= 7,
        0 <= s < 86400,
        0 <= t < 86400,
    ensures
        tw == cw && t >= s ==> spec_forward_delta(cw, tw, s, t) == t - s,
        tw == cw && t < s ==> spec_forward_delta(cw, tw, s, t) == 7 * 86400 + t - s,
        tw != cw ==> spec_forward_delta(cw, tw, s, t) >= 86400 + t - s,
{
    assert(crate::calendar::day_secs() == 86400);
    assert(crate::calendar::week_secs() == 7 * 86400);
}

proof fn lemma_schedule_valid()
    ensures
        records_error(spec_wake_schedule()) is None,
{
    let sch = spec_wake_schedule();
    reveal_with_fuel(weekdays_error_upto, 8);
    assert(record_error(sch[0]) is None);
    assert(record_error(sch[1]) is None);
    assert(record_error(sch[2]) is None);
    assert(record_error(sch[3]) is None);
    assert(record_error(sch[4]) is None);
    reveal_with_fuel(records_error_upto, 6);
}

/// On a working day, after the 11:27 wake and before 17:30, the next wake of
/// the built-in schedule is 17:30 that same day: at 17:00 it is 30 minutes
/// away.
pub proof fn lemma_working_day_afternoon_wakes_at_half_past_five(now: DateTime)
    requires
        datetime_error(now) is None,
        1 <= now_weekday(now) <= 5,
        late_morning_wake_secs() < now_secs(now) < evening_wake_secs(),
    ensures
        spec_next_wake(now, spec_wake_schedule()) == Ok::<Option<NextWake>, Error>(
            Some(
                NextWake {
                    duration: duration_of_secs((evening_wake_secs() - now_secs(now)) as u64),
                    hour: 17,
                    minute: 30,
                    weekday: now_weekday(now) as u8,
                },
            ),
        ),
{
    let sch = spec_wake_schedule();
    let cost = forward_cost(now, sch);
    let cw = now_weekday(now);
    let s = now_secs(now);
    let k = cw - 1;
    lemma_schedule_valid();
    assert(WORKING_DAYS@ == seq![1u8, 2, 3, 4, 5, 0, 0]);
    assert(EVERY_DAY@ == seq![1u8, 2, 3, 4, 5, 6, 7]);
    assert(sch[0].weekdays@ == seq![1u8, 3, 5, 0, 0, 0, 0]);
    assert(sch[1].weekdays@ == seq![2u8, 0, 0, 0, 0, 0, 0]);
    assert(record_secs(sch[0]) == 33900);
    assert(record_secs(sch[1]) == 35640);
    assert(record_secs(sch[2]) == 41220);
    assert(record_secs(sch[3]) == 63000);
    assert(record_secs(sch[4]) == 75420);
    assert(0 <= s < 86400);
    assert(slot_active(sch, 3, k));
    lemma_forward_delta_cases(cw, cw, s, 63000);
    assert(cost(3, k) == 63000 - s);
    assert forall|r: int, j: int| #[trigger] slot_active(sch, r, j) && !(r == 3 && j == k) implies cost(
        r,
        j,
    ) > 63000 - s by {
        let tw = sch[r].weekdays@[j] as int;
        let t = record_secs(sch[r]);
        assert(1 <= tw <= 7);
        assert(0 <= t < 86400);
        lemma_forward_delta_cases(cw, tw, s, t);
        if tw == cw && t == 63000 {
            assert(r == 3);
            assert(j == k);
        }
    }
    assert(is_first_minimum(sch, cost, 3, k));
    let (r, j) = choose|r: int, j: int| is_first_minimum(sch, cost, r, j);
    lemma_first_minimum_unique(sch, cost, r, j, 3, k);
}

/// The weekdays (1 = Monday ..= 7 = Sunday) a record applies to.
pub open spec fn wake_days(record: TimeRecord) -> Set<int> {
    Set::new(|w: int| 1 <= w <= 7 && exists|k: int| 0 <= k < 7 && record.weekdays@[k] == w)
}

/// The built-in schedule, record by record: 09:25 on Monday, Wednesday and
/// Friday; 09:54 on Tuesday; 11:27 and 17:30 on the five working days; 20:57
/// every day.
pub proof fn lemma_wake_schedule_times()
    ensures
        spec_wake_schedule().len() == 5,
        spec_wake_schedule()[0].hour == 9 && spec_wake_schedule()[0].minute == 25,
        wake_days(spec_wake_schedule()[0]) == set![1int, 3, 5],
        spec_wake_schedule()[1].hour == 9 && spec_wake_schedule()[1].minute == 54,
        wake_days(spec_wake_schedule()[1]) == set![2int],
        spec_wake_schedule()[2].hour == 11 && spec_wake_schedule()[2].minute == 27,
        wake_days(spec_wake_schedule()[2]) == set![1int, 2, 3, 4, 5],
        spec_wake_schedule()[3].hour == 17 && spec_wake_schedule()[3].minute == 30,
        wake_days(spec_wake_schedule()[3]) == set![1int, 2, 3, 4, 5],
        spec_wake_schedule()[4].hour == 20 && spec_wake_schedule()[4].minute == 57,
        wake_days(spec_wake_schedule()[4]) == set![1int, 2, 3, 4, 5, 6, 7],
{
    let sch = spec_wake_schedule();
    assert(WORKING_DAYS@ == seq![1u8, 2, 3, 4, 5, 0, 0]);
    assert(EVERY_DAY@ == seq![1u8, 2, 3, 4, 5, 6, 7]);
    assert(sch[0].weekdays@ == seq![1u8, 3, 5, 0, 0, 0, 0]);
    assert(sch[1].weekdays@ == seq![2u8, 0, 0, 0, 0, 0, 0]);
    assert(wake_days(sch[0]) =~= set![1int, 3, 5]) by {
        assert(sch[0].weekdays@[0] == 1 && sch[0].weekdays@[1] == 3 && sch[0].weekdays@[2] == 5);
    }
    assert(wake_days(sch[1]) =~= set![2int]) by {
        assert(sch[1].weekdays@[0] == 2);
    }
    assert(wake_days(sch[2]) =~= set![1int, 2, 3, 4, 5]) by {
        assert(sch[2].weekdays@ == WORKING_DAYS@);
        assert(WORKING_DAYS@[0] == 1 && WORKING_DAYS@[1] == 2 && WORKING_DAYS@[2] == 3);
        assert(WORKING_DAYS@[3] == 4 && WORKING_DAYS@[4] == 5);
    }
    assert(wake_days(sch[3]) =~= set![1int, 2, 3, 4, 5]) by {
        assert(sch[3].weekdays@ == WORKING_DAYS@);
        assert(WORKING_DAYS@[0] == 1 && WORKING_DAYS@[1] == 2 && WORKING_DAYS@[2] == 3);
        assert(WORKING_DAYS@[3] == 4 && WORKING_DAYS@[4] == 5);
    }
    assert(wake_days(sch[4]) =~= set![1int, 2, 3, 4, 5, 6, 7]) by {
        assert(sch[4].weekdays@ == EVERY_DAY@);
        assert(EVERY_DAY@[0] == 1 && EVERY_DAY@[1] == 2 && EVERY_DAY@[2] == 3);
        assert(EVERY_DAY@[3] == 4 && EVERY_DAY@[4] == 5 && EVERY_DAY@[5] == 6);
        assert(EVERY_DAY@[6] == 7);
    }
}

} // verus!
