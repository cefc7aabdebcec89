use core::time::Duration;

use waveshare_watch::apps::AppState;
use waveshare_watch::schedule::{wake_schedule, EVERY_DAY};
use waveshare_watch::pages::{Page, QuickViewKey};
use waveshare_watch::time_manager::{DateTime, NextWake, TimeRecord, MONDAY, SATURDAY};
use waveshare_watch::watch::{
    aod_next_wake_time, aod_timeout_due, app_needs_motion_imu, clear_quick_view_alert_entry,
    next_wake_with_rtc_alert, ntp_reply_to_rtc_datetime, rtc_alert_due,
    rtc_to_time_manager_datetime, schedule_records_with_rtc_alert, sync_quick_view_alert_entry,
    quick_view_key_step, update_power_stats, wifi_idle_auto_off, DisplayState, PowerStats,
    QuickViewAction, RtcDateTime, WifiMode,
};

fn rtc(year: u8, month: u8, day: u8, hours: u8, minutes: u8, seconds: u8) -> RtcDateTime {
    RtcDateTime { year, month, day, weekday: 0, hours, minutes, seconds }
}

#[test]
fn rtc_reading_converts_to_datetime() {
    assert_eq!(
        rtc_to_time_manager_datetime(rtc(26, 5, 4, 8, 15, 30)),
        DateTime::new(2026, 5, 4, 8, 15, 30)
    );
}

#[test]
fn ntp_reply_sets_local_time_and_weekday() {
    let mut response = [0u8; 48];
    response[40] = 237;
    response[41] = 162;
    response[42] = 184;
    response[43] = 2;
    let dt = ntp_reply_to_rtc_datetime(&response);
    assert_eq!(
        dt,
        RtcDateTime { year: 26, month: 5, day: 4, weekday: MONDAY, hours: 8, minutes: 15, seconds: 30 }
    );
}

#[test]
fn ntp_reply_at_start_of_2000() {
    // 1999-12-31 22:00:00 UTC is 2000-01-01 00:00:00 local
    let ntp: u32 = 946_677_600u32.wrapping_add(2_208_988_800);
    let mut response = [0u8; 48];
    response[40..44].copy_from_slice(&ntp.to_be_bytes());
    let dt = ntp_reply_to_rtc_datetime(&response);
    assert_eq!(
        dt,
        RtcDateTime { year: 0, month: 1, day: 1, weekday: SATURDAY, hours: 0, minutes: 0, seconds: 0 }
    );
}

#[test]
fn schedule_records_append_clamped_alert() {
    let (records, len) = schedule_records_with_rtc_alert(None);
    assert_eq!(len, 5);
    assert_eq!(&records[..5], &wake_schedule()[..]);
    assert_eq!(records[5], TimeRecord::new(0, 0, [0; 7]));
    let (records, len) = schedule_records_with_rtc_alert(Some((25, 70)));
    assert_eq!(len, 6);
    assert_eq!(records[5], TimeRecord::new(23, 59, EVERY_DAY));
    let (records, _) = schedule_records_with_rtc_alert(Some((6, 45)));
    assert_eq!(records[5], TimeRecord::new(6, 45, EVERY_DAY));
}

#[test]
fn next_wake_includes_alert_time() {
    let now = DateTime::new(2026, 5, 4, 9, 20, 0);
    assert_eq!(
        next_wake_with_rtc_alert(now, Some((9, 22))),
        Ok(Some(NextWake { duration: Duration::from_secs(120), hour: 9, minute: 22, weekday: MONDAY }))
    );
    assert_eq!(
        next_wake_with_rtc_alert(now, None),
        Ok(Some(NextWake { duration: Duration::from_secs(300), hour: 9, minute: 25, weekday: MONDAY }))
    );
}

#[test]
fn aod_shows_next_wake_within_a_day() {
    assert_eq!(aod_next_wake_time(rtc(26, 5, 4, 9, 20, 0), None), Some((9, 25)));
    assert_eq!(aod_next_wake_time(rtc(26, 5, 9, 21, 0, 0), None), Some((20, 57)));
    assert_eq!(aod_next_wake_time(rtc(26, 5, 9, 21, 0, 0), Some((7, 5))), Some((7, 5)));
    // an invalid clock reading shows nothing
    assert_eq!(aod_next_wake_time(rtc(26, 0, 9, 21, 0, 0), None), None);
}

#[test]
fn alert_is_due_within_two_minutes() {
    assert!(rtc_alert_due(rtc(26, 5, 4, 9, 20, 0), Some((9, 21))));
    assert!(rtc_alert_due(rtc(26, 5, 4, 9, 20, 0), Some((9, 19))));
    assert!(!rtc_alert_due(rtc(26, 5, 4, 9, 20, 0), Some((9, 22))));
    assert!(!rtc_alert_due(rtc(26, 5, 4, 9, 20, 0), None));
    assert!(rtc_alert_due(rtc(26, 5, 4, 23, 59, 0), Some((0, 0))));
    assert!(!rtc_alert_due(rtc(26, 5, 4, 25, 59, 0), Some((0, 0))));
}

#[test]
fn quick_view_entry_shows_alert_digits() {
    let mut digits = [None; 4];
    let mut len = 0usize;
    let mut show_set = true;
    sync_quick_view_alert_entry(Some((7, 45)), &mut digits, &mut len, &mut show_set);
    assert_eq!(digits, [Some(0), Some(7), Some(4), Some(5)]);
    assert_eq!(len, 4);
    assert!(!show_set);
    sync_quick_view_alert_entry(None, &mut digits, &mut len, &mut show_set);
    assert_eq!(digits, [None; 4]);
    assert_eq!(len, 0);
    assert!(show_set);
}

#[test]
fn quick_view_entry_clears() {
    let mut digits = [Some(1), Some(2), Some(3), Some(4)];
    let mut len = 4usize;
    let mut show_set = false;
    clear_quick_view_alert_entry(&mut digits, &mut len, &mut show_set);
    assert_eq!(digits, [None; 4]);
    assert_eq!(len, 0);
    assert!(show_set);
}

#[test]
fn power_stats_snapshot() {
    let mut stats = PowerStats {
        display: None,
        wifi: None,
        imu_on: false,
        brightness: 0,
        audio_on: true,
        sd_on: true,
        battery_mv: 0,
        battery_pct: 0,
        charging: false,
        cpu_mhz: 160,
    };
    update_power_stats(&mut stats, 1, true, false, true, 0xCC, 3987, 81, true);
    assert_eq!(
        stats,
        PowerStats {
            display: Some(DisplayState::Aod),
            wifi: Some(WifiMode::Active),
            imu_on: true,
            brightness: 0xCC,
            audio_on: false,
            sd_on: false,
            battery_mv: 3987,
            battery_pct: 81,
            charging: true,
            cpu_mhz: 160,
        }
    );
    update_power_stats(&mut stats, 7, false, true, false, 10, 3600, 20, false);
    assert_eq!(stats.display, Some(DisplayState::Bright));
    assert_eq!(stats.wifi, Some(WifiMode::PowerSave));
    update_power_stats(&mut stats, 0, false, false, false, 10, 3600, 20, false);
    assert_eq!(stats.display, Some(DisplayState::Off));
    assert_eq!(stats.wifi, Some(WifiMode::Off));
    update_power_stats(&mut stats, 2, false, false, false, 10, 3600, 20, false);
    assert_eq!(stats.display, Some(DisplayState::Dim));
}

#[test]
fn motion_sensor_needed_by_tilt_games() {
    assert!(app_needs_motion_imu(AppState::Maze));
    assert!(app_needs_motion_imu(AppState::Tetris));
    assert!(app_needs_motion_imu(AppState::Flappy));
    assert!(!app_needs_motion_imu(AppState::Watchface));
    assert!(!app_needs_motion_imu(AppState::Snake));
}

#[test]
fn keypad_types_time_and_sets_alert() {
    let mut digits = [None; 4];
    let mut len = 0usize;
    let mut show = true;
    for d in [0u8, 7, 3, 0] {
        let action = quick_view_key_step(QuickViewKey::Digit(d), &mut digits, &mut len, &mut show);
        assert_eq!(action, QuickViewAction::Redraw);
    }
    assert_eq!(
        quick_view_key_step(QuickViewKey::Digit(9), &mut digits, &mut len, &mut show),
        QuickViewAction::Ignored
    );
    assert_eq!(digits, [Some(0), Some(7), Some(3), Some(0)]);
    assert_eq!(
        quick_view_key_step(QuickViewKey::SetKey, &mut digits, &mut len, &mut show),
        QuickViewAction::SetAlert(7, 30)
    );
    assert_eq!((digits, len, show), ([Some(0), Some(7), Some(3), Some(0)], 4, false));

    let (mut d2, mut l2, mut s2) = ([None; 4], 9usize, true);
    sync_quick_view_alert_entry(Some((7, 30)), &mut d2, &mut l2, &mut s2);
    assert_eq!((d2, l2, s2), (digits, len, show));

    // with the set key hidden, pressing it does nothing
    assert_eq!(
        quick_view_key_step(QuickViewKey::SetKey, &mut digits, &mut len, &mut show),
        QuickViewAction::Ignored
    );
    assert_eq!(len, 4);
}

#[test]
fn keypad_partial_entry_fills_zeros() {
    let mut digits = [None; 4];
    let mut len = 0usize;
    let mut show = true;
    quick_view_key_step(QuickViewKey::Digit(1), &mut digits, &mut len, &mut show);
    assert_eq!(
        quick_view_key_step(QuickViewKey::SetKey, &mut digits, &mut len, &mut show),
        QuickViewAction::SetAlert(10, 0)
    );
    assert_eq!((digits, len, show), ([Some(1), Some(0), Some(0), Some(0)], 4, false));
    assert_eq!(
        quick_view_key_step(QuickViewKey::Clear, &mut digits, &mut len, &mut show),
        QuickViewAction::Redraw
    );
    assert_eq!((digits, len, show), ([None; 4], 0, true));
}

#[test]
fn keypad_set_without_input_disables_alert() {
    let mut digits = [None; 4];
    let mut len = 0usize;
    let mut show = true;
    assert_eq!(
        quick_view_key_step(QuickViewKey::SetKey, &mut digits, &mut len, &mut show),
        QuickViewAction::DisableAlert
    );
    assert_eq!((digits, len, show), ([None; 4], 0, true));
}

#[test]
fn aod_times_out_after_seven_seconds() {
    assert!(aod_timeout_due(false, Page::Aod, 1, 7));
    assert!(!aod_timeout_due(false, Page::Aod, 1, 6));
    assert!(!aod_timeout_due(true, Page::Aod, 1, 30));
    assert!(!aod_timeout_due(false, Page::Clock, 1, 30));
    assert!(!aod_timeout_due(false, Page::Aod, 3, 30));
}

#[test]
fn idle_radio_switches_off() {
    assert!(wifi_idle_auto_off(true, 300, 60));
    assert!(!wifi_idle_auto_off(true, 299, 60));
    assert!(!wifi_idle_auto_off(true, 300, 59));
    assert!(!wifi_idle_auto_off(false, 1000, 1000));
}
