# waveshare_watch

The wake-time scheduling and decision logic of a smartwatch firmware
(Waveshare ESP32-S3 AMOLED watch), written in Verus with its contracts proved.

- `src/time_manager.rs` – dates, weekly time records, `next_wake`,
  `closest_wake`, `sleep_duration_until_next`, weekday and month arithmetic.
- `src/calendar.rs` – the calendar model the contracts use (day counting from
  1970-01-01, Zeller's congruence) and its lemmas.
- `src/schedule.rs` – the built-in weekly wake schedule.
- `src/watch.rs` – clock-related decisions: day count to date, network time
  reply to clock setting, alert and always-on-display queries, the quick-view
  keypad step, display and radio timeouts, power read-out.
- `src/pages.rs`, `src/aod_logo.rs`, `src/color.rs` – page navigation, keypad,
  seven-segment figures, text formatting, logo decoding, colours.
- `src/screen.rs` – the screen and page state machine (power button, swipes,
  touch wake) and the main loop's sleep budget.
- `src/text.rs` – byte buffers shown as text (UTF-8 check with a fallback).
- `src/audio.rs` – speaker sample buffers (clip and loud chirp).
- `app/` – drawing onto an embedded-graphics display and a host entry point.

Tests are under `tests/`.
