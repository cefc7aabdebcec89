//! The watch's screen and page state machine: how long the main loop may
//! sleep, and what the power button, a page swipe and a touch do to the page,
//! the panel and the app state. The loop around it performs the actions.
use vstd::prelude::*;

use crate::apps::AppState;
use crate::pages::spec_next_page;
use crate::pages::spec_prev_page;
use crate::pages::Page;
use crate::watch::AOD_DURATION_SECS;

verus! {

/// Panel brightness in always-on mode (about 80%).
pub const AOD_BRIGHTNESS: u8 = 0xCC;

/// With the panel off, the loop wakes this often for housekeeping.
pub const SCREEN_OFF_HOUSEKEEPING_SECS: u64 = 600;

/// Panel states: off, always-on, and fully bright (interactive).
pub const SCREEN_OFF: u8 = 0;

pub const SCREEN_AOD: u8 = 1;

pub const SCREEN_BRIGHT: u8 = 3;

/// How long the loop may sleep without an outside wake, in milliseconds:
/// 16 ms while a finger or a button is held; ten minutes with the panel off;
/// the always-on period (at most 10 s) in always-on mode; otherwise by page
/// or app (the clock page at 30 Hz while the tilt ball runs, games at 30 Hz,
/// other apps at 10 Hz).
pub open spec fn spec_loop_tick_ms(
    input_held: bool,
    screen_state: u8,
    app_state: AppState,
    page: Page,
    gyro_enabled: bool,
) -> u64 {
    let aod_ms = (if AOD_DURATION_SECS < 10 {
        AOD_DURATION_SECS
    } else {
        10
    }) * 1000;
    if input_held {
        16
    } else if screen_state == SCREEN_OFF {
        (SCREEN_OFF_HOUSEKEEPING_SECS * 1000) as u64
    } else if screen_state == SCREEN_AOD {
        aod_ms as u64
    } else {
        match app_state {
            AppState::Watchface => match page {
                Page::Aod => aod_ms as u64,
                Page::Clock => if gyro_enabled {
                    33
                } else {
                    1000
                },
                Page::Sensors => 100,
                Page::System => 2000,
                Page::Power => 1000,
                Page::QuickView => 2000,
            },
            AppState::Launcher | AppState::Settings | AppState::Mp3Player
            | AppState::SmartHome => 100,
            AppState::Flappy | AppState::Snake | AppState::Game2048 | AppState::Tetris
            | AppState::Maze => 33,
        }
    }
}

/// The loop's sleep budget for this round, in milliseconds.
pub fn loop_tick_ms(
    input_held: bool,
    screen_state: u8,
    app_state: AppState,
    page: Page,
    gyro_enabled: bool,
) -> (ms: u64)
    ensures
        ms == spec_loop_tick_ms(input_held, screen_state, app_state, page, gyro_enabled),
{
    let aod_secs = if AOD_DURATION_SECS < 10 {
        AOD_DURATION_SECS
    } else {
        10
    };
    if input_held {
        16
    } else if screen_state == SCREEN_OFF {
        SCREEN_OFF_HOUSEKEEPING_SECS * 1000
    } else if screen_state == SCREEN_AOD {
        aod_secs * 1000
    } else {
        match app_state {
            AppState::Watchface => match page {
                Page::Aod => aod_secs * 1000,
                Page::Clock => if gyro_enabled {
                    33
                } else {
                    1000
                },
                Page::Sensors => 100,
                Page::System => 2000,
                Page::Power => 1000,
                Page::QuickView => 2000,
            },
            AppState::Launcher | AppState::Settings | AppState::Mp3Player
            | AppState::SmartHome => 100,
            AppState::Flappy | AppState::Snake | AppState::Game2048 | AppState::Tetris
            | AppState::Maze => 33,
        }
    }
}

/// A finished gesture as the touch controller reports it: a horizontal swipe,
/// a tap, or any other gesture.
#[derive(Debug, Clone, Copy, PartialEq, Eq)]
pub enum SwipeKind {
    Left,
    Right,
    Tap,
    Other,
}

/// The brightness to set the panel to.
#[derive(Debug, Clone, Copy, PartialEq, Eq)]
pub enum Brightness {
    /// `AOD_BRIGHTNESS`.
    Aod,
    /// The brightness the user picked on the clock page.
    User,
}

/// The part of the watch's state the screen state machine reads and writes.
#[derive(Debug, Clone, Copy, PartialEq)]
pub struct UiState {
    pub page: Page,
    /// `SCREEN_OFF`, `SCREEN_AOD` or `SCREEN_BRIGHT` (2, dimmed, counts as not
    /// bright).
    pub screen_state: u8,
    pub app_state: AppState,
    /// The power button was released since its last press.
    pub pwr_button_armed: bool,
    /// The alert time was read into the quick view once.
    pub quick_view_loaded: bool,
}

/// What happened this round.
#[derive(Debug, Clone, Copy, PartialEq, Eq)]
pub enum UiEvent {
    /// The power button as read this round: pressed or not.
    PowerButton(bool),
    /// A finished gesture, and whether it began on the clock page's
    /// brightness slider.
    Swipe(SwipeKind, bool),
    /// Touch activity: a finger on the panel, or a gesture reported.
    Touch,
}

/// What the loop must do after a step.
#[derive(Debug, Clone, Copy, PartialEq, Eq)]
pub struct UiAction {
    /// Note the time as the last user interaction.
    pub interaction: bool,
    /// Power the panel up (and let it settle).
    pub display_on: bool,
    /// Set the panel brightness.
    pub brightness: Option<Brightness>,
    /// Restart the always-on timer and its minute display.
    pub aod_entered: bool,
    /// Read the alert time from the clock chip into the quick-view entry.
    pub load_alert: bool,
    /// Redraw the whole watch face.
    pub force_redraw: bool,
    /// Redraw the page.
    pub page_dirty: bool,
    /// Flush the watch face to the panel now.
    pub flush_now: bool,
    /// Hand this gesture on to the page or app (a tap goes to the page's keys).
    pub forward: Option<SwipeKind>,
}

pub open spec fn no_action() -> UiAction {
    UiAction {
        interaction: false,
        display_on: false,
        brightness: None,
        aod_entered: false,
        load_alert: false,
        force_redraw: false,
        page_dirty: false,
        flush_now: false,
        forward: None,
    }
}

/// The power button: a press (once released since the last one) returns to
/// the watch face and toggles between the quick view and the always-on page;
/// the first time the quick view opens, the alert time is read in.
pub open spec fn power_button_step(s: UiState, pressed: bool) -> (UiState, UiAction) {
    if pressed && s.pwr_button_armed {
        if s.page is QuickView {
            (
                UiState {
                    page: Page::Aod,
                    screen_state: SCREEN_AOD,
                    app_state: AppState::Watchface,
                    pwr_button_armed: false,
                    quick_view_loaded: s.quick_view_loaded,
                },
                UiAction {
                    interaction: true,
                    brightness: Some(Brightness::Aod),
                    aod_entered: true,
                    force_redraw: true,
                    page_dirty: true,
                    flush_now: true,
                    ..no_action()
                },
            )
        } else {
            (
                UiState {
                    page: Page::QuickView,
                    screen_state: SCREEN_BRIGHT,
                    app_state: AppState::Watchface,
                    pwr_button_armed: false,
                    quick_view_loaded: true,
                },
                UiAction {
                    interaction: true,
                    display_on: s.screen_state == SCREEN_OFF,
                    brightness: Some(Brightness::User),
                    load_alert: !s.quick_view_loaded,
                    force_redraw: true,
                    page_dirty: true,
                    flush_now: true,
                    ..no_action()
                },
            )
        }
    } else if !pressed {
        (UiState { pwr_button_armed: true, ..s }, no_action())
    } else {
        (s, no_action())
    }
}

/// A gesture: on the watch face a left or right swipe (not on the brightness
/// slider) moves to the next or previous page, the always-on page putting the
/// panel in always-on mode and any other page making it bright; every other
/// gesture, and every gesture inside an app, is handed on.
pub open spec fn swipe_step(s: UiState, kind: SwipeKind, on_slider: bool) -> (UiState, UiAction) {
    if s.app_state is Watchface && (kind is Left || kind is Right) && !on_slider {
        let page = if kind is Left {
            spec_next_page(s.page)
        } else {
            spec_prev_page(s.page)
        };
        if page is Aod {
            (
                UiState { page, screen_state: SCREEN_AOD, ..s },
                UiAction {
                    brightness: Some(Brightness::Aod),
                    aod_entered: true,
                    page_dirty: true,
                    flush_now: true,
                    ..no_action()
                },
            )
        } else if s.screen_state < SCREEN_BRIGHT {
            (
                UiState { page, screen_state: SCREEN_BRIGHT, ..s },
                UiAction {
                    brightness: Some(Brightness::User),
                    page_dirty: true,
                    flush_now: true,
                    ..no_action()
                },
            )
        } else {
            (UiState { page, ..s }, UiAction { page_dirty: true, flush_now: true, ..no_action() })
        }
    } else {
        (s, UiAction { forward: Some(kind), ..no_action() })
    }
}

/// The always-on page on the watch face with the panel in always-on mode: a
/// touch there stays in always-on mode (the page is swipeable).
pub open spec fn aod_swipeable(s: UiState) -> bool {
    s.app_state is Watchface && s.page is Aod && s.screen_state == SCREEN_AOD
}

/// Touch activity: a panel that is off wakes (to always-on mode on the
/// always-on page of the watch face, else bright); a dimmed or always-on
/// panel becomes bright unless the always-on page is being swiped.
pub open spec fn touch_step(s: UiState) -> (UiState, UiAction) {
    let on_face = s.app_state is Watchface;
    if s.screen_state == SCREEN_OFF {
        let to_aod = on_face && s.page is Aod;
        (
            UiState {
                screen_state: if to_aod {
                    SCREEN_AOD
                } else {
                    SCREEN_BRIGHT
                },
                ..s
            },
            UiAction {
                interaction: true,
                display_on: true,
                brightness: Some(
                    if to_aod {
                        Brightness::Aod
                    } else {
                        Brightness::User
                    },
                ),
                aod_entered: to_aod,
                force_redraw: on_face,
                page_dirty: on_face,
                flush_now: true,
                ..no_action()
            },
        )
    } else if s.screen_state < SCREEN_BRIGHT && !aod_swipeable(s) {
        (
            UiState { screen_state: SCREEN_BRIGHT, ..s },
            UiAction {
                interaction: true,
                brightness: Some(Brightness::User),
                force_redraw: on_face,
                page_dirty: on_face,
                flush_now: true,
                ..no_action()
            },
        )
    } else {
        (s, UiAction { interaction: true, ..no_action() })
    }
}

/// One step of the screen state machine.
pub open spec fn spec_ui_step(s: UiState, event: UiEvent) -> (UiState, UiAction) {
    match event {
        UiEvent::PowerButton(pressed) => power_button_step(s, pressed),
        UiEvent::Swipe(kind, on_slider) => swipe_step(s, kind, on_slider),
        UiEvent::Touch => touch_step(s),
    }
}

fn none_action() -> (a: UiAction)
    ensures
        a == no_action(),
{
    UiAction {
        interaction: false,
        display_on: false,
        brightness: None,
        aod_entered: false,
        load_alert: false,
        force_redraw: false,
        page_dirty: false,
        flush_now: false,
        forward: None,
    }
}

/// Apply one event to the screen state; the loop then performs the action.
pub fn ui_step(state: UiState, event: UiEvent) -> (out: (UiState, UiAction))
    ensures
        out == spec_ui_step(state, event),
{
    let mut s = state;
    let mut a = none_action();
    match event {
        UiEvent::PowerButton(pressed) => {
            if pressed && s.pwr_button_armed {
                s.pwr_button_armed = false;
                s.app_state = AppState::Watchface;
                a.interaction = true;
                if matches!(s.page, Page::QuickView) {
                    s.page = Page::Aod;
                    s.screen_state = SCREEN_AOD;
                    a.brightness = Some(Brightness::Aod);
                    a.aod_entered = true;
                } else {
                    s.page = Page::QuickView;
                    a.load_alert = !s.quick_view_loaded;
                    s.quick_view_loaded = true;
                    a.display_on = s.screen_state == SCREEN_OFF;
                    a.brightness = Some(Brightness::User);
                    s.screen_state = SCREEN_BRIGHT;
                }
                a.force_redraw = true;
                a.page_dirty = true;
                a.flush_now = true;
            } else if !pressed {
                s.pwr_button_armed = true;
            }
        },
        UiEvent::Swipe(kind, on_slider) => {
            let horizontal = matches!(kind, SwipeKind::Left) || matches!(kind, SwipeKind::Right);
            if matches!(s.app_state, AppState::Watchface) && horizontal && !on_slider {
                s.page = if matches!(kind, SwipeKind::Left) {
                    s.page.next()
                } else {
                    s.page.prev()
                };
                if matches!(s.page, Page::Aod) {
                    s.screen_state = SCREEN_AOD;
                    a.brightness = Some(Brightness::Aod);
                    a.aod_entered = true;
                } else if s.screen_state < SCREEN_BRIGHT {
                    s.screen_state = SCREEN_BRIGHT;
                    a.brightness = Some(Brightness::User);
                }
                a.page_dirty = true;
                a.flush_now = true;
            } else {
                a.forward = Some(kind);
            }
        },
        UiEvent::Touch => {
            let on_face = matches!(s.app_state, AppState::Watchface);
            let swipeable = on_face && matches!(s.page, Page::Aod) && s.screen_state
                == SCREEN_AOD;
            a.interaction = true;
            if s.screen_state == SCREEN_OFF {
                a.display_on = true;
                if on_face && matches!(s.page, Page::Aod) {
                    s.screen_state = SCREEN_AOD;
                    a.brightness = Some(Brightness::Aod);
                    a.aod_entered = true;
                } else {
                    s.screen_state = SCREEN_BRIGHT;
                    a.brightness = Some(Brightness::User);
                }
                a.flush_now = true;
                a.force_redraw = on_face;
                a.page_dirty = on_face;
            } else if s.screen_state < SCREEN_BRIGHT && !swipeable {
                s.screen_state = SCREEN_BRIGHT;
                a.brightness = Some(Brightness::User);
                a.flush_now = true;
                a.force_redraw = on_face;
                a.page_dirty = on_face;
            }
        },
    }
    (s, a)
}

/// Pressing the power button, releasing it and pressing it again, from any
/// page but the quick view, opens the quick view (bright) and then returns
/// to the always-on page in always-on mode, on the watch face.
pub proof fn lemma_power_button_toggles_quick_view(s: UiState)
    requires
        s.pwr_button_armed,
        !(s.page is QuickView),
    ensures
        ({
            let s1 = spec_ui_step(s, UiEvent::PowerButton(true)).0;
            let s2 = spec_ui_step(s1, UiEvent::PowerButton(false)).0;
            let s3 = spec_ui_step(s2, UiEvent::PowerButton(true)).0;
            &&& s1.page is QuickView && s1.screen_state == SCREEN_BRIGHT
            &&& s1.app_state is Watchface
            &&& s3.page is Aod && s3.screen_state == SCREEN_AOD
            &&& s3.app_state is Watchface && s3.quick_view_loaded
        }),
        spec_ui_step(s, UiEvent::PowerButton(true)).1.load_alert == !s.quick_view_loaded,
{
}

/// Holding the power button down does nothing after the first press.
pub proof fn lemma_held_power_button_acts_once(s: UiState)
    ensures
        ({
            let s1 = spec_ui_step(s, UiEvent::PowerButton(true));
            let s2 = spec_ui_step(s1.0, UiEvent::PowerButton(true));
            s2.0 == s1.0 && s2.1 == no_action()
        }),
{
}

/// On the watch face, a swipe back undoes a swipe forward (and the other way
/// round) on the five pages of the cycle, off the brightness slider.
pub proof fn lemma_swipe_back_undoes_swipe(s: UiState, first: SwipeKind)
    requires
        s.app_state is Watchface,
        !(s.page is QuickView),
        first is Left || first is Right,
    ensures
        ({
            let back = if first is Left {
                SwipeKind::Right
            } else {
                SwipeKind::Left
            };
            let s1 = spec_ui_step(s, UiEvent::Swipe(first, false)).0;
            spec_ui_step(s1, UiEvent::Swipe(back, false)).0.page == s.page
        }),
{
    crate::pages::lemma_page_navigation(s.page);
}

/// A touch never leaves the panel off.
pub proof fn lemma_touch_wakes_panel(s: UiState)
    ensures
        spec_ui_step(s, UiEvent::Touch).0.screen_state != SCREEN_OFF,
        spec_ui_step(s, UiEvent::Touch).1.interaction,
{
}

/// A touch on a bright panel changes nothing but noting the interaction.
pub proof fn lemma_touch_keeps_bright_panel(s: UiState)
    requires
        s.screen_state == SCREEN_BRIGHT,
    ensures
        spec_ui_step(s, UiEvent::Touch) == (s, UiAction { interaction: true, ..no_action() }),
{
}

/// A touch never dims the panel, never changes the page, the app or the
/// button state, and only sets always-on brightness when it wakes a panel
/// that was off.
pub proof fn lemma_touch_never_dims(s: UiState)
    ensures
        ({
            let (t, a) = spec_ui_step(s, UiEvent::Touch);
            &&& t.screen_state >= s.screen_state
            &&& t.page == s.page && t.app_state == s.app_state
            &&& t.pwr_button_armed == s.pwr_button_armed
            &&& t.quick_view_loaded == s.quick_view_loaded
            &&& a.brightness == Some(Brightness::Aod) ==> s.screen_state == SCREEN_OFF
            &&& a.forward is None && !a.load_alert
        }),
{
}

/// On the watch face a page swipe lands in always-on mode exactly when it
/// lands on the always-on page, and otherwise leaves the panel bright; a
/// swipe inside an app, or a tap, changes nothing and is handed on.
pub proof fn lemma_swipe_sets_panel_for_page(s: UiState, kind: SwipeKind, on_slider: bool)
    requires
        1 <= s.screen_state <= SCREEN_BRIGHT,
    ensures
        ({
            let (t, a) = spec_ui_step(s, UiEvent::Swipe(kind, on_slider));
            &&& t.app_state == s.app_state
            &&& t.pwr_button_armed == s.pwr_button_armed
            &&& (s.app_state is Watchface && (kind is Left || kind is Right) && !on_slider) ==> {
                &&& t.page == (if kind is Left {
                    spec_next_page(s.page)
                } else {
                    spec_prev_page(s.page)
                })
                &&& (t.page is Aod <==> t.screen_state == SCREEN_AOD)
                &&& !(t.page is Aod) ==> t.screen_state == SCREEN_BRIGHT
                &&& a.page_dirty && a.forward is None
            }
            &&& !(s.app_state is Watchface) || kind is Tap || kind is Other || on_slider ==> t == s
                && a.forward == Some(kind) && !a.page_dirty
        }),
{
}

/// A held finger or button gives the shortest sleep, 16 ms; a panel that is
/// off the longest, ten minutes; always-on mode the always-on period (at
/// most 10 s); a bright panel never more than 2 s.
pub proof fn lemma_loop_tick_bounds(
    input_held: bool,
    screen_state: u8,
    app_state: AppState,
    page: Page,
    gyro_enabled: bool,
)
    ensures
        ({
            let ms = spec_loop_tick_ms(input_held, screen_state, app_state, page, gyro_enabled);
            &&& 16 <= ms <= 600_000
            &&& input_held ==> ms == 16
            &&& !input_held && screen_state == SCREEN_OFF ==> ms == 600_000
            &&& !input_held && screen_state == SCREEN_AOD ==> ms == 7000
            &&& !input_held && screen_state >= 2 ==> 33 <= ms <= 7000
            &&& !input_held && screen_state >= 2 && !(page is Aod) ==> ms <= 2000
            &&& !input_held && screen_state >= 2 && app_state is Watchface && page is Clock
                ==> ms == (if gyro_enabled {
                33u64
            } else {
                1000u64
            })
            &&& !input_held && screen_state >= 2 && app_state is Watchface ==> {
                &&& page is Sensors ==> ms == 100
                &&& page is System ==> ms == 2000
                &&& page is Power ==> ms == 1000
                &&& page is QuickView ==> ms == 2000
                &&& page is Aod ==> ms == 7000
            }
            &&& !input_held && screen_state >= 2 && (app_state is Launcher
                || app_state is Settings || app_state is Mp3Player || app_state is SmartHome)
                ==> ms == 100
            &&& !input_held && screen_state >= 2 && (app_state is Flappy || app_state is Snake
                || app_state is Game2048 || app_state is Tetris || app_state is Maze) ==> ms == 33
        }),
{
}

} // verus!
