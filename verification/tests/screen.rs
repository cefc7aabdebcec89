use waveshare_watch::apps::AppState;
use waveshare_watch::pages::Page;
use waveshare_watch::screen::{
    loop_tick_ms, ui_step, Brightness, SwipeKind, UiAction, UiEvent, UiState,
};

fn face(page: Page, screen_state: u8) -> UiState {
    UiState {
        page,
        screen_state,
        app_state: AppState::Watchface,
        pwr_button_armed: true,
        quick_view_loaded: false,
    }
}

fn none() -> UiAction {
    UiAction {
        interaction: false,
        display_on: false,
        brightness: None,
        aod_entered: false,
        load_alert: false,
        force_redraw: false,
        page_dirty: false,
        flush_now: false,
        forward: None,
    }
}

#[test]
fn tick_budget_follows_state() {
    assert_eq!(loop_tick_ms(true, 0, AppState::Watchface, Page::Clock, false), 16);
    assert_eq!(loop_tick_ms(false, 0, AppState::Watchface, Page::Clock, false), 600_000);
    assert_eq!(loop_tick_ms(false, 1, AppState::Watchface, Page::Aod, false), 7000);
    assert_eq!(loop_tick_ms(false, 3, AppState::Watchface, Page::Clock, false), 1000);
    assert_eq!(loop_tick_ms(false, 3, AppState::Watchface, Page::Clock, true), 33);
    assert_eq!(loop_tick_ms(false, 3, AppState::Watchface, Page::Sensors, false), 100);
    assert_eq!(loop_tick_ms(false, 3, AppState::Watchface, Page::System, false), 2000);
    assert_eq!(loop_tick_ms(false, 3, AppState::Watchface, Page::Power, false), 1000);
    assert_eq!(loop_tick_ms(false, 3, AppState::Watchface, Page::QuickView, false), 2000);
    assert_eq!(loop_tick_ms(false, 3, AppState::Launcher, Page::Clock, false), 100);
    assert_eq!(loop_tick_ms(false, 3, AppState::Tetris, Page::Clock, false), 33);
}

#[test]
fn power_button_toggles_quick_view() {
    let s = UiState { app_state: AppState::Snake, ..face(Page::Clock, 0) };
    let (s1, a1) = ui_step(s, UiEvent::PowerButton(true));
    assert_eq!(s1.page, Page::QuickView);
    assert_eq!(s1.screen_state, 3);
    assert_eq!(s1.app_state, AppState::Watchface);
    assert!(a1.display_on && a1.load_alert && a1.force_redraw && a1.interaction);
    assert_eq!(a1.brightness, Some(Brightness::User));

    // still held: nothing more happens
    let (s2, a2) = ui_step(s1, UiEvent::PowerButton(true));
    assert_eq!((s2, a2), (s1, none()));

    let (s3, _) = ui_step(s2, UiEvent::PowerButton(false));
    assert!(s3.pwr_button_armed);
    let (s4, a4) = ui_step(s3, UiEvent::PowerButton(true));
    assert_eq!(s4.page, Page::Aod);
    assert_eq!(s4.screen_state, 1);
    assert!(a4.aod_entered && !a4.load_alert);
    assert_eq!(a4.brightness, Some(Brightness::Aod));
}

#[test]
fn swipes_move_between_pages() {
    let (s1, a1) = ui_step(face(Page::Clock, 3), UiEvent::Swipe(SwipeKind::Left, false));
    assert_eq!(s1.page, Page::Sensors);
    assert!(a1.page_dirty && a1.flush_now && a1.brightness.is_none());
    let (s2, a2) = ui_step(s1, UiEvent::Swipe(SwipeKind::Right, false));
    assert_eq!(s2.page, Page::Clock);
    assert!(a2.page_dirty);

    let (s3, a3) = ui_step(face(Page::Clock, 3), UiEvent::Swipe(SwipeKind::Right, false));
    assert_eq!((s3.page, s3.screen_state), (Page::Aod, 1));
    assert!(a3.aod_entered);

    let (s4, a4) = ui_step(face(Page::Aod, 1), UiEvent::Swipe(SwipeKind::Left, false));
    assert_eq!((s4.page, s4.screen_state), (Page::Clock, 3));
    assert_eq!(a4.brightness, Some(Brightness::User));

    // on the slider, or a tap: handed on
    let (s5, a5) = ui_step(face(Page::Clock, 3), UiEvent::Swipe(SwipeKind::Left, true));
    assert_eq!(s5.page, Page::Clock);
    assert_eq!(a5.forward, Some(SwipeKind::Left));
    let (_, a6) = ui_step(face(Page::QuickView, 3), UiEvent::Swipe(SwipeKind::Tap, false));
    assert_eq!(a6.forward, Some(SwipeKind::Tap));
    let app = UiState { app_state: AppState::Maze, ..face(Page::Clock, 3) };
    let (s7, a7) = ui_step(app, UiEvent::Swipe(SwipeKind::Left, false));
    assert_eq!(s7, app);
    assert_eq!(a7.forward, Some(SwipeKind::Left));
}

#[test]
fn touch_wakes_the_panel() {
    let (s1, a1) = ui_step(face(Page::Aod, 0), UiEvent::Touch);
    assert_eq!(s1.screen_state, 1);
    assert!(a1.display_on && a1.aod_entered && a1.force_redraw);
    assert_eq!(a1.brightness, Some(Brightness::Aod));

    let (s2, a2) = ui_step(face(Page::Clock, 0), UiEvent::Touch);
    assert_eq!(s2.screen_state, 3);
    assert_eq!(a2.brightness, Some(Brightness::User));

    // always-on page being swiped stays in always-on mode
    let (s3, a3) = ui_step(face(Page::Aod, 1), UiEvent::Touch);
    assert_eq!(s3.screen_state, 1);
    assert!(a3.interaction && a3.brightness.is_none());

    let dimmed = face(Page::Sensors, 2);
    let (s4, a4) = ui_step(dimmed, UiEvent::Touch);
    assert_eq!(s4.screen_state, 3);
    assert!(a4.force_redraw);

    let app = UiState { app_state: AppState::Flappy, ..face(Page::Aod, 0) };
    let (s5, a5) = ui_step(app, UiEvent::Touch);
    assert_eq!(s5.screen_state, 3);
    assert!(!a5.force_redraw && a5.display_on);
}
