//! Wake-time scheduling, calendar arithmetic and the decision logic of a
//! smartwatch firmware: schedules and dates, the screen and page state
//! machine, the quick-view keypad, text and figure layout, and sound buffers.
pub mod apps;
pub mod aod_logo;
pub mod audio;
pub mod board;
pub mod calendar;
pub mod color;
pub mod pages;
pub mod schedule;
pub mod screen;
pub mod text;
pub mod time_manager;
pub mod watch;
