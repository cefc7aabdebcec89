use embedded_graphics::pixelcolor::Rgb565;
use embedded_graphics::prelude::RgbColor;

use waveshare_watch::aod_logo::{logo_pixel_runs, PixelRun, HEIGHT, WIDTH};
use waveshare_watch::color::rgb565_from_raw;
use waveshare_watch::pages::{
    axis_str, digit_label, fmt_axis, fmt_mv, fmt_temp, large_key_label_lines, large_key_segments,
    quick_view_grid_lines, quick_view_key_at, quick_view_label_lines, time_indicator_lines,
    LineSegment, Page, QuickViewKey,
};

fn seg(x0: i32, y0: i32, x1: i32, y1: i32) -> LineSegment {
    LineSegment { x0, y0, x1, y1 }
}

#[test]
fn pages_cycle_both_ways() {
    let pages = [Page::Aod, Page::Clock, Page::Sensors, Page::System, Page::Power];
    for (i, page) in pages.iter().enumerate() {
        assert_eq!(page.next(), pages[(i + 1) % 5]);
        assert_eq!(page.next().prev(), *page);
        assert_eq!(page.prev().next(), *page);
        assert_eq!(page.next().next().next().next().next(), *page);
    }
    assert_eq!(Page::QuickView.next(), Page::Clock);
    assert_eq!(Page::QuickView.prev(), Page::Power);
    assert_eq!(Page::count(), 6);
}

#[test]
fn page_names_and_background() {
    assert_eq!(Page::Aod.name(), "AOD");
    assert_eq!(Page::Clock.name(), "CLOCK");
    assert_eq!(Page::Sensors.name(), "SENSORS");
    assert_eq!(Page::System.name(), "SYSTEM");
    assert_eq!(Page::Power.name(), "POWER");
    assert_eq!(Page::QuickView.name(), "QUICK");
    assert_eq!(Page::Clock.color(), Rgb565::BLACK);
}

#[test]
fn keypad_cells_map_to_keys() {
    assert_eq!(quick_view_key_at(10, 150), Some(QuickViewKey::Digit(7)));
    assert_eq!(quick_view_key_at(200, 250), Some(QuickViewKey::Digit(5)));
    assert_eq!(quick_view_key_at(409, 120), Some(QuickViewKey::Digit(9)));
    assert_eq!(quick_view_key_at(100, 399), Some(QuickViewKey::Digit(1)));
    assert_eq!(quick_view_key_at(20, 450), Some(QuickViewKey::Digit(0)));
    assert_eq!(quick_view_key_at(200, 450), Some(QuickViewKey::SetKey));
    assert_eq!(quick_view_key_at(300, 450), Some(QuickViewKey::Clear));
    assert_eq!(quick_view_key_at(50, 50), None);
    assert_eq!(quick_view_key_at(50, 500), None);
}

#[test]
fn seven_segment_patterns() {
    assert_eq!(large_key_segments("8"), [true; 7]);
    assert_eq!(large_key_segments("S"), large_key_segments("5"));
    assert_eq!(large_key_segments("C"), [true, true, false, false, true, false, true]);
    assert_eq!(large_key_segments("1"), [false, false, true, false, false, true, false]);
    assert_eq!(large_key_segments("88"), [false; 7]);
    assert_eq!(large_key_segments(""), [false; 7]);
    assert_eq!(large_key_segments("x"), [false; 7]);
}

#[test]
fn key_label_lines_follow_segments() {
    assert_eq!(
        large_key_label_lines("1", 100, 200),
        vec![seg(117, 171, 117, 200), seg(117, 200, 117, 229)]
    );
    assert_eq!(large_key_label_lines("8", 0, 0).len(), 7);
    assert_eq!(large_key_label_lines("", 0, 0), vec![]);
}

#[test]
fn digit_labels() {
    assert_eq!(digit_label(0), "0");
    assert_eq!(digit_label(3), "3");
    assert_eq!(digit_label(9), "9");
    assert_eq!(digit_label(10), "");
}

#[test]
fn time_indicator_draws_digits_then_colon() {
    let lines = time_indicator_lines(&[Some(1), None, None, None], 205, 50);
    assert_eq!(
        lines,
        vec![
            seg(120, 21, 120, 50),
            seg(120, 50, 120, 79),
            seg(205, 32, 205, 38),
            seg(205, 62, 205, 68),
        ]
    );
    let lines = time_indicator_lines(&[Some(8), Some(8), Some(8), Some(8)], 205, 50);
    assert_eq!(lines.len(), 30);
}

#[test]
fn keypad_grid_and_labels() {
    assert_eq!(
        quick_view_grid_lines(),
        vec![
            seg(136, 100, 136, 501),
            seg(272, 100, 272, 501),
            seg(0, 100, 409, 100),
            seg(0, 200, 409, 200),
            seg(0, 300, 409, 300),
            seg(0, 400, 409, 400),
        ]
    );
    let labels = quick_view_label_lines();
    assert_eq!(labels.len(), 58);
    assert_eq!(&labels[..3], &[seg(51, 121, 85, 121), seg(85, 121, 85, 150), seg(85, 150, 85, 179)]);
}

#[test]
fn formats_readings() {
    let mut buf = [b'#'; 16];
    fmt_axis(&mut buf, b'X', -123);
    assert_eq!(&buf[..8], b"X: -1.23");
    assert_eq!(&buf[8..], &[b'#'; 8]);
    fmt_axis(&mut buf, b'Y', 5);
    assert_eq!(&buf[..8], b"Y: +0.05");

    assert_eq!(axis_str(&buf), "Y: +0.05");

    let mut tbuf = [0u8; 10];
    assert_eq!(fmt_temp(&mut tbuf, 253), "25.3C");
    assert_eq!(fmt_temp(&mut tbuf, -55), "-05.5C");
    assert_eq!(fmt_temp(&mut tbuf, 799), "79.9C");

    let mut vbuf = [0u8; 12];
    assert_eq!(fmt_mv(&mut vbuf, 3987), "3987mV");
    assert_eq!(fmt_mv(&mut vbuf, 850), "850mV");
    assert_eq!(fmt_mv(&mut vbuf, 65535), "q535mV");
}

#[test]
fn unprintable_readings_fall_back() {
    let mut tbuf = [0u8; 10];
    assert_eq!(fmt_temp(&mut tbuf, 800), "80.0C");
    assert_eq!(fmt_temp(&mut tbuf, 7999), "\u{7f}9.9C");
    assert_eq!(fmt_temp(&mut tbuf, 8000), "??C");
    assert_eq!(fmt_temp(&mut tbuf, -8000), "??C");
    assert_eq!(fmt_temp(&mut tbuf, 20799), "??C");

    let mut buf = [b'#'; 16];
    fmt_axis(&mut buf, b'Z', -8000);
    assert_eq!(axis_str(&buf), "");
    fmt_axis(&mut buf, b'Z', 799);
    assert_eq!(axis_str(&buf), "Z: +7.99");
}

#[test]
fn raw_colours_unpack_565() {
    assert_eq!(rgb565_from_raw(0xF800), Rgb565::new(31, 0, 0));
    assert_eq!(rgb565_from_raw(0x07E0), Rgb565::new(0, 63, 0));
    assert_eq!(rgb565_from_raw(0x001F), Rgb565::new(0, 0, 31));
    assert_eq!(rgb565_from_raw(0xFFFF), Rgb565::WHITE);
}

#[test]
fn logo_runs_split_at_row_ends() {
    let mut rle = vec![0x00, 0x00, 10, 0xF8, 0x00, 60];
    let mut rest = (WIDTH * HEIGHT - 70) as usize;
    while rest > 0 {
        let n = rest.min(255);
        rle.extend_from_slice(&[0x00, 0x00, n as u8]);
        rest -= n;
    }
    let red = Rgb565::new(31, 0, 0);
    assert_eq!(
        logo_pixel_runs(&rle),
        vec![
            PixelRun { x: 10, y: 0, len: 54, color: red },
            PixelRun { x: 0, y: 1, len: 6, color: red },
        ]
    );
}
