//! The watch's pages (AOD | Clock | Sensors | System Info | Power | Quick view):
//! navigation between them, the quick-view keypad, and the text and
//! seven-segment figures the pages show.
use embedded_graphics::pixelcolor::Rgb565;
use vstd::prelude::*;
use vstd::string::StrSliceExecFns;

use crate::board::LCD_HEIGHT;
use crate::board::LCD_WIDTH;
use crate::color::rgb565_new;
use crate::color::rgb565_of;
use crate::text::all_ascii;
use crate::text::lemma_ascii_prefix_utf8;
use crate::text::lemma_ascii_valid_utf8;
use crate::text::lemma_stray_high_byte;
use crate::text::text_or;
use vstd::string::StringSliceAdditionalSpecFns;
use vstd::utf8::valid_utf8;

verus! {

pub const W: u16 = LCD_WIDTH;

pub const H: u16 = LCD_HEIGHT;

#[derive(Debug, Clone, Copy, PartialEq, Eq)]
pub enum Page {
    Aod,
    Clock,
    Sensors,
    System,
    Power,
    QuickView,
}

/// The page a swipe forward leads to: the five main pages form a cycle, and
/// the quick view leads back to the clock.
pub open spec fn spec_next_page(page: Page) -> Page {
    match page {
        Page::Aod => Page::Clock,
        Page::Clock => Page::Sensors,
        Page::Sensors => Page::System,
        Page::System => Page::Power,
        Page::Power => Page::Aod,
        Page::QuickView => Page::Clock,
    }
}

/// The page a swipe back leads to: the cycle run backwards, and the quick
/// view leads to the power page.
pub open spec fn spec_prev_page(page: Page) -> Page {
    match page {
        Page::Aod => Page::Power,
        Page::Clock => Page::Aod,
        Page::Sensors => Page::Clock,
        Page::System => Page::Sensors,
        Page::Power => Page::System,
        Page::QuickView => Page::Power,
    }
}

impl Page {
    pub fn count() -> (n: usize)
        ensures
            n == 6,
    {
        6
    }

    pub fn next(self) -> (page: Self)
        ensures
            page == spec_next_page(self),
    {
        match self {
            Page::Aod => Page::Clock,
            Page::Clock => Page::Sensors,
            Page::Sensors => Page::System,
            Page::System => Page::Power,
            Page::Power => Page::Aod,
            Page::QuickView => Page::Clock,
        }
    }

    pub fn prev(self) -> (page: Self)
        ensures
            page == spec_prev_page(self),
    {
        match self {
            Page::Aod => Page::Power,
            Page::Clock => Page::Aod,
            Page::Sensors => Page::Clock,
            Page::System => Page::Sensors,
            Page::Power => Page::System,
            Page::QuickView => Page::Power,
        }
    }

    /// Every page has a pure black background (the AMOLED panel then draws
    /// almost no current).
    pub fn color(self) -> (c: Rgb565)
        ensures
            c == rgb565_of(0, 0, 0),
    {
        rgb565_new(0, 0, 0)
    }

    pub fn name(self) -> (name: &'static str)
        ensures
            name@ == match self {
                Page::Aod => "AOD"@,
                Page::Clock => "CLOCK"@,
                Page::Sensors => "SENSORS"@,
                Page::System => "SYSTEM"@,
                Page::Power => "POWER"@,
                Page::QuickView => "QUICK"@,
            },
    {
        match self {
            Page::Aod => "AOD",
            Page::Clock => "CLOCK",
            Page::Sensors => "SENSORS",
            Page::System => "SYSTEM",
            Page::Power => "POWER",
            Page::QuickView => "QUICK",
        }
    }
}

/// Swiping back undoes swiping forward, and forward undoes back, on the five
/// pages of the cycle; five swipes the same way come back to the start.
pub proof fn lemma_page_navigation(page: Page)
    ensures
        page != Page::QuickView ==> spec_prev_page(spec_next_page(page)) == page,
        page != Page::QuickView ==> spec_next_page(spec_prev_page(page)) == page,
        page != Page::QuickView ==> spec_next_page(
            spec_next_page(spec_next_page(spec_next_page(spec_next_page(page)))),
        ) == page,
        spec_next_page(page) != Page::QuickView,
        spec_prev_page(page) != Page::QuickView,
{
}

/// Quick-view keypad key.
#[derive(Debug, Clone, Copy, PartialEq, Eq)]
pub enum QuickViewKey {
    Digit(u8),
    SetKey,
    Clear,
}

/// The key of the keypad cell in row `row` (1 ..= 4, below the time display)
/// and column `col` (0 ..= 2): rows 7 8 9 / 4 5 6 / 1 2 3 / 0 Set Clear.
pub open spec fn quick_view_key_in_cell(row: int, col: int) -> Option<QuickViewKey> {
    if row == 1 && 0 <= col <= 2 {
        Some(QuickViewKey::Digit((7 + col) as u8))
    } else if row == 2 && 0 <= col <= 2 {
        Some(QuickViewKey::Digit((4 + col) as u8))
    } else if row == 3 && 0 <= col <= 2 {
        Some(QuickViewKey::Digit((1 + col) as u8))
    } else if row == 4 && col == 0 {
        Some(QuickViewKey::Digit(0))
    } else if row == 4 && col == 1 {
        Some(QuickViewKey::SetKey)
    } else if row == 4 && col == 2 {
        Some(QuickViewKey::Clear)
    } else {
        None
    }
}

/// The key a keypad label stands for: a digit for `0` ..= `9`, the set key
/// for `S`, Clear for `C`.
pub open spec fn key_of_label(c: char) -> Option<QuickViewKey> {
    if 48 <= c as int <= 57 {
        Some(QuickViewKey::Digit((c as int - 48) as u8))
    } else if c == 'S' {
        Some(QuickViewKey::SetKey)
    } else if c == 'C' {
        Some(QuickViewKey::Clear)
    } else {
        None
    }
}

/// A touch in a keypad cell gives the key whose label is drawn in that cell
/// (rows 1 ..= 4 under the time display, columns 0 ..= 2), and no key
/// anywhere else.
pub proof fn lemma_keypad_keys_match_labels(row: int, col: int)
    ensures
        1 <= row <= 4 && 0 <= col <= 2 ==> quick_view_key_in_cell(row, col) == key_of_label(
            keypad_label_chars()[3 * (row - 1) + col],
        ),
        !(1 <= row <= 4 && 0 <= col <= 2) ==> quick_view_key_in_cell(row, col) is None,
{
    assert('0' as int == 48 && '1' as int == 49 && '2' as int == 50 && '3' as int == 51);
    assert('4' as int == 52 && '5' as int == 53 && '6' as int == 54 && '7' as int == 55);
    assert('8' as int == 56 && '9' as int == 57 && 'S' as int == 83 && 'C' as int == 67);
}

/// Map a touch point to a quick-view keypad key: the screen is cut into three
/// columns of a third of its width (points right of the last one count to it)
/// and five rows of a fifth of its height, the top row showing the time.
pub fn quick_view_key_at(x: u16, y: u16) -> (key: Option<QuickViewKey>)
    ensures
        key == quick_view_key_in_cell(
            y as int / (H as int / 5),
            if x as int / (W as int / 3) <= 2 {
                x as int / (W as int / 3)
            } else {
                2
            },
        ),
{
    let cell_w = W / 3;
    let cell_h = H / 5;
    let row = y / cell_h;
    let col = (x / cell_w).min(2);
    match (row, col) {
        (1, 0) => Some(QuickViewKey::Digit(7)),
        (1, 1) => Some(QuickViewKey::Digit(8)),
        (1, 2) => Some(QuickViewKey::Digit(9)),
        (2, 0) => Some(QuickViewKey::Digit(4)),
        (2, 1) => Some(QuickViewKey::Digit(5)),
        (2, 2) => Some(QuickViewKey::Digit(6)),
        (3, 0) => Some(QuickViewKey::Digit(1)),
        (3, 1) => Some(QuickViewKey::Digit(2)),
        (3, 2) => Some(QuickViewKey::Digit(3)),
        (4, 0) => Some(QuickViewKey::Digit(0)),
        (4, 1) => Some(QuickViewKey::SetKey),
        (4, 2) => Some(QuickViewKey::Clear),
        _ => None,
    }
}

/// A straight line between two screen points.
#[derive(Debug, Clone, Copy, PartialEq, Eq)]
pub struct LineSegment {
    pub x0: i32,
    pub y0: i32,
    pub x1: i32,
    pub y1: i32,
}

/// Which of the seven segments (top, upper left, upper right, middle, lower
/// left, lower right, bottom) light up for a one-character label; `S` looks
/// like `5`, and any other label lights none.
pub open spec fn segments_of_char(c: char) -> Seq<bool> {
    if c == '0' {
        seq![true, true, true, false, true, true, true]
    } else if c == '1' {
        seq![false, false, true, false, false, true, false]
    } else if c == '2' {
        seq![true, false, true, true, true, false, true]
    } else if c == '3' {
        seq![true, false, true, true, false, true, true]
    } else if c == '4' {
        seq![false, true, true, true, false, true, false]
    } else if c == '5' || c == 'S' {
        seq![true, true, false, true, false, true, true]
    } else if c == '6' {
        seq![true, true, false, true, true, true, true]
    } else if c == '7' {
        seq![true, false, true, false, false, true, false]
    } else if c == '8' {
        seq![true, true, true, true, true, true, true]
    } else if c == '9' {
        seq![true, true, true, true, false, true, true]
    } else if c == 'C' {
        seq![true, true, false, false, true, false, true]
    } else {
        seq![false, false, false, false, false, false, false]
    }
}

pub open spec fn spec_large_key_segments(label: Seq<char>) -> Seq<bool> {
    if label.len() == 1 {
        segments_of_char(label[0])
    } else {
        seq![false, false, false, false, false, false, false]
    }
}

/// The segments (0 top, 1 upper left, 2 upper right, 3 middle, 4 lower left,
/// 5 lower right, 6 bottom) a one-character label lights.
pub open spec fn lit_segments(c: char) -> Set<int> {
    Set::new(|i: int| 0 <= i < 7 && spec_large_key_segments(seq![c])[i])
}

/// Each digit lights its standard seven-segment figure, and `S` lights the
/// figure of `5`.
pub proof fn lemma_digit_figures()
    ensures
        lit_segments('0') == set![0int, 1, 2, 4, 5, 6],
        lit_segments('1') == set![2int, 5],
        lit_segments('2') == set![0int, 2, 3, 4, 6],
        lit_segments('3') == set![0int, 2, 3, 5, 6],
        lit_segments('4') == set![1int, 2, 3, 5],
        lit_segments('5') == set![0int, 1, 3, 5, 6],
        lit_segments('6') == set![0int, 1, 3, 4, 5, 6],
        lit_segments('7') == set![0int, 2, 5],
        lit_segments('8') == set![0int, 1, 2, 3, 4, 5, 6],
        lit_segments('9') == set![0int, 1, 2, 3, 5, 6],
        lit_segments('S') == lit_segments('5'),
        lit_segments('C') == set![0int, 1, 4, 6],
{
    assert(lit_segments('C') =~= set![0int, 1, 4, 6]);
    assert(lit_segments('0') =~= set![0int, 1, 2, 4, 5, 6]);
    assert(lit_segments('1') =~= set![2int, 5]);
    assert(lit_segments('2') =~= set![0int, 2, 3, 4, 6]);
    assert(lit_segments('3') =~= set![0int, 2, 3, 5, 6]);
    assert(lit_segments('4') =~= set![1int, 2, 3, 5]);
    assert(lit_segments('5') =~= set![0int, 1, 3, 5, 6]);
    assert(lit_segments('6') =~= set![0int, 1, 3, 4, 5, 6]);
    assert(lit_segments('7') =~= set![0int, 2, 5]);
    assert(lit_segments('8') =~= set![0int, 1, 2, 3, 4, 5, 6]);
    assert(lit_segments('9') =~= set![0int, 1, 2, 3, 5, 6]);
    assert(lit_segments('S') =~= lit_segments('5'));
}

/// A label that is not one character among `0` ..= `9`, `S` and `C` lights
/// no segment.
pub proof fn lemma_other_labels_dark(label: Seq<char>)
    requires
        !(label.len() == 1 && ((48 <= label[0] as int <= 57) || label[0] == 'S' || label[0]
            == 'C')),
    ensures
        forall|i: int| 0 <= i < 7 ==> !spec_large_key_segments(label)[i],
{
    assert('0' as int == 48 && '1' as int == 49 && '2' as int == 50 && '3' as int == 51);
    assert('4' as int == 52 && '5' as int == 53 && '6' as int == 54 && '7' as int == 55);
    assert('8' as int == 56 && '9' as int == 57);
}

/// Distinct digits light distinct segments, so every digit can be read off
/// its figure.
pub proof fn lemma_digit_figures_distinct(a: char, b: char)
    requires
        48 <= a as int <= 57,
        48 <= b as int <= 57,
        a != b,
    ensures
        spec_large_key_segments(seq![a]) != spec_large_key_segments(seq![b]),
{
    let sa = spec_large_key_segments(seq![a]);
    let sb = spec_large_key_segments(seq![b]);
    assert('0' as int == 48 && '1' as int == 49 && '2' as int == 50 && '3' as int == 51);
    assert('4' as int == 52 && '5' as int == 53 && '6' as int == 54 && '7' as int == 55);
    assert('8' as int == 56 && '9' as int == 57);
    if sa == sb {
        assert(sa[0] == sb[0] && sa[1] == sb[1] && sa[2] == sb[2] && sa[3] == sb[3]);
        assert(sa[4] == sb[4] && sa[5] == sb[5] && sa[6] == sb[6]);
    }
}

/// The lit segments of a large seven-segment key label.
pub fn large_key_segments(label: &str) -> (segments: [bool; 7])
    ensures
        segments@ == spec_large_key_segments(label@),
{
    let segments = if label.unicode_len() == 1 {
        let c = label.get_char(0);
        if c == '0' {
            [true, true, true, false, true, true, true]
        } else if c == '1' {
            [false, false, true, false, false, true, false]
        } else if c == '2' {
            [true, false, true, true, true, false, true]
        } else if c == '3' {
            [true, false, true, true, false, true, true]
        } else if c == '4' {
            [false, true, true, true, false, true, false]
        } else if c == '5' || c == 'S' {
            [true, true, false, true, false, true, true]
        } else if c == '6' {
            [true, true, false, true, true, true, true]
        } else if c == '7' {
            [true, false, true, false, false, true, false]
        } else if c == '8' {
            [true, true, true, true, true, true, true]
        } else if c == '9' {
            [true, true, true, true, false, true, true]
        } else if c == 'C' {
            [true, true, false, false, true, false, true]
        } else {
            [false; 7]
        }
    } else {
        [false; 7]
    };
    assert(segments@ =~= spec_large_key_segments(label@));
    segments
}

/// Segment `k` of a seven-segment figure 34 wide and 58 high centred on
/// `(cx, cy)`.
pub open spec fn segment_line(k: int, cx: int, cy: int) -> LineSegment {
    let x0 = (cx - 17) as i32;
    let x1 = (cx + 17) as i32;
    let y0 = (cy - 29) as i32;
    let ym = cy as i32;
    let y1 = (cy + 29) as i32;
    if k == 0 {
        LineSegment { x0, y0, x1, y1: y0 }
    } else if k == 1 {
        LineSegment { x0, y0, x1: x0, y1: ym }
    } else if k == 2 {
        LineSegment { x0: x1, y0, x1, y1: ym }
    } else if k == 3 {
        LineSegment { x0, y0: ym, x1, y1: ym }
    } else if k == 4 {
        LineSegment { x0, y0: ym, x1: x0, y1 }
    } else if k == 5 {
        LineSegment { x0: x1, y0: ym, x1, y1 }
    } else {
        LineSegment { x0, y0: y1, x1, y1 }
    }
}

/// The lines of the lit segments among the first `n`, in segment order.
pub open spec fn lit_segment_lines(segments: Seq<bool>, cx: int, cy: int, n: int) -> Seq<LineSegment>
    decreases n,
{
    if n <= 0 {
        seq![]
    } else if segments[n - 1] {
        lit_segment_lines(segments, cx, cy, n - 1).push(segment_line(n - 1, cx, cy))
    } else {
        lit_segment_lines(segments, cx, cy, n - 1)
    }
}

pub open spec fn spec_large_key_label_lines(label: Seq<char>, cx: int, cy: int) -> Seq<LineSegment> {
    lit_segment_lines(spec_large_key_segments(label), cx, cy, 7)
}

/// The lines to stroke for a large seven-segment key label centred on `(cx, cy)`.
pub fn large_key_label_lines(label: &str, cx: i32, cy: i32) -> (lines: Vec<LineSegment>)
    requires
        i32::MIN + 17 <= cx <= i32::MAX - 17,
        i32::MIN + 29 <= cy <= i32::MAX - 29,
    ensures
        lines@ == spec_large_key_label_lines(label@, cx as int, cy as int),
{
    let x0 = cx - 17;
    let x1 = cx + 17;
    let y0 = cy - 29;
    let ym = cy;
    let y1 = cy + 29;
    let segments = large_key_segments(label);
    let all = [
        LineSegment { x0, y0, x1, y1: y0 },
        LineSegment { x0, y0, x1: x0, y1: ym },
        LineSegment { x0: x1, y0, x1, y1: ym },
        LineSegment { x0, y0: ym, x1, y1: ym },
        LineSegment { x0, y0: ym, x1: x0, y1 },
        LineSegment { x0: x1, y0: ym, x1, y1 },
        LineSegment { x0, y0: y1, x1, y1 },
    ];
    let mut lines: Vec<LineSegment> = Vec::new();
    let mut k: usize = 0;
    while k < 7
        invariant
            k <= 7,
            segments@ == spec_large_key_segments(label@),
            forall|j: int| 0 <= j < 7 ==> all@[j] == segment_line(j, cx as int, cy as int),
            lines@ == lit_segment_lines(segments@, cx as int, cy as int, k as int),
        decreases 7 - k,
    {
        if segments[k] {
            lines.push(all[k]);
        }
        k += 1;
    }
    lines
}

/// The label of a keypad digit; nothing for a value above 9.
pub fn digit_label(digit: u8) -> (label: &'static str)
    ensures
        digit <= 9 ==> label@ == seq![(48 + digit) as char],
        digit > 9 ==> label@ == Seq::<char>::empty(),
{
    proof {
        reveal_strlit("0");
        reveal_strlit("1");
        reveal_strlit("2");
        reveal_strlit("3");
        reveal_strlit("4");
        reveal_strlit("5");
        reveal_strlit("6");
        reveal_strlit("7");
        reveal_strlit("8");
        reveal_strlit("9");
        reveal_strlit("");
    }
    match digit {
        0 => "0",
        1 => "1",
        2 => "2",
        3 => "3",
        4 => "4",
        5 => "5",
        6 => "6",
        7 => "7",
        8 => "8",
        9 => "9",
        _ => "",
    }
}

pub open spec fn spec_digit_label(digit: u8) -> Seq<char> {
    if digit <= 9 {
        seq![(48 + digit) as char]
    } else {
        Seq::<char>::empty()
    }
}

/// Horizontal position of the `idx`-th digit of the time display (HH:MM)
/// centred on `cx`.
pub open spec fn time_digit_x(cx: int, idx: int) -> int {
    if idx == 0 {
        cx - 102
    } else if idx == 1 {
        cx - 52
    } else if idx == 2 {
        cx + 52
    } else {
        cx + 102
    }
}

/// The digit figures of the first `n` time display positions.
pub open spec fn time_digit_lines(digits: Seq<Option<u8>>, cx: int, cy: int, n: int) -> Seq<LineSegment>
    decreases n,
{
    if n <= 0 {
        seq![]
    } else {
        time_digit_lines(digits, cx, cy, n - 1) + match digits[n - 1] {
            Some(d) => spec_large_key_label_lines(spec_digit_label(d), time_digit_x(cx, n - 1), cy),
            None => seq![],
        }
    }
}

/// The four digit places of the time display run left to right, hours left
/// and minutes right of the colon at `cx`, placed symmetrically and at least
/// 52 pixels clear of it.
pub proof fn lemma_time_digit_places(cx: int)
    ensures
        time_digit_x(cx, 0) < time_digit_x(cx, 1) < cx < time_digit_x(cx, 2) < time_digit_x(cx, 3),
        time_digit_x(cx, 0) + time_digit_x(cx, 3) == 2 * cx,
        time_digit_x(cx, 1) + time_digit_x(cx, 2) == 2 * cx,
        cx - time_digit_x(cx, 1) >= 52,
{
}

/// The figure drawn for an entered digit is labelled with that digit: the key
/// its label stands for is the digit key that was typed.
pub proof fn lemma_digit_label_is_typed_key(d: u8)
    requires
        d <= 9,
    ensures
        spec_digit_label(d).len() == 1,
        key_of_label(spec_digit_label(d)[0]) == Some(QuickViewKey::Digit(d)),
{
}

/// The two dots of the colon between hours and minutes.
pub open spec fn colon_lines(cx: int, cy: int) -> Seq<LineSegment> {
    seq![
        LineSegment { x0: cx as i32, y0: (cy - 18) as i32, x1: cx as i32, y1: (cy - 12) as i32 },
        LineSegment { x0: cx as i32, y0: (cy + 12) as i32, x1: cx as i32, y1: (cy + 18) as i32 },
    ]
}

/// The coordinates of the time display centred on `(cx, cy)` stay within
/// 32-bit range: the digit positions and the colon always, and the figure of
/// each entered digit.
pub open spec fn time_indicator_fits(digits: Seq<Option<u8>>, cx: int, cy: int) -> bool {
    &&& i32::MIN + 102 <= cx <= i32::MAX - 102
    &&& i32::MIN + 18 <= cy <= i32::MAX - 18
    &&& forall|j: int|
        0 <= j < 4 && (#[trigger] digits[j]) is Some ==> {
            &&& i32::MIN + 17 <= time_digit_x(cx, j) <= i32::MAX - 17
            &&& i32::MIN + 29 <= cy <= i32::MAX - 29
        }
}

/// The lines of the HH:MM time display centred on `(cx, cy)`: the entered
/// digits as seven-segment figures, then the colon.
pub fn time_indicator_lines(digits: &[Option<u8>; 4], cx: i32, cy: i32) -> (lines: Vec<LineSegment>)
    requires
        time_indicator_fits(digits@, cx as int, cy as int),
    ensures
        lines@ == time_digit_lines(digits@, cx as int, cy as int, 4) + colon_lines(
            cx as int,
            cy as int,
        ),
{
    let positions = [cx - 102, cx - 52, cx + 52, cx + 102];
    let mut lines: Vec<LineSegment> = Vec::new();
    let mut idx: usize = 0;
    while idx < 4
        invariant
            idx <= 4,
            time_indicator_fits(digits@, cx as int, cy as int),
            forall|j: int| 0 <= j < 4 ==> positions@[j] == time_digit_x(cx as int, j),
            lines@ == time_digit_lines(digits@, cx as int, cy as int, idx as int),
        decreases 4 - idx,
    {
        if let Some(digit) = digits[idx] {
            assert(positions@[idx as int] == time_digit_x(cx as int, idx as int));
            assert(digits@[idx as int] is Some);
            let label = digit_label(digit);
            let mut figure = large_key_label_lines(label, positions[idx], cy);
            lines.append(&mut figure);
        }
        idx += 1;
    }
    lines.push(LineSegment { x0: cx, y0: cy - 18, x1: cx, y1: cy - 12 });
    lines.push(LineSegment { x0: cx, y0: cy + 12, x1: cx, y1: cy + 18 });
    assert(lines@ =~= time_digit_lines(digits@, cx as int, cy as int, 4) + colon_lines(
        cx as int,
        cy as int,
    ));
    lines
}

/// Width of a keypad column.
pub open spec fn keypad_cell_width() -> int {
    W as int / 3
}

/// Height of a keypad row.
pub open spec fn keypad_cell_height() -> int {
    H as int / 5
}

/// The keypad grid: two column separators below the time row, then four row
/// separators across the screen.
pub open spec fn spec_quick_view_grid_lines() -> Seq<LineSegment> {
    seq![
        LineSegment { x0: keypad_cell_width() as i32, y0: keypad_cell_height() as i32, x1: keypad_cell_width() as i32, y1: (H - 1) as i32 },
        LineSegment { x0: (2 * keypad_cell_width()) as i32, y0: keypad_cell_height() as i32, x1: (2 * keypad_cell_width()) as i32, y1: (H - 1) as i32 },
        LineSegment { x0: 0, y0: keypad_cell_height() as i32, x1: (W - 1) as i32, y1: keypad_cell_height() as i32 },
        LineSegment { x0: 0, y0: (2 * keypad_cell_height()) as i32, x1: (W - 1) as i32, y1: (2 * keypad_cell_height()) as i32 },
        LineSegment { x0: 0, y0: (3 * keypad_cell_height()) as i32, x1: (W - 1) as i32, y1: (3 * keypad_cell_height()) as i32 },
        LineSegment { x0: 0, y0: (4 * keypad_cell_height()) as i32, x1: (W - 1) as i32, y1: (4 * keypad_cell_height()) as i32 },
    ]
}

/// The grid lines of the quick-view keypad.
pub fn quick_view_grid_lines() -> (lines: Vec<LineSegment>)
    ensures
        lines@ == spec_quick_view_grid_lines(),
{
    let cell_w = W as i32 / 3;
    let cell_h = H as i32 / 5;
    let mut lines: Vec<LineSegment> = Vec::new();
    lines.push(LineSegment { x0: cell_w, y0: cell_h, x1: cell_w, y1: H as i32 - 1 });
    lines.push(LineSegment { x0: cell_w * 2, y0: cell_h, x1: cell_w * 2, y1: H as i32 - 1 });
    lines.push(LineSegment { x0: 0, y0: cell_h, x1: W as i32 - 1, y1: cell_h });
    lines.push(LineSegment { x0: 0, y0: cell_h * 2, x1: W as i32 - 1, y1: cell_h * 2 });
    lines.push(LineSegment { x0: 0, y0: cell_h * 3, x1: W as i32 - 1, y1: cell_h * 3 });
    lines.push(LineSegment { x0: 0, y0: cell_h * 4, x1: W as i32 - 1, y1: cell_h * 4 });
    assert(lines@ =~= spec_quick_view_grid_lines());
    lines
}

/// Keypad labels in reading order: 7 8 9 / 4 5 6 / 1 2 3 / 0 S C.
pub open spec fn keypad_label_chars() -> Seq<char> {
    seq!['7', '8', '9', '4', '5', '6', '1', '2', '3', '0', 'S', 'C']
}

/// The figures of the first `n` keypad labels, each centred in its cell.
pub open spec fn keypad_label_lines(n: int) -> Seq<LineSegment>
    decreases n,
{
    if n <= 0 {
        seq![]
    } else {
        let k = n - 1;
        keypad_label_lines(k) + spec_large_key_label_lines(
            seq![keypad_label_chars()[k]],
            keypad_cell_width() * (k % 3) + keypad_cell_width() / 2,
            keypad_cell_height() * (k / 3 + 1) + keypad_cell_height() / 2,
        )
    }
}

/// The lines of the quick-view keypad labels, row by row.
pub fn quick_view_label_lines() -> (lines: Vec<LineSegment>)
    ensures
        lines@ == keypad_label_lines(12),
{
    let cell_w = W as i32 / 3;
    let cell_h = H as i32 / 5;
    let labels = [["7", "8", "9"], ["4", "5", "6"], ["1", "2", "3"], ["0", "S", "C"]];
    proof {
        reveal_strlit("0");
        reveal_strlit("1");
        reveal_strlit("2");
        reveal_strlit("3");
        reveal_strlit("4");
        reveal_strlit("5");
        reveal_strlit("6");
        reveal_strlit("7");
        reveal_strlit("8");
        reveal_strlit("9");
        reveal_strlit("S");
        reveal_strlit("C");
    }
    let mut lines: Vec<LineSegment> = Vec::new();
    let mut row_idx: usize = 0;
    while row_idx < 4
        invariant
            row_idx <= 4,
            cell_w == keypad_cell_width(),
            cell_h == keypad_cell_height(),
            forall|r: int, c: int|
                0 <= r < 4 && 0 <= c < 3 ==> (#[trigger] labels@[r]@[c])@ == seq![
                    keypad_label_chars()[3 * r + c],
                ],
            lines@ == keypad_label_lines(3 * row_idx as int),
        decreases 4 - row_idx,
    {
        let y = cell_h * (row_idx as i32 + 1) + cell_h / 2;
        let mut col_idx: usize = 0;
        while col_idx < 3
            invariant
                row_idx < 4,
                col_idx <= 3,
                cell_w == keypad_cell_width(),
                cell_h == keypad_cell_height(),
                y == keypad_cell_height() * (row_idx + 1) + keypad_cell_height() / 2,
                forall|r: int, c: int|
                    0 <= r < 4 && 0 <= c < 3 ==> (#[trigger] labels@[r]@[c])@ == seq![
                        keypad_label_chars()[3 * r + c],
                    ],
                lines@ == keypad_label_lines(3 * row_idx + col_idx),
            decreases 3 - col_idx,
        {
            assert(keypad_cell_height() == 100 && keypad_cell_width() == 136);
            assert(y == 100 * (row_idx + 1) + 50);
            let x = cell_w * col_idx as i32 + cell_w / 2;
            let label = labels[row_idx][col_idx];
            let mut figure = large_key_label_lines(label, x, y);
            proof {
                let k = 3 * row_idx + col_idx;
                assert(k % 3 == col_idx as int && k / 3 == row_idx as int);
            }
            lines.append(&mut figure);
            col_idx += 1;
        }
        row_idx += 1;
    }
    lines
}

pub const ASCII_ZERO: u8 = 48;

pub const ASCII_SPACE: u8 = 32;

pub const ASCII_PLUS: u8 = 43;

pub const ASCII_MINUS: u8 = 45;

pub const ASCII_DOT: u8 = 46;

pub const ASCII_COLON: u8 = 58;

pub const ASCII_UPPER_C: u8 = 67;

pub const ASCII_UPPER_V: u8 = 86;

pub const ASCII_LOWER_M: u8 = 109;

/// Magnitude of a reading.
pub open spec fn magnitude(v: i16) -> int {
    if v < 0 {
        -(v as int)
    } else {
        v as int
    }
}

/// The ASCII digit for `d` (0 ..= 9); larger values give the byte `'0' + d`
/// wrapped to a byte.
pub open spec fn ascii_digit(d: int) -> u8 {
    (48 + d) as u8
}

/// The hundreds place of a three-digit reading as the formatting code gets
/// it: the quotient by 100 cut down to a byte.
pub open spec fn hundreds(v: int) -> int {
    (v / 100) % 256
}

/// The hundreds digit of the reading can be written as a byte `'0' + d`
/// without overflowing.
pub open spec fn hundreds_fits(v: i16) -> bool {
    hundreds(magnitude(v)) <= 207
}

fn unsigned_magnitude(v: i16) -> (m: u16)
    ensures
        m == magnitude(v),
{
    if v < 0 {
        (0i32 - v as i32) as u16
    } else {
        v as u16
    }
}

fn hundreds_digit(v: u16) -> (d: u8)
    requires
        hundreds(v as int) <= 207,
    ensures
        d == ascii_digit(hundreds(v as int)),
{
    let q = v / 100;
    assert(q as u8 == q % 256) by (bit_vector);
    ASCII_ZERO + q as u8
}

/// The eight characters `L: ±d.dd` of an axis reading in hundredths.
pub open spec fn axis_text(label: u8, val: i16) -> Seq<u8> {
    let v = magnitude(val);
    seq![
        label,
        ASCII_COLON,
        ASCII_SPACE,
        if val < 0 { ASCII_MINUS } else { ASCII_PLUS },
        ascii_digit(hundreds(v)),
        ASCII_DOT,
        ascii_digit((v / 10) % 10),
        ascii_digit(v % 10),
    ]
}

/// Write an axis reading (hundredths) as `L: ±d.dd` into the first eight
/// bytes of `buf`; the rest of `buf` is left as it was.
pub fn fmt_axis(buf: &mut [u8; 16], label: u8, val: i16)
    requires
        hundreds_fits(val),
    ensures
        final(buf)@.take(8) == axis_text(label, val),
        final(buf)@.skip(8) == old(buf)@.skip(8),
{
    buf[0] = label;
    buf[1] = ASCII_COLON;
    buf[2] = ASCII_SPACE;
    if val < 0 {
        buf[3] = ASCII_MINUS;
    } else {
        buf[3] = ASCII_PLUS;
    }
    let v = unsigned_magnitude(val);
    buf[4] = hundreds_digit(v);
    buf[5] = ASCII_DOT;
    buf[6] = ASCII_ZERO + ((v / 10) % 10) as u8;
    buf[7] = ASCII_ZERO + (v % 10) as u8;
    assert(buf@.take(8) =~= axis_text(label, val));
    assert(buf@.skip(8) =~= old(buf)@.skip(8));
}

/// The eight bytes an axis reading was written to, as text: empty where
/// they are not UTF-8 (readings of 80.00 and more in magnitude).
pub fn axis_str<'a>(buf: &'a [u8; 16]) -> (text: &'a str)
    ensures
        valid_utf8(buf@.take(8)) ==> text.spec_bytes() == buf@.take(8),
        !valid_utf8(buf@.take(8)) ==> text@ == ""@,
{
    let bytes = &buf[0..8];
    assert(bytes@ == buf@.take(8));
    text_or(bytes, "")
}

/// With an ASCII label, an axis reading's text is valid UTF-8 exactly when
/// its units digit is an ASCII digit.
pub proof fn lemma_axis_text_utf8(label: u8, val: i16)
    requires
        label < 128,
        hundreds_fits(val),
    ensures
        valid_utf8(axis_text(label, val)) <==> hundreds(magnitude(val)) < 80,
{
    let t = axis_text(label, val);
    if hundreds(magnitude(val)) < 80 {
        assert(all_ascii(t));
        lemma_ascii_valid_utf8(t);
    } else {
        let rest = t.subrange(4, 8);
        lemma_stray_high_byte(rest);
        let ascii_head = t.subrange(0, 4);
        assert(all_ascii(ascii_head));
        lemma_ascii_prefix_utf8(ascii_head, rest);
        assert(t =~= ascii_head + rest);
    }
}

/// The text `[-]dd.dC` of a temperature in tenths of a degree.
pub open spec fn temp_text(temp_c10: i16) -> Seq<u8> {
    let v = magnitude(temp_c10);
    let sign: Seq<u8> = if temp_c10 < 0 { seq![ASCII_MINUS] } else { seq![] };
    sign + seq![
        ascii_digit(hundreds(v)),
        ascii_digit((v / 10) % 10),
        ASCII_DOT,
        ascii_digit(v % 10),
        ASCII_UPPER_C,
    ]
}

/// A temperature's text is plain ASCII exactly when the place before the
/// units digit holds an ASCII byte: from 800.0 degrees in magnitude up it
/// holds one of 128 or more.
pub open spec fn temp_is_ascii(temp_c10: i16) -> bool {
    hundreds(magnitude(temp_c10)) < 80
}

fn write_temp(buf: &mut [u8; 10], temp_c10: i16) -> (len: usize)
    requires
        hundreds_fits(temp_c10),
    ensures
        len == temp_text(temp_c10).len(),
        final(buf)@.take(len as int) == temp_text(temp_c10),
        final(buf)@.skip(len as int) == old(buf)@.skip(len as int),
{
    let mut p: usize = 0;
    if temp_c10 < 0 {
        buf[p] = ASCII_MINUS;
        p += 1;
    }
    let v = unsigned_magnitude(temp_c10);
    buf[p] = hundreds_digit(v);
    p += 1;
    buf[p] = ASCII_ZERO + ((v / 10) % 10) as u8;
    p += 1;
    buf[p] = ASCII_DOT;
    p += 1;
    buf[p] = ASCII_ZERO + (v % 10) as u8;
    p += 1;
    buf[p] = ASCII_UPPER_C;
    p += 1;
    assert(buf@.take(p as int) =~= temp_text(temp_c10));
    assert(buf@.skip(p as int) =~= old(buf)@.skip(p as int));
    p
}

/// Write a temperature (tenths of a degree) as `[-]dd.dC` at the start of
/// `buf` and give that text back; where the bytes are not UTF-8 (readings of
/// 800.0 degrees and more in magnitude) the text is `??C`.
pub fn fmt_temp<'a>(buf: &'a mut [u8; 10], temp_c10: i16) -> (text: &'a str)
    requires
        hundreds_fits(temp_c10),
    ensures
        temp_is_ascii(temp_c10) ==> text.spec_bytes() == temp_text(temp_c10),
        !temp_is_ascii(temp_c10) ==> text@ == "??C"@,
        final(buf)@.take(temp_text(temp_c10).len() as int) == temp_text(temp_c10),
        final(buf)@.skip(temp_text(temp_c10).len() as int) == old(buf)@.skip(
            temp_text(temp_c10).len() as int,
        ),
{
    let len = write_temp(buf, temp_c10);
    let written: &'a [u8; 10] = buf;
    let bytes = &written[0..len];
    assert(bytes@ == temp_text(temp_c10));
    proof {
        lemma_temp_text_utf8(temp_c10);
    }
    text_or(bytes, "??C")
}

/// The text of a temperature is valid UTF-8 exactly when it is ASCII.
proof fn lemma_temp_text_utf8(temp_c10: i16)
    requires
        hundreds_fits(temp_c10),
    ensures
        valid_utf8(temp_text(temp_c10)) <==> temp_is_ascii(temp_c10),
{
    let t = temp_text(temp_c10);
    let v = magnitude(temp_c10);
    if temp_is_ascii(temp_c10) {
        assert(all_ascii(t));
        lemma_ascii_valid_utf8(t);
    } else if temp_c10 < 0 {
        let rest = t.subrange(1, t.len() as int);
        lemma_stray_high_byte(rest);
        assert(t[0] == ASCII_MINUS);
    } else {
        lemma_stray_high_byte(t);
    }
}

/// The text `[d]dddmV` of a voltage in millivolts: the thousands digit only
/// from 1000 mV up.
pub open spec fn millivolt_text(millivolts: u16) -> Seq<u8> {
    let mv = millivolts as int;
    let thousands: Seq<u8> = if mv >= 1000 { seq![ascii_digit(mv / 1000)] } else { seq![] };
    thousands + seq![
        ascii_digit((mv / 100) % 10),
        ascii_digit((mv / 10) % 10),
        ascii_digit(mv % 10),
        ASCII_LOWER_M,
        ASCII_UPPER_V,
    ]
}

fn write_mv(buf: &mut [u8; 12], mv: u16) -> (len: usize)
    ensures
        len == millivolt_text(mv).len(),
        final(buf)@.take(len as int) == millivolt_text(mv),
        final(buf)@.skip(len as int) == old(buf)@.skip(len as int),
{
    let mut p: usize = 0;
    if mv >= 1000 {
        buf[p] = ASCII_ZERO + (mv / 1000) as u8;
        p += 1;
    }
    buf[p] = ASCII_ZERO + ((mv / 100) % 10) as u8;
    p += 1;
    buf[p] = ASCII_ZERO + ((mv / 10) % 10) as u8;
    p += 1;
    buf[p] = ASCII_ZERO + (mv % 10) as u8;
    p += 1;
    buf[p] = ASCII_LOWER_M;
    p += 1;
    buf[p] = ASCII_UPPER_V;
    p += 1;
    assert(buf@.take(p as int) =~= millivolt_text(mv));
    assert(buf@.skip(p as int) =~= old(buf)@.skip(p as int));
    p
}

/// Write a voltage in millivolts as `[d]dddmV` at the start of `buf` and
/// give that text back (`????mV` were the bytes not UTF-8, which no `u16`
/// reading gives).
pub fn fmt_mv<'a>(buf: &'a mut [u8; 12], mv: u16) -> (text: &'a str)
    ensures
        text.spec_bytes() == millivolt_text(mv),
        final(buf)@.take(millivolt_text(mv).len() as int) == millivolt_text(mv),
        final(buf)@.skip(millivolt_text(mv).len() as int) == old(buf)@.skip(
            millivolt_text(mv).len() as int,
        ),
{
    let len = write_mv(buf, mv);
    let written: &'a [u8; 12] = buf;
    let bytes = &written[0..len];
    assert(bytes@ == millivolt_text(mv));
    proof {
        assert(all_ascii(millivolt_text(mv)));
        lemma_ascii_valid_utf8(millivolt_text(mv));
    }
    text_or(bytes, "????mV")
}

/// The number a string of ASCII decimal digits spells.
pub open spec fn decimal_value(digits: Seq<u8>) -> int
    decreases digits.len(),
{
    if digits.len() == 0 {
        0
    } else {
        decimal_value(digits.drop_last()) * 10 + (digits.last() - 48)
    }
}

/// Every byte an ASCII decimal digit.
pub open spec fn all_decimal(digits: Seq<u8>) -> bool {
    forall|i: int| 0 <= i < digits.len() ==> 48 <= #[trigger] digits[i] <= 57
}

proof fn lemma_three_digits(a: u8, b: u8, c: u8)
    ensures
        decimal_value(seq![a, b, c]) == (a - 48) * 100 + (b - 48) * 10 + (c - 48),
{
    assert(seq![a].drop_last() =~= Seq::<u8>::empty());
    assert(decimal_value(Seq::<u8>::empty()) == 0);
    assert(decimal_value(seq![a]) == a - 48);
    assert(seq![a, b].drop_last() =~= seq![a]);
    assert(decimal_value(seq![a, b]) == (a - 48) * 10 + (b - 48));
    assert(seq![a, b, c].drop_last() =~= seq![a, b]);
    assert(decimal_value(seq![a, b, c]) == decimal_value(seq![a, b]) * 10 + (c - 48));
}

/// A voltage up to 9999 mV reads back from its text: its digits (three, or
/// four from 1000 mV up) spell the value, followed by `mV`.
pub proof fn lemma_millivolt_text_reads_back(mv: u16)
    requires
        mv <= 9999,
    ensures
        ({
            let t = millivolt_text(mv);
            let n = t.len() - 2;
            &&& t.len() == if mv >= 1000 {
                6int
            } else {
                5int
            }
            &&& t.subrange(n, t.len() as int) == seq![109u8, 86u8]
            &&& all_decimal(t.subrange(0, n))
            &&& decimal_value(t.subrange(0, n)) == mv
        }),
{
    let t = millivolt_text(mv);
    let n = t.len() - 2;
    let m = mv as int;
    assert(t.subrange(n, t.len() as int) =~= seq![109u8, 86u8]);
    let d = t.subrange(0, n);
    let a = ascii_digit((m / 100) % 10);
    let b = ascii_digit((m / 10) % 10);
    let c = ascii_digit(m % 10);
    assert(a == 48 + (m / 100) % 10 && b == 48 + (m / 10) % 10 && c == 48 + m % 10);
    lemma_three_digits(a, b, c);
    if m >= 1000 {
        let th = ascii_digit(m / 1000);
        assert(th == 48 + m / 1000);
        assert(d =~= seq![th, a, b, c]);
        lemma_three_digits(th, a, b);
        assert(d.drop_last() =~= seq![th, a, b]);
        assert(decimal_value(d) == decimal_value(seq![th, a, b]) * 10 + (c - 48));
        assert(m == (m / 1000) * 1000 + ((m / 100) % 10) * 100 + ((m / 10) % 10) * 10 + m % 10);
    } else {
        assert(d =~= seq![a, b, c]);
        assert(m == ((m / 100) % 10) * 100 + ((m / 10) % 10) * 10 + m % 10);
    }
}

/// A temperature below 100.0 degrees in magnitude reads back from its text:
/// a minus sign exactly for a negative reading, three digits spelling the
/// magnitude in tenths with the point before the last one, then `C`.
pub proof fn lemma_temp_text_reads_back(temp_c10: i16)
    requires
        -1000 < temp_c10 < 1000,
    ensures
        ({
            let t = temp_text(temp_c10);
            let o: int = if temp_c10 < 0 {
                1
            } else {
                0
            };
            &&& t.len() == o + 5
            &&& temp_c10 < 0 ==> t[0] == 45
            &&& t[o + 2] == 46 && t[o + 4] == 67
            &&& all_decimal(seq![t[o], t[o + 1], t[o + 3]])
            &&& decimal_value(seq![t[o], t[o + 1], t[o + 3]]) == magnitude(temp_c10)
        }),
{
    let v = magnitude(temp_c10);
    let a = ascii_digit(hundreds(v));
    let b = ascii_digit((v / 10) % 10);
    let c = ascii_digit(v % 10);
    assert(hundreds(v) == v / 100);
    assert(a == 48 + v / 100 && b == 48 + (v / 10) % 10 && c == 48 + v % 10);
    lemma_three_digits(a, b, c);
}

/// An axis reading below 10.00 in magnitude reads back from its text: the
/// label, `: `, the sign, then three digits spelling the magnitude in
/// hundredths with the point after the first.
pub proof fn lemma_axis_text_reads_back(label: u8, val: i16)
    requires
        -1000 < val < 1000,
    ensures
        ({
            let t = axis_text(label, val);
            &&& t.len() == 8
            &&& t[0] == label && t[1] == 58 && t[2] == 32 && t[5] == 46
            &&& t[3] == (if val < 0 {
                45u8
            } else {
                43u8
            })
            &&& all_decimal(seq![t[4], t[6], t[7]])
            &&& decimal_value(seq![t[4], t[6], t[7]]) == magnitude(val)
        }),
{
    let v = magnitude(val);
    let a = ascii_digit(hundreds(v));
    let b = ascii_digit((v / 10) % 10);
    let c = ascii_digit(v % 10);
    assert(hundreds(v) == v / 100);
    assert(a == 48 + v / 100 && b == 48 + (v / 10) % 10 && c == 48 + v % 10);
    lemma_three_digits(a, b, c);
}

} // verus!
