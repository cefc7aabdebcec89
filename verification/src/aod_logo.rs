//! The always-on display logo: a 64 x 43 image stored run-length encoded as
//! 3-byte runs (big-endian 5-6-5 colour, run length), colour 0 meaning
//! transparent. Decoding turns it into horizontal one-pixel-high runs that
//! each stay within one image row.
use embedded_graphics::pixelcolor::Rgb565;
use vstd::prelude::*;

use crate::color::rgb565_from_raw;
use crate::color::rgb565_of;

verus! {

pub const WIDTH: i32 = 64;

pub const HEIGHT: i32 = 43;

/// `len` pixels of one colour starting at `(x, y)` of the image and going right.
#[derive(Debug, Clone, Copy, PartialEq, Eq)]
pub struct PixelRun {
    pub x: i32,
    pub y: i32,
    pub len: i32,
    pub color: Rgb565,
}

pub open spec fn run_count(rle: Seq<u8>) -> int {
    rle.len() as int / 3
}

pub open spec fn run_raw(rle: Seq<u8>, i: int) -> int {
    rle[3 * i] * 256 + rle[3 * i + 1]
}

pub open spec fn run_len(rle: Seq<u8>, i: int) -> int {
    rle[3 * i + 2] as int
}

/// Pixel index (row-major) at which run `i` starts.
pub open spec fn run_start(rle: Seq<u8>, i: int) -> int
    decreases i,
{
    if i <= 0 {
        0
    } else {
        run_start(rle, i - 1) + run_len(rle, i - 1)
    }
}

pub open spec fn raw_color(raw: int) -> Rgb565 {
    rgb565_of((raw / 2048) as u8, (raw / 32 % 64) as u8, (raw % 32) as u8)
}

/// Pixels `start .. start + len` (row-major) of one colour, cut where a row
/// ends.
pub open spec fn row_pieces(start: int, len: int, color: Rgb565) -> Seq<PixelRun>
    decreases len,
{
    if len <= 0 || start < 0 {
        seq![]
    } else {
        let x = start % WIDTH as int;
        let d = if len < WIDTH - x {
            len
        } else {
            WIDTH - x
        };
        seq![PixelRun { x: x as i32, y: (start / WIDTH as int) as i32, len: d as i32, color }]
            + row_pieces(start + d, len - d, color)
    }
}

/// The pixel runs of the first `n` encoded runs, transparent ones skipped.
pub open spec fn decoded_runs(rle: Seq<u8>, n: int) -> Seq<PixelRun>
    decreases n,
{
    if n <= 0 {
        seq![]
    } else if run_raw(rle, n - 1) == 0 {
        decoded_runs(rle, n - 1)
    } else {
        decoded_runs(rle, n - 1) + row_pieces(
            run_start(rle, n - 1),
            run_len(rle, n - 1),
            raw_color(run_raw(rle, n - 1)),
        )
    }
}

proof fn lemma_run_start_grows(rle: Seq<u8>, a: int, b: int)
    requires
        0 <= a <= b <= run_count(rle),
        rle.len() >= 3 * run_count(rle),
    ensures
        0 <= run_start(rle, a) <= run_start(rle, b),
    decreases b - a,
{
    if a < b {
        lemma_run_start_grows(rle, a, b - 1);
    }
    lemma_run_start_nonneg(rle, a);
}

proof fn lemma_run_start_nonneg(rle: Seq<u8>, a: int)
    ensures
        run_start(rle, a) >= 0,
    decreases a,
{
    if a > 0 {
        lemma_run_start_nonneg(rle, a - 1);
    }
}

/// A run `p` lies on one image row, inside the image, with at least one
/// pixel.
pub open spec fn run_in_image(p: PixelRun) -> bool {
    &&& 0 <= p.x && 0 < p.len && p.x + p.len <= WIDTH
    &&& 0 <= p.y < HEIGHT
}

proof fn lemma_row_pieces_in_image(start: int, len: int, color: Rgb565)
    requires
        0 <= start,
        start + len <= WIDTH * HEIGHT,
    ensures
        forall|i: int|
            0 <= i < row_pieces(start, len, color).len() ==> #[trigger] run_in_image(
                row_pieces(start, len, color)[i],
            ),
    decreases len,
{
    if len > 0 {
        let x = start % WIDTH as int;
        let d = if len < WIDTH - x {
            len
        } else {
            WIDTH - x
        };
        assert(0 <= x < WIDTH);
        assert((start / (WIDTH as int)) * WIDTH + x == start);
        assert((start / (WIDTH as int)) < HEIGHT);
        lemma_row_pieces_in_image(start + d, len - d, color);
        let rest = row_pieces(start + d, len - d, color);
        let first = PixelRun { x: x as i32, y: (start / WIDTH as int) as i32, len: d as i32, color };
        assert(row_pieces(start, len, color) == seq![first] + rest);
        assert(run_in_image(first));
    }
}

/// Every decoded run of an image whose encoded runs cover it exactly lies on
/// one row inside the image and has at least one pixel.
pub proof fn lemma_decoded_runs_in_image(rle: Seq<u8>, n: int)
    requires
        0 <= n <= run_count(rle),
        run_start(rle, run_count(rle)) == WIDTH * HEIGHT,
    ensures
        forall|i: int|
            0 <= i < decoded_runs(rle, n).len() ==> #[trigger] run_in_image(decoded_runs(rle, n)[i]),
    decreases n,
{
    if n > 0 {
        lemma_decoded_runs_in_image(rle, n - 1);
        lemma_run_start_grows(rle, n, run_count(rle));
        lemma_run_start_nonneg(rle, n - 1);
        if run_raw(rle, n - 1) != 0 {
            let c = raw_color(run_raw(rle, n - 1));
            lemma_row_pieces_in_image(run_start(rle, n - 1), run_len(rle, n - 1), c);
            let a = decoded_runs(rle, n - 1);
            let b = row_pieces(run_start(rle, n - 1), run_len(rle, n - 1), c);
            assert(decoded_runs(rle, n) == a + b);
            assert forall|i: int| 0 <= i < (a + b).len() implies #[trigger] run_in_image(
                (a + b)[i],
            ) by {
                if i >= a.len() {
                    assert((a + b)[i] == b[i - a.len()]);
                    assert(run_in_image(b[i - a.len()]));
                } else {
                    assert(run_in_image(a[i]));
                }
            }
        } else {
            assert(decoded_runs(rle, n) == decoded_runs(rle, n - 1));
        }
    }
}

/// Decode the logo into pixel runs, row by row within each encoded run. The
/// encoded runs must cover exactly the whole image.
pub fn logo_pixel_runs(rle: &[u8]) -> (runs: Vec<PixelRun>)
    requires
        run_start(rle@, run_count(rle@)) == WIDTH * HEIGHT,
    ensures
        runs@ == decoded_runs(rle@, run_count(rle@)),
{
    let mut runs: Vec<PixelRun> = Vec::new();
    let mut pixel_index: i32 = 0;
    let n = rle.len() / 3;
    let mut i: usize = 0;
    while i < n
        invariant
            n == run_count(rle@),
            n == rle@.len() / 3,
            i <= n,
            run_start(rle@, n as int) == WIDTH * HEIGHT,
            pixel_index == run_start(rle@, i as int),
            runs@ == decoded_runs(rle@, i as int),
        decreases n - i,
    {
        proof {
            vstd::arithmetic::div_mod::lemma_fundamental_div_mod(rle@.len() as int, 3);
            assert(3 * i + 2 < rle@.len()) by (nonlinear_arith)
                requires
                    i < n,
                    n == rle@.len() / 3,
                    rle@.len() == 3 * (rle@.len() / 3) + rle@.len() % 3,
                    rle@.len() % 3 >= 0,
            ;
            lemma_run_start_grows(rle@, i as int + 1, n as int);
            lemma_run_start_nonneg(rle@, i as int);
        }
        assert(3 * i + 2 < rle.len());
        let raw = rle[3 * i] as u16 * 256 + rle[3 * i + 1] as u16;
        let mut len = rle[3 * i + 2] as i32;
        if raw == 0 {
            pixel_index += len;
        } else {
            let color = rgb565_from_raw(raw);
            let ghost start = pixel_index as int;
            let ghost total = len as int;
            let ghost before = runs@;
            while len > 0
                invariant
                    0 <= len,
                    0 <= pixel_index,
                    pixel_index + len == start + total,
                    start + total <= WIDTH * HEIGHT,
                    color == raw_color(raw as int),
                    runs@ + row_pieces(pixel_index as int, len as int, color) == before
                        + row_pieces(start, total, color),
                decreases len,
            {
                let x = pixel_index % WIDTH;
                let y = pixel_index / WIDTH;
                let draw_len = if len < WIDTH - x {
                    len
                } else {
                    WIDTH - x
                };
                let ghost rest = row_pieces(pixel_index + draw_len, len - draw_len, color);
                let piece = PixelRun { x, y, len: draw_len, color };
                assert(row_pieces(pixel_index as int, len as int, color) == seq![piece] + rest);
                runs.push(piece);
                pixel_index += draw_len;
                len -= draw_len;
                assert(runs@ + rest =~= before + row_pieces(start, total, color)) by {
                    assert(runs@ =~= runs@.drop_last().push(piece));
                    assert(runs@.drop_last() + (seq![piece] + rest) =~= runs@ + rest);
                }
            }
            assert(runs@ =~= before + row_pieces(start, total, color));
        }
        i += 1;
    }
    runs
}

} // verus!
