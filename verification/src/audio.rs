//! Sample buffers for the speaker: a recorded clip made louder, and a
//! synthesised chirp used as the loud alert, both as 16-bit stereo frames
//! (left and right equal, little-endian) ready for the I2S transmitter.
use vstd::prelude::*;

use crate::calendar::tdiv;

verus! {

pub const AUDIO_DMA_BUFFER_BYTES: usize = 4000;

pub const AUDIO_SAMPLE_GAIN: i32 = 256;

pub const AUDIO_LOUD_START_FREQ_HZ: u32 = 2_600;

pub const AUDIO_LOUD_END_FREQ_HZ: u32 = 3_200;

pub const AUDIO_LOUD_TONE_MS: u32 = 160;

pub const AUDIO_LOUD_ATTACK_MS: u32 = 10;

pub const AUDIO_LOUD_RELEASE_MS: u32 = 15;

pub const AUDIO_Q15_SCALE: i32 = 32_767;

pub const AUDIO_LOUD_PEAK_Q15: i32 = 29_000;

/// One period of a sine wave in 32 steps, scaled to Q15.
pub const AUDIO_SINE_TABLE_Q15: [i16; 32] = [
    0,
    6393,
    12540,
    18204,
    23170,
    27246,
    30273,
    32138,
    32767,
    32138,
    30273,
    27246,
    23170,
    18204,
    12540,
    6393,
    0,
    -6393,
    -12540,
    -18204,
    -23170,
    -27246,
    -30273,
    -32138,
    -32767,
    -32138,
    -30273,
    -27246,
    -23170,
    -18204,
    -12540,
    -6393,
];

// ---------------------------------------------------------------------------
// Sample encoding
// ---------------------------------------------------------------------------
/// A 16-bit sample as the unsigned value of its two's-complement bits.
pub open spec fn sample_bits(s: i16) -> int {
    if s < 0 {
        s + 65536
    } else {
        s as int
    }
}

/// Byte `j` (0 ..= 3) of a stereo frame holding the same sample on both
/// channels, each little-endian.
pub open spec fn frame_byte(s: i16, j: int) -> u8 {
    if j % 2 == 0 {
        (sample_bits(s) % 256) as u8
    } else {
        (sample_bits(s) / 256) as u8
    }
}

/// The little-endian bytes of a sample.
fn sample_le_bytes(s: i16) -> (bytes: (u8, u8))
    ensures
        bytes.0 == sample_bits(s) % 256,
        bytes.1 == sample_bits(s) / 256,
{
    let u = s as u16;
    assert(u as int == sample_bits(s)) by {
        assert(s < 0 ==> s as u16 == (s as int + 65536) as u16) by (bit_vector);
        assert(s >= 0 ==> s as u16 == s as int) by (bit_vector);
    }
    let lo = (u & 0xff) as u8;
    let hi = (u >> 8) as u8;
    assert((u & 0xff) == u % 256 && (u >> 8) == u / 256) by (bit_vector);
    (lo, hi)
}

/// Write one stereo frame at byte `dst`.
fn write_frame(buf: &mut [u8], dst: usize, s: i16)
    requires
        dst + 3 < old(buf)@.len(),
    ensures
        final(buf)@.len() == old(buf)@.len(),
        forall|i: int|
            0 <= i < old(buf)@.len() ==> #[trigger] final(buf)@[i] == if dst <= i < dst + 4 {
                frame_byte(s, i - dst)
            } else {
                old(buf)@[i]
            },
{
    let (lo, hi) = sample_le_bytes(s);
    buf[dst] = lo;
    buf[dst + 1] = hi;
    buf[dst + 2] = lo;
    buf[dst + 3] = hi;
}

pub open spec fn clamp_i16(x: int) -> i16 {
    if x < i16::MIN {
        i16::MIN
    } else if x > i16::MAX {
        i16::MAX
    } else {
        x as i16
    }
}

/// `x` clamped to the range of a 16-bit sample.
fn saturate_i16(x: i64) -> (s: i16)
    ensures
        s == clamp_i16(x as int),
{
    if x < i16::MIN as i64 {
        i16::MIN
    } else if x > i16::MAX as i64 {
        i16::MAX
    } else {
        x as i16
    }
}

// ---------------------------------------------------------------------------
// Recorded clip
// ---------------------------------------------------------------------------
/// A clip sample made louder by the gain and kept within 16 bits.
pub open spec fn loud_clip_sample(mono: i16) -> i16 {
    clamp_i16(mono * AUDIO_SAMPLE_GAIN)
}

/// Number of clip frames written: the clip, cut to the whole frames that fit
/// the buffer.
pub open spec fn clip_frames(samples: int) -> int {
    let room = AUDIO_DMA_BUFFER_BYTES / 4;
    if samples < room {
        samples
    } else {
        room as int
    }
}

/// Fill the start of `buf` with the clip, one stereo frame per sample, as far
/// as whole frames fit; the bytes after the last frame are left as they were.
pub fn load_audio_clip_i2s(samples: &[i16], buf: &mut [u8; AUDIO_DMA_BUFFER_BYTES])
    ensures
        forall|i: int|
            0 <= i < AUDIO_DMA_BUFFER_BYTES ==> #[trigger] final(buf)@[i] == if i / 4
                < clip_frames(samples@.len() as int) {
                frame_byte(loud_clip_sample(samples@[i / 4]), i % 4)
            } else {
                old(buf)@[i]
            },
{
    let ghost n = clip_frames(samples@.len() as int);
    assert(n <= 1000);
    let mut frame: usize = 0;
    while frame < samples.len()
        invariant
            frame <= n,
            n == clip_frames(samples@.len() as int),
            forall|i: int|
                0 <= i < AUDIO_DMA_BUFFER_BYTES ==> #[trigger] buf@[i] == if i / 4 < frame {
                    frame_byte(loud_clip_sample(samples@[i / 4]), i % 4)
                } else {
                    old(buf)@[i]
                },
        ensures
            frame == n,
            forall|i: int|
                0 <= i < AUDIO_DMA_BUFFER_BYTES ==> #[trigger] buf@[i] == if i / 4 < frame {
                    frame_byte(loud_clip_sample(samples@[i / 4]), i % 4)
                } else {
                    old(buf)@[i]
                },
        decreases samples.len() - frame,
    {
        let mono = samples[frame];
        let dst = frame * 4;
        if dst + 3 >= buf.len() {
            break ;
        }
        let sample = saturate_i16((mono as i64) * AUDIO_SAMPLE_GAIN as i64);
        assert(sample == loud_clip_sample(mono));
        let ghost before = buf@;
        write_frame(buf, dst, sample);
        assert forall|i: int| 0 <= i < AUDIO_DMA_BUFFER_BYTES implies #[trigger] buf@[i] == if i
            / 4 < frame + 1 {
            frame_byte(loud_clip_sample(samples@[i / 4]), i % 4)
        } else {
            old(buf)@[i]
        } by {
            if dst <= i < dst + 4 {
                assert(i / 4 == frame && i % 4 == i - dst);
            } else {
                assert(i / 4 != frame);
            }
        }
        frame += 1;
    }
}

// ---------------------------------------------------------------------------
// Sine lookup
// ---------------------------------------------------------------------------
/// Sine of a 32-bit phase (a full turn is 2^32) in Q15, by linear
/// interpolation between the 32 table steps: the top 5 bits pick the step, the
/// next 16 bits the fraction of the way to the following step.
pub open spec fn sine_value(phase: int) -> int {
    let idx = phase / 0x800_0000;
    let next = (idx + 1) % 32;
    let frac = (phase / 2048) % 65536;
    let a = AUDIO_SINE_TABLE_Q15@[idx] as int;
    let b = AUDIO_SINE_TABLE_Q15@[next] as int;
    a + ((b - a) * frac) / 65536
}

pub fn sine_q15(phase: u32) -> (s: i32)
    ensures
        s == sine_value(phase as int),
        -32767 <= s <= 32767,
{
    let idx = (phase >> 27) as usize;
    assert(phase >> 27 < 32) by (bit_vector);
    let idx1 = idx + 1;
    let next_idx = idx1 & (AUDIO_SINE_TABLE_Q15.len() - 1);
    let frac = ((phase >> 11) & 0xffff) as i64;
    assert(phase >> 27 == phase / 0x800_0000 && (phase >> 11) & 0xffff == (phase / 2048) % 65536)
        by (bit_vector);
    assert(next_idx == idx1 % 32) by (bit_vector)
        requires
            idx1 <= 32,
            next_idx == idx1 & 31,
    ;
    let a = AUDIO_SINE_TABLE_Q15[idx] as i64;
    let b = AUDIO_SINE_TABLE_Q15[next_idx] as i64;
    assert(-6393 <= b - a <= 6393);
    assert(0 <= frac < 65536);
    assert(-6393 * 65536 <= (b - a) * frac <= 6393 * 65536) by (nonlinear_arith)
        requires
            -6393 <= b - a <= 6393,
            0 <= frac < 65536,
    ;
    let prod = (b - a) * frac;
    assert(prod >> 16 == prod / 65536) by (bit_vector);
    assert(a == AUDIO_SINE_TABLE_Q15@[idx as int] && b == AUDIO_SINE_TABLE_Q15@[next_idx as int]);
    assert(-32767 <= a <= 32767 && -32767 <= b <= 32767);
    assert(b - a >= 0 ==> 0 <= prod / 65536 <= b - a) by (nonlinear_arith)
        requires
            prod == (b - a) * frac,
            0 <= frac < 65536,
    ;
    assert(b - a < 0 ==> b - a <= prod / 65536 <= 0) by (nonlinear_arith)
        requires
            prod == (b - a) * frac,
            0 <= frac < 65536,
    ;
    (a + (prod >> 16)) as i32
}

// ---------------------------------------------------------------------------
// Loud alert chirp
// ---------------------------------------------------------------------------
pub open spec fn spec_tone_frames(rate: int) -> int {
    rate * AUDIO_LOUD_TONE_MS / 1000
}

pub open spec fn spec_attack_frames(rate: int) -> int {
    rate * AUDIO_LOUD_ATTACK_MS / 1000
}

pub open spec fn spec_release_frames(rate: int) -> int {
    rate * AUDIO_LOUD_RELEASE_MS / 1000
}

/// Frames over which the chirp sweeps its frequency range (at least one).
pub open spec fn spec_chirp_denominator(rate: int) -> int {
    if spec_tone_frames(rate) >= 2 {
        spec_tone_frames(rate) - 1
    } else {
        1
    }
}

/// Frequency of frame `f`: a linear sweep from the start to the end frequency
/// over the tone.
pub open spec fn chirp_freq(rate: int, f: int) -> int {
    AUDIO_LOUD_START_FREQ_HZ + ((AUDIO_LOUD_END_FREQ_HZ - AUDIO_LOUD_START_FREQ_HZ) * f)
        / spec_chirp_denominator(rate)
}

/// Phase advance per frame at frame `f`, a full turn being 2^32.
pub open spec fn spec_phase_step(rate: int, f: int) -> int {
    (chirp_freq(rate, f) * 0x1_0000_0000 / rate) % 0x1_0000_0000
}

/// Phase at frame `f`: the steps of the frames before it, wrapping at 2^32.
pub open spec fn chirp_phase(rate: int, f: int) -> int
    decreases f,
{
    if f <= 0 {
        0
    } else {
        (chirp_phase(rate, f - 1) + spec_phase_step(rate, f - 1)) % 0x1_0000_0000
    }
}

/// Loudness of frame `f` in Q15: ramping up over the attack, down over the
/// release at the end of the tone, full in between.
pub open spec fn spec_envelope_q15(rate: int, f: int) -> int {
    let a = spec_attack_frames(rate);
    let r = spec_release_frames(rate);
    let t = spec_tone_frames(rate);
    if a > 0 && f < a {
        f * AUDIO_Q15_SCALE / a
    } else if r > 0 && f + r >= t {
        let e = (t - f) * AUDIO_Q15_SCALE / r;
        if e < AUDIO_Q15_SCALE {
            e
        } else {
            AUDIO_Q15_SCALE as int
        }
    } else {
        AUDIO_Q15_SCALE as int
    }
}

/// Sample of frame `f`: the enveloped chirp at the peak level during the tone,
/// silence after it.
pub open spec fn loud_sample(rate: int, f: int) -> i16 {
    if f < spec_tone_frames(rate) {
        clamp_i16(
            tdiv(
                sine_value(chirp_phase(rate, f)) * AUDIO_LOUD_PEAK_Q15 * spec_envelope_q15(rate, f),
                AUDIO_Q15_SCALE * AUDIO_Q15_SCALE,
            ),
        )
    } else {
        0
    }
}

/// Fill `buf` with the loud alert pattern at `sample_rate_hz`: a rising chirp
/// for the tone's length, then silence, one stereo frame per whole four bytes
/// (a trailing partial frame is left as it was).
pub fn load_loud_alert_i2s(sample_rate_hz: u32, buf: &mut [u8])
    requires
        sample_rate_hz <= u32::MAX / AUDIO_LOUD_TONE_MS,
    ensures
        final(buf)@.len() == old(buf)@.len(),
        forall|i: int|
            0 <= i < old(buf)@.len() ==> #[trigger] final(buf)@[i] == if i / 4 < old(buf)@.len()
                / 4 {
                frame_byte(loud_sample(sample_rate_hz as int, i / 4), i % 4)
            } else {
                old(buf)@[i]
            },
{
    let ghost rate = sample_rate_hz as int;
    let tone_frames = (sample_rate_hz * AUDIO_LOUD_TONE_MS / 1_000) as usize;
    let attack_frames = (sample_rate_hz * AUDIO_LOUD_ATTACK_MS / 1_000) as usize;
    let release_frames = (sample_rate_hz * AUDIO_LOUD_RELEASE_MS / 1_000) as usize;
    let chirp_denominator = tone_frames.saturating_sub(1).max(1) as u64;
    let chirp_span_hz = AUDIO_LOUD_END_FREQ_HZ - AUDIO_LOUD_START_FREQ_HZ;
    let mut phase = 0u32;
    assert(tone_frames == spec_tone_frames(rate) && attack_frames == spec_attack_frames(rate)
        && release_frames == spec_release_frames(rate) && chirp_denominator == spec_chirp_denominator(rate));
    assert(spec_tone_frames(rate) <= rate && spec_attack_frames(rate) <= spec_tone_frames(rate));
    let frames = buf.len() / 4;
    let mut frame: usize = 0;
    while frame < frames
        invariant
            rate == sample_rate_hz,
            sample_rate_hz <= u32::MAX / AUDIO_LOUD_TONE_MS,
            tone_frames == spec_tone_frames(rate),
            attack_frames == spec_attack_frames(rate),
            release_frames == spec_release_frames(rate),
            chirp_denominator == spec_chirp_denominator(rate),
            chirp_span_hz == AUDIO_LOUD_END_FREQ_HZ - AUDIO_LOUD_START_FREQ_HZ,
            tone_frames <= sample_rate_hz,
            frames == old(buf)@.len() / 4,
            buf@.len() == old(buf)@.len(),
            frame <= frames,
            frame <= tone_frames ==> phase == chirp_phase(rate, frame as int),
            forall|i: int|
                0 <= i < old(buf)@.len() ==> #[trigger] buf@[i] == if i / 4 < frame {
                    frame_byte(loud_sample(rate, i / 4), i % 4)
                } else {
                    old(buf)@[i]
                },
        decreases frames - frame,
    {
        let sample = if frame < tone_frames {
            assert(600 * frame <= 600 * 0x1_0000_0000) by (nonlinear_arith)
                requires
                    frame <= 0x1_0000_0000,
            ;
            let span_offset = (chirp_span_hz as u64 * frame as u64) / chirp_denominator;
            assert(span_offset <= 600) by (nonlinear_arith)
                requires
                    span_offset == (600 * frame) / (chirp_denominator as int),
                    frame < tone_frames,
                    chirp_denominator == spec_chirp_denominator(rate),
                    tone_frames == spec_tone_frames(rate),
            {
                assert(frame <= chirp_denominator);
                assert(600 * frame <= 600 * chirp_denominator);
            }
            let freq_hz = AUDIO_LOUD_START_FREQ_HZ + span_offset as u32;
            assert(freq_hz == chirp_freq(rate, frame as int));
            let shifted = (freq_hz as u64) << 32;
            assert(shifted == freq_hz as u64 * 0x1_0000_0000) by (bit_vector)
                requires
                    shifted == (freq_hz as u64) << 32,
            ;
            assert(sample_rate_hz > 0);
            let wide_step = shifted / sample_rate_hz as u64;
            let phase_step = #[verifier::truncate] (wide_step as u32);
            assert(phase_step == wide_step % 0x1_0000_0000) by (bit_vector)
                requires
                    phase_step == wide_step as u32,
            ;
            assert(phase_step == spec_phase_step(rate, frame as int));
            let envelope_q15 = if attack_frames > 0 && frame < attack_frames {
                let e = (frame as i64 * AUDIO_Q15_SCALE as i64) / attack_frames as i64;
                assert(0 <= e < 32767) by (nonlinear_arith)
                    requires
                        e == (frame * 32767) / (attack_frames as int),
                        0 <= frame < attack_frames,
                ;
                e
            } else if release_frames > 0 && frame + release_frames >= tone_frames {
                let remaining_frames = tone_frames - frame;
                let e = (remaining_frames as i64 * AUDIO_Q15_SCALE as i64) / release_frames as i64;
                assert(0 <= e) by (nonlinear_arith)
                    requires
                        e == (remaining_frames * 32767) / (release_frames as int),
                        release_frames > 0,
                ;
                e.min(AUDIO_Q15_SCALE as i64)
            } else {
                AUDIO_Q15_SCALE as i64
            };
            assert(envelope_q15 == spec_envelope_q15(rate, frame as int));
            assert(0 <= envelope_q15 <= 32767);
            let sine = sine_q15(phase) as i64;
            phase = phase.wrapping_add(phase_step);
            assert(-32767 * 29000 * 32767 <= sine * AUDIO_LOUD_PEAK_Q15 as i64 * envelope_q15
                <= 32767 * 29000 * 32767) by (nonlinear_arith)
                requires
                    -32767 <= sine <= 32767,
                    0 <= envelope_q15 <= 32767,
            ;
            let level = sine * AUDIO_LOUD_PEAK_Q15 as i64 * envelope_q15;
            let scaled = level / (AUDIO_Q15_SCALE as i64 * AUDIO_Q15_SCALE as i64);
            assert(scaled == tdiv(level as int, 32767int * 32767));
            saturate_i16(scaled)
        } else {
            0
        };
        assert(sample == loud_sample(rate, frame as int));
        assert(frame * 4 + 3 < buf@.len()) by (nonlinear_arith)
            requires
                frame < frames,
                frames == buf@.len() / 4,
        ;
        assert(buf@.len() == buf.len());
        let dst = frame * 4;
        write_frame(buf, dst, sample);
        assert forall|i: int| 0 <= i < old(buf)@.len() implies #[trigger] buf@[i] == if i / 4
            < frame + 1 {
            frame_byte(loud_sample(rate, i / 4), i % 4)
        } else {
            old(buf)@[i]
        } by {
            if dst <= i < dst + 4 {
                assert(i / 4 == frame && i % 4 == i - dst);
            } else {
                assert(i / 4 != frame);
            }
        }
        frame += 1;
    }
}

} // verus!
