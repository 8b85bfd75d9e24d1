//! Plain-value conversion for externally supplied audio.
//!
//! Decoded 16-bit PCM arrives as interleaved frames; the core consumes one
//! mono channel in fixed point. These functions are the computational part
//! of loading a wave file — the file I/O itself lives outside the library.

use vstd::prelude::*;

use crate::fixed::{all_valid, div_trunc, valid_sample, UNIT};

verus! {

/// A 16-bit PCM value scaled into fixed point: `v * UNIT / 32768`,
/// truncating toward zero, so the full PCM range maps into `[-UNIT, UNIT]`.
pub open spec fn i16_to_sample(v: i16) -> int {
    div_trunc(v * UNIT, 32768)
}

pub fn sample_from_i16(v: i16) -> (s: i64)
    ensures
        s == i16_to_sample(v),
        valid_sample(s),
{
    proof {
        assert(UNIT == 10000);
        assert(-327680000 <= (v as int) * UNIT <= 327680000) by (nonlinear_arith)
            requires
                -32768 <= v as int <= 32767,
                UNIT == 10000,
        ;
    }
    let w: i64 = (v as i64) * UNIT;
    if w >= 0 {
        proof {
            vstd::arithmetic::div_mod::lemma_div_is_ordered(w as int, 327680000, 32768);
            vstd::arithmetic::div_mod::lemma_div_pos_is_pos(w as int, 32768);
        }
        w / 32768
    } else {
        proof {
            vstd::arithmetic::div_mod::lemma_div_is_ordered(-(w as int), 327680000, 32768);
            vstd::arithmetic::div_mod::lemma_div_pos_is_pos(-(w as int), 32768);
        }
        -((-w) / 32768)
    }
}

/// Extract one channel of interleaved 16-bit frames as fixed-point samples:
/// frame `f` of the result is the `channel`-th value of the `f`-th frame.
/// A trailing partial frame is ignored.
pub fn deinterleave_channel(raw: &Vec<i16>, num_channels: usize, channel: usize) -> (out: Vec<
    i64,
>)
    requires
        1 <= num_channels <= 65536,
        channel < num_channels,
        raw@.len() <= 0x4000_0000,
    ensures
        out@.len() == raw@.len() as int / num_channels as int,
        forall|f: int|
            0 <= f < out@.len() ==> out@[f] == i16_to_sample(
                raw@[f * (num_channels as int) + (channel as int)],
            ),
        all_valid(out@),
{
    let frames: usize = raw.len() / num_channels;
    proof {
        vstd::arithmetic::div_mod::lemma_fundamental_div_mod(
            raw@.len() as int,
            num_channels as int,
        );
        vstd::arithmetic::div_mod::lemma_mod_division_less_than_divisor(
            raw@.len() as int,
            num_channels as int,
        );
    }
    let mut out: Vec<i64> = Vec::new();
    let mut f: usize = 0;
    let mut idx: usize = channel;
    while f < frames
        invariant
            1 <= num_channels <= 65536,
            channel < num_channels,
            raw@.len() <= 0x4000_0000,
            frames == raw@.len() as int / num_channels as int,
            (num_channels as int) * (frames as int) <= raw@.len(),
            f <= frames,
            idx == f * (num_channels as int) + (channel as int),
            out@.len() == f,
            forall|g: int|
                0 <= g < f ==> out@[g] == i16_to_sample(
                    raw@[g * (num_channels as int) + (channel as int)],
                ),
            all_valid(out@),
        decreases frames - f,
    {
        proof {
            assert((f as int) * (num_channels as int) + (num_channels as int) <= (frames as int)
                * (num_channels as int)) by (nonlinear_arith)
                requires
                    (f as int) < (frames as int),
            ;
            assert((frames as int) * (num_channels as int) == (num_channels as int) * (
            frames as int)) by (nonlinear_arith);
            assert((f as int + 1) * (num_channels as int) == (f as int) * (num_channels as int)
                + (num_channels as int)) by (nonlinear_arith);
        }
        let s: i64 = sample_from_i16(raw[idx]);
        out.push(s);
        idx = idx + num_channels;
        f = f + 1;
    }
    out
}

} // verus!
