//! Stateless format conversion between the capture and the render PCM
//! formats: channel up/down-mix first, then linear-interpolation resampling.
//!
//! All sample data is 32-bit float PCM carried as `u32` bit patterns; the
//! only arithmetic on sample values goes through `crate::samples`.

use vstd::prelude::*;

use crate::format::AudioFormat;
use crate::samples::lerp;
use crate::samples::mix_stereo;
use crate::samples::spec_lerp;
use crate::samples::spec_mix_stereo;

verus! {

/// The channel-converted stream: for each whole input frame, either the
/// stereo-to-mono average, the first `out_ch` channels (down-mix by
/// truncation), or the input channels followed by copies of channel 0
/// (up-mix).  A trailing partial frame of the input is dropped.
pub open spec fn spec_convert_channels(input: Seq<u32>, in_ch: int, out_ch: int) -> Seq<u32> {
    let frames = input.len() as int / in_ch;
    Seq::new(
        (frames * out_ch) as nat,
        |k: int|
            {
                let f = k / out_ch;
                let ch = k % out_ch;
                if in_ch == 2 && out_ch == 1 {
                    spec_mix_stereo(input[f * 2], input[f * 2 + 1])
                } else if ch < in_ch {
                    input[f * in_ch + ch]
                } else {
                    input[f * in_ch]
                }
            },
    )
}

/// Convert the channel count of interleaved frames, writing into `output`.
///
/// Down-mix keeps the first `out_ch` channels, except stereo to mono which
/// averages the pair; up-mix copies the input channels and fills the rest
/// with channel 0.
pub fn convert_channels(input: &[u32], in_ch: usize, out_ch: usize, output: &mut Vec<u32>)
    requires
        0 < in_ch,
        0 < out_ch,
        (input@.len() as int / in_ch as int) * out_ch as int <= usize::MAX,
    ensures
        final(output)@ == spec_convert_channels(input@, in_ch as int, out_ch as int),
{
    let ghost target = spec_convert_channels(input@, in_ch as int, out_ch as int);
    let frames = input.len() / in_ch;
    assert(target.len() == frames * out_ch);
    output.clear();

    let mut f: usize = 0;
    while f < frames
        invariant
            0 < in_ch,
            0 < out_ch,
            f <= frames,
            frames == input@.len() as int / in_ch as int,
            frames * out_ch <= usize::MAX,
            target == spec_convert_channels(input@, in_ch as int, out_ch as int),
            target.len() == frames * out_ch,
            output@ == target.take(f * out_ch as int),
        decreases frames - f,
    {
        proof {
            vstd::arithmetic::div_mod::lemma_fundamental_div_mod(
                input@.len() as int,
                in_ch as int,
            );
            vstd::arithmetic::div_mod::lemma_mod_bound(input@.len() as int, in_ch as int);
            assert(f * in_ch + in_ch <= in_ch * frames && f * out_ch + out_ch <= frames
                * out_ch) by (nonlinear_arith)
                requires
                    0 <= f < frames,
                    0 < in_ch,
                    0 < out_ch,
            ;
        }
        let base = f * in_ch;
        let mut ch: usize = 0;
        while ch < out_ch
            invariant
                0 < in_ch,
                0 < out_ch,
                0 <= f < frames,
                ch <= out_ch,
                base == f * in_ch,
                base + in_ch <= input@.len(),
                f * out_ch + out_ch <= frames * out_ch,
                frames * out_ch <= usize::MAX,
                target == spec_convert_channels(input@, in_ch as int, out_ch as int),
                target.len() == frames * out_ch,
                output@ == target.take(f * out_ch + ch),
            decreases out_ch - ch,
        {
            let v = if in_ch == 2 && out_ch == 1 {
                mix_stereo(input[base], input[base + 1])
            } else if ch < in_ch {
                input[base + ch]
            } else {
                input[base]
            };
            proof {
                let k = f * out_ch + ch;
                vstd::arithmetic::div_mod::lemma_fundamental_div_mod_converse(
                    k,
                    out_ch as int,
                    f as int,
                    ch as int,
                );
                assert(target[k] == v);
                assert(target.take(k + 1) =~= target.take(k).push(target[k]));
            }
            output.push(v);
            ch = ch + 1;
        }
        proof {
            assert((f + 1) * out_ch == f * out_ch + out_ch) by (nonlinear_arith);
        }
        f = f + 1;
    }
    assert(output@ =~= target);
}

/// The number of output frames of the resampler: the ceiling of
/// `in_frames * out_rate / in_rate`.
pub open spec fn spec_out_frames(in_frames: int, in_rate: int, out_rate: int) -> int {
    (in_frames * out_rate + in_rate - 1) / in_rate
}

/// One sample of the resampled stream.  Output frame `f` reads from source
/// position `f * in_rate / out_rate`: the whole part picks the source frame
/// pair (clamped to the last frame) and the remainder `num / out_rate` is
/// the interpolation weight.  A weight of zero, or a clamped pair that has
/// collapsed to one frame, copies the source sample unchanged.
pub open spec fn spec_resample_at(
    input: Seq<u32>,
    in_rate: int,
    out_rate: int,
    channels: int,
    k: int,
) -> u32 {
    let in_frames = input.len() as int / channels;
    let f = k / channels;
    let ch = k % channels;
    let pos = f * in_rate;
    let src = pos / out_rate;
    let num = pos % out_rate;
    let idx0 = if src < in_frames - 1 {
        src
    } else {
        in_frames - 1
    };
    let idx1 = if src + 1 < in_frames - 1 {
        src + 1
    } else {
        in_frames - 1
    };
    if idx0 == idx1 || num == 0 {
        input[idx0 * channels + ch]
    } else {
        spec_lerp(
            input[idx0 * channels + ch],
            input[idx1 * channels + ch],
            num as u32,
            out_rate as u32,
        )
    }
}

/// The resampled stream: per-channel linear interpolation from whole input
/// frames.  Empty input (no whole frame) resamples to the empty stream.
pub open spec fn spec_resample(
    input: Seq<u32>,
    in_rate: int,
    out_rate: int,
    channels: int,
) -> Seq<u32> {
    let in_frames = input.len() as int / channels;
    if in_frames == 0 {
        Seq::<u32>::empty()
    } else {
        Seq::new(
            (spec_out_frames(in_frames, in_rate, out_rate) * channels) as nat,
            |k: int| spec_resample_at(input, in_rate, out_rate, channels, k),
        )
    }
}

/// Resample interleaved frames by per-channel linear interpolation, writing
/// into `output`.  The output holds `ceil(in_frames * out_rate / in_rate)`
/// frames; no resampler state is carried across calls.
pub fn resample(input: &[u32], in_rate: u32, out_rate: u32, channels: usize, output: &mut Vec<u32>)
    requires
        0 < in_rate,
        0 < out_rate,
        0 < channels,
        input@.len() as int * out_rate as int + in_rate as int <= u64::MAX,
        spec_out_frames(
            input@.len() as int / channels as int,
            in_rate as int,
            out_rate as int,
        ) * channels as int <= usize::MAX,
    ensures
        final(output)@ == spec_resample(
            input@,
            in_rate as int,
            out_rate as int,
            channels as int,
        ),
{
    let ghost target = spec_resample(input@, in_rate as int, out_rate as int, channels as int);
    let in_frames = input.len() / channels;
    if in_frames == 0 {
        output.clear();
        assert(output@ =~= target);
        return ;
    }
    proof {
        vstd::arithmetic::div_mod::lemma_fundamental_div_mod(
            input@.len() as int,
            channels as int,
        );
        vstd::arithmetic::div_mod::lemma_mod_bound(input@.len() as int, channels as int);
        assert(in_frames * channels <= input@.len() && input@.len() as int * out_rate as int
            >= in_frames * channels * out_rate >= in_frames * out_rate) by (nonlinear_arith)
            requires
                0 < channels,
                0 < out_rate,
                0 < in_frames,
                channels as int * in_frames as int <= input@.len() as int,
        ;
    }
    let ghost numer = in_frames as int * out_rate as int + in_rate as int - 1;
    let out_frames_w = (in_frames as u64 * out_rate as u64 + (in_rate as u64 - 1)) / in_rate
        as u64;
    proof {
        assert(out_frames_w == spec_out_frames(
            in_frames as int,
            in_rate as int,
            out_rate as int,
        ));
        vstd::arithmetic::div_mod::lemma_fundamental_div_mod(numer, in_rate as int);
        vstd::arithmetic::div_mod::lemma_mod_bound(numer, in_rate as int);
        // the ceiling times the rate does not overshoot the numerator
        assert(in_rate as int * (numer / in_rate as int) <= numer);
        assert(out_frames_w as int * channels as int <= usize::MAX && out_frames_w
            <= usize::MAX) by (nonlinear_arith)
            requires
                0 < channels,
                out_frames_w == spec_out_frames(
                    in_frames as int,
                    in_rate as int,
                    out_rate as int,
                ) && spec_out_frames(
                    in_frames as int,
                    in_rate as int,
                    out_rate as int,
                ) * channels as int <= usize::MAX,
        ;
    }
    let out_frames = out_frames_w as usize;
    output.clear();

    let ghost ofr = out_frames as int;
    let mut f: usize = 0;
    while f < out_frames
        invariant
            f <= out_frames,
            target.len() == ofr * channels,
            output@ == target.take(f * channels as int),
        decreases out_frames - f,
    {
        proof {
            // the source position of every output frame lies before the end
            // of the input
            assert((ofr - 1) * in_rate == ofr * in_rate - in_rate && ofr * in_rate <= numer
                + 1) by (nonlinear_arith)
                requires
                    in_rate as int * ofr <= numer,
            ;
            assert(f as int * in_rate as int <= (ofr - 1) * in_rate) by (nonlinear_arith)
                requires
                    0 <= f < ofr,
                    0 < in_rate,
            ;
        }
        let pos = f as u64 * in_rate as u64;
        let src_w = pos / out_rate as u64;
        let num = (pos % out_rate as u64) as u32;
        proof {
            vstd::arithmetic::div_mod::lemma_mod_bound(pos as int, out_rate as int);
            // src stays below in_frames: pos <= in_frames * out_rate - 1
            assert(pos as int <= in_frames as int * out_rate as int - 1);
            assert((in_frames as int - 1) * out_rate as int + (out_rate as int - 1)
                == in_frames as int * out_rate as int - 1) by (nonlinear_arith);
            vstd::arithmetic::div_mod::lemma_fundamental_div_mod_converse(
                in_frames as int * out_rate as int - 1,
                out_rate as int,
                in_frames as int - 1,
                out_rate as int - 1,
            );
            vstd::arithmetic::div_mod::lemma_div_is_ordered(
                pos as int,
                in_frames as int * out_rate as int - 1,
                out_rate as int,
            );
            assert(src_w <= in_frames as int - 1);
        }
        let src = src_w as usize;
        let idx0 = src;
        let idx1 = if src + 1 < in_frames - 1 {
            src + 1
        } else {
            in_frames - 1
        };
        proof {
            assert(idx0 * channels + channels <= in_frames * channels && idx1 * channels
                + channels <= in_frames * channels) by (nonlinear_arith)
                requires
                    0 <= idx0 < in_frames,
                    0 <= idx1 < in_frames,
                    0 < channels,
            ;
        }
        let base0 = idx0 * channels;
        let base1 = idx1 * channels;

        let mut ch: usize = 0;
        while ch < channels
            invariant
                0 <= f < ofr,
                ch <= channels,
                output@ == target.take(f * channels as int + ch),
            decreases channels - ch,
        {
            let s0 = input[base0 + ch];
            let v = if idx0 == idx1 || num == 0 {
                s0
            } else {
                let s1 = input[base1 + ch];
                lerp(s0, s1, num, out_rate)
            };
            proof {
                let k = f * channels as int + ch;
                assert(k + 1 <= ofr * channels) by (nonlinear_arith)
                    requires
                        0 <= f < ofr,
                        0 <= ch < channels,
                        k == f * channels as int + ch,
                ;
                vstd::arithmetic::div_mod::lemma_fundamental_div_mod_converse(
                    k,
                    channels as int,
                    f as int,
                    ch as int,
                );
                assert(target[k] == v);
                assert(target.take(k + 1) =~= target.take(k).push(target[k]));
            }
            output.push(v);
            ch = ch + 1;
        }
        proof {
            assert((f + 1) * channels == f * channels + channels) by (nonlinear_arith);
        }
        f = f + 1;
    }
    assert(output@ =~= target);
}

/// The channel-converted intermediate stream of `spec_convert_audio`:
/// touched only when the channel counts differ.
pub open spec fn spec_convert_mid(input: Seq<u32>, cap: AudioFormat, rnd: AudioFormat) -> Seq<
    u32,
> {
    if cap.channels != rnd.channels {
        spec_convert_channels(input, cap.channels as int, rnd.channels as int)
    } else {
        input
    }
}

/// The fully converted stream: channel conversion first, then resampling,
/// each skipped when the respective halves of the formats agree.
pub open spec fn spec_convert_audio(input: Seq<u32>, cap: AudioFormat, rnd: AudioFormat) -> Seq<
    u32,
> {
    let mid = spec_convert_mid(input, cap, rnd);
    if cap.sample_rate != rnd.sample_rate {
        spec_resample(mid, cap.sample_rate as int, rnd.sample_rate as int, rnd.channels as int)
    } else {
        mid
    }
}

/// The machine limits under which `convert_audio` can run on a block of
/// `len` samples: every intermediate length fits the address space and the
/// resampler's 64-bit position arithmetic cannot overflow.
pub open spec fn spec_convert_fits(len: int, cap: AudioFormat, rnd: AudioFormat) -> bool {
    let mid_len = if cap.channels != rnd.channels {
        (len / cap.channels as int) * rnd.channels as int
    } else {
        len
    };
    &&& (cap.channels != rnd.channels ==> (len / cap.channels as int) * rnd.channels as int
        <= usize::MAX)
    &&& (cap.sample_rate != rnd.sample_rate ==> {
        &&& mid_len * rnd.sample_rate as int + cap.sample_rate as int <= u64::MAX
        &&& spec_out_frames(
            mid_len / rnd.channels as int,
            cap.sample_rate as int,
            rnd.sample_rate as int,
        ) * rnd.channels as int <= usize::MAX
    })
}

/// Decide `spec_convert_fits` for a block of `len` samples, in 128-bit
/// arithmetic so the check itself cannot overflow.
pub fn convert_fits(len: usize, cap: &AudioFormat, rnd: &AudioFormat) -> (r: bool)
    requires
        cap.streamable(),
        rnd.streamable(),
    ensures
        r == spec_convert_fits(len as int, *cap, *rnd),
{
    let frames = len / (cap.channels as usize);
    let mid_w: u128 = if cap.channels != rnd.channels {
        proof {
            vstd::arithmetic::mul::lemma_mul_upper_bound(
                frames as int,
                u64::MAX as int,
                rnd.channels as int,
                u16::MAX as int,
            );
        }
        let m = (frames as u128) * (rnd.channels as u128);
        if m > usize::MAX as u128 {
            return false;
        }
        m
    } else {
        len as u128
    };
    if cap.sample_rate == rnd.sample_rate {
        return true;
    }
    proof {
        vstd::arithmetic::mul::lemma_mul_upper_bound(
            mid_w as int,
            usize::MAX as int,
            rnd.sample_rate as int,
            u32::MAX as int,
        );
    }
    let prod = mid_w * (rnd.sample_rate as u128) + (cap.sample_rate as u128);
    if prod > u64::MAX as u128 {
        return false;
    }
    let mid_frames = mid_w / (rnd.channels as u128);
    proof {
        vstd::arithmetic::mul::lemma_mul_upper_bound(
            mid_frames as int,
            usize::MAX as int,
            rnd.sample_rate as int,
            u32::MAX as int,
        );
    }
    let ofr = (mid_frames * (rnd.sample_rate as u128) + (cap.sample_rate as u128 - 1)) / (
    cap.sample_rate as u128);
    proof {
        vstd::arithmetic::div_mod::lemma_div_nonincreasing(
            (mid_frames * (rnd.sample_rate as u128) + (cap.sample_rate as u128 - 1)) as int,
            cap.sample_rate as int,
        );
        vstd::arithmetic::mul::lemma_mul_upper_bound(
            ofr as int,
            u128::MAX as int / 0x1_0000,
            rnd.channels as int,
            u16::MAX as int,
        );
    }
    if ofr * (rnd.channels as u128) > usize::MAX as u128 {
        return false;
    }
    true
}

/// Copy a block of samples into a fresh owned buffer.
pub(crate) fn copy_samples(src: &[u32]) -> (out: Vec<u32>)
    ensures
        out@ == src@,
{
    let mut out: Vec<u32> = Vec::new();
    let mut i: usize = 0;
    while i < src.len()
        invariant
            i <= src@.len(),
            out@ == src@.take(i as int),
        decreases src@.len() - i,
    {
        out.push(src[i]);
        i = i + 1;
    }
    assert(out@ =~= src@);
    out
}

/// Convert a block from the capture format to the render format: channel
/// conversion first (through `scratch`), then resampling.  Returns the
/// converted block as an owned buffer; `scratch` holds the intermediate
/// channel-converted block when the channel counts differ and is untouched
/// otherwise.
pub fn convert_audio(
    input: &[u32],
    cap_fmt: &AudioFormat,
    rnd_fmt: &AudioFormat,
    scratch: &mut Vec<u32>,
) -> (out: Vec<u32>)
    requires
        cap_fmt.streamable(),
        rnd_fmt.streamable(),
        spec_convert_fits(input@.len() as int, *cap_fmt, *rnd_fmt),
    ensures
        out@ == spec_convert_audio(input@, *cap_fmt, *rnd_fmt),
        final(scratch)@ == if cap_fmt.channels != rnd_fmt.channels {
            spec_convert_mid(input@, *cap_fmt, *rnd_fmt)
        } else {
            old(scratch)@
        },
{
    if cap_fmt.channels != rnd_fmt.channels {
        convert_channels(input, cap_fmt.channels as usize, rnd_fmt.channels as usize, scratch);
        if cap_fmt.sample_rate != rnd_fmt.sample_rate {
            let mut resampled: Vec<u32> = Vec::new();
            resample(
                scratch.as_slice(),
                cap_fmt.sample_rate,
                rnd_fmt.sample_rate,
                rnd_fmt.channels as usize,
                &mut resampled,
            );
            resampled
        } else {
            copy_samples(scratch.as_slice())
        }
    } else if cap_fmt.sample_rate != rnd_fmt.sample_rate {
        let mut resampled: Vec<u32> = Vec::new();
        resample(
            input,
            cap_fmt.sample_rate,
            rnd_fmt.sample_rate,
            rnd_fmt.channels as usize,
            &mut resampled,
        );
        resampled
    } else {
        copy_samples(input)
    }
}

/// Format conversion is deterministic: the converted block is a pure
/// function of the input block and the two formats alone.
pub proof fn lemma_convert_deterministic(
    input: Seq<u32>,
    cap: AudioFormat,
    rnd: AudioFormat,
    y1: Seq<u32>,
    y2: Seq<u32>,
)
    requires
        y1 == spec_convert_audio(input, cap, rnd),
        y2 == spec_convert_audio(input, cap, rnd),
    ensures
        y1 == y2,
{
}

/// Resampling at equal rates is the identity on whole frames.
pub proof fn lemma_resample_identity(input: Seq<u32>, rate: int, channels: int)
    requires
        0 < rate,
        0 < channels,
        input.len() as int % channels == 0,
    ensures
        spec_resample(input, rate, rate, channels) == input,
{
    let leni = input.len() as int;
    let in_frames = leni / channels;
    vstd::arithmetic::div_mod::lemma_fundamental_div_mod(leni, channels);
    assert(in_frames * channels == channels * in_frames) by (nonlinear_arith);
    assert(in_frames * channels == leni);
    if in_frames == 0 {
        assert(channels * in_frames == 0) by (nonlinear_arith)
            requires
                in_frames == 0,
        ;
        assert(leni == 0);
        assert(spec_resample(input, rate, rate, channels) =~= input);
    } else {
        // the ceiling of in_frames * rate / rate is in_frames itself
        vstd::arithmetic::div_mod::lemma_fundamental_div_mod_converse(
            in_frames * rate + rate - 1,
            rate,
            in_frames,
            rate - 1,
        );
        let out = spec_resample(input, rate, rate, channels);
        assert(out.len() == in_frames * channels);
        assert forall|k: int| 0 <= k < leni implies out[k] == input[k] by {
            vstd::arithmetic::div_mod::lemma_fundamental_div_mod(k, channels);
            vstd::arithmetic::div_mod::lemma_mod_bound(k, channels);
            let f = k / channels;
            let ch = k % channels;
            // every output frame maps to its own source frame with weight 0
            vstd::arithmetic::div_mod::lemma_fundamental_div_mod_converse(f * rate, rate, f, 0);
            assert(f < in_frames) by (nonlinear_arith)
                requires
                    0 <= ch < channels,
                    k == f * channels + ch,
                    k < in_frames * channels,
                    0 < channels,
            ;
            assert(f * channels + ch == k);
        }
        assert(out =~= input);
    }
}

/// The resampler's output length: `out_frames * channels` samples, where
/// `out_frames` is the ceiling of `in_frames * out_rate / in_rate` — the
/// least frame count whose span at the output rate covers the input.
pub proof fn lemma_resample_length(input: Seq<u32>, in_rate: int, out_rate: int, channels: int)
    requires
        0 < in_rate,
        0 < out_rate,
        0 < channels,
        input.len() as int / channels > 0,
    ensures
        spec_resample(input, in_rate, out_rate, channels).len() == spec_out_frames(
            input.len() as int / channels,
            in_rate,
            out_rate,
        ) * channels,
        (spec_out_frames(input.len() as int / channels, in_rate, out_rate) - 1) * in_rate
            < (input.len() as int / channels) * out_rate,
        (input.len() as int / channels) * out_rate <= spec_out_frames(
            input.len() as int / channels,
            in_rate,
            out_rate,
        ) * in_rate,
{
    let n = input.len() as int / channels;
    let numer = n * out_rate + in_rate - 1;
    let m = spec_out_frames(n, in_rate, out_rate);
    vstd::arithmetic::div_mod::lemma_fundamental_div_mod(numer, in_rate);
    vstd::arithmetic::div_mod::lemma_mod_bound(numer, in_rate);
    assert((m - 1) * in_rate == m * in_rate - in_rate && in_rate * m == m * in_rate)
        by (nonlinear_arith);
    assert(spec_resample(input, in_rate, out_rate, channels).len() == m * channels) by (
    nonlinear_arith)
        requires
            0 < channels,
            0 <= m,
            spec_resample(input, in_rate, out_rate, channels).len() == (m * channels) as nat
                as int,
    ;
}

/// Channel conversion with equal channel counts is the identity on whole
/// frames: converting stereo to stereo returns the input unchanged.
pub proof fn lemma_channel_conversion_identity(input: Seq<u32>, ch: int)
    requires
        0 < ch,
        input.len() as int % ch == 0,
    ensures
        spec_convert_channels(input, ch, ch) == input,
{
    let frames = input.len() as int / ch;
    vstd::arithmetic::div_mod::lemma_fundamental_div_mod(input.len() as int, ch);
    assert(frames * ch == input.len());
    let out = spec_convert_channels(input, ch, ch);
    assert forall|k: int| 0 <= k < input.len() implies out[k] == input[k] by {
        vstd::arithmetic::div_mod::lemma_fundamental_div_mod(k, ch);
        vstd::arithmetic::div_mod::lemma_mod_bound(k, ch);
        assert(k / ch * ch == ch * (k / ch)) by (nonlinear_arith);
        assert(k / ch * ch + k % ch == k);
    }
    assert(out =~= input);
}

} // verus!
