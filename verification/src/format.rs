//! PCM format descriptions as reported by audio endpoints.

use vstd::prelude::*;

verus! {

/// Negotiated PCM format of one shared-mode session.
///
/// `block_align` is the frame size in bytes; for the 32-bit float streams the
/// engine accepts it equals `channels * 4`.
#[derive(Debug, Clone, Copy, PartialEq, Eq, Structural)]
pub struct AudioFormat {
    pub sample_rate: u32,
    pub channels: u16,
    pub bits_per_sample: u16,
    pub block_align: u32,
}

impl AudioFormat {
    /// What the converter needs of a format: a positive sample rate and a
    /// positive channel count.
    pub open spec fn streamable(self) -> bool {
        self.sample_rate > 0 && self.channels > 0
    }

    /// A format the engine can stream: positive rate and channel count,
    /// 32-bit samples, and a frame size of one 32-bit word per channel.
    pub open spec fn valid(self) -> bool {
        &&& self.streamable()
        &&& self.bits_per_sample == 32
        &&& self.block_align == self.channels * 4
    }
}

/// Whether forwarding from capture format `cap` to render format `rnd`
/// must pass through the converter.
pub open spec fn spec_needs_conversion(cap: AudioFormat, rnd: AudioFormat) -> bool {
    cap.sample_rate != rnd.sample_rate || cap.channels != rnd.channels
}

/// Two formats need conversion iff they differ in sample rate or channel count.
pub fn formats_need_conversion(cap: &AudioFormat, rnd: &AudioFormat) -> (r: bool)
    ensures
        r == spec_needs_conversion(*cap, *rnd),
{
    cap.sample_rate != rnd.sample_rate || cap.channels != rnd.channels
}

/// Whether a shared-mode mix format can be streamed: only 32-bit float
/// PCM is supported, so session start rejects any other sample width.
pub fn format_supported(fmt: &AudioFormat) -> (r: bool)
    ensures
        r == (fmt.bits_per_sample == 32),
{
    fmt.bits_per_sample == 32
}

/// How much of a block the render session writes this call: the device
/// accepts `buffer_frames - padding` frames, the block offers
/// `samples_len / channels` whole frames, and the smaller count wins.
/// Returns `(frames, samples)` with `samples == frames * channels`.
pub fn render_write_plan(
    samples_len: usize,
    channels: usize,
    buffer_frames: usize,
    padding: usize,
) -> (r: (usize, usize))
    requires
        0 < channels,
        padding <= buffer_frames,
    ensures
        r.0 == vstd::math::min(
            samples_len as int / channels as int,
            buffer_frames - padding,
        ),
        r.1 == r.0 * channels,
        r.1 <= samples_len,
{
    let available = buffer_frames - padding;
    let offered = samples_len / channels;
    let frames = if offered < available {
        offered
    } else {
        available
    };
    proof {
        vstd::arithmetic::div_mod::lemma_fundamental_div_mod(
            samples_len as int,
            channels as int,
        );
        vstd::arithmetic::div_mod::lemma_mod_bound(samples_len as int, channels as int);
        assert(frames * channels <= channels * offered) by (nonlinear_arith)
            requires
                0 <= frames <= offered,
                0 < channels,
        ;
    }
    (frames, frames * channels)
}

/// The 32-bit word stored little-endian at byte offset `4 * i`.
pub open spec fn spec_le32(b: Seq<u8>, i: int) -> int {
    b[4 * i] + b[4 * i + 1] * 0x100 + b[4 * i + 2] * 0x1_0000 + b[4 * i + 3] * 0x100_0000
}

/// Decode a little-endian byte block from the device into 32-bit samples,
/// filling the front of `out`.  Returns how many samples were decoded: one
/// per four whole bytes, at most `out.len()`; the rest of `out` is
/// untouched and trailing bytes are ignored.
pub fn bytes_to_samples(bytes: &[u8], out: &mut Vec<u32>) -> (count: usize)
    ensures
        count == vstd::math::min(bytes@.len() as int / 4, old(out)@.len() as int),
        final(out)@.len() == old(out)@.len(),
        forall|i: int| 0 <= i < count ==> final(out)@[i] == spec_le32(bytes@, i),
        forall|i: int| count <= i < old(out)@.len() ==> final(out)@[i] == old(out)@[i],
{
    let num_words = bytes.len() / 4;
    let count = if num_words < out.len() {
        num_words
    } else {
        out.len()
    };
    let mut i: usize = 0;
    while i < count
        invariant
            i <= count,
            count <= bytes@.len() as int / 4,
            count <= out@.len(),
            out@.len() == old(out)@.len(),
            forall|k: int| 0 <= k < i ==> out@[k] == spec_le32(bytes@, k),
            forall|k: int| i <= k < out@.len() ==> out@[k] == old(out)@[k],
        decreases count - i,
    {
        proof {
            assert(4 * i + 4 <= 4 * count <= bytes@.len()) by (nonlinear_arith)
                requires
                    0 <= i < count,
                    count <= bytes@.len() as int / 4,
                    count * 4 <= (bytes@.len() as int / 4) * 4 <= bytes@.len(),
            ;
            vstd::arithmetic::div_mod::lemma_fundamental_div_mod(bytes@.len() as int, 4);
            vstd::arithmetic::div_mod::lemma_mod_bound(bytes@.len() as int, 4);
        }
        let off = 4 * i;
        let w = bytes[off] as u32 + (bytes[off + 1] as u32) * 0x100 + (bytes[off + 2] as u32)
            * 0x1_0000 + (bytes[off + 3] as u32) * 0x100_0000;
        out[i] = w;
        i = i + 1;
    }
    count
}

/// Encode 32-bit samples as the little-endian byte block the device takes.
pub fn samples_to_bytes(samples: &[u32]) -> (out: Vec<u8>)
    requires
        4 * samples@.len() <= usize::MAX,
    ensures
        out@.len() == 4 * samples@.len(),
        forall|i: int| 0 <= i < samples@.len() ==> spec_le32(out@, i) == samples@[i],
{
    let mut out: Vec<u8> = Vec::new();
    let mut i: usize = 0;
    while i < samples.len()
        invariant
            i <= samples@.len(),
            out@.len() == 4 * i,
            forall|k: int| 0 <= k < i ==> spec_le32(out@, k) == samples@[k],
        decreases samples@.len() - i,
    {
        let ghost out0 = out@;
        let w = samples[i];
        out.push((w % 0x100) as u8);
        out.push(((w / 0x100) % 0x100) as u8);
        out.push(((w / 0x1_0000) % 0x100) as u8);
        out.push(((w / 0x100_0000) % 0x100) as u8);
        proof {
            assert forall|k: int| 0 <= k < i + 1 implies spec_le32(out@, k) == samples@[k] by {
                if k < i {
                    assert(spec_le32(out@, k) == spec_le32(out0, k));
                } else {
                    assert(out@[4 * k] == w % 0x100 && out@[4 * k + 1] == (w / 0x100) % 0x100
                        && out@[4 * k + 2] == (w / 0x1_0000) % 0x100 && out@[4 * k + 3] == (w
                        / 0x100_0000) % 0x100);
                    assert(w % 0x100 + ((w / 0x100) % 0x100) * 0x100 + ((w / 0x1_0000) % 0x100)
                        * 0x1_0000 + ((w / 0x100_0000) % 0x100) * 0x100_0000 == w) by (bit_vector);
                }
            }
        }
        i = i + 1;
    }
    out
}

} // verus!
