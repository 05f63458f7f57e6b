//! Per-iteration decision logic of the forwarding workers.
//!
//! Each path runs two loops: a producer that reads from a capture session
//! into the sample ring, and a consumer that drains the ring into a render
//! session, converting formats when they differ.  The loops themselves
//! perform the device I/O and the sleeps; every decision they take — when
//! to hot-swap, what to do with a block, how to account overflow, when a
//! failing session may retry and when the worker must give up — is a
//! function here, over plain values.

use vstd::prelude::*;

use crate::convert::convert_audio;
use crate::convert::convert_fits;
use crate::convert::spec_convert_audio;
use crate::convert::spec_convert_fits;
use crate::convert::spec_convert_mid;
use crate::format::AudioFormat;
use crate::format::formats_need_conversion;
use crate::format::spec_needs_conversion;
use crate::ring::AudioRingBuffer;

verus! {

/// Consecutive failures a worker tolerates before it gives up on a
/// session and propagates the error.
pub const MAX_RECOVERY_ATTEMPTS: u32 = 5;

/// The private per-worker state: which endpoint its session is open on,
/// and how many consecutive errors it has seen.
pub struct WorkerState {
    pub current_device: String,
    pub error_count: u32,
}

/// A worker in steady state: its error budget is not exhausted.
pub open spec fn worker_inv(s: WorkerState) -> bool {
    s.error_count < MAX_RECOVERY_ATTEMPTS
}

impl WorkerState {
    /// A worker that has just opened its session on `device`.
    pub fn start(device: String) -> (s: WorkerState)
        ensures
            s.current_device == device,
            s.error_count == 0,
            worker_inv(s),
    {
        WorkerState { current_device: device, error_count: 0 }
    }
}

/// Whether the hot-swappable target differs from the endpoint the worker's
/// session is currently open on, so the worker must swap this iteration.
pub fn swap_needed(state: &WorkerState, target: &String) -> (r: bool)
    ensures
        r == (state.current_device@ != target@),
{
    !(state.current_device == *target)
}

/// How a hot-swap attempt ended.
#[derive(Debug, Clone, Copy, PartialEq, Eq, Structural)]
pub enum SwapOutcome {
    /// The new endpoint opened; the worker now renders (or captures) there.
    Switched,
    /// The new endpoint failed but the previous one reopened; the worker
    /// stays where it was.
    Reverted,
    /// Both failed; the worker must propagate the error.
    Failed,
}

/// Record the outcome of a hot-swap attempt: `open_ok` says whether the
/// new target's session opened, `fallback_ok` whether reopening the
/// previous endpoint succeeded after a failed open.  A successful switch
/// adopts the target and resets the error budget; a fallback keeps the
/// previous endpoint; if both failed the worker gives up.
pub fn apply_swap(state: &mut WorkerState, target: String, open_ok: bool, fallback_ok: bool) -> (r:
    SwapOutcome)
    requires
        worker_inv(*old(state)),
    ensures
        worker_inv(*final(state)),
        open_ok ==> final(state).current_device == target && final(state).error_count == 0 && r
            == SwapOutcome::Switched,
        !open_ok ==> *final(state) == *old(state) && r == (if fallback_ok {
            SwapOutcome::Reverted
        } else {
            SwapOutcome::Failed
        }),
{
    if open_ok {
        state.current_device = target;
        state.error_count = 0;
        SwapOutcome::Switched
    } else if fallback_ok {
        SwapOutcome::Reverted
    } else {
        SwapOutcome::Failed
    }
}

/// Hot-swap eventual effect: once the worker has processed a changed
/// target, its session is open either on the new target (the swap took) or
/// on the endpoint it had before (the target failed and the fallback
/// succeeded); it is never left anywhere else.
pub proof fn lemma_swap_eventual_effect(
    pre: WorkerState,
    post: WorkerState,
    target: String,
    open_ok: bool,
    fallback_ok: bool,
    r: SwapOutcome,
)
    requires
        worker_inv(pre),
        open_ok ==> post.current_device == target && post.error_count == 0 && r
            == SwapOutcome::Switched,
        !open_ok ==> post == pre && r == (if fallback_ok {
            SwapOutcome::Reverted
        } else {
            SwapOutcome::Failed
        }),
        r != SwapOutcome::Failed,
    ensures
        post.current_device == target || post.current_device == pre.current_device,
{
}

/// A successful read or write resets the worker's consecutive-error
/// counter.
pub fn note_success(state: &mut WorkerState)
    ensures
        final(state).error_count == 0,
        final(state).current_device == old(state).current_device,
        worker_inv(*final(state)),
{
    state.error_count = 0;
}

/// A failed read or write consumes one unit of the retry budget.  Returns
/// whether the budget is exhausted: if so the worker propagates the error;
/// otherwise it sleeps and reopens a session on its current endpoint.
pub fn note_failure(state: &mut WorkerState) -> (give_up: bool)
    requires
        worker_inv(*old(state)),
    ensures
        final(state).error_count == old(state).error_count + 1,
        final(state).current_device == old(state).current_device,
        give_up == (final(state).error_count >= MAX_RECOVERY_ATTEMPTS),
        !give_up ==> worker_inv(*final(state)),
{
    state.error_count = state.error_count + 1;
    state.error_count >= MAX_RECOVERY_ATTEMPTS
}

/// Recovery budget: starting from a fresh worker, fewer than
/// `MAX_RECOVERY_ATTEMPTS` consecutive failures never exhaust the budget,
/// and one success resets it to zero; the worker is told to give up
/// exactly when the counter reaches the budget.
pub proof fn lemma_recovery_budget(count: u32)
    requires
        count < MAX_RECOVERY_ATTEMPTS,
    ensures
        (count + 1 >= MAX_RECOVERY_ATTEMPTS) == (count == MAX_RECOVERY_ATTEMPTS - 1),
{
}

/// Push a captured block into the ring, dropping what does not fit.
/// Returns how many samples were dropped; the caller logs a ring overflow
/// when the count is positive.
pub fn producer_push(ring: &mut AudioRingBuffer, samples: &[u32]) -> (dropped: usize)
    requires
        old(ring).wf(),
    ensures
        final(ring).wf(),
        final(ring).spec_capacity() == old(ring).spec_capacity(),
        final(ring)@ == old(ring)@ + samples@.take(
            vstd::math::min(
                samples@.len() as int,
                old(ring).spec_capacity() - old(ring)@.len(),
            ),
        ),
        dropped == samples@.len() - vstd::math::min(
            samples@.len() as int,
            old(ring).spec_capacity() - old(ring)@.len(),
        ),
{
    let written = ring.write(samples);
    samples.len() - written
}

/// The block a consumer iteration hands to the render session.
pub enum RenderBlock {
    /// The ring was empty: write one millisecond of silence and sleep
    /// briefly.
    Underrun,
    /// A block is ready to write, converted to the render format when the
    /// two formats differ.
    Block { samples: Vec<u32> },
}

/// What `render_take_block` promises about the block it returns for a
/// drained prefix `taken` of the ring: the block is the prefix converted
/// to the render format when both formats are known and differ (and the
/// conversion's machine limits hold), and the prefix unchanged otherwise.
pub open spec fn spec_render_block(
    taken: Seq<u32>,
    cap_fmt: Option<AudioFormat>,
    rnd_fmt: Option<AudioFormat>,
    block: Seq<u32>,
) -> bool {
    match (cap_fmt, rnd_fmt) {
        (Some(cf), Some(rf)) => {
            if spec_needs_conversion(cf, rf) && spec_convert_fits(taken.len() as int, cf, rf) {
                block == spec_convert_audio(taken, cf, rf)
            } else {
                block == taken
            }
        },
        _ => block == taken,
    }
}

/// One consumer iteration's data move: drain up to `temp.len()` samples
/// from the ring and convert them for the render session.
///
/// Returns `Underrun` exactly when the ring was empty; otherwise the
/// drained prefix leaves the ring and comes back as the block to write,
/// format-converted when the published capture format and the render
/// format are both known and differ.
pub fn render_take_block(
    ring: &mut AudioRingBuffer,
    temp: &mut Vec<u32>,
    cap_fmt: &Option<AudioFormat>,
    rnd_fmt: &Option<AudioFormat>,
    scratch: &mut Vec<u32>,
) -> (r: RenderBlock)
    requires
        old(ring).wf(),
        old(temp)@.len() > 0,
        match *cap_fmt {
            Some(cf) => cf.streamable(),
            None => true,
        },
        match *rnd_fmt {
            Some(rf) => rf.streamable(),
            None => true,
        },
    ensures
        final(ring).wf(),
        final(ring).spec_capacity() == old(ring).spec_capacity(),
        final(temp)@.len() == old(temp)@.len(),
        ({
            let n = vstd::math::min(old(temp)@.len() as int, old(ring)@.len() as int);
            &&& final(ring)@ == old(ring)@.skip(n)
            &&& match r {
                RenderBlock::Underrun => n == 0,
                RenderBlock::Block { samples } => n > 0 && spec_render_block(
                    old(ring)@.take(n),
                    *cap_fmt,
                    *rnd_fmt,
                    samples@,
                ),
            }
            &&& final(scratch)@ == (match (*cap_fmt, *rnd_fmt) {
                (Some(cf), Some(rf)) => {
                    if n > 0 && spec_needs_conversion(cf, rf) && spec_convert_fits(n, cf, rf)
                        && cf.channels != rf.channels {
                        spec_convert_mid(old(ring)@.take(n), cf, rf)
                    } else {
                        old(scratch)@
                    }
                },
                _ => old(scratch)@,
            })
        }),
{
    let n = ring.read(temp);
    if n == 0 {
        return RenderBlock::Underrun;
    }
    let block = &temp.as_slice()[0..n];
    proof {
        assert(block@ =~= old(ring)@.take(n as int));
    }
    match (cap_fmt, rnd_fmt) {
        (Some(cf), Some(rf)) => {
            if formats_need_conversion(cf, rf) && convert_fits(n, cf, rf) {
                let converted = convert_audio(block, cf, rf, scratch);
                RenderBlock::Block { samples: converted }
            } else {
                let samples = crate::convert::copy_samples(block);
                RenderBlock::Block { samples }
            }
        },
        _ => {
            let samples = crate::convert::copy_samples(block);
            RenderBlock::Block { samples }
        },
    }
}

/// A block of silence: 32-bit float PCM zeros (the zero bit pattern is the
/// float value zero).
pub fn silence_block(count: usize) -> (r: Vec<u32>)
    ensures
        r@.len() == count,
        forall|i: int| 0 <= i < count ==> r@[i] == 0u32,
{
    let mut out: Vec<u32> = Vec::new();
    let mut i: usize = 0;
    while i < count
        invariant
            i <= count,
            out@.len() == i,
            forall|k: int| 0 <= k < i ==> out@[k] == 0u32,
        decreases count - i,
    {
        out.push(0);
        i = i + 1;
    }
    out
}

/// How many samples one millisecond of silence takes in `fmt`: used by the
/// consumer to keep the device fed across an underrun or while the mic
/// path is disabled.
pub fn underrun_fill_samples(fmt: &AudioFormat) -> (r: usize)
    requires
        fmt.valid(),
        (fmt.sample_rate as int / 1000) * fmt.channels as int <= usize::MAX,
    ensures
        r == (fmt.sample_rate as int / 1000) * fmt.channels as int,
{
    (fmt.sample_rate / 1000) as usize * fmt.channels as usize
}

/// How many samples of silence pre-fill the device at consumer start:
/// `buffer_ms` milliseconds at the render format.
pub fn prefill_samples(fmt: &AudioFormat, buffer_ms: u32) -> (r: usize)
    requires
        fmt.valid(),
        fmt.sample_rate as int * buffer_ms as int <= u32::MAX,
        (fmt.sample_rate as int * buffer_ms as int / 1000) * fmt.channels as int <= usize::MAX,
    ensures
        r == (fmt.sample_rate as int * buffer_ms as int / 1000) * fmt.channels as int,
{
    (fmt.sample_rate * buffer_ms / 1000) as usize * fmt.channels as usize
}

} // verus!
