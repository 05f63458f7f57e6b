use audio_proxy::format::AudioFormat;
use audio_proxy::ring::AudioRingBuffer;
use audio_proxy::worker::apply_swap;
use audio_proxy::worker::note_failure;
use audio_proxy::worker::note_success;
use audio_proxy::worker::prefill_samples;
use audio_proxy::worker::producer_push;
use audio_proxy::worker::render_take_block;
use audio_proxy::worker::silence_block;
use audio_proxy::worker::swap_needed;
use audio_proxy::worker::underrun_fill_samples;
use audio_proxy::worker::RenderBlock;
use audio_proxy::worker::SwapOutcome;
use audio_proxy::worker::WorkerState;
use audio_proxy::worker::MAX_RECOVERY_ATTEMPTS;

fn fmt(sample_rate: u32, channels: u16) -> AudioFormat {
    AudioFormat { sample_rate, channels, bits_per_sample: 32, block_align: channels as u32 * 4 }
}

#[test]
fn test_swap_needed_compares_targets() {
    let state = WorkerState::start("Speakers".to_string());
    assert!(!swap_needed(&state, &"Speakers".to_string()));
    assert!(swap_needed(&state, &"Headphones".to_string()));
}

#[test]
fn test_apply_swap_switches_on_success() {
    let mut state = WorkerState::start("Speakers".to_string());
    let r = apply_swap(&mut state, "Headphones".to_string(), true, false);
    assert_eq!(r, SwapOutcome::Switched);
    assert_eq!(state.current_device, "Headphones");
    assert_eq!(state.error_count, 0);
}

#[test]
fn test_apply_swap_reverts_on_failure() {
    let mut state = WorkerState::start("Speakers".to_string());
    let r = apply_swap(&mut state, "Broken".to_string(), false, true);
    assert_eq!(r, SwapOutcome::Reverted);
    assert_eq!(state.current_device, "Speakers");

    let r = apply_swap(&mut state, "Broken".to_string(), false, false);
    assert_eq!(r, SwapOutcome::Failed);
    assert_eq!(state.current_device, "Speakers");
}

#[test]
fn test_recovery_budget_exhausts_at_five() {
    let mut state = WorkerState::start("Mic".to_string());
    for attempt in 1..MAX_RECOVERY_ATTEMPTS {
        let give_up = note_failure(&mut state);
        assert!(!give_up, "attempt {attempt} should still retry");
        assert_eq!(state.error_count, attempt);
    }
    let give_up = note_failure(&mut state);
    assert!(give_up);
    assert_eq!(state.error_count, MAX_RECOVERY_ATTEMPTS);
}

#[test]
fn test_success_resets_error_counter() {
    let mut state = WorkerState::start("Mic".to_string());
    for _ in 0..4 {
        let give_up = note_failure(&mut state);
        assert!(!give_up);
    }
    note_success(&mut state);
    assert_eq!(state.error_count, 0);
    // A full budget is available again.
    for _ in 0..4 {
        let give_up = note_failure(&mut state);
        assert!(!give_up);
    }
}

#[test]
fn test_producer_push_accounts_overflow() {
    let mut ring = AudioRingBuffer::new(4); // capacity 3
    let dropped = producer_push(&mut ring, &[1, 2]);
    assert_eq!(dropped, 0);
    let dropped = producer_push(&mut ring, &[3, 4, 5]);
    assert_eq!(dropped, 2);
    assert_eq!(ring.len(), 3);
}

#[test]
fn test_render_take_block_underrun() {
    let mut ring = AudioRingBuffer::new(16);
    let mut temp = vec![0u32; 8];
    let mut scratch = Vec::new();
    let r = render_take_block(&mut ring, &mut temp, &None, &None, &mut scratch);
    assert!(matches!(r, RenderBlock::Underrun));
}

#[test]
fn test_render_take_block_passthrough() {
    let mut ring = AudioRingBuffer::new(16);
    producer_push(&mut ring, &[10, 20, 30]);
    let mut temp = vec![0u32; 8];
    let mut scratch = Vec::new();
    let f = fmt(48000, 2);
    let r = render_take_block(&mut ring, &mut temp, &Some(f), &Some(f), &mut scratch);
    match r {
        RenderBlock::Block { samples } => assert_eq!(samples, vec![10, 20, 30]),
        RenderBlock::Underrun => panic!("expected a block"),
    }
    assert!(ring.is_empty());
}

#[test]
fn test_render_take_block_converts() {
    let mut ring = AudioRingBuffer::new(16);
    let l = 0.5f32.to_bits();
    let r_ = 0.25f32.to_bits();
    producer_push(&mut ring, &[l, r_]);
    let mut temp = vec![0u32; 8];
    let mut scratch = Vec::new();
    let cap = fmt(48000, 2);
    let rnd = fmt(48000, 1);
    let r = render_take_block(&mut ring, &mut temp, &Some(cap), &Some(rnd), &mut scratch);
    match r {
        RenderBlock::Block { samples } => {
            assert_eq!(samples, vec![((0.5f32 + 0.25) * 0.5).to_bits()]);
        },
        RenderBlock::Underrun => panic!("expected a block"),
    }
}

#[test]
fn test_silence_block_is_float_zero() {
    let s = silence_block(4);
    assert_eq!(s.len(), 4);
    for w in s {
        assert_eq!(f32::from_bits(w), 0.0);
    }
}

#[test]
fn test_fill_sizes() {
    let f = fmt(48000, 2);
    assert_eq!(underrun_fill_samples(&f), 96); // one millisecond
    assert_eq!(prefill_samples(&f, 10), 960); // ten milliseconds
}
