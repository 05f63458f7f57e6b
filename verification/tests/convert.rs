use audio_proxy::convert::convert_audio;
use audio_proxy::convert::convert_channels;
use audio_proxy::convert::convert_fits;
use audio_proxy::convert::resample;
use audio_proxy::format::formats_need_conversion;
use audio_proxy::format::AudioFormat;

fn bits(xs: &[f32]) -> Vec<u32> {
    xs.iter().map(|x| x.to_bits()).collect()
}

fn floats(xs: &[u32]) -> Vec<f32> {
    xs.iter().map(|x| f32::from_bits(*x)).collect()
}

fn fmt(sample_rate: u32, channels: u16) -> AudioFormat {
    AudioFormat { sample_rate, channels, bits_per_sample: 32, block_align: channels as u32 * 4 }
}

#[test]
fn test_needs_conversion() {
    assert!(!formats_need_conversion(&fmt(48000, 2), &fmt(48000, 2)));
    assert!(formats_need_conversion(&fmt(44100, 2), &fmt(48000, 2)));
    assert!(formats_need_conversion(&fmt(48000, 1), &fmt(48000, 2)));
}

#[test]
fn test_channels_stereo_to_stereo_identity() {
    let input = bits(&[0.1, -0.2, 0.3, 0.4]);
    let mut out = Vec::new();
    convert_channels(&input, 2, 2, &mut out);
    assert_eq!(out, input);
}

#[test]
fn test_channels_stereo_to_mono_averages() {
    let input = bits(&[0.5, 0.25, -1.0, 3.0]);
    let mut out = Vec::new();
    convert_channels(&input, 2, 1, &mut out);
    let expected = vec![((0.5f32 + 0.25) * 0.5).to_bits(), ((-1.0f32 + 3.0) * 0.5).to_bits()];
    assert_eq!(out, expected);
}

#[test]
fn test_channels_mono_to_stereo_duplicates() {
    let input = bits(&[0.5, -0.75]);
    let mut out = Vec::new();
    convert_channels(&input, 1, 2, &mut out);
    assert_eq!(floats(&out), vec![0.5, 0.5, -0.75, -0.75]);
}

#[test]
fn test_channels_downmix_truncates() {
    // 4 channels to 2: keeps the first two of each frame.
    let input = bits(&[1.0, 2.0, 3.0, 4.0, 5.0, 6.0, 7.0, 8.0]);
    let mut out = Vec::new();
    convert_channels(&input, 4, 2, &mut out);
    assert_eq!(floats(&out), vec![1.0, 2.0, 5.0, 6.0]);
}

#[test]
fn test_channels_partial_frame_dropped() {
    let input = bits(&[1.0, 2.0, 3.0]);
    let mut out = Vec::new();
    convert_channels(&input, 2, 2, &mut out);
    assert_eq!(floats(&out), vec![1.0, 2.0]);
}

#[test]
fn test_resample_identity_at_equal_rates() {
    let input = bits(&[0.1, 0.2, 0.3, 0.4, 0.5, 0.6]);
    let mut out = Vec::new();
    resample(&input, 48000, 48000, 2, &mut out);
    assert_eq!(out, input);
}

#[test]
fn test_resample_length_is_ceiling() {
    // 441 input frames at 44100 -> 48000: ceil(441 * 48000 / 44100) = 480.
    let input = vec![0u32; 441];
    let mut out = Vec::new();
    resample(&input, 44100, 48000, 1, &mut out);
    assert_eq!(out.len(), 480);

    // 3 frames doubled: ceil(3 * 2 / 1) = 6.
    let input = bits(&[1.0, 2.0, 3.0]);
    let mut out = Vec::new();
    resample(&input, 1, 2, 1, &mut out);
    assert_eq!(out.len(), 6);
}

#[test]
fn test_resample_interpolates_like_hardware_floats() {
    // Doubling the rate: output frame f reads source position f / 2, so odd
    // frames mix the neighbours with weight one half.
    let input = bits(&[1.0, 3.0, 5.0]);
    let mut out = Vec::new();
    resample(&input, 1, 2, 1, &mut out);
    let frac = 0.5f32;
    let expected: Vec<f32> = vec![
        1.0,
        1.0 + frac * (3.0 - 1.0),
        3.0,
        3.0 + frac * (5.0 - 3.0),
        5.0,
        5.0, // clamped at the last frame
    ];
    assert_eq!(floats(&out), expected);
}

#[test]
fn test_resample_downsample_weights() {
    // 3:1 downsample of a ramp: frame f reads source position 3 * f.
    let input = bits(&[0.0, 1.0, 2.0, 3.0, 4.0, 5.0]);
    let mut out = Vec::new();
    resample(&input, 3, 1, 1, &mut out);
    assert_eq!(floats(&out), vec![0.0, 3.0]);
}

#[test]
fn test_convert_audio_channels_then_rate() {
    // Stereo 1 Hz to mono 2 Hz: downmix first, then interpolate.
    let input = bits(&[1.0, 3.0, 5.0, 7.0]);
    let cap = fmt(1, 2);
    let rnd = fmt(2, 1);
    let mut scratch = Vec::new();
    let out = convert_audio(&input, &cap, &rnd, &mut scratch);
    let m0 = (1.0f32 + 3.0) * 0.5; // 2.0
    let m1 = (5.0f32 + 7.0) * 0.5; // 6.0
    let expected = vec![m0, m0 + 0.5 * (m1 - m0), m1, m1];
    assert_eq!(floats(&out), expected);
}

#[test]
fn test_convert_audio_deterministic() {
    let input = bits(&[0.9, -0.1, 0.4, 0.2, 0.7, -0.6]);
    let cap = fmt(44100, 2);
    let rnd = fmt(48000, 2);
    let mut s1 = Vec::new();
    let mut s2 = Vec::new();
    let a = convert_audio(&input, &cap, &rnd, &mut s1);
    let b = convert_audio(&input, &cap, &rnd, &mut s2);
    assert_eq!(a, b);
}

#[test]
fn test_convert_audio_identity_formats() {
    let input = bits(&[0.25, 0.5]);
    let f = fmt(48000, 2);
    let mut scratch = Vec::new();
    let out = convert_audio(&input, &f, &f, &mut scratch);
    assert_eq!(out, input);
}

#[test]
fn test_convert_fits() {
    assert!(convert_fits(4096, &fmt(44100, 2), &fmt(48000, 2)));
    assert!(convert_fits(0, &fmt(44100, 2), &fmt(48000, 2)));
    // An impossible block size overflows the resampler's output length.
    assert!(!convert_fits(usize::MAX, &fmt(1, 1), &fmt(4000000000, 1)));
}
