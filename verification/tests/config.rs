use audio_proxy::config::parse_args;
use audio_proxy::config::parse_u32;
use audio_proxy::config::ring_capacity_samples;
use audio_proxy::config::Args;
use audio_proxy::config::ParseOutcome;

fn argv(items: &[&str]) -> Vec<Vec<u8>> {
    items.iter().map(|s| s.as_bytes().to_vec()).collect()
}

fn parsed(r: ParseOutcome) -> Args {
    match r {
        ParseOutcome::Parsed(a) => a,
        _ => panic!("expected a parsed command line"),
    }
}

#[test]
fn test_parse_named_args() {
    let a = parsed(parse_args(&argv(&[
        "audio-proxy",
        "--speaker-in",
        "VCOut",
        "--speaker-out",
        "Spk",
        "--buffer",
        "20",
    ])));
    assert_eq!(a.speaker_in, b"VCOut".to_vec());
    assert_eq!(a.speaker_out, b"Spk".to_vec());
    assert_eq!(a.mic_in, None);
    assert_eq!(a.mic_out, None);
    assert_eq!(a.buffer_ms, 20);
}

#[test]
fn test_parse_mic_args() {
    let a = parsed(parse_args(&argv(&[
        "audio-proxy",
        "--speaker-in",
        "VCOut",
        "--speaker-out",
        "Spk",
        "--mic-in",
        "Mic",
        "--mic-out",
        "VCIn",
    ])));
    assert_eq!(a.mic_in, Some(b"Mic".to_vec()));
    assert_eq!(a.mic_out, Some(b"VCIn".to_vec()));
    assert_eq!(a.buffer_ms, 10);
}

#[test]
fn test_parse_legacy_positional() {
    let a = parsed(parse_args(&argv(&["audio-proxy", "VCOut", "Spk", "25"])));
    assert_eq!(a.speaker_in, b"VCOut".to_vec());
    assert_eq!(a.speaker_out, b"Spk".to_vec());
    assert_eq!(a.buffer_ms, 25);

    let b = parsed(parse_args(&argv(&["audio-proxy", "VCOut", "Spk"])));
    assert_eq!(b.buffer_ms, 10);

    let c = parsed(parse_args(&argv(&["audio-proxy", "VCOut", "Spk", "junk"])));
    assert_eq!(c.buffer_ms, 10);
}

#[test]
fn test_parse_missing_required() {
    assert!(matches!(
        parse_args(&argv(&["audio-proxy", "--speaker-out", "Spk"])),
        ParseOutcome::MissingSpeakerIn
    ));
    assert!(matches!(
        parse_args(&argv(&["audio-proxy", "--speaker-in", "VCOut"])),
        ParseOutcome::MissingSpeakerOut
    ));
}

#[test]
fn test_parse_unknown_and_help() {
    match parse_args(&argv(&["audio-proxy", "--bogus"])) {
        ParseOutcome::UnknownArgument(arg) => assert_eq!(arg, b"--bogus".to_vec()),
        _ => panic!("expected an unknown-argument outcome"),
    }
    assert!(matches!(parse_args(&argv(&["audio-proxy", "--help"])), ParseOutcome::Help));
    assert!(matches!(parse_args(&argv(&["audio-proxy", "-h"])), ParseOutcome::Help));
}

#[test]
fn test_parse_later_flag_overrides() {
    let a = parsed(parse_args(&argv(&[
        "audio-proxy",
        "--speaker-in",
        "First",
        "--speaker-in",
        "Second",
        "--speaker-out",
        "Spk",
    ])));
    assert_eq!(a.speaker_in, b"Second".to_vec());
}

#[test]
fn test_parse_bad_buffer_falls_back() {
    let a = parsed(parse_args(&argv(&[
        "audio-proxy",
        "--speaker-in",
        "VCOut",
        "--speaker-out",
        "Spk",
        "--buffer",
        "oops",
    ])));
    assert_eq!(a.buffer_ms, 10);
}

#[test]
fn test_parse_u32_edges() {
    assert_eq!(parse_u32(b"0"), Some(0));
    assert_eq!(parse_u32(b"42"), Some(42));
    assert_eq!(parse_u32(b"+42"), Some(42));
    assert_eq!(parse_u32(b"4294967295"), Some(u32::MAX));
    assert_eq!(parse_u32(b"4294967296"), None);
    assert_eq!(parse_u32(b""), None);
    assert_eq!(parse_u32(b"+"), None);
    assert_eq!(parse_u32(b"12a"), None);
    assert_eq!(parse_u32(b"-1"), None);
}

#[test]
fn test_ring_capacity() {
    // 10 ms at the 48 kHz stereo sizing default, times four.
    assert_eq!(ring_capacity_samples(10), 3840);
}
