//! Command-line configuration: the engine's arguments and their parsing.
//!
//! Arguments arrive as UTF-8 bytes, one vector per argument, with the
//! program name first.  The legacy positional form
//! `<speaker-in> <speaker-out> [buffer-ms]` is accepted when the first
//! positional does not start with `--`; otherwise named flags are parsed,
//! a later occurrence of a flag overriding an earlier one.

use vstd::prelude::*;

use crate::resolver::bytes_eq;

verus! {

/// Default buffer size in milliseconds.
pub const DEFAULT_BUFFER_MS: u32 = 10;

/// Default sample rate used only to size the ring buffer; the streaming
/// rate comes from the device.
pub const DEFAULT_SAMPLE_RATE: u32 = 48000;

/// Default channel count used only to size the ring buffer.
pub const DEFAULT_CHANNELS: u16 = 2;

/// Parsed command-line arguments.
pub struct Args {
    pub speaker_in: Vec<u8>,
    pub speaker_out: Vec<u8>,
    pub mic_in: Option<Vec<u8>>,
    pub mic_out: Option<Vec<u8>>,
    pub buffer_ms: u32,
}

/// Outcome of parsing the command line.
pub enum ParseOutcome {
    /// All required arguments present.
    Parsed(Args),
    /// `--help` or `-h` was given: print usage and exit cleanly.
    Help,
    /// An argument no flag matches.
    UnknownArgument(Vec<u8>),
    /// `--speaker-in` was not given.
    MissingSpeakerIn,
    /// `--speaker-out` was not given.
    MissingSpeakerOut,
}

/// The spec-level mirror of `ParseOutcome`, over byte sequences.
pub enum SpecParse {
    Parsed {
        speaker_in: Seq<u8>,
        speaker_out: Seq<u8>,
        mic_in: Option<Seq<u8>>,
        mic_out: Option<Seq<u8>>,
        buffer_ms: u32,
    },
    Help,
    UnknownArgument { arg: Seq<u8> },
    MissingSpeakerIn,
    MissingSpeakerOut,
}

/// The byte-sequence view of a `ParseOutcome`.
pub open spec fn spec_outcome_of(r: ParseOutcome) -> SpecParse {
    match r {
        ParseOutcome::Parsed(a) => SpecParse::Parsed {
            speaker_in: a.speaker_in@,
            speaker_out: a.speaker_out@,
            mic_in: match a.mic_in {
                Some(v) => Some(v@),
                None => None,
            },
            mic_out: match a.mic_out {
                Some(v) => Some(v@),
                None => None,
            },
            buffer_ms: a.buffer_ms,
        },
        ParseOutcome::Help => SpecParse::Help,
        ParseOutcome::UnknownArgument(a) => SpecParse::UnknownArgument { arg: a@ },
        ParseOutcome::MissingSpeakerIn => SpecParse::MissingSpeakerIn,
        ParseOutcome::MissingSpeakerOut => SpecParse::MissingSpeakerOut,
    }
}

/// The UTF-8 bytes of a flag literal.
pub open spec fn flag_bytes(s: Seq<char>) -> Seq<u8> {
    vstd::utf8::encode_utf8(s)
}

/// The digits of a decimal literal: an optional leading `+` is skipped.
pub open spec fn spec_digits_of(s: Seq<u8>) -> Seq<u8> {
    if s.len() > 0 && s[0] == 43 {
        s.skip(1)
    } else {
        s
    }
}

/// Every byte is an ASCII digit, and there is at least one.
pub open spec fn spec_all_digits(s: Seq<u8>) -> bool {
    s.len() > 0 && forall|i: int| 0 <= i < s.len() ==> 48 <= #[trigger] s[i] <= 57
}

/// The value of a digit string, most significant first.
pub open spec fn spec_dec_val(s: Seq<u8>) -> int
    decreases s.len(),
{
    if s.len() == 0 {
        0
    } else {
        spec_dec_val(s.drop_last()) * 10 + (s.last() - 48)
    }
}

/// What `str::parse::<u32>` accepts: an optional `+`, then digits, with a
/// value that fits.
pub open spec fn spec_parse_u32(s: Seq<u8>) -> Option<u32> {
    let d = spec_digits_of(s);
    if spec_all_digits(d) && spec_dec_val(d) <= u32::MAX {
        Some(spec_dec_val(d) as u32)
    } else {
        None
    }
}

proof fn lemma_dec_val_nonneg(s: Seq<u8>)
    requires
        forall|i: int| 0 <= i < s.len() ==> 48 <= #[trigger] s[i],
    ensures
        spec_dec_val(s) >= 0,
    decreases s.len(),
{
    if s.len() > 0 {
        lemma_dec_val_nonneg(s.drop_last());
    }
}

proof fn lemma_dec_val_step(s: Seq<u8>, n: int)
    requires
        0 <= n < s.len(),
    ensures
        spec_dec_val(s.take(n + 1)) == spec_dec_val(s.take(n)) * 10 + (s[n] - 48),
{
    assert(s.take(n + 1).drop_last() =~= s.take(n));
    assert(s.take(n + 1).last() == s[n]);
}

/// A digit string's value only grows as more digits are appended.
proof fn lemma_dec_val_mono(s: Seq<u8>, n: int)
    requires
        forall|i: int| 0 <= i < s.len() ==> 48 <= #[trigger] s[i] <= 57,
        0 <= n <= s.len(),
    ensures
        spec_dec_val(s.take(n)) <= spec_dec_val(s),
    decreases s.len() - n,
{
    if n == s.len() {
        assert(s.take(n) =~= s);
    } else {
        lemma_dec_val_step(s, n);
        assert(forall|i: int|
            0 <= i < s.take(n).len() ==> 48 <= #[trigger] s.take(n)[i]);
        lemma_dec_val_nonneg(s.take(n));
        lemma_dec_val_mono(s, n + 1);
    }
}

/// Parse a decimal `u32` as `str::parse` does: optional `+`, one or more
/// digits, value within range; anything else is `None`.
pub fn parse_u32(s: &[u8]) -> (r: Option<u32>)
    ensures
        r == spec_parse_u32(s@),
{
    let ghost d = spec_digits_of(s@);
    let start: usize = if s.len() > 0 && s[0] == 43 {
        1
    } else {
        0
    };
    proof {
        assert(d =~= s@.skip(start as int));
    }
    if start >= s.len() {
        return None;
    }
    let mut acc: u64 = 0;
    let mut i: usize = start;
    while i < s.len()
        invariant
            start <= i <= s@.len(),
            d == s@.skip(start as int),
            acc <= u32::MAX,
            acc == spec_dec_val(d.take(i - start)),
            forall|k: int| start <= k < i ==> 48 <= #[trigger] s@[k] <= 57,
        decreases s@.len() - i,
    {
        let c = s[i];
        if c < 48 || c > 57 {
            proof {
                assert(d[i - start] == s@[i as int]);
                assert(!spec_all_digits(d));
            }
            return None;
        }
        let acc2 = acc * 10 + (c - 48) as u64;
        proof {
            lemma_dec_val_step(d, i - start);
            assert(d[i - start] == s@[i as int]);
            assert(acc2 == spec_dec_val(d.take(i - start + 1)));
        }
        if acc2 > u32::MAX as u64 {
            proof {
                if spec_all_digits(d) {
                    lemma_dec_val_mono(d, i - start + 1);
                }
            }
            return None;
        }
        acc = acc2;
        i = i + 1;
    }
    proof {
        assert(d.take(i - start) =~= d);
        assert(spec_all_digits(d));
    }
    Some(acc as u32)
}

/// `Some(args[j])` when argument `j` exists.
pub open spec fn spec_arg_opt(args: Seq<Seq<u8>>, j: int) -> Option<Seq<u8>> {
    if 0 <= j < args.len() {
        Some(args[j])
    } else {
        None
    }
}

/// The argument index after a value flag at `i`: two further on, capped
/// at the end of the argument list.
pub open spec fn spec_next_i(args: Seq<Seq<u8>>, i: int) -> int {
    if i + 2 <= args.len() {
        i + 2
    } else {
        args.len() as int
    }
}

/// The named-flag parse, from argument `i` on, with the values seen so
/// far.  Each value flag consumes the following argument; `--buffer` with
/// an unparseable value falls back to the default; `--help` and `-h` stop
/// the parse.
pub open spec fn spec_parse_named(
    args: Seq<Seq<u8>>,
    i: int,
    sin: Option<Seq<u8>>,
    sout: Option<Seq<u8>>,
    mic_in: Option<Seq<u8>>,
    mic_out: Option<Seq<u8>>,
    buffer_ms: u32,
) -> SpecParse
    decreases args.len() - i,
{
    if i >= args.len() || i < 0 {
        match sin {
            None => SpecParse::MissingSpeakerIn,
            Some(si) => match sout {
                None => SpecParse::MissingSpeakerOut,
                Some(so) => SpecParse::Parsed {
                    speaker_in: si,
                    speaker_out: so,
                    mic_in,
                    mic_out,
                    buffer_ms,
                },
            },
        }
    } else {
        let a = args[i];
        if a == flag_bytes("--speaker-in"@) {
            spec_parse_named(args, spec_next_i(args, i), spec_arg_opt(args, i + 1), sout, mic_in, mic_out, buffer_ms)
        } else if a == flag_bytes("--speaker-out"@) {
            spec_parse_named(args, spec_next_i(args, i), sin, spec_arg_opt(args, i + 1), mic_in, mic_out, buffer_ms)
        } else if a == flag_bytes("--mic-in"@) {
            spec_parse_named(args, spec_next_i(args, i), sin, sout, spec_arg_opt(args, i + 1), mic_out, buffer_ms)
        } else if a == flag_bytes("--mic-out"@) {
            spec_parse_named(args, spec_next_i(args, i), sin, sout, mic_in, spec_arg_opt(args, i + 1), buffer_ms)
        } else if a == flag_bytes("--buffer"@) {
            let b = match spec_arg_opt(args, i + 1) {
                Some(v) => match spec_parse_u32(v) {
                    Some(n) => n,
                    None => DEFAULT_BUFFER_MS,
                },
                None => buffer_ms,
            };
            spec_parse_named(args, spec_next_i(args, i), sin, sout, mic_in, mic_out, b)
        } else if a == flag_bytes("--help"@) || a == flag_bytes("-h"@) {
            SpecParse::Help
        } else {
            SpecParse::UnknownArgument { arg: a }
        }
    }
}

/// Whether an argument begins with `--`.
pub open spec fn spec_is_flag_like(a: Seq<u8>) -> bool {
    a.len() >= 2 && a[0] == 45 && a[1] == 45
}

/// The whole command line's parse: the legacy positional form when the
/// first argument after the program name is not flag-like, else the named
/// form.
pub open spec fn spec_parse_args(args: Seq<Seq<u8>>) -> SpecParse {
    if args.len() >= 3 && !spec_is_flag_like(args[1]) {
        let b = match spec_arg_opt(args, 3) {
            Some(v) => match spec_parse_u32(v) {
                Some(n) => n,
                None => DEFAULT_BUFFER_MS,
            },
            None => DEFAULT_BUFFER_MS,
        };
        SpecParse::Parsed {
            speaker_in: args[1],
            speaker_out: args[2],
            mic_in: None,
            mic_out: None,
            buffer_ms: b,
        }
    } else {
        spec_parse_named(args, 1, None, None, None, None, DEFAULT_BUFFER_MS)
    }
}

/// The byte-sequence views of the arguments.
pub open spec fn deep(args: Seq<Vec<u8>>) -> Seq<Seq<u8>> {
    args.map_values(|v: Vec<u8>| v@)
}

fn clone_arg(v: &Vec<u8>) -> (r: Vec<u8>)
    ensures
        r@ == v@,
{
    vstd::slice::slice_to_vec(v.as_slice())
}

/// Parse the command line (program name first, one byte vector per
/// argument).
pub fn parse_args(args: &Vec<Vec<u8>>) -> (r: ParseOutcome)
    ensures
        spec_outcome_of(r) == spec_parse_args(deep(args@)),
{
    let ghost dargs = deep(args@);
    let n = args.len();
    if n >= 3 && !(args[1].len() >= 2 && args[1][0] == 45 && args[1][1] == 45) {
        let buffer_ms: u32 = if n >= 4 {
            match parse_u32(args[3].as_slice()) {
                Some(v) => v,
                None => DEFAULT_BUFFER_MS,
            }
        } else {
            DEFAULT_BUFFER_MS
        };
        return ParseOutcome::Parsed(
            Args {
                speaker_in: clone_arg(&args[1]),
                speaker_out: clone_arg(&args[2]),
                mic_in: None,
                mic_out: None,
                buffer_ms,
            },
        );
    }

    let mut speaker_in: Option<Vec<u8>> = None;
    let mut speaker_out: Option<Vec<u8>> = None;
    let mut mic_in: Option<Vec<u8>> = None;
    let mut mic_out: Option<Vec<u8>> = None;
    let mut buffer_ms: u32 = DEFAULT_BUFFER_MS;

    let ghost goal = spec_parse_named(dargs, 1, None, None, None, None, DEFAULT_BUFFER_MS);

    let mut i: usize = 1;
    while i < n
        invariant
            1 <= i,
            n == args@.len(),
            dargs == deep(args@),
            spec_parse_named(
                dargs,
                i as int,
                opt_view(speaker_in),
                opt_view(speaker_out),
                opt_view(mic_in),
                opt_view(mic_out),
                buffer_ms,
            ) == goal,
        decreases n - i,
    {
        let ghost i0 = i as int;
        let ghost g_sin = opt_view(speaker_in);
        let ghost g_sout = opt_view(speaker_out);
        let ghost g_min = opt_view(mic_in);
        let ghost g_mout = opt_view(mic_out);
        let ghost g_buf = buffer_ms;
        let a = &args[i];
        proof {
            assert(dargs[i0] == args@[i0]@);
        }
        if bytes_eq(a.as_slice(), "--speaker-in".as_bytes()) {
            speaker_in = take_value(args, i + 1);
            i = i + 1;
            if i < n {
                i = i + 1;
            }
        } else if bytes_eq(a.as_slice(), "--speaker-out".as_bytes()) {
            speaker_out = take_value(args, i + 1);
            i = i + 1;
            if i < n {
                i = i + 1;
            }
        } else if bytes_eq(a.as_slice(), "--mic-in".as_bytes()) {
            mic_in = take_value(args, i + 1);
            i = i + 1;
            if i < n {
                i = i + 1;
            }
        } else if bytes_eq(a.as_slice(), "--mic-out".as_bytes()) {
            mic_out = take_value(args, i + 1);
            i = i + 1;
            if i < n {
                i = i + 1;
            }
        } else if bytes_eq(a.as_slice(), "--buffer".as_bytes()) {
            if i + 1 < n {
                buffer_ms = match parse_u32(args[i + 1].as_slice()) {
                    Some(v) => v,
                    None => DEFAULT_BUFFER_MS,
                };
            }
            i = i + 1;
            if i < n {
                i = i + 1;
            }
        } else if bytes_eq(a.as_slice(), "--help".as_bytes()) || bytes_eq(
            a.as_slice(),
            "-h".as_bytes(),
        ) {
            proof {
                assert(spec_parse_named(dargs, i0, g_sin, g_sout, g_min, g_mout, g_buf)
                    == SpecParse::Help);
            }
            return ParseOutcome::Help;
        } else {
            proof {
                assert(spec_parse_named(dargs, i0, g_sin, g_sout, g_min, g_mout, g_buf)
                    == (SpecParse::UnknownArgument { arg: dargs[i0] }));
            }
            return ParseOutcome::UnknownArgument(clone_arg(a));
        }
        proof {
            assert(i as int == spec_next_i(dargs, i0));
            assert(spec_parse_named(dargs, i0, g_sin, g_sout, g_min, g_mout, g_buf)
                == spec_parse_named(
                dargs,
                i as int,
                opt_view(speaker_in),
                opt_view(speaker_out),
                opt_view(mic_in),
                opt_view(mic_out),
                buffer_ms,
            ));
        }
    }

    match speaker_in {
        None => ParseOutcome::MissingSpeakerIn,
        Some(sin) => match speaker_out {
            None => ParseOutcome::MissingSpeakerOut,
            Some(sout) => ParseOutcome::Parsed(
                Args { speaker_in: sin, speaker_out: sout, mic_in, mic_out, buffer_ms },
            ),
        },
    }
}

/// The byte-sequence view of an optional argument value.
pub open spec fn opt_view(o: Option<Vec<u8>>) -> Option<Seq<u8>> {
    match o {
        Some(v) => Some(v@),
        None => None,
    }
}

/// The value following a flag, if there is one.
fn take_value(args: &Vec<Vec<u8>>, j: usize) -> (r: Option<Vec<u8>>)
    ensures
        opt_view(r) == spec_arg_opt(deep(args@), j as int),
{
    if j < args.len() {
        Some(clone_arg(&args[j]))
    } else {
        None
    }
}

/// The sample capacity the speaker and mic rings are created with:
/// `buffer_ms` milliseconds at the sizing defaults, times four.
pub fn ring_capacity_samples(buffer_ms: u32) -> (r: usize)
    requires
        DEFAULT_SAMPLE_RATE as int * buffer_ms as int <= u32::MAX,
    ensures
        r == (DEFAULT_SAMPLE_RATE as int * buffer_ms as int / 1000) * DEFAULT_CHANNELS as int
            * 4,
{
    (DEFAULT_SAMPLE_RATE * buffer_ms / 1000) as usize * DEFAULT_CHANNELS as usize * 4
}

} // verus!
