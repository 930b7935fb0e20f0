//! The receive and transmit commands that drive the radio hardware, and the
//! checks around recording and replay.
use vstd::prelude::*;
use crate::config::{checked, Config, ConfigError, ConfigView};
use crate::json::{entry, list, member_views, number, object, text, json_views, Json, JsonView};
use crate::text::{decimal, digit_char, push_decimal, string_of, text_eq};

verus! {

/// Why a radio command cannot be prepared.
#[derive(Debug, Clone, Copy, PartialEq, Eq, Structural)]
pub enum RadioError {
    /// The configuration breaks a rule.
    Invalid(ConfigError),
    /// The synthetic demo source has no receive command.
    Demo,
    /// A recording must last 1..=3600 seconds.
    Duration,
    /// Replay needs a HackRF.
    NotHackrf,
    /// Transmit gain must be 0..=47 dB.
    Gain,
    /// A replay file must hold a non-empty, even number of bytes.
    Length,
    /// Replay, with its margin, would last longer than 3615 seconds.
    TooLong,
    /// Playback, with its margin, would last longer than 3615 seconds.
    Playback,
    /// Transmission was asked for without its explicit confirmation.
    Unconfirmed,
}

impl RadioError {
    pub fn message(&self) -> (s: &'static str)
        ensures
            s@ == self.explanation(),
    {
        match self {
            RadioError::Invalid(e) => e.message(),
            RadioError::Demo => "demo is a synthetic TUI source; use encode to create fixtures",
            RadioError::Duration => "duration must be 1..3600 seconds",
            RadioError::NotHackrf => "RF replay requires HackRF; RTL-SDR is receive-only",
            RadioError::Gain => "TX gain must be 0..47 dB",
            RadioError::Length => "expected nonempty signed 8-bit interleaved IQ (cs8)",
            RadioError::TooLong => "replay limited to one hour",
            RadioError::Playback => "audio playback limited to one hour",
            RadioError::Unconfirmed => "RF transmission requires --confirm-tx; use a suitable test load or your authorized RF setup",
        }
    }

    /// The text that explains the refusal.
    pub open spec fn explanation(&self) -> Seq<char> {
        match *self {
            RadioError::Invalid(e) => e.explanation(),
            RadioError::Demo => "demo is a synthetic TUI source; use encode to create fixtures"@,
            RadioError::Duration => "duration must be 1..3600 seconds"@,
            RadioError::NotHackrf => "RF replay requires HackRF; RTL-SDR is receive-only"@,
            RadioError::Gain => "TX gain must be 0..47 dB"@,
            RadioError::Length => "expected nonempty signed 8-bit interleaved IQ (cs8)"@,
            RadioError::TooLong => "replay limited to one hour"@,
            RadioError::Playback => "audio playback limited to one hour"@,
            RadioError::Unconfirmed => "RF transmission requires --confirm-tx; use a suitable test load or your authorized RF setup"@,
        }
    }
}

pub open spec fn texts(v: Seq<String>) -> Seq<Seq<char>> {
    Seq::new(v.len(), |i: int| v[i]@)
}

/// A gain in tenths of a decibel, written in decibels as a double prints:
/// `200` is `20`, `205` is `20.5`.
pub open spec fn tenths(g: nat) -> Seq<char> {
    if g % 10 == 0 {
        decimal(g / 10)
    } else {
        decimal(g / 10) + seq!['.', digit_char(g % 10)]
    }
}

pub open spec fn serial_args(c: ConfigView) -> Seq<Seq<char>> {
    if c.serial.len() > 0 {
        seq!["-d"@, c.serial]
    } else {
        Seq::empty()
    }
}

pub open spec fn count_args(count: Option<u64>) -> Seq<Seq<char>> {
    match count {
        Some(n) => seq!["-n"@, decimal(n as nat)],
        None => Seq::empty(),
    }
}

/// The program and arguments that receive from the configured device into
/// `output` (`-` for standard output), for `count` samples when given.
pub open spec fn receive_command(c: ConfigView, output: Seq<char>, count: Option<u64>) -> Result<
    (Seq<char>, Seq<Seq<char>>),
    RadioError,
> {
    if let Err(e) = checked(c) {
        Err(RadioError::Invalid(e))
    } else if c.device == "hackrf"@ {
        Ok(
            (
                "hackrf_transfer"@,
                seq![
                    "-r"@,
                    output,
                    "-f"@,
                    decimal(c.frequency as nat),
                    "-s"@,
                    decimal(c.sample_rate as nat),
                    "-l"@,
                    decimal(c.lna_gain as nat),
                    "-g"@,
                    decimal(c.vga_gain as nat),
                ] + serial_args(c) + count_args(count),
            ),
        )
    } else if c.device == "rtl"@ {
        Ok(
            (
                "rtl_sdr"@,
                seq![
                    "-f"@,
                    decimal(c.frequency as nat),
                    "-s"@,
                    decimal(c.sample_rate as nat),
                    "-g"@,
                    tenths(c.rtl_gain as nat),
                ] + serial_args(c) + count_args(count) + seq![output],
            ),
        )
    } else if c.device == "audio"@ {
        Ok(
            (
                "arecord"@,
                seq![
                    "-q"@,
                    "-D"@,
                    c.audio_device,
                    "-t"@,
                    "raw"@,
                    "-f"@,
                    "S16_LE"@,
                    "-c"@,
                    "1"@,
                    "-r"@,
                    decimal(c.sample_rate as nat),
                ] + match count {
                    Some(n) => seq![
                        "-d"@,
                        decimal(
                            if (n as nat) / (c.sample_rate as nat) > 1 {
                                (n as nat) / (c.sample_rate as nat)
                            } else {
                                1
                            },
                        ),
                    ],
                    None => Seq::empty(),
                } + seq![output],
            ),
        )
    } else {
        Err(RadioError::Demo)
    }
}

pub(crate) fn push_text(v: &mut Vec<String>, s: &str)
    ensures
        texts(final(v)@) == texts(old(v)@).push(s@),
{
    v.push(String::from_str(s));
    assert(texts(v@) =~= texts(old(v)@).push(s@));
}

pub(crate) fn push_number(v: &mut Vec<String>, n: u64)
    ensures
        texts(final(v)@) == texts(old(v)@).push(decimal(n as nat)),
{
    let mut d: Vec<char> = Vec::new();
    push_decimal(&mut d, n);
    assert(d@ == decimal(n as nat));
    v.push(string_of(&d));
    assert(texts(v@) =~= texts(old(v)@).push(decimal(n as nat)));
}

fn push_tenths(v: &mut Vec<String>, g: u32)
    ensures
        texts(final(v)@) == texts(old(v)@).push(tenths(g as nat)),
{
    let mut d: Vec<char> = Vec::new();
    push_decimal(&mut d, (g / 10) as u64);
    if g % 10 != 0 {
        d.push('.');
        let digit = ((g % 10) as u8 + 48) as char;
        assert(digit == digit_char(g as nat % 10));
        d.push(digit);
    }
    assert(d@ =~= tenths(g as nat));
    v.push(string_of(&d));
    assert(texts(v@) =~= texts(old(v)@).push(tenths(g as nat)));
}

fn push_serial(v: &mut Vec<String>, c: &Config)
    ensures
        texts(final(v)@) == texts(old(v)@) + serial_args(c@),
{
    if !c.serial.as_str().is_empty() {
        push_text(v, "-d");
        push_text(v, c.serial.as_str());
        assert(texts(v@) =~= texts(old(v)@) + serial_args(c@));
    } else {
        assert(texts(v@) =~= texts(old(v)@) + serial_args(c@));
    }
}

fn push_count(v: &mut Vec<String>, count: Option<u64>)
    ensures
        texts(final(v)@) == texts(old(v)@) + count_args(count),
{
    if let Some(n) = count {
        push_text(v, "-n");
        push_number(v, n);
    }
    assert(texts(v@) =~= texts(old(v)@) + count_args(count));
}

/// `args` hold the option `flag` directly followed by `value`.
pub open spec fn has_option(args: Seq<Seq<char>>, flag: Seq<char>, value: Seq<char>) -> bool {
    exists|i: int| 0 <= i && i + 1 < args.len() && #[trigger] args[i] == flag && args[i + 1] == value
}

/// A radio told to receive `n` samples is given that count: for a HackRF and
/// an RTL-SDR alike, the arguments hold `-n` followed by `n` in decimal, so
/// the receiver stops after them.
pub proof fn radios_stop_after_the_requested_count(c: ConfigView, output: Seq<char>, n: u64)
    requires
        checked(c) is Ok,
        c.device == "hackrf"@ || c.device == "rtl"@,
    ensures
        receive_command(c, output, Some(n)) matches Ok((program, args)) && has_option(
            args,
            "-n"@,
            decimal(n as nat),
        ),
{
    if c.device == "hackrf"@ {
        if let Ok((program, args)) = receive_command(c, output, Some(n)) {
            let i: int = 10 + serial_args(c).len() as int;
            assert(args[i] == "-n"@ && args[i + 1] == decimal(n as nat));
        }
    } else {
        if let Ok((program, args)) = receive_command(c, output, Some(n)) {
            let i: int = 6 + serial_args(c).len() as int;
            assert(args[i] == "-n"@ && args[i + 1] == decimal(n as nat));
        }
    }
}

/// A radio recording of `seconds` is bounded to `sample_rate * seconds`
/// samples: the planned receive command holds `-n` with that count.
pub proof fn recordings_are_bounded_by_their_duration(c: ConfigView, seconds: u32)
    requires
        checked(c) is Ok,
        c.device == "hackrf"@ || c.device == "rtl"@,
        1 <= seconds <= 3600,
    ensures
        c.sample_rate * seconds <= u64::MAX,
        receive_command(c, "-"@, Some((c.sample_rate * seconds) as u64)) matches Ok((program, args))
            && has_option(args, "-n"@, decimal((c.sample_rate * seconds) as nat)),
{
    assert(c.sample_rate * seconds <= 0xffff_ffff * 3600) by (nonlinear_arith)
        requires
            c.sample_rate <= 0xffff_ffff,
            seconds <= 3600,
    ;
    radios_stop_after_the_requested_count(c, "-"@, (c.sample_rate * seconds) as u64);
}

/// The program and arguments that receive from the configured device; see
/// `receive_command`.
pub fn command(c: &Config, output: &str, count: Option<u64>) -> (r: Result<
    (String, Vec<String>),
    RadioError,
>)
    ensures
        match receive_command(c@, output@, count) {
            Ok((program, args)) => r matches Ok((p, a)) && p@ == program && texts(a@) == args,
            Err(e) => r == Err::<(String, Vec<String>), RadioError>(e),
        },
{
    if let Err(e) = c.validate() {
        return Err(RadioError::Invalid(e));
    }
    proof {
        crate::config::lemma_device_names();
    }
    let device = c.device.as_str();
    let mut args: Vec<String> = Vec::new();
    if text_eq(device, "hackrf") {
        push_text(&mut args, "-r");
        push_text(&mut args, output);
        push_text(&mut args, "-f");
        push_number(&mut args, c.frequency);
        push_text(&mut args, "-s");
        push_number(&mut args, c.sample_rate as u64);
        push_text(&mut args, "-l");
        push_number(&mut args, c.lna_gain as u64);
        push_text(&mut args, "-g");
        push_number(&mut args, c.vga_gain as u64);
        let ghost head = texts(args@);
        push_serial(&mut args, c);
        push_count(&mut args, count);
        proof {
            reveal_strlit("-r");
            assert(head =~= seq![
                "-r"@,
                output@,
                "-f"@,
                decimal(c.frequency as nat),
                "-s"@,
                decimal(c.sample_rate as nat),
                "-l"@,
                decimal(c.lna_gain as nat),
                "-g"@,
                decimal(c.vga_gain as nat),
            ]);
        }
        Ok((String::from_str("hackrf_transfer"), args))
    } else if text_eq(device, "rtl") {
        push_text(&mut args, "-f");
        push_number(&mut args, c.frequency);
        push_text(&mut args, "-s");
        push_number(&mut args, c.sample_rate as u64);
        push_text(&mut args, "-g");
        push_tenths(&mut args, c.rtl_gain);
        let ghost head = texts(args@);
        push_serial(&mut args, c);
        push_count(&mut args, count);
        push_text(&mut args, output);
        proof {
            assert(head =~= seq![
                "-f"@,
                decimal(c.frequency as nat),
                "-s"@,
                decimal(c.sample_rate as nat),
                "-g"@,
                tenths(c.rtl_gain as nat),
            ]);
        }
        Ok((String::from_str("rtl_sdr"), args))
    } else if text_eq(device, "audio") {
        push_text(&mut args, "-q");
        push_text(&mut args, "-D");
        push_text(&mut args, c.audio_device.as_str());
        push_text(&mut args, "-t");
        push_text(&mut args, "raw");
        push_text(&mut args, "-f");
        push_text(&mut args, "S16_LE");
        push_text(&mut args, "-c");
        push_text(&mut args, "1");
        push_text(&mut args, "-r");
        push_number(&mut args, c.sample_rate as u64);
        let ghost head = texts(args@);
        if let Some(n) = count {
            let seconds = n / (c.sample_rate as u64);
            push_text(&mut args, "-d");
            push_number(&mut args, if seconds > 1 { seconds } else { 1 });
        }
        let ghost mid = texts(args@);
        push_text(&mut args, output);
        proof {
            assert(head =~= seq![
                "-q"@,
                "-D"@,
                c.audio_device@,
                "-t"@,
                "raw"@,
                "-f"@,
                "S16_LE"@,
                "-c"@,
                "1"@,
                "-r"@,
                decimal(c.sample_rate as nat),
            ]);
            assert(mid =~= head + match count {
                Some(n) => seq![
                    "-d"@,
                    decimal(
                        if (n as nat) / (c.sample_rate as nat) > 1 {
                            (n as nat) / (c.sample_rate as nat)
                        } else {
                            1
                        },
                    ),
                ],
                None => Seq::empty(),
            });
        }
        Ok((String::from_str("arecord"), args))
    } else {
        Err(RadioError::Demo)
    }
}


/// The file format of a recording from a device.
pub open spec fn recording_format(device: Seq<char>) -> Seq<char> {
    if device == "rtl"@ {
        "cu8"@
    } else if device == "audio"@ {
        "wav"@
    } else {
        "cs8"@
    }
}

pub fn recording_format_of(device: &str) -> (r: &'static str)
    ensures
        r@ == recording_format(device@),
{
    if text_eq(device, "rtl") {
        "cu8"
    } else if text_eq(device, "audio") {
        "wav"
    } else {
        "cs8"
    }
}

/// How a recording of `seconds` is made: the number of samples it must hold,
/// and the program and arguments that write it to standard output. Audio is
/// recorded as WAV for the whole duration; radios receive `count` samples.
pub struct CapturePlan {
    pub count: u64,
    pub program: String,
    pub args: Vec<String>,
}

pub open spec fn wav_record_args(c: ConfigView, seconds: u32) -> Seq<Seq<char>> {
    seq![
        "-q"@,
        "-D"@,
        c.audio_device,
        "-t"@,
        "wav"@,
        "-f"@,
        "S16_LE"@,
        "-c"@,
        "1"@,
        "-r"@,
        decimal(c.sample_rate as nat),
        "-d"@,
        decimal(seconds as nat),
        "-"@,
    ]
}

/// Plans a recording of `seconds` seconds; see `CapturePlan`.
pub fn capture_plan(c: &Config, seconds: u32) -> (r: Result<CapturePlan, RadioError>)
    ensures
        !(1 <= seconds <= 3600) ==> r == Err::<CapturePlan, RadioError>(RadioError::Duration),
        1 <= seconds <= 3600 ==> match receive_command(
            c@,
            "-"@,
            Some((c.sample_rate as u64 * seconds as u64) as u64),
        ) {
            Err(e) => r == Err::<CapturePlan, RadioError>(e),
            Ok((program, args)) => r matches Ok(plan) && plan.count == c.sample_rate as u64
                * seconds as u64 && if c@.device == "audio"@ {
                plan.program@ == "arecord"@ && texts(plan.args@) == wav_record_args(c@, seconds)
            } else {
                plan.program@ == program && texts(plan.args@) == args
            },
        },
{
    if !(1 <= seconds && seconds <= 3600) {
        return Err(RadioError::Duration);
    }
    let rate = c.sample_rate as u64;
    let secs = seconds as u64;
    assert(rate * secs <= 0xffff_ffff * 0xffff_ffffu64) by (nonlinear_arith)
        requires
            rate <= 0xffff_ffff,
            secs <= 0xffff_ffff,
    ;
    let count = rate * secs;
    let (program, args) = match command(c, "-", Some(count)) {
        Ok(pa) => pa,
        Err(e) => {
            return Err(e);
        },
    };
    if text_eq(c.device.as_str(), "audio") {
        let mut a: Vec<String> = Vec::new();
        push_text(&mut a, "-q");
        push_text(&mut a, "-D");
        push_text(&mut a, c.audio_device.as_str());
        push_text(&mut a, "-t");
        push_text(&mut a, "wav");
        push_text(&mut a, "-f");
        push_text(&mut a, "S16_LE");
        push_text(&mut a, "-c");
        push_text(&mut a, "1");
        push_text(&mut a, "-r");
        push_number(&mut a, c.sample_rate as u64);
        push_text(&mut a, "-d");
        push_number(&mut a, seconds as u64);
        push_text(&mut a, "-");
        assert(texts(a@) =~= wav_record_args(c@, seconds));
        return Ok(CapturePlan { count, program: String::from_str("arecord"), args: a });
    }
    Ok(CapturePlan { count, program, args })
}

/// A finished recording is complete when it holds at least two bytes per sample.
pub fn capture_complete(size: u64, count: u64) -> (r: bool)
    ensures
        r == (size >= 2 * count),
{
    if count > u64::MAX / 2 {
        false
    } else {
        size >= count * 2
    }
}

pub open spec fn replay_args(c: ConfigView, gain: u32) -> Seq<Seq<char>> {
    seq![
        "-f"@,
        decimal(c.frequency as nat),
        "-s"@,
        decimal(c.sample_rate as nat),
        "-x"@,
        decimal(gain as nat),
        "-a"@,
        "0"@,
    ] + serial_args(c)
}

/// Every transmission must be confirmed on its own invocation: without the
/// confirmation nothing is sent.
pub fn confirm_transmit(confirm: bool) -> (r: Result<(), RadioError>)
    ensures
        r is Ok <==> confirm,
        !confirm ==> r == Err::<(), RadioError>(RadioError::Unconfirmed),
{
    if confirm {
        Ok(())
    } else {
        Err(RadioError::Unconfirmed)
    }
}

/// How a file of `len` bytes is replayed: the arguments that follow
/// `hackrf_transfer -t <file>`, and the seconds allowed (the file's duration
/// plus 15).
pub struct ReplayPlan {
    pub args: Vec<String>,
    pub seconds: u64,
}

/// Plans the transmission of a signed 8-bit I/Q file of `len` bytes at `gain` dB.
pub fn replay_plan(c: &Config, gain: u32, len: u64) -> (r: Result<ReplayPlan, RadioError>)
    ensures
        c@.device != "hackrf"@ ==> r == Err::<ReplayPlan, RadioError>(RadioError::NotHackrf),
        c@.device == "hackrf"@ ==> match checked(c@) {
            Err(e) => r == Err::<ReplayPlan, RadioError>(RadioError::Invalid(e)),
            Ok(()) => if gain > 47 {
                r == Err::<ReplayPlan, RadioError>(RadioError::Gain)
            } else if len == 0 || len % 2 != 0 {
                r == Err::<ReplayPlan, RadioError>(RadioError::Length)
            } else if (len as int) / (2 * c.sample_rate as int) + 15 > 3615 {
                r == Err::<ReplayPlan, RadioError>(RadioError::TooLong)
            } else {
                r matches Ok(plan) && texts(plan.args@) == replay_args(c@, gain) && plan.seconds
                    == (len as int) / (2 * c.sample_rate as int) + 15
            },
        },
{
    if !text_eq(c.device.as_str(), "hackrf") {
        return Err(RadioError::NotHackrf);
    }
    if let Err(e) = c.validate() {
        return Err(RadioError::Invalid(e));
    }
    if gain > 47 {
        return Err(RadioError::Gain);
    }
    if len == 0 || len % 2 != 0 {
        return Err(RadioError::Length);
    }
    let mut args: Vec<String> = Vec::new();
    push_text(&mut args, "-f");
    push_number(&mut args, c.frequency);
    push_text(&mut args, "-s");
    push_number(&mut args, c.sample_rate as u64);
    push_text(&mut args, "-x");
    push_number(&mut args, gain as u64);
    push_text(&mut args, "-a");
    push_text(&mut args, "0");
    let ghost head = texts(args@);
    push_serial(&mut args, c);
    assert(head =~= seq![
        "-f"@,
        decimal(c.frequency as nat),
        "-s"@,
        decimal(c.sample_rate as nat),
        "-x"@,
        decimal(gain as nat),
        "-a"@,
        "0"@,
    ]);
    let divisor = c.sample_rate as u64 * 2;
    assert(len / divisor <= len / 2) by (nonlinear_arith)
        requires
            divisor >= 2,
    ;
    let seconds = len / divisor + 15;
    if seconds > 3615 {
        return Err(RadioError::TooLong);
    }
    Ok(ReplayPlan { args, seconds })
}

/// How many trailing bytes of a program's diagnostics are kept.
pub const TAIL_BYTES: usize = 8192;

/// The last `TAIL_BYTES` bytes of `s` (all of it when shorter).
pub open spec fn tail_of(s: Seq<u8>) -> Seq<u8> {
    if s.len() > TAIL_BYTES {
        s.skip(s.len() - TAIL_BYTES)
    } else {
        s
    }
}

/// Appends newly read diagnostics, keeping only the last `TAIL_BYTES` bytes.
pub fn keep_tail(tail: &mut Vec<u8>, bytes: &[u8])
    ensures
        final(tail)@ == tail_of(old(tail)@ + bytes@),
{
    let ghost all = old(tail)@ + bytes@;
    let mut i: usize = 0;
    while i < bytes.len()
        invariant
            i <= bytes@.len(),
            tail@ == old(tail)@ + bytes@.subrange(0, i as int),
        decreases bytes@.len() - i,
    {
        tail.push(bytes[i]);
        i = i + 1;
        assert(tail@ == old(tail)@ + bytes@.subrange(0, i as int));
    }
    assert(bytes@.subrange(0, bytes@.len() as int) == bytes@);
    if tail.len() > TAIL_BYTES {
        let start = tail.len() - TAIL_BYTES;
        let mut kept: Vec<u8> = Vec::new();
        let mut j = start;
        while j < tail.len()
            invariant
                start <= j <= tail@.len(),
                kept@ == tail@.subrange(start as int, j as int),
            decreases tail@.len() - j,
        {
            kept.push(tail[j]);
            j = j + 1;
            assert(kept@ == tail@.subrange(start as int, j as int));
        }
        *tail = kept;
    }
}

/// The seconds allowed to play a WAV file of `frames` frames at `rate` frames
/// per second: its whole seconds plus 15, at most 3615.
pub fn playback_seconds(frames: u32, rate: u32) -> (r: Result<u64, RadioError>)
    requires
        rate > 0,
    ensures
        frames as int / rate as int + 15 <= 3615 ==> r == Ok::<u64, RadioError>(
            (frames as int / rate as int + 15) as u64,
        ),
        frames as int / rate as int + 15 > 3615 ==> r == Err::<u64, RadioError>(RadioError::Playback),
{
    let seconds = frames as u64 / rate as u64 + 15;
    if seconds > 3615 {
        Err(RadioError::Playback)
    } else {
        Ok(seconds)
    }
}

/// The extension of a recording's metadata sidecar: `wav.json` beside audio,
/// `sigmf-meta` beside RF recordings.
pub open spec fn sidecar_extension(format: Seq<char>) -> Seq<char> {
    if format == "wav"@ {
        "wav.json"@
    } else {
        "sigmf-meta"@
    }
}

/// A recording's metadata: for audio its format, rate, one channel, source
/// and size; for RF recordings a SigMF-style document whose global part names
/// the sample type (`cu8`, else `ci8`), the rate, SigMF version 1.2.5, a
/// description and the recording format, with one capture at sample 0 on the
/// tuned frequency and no annotations.
pub open spec fn sidecar_document(c: ConfigView, size: u64) -> JsonView {
    let format = recording_format(c.device);
    if format == "wav"@ {
        JsonView::Object(
            seq![
                ("format"@, JsonView::Text("wav"@)),
                ("sample_rate"@, JsonView::Number(decimal(c.sample_rate as nat))),
                ("channels"@, JsonView::Number(decimal(1))),
                ("source"@, JsonView::Text("audio"@)),
                ("bytes"@, JsonView::Number(decimal(size as nat))),
            ],
        )
    } else {
        JsonView::Object(
            seq![
                (
                    "global"@,
                    JsonView::Object(
                        seq![
                            (
                                "core:datatype"@,
                                JsonView::Text(
                                    if format == "cu8"@ {
                                        "cu8"@
                                    } else {
                                        "ci8"@
                                    },
                                ),
                            ),
                            ("core:sample_rate"@, JsonView::Number(decimal(c.sample_rate as nat))),
                            ("core:version"@, JsonView::Text("1.2.5"@)),
                            ("core:description"@, JsonView::Text("THUGS(red) RF recording"@)),
                            ("thugsrf:format"@, JsonView::Text(format)),
                        ],
                    ),
                ),
                (
                    "captures"@,
                    JsonView::List(
                        seq![
                            JsonView::Object(
                                seq![
                                    ("core:sample_start"@, JsonView::Number(decimal(0))),
                                    ("core:frequency"@, JsonView::Number(decimal(c.frequency as nat))),
                                ],
                            ),
                        ],
                    ),
                ),
                ("annotations"@, JsonView::List(Seq::empty())),
            ],
        )
    }
}

/// The sidecar saved beside a finished recording of `size` bytes: its
/// extension and its document.
pub fn recording_sidecar(c: &Config, size: u64) -> (r: (String, Json))
    ensures
        r.0@ == sidecar_extension(recording_format(c@.device)),
        r.1@ == sidecar_document(c@, size),
{
    let format = recording_format_of(c.device.as_str());
    if text_eq(format, "wav") {
        let mut f: Vec<(String, Json)> = Vec::new();
        f.push(entry("format", text("wav")));
        f.push(entry("sample_rate", number(c.sample_rate as u64)));
        f.push(entry("channels", number(1)));
        f.push(entry("source", text("audio")));
        f.push(entry("bytes", number(size)));
        let ghost fv = member_views(f@);
        let j = object(f);
        assert(fv =~= seq![
            ("format"@, JsonView::Text("wav"@)),
            ("sample_rate"@, JsonView::Number(decimal(c.sample_rate as nat))),
            ("channels"@, JsonView::Number(decimal(1))),
            ("source"@, JsonView::Text("audio"@)),
            ("bytes"@, JsonView::Number(decimal(size as nat))),
        ]);
        ("wav.json".to_owned(), j)
    } else {
        let datatype = if text_eq(format, "cu8") {
            "cu8"
        } else {
            "ci8"
        };
        let mut g: Vec<(String, Json)> = Vec::new();
        g.push(entry("core:datatype", text(datatype)));
        g.push(entry("core:sample_rate", number(c.sample_rate as u64)));
        g.push(entry("core:version", text("1.2.5")));
        g.push(entry("core:description", text("THUGS(red) RF recording")));
        g.push(entry("thugsrf:format", text(format)));
        let ghost gv = member_views(g@);
        let global = object(g);
        let mut k: Vec<(String, Json)> = Vec::new();
        k.push(entry("core:sample_start", number(0)));
        k.push(entry("core:frequency", number(c.frequency)));
        let ghost kv = member_views(k@);
        let capture = object(k);
        let mut cs: Vec<Json> = Vec::new();
        cs.push(capture);
        let ghost csv = json_views(cs@);
        let captures = list(cs);
        let none: Vec<Json> = Vec::new();
        let ghost nv = json_views(none@);
        let annotations = list(none);
        let mut f: Vec<(String, Json)> = Vec::new();
        f.push(entry("global", global));
        f.push(entry("captures", captures));
        f.push(entry("annotations", annotations));
        let ghost fv = member_views(f@);
        let j = object(f);
        assert(gv =~= seq![
            (
                "core:datatype"@,
                JsonView::Text(
                    if format@ == "cu8"@ {
                        "cu8"@
                    } else {
                        "ci8"@
                    },
                ),
            ),
            ("core:sample_rate"@, JsonView::Number(decimal(c.sample_rate as nat))),
            ("core:version"@, JsonView::Text("1.2.5"@)),
            ("core:description"@, JsonView::Text("THUGS(red) RF recording"@)),
            ("thugsrf:format"@, JsonView::Text(format@)),
        ]);
        assert(kv =~= seq![
            ("core:sample_start"@, JsonView::Number(decimal(0))),
            ("core:frequency"@, JsonView::Number(decimal(c.frequency as nat))),
        ]);
        assert(csv =~= seq![JsonView::Object(kv)]);
        assert(nv =~= Seq::<JsonView>::empty());
        assert(fv =~= seq![
            ("global"@, JsonView::Object(gv)),
            ("captures"@, JsonView::List(csv)),
            ("annotations"@, JsonView::List(nv)),
        ]);
        ("sigmf-meta".to_owned(), j)
    }
}

} // verus!
