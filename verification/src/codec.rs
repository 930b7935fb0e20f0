//! Test-signal encoding and demodulation: the checks and sample arithmetic
//! around the signal processing.
use vstd::prelude::*;
use crate::json::{json_of, parse_json, Json};
use crate::text::{chars_of, text_eq};

verus! {

/// Why an encoding or demodulation request is refused.
#[derive(Debug, Clone, Copy, PartialEq, Eq, Structural)]
pub enum CodecError {
    /// The bits must be 1..=100000 binary digits.
    Bits,
    /// The baud must be positive and at most the sample rate, which is at most 20 MS/s.
    Rate,
    /// The output would exceed 100 million samples.
    TooLong,
    /// The encoder writes `ook` or `afsk`.
    EncodeMode,
    /// The builtin decoders are `ook`, `fsk` and `rds`.
    DecodeMode,
    /// Demodulation is `am` or `fm`.
    DemodMode,
    /// The recording holds no samples.
    Empty,
    /// AFSK audio needs at least 8000 samples per second.
    AfskRate,
    /// Demodulation needs at least 48 kHz.
    DemodRate,
    /// The RDS decoder wrote more than 1 MiB.
    RdsTooLarge,
    /// The RDS decoder's output is not a JSON document.
    RdsNotJson,
}

impl CodecError {
    pub fn message(&self) -> (s: &'static str)
        ensures
            s@ == self.explanation(),
    {
        match self {
            CodecError::Bits => "bits must contain 1..100000 binary digits",
            CodecError::Rate => "invalid rate/baud",
            CodecError::TooLong => "output exceeds 100 million samples",
            CodecError::EncodeMode => "mode must be ook (cs8 IQ) or afsk (WAV)",
            CodecError::DecodeMode => "builtin decoder must be ook, fsk or rds; use addon run for protocol addons",
            CodecError::DemodMode => "mode must be am or fm",
            CodecError::Empty => "empty recording",
            CodecError::AfskRate => "AFSK requires at least 8000 samples/sec",
            CodecError::DemodRate => "demodulation requires sample rate >= 48 kHz",
            CodecError::RdsTooLarge => "RDS output exceeds 1 MiB",
            CodecError::RdsNotJson => "RDS decoder output is not valid JSON",
        }
    }

    /// The text that explains the refusal.
    pub open spec fn explanation(&self) -> Seq<char> {
        match *self {
            CodecError::Bits => "bits must contain 1..100000 binary digits"@,
            CodecError::Rate => "invalid rate/baud"@,
            CodecError::TooLong => "output exceeds 100 million samples"@,
            CodecError::EncodeMode => "mode must be ook (cs8 IQ) or afsk (WAV)"@,
            CodecError::DecodeMode => "builtin decoder must be ook, fsk or rds; use addon run for protocol addons"@,
            CodecError::DemodMode => "mode must be am or fm"@,
            CodecError::Empty => "empty recording"@,
            CodecError::AfskRate => "AFSK requires at least 8000 samples/sec"@,
            CodecError::DemodRate => "demodulation requires sample rate >= 48 kHz"@,
            CodecError::RdsTooLarge => "RDS output exceeds 1 MiB"@,
            CodecError::RdsNotJson => "RDS decoder output is not valid JSON"@,
        }
    }
}

pub open spec fn is_bit(c: char) -> bool {
    c == '0' || c == '1'
}

pub open spec fn all_bits(s: Seq<char>) -> bool {
    forall|i: int| 0 <= i < s.len() ==> #[trigger] is_bit(s[i])
}

/// Samples per symbol for an encoding of `bits` at `rate` samples per second
/// and `baud` symbols per second, or why the request is refused.
pub open spec fn symbol_samples(bits: Seq<char>, rate: u32, baud: u32) -> Result<u32, CodecError> {
    if !(bits.len() > 0 && bits.len() <= 100_000 && all_bits(bits)) {
        Err(CodecError::Bits)
    } else if !(baud > 0 && rate >= baud && rate <= 20_000_000) {
        Err(CodecError::Rate)
    } else if (rate / baud) * bits.len() > 100_000_000 {
        Err(CodecError::TooLong)
    } else {
        Ok(rate / baud)
    }
}

/// Checks an encoding request; see `symbol_samples`.
pub fn check_encode(bits: &str, rate: u32, baud: u32) -> (r: Result<u32, CodecError>)
    ensures
        r == symbol_samples(bits@, rate, baud),
{
    let v = chars_of(bits);
    let mut ok = v.len() > 0 && v.len() <= 100_000;
    let mut i: usize = 0;
    while i < v.len()
        invariant
            i <= v@.len(),
            ok == (v@.len() > 0 && v@.len() <= 100_000 && forall|j: int| 0 <= j < i ==> #[trigger] is_bit(v@[j])),
        decreases v@.len() - i,
    {
        let c: char = v[i];
        if !(c == '0' || c == '1') {
            assert(!is_bit(v@[i as int]));
            ok = false;
        } else {
            assert(is_bit(v@[i as int]));
        }
        i = i + 1;
    }
    if !ok {
        return Err(CodecError::Bits);
    }
    if !(baud > 0 && rate >= baud && rate <= 20_000_000) {
        return Err(CodecError::Rate);
    }
    let n = rate / baud;
    let len = v.len() as u64;
    assert((n as u64) * len <= 20_000_000 * 100_000) by (nonlinear_arith)
        requires
            n <= 20_000_000,
            len <= 100_000,
    ;
    if n as u64 * len > 100_000_000 {
        return Err(CodecError::TooLong);
    }
    Ok(n)
}

/// The interleaved signed 8-bit I/Q bytes of one on-off-keyed symbol: `n`
/// samples of amplitude 90 for a one, of silence for a zero.
pub fn ook_symbol(one: bool, n: u32) -> (r: Vec<u8>)
    ensures
        r@.len() == 2 * n,
        forall|i: int| 0 <= i < r@.len() ==> #[trigger] r@[i] == if i % 2 == 0 && one {
            90u8
        } else {
            0u8
        },
{
    let mut r: Vec<u8> = Vec::new();
    let level: u8 = if one { 90 } else { 0 };
    let mut k: u32 = 0;
    while k < n
        invariant
            k <= n,
            r@.len() == 2 * k,
            level == if one { 90u8 } else { 0u8 },
            forall|i: int| 0 <= i < r@.len() ==> #[trigger] r@[i] == if i % 2 == 0 && one {
                90u8
            } else {
                0u8
            },
        decreases n - k,
    {
        r.push(level);
        r.push(0);
        k = k + 1;
    }
    r
}

/// The modulations `encode` writes: `ook` (I/Q) and `afsk` (audio).
pub open spec fn encoding_mode_ok(mode: Seq<char>, rate: u32) -> Result<(), CodecError> {
    if mode == "ook"@ {
        Ok(())
    } else if mode == "afsk"@ {
        if rate >= 8000 {
            Ok(())
        } else {
            Err(CodecError::AfskRate)
        }
    } else {
        Err(CodecError::EncodeMode)
    }
}

pub fn check_encoding_mode(mode: &str, rate: u32) -> (r: Result<(), CodecError>)
    ensures
        r == encoding_mode_ok(mode@, rate),
{
    if text_eq(mode, "ook") {
        Ok(())
    } else if text_eq(mode, "afsk") {
        if rate >= 8000 {
            Ok(())
        } else {
            Err(CodecError::AfskRate)
        }
    } else {
        Err(CodecError::EncodeMode)
    }
}

/// The mode check of demodulation: `am` or `fm`.
pub fn check_demod_mode(mode: &str) -> (r: Result<(), CodecError>)
    ensures
        r is Ok <==> (mode@ == "am"@ || mode@ == "fm"@),
        r is Err ==> r == Err::<(), CodecError>(CodecError::DemodMode),
{
    if text_eq(mode, "am") || text_eq(mode, "fm") {
        Ok(())
    } else {
        Err(CodecError::DemodMode)
    }
}

/// Demodulated audio keeps every `decimation`-th sample, so that the output
/// rate is the input rate divided by it, near 48 kHz.
pub open spec fn demod_decimation(rate: u32) -> u32 {
    if rate / 48000 > 1 {
        (rate / 48000) as u32
    } else {
        1
    }
}

/// The decimation and output rate for demodulating `rate` samples per second.
pub fn demod_rates(rate: u32) -> (r: Result<(u32, u32), CodecError>)
    ensures
        rate < 48000 ==> r == Err::<(u32, u32), CodecError>(CodecError::DemodRate),
        rate >= 48000 ==> r == Ok::<(u32, u32), CodecError>(
            (demod_decimation(rate), rate / demod_decimation(rate)),
        ),
{
    if rate < 48000 {
        return Err(CodecError::DemodRate);
    }
    let q = rate / 48000;
    let decimation = if q > 1 {
        q
    } else {
        1
    };
    Ok((decimation, rate / decimation))
}

/// The builtin decoders.
#[derive(Debug, Clone, Copy, PartialEq, Eq, Structural)]
pub enum DecodeKind {
    /// On-off keying: pulse timings of the envelope.
    Ook,
    /// Frequency shift keying: the instantaneous frequency.
    Fsk,
    /// Radio Data System groups of an FM broadcast.
    Rds,
}

pub fn decode_kind(mode: &str) -> (r: Result<DecodeKind, CodecError>)
    ensures
        r == if mode@ == "ook"@ {
            Ok::<DecodeKind, CodecError>(DecodeKind::Ook)
        } else if mode@ == "fsk"@ {
            Ok(DecodeKind::Fsk)
        } else if mode@ == "rds"@ {
            Ok(DecodeKind::Rds)
        } else {
            Err(CodecError::DecodeMode)
        },
{
    if text_eq(mode, "ook") {
        Ok(DecodeKind::Ook)
    } else if text_eq(mode, "fsk") {
        Ok(DecodeKind::Fsk)
    } else if text_eq(mode, "rds") {
        Ok(DecodeKind::Rds)
    } else {
        Err(CodecError::DecodeMode)
    }
}

/// The runs of equal levels, in order: each level and how many samples in a
/// row have it.
pub open spec fn runs(levels: Seq<bool>) -> Seq<(bool, int)>
    decreases levels.len(),
{
    if levels.len() == 0 {
        Seq::empty()
    } else {
        let r = runs(levels.drop_last());
        let b = levels.last();
        if r.len() > 0 && r.last().0 == b {
            r.update(r.len() - 1, (b, r.last().1 + 1))
        } else {
            r.push((b, 1))
        }
    }
}

/// The most pulses the envelope decoder reports.
pub const MAX_PULSES: usize = 10000;

/// At most the first `MAX_PULSES` entries.
pub open spec fn capped(s: Seq<(bool, int)>) -> Seq<(bool, int)> {
    if s.len() > MAX_PULSES {
        s.take(MAX_PULSES as int)
    } else {
        s
    }
}

pub open spec fn pulse_view(p: Seq<(bool, u64)>) -> Seq<(bool, int)> {
    p.map_values(|x: (bool, u64)| (x.0, x.1 as int))
}

/// The pulses of an on-off keyed envelope, given whether each sample is above
/// the threshold: the first `MAX_PULSES` runs, each as its level and its
/// length in samples.
pub fn pulse_runs(levels: &Vec<bool>) -> (r: Vec<(bool, u64)>)
    ensures
        pulse_view(r@) == capped(runs(levels@)),
{
    let mut pulses: Vec<(bool, u64)> = Vec::new();
    let n = levels.len();
    if n == 0 {
        assert(pulse_view(pulses@) =~= capped(runs(levels@)));
        return pulses;
    }
    let mut state = levels[0];
    let mut count: u64 = 0;
    let mut i: usize = 0;
    while i < n
        invariant
            n == levels@.len(),
            0 < n,
            i <= n,
            count <= i,
            i == 0 ==> count == 0 && state == levels@[0] && pulses@.len() == 0,
            i > 0 ==> runs(levels@.take(i as int)).len() > 0 && runs(levels@.take(i as int)).last()
                == (state, count as int) && pulse_view(pulses@) == capped(
                runs(levels@.take(i as int)).drop_last(),
            ),
        decreases n - i,
    {
        let on = levels[i];
        let ghost prev = runs(levels@.take(i as int));
        proof {
            assert(levels@.take(i + 1).drop_last() =~= levels@.take(i as int));
            assert(levels@.take(i + 1).last() == on);
        }
        if on != state {
            if pulses.len() < MAX_PULSES {
                let ghost before = pulses@;
                pulses.push((state, count));
                assert(pulse_view(pulses@) =~= pulse_view(before).push((state, count as int)));
                assert(prev =~= prev.drop_last().push(prev.last()));
            }
            count = 0;
            state = on;
            proof {
                let next = runs(levels@.take(i + 1));
                assert(next =~= prev.push((on, 1)));
                assert(next.drop_last() =~= prev);
                if prev.len() > MAX_PULSES {
                    assert(prev.drop_last().take(MAX_PULSES as int) =~= prev.take(
                        MAX_PULSES as int,
                    ));
                }
            }
        } else {
            proof {
                if i > 0 {
                    let next = runs(levels@.take(i + 1));
                    assert(next =~= prev.update(prev.len() - 1, (on, prev.last().1 + 1)));
                    assert(next.drop_last() =~= prev.drop_last());
                }
            }
        }
        count = count + 1;
        i = i + 1;
        proof {
            if i == 1 {
                let first = runs(levels@.take(1));
                assert(levels@.take(1).drop_last() =~= Seq::<bool>::empty());
                assert(first =~= seq![(levels@[0], 1int)]);
                assert(first.drop_last() =~= Seq::<(bool, int)>::empty());
                assert(pulse_view(pulses@) =~= capped(first.drop_last()));
            }
        }
    }
    assert(levels@.take(n as int) =~= levels@);
    let ghost all = runs(levels@);
    if pulses.len() < MAX_PULSES {
        let ghost before = pulses@;
        pulses.push((state, count));
        assert(pulse_view(pulses@) =~= pulse_view(before).push((state, count as int)));
        assert(all =~= all.drop_last().push(all.last()));
    } else {
        assert(all.drop_last().take(MAX_PULSES as int) =~= all.take(MAX_PULSES as int));
    }
    pulses
}

/// The RDS decoder's result: at most 1 MiB holding one JSON document.
pub fn rds_output(bytes: &[u8]) -> (r: Result<Json, CodecError>)
    ensures
        bytes@.len() > 1048576 ==> r == Err::<Json, CodecError>(CodecError::RdsTooLarge),
        bytes@.len() <= 1048576 ==> match json_of(bytes@) {
            None => r == Err::<Json, CodecError>(CodecError::RdsNotJson),
            Some(v) => r matches Ok(j) && j@ == v,
        },
{
    if bytes.len() > 1048576 {
        return Err(CodecError::RdsTooLarge);
    }
    match parse_json(bytes) {
        None => Err(CodecError::RdsNotJson),
        Some(j) => Ok(j),
    }
}

} // verus!
