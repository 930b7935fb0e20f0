//! Receiver settings, their validation, and exact parsing of frequencies.
use vstd::prelude::*;
use crate::text::{
    all_digit_chars, all_digits, chars_of, digits_to_u64, digits_value, is_digit, is_space, lower,
    lemma_digits_below_pow10, lemma_pow10_bounds, lemma_pow10_monotone, lowercase,
    lowercase_chars, parse_i64, pow10, pow10_u64, signed_value, slice_of, text_eq, trim, trim_start,
    trim_chars,
};

verus! {

/// Why a frequency text was refused.
#[derive(Debug, Clone, Copy, PartialEq, Eq, Structural)]
pub enum FrequencyError {
    /// Not `<digits>[.<digits>]` with an optional `hz`, `khz`, `mhz` or `ghz` unit.
    Format,
    /// More significant fraction digits than a `u32` can count.
    TooManyDigits,
    /// The significant fraction digits make a divisor above `u64::MAX`.
    Precision,
    /// The result, or the scaled fraction, exceeds `u64::MAX`.
    Overflow,
    /// The fraction does not resolve to a whole number of hertz.
    NotWholeHz,
    /// The integer part alone exceeds `u64::MAX`.
    WholeTooLarge,
}

impl FrequencyError {
    /// The message that explains the refusal.
    pub fn message(&self) -> (s: &'static str)
        ensures
            s@ == self.explanation(),
    {
        match self {
            FrequencyError::Format => "enter a frequency such as 443mhz, 145.252MHz, 500 kHz or integer Hz",
            FrequencyError::TooManyDigits => "out of range integral type conversion attempted",
            FrequencyError::Precision => "frequency precision is too large",
            FrequencyError::Overflow => "frequency overflow",
            FrequencyError::NotWholeHz => "frequency must resolve to whole Hz",
            FrequencyError::WholeTooLarge => "number too large to fit in target type",
        }
    }

    /// The text that explains the refusal.
    pub open spec fn explanation(&self) -> Seq<char> {
        match *self {
            FrequencyError::Format => "enter a frequency such as 443mhz, 145.252MHz, 500 kHz or integer Hz"@,
            FrequencyError::TooManyDigits => "out of range integral type conversion attempted"@,
            FrequencyError::Precision => "frequency precision is too large"@,
            FrequencyError::Overflow => "frequency overflow"@,
            FrequencyError::NotWholeHz => "frequency must resolve to whole Hz"@,
            FrequencyError::WholeTooLarge => "number too large to fit in target type"@,
        }
    }
}

pub open spec fn ends_with(t: Seq<char>, suffix: Seq<char>) -> bool {
    t.len() >= suffix.len() && t.subrange(t.len() - suffix.len(), t.len() as int) == suffix
}

/// Splits trimmed, lower-cased text into its number and the unit's scale.
/// Units are tried in the order `ghz`, `mhz`, `khz`, `hz`; the number before a
/// unit is trimmed again.
pub open spec fn unit_split(t: Seq<char>) -> (Seq<char>, nat) {
    if ends_with(t, seq!['g', 'h', 'z']) {
        (trim(t.subrange(0, t.len() - 3)), 1_000_000_000)
    } else if ends_with(t, seq!['m', 'h', 'z']) {
        (trim(t.subrange(0, t.len() - 3)), 1_000_000)
    } else if ends_with(t, seq!['k', 'h', 'z']) {
        (trim(t.subrange(0, t.len() - 3)), 1000)
    } else if ends_with(t, seq!['h', 'z']) {
        (trim(t.subrange(0, t.len() - 2)), 1)
    } else {
        (t, 1)
    }
}

/// Index of the first `.`, or the length when there is none.
pub open spec fn first_dot(s: Seq<char>) -> int
    decreases s.len(),
{
    if s.len() == 0 {
        0
    } else if s[0] == '.' {
        0
    } else {
        1 + first_dot(s.drop_first())
    }
}

pub open spec fn integer_part(s: Seq<char>) -> Seq<char> {
    s.take(first_dot(s))
}

pub open spec fn fraction_part(s: Seq<char>) -> Seq<char> {
    if first_dot(s) < s.len() {
        s.skip(first_dot(s) + 1)
    } else {
        Seq::empty()
    }
}

pub open spec fn trim_trailing_zeros(s: Seq<char>) -> Seq<char>
    decreases s.len(),
{
    if s.len() > 0 && s.last() == '0' {
        trim_trailing_zeros(s.drop_last())
    } else {
        s
    }
}

/// What a frequency text denotes, in whole hertz, or why it is refused:
/// `whole.fraction unit` is `whole * scale + fraction * scale / 10^d`, where `d`
/// counts the fraction's digits up to its last non-zero one.
pub open spec fn frequency_of(input: Seq<char>) -> Result<u64, FrequencyError> {
    let (number, scale) = unit_split(lowercase(trim(input)));
    let whole = integer_part(number);
    let fraction = fraction_part(number);
    if !(whole.len() > 0 && all_digits(whole) && all_digits(fraction)) {
        Err(FrequencyError::Format)
    } else {
        let significant = trim_trailing_zeros(fraction);
        let d = significant.len();
        if d > u32::MAX {
            Err(FrequencyError::TooManyDigits)
        } else if pow10(d) > u64::MAX {
            Err(FrequencyError::Precision)
        } else {
            let scaled = digits_value(significant) * scale;
            if scaled > u64::MAX {
                Err(FrequencyError::Overflow)
            } else if scaled % pow10(d) != 0 {
                Err(FrequencyError::NotWholeHz)
            } else if digits_value(whole) > u64::MAX {
                Err(FrequencyError::WholeTooLarge)
            } else if digits_value(whole) * scale + scaled / pow10(d) > u64::MAX {
                Err(FrequencyError::Overflow)
            } else {
                Ok((digits_value(whole) * scale + scaled / pow10(d)) as u64)
            }
        }
    }
}

/// Frequency units and text are case-insensitive: a text reads as the same
/// frequency (or is refused for the same reason) as its lower-case form.
pub proof fn frequency_ignores_case(input: Seq<char>)
    ensures
        frequency_of(lowercase(input)) == frequency_of(input),
{
    crate::text::lemma_trim_lowercase(input);
    crate::text::lemma_trim_lowercase(trim(input));
    assert(lowercase(trim(lowercase(input))) == lowercase(trim(input)));
}

/// White space around a frequency is ignored: one more white-space character
/// before or after the text reads as the same frequency, or is refused for
/// the same reason.
pub proof fn frequency_ignores_outer_space(input: Seq<char>, c: char)
    requires
        is_space(c),
    ensures
        frequency_of(seq![c] + input) == frequency_of(input),
        frequency_of(input + seq![c]) == frequency_of(input),
{
    crate::text::lemma_trim_space_before(input, c);
    crate::text::lemma_trim_space_after(input, c);
}

/// The frequency units, lower-case.
pub open spec fn is_unit(u: Seq<char>) -> bool {
    ||| u == seq!['h', 'z']
    ||| u == seq!['k', 'h', 'z']
    ||| u == seq!['m', 'h', 'z']
    ||| u == seq!['g', 'h', 'z']
}

/// Text made of white space only.
pub open spec fn all_spaces(s: Seq<char>) -> bool {
    forall|i: int| 0 <= i < s.len() ==> #[trigger] is_space(s[i])
}

proof fn lemma_trim_spaces_after(n: Seq<char>, gap: Seq<char>)
    requires
        all_spaces(gap),
    ensures
        trim(n + gap) == trim(n),
    decreases gap.len(),
{
    if gap.len() > 0 {
        let shorter = gap.drop_last();
        assert(all_spaces(shorter)) by {
            assert forall|i: int| 0 <= i < shorter.len() implies #[trigger] is_space(shorter[i]) by {
                assert(shorter[i] == gap[i]);
            }
        }
        assert(n + gap =~= (n + shorter) + seq![gap.last()]);
        assert(is_space(gap[gap.len() - 1]));
        crate::text::lemma_trim_space_after(n + shorter, gap.last());
        lemma_trim_spaces_after(n, shorter);
    } else {
        assert(n + gap =~= n);
    }
}

/// The scale of a lower-case unit.
pub open spec fn unit_scale(u: Seq<char>) -> nat {
    if u == seq!['h', 'z'] {
        1
    } else if u == seq!['k', 'h', 'z'] {
        1000
    } else if u == seq!['m', 'h', 'z'] {
        1_000_000
    } else {
        1_000_000_000
    }
}

/// `k`, `m` or `g`: a letter that makes a longer unit when it stands right
/// before `hz`.
pub open spec fn is_prefix_letter(c: char) -> bool {
    c == 'k' || c == 'm' || c == 'g'
}

proof fn lemma_split_after(a: Seq<char>, u: Seq<char>)
    requires
        is_unit(u),
        u == seq!['h', 'z'] && a.len() > 0 ==> !is_prefix_letter(a.last()),
    ensures
        unit_split(a + u) == (trim(a), unit_scale(u)),
{
    let t = a + u;
    let k = u.len() as int;
    assert(t.subrange(t.len() - k, t.len() as int) =~= u);
    assert(t.subrange(0, t.len() - k) =~= a);
    if k == 2 {
        if t.len() >= 3 {
            assert(t.subrange(t.len() - 3, t.len() as int)[0] == a.last());
        }
        assert(!ends_with(t, seq!['g', 'h', 'z']));
        assert(!ends_with(t, seq!['m', 'h', 'z']));
        assert(!ends_with(t, seq!['k', 'h', 'z']));
    } else {
        assert(t.subrange(t.len() - 3, t.len() as int) =~= u);
        assert(u[0] == 'k' || u[0] == 'm' || u[0] == 'g');
    }
}

proof fn lemma_split_of(x: Seq<char>, unit: Seq<char>)
    requires
        is_unit(lowercase(unit)),
        lowercase(unit) == seq!['h', 'z'] && trim_start(x).len() > 0 ==> !is_prefix_letter(
            lower(x.last()),
        ),
    ensures
        unit_split(lowercase(trim(x + unit))) == (lowercase(trim(x)), unit_scale(lowercase(unit))),
{
    let low = lowercase(unit);
    assert(low.len() == unit.len());
    assert(low.len() >= 2);
    assert(low[0] == lower(unit[0]));
    assert(low[low.len() - 1] == lower(unit[unit.len() - 1]));
    crate::text::lemma_lower_keeps_space(unit[0]);
    crate::text::lemma_lower_keeps_space(unit[unit.len() - 1]);
    assert(!is_space(unit[0]));
    assert(!is_space(unit.last()));
    crate::text::lemma_trim_start_append(x, unit);
    let y = trim_start(x) + unit;
    assert(y.last() == unit.last());
    assert(trim(x + unit) == y);
    crate::text::lemma_lowercase_append(trim_start(x), unit);
    let a = lowercase(trim_start(x));
    crate::text::lemma_trim_start_tail(x);
    if trim_start(x).len() > 0 {
        assert(a.last() == lower(trim_start(x).last()));
    }
    lemma_split_after(a, low);
    crate::text::lemma_trim_lowercase(trim_start(x));
    assert(trim(trim_start(x)) == trim(x));
}

/// The white space between a number and its unit is optional: `145.5  MHz`
/// reads as `145.5MHz` does, for every unit in any case and whatever the text
/// before it. The one exception is a bare `hz` right after `k`, `m` or `g`,
/// which would then read as another unit (`1g hz` is no frequency, `1ghz` is
/// one gigahertz).
pub proof fn frequency_unit_space_optional(number: Seq<char>, gap: Seq<char>, unit: Seq<char>)
    requires
        all_spaces(gap),
        is_unit(lowercase(unit)),
        lowercase(unit) == seq!['h', 'z'] && number.len() > 0 ==> !is_prefix_letter(
            lower(number.last()),
        ),
    ensures
        frequency_of(number + gap + unit) == frequency_of(number + unit),
{
    let x = number + gap;
    assert(number + gap + unit == x + unit);
    if gap.len() > 0 {
        assert(x.last() == gap[gap.len() - 1]);
        assert(is_space(gap[gap.len() - 1]));
        crate::text::lemma_lower_keeps_space(x.last());
        assert(!is_prefix_letter(lower(x.last())));
    } else {
        assert(x =~= number);
    }
    if trim_start(number).len() > 0 {
        crate::text::lemma_trim_start_tail(number);
    }
    lemma_split_of(x, unit);
    lemma_split_of(number, unit);
    lemma_trim_spaces_after(number, gap);
}

/// Reading a frequency ignores any white space around the text and any
/// change of case in it: a text with white space added at either end and its
/// letters in other cases reads as the same frequency, or is refused for the
/// same reason.
pub proof fn frequency_ignores_case_and_outer_space(
    text: Seq<char>,
    variant: Seq<char>,
    before: Seq<char>,
    after: Seq<char>,
)
    requires
        lowercase(variant) == lowercase(text),
        all_spaces(before),
        all_spaces(after),
    ensures
        frequency_of(before + variant + after) == frequency_of(text),
    decreases before.len() + after.len(),
{
    if before.len() > 0 {
        let rest = before.drop_first();
        assert(all_spaces(rest)) by {
            assert forall|i: int| 0 <= i < rest.len() implies #[trigger] is_space(rest[i]) by {
                assert(rest[i] == before[i + 1]);
            }
        }
        assert(is_space(before[0]));
        assert(before + variant + after =~= seq![before[0]] + (rest + variant + after));
        frequency_ignores_outer_space(rest + variant + after, before[0]);
        frequency_ignores_case_and_outer_space(text, variant, rest, after);
    } else if after.len() > 0 {
        let rest = after.drop_last();
        assert(all_spaces(rest)) by {
            assert forall|i: int| 0 <= i < rest.len() implies #[trigger] is_space(rest[i]) by {
                assert(rest[i] == after[i]);
            }
        }
        assert(is_space(after[after.len() - 1]));
        assert(before + variant + after =~= (before + variant + rest) + seq![after.last()]);
        frequency_ignores_outer_space(before + variant + rest, after.last());
        frequency_ignores_case_and_outer_space(text, variant, before, rest);
    } else {
        assert(before + variant + after =~= variant);
        frequency_ignores_case(variant);
        frequency_ignores_case(text);
    }
}

/// All at once: white space around a frequency, white space between its
/// number and unit, and changes of case never change what it reads as
/// (except that a bare `hz` must not follow `k`, `m` or `g`).
pub proof fn frequency_reading_is_lenient(
    before: Seq<char>,
    number: Seq<char>,
    gap: Seq<char>,
    unit: Seq<char>,
    after: Seq<char>,
)
    requires
        all_spaces(before),
        all_spaces(after),
        all_spaces(gap),
        is_unit(lowercase(unit)),
        lowercase(unit) == seq!['h', 'z'] && number.len() > 0 ==> !is_prefix_letter(
            lower(number.last()),
        ),
    ensures
        frequency_of(before + number + gap + unit + after) == frequency_of(
            lowercase(number) + lowercase(unit),
        ),
{
    let core = number + gap + unit;
    assert(before + number + gap + unit + after =~= before + core + after);
    frequency_ignores_case_and_outer_space(core, core, before, after);
    frequency_unit_space_optional(number, gap, unit);
    crate::text::lemma_lowercase_append(number, unit);
    frequency_ignores_case(number + unit);
}

fn ends_with3(t: &Vec<char>, a: char, b: char, c: char) -> (r: bool)
    ensures
        r == ends_with(t@, seq![a, b, c]),
{
    let n = t.len();
    if n < 3 {
        return false;
    }
    let r = t[n - 3] == a && t[n - 2] == b && t[n - 1] == c;
    assert(r == (t@.subrange(n - 3, n as int) =~= seq![a, b, c]));
    r
}

fn split_unit(t: &Vec<char>) -> (r: (Vec<char>, u64))
    ensures
        (r.0@, r.1 as nat) == unit_split(t@),
{
    let n = t.len();
    let hz = n >= 2 && t[n - 2] == 'h' && t[n - 1] == 'z';
    assert(hz == ends_with(t@, seq!['h', 'z'])) by {
        if n >= 2 {
            assert(hz == (t@.subrange(n - 2, n as int) =~= seq!['h', 'z']));
        }
    }
    if ends_with3(t, 'g', 'h', 'z') {
        (trim_chars(&slice_of(t, 0, n - 3)), 1_000_000_000)
    } else if ends_with3(t, 'm', 'h', 'z') {
        (trim_chars(&slice_of(t, 0, n - 3)), 1_000_000)
    } else if ends_with3(t, 'k', 'h', 'z') {
        (trim_chars(&slice_of(t, 0, n - 3)), 1000)
    } else if hz {
        (trim_chars(&slice_of(t, 0, n - 2)), 1)
    } else {
        (slice_of(t, 0, n), 1)
    }
}

proof fn lemma_first_dot(s: Seq<char>, k: int)
    requires
        0 <= k <= s.len(),
        forall|j: int| 0 <= j < k ==> s[j] != '.',
        k == s.len() || s[k] == '.',
    ensures
        first_dot(s) == k,
    decreases k,
{
    if k > 0 {
        let t = s.drop_first();
        assert forall|j: int| 0 <= j < k - 1 implies t[j] != '.' by {
            assert(t[j] == s[j + 1]);
        }
        if k < s.len() {
            assert(t[k - 1] == s[k]);
        }
        lemma_first_dot(t, k - 1);
    }
}

fn find_dot(s: &Vec<char>) -> (k: usize)
    ensures
        k == first_dot(s@),
        k <= s.len(),
{
    let mut k: usize = 0;
    while k < s.len() && s[k] != '.'
        invariant
            k <= s.len(),
            forall|j: int| 0 <= j < k ==> s@[j] != '.',
        decreases s.len() - k,
    {
        k = k + 1;
    }
    proof {
        lemma_first_dot(s@, k as int);
    }
    k
}

proof fn lemma_trailing_zeros(s: Seq<char>, k: int)
    requires
        0 <= k <= s.len(),
        forall|j: int| k <= j < s.len() ==> s[j] == '0',
        k == 0 || s[k - 1] != '0',
    ensures
        trim_trailing_zeros(s) == s.take(k),
    decreases s.len(),
{
    if s.len() > k {
        let t = s.drop_last();
        assert(t.take(k) == s.take(k));
        lemma_trailing_zeros(t, k);
    } else {
        assert(s.take(k) == s);
    }
}

fn significant_end(s: &Vec<char>) -> (k: usize)
    ensures
        k <= s.len(),
        s@.take(k as int) == trim_trailing_zeros(s@),
{
    let mut k = s.len();
    while k > 0 && s[k - 1] == '0'
        invariant
            k <= s.len(),
            forall|j: int| k <= j < s.len() ==> s@[j] == '0',
        decreases k,
    {
        k = k - 1;
    }
    proof {
        lemma_trailing_zeros(s@, k as int);
    }
    k
}

/// Parses a frequency such as `443mhz`, `145.252MHz`, ` 500 kHz ` or `433920000`
/// exactly, in whole hertz, without floating-point rounding.
pub fn parse_frequency(input: &str) -> (r: Result<u64, FrequencyError>)
    ensures
        r == frequency_of(input@),
{
    let raw = chars_of(input);
    let trimmed = trim_chars(&raw);
    let text = lowercase_chars(&trimmed);
    let (number, scale) = split_unit(&text);
    let dot = find_dot(&number);
    let whole = slice_of(&number, 0, dot);
    let fraction = if dot < number.len() {
        slice_of(&number, dot + 1, number.len())
    } else {
        Vec::new()
    };
    assert(whole@ == integer_part(number@));
    assert(fraction@ == fraction_part(number@));
    if whole.len() == 0 || !all_digit_chars(&whole) || !all_digit_chars(&fraction) {
        return Err(FrequencyError::Format);
    }
    let end = significant_end(&fraction);
    let significant = slice_of(&fraction, 0, end);
    assert(significant@ == trim_trailing_zeros(fraction@));
    assert(all_digits(significant@)) by {
        assert forall|i: int| 0 <= i < significant@.len() implies #[trigger] is_digit(
            significant@[i],
        ) by {
            assert(significant@[i] == fraction@[i]);
        }
    }
    let d = significant.len();
    if d > 4_294_967_295 {
        return Err(FrequencyError::TooManyDigits);
    }
    proof {
        lemma_pow10_bounds();
        if d >= 20 {
            lemma_pow10_monotone(20, d as nat);
        } else {
            lemma_pow10_monotone(d as nat, 19);
        }
    }
    if d >= 20 {
        return Err(FrequencyError::Precision);
    }
    let divisor = pow10_u64(d);
    proof {
        lemma_digits_below_pow10(significant@);
    }
    let fractional = match digits_to_u64(&significant) {
        Some(x) => x,
        None => {
            return Err(FrequencyError::Precision);
        },
    };
    let scaled = match fractional.checked_mul(scale) {
        Some(x) => x,
        None => {
            return Err(FrequencyError::Overflow);
        },
    };
    if scaled % divisor != 0 {
        return Err(FrequencyError::NotWholeHz);
    }
    let w = match digits_to_u64(&whole) {
        Some(x) => x,
        None => {
            return Err(FrequencyError::WholeTooLarge);
        },
    };
    match w.checked_mul(scale) {
        Some(base) => match base.checked_add(scaled / divisor) {
            Some(v) => Ok(v),
            None => Err(FrequencyError::Overflow),
        },
        None => {
            proof {
                assert(w * scale + scaled / divisor >= w * scale);
            }
            Err(FrequencyError::Overflow)
        },
    }
}


/// The receiver settings. The two level settings, `threshold_db` and
/// `squelch_dbfs`, are IEEE 754 single-precision numbers; they are held here
/// by their bit patterns (`f32::to_bits`).
#[derive(Debug, Clone)]
pub struct Config {
    pub device: String,
    pub frequency: u64,
    pub fine_tune_hz: u64,
    pub coarse_tune_hz: u64,
    pub sample_rate: u32,
    pub lna_gain: u32,
    pub vga_gain: u32,
    pub rtl_gain: u32,
    pub serial: String,
    pub audio_device: String,
    pub fft_size: usize,
    pub threshold_db_bits: u32,
    pub ai_provider: String,
    pub ai_model: String,
    pub local_url: String,
    pub sweep_start_mhz: u32,
    pub sweep_end_mhz: u32,
    pub sweep_bin_hz: u32,
    pub listen_mode: String,
    pub listen_bandwidth: u32,
    pub squelch_dbfs_bits: u32,
}

/// The settings as values: each text by its characters.
pub struct ConfigView {
    pub device: Seq<char>,
    pub frequency: u64,
    pub fine_tune_hz: u64,
    pub coarse_tune_hz: u64,
    pub sample_rate: u32,
    pub lna_gain: u32,
    pub vga_gain: u32,
    pub rtl_gain: u32,
    pub serial: Seq<char>,
    pub audio_device: Seq<char>,
    pub fft_size: usize,
    pub threshold_db_bits: u32,
    pub ai_provider: Seq<char>,
    pub ai_model: Seq<char>,
    pub local_url: Seq<char>,
    pub sweep_start_mhz: u32,
    pub sweep_end_mhz: u32,
    pub sweep_bin_hz: u32,
    pub listen_mode: Seq<char>,
    pub listen_bandwidth: u32,
    pub squelch_dbfs_bits: u32,
}

impl View for Config {
    type V = ConfigView;

    open spec fn view(&self) -> ConfigView {
        ConfigView {
            device: self.device@,
            frequency: self.frequency,
            fine_tune_hz: self.fine_tune_hz,
            coarse_tune_hz: self.coarse_tune_hz,
            sample_rate: self.sample_rate,
            lna_gain: self.lna_gain,
            vga_gain: self.vga_gain,
            rtl_gain: self.rtl_gain,
            serial: self.serial@,
            audio_device: self.audio_device@,
            fft_size: self.fft_size,
            threshold_db_bits: self.threshold_db_bits,
            ai_provider: self.ai_provider@,
            ai_model: self.ai_model@,
            local_url: self.local_url@,
            sweep_start_mhz: self.sweep_start_mhz,
            sweep_end_mhz: self.sweep_end_mhz,
            sweep_bin_hz: self.sweep_bin_hz,
            listen_mode: self.listen_mode@,
            listen_bandwidth: self.listen_bandwidth,
            squelch_dbfs_bits: self.squelch_dbfs_bits,
        }
    }
}

/// Bit pattern of `12.0_f32`.
pub const DEFAULT_THRESHOLD_BITS: u32 = 0x4140_0000;

/// Bit pattern of `-65.0_f32`.
pub const DEFAULT_SQUELCH_BITS: u32 = 0xC282_0000;

/// The single-precision number with bit pattern `bits` is finite and in
/// `0.0 ..= 100.0`. Positive numbers order as their bit patterns, and
/// `0x42C8_0000` is `100.0`; of the negative patterns only `-0.0` is `>= 0.0`.
pub open spec fn threshold_in_range(bits: u32) -> bool {
    bits <= 0x42C8_0000 || bits == 0x8000_0000
}

/// The single-precision number with bit pattern `bits` is finite and in
/// `-160.0 ..= 0.0`. Negative numbers order by magnitude as their patterns
/// without the sign bit, and `0xC320_0000` is `-160.0`; of the positive patterns
/// only `+0.0` is `<= 0.0`. No NaN or infinity lies in either range.
pub open spec fn squelch_in_range(bits: u32) -> bool {
    bits == 0 || (0x8000_0000 <= bits && bits <= 0xC320_0000)
}

pub open spec fn is_fft_size(n: usize) -> bool {
    n == 256 || n == 512 || n == 1024 || n == 2048 || n == 4096 || n == 8192 || n == 16384
        || n == 32768 || n == 65536
}

pub open spec fn is_listen_mode(m: Seq<char>) -> bool {
    m == "am"@ || m == "fm"@ || m == "nfm"@ || m == "wfm"@
}

pub open spec fn is_device(d: Seq<char>) -> bool {
    d == "hackrf"@ || d == "rtl"@ || d == "audio"@ || d == "demo"@
}

pub open spec fn is_ai_provider(p: Seq<char>) -> bool {
    p == "local"@ || p == "openai"@ || p == "anthropic"@
}

/// Why a configuration is refused; each names the first rule it breaks.
#[derive(Debug, Clone, Copy, PartialEq, Eq, Structural)]
pub enum ConfigError {
    TuningSteps,
    SweepRange,
    SweepBins,
    ListenMode,
    ListenBandwidth,
    Squelch,
    Device,
    FftSize,
    Threshold,
    LnaGain,
    VgaGain,
    HackrfFrequency,
    HackrfRate,
    RtlFrequency,
    RtlRate,
    AudioRate,
    SampleRate,
    AiProvider,
}

impl ConfigError {
    pub fn message(&self) -> (s: &'static str)
        ensures
            s@ == self.explanation(),
    {
        match self {
            ConfigError::TuningSteps => "tuning steps must be 1 Hz..6 GHz",
            ConfigError::SweepRange => "sweep range must be within 1..6000 MHz",
            ConfigError::SweepBins => "sweep bins must be 100 kHz..5 MHz",
            ConfigError::ListenMode => "listen_mode must be am, fm, nfm, or wfm",
            ConfigError::ListenBandwidth => "listen_bandwidth must be 3000..200000 Hz",
            ConfigError::Squelch => "squelch_dbfs must be -160..0",
            ConfigError::Device => "device must be hackrf, rtl, audio, or demo",
            ConfigError::FftSize => "fft_size must be a power of two from 256 to 65536",
            ConfigError::Threshold => "threshold_db must be 0..100",
            ConfigError::LnaGain => "HackRF LNA gain must be 0..40 in steps of 8",
            ConfigError::VgaGain => "HackRF VGA gain must be 0..62 in steps of 2",
            ConfigError::HackrfFrequency => "HackRF frequency must be <= 6 GHz",
            ConfigError::HackrfRate => "HackRF sample rate must be 8..20 MS/s",
            ConfigError::RtlFrequency => "NESDR tuning range is 24..1766 MHz",
            ConfigError::RtlRate => "RTL rate must be 225001..300000 or 900001..2560000",
            ConfigError::AudioRate => "audio rate must be 8000..192000",
            ConfigError::SampleRate => "sample rate must be positive",
            ConfigError::AiProvider => "unknown AI provider",
        }
    }

    /// The text that explains the refusal.
    pub open spec fn explanation(&self) -> Seq<char> {
        match *self {
            ConfigError::TuningSteps => "tuning steps must be 1 Hz..6 GHz"@,
            ConfigError::SweepRange => "sweep range must be within 1..6000 MHz"@,
            ConfigError::SweepBins => "sweep bins must be 100 kHz..5 MHz"@,
            ConfigError::ListenMode => "listen_mode must be am, fm, nfm, or wfm"@,
            ConfigError::ListenBandwidth => "listen_bandwidth must be 3000..200000 Hz"@,
            ConfigError::Squelch => "squelch_dbfs must be -160..0"@,
            ConfigError::Device => "device must be hackrf, rtl, audio, or demo"@,
            ConfigError::FftSize => "fft_size must be a power of two from 256 to 65536"@,
            ConfigError::Threshold => "threshold_db must be 0..100"@,
            ConfigError::LnaGain => "HackRF LNA gain must be 0..40 in steps of 8"@,
            ConfigError::VgaGain => "HackRF VGA gain must be 0..62 in steps of 2"@,
            ConfigError::HackrfFrequency => "HackRF frequency must be <= 6 GHz"@,
            ConfigError::HackrfRate => "HackRF sample rate must be 8..20 MS/s"@,
            ConfigError::RtlFrequency => "NESDR tuning range is 24..1766 MHz"@,
            ConfigError::RtlRate => "RTL rate must be 225001..300000 or 900001..2560000"@,
            ConfigError::AudioRate => "audio rate must be 8000..192000"@,
            ConfigError::SampleRate => "sample rate must be positive"@,
            ConfigError::AiProvider => "unknown AI provider"@,
        }
    }
}

/// The first rule that a configuration breaks, checked in a fixed order, or
/// `None` when it keeps them all.
pub open spec fn config_error(c: ConfigView) -> Option<ConfigError> {
    if !(1 <= c.fine_tune_hz <= 6_000_000_000 && 1 <= c.coarse_tune_hz <= 6_000_000_000) {
        Some(ConfigError::TuningSteps)
    } else if !(c.sweep_start_mhz >= 1 && c.sweep_start_mhz < c.sweep_end_mhz && c.sweep_end_mhz
        <= 6000) {
        Some(ConfigError::SweepRange)
    } else if !(100_000 <= c.sweep_bin_hz <= 5_000_000) {
        Some(ConfigError::SweepBins)
    } else if !is_listen_mode(c.listen_mode) {
        Some(ConfigError::ListenMode)
    } else if !(3000 <= c.listen_bandwidth <= 200_000) {
        Some(ConfigError::ListenBandwidth)
    } else if !squelch_in_range(c.squelch_dbfs_bits) {
        Some(ConfigError::Squelch)
    } else if !is_device(c.device) {
        Some(ConfigError::Device)
    } else if !is_fft_size(c.fft_size) {
        Some(ConfigError::FftSize)
    } else if !threshold_in_range(c.threshold_db_bits) {
        Some(ConfigError::Threshold)
    } else if !(c.lna_gain <= 40 && c.lna_gain % 8 == 0) {
        Some(ConfigError::LnaGain)
    } else if !(c.vga_gain <= 62 && c.vga_gain % 2 == 0) {
        Some(ConfigError::VgaGain)
    } else if c.device == "hackrf"@ && c.frequency > 6_000_000_000 {
        Some(ConfigError::HackrfFrequency)
    } else if c.device == "hackrf"@ && !(8_000_000 <= c.sample_rate <= 20_000_000) {
        Some(ConfigError::HackrfRate)
    } else if c.device == "rtl"@ && !(24_000_000 <= c.frequency <= 1_766_000_000) {
        Some(ConfigError::RtlFrequency)
    } else if c.device == "rtl"@ && !(225_001 <= c.sample_rate <= 300_000 || 900_001
        <= c.sample_rate <= 2_560_000) {
        Some(ConfigError::RtlRate)
    } else if c.device == "audio"@ && !(8000 <= c.sample_rate <= 192_000) {
        Some(ConfigError::AudioRate)
    } else if c.device != "hackrf"@ && c.device != "rtl"@ && c.device != "audio"@ && c.sample_rate
        == 0 {
        Some(ConfigError::SampleRate)
    } else if !is_ai_provider(c.ai_provider) {
        Some(ConfigError::AiProvider)
    } else {
        None
    }
}

pub open spec fn checked(c: ConfigView) -> Result<(), ConfigError> {
    match config_error(c) {
        Some(e) => Err(e),
        None => Ok(()),
    }
}

/// The device names are distinct words.
pub proof fn lemma_device_names()
    ensures
        "hackrf"@ != "rtl"@,
        "hackrf"@ != "audio"@,
        "hackrf"@ != "demo"@,
        "rtl"@ != "audio"@,
        "rtl"@ != "demo"@,
        "audio"@ != "demo"@,
{
    reveal_strlit("hackrf");
    reveal_strlit("rtl");
    reveal_strlit("audio");
    reveal_strlit("demo");
    assert("hackrf"@.len() == 6);
    assert("rtl"@.len() == 3);
    assert("audio"@.len() == 5);
    assert("demo"@.len() == 4);
    assert("audio"@[0] != "demo"@[0]);
}

fn fft_size_ok(n: usize) -> (b: bool)
    ensures
        b == is_fft_size(n),
{
    n == 256 || n == 512 || n == 1024 || n == 2048 || n == 4096 || n == 8192 || n == 16384 || n
        == 32768 || n == 65536
}

impl Config {
    /// Checks every rule of a usable configuration, in a fixed order, and
    /// names the first one broken.
    pub fn validate(&self) -> (r: Result<(), ConfigError>)
        ensures
            r == checked(self@),
    {
        if !(1 <= self.fine_tune_hz && self.fine_tune_hz <= 6_000_000_000 && 1
            <= self.coarse_tune_hz && self.coarse_tune_hz <= 6_000_000_000) {
            return Err(ConfigError::TuningSteps);
        }
        if !(self.sweep_start_mhz >= 1 && self.sweep_start_mhz < self.sweep_end_mhz
            && self.sweep_end_mhz <= 6000) {
            return Err(ConfigError::SweepRange);
        }
        if !(100_000 <= self.sweep_bin_hz && self.sweep_bin_hz <= 5_000_000) {
            return Err(ConfigError::SweepBins);
        }
        let mode = self.listen_mode.as_str();
        if !(text_eq(mode, "am") || text_eq(mode, "fm") || text_eq(mode, "nfm") || text_eq(
            mode,
            "wfm",
        )) {
            return Err(ConfigError::ListenMode);
        }
        if !(3000 <= self.listen_bandwidth && self.listen_bandwidth <= 200_000) {
            return Err(ConfigError::ListenBandwidth);
        }
        let sq = self.squelch_dbfs_bits;
        if !(sq == 0 || (0x8000_0000 <= sq && sq <= 0xC320_0000)) {
            return Err(ConfigError::Squelch);
        }
        let device = self.device.as_str();
        proof {
            lemma_device_names();
        }
        let hackrf = text_eq(device, "hackrf");
        let rtl = text_eq(device, "rtl");
        let audio = text_eq(device, "audio");
        if !(hackrf || rtl || audio || text_eq(device, "demo")) {
            return Err(ConfigError::Device);
        }
        if !fft_size_ok(self.fft_size) {
            return Err(ConfigError::FftSize);
        }
        let th = self.threshold_db_bits;
        if !(th <= 0x42C8_0000 || th == 0x8000_0000) {
            return Err(ConfigError::Threshold);
        }
        if !(self.lna_gain <= 40 && self.lna_gain % 8 == 0) {
            return Err(ConfigError::LnaGain);
        }
        if !(self.vga_gain <= 62 && self.vga_gain % 2 == 0) {
            return Err(ConfigError::VgaGain);
        }
        if hackrf {
            if self.frequency > 6_000_000_000 {
                return Err(ConfigError::HackrfFrequency);
            }
            if !(8_000_000 <= self.sample_rate && self.sample_rate <= 20_000_000) {
                return Err(ConfigError::HackrfRate);
            }
        } else if rtl {
            if !(24_000_000 <= self.frequency && self.frequency <= 1_766_000_000) {
                return Err(ConfigError::RtlFrequency);
            }
            if !((225_001 <= self.sample_rate && self.sample_rate <= 300_000) || (900_001
                <= self.sample_rate && self.sample_rate <= 2_560_000)) {
                return Err(ConfigError::RtlRate);
            }
        } else if audio {
            if !(8000 <= self.sample_rate && self.sample_rate <= 192_000) {
                return Err(ConfigError::AudioRate);
            }
        } else if self.sample_rate == 0 {
            return Err(ConfigError::SampleRate);
        }
        let p = self.ai_provider.as_str();
        if !(text_eq(p, "local") || text_eq(p, "openai") || text_eq(p, "anthropic")) {
            return Err(ConfigError::AiProvider);
        }
        Ok(())
    }
}


/// The settings a fresh installation starts from.
pub open spec fn default_config() -> ConfigView {
    ConfigView {
        device: "hackrf"@,
        frequency: 433_920_000,
        fine_tune_hz: 500_000,
        coarse_tune_hz: 10_000_000,
        sample_rate: 8_000_000,
        lna_gain: 16,
        vga_gain: 20,
        rtl_gain: 200,
        serial: Seq::empty(),
        audio_device: "default"@,
        fft_size: 8192,
        threshold_db_bits: DEFAULT_THRESHOLD_BITS,
        ai_provider: "local"@,
        ai_model: Seq::empty(),
        local_url: "http://127.0.0.1:11434/v1"@,
        sweep_start_mhz: 1,
        sweep_end_mhz: 6000,
        sweep_bin_hz: 1_000_000,
        listen_mode: "fm"@,
        listen_bandwidth: 12500,
        squelch_dbfs_bits: DEFAULT_SQUELCH_BITS,
    }
}

impl Default for Config {
    fn default() -> (c: Self)
        ensures
            c@ == default_config(),
    {
        Config {
            device: String::from_str("hackrf"),
            frequency: 433_920_000,
            fine_tune_hz: 500_000,
            coarse_tune_hz: 10_000_000,
            sample_rate: 8_000_000,
            lna_gain: 16,
            vga_gain: 20,
            rtl_gain: 200,
            serial: String::new(),
            audio_device: String::from_str("default"),
            fft_size: 8192,
            threshold_db_bits: DEFAULT_THRESHOLD_BITS,
            ai_provider: String::from_str("local"),
            ai_model: String::new(),
            local_url: String::from_str("http://127.0.0.1:11434/v1"),
            sweep_start_mhz: 1,
            sweep_end_mhz: 6000,
            sweep_bin_hz: 1_000_000,
            listen_mode: String::from_str("fm"),
            listen_bandwidth: 12500,
            squelch_dbfs_bits: DEFAULT_SQUELCH_BITS,
        }
    }
}

/// The default settings keep every rule.
pub proof fn default_config_is_valid()
    ensures
        config_error(default_config()) is None,
{
    lemma_device_names();
}

/// Why a setting could not be changed; the configuration then stays as it was.
#[derive(Debug, Clone, Copy, PartialEq, Eq, Structural)]
pub enum SetError {
    /// The changed configuration breaks a rule.
    Invalid(ConfigError),
    /// A frequency setting's text is not a frequency.
    Frequency(FrequencyError),
    /// No setting has this name.
    UnknownSetting,
    /// The current configuration holds a number that the settings table cannot
    /// hold (above `i64::MAX`).
    Unrepresentable,
    /// The text is not a signed decimal integer in the `i64` range.
    InvalidInteger,
    /// The integer is outside the setting's type (negative, or too large).
    OutOfRange,
    /// The setting takes a floating-point value; see `set_float_bits`.
    NeedsFloat,
    /// `set_float_bits` names a setting that is not floating-point.
    NotFloat,
}

/// The sample rate that a device starts with when it is selected.
pub open spec fn device_rate(device: Seq<char>) -> u32 {
    if device == "rtl"@ {
        2_400_000
    } else if device == "audio"@ {
        48_000
    } else {
        8_000_000
    }
}

pub fn device_default_rate(device: &str) -> (r: u32)
    ensures
        r == device_rate(device@),
{
    if text_eq(device, "rtl") {
        2_400_000
    } else if text_eq(device, "audio") {
        48_000
    } else {
        8_000_000
    }
}

pub open spec fn is_frequency_key(key: Seq<char>) -> bool {
    key == "frequency"@ || key == "fine_tune_hz"@ || key == "coarse_tune_hz"@
}

pub open spec fn is_float_key(key: Seq<char>) -> bool {
    key == "threshold_db"@ || key == "squelch_dbfs"@
}

pub open spec fn is_text_key(key: Seq<char>) -> bool {
    key == "serial"@ || key == "audio_device"@ || key == "ai_provider"@ || key == "ai_model"@
        || key == "local_url"@ || key == "listen_mode"@
}

/// The largest value of an integer setting's type.
pub open spec fn integer_limit(key: Seq<char>) -> Option<int> {
    if is_frequency_key(key) {
        Some(u64::MAX as int)
    } else if key == "sample_rate"@ || key == "lna_gain"@ || key == "vga_gain"@ || key == "rtl_gain"@
        || key == "sweep_start_mhz"@ || key == "sweep_end_mhz"@ || key == "sweep_bin_hz"@ || key
        == "listen_bandwidth"@ {
        Some(u32::MAX as int)
    } else if key == "fft_size"@ {
        Some(usize::MAX as int)
    } else {
        None
    }
}

/// `c` with the integer setting `key` changed to `v`.
pub open spec fn with_integer(c: ConfigView, key: Seq<char>, v: int) -> ConfigView {
    if key == "frequency"@ {
        ConfigView { frequency: v as u64, ..c }
    } else if key == "fine_tune_hz"@ {
        ConfigView { fine_tune_hz: v as u64, ..c }
    } else if key == "coarse_tune_hz"@ {
        ConfigView { coarse_tune_hz: v as u64, ..c }
    } else if key == "sample_rate"@ {
        ConfigView { sample_rate: v as u32, ..c }
    } else if key == "lna_gain"@ {
        ConfigView { lna_gain: v as u32, ..c }
    } else if key == "vga_gain"@ {
        ConfigView { vga_gain: v as u32, ..c }
    } else if key == "rtl_gain"@ {
        ConfigView { rtl_gain: v as u32, ..c }
    } else if key == "sweep_start_mhz"@ {
        ConfigView { sweep_start_mhz: v as u32, ..c }
    } else if key == "sweep_end_mhz"@ {
        ConfigView { sweep_end_mhz: v as u32, ..c }
    } else if key == "sweep_bin_hz"@ {
        ConfigView { sweep_bin_hz: v as u32, ..c }
    } else if key == "listen_bandwidth"@ {
        ConfigView { listen_bandwidth: v as u32, ..c }
    } else {
        ConfigView { fft_size: v as usize, ..c }
    }
}

/// `c` with the text setting `key` changed to `v`.
pub open spec fn with_text(c: ConfigView, key: Seq<char>, v: Seq<char>) -> ConfigView {
    if key == "serial"@ {
        ConfigView { serial: v, ..c }
    } else if key == "audio_device"@ {
        ConfigView { audio_device: v, ..c }
    } else if key == "ai_provider"@ {
        ConfigView { ai_provider: v, ..c }
    } else if key == "ai_model"@ {
        ConfigView { ai_model: v, ..c }
    } else if key == "local_url"@ {
        ConfigView { local_url: v, ..c }
    } else {
        ConfigView { listen_mode: v, ..c }
    }
}

/// `c` with the floating-point setting `key` changed to the number with bit pattern `bits`.
pub open spec fn with_float(c: ConfigView, key: Seq<char>, bits: u32) -> ConfigView {
    if key == "threshold_db"@ {
        ConfigView { threshold_db_bits: bits, ..c }
    } else {
        ConfigView { squelch_dbfs_bits: bits, ..c }
    }
}

/// Whether every number of `c` fits the settings table (signed 64-bit integers).
pub open spec fn representable(c: ConfigView) -> bool {
    c.frequency <= i64::MAX && c.fine_tune_hz <= i64::MAX && c.coarse_tune_hz <= i64::MAX
        && c.fft_size <= i64::MAX
}

/// A changed configuration is kept only when it keeps every rule.
pub open spec fn accept(next: ConfigView) -> Result<ConfigView, SetError> {
    match config_error(next) {
        Some(e) => Err(SetError::Invalid(e)),
        None => Ok(next),
    }
}

/// What `set(key, value)` makes of the configuration `c`.
pub open spec fn set_outcome(c: ConfigView, key: Seq<char>, value: Seq<char>) -> Result<
    ConfigView,
    SetError,
> {
    if key == "device"@ {
        accept(ConfigView { device: value, sample_rate: device_rate(value), ..c })
    } else if !representable(c) {
        Err(SetError::Unrepresentable)
    } else if is_frequency_key(key) {
        match frequency_of(value) {
            Err(e) => Err(SetError::Frequency(e)),
            Ok(hz) => if hz > i64::MAX {
                Err(SetError::OutOfRange)
            } else {
                accept(with_integer(c, key, hz as int))
            },
        }
    } else if integer_limit(key) is Some {
        match signed_value(value) {
            None => Err(SetError::InvalidInteger),
            Some(v) => if v < i64::MIN || v > i64::MAX {
                Err(SetError::InvalidInteger)
            } else if v < 0 || v > integer_limit(key)->0 {
                Err(SetError::OutOfRange)
            } else {
                accept(with_integer(c, key, v))
            },
        }
    } else if is_float_key(key) {
        Err(SetError::NeedsFloat)
    } else if is_text_key(key) {
        accept(with_text(c, key, value))
    } else {
        Err(SetError::UnknownSetting)
    }
}

/// What `set_float_bits(key, bits)` makes of the configuration `c`.
pub open spec fn set_float_outcome(c: ConfigView, key: Seq<char>, bits: u32) -> Result<
    ConfigView,
    SetError,
> {
    if !representable(c) {
        Err(SetError::Unrepresentable)
    } else if is_float_key(key) {
        accept(with_float(c, key, bits))
    } else {
        Err(SetError::NotFloat)
    }
}

/// A change that `set` or `set_float_bits` accepts always leaves settings
/// that keep every rule, so a saved configuration stays loadable.
pub proof fn accepted_settings_are_valid(c: ConfigView, key: Seq<char>, value: Seq<char>, bits: u32)
    ensures
        set_outcome(c, key, value) matches Ok(n) ==> checked(n) == Ok::<(), ConfigError>(()),
        set_float_outcome(c, key, bits) matches Ok(n) ==> checked(n) == Ok::<(), ConfigError>(()),
{
}

impl Config {
    /// A field-by-field copy.
    pub fn copy(&self) -> (r: Config)
        ensures
            r@ == self@,
    {
        Config {
            device: self.device.clone(),
            frequency: self.frequency,
            fine_tune_hz: self.fine_tune_hz,
            coarse_tune_hz: self.coarse_tune_hz,
            sample_rate: self.sample_rate,
            lna_gain: self.lna_gain,
            vga_gain: self.vga_gain,
            rtl_gain: self.rtl_gain,
            serial: self.serial.clone(),
            audio_device: self.audio_device.clone(),
            fft_size: self.fft_size,
            threshold_db_bits: self.threshold_db_bits,
            ai_provider: self.ai_provider.clone(),
            ai_model: self.ai_model.clone(),
            local_url: self.local_url.clone(),
            sweep_start_mhz: self.sweep_start_mhz,
            sweep_end_mhz: self.sweep_end_mhz,
            sweep_bin_hz: self.sweep_bin_hz,
            listen_mode: self.listen_mode.clone(),
            listen_bandwidth: self.listen_bandwidth,
            squelch_dbfs_bits: self.squelch_dbfs_bits,
        }
    }

    fn put_integer(&mut self, key: &str, v: u64)
        requires
            integer_limit(key@) matches Some(m) && v <= m,
        ensures
            final(self)@ == with_integer(old(self)@, key@, v as int),
    {
        if text_eq(key, "frequency") {
            self.frequency = v;
        } else if text_eq(key, "fine_tune_hz") {
            self.fine_tune_hz = v;
        } else if text_eq(key, "coarse_tune_hz") {
            self.coarse_tune_hz = v;
        } else if text_eq(key, "sample_rate") {
            self.sample_rate = v as u32;
        } else if text_eq(key, "lna_gain") {
            self.lna_gain = v as u32;
        } else if text_eq(key, "vga_gain") {
            self.vga_gain = v as u32;
        } else if text_eq(key, "rtl_gain") {
            self.rtl_gain = v as u32;
        } else if text_eq(key, "sweep_start_mhz") {
            self.sweep_start_mhz = v as u32;
        } else if text_eq(key, "sweep_end_mhz") {
            self.sweep_end_mhz = v as u32;
        } else if text_eq(key, "sweep_bin_hz") {
            self.sweep_bin_hz = v as u32;
        } else if text_eq(key, "listen_bandwidth") {
            self.listen_bandwidth = v as u32;
        } else {
            self.fft_size = v as usize;
        }
    }

    fn put_text(&mut self, key: &str, v: &str)
        ensures
            final(self)@ == with_text(old(self)@, key@, v@),
    {
        let s = String::from_str(v);
        if text_eq(key, "serial") {
            self.serial = s;
        } else if text_eq(key, "audio_device") {
            self.audio_device = s;
        } else if text_eq(key, "ai_provider") {
            self.ai_provider = s;
        } else if text_eq(key, "ai_model") {
            self.ai_model = s;
        } else if text_eq(key, "local_url") {
            self.local_url = s;
        } else {
            self.listen_mode = s;
        }
    }

    /// Replaces `self` by `next` when `next` keeps every rule.
    fn commit(&mut self, next: Config) -> (r: Result<(), SetError>)
        ensures
            accept(next@) matches Ok(n) ==> r is Ok && final(self)@ == n,
            accept(next@) matches Err(e) ==> r == Err::<(), SetError>(e) && final(self)@ == old(
                self,
            )@,
    {
        match next.validate() {
            Ok(()) => {
                *self = next;
                Ok(())
            },
            Err(e) => Err(SetError::Invalid(e)),
        }
    }

    /// Changes one setting, named as in the configuration file, from its text.
    /// Selecting a device also selects its usual sample rate; frequencies accept
    /// units (`145.252MHz`). The change is kept only when the whole
    /// configuration stays valid; otherwise nothing changes.
    pub fn set(&mut self, key: &str, value: &str) -> (r: Result<(), SetError>)
        ensures
            set_outcome(old(self)@, key@, value@) matches Ok(n) ==> r is Ok && final(self)@ == n,
            set_outcome(old(self)@, key@, value@) matches Err(e) ==> r == Err::<(), SetError>(e)
                && final(self)@ == old(self)@,
    {
        if text_eq(key, "device") {
            let mut next = self.copy();
            next.device = String::from_str(value);
            next.sample_rate = device_default_rate(value);
            return self.commit(next);
        }
        if !(self.frequency <= 0x7fff_ffff_ffff_ffff && self.fine_tune_hz <= 0x7fff_ffff_ffff_ffff
            && self.coarse_tune_hz <= 0x7fff_ffff_ffff_ffff && self.fft_size as u64
            <= 0x7fff_ffff_ffff_ffff) {
            return Err(SetError::Unrepresentable);
        }
        if text_eq(key, "frequency") || text_eq(key, "fine_tune_hz") || text_eq(
            key,
            "coarse_tune_hz",
        ) {
            return match parse_frequency(value) {
                Err(e) => Err(SetError::Frequency(e)),
                Ok(hz) => {
                    if hz > 0x7fff_ffff_ffff_ffff {
                        Err(SetError::OutOfRange)
                    } else {
                        let mut next = self.copy();
                        next.put_integer(key, hz);
                        self.commit(next)
                    }
                },
            };
        }
        let limit: Option<u64> = if text_eq(key, "sample_rate") || text_eq(key, "lna_gain")
            || text_eq(key, "vga_gain") || text_eq(key, "rtl_gain") || text_eq(
            key,
            "sweep_start_mhz",
        ) || text_eq(key, "sweep_end_mhz") || text_eq(key, "sweep_bin_hz") || text_eq(
            key,
            "listen_bandwidth",
        ) {
            Some(0xffff_ffff)
        } else if text_eq(key, "fft_size") {
            Some(usize::MAX as u64)
        } else {
            None
        };
        if let Some(max) = limit {
            return match parse_i64(value) {
                None => Err(SetError::InvalidInteger),
                Some(v) => {
                    if v < 0 || v as u64 > max {
                        Err(SetError::OutOfRange)
                    } else {
                        let mut next = self.copy();
                        next.put_integer(key, v as u64);
                        self.commit(next)
                    }
                },
            };
        }
        if text_eq(key, "threshold_db") || text_eq(key, "squelch_dbfs") {
            return Err(SetError::NeedsFloat);
        }
        if text_eq(key, "serial") || text_eq(key, "audio_device") || text_eq(key, "ai_provider")
            || text_eq(key, "ai_model") || text_eq(key, "local_url") || text_eq(
            key,
            "listen_mode",
        ) {
            let mut next = self.copy();
            next.put_text(key, value);
            return self.commit(next);
        }
        Err(SetError::UnknownSetting)
    }

    /// Changes a floating-point setting (`threshold_db` or `squelch_dbfs`) to the
    /// number with bit pattern `bits`, under the same rules as `set`.
    pub fn set_float_bits(&mut self, key: &str, bits: u32) -> (r: Result<(), SetError>)
        ensures
            set_float_outcome(old(self)@, key@, bits) matches Ok(n) ==> r is Ok && final(self)@
                == n,
            set_float_outcome(old(self)@, key@, bits) matches Err(e) ==> r == Err::<(), SetError>(
                e,
            ) && final(self)@ == old(self)@,
    {
        if !(self.frequency <= 0x7fff_ffff_ffff_ffff && self.fine_tune_hz <= 0x7fff_ffff_ffff_ffff
            && self.coarse_tune_hz <= 0x7fff_ffff_ffff_ffff && self.fft_size as u64
            <= 0x7fff_ffff_ffff_ffff) {
            return Err(SetError::Unrepresentable);
        }
        if text_eq(key, "threshold_db") {
            let mut next = self.copy();
            next.threshold_db_bits = bits;
            self.commit(next)
        } else if text_eq(key, "squelch_dbfs") {
            let mut next = self.copy();
            next.squelch_dbfs_bits = bits;
            self.commit(next)
        } else {
            Err(SetError::NotFloat)
        }
    }
}

} // verus!
