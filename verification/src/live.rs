//! Live decoding: contiguous sample windows taken from the receive stream, and
//! the rolling console that shows what the decoders report.
use vstd::prelude::*;
use crate::text::{
    chars_of, decimal, is_control, padded, push_padded, is_control_char, push_chars, push_decimal, push_str, string_of,
};

verus! {

/// A contiguous window of raw receive bytes, and the second (since the Unix
/// epoch) at which it was taken.
pub struct Capture {
    pub bytes: Vec<u8>,
    pub unix_seconds: u64,
}

/// Cuts the receive stream into windows of `samples` interleaved I/Q pairs.
#[derive(Clone, Copy)]
pub struct Tap {
    pub samples: usize,
}

/// The bytes of a sequence of blocks, one after another.
pub open spec fn joined(blocks: Seq<Vec<u8>>) -> Seq<u8>
    decreases blocks.len(),
{
    if blocks.len() == 0 {
        Seq::empty()
    } else {
        joined(blocks.drop_last()) + blocks.last()@
    }
}

/// Blocks of `size` bytes each join to `size` bytes per block.
proof fn lemma_joined_len(blocks: Seq<Vec<u8>>, size: int)
    requires
        forall|i: int| 0 <= i < blocks.len() ==> (#[trigger] blocks[i])@.len() == size,
    ensures
        joined(blocks).len() == blocks.len() * size,
    decreases blocks.len(),
{
    if blocks.len() > 0 {
        let shorter = blocks.drop_last();
        assert forall|i: int| 0 <= i < shorter.len() implies (#[trigger] shorter[i])@.len() == size by {
            assert(shorter[i] == blocks[i]);
        }
        lemma_joined_len(shorter, size);
        assert(blocks[blocks.len() - 1]@.len() == size);
        assert((blocks.len() - 1) * size + size == blocks.len() * size) by (nonlinear_arith);
    }
}

fn extend_from(v: &mut Vec<u8>, src: &[u8], lo: usize, hi: usize)
    requires
        lo <= hi <= src@.len(),
    ensures
        final(v)@ == old(v)@ + src@.subrange(lo as int, hi as int),
{
    let ghost start = v@;
    let mut i = lo;
    while i < hi
        invariant
            lo <= i <= hi,
            hi <= src@.len(),
            v@ == start + src@.subrange(lo as int, i as int),
        decreases hi - i,
    {
        v.push(src[i]);
        i = i + 1;
        assert(v@ == start + src@.subrange(lo as int, i as int));
    }
}

impl Tap {
    /// Appends newly received `bytes` to the partial window `pending` and returns
    /// every window that became complete, oldest first. Nothing is lost or
    /// reordered: the returned windows followed by what stays pending are the
    /// old pending bytes followed by `bytes`. When no decoder asks for samples
    /// (`capturing` is false) the partial window is dropped.
    pub fn push(&self, bytes: &[u8], pending: &mut Vec<u8>, capturing: bool) -> (blocks: Vec<
        Vec<u8>,
    >)
        requires
            self.samples > 0,
            self.samples * 2 <= usize::MAX,
            old(pending)@.len() <= self.samples * 2,
        ensures
            !capturing ==> blocks@.len() == 0 && final(pending)@.len() == 0,
            capturing ==> joined(blocks@) + final(pending)@ == old(pending)@ + bytes@,
            capturing ==> forall|i: int|
                0 <= i < blocks@.len() ==> (#[trigger] blocks@[i])@.len() == self.samples * 2,
            final(pending)@.len() <= self.samples * 2,
            old(pending)@.len() < self.samples * 2 ==> final(pending)@.len() < self.samples * 2,
            capturing && old(pending)@.len() < self.samples * 2 ==> blocks@.len() as int == (old(
                pending,
            )@.len() + bytes@.len()) as int / (self.samples * 2) as int && final(pending)@.len() as int
                == (old(pending)@.len() + bytes@.len()) as int % (self.samples * 2) as int,
    {
        let mut blocks: Vec<Vec<u8>> = Vec::new();
        if !capturing {
            pending.clear();
            return blocks;
        }
        let target = self.samples * 2;
        let ghost first = old(pending)@;
        let mut start: usize = 0;
        while start < bytes.len()
            invariant
                start <= bytes@.len(),
                target == self.samples * 2,
                target > 0,
                joined(blocks@) + pending@ == first + bytes@.subrange(0, start as int),
                forall|i: int| 0 <= i < blocks@.len() ==> (#[trigger] blocks@[i])@.len() == target,
                pending@.len() <= target,
                first.len() < target ==> pending@.len() < target,
            decreases bytes@.len() - start,
        {
            let end = if bytes.len() - start > target {
                start + target
            } else {
                bytes.len()
            };
            let room = target - pending.len();
            let take = if room < end - start {
                room
            } else {
                end - start
            };
            let ghost before = pending@;
            let ghost old_joined = joined(blocks@);
            let ghost part1 = bytes@.subrange(start as int, (start + take) as int);
            let ghost part2 = bytes@.subrange((start + take) as int, end as int);
            extend_from(pending, bytes, start, start + take);
            if pending.len() == target {
                let mut block: Vec<u8> = Vec::new();
                std::mem::swap(&mut block, pending);
                let ghost old_blocks = blocks@;
                blocks.push(block);
                assert(blocks@.drop_last() == old_blocks);
                assert(joined(blocks@) == old_joined + (before + part1));
            }
            extend_from(pending, bytes, start + take, end);
            assert(joined(blocks@) + pending@ == old_joined + before + part1 + part2);
            assert(bytes@.subrange(0, end as int) == bytes@.subrange(0, start as int) + part1
                + part2);
            start = end;
        }
        assert(bytes@.subrange(0, bytes@.len() as int) == bytes@);
        proof {
            if first.len() < target {
                lemma_joined_len(blocks@, target as int);
                vstd::arithmetic::div_mod::lemma_fundamental_div_mod_converse(
                    (first.len() + bytes@.len()) as int,
                    target as int,
                    blocks@.len() as int,
                    pending@.len() as int,
                );
            }
        }
        blocks
    }
}


/// The text with every control character (Unicode `Cc`) removed.
pub open spec fn without_controls(s: Seq<char>) -> Seq<char>
    decreases s.len(),
{
    if s.len() == 0 {
        Seq::empty()
    } else if is_control(s.last()) {
        without_controls(s.drop_last())
    } else {
        without_controls(s.drop_last()).push(s.last())
    }
}

fn strip_controls(v: &Vec<char>) -> (r: Vec<char>)
    ensures
        r@ == without_controls(v@),
{
    let mut r: Vec<char> = Vec::new();
    let mut i: usize = 0;
    while i < v.len()
        invariant
            i <= v.len(),
            r@ == without_controls(v@.take(i as int)),
        decreases v.len() - i,
    {
        let c = v[i];
        proof {
            assert(v@.take(i + 1).drop_last() == v@.take(i as int));
        }
        if !is_control_char(c) {
            r.push(c);
        }
        i = i + 1;
    }
    assert(v@.take(v.len() as int) == v@);
    r
}

/// Removes control characters, so that decoder output cannot drive the terminal.
pub fn clean(value: &str) -> (r: String)
    ensures
        r@ == without_controls(value@),
{
    string_of(&strip_controls(&chars_of(value)))
}

/// How many characters of an entry the console shows.
pub const PREVIEW_CHARS: usize = 3000;

/// How many entries the console keeps.
pub const CONSOLE_ENTRIES: usize = 500;

/// The note that marks a shortened console entry.
pub open spec fn shortened_note() -> Seq<char> {
    " … [display shortened; file logging retains the full entry]"@
}

/// The console's view of an entry: its first 3000 characters, and a note when
/// there were more.
pub open spec fn preview(line: Seq<char>) -> Seq<char> {
    if line.len() > PREVIEW_CHARS {
        line.take(PREVIEW_CHARS as int) + shortened_note()
    } else {
        line
    }
}

/// Puts a new entry in front of the console, showing at most 3000 of its
/// characters, and keeps the newest 500 entries.
pub fn append(log: &mut std::collections::VecDeque<String>, line: String)
    ensures
        final(log)@.len() == if old(log)@.len() + 1 < CONSOLE_ENTRIES {
            old(log)@.len() + 1
        } else {
            CONSOLE_ENTRIES as nat
        },
        final(log)@[0]@ == preview(line@),
        forall|i: int| 1 <= i < final(log)@.len() ==> #[trigger] final(log)@[i] == old(log)@[i - 1],
{
    let chars = chars_of(line.as_str());
    let shown = if chars.len() > PREVIEW_CHARS {
        let mut p = crate::text::slice_of(&chars, 0, PREVIEW_CHARS);
        push_str(&mut p, " … [display shortened; file logging retains the full entry]");
        string_of(&p)
    } else {
        line
    };
    log.push_front(shown);
    log.truncate(CONSOLE_ENTRIES);
}

/// What a decoder reported for one window, as the console reads it.
pub struct DecoderReply {
    /// The JSON text of the reply's `error` member, when there is one.
    pub error: Option<String>,
    /// The JSON text of each element, when `events` is an array.
    pub events: Option<Vec<String>>,
    /// The `diagnostics` member, when it is a string.
    pub diagnostics: Option<String>,
    /// The JSON text of the whole reply.
    pub text: String,
}

pub open spec fn is_blank(s: Seq<char>) -> bool {
    crate::text::trim(s).len() == 0
}

/// The console lines for one decoder reply: an error line; else one line per
/// event, with the diagnostics when they are not blank; else a line saying that
/// nothing was recovered; else the whole reply. Every line is free of control
/// characters from the reply.
pub open spec fn reply_lines(
    error: Option<Seq<char>>,
    events: Option<Seq<Seq<char>>>,
    diagnostics: Option<Seq<char>>,
    text: Seq<char>,
) -> Seq<Seq<char>> {
    if let Some(e) = error {
        seq!["ERROR: "@ + without_controls(e)]
    } else if let Some(ev) = events {
        if ev.len() > 0 {
            let lines = Seq::new(ev.len(), |i: int| without_controls(ev[i]));
            match diagnostics {
                Some(d) if !is_blank(d) => lines.push("diagnostics: "@ + without_controls(d)),
                _ => lines,
            }
        } else {
            let d = match diagnostics {
                Some(d) => crate::text::trim(d),
                None => Seq::empty(),
            };
            if d.len() == 0 {
                seq!["No messages recovered in this window"@]
            } else {
                seq!["No messages · "@ + without_controls(d)]
            }
        }
    } else {
        seq![without_controls(text)]
    }
}

pub open spec fn texts(v: Seq<String>) -> Seq<Seq<char>> {
    Seq::new(v.len(), |i: int| v[i]@)
}

fn prefixed(prefix: &str, body: &str) -> (r: String)
    ensures
        r@ == prefix@ + without_controls(body@),
{
    let mut v = chars_of(prefix);
    let cleaned = strip_controls(&chars_of(body));
    push_chars(&mut v, &cleaned);
    string_of(&v)
}

/// No control character survives `without_controls`.
pub proof fn lemma_without_controls_is_clean(s: Seq<char>)
    ensures
        forall|i: int| 0 <= i < without_controls(s).len() ==> !is_control(#[trigger] without_controls(s)[i]),
    decreases s.len(),
{
    if s.len() > 0 {
        let w = without_controls(s.drop_last());
        lemma_without_controls_is_clean(s.drop_last());
        if !is_control(s.last()) {
            assert forall|i: int| 0 <= i < w.push(s.last()).len() implies !is_control(
                #[trigger] w.push(s.last())[i],
            ) by {
                if i < w.len() {
                    assert(w.push(s.last())[i] == w[i]);
                }
            }
        }
    }
}

pub open spec fn clean_text(s: Seq<char>) -> bool {
    forall|i: int| 0 <= i < s.len() ==> !is_control(#[trigger] s[i])
}

proof fn lemma_clean_join(a: Seq<char>, b: Seq<char>)
    requires
        clean_text(a),
        clean_text(b),
    ensures
        clean_text(a + b),
{
    assert forall|i: int| 0 <= i < (a + b).len() implies !is_control(#[trigger] (a + b)[i]) by {
        if i < a.len() {
            assert((a + b)[i] == a[i]);
        } else {
            assert((a + b)[i] == b[i - a.len()]);
        }
    }
}

/// Whatever a decoder replies, the console lines made of it hold no control
/// characters, so a reply cannot drive the terminal.
pub proof fn console_lines_hold_no_controls(
    error: Option<Seq<char>>,
    events: Option<Seq<Seq<char>>>,
    diagnostics: Option<Seq<char>>,
    text: Seq<char>,
)
    ensures
        forall|i: int|
            0 <= i < reply_lines(error, events, diagnostics, text).len() ==> clean_text(
                #[trigger] reply_lines(error, events, diagnostics, text)[i],
            ),
{
    reveal_strlit("ERROR: ");
    reveal_strlit("diagnostics: ");
    reveal_strlit("No messages recovered in this window");
    reveal_strlit("No messages · ");
    let lines = reply_lines(error, events, diagnostics, text);
    assert(clean_text("ERROR: "@));
    assert(clean_text("diagnostics: "@));
    assert(clean_text("No messages recovered in this window"@));
    assert(clean_text("No messages · "@));
    assert forall|i: int| 0 <= i < lines.len() implies clean_text(#[trigger] lines[i]) by {
        if let Some(e) = error {
            lemma_without_controls_is_clean(e);
            lemma_clean_join("ERROR: "@, without_controls(e));
        } else if let Some(ev) = events {
            if ev.len() > 0 {
                if i < ev.len() {
                    lemma_without_controls_is_clean(ev[i]);
                } else {
                    let d = diagnostics->0;
                    lemma_without_controls_is_clean(d);
                    lemma_clean_join("diagnostics: "@, without_controls(d));
                }
            } else {
                let d = match diagnostics {
                    Some(d) => crate::text::trim(d),
                    None => Seq::empty(),
                };
                lemma_without_controls_is_clean(d);
                lemma_clean_join("No messages · "@, without_controls(d));
            }
        } else {
            lemma_without_controls_is_clean(text);
        }
    }
}

/// Turns a decoder reply into console lines; see `reply_lines`.
pub fn result_lines(reply: &DecoderReply) -> (r: Vec<String>)
    ensures
        texts(r@) == reply_lines(
            match reply.error {
                Some(e) => Some(e@),
                None => None,
            },
            match reply.events {
                Some(ev) => Some(texts(ev@)),
                None => None,
            },
            match reply.diagnostics {
                Some(d) => Some(d@),
                None => None,
            },
            reply.text@,
        ),
{
    let mut r: Vec<String> = Vec::new();
    if let Some(e) = &reply.error {
        r.push(prefixed("ERROR: ", e.as_str()));
        assert(texts(r@) =~= seq!["ERROR: "@ + without_controls(e@)]);
        return r;
    }
    if let Some(events) = &reply.events {
        if events.len() > 0 {
            let mut i: usize = 0;
            while i < events.len()
                invariant
                    i <= events@.len(),
                    r@.len() == i,
                    forall|j: int| 0 <= j < i ==> (#[trigger] r@[j])@ == without_controls(events@[j]@),
                decreases events@.len() - i,
            {
                r.push(clean(events[i].as_str()));
                i = i + 1;
            }
            let ghost lines = Seq::new(events@.len(), |j: int| without_controls(events@[j]@));
            assert(texts(r@) =~= lines);
            if let Some(d) = &reply.diagnostics {
                let trimmed = crate::text::trim_chars(&chars_of(d.as_str()));
                if trimmed.len() > 0 {
                    r.push(prefixed("diagnostics: ", d.as_str()));
                    assert(texts(r@) =~= lines.push("diagnostics: "@ + without_controls(d@)));
                }
            }
            return r;
        }
        let trimmed = match &reply.diagnostics {
            Some(d) => crate::text::trim_chars(&chars_of(d.as_str())),
            None => Vec::new(),
        };
        if trimmed.len() == 0 {
            r.push(String::from_str("No messages recovered in this window"));
        } else {
            let mut v = chars_of("No messages · ");
            let cleaned = strip_controls(&trimmed);
            push_chars(&mut v, &cleaned);
            r.push(string_of(&v));
        }
        assert(texts(r@) =~= seq![r@[0]@]);
        return r;
    }
    r.push(clean(reply.text.as_str()));
    assert(texts(r@) =~= seq![without_controls(reply.text@)]);
    r
}


/// The largest frequency whose megahertz display (`hz / 1e6` in double
/// precision, shown with six decimals) is exactly `hz` written in megahertz:
/// below `2^33` MHz a double's rounding error stays under half a micro-unit.
pub const EXACT_MHZ_LIMIT: u64 = 8_589_934_592_000_000;

/// `hz` in megahertz with six decimals, e.g. `145.252000`.
pub open spec fn mhz_text(hz: nat) -> Seq<char> {
    decimal(hz / 1_000_000) + seq!['.'] + padded(hz % 1_000_000, 6)
}

/// The console prefix of a decoder line: the UTC time of day, the frequency
/// and the decoder's name, as `[HH:MM:SS UTC · 145.252000 MHz · name]`.
pub open spec fn prefix_text(unix_seconds: nat, hz: nat, name: Seq<char>) -> Seq<char> {
    let s = unix_seconds % 86400;
    "["@ + padded(s / 3600, 2) + ":"@ + padded(s / 60 % 60, 2) + ":"@ + padded(s % 60, 2)
        + " UTC · "@ + mhz_text(hz) + " MHz · "@ + name + "]"@
}

/// The console prefix shows the time of day: a day later it reads the same.
pub proof fn prefix_repeats_daily(unix_seconds: nat, hz: nat, name: Seq<char>)
    ensures
        prefix_text(unix_seconds + 86400, hz, name) == prefix_text(unix_seconds, hz, name),
{
    assert((unix_seconds + 86400) % 86400 == unix_seconds % 86400) by (nonlinear_arith);
}

/// The console prefix of a decoder line; see `prefix_text`. The frequency is
/// written exactly; below `EXACT_MHZ_LIMIT` this is also what a six-decimal
/// display of the double-precision megahertz value shows.
pub fn entry_prefix(unix_seconds: u64, hz: u64, name: &str) -> (r: String)
    ensures
        r@ == prefix_text(unix_seconds as nat, hz as nat, name@),
{
    let s = unix_seconds % 86400;
    let mut v = chars_of("[");
    push_padded(&mut v, s / 3600, 2);
    push_str(&mut v, ":");
    push_padded(&mut v, s / 60 % 60, 2);
    push_str(&mut v, ":");
    push_padded(&mut v, s % 60, 2);
    push_str(&mut v, " UTC · ");
    push_decimal(&mut v, hz / 1_000_000);
    v.push('.');
    push_padded(&mut v, hz % 1_000_000, 6);
    push_str(&mut v, " MHz · ");
    push_str(&mut v, name);
    push_str(&mut v, "]");
    proof {
        reveal_strlit("[");
    }
    assert(v@ =~= prefix_text(unix_seconds as nat, hz as nat, name@));
    string_of(&v)
}

/// The sample format that live decoders receive from a device, or `None` for
/// the synthetic demo source, which live decoders cannot use.
pub fn live_format(device: &str) -> (r: Option<&'static str>)
    ensures
        device@ == "demo"@ ==> r is None,
        device@ != "demo"@ ==> r is Some,
        r matches Some(f) ==> f@ == (if device@ == "rtl"@ {
            "cu8"@
        } else if device@ == "audio"@ {
            "wav"@
        } else {
            "cs8"@
        }),
{
    proof {
        crate::config::lemma_device_names();
    }
    if crate::text::text_eq(device, "rtl") {
        Some("cu8")
    } else if crate::text::text_eq(device, "audio") {
        Some("wav")
    } else if crate::text::text_eq(device, "demo") {
        None
    } else {
        Some("cs8")
    }
}


/// How many I/Q samples a live window holds: two seconds at the sample rate,
/// at most eight million.
pub fn tap_samples(sample_rate: u32) -> (r: usize)
    ensures
        r == if sample_rate as int * 2 < 8_000_000 {
            sample_rate as int * 2
        } else {
            8_000_000
        },
{
    let doubled = sample_rate as u64 * 2;
    if doubled < 8_000_000 {
        doubled as usize
    } else {
        8_000_000
    }
}

/// The signed 16-bit sample stored little-endian in `lo`, `hi`.
pub open spec fn le_i16(lo: u8, hi: u8) -> int {
    let u = lo + 256 * hi;
    if u >= 32768 {
        u - 65536
    } else {
        u
    }
}

/// The 16-bit little-endian samples of an audio window; a final odd byte is
/// not a sample.
pub fn wav_samples(bytes: &[u8]) -> (r: Vec<i16>)
    ensures
        r@.len() == bytes@.len() / 2,
        forall|i: int|
            0 <= i < r@.len() ==> r@[i] as int == le_i16(#[trigger] bytes@[2 * i], bytes@[2 * i + 1]),
{
    let mut r: Vec<i16> = Vec::new();
    let len = bytes.len();
    let n = len / 2;
    let mut i: usize = 0;
    while i < n
        invariant
            len == bytes@.len(),
            n == bytes@.len() / 2,
            i <= n,
            r@.len() == i,
            forall|k: int|
                0 <= k < i ==> r@[k] as int == le_i16(#[trigger] bytes@[2 * k], bytes@[2 * k + 1]),
        decreases n - i,
    {
        assert(2 * i + 1 < bytes@.len()) by (nonlinear_arith)
            requires
                i < n,
                n == bytes@.len() / 2,
        ;
        let lo = bytes[2 * i];
        let hi = bytes[2 * i + 1];
        let u: i32 = lo as i32 + 256 * hi as i32;
        let s: i16 = if u >= 32768 {
            (u - 65536) as i16
        } else {
            u as i16
        };
        r.push(s);
        i = i + 1;
    }
    r
}

/// The console note when no enabled decoder takes the stream's format.
pub open spec fn idle_notice(format: Seq<char>) -> Seq<char> {
    "No enabled decoders accept "@ + format + "; enable a compatible decoder in Addons (4)"@
}

pub fn no_decoder_notice(format: &str) -> (r: String)
    ensures
        r@ == idle_notice(format@),
{
    let mut v: Vec<char> = Vec::new();
    push_str(&mut v, "No enabled decoders accept ");
    push_str(&mut v, format);
    push_str(&mut v, "; enable a compatible decoder in Addons (4)");
    string_of(&v)
}

} // verus!
