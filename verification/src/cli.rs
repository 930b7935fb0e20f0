//! The command line: what it asks for, the settings it overrides, and the
//! frequencies a scan visits.
use vstd::prelude::*;
use crate::config::{checked, device_default_rate, device_rate, Config, ConfigError, ConfigView};
use crate::paths::text_opt;
use crate::text::text_eq;

verus! {

/// What to do with the user settings.
pub enum ConfigAction {
    Update { key: String, value: String },
    Path,
}

/// What to do with the installed addons.
pub enum AddonAction {
    List,
    Toggle { name: String },
    Run { name: String, input: String, format: String },
}

/// One command of the workbench.
pub enum Action {
    Tui { demo: bool },
    Doctor,
    Config { action: Option<ConfigAction> },
    Record { output: String, seconds: u32 },
    Analyze { input: String, format: String, png: Option<String> },
    Scan { start: u64, end: u64, step: u64, seconds: u32 },
    Decode { input: String, mode: String, format: String },
    Encode { output: String, bits: String, mode: String, baud: u32, rate: u32 },
    Demod { input: String, output: String, mode: String, format: String },
    Replay { input: String, confirm_tx: bool, gain: u32 },
    Play { input: String },
    Addon { action: AddonAction },
    Ai { input: Option<String>, image: Option<String>, format: String, question: String },
    History { export: Option<i64> },
}

/// A parsed command line: settings that override the saved ones for this run,
/// and the command.
pub struct Cli {
    pub device: Option<String>,
    pub frequency: Option<u64>,
    pub sample_rate: Option<u32>,
    pub command: Option<Action>,
}

/// The saved settings with the command line's overrides applied. Choosing a
/// device also chooses its usual sample rate, unless a rate is given.
pub open spec fn overridden(
    saved: ConfigView,
    device: Option<Seq<char>>,
    frequency: Option<u64>,
    sample_rate: Option<u32>,
) -> ConfigView {
    let with_device = match device {
        Some(d) => ConfigView {
            device: d,
            sample_rate: if sample_rate is None {
                device_rate(d)
            } else {
                saved.sample_rate
            },
            ..saved
        },
        None => saved,
    };
    let with_frequency = match frequency {
        Some(f) => ConfigView { frequency: f, ..with_device },
        None => with_device,
    };
    match sample_rate {
        Some(s) => ConfigView { sample_rate: s, ..with_frequency },
        None => with_frequency,
    }
}

/// The settings for a run: the saved ones with the command line's overrides,
/// provided they keep every rule.
pub fn configured(cli: &Cli, saved: Config) -> (r: Result<Config, ConfigError>)
    ensures
        ({
            let want = overridden(
                saved@,
                match cli.device {
                    Some(d) => Some(d@),
                    None => None,
                },
                cli.frequency,
                cli.sample_rate,
            );
            match checked(want) {
                Ok(()) => r matches Ok(c) && c@ == want,
                Err(e) => r == Err::<Config, ConfigError>(e),
            }
        }),
{
    let mut c = saved;
    if let Some(d) = &cli.device {
        c.device = d.clone();
        if cli.sample_rate.is_none() {
            c.sample_rate = device_default_rate(d.as_str());
        }
    }
    if let Some(f) = cli.frequency {
        c.frequency = f;
    }
    if let Some(s) = cli.sample_rate {
        c.sample_rate = s;
    }
    match c.validate() {
        Ok(()) => Ok(c),
        Err(e) => Err(e),
    }
}

/// Why a scan cannot run.
#[derive(Debug, Clone, Copy, PartialEq, Eq, Structural)]
pub enum ScanError {
    /// Scanning needs a HackRF or an RTL-SDR.
    NeedsRadio,
    /// The range is empty or the step is zero.
    Range,
    /// More than 1000 centre frequencies.
    TooMany,
}

impl ScanError {
    pub fn message(&self) -> (s: &'static str)
        ensures
            s@ == self.explanation(),
    {
        match self {
            ScanError::NeedsRadio => "scan requires an SDR",
            ScanError::Range => "invalid scan range",
            ScanError::TooMany => "scan limited to 1000 center frequencies",
        }
    }

    /// The text that explains the refusal.
    pub open spec fn explanation(&self) -> Seq<char> {
        match *self {
            ScanError::NeedsRadio => "scan requires an SDR"@,
            ScanError::Range => "invalid scan range"@,
            ScanError::TooMany => "scan limited to 1000 center frequencies"@,
        }
    }
}

/// The centre frequencies a scan visits: `start`, `start + step`, ... up to `end`.
pub open spec fn scan_points(start: u64, end: u64, step: u64) -> Seq<u64> {
    Seq::new(
        ((end - start) / (step as int) + 1) as nat,
        |k: int| (start + k * step) as u64,
    )
}

/// A scan starts at `start`, advances by exactly `step`, never passes `end`,
/// and stops only when another step would pass it.
pub proof fn scan_points_cover_range(start: u64, end: u64, step: u64)
    requires
        start <= end,
        step > 0,
    ensures
        scan_points(start, end, step).len() >= 1,
        scan_points(start, end, step)[0] == start,
        forall|k: int|
            0 <= k < scan_points(start, end, step).len() ==> #[trigger] scan_points(start, end, step)[k]
                <= end,
        forall|k: int|
            0 < k < scan_points(start, end, step).len() ==> #[trigger] scan_points(start, end, step)[k]
                == scan_points(start, end, step)[k - 1] + step,
        scan_points(start, end, step).last() + step > end,
{
    let p = scan_points(start, end, step);
    let n = (end - start) / (step as int);
    assert(n * step <= end - start && (n + 1) * step > end - start) by (nonlinear_arith)
        requires
            n == (end - start) / (step as int),
            step > 0,
            end - start >= 0,
    ;
    assert forall|k: int| 0 <= k < p.len() implies #[trigger] p[k] <= end && p[k] == start + k * step by {
        assert(k * step <= n * step) by (nonlinear_arith)
            requires
                0 <= k <= n,
                step > 0,
        ;
        assert(start + k * step <= u64::MAX);
    }
    assert forall|k: int| 0 < k < p.len() implies #[trigger] p[k] == p[k - 1] + step by {
        assert(p[k] == start + k * step && p[k - 1] == start + (k - 1) * step);
        assert(k * step == (k - 1) * step + step) by (nonlinear_arith);
    }
    assert(p.last() == p[n]);
    assert(p[n] == start + n * step);
    assert((n + 1) * step == n * step + step) by (nonlinear_arith);
}

/// The centre frequencies of a scan of `start..=end` in steps of `step`.
pub fn scan_frequencies(device: &str, start: u64, end: u64, step: u64) -> (r: Result<
    Vec<u64>,
    ScanError,
>)
    ensures
        !(device@ == "hackrf"@ || device@ == "rtl"@) ==> r == Err::<Vec<u64>, ScanError>(
            ScanError::NeedsRadio,
        ),
        (device@ == "hackrf"@ || device@ == "rtl"@) ==> if !(start <= end && step > 0) {
            r == Err::<Vec<u64>, ScanError>(ScanError::Range)
        } else if (end - start) / (step as int) >= 1000 {
            r == Err::<Vec<u64>, ScanError>(ScanError::TooMany)
        } else {
            r matches Ok(v) && v@ == scan_points(start, end, step)
        },
{
    if !(text_eq(device, "hackrf") || text_eq(device, "rtl")) {
        return Err(ScanError::NeedsRadio);
    }
    if !(start <= end && step > 0) {
        return Err(ScanError::Range);
    }
    if (end - start) / step >= 1000 {
        return Err(ScanError::TooMany);
    }
    let ghost count = (end - start) / (step as int) + 1;
    let mut v: Vec<u64> = Vec::new();
    let mut f = start;
    assert(0int % (step as int) == 0 && 0int / (step as int) == 0) by (nonlinear_arith)
        requires
            step > 0,
    ;
    loop
        invariant_except_break
            start <= f <= end,
            (f - start) % (step as int) == 0,
            v@.len() == (f - start) / (step as int),
        invariant
            step > 0,
            count == (end - start) / (step as int) + 1,
            forall|k: int| 0 <= k < v@.len() ==> #[trigger] v@[k] == start + k * step,
        ensures
            v@ =~= scan_points(start, end, step),
        decreases end - f,
    {
        let ghost k = v@.len() as int;
        proof {
            assert(f == start + k * step) by (nonlinear_arith)
                requires
                    (f - start) % (step as int) == 0,
                    k == (f - start) / (step as int),
                    step > 0,
            ;
        }
        v.push(f);
        if end - f < step {
            proof {
                assert((end - start) / (step as int) == k) by (nonlinear_arith)
                    requires
                        end - start - k * step < step,
                        end - start - k * step >= 0,
                        step > 0,
                        k >= 0,
                ;
            }
            break;
        }
        proof {
            assert((f + step - start) % (step as int) == 0 && (f + step - start) / (step as int)
                == k + 1) by (nonlinear_arith)
                requires
                    f - start == k * step,
                    step > 0,
            ;
        }
        f = f + step;
    }
    Ok(v)
}

/// A command typed in the workbench runs with the session's receiver: its
/// device and frequency, and its sample rate when the command line chose no
/// device. The command itself is kept.
pub fn inherit_session(cli: &mut Cli, c: &Config)
    ensures
        text_opt(final(cli).device) == if old(cli).device is None {
            Some(c.device@)
        } else {
            text_opt(old(cli).device)
        },
        final(cli).frequency == if old(cli).frequency is None {
            Some(c.frequency)
        } else {
            old(cli).frequency
        },
        final(cli).sample_rate == if old(cli).sample_rate is None && old(cli).device is None {
            Some(c.sample_rate)
        } else {
            old(cli).sample_rate
        },
        final(cli).command == old(cli).command,
{
    let inherits_device = cli.device.is_none();
    if inherits_device {
        cli.device = Some(c.device.clone());
    }
    if cli.frequency.is_none() {
        cli.frequency = Some(c.frequency);
    }
    if cli.sample_rate.is_none() && inherits_device {
        cli.sample_rate = Some(c.sample_rate);
    }
}

/// Whether a command changes the saved settings, so that the session reloads
/// them when it finishes.
pub fn changes_settings(cli: &Cli) -> (r: bool)
    ensures
        r == (cli.command matches Some(Action::Config { action: Some(ConfigAction::Update { .. }) })),
{
    match &cli.command {
        Some(Action::Config { action: Some(ConfigAction::Update { .. }) }) => true,
        _ => false,
    }
}

/// The words that shlex's `split` makes of a text, as a POSIX shell splits
/// it with its quotes and backslashes, or `None` when the text ends inside a
/// quotation or right after an unescaped backslash.
pub uninterp spec fn shell_words(text: Seq<char>) -> Option<Seq<Seq<char>>>;

pub open spec fn words_of(words: Seq<String>) -> Seq<Seq<char>> {
    words.map_values(|w: String| w@)
}

/// shlex's `split`: the words of `text`, or `None` when a quotation is left
/// open or the text ends in a lone backslash.
#[verifier::external_body]
fn split_words(text: &str) -> (r: Option<Vec<String>>)
    ensures
        match r {
            Some(w) => shell_words(text@) == Some(words_of(w@)),
            None => shell_words(text@) is None,
        },
{
    shlex::split(text)
}

/// Why a command-bar text cannot be run.
#[derive(Debug, Clone, Copy, PartialEq, Eq, Structural)]
pub enum CommandError {
    /// A quotation is left open, or the text ends in a lone backslash.
    UnclosedQuote,
}

impl CommandError {
    pub fn message(&self) -> (s: &'static str)
        ensures
            s@ == "Unclosed quote"@,
    {
        "Unclosed quote"
    }
}

/// The program arguments for a command typed in the command bar: the
/// program's name, then the text's words as a shell splits them, so a path
/// with spaces is written in quotes.
pub fn command_args(text: &str) -> (r: Result<Vec<String>, CommandError>)
    ensures
        match shell_words(text@) {
            None => r == Err::<Vec<String>, CommandError>(CommandError::UnclosedQuote),
            Some(w) => r matches Ok(args) && words_of(args@) == seq!["thugsrf"@] + w,
        },
{
    match split_words(text) {
        None => Err(CommandError::UnclosedQuote),
        Some(words) => {
            let mut args: Vec<String> = Vec::new();
            args.push("thugsrf".to_owned());
            let mut i: usize = 0;
            while i < words.len()
                invariant
                    i <= words@.len(),
                    words_of(args@) == seq!["thugsrf"@] + words_of(words@.take(i as int)),
                decreases words@.len() - i,
            {
                let ghost before = args@;
                args.push(words[i].clone());
                proof {
                    assert(words_of(args@) =~= words_of(before).push(words@[i as int]@));
                    assert(words_of(words@.take(i + 1)) =~= words_of(words@.take(i as int)).push(
                        words@[i as int]@,
                    ));
                }
                i = i + 1;
            }
            assert(words@.take(words@.len() as int) =~= words@);
            Ok(args)
        },
    }
}

} // verus!
