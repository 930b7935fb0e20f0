//! The sequential wideband survey: the sweep command, how many bins a sweep
//! covers, and which bins the current pass has measured.
use vstd::prelude::*;
use crate::config::{checked, Config, ConfigError, ConfigView};
use crate::radio::{push_number, push_text, texts};
use crate::text::{decimal, push_decimal, string_of, text_eq};

verus! {

/// The number of `bin_hz` bins that cover `start_mhz..end_mhz`, the last one
/// possibly partial.
pub fn sweep_bins(start_mhz: u32, end_mhz: u32, bin_hz: u32) -> (r: u64)
    requires
        start_mhz < end_mhz,
        bin_hz > 0,
    ensures
        r == ((end_mhz - start_mhz) * 1_000_000 + bin_hz - 1) / (bin_hz as int),
{
    let span = (end_mhz - start_mhz) as u64;
    assert(span * 1_000_000 <= 0xffff_ffff * 1_000_000u64) by (nonlinear_arith)
        requires
            span <= 0xffff_ffff,
    ;
    let hz = span * 1_000_000;
    let b = bin_hz as u64;
    (hz + b - 1) / b
}

/// Why a survey cannot start.
#[derive(Debug, Clone, Copy, PartialEq, Eq, Structural)]
pub enum SurveyError {
    /// The wideband sweep needs a HackRF.
    NotHackrf,
    /// The configuration breaks a rule.
    Invalid(ConfigError),
}

impl SurveyError {
    pub fn message(&self) -> (s: &'static str)
        ensures
            s@ == self.explanation(),
    {
        match self {
            SurveyError::NotHackrf => "wideband sweep requires HackRF",
            SurveyError::Invalid(e) => e.message(),
        }
    }

    /// The text that explains the refusal.
    pub open spec fn explanation(&self) -> Seq<char> {
        match *self {
            SurveyError::NotHackrf => "wideband sweep requires HackRF"@,
            SurveyError::Invalid(e) => e.explanation(),
        }
    }
}

/// The arguments of `hackrf_sweep` for the configured range, bin width and
/// gains, with the device serial when one is set.
pub open spec fn sweep_args_of(c: ConfigView) -> Seq<Seq<char>> {
    seq![
        "-f"@,
        decimal(c.sweep_start_mhz as nat) + seq![':'] + decimal(c.sweep_end_mhz as nat),
        "-w"@,
        decimal(c.sweep_bin_hz as nat),
        "-l"@,
        decimal(c.lna_gain as nat),
        "-g"@,
        decimal(c.vga_gain as nat),
        "-a"@,
        "0"@,
        "-p"@,
        "0"@,
        "-n"@,
        "-P"@,
        "estimate"@,
    ] + if c.serial.len() > 0 {
        seq!["-d"@, c.serial]
    } else {
        Seq::empty()
    }
}

/// What starting a survey gives: the sweep's arguments, or why it cannot run.
pub open spec fn survey_plan(c: ConfigView) -> Result<Seq<Seq<char>>, SurveyError> {
    if c.device != "hackrf"@ {
        Err(SurveyError::NotHackrf)
    } else if let Err(e) = checked(c) {
        Err(SurveyError::Invalid(e))
    } else {
        Ok(sweep_args_of(c))
    }
}

pub fn sweep_args(c: &Config) -> (r: Result<Vec<String>, SurveyError>)
    ensures
        match r {
            Ok(v) => survey_plan(c@) == Ok::<Seq<Seq<char>>, SurveyError>(texts(v@)),
            Err(e) => survey_plan(c@) == Err::<Seq<Seq<char>>, SurveyError>(e),
        },
{
    if !text_eq(c.device.as_str(), "hackrf") {
        return Err(SurveyError::NotHackrf);
    }
    if let Err(e) = c.validate() {
        return Err(SurveyError::Invalid(e));
    }
    let mut v: Vec<String> = Vec::new();
    assert(texts(v@) =~= Seq::<Seq<char>>::empty());
    push_text(&mut v, "-f");
    let mut range: Vec<char> = Vec::new();
    push_decimal(&mut range, c.sweep_start_mhz as u64);
    range.push(':');
    push_decimal(&mut range, c.sweep_end_mhz as u64);
    let ghost range_text = range@;
    assert(range_text =~= decimal(c.sweep_start_mhz as nat) + seq![':'] + decimal(
        c.sweep_end_mhz as nat,
    ));
    let ghost before = texts(v@);
    let shown = string_of(&range);
    v.push(shown);
    assert(texts(v@) =~= before.push(range_text));
    push_text(&mut v, "-w");
    push_number(&mut v, c.sweep_bin_hz as u64);
    push_text(&mut v, "-l");
    push_number(&mut v, c.lna_gain as u64);
    push_text(&mut v, "-g");
    push_number(&mut v, c.vga_gain as u64);
    push_text(&mut v, "-a");
    push_text(&mut v, "0");
    push_text(&mut v, "-p");
    push_text(&mut v, "0");
    push_text(&mut v, "-n");
    push_text(&mut v, "-P");
    push_text(&mut v, "estimate");
    let ghost fixed = texts(v@);
    assert(fixed =~= seq![
        "-f"@,
        range_text,
        "-w"@,
        decimal(c.sweep_bin_hz as nat),
        "-l"@,
        decimal(c.lna_gain as nat),
        "-g"@,
        decimal(c.vga_gain as nat),
        "-a"@,
        "0"@,
        "-p"@,
        "0"@,
        "-n"@,
        "-P"@,
        "estimate"@,
    ]);
    if !c.serial.as_str().is_empty() {
        push_text(&mut v, "-d");
        push_text(&mut v, c.serial.as_str());
        assert(texts(v@) =~= fixed + seq!["-d"@, c.serial@]);
    } else {
        assert(texts(v@) =~= fixed + Seq::<Seq<char>>::empty());
    }
    assert(texts(v@) =~= sweep_args_of(c@));
    Ok(v)
}

/// Which bins of a survey have been measured: the pass count, the timestamp
/// of the sweep row being read, the bins seen in the current pass, and for
/// each bin the pass (counted from 1) that last measured it.
pub struct SweepCoverage {
    pub passes: u64,
    pub stamp: String,
    pub seen: Vec<bool>,
    pub measured: Vec<Option<u64>>,
}

impl SweepCoverage {
    /// The two per-bin tables have one entry per bin.
    pub open spec fn well_formed(&self) -> bool {
        self.seen@.len() == self.measured@.len()
    }

    /// A survey of `count` bins before any row.
    pub fn new(count: usize) -> (r: SweepCoverage)
        ensures
            r.well_formed(),
            r.passes == 0,
            r.stamp@.len() == 0,
            r.seen@ == Seq::new(count as nat, |i: int| false),
            r.measured@ == Seq::new(count as nat, |i: int| None::<u64>),
    {
        let mut seen: Vec<bool> = Vec::new();
        let mut measured: Vec<Option<u64>> = Vec::new();
        let mut i: usize = 0;
        while i < count
            invariant
                i <= count,
                seen@ == Seq::new(i as nat, |k: int| false),
                measured@ == Seq::new(i as nat, |k: int| None::<u64>),
            decreases count - i,
        {
            seen.push(false);
            measured.push(None);
            i = i + 1;
            assert(seen@ =~= Seq::new(i as nat, |k: int| false));
            assert(measured@ =~= Seq::new(i as nat, |k: int| None::<u64>));
        }
        SweepCoverage { passes: 0, stamp: String::new(), seen, measured }
    }

    /// Starts reading a sweep row stamped `date`: a stamp other than the
    /// previous one begins a new pass, in which no bin is seen yet.
    pub fn begin_row(&mut self, date: &str)
        requires
            old(self).well_formed(),
            old(self).passes < u64::MAX,
        ensures
            final(self).well_formed(),
            final(self).stamp@ == date@,
            final(self).measured@ == old(self).measured@,
            if old(self).stamp@.len() > 0 && date@ != old(self).stamp@ {
                &&& final(self).passes == old(self).passes + 1
                &&& final(self).seen@ == Seq::new(old(self).seen@.len(), |i: int| false)
            } else {
                &&& final(self).passes == old(self).passes
                &&& final(self).seen@ == old(self).seen@
            },
    {
        if !self.stamp.as_str().is_empty() && !text_eq(date, self.stamp.as_str()) {
            self.passes = self.passes + 1;
            let n = self.seen.len();
            let mut i: usize = 0;
            while i < n
                invariant
                    n == self.seen@.len(),
                    i <= n,
                    self.measured@ == old(self).measured@,
                    self.passes == old(self).passes + 1,
                    self.stamp == old(self).stamp,
                    forall|k: int| 0 <= k < i ==> self.seen@[k] == false,
                decreases n - i,
            {
                self.seen.set(i, false);
                i = i + 1;
            }
            assert(self.seen@ =~= Seq::new(n as nat, |k: int| false));
        }
        self.stamp = String::from_str(date);
    }

    /// Records a measurement of bin `i` in the current pass; bins past the end
    /// are ignored.
    pub fn mark(&mut self, i: usize)
        requires
            old(self).well_formed(),
            old(self).passes < u64::MAX,
        ensures
            final(self).well_formed(),
            final(self).passes == old(self).passes,
            final(self).stamp == old(self).stamp,
            i < old(self).seen@.len() ==> final(self).seen@ == old(self).seen@.update(i as int, true)
                && final(self).measured@ == old(self).measured@.update(
                i as int,
                Some((old(self).passes + 1) as u64),
            ),
            i >= old(self).seen@.len() ==> final(self).seen@ == old(self).seen@
                && final(self).measured@ == old(self).measured@,
    {
        if i < self.seen.len() {
            self.measured.set(i, Some(self.passes + 1));
            self.seen.set(i, true);
        }
    }

    /// How many bins the current pass has seen.
    pub fn covered(&self) -> (r: usize)
        ensures
            r == seen_count(self.seen@),
    {
        let mut n: usize = 0;
        let mut i: usize = 0;
        while i < self.seen.len()
            invariant
                i <= self.seen@.len(),
                n == seen_count(self.seen@.take(i as int)),
                n <= i,
            decreases self.seen@.len() - i,
        {
            assert(self.seen@.take(i + 1).drop_last() =~= self.seen@.take(i as int));
            if self.seen[i] {
                n = n + 1;
            }
            i = i + 1;
        }
        assert(self.seen@.take(self.seen@.len() as int) =~= self.seen@);
        n
    }
}

/// The number of bins marked seen.
pub open spec fn seen_count(seen: Seq<bool>) -> nat
    decreases seen.len(),
{
    if seen.len() == 0 {
        0
    } else {
        seen_count(seen.drop_last()) + if seen.last() {
            1nat
        } else {
            0nat
        }
    }
}

} // verus!
