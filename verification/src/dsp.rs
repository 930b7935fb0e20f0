//! Sizing the spectrum analysis of a recording.
use vstd::prelude::*;

verus! {

pub open spec fn is_power_of_two(p: nat) -> bool
    decreases p,
{
    if p == 1 {
        true
    } else if p >= 2 && p % 2 == 0 {
        is_power_of_two(p / 2)
    } else {
        false
    }
}

/// Why a recording cannot be analysed.
#[derive(Debug, Clone, Copy, PartialEq, Eq, Structural)]
pub enum DspError {
    /// Fewer than 256 samples.
    TooShort,
    /// A recording format other than cs8, cu8 and wav.
    Format,
    /// Raw I/Q bytes that end inside a sample.
    Truncated,
}

impl DspError {
    pub fn message(&self) -> (s: &'static str)
        ensures
            s@ == self.explanation(),
    {
        match self {
            DspError::TooShort => "need at least 256 samples",
            DspError::Format => "format must be cs8, cu8, or wav",
            DspError::Truncated => "truncated I/Q sample",
        }
    }

    /// The text that explains the refusal.
    pub open spec fn explanation(&self) -> Seq<char> {
        match *self {
            DspError::TooShort => "need at least 256 samples"@,
            DspError::Format => "format must be cs8, cu8, or wav"@,
            DspError::Truncated => "truncated I/Q sample"@,
        }
    }
}

/// Raw I/Q input is signed (`cs8`) or unsigned (`cu8`) 8-bit pairs: the format
/// must be one of those, and the bytes whole pairs.
pub fn check_iq(format: &str, len: usize) -> (r: Result<(), DspError>)
    ensures
        r == if !(format@ == "cs8"@ || format@ == "cu8"@) {
            Err(DspError::Format)
        } else if len % 2 != 0 {
            Err(DspError::Truncated)
        } else {
            Ok::<(), DspError>(())
        },
{
    if !(crate::text::text_eq(format, "cs8") || crate::text::text_eq(format, "cu8")) {
        return Err(DspError::Format);
    }
    if len % 2 != 0 {
        return Err(DspError::Truncated);
    }
    Ok(())
}

/// The FFT length for a recording of `samples` samples: the requested length,
/// or, for a shorter recording, the largest power of two it holds.
pub fn fft_length(requested: usize, samples: usize) -> (r: Result<usize, DspError>)
    ensures
        samples < 256 ==> r == Err::<usize, DspError>(DspError::TooShort),
        samples >= 256 ==> exists|p: nat|
            #![trigger is_power_of_two(p)]
            is_power_of_two(p) && p <= samples < 2 * p && r == Ok::<usize, DspError>(
                if requested < p {
                    requested
                } else {
                    p as usize
                },
            ),
{
    if samples < 256 {
        return Err(DspError::TooShort);
    }
    let mut p: usize = 1;
    while p <= samples / 2
        invariant
            1 <= p <= samples,
            is_power_of_two(p as nat),
        decreases samples - p,
    {
        assert(is_power_of_two((2 * p) as nat)) by {
            assert((2 * p) as nat / 2 == p as nat);
        }
        p = p * 2;
    }
    let r = if requested < p {
        requested
    } else {
        p
    };
    assert(is_power_of_two(p as nat) && p <= samples < 2 * p);
    Ok(r)
}

/// `runs` are the maximal stretches of bins above the detection threshold,
/// in order, among the bins strictly inside the spectrum (the first and last
/// bins never start a detection): each run holds only bins above it, cannot
/// be extended at either end, and every such bin lies in one of them.
pub open spec fn maximal_runs(above: Seq<bool>, runs: Seq<(usize, usize)>) -> bool {
    let last = above.len() - 1;
    &&& forall|k: int| 0 <= k < runs.len() ==> 1 <= (#[trigger] runs[k]).0 < runs[k].1 <= last
    &&& forall|k: int, i: int|
        0 <= k < runs.len() && (#[trigger] runs[k]).0 <= i < runs[k].1 ==> #[trigger] above[i]
    &&& forall|k: int| 0 <= k < runs.len() && (#[trigger] runs[k]).1 < last ==> !above[runs[k].1 as int]
    &&& forall|k: int| 0 <= k < runs.len() && (#[trigger] runs[k]).0 > 1 ==> !above[runs[k].0 - 1]
    &&& forall|k: int| 0 <= k < runs.len() - 1 ==> (#[trigger] runs[k]).1 < runs[k + 1].0
    &&& forall|i: int|
        1 <= i < last && #[trigger] above[i] ==> exists|k: int|
            0 <= k < runs.len() && (#[trigger] runs[k]).0 <= i < runs[k].1
}

/// The stretches of a spectrum's bins that rise above the detection
/// threshold, given which bins do; each is a candidate signal.
pub fn threshold_runs(above: &Vec<bool>) -> (r: Vec<(usize, usize)>)
    requires
        above@.len() >= 1,
    ensures
        maximal_runs(above@, r@),
{
    let n = above.len();
    let last = n - 1;
    let mut runs: Vec<(usize, usize)> = Vec::new();
    let mut i: usize = 1;
    if last < 1 {
        return runs;
    }
    while i < last
        invariant
            n == above@.len(),
            last == n - 1,
            1 <= i <= last,
            forall|k: int| 0 <= k < runs@.len() ==> 1 <= (#[trigger] runs@[k]).0 < runs@[k].1 <= i,
            forall|k: int, j: int|
                0 <= k < runs@.len() && (#[trigger] runs@[k]).0 <= j < runs@[k].1 ==> #[trigger] above@[j],
            forall|k: int| 0 <= k < runs@.len() && (#[trigger] runs@[k]).1 < last ==> !above@[runs@[k].1 as int],
            forall|k: int| 0 <= k < runs@.len() && (#[trigger] runs@[k]).0 > 1 ==> !above@[runs@[k].0 - 1],
            forall|k: int| 0 <= k < runs@.len() - 1 ==> (#[trigger] runs@[k]).1 < runs@[k + 1].0,
            forall|j: int|
                1 <= j < i && #[trigger] above@[j] ==> exists|k: int|
                    0 <= k < runs@.len() && (#[trigger] runs@[k]).0 <= j < runs@[k].1,
            i > 1 && above@[i - 1] ==> runs@.len() > 0 && runs@[runs@.len() - 1].1 == i,
        decreases last - i,
    {
        if above[i] {
            let start = i;
            proof {
                if start > 1 && above@[start - 1] {
                    let k = runs@.len() - 1;
                    assert(runs@[k].1 == start);
                }
            }
            while i < last && above[i]
                invariant
                    n == above@.len(),
                    last == n - 1,
                    1 <= start <= i <= last,
                    forall|j: int| start <= j < i ==> #[trigger] above@[j],
                decreases last - i,
            {
                i = i + 1;
            }
            let ghost before = runs@;
            runs.push((start, i));
            proof {
                let k = runs@.len() - 1;
                assert(runs@[k] == (start, i));
                assert forall|j: int| 1 <= j < i && #[trigger] above@[j] implies exists|m: int|
                    0 <= m < runs@.len() && (#[trigger] runs@[m]).0 <= j < runs@[m].1 by {
                    if j >= start {
                        assert(runs@[k].0 <= j < runs@[k].1);
                    } else {
                        let m = choose|m: int| 0 <= m < before.len() && (#[trigger] before[m]).0 <= j < before[m].1;
                        assert(runs@[m] == before[m]);
                    }
                }
                assert forall|m: int| 0 <= m < runs@.len() - 1 implies (#[trigger] runs@[m]).1 < runs@[m + 1].0 by {
                    if m == k - 1 {
                        assert(before[m].1 <= start);
                        if before[m].1 == start {
                            assert(!above@[start as int]);
                        }
                    }
                }
            }
        } else {
            i = i + 1;
        }
    }
    runs
}

} // verus!
