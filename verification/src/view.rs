//! The terminal workbench's navigation: panels, zoom, bin selection and the
//! receive-mode and resolution cycles.
use vstd::prelude::*;
use crate::text::text_eq;

verus! {

/// The number of panels.
pub const PANELS: usize = 10;

/// The panel after `tab`, wrapping around.
pub fn next_panel(tab: usize) -> (r: usize)
    requires
        tab < PANELS,
    ensures
        r == (tab + 1) % (PANELS as int),
{
    (tab + 1) % PANELS
}

/// The panel before `tab`, wrapping around.
pub fn previous_panel(tab: usize) -> (r: usize)
    requires
        tab < PANELS,
    ensures
        r == (tab + PANELS - 1) % (PANELS as int),
{
    (tab + PANELS - 1) % PANELS
}

/// The panel that a digit key `1`..`9` selects.
pub fn digit_panel(key: char) -> (r: Option<usize>)
    ensures
        ('1' <= key <= '9') ==> r == Some((key as u32 - '1' as u32) as usize),
        !('1' <= key <= '9') ==> r is None,
{
    if '1' <= key && key <= '9' {
        Some((key as u32 - '1' as u32) as usize)
    } else {
        None
    }
}

/// The zoom factor after zooming in (doubling, up to an eighth of the bins,
/// at least 1) or out (halving, at least 1).
pub open spec fn zoomed(zoom: nat, bins: nat, increase: bool) -> nat {
    if increase {
        let limit = if bins / 8 > 1 {
            bins / 8
        } else {
            1
        };
        if zoom * 2 < limit {
            zoom * 2
        } else {
            limit
        }
    } else if zoom / 2 > 1 {
        zoom / 2
    } else {
        1
    }
}

pub fn zoom_level(zoom: usize, bins: usize, increase: bool) -> (r: usize)
    requires
        1 <= zoom <= usize::MAX / 2,
    ensures
        r == zoomed(zoom as nat, bins as nat, increase),
        r >= 1,
{
    if increase {
        let limit = if bins / 8 > 1 {
            bins / 8
        } else {
            1
        };
        if zoom * 2 < limit {
            zoom * 2
        } else {
            limit
        }
    } else if zoom / 2 > 1 {
        zoom / 2
    } else {
        1
    }
}

/// The bins shown at a zoom, as `(first, end)`: `count` of them (the bins
/// divided by the zoom, at least 8 and at most all), centred on bin `position`
/// where the edges allow.
pub open spec fn visible(bins: int, zoom: int, position: int) -> (int, int) {
    let count = if bins / zoom > 8 {
        bins / zoom
    } else {
        8
    };
    let count = if count < bins {
        count
    } else {
        bins
    };
    let half = count / 2;
    let left = if position > half {
        position - half
    } else {
        0
    };
    let first = if left < bins - count {
        left
    } else {
        bins - count
    };
    (first, first + count)
}

pub fn visible_range(bins: usize, zoom: usize, position: usize) -> (r: (usize, usize))
    requires
        zoom >= 1,
    ensures
        (r.0 as int, r.1 as int) == visible(bins as int, zoom as int, position as int),
        r.0 <= r.1 <= bins,
        bins >= 1 ==> r.0 < r.1,
{
    let q = bins / zoom;
    let count = if q > 8 {
        q
    } else {
        8
    };
    let count = if count < bins {
        count
    } else {
        bins
    };
    let left = if position > count / 2 {
        position - count / 2
    } else {
        0
    };
    let first = if left < bins - count {
        left
    } else {
        bins - count
    };
    (first, first + count)
}

/// The FFT bins `lo..hi` that screen column `column` of `width` shows of the
/// visible bins `first..end`.
pub open spec fn column_span(first: int, end: int, column: int, width: int) -> (int, int) {
    let span = end - first;
    let w = if width > 1 {
        width
    } else {
        1
    };
    let c = if column < w - 1 {
        column
    } else {
        w - 1
    };
    let lo = first + c * span / w;
    let hi = first + (c + 1) * span / w;
    let hi = if hi > lo + 1 {
        hi
    } else {
        lo + 1
    };
    (lo, if hi < end {
        hi
    } else {
        end
    })
}

/// Each column gets at least one bin of a non-empty visible range, and the
/// columns stay inside it.
pub fn column_bins(first: usize, end: usize, column: usize, width: usize) -> (r: (usize, usize))
    requires
        first <= end,
        first == end ==> end < usize::MAX,
        (if width > 1 { width as int } else { 1 }) * (end - first) <= usize::MAX,
    ensures
        (r.0 as int, r.1 as int) == column_span(first as int, end as int, column as int, width as int),
        first < end ==> first <= r.0 < r.1 <= end,
{
    let span = end - first;
    let w = if width > 1 {
        width
    } else {
        1
    };
    let c = if column < w - 1 {
        column
    } else {
        w - 1
    };
    proof {
        let ci = c as int;
        let si = span as int;
        let wi = w as int;
        assert(wi * si <= usize::MAX);
        assert(ci * si <= wi * si && (ci + 1) * si <= wi * si) by (nonlinear_arith)
            requires
                ci < wi,
                si >= 0,
        ;
        assert(ci * si / wi <= si && (ci + 1) * si / wi <= si) by (nonlinear_arith)
            requires
                0 <= ci < wi,
                si >= 0,
        ;
        assert(si > 0 ==> ci * si / wi < si) by (nonlinear_arith)
            requires
                0 <= ci < wi,
                si >= 0,
        ;
    }
    let next = c + 1;
    assert(next * span <= w * span && (next * span) as int / (w as int) <= span) by (nonlinear_arith)
        requires
            next <= w,
            w >= 1,
    ;
    let lo = first + c * span / w;
    let hi = first + next * span / w;
    let hi = if hi > lo + 1 {
        hi
    } else {
        lo + 1
    };
    (lo, if hi < end {
        hi
    } else {
        end
    })
}

/// Every visible bin is shown by some column of the waterfall, however many
/// columns there are: a one-bin peak never falls between two columns.
pub proof fn every_visible_bin_has_a_column(first: int, end: int, width: int, bin: int)
    requires
        0 <= first <= bin < end,
        width >= 1,
    ensures
        exists|c: int|
            #![trigger column_span(first, end, c, width)]
            0 <= c < width && column_span(first, end, c, width).0 <= bin < column_span(
                first,
                end,
                c,
                width,
            ).1,
{
    let span = end - first;
    let x = bin - first;
    let c0 = x * width / span;
    assert(0 <= c0 < width && c0 * span <= x * width && x * width < (c0 + 1) * span) by (nonlinear_arith)
        requires
            span >= 1,
            width >= 1,
            0 <= x < span,
            c0 == x * width / span,
    ;
    assert(c0 * span / width <= x) by (nonlinear_arith)
        requires
            c0 * span <= x * width,
            width >= 1,
            c0 >= 0,
            span >= 1,
    ;
    assert((c0 + 1) * span / width >= x) by (nonlinear_arith)
        requires
            x * width < (c0 + 1) * span,
            width >= 1,
            x >= 0,
    ;
    assert((c0 + 1) * span / width <= span) by (nonlinear_arith)
        requires
            c0 + 1 <= width,
            width >= 1,
            span >= 1,
            c0 >= 0,
    ;
    if (c0 + 1) * span / width > x {
        assert(column_span(first, end, c0, width).0 <= bin < column_span(first, end, c0, width).1);
    } else {
        let c1 = c0 + 1;
        assert(c1 < width) by {
            if c1 == width {
                assert((c0 + 1) * span / width == span) by (nonlinear_arith)
                    requires
                        c0 + 1 == width,
                        width >= 1,
                ;
            }
        }
        assert(c1 * span / width == x);
        assert(column_span(first, end, c1, width).0 <= bin < column_span(first, end, c1, width).1);
    }
}

/// The receive mode after `m`, and its usual bandwidth: NFM, FM, WFM, AM in turn.
pub open spec fn next_mode(mode: Seq<char>) -> (Seq<char>, u32) {
    if mode == "nfm"@ {
        ("fm"@, 50000)
    } else if mode == "fm"@ {
        ("wfm"@, 200000)
    } else if mode == "wfm"@ {
        ("am"@, 10000)
    } else {
        ("nfm"@, 12500)
    }
}

pub fn cycle_mode(mode: &str) -> (r: (&'static str, u32))
    ensures
        (r.0@, r.1) == next_mode(mode@),
{
    if text_eq(mode, "nfm") {
        ("fm", 50000)
    } else if text_eq(mode, "fm") {
        ("wfm", 200000)
    } else if text_eq(mode, "wfm") {
        ("am", 10000)
    } else {
        ("nfm", 12500)
    }
}

/// The FFT resolution after `size`: the next of 2048, 8192, 32768 and 65536,
/// back to 2048 after the largest.
pub fn next_fft_size(size: usize) -> (r: usize)
    ensures
        r == if size < 2048 {
            2048usize
        } else if size < 8192 {
            8192usize
        } else if size < 32768 {
            32768usize
        } else if size < 65536 {
            65536usize
        } else {
            2048usize
        },
{
    if size < 2048 {
        2048
    } else if size < 8192 {
        8192
    } else if size < 32768 {
        32768
    } else if size < 65536 {
        65536
    } else {
        2048
    }
}

/// The tuning frequency after a step up or down, or `None` when it would leave
/// the `u64` range.
pub fn tuned(frequency: u64, step: u64, increase: bool) -> (r: Option<u64>)
    ensures
        increase ==> (frequency + step <= u64::MAX ==> r == Some((frequency + step) as u64)) && (
        frequency + step > u64::MAX ==> r is None),
        !increase ==> (frequency >= step ==> r == Some((frequency - step) as u64)) && (frequency
            < step ==> r is None),
{
    if increase {
        frequency.checked_add(step)
    } else {
        frequency.checked_sub(step)
    }
}

} // verus!
