//! The ASCII signal graph of an export: one column per FFT bin, one row per
//! decibel from 0 to -130 dBFS.
use vstd::prelude::*;
use crate::text::{decimal, push_decimal, push_str, string_of};

verus! {

/// The first line of the graph.
pub const GRAPH_HEADER: &'static str = "# Signal graph: 131 rows, 1 dB per row (0 to -130 dBFS); '*' is an FFT sample\n";

/// The number of rows: one per decibel from 0 to -130 dBFS.
pub const GRAPH_ROWS: u8 = 131;

/// A bin's mark in a row: `*` on its level, `.` on every tenth row, else blank.
pub open spec fn graph_mark(level: u8, row: nat) -> char {
    if level == row {
        '*'
    } else if row % 10 == 0 {
        '.'
    } else {
        ' '
    }
}

/// A row's label: its level in dBFS, right-aligned in four columns.
pub open spec fn row_label(row: nat) -> Seq<char> {
    let t = if row == 0 {
        seq!['0']
    } else {
        seq!['-'] + decimal(row)
    };
    Seq::new((4 - t.len()) as nat, |i: int| ' ') + t
}

pub open spec fn graph_row(levels: Seq<u8>, row: nat) -> Seq<char> {
    row_label(row) + seq![' ', '|'] + Seq::new(levels.len(), |i: int| graph_mark(levels[i], row))
        + seq!['\n']
}

/// The first `count` rows.
pub open spec fn graph_rows(levels: Seq<u8>, count: nat) -> Seq<char>
    decreases count,
{
    if count == 0 {
        Seq::empty()
    } else {
        graph_rows(levels, (count - 1) as nat) + graph_row(levels, (count - 1) as nat)
    }
}

/// The axis below the graph: every 128th column carries its offset.
pub open spec fn axis_char(j: nat) -> char {
    let start = (j - j % 128) as nat;
    if j % 128 < decimal(start).len() {
        decimal(start)[(j % 128) as int]
    } else {
        ' '
    }
}

/// The whole graph of the bins' levels (each the bin's loss below 0 dBFS in
/// whole decibels, 130 for the floor and for what is not a number).
pub open spec fn graph_text(levels: Seq<u8>) -> Seq<char> {
    GRAPH_HEADER@ + graph_rows(levels, GRAPH_ROWS as nat) + "     +"@ + Seq::new(
        levels.len(),
        |i: int| '-',
    ) + "\n      "@ + Seq::new(levels.len(), |j: int| axis_char(j as nat)) + seq!['\n']
}

proof fn lemma_decimal_length(n: nat)
    requires
        n < 1000,
    ensures
        n < 10 ==> decimal(n).len() == 1,
        10 <= n < 100 ==> decimal(n).len() == 2,
        100 <= n ==> decimal(n).len() == 3,
{
    reveal_with_fuel(decimal, 4);
}

fn push_label(out: &mut Vec<char>, row: u8)
    requires
        row < GRAPH_ROWS,
    ensures
        final(out)@ == old(out)@ + row_label(row as nat),
{
    let mut t: Vec<char> = Vec::new();
    if row == 0 {
        t.push('0');
    } else {
        t.push('-');
        push_decimal(&mut t, row as u64);
    }
    proof {
        lemma_decimal_length(row as nat);
    }
    let ghost text = t@;
    assert(text =~= if row == 0 {
        seq!['0']
    } else {
        seq!['-'] + decimal(row as nat)
    });
    let pad = 4 - t.len();
    let mut k: usize = 0;
    while k < pad
        invariant
            k <= pad,
            out@ == old(out)@ + Seq::new(k as nat, |i: int| ' '),
        decreases pad - k,
    {
        out.push(' ');
        k = k + 1;
        assert(out@ =~= old(out)@ + Seq::new(k as nat, |i: int| ' '));
    }
    let mut i: usize = 0;
    let ghost before = out@;
    while i < t.len()
        invariant
            i <= t@.len(),
            out@ == before + t@.take(i as int),
        decreases t@.len() - i,
    {
        out.push(t[i]);
        i = i + 1;
        assert(out@ =~= before + t@.take(i as int));
    }
    assert(t@.take(t@.len() as int) =~= t@);
    assert(out@ =~= old(out)@ + row_label(row as nat));
}

fn push_row(out: &mut Vec<char>, levels: &Vec<u8>, row: u8)
    requires
        row < GRAPH_ROWS,
    ensures
        final(out)@ == old(out)@ + graph_row(levels@, row as nat),
{
    push_label(out, row);
    out.push(' ');
    out.push('|');
    let ghost before = out@;
    let mut i: usize = 0;
    while i < levels.len()
        invariant
            i <= levels@.len(),
            out@ == before + Seq::new(i as nat, |k: int| graph_mark(levels@[k], row as nat)),
        decreases levels@.len() - i,
    {
        let level = levels[i];
        let mark = if level == row {
            '*'
        } else if row % 10 == 0 {
            '.'
        } else {
            ' '
        };
        out.push(mark);
        i = i + 1;
        assert(out@ =~= before + Seq::new(i as nat, |k: int| graph_mark(levels@[k], row as nat)));
    }
    out.push('\n');
    assert(out@ =~= old(out)@ + graph_row(levels@, row as nat));
}

proof fn lemma_same_block(j: nat)
    requires
        (j + 1) % 128 != 0,
    ensures
        (j + 1) - (j + 1) % 128 == j - j % 128,
        (j + 1) % 128 == j % 128 + 1,
{
    assert((j + 1) % 128 == j % 128 + 1 && (j + 1) - (j + 1) % 128 == j - j % 128) by (nonlinear_arith)
        requires
            (j + 1) % 128 != 0,
    ;
}

fn axis_line(n: usize) -> (r: Vec<char>)
    ensures
        r@ == Seq::new(n as nat, |i: int| axis_char(i as nat)),
{
    let mut out: Vec<char> = Vec::new();
    let mut digits: Vec<char> = Vec::new();
    let mut j: usize = 0;
    while j < n
        invariant
            j <= n,
            out@ == Seq::new(j as nat, |i: int| axis_char(i as nat)),
            j % 128 != 0 ==> digits@ == decimal((j - j % 128) as nat),
        decreases n - j,
    {
        if j % 128 == 0 {
            digits = Vec::new();
            push_decimal(&mut digits, j as u64);
        }
        let off = j % 128;
        let ch = if off < digits.len() {
            digits[off]
        } else {
            ' '
        };
        assert(ch == axis_char(j as nat));
        out.push(ch);
        proof {
            if (j + 1) % 128 != 0 {
                lemma_same_block(j as nat);
            }
        }
        j = j + 1;
        assert(out@ =~= Seq::new(j as nat, |i: int| axis_char(i as nat)));
    }
    out
}

/// The ASCII signal graph of the visible bins, given each bin's level.
pub fn graph(levels: &Vec<u8>) -> (r: String)
    ensures
        r@ == graph_text(levels@),
{
    let n = levels.len();
    let mut out: Vec<char> = Vec::new();
    push_str(&mut out, GRAPH_HEADER);
    let ghost head = out@;
    let mut row: u8 = 0;
    while row < GRAPH_ROWS
        invariant
            row <= GRAPH_ROWS,
            out@ == head + graph_rows(levels@, row as nat),
        decreases GRAPH_ROWS - row,
    {
        push_row(&mut out, levels, row);
        row = row + 1;
    }
    let mut k: usize = 0;
    push_str(&mut out, "     +");
    let ghost ruled = out@;
    while k < n
        invariant
            k <= n,
            n == levels@.len(),
            out@ == ruled + Seq::new(k as nat, |i: int| '-'),
        decreases n - k,
    {
        out.push('-');
        k = k + 1;
        assert(out@ =~= ruled + Seq::new(k as nat, |i: int| '-'));
    }
    push_str(&mut out, "\n      ");
    let axis = axis_line(n);
    let ghost axis_start = out@;
    let mut j: usize = 0;
    while j < n
        invariant
            j <= n,
            axis@ == Seq::new(n as nat, |i: int| axis_char(i as nat)),
            out@ == axis_start + axis@.take(j as int),
        decreases n - j,
    {
        out.push(axis[j]);
        j = j + 1;
        assert(out@ =~= axis_start + axis@.take(j as int));
    }
    assert(axis@.take(n as int) =~= axis@);
    out.push('\n');
    assert(out@ =~= graph_text(levels@));
    string_of(&out)
}

} // verus!
