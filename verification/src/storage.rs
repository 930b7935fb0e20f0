//! The investigation history as the workbench lists it.
use vstd::prelude::*;
use crate::text::{decimal, push_chars, push_decimal, push_str, string_of};

verus! {

/// One saved investigation: its number, when it was saved, and its source.
pub struct HistoryRow {
    pub id: i64,
    pub created: String,
    pub source: String,
}

/// Decimal notation of a signed integer.
pub open spec fn signed_decimal(n: int) -> Seq<char> {
    if n < 0 {
        seq!['-'] + decimal((-n) as nat)
    } else {
        decimal(n as nat)
    }
}

/// `s` followed by spaces up to `width` characters.
pub open spec fn left_aligned(s: Seq<char>, width: nat) -> Seq<char> {
    if s.len() >= width {
        s
    } else {
        s + Seq::new((width - s.len()) as nat, |i: int| ' ')
    }
}

/// A history line: `#`, the number left-aligned in five columns, a space, the
/// time, two spaces and the source.
pub open spec fn history_line(row: HistoryRow) -> Seq<char> {
    "#"@ + left_aligned(signed_decimal(row.id as int), 5) + " "@ + row.created@ + "  "@
        + row.source@
}

/// Lines joined by line breaks, without a final one.
pub open spec fn lines_text(rows: Seq<HistoryRow>) -> Seq<char>
    decreases rows.len(),
{
    if rows.len() == 0 {
        Seq::empty()
    } else if rows.len() == 1 {
        history_line(rows[0])
    } else {
        lines_text(rows.drop_last()) + seq!['\n'] + history_line(rows.last())
    }
}

fn push_line(v: &mut Vec<char>, row: &HistoryRow)
    ensures
        final(v)@ == old(v)@ + history_line(*row),
{
    push_str(v, "#");
    let mut num: Vec<char> = Vec::new();
    if row.id < 0 {
        num.push('-');
        let magnitude: u64 = if row.id == i64::MIN {
            0x8000_0000_0000_0000
        } else {
            (-row.id) as u64
        };
        push_decimal(&mut num, magnitude);
    } else {
        push_decimal(&mut num, row.id as u64);
    }
    assert(num@ =~= signed_decimal(row.id as int));
    let ghost width = num@.len();
    while num.len() < 5
        invariant
            width == signed_decimal(row.id as int).len(),
            num@.len() <= 5 || num@.len() == width,
            num@ == if width >= 5 {
                signed_decimal(row.id as int)
            } else {
                signed_decimal(row.id as int) + Seq::new((num@.len() - width) as nat, |i: int| ' ')
            },
            num@.len() >= width,
        decreases 5 - num@.len(),
    {
        num.push(' ');
    }
    assert(num@ =~= left_aligned(signed_decimal(row.id as int), 5));
    push_chars(v, &num);
    push_str(v, " ");
    push_str(v, row.created.as_str());
    push_str(v, "  ");
    push_str(v, row.source.as_str());
    assert(v@ =~= old(v)@ + history_line(*row));
}

/// The listing opens with the line of its first row (the newest report, as
/// the history is read newest first), followed by a line break when more
/// rows follow.
pub proof fn history_starts_with_first_row(rows: Seq<HistoryRow>)
    requires
        rows.len() > 0,
    ensures
        lines_text(rows).len() >= history_line(rows[0]).len(),
        lines_text(rows).take(history_line(rows[0]).len() as int) == history_line(rows[0]),
        rows.len() > 1 ==> lines_text(rows)[history_line(rows[0]).len() as int] == '\n',
    decreases rows.len(),
{
    let first = history_line(rows[0]);
    if rows.len() == 2 {
        let whole = lines_text(rows);
        assert(rows.drop_last() =~= seq![rows[0]]);
        assert(lines_text(rows.drop_last()) == first);
        assert(whole == first + seq!['\n'] + history_line(rows.last()));
        assert(whole.take(first.len() as int) =~= first);
        assert(whole[first.len() as int] == '\n');
    } else if rows.len() > 2 {
        let shorter = rows.drop_last();
        history_starts_with_first_row(shorter);
        assert(shorter[0] == rows[0]);
        let whole = lines_text(rows);
        let head = lines_text(shorter);
        assert(whole == head + seq!['\n'] + history_line(rows.last()));
        assert(whole.take(first.len() as int) =~= head.take(first.len() as int));
        assert(whole[first.len() as int] == head[first.len() as int]);
    }
}

/// The history listing: one line per saved investigation, newest first as given.
pub fn history(rows: &Vec<HistoryRow>) -> (r: String)
    ensures
        r@ == lines_text(rows@),
{
    let mut v: Vec<char> = Vec::new();
    let mut i: usize = 0;
    while i < rows.len()
        invariant
            i <= rows@.len(),
            v@ == lines_text(rows@.take(i as int)),
        decreases rows@.len() - i,
    {
        let ghost before = v@;
        if i > 0 {
            v.push('\n');
        }
        push_line(&mut v, &rows[i]);
        proof {
            let t = rows@.take(i + 1);
            assert(t.drop_last() == rows@.take(i as int));
            if i == 0 {
                assert(v@ =~= history_line(rows@[0]));
            }
        }
        i = i + 1;
    }
    assert(rows@.take(rows@.len() as int) == rows@);
    string_of(&v)
}

} // verus!
