//! A rectangle of a grid: copied as tab-separated text, emptied, and
//! named as a cell range such as `B2:D5 (4行×3列)`.

use vstd::prelude::*;
use vstd::string::StrSliceExecFns;
use crate::model::{copy_str, records_view};
use crate::tbl_str::views_of;
use crate::tblschema::{join_with, join_with_strings};
use crate::text::{decimal, decimal_string, push_char};

verus! {

/// The cells of row `r` from column `c1` to `c2`, both included.
pub open spec fn row_span(rows: Seq<Seq<Seq<char>>>, r: int, c1: int, c2: int) -> Seq<Seq<char>> {
    rows[r].subrange(c1, c2 + 1)
}

/// The rectangle from (r1, c1) to (r2, c2), both corners included, as
/// text: the cells of a row joined by tabs, the rows joined by line feeds.
pub open spec fn spec_selection_tsv(rows: Seq<Seq<Seq<char>>>, r1: int, c1: int, r2: int, c2: int) -> Seq<char> {
    join_with(
        Seq::new((r2 - r1 + 1) as nat, |i: int| join_with(row_span(rows, r1 + i, c1, c2), "\t"@)),
        "\n"@,
    )
}

/// The rectangle from (r1, c1) to (r2, c2) of the grid as tab-separated
/// text (see [`spec_selection_tsv`]).
pub fn selection_tsv(rows: &Vec<Vec<String>>, r1: usize, c1: usize, r2: usize, c2: usize) -> (r: String)
    requires
        r1 <= r2 < rows@.len(),
        c1 <= c2,
        forall|r: int| r1 <= r <= r2 ==> c2 < #[trigger] rows@[r]@.len(),
    ensures
        r@ == spec_selection_tsv(records_view(rows@), r1 as int, c1 as int, r2 as int, c2 as int),
{
    let ghost rv = records_view(rows@);
    let ghost want = Seq::new(
        (r2 - r1 + 1) as nat,
        |i: int| join_with(row_span(rv, r1 + i, c1 as int, c2 as int), "\t"@),
    );
    let mut lines: Vec<String> = Vec::new();
    let mut r: usize = r1;
    while r <= r2
        invariant
            r1 <= r,
            r <= r2 + 1,
            r2 < rows@.len(),
            r2 < rows.len(),
            c1 <= c2,
            forall|q: int| r1 <= q <= r2 ==> c2 < #[trigger] rows@[q]@.len(),
            rv == records_view(rows@),
            want == Seq::new(
                (r2 - r1 + 1) as nat,
                |i: int| join_with(row_span(rv, r1 + i, c1 as int, c2 as int), "\t"@),
            ),
            views_of(lines@) == want.take(r - r1),
        decreases r2 + 1 - r,
    {
        let row = &rows[r];
        assert(c2 < row@.len());
        let mut cells: Vec<String> = Vec::new();
        let mut c: usize = c1;
        while c <= c2
            invariant
                c1 <= c,
                c <= c2 + 1,
                c2 < row@.len(),
                c2 < row.len(),
                rv[r as int] == row@.map_values(|x: String| x@),
                views_of(cells@) == row_span(rv, r as int, c1 as int, c2 as int).take(c - c1),
            decreases c2 + 1 - c,
        {
            let ghost before = views_of(cells@);
            cells.push(copy_str(&row[c]));
            assert(views_of(cells@) =~= before.push(row@[c as int]@));
            assert(row_span(rv, r as int, c1 as int, c2 as int).take(c + 1 - c1) =~= row_span(
                rv,
                r as int,
                c1 as int,
                c2 as int,
            ).take(c - c1).push(row@[c as int]@));
            c = c + 1;
        }
        assert(row_span(rv, r as int, c1 as int, c2 as int).take(c - c1) =~= row_span(
            rv,
            r as int,
            c1 as int,
            c2 as int,
        ));
        let line = join_with_strings(&cells, "\t");
        let ghost before = views_of(lines@);
        lines.push(line);
        assert(views_of(lines@) =~= before.push(want[r - r1]));
        assert(want.take(r + 1 - r1) =~= want.take(r - r1).push(want[r - r1]));
        r = r + 1;
    }
    assert(want.take(r - r1) =~= want);
    join_with_strings(&lines, "\n")
}

/// The letters of column names, in order.
pub open spec fn letters() -> Seq<char> {
    "ABCDEFGHIJKLMNOPQRSTUVWXYZ"@
}

/// Excel's letters of the column at 0-based index `c`: `A` to `Z`, then
/// `AA`, `AB` and so on.
pub open spec fn col_letters(c: nat) -> Seq<char>
    decreases c,
{
    if c < 26 {
        seq![letters()[c as int]]
    } else {
        col_letters((c / 26 - 1) as nat).push(letters()[(c % 26) as int])
    }
}

/// Excel's letters of the column at 0-based index `c` (see
/// [`col_letters`]).
pub fn col_letter(c: usize) -> (r: String)
    ensures
        r@ == col_letters(c as nat),
    decreases c,
{
    if c < 26 {
        let mut s = String::new();
        push_char(&mut s, char_of_letter(c));
        assert(s@ =~= seq![letters()[c as int]]);
        s
    } else {
        let mut s = col_letter(c / 26 - 1);
        push_char(&mut s, char_of_letter(c % 26));
        s
    }
}

fn char_of_letter(k: usize) -> (r: char)
    requires
        k < 26,
    ensures
        r == letters()[k as int],
{
    let abc = "ABCDEFGHIJKLMNOPQRSTUVWXYZ";
    proof {
        reveal_strlit("ABCDEFGHIJKLMNOPQRSTUVWXYZ");
    }
    abc.get_char(k)
}

/// The name of a cell: its column letters and its 1-based row.
pub open spec fn cell_name(r: nat, c: nat) -> Seq<char> {
    col_letters(c) + decimal(r + 1)
}

/// The label of the rectangle from (r1, c1) to (r2, c2), both included:
/// the cell's name for one cell, else both corners and the size.
pub open spec fn spec_range_label(r1: nat, c1: nat, r2: nat, c2: nat) -> Seq<char> {
    if r1 == r2 && c1 == c2 {
        cell_name(r1, c1)
    } else {
        cell_name(r1, c1) + ":"@ + cell_name(r2, c2) + " ("@ + decimal((r2 - r1 + 1) as nat) + "行×"@ + decimal(
            (c2 - c1 + 1) as nat,
        ) + "列)"@
    }
}

/// The label of a selected rectangle (see [`spec_range_label`]).
pub fn range_label(r1: usize, c1: usize, r2: usize, c2: usize) -> (r: String)
    requires
        r1 <= r2 < u64::MAX,
        c1 <= c2 < u64::MAX,
    ensures
        r@ == spec_range_label(r1 as nat, c1 as nat, r2 as nat, c2 as nat),
{
    let a = col_letter(c1).concat(decimal_string((r1 as u64) + 1).as_str());
    if r1 == r2 && c1 == c2 {
        a
    } else {
        let b = col_letter(c2).concat(decimal_string((r2 as u64) + 1).as_str());
        a.concat(":").concat(b.as_str()).concat(" (").concat(decimal_string(((r2 - r1) as u64) + 1).as_str()).concat(
            "行×",
        ).concat(decimal_string(((c2 - c1) as u64) + 1).as_str()).concat("列)")
    }
}

/// The grid with the rectangle from (r1, c1) to (r2, c2) emptied.
pub open spec fn spec_clear_rect(rows: Seq<Seq<Seq<char>>>, r1: int, c1: int, r2: int, c2: int) -> Seq<
    Seq<Seq<char>>,
> {
    Seq::new(
        rows.len(),
        |r: int|
            if r1 <= r <= r2 {
                Seq::new(rows[r].len(), |c: int| if c1 <= c <= c2 { Seq::<char>::empty() } else { rows[r][c] })
            } else {
                rows[r]
            },
    )
}

/// Empties each cell of the rectangle from (r1, c1) to (r2, c2).
pub fn clear_rect(rows: &mut Vec<Vec<String>>, r1: usize, c1: usize, r2: usize, c2: usize)
    requires
        r1 <= r2 < old(rows)@.len(),
        c1 <= c2,
        forall|r: int| r1 <= r <= r2 ==> c2 < #[trigger] old(rows)@[r]@.len(),
    ensures
        records_view(final(rows)@) == spec_clear_rect(
            records_view(old(rows)@),
            r1 as int,
            c1 as int,
            r2 as int,
            c2 as int,
        ),
{
    let ghost v0 = records_view(rows@);
    let ghost want = spec_clear_rect(v0, r1 as int, c1 as int, r2 as int, c2 as int);
    let mut r: usize = r1;
    while r <= r2
        invariant
            r1 <= r,
            r <= r2 + 1,
            r2 < rows@.len(),
            r2 < rows.len(),
            c1 <= c2,
            rows@.len() == v0.len(),
            forall|q: int| r1 <= q <= r2 ==> c2 < #[trigger] v0[q].len(),
            want == spec_clear_rect(v0, r1 as int, c1 as int, r2 as int, c2 as int),
            forall|q: int| 0 <= q < rows@.len() && !(r1 <= q < r) ==> #[trigger] records_view(rows@)[q] == v0[q],
            forall|q: int| r1 <= q < r ==> #[trigger] records_view(rows@)[q] == want[q],
        decreases r2 + 1 - r,
    {
        let old_row = &rows[r];
        assert(records_view(rows@)[r as int] == v0[r as int]);
        assert(old_row@.len() == v0[r as int].len());
        let mut row: Vec<String> = Vec::new();
        let mut c: usize = 0;
        while c < old_row.len()
            invariant
                c <= old_row@.len(),
                r1 <= r <= r2,
                r < v0.len(),
                v0[r as int] == old_row@.map_values(|x: String| x@),
                want == spec_clear_rect(v0, r1 as int, c1 as int, r2 as int, c2 as int),
                row@.map_values(|x: String| x@) == want[r as int].take(c as int),
            decreases old_row.len() - c,
        {
            let ghost before = row@.map_values(|x: String| x@);
            assert(want[r as int].len() == v0[r as int].len());
            assert(want[r as int][c as int] == if c1 <= c <= c2 { Seq::<char>::empty() } else { v0[r as int][c as int] });
            assert(v0[r as int][c as int] == old_row@[c as int]@);
            if c1 <= c && c <= c2 {
                let e = String::new();
                assert(e@ =~= Seq::<char>::empty());
                row.push(e);
            } else {
                row.push(copy_str(&old_row[c]));
            }
            assert(want[r as int].take(c + 1) =~= want[r as int].take(c as int).push(want[r as int][c as int]));
            assert(row@.map_values(|x: String| x@) =~= want[r as int].take(c + 1));
            c = c + 1;
        }
        assert(want[r as int].take(c as int) =~= want[r as int]);
        let ghost mid = rows@;
        rows.set(r, row);
        assert forall|q: int| 0 <= q < rows@.len() && !(r1 <= q < r + 1) implies #[trigger] records_view(rows@)[q]
            == v0[q] by {
            assert(rows@[q] == mid[q]);
            assert(records_view(mid)[q] == v0[q]);
        }
        assert forall|q: int| r1 <= q < r + 1 implies #[trigger] records_view(rows@)[q] == want[q] by {
            if q < r {
                assert(rows@[q] == mid[q]);
                assert(records_view(mid)[q] == want[q]);
            }
        }
        r = r + 1;
    }
    assert(records_view(rows@) =~= want) by {
        assert forall|q: int| 0 <= q < want.len() implies #[trigger] records_view(rows@)[q] == want[q] by {
            if !(r1 <= q <= r2) {
                assert(records_view(rows@)[q] == v0[q]);
            }
        }
    }
}

} // verus!
