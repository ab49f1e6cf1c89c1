//! A hand-edited workbook held by umya-spreadsheet: its sheets as cell
//! texts, and a sync that writes a group's tables into its sheets while
//! keeping what else it holds. Reading such a workbook from a file and
//! writing it back are left to the caller: umya unwraps while it parses or
//! writes a sheet's XML, and no precondition names the files it panics on.

use vstd::prelude::*;
use crate::excel_sync::{
    data_writes, header_writes, row_writes, sheets_view, spec_sync_writes, spec_xlsx_sheet, sync_sheet_writes,
    writes_view, xlsx_sheet_of, CellWrite, CellWriteView, SyncMode, XlsxSheet, XlsxSheetView,
};
use crate::model::{field_defs_view, records_view, Group, Table, TableView};
use crate::tbl_str::views_of;
use crate::text::str_is;

verus! {

#[verifier::external_type_specification]
#[verifier::external_body]
pub struct ExUmyaWorkbook(umya_spreadsheet::Workbook);

/// What a workbook held by umya-spreadsheet holds: for each sheet in order,
/// its name, its highest used column and row (1-based, 0 without cells),
/// and the text of each of its cells by (column, row).
pub uninterp spec fn umya_sheets(bk: umya_spreadsheet::Workbook) -> Seq<
    (Seq<char>, int, int, Map<(int, int), Seq<char>>),
>;

/// Whether each sheet of an umya workbook has its cells parsed; umya
/// parses a sheet's XML only when it is first used, and a workbook read
/// with every sheet has them all parsed.
pub uninterp spec fn umya_parsed(bk: umya_spreadsheet::Workbook) -> Seq<bool>;

/// The text a cell reports after umya-spreadsheet's `Cell::set_value` was
/// given `v`: the value it guesses from the text (number, boolean, error
/// or string), shown again as text.
pub uninterp spec fn umya_cell_text(v: Seq<char>) -> Seq<char>;

/// The text of a cell, empty where the sheet has none.
pub open spec fn cell_text(cells: Map<(int, int), Seq<char>>, col: int, row: int) -> Seq<char> {
    if cells.dom().contains((col, row)) {
        cells[(col, row)]
    } else {
        Seq::empty()
    }
}

pub open spec fn no_umya_cells() -> Map<(int, int), Seq<char>> {
    Map::empty()
}

/// A sheet after the text `v` is set at (col, row).
pub open spec fn set_umya_cell(
    s: (Seq<char>, int, int, Map<(int, int), Seq<char>>),
    col: int,
    row: int,
    v: Seq<char>,
) -> (Seq<char>, int, int, Map<(int, int), Seq<char>>) {
    (
        s.0,
        if col > s.1 { col } else { s.1 },
        if row > s.2 { row } else { s.2 },
        s.3.insert((col, row), umya_cell_text(v)),
    )
}

/// `Workbook::sheet_count`.
#[verifier::external_body]
fn book_sheet_count(bk: &umya_spreadsheet::Workbook) -> (r: usize)
    ensures
        r == umya_sheets(*bk).len(),
        r == umya_parsed(*bk).len(),
{
    bk.sheet_count()
}

/// `Workbook::sheet` on sheet `i`, which answers an error for a sheet
/// whose cells are not parsed yet: whether they are.
#[verifier::external_body]
fn book_sheet_parsed(bk: &umya_spreadsheet::Workbook, i: usize) -> (r: bool)
    requires
        i < umya_sheets(*bk).len(),
    ensures
        r == umya_parsed(*bk)[i as int],
{
    bk.sheet(i).is_ok()
}

/// `Worksheet::name` of sheet `i`.
#[verifier::external_body]
fn book_sheet_name(bk: &umya_spreadsheet::Workbook, i: usize) -> (r: String)
    requires
        i < umya_sheets(*bk).len(),
    ensures
        r@ == umya_sheets(*bk)[i as int].0,
{
    bk.sheet_collection_no_check()[i].name().to_string()
}

/// `Worksheet::highest_column_and_row` of sheet `i`.
#[verifier::external_body]
fn book_sheet_extent(bk: &umya_spreadsheet::Workbook, i: usize) -> (r: (u32, u32))
    requires
        i < umya_sheets(*bk).len(),
    ensures
        r.0 == umya_sheets(*bk)[i as int].1,
        r.1 == umya_sheets(*bk)[i as int].2,
{
    bk.sheet_collection_no_check()[i].highest_column_and_row()
}

/// `Worksheet::value` of sheet `i` at (col, row).
#[verifier::external_body]
fn book_cell_text(bk: &umya_spreadsheet::Workbook, i: usize, col: u32, row: u32) -> (r: String)
    requires
        i < umya_sheets(*bk).len(),
    ensures
        r@ == cell_text(umya_sheets(*bk)[i as int].3, col as int, row as int),
{
    bk.sheet_collection_no_check()[i].value((col, row))
}

/// `Workbook::new_sheet`: appends an empty sheet of that name, or refuses
/// a name a sheet already has and changes nothing.
#[verifier::external_body]
fn book_add_sheet(bk: &mut umya_spreadsheet::Workbook, name: &str) -> (r: Result<(), String>)
    ensures
        r is Ok <==> (forall|j: int| 0 <= j < umya_sheets(*old(bk)).len() ==> #[trigger] umya_sheets(*old(bk))[j].0 != name@),
        r is Ok ==> umya_sheets(*final(bk)) == umya_sheets(*old(bk)).push((name@, 0int, 0int, no_umya_cells())),
        r is Ok ==> umya_parsed(*final(bk)) == umya_parsed(*old(bk)).push(true),
        r is Err ==> umya_sheets(*final(bk)) == umya_sheets(*old(bk)),
        r is Err ==> umya_parsed(*final(bk)) == umya_parsed(*old(bk)),
{
    bk.new_sheet(name).map(|_| ()).map_err(|e| e.to_string())
}

/// `Workbook::sheet_mut`, `Worksheet::cell_mut` and `Cell::set_value` on
/// sheet `i`, whose cells are parsed (so `sheet_mut` parses nothing): the
/// cell at (col, row) holds what umya makes of the text, and the sheet's
/// highest column and row reach it.
#[verifier::external_body]
fn book_set_cell(bk: &mut umya_spreadsheet::Workbook, i: usize, col: u32, row: u32, value: &str)
    requires
        i < umya_sheets(*old(bk)).len(),
        umya_parsed(*old(bk))[i as int],
        col >= 1,
        row >= 1,
    ensures
        umya_parsed(*final(bk)) == umya_parsed(*old(bk)),
        umya_sheets(*final(bk)) == umya_sheets(*old(bk)).update(
            i as int,
            (
                umya_sheets(*old(bk))[i as int].0,
                if col > umya_sheets(*old(bk))[i as int].1 { col as int } else { umya_sheets(*old(bk))[i as int].1 },
                if row > umya_sheets(*old(bk))[i as int].2 { row as int } else { umya_sheets(*old(bk))[i as int].2 },
                umya_sheets(*old(bk))[i as int].3.insert((col as int, row as int), umya_cell_text(value@)),
            ),
        ),
{
    if let Ok(ws) = bk.sheet_mut(i) {
        ws.cell_mut((col, row)).set_value(value);
    }
}

// ───────────────────────── reading ─────────────────────────

/// The cell texts of a sheet, row by row from the first, each row from the
/// first column to the highest used one.
pub open spec fn umya_grid(s: (Seq<char>, int, int, Map<(int, int), Seq<char>>)) -> Seq<Seq<Seq<char>>> {
    Seq::new(s.2 as nat, |r: int| Seq::new(s.1 as nat, |c: int| cell_text(s.3, c + 1, r + 1)))
}

/// The sheets of a workbook, each read from its cell texts (see
/// [`spec_xlsx_sheet`]).
pub open spec fn spec_read_sheets(sheets: Seq<(Seq<char>, int, int, Map<(int, int), Seq<char>>)>) -> Seq<
    XlsxSheetView,
> {
    sheets.map_values(|s: (Seq<char>, int, int, Map<(int, int), Seq<char>>)| spec_xlsx_sheet(s.0, umya_grid(s)))
}

fn sheet_grid(bk: &umya_spreadsheet::Workbook, i: usize) -> (r: Vec<Vec<String>>)
    requires
        i < umya_sheets(*bk).len(),
    ensures
        records_view(r@) == umya_grid(umya_sheets(*bk)[i as int]),
{
    let ghost s = umya_sheets(*bk)[i as int];
    let ghost g = umya_grid(s);
    let (max_col, max_row) = book_sheet_extent(bk, i);
    let mut rows: Vec<Vec<String>> = Vec::new();
    let mut r: u32 = 0;
    while r < max_row
        invariant
            r <= max_row,
            max_row == s.2,
            max_col == s.1,
            i < umya_sheets(*bk).len(),
            s == umya_sheets(*bk)[i as int],
            g == umya_grid(s),
            records_view(rows@) == g.take(r as int),
        decreases max_row - r,
    {
        let mut row: Vec<String> = Vec::new();
        let mut c: u32 = 0;
        while c < max_col
            invariant
                c <= max_col,
                r < max_row,
                max_row == s.2,
                max_col == s.1,
                i < umya_sheets(*bk).len(),
                s == umya_sheets(*bk)[i as int],
                g == umya_grid(s),
                row@.map_values(|x: String| x@) == g[r as int].take(c as int),
            decreases max_col - c,
        {
            let t = book_cell_text(bk, i, c + 1, r + 1);
            let ghost before = row@.map_values(|x: String| x@);
            row.push(t);
            assert(row@.map_values(|x: String| x@) =~= before.push(t@));
            assert(g[r as int].take(c + 1) =~= g[r as int].take(c as int).push(g[r as int][c as int]));
            c = c + 1;
        }
        assert(g[r as int].take(c as int) =~= g[r as int]);
        let ghost prev = records_view(rows@);
        rows.push(row);
        assert(records_view(rows@) =~= prev.push(g[r as int]));
        assert(g.take(r + 1) =~= g.take(r as int).push(g[r as int]));
        r = r + 1;
    }
    assert(g.take(r as int) =~= g);
    rows
}

/// The sheets of a workbook umya-spreadsheet holds, each read from its cell
/// texts (see [`spec_read_sheets`]); a sheet whose cells are not parsed
/// reads as one without cells.
pub fn book_xlsx_sheets(bk: &umya_spreadsheet::Workbook) -> (r: Vec<XlsxSheet>)
    ensures
        sheets_view(r@) == spec_read_sheets(umya_sheets(*bk)),
{
    let ghost all = spec_read_sheets(umya_sheets(*bk));
    let n = book_sheet_count(bk);
    let mut out: Vec<XlsxSheet> = Vec::new();
    let mut i: usize = 0;
    while i < n
        invariant
            i <= n,
            n == umya_sheets(*bk).len(),
            all == spec_read_sheets(umya_sheets(*bk)),
            sheets_view(out@) == all.take(i as int),
        decreases n - i,
    {
        let name = book_sheet_name(bk, i);
        let cells = sheet_grid(bk, i);
        let sheet = xlsx_sheet_of(name, &cells);
        let ghost prev = sheets_view(out@);
        out.push(sheet);
        assert(sheets_view(out@) =~= prev.push(all[i as int]));
        assert(all.take(i + 1) =~= all.take(i as int).push(all[i as int]));
        i = i + 1;
    }
    assert(all.take(i as int) =~= all);
    out
}

// ───────────────────────── syncing ─────────────────────────

/// Sheet `i` is the first one named `name`.
pub open spec fn first_named(
    sheets: Seq<(Seq<char>, int, int, Map<(int, int), Seq<char>>)>,
    name: Seq<char>,
    i: int,
) -> bool {
    &&& 0 <= i < sheets.len()
    &&& sheets[i].0 == name
    &&& forall|j: int| 0 <= j < i ==> #[trigger] sheets[j].0 != name
}

/// Some sheet is named `name`.
pub open spec fn has_named(sheets: Seq<(Seq<char>, int, int, Map<(int, int), Seq<char>>)>, name: Seq<char>) -> bool {
    exists|j: int| 0 <= j < sheets.len() && #[trigger] sheets[j].0 == name
}

/// The place of the first sheet named `name`.
pub open spec fn named_index(sheets: Seq<(Seq<char>, int, int, Map<(int, int), Seq<char>>)>, name: Seq<char>) -> int {
    choose|i: int| first_named(sheets, name, i)
}

/// The first row of a sheet, from the first column to the highest used one.
pub open spec fn header_texts(s: (Seq<char>, int, int, Map<(int, int), Seq<char>>)) -> Seq<Seq<char>> {
    Seq::new(s.1 as nat, |c: int| cell_text(s.3, c + 1, 1))
}

/// A sheet after the writes, in order.
pub open spec fn apply_writes(
    s: (Seq<char>, int, int, Map<(int, int), Seq<char>>),
    ws: Seq<CellWriteView>,
) -> (Seq<char>, int, int, Map<(int, int), Seq<char>>)
    decreases ws.len(),
{
    if ws.len() == 0 {
        s
    } else {
        set_umya_cell(apply_writes(s, ws.drop_last()), ws.last().col, ws.last().row, ws.last().value)
    }
}

/// The sheets after a sync of table `t`: the first sheet named like the
/// table, added empty at the end when there is none, gets the writes that
/// [`spec_sync_writes`] gives for its first row.
pub open spec fn synced_table(
    sheets: Seq<(Seq<char>, int, int, Map<(int, int), Seq<char>>)>,
    t: TableView,
    mode: SyncMode,
) -> Seq<(Seq<char>, int, int, Map<(int, int), Seq<char>>)> {
    let s1 = if has_named(sheets, t.name) {
        sheets
    } else {
        sheets.push((t.name, 0int, 0int, no_umya_cells()))
    };
    let i = named_index(s1, t.name);
    s1.update(i, apply_writes(s1[i], spec_sync_writes(t.fields, header_texts(s1[i]), t.records, mode)))
}

/// The sheets after a sync of each table that is not deleted, in order.
pub open spec fn synced_tables(
    sheets: Seq<(Seq<char>, int, int, Map<(int, int), Seq<char>>)>,
    ts: Seq<TableView>,
    mode: SyncMode,
) -> Seq<(Seq<char>, int, int, Map<(int, int), Seq<char>>)>
    decreases ts.len(),
{
    if ts.len() == 0 {
        sheets
    } else {
        let s = synced_tables(sheets, ts.drop_last(), mode);
        if ts.last().deleted {
            s
        } else {
            synced_table(s, ts.last(), mode)
        }
    }
}

/// The sizes a table must keep to for the sync's row and column numbers.
pub open spec fn sync_fits(t: Table) -> bool {
    &&& t.schema.fields@.len() < u32::MAX
    &&& t.records@.len() + 2 <= u32::MAX
    &&& forall|i: int| 0 <= i < t.records@.len() ==> #[trigger] t.records@[i]@.len() < u32::MAX
}

proof fn lemma_first_named_unique(
    sheets: Seq<(Seq<char>, int, int, Map<(int, int), Seq<char>>)>,
    name: Seq<char>,
    i: int,
    j: int,
)
    requires
        first_named(sheets, name, i),
        first_named(sheets, name, j),
    ensures
        i == j,
{
    if i < j {
        assert(sheets[i].0 != name);
    } else if j < i {
        assert(sheets[j].0 != name);
    }
}

proof fn lemma_named_index(sheets: Seq<(Seq<char>, int, int, Map<(int, int), Seq<char>>)>, name: Seq<char>, i: int)
    requires
        first_named(sheets, name, i),
    ensures
        named_index(sheets, name) == i,
{
    lemma_first_named_unique(sheets, name, named_index(sheets, name), i);
}

proof fn lemma_data_writes_positive(records: Seq<Seq<Seq<char>>>, k: int, mode: SyncMode)
    ensures
        forall|q: int|
            0 <= q < data_writes(records, k, mode).len() ==> #[trigger] data_writes(records, k, mode)[q].col >= 1
                && data_writes(records, k, mode)[q].row >= 2,
    decreases records.len(),
{
    if records.len() > 0 {
        lemma_data_writes_positive(records.drop_last(), k, mode);
        let a = data_writes(records.drop_last(), k, mode);
        let b = row_writes(records.last(), (records.len() + 1) as int, k, mode);
        assert forall|q: int| 0 <= q < data_writes(records, k, mode).len() implies #[trigger] data_writes(
            records,
            k,
            mode,
        )[q].col >= 1 && data_writes(records, k, mode)[q].row >= 2 by {
            if q < a.len() {
                assert(data_writes(records, k, mode)[q] == a[q]);
            } else {
                assert(data_writes(records, k, mode)[q] == b[q - a.len()]);
            }
        }
    }
}

/// Every cell a sync writes has a column and a row from 1.
proof fn lemma_sync_writes_positive(
    fields: Seq<crate::model::FieldDefView>,
    headers: Seq<Seq<char>>,
    records: Seq<Seq<Seq<char>>>,
    mode: SyncMode,
)
    ensures
        forall|q: int|
            0 <= q < spec_sync_writes(fields, headers, records, mode).len() ==> #[trigger] spec_sync_writes(
                fields,
                headers,
                records,
                mode,
            )[q].col >= 1 && spec_sync_writes(fields, headers, records, mode)[q].row >= 1,
{
    let names = crate::excel_sync::field_names(fields);
    let k = crate::excel_sync::common_prefix(names, headers);
    let a = header_writes(names, k, mode);
    let b = data_writes(records, k, mode);
    lemma_data_writes_positive(records, k, mode);
    let w = spec_sync_writes(fields, headers, records, mode);
    assert(w == a + b);
    assert forall|q: int| 0 <= q < w.len() implies #[trigger] w[q].col >= 1 && w[q].row >= 1 by {
        if q < a.len() {
            assert(w[q] == a[q]);
        } else {
            assert(w[q] == b[q - a.len()]);
        }
    }
}

/// The first sheet named `name`, if any.
fn find_sheet(bk: &umya_spreadsheet::Workbook, name: &str) -> (r: Option<usize>)
    ensures
        r matches Some(i) ==> first_named(umya_sheets(*bk), name@, i as int),
        r is None ==> !has_named(umya_sheets(*bk), name@),
{
    let ghost s = umya_sheets(*bk);
    let n = book_sheet_count(bk);
    let mut i: usize = 0;
    while i < n
        invariant
            i <= n,
            n == s.len(),
            s == umya_sheets(*bk),
            forall|j: int| 0 <= j < i ==> #[trigger] s[j].0 != name@,
        decreases n - i,
    {
        let nm = book_sheet_name(bk, i);
        if str_is(nm.as_str(), name) {
            return Some(i);
        }
        i = i + 1;
    }
    None
}

/// Sets the cells of sheet `i`, in order.
fn apply_cell_writes(bk: &mut umya_spreadsheet::Workbook, i: usize, writes: &Vec<CellWrite>)
    requires
        i < umya_sheets(*old(bk)).len(),
        i < umya_parsed(*old(bk)).len(),
        umya_parsed(*old(bk))[i as int],
        forall|q: int| 0 <= q < writes@.len() ==> #[trigger] writes@[q].col >= 1 && writes@[q].row >= 1,
    ensures
        umya_parsed(*final(bk)) == umya_parsed(*old(bk)),
        umya_sheets(*final(bk)) == umya_sheets(*old(bk)).update(
            i as int,
            apply_writes(umya_sheets(*old(bk))[i as int], writes_view(writes@)),
        ),
{
    let ghost s0 = umya_sheets(*bk);
    let ghost p0 = umya_parsed(*bk);
    let ghost wv = writes_view(writes@);
    let mut k: usize = 0;
    assert(wv.take(0) =~= Seq::<CellWriteView>::empty());
    assert(s0.update(i as int, apply_writes(s0[i as int], wv.take(0))) =~= s0);
    while k < writes.len()
        invariant
            k <= writes@.len(),
            i < s0.len(),
            i < p0.len(),
            p0[i as int],
            umya_parsed(*bk) == p0,
            wv == writes_view(writes@),
            forall|q: int| 0 <= q < writes@.len() ==> #[trigger] writes@[q].col >= 1 && writes@[q].row >= 1,
            umya_sheets(*bk) == s0.update(i as int, apply_writes(s0[i as int], wv.take(k as int))),
        decreases writes.len() - k,
    {
        let w = &writes[k];
        assert(writes@[k as int].col >= 1 && writes@[k as int].row >= 1);
        book_set_cell(bk, i, w.col, w.row, w.value.as_str());
        assert(wv.take(k + 1).drop_last() =~= wv.take(k as int));
        assert(wv.take(k + 1).last() == w@);
        assert(umya_sheets(*bk) =~= s0.update(i as int, apply_writes(s0[i as int], wv.take(k + 1))));
        k = k + 1;
    }
    assert(wv.take(k as int) =~= wv);
}

/// The first row of sheet `i`, from the first column to the highest used
/// one.
fn sheet_headers(bk: &umya_spreadsheet::Workbook, i: usize) -> (r: Vec<String>)
    requires
        i < umya_sheets(*bk).len(),
    ensures
        views_of(r@) == header_texts(umya_sheets(*bk)[i as int]),
{
    let ghost h = header_texts(umya_sheets(*bk)[i as int]);
    let (max_col, _max_row) = book_sheet_extent(bk, i);
    let mut out: Vec<String> = Vec::new();
    let mut c: u32 = 0;
    while c < max_col
        invariant
            c <= max_col,
            i < umya_sheets(*bk).len(),
            max_col == umya_sheets(*bk)[i as int].1,
            h == header_texts(umya_sheets(*bk)[i as int]),
            views_of(out@) == h.take(c as int),
        decreases max_col - c,
    {
        let t = book_cell_text(bk, i, c + 1, 1);
        let ghost before = views_of(out@);
        out.push(t);
        assert(views_of(out@) =~= before.push(t@));
        assert(h.take(c + 1) =~= h.take(c as int).push(h[c as int]));
        c = c + 1;
    }
    assert(h.take(c as int) =~= h);
    out
}

/// Every sheet of the workbook has its cells parsed.
pub open spec fn all_parsed(p: Seq<bool>) -> bool {
    forall|j: int| 0 <= j < p.len() ==> #[trigger] p[j]
}

/// Syncs each table of the group that is not deleted into the workbook
/// (see [`synced_tables`]): its sheet, found by the table's name or added,
/// gets the header names and records that [`sync_sheet_writes`] gives.
pub fn sync_group_workbook(bk: &mut umya_spreadsheet::Workbook, group: &Group, mode: SyncMode)
    requires
        forall|i: int| 0 <= i < group.tables@.len() ==> sync_fits(#[trigger] group.tables@[i]),
        all_parsed(umya_parsed(*old(bk))),
    ensures
        umya_sheets(*final(bk)) == synced_tables(umya_sheets(*old(bk)), group@.tables, mode),
        all_parsed(umya_parsed(*final(bk))),
{
    let ghost s0 = umya_sheets(*bk);
    let ghost tv = group@.tables;
    let _n = book_sheet_count(bk);
    let mut i: usize = 0;
    assert(tv.take(0) =~= Seq::<TableView>::empty());
    while i < group.tables.len()
        invariant
            i <= group.tables@.len(),
            tv == group@.tables,
            tv.len() == group.tables@.len(),
            forall|j: int| 0 <= j < group.tables@.len() ==> sync_fits(#[trigger] group.tables@[j]),
            umya_sheets(*bk) == synced_tables(s0, tv.take(i as int), mode),
            all_parsed(umya_parsed(*bk)),
            umya_parsed(*bk).len() == umya_sheets(*bk).len(),
        decreases group.tables.len() - i,
    {
        let t = &group.tables[i];
        assert(tv[i as int] == t@);
        assert(tv.take(i + 1).drop_last() =~= tv.take(i as int));
        assert(tv.take(i + 1).last() == t@);
        if !t.deleted {
            assert(sync_fits(group.tables@[i as int]));
            let ghost before = umya_sheets(*bk);
            let idx = match find_sheet(bk, t.name.as_str()) {
                Some(k) => k,
                None => {
                    let n = book_sheet_count(bk);
                    let ghost pb = umya_parsed(*bk);
                    let added = book_add_sheet(bk, t.name.as_str());
                    assert(added is Ok);
                    assert(all_parsed(umya_parsed(*bk))) by {
                        assert forall|j: int| 0 <= j < umya_parsed(*bk).len() implies #[trigger] umya_parsed(*bk)[j] by {
                            if j < n {
                                assert(umya_parsed(*bk)[j] == pb[j]);
                            }
                        }
                    }
                    assert(umya_sheets(*bk)[n as int].0 == t.name@);
                    assert(first_named(umya_sheets(*bk), t.name@, n as int));
                    n
                },
            };
            let ghost s1 = umya_sheets(*bk);
            proof {
                lemma_named_index(s1, t.name@, idx as int);
                assert(s1 == if has_named(before, t@.name) {
                    before
                } else {
                    before.push((t@.name, 0int, 0int, no_umya_cells()))
                });
            }
            let headers = sheet_headers(bk, idx);
            let hs = headers.as_slice();
            assert(hs@ == headers@);
            let writes = sync_sheet_writes(&t.schema.fields, hs, &t.records, mode);
            proof {
                let ws = spec_sync_writes(
                    field_defs_view(t.schema.fields@),
                    views_of(headers@),
                    records_view(t.records@),
                    mode,
                );
                lemma_sync_writes_positive(
                    field_defs_view(t.schema.fields@),
                    views_of(headers@),
                    records_view(t.records@),
                    mode,
                );
                assert(writes_view(writes@) == ws);
                assert forall|q: int| 0 <= q < writes@.len() implies #[trigger] writes@[q].col >= 1 && writes@[q].row
                    >= 1 by {
                    assert(writes_view(writes@)[q] == writes@[q]@);
                    assert(ws[q] == writes_view(writes@)[q]);
                    assert(ws[q].col >= 1 && ws[q].row >= 1);
                }
            }
            assert(umya_parsed(*bk)[idx as int]);
            apply_cell_writes(bk, idx, &writes);
        }
        assert(umya_sheets(*bk) =~= synced_tables(s0, tv.take(i + 1), mode));
        i = i + 1;
    }
    assert(tv.take(i as int) =~= tv);
}

/// Syncs the group into the workbook (see [`sync_group_workbook`]) when
/// every sheet has its cells parsed, and says whether it did; otherwise
/// the workbook stays as it is.
pub fn sync_parsed_workbook(bk: &mut umya_spreadsheet::Workbook, group: &Group, mode: SyncMode) -> (r: bool)
    requires
        forall|i: int| 0 <= i < group.tables@.len() ==> sync_fits(#[trigger] group.tables@[i]),
    ensures
        r == all_parsed(umya_parsed(*old(bk))),
        r ==> umya_sheets(*final(bk)) == synced_tables(umya_sheets(*old(bk)), group@.tables, mode),
        !r ==> *final(bk) == *old(bk),
{
    let n = book_sheet_count(bk);
    let mut i: usize = 0;
    while i < n
        invariant
            i <= n,
            n == umya_parsed(*bk).len(),
            n == umya_sheets(*bk).len(),
            forall|j: int| 0 <= j < i ==> #[trigger] umya_parsed(*bk)[j],
        decreases n - i,
    {
        if !book_sheet_parsed(bk, i) {
            return false;
        }
        i = i + 1;
    }
    sync_group_workbook(bk, group, mode);
    true
}

} // verus!
