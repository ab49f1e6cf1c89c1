//! Two-way sync between a group and a spreadsheet file edited by hand:
//! column matching, header classification, row diffs, what a sync writes
//! into an existing sheet, and what a read brings back into the group.
//!
//! Reading and writing the file itself happens outside the library; these
//! functions take and return the plain cell texts.

use vstd::prelude::*;
use crate::model::{copy_row, copy_str, field_defs_view, records_view, FieldDef, FieldDefView, Group, Table, TableView};
use crate::tbl_str::views_of;
use crate::text::str_is;

verus! {

/// One sheet as read from a spreadsheet: its name, the first row, and the
/// non-empty rows below it with trailing empty cells cut.
#[derive(Clone, Debug)]
pub struct XlsxSheet {
    pub name: String,
    pub headers: Vec<String>,
    pub rows: Vec<Vec<String>>,
}

pub struct XlsxSheetView {
    pub name: Seq<char>,
    pub headers: Seq<Seq<char>>,
    pub rows: Seq<Seq<Seq<char>>>,
}

impl View for XlsxSheet {
    type V = XlsxSheetView;

    open spec fn view(&self) -> XlsxSheetView {
        XlsxSheetView { name: self.name@, headers: views_of(self.headers@), rows: records_view(self.rows@) }
    }
}

pub open spec fn sheets_view(s: Seq<XlsxSheet>) -> Seq<XlsxSheetView> {
    s.map_values(|x: XlsxSheet| x@)
}

/// A row without its trailing empty cells.
pub open spec fn trim_trailing(row: Seq<Seq<char>>) -> Seq<Seq<char>>
    decreases row.len(),
{
    if row.len() > 0 && row.last().len() == 0 {
        trim_trailing(row.drop_last())
    } else {
        row
    }
}

/// The data rows of a sheet: the rows with a non-empty cell, each without
/// its trailing empty cells.
pub open spec fn sheet_data_rows(rows: Seq<Seq<Seq<char>>>) -> Seq<Seq<Seq<char>>>
    decreases rows.len(),
{
    if rows.len() == 0 {
        seq![]
    } else {
        sheet_data_rows(rows.drop_last()) + if crate::excel::row_is_empty(rows.last()) {
            seq![]
        } else {
            seq![trim_trailing(rows.last())]
        }
    }
}

/// A sheet read from its cell texts, row by row from the first: the first
/// row is the header, the rest the data rows (see [`sheet_data_rows`]).
pub open spec fn spec_xlsx_sheet(name: Seq<char>, cells: Seq<Seq<Seq<char>>>) -> XlsxSheetView {
    XlsxSheetView {
        name,
        headers: if cells.len() > 0 { cells[0] } else { seq![] },
        rows: if cells.len() > 0 { sheet_data_rows(cells.skip(1)) } else { seq![] },
    }
}

fn cells_empty(row: &Vec<String>) -> (r: bool)
    ensures
        r == crate::excel::row_is_empty(views_of(row@)),
{
    let mut i: usize = 0;
    while i < row.len()
        invariant
            i <= row@.len(),
            forall|j: int| 0 <= j < i ==> (#[trigger] row@[j])@.len() == 0,
        decreases row.len() - i,
    {
        if !row[i].as_str().is_empty() {
            assert(views_of(row@)[i as int] == row@[i as int]@);
            return false;
        }
        i = i + 1;
    }
    true
}

fn trimmed_row(row: &Vec<String>) -> (r: Vec<String>)
    ensures
        views_of(r@) == trim_trailing(views_of(row@)),
{
    let mut n: usize = row.len();
    assert(views_of(row@).take(n as int) =~= views_of(row@));
    while n > 0 && row[n - 1].as_str().is_empty()
        invariant
            n <= row@.len(),
            trim_trailing(views_of(row@)) == trim_trailing(views_of(row@).take(n as int)),
        decreases n,
    {
        let ghost t = views_of(row@).take(n as int);
        assert(t.last() == row@[n - 1]@);
        assert(t.drop_last() =~= views_of(row@).take(n - 1));
        n = n - 1;
    }
    let mut out: Vec<String> = Vec::new();
    let mut i: usize = 0;
    while i < n
        invariant
            i <= n <= row@.len(),
            views_of(out@) == views_of(row@).take(i as int),
        decreases n - i,
    {
        let ghost prev = out@;
        out.push(copy_str(&row[i]));
        assert(out@ =~= prev.push(out@.last()));
        assert(views_of(prev.push(out@.last())) =~= views_of(prev).push(row@[i as int]@));
        assert(views_of(row@).take(i + 1) =~= views_of(row@).take(i as int).push(row@[i as int]@));
        i = i + 1;
    }
    proof {
        let t = views_of(row@).take(n as int);
        assert(!(t.len() > 0 && t.last().len() == 0)) by {
            if n > 0 {
                assert(t.last() == row@[n - 1]@);
            }
        }
    }
    out
}

/// A sheet read from its cell texts (see [`spec_xlsx_sheet`]).
pub fn xlsx_sheet_of(name: String, cells: &Vec<Vec<String>>) -> (r: XlsxSheet)
    ensures
        r@ == spec_xlsx_sheet(name@, records_view(cells@)),
{
    let ghost cv = records_view(cells@);
    let headers = if cells.len() > 0 { copy_row(&cells[0]) } else { Vec::new() };
    proof {
        if cells@.len() == 0 {
            assert(views_of(headers@) =~= Seq::<Seq<char>>::empty());
        }
    }
    let mut rows: Vec<Vec<String>> = Vec::new();
    let mut i: usize = 1;
    assert(cv.skip(1).take(0) =~= Seq::<Seq<Seq<char>>>::empty());
    while i < cells.len()
        invariant
            1 <= i,
            i <= cells@.len() || cells@.len() == 0,
            cv == records_view(cells@),
            cells@.len() > 0 ==> records_view(rows@) == sheet_data_rows(cv.skip(1).take(i - 1)),
            cells@.len() == 0 ==> rows@.len() == 0,
        decreases cells.len() - i,
    {
        let ghost prev = records_view(rows@);
        assert(cv.skip(1).take(i as int).drop_last() =~= cv.skip(1).take(i - 1));
        assert(cv.skip(1).take(i as int).last() == cells@[i as int]@.map_values(|x: String| x@));
        if !cells_empty(&cells[i]) {
            let t = trimmed_row(&cells[i]);
            rows.push(t);
            assert(records_view(rows@) =~= prev.push(views_of(t@)));
        }
        i = i + 1;
    }
    proof {
        if cells@.len() > 0 {
            assert(cv.skip(1).take(i - 1) =~= cv.skip(1));
            assert(cv[0] == cells@[0]@.map_values(|c: String| c@));
            assert(views_of(headers@) =~= cv[0]);
            assert(records_view(rows@) == sheet_data_rows(cv.skip(1)));
        } else {
            assert(views_of(headers@) =~= Seq::<Seq<char>>::empty());
            assert(records_view(rows@) =~= Seq::<Seq<Seq<char>>>::empty());
        }
    }
    XlsxSheet { name, headers, rows }
}

/// How the first row of a sheet relates to a table's columns.
#[derive(Clone, Copy, Debug, PartialEq, Eq, Structural)]
pub enum HeaderMatch {
    /// Same columns, same order.
    Identical,
    /// A common leading run of columns, then differences.
    TailDiff,
    /// No column in common at the start.
    Mismatch,
    /// Not a table sheet: empty, or not starting with `id`.
    Invalid,
}

/// Rows added, removed and changed between two versions of a table.
#[derive(Clone, Copy, Debug, PartialEq, Eq, Structural)]
pub struct DiffCount {
    pub added: usize,
    pub removed: usize,
    pub modified: usize,
}

impl Default for DiffCount {
    fn default() -> (r: Self)
        ensures
            r.added == 0 && r.removed == 0 && r.modified == 0,
    {
        DiffCount { added: 0, removed: 0, modified: 0 }
    }
}

/// What a sync from the group writes into an existing sheet.
#[derive(Clone, Copy, Debug, PartialEq, Eq, Structural)]
pub enum SyncMode {
    /// Only the columns the sheet already has in common with the table.
    DataOnly,
    /// Also the table's columns that the sheet lacks.
    WithColumns,
    /// A fresh sheet.
    Full,
}

/// How a table's columns line up with a sheet's header row.
#[derive(Clone, Debug)]
pub struct ColumnMatch {
    /// Leading columns with the same name at the same position.
    pub matched_prefix: usize,
    /// Table columns after that run.
    pub tablet_only: usize,
    /// Sheet columns after that run.
    pub xlsx_only: usize,
    /// For each table column, its 1-based sheet column, if any.
    pub col_map: Vec<Option<u32>>,
}

/// The names of the columns.
pub open spec fn field_names(fields: Seq<FieldDefView>) -> Seq<Seq<char>> {
    fields.map_values(|f: FieldDefView| f.name)
}

/// `k` is the length of the longest common leading run of `a` and `b`.
pub open spec fn is_common_prefix(a: Seq<Seq<char>>, b: Seq<Seq<char>>, k: int) -> bool {
    &&& 0 <= k <= a.len()
    &&& k <= b.len()
    &&& forall|i: int| 0 <= i < k ==> a[i] == b[i]
    &&& (k == a.len() || k == b.len() || a[k] != b[k])
}

/// First index at or after `start` where `s` holds `x`.
pub open spec fn index_from(s: Seq<Seq<char>>, x: Seq<char>, start: int) -> Option<int>
    decreases s.len() - start,
{
    if start < 0 || start >= s.len() {
        None
    } else if s[start] == x {
        Some(start)
    } else {
        index_from(s, x, start + 1)
    }
}

/// The sheet column (1-based) of table column `i`, given the common run `k`.
pub open spec fn mapped_column(names: Seq<Seq<char>>, headers: Seq<Seq<char>>, k: int, i: int) -> Option<int> {
    if i < k {
        Some(i + 1)
    } else {
        match index_from(headers, names[i], k) {
            Some(j) => Some(j + 1),
            None => None,
        }
    }
}

pub open spec fn col_map_view(v: Seq<Option<u32>>) -> Seq<Option<int>> {
    v.map_values(
        |o: Option<u32>|
            match o {
                Some(c) => Some(c as int),
                None => None,
            },
    )
}

/// Length of the common leading run of column names and sheet headers.
fn matched_prefix_len(fields: &[FieldDef], headers: &[String]) -> (k: usize)
    ensures
        is_common_prefix(field_names(field_defs_view(fields@)), views_of(headers@), k as int),
{
    let ghost a = field_names(field_defs_view(fields@));
    let ghost b = views_of(headers@);
    let mut k: usize = 0;
    while k < fields.len() && k < headers.len()
        invariant
            k <= fields@.len(),
            k <= headers@.len(),
            a == field_names(field_defs_view(fields@)),
            b == views_of(headers@),
            forall|i: int| 0 <= i < k ==> a[i] == b[i],
        ensures
            k == fields@.len() || k == headers@.len() || a[k as int] != b[k as int],
        decreases fields.len() - k,
    {
        if !str_is(fields[k].name.as_str(), headers[k].as_str()) {
            assert(a[k as int] == fields@[k as int].name@);
            assert(b[k as int] == headers@[k as int]@);
            break;
        }
        k = k + 1;
    }
    k
}

/// First index at or after `start` of a header equal to `x`.
fn header_index_from(headers: &[String], x: &String, start: usize) -> (r: Option<usize>)
    requires
        start <= headers@.len(),
    ensures
        match r {
            Some(j) => index_from(views_of(headers@), x@, start as int) == Some(j as int),
            None => index_from(views_of(headers@), x@, start as int) is None,
        },
    decreases headers@.len() - start,
{
    if start == headers.len() {
        return None;
    }
    if str_is(headers[start].as_str(), x.as_str()) {
        Some(start)
    } else {
        header_index_from(headers, x, start + 1)
    }
}

/// Matches the table's columns against a sheet's header row: the common
/// leading run, the columns on each side after it, and for each table
/// column its sheet column (inside the run by position, after it the first
/// header of the same name).
pub fn compute_column_match(tablet_fields: &[FieldDef], xlsx_headers: &[String]) -> (r: ColumnMatch)
    requires
        xlsx_headers@.len() <= u32::MAX,
    ensures
        is_common_prefix(
            field_names(field_defs_view(tablet_fields@)),
            views_of(xlsx_headers@),
            r.matched_prefix as int,
        ),
        r.tablet_only == tablet_fields@.len() - r.matched_prefix,
        r.xlsx_only == xlsx_headers@.len() - r.matched_prefix,
        r.col_map@.len() == tablet_fields@.len(),
        forall|i: int|
            0 <= i < tablet_fields@.len() ==> col_map_view(r.col_map@)[i] == mapped_column(
                field_names(field_defs_view(tablet_fields@)),
                views_of(xlsx_headers@),
                r.matched_prefix as int,
                i,
            ),
{
    let ghost names = field_names(field_defs_view(tablet_fields@));
    let ghost hs = views_of(xlsx_headers@);
    let k = matched_prefix_len(tablet_fields, xlsx_headers);
    let mut col_map: Vec<Option<u32>> = Vec::new();
    let mut i: usize = 0;
    while i < tablet_fields.len()
        invariant
            i <= tablet_fields@.len(),
            k <= xlsx_headers@.len(),
            xlsx_headers@.len() <= u32::MAX,
            names == field_names(field_defs_view(tablet_fields@)),
            hs == views_of(xlsx_headers@),
            col_map@.len() == i,
            forall|j: int| 0 <= j < i ==> col_map_view(col_map@)[j] == mapped_column(names, hs, k as int, j),
        decreases tablet_fields.len() - i,
    {
        if i < k {
            col_map.push(Some((i + 1) as u32));
        } else {
            match header_index_from(xlsx_headers, &tablet_fields[i].name, k) {
                Some(j) => {
                    proof {
                        lemma_index_from_bounds(hs, names[i as int], k as int);
                    }
                    col_map.push(Some((j + 1) as u32));
                },
                None => {
                    col_map.push(None);
                },
            }
        }
        proof {
            assert(names[i as int] == tablet_fields@[i as int].name@);
        }
        i = i + 1;
    }
    ColumnMatch {
        matched_prefix: k,
        tablet_only: tablet_fields.len() - k,
        xlsx_only: xlsx_headers.len() - k,
        col_map,
    }
}

pub(crate) proof fn lemma_index_from_bounds(s: Seq<Seq<char>>, x: Seq<char>, start: int)
    ensures
        match index_from(s, x, start) {
            Some(j) => start <= j < s.len() && s[j] == x,
            None => true,
        },
    decreases s.len() - start,
{
    if start >= 0 && start < s.len() && s[start] != x {
        lemma_index_from_bounds(s, x, start + 1);
    }
}

/// Classification of a header row against a table's columns.
pub open spec fn spec_classify_header(headers: Seq<Seq<char>>, names: Seq<Seq<char>>, k: int) -> HeaderMatch {
    if headers.len() == 0 || headers[0] != "id"@ {
        HeaderMatch::Invalid
    } else if names.len() == k && headers.len() == k {
        HeaderMatch::Identical
    } else if k > 0 {
        HeaderMatch::TailDiff
    } else {
        HeaderMatch::Mismatch
    }
}

/// Classifies a sheet's header row: `Invalid` when it is empty or does not
/// start with `id`; otherwise by the common leading run `k` with the
/// table's columns: `Identical` when both sides are exactly that run,
/// `TailDiff` when the run is not empty, `Mismatch` when it is.
pub fn classify_header(xlsx_headers: &[String], tablet_fields: &[FieldDef]) -> (r: HeaderMatch)
    ensures
        exists|k: int|
            is_common_prefix(field_names(field_defs_view(tablet_fields@)), views_of(xlsx_headers@), k)
                && r == spec_classify_header(
                views_of(xlsx_headers@),
                field_names(field_defs_view(tablet_fields@)),
                k,
            ),
{
    let k = matched_prefix_len(tablet_fields, xlsx_headers);
    if xlsx_headers.len() == 0 {
        return HeaderMatch::Invalid;
    }
    if !str_is(xlsx_headers[0].as_str(), "id") {
        return HeaderMatch::Invalid;
    }
    if tablet_fields.len() == k && xlsx_headers.len() == k {
        HeaderMatch::Identical
    } else if k > 0 {
        HeaderMatch::TailDiff
    } else {
        HeaderMatch::Mismatch
    }
}

/// The common leading run is unique.
pub proof fn lemma_common_prefix_unique(a: Seq<Seq<char>>, b: Seq<Seq<char>>, k1: int, k2: int)
    requires
        is_common_prefix(a, b, k1),
        is_common_prefix(a, b, k2),
    ensures
        k1 == k2,
{
    if k1 < k2 {
        assert(a[k1] == b[k1]);
    } else if k2 < k1 {
        assert(a[k2] == b[k2]);
    }
}

// ───────────────────────── row diff ─────────────────────────

/// Row `i` of `rows`, if there is one.
pub open spec fn row_at(rows: Seq<Seq<Seq<char>>>, i: int) -> Option<Seq<Seq<char>>> {
    if 0 <= i < rows.len() {
        Some(rows[i])
    } else {
        None
    }
}

/// Number of positions below `k` where the two sides hold different rows
/// (a row present on one side only counts as different).
pub open spec fn changed_rows(left: Seq<Seq<Seq<char>>>, right: Seq<Seq<Seq<char>>>, k: int) -> int
    decreases k,
{
    if k <= 0 {
        0
    } else {
        changed_rows(left, right, k - 1) + if row_at(left, k - 1) != row_at(right, k - 1) {
            1int
        } else {
            0int
        }
    }
}

/// Whether two rows hold the same cell texts.
pub(crate) fn rows_equal(a: &Vec<String>, b: &Vec<String>) -> (r: bool)
    ensures
        r == (views_of(a@) == views_of(b@)),
{
    if a.len() != b.len() {
        assert(views_of(a@).len() != views_of(b@).len());
        return false;
    }
    let mut i: usize = 0;
    while i < a.len()
        invariant
            i <= a@.len(),
            a@.len() == b@.len(),
            forall|j: int| 0 <= j < i ==> a@[j]@ == b@[j]@,
        decreases a.len() - i,
    {
        if !str_is(a[i].as_str(), b[i].as_str()) {
            assert(views_of(a@)[i as int] != views_of(b@)[i as int]);
            return false;
        }
        i = i + 1;
    }
    assert(views_of(a@) =~= views_of(b@));
    true
}

/// Counts the rows added, removed and changed between `left` (the first
/// `left_rows` rows) and `right` (the first `right_rows` rows): rows at the
/// same position below the smaller count that differ are changed; the
/// surplus on the left is added, that on the right removed.
pub fn diff_rows(left_rows: usize, right_rows: usize, left: &[Vec<String>], right: &[Vec<String>]) -> (r: DiffCount)
    ensures
        r.modified == changed_rows(
            records_view(left@),
            records_view(right@),
            if left_rows < right_rows { left_rows as int } else { right_rows as int },
        ),
        r.added == (if left_rows > right_rows { left_rows - right_rows } else { 0 }),
        r.removed == (if right_rows > left_rows { right_rows - left_rows } else { 0 }),
{
    let ghost lv = records_view(left@);
    let ghost rv = records_view(right@);
    let mut d = DiffCount::default();
    let min = if left_rows < right_rows { left_rows } else { right_rows };
    let mut i: usize = 0;
    while i < min
        invariant
            i <= min,
            lv == records_view(left@),
            rv == records_view(right@),
            d.modified == changed_rows(lv, rv, i as int),
            d.modified <= i,
            d.added == 0 && d.removed == 0,
        decreases min - i,
    {
        let differ = if i < left.len() && i < right.len() {
            !rows_equal(&left[i], &right[i])
        } else {
            i < left.len() || i < right.len()
        };
        proof {
            if i < left@.len() {
                assert(lv[i as int] == views_of(left@[i as int]@));
            }
            if i < right@.len() {
                assert(rv[i as int] == views_of(right@[i as int]@));
            }
        }
        if differ {
            d.modified = d.modified + 1;
        }
        i = i + 1;
    }
    if left_rows > right_rows {
        d.added = left_rows - right_rows;
    }
    if right_rows > left_rows {
        d.removed = right_rows - left_rows;
    }
    d
}

// ───────────────────────── sheet → group ─────────────────────────

/// Rows read back for each table whose sheet was accepted.
#[derive(Clone, Debug)]
pub struct GroupPatch {
    pub tables: Vec<(String, Vec<Vec<String>>)>,
}

pub open spec fn patch_entries_view(t: Seq<(String, Vec<Vec<String>>)>) -> Seq<(Seq<char>, Seq<Seq<Seq<char>>>)> {
    t.map_values(|e: (String, Vec<Vec<String>>)| (e.0@, records_view(e.1@)))
}

impl View for GroupPatch {
    type V = Seq<(Seq<char>, Seq<Seq<Seq<char>>>)>;

    open spec fn view(&self) -> Self::V {
        patch_entries_view(self.tables@)
    }
}

/// A sheet row brought into a table of `n` columns: the first `k` cells
/// where the sheet has them, empty cells elsewhere.
pub open spec fn patch_row(row: Seq<Seq<char>>, n: int, k: int) -> Seq<Seq<char>> {
    Seq::new(n as nat, |i: int| if i < k && i < row.len() { row[i] } else { Seq::<char>::empty() })
}

pub open spec fn patch_rows(rows: Seq<Seq<Seq<char>>>, n: int, k: int) -> Seq<Seq<Seq<char>>> {
    rows.map_values(|row: Seq<Seq<char>>| patch_row(row, n, k))
}

pub open spec fn table_names(tables: Seq<TableView>) -> Seq<Seq<char>> {
    tables.map_values(|t: TableView| t.name)
}

/// The common leading run of a table's columns and a header row.
pub open spec fn prefix_of(t: TableView, headers: Seq<Seq<char>>) -> int {
    choose|k: int| is_common_prefix(field_names(t.fields), headers, k)
}

/// What a read brings back: for each sheet in order that names a table of
/// the group (the first of that name), and whose header row is not
/// `Invalid` or `Mismatch` unless `force`, the table's name and the sheet's
/// rows cut to the common leading run of columns.
pub open spec fn spec_read_group(sheets: Seq<XlsxSheetView>, tables: Seq<TableView>, force: bool) -> Seq<
    (Seq<char>, Seq<Seq<Seq<char>>>),
>
    decreases sheets.len(),
{
    if sheets.len() == 0 {
        seq![]
    } else {
        let prev = spec_read_group(sheets.drop_last(), tables, force);
        let sh = sheets.last();
        match index_from(table_names(tables), sh.name, 0) {
            None => prev,
            Some(ti) => {
                let t = tables[ti];
                let k = prefix_of(t, sh.headers);
                let m = spec_classify_header(sh.headers, field_names(t.fields), k);
                if !force && (m == HeaderMatch::Invalid || m == HeaderMatch::Mismatch) {
                    prev
                } else {
                    prev.push((sh.name, patch_rows(sh.rows, t.fields.len() as int, k)))
                }
            },
        }
    }
}

pub(crate) proof fn lemma_prefix_of(t: TableView, headers: Seq<Seq<char>>, k: int)
    requires
        is_common_prefix(field_names(t.fields), headers, k),
    ensures
        prefix_of(t, headers) == k,
{
    let c = prefix_of(t, headers);
    assert(is_common_prefix(field_names(t.fields), headers, c));
    lemma_common_prefix_unique(field_names(t.fields), headers, c, k);
}

/// First table of the group named `name`.
pub(crate) fn find_table(tables: &Vec<Table>, name: &String) -> (r: Option<usize>)
    ensures
        match r {
            Some(i) => index_from(table_names(tables@.map_values(|t: Table| t@)), name@, 0) == Some(
                i as int,
            ),
            None => index_from(table_names(tables@.map_values(|t: Table| t@)), name@, 0) is None,
        },
{
    let ghost names = table_names(tables@.map_values(|t: Table| t@));
    let mut i: usize = tables.len();
    let mut found: Option<usize> = None;
    while i > 0
        invariant
            i <= tables@.len(),
            names == table_names(tables@.map_values(|t: Table| t@)),
            match found {
                Some(j) => index_from(names, name@, i as int) == Some(j as int),
                None => index_from(names, name@, i as int) is None,
            },
        decreases i,
    {
        i = i - 1;
        assert(names[i as int] == tables@[i as int].name@);
        if str_is(tables[i].name.as_str(), name.as_str()) {
            found = Some(i);
        }
    }
    found
}

/// A sheet row cut to the table's `n` columns (see [`patch_row`]).
fn patch_one_row(row: &Vec<String>, n: usize, k: usize) -> (r: Vec<String>)
    ensures
        views_of(r@) == patch_row(views_of(row@), n as int, k as int),
{
    let mut out: Vec<String> = Vec::new();
    let mut i: usize = 0;
    while i < n
        invariant
            i <= n,
            out@.len() == i,
            forall|j: int|
                0 <= j < i ==> out@[j]@ == patch_row(views_of(row@), n as int, k as int)[j],
        decreases n - i,
    {
        if i < k && i < row.len() {
            out.push(copy_str(&row[i]));
        } else {
            out.push(String::new());
        }
        i = i + 1;
    }
    assert(views_of(out@) =~= patch_row(views_of(row@), n as int, k as int));
    out
}

fn patch_sheet_rows(rows: &Vec<Vec<String>>, n: usize, k: usize) -> (r: Vec<Vec<String>>)
    ensures
        records_view(r@) == patch_rows(records_view(rows@), n as int, k as int),
{
    let mut out: Vec<Vec<String>> = Vec::new();
    let mut i: usize = 0;
    while i < rows.len()
        invariant
            i <= rows@.len(),
            out@.len() == i,
            forall|j: int|
                0 <= j < i ==> views_of(out@[j]@) == patch_row(
                    views_of(rows@[j]@),
                    n as int,
                    k as int,
                ),
        decreases rows.len() - i,
    {
        out.push(patch_one_row(&rows[i], n, k));
        i = i + 1;
    }
    assert(records_view(out@) =~= patch_rows(records_view(rows@), n as int, k as int));
    out
}

/// Brings the sheets read from a group's spreadsheet back as rows for its
/// tables (see [`spec_read_group`]).
pub fn read_group_from_xlsx(sheets: &[XlsxSheet], group: &Group, force: bool) -> (r: GroupPatch)
    ensures
        r@ == spec_read_group(sheets_view(sheets@), group@.tables, force),
{
    let ghost sv = sheets_view(sheets@);
    let mut tables: Vec<(String, Vec<Vec<String>>)> = Vec::new();
    let mut i: usize = 0;
    while i < sheets.len()
        invariant
            i <= sheets@.len(),
            sv == sheets_view(sheets@),
            patch_entries_view(tables@) == spec_read_group(sv.take(i as int), group@.tables, force),
        decreases sheets.len() - i,
    {
        let sheet = &sheets[i];
        assert(sv.take(i + 1).drop_last() =~= sv.take(i as int));
        assert(sv.take(i + 1).last() == sheet@);
        match find_table(&group.tables, &sheet.name) {
            None => {},
            Some(ti) => {
                proof {
                    lemma_index_from_bounds(table_names(group@.tables), sheet@.name, 0);
                }
                let table = &group.tables[ti];
                let ghost tv = group@.tables[ti as int];
                assert(tv == table@);
                let k = matched_prefix_len(table.schema.fields.as_slice(), sheet.headers.as_slice());
                proof {
                    lemma_prefix_of(tv, sheet@.headers, k as int);
                }
                let accept = if force {
                    true
                } else {
                    let m = classify_header(sheet.headers.as_slice(), table.schema.fields.as_slice());
                    proof {
                        let kk = choose|kk: int|
                            is_common_prefix(field_names(tv.fields), sheet@.headers, kk)
                                && m == spec_classify_header(sheet@.headers, field_names(tv.fields), kk);
                        lemma_common_prefix_unique(field_names(tv.fields), sheet@.headers, kk, k as int);
                    }
                    !(m == HeaderMatch::Invalid || m == HeaderMatch::Mismatch)
                };
                if accept {
                    let rows = patch_sheet_rows(&sheet.rows, table.schema.fields.len(), k);
                    let ghost prev = patch_entries_view(tables@);
                    tables.push((copy_str(&sheet.name), rows));
                    assert(patch_entries_view(tables@) =~= prev.push(
                        (sheet@.name, patch_rows(sheet@.rows, tv.fields.len() as int, k as int)),
                    ));
                }
            },
        }
        i = i + 1;
    }
    assert(sv.take(sheets@.len() as int) =~= sv);
    GroupPatch { tables }
}

// ───────────────────────── group → sheet ─────────────────────────

/// One cell to set in a sheet: 1-based column and row, and its text.
#[derive(Clone, Debug)]
pub struct CellWrite {
    pub col: u32,
    pub row: u32,
    pub value: String,
}

pub struct CellWriteView {
    pub col: int,
    pub row: int,
    pub value: Seq<char>,
}

impl View for CellWrite {
    type V = CellWriteView;

    open spec fn view(&self) -> CellWriteView {
        CellWriteView { col: self.col as int, row: self.row as int, value: self.value@ }
    }
}

pub open spec fn writes_view(w: Seq<CellWrite>) -> Seq<CellWriteView> {
    w.map_values(|x: CellWrite| x@)
}

/// The common leading run of two name lists.
pub open spec fn common_prefix(a: Seq<Seq<char>>, b: Seq<Seq<char>>) -> int {
    choose|k: int| is_common_prefix(a, b, k)
}

/// Header cells written: the common run only, or every table column.
pub open spec fn header_writes(names: Seq<Seq<char>>, k: int, mode: SyncMode) -> Seq<CellWriteView> {
    let n = if mode == SyncMode::DataOnly { k } else { names.len() as int };
    Seq::new(n as nat, |i: int| CellWriteView { col: i + 1, row: 1, value: names[i] })
}

/// Cells of one record on sheet row `r`: those inside the common run only,
/// or all of them.
pub open spec fn row_writes(row: Seq<Seq<char>>, r: int, k: int, mode: SyncMode) -> Seq<CellWriteView> {
    let n = if mode == SyncMode::DataOnly {
        if k < row.len() { k } else { row.len() as int }
    } else {
        row.len() as int
    };
    Seq::new(n as nat, |i: int| CellWriteView { col: i + 1, row: r, value: row[i] })
}

/// Cells of the records, record `i` on sheet row `i + 2`.
pub open spec fn data_writes(records: Seq<Seq<Seq<char>>>, k: int, mode: SyncMode) -> Seq<CellWriteView>
    decreases records.len(),
{
    if records.len() == 0 {
        seq![]
    } else {
        data_writes(records.drop_last(), k, mode) + row_writes(
            records.last(),
            (records.len() + 1) as int,
            k,
            mode,
        )
    }
}

/// What a sync writes into an existing sheet whose first row is `headers`.
pub open spec fn spec_sync_writes(
    fields: Seq<FieldDefView>,
    headers: Seq<Seq<char>>,
    records: Seq<Seq<Seq<char>>>,
    mode: SyncMode,
) -> Seq<CellWriteView> {
    let names = field_names(fields);
    let k = common_prefix(names, headers);
    header_writes(names, k, mode) + data_writes(records, k, mode)
}

fn push_row_writes(out: &mut Vec<CellWrite>, row: &Vec<String>, r: u32, k: usize, mode: SyncMode)
    requires
        row@.len() < u32::MAX,
    ensures
        writes_view(final(out)@) == writes_view(old(out)@) + row_writes(
            views_of(row@),
            r as int,
            k as int,
            mode,
        ),
{
    let n = if mode == SyncMode::DataOnly {
        if k < row.len() { k } else { row.len() }
    } else {
        row.len()
    };
    let ghost start = writes_view(out@);
    let ghost want = row_writes(views_of(row@), r as int, k as int, mode);
    let mut i: usize = 0;
    while i < n
        invariant
            i <= n,
            n <= row@.len(),
            row@.len() < u32::MAX,
            n == want.len(),
            want == row_writes(views_of(row@), r as int, k as int, mode),
            writes_view(out@) == start + want.take(i as int),
        decreases n - i,
    {
        let ghost prev = writes_view(out@);
        out.push(CellWrite { col: (i + 1) as u32, row: r, value: copy_str(&row[i]) });
        assert(writes_view(out@) =~= prev.push(want[i as int]));
        assert(want.take(i + 1) =~= want.take(i as int).push(want[i as int]));
        i = i + 1;
    }
    assert(want.take(n as int) =~= want);
}

/// The cells a sync writes into an existing sheet whose first row is
/// `xlsx_headers` (see [`spec_sync_writes`]): header names, then the
/// records from the second row on.
pub fn sync_sheet_writes(
    tablet_fields: &[FieldDef],
    xlsx_headers: &[String],
    records: &Vec<Vec<String>>,
    mode: SyncMode,
) -> (r: Vec<CellWrite>)
    requires
        tablet_fields@.len() < u32::MAX,
        records@.len() + 2 <= u32::MAX,
        forall|i: int| 0 <= i < records@.len() ==> #[trigger] records@[i]@.len() < u32::MAX,
    ensures
        writes_view(r@) == spec_sync_writes(
            field_defs_view(tablet_fields@),
            views_of(xlsx_headers@),
            records_view(records@),
            mode,
        ),
{
    let ghost names = field_names(field_defs_view(tablet_fields@));
    let ghost rv = records_view(records@);
    let k = matched_prefix_len(tablet_fields, xlsx_headers);
    proof {
        let c = common_prefix(names, views_of(xlsx_headers@));
        assert(is_common_prefix(names, views_of(xlsx_headers@), c));
        lemma_common_prefix_unique(names, views_of(xlsx_headers@), c, k as int);
    }
    let ghost hw = header_writes(names, k as int, mode);
    let n = if mode == SyncMode::DataOnly { k } else { tablet_fields.len() };
    let mut out: Vec<CellWrite> = Vec::new();
    let mut i: usize = 0;
    while i < n
        invariant
            i <= n,
            n == hw.len(),
            n <= tablet_fields@.len(),
            tablet_fields@.len() < u32::MAX,
            names == field_names(field_defs_view(tablet_fields@)),
            hw == header_writes(names, k as int, mode),
            writes_view(out@) == hw.take(i as int),
        decreases n - i,
    {
        let ghost prev = writes_view(out@);
        out.push(CellWrite { col: (i + 1) as u32, row: 1, value: copy_str(&tablet_fields[i].name) });
        assert(writes_view(out@) =~= prev.push(hw[i as int]));
        assert(hw.take(i + 1) =~= hw.take(i as int).push(hw[i as int]));
        i = i + 1;
    }
    assert(hw.take(n as int) =~= hw);
    let mut j: usize = 0;
    while j < records.len()
        invariant
            j <= records@.len(),
            records@.len() + 2 <= u32::MAX,
            forall|q: int| 0 <= q < records@.len() ==> #[trigger] records@[q]@.len() < u32::MAX,
            rv == records_view(records@),
            writes_view(out@) == hw + data_writes(rv.take(j as int), k as int, mode),
        decreases records.len() - j,
    {
        assert(rv.take(j + 1).drop_last() =~= rv.take(j as int));
        assert(rv.take(j + 1).last() == views_of(records@[j as int]@));
        push_row_writes(&mut out, &records[j], (j + 2) as u32, k, mode);
        assert(hw + data_writes(rv.take(j + 1), k as int, mode) =~= hw + data_writes(
            rv.take(j as int),
            k as int,
            mode,
        ) + row_writes(views_of(records@[j as int]@), j + 2, k as int, mode));
        j = j + 1;
    }
    assert(rv.take(records@.len() as int) =~= rv);
    out
}

} // verus!
