//! Spreadsheet bridge: a group's tables, constants and enums as sheets of a
//! workbook, and the strict read back of such a workbook into a patch.
//!
//! Sheet layout, in the order of the `.tbl` text:
//! - table: four header rows (desc / export / type / field), data from the
//!   fifth row;
//! - constant: one header row (name / type / value / export / desc);
//! - enum: one header row (id / name / desc).
//!
//! The export column shows [`Export::display`]; reading back goes through
//! [`Export::from_str`].

use vstd::prelude::*;
use rust_xlsxwriter::{Format, FormatBorder, ProtectionOptions, Workbook, Worksheet, XlsxError};
use crate::model::{
    copy_str, field_defs_view, records_view, ConstEntry, ConstEntryView, Constant, ConstantView, EnumDef, EnumDefView,
    EnumEntry, EnumEntryView, Export, FieldDefView, Group, GroupView, Table, TableView,
};
use crate::tbl_str::views_of;
use crate::tblschema::{join_with, join_with_strings};
use crate::excel_sync::{
    field_names, find_table, index_from, lemma_index_from_bounds, lemma_prefix_of, patch_row, patch_rows, prefix_of,
    sheet_data_rows, spec_classify_header, spec_read_group, spec_xlsx_sheet, table_names, trim_trailing, HeaderMatch,
    XlsxSheetView,
};
use crate::text::{chars_of, decimal, decimal_string, lowercase_of, push_char, str_is, string_of};

verus! {

// ───────────────────────── sheet names ─────────────────────────

/// Characters a sheet name cannot hold.
pub open spec fn is_bad_sheet_char(c: char) -> bool {
    c == '\\' || c == '/' || c == '?' || c == '*' || c == '[' || c == ']' || c == ':'
}

/// A sheet name for `name`: forbidden characters become `_`, at most 31
/// characters are kept, and an empty result becomes `Sheet`.
pub open spec fn sheet_char(c: char) -> char {
    if is_bad_sheet_char(c) { '_' } else { c }
}

pub open spec fn sheet_chars(name: Seq<char>) -> Seq<char> {
    name.map_values(|c: char| sheet_char(c))
}

pub open spec fn spec_sanitize_sheet_name(name: Seq<char>) -> Seq<char> {
    let m = sheet_chars(name);
    let t = if m.len() > 31 { m.take(31) } else { m };
    if t.len() == 0 {
        "Sheet"@
    } else {
        t
    }
}

/// Sheet name for a node (see [`spec_sanitize_sheet_name`]).
pub fn sanitize_sheet_name(name: &str) -> (r: String)
    ensures
        r@ == spec_sanitize_sheet_name(name@),
{
    let cs = chars_of(name);
    let ghost m = sheet_chars(name@);
    let mut out: Vec<char> = Vec::new();
    let mut i: usize = 0;
    while i < cs.len() && i < 31
        invariant
            i <= cs@.len(),
            i <= 31,
            cs@ == name@,
            m == sheet_chars(name@),
            m.len() == name@.len(),
            out@ == m.take(i as int),
        decreases cs.len() - i,
    {
        let c = cs[i];
        let d = if c == '\\' || c == '/' || c == '?' || c == '*' || c == '[' || c == ']' || c == ':' {
            '_'
        } else {
            c
        };
        out.push(d);
        assert(m[i as int] == sheet_char(name@[i as int]));
        assert(m.take(i + 1) =~= m.take(i as int).push(d));
        i = i + 1;
    }
    if out.len() == 0 {
        proof {
            reveal_strlit("Sheet");
        }
        return String::from_str("Sheet");
    }
    proof {
        if m.len() <= 31 {
            assert(m.take(m.len() as int) =~= m);
        }
    }
    let r = string_of(&out);
    assert(r@ == (if m.len() > 31 { m.take(31) } else { m }));
    r
}

/// A sheet name made from any text is one Excel accepts: one to 31
/// characters, none of `\ / ? * [ ] :`.
pub proof fn law_sheet_name_valid(raw: Seq<char>)
    ensures
        0 < spec_sanitize_sheet_name(raw).len() <= 31,
        forall|i: int|
            0 <= i < spec_sanitize_sheet_name(raw).len() ==> !is_bad_sheet_char(
                #[trigger] spec_sanitize_sheet_name(raw)[i],
            ),
{
    reveal_strlit("Sheet");
    let m = sheet_chars(raw);
    let r = spec_sanitize_sheet_name(raw);
    assert forall|i: int| 0 <= i < r.len() implies !is_bad_sheet_char(#[trigger] r[i]) by {
        if m.len() == 0 {
            assert(r == "Sheet"@);
        } else {
            assert(r[i] == m[i]);
            assert(m[i] == sheet_char(raw[i]));
        }
    }
}

proof fn lemma_free_candidate_fresh(base: Seq<char>, used: Seq<Seq<char>>, n: nat)
    ensures
        free_candidate(base, used, n) matches Some(c) ==> !used.contains(c),
    decreases 1000 - n,
{
    if n < 1000 && used.contains(candidate_name(base, n)) {
        lemma_free_candidate_fresh(base, used, n + 1);
    }
}

/// A sheet name that is recorded as used was not used before.
pub proof fn law_unique_sheet_name_fresh(raw: Seq<char>, used: Seq<Seq<char>>)
    ensures
        spec_unique_sheet_name(raw, used).1 ==> !used.contains(spec_unique_sheet_name(raw, used).0),
{
    lemma_free_candidate_fresh(spec_sanitize_sheet_name(raw), used, 2);
}

/// Suffix `_<n>` of the `n`-th candidate.
pub open spec fn name_suffix(n: nat) -> Seq<char> {
    "_"@ + decimal(n)
}

/// Candidate `n` for a taken sheet name: the name cut so that with the
/// suffix it keeps to 31 characters.
pub open spec fn candidate_name(base: Seq<char>, n: nat) -> Seq<char> {
    let sl = name_suffix(n).len();
    let keep: int = if sl >= 31 { 0 } else { 31 - sl };
    (if keep < base.len() { base.take(keep) } else { base }) + name_suffix(n)
}

/// First free candidate from `n` below 1000.
pub open spec fn free_candidate(base: Seq<char>, used: Seq<Seq<char>>, n: nat) -> Option<Seq<char>>
    decreases 1000 - n,
{
    if n >= 1000 {
        None
    } else if !used.contains(candidate_name(base, n)) {
        Some(candidate_name(base, n))
    } else {
        free_candidate(base, used, n + 1)
    }
}

/// The name a node gets among the names already `used`: its sheet name if
/// free, else the first free candidate `_2` .. `_999`, else the sheet name
/// itself (then not recorded as used).
pub open spec fn spec_unique_sheet_name(raw: Seq<char>, used: Seq<Seq<char>>) -> (Seq<char>, bool) {
    let base = spec_sanitize_sheet_name(raw);
    if !used.contains(base) {
        (base, true)
    } else {
        match free_candidate(base, used, 2) {
            Some(c) => (c, true),
            None => (base, false),
        }
    }
}

fn name_used(used: &Vec<String>, x: &String) -> (r: bool)
    ensures
        r == views_of(used@).contains(x@),
{
    let mut i: usize = 0;
    while i < used.len()
        invariant
            i <= used@.len(),
            forall|j: int| 0 <= j < i ==> used@[j]@ != x@,
        decreases used.len() - i,
    {
        if str_is(used[i].as_str(), x.as_str()) {
            assert(views_of(used@)[i as int] == x@);
            return true;
        }
        i = i + 1;
    }
    assert forall|j: int| 0 <= j < views_of(used@).len() implies views_of(used@)[j] != x@ by {
        assert(views_of(used@)[j] == used@[j]@);
    }
    false
}

fn take_chars(s: &String, k: usize) -> (r: String)
    ensures
        r@ == (if (k as int) < s@.len() { s@.take(k as int) } else { s@ }),
{
    let cs = chars_of(s.as_str());
    let mut out: Vec<char> = Vec::new();
    let mut i: usize = 0;
    while i < cs.len() && i < k
        invariant
            i <= cs@.len(),
            i <= k,
            cs@ == s@,
            out@ == s@.take(i as int),
        decreases cs.len() - i,
    {
        out.push(cs[i]);
        assert(s@.take(i + 1) =~= s@.take(i as int).push(cs@[i as int]));
        i = i + 1;
    }
    proof {
        if (k as int) >= s@.len() {
            assert(i == s@.len());
            assert(s@.take(s@.len() as int) =~= s@);
        } else {
            assert(i == k);
        }
    }
    let r = string_of(&out);
    r
}

proof fn lemma_decimal_len(n: nat)
    ensures
        n < 10 ==> decimal(n).len() == 1,
        n < 100 ==> decimal(n).len() <= 2,
        n < 1000 ==> decimal(n).len() <= 3,
        decimal(n).len() >= 1,
    decreases n,
{
    if n >= 10 {
        lemma_decimal_len(n / 10);
    }
}

/// A sheet name for `raw` that is not in `used`, recorded there (see
/// [`spec_unique_sheet_name`]).
pub fn unique_sheet_name(raw: &str, used: &mut Vec<String>) -> (r: String)
    ensures
        r@ == spec_unique_sheet_name(raw@, views_of(old(used)@)).0,
        views_of(final(used)@) == if spec_unique_sheet_name(raw@, views_of(old(used)@)).1 {
            views_of(old(used)@).push(r@)
        } else {
            views_of(old(used)@)
        },
{
    let ghost u = views_of(used@);
    let base = sanitize_sheet_name(raw);
    if !name_used(used, &base) {
        used.push(copy_str(&base));
        assert(views_of(used@) =~= u.push(base@));
        return base;
    }
    let mut n: u64 = 2;
    while n < 1000
        invariant
            2 <= n <= 1000,
            u == views_of(used@),
            u == views_of(old(used)@),
            u.contains(base@),
            base@ == spec_sanitize_sheet_name(raw@),
            free_candidate(base@, u, 2) == free_candidate(base@, u, n as nat),
        decreases 1000 - n,
    {
        let num = decimal_string(n);
        let suffix = String::from_str("_").concat(num.as_str());
        proof {
            reveal_strlit("_");
            lemma_decimal_len(n as nat);
            assert(suffix@ == name_suffix(n as nat));
        }
        let nl = chars_of(num.as_str()).len();
        let take: usize = 31 - (nl + 1);
        let trimmed = take_chars(&base, take);
        let candidate = trimmed.concat(suffix.as_str());
        assert(candidate@ == candidate_name(base@, n as nat));
        if !name_used(used, &candidate) {
            assert(free_candidate(base@, u, n as nat) == Some(candidate@));
            used.push(copy_str(&candidate));
            assert(views_of(used@) =~= u.push(candidate@));
            return candidate;
        }
        assert(free_candidate(base@, u, n as nat) == free_candidate(base@, u, (n + 1) as nat));
        n = n + 1;
    }
    assert(free_candidate(base@, u, 1000) is None);
    base
}

// ───────────────────────── name order ─────────────────────────

/// `a` sorts before `b`: character by character, a proper prefix first.
/// (UTF-8 keeps the order of code points, so this is the order of `str`.)
pub open spec fn text_lt(a: Seq<char>, b: Seq<char>) -> bool
    decreases a.len(),
{
    if a.len() == 0 {
        b.len() > 0
    } else if b.len() == 0 {
        false
    } else if (a[0] as int) < (b[0] as int) {
        true
    } else if a[0] == b[0] {
        text_lt(a.skip(1), b.skip(1))
    } else {
        false
    }
}

/// Strictly increasing, hence without repeats.
pub open spec fn sorted_strict(s: Seq<Seq<char>>) -> bool {
    forall|i: int, j: int| 0 <= i < j < s.len() ==> text_lt(#[trigger] s[i], #[trigger] s[j])
}

proof fn lemma_text_lt_irrefl(a: Seq<char>)
    ensures
        !text_lt(a, a),
    decreases a.len(),
{
    if a.len() > 0 {
        lemma_text_lt_irrefl(a.skip(1));
    }
}

proof fn lemma_text_lt_total(a: Seq<char>, b: Seq<char>)
    ensures
        a != b ==> text_lt(a, b) || text_lt(b, a),
        !(text_lt(a, b) && text_lt(b, a)),
    decreases a.len(),
{
    if a.len() > 0 && b.len() > 0 {
        lemma_text_lt_total(a.skip(1), b.skip(1));
        if a[0] == b[0] && a != b {
            assert(a =~= seq![a[0]] + a.skip(1));
            assert(b =~= seq![b[0]] + b.skip(1));
        }
        if a[0] != b[0] {
            assert((a[0] as int) != (b[0] as int));
        }
    } else if a.len() == 0 && b.len() == 0 {
        assert(a =~= b);
    }
}

proof fn lemma_text_lt_trans(a: Seq<char>, b: Seq<char>, c: Seq<char>)
    requires
        text_lt(a, b),
        text_lt(b, c),
    ensures
        text_lt(a, c),
    decreases a.len(),
{
    if a.len() > 0 && b.len() > 0 && c.len() > 0 {
        if a[0] == b[0] && b[0] == c[0] {
            lemma_text_lt_trans(a.skip(1), b.skip(1), c.skip(1));
        }
    }
}

fn text_less_from(a: &[char], b: &[char], i: usize) -> (r: bool)
    requires
        i <= a@.len(),
        i <= b@.len(),
    ensures
        r == text_lt(a@.skip(i as int), b@.skip(i as int)),
    decreases a@.len() - i,
{
    if i == a.len() {
        return i < b.len();
    }
    if i == b.len() {
        return false;
    }
    let x = a[i];
    let y = b[i];
    assert(a@.skip(i as int)[0] == x);
    assert(b@.skip(i as int)[0] == y);
    if x < y {
        true
    } else if x == y {
        assert(a@.skip(i as int).skip(1) =~= a@.skip(i + 1));
        assert(b@.skip(i as int).skip(1) =~= b@.skip(i + 1));
        text_less_from(a, b, i + 1)
    } else {
        false
    }
}

/// Whether `a` sorts before `b` (see [`text_lt`]).
fn text_less(a: &String, b: &String) -> (r: bool)
    ensures
        r == text_lt(a@, b@),
{
    let x = chars_of(a.as_str());
    let y = chars_of(b.as_str());
    assert(x@.skip(0) =~= x@);
    assert(y@.skip(0) =~= y@);
    text_less_from(x.as_slice(), y.as_slice(), 0)
}

/// Adds `x` to a sorted list of names unless it is already there.
fn insert_sorted(v: &mut Vec<String>, x: &String)
    requires
        sorted_strict(views_of(old(v)@)),
    ensures
        sorted_strict(views_of(final(v)@)),
        forall|s: Seq<char>| #[trigger]
            views_of(final(v)@).contains(s) <==> (views_of(old(v)@).contains(s) || s == x@),
{
    let ghost old_v = views_of(v@);
    let mut p: usize = 0;
    while p < v.len()
        invariant
            p <= v@.len(),
            old_v == views_of(v@),
            sorted_strict(old_v),
            forall|j: int| 0 <= j < p ==> text_lt(#[trigger] old_v[j], x@),
        ensures
            p <= v@.len(),
            p == v@.len() || !text_lt(old_v[p as int], x@),
            forall|j: int| 0 <= j < p ==> text_lt(#[trigger] old_v[j], x@),
        decreases v.len() - p,
    {
        assert(old_v[p as int] == v@[p as int]@);
        if !text_less(&v[p], x) {
            break;
        }
        p = p + 1;
    }
    if p < v.len() && str_is(v[p].as_str(), x.as_str()) {
        assert(old_v[p as int] == x@);
        return;
    }
    proof {
        if p < v@.len() {
            assert(old_v[p as int] == v@[p as int]@);
            lemma_text_lt_total(old_v[p as int], x@);
            assert(text_lt(x@, old_v[p as int]));
        }
    }
    v.insert(p, copy_str(x));
    let ghost nv = views_of(v@);
    assert(nv =~= old_v.insert(p as int, x@));
    assert forall|i: int, j: int| 0 <= i < j < nv.len() implies text_lt(#[trigger] nv[i], #[trigger] nv[j]) by {
        if j < p {
        } else if j == p {
        } else if i < p {
            if p < j - 1 {
                lemma_text_lt_trans(x@, old_v[p as int], old_v[j - 1]);
            }
            lemma_text_lt_trans(old_v[i], x@, old_v[j - 1]);
        } else if i == p {
            if p < j - 1 {
                lemma_text_lt_trans(x@, old_v[p as int], old_v[j - 1]);
            }
        } else {
        }
    }
    assert forall|s: Seq<char>| #[trigger] nv.contains(s) <==> (old_v.contains(s) || s == x@) by {
        if nv.contains(s) {
            let k = choose|k: int| 0 <= k < nv.len() && nv[k] == s;
            if k < p {
                assert(old_v[k] == s);
            } else if k > p {
                assert(old_v[k - 1] == s);
            }
        }
        if old_v.contains(s) {
            let k = choose|k: int| 0 <= k < old_v.len() && old_v[k] == s;
            if k < p {
                assert(nv[k] == s);
            } else {
                assert(nv[k + 1] == s);
            }
        }
        if s == x@ {
            assert(nv[p as int] == s);
        }
    }
}

/// `names` lists, sorted and once each, the entries of `xs` that are not
/// among `known`.
pub open spec fn lists_missing(names: Seq<Seq<char>>, xs: Seq<Seq<char>>, known: Seq<Seq<char>>) -> bool {
    &&& sorted_strict(names)
    &&& forall|s: Seq<char>| #[trigger] names.contains(s) <==> (xs.contains(s) && !known.contains(s))
}

/// The entries of `xs` not among `known`, sorted, once each.
fn names_not_in(xs: &Vec<String>, known: &Vec<String>) -> (r: Vec<String>)
    ensures
        lists_missing(views_of(r@), views_of(xs@), views_of(known@)),
{
    let ghost xv = views_of(xs@);
    let ghost kv = views_of(known@);
    let mut out: Vec<String> = Vec::new();
    let mut i: usize = 0;
    while i < xs.len()
        invariant
            i <= xs@.len(),
            xv == views_of(xs@),
            kv == views_of(known@),
            sorted_strict(views_of(out@)),
            forall|s: Seq<char>| #[trigger]
                views_of(out@).contains(s) <==> (xv.take(i as int).contains(s) && !kv.contains(s)),
        decreases xs.len() - i,
    {
        let ghost before = views_of(out@);
        assert(xv[i as int] == xs@[i as int]@);
        if !name_used(known, &xs[i]) {
            insert_sorted(&mut out, &xs[i]);
        }
        assert forall|s: Seq<char>| #[trigger]
            views_of(out@).contains(s) <==> (xv.take(i + 1).contains(s) && !kv.contains(s)) by {
            if xv.take(i + 1).contains(s) {
                let t = xv.take(i + 1);
                let k = choose|k: int| 0 <= k < t.len() && t[k] == s;
                if k < i {
                    assert(xv.take(i as int)[k] == s);
                }
            }
            if xv.take(i as int).contains(s) {
                let t = xv.take(i as int);
                let k = choose|k: int| 0 <= k < t.len() && t[k] == s;
                assert(xv.take(i + 1)[k] == s);
            }
            assert(xv.take(i + 1)[i as int] == xv[i as int]);
        }
        i = i + 1;
    }
    assert(xv.take(xs@.len() as int) =~= xv);
    out
}

// ───────────────────────── errors ─────────────────────────

/// Why a workbook could not be written or read back.
#[derive(Clone, Debug)]
pub enum ExcelError {
    /// An empty list of nodes to write (to write all, give no list).
    EmptyOnly,
    /// Listed nodes that the group does not have, sorted.
    UnknownNodes { group: String, names: Vec<String> },
    /// Sheets that name no node of the group, sorted.
    UnmatchedSheets { group: String, names: Vec<String> },
    /// Nodes of the group without a sheet, sorted.
    MissingSheets { group: String, names: Vec<String> },
    /// A sheet with fewer rows than its header needs.
    TooFewRows { sheet: String, rows: usize, needed: usize },
    /// A sheet with another number of columns than its node.
    ColumnCount { sheet: String, found: usize, expected: usize },
    /// A header cell that differs from the node's definition: row and
    /// column (0-based), the cell and what was expected.
    HeaderMismatch { sheet: String, row: usize, col: usize, found: String, expected: String },
    /// The spreadsheet writer refused the workbook.
    Xlsx(String),
}

fn join_names(names: &Vec<String>) -> (r: String)
    ensures
        r@ == join_with(views_of(names@), ", "@),
{
    join_with_strings(names, ", ")
}

fn count_text(n: usize) -> (r: String)
    ensures
        r@ == decimal(n as nat),
{
    decimal_string(n as u64)
}

/// Text of an error for users (see [`ExcelError::message`]).
pub open spec fn spec_excel_message(e: ExcelErrorView) -> Seq<char> {
    match e {
        ExcelErrorView::EmptyOnly => "excel: 节点列表不能为空 Some(&[])，要表示\u{22}全部\u{22}请用 None"@,
        ExcelErrorView::UnknownNodes { group, names } => "excel: 节点列表包含不属于分组 '"@ + group
            + "' 的节点: "@ + join_with(names, ", "@),
        ExcelErrorView::UnmatchedSheets { group, names } => "xlsx 含未匹配 sheet（不属于分组 '"@ + group
            + "' 的任何节点）: "@ + join_with(names, ", "@),
        ExcelErrorView::MissingSheets { group, names } => "xlsx 缺少分组 '"@ + group
            + "' 内节点对应的 sheet: "@ + join_with(names, ", "@),
        ExcelErrorView::TooFewRows { sheet, rows, needed } => "sheet '"@ + sheet + "' 行数 "@
            + decimal(rows as nat) + " < "@ + decimal(needed as nat) + "，缺表头"@,
        ExcelErrorView::ColumnCount { sheet, found, expected } => "sheet '"@ + sheet + "' 列数 "@
            + decimal(found as nat) + " ≠ "@ + decimal(expected as nat),
        ExcelErrorView::HeaderMismatch { sheet, row, col, found, expected } => "sheet '"@ + sheet
            + "' 表头第 "@ + decimal(row as nat) + " 行第 "@ + decimal(col as nat) + " 列 '"@ + found
            + "' ≠ '"@ + expected + "'"@,
        ExcelErrorView::Xlsx(m) => "xlsx: "@ + m,
    }
}

impl ExcelError {
    /// Text of the error for users.
    pub fn message(&self) -> (r: String)
        ensures
            r@ == spec_excel_message(self@),
    {
        match self {
            ExcelError::EmptyOnly => String::from_str(
                "excel: 节点列表不能为空 Some(&[])，要表示\u{22}全部\u{22}请用 None",
            ),
            ExcelError::UnknownNodes { group, names } => String::from_str("excel: 节点列表包含不属于分组 '")
                .concat(group.as_str()).concat("' 的节点: ").concat(join_names(names).as_str()),
            ExcelError::UnmatchedSheets { group, names } => String::from_str(
                "xlsx 含未匹配 sheet（不属于分组 '",
            ).concat(group.as_str()).concat("' 的任何节点）: ").concat(join_names(names).as_str()),
            ExcelError::MissingSheets { group, names } => String::from_str("xlsx 缺少分组 '").concat(
                group.as_str(),
            ).concat("' 内节点对应的 sheet: ").concat(join_names(names).as_str()),
            ExcelError::TooFewRows { sheet, rows, needed } => String::from_str("sheet '").concat(
                sheet.as_str(),
            ).concat("' 行数 ").concat(count_text(*rows).as_str()).concat(" < ").concat(
                count_text(*needed).as_str(),
            ).concat("，缺表头"),
            ExcelError::ColumnCount { sheet, found, expected } => String::from_str("sheet '").concat(
                sheet.as_str(),
            ).concat("' 列数 ").concat(count_text(*found).as_str()).concat(" ≠ ").concat(
                count_text(*expected).as_str(),
            ),
            ExcelError::HeaderMismatch { sheet, row, col, found, expected } => String::from_str(
                "sheet '",
            ).concat(sheet.as_str()).concat("' 表头第 ").concat(count_text(*row).as_str()).concat(
                " 行第 ",
            ).concat(count_text(*col).as_str()).concat(" 列 '").concat(found.as_str()).concat(
                "' ≠ '",
            ).concat(expected.as_str()).concat("'"),
            ExcelError::Xlsx(m) => String::from_str("xlsx: ").concat(m.as_str()),
        }
    }
}

// ───────────────────────── which sheets ─────────────────────────

/// A node of a group by its position in the group's list of its kind.
#[derive(Clone, Copy, Debug, PartialEq, Eq, Structural)]
pub enum NodeRef {
    Table(usize),
    Constant(usize),
    Enum(usize),
}

pub open spec fn constant_names(cs: Seq<ConstantView>) -> Seq<Seq<char>> {
    cs.map_values(|c: ConstantView| c.name)
}

pub open spec fn enum_names(es: Seq<EnumDefView>) -> Seq<Seq<char>> {
    es.map_values(|e: EnumDefView| e.name)
}

pub open spec fn strs_view(xs: Seq<&str>) -> Seq<Seq<char>> {
    xs.map_values(|x: &str| x@)
}

/// Names of all nodes of a group: tables, constants, enums.
pub open spec fn node_names(g: GroupView) -> Seq<Seq<char>> {
    table_names(g.tables) + constant_names(g.constants) + enum_names(g.enums)
}

/// Whether a node named `name` is written, given the list of nodes to write.
pub open spec fn is_wanted(only: Option<Seq<Seq<char>>>, name: Seq<char>) -> bool {
    match only {
        None => true,
        Some(xs) => xs.contains(name),
    }
}

pub open spec fn wanted_tables(ts: Seq<TableView>, only: Option<Seq<Seq<char>>>) -> Seq<(Seq<char>, NodeRef)>
    decreases ts.len(),
{
    if ts.len() == 0 {
        seq![]
    } else {
        wanted_tables(ts.drop_last(), only) + if is_wanted(only, ts.last().name) {
            seq![(ts.last().name, NodeRef::Table((ts.len() - 1) as usize))]
        } else {
            seq![]
        }
    }
}

pub open spec fn wanted_constants(cs: Seq<ConstantView>, only: Option<Seq<Seq<char>>>) -> Seq<
    (Seq<char>, NodeRef),
>
    decreases cs.len(),
{
    if cs.len() == 0 {
        seq![]
    } else {
        wanted_constants(cs.drop_last(), only) + if is_wanted(only, cs.last().name) {
            seq![(cs.last().name, NodeRef::Constant((cs.len() - 1) as usize))]
        } else {
            seq![]
        }
    }
}

pub open spec fn wanted_enums(es: Seq<EnumDefView>, only: Option<Seq<Seq<char>>>) -> Seq<(Seq<char>, NodeRef)>
    decreases es.len(),
{
    if es.len() == 0 {
        seq![]
    } else {
        wanted_enums(es.drop_last(), only) + if is_wanted(only, es.last().name) {
            seq![(es.last().name, NodeRef::Enum((es.len() - 1) as usize))]
        } else {
            seq![]
        }
    }
}

/// Nodes written, in the group's order: tables, then constants, then enums.
pub open spec fn wanted_nodes(g: GroupView, only: Option<Seq<Seq<char>>>) -> Seq<(Seq<char>, NodeRef)> {
    wanted_tables(g.tables, only) + wanted_constants(g.constants, only) + wanted_enums(
        g.enums,
        only,
    )
}

/// Sheet names given to the first `k` nodes, and the names then in use.
pub open spec fn named_sheets(nodes: Seq<(Seq<char>, NodeRef)>, k: int) -> (Seq<(Seq<char>, NodeRef)>, Seq<
    Seq<char>,
>)
    decreases k,
{
    if k <= 0 {
        (seq![], seq![])
    } else {
        let (out, used) = named_sheets(nodes, k - 1);
        let (nm, ins) = spec_unique_sheet_name(nodes[k - 1].0, used);
        (out.push((nm, nodes[k - 1].1)), if ins { used.push(nm) } else { used })
    }
}

/// The sheets of a group's workbook: each wanted node with its sheet name.
pub open spec fn book_sheets(g: GroupView, only: Option<Seq<Seq<char>>>) -> Seq<(Seq<char>, NodeRef)> {
    let nodes = wanted_nodes(g, only);
    named_sheets(nodes, nodes.len() as int).0
}

proof fn lemma_wanted_same(g: GroupView, a: Seq<Seq<char>>, b: Seq<Seq<char>>, nt: int, nc: int, ne: int)
    requires
        forall|x: Seq<char>| a.contains(x) <==> b.contains(x),
        0 <= nt <= g.tables.len(),
        0 <= nc <= g.constants.len(),
        0 <= ne <= g.enums.len(),
    ensures
        wanted_tables(g.tables.take(nt), Some(a)) == wanted_tables(g.tables.take(nt), Some(b)),
        wanted_constants(g.constants.take(nc), Some(a)) == wanted_constants(g.constants.take(nc), Some(b)),
        wanted_enums(g.enums.take(ne), Some(a)) == wanted_enums(g.enums.take(ne), Some(b)),
    decreases nt + nc + ne,
{
    if nt > 0 {
        lemma_wanted_same(g, a, b, nt - 1, nc, ne);
        assert(g.tables.take(nt).drop_last() =~= g.tables.take(nt - 1));
        assert(is_wanted(Some(a), g.tables.take(nt).last().name) == is_wanted(Some(b), g.tables.take(nt).last().name));
    }
    if nc > 0 {
        lemma_wanted_same(g, a, b, nt, nc - 1, ne);
        assert(g.constants.take(nc).drop_last() =~= g.constants.take(nc - 1));
        assert(is_wanted(Some(a), g.constants.take(nc).last().name) == is_wanted(
            Some(b),
            g.constants.take(nc).last().name,
        ));
    }
    if ne > 0 {
        lemma_wanted_same(g, a, b, nt, nc, ne - 1);
        assert(g.enums.take(ne).drop_last() =~= g.enums.take(ne - 1));
        assert(is_wanted(Some(a), g.enums.take(ne).last().name) == is_wanted(Some(b), g.enums.take(ne).last().name));
    }
}

/// The sheets of a group's workbook depend on which nodes are listed, not
/// on the order or repetition of the list.
pub proof fn law_book_sheets_ignore_list_order(g: GroupView, a: Seq<Seq<char>>, b: Seq<Seq<char>>)
    requires
        forall|x: Seq<char>| a.contains(x) <==> b.contains(x),
    ensures
        book_sheets(g, Some(a)) == book_sheets(g, Some(b)),
{
    lemma_wanted_same(g, a, b, g.tables.len() as int, g.constants.len() as int, g.enums.len() as int);
    assert(g.tables.take(g.tables.len() as int) =~= g.tables);
    assert(g.constants.take(g.constants.len() as int) =~= g.constants);
    assert(g.enums.take(g.enums.len() as int) =~= g.enums);
    assert(wanted_nodes(g, Some(a)) == wanted_nodes(g, Some(b)));
}

pub open spec fn sheet_list_view(v: Seq<(String, NodeRef)>) -> Seq<(Seq<char>, NodeRef)> {
    v.map_values(|e: (String, NodeRef)| (e.0@, e.1))
}

pub open spec fn only_view(only: Option<&[&str]>) -> Option<Seq<Seq<char>>> {
    match only {
        None => None,
        Some(xs) => Some(strs_view(xs@)),
    }
}

fn group_node_names(group: &Group) -> (r: Vec<String>)
    ensures
        views_of(r@) == node_names(group@),
{
    let ghost tn = table_names(group@.tables);
    let ghost cn = constant_names(group@.constants);
    let ghost en = enum_names(group@.enums);
    let mut out: Vec<String> = Vec::new();
    let mut i: usize = 0;
    while i < group.tables.len()
        invariant
            i <= group.tables@.len(),
            tn == table_names(group@.tables),
            views_of(out@) == tn.take(i as int),
        decreases group.tables.len() - i,
    {
        assert(tn[i as int] == group.tables@[i as int].name@);
        let ghost prev = views_of(out@);
        out.push(copy_str(&group.tables[i].name));
        assert(views_of(out@) =~= prev.push(tn[i as int]));
        assert(tn.take(i + 1) =~= tn.take(i as int).push(tn[i as int]));
        i = i + 1;
    }
    assert(tn.take(i as int) =~= tn);
    let mut j: usize = 0;
    while j < group.constants.len()
        invariant
            j <= group.constants@.len(),
            cn == constant_names(group@.constants),
            views_of(out@) == tn + cn.take(j as int),
        decreases group.constants.len() - j,
    {
        assert(cn[j as int] == group.constants@[j as int].name@);
        let ghost prev = views_of(out@);
        out.push(copy_str(&group.constants[j].name));
        assert(views_of(out@) =~= prev.push(cn[j as int]));
        assert(tn + cn.take(j + 1) =~= (tn + cn.take(j as int)).push(cn[j as int]));
        j = j + 1;
    }
    assert(cn.take(j as int) =~= cn);
    let mut k: usize = 0;
    while k < group.enums.len()
        invariant
            k <= group.enums@.len(),
            en == enum_names(group@.enums),
            views_of(out@) == tn + cn + en.take(k as int),
        decreases group.enums.len() - k,
    {
        assert(en[k as int] == group.enums@[k as int].name@);
        let ghost prev = views_of(out@);
        out.push(copy_str(&group.enums[k].name));
        assert(views_of(out@) =~= prev.push(en[k as int]));
        assert(tn + cn + en.take(k + 1) =~= (tn + cn + en.take(k as int)).push(en[k as int]));
        k = k + 1;
    }
    assert(en.take(k as int) =~= en);
    out
}

fn only_strings(xs: &[&str]) -> (r: Vec<String>)
    ensures
        views_of(r@) == strs_view(xs@),
{
    let ghost w = strs_view(xs@);
    let mut out: Vec<String> = Vec::new();
    let mut i: usize = 0;
    while i < xs.len()
        invariant
            i <= xs@.len(),
            w == strs_view(xs@),
            views_of(out@) == w.take(i as int),
        decreases xs.len() - i,
    {
        let ghost prev = views_of(out@);
        out.push(String::from_str(xs[i]));
        assert(views_of(out@) =~= prev.push(w[i as int]));
        assert(w.take(i + 1) =~= w.take(i as int).push(w[i as int]));
        i = i + 1;
    }
    assert(w.take(i as int) =~= w);
    out
}

proof fn lemma_named_sheets_prefix(s1: Seq<(Seq<char>, NodeRef)>, s2: Seq<(Seq<char>, NodeRef)>, k: int)
    requires
        0 <= k <= s1.len(),
        s1.len() <= s2.len(),
        forall|i: int| 0 <= i < s1.len() ==> s1[i] == s2[i],
    ensures
        named_sheets(s1, k) == named_sheets(s2, k),
    decreases k,
{
    if k > 0 {
        lemma_named_sheets_prefix(s1, s2, k - 1);
    }
}

/// Gives the next wanted node its sheet name and records it.
fn push_named(
    out: &mut Vec<(String, NodeRef)>,
    used: &mut Vec<String>,
    raw: &String,
    node: NodeRef,
    Ghost(cur): Ghost<Seq<(Seq<char>, NodeRef)>>,
)
    requires
        sheet_list_view(old(out)@) == named_sheets(cur, cur.len() as int).0,
        views_of(old(used)@) == named_sheets(cur, cur.len() as int).1,
    ensures
        sheet_list_view(final(out)@) == named_sheets(cur.push((raw@, node)), (cur.len() + 1) as int).0,
        views_of(final(used)@) == named_sheets(cur.push((raw@, node)), (cur.len() + 1) as int).1,
{
    let ghost nxt = cur.push((raw@, node));
    proof {
        lemma_named_sheets_prefix(cur, nxt, cur.len() as int);
    }
    let nm = unique_sheet_name(raw.as_str(), used);
    let ghost prev = sheet_list_view(out@);
    out.push((nm, node));
    assert(sheet_list_view(out@) =~= prev.push((nm@, node)));
}

pub open spec fn only_is_empty(only: Option<Seq<Seq<char>>>) -> bool {
    match only {
        Some(xs) => xs.len() == 0,
        None => false,
    }
}

/// Every listed node exists in the group.
pub open spec fn all_known(only: Option<Seq<Seq<char>>>, names: Seq<Seq<char>>) -> bool {
    match only {
        Some(xs) => forall|s: Seq<char>| #[trigger] xs.contains(s) ==> names.contains(s),
        None => true,
    }
}

fn wanted_exec(want: &Option<Vec<String>>, name: &String) -> (r: bool)
    ensures
        r == is_wanted(
            match want {
                Some(v) => Some(views_of(v@)),
                None => None,
            },
            name@,
        ),
{
    match want {
        None => true,
        Some(v) => name_used(v, name),
    }
}

/// The sheets of a group's workbook, each a node with its sheet name (see
/// [`book_sheets`]); or, with a list of nodes to write, the error when the
/// list is empty or names nodes the group lacks (those listed sorted).
pub fn group_book_sheets(group: &Group, only: Option<&[&str]>) -> (r: Result<Vec<(String, NodeRef)>, ExcelError>)
    ensures
        match r {
            Err(ExcelError::EmptyOnly) => only_is_empty(only_view(only)),
            Err(ExcelError::UnknownNodes { group: g, names }) => {
                &&& !only_is_empty(only_view(only))
                &&& !all_known(only_view(only), node_names(group@))
                &&& g@ == group@.name
                &&& only_view(only) is Some
                &&& lists_missing(views_of(names@), only_view(only).unwrap(), node_names(group@))
            },
            Err(_) => false,
            Ok(v) => {
                &&& !only_is_empty(only_view(only))
                &&& all_known(only_view(only), node_names(group@))
                &&& sheet_list_view(v@) == book_sheets(group@, only_view(only))
            },
        },
{
    let ghost ov = only_view(only);
    let want: Option<Vec<String>> = match only {
        None => None,
        Some(xs) => {
            if xs.len() == 0 {
                return Err(ExcelError::EmptyOnly);
            }
            let w = only_strings(xs);
            let known = group_node_names(group);
            let miss = names_not_in(&w, &known);
            if miss.len() > 0 {
                proof {
                    let s0 = views_of(miss@)[0];
                    assert(views_of(miss@).contains(s0));
                }
                return Err(ExcelError::UnknownNodes { group: copy_str(&group.name), names: miss });
            }
            proof {
                assert forall|s: Seq<char>| #[trigger] strs_view(xs@).contains(s) implies node_names(
                    group@,
                ).contains(s) by {
                    if !node_names(group@).contains(s) {
                        assert(views_of(miss@).contains(s));
                    }
                }
            }
            Some(w)
        },
    };
    assert(match want {
        Some(v) => Some(views_of(v@)),
        None => None,
    } == ov);
    let ghost g = group@;
    let mut out: Vec<(String, NodeRef)> = Vec::new();
    let mut used: Vec<String> = Vec::new();
    let ghost mut cur: Seq<(Seq<char>, NodeRef)> = seq![];
    let mut i: usize = 0;
    while i < group.tables.len()
        invariant
            i <= group.tables@.len(),
            g == group@,
            ov == (match want {
                Some(v) => Some(views_of(v@)),
                None => None,
            }),
            cur == wanted_tables(g.tables.take(i as int), ov),
            sheet_list_view(out@) == named_sheets(cur, cur.len() as int).0,
            views_of(used@) == named_sheets(cur, cur.len() as int).1,
        decreases group.tables.len() - i,
    {
        assert(g.tables.take(i + 1).drop_last() =~= g.tables.take(i as int));
        assert(g.tables.take(i + 1).last() == group.tables@[i as int]@);
        if wanted_exec(&want, &group.tables[i].name) {
            push_named(&mut out, &mut used, &group.tables[i].name, NodeRef::Table(i), Ghost(cur));
            proof {
                cur = cur.push((group.tables@[i as int].name@, NodeRef::Table(i)));
            }
        }
        proof {
            assert(cur =~= wanted_tables(g.tables.take(i + 1), ov));
        }
        i = i + 1;
    }
    assert(g.tables.take(i as int) =~= g.tables);
    let ghost wt = cur;
    let mut j: usize = 0;
    while j < group.constants.len()
        invariant
            j <= group.constants@.len(),
            g == group@,
            ov == (match want {
                Some(v) => Some(views_of(v@)),
                None => None,
            }),
            wt == wanted_tables(g.tables, ov),
            cur == wt + wanted_constants(g.constants.take(j as int), ov),
            sheet_list_view(out@) == named_sheets(cur, cur.len() as int).0,
            views_of(used@) == named_sheets(cur, cur.len() as int).1,
        decreases group.constants.len() - j,
    {
        assert(g.constants.take(j + 1).drop_last() =~= g.constants.take(j as int));
        assert(g.constants.take(j + 1).last() == group.constants@[j as int]@);
        if wanted_exec(&want, &group.constants[j].name) {
            push_named(&mut out, &mut used, &group.constants[j].name, NodeRef::Constant(j), Ghost(cur));
            proof {
                cur = cur.push((group.constants@[j as int].name@, NodeRef::Constant(j)));
            }
        }
        proof {
            assert(cur =~= wt + wanted_constants(g.constants.take(j + 1), ov));
        }
        j = j + 1;
    }
    assert(g.constants.take(j as int) =~= g.constants);
    let ghost wc = cur;
    let mut k: usize = 0;
    while k < group.enums.len()
        invariant
            k <= group.enums@.len(),
            g == group@,
            ov == (match want {
                Some(v) => Some(views_of(v@)),
                None => None,
            }),
            wc == wanted_tables(g.tables, ov) + wanted_constants(g.constants, ov),
            cur == wc + wanted_enums(g.enums.take(k as int), ov),
            sheet_list_view(out@) == named_sheets(cur, cur.len() as int).0,
            views_of(used@) == named_sheets(cur, cur.len() as int).1,
        decreases group.enums.len() - k,
    {
        assert(g.enums.take(k + 1).drop_last() =~= g.enums.take(k as int));
        assert(g.enums.take(k + 1).last() == group.enums@[k as int]@);
        if wanted_exec(&want, &group.enums[k].name) {
            push_named(&mut out, &mut used, &group.enums[k].name, NodeRef::Enum(k), Ghost(cur));
            proof {
                cur = cur.push((group.enums@[k as int].name@, NodeRef::Enum(k)));
            }
        }
        proof {
            assert(cur =~= wc + wanted_enums(g.enums.take(k + 1), ov));
        }
        k = k + 1;
    }
    assert(g.enums.take(k as int) =~= g.enums);
    assert(cur =~= wanted_nodes(g, ov));
    Ok(out)
}

// ───────────────────────── reading back ─────────────────────────

pub enum ExcelErrorView {
    EmptyOnly,
    UnknownNodes { group: Seq<char>, names: Seq<Seq<char>> },
    UnmatchedSheets { group: Seq<char>, names: Seq<Seq<char>> },
    MissingSheets { group: Seq<char>, names: Seq<Seq<char>> },
    TooFewRows { sheet: Seq<char>, rows: int, needed: int },
    ColumnCount { sheet: Seq<char>, found: int, expected: int },
    HeaderMismatch { sheet: Seq<char>, row: int, col: int, found: Seq<char>, expected: Seq<char> },
    Xlsx(Seq<char>),
}

impl View for ExcelError {
    type V = ExcelErrorView;

    open spec fn view(&self) -> ExcelErrorView {
        match self {
            ExcelError::EmptyOnly => ExcelErrorView::EmptyOnly,
            ExcelError::UnknownNodes { group, names } => ExcelErrorView::UnknownNodes {
                group: group@,
                names: views_of(names@),
            },
            ExcelError::UnmatchedSheets { group, names } => ExcelErrorView::UnmatchedSheets {
                group: group@,
                names: views_of(names@),
            },
            ExcelError::MissingSheets { group, names } => ExcelErrorView::MissingSheets {
                group: group@,
                names: views_of(names@),
            },
            ExcelError::TooFewRows { sheet, rows, needed } => ExcelErrorView::TooFewRows {
                sheet: sheet@,
                rows: *rows as int,
                needed: *needed as int,
            },
            ExcelError::ColumnCount { sheet, found, expected } => ExcelErrorView::ColumnCount {
                sheet: sheet@,
                found: *found as int,
                expected: *expected as int,
            },
            ExcelError::HeaderMismatch { sheet, row, col, found, expected } => ExcelErrorView::HeaderMismatch {
                sheet: sheet@,
                row: *row as int,
                col: *col as int,
                found: found@,
                expected: expected@,
            },
            ExcelError::Xlsx(m) => ExcelErrorView::Xlsx(m@),
        }
    }
}

/// A sheet of a workbook as cell texts: its name, its width in columns,
/// and its rows from the first.
#[derive(Clone, Debug)]
pub struct SheetGrid {
    pub name: String,
    pub width: usize,
    pub rows: Vec<Vec<String>>,
}

pub struct SheetGridView {
    pub name: Seq<char>,
    pub width: int,
    pub rows: Seq<Seq<Seq<char>>>,
}

impl View for SheetGrid {
    type V = SheetGridView;

    open spec fn view(&self) -> SheetGridView {
        SheetGridView { name: self.name@, width: self.width as int, rows: records_view(self.rows@) }
    }
}

/// Cell `c` of a row; empty past its end.
pub open spec fn cell_of(row: Seq<Seq<char>>, c: int) -> Seq<char> {
    if 0 <= c < row.len() {
        row[c]
    } else {
        Seq::<char>::empty()
    }
}

/// Cell at row `r`, column `c`; empty outside the grid.
pub open spec fn grid_cell(rows: Seq<Seq<Seq<char>>>, r: int, c: int) -> Seq<char> {
    if 0 <= r < rows.len() {
        cell_of(rows[r], c)
    } else {
        Seq::<char>::empty()
    }
}

pub open spec fn row_is_empty(row: Seq<Seq<char>>) -> bool {
    forall|i: int| 0 <= i < row.len() ==> (#[trigger] row[i]).len() == 0
}

/// The first `n` cells of a row.
pub open spec fn row_cells(row: Seq<Seq<char>>, n: int) -> Seq<Seq<char>> {
    Seq::new(n as nat, |c: int| cell_of(row, c))
}

/// The non-empty rows, each cut to `n` cells.
pub open spec fn kept_rows(rows: Seq<Seq<Seq<char>>>, n: int) -> Seq<Seq<Seq<char>>>
    decreases rows.len(),
{
    if rows.len() == 0 {
        seq![]
    } else {
        kept_rows(rows.drop_last(), n) + if row_is_empty(rows.last()) {
            seq![]
        } else {
            seq![row_cells(rows.last(), n)]
        }
    }
}

/// The header text expected in row `r` (0..4) of a field's column.
pub open spec fn table_header_text(f: FieldDefView, r: int) -> Seq<char> {
    if r == 0 {
        f.desc
    } else if r == 1 {
        f.export.spec_display()
    } else if r == 2 {
        f.tbl_type
    } else {
        f.name
    }
}

/// First header row of column `c` that differs from the field.
pub open spec fn bad_header_row(rows: Seq<Seq<Seq<char>>>, f: FieldDefView, c: int) -> Option<int> {
    if grid_cell(rows, 0, c) != table_header_text(f, 0) {
        Some(0)
    } else if grid_cell(rows, 1, c) != table_header_text(f, 1) {
        Some(1)
    } else if grid_cell(rows, 2, c) != table_header_text(f, 2) {
        Some(2)
    } else if grid_cell(rows, 3, c) != table_header_text(f, 3) {
        Some(3)
    } else {
        None
    }
}

/// First differing header cell (row, column), columns from `c` on.
pub open spec fn bad_table_header(rows: Seq<Seq<Seq<char>>>, fields: Seq<FieldDefView>, c: int) -> Option<
    (int, int),
>
    decreases fields.len() - c,
{
    if c < 0 || c >= fields.len() {
        None
    } else {
        match bad_header_row(rows, fields[c], c) {
            Some(r) => Some((r, c)),
            None => bad_table_header(rows, fields, c + 1),
        }
    }
}

/// A table sheet read back: four header rows that must match the table's
/// columns cell by cell, as many columns as the table has, then the
/// non-empty rows as records.
pub open spec fn spec_parse_table_sheet(grid: SheetGridView, t: TableView) -> Result<
    Seq<Seq<Seq<char>>>,
    ExcelErrorView,
> {
    let n = t.fields.len() as int;
    if grid.rows.len() < 4 {
        Err(ExcelErrorView::TooFewRows { sheet: t.name, rows: grid.rows.len() as int, needed: 4 })
    } else if grid.width != n {
        Err(ExcelErrorView::ColumnCount { sheet: t.name, found: grid.width, expected: n })
    } else {
        match bad_table_header(grid.rows, t.fields, 0) {
            Some((r, c)) => Err(
                ExcelErrorView::HeaderMismatch {
                    sheet: t.name,
                    row: r,
                    col: c,
                    found: grid_cell(grid.rows, r, c),
                    expected: table_header_text(t.fields[c], r),
                },
            ),
            None => Ok(kept_rows(grid.rows.skip(4), n)),
        }
    }
}

fn cell_text(row: &Vec<String>, c: usize) -> (r: String)
    ensures
        r@ == cell_of(views_of(row@), c as int),
{
    if c < row.len() {
        copy_str(&row[c])
    } else {
        String::new()
    }
}

fn grid_text(rows: &Vec<Vec<String>>, r: usize, c: usize) -> (s: String)
    ensures
        s@ == grid_cell(records_view(rows@), r as int, c as int),
{
    if r < rows.len() {
        cell_text(&rows[r], c)
    } else {
        String::new()
    }
}

fn is_blank_row(row: &Vec<String>) -> (r: bool)
    ensures
        r == row_is_empty(views_of(row@)),
{
    let mut i: usize = 0;
    while i < row.len()
        invariant
            i <= row@.len(),
            forall|j: int| 0 <= j < i ==> row@[j]@.len() == 0,
        decreases row.len() - i,
    {
        if chars_of(row[i].as_str()).len() > 0 {
            assert(views_of(row@)[i as int] == row@[i as int]@);
            return false;
        }
        i = i + 1;
    }
    assert forall|j: int| 0 <= j < views_of(row@).len() implies (#[trigger] views_of(row@)[j]).len()
        == 0 by {
        assert(views_of(row@)[j] == row@[j]@);
    }
    true
}

fn first_cells(row: &Vec<String>, n: usize) -> (r: Vec<String>)
    ensures
        views_of(r@) == row_cells(views_of(row@), n as int),
{
    let mut out: Vec<String> = Vec::new();
    let mut c: usize = 0;
    while c < n
        invariant
            c <= n,
            out@.len() == c,
            forall|j: int| 0 <= j < c ==> out@[j]@ == cell_of(views_of(row@), j),
        decreases n - c,
    {
        out.push(cell_text(row, c));
        c = c + 1;
    }
    assert(views_of(out@) =~= row_cells(views_of(row@), n as int));
    out
}

/// Records of the non-empty rows from row `from` on, each cut to `n` cells.
fn data_rows(rows: &Vec<Vec<String>>, from: usize, n: usize) -> (r: Vec<Vec<String>>)
    requires
        from <= rows@.len(),
    ensures
        records_view(r@) == kept_rows(records_view(rows@).skip(from as int), n as int),
{
    let ghost src = records_view(rows@).skip(from as int);
    let mut out: Vec<Vec<String>> = Vec::new();
    let mut i: usize = from;
    assert(src.take(0) =~= Seq::<Seq<Seq<char>>>::empty());
    while i < rows.len()
        invariant
            from <= i <= rows@.len(),
            src == records_view(rows@).skip(from as int),
            records_view(out@) == kept_rows(src.take(i - from), n as int),
        decreases rows.len() - i,
    {
        assert(src.take(i + 1 - from).drop_last() =~= src.take(i - from));
        assert(src.take(i + 1 - from).last() == views_of(rows@[i as int]@));
        if !is_blank_row(&rows[i]) {
            let ghost prev = records_view(out@);
            out.push(first_cells(&rows[i], n));
            assert(records_view(out@) =~= prev.push(row_cells(views_of(rows@[i as int]@), n as int)));
        }
        i = i + 1;
    }
    assert(src.take(i - from) =~= src);
    out
}

fn field_header(f: &crate::model::FieldDef, r: usize) -> (s: String)
    ensures
        s@ == table_header_text(f@, r as int),
{
    if r == 0 {
        copy_str(&f.desc)
    } else if r == 1 {
        String::from_str(f.export.display())
    } else if r == 2 {
        copy_str(&f.tbl_type)
    } else {
        copy_str(&f.name)
    }
}

/// Reads a table's sheet back (see [`spec_parse_table_sheet`]).
pub fn parse_table_sheet(grid: &SheetGrid, table: &Table) -> (r: Result<Vec<Vec<String>>, ExcelError>)
    ensures
        match r {
            Ok(v) => spec_parse_table_sheet(grid@, table@) == Ok::<_, ExcelErrorView>(records_view(v@)),
            Err(e) => spec_parse_table_sheet(grid@, table@) == Err::<Seq<Seq<Seq<char>>>, _>(e@),
        },
{
    let ghost gv = grid@;
    let ghost tv = table@;
    let n = table.schema.fields.len();
    if grid.rows.len() < 4 {
        return Err(ExcelError::TooFewRows { sheet: copy_str(&table.name), rows: grid.rows.len(), needed: 4 });
    }
    if grid.width != n {
        return Err(ExcelError::ColumnCount { sheet: copy_str(&table.name), found: grid.width, expected: n });
    }
    let mut c: usize = 0;
    while c < n
        invariant
            c <= n,
            n == tv.fields.len(),
            gv == grid@,
            tv == table@,
            gv.rows.len() >= 4,
            gv.width == n,
            bad_table_header(gv.rows, tv.fields, 0) == bad_table_header(gv.rows, tv.fields, c as int),
        decreases n - c,
    {
        let f = &table.schema.fields[c];
        assert(tv.fields[c as int] == f@);
        let mut r: usize = 0;
        while r < 4
            invariant
                r <= 4,
                c < n,
                n == tv.fields.len(),
                gv == grid@,
                tv == table@,
                gv.rows.len() >= 4,
                gv.width == n,
                bad_table_header(gv.rows, tv.fields, 0) == bad_table_header(gv.rows, tv.fields, c as int),
                tv.fields[c as int] == f@,
                forall|q: int| 0 <= q < r ==> grid_cell(gv.rows, q, c as int) == table_header_text(f@, q),
            decreases 4 - r,
        {
            let found = grid_text(&grid.rows, r, c);
            let expected = field_header(f, r);
            if !str_is(found.as_str(), expected.as_str()) {
                assert(bad_header_row(gv.rows, f@, c as int) == Some(r as int));
                assert(bad_table_header(gv.rows, tv.fields, c as int) == Some((r as int, c as int)));
                return Err(ExcelError::HeaderMismatch {
                    sheet: copy_str(&table.name),
                    row: r,
                    col: c,
                    found,
                    expected,
                });
            }
            r = r + 1;
        }
        assert(bad_header_row(gv.rows, f@, c as int) is None);
        c = c + 1;
    }
    let recs = data_rows(&grid.rows, 4, n);
    Ok(recs)
}

/// Header row of a constant sheet.
pub open spec fn constant_headers() -> Seq<Seq<char>> {
    seq!["name"@, "type"@, "value"@, "export"@, "desc"@]
}

/// Header row of an enum sheet.
pub open spec fn enum_headers() -> Seq<Seq<char>> {
    seq!["id"@, "name"@, "desc"@]
}

/// First column from `c` on whose first-row cell is not `hs[c]`.
pub open spec fn bad_fixed_header(rows: Seq<Seq<Seq<char>>>, hs: Seq<Seq<char>>, c: int) -> Option<int>
    decreases hs.len() - c,
{
    if c < 0 || c >= hs.len() {
        None
    } else if grid_cell(rows, 0, c) != hs[c] {
        Some(c)
    } else {
        bad_fixed_header(rows, hs, c + 1)
    }
}

/// Checks a one-row header of fixed texts; `None` when it matches, else
/// the data rows' start is not reached.
pub open spec fn fixed_sheet_check(grid: SheetGridView, sheet: Seq<char>, hs: Seq<Seq<char>>) -> Option<
    ExcelErrorView,
> {
    if grid.rows.len() < 1 {
        Some(ExcelErrorView::TooFewRows { sheet, rows: grid.rows.len() as int, needed: 1 })
    } else if grid.width != hs.len() {
        Some(ExcelErrorView::ColumnCount { sheet, found: grid.width, expected: hs.len() as int })
    } else {
        match bad_fixed_header(grid.rows, hs, 0) {
            Some(c) => Some(
                ExcelErrorView::HeaderMismatch {
                    sheet,
                    row: 0,
                    col: c,
                    found: grid_cell(grid.rows, 0, c),
                    expected: hs[c],
                },
            ),
            None => None,
        }
    }
}

/// Constant entry of a row: name, type, value, export side, description.
pub open spec fn const_entry_of(row: Seq<Seq<char>>) -> ConstEntryView {
    ConstEntryView {
        name: cell_of(row, 0),
        tbl_type: cell_of(row, 1),
        value: cell_of(row, 2),
        export: Export::spec_from_text(crate::text::trim(cell_of(row, 3))),
        desc: cell_of(row, 4),
    }
}

/// Enum entry of a row: id, name, description.
pub open spec fn enum_entry_of(row: Seq<Seq<char>>) -> EnumEntryView {
    EnumEntryView { id: cell_of(row, 0), name: cell_of(row, 1), desc: cell_of(row, 2) }
}

pub open spec fn kept_const_entries(rows: Seq<Seq<Seq<char>>>) -> Seq<ConstEntryView>
    decreases rows.len(),
{
    if rows.len() == 0 {
        seq![]
    } else {
        kept_const_entries(rows.drop_last()) + if row_is_empty(rows.last()) {
            seq![]
        } else {
            seq![const_entry_of(rows.last())]
        }
    }
}

pub open spec fn kept_enum_entries(rows: Seq<Seq<Seq<char>>>) -> Seq<EnumEntryView>
    decreases rows.len(),
{
    if rows.len() == 0 {
        seq![]
    } else {
        kept_enum_entries(rows.drop_last()) + if row_is_empty(rows.last()) {
            seq![]
        } else {
            seq![enum_entry_of(rows.last())]
        }
    }
}

/// A constant sheet read back: the fixed header row, five columns, then
/// the non-empty rows as entries.
pub open spec fn spec_parse_constant_sheet(grid: SheetGridView, c: ConstantView) -> Result<
    Seq<ConstEntryView>,
    ExcelErrorView,
> {
    match fixed_sheet_check(grid, c.name, constant_headers()) {
        Some(e) => Err(e),
        None => Ok(kept_const_entries(grid.rows.skip(1))),
    }
}

/// An enum sheet read back: the fixed header row, three columns, then the
/// non-empty rows as entries.
pub open spec fn spec_parse_enum_sheet(grid: SheetGridView, e: EnumDefView) -> Result<
    Seq<EnumEntryView>,
    ExcelErrorView,
> {
    match fixed_sheet_check(grid, e.name, enum_headers()) {
        Some(err) => Err(err),
        None => Ok(kept_enum_entries(grid.rows.skip(1))),
    }
}

fn fixed_headers(constant: bool) -> (r: Vec<String>)
    ensures
        views_of(r@) == if constant { constant_headers() } else { enum_headers() },
        r@.len() == if constant { 5int } else { 3int },
{
    proof {
        reveal_strlit("name");
        reveal_strlit("type");
        reveal_strlit("value");
        reveal_strlit("export");
        reveal_strlit("desc");
        reveal_strlit("id");
    }
    let mut v: Vec<String> = Vec::new();
    if constant {
        v.push(String::from_str("name"));
        v.push(String::from_str("type"));
        v.push(String::from_str("value"));
        v.push(String::from_str("export"));
        v.push(String::from_str("desc"));
        assert(views_of(v@) =~= constant_headers());
    } else {
        v.push(String::from_str("id"));
        v.push(String::from_str("name"));
        v.push(String::from_str("desc"));
        assert(views_of(v@) =~= enum_headers());
    }
    v
}

/// Checks a one-row header of fixed texts (see [`fixed_sheet_check`]).
fn check_fixed_sheet(grid: &SheetGrid, sheet: &String, hs: &Vec<String>) -> (r: Option<ExcelError>)
    ensures
        match r {
            Some(e) => fixed_sheet_check(grid@, sheet@, views_of(hs@)) == Some(e@),
            None => fixed_sheet_check(grid@, sheet@, views_of(hs@)) is None,
        },
{
    let ghost gv = grid@;
    let ghost hv = views_of(hs@);
    if grid.rows.len() < 1 {
        return Some(ExcelError::TooFewRows { sheet: copy_str(sheet), rows: grid.rows.len(), needed: 1 });
    }
    if grid.width != hs.len() {
        return Some(ExcelError::ColumnCount { sheet: copy_str(sheet), found: grid.width, expected: hs.len() });
    }
    let mut c: usize = 0;
    while c < hs.len()
        invariant
            c <= hs@.len(),
            gv == grid@,
            hv == views_of(hs@),
            gv.rows.len() >= 1,
            gv.width == hv.len(),
            bad_fixed_header(gv.rows, hv, 0) == bad_fixed_header(gv.rows, hv, c as int),
        decreases hs.len() - c,
    {
        let found = grid_text(&grid.rows, 0, c);
        assert(hv[c as int] == hs@[c as int]@);
        if !str_is(found.as_str(), hs[c].as_str()) {
            assert(bad_fixed_header(gv.rows, hv, c as int) == Some(c as int));
            return Some(ExcelError::HeaderMismatch {
                sheet: copy_str(sheet),
                row: 0,
                col: c,
                found,
                expected: copy_str(&hs[c]),
            });
        }
        c = c + 1;
    }
    None
}

/// Reads a constant's sheet back (see [`spec_parse_constant_sheet`]).
pub fn parse_constant_sheet(grid: &SheetGrid, constant: &Constant) -> (r: Result<Vec<ConstEntry>, ExcelError>)
    ensures
        match r {
            Ok(v) => spec_parse_constant_sheet(grid@, constant@) == Ok::<_, ExcelErrorView>(
                crate::model::const_entries_view(v@),
            ),
            Err(e) => spec_parse_constant_sheet(grid@, constant@) == Err::<Seq<ConstEntryView>, _>(e@),
        },
{
    let hs = fixed_headers(true);
    match check_fixed_sheet(grid, &constant.name, &hs) {
        Some(e) => {
            return Err(e);
        },
        None => {},
    }
    let ghost src = records_view(grid.rows@).skip(1);
    let mut out: Vec<ConstEntry> = Vec::new();
    let mut i: usize = 1;
    assert(src.take(0) =~= Seq::<Seq<Seq<char>>>::empty());
    while i < grid.rows.len()
        invariant
            1 <= i <= grid.rows@.len(),
            src == records_view(grid.rows@).skip(1),
            crate::model::const_entries_view(out@) == kept_const_entries(src.take(i - 1)),
        decreases grid.rows.len() - i,
    {
        let row = &grid.rows[i];
        assert(src.take(i + 1 - 1).drop_last() =~= src.take(i - 1));
        assert(src.take(i + 1 - 1).last() == views_of(row@));
        if !is_blank_row(row) {
            let ex = cell_text(row, 3);
            let e = ConstEntry {
                name: cell_text(row, 0),
                tbl_type: cell_text(row, 1),
                value: cell_text(row, 2),
                export: Export::from_str(ex.as_str()),
                desc: cell_text(row, 4),
            };
            let ghost prev = crate::model::const_entries_view(out@);
            out.push(e);
            assert(crate::model::const_entries_view(out@) =~= prev.push(const_entry_of(views_of(row@))));
        }
        i = i + 1;
    }
    assert(src.take(i - 1) =~= src);
    Ok(out)
}

/// Reads an enum's sheet back (see [`spec_parse_enum_sheet`]).
pub fn parse_enum_sheet(grid: &SheetGrid, enum_def: &EnumDef) -> (r: Result<Vec<EnumEntry>, ExcelError>)
    ensures
        match r {
            Ok(v) => spec_parse_enum_sheet(grid@, enum_def@) == Ok::<_, ExcelErrorView>(
                crate::model::enum_entries_view(v@),
            ),
            Err(e) => spec_parse_enum_sheet(grid@, enum_def@) == Err::<Seq<EnumEntryView>, _>(e@),
        },
{
    let hs = fixed_headers(false);
    match check_fixed_sheet(grid, &enum_def.name, &hs) {
        Some(e) => {
            return Err(e);
        },
        None => {},
    }
    let ghost src = records_view(grid.rows@).skip(1);
    let mut out: Vec<EnumEntry> = Vec::new();
    let mut i: usize = 1;
    assert(src.take(0) =~= Seq::<Seq<Seq<char>>>::empty());
    while i < grid.rows.len()
        invariant
            1 <= i <= grid.rows@.len(),
            src == records_view(grid.rows@).skip(1),
            crate::model::enum_entries_view(out@) == kept_enum_entries(src.take(i - 1)),
        decreases grid.rows.len() - i,
    {
        let row = &grid.rows[i];
        assert(src.take(i + 1 - 1).drop_last() =~= src.take(i - 1));
        assert(src.take(i + 1 - 1).last() == views_of(row@));
        if !is_blank_row(row) {
            let e = EnumEntry { id: cell_text(row, 0), name: cell_text(row, 1), desc: cell_text(row, 2) };
            let ghost prev = crate::model::enum_entries_view(out@);
            out.push(e);
            assert(crate::model::enum_entries_view(out@) =~= prev.push(enum_entry_of(views_of(row@))));
        }
        i = i + 1;
    }
    assert(src.take(i - 1) =~= src);
    Ok(out)
}

/// What reading a sheet back gives for one node.
#[derive(Clone, Debug)]
pub enum NodePatch {
    Table { name: String, records: Vec<Vec<String>> },
    Constant { name: String, entries: Vec<ConstEntry> },
    Enum { name: String, entries: Vec<EnumEntry> },
}

pub enum NodePatchView {
    Table { name: Seq<char>, records: Seq<Seq<Seq<char>>> },
    Constant { name: Seq<char>, entries: Seq<ConstEntryView> },
    Enum { name: Seq<char>, entries: Seq<EnumEntryView> },
}

impl View for NodePatch {
    type V = NodePatchView;

    open spec fn view(&self) -> NodePatchView {
        match self {
            NodePatch::Table { name, records } => NodePatchView::Table {
                name: name@,
                records: records_view(records@),
            },
            NodePatch::Constant { name, entries } => NodePatchView::Constant {
                name: name@,
                entries: crate::model::const_entries_view(entries@),
            },
            NodePatch::Enum { name, entries } => NodePatchView::Enum {
                name: name@,
                entries: crate::model::enum_entries_view(entries@),
            },
        }
    }
}

/// What reading a group's workbook back gives, node by node.
#[derive(Clone, Debug)]
pub struct GroupPatch {
    pub patches: Vec<NodePatch>,
}

impl Default for GroupPatch {
    fn default() -> (r: Self)
        ensures
            r.patches@.len() == 0,
    {
        GroupPatch { patches: Vec::new() }
    }
}

pub open spec fn patches_view(p: Seq<NodePatch>) -> Seq<NodePatchView> {
    p.map_values(|x: NodePatch| x@)
}

/// Every sheet names a node of the group and every node has a sheet.
pub open spec fn sheets_match(sheets: Seq<Seq<char>>, nodes: Seq<Seq<char>>) -> bool {
    &&& forall|s: Seq<char>| #[trigger] sheets.contains(s) ==> nodes.contains(s)
    &&& forall|s: Seq<char>| #[trigger] nodes.contains(s) ==> sheets.contains(s)
}

/// Checks that the workbook's sheets are exactly the group's nodes: first
/// the sheets naming no node, then the nodes without a sheet, each listed
/// sorted in the error.
pub fn validate_sheets_match_group(sheet_names: &Vec<String>, group: &Group) -> (r: Result<(), ExcelError>)
    ensures
        match r {
            Ok(()) => sheets_match(views_of(sheet_names@), node_names(group@)),
            Err(ExcelError::UnmatchedSheets { group: g, names }) => {
                &&& g@ == group@.name
                &&& views_of(names@).len() > 0
                &&& lists_missing(views_of(names@), views_of(sheet_names@), node_names(group@))
            },
            Err(ExcelError::MissingSheets { group: g, names }) => {
                &&& g@ == group@.name
                &&& views_of(names@).len() > 0
                &&& forall|s: Seq<char>| #[trigger]
                    views_of(sheet_names@).contains(s) ==> node_names(group@).contains(s)
                &&& lists_missing(views_of(names@), node_names(group@), views_of(sheet_names@))
            },
            Err(_) => false,
        },
{
    let nodes = group_node_names(group);
    let unknown = names_not_in(sheet_names, &nodes);
    if unknown.len() > 0 {
        return Err(ExcelError::UnmatchedSheets { group: copy_str(&group.name), names: unknown });
    }
    let missing = names_not_in(&nodes, sheet_names);
    if missing.len() > 0 {
        proof {
            assert forall|s: Seq<char>| #[trigger] views_of(sheet_names@).contains(s) implies node_names(
                group@,
            ).contains(s) by {
                if !node_names(group@).contains(s) {
                    assert(views_of(unknown@).contains(s));
                }
            }
        }
        return Err(ExcelError::MissingSheets { group: copy_str(&group.name), names: missing });
    }
    proof {
        assert forall|s: Seq<char>| #[trigger] views_of(sheet_names@).contains(s) implies node_names(
            group@,
        ).contains(s) by {
            if !node_names(group@).contains(s) {
                assert(views_of(unknown@).contains(s));
            }
        }
        assert forall|s: Seq<char>| #[trigger] node_names(group@).contains(s) implies views_of(
            sheet_names@,
        ).contains(s) by {
            if !views_of(sheet_names@).contains(s) {
                assert(views_of(missing@).contains(s));
            }
        }
    }
    Ok(())
}

pub open spec fn grids_view(g: Seq<SheetGrid>) -> Seq<SheetGridView> {
    g.map_values(|x: SheetGrid| x@)
}

pub open spec fn grid_names(g: Seq<SheetGridView>) -> Seq<Seq<char>> {
    g.map_values(|x: SheetGridView| x.name)
}

/// The first sheet named `name`.
pub open spec fn grid_named(grids: Seq<SheetGridView>, name: Seq<char>) -> SheetGridView {
    grids[crate::excel_sync::index_from(grid_names(grids), name, 0).unwrap()]
}

pub open spec fn import_tables(grids: Seq<SheetGridView>, ts: Seq<TableView>) -> Result<
    Seq<NodePatchView>,
    ExcelErrorView,
>
    decreases ts.len(),
{
    if ts.len() == 0 {
        Ok(seq![])
    } else {
        match import_tables(grids, ts.drop_last()) {
            Err(e) => Err(e),
            Ok(ps) => match spec_parse_table_sheet(grid_named(grids, ts.last().name), ts.last()) {
                Err(e) => Err(e),
                Ok(recs) => Ok(ps.push(NodePatchView::Table { name: ts.last().name, records: recs })),
            },
        }
    }
}

pub open spec fn import_constants(grids: Seq<SheetGridView>, cs: Seq<ConstantView>) -> Result<
    Seq<NodePatchView>,
    ExcelErrorView,
>
    decreases cs.len(),
{
    if cs.len() == 0 {
        Ok(seq![])
    } else {
        match import_constants(grids, cs.drop_last()) {
            Err(e) => Err(e),
            Ok(ps) => match spec_parse_constant_sheet(grid_named(grids, cs.last().name), cs.last()) {
                Err(e) => Err(e),
                Ok(es) => Ok(ps.push(NodePatchView::Constant { name: cs.last().name, entries: es })),
            },
        }
    }
}

pub open spec fn import_enums(grids: Seq<SheetGridView>, es: Seq<EnumDefView>) -> Result<
    Seq<NodePatchView>,
    ExcelErrorView,
>
    decreases es.len(),
{
    if es.len() == 0 {
        Ok(seq![])
    } else {
        match import_enums(grids, es.drop_last()) {
            Err(e) => Err(e),
            Ok(ps) => match spec_parse_enum_sheet(grid_named(grids, es.last().name), es.last()) {
                Err(e) => Err(e),
                Ok(en) => Ok(ps.push(NodePatchView::Enum { name: es.last().name, entries: en })),
            },
        }
    }
}

/// The patch of a workbook whose sheets match the group: each table, then
/// each constant, then each enum read from its sheet, or the first error.
pub open spec fn spec_import_nodes(grids: Seq<SheetGridView>, g: GroupView) -> Result<
    Seq<NodePatchView>,
    ExcelErrorView,
> {
    match import_tables(grids, g.tables) {
        Err(e) => Err(e),
        Ok(a) => match import_constants(grids, g.constants) {
            Err(e) => Err(e),
            Ok(b) => match import_enums(grids, g.enums) {
                Err(e) => Err(e),
                Ok(c) => Ok(a + b + c),
            },
        },
    }
}

proof fn lemma_index_from_some(s: Seq<Seq<char>>, x: Seq<char>, start: int, k: int)
    requires
        0 <= start <= k < s.len(),
        s[k] == x,
    ensures
        crate::excel_sync::index_from(s, x, start) is Some,
        0 <= crate::excel_sync::index_from(s, x, start).unwrap() < s.len(),
        s[crate::excel_sync::index_from(s, x, start).unwrap()] == x,
    decreases k - start,
{
    if s[start] != x {
        lemma_index_from_some(s, x, start + 1, k);
    }
}

/// The sheet named `name`, which the caller knows to exist.
fn grid_for<'a>(grids: &'a [SheetGrid], name: &String) -> (r: &'a SheetGrid)
    requires
        grid_names(grids_view(grids@)).contains(name@),
    ensures
        r@ == grid_named(grids_view(grids@), name@),
{
    let ghost gn = grid_names(grids_view(grids@));
    proof {
        let k = choose|k: int| 0 <= k < gn.len() && gn[k] == name@;
        lemma_index_from_some(gn, name@, 0, k);
    }
    let mut i: usize = 0;
    while i < grids.len()
        invariant
            i <= grids@.len(),
            gn == grid_names(grids_view(grids@)),
            crate::excel_sync::index_from(gn, name@, 0) == crate::excel_sync::index_from(gn, name@, i as int),
            crate::excel_sync::index_from(gn, name@, 0) is Some,
        decreases grids.len() - i,
    {
        assert(gn[i as int] == grids@[i as int].name@);
        if str_is(grids[i].name.as_str(), name.as_str()) {
            return &grids[i];
        }
        i = i + 1;
    }
    proof {
        assert(crate::excel_sync::index_from(gn, name@, i as int) is None);
    }
    &grids[0]
}

fn grid_name_list(grids: &[SheetGrid]) -> (r: Vec<String>)
    ensures
        views_of(r@) == grid_names(grids_view(grids@)),
{
    let ghost w = grid_names(grids_view(grids@));
    let mut out: Vec<String> = Vec::new();
    let mut i: usize = 0;
    while i < grids.len()
        invariant
            i <= grids@.len(),
            w == grid_names(grids_view(grids@)),
            views_of(out@) == w.take(i as int),
        decreases grids.len() - i,
    {
        let ghost prev = views_of(out@);
        out.push(copy_str(&grids[i].name));
        assert(views_of(out@) =~= prev.push(w[i as int]));
        assert(w.take(i + 1) =~= w.take(i as int).push(w[i as int]));
        i = i + 1;
    }
    assert(w.take(i as int) =~= w);
    out
}

pub open spec fn import_result_view(r: Result<GroupPatch, ExcelError>) -> Result<Seq<NodePatchView>, ExcelErrorView> {
    match r {
        Ok(p) => Ok(patches_view(p.patches@)),
        Err(e) => Err(e@),
    }
}

/// Reads a group's workbook back, given its sheets as cell texts: the
/// sheets must be exactly the group's nodes (see
/// [`validate_sheets_match_group`]), and then each node is read from its
/// sheet (see [`spec_import_nodes`]); any error refuses the whole read.
pub fn import_xlsx_into_group(grids: &[SheetGrid], group: &Group) -> (r: Result<GroupPatch, ExcelError>)
    ensures
        match r {
            Err(ExcelError::UnmatchedSheets { group: g, names }) => {
                &&& g@ == group@.name
                &&& views_of(names@).len() > 0
                &&& lists_missing(views_of(names@), grid_names(grids_view(grids@)), node_names(group@))
            },
            Err(ExcelError::MissingSheets { group: g, names }) => {
                &&& g@ == group@.name
                &&& views_of(names@).len() > 0
                &&& forall|s: Seq<char>| #[trigger]
                    grid_names(grids_view(grids@)).contains(s) ==> node_names(group@).contains(s)
                &&& lists_missing(views_of(names@), node_names(group@), grid_names(grids_view(grids@)))
            },
            _ => {
                &&& sheets_match(grid_names(grids_view(grids@)), node_names(group@))
                &&& import_result_view(r) == spec_import_nodes(grids_view(grids@), group@)
            },
        },
{
    let ghost gv = grids_view(grids@);
    let ghost g = group@;
    let names = grid_name_list(grids);
    match validate_sheets_match_group(&names, group) {
        Err(e) => {
            return Err(e);
        },
        Ok(()) => {},
    }
    assert(sheets_match(grid_names(gv), node_names(g)));
    let mut patches: Vec<NodePatch> = Vec::new();
    let mut i: usize = 0;
    assert(g.tables.take(0) =~= Seq::<TableView>::empty());
    assert(patches_view(patches@) =~= Seq::<NodePatchView>::empty());
    while i < group.tables.len()
        invariant
            i <= group.tables@.len(),
            gv == grids_view(grids@),
            g == group@,
            sheets_match(grid_names(gv), node_names(g)),
            import_tables(gv, g.tables.take(i as int)) == Ok::<_, ExcelErrorView>(patches_view(patches@)),
        decreases group.tables.len() - i,
    {
        let t = &group.tables[i];
        assert(g.tables.take(i + 1).drop_last() =~= g.tables.take(i as int));
        assert(g.tables.take(i + 1).last() == t@);
        assert(node_names(g)[i as int] == t@.name);
        assert(node_names(g).contains(t@.name));
        let grid = grid_for(grids, &t.name);
        match parse_table_sheet(grid, t) {
            Err(e) => {
                assert(import_tables(gv, g.tables.take(i + 1)) == Err::<Seq<NodePatchView>, _>(e@));
                proof {
                    lemma_import_tables_err(gv, g.tables, (i + 1) as int, e@);
                }
                return Err(e);
            },
            Ok(records) => {
                let ghost prev = patches_view(patches@);
                patches.push(NodePatch::Table { name: copy_str(&t.name), records });
                assert(patches_view(patches@) =~= prev.push(patches@.last()@));
            },
        }
        i = i + 1;
    }
    assert(g.tables.take(i as int) =~= g.tables);
    let ghost a = patches_view(patches@);
    let mut j: usize = 0;
    assert(g.constants.take(0) =~= Seq::<ConstantView>::empty());
    assert(a + Seq::<NodePatchView>::empty() =~= a);
    while j < group.constants.len()
        invariant
            j <= group.constants@.len(),
            gv == grids_view(grids@),
            g == group@,
            sheets_match(grid_names(gv), node_names(g)),
            import_tables(gv, g.tables) == Ok::<_, ExcelErrorView>(a),
            import_constants(gv, g.constants.take(j as int)) is Ok,
            patches_view(patches@) == a + import_constants(gv, g.constants.take(j as int))->Ok_0,
        decreases group.constants.len() - j,
    {
        let c = &group.constants[j];
        assert(g.constants.take(j + 1).drop_last() =~= g.constants.take(j as int));
        assert(g.constants.take(j + 1).last() == c@);
        assert(node_names(g)[g.tables.len() + j] == c@.name);
        assert(node_names(g).contains(c@.name));
        let grid = grid_for(grids, &c.name);
        match parse_constant_sheet(grid, c) {
            Err(e) => {
                proof {
                    lemma_import_constants_err(gv, g.constants, (j + 1) as int, e@);
                }
                return Err(e);
            },
            Ok(entries) => {
                let ghost prev = patches_view(patches@);
                patches.push(NodePatch::Constant { name: copy_str(&c.name), entries });
                assert(patches_view(patches@) =~= prev.push(patches@.last()@));
            },
        }
        j = j + 1;
    }
    assert(g.constants.take(j as int) =~= g.constants);
    let ghost b = patches_view(patches@);
    let mut k: usize = 0;
    assert(g.enums.take(0) =~= Seq::<EnumDefView>::empty());
    assert(b + Seq::<NodePatchView>::empty() =~= b);
    while k < group.enums.len()
        invariant
            k <= group.enums@.len(),
            gv == grids_view(grids@),
            g == group@,
            sheets_match(grid_names(gv), node_names(g)),
            import_tables(gv, g.tables) == Ok::<_, ExcelErrorView>(a),
            import_constants(gv, g.constants) is Ok,
            b == a + import_constants(gv, g.constants)->Ok_0,
            import_enums(gv, g.enums.take(k as int)) is Ok,
            patches_view(patches@) == b + import_enums(gv, g.enums.take(k as int))->Ok_0,
        decreases group.enums.len() - k,
    {
        let e = &group.enums[k];
        assert(g.enums.take(k + 1).drop_last() =~= g.enums.take(k as int));
        assert(g.enums.take(k + 1).last() == e@);
        assert(node_names(g)[g.tables.len() + g.constants.len() + k] == e@.name);
        assert(node_names(g).contains(e@.name));
        let grid = grid_for(grids, &e.name);
        match parse_enum_sheet(grid, e) {
            Err(err) => {
                proof {
                    lemma_import_enums_err(gv, g.enums, (k + 1) as int, err@);
                }
                return Err(err);
            },
            Ok(entries) => {
                let ghost prev = patches_view(patches@);
                patches.push(NodePatch::Enum { name: copy_str(&e.name), entries });
                assert(patches_view(patches@) =~= prev.push(patches@.last()@));
            },
        }
        k = k + 1;
    }
    assert(g.enums.take(k as int) =~= g.enums);
    Ok(GroupPatch { patches })
}

proof fn lemma_import_tables_err(gv: Seq<SheetGridView>, ts: Seq<TableView>, k: int, e: ExcelErrorView)
    requires
        0 <= k <= ts.len(),
        import_tables(gv, ts.take(k)) == Err::<Seq<NodePatchView>, _>(e),
    ensures
        import_tables(gv, ts) == Err::<Seq<NodePatchView>, _>(e),
    decreases ts.len() - k,
{
    if k < ts.len() {
        assert(ts.take(k + 1).drop_last() =~= ts.take(k));
        lemma_import_tables_err(gv, ts, k + 1, e);
    } else {
        assert(ts.take(k) =~= ts);
    }
}

proof fn lemma_import_constants_err(gv: Seq<SheetGridView>, cs: Seq<ConstantView>, k: int, e: ExcelErrorView)
    requires
        0 <= k <= cs.len(),
        import_constants(gv, cs.take(k)) == Err::<Seq<NodePatchView>, _>(e),
    ensures
        import_constants(gv, cs) == Err::<Seq<NodePatchView>, _>(e),
    decreases cs.len() - k,
{
    if k < cs.len() {
        assert(cs.take(k + 1).drop_last() =~= cs.take(k));
        lemma_import_constants_err(gv, cs, k + 1, e);
    } else {
        assert(cs.take(k) =~= cs);
    }
}

proof fn lemma_import_enums_err(gv: Seq<SheetGridView>, es: Seq<EnumDefView>, k: int, e: ExcelErrorView)
    requires
        0 <= k <= es.len(),
        import_enums(gv, es.take(k)) == Err::<Seq<NodePatchView>, _>(e),
    ensures
        import_enums(gv, es) == Err::<Seq<NodePatchView>, _>(e),
    decreases es.len() - k,
{
    if k < es.len() {
        assert(es.take(k + 1).drop_last() =~= es.take(k));
        lemma_import_enums_err(gv, es, k + 1, e);
    } else {
        assert(es.take(k) =~= es);
    }
}

// ───────────────────────── writing ─────────────────────────

#[verifier::external_type_specification]
#[verifier::external_body]
pub struct ExWorkbook(rust_xlsxwriter::Workbook);

#[verifier::external_type_specification]
#[verifier::external_body]
pub struct ExWorksheet(rust_xlsxwriter::Worksheet);

#[verifier::external_type_specification]
#[verifier::external_body]
pub struct ExFormat(rust_xlsxwriter::Format);

#[verifier::external_type_specification]
#[verifier::external_body]
pub struct ExXlsxError(rust_xlsxwriter::XlsxError);

/// Background of header cells.
pub const HEADER_BG: &'static str = "#E0E0E0";

/// Last row index of a sheet (0-based).
pub const EXCEL_MAX_ROW: u32 = 1048575;

/// What a workbook holds: the name and the cells (see [`sheet_texts`]) of
/// each of its sheets, in the order they were added.
pub uninterp spec fn workbook_sheets(wb: Workbook) -> Seq<(Seq<char>, Map<(int, int), Seq<char>>)>;

/// `Workbook::new`: a workbook without sheets.
#[verifier::external_body]
fn new_workbook() -> (r: Workbook)
    ensures
        workbook_sheets(r).len() == 0,
{
    Workbook::new()
}

/// What a sheet holds: the text of each written cell by (row, column),
/// the empty text for a blank cell.
pub uninterp spec fn sheet_texts(ws: Worksheet) -> Map<(int, int), Seq<char>>;

/// How a sheet is locked: the cell (row, column) its panes are frozen at,
/// the permissions of its protection once it is protected (see
/// [`SheetPermissions`]), and the ranges (first row, first column, last
/// row, last column) left editable, in the order they were given.
pub uninterp spec fn sheet_lock(ws: Worksheet) -> (int, int, Option<(bool, bool, bool)>, Seq<(int, int, int, int)>);

/// The name a sheet was given, empty until it is given one.
pub uninterp spec fn sheet_title(ws: Worksheet) -> Seq<char>;

/// Rows of a sheet.
pub open spec fn sheet_rows() -> int {
    1048576
}

/// Columns of a sheet.
pub open spec fn sheet_cols() -> int {
    16384
}

/// A cell Excel can hold.
pub open spec fn in_sheet(row: int, col: int) -> bool {
    0 <= row < sheet_rows() && 0 <= col < sheet_cols()
}

/// Excel's limit on the length of a cell's text, in UTF-16 units.
pub open spec fn cell_text_limit() -> int {
    32767
}

/// Length of a text in UTF-16 units: two for a character beyond U+FFFF,
/// one for any other.
pub open spec fn utf16_units(s: Seq<char>) -> int
    decreases s.len(),
{
    if s.len() == 0 {
        0
    } else {
        utf16_units(s.drop_last()) + if (s.last() as int) >= 0x10000 {
            2int
        } else {
            1int
        }
    }
}

/// A text Excel accepts at a cell: the cell lies in the sheet and the text
/// is within the length limit.
pub open spec fn cell_ok(p: (int, int), text: Seq<char>) -> bool {
    in_sheet(p.0, p.1) && utf16_units(text) <= cell_text_limit()
}

/// Every cell of `m` lies in the sheet and holds a text Excel accepts.
pub open spec fn cells_ok(m: Map<(int, int), Seq<char>>) -> bool {
    forall|p: (int, int)| #[trigger] m.dom().contains(p) ==> cell_ok(p, m[p])
}

proof fn lemma_cells_ok_bad(m: Map<(int, int), Seq<char>>, p: (int, int))
    requires
        m.dom().contains(p),
        !cell_ok(p, m[p]),
    ensures
        !cells_ok(m),
{
}

pub open spec fn no_cells() -> Map<(int, int), Seq<char>> {
    Map::empty()
}

/// `Worksheet::new`: a sheet with no cells, not yet in a workbook.
#[verifier::external_body]
fn new_worksheet() -> (r: Worksheet)
    ensures
        sheet_texts(r) == no_cells(),
        sheet_title(r).len() == 0,
        sheet_lock(r) == (0int, 0int, None::<(bool, bool, bool)>, Seq::<(int, int, int, int)>::empty()),
{
    Worksheet::new()
}

/// The name `Workbook::push_worksheet` gives a sheet without one: `Sheet`
/// and its place in the workbook, from 1.
pub open spec fn default_sheet_name(n: int) -> Seq<char> {
    "Sheet"@ + decimal((n + 1) as nat)
}

/// `Workbook::push_worksheet`: appends the sheet to the workbook, named
/// [`default_sheet_name`] when it has no name.
#[verifier::external_body]
fn push_sheet(wb: &mut Workbook, ws: Worksheet)
    ensures
        workbook_sheets(*final(wb)) == workbook_sheets(*old(wb)).push(
            (
                if sheet_title(ws).len() == 0 {
                    default_sheet_name(workbook_sheets(*old(wb)).len() as int)
                } else {
                    sheet_title(ws)
                },
                sheet_texts(ws),
            ),
        ),
{
    wb.push_worksheet(ws);
}

/// Two sheets of a workbook whose names are equal once lower-cased.
pub open spec fn names_clash(sheets: Seq<(Seq<char>, Map<(int, int), Seq<char>>)>) -> bool {
    exists|i: int, j: int|
        0 <= i < j < sheets.len() && #[trigger] lowercase_of(sheets[i].0) == #[trigger] lowercase_of(sheets[j].0)
}

/// `Workbook::save_to_buffer`: the bytes of the xlsx file, or the writer's
/// error, which it gives in particular for two sheets whose names are
/// equal once lower-cased. The bytes, and whether the zip writer refuses
/// a part over its size limit, are not stated.
#[verifier::external_body]
fn save_book(wb: &mut Workbook) -> (r: Result<Vec<u8>, XlsxError>)
    ensures
        names_clash(workbook_sheets(*old(wb))) ==> r is Err,
{
    wb.save_to_buffer()
}

/// A sheet name Excel accepts: not empty, at most 31 UTF-16 units, none of
/// `\ / ? * [ ] :`, and no apostrophe first or last.
pub open spec fn sheet_name_ok(name: Seq<char>) -> bool {
    &&& name.len() > 0
    &&& utf16_units(name) <= 31
    &&& forall|k: int| 0 <= k < name.len() ==> !is_bad_sheet_char(#[trigger] name[k])
    &&& name[0] != '\''
    &&& name.last() != '\''
}

/// `Worksheet::set_name`: names the sheet, or refuses a name Excel does not
/// accept and changes nothing; the cells stay as they are.
#[verifier::external_body]
fn set_sheet_name(ws: &mut Worksheet, name: &str) -> (r: Result<(), XlsxError>)
    ensures
        r is Ok <==> sheet_name_ok(name@),
        r is Ok ==> sheet_title(*final(ws)) == name@,
        r is Err ==> sheet_title(*final(ws)) == sheet_title(*old(ws)),
        sheet_texts(*final(ws)) == sheet_texts(*old(ws)),
        sheet_lock(*final(ws)) == sheet_lock(*old(ws)),
{
    ws.set_name(name).map(|_| ())
}

/// `Worksheet::write_string_with_format`: sets the text of a cell (an empty
/// text makes a blank formatted cell), or refuses a cell outside the sheet
/// or a text over 32767 UTF-16 units and changes nothing.
#[verifier::external_body]
fn write_text(ws: &mut Worksheet, row: u32, col: u16, text: &str, fmt: &Format) -> (r: Result<(), XlsxError>)
    ensures
        r is Ok <==> cell_ok((row as int, col as int), text@),
        r is Ok ==> sheet_texts(*final(ws)) == sheet_texts(*old(ws)).insert((row as int, col as int), text@),
        r is Err ==> sheet_texts(*final(ws)) == sheet_texts(*old(ws)),
        sheet_lock(*final(ws)) == sheet_lock(*old(ws)),
        sheet_title(*final(ws)) == sheet_title(*old(ws)),
{
    ws.write_string_with_format(row, col, text, fmt).map(|_| ())
}

/// `Worksheet::set_freeze_panes`: keeps the rows above `row` and the
/// columns left of `col` in view, or refuses a cell outside the sheet and
/// changes nothing; the cells stay as they are.
#[verifier::external_body]
fn freeze_panes(ws: &mut Worksheet, row: u32, col: u16) -> (r: Result<(), XlsxError>)
    ensures
        sheet_texts(*final(ws)) == sheet_texts(*old(ws)),
        r is Ok <==> in_sheet(row as int, col as int),
        r is Ok ==> sheet_lock(*final(ws)) == (row as int, col as int, sheet_lock(*old(ws)).2, sheet_lock(*old(ws)).3),
        r is Err ==> sheet_lock(*final(ws)) == sheet_lock(*old(ws)),
        sheet_title(*final(ws)) == sheet_title(*old(ws)),
{
    ws.set_freeze_panes(row, col).map(|_| ())
}

/// `Worksheet::protect_with_options` with `ProtectionOptions::default` and
/// the three permissions given: locks the sheet except for what they
/// allow; the cells stay as they are.
#[verifier::external_body]
fn protect_sheet(ws: &mut Worksheet, p: &SheetPermissions)
    ensures
        sheet_texts(*final(ws)) == sheet_texts(*old(ws)),
        sheet_lock(*final(ws)) == (
            sheet_lock(*old(ws)).0,
            sheet_lock(*old(ws)).1,
            Some((p.format_columns, p.format_rows, p.insert_rows)),
            sheet_lock(*old(ws)).3,
        ),
        sheet_title(*final(ws)) == sheet_title(*old(ws)),
{
    ws.protect_with_options(
        &ProtectionOptions {
            format_columns: p.format_columns,
            format_rows: p.format_rows,
            insert_rows: p.insert_rows,
            ..ProtectionOptions::default()
        },
    );
}

/// `Worksheet::unprotect_range`: leaves a range editable in a locked sheet,
/// or refuses a corner outside the sheet or corners out of order and
/// changes nothing; the cells stay as they are.
#[verifier::external_body]
fn unprotect_range(ws: &mut Worksheet, r0: u32, c0: u16, r1: u32, c1: u16) -> (r: Result<(), XlsxError>)
    ensures
        sheet_texts(*final(ws)) == sheet_texts(*old(ws)),
        r is Ok <==> (in_sheet(r0 as int, c0 as int) && in_sheet(r1 as int, c1 as int) && r0 <= r1 && c0 <= c1),
        r is Ok ==> sheet_lock(*final(ws)) == (
            sheet_lock(*old(ws)).0,
            sheet_lock(*old(ws)).1,
            sheet_lock(*old(ws)).2,
            sheet_lock(*old(ws)).3.push((r0 as int, c0 as int, r1 as int, c1 as int)),
        ),
        r is Err ==> sheet_lock(*final(ws)) == sheet_lock(*old(ws)),
        sheet_title(*final(ws)) == sheet_title(*old(ws)),
{
    ws.unprotect_range(r0, c0, r1, c1).map(|_| ())
}

/// `Format::new`: the default cell format.
#[verifier::external_body]
fn format_new() -> Format {
    Format::new()
}

/// `Format::set_bold`.
#[verifier::external_body]
fn format_bold(f: Format) -> Format {
    f.set_bold()
}

/// `Format::set_background_color` with a color given as `#RRGGBB`.
#[verifier::external_body]
fn format_background(f: Format, color: &str) -> Format {
    f.set_background_color(color)
}

/// `Format::set_border` with `FormatBorder::Thin` on all four sides.
#[verifier::external_body]
fn format_thin_border(f: Format) -> Format {
    f.set_border(FormatBorder::Thin)
}

/// The writer's error as text (its `Display`).
#[verifier::external_body]
fn xlsx_error_text(e: &XlsxError) -> String {
    e.to_string()
}

fn xlsx_err(e: XlsxError) -> (r: ExcelError)
    ensures
        r is Xlsx,
{
    ExcelError::Xlsx(xlsx_error_text(&e))
}

/// Bold, grey, thin-bordered format of header cells.
fn header_format() -> Format {
    format_thin_border(format_background(format_bold(format_new()), HEADER_BG))
}

/// Thin-bordered format of data cells.
fn body_format() -> Format {
    format_thin_border(format_new())
}

/// What users may still do on a locked sheet beside selecting cells:
/// resize columns, resize rows, insert rows.
#[derive(Clone, Copy, Debug)]
pub struct SheetPermissions {
    pub format_columns: bool,
    pub format_rows: bool,
    pub insert_rows: bool,
}

/// What users may still do on a locked sheet: resize columns and rows,
/// insert rows.
fn sheet_protection() -> (r: SheetPermissions)
    ensures
        r == (SheetPermissions { format_columns: true, format_rows: true, insert_rows: true }),
{
    SheetPermissions { format_columns: true, format_rows: true, insert_rows: true }
}

/// The text the table writer puts at row `r`, column `c`: the four header
/// rows of each column (see [`table_header_text`]), then each record from
/// the fifth row.
pub open spec fn table_cell(t: TableView, r: int, c: int) -> Option<Seq<char>> {
    if 0 <= r < 4 && 0 <= c < t.fields.len() {
        Some(table_header_text(t.fields[c], r))
    } else if 4 <= r < 4 + t.records.len() && 0 <= c < t.records[r - 4].len() {
        Some(t.records[r - 4][c])
    } else {
        None
    }
}

/// The cells the table writer fills.
pub open spec fn table_cells(t: TableView) -> Map<(int, int), Seq<char>> {
    Map::new(|p: (int, int)| table_cell(t, p.0, p.1) is Some, |p: (int, int)| table_cell(t, p.0, p.1).unwrap())
}

/// The cells the table writer has filled once the header columns before
/// `hc`, the records before `rr` and the cells of record `rr` before `cc`
/// are written.
pub open spec fn cells_upto(t: TableView, hc: int, rr: int, cc: int) -> Map<(int, int), Seq<char>> {
    Map::new(
        |p: (int, int)|
            table_cell(t, p.0, p.1) is Some && ((p.0 < 4 && p.1 < hc) || (p.0 >= 4 && (p.0 - 4 < rr || (p.0 - 4
                == rr && p.1 < cc)))),
        |p: (int, int)| table_cell(t, p.0, p.1).unwrap(),
    )
}

/// Writes a table to a sheet: the four header rows (desc / export label /
/// type / name), the records from the fifth row, the header frozen and
/// locked with the data area left editable. Only the writer can fail: on
/// a cell outside the sheet or a text over its length limit.
#[verifier::loop_isolation(false)]
pub fn write_table(ws: &mut Worksheet, table: &Table) -> (r: Result<(), ExcelError>)
    requires
        table.schema.fields@.len() <= u16::MAX,
        table.records@.len() + 4 <= u32::MAX,
        forall|i: int| 0 <= i < table.records@.len() ==> #[trigger] table.records@[i]@.len() <= u16::MAX,
    ensures
        r is Err ==> r->Err_0 is Xlsx,
        r is Ok <==> cells_ok(table_cells(table@)),
        r is Ok ==> sheet_texts(*final(ws)) == sheet_texts(*old(ws)).union_prefer_right(table_cells(table@)),
        r is Ok ==> sheet_lock(*final(ws)) == (
            4int,
            0int,
            Some((true, true, true)),
            if table@.fields.len() > 0 {
                sheet_lock(*old(ws)).3.push((4int, 0int, EXCEL_MAX_ROW as int, table@.fields.len() - 1))
            } else {
                sheet_lock(*old(ws)).3
            },
        ),
        sheet_title(*final(ws)) == sheet_title(*old(ws)),
{
    let ghost tv = table@;
    let ghost m0 = sheet_texts(*old(ws));
    let ghost l0 = sheet_lock(*old(ws));
    let ghost t0 = sheet_title(*old(ws));
    let ghost all = table_cells(tv);
    let header_fmt = header_format();
    let body_fmt = body_format();
    let fields = &table.schema.fields;
    let mut i: usize = 0;
    assert(tv.fields == field_defs_view(fields@));
    assert(m0.union_prefer_right(cells_upto(tv, 0, 0, 0)) =~= m0);
    while i < fields.len()
        invariant
            i <= fields@.len(),
            fields@.len() <= u16::MAX,
            tv == table@,
            all == table_cells(tv),
            tv.fields == field_defs_view(fields@),
            sheet_texts(*ws) == m0.union_prefer_right(cells_upto(tv, i as int, 0, 0)),
            sheet_lock(*ws) == l0,
            sheet_title(*ws) == t0,
            cells_ok(cells_upto(tv, i as int, 0, 0)),
        decreases fields.len() - i,
    {
        let f = &fields[i];
        let c = i as u16;
        assert(tv.fields[i as int] == f@);
        match write_text(ws, 0, c, f.desc.as_str(), &header_fmt) {
            Err(e) => {
                proof {
                    assert(all.dom().contains((0int, i as int)));
                    lemma_cells_ok_bad(all, (0int, i as int));
                }
                return Err(xlsx_err(e));
            },
            Ok(()) => {},
        }
        match write_text(ws, 1, c, f.export.display(), &header_fmt) {
            Err(e) => {
                proof {
                    assert(all.dom().contains((1int, i as int)));
                    lemma_cells_ok_bad(all, (1int, i as int));
                }
                return Err(xlsx_err(e));
            },
            Ok(()) => {},
        }
        match write_text(ws, 2, c, f.tbl_type.as_str(), &header_fmt) {
            Err(e) => {
                proof {
                    assert(all.dom().contains((2int, i as int)));
                    lemma_cells_ok_bad(all, (2int, i as int));
                }
                return Err(xlsx_err(e));
            },
            Ok(()) => {},
        }
        match write_text(ws, 3, c, f.name.as_str(), &header_fmt) {
            Err(e) => {
                proof {
                    assert(all.dom().contains((3int, i as int)));
                    lemma_cells_ok_bad(all, (3int, i as int));
                }
                return Err(xlsx_err(e));
            },
            Ok(()) => {},
        }
        assert(sheet_texts(*ws) =~= m0.union_prefer_right(cells_upto(tv, i + 1, 0, 0)));
        assert forall|p: (int, int)| #[trigger] cells_upto(tv, i + 1, 0, 0).dom().contains(p) implies cell_ok(
            p,
            cells_upto(tv, i + 1, 0, 0)[p],
        ) by {
            if p.1 < i {
                assert(cells_upto(tv, i as int, 0, 0).dom().contains(p));
            }
        }
        i = i + 1;
    }
    let mut r: usize = 0;
    while r < table.records.len()
        invariant
            r <= table.records@.len(),
            table.records@.len() + 4 <= u32::MAX,
            forall|q: int| 0 <= q < table.records@.len() ==> #[trigger] table.records@[q]@.len() <= u16::MAX,
            tv == table@,
            all == table_cells(tv),
            tv.records.len() == table.records@.len(),
            sheet_texts(*ws) == m0.union_prefer_right(cells_upto(tv, tv.fields.len() as int, r as int, 0)),
            sheet_lock(*ws) == l0,
            sheet_title(*ws) == t0,
            cells_ok(cells_upto(tv, tv.fields.len() as int, r as int, 0)),
        decreases table.records.len() - r,
    {
        let row = &table.records[r];
        let row_idx = (r + 4) as u32;
        let mut c: usize = 0;
        assert(tv.records[r as int] == row@.map_values(|x: String| x@));
        while c < row.len()
            invariant
                c <= row@.len(),
                row@.len() <= u16::MAX,
                row_idx == r + 4,
                r < tv.records.len(),
                tv == table@,
                all == table_cells(tv),
                tv.records[r as int] == row@.map_values(|x: String| x@),
                sheet_texts(*ws) == m0.union_prefer_right(cells_upto(tv, tv.fields.len() as int, r as int, c as int)),
                sheet_lock(*ws) == l0,
                sheet_title(*ws) == t0,
                cells_ok(cells_upto(tv, tv.fields.len() as int, r as int, c as int)),
            decreases row.len() - c,
        {
            match write_text(ws, row_idx, c as u16, row[c].as_str(), &body_fmt) {
                Err(e) => {
                    proof {
                        assert(all.dom().contains((r + 4, c as int)));
                        lemma_cells_ok_bad(all, (r + 4, c as int));
                    }
                    return Err(xlsx_err(e));
                },
                Ok(()) => {},
            }
            assert(sheet_texts(*ws) =~= m0.union_prefer_right(
                cells_upto(tv, tv.fields.len() as int, r as int, c + 1),
            ));
            assert forall|p: (int, int)| #[trigger] cells_upto(tv, tv.fields.len() as int, r as int, c + 1).dom().contains(
                p,
            ) implies cell_ok(p, cells_upto(tv, tv.fields.len() as int, r as int, c + 1)[p]) by {
                if p != (r + 4, c as int) {
                    assert(cells_upto(tv, tv.fields.len() as int, r as int, c as int).dom().contains(p));
                }
            }
            c = c + 1;
        }
        assert(cells_upto(tv, tv.fields.len() as int, r as int, c as int) =~= cells_upto(
            tv,
            tv.fields.len() as int,
            r + 1,
            0,
        ));
        r = r + 1;
    }
    assert(cells_upto(tv, tv.fields.len() as int, r as int, 0) =~= table_cells(tv));
    match freeze_panes(ws, 4, 0) {
        Err(e) => { return Err(xlsx_err(e)); },
        Ok(()) => {},
    }
    protect_sheet(ws, &sheet_protection());
    let col_count = fields.len() as u16;
    if col_count > 0 {
        assert(all.dom().contains((0int, col_count - 1)));
        match unprotect_range(ws, 4, 0, EXCEL_MAX_ROW, col_count - 1) {
            Err(e) => { return Err(xlsx_err(e)); },
            Ok(()) => {},
        }
    }
    Ok(())
}

/// Writes one row of header texts.
#[verifier::loop_isolation(false)]
fn write_header_row(ws: &mut Worksheet, hs: &Vec<String>, fmt: &Format) -> (r: Result<(), ExcelError>)
    requires
        hs@.len() <= u16::MAX,
    ensures
        r is Err ==> r->Err_0 is Xlsx,
        r is Ok <==> cells_ok(header_row_cells(views_of(hs@), hs@.len() as int)),
        r is Ok ==> sheet_texts(*final(ws)) == sheet_texts(*old(ws)).union_prefer_right(
            header_row_cells(views_of(hs@), hs@.len() as int),
        ),
        sheet_lock(*final(ws)) == sheet_lock(*old(ws)),
        sheet_title(*final(ws)) == sheet_title(*old(ws)),
{
    let ghost m0 = sheet_texts(*old(ws));
    let ghost l0 = sheet_lock(*old(ws));
    let ghost t0 = sheet_title(*old(ws));
    let ghost hv = views_of(hs@);
    let ghost all = header_row_cells(hv, hs@.len() as int);
    let mut i: usize = 0;
    assert(m0.union_prefer_right(header_row_cells(hv, 0)) =~= m0);
    while i < hs.len()
        invariant
            i <= hs@.len(),
            hs@.len() <= u16::MAX,
            hv == views_of(hs@),
            all == header_row_cells(hv, hs@.len() as int),
            sheet_texts(*ws) == m0.union_prefer_right(header_row_cells(hv, i as int)),
            sheet_lock(*ws) == l0,
            sheet_title(*ws) == t0,
            cells_ok(header_row_cells(hv, i as int)),
        decreases hs.len() - i,
    {
        match write_text(ws, 0, i as u16, hs[i].as_str(), fmt) {
            Err(e) => {
                proof {
                    assert(all.dom().contains((0int, i as int)));
                    lemma_cells_ok_bad(all, (0int, i as int));
                }
                return Err(xlsx_err(e));
            },
            Ok(()) => {},
        }
        assert(sheet_texts(*ws) =~= m0.union_prefer_right(header_row_cells(hv, i + 1)));
        assert forall|p: (int, int)| #[trigger] header_row_cells(hv, i + 1).dom().contains(p) implies cell_ok(
            p,
            header_row_cells(hv, i + 1)[p],
        ) by {
            if p.1 < i {
                assert(header_row_cells(hv, i as int).dom().contains(p));
            }
        }
        i = i + 1;
    }
    assert(header_row_cells(hv, i as int) =~= all);
    Ok(())
}

/// The first row's cells before column `n`: the texts `hs`.
pub open spec fn header_row_cells(hs: Seq<Seq<char>>, n: int) -> Map<(int, int), Seq<char>> {
    Map::new(|p: (int, int)| p.0 == 0 && 0 <= p.1 < n && p.1 < hs.len(), |p: (int, int)| hs[p.1])
}

/// The text of a constant entry that a sheet column headed `h` holds:
/// `name`, `type`, `value`, `export` (its label) or `desc`.
pub open spec fn const_text_by_header(e: ConstEntryView, h: Seq<char>) -> Seq<char> {
    if h == "name"@ {
        e.name
    } else if h == "type"@ {
        e.tbl_type
    } else if h == "value"@ {
        e.value
    } else if h == "export"@ {
        e.export.spec_display()
    } else {
        e.desc
    }
}

/// The text of an enum entry that a sheet column headed `h` holds: `id`,
/// `name` or `desc`.
pub open spec fn enum_text_by_header(e: EnumEntryView, h: Seq<char>) -> Seq<char> {
    if h == "id"@ {
        e.id
    } else if h == "name"@ {
        e.name
    } else {
        e.desc
    }
}

/// Each data cell of a constant sheet lies under the header that names
/// it: the writer puts under each header the entry's field of that name,
/// and the reader takes each field from the column headed by its name (the
/// export side read from its label).
pub proof fn law_constant_cells_under_their_headers(e: ConstEntryView, row: Seq<Seq<char>>)
    ensures
        forall|k: int| 0 <= k < 5 ==> #[trigger] const_field(e, k) == const_text_by_header(e, constant_headers()[k]),
        forall|k: int|
            0 <= k < 5 && constant_headers()[k] != "export"@ ==> const_text_by_header(
                const_entry_of(row),
                constant_headers()[k],
            ) == #[trigger] cell_of(row, k),
        forall|k: int|
            0 <= k < 5 && constant_headers()[k] == "export"@ ==> const_entry_of(row).export == Export::spec_from_text(
                crate::text::trim(#[trigger] cell_of(row, k)),
            ),
{
    reveal_strlit("name");
    reveal_strlit("type");
    reveal_strlit("value");
    reveal_strlit("export");
    reveal_strlit("desc");
    let hs = constant_headers();
    assert("type"@[0] != "name"@[0]);
    assert("value"@[0] != "name"@[0] && "value"@[0] != "type"@[0]);
    assert("export"@[0] != "name"@[0] && "export"@[0] != "type"@[0] && "export"@[0] != "value"@[0]);
    assert("desc"@[0] != "name"@[0] && "desc"@[0] != "type"@[0] && "desc"@[0] != "value"@[0] && "desc"@[0]
        != "export"@[0]);
    assert(hs[0] == "name"@ && hs[1] == "type"@ && hs[2] == "value"@ && hs[3] == "export"@ && hs[4] == "desc"@);
}

/// A table sheet and a plain sync sheet of the same table agree: the last
/// of the four header rows holds the column names that a sync sheet's
/// first row holds, and each record sits four rows down in the one as it
/// sits one row down in the other. The second header row reads back as the
/// column's export side.
pub proof fn law_table_sheet_matches_sync_sheet(t: TableView, r: int, c: int)
    ensures
        table_cell(t, 3, c) == fresh_cell(t, 0, c),
        r >= 0 ==> table_cell(t, 4 + r, c) == fresh_cell(t, 1 + r, c),
        0 <= c < t.fields.len() && t.fields[c].export != Export::Unselected ==> Export::spec_from_text(
            crate::text::trim(table_cell(t, 1, c).unwrap()),
        ) == t.fields[c].export,
{
    if 0 <= c < t.fields.len() && t.fields[c].export != Export::Unselected {
        crate::tbl_laws::law_export_text_round_trip(t.fields[c].export);
    }
}

/// Each data cell of an enum sheet lies under the header that names it:
/// the writer puts under each header the entry's field of that name, and
/// the reader takes each field from the column headed by its name.
pub proof fn law_enum_cells_under_their_headers(e: EnumEntryView, row: Seq<Seq<char>>)
    ensures
        forall|k: int| 0 <= k < 3 ==> #[trigger] enum_field(e, k) == enum_text_by_header(e, enum_headers()[k]),
        forall|k: int| 0 <= k < 3 ==> enum_text_by_header(enum_entry_of(row), enum_headers()[k]) == #[trigger] cell_of(row, k),
{
    reveal_strlit("id");
    reveal_strlit("name");
    reveal_strlit("desc");
    let hs = enum_headers();
    assert("name"@[0] != "id"@[0]);
    assert("desc"@[0] != "id"@[0] && "desc"@[0] != "name"@[0]);
    assert(hs[0] == "id"@ && hs[1] == "name"@ && hs[2] == "desc"@);
}

/// Cell `k` of a constant's row: name, type, value, export label, desc.
pub open spec fn const_field(e: ConstEntryView, k: int) -> Seq<char> {
    if k == 0 {
        e.name
    } else if k == 1 {
        e.tbl_type
    } else if k == 2 {
        e.value
    } else if k == 3 {
        e.export.spec_display()
    } else {
        e.desc
    }
}

/// The text the constant writer puts at row `r`, column `k`: the fixed
/// header row, then one row per entry.
pub open spec fn const_cell(c: ConstantView, r: int, k: int) -> Option<Seq<char>> {
    if r == 0 && 0 <= k < 5 {
        Some(constant_headers()[k])
    } else if 1 <= r < 1 + c.entries.len() && 0 <= k < 5 {
        Some(const_field(c.entries[r - 1], k))
    } else {
        None
    }
}

/// The constant writer's cells of the header and the entries before `rr`.
pub open spec fn const_cells_upto(c: ConstantView, rr: int) -> Map<(int, int), Seq<char>> {
    Map::new(|p: (int, int)| const_cell(c, p.0, p.1) is Some && p.0 - 1 < rr, |p: (int, int)| const_cell(c, p.0, p.1).unwrap())
}

/// The cells the constant writer fills.
pub open spec fn const_cells(c: ConstantView) -> Map<(int, int), Seq<char>> {
    const_cells_upto(c, c.entries.len() as int)
}

/// Cell `k` of an enum's row: id, name, desc.
pub open spec fn enum_field(e: EnumEntryView, k: int) -> Seq<char> {
    if k == 0 {
        e.id
    } else if k == 1 {
        e.name
    } else {
        e.desc
    }
}

/// The text the enum writer puts at row `r`, column `k`: the fixed header
/// row, then one row per entry.
pub open spec fn enum_cell(en: EnumDefView, r: int, k: int) -> Option<Seq<char>> {
    if r == 0 && 0 <= k < 3 {
        Some(enum_headers()[k])
    } else if 1 <= r < 1 + en.entries.len() && 0 <= k < 3 {
        Some(enum_field(en.entries[r - 1], k))
    } else {
        None
    }
}

/// The enum writer's cells of the header and the entries before `rr`.
pub open spec fn enum_cells_upto(en: EnumDefView, rr: int) -> Map<(int, int), Seq<char>> {
    Map::new(|p: (int, int)| enum_cell(en, p.0, p.1) is Some && p.0 - 1 < rr, |p: (int, int)| enum_cell(en, p.0, p.1).unwrap())
}

/// The cells the enum writer fills.
pub open spec fn enum_cells(en: EnumDefView) -> Map<(int, int), Seq<char>> {
    enum_cells_upto(en, en.entries.len() as int)
}

/// Freezes and locks a one-row header, leaving columns `0..=last_col` of
/// the data rows editable.
fn lock_single_header(ws: &mut Worksheet, last_col: u16) -> (r: Result<(), ExcelError>)
    ensures
        r is Ok <==> last_col < sheet_cols(),
        r is Err ==> r->Err_0 is Xlsx,
        sheet_texts(*final(ws)) == sheet_texts(*old(ws)),
        r is Ok ==> sheet_lock(*final(ws)) == (
            1int,
            0int,
            Some((true, true, true)),
            sheet_lock(*old(ws)).3.push((1int, 0int, EXCEL_MAX_ROW as int, last_col as int)),
        ),
        sheet_title(*final(ws)) == sheet_title(*old(ws)),
{
    match freeze_panes(ws, 1, 0) {
        Err(e) => { return Err(xlsx_err(e)); },
        Ok(()) => {},
    }
    protect_sheet(ws, &sheet_protection());
    match unprotect_range(ws, 1, 0, EXCEL_MAX_ROW, last_col) {
        Err(e) => Err(xlsx_err(e)),
        Ok(()) => Ok(()),
    }
}

/// Writes a constant to a sheet: the header row name / type / value /
/// export / desc, then one row per entry; header frozen and locked.
#[verifier::loop_isolation(false)]
pub fn write_constant(ws: &mut Worksheet, constant: &Constant) -> (r: Result<(), ExcelError>)
    requires
        constant.entries@.len() + 1 <= u32::MAX,
    ensures
        r is Err ==> r->Err_0 is Xlsx,
        r is Ok <==> cells_ok(const_cells(constant@)),
        r is Ok ==> sheet_texts(*final(ws)) == sheet_texts(*old(ws)).union_prefer_right(const_cells(constant@)),
        r is Ok ==> sheet_lock(*final(ws)) == (
            1int,
            0int,
            Some((true, true, true)),
            sheet_lock(*old(ws)).3.push((1int, 0int, EXCEL_MAX_ROW as int, 4int)),
        ),
        sheet_title(*final(ws)) == sheet_title(*old(ws)),
{
    let ghost cv = constant@;
    let ghost m0 = sheet_texts(*old(ws));
    let ghost l0 = sheet_lock(*old(ws));
    let ghost t0 = sheet_title(*old(ws));
    let ghost all = const_cells(cv);
    let header_fmt = header_format();
    let body_fmt = body_format();
    let hs = fixed_headers(true);
    proof {
        reveal_strlit("name");
        reveal_strlit("type");
        reveal_strlit("value");
        reveal_strlit("export");
        reveal_strlit("desc");
    }
    assert(header_row_cells(views_of(hs@), hs@.len() as int) =~= const_cells_upto(cv, 0));
    match write_header_row(ws, &hs, &header_fmt) {
        Err(e) => {
            proof {
                assert(!cells_ok(const_cells_upto(cv, 0)));
                let p = choose|p: (int, int)| #[trigger] const_cells_upto(cv, 0).dom().contains(p) && !cell_ok(p, const_cells_upto(cv, 0)[p]);
                assert(all.dom().contains(p));
                lemma_cells_ok_bad(all, p);
            }
            return Err(e);
        },
        Ok(()) => {},
    }
    let mut r: usize = 0;
    while r < constant.entries.len()
        invariant
            r <= constant.entries@.len(),
            constant.entries@.len() + 1 <= u32::MAX,
            cv == constant@,
            all == const_cells(cv),
            cv.entries.len() == constant.entries@.len(),
            sheet_texts(*ws) == m0.union_prefer_right(const_cells_upto(cv, r as int)),
            sheet_lock(*ws) == l0,
            sheet_title(*ws) == t0,
            cells_ok(const_cells_upto(cv, r as int)),
        decreases constant.entries.len() - r,
    {
        let e = &constant.entries[r];
        assert(cv.entries[r as int] == e@);
        let row = (r + 1) as u32;
        match write_text(ws, row, 0, e.name.as_str(), &body_fmt) {
            Err(x) => {
                proof {
                    assert(all.dom().contains((r + 1, 0int)));
                    lemma_cells_ok_bad(all, (r + 1, 0int));
                }
                return Err(xlsx_err(x));
            },
            Ok(()) => {},
        }
        match write_text(ws, row, 1, e.tbl_type.as_str(), &body_fmt) {
            Err(x) => {
                proof {
                    assert(all.dom().contains((r + 1, 1int)));
                    lemma_cells_ok_bad(all, (r + 1, 1int));
                }
                return Err(xlsx_err(x));
            },
            Ok(()) => {},
        }
        match write_text(ws, row, 2, e.value.as_str(), &body_fmt) {
            Err(x) => {
                proof {
                    assert(all.dom().contains((r + 1, 2int)));
                    lemma_cells_ok_bad(all, (r + 1, 2int));
                }
                return Err(xlsx_err(x));
            },
            Ok(()) => {},
        }
        match write_text(ws, row, 3, e.export.display(), &body_fmt) {
            Err(x) => {
                proof {
                    assert(all.dom().contains((r + 1, 3int)));
                    lemma_cells_ok_bad(all, (r + 1, 3int));
                }
                return Err(xlsx_err(x));
            },
            Ok(()) => {},
        }
        match write_text(ws, row, 4, e.desc.as_str(), &body_fmt) {
            Err(x) => {
                proof {
                    assert(all.dom().contains((r + 1, 4int)));
                    lemma_cells_ok_bad(all, (r + 1, 4int));
                }
                return Err(xlsx_err(x));
            },
            Ok(()) => {},
        }
        assert(sheet_texts(*ws) =~= m0.union_prefer_right(const_cells_upto(cv, r + 1)));
        assert forall|p: (int, int)| #[trigger] const_cells_upto(cv, r + 1).dom().contains(p) implies cell_ok(
            p,
            const_cells_upto(cv, r + 1)[p],
        ) by {
            if p.0 != r + 1 {
                assert(const_cells_upto(cv, r as int).dom().contains(p));
            }
        }
        r = r + 1;
    }
    assert(const_cells_upto(cv, r as int) =~= all);
    lock_single_header(ws, 4)
}

/// Writes an enum to a sheet: the header row id / name / desc, then one
/// row per entry; header frozen and locked.
#[verifier::loop_isolation(false)]
pub fn write_enum(ws: &mut Worksheet, enum_def: &EnumDef) -> (r: Result<(), ExcelError>)
    requires
        enum_def.entries@.len() + 1 <= u32::MAX,
    ensures
        r is Err ==> r->Err_0 is Xlsx,
        r is Ok <==> cells_ok(enum_cells(enum_def@)),
        r is Ok ==> sheet_texts(*final(ws)) == sheet_texts(*old(ws)).union_prefer_right(enum_cells(enum_def@)),
        r is Ok ==> sheet_lock(*final(ws)) == (
            1int,
            0int,
            Some((true, true, true)),
            sheet_lock(*old(ws)).3.push((1int, 0int, EXCEL_MAX_ROW as int, 2int)),
        ),
        sheet_title(*final(ws)) == sheet_title(*old(ws)),
{
    let ghost ev = enum_def@;
    let ghost m0 = sheet_texts(*old(ws));
    let ghost l0 = sheet_lock(*old(ws));
    let ghost t0 = sheet_title(*old(ws));
    let ghost all = enum_cells(ev);
    let header_fmt = header_format();
    let body_fmt = body_format();
    let hs = fixed_headers(false);
    proof {
        reveal_strlit("id");
        reveal_strlit("name");
        reveal_strlit("desc");
    }
    assert(header_row_cells(views_of(hs@), hs@.len() as int) =~= enum_cells_upto(ev, 0));
    match write_header_row(ws, &hs, &header_fmt) {
        Err(e) => {
            proof {
                assert(!cells_ok(enum_cells_upto(ev, 0)));
                let p = choose|p: (int, int)| #[trigger] enum_cells_upto(ev, 0).dom().contains(p) && !cell_ok(p, enum_cells_upto(ev, 0)[p]);
                assert(all.dom().contains(p));
                lemma_cells_ok_bad(all, p);
            }
            return Err(e);
        },
        Ok(()) => {},
    }
    let mut r: usize = 0;
    while r < enum_def.entries.len()
        invariant
            r <= enum_def.entries@.len(),
            enum_def.entries@.len() + 1 <= u32::MAX,
            ev == enum_def@,
            all == enum_cells(ev),
            ev.entries.len() == enum_def.entries@.len(),
            sheet_texts(*ws) == m0.union_prefer_right(enum_cells_upto(ev, r as int)),
            sheet_lock(*ws) == l0,
            sheet_title(*ws) == t0,
            cells_ok(enum_cells_upto(ev, r as int)),
        decreases enum_def.entries.len() - r,
    {
        let e = &enum_def.entries[r];
        assert(ev.entries[r as int] == e@);
        let row = (r + 1) as u32;
        match write_text(ws, row, 0, e.id.as_str(), &body_fmt) {
            Err(x) => {
                proof {
                    assert(all.dom().contains((r + 1, 0int)));
                    lemma_cells_ok_bad(all, (r + 1, 0int));
                }
                return Err(xlsx_err(x));
            },
            Ok(()) => {},
        }
        match write_text(ws, row, 1, e.name.as_str(), &body_fmt) {
            Err(x) => {
                proof {
                    assert(all.dom().contains((r + 1, 1int)));
                    lemma_cells_ok_bad(all, (r + 1, 1int));
                }
                return Err(xlsx_err(x));
            },
            Ok(()) => {},
        }
        match write_text(ws, row, 2, e.desc.as_str(), &body_fmt) {
            Err(x) => {
                proof {
                    assert(all.dom().contains((r + 1, 2int)));
                    lemma_cells_ok_bad(all, (r + 1, 2int));
                }
                return Err(xlsx_err(x));
            },
            Ok(()) => {},
        }
        assert(sheet_texts(*ws) =~= m0.union_prefer_right(enum_cells_upto(ev, r + 1)));
        assert forall|p: (int, int)| #[trigger] enum_cells_upto(ev, r + 1).dom().contains(p) implies cell_ok(
            p,
            enum_cells_upto(ev, r + 1)[p],
        ) by {
            if p.0 != r + 1 {
                assert(enum_cells_upto(ev, r as int).dom().contains(p));
            }
        }
        r = r + 1;
    }
    assert(enum_cells_upto(ev, r as int) =~= all);
    lock_single_header(ws, 2)
}

/// The sizes a table must keep to for the writer's row and column types.
pub open spec fn table_fits(t: Table) -> bool {
    &&& t.schema.fields@.len() <= u16::MAX
    &&& t.records@.len() + 4 <= u32::MAX
    &&& forall|i: int| 0 <= i < t.records@.len() ==> #[trigger] t.records@[i]@.len() <= u16::MAX
}

/// The sizes a group must keep to for the writer's row and column types.
pub open spec fn group_fits(g: Group) -> bool {
    &&& forall|i: int| 0 <= i < g.tables@.len() ==> table_fits(#[trigger] g.tables@[i])
    &&& forall|i: int| 0 <= i < g.constants@.len() ==> #[trigger] g.constants@[i].entries@.len() + 1 <= u32::MAX
    &&& forall|i: int| 0 <= i < g.enums@.len() ==> #[trigger] g.enums@[i].entries@.len() + 1 <= u32::MAX
}

/// The text a fresh sync sheet holds at row `r`, column `c`: the column
/// names in the first row, then each record.
pub open spec fn fresh_cell(t: TableView, r: int, c: int) -> Option<Seq<char>> {
    if r == 0 && 0 <= c < t.fields.len() {
        Some(t.fields[c].name)
    } else if 1 <= r < 1 + t.records.len() && 0 <= c < t.records[r - 1].len() {
        Some(t.records[r - 1][c])
    } else {
        None
    }
}

pub open spec fn fresh_cells_upto(t: TableView, hc: int, rr: int, cc: int) -> Map<(int, int), Seq<char>> {
    Map::new(
        |p: (int, int)|
            fresh_cell(t, p.0, p.1) is Some && ((p.0 == 0 && p.1 < hc) || (p.0 >= 1 && (p.0 - 1 < rr || (p.0 - 1
                == rr && p.1 < cc)))),
        |p: (int, int)| fresh_cell(t, p.0, p.1).unwrap(),
    )
}

/// The cells of a fresh sync sheet of `t`.
pub open spec fn fresh_cells(t: TableView) -> Map<(int, int), Seq<char>> {
    Map::new(|p: (int, int)| fresh_cell(t, p.0, p.1) is Some, |p: (int, int)| fresh_cell(t, p.0, p.1).unwrap())
}

/// The sizes a table must keep to for a fresh sync sheet.
pub open spec fn fresh_fits(t: Table) -> bool {
    &&& t.schema.fields@.len() <= u16::MAX
    &&& t.records@.len() + 1 <= u32::MAX
    &&& forall|i: int| 0 <= i < t.records@.len() ==> #[trigger] t.records@[i]@.len() <= u16::MAX
}

/// Writes a table as a plain sync sheet: the column names in the first
/// row, then the records. Only the writer can fail: on a cell outside the
/// sheet or a text over its length limit.
#[verifier::loop_isolation(false)]
pub fn write_fresh_table(ws: &mut Worksheet, table: &Table) -> (r: Result<(), ExcelError>)
    requires
        fresh_fits(*table),
    ensures
        r is Err ==> r->Err_0 is Xlsx,
        r is Ok <==> cells_ok(fresh_cells(table@)),
        r is Ok ==> sheet_texts(*final(ws)) == sheet_texts(*old(ws)).union_prefer_right(fresh_cells(table@)),
        sheet_lock(*final(ws)) == sheet_lock(*old(ws)),
        sheet_title(*final(ws)) == sheet_title(*old(ws)),
{
    let ghost tv = table@;
    let ghost m0 = sheet_texts(*old(ws));
    let ghost l0 = sheet_lock(*old(ws));
    let ghost t0 = sheet_title(*old(ws));
    let ghost all = fresh_cells(tv);
    let hdr = header_format();
    let bdy = body_format();
    let fields = &table.schema.fields;
    assert(tv.fields == field_defs_view(fields@));
    assert(m0.union_prefer_right(fresh_cells_upto(tv, 0, 0, 0)) =~= m0);
    let mut i: usize = 0;
    while i < fields.len()
        invariant
            i <= fields@.len(),
            fields@.len() <= u16::MAX,
            tv == table@,
            tv.fields == field_defs_view(fields@),
            all == fresh_cells(tv),
            sheet_texts(*ws) == m0.union_prefer_right(fresh_cells_upto(tv, i as int, 0, 0)),
            sheet_lock(*ws) == l0,
            sheet_title(*ws) == t0,
            cells_ok(fresh_cells_upto(tv, i as int, 0, 0)),
        decreases fields.len() - i,
    {
        assert(tv.fields[i as int] == fields@[i as int]@);
        match write_text(ws, 0, i as u16, fields[i].name.as_str(), &hdr) {
            Err(e) => {
                proof {
                    assert(all.dom().contains((0int, i as int)));
                    lemma_cells_ok_bad(all, (0int, i as int));
                }
                return Err(xlsx_err(e));
            },
            Ok(()) => {},
        }
        assert(sheet_texts(*ws) =~= m0.union_prefer_right(fresh_cells_upto(tv, i + 1, 0, 0)));
        assert forall|p: (int, int)| #[trigger] fresh_cells_upto(tv, i + 1, 0, 0).dom().contains(p) implies cell_ok(
            p,
            fresh_cells_upto(tv, i + 1, 0, 0)[p],
        ) by {
            if p.1 < i {
                assert(fresh_cells_upto(tv, i as int, 0, 0).dom().contains(p));
            }
        }
        i = i + 1;
    }
    let mut r: usize = 0;
    while r < table.records.len()
        invariant
            r <= table.records@.len(),
            fresh_fits(*table),
            tv == table@,
            tv.records.len() == table.records@.len(),
            all == fresh_cells(tv),
            sheet_texts(*ws) == m0.union_prefer_right(fresh_cells_upto(tv, tv.fields.len() as int, r as int, 0)),
            sheet_lock(*ws) == l0,
            sheet_title(*ws) == t0,
            cells_ok(fresh_cells_upto(tv, tv.fields.len() as int, r as int, 0)),
        decreases table.records.len() - r,
    {
        let row = &table.records[r];
        assert(row@.len() <= u16::MAX);
        let row_idx = (r + 1) as u32;
        assert(tv.records[r as int] == row@.map_values(|x: String| x@));
        let mut c: usize = 0;
        while c < row.len()
            invariant
                c <= row@.len(),
                row@.len() <= u16::MAX,
                row_idx == r + 1,
                r < tv.records.len(),
                tv == table@,
                tv.records[r as int] == row@.map_values(|x: String| x@),
                sheet_texts(*ws) == m0.union_prefer_right(
                    fresh_cells_upto(tv, tv.fields.len() as int, r as int, c as int),
                ),
                all == fresh_cells(tv),
                sheet_lock(*ws) == l0,
                sheet_title(*ws) == t0,
                cells_ok(fresh_cells_upto(tv, tv.fields.len() as int, r as int, c as int)),
            decreases row.len() - c,
        {
            match write_text(ws, row_idx, c as u16, row[c].as_str(), &bdy) {
                Err(e) => {
                    proof {
                        assert(all.dom().contains((r + 1, c as int)));
                        lemma_cells_ok_bad(all, (r + 1, c as int));
                    }
                    return Err(xlsx_err(e));
                },
                Ok(()) => {},
            }
            assert(sheet_texts(*ws) =~= m0.union_prefer_right(
                fresh_cells_upto(tv, tv.fields.len() as int, r as int, c + 1),
            ));
            assert forall|p: (int, int)| #[trigger] fresh_cells_upto(tv, tv.fields.len() as int, r as int, c + 1).dom().contains(
                p,
            ) implies cell_ok(p, fresh_cells_upto(tv, tv.fields.len() as int, r as int, c + 1)[p]) by {
                if p != (r + 1, c as int) {
                    assert(fresh_cells_upto(tv, tv.fields.len() as int, r as int, c as int).dom().contains(p));
                }
            }
            c = c + 1;
        }
        assert(fresh_cells_upto(tv, tv.fields.len() as int, r as int, c as int) =~= fresh_cells_upto(
            tv,
            tv.fields.len() as int,
            r + 1,
            0,
        ));
        r = r + 1;
    }
    assert(fresh_cells_upto(tv, tv.fields.len() as int, r as int, 0) =~= fresh_cells(tv));
    Ok(())
}

/// The sheets of a fresh sync workbook of the tables `ts`: one per table
/// that is not deleted, in order, named from the table and holding its
/// plain sync cells (see [`fresh_cells`]).
pub open spec fn fresh_book_sheets(ts: Seq<TableView>) -> Seq<(Seq<char>, Map<(int, int), Seq<char>>)>
    decreases ts.len(),
{
    if ts.len() == 0 {
        seq![]
    } else {
        fresh_book_sheets(ts.drop_last()) + if ts.last().deleted {
            Seq::<(Seq<char>, Map<(int, int), Seq<char>>)>::empty()
        } else {
            seq![(spec_sanitize_sheet_name(ts.last().name), fresh_cells(ts.last()))]
        }
    }
}

/// Every table of `ts` that is not deleted has a sheet name and cells that
/// Excel accepts.
pub open spec fn fresh_book_writable(ts: Seq<TableView>) -> bool {
    forall|k: int|
        #![trigger ts[k]]
        0 <= k < ts.len() && !ts[k].deleted ==> sheet_name_ok(spec_sanitize_sheet_name(ts[k].name)) && cells_ok(
            fresh_cells(ts[k]),
        )
}

/// A group's tables that are not deleted, one plain sync sheet each (see
/// [`write_fresh_table`]) named from the table, as a workbook ready to be
/// saved.
pub fn fresh_group_workbook(group: &Group) -> (r: Result<Workbook, ExcelError>)
    requires
        forall|i: int| 0 <= i < group.tables@.len() ==> fresh_fits(#[trigger] group.tables@[i]),
    ensures
        r is Err ==> r->Err_0 is Xlsx,
        r is Ok <==> fresh_book_writable(group@.tables),
        r matches Ok(wb) ==> workbook_sheets(wb) == fresh_book_sheets(group@.tables),
{
    let ghost tv = group@.tables;
    let mut wb = new_workbook();
    let mut i: usize = 0;
    assert(tv.take(0) =~= Seq::<TableView>::empty());
    while i < group.tables.len()
        invariant
            i <= group.tables@.len(),
            tv == group@.tables,
            tv.len() == group.tables@.len(),
            forall|j: int| 0 <= j < group.tables@.len() ==> fresh_fits(#[trigger] group.tables@[j]),
            workbook_sheets(wb) == fresh_book_sheets(tv.take(i as int)),
            fresh_book_writable(tv.take(i as int)),
        decreases group.tables.len() - i,
    {
        let t = &group.tables[i];
        assert(tv[i as int] == t@);
        assert(tv.take(i + 1).drop_last() =~= tv.take(i as int));
        assert(tv.take(i + 1).last() == t@);
        if !t.deleted {
            let mut ws = new_worksheet();
            match set_sheet_name(&mut ws, sanitize_sheet_name(t.name.as_str()).as_str()) {
                Err(e) => {
                    assert(!fresh_book_writable(tv)) by {
                        assert(tv[i as int] == t@);
                    }
                    return Err(xlsx_err(e));
                },
                Ok(()) => {},
            }
            assert(fresh_fits(group.tables@[i as int]));
            match write_fresh_table(&mut ws, t) {
                Err(e) => {
                    assert(!fresh_book_writable(tv)) by {
                        assert(tv[i as int] == t@);
                    }
                    return Err(e);
                },
                Ok(()) => {},
            }
            assert(no_cells().union_prefer_right(fresh_cells(t@)) =~= fresh_cells(t@));
            push_sheet(&mut wb, ws);
        }
        assert(workbook_sheets(wb) =~= fresh_book_sheets(tv.take(i + 1)));
        assert forall|k: int|
            #![trigger tv.take(i + 1)[k]]
            0 <= k < tv.take(i + 1).len() && !tv.take(i + 1)[k].deleted implies sheet_name_ok(
                spec_sanitize_sheet_name(tv.take(i + 1)[k].name),
            ) && cells_ok(fresh_cells(tv.take(i + 1)[k])) by {
            if k < i {
                assert(tv.take(i + 1)[k] == tv.take(i as int)[k]);
            }
        }
        i = i + 1;
    }
    assert(tv.take(i as int) =~= tv);
    Ok(wb)
}

/// A group's tables that are not deleted as the bytes of a sync workbook
/// (see [`fresh_group_workbook`]); past that workbook only the writer's
/// save can fail.
pub fn fresh_group_book(group: &Group) -> (r: Result<Vec<u8>, ExcelError>)
    requires
        forall|i: int| 0 <= i < group.tables@.len() ==> fresh_fits(#[trigger] group.tables@[i]),
    ensures
        r is Err ==> r->Err_0 is Xlsx,
        r is Ok ==> fresh_book_writable(group@.tables),
{
    let mut wb = match fresh_group_workbook(group) {
        Err(e) => { return Err(e); },
        Ok(w) => w,
    };
    match save_book(&mut wb) {
        Err(e) => Err(xlsx_err(e)),
        Ok(b) => Ok(b),
    }
}

/// One table as a one-sheet workbook, ready to be saved: the sheet is named
/// from it (see [`sanitize_sheet_name`]) and holds its cells.
pub fn table_workbook(table: &Table) -> (r: Result<Workbook, ExcelError>)
    requires
        table_fits(*table),
    ensures
        r is Err ==> r->Err_0 is Xlsx,
        r is Ok <==> sheet_name_ok(spec_sanitize_sheet_name(table@.name)) && cells_ok(table_cells(table@)),
        r matches Ok(wb) ==> workbook_sheets(wb) == seq![(spec_sanitize_sheet_name(table@.name), table_cells(table@))],
{
    let mut wb = new_workbook();
    let mut ws = new_worksheet();
    let name = sanitize_sheet_name(table.name.as_str());
    match set_sheet_name(&mut ws, name.as_str()) {
        Err(e) => { return Err(xlsx_err(e)); },
        Ok(()) => {},
    }
    match write_table(&mut ws, table) {
        Err(e) => { return Err(e); },
        Ok(()) => {},
    }
    assert(no_cells().union_prefer_right(table_cells(table@)) =~= table_cells(table@));
    push_sheet(&mut wb, ws);
    assert(workbook_sheets(wb) =~= seq![(spec_sanitize_sheet_name(table@.name), table_cells(table@))]);
    Ok(wb)
}

/// One table as the bytes of a one-sheet workbook (see [`table_workbook`]);
/// past that workbook only the writer's save can fail.
pub fn export_table_book(table: &Table) -> (r: Result<Vec<u8>, ExcelError>)
    requires
        table_fits(*table),
    ensures
        r is Err ==> r->Err_0 is Xlsx,
        r is Ok ==> sheet_name_ok(spec_sanitize_sheet_name(table@.name)) && cells_ok(table_cells(table@)),
{
    let mut wb = match table_workbook(table) {
        Err(e) => { return Err(e); },
        Ok(w) => w,
    };
    match save_book(&mut wb) {
        Err(e) => Err(xlsx_err(e)),
        Ok(b) => Ok(b),
    }
}

/// One constant as a one-sheet workbook, ready to be saved: the sheet is named
/// from it (see [`sanitize_sheet_name`]) and holds its cells.
pub fn constant_workbook(constant: &Constant) -> (r: Result<Workbook, ExcelError>)
    requires
        constant.entries@.len() + 1 <= u32::MAX,
    ensures
        r is Err ==> r->Err_0 is Xlsx,
        r is Ok <==> sheet_name_ok(spec_sanitize_sheet_name(constant@.name)) && cells_ok(const_cells(constant@)),
        r matches Ok(wb) ==> workbook_sheets(wb) == seq![(spec_sanitize_sheet_name(constant@.name), const_cells(constant@))],
{
    let mut wb = new_workbook();
    let mut ws = new_worksheet();
    let name = sanitize_sheet_name(constant.name.as_str());
    match set_sheet_name(&mut ws, name.as_str()) {
        Err(e) => { return Err(xlsx_err(e)); },
        Ok(()) => {},
    }
    match write_constant(&mut ws, constant) {
        Err(e) => { return Err(e); },
        Ok(()) => {},
    }
    assert(no_cells().union_prefer_right(const_cells(constant@)) =~= const_cells(constant@));
    push_sheet(&mut wb, ws);
    assert(workbook_sheets(wb) =~= seq![(spec_sanitize_sheet_name(constant@.name), const_cells(constant@))]);
    Ok(wb)
}

/// One constant as the bytes of a one-sheet workbook (see [`constant_workbook`]);
/// past that workbook only the writer's save can fail.
pub fn export_constant_book(constant: &Constant) -> (r: Result<Vec<u8>, ExcelError>)
    requires
        constant.entries@.len() + 1 <= u32::MAX,
    ensures
        r is Err ==> r->Err_0 is Xlsx,
        r is Ok ==> sheet_name_ok(spec_sanitize_sheet_name(constant@.name)) && cells_ok(const_cells(constant@)),
{
    let mut wb = match constant_workbook(constant) {
        Err(e) => { return Err(e); },
        Ok(w) => w,
    };
    match save_book(&mut wb) {
        Err(e) => Err(xlsx_err(e)),
        Ok(b) => Ok(b),
    }
}

/// One enum as a one-sheet workbook, ready to be saved: the sheet is named
/// from it (see [`sanitize_sheet_name`]) and holds its cells.
pub fn enum_workbook(enum_def: &EnumDef) -> (r: Result<Workbook, ExcelError>)
    requires
        enum_def.entries@.len() + 1 <= u32::MAX,
    ensures
        r is Err ==> r->Err_0 is Xlsx,
        r is Ok <==> sheet_name_ok(spec_sanitize_sheet_name(enum_def@.name)) && cells_ok(enum_cells(enum_def@)),
        r matches Ok(wb) ==> workbook_sheets(wb) == seq![(spec_sanitize_sheet_name(enum_def@.name), enum_cells(enum_def@))],
{
    let mut wb = new_workbook();
    let mut ws = new_worksheet();
    let name = sanitize_sheet_name(enum_def.name.as_str());
    match set_sheet_name(&mut ws, name.as_str()) {
        Err(e) => { return Err(xlsx_err(e)); },
        Ok(()) => {},
    }
    match write_enum(&mut ws, enum_def) {
        Err(e) => { return Err(e); },
        Ok(()) => {},
    }
    assert(no_cells().union_prefer_right(enum_cells(enum_def@)) =~= enum_cells(enum_def@));
    push_sheet(&mut wb, ws);
    assert(workbook_sheets(wb) =~= seq![(spec_sanitize_sheet_name(enum_def@.name), enum_cells(enum_def@))]);
    Ok(wb)
}

/// One enum as the bytes of a one-sheet workbook (see [`enum_workbook`]);
/// past that workbook only the writer's save can fail.
pub fn export_enum_book(enum_def: &EnumDef) -> (r: Result<Vec<u8>, ExcelError>)
    requires
        enum_def.entries@.len() + 1 <= u32::MAX,
    ensures
        r is Err ==> r->Err_0 is Xlsx,
        r is Ok ==> sheet_name_ok(spec_sanitize_sheet_name(enum_def@.name)) && cells_ok(enum_cells(enum_def@)),
{
    let mut wb = match enum_workbook(enum_def) {
        Err(e) => { return Err(e); },
        Ok(w) => w,
    };
    match save_book(&mut wb) {
        Err(e) => Err(xlsx_err(e)),
        Ok(b) => Ok(b),
    }
}

/// The node a sheet stands for is one of the group's.
pub open spec fn node_in_group(n: NodeRef, g: GroupView) -> bool {
    match n {
        NodeRef::Table(k) => k < g.tables.len(),
        NodeRef::Constant(k) => k < g.constants.len(),
        NodeRef::Enum(k) => k < g.enums.len(),
    }
}

proof fn lemma_wanted_in_group(g: GroupView, only: Option<Seq<Seq<char>>>)
    ensures
        forall|q: int|
            0 <= q < wanted_nodes(g, only).len() ==> node_in_group(#[trigger] wanted_nodes(g, only)[q].1, g),
{
    lemma_wanted_tables_bound(g.tables, only);
    lemma_wanted_constants_bound(g.constants, only);
    lemma_wanted_enums_bound(g.enums, only);
    let a = wanted_tables(g.tables, only);
    let b = wanted_constants(g.constants, only);
    let c = wanted_enums(g.enums, only);
    assert forall|q: int| 0 <= q < wanted_nodes(g, only).len() implies node_in_group(
        #[trigger] wanted_nodes(g, only)[q].1,
        g,
    ) by {
        if q < a.len() {
            assert(wanted_nodes(g, only)[q] == a[q]);
        } else if q < a.len() + b.len() {
            assert(wanted_nodes(g, only)[q] == b[q - a.len()]);
        } else {
            assert(wanted_nodes(g, only)[q] == c[q - a.len() - b.len()]);
        }
    }
}

proof fn lemma_wanted_tables_bound(ts: Seq<TableView>, only: Option<Seq<Seq<char>>>)
    ensures
        forall|q: int|
            0 <= q < wanted_tables(ts, only).len() ==> ((#[trigger] wanted_tables(ts, only)[q].1) matches NodeRef::Table(
                k,
            ) && k < ts.len()),
    decreases ts.len(),
{
    if ts.len() > 0 {
        lemma_wanted_tables_bound(ts.drop_last(), only);
    }
}

proof fn lemma_wanted_constants_bound(cs: Seq<ConstantView>, only: Option<Seq<Seq<char>>>)
    ensures
        forall|q: int|
            0 <= q < wanted_constants(cs, only).len() ==> ((#[trigger] wanted_constants(cs, only)[q].1) matches NodeRef::Constant(
                k,
            ) && k < cs.len()),
    decreases cs.len(),
{
    if cs.len() > 0 {
        lemma_wanted_constants_bound(cs.drop_last(), only);
    }
}

proof fn lemma_wanted_enums_bound(es: Seq<EnumDefView>, only: Option<Seq<Seq<char>>>)
    ensures
        forall|q: int|
            0 <= q < wanted_enums(es, only).len() ==> ((#[trigger] wanted_enums(es, only)[q].1) matches NodeRef::Enum(
                k,
            ) && k < es.len()),
    decreases es.len(),
{
    if es.len() > 0 {
        lemma_wanted_enums_bound(es.drop_last(), only);
    }
}

proof fn lemma_named_sheets_nodes(nodes: Seq<(Seq<char>, NodeRef)>, k: int)
    requires
        0 <= k <= nodes.len(),
    ensures
        named_sheets(nodes, k).0.len() == k,
        forall|q: int| 0 <= q < k ==> (#[trigger] named_sheets(nodes, k).0[q]).1 == nodes[q].1,
    decreases k,
{
    if k > 0 {
        lemma_named_sheets_nodes(nodes, k - 1);
    }
}

/// The cells the writer of a node's kind fills for node `n` of `g`.
pub open spec fn node_cells(g: GroupView, n: NodeRef) -> Map<(int, int), Seq<char>> {
    match n {
        NodeRef::Table(k) => table_cells(g.tables[k as int]),
        NodeRef::Constant(k) => const_cells(g.constants[k as int]),
        NodeRef::Enum(k) => enum_cells(g.enums[k as int]),
    }
}

/// The sheets of a group's workbook: each listed sheet's name with the
/// cells of its node.
pub open spec fn sheets_contents(g: GroupView, sheets: Seq<(Seq<char>, NodeRef)>) -> Seq<
    (Seq<char>, Map<(int, int), Seq<char>>),
> {
    sheets.map_values(|x: (Seq<char>, NodeRef)| (x.0, node_cells(g, x.1)))
}

/// Every listed sheet has a name and cells that Excel accepts.
pub open spec fn sheets_writable(g: GroupView, sheets: Seq<(Seq<char>, NodeRef)>) -> bool {
    forall|q: int|
        #![trigger sheets[q]]
        0 <= q < sheets.len() ==> sheet_name_ok(sheets[q].0) && cells_ok(node_cells(g, sheets[q].1))
}

/// A group, or the listed nodes of it, as a workbook of one sheet per node
/// (see [`group_book_sheets`] for the sheets and the refused lists), ready
/// to be saved; past the lists only the writer can fail.
pub fn group_workbook(group: &Group, only: Option<&[&str]>) -> (r: Result<Workbook, ExcelError>)
    requires
        group_fits(*group),
    ensures
        match r {
            Err(ExcelError::EmptyOnly) => only_is_empty(only_view(only)),
            Err(ExcelError::UnknownNodes { group: g, names }) => {
                &&& !only_is_empty(only_view(only))
                &&& !all_known(only_view(only), node_names(group@))
                &&& g@ == group@.name
                &&& lists_missing(views_of(names@), only_view(only).unwrap(), node_names(group@))
            },
            Err(ExcelError::Xlsx(_)) => {
                &&& !only_is_empty(only_view(only))
                &&& all_known(only_view(only), node_names(group@))
                &&& !sheets_writable(group@, book_sheets(group@, only_view(only)))
            },
            Err(_) => false,
            Ok(wb) => {
                &&& !only_is_empty(only_view(only))
                &&& all_known(only_view(only), node_names(group@))
                &&& sheets_writable(group@, book_sheets(group@, only_view(only)))
                &&& workbook_sheets(wb) == sheets_contents(group@, book_sheets(group@, only_view(only)))
            },
        },
{
    let sheets = match group_book_sheets(group, only) {
        Err(e) => { return Err(e); },
        Ok(v) => v,
    };
    let ghost g = group@;
    let ghost sv = sheet_list_view(sheets@);
    proof {
        let nodes = wanted_nodes(group@, only_view(only));
        lemma_wanted_in_group(group@, only_view(only));
        lemma_named_sheets_nodes(nodes, nodes.len() as int);
        assert forall|q: int| 0 <= q < sheets@.len() implies node_in_group(#[trigger] sheets@[q].1, group@) by {
            assert(sheet_list_view(sheets@)[q].1 == sheets@[q].1);
            assert(named_sheets(nodes, nodes.len() as int).0[q].1 == nodes[q].1);
        }
    }
    let mut wb = new_workbook();
    let mut i: usize = 0;
    assert(sheets_contents(g, sv.take(0)) =~= Seq::<(Seq<char>, Map<(int, int), Seq<char>>)>::empty());
    while i < sheets.len()
        invariant
            i <= sheets@.len(),
            group_fits(*group),
            g == group@,
            sv == sheet_list_view(sheets@),
            sv == book_sheets(group@, only_view(only)),
            !only_is_empty(only_view(only)),
            all_known(only_view(only), node_names(group@)),
            forall|q: int| 0 <= q < sheets@.len() ==> node_in_group(#[trigger] sheets@[q].1, group@),
            workbook_sheets(wb) == sheets_contents(g, sv.take(i as int)),
            sheets_writable(g, sv.take(i as int)),
        decreases sheets.len() - i,
    {
        assert(sv[i as int] == (sheets@[i as int].0@, sheets@[i as int].1));
        let mut ws = new_worksheet();
        match set_sheet_name(&mut ws, sheets[i].0.as_str()) {
            Err(e) => {
                assert(!sheets_writable(g, sv)) by {
                    assert(sv[i as int] == (sheets@[i as int].0@, sheets@[i as int].1));
                }
                return Err(xlsx_err(e));
            },
            Ok(()) => {},
        }
        assert(node_in_group(sheets@[i as int].1, group@));
        let written = match sheets[i].1 {
            NodeRef::Table(k) => {
                assert(g.tables[k as int] == group.tables@[k as int]@);
                write_table(&mut ws, &group.tables[k])
            },
            NodeRef::Constant(k) => {
                assert(g.constants[k as int] == group.constants@[k as int]@);
                write_constant(&mut ws, &group.constants[k])
            },
            NodeRef::Enum(k) => {
                assert(g.enums[k as int] == group.enums@[k as int]@);
                write_enum(&mut ws, &group.enums[k])
            },
        };
        match written {
            Err(e) => {
                assert(!sheets_writable(g, sv)) by {
                    assert(sv[i as int] == (sheets@[i as int].0@, sheets@[i as int].1));
                }
                return Err(e);
            },
            Ok(()) => {},
        }
        assert(no_cells().union_prefer_right(node_cells(g, sheets@[i as int].1)) =~= node_cells(
            g,
            sheets@[i as int].1,
        ));
        push_sheet(&mut wb, ws);
        assert(sv.take(i + 1) =~= sv.take(i as int).push(sv[i as int]));
        assert(workbook_sheets(wb) =~= sheets_contents(g, sv.take(i + 1)));
        assert forall|q: int| #![trigger sv.take(i + 1)[q]] 0 <= q < sv.take(i + 1).len() implies sheet_name_ok(
            sv.take(i + 1)[q].0,
        ) && cells_ok(node_cells(g, sv.take(i + 1)[q].1)) by {
            if q < i {
                assert(sv.take(i + 1)[q] == sv.take(i as int)[q]);
            }
        }
        i = i + 1;
    }
    assert(sv.take(i as int) =~= sv);
    Ok(wb)
}

/// The workbook of a group (see [`group_workbook`]) holds the same sheets,
/// in the same order, whatever the order or repetition of the list of
/// nodes, and the same sheets can be written.
pub proof fn law_group_workbook_ignores_list_order(g: GroupView, a: Seq<Seq<char>>, b: Seq<Seq<char>>)
    requires
        forall|x: Seq<char>| a.contains(x) <==> b.contains(x),
    ensures
        sheets_contents(g, book_sheets(g, Some(a))) == sheets_contents(g, book_sheets(g, Some(b))),
        sheets_writable(g, book_sheets(g, Some(a))) == sheets_writable(g, book_sheets(g, Some(b))),
{
    law_book_sheets_ignore_list_order(g, a, b);
}

/// A group, or the listed nodes of it, as the bytes of a workbook of one
/// sheet per node (see [`group_workbook`]); past the lists only the writer
/// can fail.
pub fn export_group_book(group: &Group, only: Option<&[&str]>) -> (r: Result<Vec<u8>, ExcelError>)
    requires
        group_fits(*group),
    ensures
        match r {
            Err(ExcelError::EmptyOnly) => only_is_empty(only_view(only)),
            Err(ExcelError::UnknownNodes { group: g, names }) => {
                &&& !only_is_empty(only_view(only))
                &&& !all_known(only_view(only), node_names(group@))
                &&& g@ == group@.name
                &&& lists_missing(views_of(names@), only_view(only).unwrap(), node_names(group@))
            },
            Err(ExcelError::Xlsx(_)) => !only_is_empty(only_view(only)) && all_known(
                only_view(only),
                node_names(group@),
            ),
            Err(_) => false,
            Ok(_) => {
                &&& !only_is_empty(only_view(only))
                &&& all_known(only_view(only), node_names(group@))
                &&& sheets_writable(group@, book_sheets(group@, only_view(only)))
            },
        },
{
    let mut wb = match group_workbook(group, only) {
        Err(e) => { return Err(e); },
        Ok(w) => w,
    };
    match save_book(&mut wb) {
        Err(e) => Err(xlsx_err(e)),
        Ok(b) => Ok(b),
    }
}

// ───────────────────────── applying a read-back ─────────────────────────

/// A table with new records, dirty when its text then differs from the
/// last saved one.
pub open spec fn patched_table(t: TableView, records: Seq<Seq<Seq<char>>>) -> TableView {
    let t1 = TableView { records, ..t };
    TableView { dirty: crate::tbl::spec_serialize_table(t1) != t1.saved_text, ..t1 }
}

pub open spec fn patched_constant(c: ConstantView, entries: Seq<ConstEntryView>) -> ConstantView {
    let c1 = ConstantView { entries, ..c };
    ConstantView { dirty: crate::tbl::spec_serialize_constant(c1) != c1.saved_text, ..c1 }
}

pub open spec fn patched_enum(e: EnumDefView, entries: Seq<EnumEntryView>) -> EnumDefView {
    let e1 = EnumDefView { entries, ..e };
    EnumDefView { dirty: crate::tbl::spec_serialize_enum(e1) != e1.saved_text, ..e1 }
}

/// A group after one node's read-back: the first node of that kind and
/// name takes the new content; without one the group stays as it is.
pub open spec fn apply_node_patch(g: GroupView, p: NodePatchView) -> GroupView {
    match p {
        NodePatchView::Table { name, records } => match index_from(table_names(g.tables), name, 0) {
            Some(i) => GroupView { tables: g.tables.update(i, patched_table(g.tables[i], records)), ..g },
            None => g,
        },
        NodePatchView::Constant { name, entries } => match index_from(constant_names(g.constants), name, 0) {
            Some(i) => GroupView {
                constants: g.constants.update(i, patched_constant(g.constants[i], entries)),
                ..g
            },
            None => g,
        },
        NodePatchView::Enum { name, entries } => match index_from(enum_names(g.enums), name, 0) {
            Some(i) => GroupView { enums: g.enums.update(i, patched_enum(g.enums[i], entries)), ..g },
            None => g,
        },
    }
}

/// A group after the read-backs `ps`, in order.
pub open spec fn apply_node_patches(g: GroupView, ps: Seq<NodePatchView>) -> GroupView
    decreases ps.len(),
{
    if ps.len() == 0 {
        g
    } else {
        apply_node_patch(apply_node_patches(g, ps.drop_last()), ps.last())
    }
}

fn find_constant(cs: &Vec<Constant>, name: &String) -> (r: Option<usize>)
    ensures
        match r {
            Some(i) => index_from(constant_names(cs@.map_values(|c: Constant| c@)), name@, 0) == Some(i as int),
            None => index_from(constant_names(cs@.map_values(|c: Constant| c@)), name@, 0) is None,
        },
{
    let ghost names = constant_names(cs@.map_values(|c: Constant| c@));
    let mut i: usize = cs.len();
    let mut found: Option<usize> = None;
    while i > 0
        invariant
            i <= cs@.len(),
            names == constant_names(cs@.map_values(|c: Constant| c@)),
            match found {
                Some(j) => index_from(names, name@, i as int) == Some(j as int),
                None => index_from(names, name@, i as int) is None,
            },
        decreases i,
    {
        i = i - 1;
        assert(names[i as int] == cs@[i as int].name@);
        if str_is(cs[i].name.as_str(), name.as_str()) {
            found = Some(i);
        }
    }
    found
}

fn find_enum(es: &Vec<EnumDef>, name: &String) -> (r: Option<usize>)
    ensures
        match r {
            Some(i) => index_from(enum_names(es@.map_values(|e: EnumDef| e@)), name@, 0) == Some(i as int),
            None => index_from(enum_names(es@.map_values(|e: EnumDef| e@)), name@, 0) is None,
        },
{
    let ghost names = enum_names(es@.map_values(|e: EnumDef| e@));
    let mut i: usize = es.len();
    let mut found: Option<usize> = None;
    while i > 0
        invariant
            i <= es@.len(),
            names == enum_names(es@.map_values(|e: EnumDef| e@)),
            match found {
                Some(j) => index_from(names, name@, i as int) == Some(j as int),
                None => index_from(names, name@, i as int) is None,
            },
        decreases i,
    {
        i = i - 1;
        assert(names[i as int] == es@[i as int].name@);
        if str_is(es[i].name.as_str(), name.as_str()) {
            found = Some(i);
        }
    }
    found
}

fn copy_const_entries(es: &Vec<ConstEntry>) -> (r: Vec<ConstEntry>)
    ensures
        crate::model::const_entries_view(r@) == crate::model::const_entries_view(es@),
{
    let mut out: Vec<ConstEntry> = Vec::new();
    let mut i: usize = 0;
    while i < es.len()
        invariant
            i <= es@.len(),
            crate::model::const_entries_view(out@) == crate::model::const_entries_view(es@.take(i as int)),
        decreases es.len() - i,
    {
        let e = &es[i];
        let ghost prev = out@;
        out.push(ConstEntry {
            name: copy_str(&e.name),
            tbl_type: copy_str(&e.tbl_type),
            value: copy_str(&e.value),
            export: e.export,
            desc: copy_str(&e.desc),
        });
        assert(out@.last()@ == es@[i as int]@);
        assert(out@ =~= prev.push(out@.last()));
        assert(crate::model::const_entries_view(prev.push(out@.last())) =~= crate::model::const_entries_view(prev).push(out@.last()@));
        assert(es@.take(i + 1) =~= es@.take(i as int).push(es@[i as int]));
        assert(crate::model::const_entries_view(es@.take(i as int).push(es@[i as int])) =~= crate::model::const_entries_view(es@.take(i as int)).push(es@[i as int]@));
        i = i + 1;
    }
    assert(es@.take(i as int) =~= es@);
    out
}

fn copy_enum_entries(es: &Vec<EnumEntry>) -> (r: Vec<EnumEntry>)
    ensures
        crate::model::enum_entries_view(r@) == crate::model::enum_entries_view(es@),
{
    let mut out: Vec<EnumEntry> = Vec::new();
    let mut i: usize = 0;
    while i < es.len()
        invariant
            i <= es@.len(),
            crate::model::enum_entries_view(out@) == crate::model::enum_entries_view(es@.take(i as int)),
        decreases es.len() - i,
    {
        let e = &es[i];
        let ghost prev = out@;
        out.push(EnumEntry { id: copy_str(&e.id), name: copy_str(&e.name), desc: copy_str(&e.desc) });
        assert(out@.last()@ == es@[i as int]@);
        assert(out@ =~= prev.push(out@.last()));
        assert(crate::model::enum_entries_view(prev.push(out@.last())) =~= crate::model::enum_entries_view(prev).push(out@.last()@));
        assert(es@.take(i + 1) =~= es@.take(i as int).push(es@[i as int]));
        assert(crate::model::enum_entries_view(es@.take(i as int).push(es@[i as int])) =~= crate::model::enum_entries_view(es@.take(i as int)).push(es@[i as int]@));
        i = i + 1;
    }
    assert(es@.take(i as int) =~= es@);
    out
}

/// Applies a workbook's read-back to a group: each node named in the patch
/// takes the read content, and is dirty when its text then differs from the
/// last saved one.
pub fn apply_patch(group: &mut Group, patch: &GroupPatch)
    ensures
        final(group)@ == apply_node_patches(old(group)@, patches_view(patch.patches@)),
{
    let ghost g0 = old(group)@;
    let ghost ps = patches_view(patch.patches@);
    let mut i: usize = 0;
    assert(ps.take(0) =~= Seq::<NodePatchView>::empty());
    while i < patch.patches.len()
        invariant
            i <= patch.patches@.len(),
            ps == patches_view(patch.patches@),
            group@ == apply_node_patches(g0, ps.take(i as int)),
        decreases patch.patches.len() - i,
    {
        assert(ps.take(i + 1).drop_last() =~= ps.take(i as int));
        assert(ps.take(i + 1).last() == patch.patches@[i as int]@);
        let ghost before = group@;
        match &patch.patches[i] {
            NodePatch::Table { name, records } => {
                match find_table(&group.tables, name) {
                    Some(ti) => {
                        proof {
                            lemma_index_from_bounds(table_names(before.tables), name@, 0);
                        }
                        let rows = crate::model::copy_rows(records);
                        let t = &mut group.tables[ti];
                        t.records = rows;
                        t.update_dirty();
                        assert(group@.tables =~= before.tables.update(
                            ti as int,
                            patched_table(before.tables[ti as int], records_view(records@)),
                        ));
                    },
                    None => {},
                }
            },
            NodePatch::Constant { name, entries } => {
                match find_constant(&group.constants, name) {
                    Some(ci) => {
                        proof {
                            lemma_index_from_bounds(constant_names(before.constants), name@, 0);
                        }
                        let es = copy_const_entries(entries);
                        let c = &mut group.constants[ci];
                        c.entries = es;
                        c.update_dirty();
                        assert(group@.constants =~= before.constants.update(
                            ci as int,
                            patched_constant(before.constants[ci as int], crate::model::const_entries_view(entries@)),
                        ));
                    },
                    None => {},
                }
            },
            NodePatch::Enum { name, entries } => {
                match find_enum(&group.enums, name) {
                    Some(ei) => {
                        proof {
                            lemma_index_from_bounds(enum_names(before.enums), name@, 0);
                        }
                        let es = copy_enum_entries(entries);
                        let e = &mut group.enums[ei];
                        e.entries = es;
                        e.update_dirty();
                        assert(group@.enums =~= before.enums.update(
                            ei as int,
                            patched_enum(before.enums[ei as int], crate::model::enum_entries_view(entries@)),
                        ));
                    },
                    None => {},
                }
            },
        }
        i = i + 1;
    }
    assert(ps.take(i as int) =~= ps);
}


// ───────────────────────── what the writer lays out, the reader takes ─────────────────────────

/// A sheet's cells as the reader sees them: `height` rows of `width` cells,
/// a cell without text being empty.
pub open spec fn cells_grid(m: Map<(int, int), Seq<char>>, name: Seq<char>, width: int, height: int) -> SheetGridView {
    SheetGridView {
        name,
        width,
        rows: Seq::new(
            height as nat,
            |r: int|
                Seq::new(
                    width as nat,
                    |c: int| if m.contains_key((r, c)) { m[(r, c)] } else { Seq::<char>::empty() },
                ),
        ),
    }
}

proof fn lemma_header_matches(rows: Seq<Seq<Seq<char>>>, t: TableView, c: int)
    requires
        0 <= c,
        rows.len() >= 4,
        forall|r: int, k: int|
            0 <= r < 4 && 0 <= k < t.fields.len() ==> #[trigger] grid_cell(rows, r, k) == table_header_text(
                t.fields[k],
                r,
            ),
    ensures
        bad_table_header(rows, t.fields, c) is None,
    decreases t.fields.len() - c,
{
    if c < t.fields.len() {
        assert(grid_cell(rows, 0, c) == table_header_text(t.fields[c], 0));
        assert(grid_cell(rows, 1, c) == table_header_text(t.fields[c], 1));
        assert(grid_cell(rows, 2, c) == table_header_text(t.fields[c], 2));
        assert(grid_cell(rows, 3, c) == table_header_text(t.fields[c], 3));
        lemma_header_matches(rows, t, c + 1);
    }
}

proof fn lemma_kept_rows_same(a: Seq<Seq<Seq<char>>>, b: Seq<Seq<Seq<char>>>, n: int)
    requires
        a.len() == b.len(),
        forall|i: int|
            0 <= i < a.len() ==> (row_is_empty(#[trigger] a[i]) == row_is_empty(b[i]) && row_cells(a[i], n)
                == row_cells(b[i], n)),
    ensures
        kept_rows(a, n) == kept_rows(b, n),
    decreases a.len(),
{
    if a.len() > 0 {
        assert(row_is_empty(a[a.len() - 1]) == row_is_empty(b[b.len() - 1]));
        lemma_kept_rows_same(a.drop_last(), b.drop_last(), n);
    }
}

/// A table's sheet, laid out as the writer lays it out and read cell by
/// cell with as many columns as the table has, gives back the table's
/// non-empty records.
pub proof fn law_table_sheet_reads_back(t: TableView)
    requires
        forall|i: int| 0 <= i < t.records.len() ==> (#[trigger] t.records[i]).len() <= t.fields.len(),
    ensures
        spec_parse_table_sheet(
            cells_grid(table_cells(t), t.name, t.fields.len() as int, (4 + t.records.len()) as int),
            t,
        ) == Ok::<Seq<Seq<Seq<char>>>, ExcelErrorView>(kept_rows(t.records, t.fields.len() as int)),
{
    let n = t.fields.len() as int;
    let m = table_cells(t);
    let g = cells_grid(m, t.name, n, (4 + t.records.len()) as int);
    let rows = g.rows;
    assert forall|r: int, k: int| 0 <= r < 4 && 0 <= k < n implies #[trigger] grid_cell(rows, r, k)
        == table_header_text(t.fields[k], r) by {
        assert(m.contains_key((r, k)));
    }
    lemma_header_matches(rows, t, 0);
    let body = rows.skip(4);
    assert forall|i: int| 0 <= i < body.len() implies (row_is_empty(#[trigger] body[i]) == row_is_empty(
        t.records[i],
    ) && row_cells(body[i], n) == row_cells(t.records[i], n)) by {
        let rec = t.records[i];
        assert(body[i] == rows[i + 4]);
        assert forall|c: int| 0 <= c < n implies #[trigger] body[i][c] == cell_of(rec, c) by {
            if c < rec.len() {
                assert(m.contains_key((i + 4, c)));
            } else {
                assert(!m.contains_key((i + 4, c)));
            }
        }
        assert(row_cells(body[i], n) =~= row_cells(rec, n));
        if row_is_empty(rec) {
            assert forall|c: int| 0 <= c < body[i].len() implies (#[trigger] body[i][c]).len() == 0 by {
                if c < rec.len() {
                    assert(rec[c].len() == 0);
                }
            }
        }
        if row_is_empty(body[i]) {
            assert forall|c: int| 0 <= c < rec.len() implies (#[trigger] rec[c]).len() == 0 by {
                assert(body[i][c] == cell_of(rec, c));
            }
        }
    }
    lemma_kept_rows_same(body, t.records, n);
}


proof fn lemma_fixed_header_matches(rows: Seq<Seq<Seq<char>>>, hs: Seq<Seq<char>>, c: int)
    requires
        0 <= c,
        forall|k: int| 0 <= k < hs.len() ==> #[trigger] grid_cell(rows, 0, k) == hs[k],
    ensures
        bad_fixed_header(rows, hs, c) is None,
    decreases hs.len() - c,
{
    if c < hs.len() {
        assert(grid_cell(rows, 0, c) == hs[c]);
        lemma_fixed_header_matches(rows, hs, c + 1);
    }
}

/// A constant set's sheet, laid out as the writer lays it out and read cell
/// by cell with its five columns, gives back its entries (each export side
/// chosen).
pub proof fn law_constant_sheet_reads_back(c: ConstantView)
    requires
        forall|i: int| 0 <= i < c.entries.len() ==> (#[trigger] c.entries[i]).export != Export::Unselected,
    ensures
        spec_parse_constant_sheet(cells_grid(const_cells(c), c.name, 5, (1 + c.entries.len()) as int), c)
            == Ok::<Seq<ConstEntryView>, ExcelErrorView>(c.entries),
{
    reveal_strlit("name");
    reveal_strlit("type");
    reveal_strlit("value");
    reveal_strlit("export");
    reveal_strlit("desc");
    let m = const_cells(c);
    let g = cells_grid(m, c.name, 5, (1 + c.entries.len()) as int);
    let rows = g.rows;
    assert forall|k: int| 0 <= k < constant_headers().len() implies #[trigger] grid_cell(rows, 0, k)
        == constant_headers()[k] by {
        assert(m.contains_key((0, k)));
    }
    lemma_fixed_header_matches(rows, constant_headers(), 0);
    assert(fixed_sheet_check(g, c.name, constant_headers()) is None);
    let body = rows.skip(1);
    assert forall|i: int| 0 <= i < body.len() implies !row_is_empty(#[trigger] body[i]) && const_entry_of(body[i])
        == c.entries[i] by {
        let e = c.entries[i];
        assert(body[i] == rows[i + 1]);
        assert forall|k: int| 0 <= k < 5 implies #[trigger] body[i][k] == const_field(e, k) by {
            assert(m.contains_key((i + 1, k)));
        }
        crate::tbl_laws::law_export_text_round_trip(e.export);
        reveal_strlit("前后端");
        reveal_strlit("客户端");
        reveal_strlit("服务器");
        reveal_strlit("不导出");
        assert(body[i][3] == e.export.spec_display());
        assert(e.export.spec_display().len() > 0);
        assert(cell_of(body[i], 3) == e.export.spec_display());
    }
    lemma_kept_const_all(body, c.entries);
}

proof fn lemma_kept_const_all(rows: Seq<Seq<Seq<char>>>, es: Seq<ConstEntryView>)
    requires
        rows.len() == es.len(),
        forall|i: int| 0 <= i < rows.len() ==> !row_is_empty(#[trigger] rows[i]) && const_entry_of(rows[i]) == es[i],
    ensures
        kept_const_entries(rows) == es,
    decreases rows.len(),
{
    if rows.len() > 0 {
        assert(!row_is_empty(rows[rows.len() - 1]));
        lemma_kept_const_all(rows.drop_last(), es.drop_last());
        assert(es.drop_last().push(es.last()) =~= es);
    }
}

proof fn lemma_kept_enum_all(rows: Seq<Seq<Seq<char>>>, es: Seq<EnumEntryView>)
    requires
        rows.len() == es.len(),
        forall|i: int| 0 <= i < rows.len() ==> !row_is_empty(#[trigger] rows[i]) && enum_entry_of(rows[i]) == es[i],
    ensures
        kept_enum_entries(rows) == es,
    decreases rows.len(),
{
    if rows.len() > 0 {
        assert(!row_is_empty(rows[rows.len() - 1]));
        lemma_kept_enum_all(rows.drop_last(), es.drop_last());
        assert(es.drop_last().push(es.last()) =~= es);
    }
}

/// An enum's sheet, laid out as the writer lays it out and read cell by
/// cell with its three columns, gives back its entries (none of them all
/// empty).
pub proof fn law_enum_sheet_reads_back(en: EnumDefView)
    requires
        forall|i: int|
            0 <= i < en.entries.len() ==> (#[trigger] en.entries[i]).id.len() > 0 || en.entries[i].name.len() > 0
                || en.entries[i].desc.len() > 0,
    ensures
        spec_parse_enum_sheet(cells_grid(enum_cells(en), en.name, 3, (1 + en.entries.len()) as int), en)
            == Ok::<Seq<EnumEntryView>, ExcelErrorView>(en.entries),
{
    reveal_strlit("id");
    reveal_strlit("name");
    reveal_strlit("desc");
    let m = enum_cells(en);
    let g = cells_grid(m, en.name, 3, (1 + en.entries.len()) as int);
    let rows = g.rows;
    assert forall|k: int| 0 <= k < enum_headers().len() implies #[trigger] grid_cell(rows, 0, k)
        == enum_headers()[k] by {
        assert(m.contains_key((0, k)));
    }
    lemma_fixed_header_matches(rows, enum_headers(), 0);
    assert(fixed_sheet_check(g, en.name, enum_headers()) is None);
    let body = rows.skip(1);
    assert forall|i: int| 0 <= i < body.len() implies !row_is_empty(#[trigger] body[i]) && enum_entry_of(body[i])
        == en.entries[i] by {
        let e = en.entries[i];
        assert(body[i] == rows[i + 1]);
        assert forall|k: int| 0 <= k < 3 implies #[trigger] body[i][k] == enum_field(e, k) by {
            assert(m.contains_key((i + 1, k)));
        }
        if e.id.len() > 0 {
            assert(body[i][0].len() > 0);
        } else if e.name.len() > 0 {
            assert(body[i][1].len() > 0);
        } else {
            assert(body[i][2].len() > 0);
        }
    }
    lemma_kept_enum_all(body, en.entries);
}


proof fn lemma_trim_trailing(x: Seq<Seq<char>>)
    ensures
        trim_trailing(x).len() <= x.len(),
        forall|i: int| 0 <= i < trim_trailing(x).len() ==> #[trigger] trim_trailing(x)[i] == x[i],
        forall|i: int| trim_trailing(x).len() <= i < x.len() ==> (#[trigger] x[i]).len() == 0,
    decreases x.len(),
{
    if x.len() > 0 && x.last().len() == 0 {
        lemma_trim_trailing(x.drop_last());
        assert forall|i: int| trim_trailing(x).len() <= i < x.len() implies (#[trigger] x[i]).len() == 0 by {
            if i < x.len() - 1 {
                assert(x.drop_last()[i] == x[i]);
            }
        }
        assert forall|i: int| 0 <= i < trim_trailing(x).len() implies #[trigger] trim_trailing(x)[i] == x[i] by {
            assert(x.drop_last()[i] == x[i]);
        }
    }
}

proof fn lemma_read_rows(p: Seq<Seq<Seq<char>>>, recs: Seq<Seq<Seq<char>>>, n: int)
    requires
        p.len() == recs.len(),
        0 <= n,
        forall|i: int| 0 <= i < p.len() ==> (#[trigger] p[i]).len() == n,
        forall|i: int| 0 <= i < p.len() ==> (row_is_empty(#[trigger] p[i]) == row_is_empty(recs[i])),
        forall|i: int| 0 <= i < p.len() ==> #[trigger] row_cells(recs[i], n) == p[i],
    ensures
        patch_rows(sheet_data_rows(p), n, n) == kept_rows(recs, n),
    decreases p.len(),
{
    if p.len() > 0 {
        let init = p.drop_last();
        lemma_read_rows(init, recs.drop_last(), n);
        let last = p.last();
        let tail: Seq<Seq<Seq<char>>> = if row_is_empty(last) { seq![] } else { seq![trim_trailing(last)] };
        assert(sheet_data_rows(p) == sheet_data_rows(init) + tail);
        assert(patch_rows(sheet_data_rows(init) + tail, n, n) =~= patch_rows(sheet_data_rows(init), n, n) + patch_rows(
            tail,
            n,
            n,
        ));
        assert(row_is_empty(p[p.len() - 1]) == row_is_empty(recs[recs.len() - 1]));
        if !row_is_empty(last) {
            lemma_trim_trailing(last);
            assert(row_cells(recs.last(), n) == p[p.len() - 1]);
            let tt = trim_trailing(last);
            assert forall|i: int| 0 <= i < n implies #[trigger] patch_row(tt, n, n)[i] == row_cells(recs.last(), n)[i] by {
                if i < tt.len() {
                    assert(tt[i] == last[i]);
                } else {
                    assert(last[i].len() == 0);
                    assert(last[i] =~= Seq::<char>::empty());
                }
            }
            assert(patch_row(tt, n, n) =~= row_cells(recs.last(), n));
        }
    }
}

/// A table's fresh sync sheet, read cell by cell as the sync reader reads a
/// sheet, gives back the table's non-empty records, each with as many
/// cells as the table has columns (its first column being `id`).
pub proof fn law_fresh_sheet_reads_back(t: TableView, force: bool)
    requires
        t.fields.len() > 0,
        t.fields[0].name == "id"@,
        forall|i: int| 0 <= i < t.records.len() ==> (#[trigger] t.records[i]).len() <= t.fields.len(),
    ensures
        spec_read_group(
            seq![spec_xlsx_sheet(t.name, cells_grid(fresh_cells(t), t.name, t.fields.len() as int, (1 + t.records.len()) as int).rows)],
            seq![t],
            force,
        ) == seq![(t.name, kept_rows(t.records, t.fields.len() as int))],
{
    let n = t.fields.len() as int;
    let m = fresh_cells(t);
    let rows = cells_grid(m, t.name, n, (1 + t.records.len()) as int).rows;
    let sh = spec_xlsx_sheet(t.name, rows);
    let names = field_names(t.fields);
    assert(sh.headers =~= names) by {
        assert forall|c: int| 0 <= c < n implies #[trigger] rows[0][c] == names[c] by {
            assert(m.contains_key((0, c)));
        }
    }
    assert(is_common_prefix_full(names, sh.headers));
    lemma_prefix_of(t, sh.headers, n);
    assert(spec_classify_header(sh.headers, names, n) == HeaderMatch::Identical);
    assert(table_names(seq![t])[0] == t.name);
    assert(index_from(table_names(seq![t]), sh.name, 0) == Some(0int));
    let body = rows.skip(1);
    assert forall|i: int| 0 <= i < body.len() implies (#[trigger] body[i]).len() == n && row_is_empty(body[i])
        == row_is_empty(t.records[i]) && row_cells(t.records[i], n) == body[i] by {
        let rec = t.records[i];
        assert(body[i] == rows[i + 1]);
        assert forall|c: int| 0 <= c < n implies #[trigger] body[i][c] == cell_of(rec, c) by {
            if c < rec.len() {
                assert(m.contains_key((i + 1, c)));
            } else {
                assert(!m.contains_key((i + 1, c)));
            }
        }
        assert(row_cells(rec, n) =~= body[i]);
        if row_is_empty(rec) {
            assert forall|c: int| 0 <= c < body[i].len() implies (#[trigger] body[i][c]).len() == 0 by {
                if c < rec.len() {
                    assert(rec[c].len() == 0);
                }
            }
        }
        if row_is_empty(body[i]) {
            assert forall|c: int| 0 <= c < rec.len() implies (#[trigger] rec[c]).len() == 0 by {
                assert(body[i][c] == cell_of(rec, c));
            }
        }
    }
    lemma_read_rows(body, t.records, n);
    let sheets = seq![sh];
    assert(sheets.drop_last() =~= Seq::<XlsxSheetView>::empty());
    assert(sheets.last() == sh);
    assert(seq![t][0] == t);
    assert(prefix_of(t, sh.headers) == n);
    assert(sh.rows == sheet_data_rows(body));
    assert(sh.name == t.name);
    let prev = spec_read_group(sheets.drop_last(), seq![t], force);
    assert(prev == Seq::<(Seq<char>, Seq<Seq<Seq<char>>>)>::empty());
    assert(spec_read_group(sheets, seq![t], force) == prev.push((sh.name, patch_rows(sh.rows, n, n))));
    assert(prev.push((sh.name, patch_rows(sh.rows, n, n))) =~= seq![(t.name, kept_rows(t.records, n))]);
}

pub open spec fn is_common_prefix_full(a: Seq<Seq<char>>, b: Seq<Seq<char>>) -> bool {
    crate::excel_sync::is_common_prefix(a, b, a.len() as int)
}

} // verus!
