//! What the command line tools compute: JSON summaries of a `.tbl` file
//! and of a schema, the difference of two tables, and the filtering of
//! validation errors.

use vstd::prelude::*;
use crate::model::{records_view, ConstEntryView, ConstantView, EnumDefView, EnumEntryView, FieldDefView, Group, GroupView, TableView};
use crate::excel_sync::{row_at, rows_equal};
use crate::tbl::{TblFile, TblFileView};
use crate::tblschema::{join_with, SchemaMode, SectionView, TblSchema};
use crate::tbl_str::views_of;
use crate::text::{chars_of, decimal, decimal_string, push_char, str_is};

verus! {

// ───────────────────────── JSON text ─────────────────────────

/// The escape of one character inside a JSON string.
pub open spec fn json_escape_char(c: char) -> Seq<char> {
    if c == '\\' {
        "\\\\"@
    } else if c == '\u{22}' {
        "\\\u{22}"@
    } else if c == '\n' {
        "\\n"@
    } else if c == '\r' {
        "\\r"@
    } else if c == '\t' {
        "\\t"@
    } else {
        seq![c]
    }
}

/// `s` with backslash, quote, newline, carriage return and tab escaped.
pub open spec fn spec_escape_json(s: Seq<char>) -> Seq<char>
    decreases s.len(),
{
    if s.len() == 0 {
        seq![]
    } else {
        spec_escape_json(s.drop_last()) + json_escape_char(s.last())
    }
}

/// Escapes text for a JSON string (see [`spec_escape_json`]).
pub fn escape_json(s: &str) -> (r: String)
    ensures
        r@ == spec_escape_json(s@),
{
    proof {
        reveal_strlit("\\\\");
        reveal_strlit("\\\u{22}");
        reveal_strlit("\\n");
        reveal_strlit("\\r");
        reveal_strlit("\\t");
    }
    let cs = chars_of(s);
    let mut out = String::new();
    let mut i: usize = 0;
    while i < cs.len()
        invariant
            i <= cs@.len(),
            cs@ == s@,
            out@ == spec_escape_json(s@.take(i as int)),
        decreases cs.len() - i,
    {
        assert(s@.take(i + 1).drop_last() =~= s@.take(i as int));
        let c = cs[i];
        if c == '\\' {
            out = out.concat("\\\\");
        } else if c == '\u{22}' {
            out = out.concat("\\\u{22}");
        } else if c == '\n' {
            out = out.concat("\\n");
        } else if c == '\r' {
            out = out.concat("\\r");
        } else if c == '\t' {
            out = out.concat("\\t");
        } else {
            push_char(&mut out, c);
        }
        i = i + 1;
    }
    assert(s@.take(i as int) =~= s@);
    out
}

/// The JSON object of a column.
pub open spec fn field_json(f: FieldDefView) -> Seq<char> {
    "{\u{22}name\u{22}:\u{22}"@ + spec_escape_json(f.name) + "\u{22},\u{22}type\u{22}:\u{22}"@ + spec_escape_json(
        f.tbl_type,
    ) + "\u{22},\u{22}export\u{22}:\u{22}"@ + f.export.spec_display() + "\u{22},\u{22}desc\u{22}:\u{22}"@
        + spec_escape_json(f.desc) + "\u{22}}"@
}

/// The JSON object of a constant entry.
pub open spec fn const_entry_json(e: ConstEntryView) -> Seq<char> {
    "{\u{22}name\u{22}:\u{22}"@ + spec_escape_json(e.name) + "\u{22},\u{22}type\u{22}:\u{22}"@ + spec_escape_json(
        e.tbl_type,
    ) + "\u{22},\u{22}value\u{22}:\u{22}"@ + spec_escape_json(e.value) + "\u{22},\u{22}export\u{22}:\u{22}"@
        + e.export.spec_display() + "\u{22},\u{22}desc\u{22}:\u{22}"@ + spec_escape_json(e.desc) + "\u{22}}"@
}

/// The JSON object of an enum entry.
pub open spec fn enum_entry_json(e: EnumEntryView) -> Seq<char> {
    "{\u{22}id\u{22}:\u{22}"@ + spec_escape_json(e.id) + "\u{22},\u{22}name\u{22}:\u{22}"@ + spec_escape_json(e.name)
        + "\u{22},\u{22}desc\u{22}:\u{22}"@ + spec_escape_json(e.desc) + "\u{22}}"@
}

/// A one-line JSON summary of a `.tbl` file: its kind and name (as is),
/// then the columns and the record count of a table, or the entries of a
/// constant set or enum.
pub open spec fn spec_format_tbl_file(f: TblFileView) -> Seq<char> {
    match f {
        TblFileView::Table(t) => "{\u{22}type\u{22}:\u{22}table\u{22},\u{22}name\u{22}:\u{22}"@ + t.name
            + "\u{22},\u{22}fields\u{22}:["@ + join_with(t.fields.map_values(|x: FieldDefView| field_json(x)), ","@)
            + "],\u{22}records_count\u{22}:"@ + decimal(t.records.len()) + "}"@,
        TblFileView::Constant(c) => "{\u{22}type\u{22}:\u{22}constant\u{22},\u{22}name\u{22}:\u{22}"@ + c.name
            + "\u{22},\u{22}entries\u{22}:["@ + join_with(
            c.entries.map_values(|x: ConstEntryView| const_entry_json(x)),
            ","@,
        ) + "]}"@,
        TblFileView::Enum(e) => "{\u{22}type\u{22}:\u{22}enum\u{22},\u{22}name\u{22}:\u{22}"@ + e.name
            + "\u{22},\u{22}entries\u{22}:["@ + join_with(
            e.entries.map_values(|x: EnumEntryView| enum_entry_json(x)),
            ","@,
        ) + "]}"@,
    }
}

/// Appends `item` to a comma separated list that already holds `i` items.
fn push_item(out: &mut String, i: usize, item: &String, Ghost(items): Ghost<Seq<Seq<char>>>)
    requires
        i == items.len(),
        old(out)@ == join_with(items, ","@),
    ensures
        final(out)@ == join_with(items.push(item@), ","@),
{
    proof {
        reveal_strlit(",");
        assert(items.push(item@).drop_last() =~= items);
    }
    if i > 0 {
        push_char(out, ',');
        assert(seq![','] =~= ","@);
    } else {
        assert(items.len() == 0);
    }
    *out = out.clone().concat(item.as_str());
}

fn field_json_of(f: &crate::model::FieldDef) -> (r: String)
    ensures
        r@ == field_json(f@),
{
    String::from_str("{\u{22}name\u{22}:\u{22}").concat(escape_json(f.name.as_str()).as_str()).concat(
        "\u{22},\u{22}type\u{22}:\u{22}",
    ).concat(escape_json(f.tbl_type.as_str()).as_str()).concat("\u{22},\u{22}export\u{22}:\u{22}").concat(
        f.export.display(),
    ).concat("\u{22},\u{22}desc\u{22}:\u{22}").concat(escape_json(f.desc.as_str()).as_str()).concat("\u{22}}")
}

fn const_entry_json_of(e: &crate::model::ConstEntry) -> (r: String)
    ensures
        r@ == const_entry_json(e@),
{
    String::from_str("{\u{22}name\u{22}:\u{22}").concat(escape_json(e.name.as_str()).as_str()).concat(
        "\u{22},\u{22}type\u{22}:\u{22}",
    ).concat(escape_json(e.tbl_type.as_str()).as_str()).concat("\u{22},\u{22}value\u{22}:\u{22}").concat(
        escape_json(e.value.as_str()).as_str(),
    ).concat("\u{22},\u{22}export\u{22}:\u{22}").concat(e.export.display()).concat(
        "\u{22},\u{22}desc\u{22}:\u{22}",
    ).concat(escape_json(e.desc.as_str()).as_str()).concat("\u{22}}")
}

fn enum_entry_json_of(e: &crate::model::EnumEntry) -> (r: String)
    ensures
        r@ == enum_entry_json(e@),
{
    String::from_str("{\u{22}id\u{22}:\u{22}").concat(escape_json(e.id.as_str()).as_str()).concat(
        "\u{22},\u{22}name\u{22}:\u{22}",
    ).concat(escape_json(e.name.as_str()).as_str()).concat("\u{22},\u{22}desc\u{22}:\u{22}").concat(
        escape_json(e.desc.as_str()).as_str(),
    ).concat("\u{22}}")
}

/// A one-line JSON summary of a `.tbl` file (see [`spec_format_tbl_file`]).
pub fn format_tbl_file(tbl: &TblFile) -> (r: String)
    ensures
        r@ == spec_format_tbl_file(tbl@),
{
    match tbl {
        TblFile::Table(t) => {
            let ghost items = t@.fields.map_values(|x: FieldDefView| field_json(x));
            let mut body = String::new();
            let mut i: usize = 0;
            while i < t.schema.fields.len()
                invariant
                    i <= t.schema.fields@.len(),
                    items == t@.fields.map_values(|x: FieldDefView| field_json(x)),
                    body@ == join_with(items.take(i as int), ","@),
                decreases t.schema.fields.len() - i,
            {
                let item = field_json_of(&t.schema.fields[i]);
                assert(items.take(i as int).len() == i);
                push_item(&mut body, i, &item, Ghost(items.take(i as int)));
                assert(items.take(i + 1) =~= items.take(i as int).push(item@));
                i = i + 1;
            }
            assert(items.take(i as int) =~= items);
            String::from_str("{\u{22}type\u{22}:\u{22}table\u{22},\u{22}name\u{22}:\u{22}").concat(t.name.as_str()).concat(
                "\u{22},\u{22}fields\u{22}:[",
            ).concat(body.as_str()).concat("],\u{22}records_count\u{22}:").concat(
                decimal_string(t.records.len() as u64).as_str(),
            ).concat("}")
        },
        TblFile::Constant(c) => {
            let ghost items = c@.entries.map_values(|x: ConstEntryView| const_entry_json(x));
            let mut body = String::new();
            let mut i: usize = 0;
            while i < c.entries.len()
                invariant
                    i <= c.entries@.len(),
                    items == c@.entries.map_values(|x: ConstEntryView| const_entry_json(x)),
                    body@ == join_with(items.take(i as int), ","@),
                decreases c.entries.len() - i,
            {
                let item = const_entry_json_of(&c.entries[i]);
                assert(items.take(i as int).len() == i);
                push_item(&mut body, i, &item, Ghost(items.take(i as int)));
                assert(items.take(i + 1) =~= items.take(i as int).push(item@));
                i = i + 1;
            }
            assert(items.take(i as int) =~= items);
            String::from_str("{\u{22}type\u{22}:\u{22}constant\u{22},\u{22}name\u{22}:\u{22}").concat(
                c.name.as_str(),
            ).concat("\u{22},\u{22}entries\u{22}:[").concat(body.as_str()).concat("]}")
        },
        TblFile::Enum(e) => {
            let ghost items = e@.entries.map_values(|x: EnumEntryView| enum_entry_json(x));
            let mut body = String::new();
            let mut i: usize = 0;
            while i < e.entries.len()
                invariant
                    i <= e.entries@.len(),
                    items == e@.entries.map_values(|x: EnumEntryView| enum_entry_json(x)),
                    body@ == join_with(items.take(i as int), ","@),
                decreases e.entries.len() - i,
            {
                let item = enum_entry_json_of(&e.entries[i]);
                assert(items.take(i as int).len() == i);
                push_item(&mut body, i, &item, Ghost(items.take(i as int)));
                assert(items.take(i + 1) =~= items.take(i as int).push(item@));
                i = i + 1;
            }
            assert(items.take(i as int) =~= items);
            String::from_str("{\u{22}type\u{22}:\u{22}enum\u{22},\u{22}name\u{22}:\u{22}").concat(e.name.as_str()).concat(
                "\u{22},\u{22}entries\u{22}:[",
            ).concat(body.as_str()).concat("]}")
        },
    }
}

/// Word of a section kind.
pub open spec fn mode_word(m: SchemaMode) -> Seq<char> {
    match m {
        SchemaMode::Table => "table"@,
        SchemaMode::Constant => "constant"@,
        SchemaMode::Enum => "enum"@,
    }
}

pub open spec fn section_json(s: SectionView) -> Seq<char> {
    "{\u{22}group\u{22}:\u{22}"@ + spec_escape_json(s.group) + "\u{22},\u{22}name\u{22}:\u{22}"@ + spec_escape_json(s.name)
        + "\u{22},\u{22}kind\u{22}:\u{22}"@ + mode_word(s.mode) + "\u{22}}"@
}

/// A one-line JSON summary of a schema: id and name, then each section's
/// group, name and kind.
pub open spec fn spec_format_schema(id: Seq<char>, name: Seq<char>, sections: Seq<SectionView>) -> Seq<char> {
    "{\u{22}meta\u{22}:{\u{22}id\u{22}:\u{22}"@ + spec_escape_json(id) + "\u{22},\u{22}name\u{22}:\u{22}"@
        + spec_escape_json(name) + "\u{22}},\u{22}sections\u{22}:["@ + join_with(
        sections.map_values(|s: SectionView| section_json(s)),
        ","@,
    ) + "]}"@
}

/// A one-line JSON summary of a schema (see [`spec_format_schema`]).
pub fn format_schema(schema: &TblSchema) -> (r: String)
    ensures
        r@ == spec_format_schema(schema.meta.id@, schema.meta.name@, schema@.sections),
{
    let ghost items = schema@.sections.map_values(|s: SectionView| section_json(s));
    let mut body = String::new();
    let mut i: usize = 0;
    while i < schema.sections.len()
        invariant
            i <= schema.sections@.len(),
            items == schema@.sections.map_values(|s: SectionView| section_json(s)),
            body@ == join_with(items.take(i as int), ","@),
        decreases schema.sections.len() - i,
    {
        let s = &schema.sections[i];
        let kind = match s.mode {
            SchemaMode::Table => "table",
            SchemaMode::Constant => "constant",
            SchemaMode::Enum => "enum",
        };
        proof {
            reveal_strlit("table");
            reveal_strlit("constant");
            reveal_strlit("enum");
        }
        let item = String::from_str("{\u{22}group\u{22}:\u{22}").concat(escape_json(s.group.as_str()).as_str()).concat(
            "\u{22},\u{22}name\u{22}:\u{22}",
        ).concat(escape_json(s.name.as_str()).as_str()).concat("\u{22},\u{22}kind\u{22}:\u{22}").concat(kind).concat(
            "\u{22}}",
        );
        assert(item@ == items[i as int]);
        assert(items.take(i as int).len() == i);
        push_item(&mut body, i, &item, Ghost(items.take(i as int)));
        assert(items.take(i + 1) =~= items.take(i as int).push(item@));
        i = i + 1;
    }
    assert(items.take(i as int) =~= items);
    String::from_str("{\u{22}meta\u{22}:{\u{22}id\u{22}:\u{22}").concat(escape_json(schema.meta.id.as_str()).as_str()).concat(
        "\u{22},\u{22}name\u{22}:\u{22}",
    ).concat(escape_json(schema.meta.name.as_str()).as_str()).concat("\u{22}},\u{22}sections\u{22}:[").concat(
        body.as_str(),
    ).concat("]}")
}

// ───────────────────────── table difference ─────────────────────────

/// Lines for the columns below `k` whose name or type differ.
pub open spec fn col_diff_lines(fa: Seq<FieldDefView>, fb: Seq<FieldDefView>, k: int) -> Seq<char>
    decreases k,
{
    if k <= 0 {
        seq![]
    } else {
        let a = fa[k - 1];
        let b = fb[k - 1];
        col_diff_lines(fa, fb, k - 1) + if a.name != b.name || a.tbl_type != b.tbl_type {
            "  ~ col "@ + decimal((k - 1) as nat) + ": "@ + a.tbl_type + " "@ + a.name + " → "@ + b.tbl_type + " "@
                + b.name + "\n"@
        } else {
            seq![]
        }
    }
}

/// The line for a differing row `i`: added, removed or changed.
pub open spec fn row_diff_line(ra: Seq<Seq<Seq<char>>>, rb: Seq<Seq<Seq<char>>>, i: int) -> Seq<char> {
    "  行 "@ + decimal((i + 1) as nat) + ": "@ + if i >= ra.len() {
        "(新增)"@
    } else if i >= rb.len() {
        "(删除)"@
    } else {
        "(修改)"@
    } + "\n"@
}

/// Lines for the first twenty differing rows below `k`, and how many rows
/// below `k` differ.
pub open spec fn row_diffs(ra: Seq<Seq<Seq<char>>>, rb: Seq<Seq<Seq<char>>>, k: int) -> (Seq<char>, int)
    decreases k,
{
    if k <= 0 {
        (seq![], 0)
    } else {
        let (t, c) = row_diffs(ra, rb, k - 1);
        if row_at(ra, k - 1) != row_at(rb, k - 1) {
            (t + if c + 1 <= 20 { row_diff_line(ra, rb, k - 1) } else { seq![] }, c + 1)
        } else {
            (t, c)
        }
    }
}

/// A report of how table `b` differs from table `a`: the column count and
/// the columns whose name or type changed, then up to twenty changed rows
/// and the number of the others, and the number of changed rows; `无差异`
/// when nothing differs. Files that are not both tables are not compared.
pub open spec fn spec_format_diff(a: TblFileView, b: TblFileView) -> Seq<char> {
    match (a, b) {
        (TblFileView::Table(ta), TblFileView::Table(tb)) => {
            let fa = ta.fields;
            let fb = tb.fields;
            let n = if fa.len() < fb.len() { fa.len() as int } else { fb.len() as int };
            let head = if fa.len() != fb.len() {
                "结构差异: 列数 "@ + decimal(fa.len()) + " → "@ + decimal(fb.len()) + "\n"@
            } else {
                seq![]
            } + col_diff_lines(fa, fb, n);
            let mx = if ta.records.len() > tb.records.len() { ta.records.len() as int } else { tb.records.len() as int };
            let (rows, c) = row_diffs(ta.records, tb.records, mx);
            let s = head + rows + if c > 20 { "  ...及另外 "@ + decimal((c - 20) as nat) + " 行差异\n"@ } else { seq![] };
            if c == 0 && s.len() == 0 {
                "无差异\n"@
            } else if c > 0 {
                s + "\n数据差异: "@ + decimal(c as nat) + " 行\n"@
            } else {
                s
            }
        },
        _ => "类型不同或不支持的对比组合\n"@,
    }
}

proof fn lemma_row_diffs_count(ra: Seq<Seq<Seq<char>>>, rb: Seq<Seq<Seq<char>>>, k: int)
    ensures
        0 <= row_diffs(ra, rb, k).1 <= if k < 0 { 0 } else { k },
    decreases k,
{
    if k > 0 {
        lemma_row_diffs_count(ra, rb, k - 1);
    }
}

/// The column part of the report.
pub open spec fn col_report(fa: Seq<FieldDefView>, fb: Seq<FieldDefView>) -> Seq<char> {
    let n = if fa.len() < fb.len() { fa.len() as int } else { fb.len() as int };
    let head = if fa.len() != fb.len() {
        "结构差异: 列数 "@ + decimal(fa.len()) + " → "@ + decimal(fb.len()) + "\n"@
    } else {
        seq![]
    };
    head + col_diff_lines(fa, fb, n)
}

#[verifier::rlimit(100)]
fn col_diff_text(ta: &crate::model::Table, tb: &crate::model::Table) -> (r: String)
    ensures
        r@ == col_report(ta@.fields, tb@.fields),
{
    let ghost fa = ta@.fields;
    let ghost fb = tb@.fields;
    let na = ta.schema.fields.len();
    let nb = tb.schema.fields.len();
    let mut out = String::new();
    if na != nb {
        out = out.concat("结构差异: 列数 ").concat(decimal_string(na as u64).as_str()).concat(" → ").concat(
            decimal_string(nb as u64).as_str(),
        ).concat("\n");
    } else {
        assert(out@ =~= Seq::<char>::empty());
    }
    let ghost h0 = out@;
    let n = if na < nb { na } else { nb };
    let mut i: usize = 0;
    while i < n
        invariant
            i <= n,
            n <= na,
            n <= nb,
            na == fa.len(),
            nb == fb.len(),
            fa == ta@.fields,
            fb == tb@.fields,
            out@ == h0 + col_diff_lines(fa, fb, i as int),
        decreases n - i,
    {
        let a = &ta.schema.fields[i];
        let b = &tb.schema.fields[i];
        assert(fa[i as int] == a@);
        assert(fb[i as int] == b@);
        if !str_is(a.name.as_str(), b.name.as_str()) || !str_is(a.tbl_type.as_str(), b.tbl_type.as_str()) {
            out = out.concat("  ~ col ").concat(decimal_string(i as u64).as_str()).concat(": ").concat(
                a.tbl_type.as_str(),
            ).concat(" ").concat(a.name.as_str()).concat(" → ").concat(b.tbl_type.as_str()).concat(" ").concat(
                b.name.as_str(),
            ).concat("\n");
        }
        i = i + 1;
    }
    out
}

fn row_diff_text(ta: &crate::model::Table, tb: &crate::model::Table) -> (r: (String, usize))
    ensures
        ({
            let mx = if ta@.records.len() > tb@.records.len() {
                ta@.records.len() as int
            } else {
                tb@.records.len() as int
            };
            (r.0@, r.1 as int) == row_diffs(ta@.records, tb@.records, mx)
        }),
{
    let ghost ra = ta@.records;
    let ghost rb = tb@.records;
    let la = ta.records.len();
    let lb = tb.records.len();
    let mx = if la > lb { la } else { lb };
    let mut out = String::new();
    let mut count: usize = 0;
    let mut r: usize = 0;
    while r < mx
        invariant
            r <= mx,
            la == ra.len(),
            lb == rb.len(),
            ra == ta@.records,
            rb == tb@.records,
            (out@, count as int) == row_diffs(ra, rb, r as int),
            count <= r,
        decreases mx - r,
    {
        let differ = if r < la && r < lb {
            !rows_equal(&ta.records[r], &tb.records[r])
        } else {
            r < la || r < lb
        };
        proof {
            if r < la {
                assert(ra[r as int] == views_of(ta.records@[r as int]@));
            }
            if r < lb {
                assert(rb[r as int] == views_of(tb.records@[r as int]@));
            }
            lemma_row_diffs_count(ra, rb, r as int);
        }
        if differ {
            count = count + 1;
            if count <= 20 {
                let what = if r >= la {
                    "(新增)"
                } else if r >= lb {
                    "(删除)"
                } else {
                    "(修改)"
                };
                out = out.concat("  行 ").concat(decimal_string((r + 1) as u64).as_str()).concat(": ").concat(what).concat(
                    "\n",
                );
            }
        }
        r = r + 1;
    }
    (out, count)
}

fn diff_table_text(ta: &crate::model::Table, tb: &crate::model::Table) -> (r: String)
    ensures
        r@ == spec_format_diff(TblFileView::Table(ta@), TblFileView::Table(tb@)),
{
    let head = col_diff_text(ta, tb);
    let (rows, count) = row_diff_text(ta, tb);
    let mut out = head.concat(rows.as_str());
    if count > 20 {
        out = out.concat("  ...及另外 ").concat(decimal_string((count - 20) as u64).as_str()).concat(" 行差异\n");
    }
    if count == 0 && chars_of(out.as_str()).len() == 0 {
        String::from_str("无差异\n")
    } else if count > 0 {
        out.concat("\n数据差异: ").concat(decimal_string(count as u64).as_str()).concat(" 行\n")
    } else {
        out
    }
}

/// A report of how `b` differs from `a` (see [`spec_format_diff`]).
pub fn format_diff(a: &TblFile, b: &TblFile) -> (r: String)
    ensures
        r@ == spec_format_diff(a@, b@),
{
    match (a, b) {
        (TblFile::Table(ta), TblFile::Table(tb)) => diff_table_text(ta, tb),
        _ => {
            proof {
                reveal_strlit("类型不同或不支持的对比组合\n");
            }
            String::from_str("类型不同或不支持的对比组合\n")
        },
    }
}

// ───────────────────────── validation results ─────────────────────────

/// A validation error: project, group, node, row and column.
pub struct ValidationSummary {
    pub errors: Vec<(String, String, String, usize, usize)>,
}

impl ValidationSummary {
    /// Whether there is no error.
    pub fn is_pass(&self) -> (r: bool)
        ensures
            r == (self.errors@.len() == 0),
    {
        self.errors.len() == 0
    }

    /// Number of errors.
    pub fn error_count(&self) -> (r: usize)
        ensures
            r == self.errors@.len(),
    {
        self.errors.len()
    }
}

/// The exit code of the validate command: 0 when validation passes, 1
/// when it found an error.
pub fn validate_exit_code(summary: &ValidationSummary) -> (r: i32)
    ensures
        r == 0 <==> summary.errors@.len() == 0,
        r == 0 || r == 1,
{
    if summary.is_pass() {
        0
    } else {
        1
    }
}

/// Which validation errors to keep: each given part must match.
pub struct ValidateFilter {
    pub group: Option<String>,
    pub node: Option<String>,
    pub col: Option<u16>,
    pub row: Option<u32>,
}

/// Whether an error passes the filter.
pub open spec fn passes_filter(e: (String, String, String, usize, usize), f: ValidateFilter) -> bool {
    &&& (f.group matches Some(g) ==> g@ == e.1@)
    &&& (f.node matches Some(n) ==> n@ == e.2@)
    &&& (f.col matches Some(c) ==> e.4 == c as usize)
    &&& (f.row matches Some(r) ==> e.3 == r as usize)
}

pub open spec fn kept_errors(es: Seq<(String, String, String, usize, usize)>, f: ValidateFilter) -> Seq<
    (String, String, String, usize, usize),
>
    decreases es.len(),
{
    if es.len() == 0 {
        seq![]
    } else {
        kept_errors(es.drop_last(), f) + if passes_filter(es.last(), f) { seq![es.last()] } else { seq![] }
    }
}

fn error_passes(e: &(String, String, String, usize, usize), f: &ValidateFilter) -> (r: bool)
    ensures
        r == passes_filter(*e, *f),
{
    match &f.group {
        Some(g) => {
            if !str_is(g.as_str(), e.1.as_str()) {
                return false;
            }
        },
        None => {},
    }
    match &f.node {
        Some(n) => {
            if !str_is(n.as_str(), e.2.as_str()) {
                return false;
            }
        },
        None => {},
    }
    match f.col {
        Some(c) => {
            if e.4 != c as usize {
                return false;
            }
        },
        None => {},
    }
    match f.row {
        Some(r) => {
            if e.3 != r as usize {
                return false;
            }
        },
        None => {},
    }
    true
}

/// The validation errors that pass the filter, in order.
pub fn run_validate_filtered(errors: &Vec<(String, String, String, usize, usize)>, filter: &ValidateFilter) -> (r: ValidationSummary)
    ensures
        r.errors@ == kept_errors(errors@, *filter),
{
    let mut out: Vec<(String, String, String, usize, usize)> = Vec::new();
    let mut i: usize = 0;
    while i < errors.len()
        invariant
            i <= errors@.len(),
            out@ == kept_errors(errors@.take(i as int), *filter),
        decreases errors.len() - i,
    {
        assert(errors@.take(i + 1).drop_last() =~= errors@.take(i as int));
        let e = &errors[i];
        if error_passes(e, filter) {
            out.push((e.0.clone(), e.1.clone(), e.2.clone(), e.3, e.4));
        }
        assert(out@ =~= kept_errors(errors@.take(i + 1), *filter));
        i = i + 1;
    }
    assert(errors@.take(i as int) =~= errors@);
    ValidationSummary { errors: out }
}


// ───────────────────────── the nodes of a project ─────────────────────────

/// One node of a group as the structure listing shows it.
#[derive(Clone, Debug)]
pub struct SchemaNodeInfo {
    pub name: String,
    pub kind: &'static str,
    pub detail: String,
}

/// One group and its nodes.
#[derive(Clone, Debug)]
pub struct SchemaShowEntry {
    pub group: String,
    pub nodes: Vec<SchemaNodeInfo>,
}

pub open spec fn table_info(t: TableView) -> (Seq<char>, Seq<char>, Seq<char>) {
    (t.name, "table"@, decimal(t.fields.len()) + " fields, "@ + decimal(t.records.len()) + " rows"@)
}

pub open spec fn constant_info(c: ConstantView) -> (Seq<char>, Seq<char>, Seq<char>) {
    (c.name, "constant"@, decimal(c.entries.len()) + " entries"@)
}

pub open spec fn enum_info(e: EnumDefView) -> (Seq<char>, Seq<char>, Seq<char>) {
    (e.name, "enum"@, decimal(e.entries.len()) + " entries"@)
}

/// The listing of a group: its tables, then its constant sets, then its
/// enums, each with its size.
pub open spec fn group_infos(g: GroupView) -> Seq<(Seq<char>, Seq<char>, Seq<char>)> {
    g.tables.map_values(|t: TableView| table_info(t)) + g.constants.map_values(|c: ConstantView| constant_info(c))
        + g.enums.map_values(|e: EnumDefView| enum_info(e))
}

pub open spec fn infos_view(v: Seq<SchemaNodeInfo>) -> Seq<(Seq<char>, Seq<char>, Seq<char>)> {
    v.map_values(|n: SchemaNodeInfo| (n.name@, n.kind@, n.detail@))
}

fn push_info(out: &mut Vec<SchemaNodeInfo>, name: String, kind: &'static str, detail: String)
    ensures
        infos_view(final(out)@) == infos_view(old(out)@).push((name@, kind@, detail@)),
{
    let ghost prev = infos_view(out@);
    out.push(SchemaNodeInfo { name, kind, detail });
    assert(infos_view(out@) =~= prev.push((name@, kind@, detail@)));
}

fn group_show(g: &Group) -> (r: Vec<SchemaNodeInfo>)
    ensures
        infos_view(r@) == group_infos(g@),
{
    let ghost gv = g@;
    let ghost a = gv.tables.map_values(|t: TableView| table_info(t));
    let ghost b = gv.constants.map_values(|c: ConstantView| constant_info(c));
    let ghost c = gv.enums.map_values(|e: EnumDefView| enum_info(e));
    let mut out: Vec<SchemaNodeInfo> = Vec::new();
    let mut i: usize = 0;
    while i < g.tables.len()
        invariant
            i <= g.tables@.len(),
            gv == g@,
            a == gv.tables.map_values(|t: TableView| table_info(t)),
            infos_view(out@) == a.take(i as int),
        decreases g.tables.len() - i,
    {
        let t = &g.tables[i];
        let d = decimal_string(t.schema.fields.len() as u64).concat(" fields, ").concat(
            decimal_string(t.records.len() as u64).as_str(),
        ).concat(" rows");
        assert(gv.tables[i as int] == t@);
        push_info(&mut out, t.name.clone(), "table", d);
        assert(a.take(i + 1) =~= a.take(i as int).push(a[i as int]));
        i = i + 1;
    }
    assert(a.take(i as int) =~= a);
    let mut j: usize = 0;
    while j < g.constants.len()
        invariant
            j <= g.constants@.len(),
            gv == g@,
            a == gv.tables.map_values(|t: TableView| table_info(t)),
            b == gv.constants.map_values(|c: ConstantView| constant_info(c)),
            infos_view(out@) == a + b.take(j as int),
        decreases g.constants.len() - j,
    {
        let cst = &g.constants[j];
        let d = decimal_string(cst.entries.len() as u64).concat(" entries");
        assert(gv.constants[j as int] == cst@);
        push_info(&mut out, cst.name.clone(), "constant", d);
        assert(a + b.take(j + 1) =~= (a + b.take(j as int)).push(b[j as int]));
        j = j + 1;
    }
    assert(b.take(j as int) =~= b);
    let mut k: usize = 0;
    while k < g.enums.len()
        invariant
            k <= g.enums@.len(),
            gv == g@,
            a == gv.tables.map_values(|t: TableView| table_info(t)),
            b == gv.constants.map_values(|c: ConstantView| constant_info(c)),
            c == gv.enums.map_values(|e: EnumDefView| enum_info(e)),
            infos_view(out@) == a + b + c.take(k as int),
        decreases g.enums.len() - k,
    {
        let e = &g.enums[k];
        let d = decimal_string(e.entries.len() as u64).concat(" entries");
        assert(gv.enums[k as int] == e@);
        push_info(&mut out, e.name.clone(), "enum", d);
        assert(a + b + c.take(k + 1) =~= (a + b + c.take(k as int)).push(c[k as int]));
        k = k + 1;
    }
    assert(c.take(k as int) =~= c);
    out
}

/// The structure listing of a project: each group, in order, with its
/// nodes (see [`group_infos`]).
pub fn schema_show(groups: &[Group]) -> (r: Vec<SchemaShowEntry>)
    ensures
        r@.len() == groups@.len(),
        forall|i: int| 0 <= i < r@.len() ==> (#[trigger] r@[i]).group@ == groups@[i].name@,
        forall|i: int| 0 <= i < r@.len() ==> infos_view((#[trigger] r@[i]).nodes@) == group_infos(groups@[i]@),
{
    let mut out: Vec<SchemaShowEntry> = Vec::new();
    let mut i: usize = 0;
    while i < groups.len()
        invariant
            i <= groups@.len(),
            out@.len() == i,
            forall|j: int| 0 <= j < i ==> (#[trigger] out@[j]).group@ == groups@[j].name@,
            forall|j: int| 0 <= j < i ==> infos_view((#[trigger] out@[j]).nodes@) == group_infos(groups@[j]@),
        decreases groups.len() - i,
    {
        let g = &groups[i];
        let nodes = group_show(g);
        out.push(SchemaShowEntry { group: g.name.clone(), nodes });
        i = i + 1;
    }
    out
}


// ───────────────────────── file statistics ─────────────────────────

/// Counts of one `.tbl` file: its kind, its columns (tables only), its rows
/// or entries, and its empty cells (tables only).
#[derive(Clone, Debug)]
pub struct TblStat {
    pub kind: &'static str,
    pub fields: usize,
    pub rows: usize,
    pub empty_cells: usize,
}

/// Empty cells of a row.
pub open spec fn row_empties(row: Seq<Seq<char>>) -> nat
    decreases row.len(),
{
    if row.len() == 0 {
        0
    } else {
        row_empties(row.drop_last()) + if row.last().len() == 0 { 1nat } else { 0nat }
    }
}

/// Empty cells of the rows.
pub open spec fn rows_empties(rows: Seq<Seq<Seq<char>>>) -> nat
    decreases rows.len(),
{
    if rows.len() == 0 {
        0
    } else {
        rows_empties(rows.drop_last()) + row_empties(rows.last())
    }
}

/// Cells of the rows.
pub open spec fn rows_cells(rows: Seq<Seq<Seq<char>>>) -> nat
    decreases rows.len(),
{
    if rows.len() == 0 {
        0
    } else {
        rows_cells(rows.drop_last()) + rows.last().len()
    }
}

proof fn lemma_row_empties_bound(row: Seq<Seq<char>>)
    ensures
        row_empties(row) <= row.len(),
    decreases row.len(),
{
    if row.len() > 0 {
        lemma_row_empties_bound(row.drop_last());
    }
}

proof fn lemma_rows_empties_bound(rows: Seq<Seq<Seq<char>>>)
    ensures
        rows_empties(rows) <= rows_cells(rows),
    decreases rows.len(),
{
    if rows.len() > 0 {
        lemma_rows_empties_bound(rows.drop_last());
        lemma_row_empties_bound(rows.last());
    }
}

proof fn lemma_rows_cells_prefix(rows: Seq<Seq<Seq<char>>>, i: int)
    requires
        0 <= i <= rows.len(),
    ensures
        rows_cells(rows.take(i)) <= rows_cells(rows),
    decreases rows.len() - i,
{
    if i < rows.len() {
        lemma_rows_cells_prefix(rows, i + 1);
        assert(rows.take(i + 1).drop_last() =~= rows.take(i));
    } else {
        assert(rows.take(i) =~= rows);
    }
}

fn count_empty(row: &Vec<String>) -> (r: usize)
    ensures
        r == row_empties(views_of(row@)),
{
    let ghost v = views_of(row@);
    let mut n: usize = 0;
    let mut i: usize = 0;
    while i < row.len()
        invariant
            i <= row@.len(),
            v == views_of(row@),
            n == row_empties(v.take(i as int)),
            n <= i,
        decreases row.len() - i,
    {
        assert(v.take(i + 1).drop_last() =~= v.take(i as int));
        assert(v.take(i + 1).last() == row@[i as int]@);
        if row[i].as_str().is_empty() {
            n = n + 1;
        }
        i = i + 1;
    }
    assert(v.take(i as int) =~= v);
    n
}

/// Counts of a `.tbl` file (see [`TblStat`]).
pub fn tbl_stat(tbl: &TblFile) -> (r: TblStat)
    requires
        tbl matches TblFile::Table(t) ==> rows_cells(records_view(t.records@)) <= usize::MAX,
    ensures
        match tbl@ {
            TblFileView::Table(t) => {
                &&& r.kind@ == "table"@
                &&& r.fields == t.fields.len()
                &&& r.rows == t.records.len()
                &&& r.empty_cells == rows_empties(t.records)
            },
            TblFileView::Constant(c) => r.kind@ == "constant"@ && r.fields == 0 && r.rows == c.entries.len()
                && r.empty_cells == 0,
            TblFileView::Enum(e) => r.kind@ == "enum"@ && r.fields == 0 && r.rows == e.entries.len()
                && r.empty_cells == 0,
        },
{
    match tbl {
        TblFile::Table(t) => {
            let ghost rv = records_view(t.records@);
            let mut empties: usize = 0;
            let mut i: usize = 0;
            while i < t.records.len()
                invariant
                    i <= t.records@.len(),
                    rv == records_view(t.records@),
                    rows_cells(rv) <= usize::MAX,
                    empties == rows_empties(rv.take(i as int)),
                decreases t.records.len() - i,
            {
                assert(rv.take(i + 1).drop_last() =~= rv.take(i as int));
                assert(rv.take(i + 1).last() == views_of(t.records@[i as int]@));
                let e = count_empty(&t.records[i]);
                proof {
                    lemma_rows_empties_bound(rv.take(i + 1));
                    lemma_rows_cells_prefix(rv, i + 1);
                }
                empties = empties + e;
                i = i + 1;
            }
            assert(rv.take(i as int) =~= rv);
            TblStat { kind: "table", fields: t.schema.fields.len(), rows: t.records.len(), empty_cells: empties }
        },
        TblFile::Constant(c) => TblStat { kind: "constant", fields: 0, rows: c.entries.len(), empty_cells: 0 },
        TblFile::Enum(e) => TblStat { kind: "enum", fields: 0, rows: e.entries.len(), empty_cells: 0 },
    }
}

/// Counts of a set of `.tbl` files: how many of each kind, and their rows
/// and entries together.
#[derive(Clone, Debug)]
pub struct DirStat {
    pub files: usize,
    pub tables: usize,
    pub constants: usize,
    pub enums: usize,
    pub rows: usize,
}

pub open spec fn file_rows(f: TblFileView) -> nat {
    match f {
        TblFileView::Table(t) => t.records.len(),
        TblFileView::Constant(c) => c.entries.len(),
        TblFileView::Enum(e) => e.entries.len(),
    }
}

pub open spec fn count_kind(fs: Seq<TblFileView>, k: int) -> nat
    decreases fs.len(),
{
    if fs.len() == 0 {
        0
    } else {
        count_kind(fs.drop_last(), k) + if (k == 0 && fs.last() is Table) || (k == 1 && fs.last() is Constant) || (k
            == 2 && fs.last() is Enum) {
            1nat
        } else {
            0nat
        }
    }
}

pub open spec fn total_rows(fs: Seq<TblFileView>) -> nat
    decreases fs.len(),
{
    if fs.len() == 0 {
        0
    } else {
        total_rows(fs.drop_last()) + file_rows(fs.last())
    }
}

pub open spec fn files_view(fs: Seq<TblFile>) -> Seq<TblFileView> {
    fs.map_values(|f: TblFile| f@)
}

proof fn lemma_count_kind_bound(fs: Seq<TblFileView>, k: int)
    ensures
        count_kind(fs, k) <= fs.len(),
    decreases fs.len(),
{
    if fs.len() > 0 {
        lemma_count_kind_bound(fs.drop_last(), k);
    }
}

proof fn lemma_total_rows_prefix(fs: Seq<TblFileView>, i: int)
    requires
        0 <= i <= fs.len(),
    ensures
        total_rows(fs.take(i)) <= total_rows(fs),
    decreases fs.len() - i,
{
    if i < fs.len() {
        lemma_total_rows_prefix(fs, i + 1);
        assert(fs.take(i + 1).drop_last() =~= fs.take(i));
    } else {
        assert(fs.take(i) =~= fs);
    }
}

/// Counts of the files (see [`DirStat`]).
pub fn dir_stat(files: &Vec<TblFile>) -> (r: DirStat)
    requires
        total_rows(files_view(files@)) <= usize::MAX,
    ensures
        r.files == files@.len(),
        r.tables == count_kind(files_view(files@), 0),
        r.constants == count_kind(files_view(files@), 1),
        r.enums == count_kind(files_view(files@), 2),
        r.rows == total_rows(files_view(files@)),
{
    let ghost fv = files_view(files@);
    let mut out = DirStat { files: 0, tables: 0, constants: 0, enums: 0, rows: 0 };
    let mut i: usize = 0;
    while i < files.len()
        invariant
            i <= files@.len(),
            fv == files_view(files@),
            total_rows(fv) <= usize::MAX,
            out.files == i,
            out.tables == count_kind(fv.take(i as int), 0),
            out.constants == count_kind(fv.take(i as int), 1),
            out.enums == count_kind(fv.take(i as int), 2),
            out.rows == total_rows(fv.take(i as int)),
        decreases files.len() - i,
    {
        assert(fv.take(i + 1).drop_last() =~= fv.take(i as int));
        assert(fv.take(i + 1).last() == files@[i as int]@);
        proof {
            lemma_count_kind_bound(fv.take(i as int), 0);
            lemma_count_kind_bound(fv.take(i as int), 1);
            lemma_count_kind_bound(fv.take(i as int), 2);
            lemma_total_rows_prefix(fv, i + 1);
        }
        match &files[i] {
            TblFile::Table(t) => {
                out.tables = out.tables + 1;
                out.rows = out.rows + t.records.len();
            },
            TblFile::Constant(c) => {
                out.constants = out.constants + 1;
                out.rows = out.rows + c.entries.len();
            },
            TblFile::Enum(e) => {
                out.enums = out.enums + 1;
                out.rows = out.rows + e.entries.len();
            },
        }
        out.files = out.files + 1;
        i = i + 1;
    }
    assert(fv.take(i as int) =~= fv);
    out
}

} // verus!
