//! The `.tbl` file format: one table, constant set or enum per file.
//!
//! A file starts with `#!tbl`, then header lines (`#mode`, and for a table
//! `#desc`, `#export`, `#type`, `#field`), a `---` line, and one data line
//! per record, its cells in stored form joined with `|`.

use vstd::prelude::*;
use crate::model::{
    const_entries_view, enum_entries_view, field_defs_view, records_view, ConstEntry,
    ConstEntryView, Constant, ConstantView, EnumDef, EnumDefView, EnumEntry, EnumEntryView,
    Export, FieldDef, FieldDefView, Table, TableSchema, TableView,
};
use crate::tbl_str::{
    decode, encode, encode_all, join_pipe, spec_decode_str, spec_encode_str, spec_split_row,
    split_row, views_of,
};
use crate::text::{
    chars_is, chars_of, has_prefix, lines_chars, lines_of, split_chars, split_on, starts_with,
    string_of, sub_chars, trim, trim_chars, trim_str,
};

verus! {

/// `cells` joined with `|`, built from the front.
pub proof fn lemma_join_pipe_push(cells: Seq<Seq<char>>, x: Seq<char>)
    requires
        cells.len() >= 1,
    ensures
        join_pipe(cells.push(x)) == join_pipe(cells) + seq!['|'] + x,
    decreases cells.len(),
{
    let s = cells.push(x);
    if cells.len() == 1 {
        assert(s.drop_first() =~= seq![x]);
        assert(join_pipe(seq![x]) == x);
    } else {
        lemma_join_pipe_push(cells.drop_first(), x);
        assert(s.drop_first() =~= cells.drop_first().push(x));
    }
}

/// Joins the texts of `v` with `|`.
pub fn join_pipe_strings(v: &Vec<String>) -> (r: String)
    ensures
        r@ == join_pipe(views_of(v@)),
{
    let ghost vv = views_of(v@);
    if v.len() == 0 {
        return String::new();
    }
    let mut out = v[0].clone();
    assert(vv.take(1) =~= seq![vv[0]]);
    let mut i: usize = 1;
    while i < v.len()
        invariant
            1 <= i <= v@.len(),
            vv == views_of(v@),
            out@ == join_pipe(vv.take(i as int)),
        decreases v.len() - i,
    {
        proof {
            lemma_join_pipe_push(vv.take(i as int), vv[i as int]);
            assert(vv.take(i + 1) =~= vv.take(i as int).push(vv[i as int]));
            reveal_strlit("|");
        }
        out = out.concat("|");
        out = out.concat(v[i].as_str());
        i = i + 1;
    }
    assert(vv.take(i as int) =~= vv);
    out
}

/// Data lines of records: each row's stored cells joined with `|`, then a
/// line break.
pub open spec fn record_lines(rows: Seq<Seq<Seq<char>>>) -> Seq<char>
    decreases rows.len(),
{
    if rows.len() == 0 {
        seq![]
    } else {
        record_lines(rows.drop_last()) + join_pipe(encode_all(rows.last())) + "\n"@
    }
}

/// Text of a table file.
pub open spec fn spec_serialize_table(t: TableView) -> Seq<char> {
    let f = t.fields;
    "#!tbl v2\n#mode table\n#desc "@ + join_pipe(encode_all(f.map_values(|x: FieldDefView| x.desc)))
        + "\n#export "@ + join_pipe(f.map_values(|x: FieldDefView| x.export.spec_to_tbl()))
        + "\n#type "@ + join_pipe(f.map_values(|x: FieldDefView| x.tbl_type)) + "\n#field "@
        + join_pipe(f.map_values(|x: FieldDefView| x.name)) + "\n---\n"@ + record_lines(t.records)
}

fn encode_row(row: &Vec<String>, fields: &Vec<FieldDef>) -> (r: String)
    ensures
        r@ == join_pipe(encode_all(views_of(row@))),
{
    let mut cells: Vec<String> = Vec::new();
    let mut i: usize = 0;
    while i < row.len()
        invariant
            i <= row@.len(),
            views_of(cells@) == encode_all(views_of(row@)).take(i as int),
        decreases row.len() - i,
    {
        let e = if i < fields.len() {
            encode(row[i].as_str(), fields[i].tbl_type.as_str())
        } else {
            encode(row[i].as_str(), "txt")
        };
        let ghost prev = views_of(cells@);
        cells.push(e);
        assert(views_of(cells@) =~= prev.push(e@));
        assert(encode_all(views_of(row@)).take(i + 1) =~= encode_all(views_of(row@)).take(
            i as int,
        ).push(spec_encode_str(row@[i as int]@)));
        i = i + 1;
    }
    assert(encode_all(views_of(row@)).take(i as int) =~= encode_all(views_of(row@)));
    join_pipe_strings(&cells)
}

/// Writes a table in the current format (`#!tbl v2`).
pub fn serialize_table(table: &Table) -> (r: String)
    ensures
        r@ == spec_serialize_table(table@),
{
    let fields = &table.schema.fields;
    let ghost fv = field_defs_view(fields@);
    let mut descs: Vec<String> = Vec::new();
    let mut exports: Vec<String> = Vec::new();
    let mut types: Vec<String> = Vec::new();
    let mut names: Vec<String> = Vec::new();
    let mut i: usize = 0;
    while i < fields.len()
        invariant
            i <= fields@.len(),
            fv == field_defs_view(fields@),
            views_of(descs@) == encode_all(fv.map_values(|x: FieldDefView| x.desc)).take(i as int),
            views_of(exports@) == fv.map_values(|x: FieldDefView| x.export.spec_to_tbl()).take(i as int),
            views_of(types@) == fv.map_values(|x: FieldDefView| x.tbl_type).take(i as int),
            views_of(names@) == fv.map_values(|x: FieldDefView| x.name).take(i as int),
        decreases fields.len() - i,
    {
        let f = &fields[i];
        assert(fv[i as int] == f@);
        let ghost (d0, e0, t0, n0) = (views_of(descs@), views_of(exports@), views_of(types@), views_of(names@));
        descs.push(encode(f.desc.as_str(), "txt"));
        exports.push(String::from_str(f.export.to_tbl()));
        types.push(crate::model::copy_str(&f.tbl_type));
        names.push(crate::model::copy_str(&f.name));
        assert(views_of(types@) =~= t0.push(f.tbl_type@));
        assert(views_of(names@) =~= n0.push(f.name@));
        assert(views_of(descs@) =~= d0.push(spec_encode_str(f.desc@)));
        assert(views_of(exports@) =~= e0.push(f.export.spec_to_tbl()));
        assert(views_of(descs@) =~= encode_all(fv.map_values(|x: FieldDefView| x.desc)).take(i + 1));
        assert(views_of(exports@) =~= fv.map_values(|x: FieldDefView| x.export.spec_to_tbl()).take(i + 1));
        assert(views_of(types@) =~= fv.map_values(|x: FieldDefView| x.tbl_type).take(i + 1));
        assert(views_of(names@) =~= fv.map_values(|x: FieldDefView| x.name).take(i + 1));
        i = i + 1;
    }
    assert(encode_all(fv.map_values(|x: FieldDefView| x.desc)).take(i as int) =~= encode_all(fv.map_values(|x: FieldDefView| x.desc)));
    assert(fv.map_values(|x: FieldDefView| x.export.spec_to_tbl()).take(i as int) =~= fv.map_values(|x: FieldDefView| x.export.spec_to_tbl()));
    assert(fv.map_values(|x: FieldDefView| x.tbl_type).take(i as int) =~= fv.map_values(|x: FieldDefView| x.tbl_type));
    assert(fv.map_values(|x: FieldDefView| x.name).take(i as int) =~= fv.map_values(|x: FieldDefView| x.name));
    let mut s = String::from_str("#!tbl v2\n#mode table\n#desc ");
    s = s.concat(join_pipe_strings(&descs).as_str());
    s = s.concat("\n#export ");
    s = s.concat(join_pipe_strings(&exports).as_str());
    s = s.concat("\n#type ");
    s = s.concat(join_pipe_strings(&types).as_str());
    s = s.concat("\n#field ");
    s = s.concat(join_pipe_strings(&names).as_str());
    s = s.concat("\n---\n");
    let ghost head = s@;
    let ghost rv = records_view(table.records@);
    let mut j: usize = 0;
    assert(rv.take(0) =~= Seq::<Seq<Seq<char>>>::empty());
    assert(head + record_lines(rv.take(0)) =~= head);
    while j < table.records.len()
        invariant
            j <= table.records@.len(),
            rv == records_view(table.records@),
            s@ == head + record_lines(rv.take(j as int)),
        decreases table.records.len() - j,
    {
        assert(rv.take(j + 1).drop_last() =~= rv.take(j as int));
        assert(rv[j as int] == views_of(table.records@[j as int]@));
        let line = encode_row(&table.records[j], fields);
        s = s.concat(line.as_str());
        s = s.concat("\n");
        j = j + 1;
    }
    assert(rv.take(j as int) =~= rv);
    s
}

/// Data line of a constant entry: name, type, value, export label and
/// description; name, value and description in stored form.
pub open spec fn const_line(e: ConstEntryView) -> Seq<char> {
    spec_encode_str(e.name) + "|"@ + e.tbl_type + "|"@ + spec_encode_str(e.value) + "|"@
        + e.export.spec_to_tbl() + "|"@ + spec_encode_str(e.desc) + "\n"@
}

pub open spec fn const_lines(es: Seq<ConstEntryView>) -> Seq<char>
    decreases es.len(),
{
    if es.len() == 0 {
        seq![]
    } else {
        const_lines(es.drop_last()) + const_line(es.last())
    }
}

/// Text of a constant file.
pub open spec fn spec_serialize_constant(c: ConstantView) -> Seq<char> {
    "#!tbl v2\n#mode constant\n---\n"@ + const_lines(c.entries)
}

/// Writes a constant set in the current format.
pub fn serialize_constant(constant: &Constant) -> (r: String)
    ensures
        r@ == spec_serialize_constant(constant@),
{
    let mut s = String::from_str("#!tbl v2\n#mode constant\n---\n");
    let ghost head = s@;
    let ghost ev = const_entries_view(constant.entries@);
    let mut j: usize = 0;
    assert(ev.take(0) =~= Seq::<ConstEntryView>::empty());
    assert(head + const_lines(ev.take(0)) =~= head);
    while j < constant.entries.len()
        invariant
            j <= constant.entries@.len(),
            ev == const_entries_view(constant.entries@),
            s@ == head + const_lines(ev.take(j as int)),
        decreases constant.entries.len() - j,
    {
        assert(ev.take(j + 1).drop_last() =~= ev.take(j as int));
        let e = &constant.entries[j];
        assert(ev[j as int] == e@);
        s = s.concat(encode(e.name.as_str(), "txt").as_str());
        s = s.concat("|");
        s = s.concat(e.tbl_type.as_str());
        s = s.concat("|");
        s = s.concat(encode(e.value.as_str(), e.tbl_type.as_str()).as_str());
        s = s.concat("|");
        s = s.concat(e.export.to_tbl());
        s = s.concat("|");
        s = s.concat(encode(e.desc.as_str(), "txt").as_str());
        s = s.concat("\n");
        j = j + 1;
    }
    assert(ev.take(j as int) =~= ev);
    s
}

/// Data line of an enum entry: id, name and description in stored form.
pub open spec fn enum_line(e: EnumEntryView) -> Seq<char> {
    spec_encode_str(e.id) + "|"@ + spec_encode_str(e.name) + "|"@ + spec_encode_str(e.desc) + "\n"@
}

pub open spec fn enum_lines(es: Seq<EnumEntryView>) -> Seq<char>
    decreases es.len(),
{
    if es.len() == 0 {
        seq![]
    } else {
        enum_lines(es.drop_last()) + enum_line(es.last())
    }
}

/// Text of an enum file.
pub open spec fn spec_serialize_enum(e: EnumDefView) -> Seq<char> {
    "#!tbl v2\n#mode enum\n---\n"@ + enum_lines(e.entries)
}

/// Writes an enum in the current format.
pub fn serialize_enum(enum_def: &EnumDef) -> (r: String)
    ensures
        r@ == spec_serialize_enum(enum_def@),
{
    let mut s = String::from_str("#!tbl v2\n#mode enum\n---\n");
    let ghost head = s@;
    let ghost ev = enum_entries_view(enum_def.entries@);
    let mut j: usize = 0;
    assert(ev.take(0) =~= Seq::<EnumEntryView>::empty());
    assert(head + enum_lines(ev.take(0)) =~= head);
    while j < enum_def.entries.len()
        invariant
            j <= enum_def.entries@.len(),
            ev == enum_entries_view(enum_def.entries@),
            s@ == head + enum_lines(ev.take(j as int)),
        decreases enum_def.entries.len() - j,
    {
        assert(ev.take(j + 1).drop_last() =~= ev.take(j as int));
        let e = &enum_def.entries[j];
        assert(ev[j as int] == e@);
        s = s.concat(encode(e.id.as_str(), "txt").as_str());
        s = s.concat("|");
        s = s.concat(encode(e.name.as_str(), "txt").as_str());
        s = s.concat("|");
        s = s.concat(encode(e.desc.as_str(), "txt").as_str());
        s = s.concat("\n");
        j = j + 1;
    }
    assert(ev.take(j as int) =~= ev);
    s
}

// ───────────────────────── reading ─────────────────────────

/// What the header lines of a file say, and its data lines.
pub struct TblHeader {
    pub mode: Seq<char>,
    pub desc: Seq<char>,
    pub types: Seq<char>,
    pub exports: Seq<char>,
    pub fields: Seq<char>,
    pub data: Seq<Seq<char>>,
    pub in_data: bool,
}

pub open spec fn empty_header() -> TblHeader {
    TblHeader {
        mode: seq![],
        desc: seq![],
        types: seq![],
        exports: seq![],
        fields: seq![],
        data: seq![],
        in_data: false,
    }
}

/// Reads one line after the `#!tbl` line. After `---` every non-empty line
/// is a data line; before it, `#mode `, `#desc `, `#type `, `#export ` and
/// `#field ` lines set the header, a later one replacing an earlier one,
/// and other lines are ignored.
pub open spec fn header_step(h: TblHeader, line: Seq<char>) -> TblHeader {
    if h.in_data {
        if line.len() > 0 {
            TblHeader { data: h.data.push(line), ..h }
        } else {
            h
        }
    } else if line == "---"@ {
        TblHeader { in_data: true, ..h }
    } else if starts_with(line, "#mode "@) {
        TblHeader { mode: trim(line.skip("#mode "@.len() as int)), ..h }
    } else if starts_with(line, "#desc "@) {
        TblHeader { desc: line.skip("#desc "@.len() as int), ..h }
    } else if starts_with(line, "#type "@) {
        TblHeader { types: line.skip("#type "@.len() as int), ..h }
    } else if starts_with(line, "#export "@) {
        TblHeader { exports: line.skip("#export "@.len() as int), ..h }
    } else if starts_with(line, "#field "@) {
        TblHeader { fields: line.skip("#field "@.len() as int), ..h }
    } else {
        h
    }
}

pub open spec fn read_header(lines: Seq<Seq<char>>) -> TblHeader
    decreases lines.len(),
{
    if lines.len() == 0 {
        empty_header()
    } else {
        header_step(read_header(lines.drop_last()), lines.last())
    }
}

/// Columns that the header declares: one per `|`-separated name of the
/// `#field` line; a missing description is empty, a missing type is `str`,
/// a missing export label means both sides.
pub open spec fn spec_table_fields(h: TblHeader) -> Seq<FieldDefView> {
    let ds = spec_split_row(h.desc);
    let ts = split_on(h.types, '|');
    let es = split_on(h.exports, '|');
    let fs = split_on(h.fields, '|');
    Seq::new(
        fs.len(),
        |i: int|
            FieldDefView {
                name: trim(fs[i]),
                desc: if i < ds.len() { trim(spec_decode_str(ds[i])) } else { seq![] },
                tbl_type: if i < ts.len() { trim(ts[i]) } else { "str"@ },
                export: Export::spec_from_text(trim(if i < es.len() { es[i] } else { seq![] })),
            },
    )
}

/// A data line read back as cells.
pub open spec fn decode_line(line: Seq<char>) -> Seq<Seq<char>> {
    spec_split_row(line).map_values(|c: Seq<char>| spec_decode_str(c))
}

/// A data line of a constant file read back as an entry, when it has at
/// least three cells.
pub open spec fn const_entry_of(line: Seq<char>) -> Option<ConstEntryView> {
    let raw = spec_split_row(line);
    if raw.len() < 3 {
        None
    } else {
        Some(
            ConstEntryView {
                name: trim(spec_decode_str(raw[0])),
                tbl_type: trim(spec_decode_str(raw[1])),
                value: trim(spec_decode_str(raw[2])),
                export: Export::spec_from_text(
                    trim(if raw.len() > 3 { spec_decode_str(raw[3]) } else { seq![] }),
                ),
                desc: if raw.len() > 4 { trim(spec_decode_str(raw[4])) } else { seq![] },
            },
        )
    }
}

pub open spec fn const_entries_of(lines: Seq<Seq<char>>) -> Seq<ConstEntryView>
    decreases lines.len(),
{
    if lines.len() == 0 {
        seq![]
    } else {
        match const_entry_of(lines.last()) {
            Some(e) => const_entries_of(lines.drop_last()).push(e),
            None => const_entries_of(lines.drop_last()),
        }
    }
}

/// A data line of an enum file read back as an entry.
pub open spec fn enum_entry_of(line: Seq<char>) -> EnumEntryView {
    let raw = spec_split_row(line);
    EnumEntryView {
        id: trim(spec_decode_str(raw[0])),
        name: if raw.len() > 1 { trim(spec_decode_str(raw[1])) } else { seq![] },
        desc: if raw.len() > 2 { trim(spec_decode_str(raw[2])) } else { seq![] },
    }
}

/// One parsed `.tbl` file.
#[derive(Clone, Debug)]
pub enum TblFile {
    Table(Table),
    Constant(Constant),
    Enum(EnumDef),
}

pub enum TblFileView {
    Table(TableView),
    Constant(ConstantView),
    Enum(EnumDefView),
}

impl View for TblFile {
    type V = TblFileView;

    open spec fn view(&self) -> TblFileView {
        match self {
            TblFile::Table(t) => TblFileView::Table(t@),
            TblFile::Constant(c) => TblFileView::Constant(c@),
            TblFile::Enum(e) => TblFileView::Enum(e@),
        }
    }
}

/// Why a text is not a `.tbl` file.
#[derive(Clone, Debug)]
pub enum TblError {
    /// The first line does not start with `#!tbl`.
    MissingHeader,
    /// The `#mode` line names no known mode.
    UnknownMode { mode: String },
}

pub enum TblErrorView {
    MissingHeader,
    UnknownMode { mode: Seq<char> },
}

impl View for TblError {
    type V = TblErrorView;

    open spec fn view(&self) -> TblErrorView {
        match self {
            TblError::MissingHeader => TblErrorView::MissingHeader,
            TblError::UnknownMode { mode } => TblErrorView::UnknownMode { mode: mode@ },
        }
    }
}

pub open spec fn spec_tbl_error_message(e: TblErrorView) -> Seq<char> {
    match e {
        TblErrorView::MissingHeader => "not a valid .tbl file: missing #!tbl header"@,
        TblErrorView::UnknownMode { mode } => "unknown mode: "@ + mode,
    }
}

impl TblError {
    pub fn message(&self) -> (r: String)
        ensures
            r@ == spec_tbl_error_message(self@),
    {
        match self {
            TblError::MissingHeader => String::from_str("not a valid .tbl file: missing #!tbl header"),
            TblError::UnknownMode { mode } => String::from_str("unknown mode: ").concat(mode.as_str()),
        }
    }
}

/// The file that `content` holds, named `name` and stored at `path`. A
/// freshly read node is clean, and its last saved form is its serialized
/// form.
pub open spec fn spec_parse_tbl(content: Seq<char>, name: Seq<char>, path: Seq<char>) -> Result<
    TblFileView,
    TblErrorView,
> {
    let ls = lines_of(content);
    let first = if ls.len() > 0 { ls[0] } else { seq![] };
    if !starts_with(first, "#!tbl"@) {
        Err(TblErrorView::MissingHeader)
    } else {
        let h = read_header(ls.skip(1));
        if h.mode == "table"@ {
            let t = TableView {
                name,
                path,
                fields: spec_table_fields(h),
                records: h.data.map_values(|l: Seq<char>| decode_line(l)),
                dirty: false,
                deleted: false,
                saved_text: seq![],
            };
            Ok(TblFileView::Table(TableView { saved_text: spec_serialize_table(t), ..t }))
        } else if h.mode == "constant"@ {
            let c = ConstantView {
                name,
                path,
                entries: const_entries_of(h.data),
                dirty: false,
                deleted: false,
                saved_text: seq![],
            };
            Ok(TblFileView::Constant(ConstantView { saved_text: spec_serialize_constant(c), ..c }))
        } else if h.mode == "enum"@ {
            let e = EnumDefView {
                name,
                path,
                entries: h.data.map_values(|l: Seq<char>| enum_entry_of(l)),
                dirty: false,
                deleted: false,
                saved_text: seq![],
            };
            Ok(TblFileView::Enum(EnumDefView { saved_text: spec_serialize_enum(e), ..e }))
        } else {
            Err(TblErrorView::UnknownMode { mode: h.mode })
        }
    }
}

struct HeaderReader {
    mode: Vec<char>,
    desc: Vec<char>,
    types: Vec<char>,
    exports: Vec<char>,
    fields: Vec<char>,
    data: Vec<Vec<char>>,
    in_data: bool,
}

impl View for HeaderReader {
    type V = TblHeader;

    closed spec fn view(&self) -> TblHeader {
        TblHeader {
            mode: self.mode@,
            desc: self.desc@,
            types: self.types@,
            exports: self.exports@,
            fields: self.fields@,
            data: self.data@.map_values(|x: Vec<char>| x@),
            in_data: self.in_data,
        }
    }
}

fn after_prefix(line: &[char], p: &str) -> (r: Option<Vec<char>>)
    ensures
        match r {
            Some(v) => starts_with(line@, p@) && v@ == line@.skip(p@.len() as int),
            None => !starts_with(line@, p@),
        },
{
    let pv = chars_of(p);
    if has_prefix(line, pv.as_slice()) {
        let v = sub_chars(line, pv.len(), line.len());
        assert(v@ =~= line@.skip(pv@.len() as int));
        Some(v)
    } else {
        None
    }
}

fn read_header_line(h: &mut HeaderReader, line: &Vec<char>)
    ensures
        final(h)@ == header_step(old(h)@, line@),
{
    if h.in_data {
        if line.len() > 0 {
            let ghost prev = h.data@.map_values(|x: Vec<char>| x@);
            h.data.push(line.clone());
            assert(h.data@.map_values(|x: Vec<char>| x@) =~= prev.push(line@));
        }
        return;
    }
    let ls = line.as_slice();
    if chars_is(ls, "---") {
        h.in_data = true;
    } else if let Some(v) = after_prefix(ls, "#mode ") {
        h.mode = trim_chars(v.as_slice());
    } else if let Some(v) = after_prefix(ls, "#desc ") {
        h.desc = v;
    } else if let Some(v) = after_prefix(ls, "#type ") {
        h.types = v;
    } else if let Some(v) = after_prefix(ls, "#export ") {
        h.exports = v;
    } else if let Some(v) = after_prefix(ls, "#field ") {
        h.fields = v;
    }
}

fn decode_cells(line: &Vec<char>) -> (r: Vec<String>)
    ensures
        views_of(r@) == decode_line(line@),
{
    let text = string_of(line);
    let raw = split_row(text.as_str());
    let mut out: Vec<String> = Vec::new();
    let mut i: usize = 0;
    while i < raw.len()
        invariant
            i <= raw@.len(),
            views_of(raw@) == spec_split_row(line@),
            views_of(out@) == views_of(raw@).take(i as int).map_values(|c: Seq<char>| spec_decode_str(c)),
        decreases raw.len() - i,
    {
        let d = decode(raw[i].as_str(), "txt");
        let ghost prev = views_of(out@);
        out.push(d);
        assert(views_of(out@) =~= prev.push(d@));
        assert(views_of(raw@).take(i + 1).map_values(|c: Seq<char>| spec_decode_str(c)) =~= views_of(
            raw@,
        ).take(i as int).map_values(|c: Seq<char>| spec_decode_str(c)).push(
            spec_decode_str(raw@[i as int]@),
        ));
        i = i + 1;
    }
    assert(views_of(raw@).take(i as int) =~= views_of(raw@));
    out
}

fn trimmed_decoded(cell: &String) -> (r: String)
    ensures
        r@ == trim(spec_decode_str(cell@)),
{
    let d = decode(cell.as_str(), "txt");
    trim_str(d.as_str())
}

fn table_fields(h: &HeaderReader) -> (r: Vec<FieldDef>)
    ensures
        field_defs_view(r@) == spec_table_fields(h@),
{
    let dline = string_of(&h.desc);
    let ds = split_row(dline.as_str());
    let ts = split_chars(h.types.as_slice(), '|');
    let es = split_chars(h.exports.as_slice(), '|');
    let fs = split_chars(h.fields.as_slice(), '|');
    let ghost tv = ts@.map_values(|x: Vec<char>| x@);
    let ghost ev = es@.map_values(|x: Vec<char>| x@);
    let ghost fv = fs@.map_values(|x: Vec<char>| x@);
    let ghost want = spec_table_fields(h@);
    let mut out: Vec<FieldDef> = Vec::new();
    let mut i: usize = 0;
    while i < fs.len()
        invariant
            i <= fs@.len(),
            want == spec_table_fields(h@),
            want.len() == fs@.len(),
            views_of(ds@) == spec_split_row(h@.desc),
            tv == split_on(h@.types, '|'),
            ev == split_on(h@.exports, '|'),
            fv == split_on(h@.fields, '|'),
            tv == ts@.map_values(|x: Vec<char>| x@),
            ev == es@.map_values(|x: Vec<char>| x@),
            fv == fs@.map_values(|x: Vec<char>| x@),
            field_defs_view(out@) == want.take(i as int),
        decreases fs.len() - i,
    {
        let name = string_of(&trim_chars(fs[i].as_slice()));
        let desc = if i < ds.len() {
            trimmed_decoded(&ds[i])
        } else {
            String::new()
        };
        let tbl_type = if i < ts.len() {
            string_of(&trim_chars(ts[i].as_slice()))
        } else {
            String::from_str("str")
        };
        let export = if i < es.len() {
            Export::from_str(string_of(&es[i]).as_str())
        } else {
            Export::from_str("")
        };
        proof {
            reveal_strlit("");
        }
        let f = FieldDef { name, desc, tbl_type, export };
        assert(f@ == want[i as int]);
        let ghost prev = field_defs_view(out@);
        out.push(f);
        assert(field_defs_view(out@) =~= prev.push(f@));
        assert(want.take(i + 1) =~= want.take(i as int).push(want[i as int]));
        i = i + 1;
    }
    assert(want.take(i as int) =~= want);
    out
}

fn split_cells(line: &Vec<char>) -> (r: Vec<String>)
    ensures
        views_of(r@) == spec_split_row(line@),
{
    let text = string_of(line);
    split_row(text.as_str())
}

/// Reads the text of a `.tbl` file. `name` and `path` identify the node
/// (the caller reads the file and takes its name from the file stem).
pub fn parse_tbl_text(content: &str, name: &str, path: &str) -> (r: Result<TblFile, TblError>)
    ensures
        match r {
            Ok(f) => spec_parse_tbl(content@, name@, path@) == Ok::<TblFileView, TblErrorView>(f@),
            Err(e) => spec_parse_tbl(content@, name@, path@) == Err::<TblFileView, TblErrorView>(e@),
        },
{
    let v = chars_of(content);
    let lines = lines_chars(v.as_slice());
    let ghost lv = lines@.map_values(|x: Vec<char>| x@);
    let first = if lines.len() > 0 {
        lines[0].clone()
    } else {
        Vec::new()
    };
    proof {
        reveal_strlit("#!tbl");
    }
    if !has_prefix(first.as_slice(), chars_of("#!tbl").as_slice()) {
        return Err(TblError::MissingHeader);
    }
    let mut h = HeaderReader {
        mode: Vec::new(),
        desc: Vec::new(),
        types: Vec::new(),
        exports: Vec::new(),
        fields: Vec::new(),
        data: Vec::new(),
        in_data: false,
    };
    assert(h@.data =~= Seq::<Seq<char>>::empty());
    assert(h@ == empty_header());
    let mut i: usize = 1;
    assert(lv.skip(1).take(0) =~= Seq::<Seq<char>>::empty());
    while i < lines.len()
        invariant
            1 <= i <= lines@.len(),
            lv == lines@.map_values(|x: Vec<char>| x@),
            h@ == read_header(lv.skip(1).take(i - 1)),
        decreases lines.len() - i,
    {
        assert(lv.skip(1).take(i as int).drop_last() =~= lv.skip(1).take(i - 1));
        assert(lv.skip(1).take(i as int).last() == lines@[i as int]@);
        read_header_line(&mut h, &lines[i]);
        i = i + 1;
    }
    assert(lv.skip(1).take(i - 1) =~= lv.skip(1));
    let name_s = String::from_str(name);
    let path_s = String::from_str(path);
    if chars_is(h.mode.as_slice(), "table") {
        let fields = table_fields(&h);
        let mut records: Vec<Vec<String>> = Vec::new();
        let mut j: usize = 0;
        let ghost dv = h@.data;
        while j < h.data.len()
            invariant
                j <= h.data@.len(),
                dv == h@.data,
                dv == h.data@.map_values(|x: Vec<char>| x@),
                records_view(records@) == dv.take(j as int).map_values(|l: Seq<char>| decode_line(l)),
            decreases h.data.len() - j,
        {
            let cells = decode_cells(&h.data[j]);
            let ghost prev = records_view(records@);
            records.push(cells);
            assert(records_view(records@) =~= prev.push(views_of(cells@)));
            assert(dv.take(j + 1).map_values(|l: Seq<char>| decode_line(l)) =~= dv.take(
                j as int,
            ).map_values(|l: Seq<char>| decode_line(l)).push(decode_line(dv[j as int])));
            j = j + 1;
        }
        assert(dv.take(j as int) =~= dv);
        let mut t = Table {
            name: name_s,
            path: path_s,
            schema: TableSchema { fields },
            records,
            dirty: false,
            deleted: false,
            saved_text: String::new(),
        };
        t.saved_text = serialize_table(&t);
        Ok(TblFile::Table(t))
    } else if chars_is(h.mode.as_slice(), "constant") {
        let mut entries: Vec<ConstEntry> = Vec::new();
        let mut j: usize = 0;
        let ghost dv = h@.data;
        assert(dv.take(0) =~= Seq::<Seq<char>>::empty());
        while j < h.data.len()
            invariant
                j <= h.data@.len(),
                dv == h@.data,
                dv == h.data@.map_values(|x: Vec<char>| x@),
                const_entries_view(entries@) == const_entries_of(dv.take(j as int)),
            decreases h.data.len() - j,
        {
            assert(dv.take(j + 1).drop_last() =~= dv.take(j as int));
            assert(dv.take(j + 1).last() == h.data@[j as int]@);
            let raw = split_cells(&h.data[j]);
            if raw.len() >= 3 {
                let dec3 = if raw.len() > 3 {
                    decode(raw[3].as_str(), "txt")
                } else {
                    String::new()
                };
                let desc = if raw.len() > 4 {
                    trimmed_decoded(&raw[4])
                } else {
                    String::new()
                };
                let e = ConstEntry {
                    name: trimmed_decoded(&raw[0]),
                    tbl_type: trimmed_decoded(&raw[1]),
                    value: trimmed_decoded(&raw[2]),
                    export: Export::from_str(dec3.as_str()),
                    desc,
                };
                let ghost prev = const_entries_view(entries@);
                entries.push(e);
                assert(const_entries_view(entries@) =~= prev.push(e@));
            }
            j = j + 1;
        }
        assert(dv.take(j as int) =~= dv);
        let mut c = Constant {
            name: name_s,
            path: path_s,
            entries,
            dirty: false,
            deleted: false,
            saved_text: String::new(),
        };
        c.saved_text = serialize_constant(&c);
        Ok(TblFile::Constant(c))
    } else if chars_is(h.mode.as_slice(), "enum") {
        let mut entries: Vec<EnumEntry> = Vec::new();
        let mut j: usize = 0;
        let ghost dv = h@.data;
        while j < h.data.len()
            invariant
                j <= h.data@.len(),
                dv == h@.data,
                dv == h.data@.map_values(|x: Vec<char>| x@),
                enum_entries_view(entries@) == dv.take(j as int).map_values(|l: Seq<char>| enum_entry_of(l)),
            decreases h.data.len() - j,
        {
            let raw = split_cells(&h.data[j]);
            proof {
                crate::tbl_str::lemma_split_row_nonempty(h.data@[j as int]@);
            }
            let name_cell = if raw.len() > 1 {
                trimmed_decoded(&raw[1])
            } else {
                String::new()
            };
            let desc = if raw.len() > 2 {
                trimmed_decoded(&raw[2])
            } else {
                String::new()
            };
            let e = EnumEntry { id: trimmed_decoded(&raw[0]), name: name_cell, desc };
            let ghost prev = enum_entries_view(entries@);
            entries.push(e);
            assert(enum_entries_view(entries@) =~= prev.push(e@));
            assert(dv.take(j + 1).map_values(|l: Seq<char>| enum_entry_of(l)) =~= dv.take(
                j as int,
            ).map_values(|l: Seq<char>| enum_entry_of(l)).push(enum_entry_of(dv[j as int])));
            j = j + 1;
        }
        assert(dv.take(j as int) =~= dv);
        let mut e = EnumDef {
            name: name_s,
            path: path_s,
            entries,
            dirty: false,
            deleted: false,
            saved_text: String::new(),
        };
        e.saved_text = serialize_enum(&e);
        Ok(TblFile::Enum(e))
    } else {
        Err(TblError::UnknownMode { mode: string_of(&h.mode) })
    }
}

} // verus!
