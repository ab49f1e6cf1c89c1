//! The `.tblschema` format: a project's identity (`# @meta` lines), its
//! separators (`# @sep` lines) and the structure of its groups
//! (`[group/Name] mode` sections with their column lines and optional
//! `# @preset` data rows).

use vstd::prelude::*;
use crate::model::{
    copy_rows, copy_str, join_path, path_join, ConstEntry, Constant, EnumDef, EnumEntry, Export, FieldDef, Group,
    Table, TableSchema,
};
use crate::tbl_str::{decode_str, spec_decode_str, spec_split_row, split_row, views_of};
use crate::text::{
    chars_is, chars_of, decimal, decimal_string, find_char, first_index, has_prefix, is_ws,
    is_whitespace_char, lemma_first_index_bounds, lemma_split_on_nonempty, lines_chars,
    lines_of, push_chars, split_chars, split_on, starts_with, string_of, sub_chars, trim,
    trim_chars, trim_start, trim_start_chars,
};
use crate::types::{spec_sep_key_named, SepKey, SeparatorsSection};
pub use crate::schema_project::{apply_schema_to_project, schema_from_project};

verus! {

/// Identity of a project or template.
#[derive(Clone, Debug)]
pub struct SchemaMetadata {
    pub id: String,
    pub name: String,
    pub category: String,
    pub version: String,
    pub created_at: String,
    pub source_template: String,
    pub source_template_version: String,
    /// Whether some section carries preset rows.
    pub has_preset: bool,
}

/// Mathematical value of [`SchemaMetadata`].
pub struct MetaView {
    pub id: Seq<char>,
    pub name: Seq<char>,
    pub category: Seq<char>,
    pub version: Seq<char>,
    pub created_at: Seq<char>,
    pub source_template: Seq<char>,
    pub source_template_version: Seq<char>,
    pub has_preset: bool,
}

impl View for SchemaMetadata {
    type V = MetaView;

    open spec fn view(&self) -> MetaView {
        MetaView {
            id: self.id@,
            name: self.name@,
            category: self.category@,
            version: self.version@,
            created_at: self.created_at@,
            source_template: self.source_template@,
            source_template_version: self.source_template_version@,
            has_preset: self.has_preset,
        }
    }
}

pub open spec fn empty_meta() -> MetaView {
    MetaView {
        id: seq![],
        name: seq![],
        category: seq![],
        version: seq![],
        created_at: seq![],
        source_template: seq![],
        source_template_version: seq![],
        has_preset: false,
    }
}

impl Default for SchemaMetadata {
    fn default() -> (r: Self)
        ensures
            r@ == empty_meta(),
    {
        SchemaMetadata {
            id: String::new(),
            name: String::new(),
            category: String::new(),
            version: String::new(),
            created_at: String::new(),
            source_template: String::new(),
            source_template_version: String::new(),
            has_preset: false,
        }
    }
}

/// Kind of a section.
#[derive(Clone, Copy, Debug, PartialEq, Eq, Structural)]
pub enum SchemaMode {
    Table,
    Constant,
    Enum,
}

impl Default for SchemaMode {
    fn default() -> (r: Self)
        ensures
            r == SchemaMode::Table,
    {
        SchemaMode::Table
    }
}

/// A column declaration of a table section.
#[derive(Clone, Debug)]
pub struct SchemaField {
    pub name: String,
    pub tbl_type: String,
    pub export: String,
    pub desc: String,
}

pub struct FieldView {
    pub name: Seq<char>,
    pub tbl_type: Seq<char>,
    pub export: Seq<char>,
    pub desc: Seq<char>,
}

impl View for SchemaField {
    type V = FieldView;

    open spec fn view(&self) -> FieldView {
        FieldView {
            name: self.name@,
            tbl_type: self.tbl_type@,
            export: self.export@,
            desc: self.desc@,
        }
    }
}

/// Label of an export code: the short codes map to their Chinese labels,
/// and anything else counts as both sides.
pub open spec fn spec_export_display(code: Seq<char>) -> Seq<char> {
    if code == "c"@ {
        "客户端"@
    } else if code == "s"@ {
        "服务器"@
    } else if code == "-"@ {
        "不导出"@
    } else {
        "前后端"@
    }
}

impl SchemaField {
    /// Chinese label of the export code.
    pub fn export_display(&self) -> (r: &'static str)
        ensures
            r@ == spec_export_display(self.export@),
    {
        let e = chars_of(self.export.as_str());
        if chars_is(e.as_slice(), "c") {
            "客户端"
        } else if chars_is(e.as_slice(), "s") {
            "服务器"
        } else if chars_is(e.as_slice(), "-") {
            "不导出"
        } else {
            "前后端"
        }
    }

    /// Whether the column goes to the server: code `cs`, `s` or empty.
    pub fn is_server_export(&self) -> (r: bool)
        ensures
            r == (self.export@ == "cs"@ || self.export@.len() == 0 || self.export@ == "s"@),
    {
        let e = chars_of(self.export.as_str());
        chars_is(e.as_slice(), "cs") || e.len() == 0 || chars_is(e.as_slice(), "s")
    }
}

/// A `[group/Name] mode` section.
#[derive(Clone, Debug)]
pub struct SchemaSection {
    pub group: String,
    pub name: String,
    pub mode: SchemaMode,
    /// Column declarations (table sections only).
    pub fields: Vec<SchemaField>,
    /// Preset rows, each a list of cells.
    pub preset: Vec<Vec<String>>,
}

pub struct SectionView {
    pub group: Seq<char>,
    pub name: Seq<char>,
    pub mode: SchemaMode,
    pub fields: Seq<FieldView>,
    pub preset: Seq<Seq<Seq<char>>>,
}

pub open spec fn rows_view(rows: Seq<Vec<String>>) -> Seq<Seq<Seq<char>>> {
    rows.map_values(|r: Vec<String>| views_of(r@))
}

pub open spec fn fields_view(fields: Seq<SchemaField>) -> Seq<FieldView> {
    fields.map_values(|f: SchemaField| f@)
}

impl View for SchemaSection {
    type V = SectionView;

    open spec fn view(&self) -> SectionView {
        SectionView {
            group: self.group@,
            name: self.name@,
            mode: self.mode,
            fields: fields_view(self.fields@),
            preset: rows_view(self.preset@),
        }
    }
}

/// A parsed `.tblschema` file.
#[derive(Clone, Debug)]
pub struct TblSchema {
    pub meta: SchemaMetadata,
    pub separators: SeparatorsSection,
    pub sections: Vec<SchemaSection>,
}

pub open spec fn sep_view(s: SeparatorsSection) -> Map<SepKey, Seq<char>> {
    Map::new(|k: SepKey| true, |k: SepKey| k.value_in(s))
}

pub open spec fn default_sep_view() -> Map<SepKey, Seq<char>> {
    Map::new(|k: SepKey| true, |k: SepKey| k.default_value())
}

pub open spec fn sections_view(s: Seq<SchemaSection>) -> Seq<SectionView> {
    s.map_values(|x: SchemaSection| x@)
}

pub struct SchemaView {
    pub meta: MetaView,
    pub separators: Map<SepKey, Seq<char>>,
    pub sections: Seq<SectionView>,
}

impl View for TblSchema {
    type V = SchemaView;

    open spec fn view(&self) -> SchemaView {
        SchemaView {
            meta: self.meta@,
            separators: sep_view(self.separators),
            sections: sections_view(self.sections@),
        }
    }
}

impl Default for TblSchema {
    fn default() -> (r: Self)
        ensures
            r.meta@ == empty_meta(),
            r.separators.is_default(),
            r.sections@.len() == 0,
    {
        TblSchema {
            meta: SchemaMetadata::default(),
            separators: SeparatorsSection::default(),
            sections: Vec::new(),
        }
    }
}

/// Why a `.tblschema` text or a set of schemas is rejected. Line numbers
/// count from 1.
#[derive(Clone, Debug)]
pub enum SchemaError {
    PresetOutsideSection { line: usize },
    InlineEntry { line: usize, group: String, name: String, mode: SchemaMode },
    FieldOutsideSection { line: usize },
    BadSectionPath { line: usize },
    BadSectionMode { line: usize },
    ShortFieldLine { line: usize },
    ShortEnumRow { line: usize },
    DuplicateField { group: String, name: String, field: String },
    DuplicateSection { key: String },
}

pub enum SchemaErrorView {
    PresetOutsideSection { line: nat },
    InlineEntry { line: nat, group: Seq<char>, name: Seq<char>, mode: SchemaMode },
    FieldOutsideSection { line: nat },
    BadSectionPath { line: nat },
    BadSectionMode { line: nat },
    ShortFieldLine { line: nat },
    ShortEnumRow { line: nat },
    DuplicateField { group: Seq<char>, name: Seq<char>, field: Seq<char> },
    DuplicateSection { key: Seq<char> },
}

impl View for SchemaError {
    type V = SchemaErrorView;

    open spec fn view(&self) -> SchemaErrorView {
        match self {
            SchemaError::PresetOutsideSection { line } => SchemaErrorView::PresetOutsideSection {
                line: *line as nat,
            },
            SchemaError::InlineEntry { line, group, name, mode } => SchemaErrorView::InlineEntry {
                line: *line as nat,
                group: group@,
                name: name@,
                mode: *mode,
            },
            SchemaError::FieldOutsideSection { line } => SchemaErrorView::FieldOutsideSection {
                line: *line as nat,
            },
            SchemaError::BadSectionPath { line } => SchemaErrorView::BadSectionPath {
                line: *line as nat,
            },
            SchemaError::BadSectionMode { line } => SchemaErrorView::BadSectionMode {
                line: *line as nat,
            },
            SchemaError::ShortFieldLine { line } => SchemaErrorView::ShortFieldLine {
                line: *line as nat,
            },
            SchemaError::ShortEnumRow { line } => SchemaErrorView::ShortEnumRow {
                line: *line as nat,
            },
            SchemaError::DuplicateField { group, name, field } => SchemaErrorView::DuplicateField {
                group: group@,
                name: name@,
                field: field@,
            },
            SchemaError::DuplicateSection { key } => SchemaErrorView::DuplicateSection {
                key: key@,
            },
        }
    }
}

pub open spec fn mode_word(m: SchemaMode) -> Seq<char> {
    match m {
        SchemaMode::Table => "table"@,
        SchemaMode::Constant => "constant"@,
        SchemaMode::Enum => "enum"@,
    }
}

/// Text of an error as the tool reports it.
pub open spec fn spec_error_message(e: SchemaErrorView) -> Seq<char> {
    match e {
        SchemaErrorView::PresetOutsideSection { line } => "line "@ + decimal(line)
            + ": `# @preset` 必须出现在某个 [section] 之后"@,
        SchemaErrorView::InlineEntry { line, group, name, mode } => "line "@ + decimal(line)
            + ": ["@ + group + "/"@ + name + "] "@ + mode_word(mode)
            + " 段不允许直接的数据行（如需预设值请放进 `# @preset` 块）"@,
        SchemaErrorView::FieldOutsideSection { line } => "line "@ + decimal(line)
            + ": field outside section"@,
        SchemaErrorView::BadSectionPath { line } => "line "@ + decimal(line)
            + ": section must be [group/Name]"@,
        SchemaErrorView::BadSectionMode { line } => "line "@ + decimal(line)
            + ": mode must be 'table' / 'constant' / 'enum'"@,
        SchemaErrorView::ShortFieldLine { line } => "line "@ + decimal(line)
            + ": field needs at least name|type|export"@,
        SchemaErrorView::ShortEnumRow { line } => "line "@ + decimal(line)
            + ": enum row needs at least id|name"@,
        SchemaErrorView::DuplicateField { group, name, field } => "["@ + group + "/"@ + name
            + "]: duplicate field '"@ + field + "'"@,
        SchemaErrorView::DuplicateSection { key } => "duplicate section: ["@ + key + "]"@,
    }
}

fn mode_str(m: SchemaMode) -> (r: &'static str)
    ensures
        r@ == mode_word(m),
{
    match m {
        SchemaMode::Table => "table",
        SchemaMode::Constant => "constant",
        SchemaMode::Enum => "enum",
    }
}

fn line_prefix(line: usize) -> (r: String)
    ensures
        r@ == "line "@ + decimal(line as nat),
{
    let r = String::from_str("line ");
    let d = decimal_string(line as u64);
    r.concat(d.as_str())
}

impl SchemaError {
    /// Text of the error as the tool reports it.
    pub fn message(&self) -> (r: String)
        ensures
            r@ == spec_error_message(self@),
    {
        match self {
            SchemaError::PresetOutsideSection { line } => line_prefix(*line).concat(
                ": `# @preset` 必须出现在某个 [section] 之后",
            ),
            SchemaError::InlineEntry { line, group, name, mode } => line_prefix(*line).concat(
                ": [",
            ).concat(group.as_str()).concat("/").concat(name.as_str()).concat("] ").concat(
                mode_str(*mode),
            ).concat(" 段不允许直接的数据行（如需预设值请放进 `# @preset` 块）"),
            SchemaError::FieldOutsideSection { line } => line_prefix(*line).concat(
                ": field outside section",
            ),
            SchemaError::BadSectionPath { line } => line_prefix(*line).concat(
                ": section must be [group/Name]",
            ),
            SchemaError::BadSectionMode { line } => line_prefix(*line).concat(
                ": mode must be 'table' / 'constant' / 'enum'",
            ),
            SchemaError::ShortFieldLine { line } => line_prefix(*line).concat(
                ": field needs at least name|type|export",
            ),
            SchemaError::ShortEnumRow { line } => line_prefix(*line).concat(
                ": enum row needs at least id|name",
            ),
            SchemaError::DuplicateField { group, name, field } => String::from_str("[").concat(
                group.as_str(),
            ).concat("/").concat(name.as_str()).concat("]: duplicate field '").concat(
                field.as_str(),
            ).concat("'"),
            SchemaError::DuplicateSection { key } => String::from_str("duplicate section: [").concat(
                key.as_str(),
            ).concat("]"),
        }
    }
}

/// Whether `id` is a valid metadata id: 1 to 32 characters among lower-case
/// ASCII letters, digits, `_` and `-`.
pub open spec fn spec_valid_metadata_id(id: Seq<char>) -> bool {
    1 <= id.len() <= 32 && forall|i: int| 0 <= i < id.len() ==> {
        let c = #[trigger] id[i];
        ('a' <= c && c <= 'z') || ('0' <= c && c <= '9') || c == '_' || c == '-'
    }
}

/// Whether `id` is a valid metadata id (`[a-z0-9_-]{1,32}`).
pub fn is_valid_metadata_id(id: &str) -> (r: bool)
    ensures
        r == spec_valid_metadata_id(id@),
{
    let v = chars_of(id);
    if v.len() == 0 || v.len() > 32 {
        return false;
    }
    let mut i: usize = 0;
    while i < v.len()
        invariant
            i <= v@.len(),
            v@ == id@,
            forall|j: int| 0 <= j < i ==> {
                let c = #[trigger] v@[j];
                ('a' <= c && c <= 'z') || ('0' <= c && c <= '9') || c == '_' || c == '-'
            },
        decreases v.len() - i,
    {
        let c = v[i];
        if !(('a' <= c && c <= 'z') || ('0' <= c && c <= '9') || c == '_' || c == '-') {
            return false;
        }
        i = i + 1;
    }
    true
}

// ───────────────────────── reading ─────────────────────────

/// `s` without its leading `#` characters.
pub open spec fn strip_hashes(s: Seq<char>) -> Seq<char>
    decreases s.len(),
{
    if s.len() > 0 && s[0] == '#' {
        strip_hashes(s.drop_first())
    } else {
        s
    }
}

/// Whether a comment line is the `# @preset` directive: `@preset` after
/// the `#` characters, followed by nothing but white space.
pub open spec fn is_preset_directive(t: Seq<char>) -> bool {
    let r = trim_start(strip_hashes(t));
    starts_with(r, "@preset"@) && trim(r.skip("@preset"@.len() as int)).len() == 0
}

/// What follows `word` in a `# word ...` comment line, without leading
/// white space.
pub open spec fn directive_body(t: Seq<char>, word: Seq<char>) -> Option<Seq<char>> {
    let b = trim(strip_hashes(t));
    if starts_with(b, word) {
        Some(trim_start(b.skip(word.len() as int)))
    } else {
        None
    }
}

/// Key and value of a `# @meta key: value` line.
pub open spec fn spec_meta_line(t: Seq<char>) -> Option<(Seq<char>, Seq<char>)> {
    match directive_body(t, "@meta"@) {
        Some(a) => match first_index(a, ':') {
            Some(i) => Some((trim(a.take(i)), trim(a.skip(i + 1)))),
            None => None,
        },
        None => None,
    }
}

/// Key and value of a `# @sep key = value` line.
pub open spec fn spec_sep_line(t: Seq<char>) -> Option<(Seq<char>, Seq<char>)> {
    match directive_body(t, "@sep"@) {
        Some(a) => match first_index(a, '=') {
            Some(i) => Some((trim(a.take(i)), trim_start(a.skip(i + 1)))),
            None => None,
        },
        None => None,
    }
}

/// Whether `v` is `true` in any ASCII letter case.
pub open spec fn is_true_word(v: Seq<char>) -> bool {
    v.len() == 4 && (v[0] == 't' || v[0] == 'T') && (v[1] == 'r' || v[1] == 'R') && (v[2] == 'u'
        || v[2] == 'U') && (v[3] == 'e' || v[3] == 'E')
}

/// Metadata after a `# @meta key: value` line; unknown keys change nothing.
pub open spec fn apply_meta(m: MetaView, k: Seq<char>, v: Seq<char>) -> MetaView {
    if k == "id"@ {
        MetaView { id: v, ..m }
    } else if k == "name"@ {
        MetaView { name: v, ..m }
    } else if k == "category"@ {
        MetaView { category: v, ..m }
    } else if k == "version"@ {
        MetaView { version: v, ..m }
    } else if k == "created_at"@ {
        MetaView { created_at: v, ..m }
    } else if k == "source_template"@ {
        MetaView { source_template: v, ..m }
    } else if k == "source_template_version"@ {
        MetaView { source_template_version: v, ..m }
    } else if k == "has_preset"@ {
        MetaView { has_preset: is_true_word(v), ..m }
    } else {
        m
    }
}

/// Separators after a `# @sep key = value` line; unknown keys change
/// nothing.
pub open spec fn apply_sep(m: Map<SepKey, Seq<char>>, k: Seq<char>, v: Seq<char>) -> Map<
    SepKey,
    Seq<char>,
> {
    match spec_sep_key_named(k) {
        Some(key) => m.insert(key, v),
        None => m,
    }
}

/// The characters of `s` up to its first white space.
pub open spec fn first_word(s: Seq<char>) -> Seq<char>
    decreases s.len(),
{
    if s.len() == 0 || is_ws(s[0]) {
        seq![]
    } else {
        seq![s[0]] + first_word(s.drop_first())
    }
}

/// The section that a `[group/Name] mode` line opens, `e` being the index
/// of its first `]` and `n` its 0-based line index.
pub open spec fn spec_section_header(t: Seq<char>, e: int, n: nat) -> Result<
    SectionView,
    SchemaErrorView,
> {
    let path = t.subrange(1, e);
    let rest = trim(t.skip(e + 1));
    match first_index(path, '/') {
        None => Err(SchemaErrorView::BadSectionPath { line: n + 1 }),
        Some(j) => {
            let w = first_word(rest);
            let mode = if w == "table"@ {
                Some(SchemaMode::Table)
            } else if w == "constant"@ {
                Some(SchemaMode::Constant)
            } else if w == "enum"@ {
                Some(SchemaMode::Enum)
            } else {
                None
            };
            match mode {
                Some(m) => Ok(
                    SectionView {
                        group: trim(path.take(j)),
                        name: trim(path.skip(j + 1)),
                        mode: m,
                        fields: seq![],
                        preset: seq![],
                    },
                ),
                None => Err(SchemaErrorView::BadSectionMode { line: n + 1 }),
            }
        },
    }
}

/// The column that a `name | type | export [| desc]` line declares.
pub open spec fn spec_field_line(t: Seq<char>, n: nat, mode: SchemaMode) -> Result<
    FieldView,
    SchemaErrorView,
> {
    let ps = split_on(t, '|');
    if mode == SchemaMode::Enum {
        if ps.len() < 2 {
            Err(SchemaErrorView::ShortEnumRow { line: n + 1 })
        } else {
            Ok(
                FieldView {
                    name: trim(ps[1]),
                    tbl_type: trim(ps[0]),
                    export: seq![],
                    desc: if ps.len() > 2 { trim(ps[2]) } else { seq![] },
                },
            )
        }
    } else if ps.len() < 3 {
        Err(SchemaErrorView::ShortFieldLine { line: n + 1 })
    } else {
        Ok(
            FieldView {
                name: trim(ps[0]),
                tbl_type: trim(ps[1]),
                export: trim(ps[2]),
                desc: if ps.len() > 3 { trim(ps[3]) } else { seq![] },
            },
        )
    }
}

/// The first field name that repeats an earlier one.
pub open spec fn first_dup_name(fields: Seq<FieldView>) -> Option<Seq<char>>
    decreases fields.len(),
{
    if fields.len() == 0 {
        None
    } else {
        match first_dup_name(fields.drop_last()) {
            Some(x) => Some(x),
            None => if exists|i: int|
                0 <= i < fields.len() - 1 && (#[trigger] fields[i]).name == fields.last().name {
                Some(fields.last().name)
            } else {
                None
            },
        }
    }
}

/// The error of a section that declares a field name twice.
pub open spec fn section_dup_error(sec: SectionView) -> Option<SchemaErrorView> {
    match first_dup_name(sec.fields) {
        Some(f) => Some(SchemaErrorView::DuplicateField { group: sec.group, name: sec.name, field: f }),
        None => None,
    }
}

/// Cells of a preset row: split at unescaped `|`, each trimmed and decoded.
pub open spec fn preset_cells(t: Seq<char>) -> Seq<Seq<char>> {
    spec_split_row(t).map_values(|c: Seq<char>| spec_decode_str(trim(c)))
}

/// State of the reader between two lines.
pub struct ParseState {
    pub sections: Seq<SectionView>,
    pub current: Option<SectionView>,
    pub meta: MetaView,
    pub sep: Map<SepKey, Seq<char>>,
    pub seen_section: bool,
    pub in_preset: bool,
}

/// What reading a line, or a whole text, comes to.
pub enum ParseOutcome {
    Next(ParseState),
    Failed(SchemaErrorView),
    /// The line opens a section without a closing `]`, on which the
    /// reader does not return.
    Stuck,
}

/// Reads line `n` (0-based) in state `st`.
pub open spec fn parse_step(st: ParseState, n: nat, line: Seq<char>) -> ParseOutcome {
    let t = trim(line);
    if t.len() == 0 {
        ParseOutcome::Next(st)
    } else if t[0] == '#' {
        if is_preset_directive(t) {
            if st.current is None {
                ParseOutcome::Failed(SchemaErrorView::PresetOutsideSection { line: n + 1 })
            } else {
                ParseOutcome::Next(ParseState { in_preset: true, ..st })
            }
        } else if !st.seen_section {
            match spec_meta_line(t) {
                Some((k, v)) => ParseOutcome::Next(ParseState { meta: apply_meta(st.meta, k, v), ..st }),
                None => match spec_sep_line(t) {
                    Some((k, v)) => ParseOutcome::Next(ParseState { sep: apply_sep(st.sep, k, v), ..st }),
                    None => ParseOutcome::Next(st),
                },
            }
        } else {
            ParseOutcome::Next(st)
        }
    } else if t[0] == '[' {
        match first_index(t, ']') {
            None => ParseOutcome::Stuck,
            Some(e) => {
                let dup = match st.current {
                    Some(sec) => section_dup_error(sec),
                    None => None,
                };
                match dup {
                    Some(err) => ParseOutcome::Failed(err),
                    None => {
                        let sections = match st.current {
                            Some(sec) => st.sections.push(sec),
                            None => st.sections,
                        };
                        match spec_section_header(t, e, n) {
                            Ok(sec) => ParseOutcome::Next(
                                ParseState {
                                    sections,
                                    current: Some(sec),
                                    seen_section: true,
                                    in_preset: false,
                                    ..st
                                },
                            ),
                            Err(err) => ParseOutcome::Failed(err),
                        }
                    },
                }
            },
        }
    } else {
        match st.current {
            None => ParseOutcome::Failed(SchemaErrorView::FieldOutsideSection { line: n + 1 }),
            Some(sec) => if st.in_preset {
                ParseOutcome::Next(
                    ParseState {
                        current: Some(SectionView { preset: sec.preset.push(preset_cells(t)), ..sec }),
                        ..st
                    },
                )
            } else if sec.mode == SchemaMode::Table {
                match spec_field_line(t, n, sec.mode) {
                    Ok(f) => ParseOutcome::Next(
                        ParseState {
                            current: Some(SectionView { fields: sec.fields.push(f), ..sec }),
                            ..st
                        },
                    ),
                    Err(err) => ParseOutcome::Failed(err),
                }
            } else {
                ParseOutcome::Failed(
                    SchemaErrorView::InlineEntry {
                        line: n + 1,
                        group: sec.group,
                        name: sec.name,
                        mode: sec.mode,
                    },
                )
            },
        }
    }
}

/// Reads `lines` from state `st`, the first being line `n`.
pub open spec fn parse_lines(st: ParseState, lines: Seq<Seq<char>>, n: nat) -> ParseOutcome
    decreases lines.len(),
{
    if lines.len() == 0 {
        ParseOutcome::Next(st)
    } else {
        match parse_step(st, n, lines[0]) {
            ParseOutcome::Next(s2) => parse_lines(s2, lines.drop_first(), n + 1),
            other => other,
        }
    }
}

pub open spec fn initial_state() -> ParseState {
    ParseState {
        sections: seq![],
        current: None,
        meta: empty_meta(),
        sep: default_sep_view(),
        seen_section: false,
        in_preset: false,
    }
}

pub open spec fn any_preset(sections: Seq<SectionView>) -> bool {
    exists|i: int| 0 <= i < sections.len() && (#[trigger] sections[i]).preset.len() > 0
}

/// The schema once every line is read: the open section is closed, a
/// missing name is the id, and `has_preset` is computed from the sections.
pub open spec fn finish_parse(st: ParseState) -> Result<SchemaView, SchemaErrorView> {
    let dup = match st.current {
        Some(sec) => section_dup_error(sec),
        None => None,
    };
    match dup {
        Some(err) => Err(err),
        None => {
            let sections = match st.current {
                Some(sec) => st.sections.push(sec),
                None => st.sections,
            };
            let meta = if st.meta.name.len() == 0 {
                MetaView { name: st.meta.id, ..st.meta }
            } else {
                st.meta
            };
            Ok(
                SchemaView {
                    meta: MetaView { has_preset: any_preset(sections), ..meta },
                    separators: st.sep,
                    sections,
                },
            )
        },
    }
}

/// Whether reading `content` returns at all (it does not on a line that
/// opens a section without `]`, reached before any error).
pub open spec fn schema_text_readable(content: Seq<char>) -> bool {
    !(parse_lines(initial_state(), lines_of(content), 0) is Stuck)
}

/// The schema that `content` holds, or why it is rejected.
pub open spec fn spec_parse_tblschema(content: Seq<char>) -> Result<SchemaView, SchemaErrorView> {
    match parse_lines(initial_state(), lines_of(content), 0) {
        ParseOutcome::Next(st) => finish_parse(st),
        ParseOutcome::Failed(e) => Err(e),
        ParseOutcome::Stuck => Err(SchemaErrorView::FieldOutsideSection { line: 0 }),
    }
}

fn strip_hashes_chars(v: &[char]) -> (r: Vec<char>)
    ensures
        r@ == strip_hashes(v@),
{
    let mut a: usize = 0;
    assert(v@.skip(0) =~= v@);
    while a < v.len() && v[a] == '#'
        invariant
            a <= v@.len(),
            strip_hashes(v@) == strip_hashes(v@.skip(a as int)),
        decreases v.len() - a,
    {
        assert(v@.skip(a as int).drop_first() =~= v@.skip(a + 1));
        a = a + 1;
    }
    assert(v@.skip(a as int) =~= v@.subrange(a as int, v@.len() as int));
    sub_chars(v, a, v.len())
}

fn preset_directive(t: &[char]) -> (r: bool)
    ensures
        r == is_preset_directive(t@),
{
    let h = strip_hashes_chars(t);
    let r = trim_start_chars(h.as_slice());
    let w = chars_of("@preset");
    if !has_prefix(r.as_slice(), w.as_slice()) {
        return false;
    }
    let rest = sub_chars(r.as_slice(), w.len(), r.len());
    assert(rest@ =~= r@.skip(w@.len() as int));
    let tr = trim_chars(rest.as_slice());
    tr.len() == 0
}

fn directive_body_of(t: &[char], word: &str) -> (r: Option<Vec<char>>)
    ensures
        match r {
            Some(v) => directive_body(t@, word@) == Some(v@),
            None => directive_body(t@, word@) is None,
        },
{
    let h = strip_hashes_chars(t);
    let b = trim_chars(h.as_slice());
    let w = chars_of(word);
    if !has_prefix(b.as_slice(), w.as_slice()) {
        return None;
    }
    let rest = sub_chars(b.as_slice(), w.len(), b.len());
    assert(rest@ =~= b@.skip(w@.len() as int));
    Some(trim_start_chars(rest.as_slice()))
}

fn key_value_line(t: &[char], word: &str, sep: char, trim_both: bool) -> (r: Option<(Vec<char>, Vec<char>)>)
    ensures
        match r {
            Some((k, v)) => directive_body(t@, word@) matches Some(a) && first_index(a, sep) matches Some(i)
                && k@ == trim(a.take(i)) && v@ == (if trim_both { trim(a.skip(i + 1)) } else { trim_start(a.skip(i + 1)) }),
            None => !(directive_body(t@, word@) matches Some(a) && first_index(a, sep) is Some),
        },
{
    match directive_body_of(t, word) {
        None => None,
        Some(a) => match find_char(a.as_slice(), sep) {
            None => None,
            Some(i) => {
                proof {
                    lemma_first_index_bounds(a@, sep);
                }
                assert(i < a.len());
                let kpart = sub_chars(a.as_slice(), 0, i);
                assert(kpart@ =~= a@.take(i as int));
                let vpart = sub_chars(a.as_slice(), i + 1, a.len());
                assert(vpart@ =~= a@.skip(i + 1));
                let k = trim_chars(kpart.as_slice());
                let v = if trim_both {
                    trim_chars(vpart.as_slice())
                } else {
                    trim_start_chars(vpart.as_slice())
                };
                Some((k, v))
            },
        },
    }
}

fn true_word(v: &[char]) -> (r: bool)
    ensures
        r == is_true_word(v@),
{
    v.len() == 4 && (v[0] == 't' || v[0] == 'T') && (v[1] == 'r' || v[1] == 'R') && (v[2] == 'u'
        || v[2] == 'U') && (v[3] == 'e' || v[3] == 'E')
}

fn apply_meta_kv(m: &mut SchemaMetadata, k: &[char], v: &Vec<char>)
    ensures
        final(m)@ == apply_meta(old(m)@, k@, v@),
{
    if chars_is(k, "id") {
        m.id = string_of(v);
    } else if chars_is(k, "name") {
        m.name = string_of(v);
    } else if chars_is(k, "category") {
        m.category = string_of(v);
    } else if chars_is(k, "version") {
        m.version = string_of(v);
    } else if chars_is(k, "created_at") {
        m.created_at = string_of(v);
    } else if chars_is(k, "source_template") {
        m.source_template = string_of(v);
    } else if chars_is(k, "source_template_version") {
        m.source_template_version = string_of(v);
    } else if chars_is(k, "has_preset") {
        m.has_preset = true_word(v.as_slice());
    }
}

fn apply_sep_kv(sep: &mut SeparatorsSection, k: &[char], v: &Vec<char>)
    ensures
        sep_view(*final(sep)) == apply_sep(sep_view(*old(sep)), k@, v@),
{
    let ks = crate::text::string_of_chars(k);
    match SepKey::from_directive_key(ks.as_str()) {
        Some(key) => {
            key.set(sep, string_of(v));
            assert(sep_view(*sep) =~= sep_view(*old(sep)).insert(key, v@));
        },
        None => {},
    }
}

fn first_word_chars(s: &[char]) -> (r: Vec<char>)
    ensures
        r@ == first_word(s@),
{
    let mut i: usize = 0;
    assert(s@.skip(0) =~= s@);
    assert(s@.take(0) + first_word(s@) =~= first_word(s@));
    while i < s.len() && !is_whitespace_char(s[i])
        invariant
            i <= s@.len(),
            first_word(s@) == s@.take(i as int) + first_word(s@.skip(i as int)),
        decreases s.len() - i,
    {
        assert(s@.skip(i as int).drop_first() =~= s@.skip(i + 1));
        assert(s@.take(i + 1) =~= s@.take(i as int) + seq![s@[i as int]]);
        i = i + 1;
    }
    assert(s@.take(i as int) + first_word(s@.skip(i as int)) =~= s@.take(i as int));
    sub_chars(s, 0, i)
}

fn section_header(t: &[char], e: usize, n: usize) -> (r: Result<SchemaSection, SchemaError>)
    requires
        1 <= e < t.len(),
        n < usize::MAX,
    ensures
        match r {
            Ok(sec) => spec_section_header(t@, e as int, n as nat) == Ok::<SectionView, SchemaErrorView>(sec@),
            Err(err) => spec_section_header(t@, e as int, n as nat) == Err::<SectionView, SchemaErrorView>(err@),
        },
{
    let path = sub_chars(t, 1, e);
    let after = sub_chars(t, e + 1, t.len());
    assert(after@ =~= t@.skip(e + 1));
    let rest = trim_chars(after.as_slice());
    match find_char(path.as_slice(), '/') {
        None => Err(SchemaError::BadSectionPath { line: n + 1 }),
        Some(j) => {
            proof {
                lemma_first_index_bounds(path@, '/');
            }
            let w = first_word_chars(rest.as_slice());
            let mode = if chars_is(w.as_slice(), "table") {
                SchemaMode::Table
            } else if chars_is(w.as_slice(), "constant") {
                SchemaMode::Constant
            } else if chars_is(w.as_slice(), "enum") {
                SchemaMode::Enum
            } else {
                return Err(SchemaError::BadSectionMode { line: n + 1 });
            };
            let gpart = sub_chars(path.as_slice(), 0, j);
            assert(gpart@ =~= path@.take(j as int));
            let npart = sub_chars(path.as_slice(), j + 1, path.len());
            assert(npart@ =~= path@.skip(j + 1));
            let g = trim_chars(gpart.as_slice());
            let nm = trim_chars(npart.as_slice());
            let sec = SchemaSection {
                group: string_of(&g),
                name: string_of(&nm),
                mode,
                fields: Vec::new(),
                preset: Vec::new(),
            };
            assert(sec@.fields =~= Seq::<FieldView>::empty());
            assert(sec@.preset =~= Seq::<Seq<Seq<char>>>::empty());
            Ok(sec)
        },
    }
}

fn field_line(t: &[char], n: usize, mode: SchemaMode) -> (r: Result<SchemaField, SchemaError>)
    requires
        n < usize::MAX,
    ensures
        match r {
            Ok(f) => spec_field_line(t@, n as nat, mode) == Ok::<FieldView, SchemaErrorView>(f@),
            Err(err) => spec_field_line(t@, n as nat, mode) == Err::<FieldView, SchemaErrorView>(err@),
        },
{
    let ps = split_chars(t, '|');
    let ghost pv = ps@.map_values(|x: Vec<char>| x@);
    assert(pv.len() == ps@.len());
    if mode == SchemaMode::Enum {
        if ps.len() < 2 {
            return Err(SchemaError::ShortEnumRow { line: n + 1 });
        }
        let desc = if ps.len() > 2 {
            assert(pv[2] == ps@[2]@);
            string_of(&trim_chars(ps[2].as_slice()))
        } else {
            String::new()
        };
        assert(pv[0] == ps@[0]@ && pv[1] == ps@[1]@);
        Ok(
            SchemaField {
                name: string_of(&trim_chars(ps[1].as_slice())),
                tbl_type: string_of(&trim_chars(ps[0].as_slice())),
                export: String::new(),
                desc,
            },
        )
    } else {
        if ps.len() < 3 {
            return Err(SchemaError::ShortFieldLine { line: n + 1 });
        }
        let desc = if ps.len() > 3 {
            assert(pv[3] == ps@[3]@);
            string_of(&trim_chars(ps[3].as_slice()))
        } else {
            String::new()
        };
        assert(pv[0] == ps@[0]@ && pv[1] == ps@[1]@ && pv[2] == ps@[2]@);
        Ok(
            SchemaField {
                name: string_of(&trim_chars(ps[0].as_slice())),
                tbl_type: string_of(&trim_chars(ps[1].as_slice())),
                export: string_of(&trim_chars(ps[2].as_slice())),
                desc,
            },
        )
    }
}

fn str_eq(a: &String, b: &String) -> (r: bool)
    ensures
        r == (a@ == b@),
{
    let x = chars_of(a.as_str());
    let y = chars_of(b.as_str());
    crate::text::chars_eq(x.as_slice(), y.as_slice())
}

fn first_dup(fields: &Vec<SchemaField>) -> (r: Option<String>)
    ensures
        match r {
            Some(s) => first_dup_name(fields_view(fields@)) == Some(s@),
            None => first_dup_name(fields_view(fields@)) is None,
        },
{
    let ghost fv = fields_view(fields@);
    let mut j: usize = 0;
    assert(fv.take(0) =~= Seq::<FieldView>::empty());
    while j < fields.len()
        invariant
            j <= fields@.len(),
            fv == fields_view(fields@),
            first_dup_name(fv.take(j as int)) is None,
        decreases fields.len() - j,
    {
        let ghost pre = fv.take(j + 1);
        assert(pre.drop_last() =~= fv.take(j as int));
        assert(pre.last() == fields@[j as int]@);
        let mut i: usize = 0;
        while i < j
            invariant
                i <= j < fields@.len(),
                fv == fields_view(fields@),
                pre == fv.take(j + 1),
                first_dup_name(pre.drop_last()) is None,
                pre.last() == fields@[j as int]@,
                forall|k: int| 0 <= k < i ==> (#[trigger] pre[k]).name != pre.last().name,
            decreases j - i,
        {
            assert(pre[i as int] == fields@[i as int]@);
            if str_eq(&fields[i].name, &fields[j].name) {
                assert(0 <= i < pre.len() - 1 && pre[i as int].name == pre.last().name);
                proof {
                    lemma_first_dup_prefix(fv, j + 1);
                    assert(pre.last() == fv[j as int]);
                    assert(fv[j as int] == fields@[j as int]@);
                    assert(first_dup_name(pre) == Some(pre.last().name));
                }
                let nm = fields[j].name.clone();
                assert(nm@ == fields@[j as int].name@);
                return Some(nm);
            }
            i = i + 1;
        }
        j = j + 1;
    }
    assert(fv.take(j as int) =~= fv);
    None
}

proof fn lemma_first_dup_prefix(s: Seq<FieldView>, k: int)
    requires
        0 <= k <= s.len(),
        first_dup_name(s.take(k)) is Some,
    ensures
        first_dup_name(s) == first_dup_name(s.take(k)),
    decreases s.len(),
{
    if k < s.len() {
        assert(s.drop_last().take(k) =~= s.take(k));
        lemma_first_dup_prefix(s.drop_last(), k);
    } else {
        assert(s.take(k) =~= s);
    }
}

fn validate_section(sec: &SchemaSection) -> (r: Option<SchemaError>)
    ensures
        match r {
            Some(e) => section_dup_error(sec@) == Some(e@),
            None => section_dup_error(sec@) is None,
        },
{
    match first_dup(&sec.fields) {
        Some(f) => Some(
            SchemaError::DuplicateField { group: sec.group.clone(), name: sec.name.clone(), field: f },
        ),
        None => None,
    }
}

fn preset_cells_of(t: &[char]) -> (r: Vec<String>)
    ensures
        views_of(r@) == preset_cells(t@),
{
    let line = crate::text::string_of_chars(t);
    let raw = split_row(line.as_str());
    let mut out: Vec<String> = Vec::new();
    let mut i: usize = 0;
    while i < raw.len()
        invariant
            i <= raw@.len(),
            views_of(raw@) == spec_split_row(t@),
            views_of(out@) == views_of(raw@).take(i as int).map_values(
                |c: Seq<char>| spec_decode_str(trim(c)),
            ),
        decreases raw.len() - i,
    {
        let tr = trim_chars(chars_of(raw[i].as_str()).as_slice());
        let ts = string_of(&tr);
        let d = decode_str(ts.as_str());
        let ghost prev = views_of(out@);
        out.push(d);
        assert(views_of(out@) =~= prev.push(d@));
        assert(views_of(raw@).take(i + 1).map_values(|c: Seq<char>| spec_decode_str(trim(c)))
            =~= views_of(raw@).take(i as int).map_values(|c: Seq<char>| spec_decode_str(trim(c))).push(
            spec_decode_str(trim(raw@[i as int]@)),
        ));
        i = i + 1;
    }
    assert(views_of(raw@).take(i as int) =~= views_of(raw@));
    out
}

struct Parser {
    sections: Vec<SchemaSection>,
    current: Option<SchemaSection>,
    meta: SchemaMetadata,
    sep: SeparatorsSection,
    seen_section: bool,
    in_preset: bool,
}

impl View for Parser {
    type V = ParseState;

    closed spec fn view(&self) -> ParseState {
        ParseState {
            sections: sections_view(self.sections@),
            current: match self.current {
                Some(s) => Some(s@),
                None => None,
            },
            meta: self.meta@,
            sep: sep_view(self.sep),
            seen_section: self.seen_section,
            in_preset: self.in_preset,
        }
    }
}

fn close_current(p: &mut Parser) -> (r: Option<SchemaError>)
    ensures
        match old(p)@.current {
            Some(sec) => match section_dup_error(sec) {
                Some(e) => r matches Some(x) && x@ == e,
                None => r is None && final(p)@ == ParseState { sections: old(p)@.sections.push(sec), current: None, ..old(p)@ },
            },
            None => r is None && final(p)@ == old(p)@,
        },
{
    match p.current.take() {
        Some(sec) => {
            match validate_section(&sec) {
                Some(e) => {
                    return Some(e);
                },
                None => {},
            }
            let ghost prev = sections_view(p.sections@);
            p.sections.push(sec);
            assert(sections_view(p.sections@) =~= prev.push(sec@));
            None
        },
        None => None,
    }
}

fn parse_line(p: &mut Parser, n: usize, line: &[char]) -> (r: Option<SchemaError>)
    requires
        !(parse_step(old(p)@, n as nat, line@) is Stuck),
        n < usize::MAX,
    ensures
        match parse_step(old(p)@, n as nat, line@) {
            ParseOutcome::Next(st) => r is None && final(p)@ == st,
            ParseOutcome::Failed(e) => r matches Some(x) && x@ == e,
            ParseOutcome::Stuck => false,
        },
{
    let t = trim_chars(line);
    if t.len() == 0 {
        return None;
    }
    if t[0] == '#' {
        if preset_directive(t.as_slice()) {
            if p.current.is_none() {
                return Some(SchemaError::PresetOutsideSection { line: n + 1 });
            }
            p.in_preset = true;
            return None;
        }
        if !p.seen_section {
            match key_value_line(t.as_slice(), "@meta", ':', true) {
                Some((k, v)) => {
                    apply_meta_kv(&mut p.meta, k.as_slice(), &v);
                    return None;
                },
                None => {},
            }
            match key_value_line(t.as_slice(), "@sep", '=', false) {
                Some((k, v)) => {
                    apply_sep_kv(&mut p.sep, k.as_slice(), &v);
                    return None;
                },
                None => {},
            }
        }
        return None;
    }
    if t[0] == '[' {
        let e = match find_char(t.as_slice(), ']') {
            Some(e) => e,
            None => {
                return None;
            },
        };
        proof {
            lemma_first_index_bounds(t@, ']');
        }
        match close_current(p) {
            Some(err) => {
                return Some(err);
            },
            None => {},
        }
        match section_header(t.as_slice(), e, n) {
            Ok(sec) => {
                p.current = Some(sec);
                p.seen_section = true;
                p.in_preset = false;
                None
            },
            Err(err) => Some(err),
        }
    } else {
        match p.current.take() {
            None => Some(SchemaError::FieldOutsideSection { line: n + 1 }),
            Some(mut sec) => {
                if p.in_preset {
                    let cells = preset_cells_of(t.as_slice());
                    let ghost prev = rows_view(sec.preset@);
                    sec.preset.push(cells);
                    assert(rows_view(sec.preset@) =~= prev.push(views_of(cells@)));
                    p.current = Some(sec);
                    None
                } else if sec.mode == SchemaMode::Table {
                    match field_line(t.as_slice(), n, sec.mode) {
                        Ok(f) => {
                            let ghost prev = fields_view(sec.fields@);
                            sec.fields.push(f);
                            assert(fields_view(sec.fields@) =~= prev.push(f@));
                            p.current = Some(sec);
                            None
                        },
                        Err(err) => Some(err),
                    }
                } else {
                    Some(
                        SchemaError::InlineEntry {
                            line: n + 1,
                            group: sec.group,
                            name: sec.name,
                            mode: sec.mode,
                        },
                    )
                }
            },
        }
    }
}

/// Whether reading line `line` opens a section without a closing `]`.
fn line_is_stuck(line: &[char], Ghost(st): Ghost<ParseState>, Ghost(n): Ghost<nat>) -> (r: bool)
    ensures
        r == (parse_step(st, n, line@) is Stuck),
{
    let t = trim_chars(line);
    if t.len() == 0 || t[0] != '[' {
        return false;
    }
    match crate::text::find_char(t.as_slice(), ']') {
        Some(_) => false,
        None => true,
    }
}

/// Whether [`parse_tblschema`] can read `content`: it cannot when, before
/// any error, a line opens a section without a closing `]`.
pub fn tblschema_text_readable(content: &str) -> (r: bool)
    ensures
        r == schema_text_readable(content@),
{
    let v = chars_of(content);
    let lines = lines_chars(v.as_slice());
    let ghost lv = lines@.map_values(|x: Vec<char>| x@);
    let mut p = Parser {
        sections: Vec::new(),
        current: None,
        meta: SchemaMetadata::default(),
        sep: SeparatorsSection::default(),
        seen_section: false,
        in_preset: false,
    };
    proof {
        assert(sections_view(p.sections@) =~= Seq::<SectionView>::empty());
        assert(sep_view(p.sep) =~= default_sep_view());
        assert(lv.skip(0) =~= lv);
    }
    let mut i: usize = 0;
    while i < lines.len()
        invariant
            i <= lines@.len(),
            lv == lines@.map_values(|x: Vec<char>| x@),
            lv == lines_of(content@),
            parse_lines(initial_state(), lv, 0) == parse_lines(p@, lv.skip(i as int), i as nat),
        decreases lines.len() - i,
    {
        assert(lv.skip(i as int)[0] == lines@[i as int]@);
        assert(lv.skip(i as int).drop_first() =~= lv.skip(i + 1));
        if line_is_stuck(lines[i].as_slice(), Ghost(p@), Ghost(i as nat)) {
            return false;
        }
        match parse_line(&mut p, i, lines[i].as_slice()) {
            Some(_) => {
                return true;
            },
            None => {},
        }
        i = i + 1;
    }
    assert(lv.skip(i as int) =~= Seq::<Seq<char>>::empty());
    true
}


/// Reads a `.tblschema` text.
///
/// Lines are read in order. Comment lines (`#`) before the first section may
/// set metadata (`# @meta key: value`) or separators (`# @sep key = value`);
/// `# @preset` switches the current section to preset rows. A
/// `[group/Name] mode` line opens a section; other lines are column
/// declarations of a table section or preset rows. A missing name is the
/// id, and `has_preset` is computed from the sections.
pub fn parse_tblschema(content: &str) -> (r: Result<TblSchema, SchemaError>)
    requires
        schema_text_readable(content@),
    ensures
        match r {
            Ok(s) => spec_parse_tblschema(content@) == Ok::<SchemaView, SchemaErrorView>(s@),
            Err(e) => spec_parse_tblschema(content@) == Err::<SchemaView, SchemaErrorView>(e@),
        },
{
    let v = chars_of(content);
    let lines = lines_chars(v.as_slice());
    let ghost lv = lines@.map_values(|x: Vec<char>| x@);
    let mut p = Parser {
        sections: Vec::new(),
        current: None,
        meta: SchemaMetadata::default(),
        sep: SeparatorsSection::default(),
        seen_section: false,
        in_preset: false,
    };
    proof {
        assert(sections_view(p.sections@) =~= Seq::<SectionView>::empty());
        assert(sep_view(p.sep) =~= default_sep_view());
        assert(lv.skip(0) =~= lv);
    }
    let mut i: usize = 0;
    while i < lines.len()
        invariant
            i <= lines@.len(),
            lv == lines@.map_values(|x: Vec<char>| x@),
            lv == lines_of(content@),
            parse_lines(initial_state(), lv, 0) == parse_lines(p@, lv.skip(i as int), i as nat),
            !(parse_lines(initial_state(), lv, 0) is Stuck),
        decreases lines.len() - i,
    {
        assert(lv.skip(i as int)[0] == lines@[i as int]@);
        assert(lv.skip(i as int).drop_first() =~= lv.skip(i + 1));
        match parse_line(&mut p, i, lines[i].as_slice()) {
            Some(e) => {
                return Err(e);
            },
            None => {},
        }
        i = i + 1;
    }
    assert(lv.skip(i as int) =~= Seq::<Seq<char>>::empty());
    match close_current(&mut p) {
        Some(e) => {
            return Err(e);
        },
        None => {},
    }
    let name_chars = chars_of(p.meta.name.as_str());
    if name_chars.len() == 0 {
        p.meta.name = p.meta.id.clone();
    }
    let mut has_preset = false;
    let mut j: usize = 0;
    while j < p.sections.len()
        invariant
            j <= p.sections@.len(),
            has_preset == exists|k: int| 0 <= k < j && (#[trigger] sections_view(p.sections@)[k]).preset.len() > 0,
        decreases p.sections.len() - j,
    {
        assert(sections_view(p.sections@)[j as int].preset.len() == p.sections@[j as int].preset@.len());
        if p.sections[j].preset.len() > 0 {
            has_preset = true;
        }
        j = j + 1;
    }
    p.meta.has_preset = has_preset;
    assert(has_preset == any_preset(sections_view(p.sections@)));
    Ok(TblSchema { meta: p.meta, separators: p.sep, sections: p.sections })
}

// ───────────────────────── writing ─────────────────────────

pub open spec fn meta_text_line(key: Seq<char>, v: Seq<char>) -> Seq<char> {
    "# @meta "@ + key + ": "@ + v + "\n"@
}

pub open spec fn opt_meta(key: Seq<char>, v: Seq<char>) -> Seq<char> {
    if v.len() > 0 {
        meta_text_line(key, v)
    } else {
        seq![]
    }
}

/// `# @meta` lines of the non-empty metadata fields; the name only when it
/// differs from the id.
pub open spec fn spec_meta_text(m: MetaView) -> Seq<char> {
    opt_meta("id"@, m.id) + (if m.name.len() > 0 && m.name != m.id {
        meta_text_line("name"@, m.name)
    } else {
        seq![]
    }) + opt_meta("category"@, m.category) + opt_meta("version"@, m.version) + opt_meta(
        "created_at"@,
        m.created_at,
    ) + opt_meta("source_template"@, m.source_template) + opt_meta(
        "source_template_version"@,
        m.source_template_version,
    )
}

/// `# @sep` lines of the keys in `keys` whose separator is not the default.
pub open spec fn sep_lines(sep: Map<SepKey, Seq<char>>, keys: Seq<SepKey>) -> Seq<char>
    decreases keys.len(),
{
    if keys.len() == 0 {
        seq![]
    } else {
        let k = keys.last();
        sep_lines(sep, keys.drop_last()) + if sep[k] != k.default_value() {
            "# @sep "@ + k.directive_key() + " = "@ + sep[k] + "\n"@
        } else {
            seq![]
        }
    }
}

/// `cells` joined with `sep`.
pub open spec fn join_with(cells: Seq<Seq<char>>, sep: Seq<char>) -> Seq<char>
    decreases cells.len(),
{
    if cells.len() == 0 {
        seq![]
    } else if cells.len() == 1 {
        cells[0]
    } else {
        join_with(cells.drop_last(), sep) + sep + cells.last()
    }
}

pub open spec fn field_text(f: FieldView) -> Seq<char> {
    f.name + " | "@ + f.tbl_type + " | "@ + f.export + " | "@ + f.desc + "\n"@
}

pub open spec fn fields_text(fs: Seq<FieldView>) -> Seq<char>
    decreases fs.len(),
{
    if fs.len() == 0 {
        seq![]
    } else {
        fields_text(fs.drop_last()) + field_text(fs.last())
    }
}

pub open spec fn rows_text(rows: Seq<Seq<Seq<char>>>) -> Seq<char>
    decreases rows.len(),
{
    if rows.len() == 0 {
        seq![]
    } else {
        rows_text(rows.drop_last()) + join_with(rows.last(), " | "@) + "\n"@
    }
}

/// Text of a section: a blank line, its header, its column lines (table
/// sections only) and its preset block (when it has rows).
pub open spec fn section_text(sec: SectionView) -> Seq<char> {
    "\n["@ + sec.group + "/"@ + sec.name + "] "@ + mode_word(sec.mode) + "\n"@ + (if sec.mode
        == SchemaMode::Table {
        fields_text(sec.fields)
    } else {
        seq![]
    }) + (if sec.preset.len() > 0 {
        "# @preset\n"@ + rows_text(sec.preset)
    } else {
        seq![]
    })
}

pub open spec fn sections_text(secs: Seq<SectionView>) -> Seq<char>
    decreases secs.len(),
{
    if secs.len() == 0 {
        seq![]
    } else {
        sections_text(secs.drop_last()) + section_text(secs.last())
    }
}

/// Text of a schema file.
pub open spec fn spec_serialize_tblschema(s: SchemaView) -> Seq<char> {
    "#!tblschema v1\n"@ + spec_meta_text(s.meta) + (if any_preset(s.sections) {
        "# @meta has_preset: true\n"@
    } else {
        seq![]
    }) + sep_lines(s.separators, SepKey::spec_all()) + sections_text(s.sections)
}

fn push_opt_meta(s: String, key: &str, v: &String) -> (r: String)
    ensures
        r@ == s@ + opt_meta(key@, v@),
{
    if text_len(v.as_str()) == 0 {
        s
    } else {
        s.concat("# @meta ").concat(key).concat(": ").concat(v.as_str()).concat("\n")
    }
}

fn text_eq(a: &str, b: &str) -> (r: bool)
    ensures
        r == (a@ == b@),
{
    let x = chars_of(a);
    let y = chars_of(b);
    crate::text::chars_eq(x.as_slice(), y.as_slice())
}

fn text_len(a: &str) -> (r: usize)
    ensures
        r == a@.len(),
{
    chars_of(a).len()
}

pub fn join_with_strings(v: &Vec<String>, sep: &str) -> (r: String)
    ensures
        r@ == join_with(views_of(v@), sep@),
{
    let ghost vv = views_of(v@);
    if v.len() == 0 {
        return String::new();
    }
    let mut out = v[0].clone();
    assert(vv.take(1) =~= seq![vv[0]]);
    let mut i: usize = 1;
    while i < v.len()
        invariant
            1 <= i <= v@.len(),
            vv == views_of(v@),
            out@ == join_with(vv.take(i as int), sep@),
        decreases v.len() - i,
    {
        assert(vv.take(i + 1).drop_last() =~= vv.take(i as int));
        out = out.concat(sep);
        out = out.concat(v[i].as_str());
        i = i + 1;
    }
    assert(vv.take(i as int) =~= vv);
    out
}

fn section_to_text(sec: &SchemaSection) -> (r: String)
    ensures
        r@ == section_text(sec@),
{
    let mut s = String::from_str("\n[");
    s = s.concat(sec.group.as_str()).concat("/").concat(sec.name.as_str()).concat("] ").concat(
        mode_str(sec.mode),
    ).concat("\n");
    let ghost head = s@;
    if sec.mode == SchemaMode::Table {
        let ghost fv = fields_view(sec.fields@);
        let mut i: usize = 0;
        assert(fv.take(0) =~= Seq::<FieldView>::empty());
        assert(head + fields_text(fv.take(0)) =~= head);
        while i < sec.fields.len()
            invariant
                i <= sec.fields@.len(),
                fv == fields_view(sec.fields@),
                s@ == head + fields_text(fv.take(i as int)),
            decreases sec.fields.len() - i,
        {
            assert(fv.take(i + 1).drop_last() =~= fv.take(i as int));
            let f = &sec.fields[i];
            assert(fv[i as int] == f@);
            s = s.concat(f.name.as_str()).concat(" | ").concat(f.tbl_type.as_str()).concat(
                " | ",
            ).concat(f.export.as_str()).concat(" | ").concat(f.desc.as_str()).concat("\n");
            i = i + 1;
        }
        assert(fv.take(i as int) =~= fv);
    }
    let ghost mid = s@;
    if sec.preset.len() > 0 {
        s = s.concat("# @preset\n");
        let ghost head2 = s@;
        let ghost rv = rows_view(sec.preset@);
        let mut j: usize = 0;
        assert(rv.take(0) =~= Seq::<Seq<Seq<char>>>::empty());
        assert(head2 + rows_text(rv.take(0)) =~= head2);
        while j < sec.preset.len()
            invariant
                j <= sec.preset@.len(),
                rv == rows_view(sec.preset@),
                s@ == head2 + rows_text(rv.take(j as int)),
            decreases sec.preset.len() - j,
        {
            assert(rv.take(j + 1).drop_last() =~= rv.take(j as int));
            assert(rv[j as int] == views_of(sec.preset@[j as int]@));
            let line = join_with_strings(&sec.preset[j], " | ");
            s = s.concat(line.as_str()).concat("\n");
            j = j + 1;
        }
        assert(rv.take(j as int) =~= rv);
    }
    s
}

fn meta_to_text(m: &SchemaMetadata) -> (r: String)
    ensures
        r@ == spec_meta_text(m@),
{
    let mut s = String::new();
    s = push_opt_meta(s, "id", &m.id);
    if text_len(m.name.as_str()) > 0 && !text_eq(m.name.as_str(), m.id.as_str()) {
        s = s.concat("# @meta name: ").concat(m.name.as_str()).concat("\n");
        proof {
            reveal_strlit("# @meta name: ");
            reveal_strlit("# @meta ");
            reveal_strlit("name");
            reveal_strlit(": ");
        }
    }
    s = push_opt_meta(s, "category", &m.category);
    s = push_opt_meta(s, "version", &m.version);
    s = push_opt_meta(s, "created_at", &m.created_at);
    s = push_opt_meta(s, "source_template", &m.source_template);
    s = push_opt_meta(s, "source_template_version", &m.source_template_version);
    s
}

fn sections_have_preset(secs: &Vec<SchemaSection>) -> (r: bool)
    ensures
        r == any_preset(sections_view(secs@)),
{
    let ghost sv = sections_view(secs@);
    let mut j: usize = 0;
    while j < secs.len()
        invariant
            j <= secs@.len(),
            sv == sections_view(secs@),
            forall|k: int| 0 <= k < j ==> (#[trigger] sv[k]).preset.len() == 0,
        decreases secs.len() - j,
    {
        assert(sv[j as int].preset.len() == secs@[j as int].preset@.len());
        if secs[j].preset.len() > 0 {
            return true;
        }
        j = j + 1;
    }
    false
}

fn separators_to_text(sep: &SeparatorsSection) -> (r: String)
    ensures
        r@ == sep_lines(sep_view(*sep), SepKey::spec_all()),
{
    let mut s = String::new();
    let keys = SepKey::all();
    let d = SeparatorsSection::default();
    let ghost sv = sep_view(*sep);
    let mut i: usize = 0;
    assert(keys@.take(0) =~= Seq::<SepKey>::empty());
    while i < keys.len()
        invariant
            i <= keys@.len(),
            keys@ == SepKey::spec_all(),
            d.is_default(),
            sv == sep_view(*sep),
            s@ == sep_lines(sv, keys@.take(i as int)),
        decreases keys.len() - i,
    {
        assert(keys@.take(i + 1).drop_last() =~= keys@.take(i as int));
        let k = keys[i];
        let v = k.get(sep);
        let dv = k.get(&d);
        assert(dv@ == k.default_value());
        assert(sv[k] == v@);
        if !text_eq(v, dv) {
            s = s.concat("# @sep ").concat(k.as_directive_key()).concat(" = ").concat(v).concat(
                "\n",
            );
        }
        i = i + 1;
    }
    assert(keys@.take(i as int) =~= keys@);
    s
}

fn all_sections_to_text(secs: &Vec<SchemaSection>) -> (r: String)
    ensures
        r@ == sections_text(sections_view(secs@)),
{
    let mut s = String::new();
    let ghost sv = sections_view(secs@);
    let mut j: usize = 0;
    assert(sv.take(0) =~= Seq::<SectionView>::empty());
    while j < secs.len()
        invariant
            j <= secs@.len(),
            sv == sections_view(secs@),
            s@ == sections_text(sv.take(j as int)),
        decreases secs.len() - j,
    {
        assert(sv.take(j + 1).drop_last() =~= sv.take(j as int));
        assert(sv[j as int] == secs@[j as int]@);
        let t = section_to_text(&secs[j]);
        s = s.concat(t.as_str());
        j = j + 1;
    }
    assert(sv.take(j as int) =~= sv);
    s
}

/// Writes a schema file: header, `# @meta` lines of the non-empty metadata
/// (`has_preset` when some section has preset rows), `# @sep` lines of
/// the separators that differ from the defaults, then the sections.
pub fn serialize_tblschema(schema: &TblSchema) -> (r: String)
    ensures
        r@ == spec_serialize_tblschema(schema@),
{
    let mut s = String::from_str("#!tblschema v1\n");
    let meta = meta_to_text(&schema.meta);
    s = s.concat(meta.as_str());
    if sections_have_preset(&schema.sections) {
        s = s.concat("# @meta has_preset: true\n");
    }
    let seps = separators_to_text(&schema.separators);
    s = s.concat(seps.as_str());
    let body = all_sections_to_text(&schema.sections);
    s = s.concat(body.as_str());
    s
}

// ───────────────────────── merging ─────────────────────────

/// Key under which a section is known: `group/Name`.
pub open spec fn section_key(sec: SectionView) -> Seq<char> {
    sec.group + "/"@ + sec.name
}

/// The sections of all `schemas`, in order.
pub open spec fn merged_sections(schemas: Seq<TblSchema>) -> Seq<SectionView>
    decreases schemas.len(),
{
    if schemas.len() == 0 {
        seq![]
    } else {
        merged_sections(schemas.drop_last()) + sections_view(schemas.last().sections@)
    }
}

/// No two of `secs` share a key.
pub open spec fn keys_distinct(secs: Seq<SectionView>) -> bool {
    forall|a: int, b: int|
        0 <= a < b < secs.len() ==> section_key(#[trigger] secs[a]) != section_key(
            #[trigger] secs[b],
        )
}

/// Whether `key` is the key of the first section of `secs` that repeats an
/// earlier key.
pub open spec fn is_first_repeated_key(secs: Seq<SectionView>, key: Seq<char>) -> bool {
    exists|b: int|
        0 <= b < secs.len() && section_key(#[trigger] secs[b]) == key && keys_distinct(
            secs.take(b),
        ) && exists|a: int| 0 <= a < b && section_key(#[trigger] secs[a]) == key
}

fn copy_field(f: &SchemaField) -> (r: SchemaField)
    ensures
        r@ == f@,
{
    SchemaField {
        name: copy_str(&f.name),
        tbl_type: copy_str(&f.tbl_type),
        export: copy_str(&f.export),
        desc: copy_str(&f.desc),
    }
}

fn copy_section(sec: &SchemaSection) -> (r: SchemaSection)
    ensures
        r@ == sec@,
{
    let mut fields: Vec<SchemaField> = Vec::new();
    let mut i: usize = 0;
    while i < sec.fields.len()
        invariant
            i <= sec.fields@.len(),
            fields_view(fields@) == fields_view(sec.fields@).take(i as int),
        decreases sec.fields.len() - i,
    {
        let ghost prev = fields_view(fields@);
        fields.push(copy_field(&sec.fields[i]));
        proof {
            assert(fields_view(fields@) =~= prev.push(sec.fields@[i as int]@));
            assert(fields_view(sec.fields@).take(i + 1) =~= fields_view(sec.fields@).take(
                i as int,
            ).push(sec.fields@[i as int]@));
        }
        i = i + 1;
    }
    assert(fields_view(sec.fields@).take(i as int) =~= fields_view(sec.fields@));
    let preset = copy_rows(&sec.preset);
    assert(preset@.len() == crate::model::records_view(preset@).len());
    assert forall|x: int| 0 <= x < preset@.len() implies #[trigger] rows_view(preset@)[x]
        == rows_view(sec.preset@)[x] by {
        assert(crate::model::records_view(preset@)[x] == crate::model::records_view(
            sec.preset@,
        )[x]);
        assert(views_of(preset@[x]@) =~= crate::model::records_view(preset@)[x]);
        assert(views_of(sec.preset@[x]@) =~= crate::model::records_view(sec.preset@)[x]);
    }
    assert(rows_view(preset@) =~= rows_view(sec.preset@));
    SchemaSection {
        group: copy_str(&sec.group),
        name: copy_str(&sec.name),
        mode: sec.mode,
        fields,
        preset,
    }
}

fn key_of(sec: &SchemaSection) -> (r: String)
    ensures
        r@ == section_key(sec@),
{
    copy_str(&sec.group).concat("/").concat(sec.name.as_str())
}

/// The sections of all `schemas` in one schema with empty metadata and the
/// default separators; refused when two sections share a `group/Name` key,
/// naming the first section that repeats a key.
pub fn merge_schemas(schemas: &[TblSchema]) -> (r: Result<TblSchema, SchemaError>)
    ensures
        keys_distinct(merged_sections(schemas@)) <==> r is Ok,
        r matches Ok(t) ==> t@.meta == empty_meta() && t.separators.is_default()
            && t@.sections == merged_sections(schemas@),
        r matches Err(e) ==> e@ matches SchemaErrorView::DuplicateSection { key }
            && is_first_repeated_key(merged_sections(schemas@), key),
{
    let mut all: Vec<SchemaSection> = Vec::new();
    let mut i: usize = 0;
    while i < schemas.len()
        invariant
            i <= schemas@.len(),
            sections_view(all@) == merged_sections(schemas@.take(i as int)),
        decreases schemas.len() - i,
    {
        let secs = &schemas[i].sections;
        let ghost base = sections_view(all@);
        let mut j: usize = 0;
        assert(sections_view(all@) =~= base + sections_view(secs@).take(0));
        while j < secs.len()
            invariant
                j <= secs@.len(),
                secs == &schemas@[i as int].sections,
                sections_view(all@) == base + sections_view(secs@).take(j as int),
            decreases secs.len() - j,
        {
            let ghost prev = sections_view(all@);
            all.push(copy_section(&secs[j]));
            proof {
                assert(sections_view(all@) =~= prev.push(secs@[j as int]@));
                assert(sections_view(secs@).take(j + 1) =~= sections_view(secs@).take(
                    j as int,
                ).push(secs@[j as int]@));
                assert(sections_view(all@) =~= base + sections_view(secs@).take(j + 1));
            }
            j = j + 1;
        }
        proof {
            assert(schemas@.take(i + 1).drop_last() =~= schemas@.take(i as int));
            assert(sections_view(secs@).take(j as int) =~= sections_view(secs@));
        }
        i = i + 1;
    }
    proof {
        assert(schemas@.take(i as int) =~= schemas@);
    }
    let ghost secs = sections_view(all@);
    let mut keys: Vec<String> = Vec::new();
    let mut k: usize = 0;
    while k < all.len()
        invariant
            k <= all@.len(),
            secs == sections_view(all@),
            secs == merged_sections(schemas@),
            keys@.len() == k,
            forall|a: int| 0 <= a < k ==> (#[trigger] keys@[a])@ == section_key(secs[a]),
            keys_distinct(secs.take(k as int)),
        decreases all.len() - k,
    {
        let key = key_of(&all[k]);
        let mut a: usize = 0;
        while a < keys.len()
            invariant
                a <= keys@.len(),
                keys@.len() == k,
                k < secs.len(),
                secs == sections_view(all@),
                secs == merged_sections(schemas@),
                keys_distinct(secs.take(k as int)),
                key@ == section_key(secs[k as int]),
                forall|x: int| 0 <= x < k ==> (#[trigger] keys@[x])@ == section_key(secs[x]),
                forall|x: int| 0 <= x < a ==> section_key(#[trigger] secs[x]) != key@,
            decreases keys.len() - a,
        {
            assert(keys@[a as int]@ == section_key(secs[a as int]));
            if text_eq(keys[a].as_str(), key.as_str()) {
                proof {
                    assert(section_key(secs[a as int]) == key@);
                    assert(section_key(secs[k as int]) == key@);
                    assert(exists|x: int| 0 <= x < k && section_key(#[trigger] secs[x]) == key@);
                    assert(is_first_repeated_key(secs, key@));
                    assert(!keys_distinct(secs)) by {
                        assert(section_key(secs[a as int]) == section_key(secs[k as int]));
                    }
                }
                return Err(SchemaError::DuplicateSection { key });
            }
            a = a + 1;
        }
        proof {
            assert forall|x: int, y: int| 0 <= x < y < k + 1 implies section_key(
                #[trigger] secs.take(k + 1)[x],
            ) != section_key(#[trigger] secs.take(k + 1)[y]) by {
                if y < k {
                    assert(secs.take(k as int)[x] == secs.take(k + 1)[x]);
                    assert(secs.take(k as int)[y] == secs.take(k + 1)[y]);
                }
            }
        }
        keys.push(key);
        k = k + 1;
    }
    proof {
        assert(secs.take(k as int) =~= secs);
    }
    Ok(TblSchema {
        meta: SchemaMetadata::default(),
        separators: SeparatorsSection::default(),
        sections: all,
    })
}

/// Fills a missing id with `file_stem`, then a missing name with the id.
pub fn fill_metadata_defaults(schema: &mut TblSchema, file_stem: &str)
    ensures
        final(schema)@.meta.id == (if old(schema)@.meta.id.len() == 0 {
            file_stem@
        } else {
            old(schema)@.meta.id
        }),
        final(schema)@.meta.name == (if old(schema)@.meta.name.len() == 0 {
            final(schema)@.meta.id
        } else {
            old(schema)@.meta.name
        }),
        final(schema)@.meta == (MetaView {
            id: final(schema)@.meta.id,
            name: final(schema)@.meta.name,
            ..old(schema)@.meta
        }),
        final(schema)@.separators == old(schema)@.separators,
        final(schema)@.sections == old(schema)@.sections,
{
    if text_len(schema.meta.id.as_str()) == 0 {
        schema.meta.id = String::from_str(file_stem);
    }
    if text_len(schema.meta.name.as_str()) == 0 {
        schema.meta.name = copy_str(&schema.meta.id);
    }
}

} // verus!
