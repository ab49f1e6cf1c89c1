//! Between a project's groups and a schema: the schema that describes a
//! project, and a schema's sections applied to a project.

use vstd::prelude::*;
use crate::model::{
    const_entries_view, copy_row, copy_rows, copy_str, enum_entries_view, field_defs_view,
    groups_view, records_view, ConstEntry, ConstEntryView, Constant, ConstantView, EnumDef,
    EnumDefView, EnumEntry, EnumEntryView, Export, FieldDef, FieldDefView, Group, GroupView, Table,
    TableSchema, TableView,
};
use crate::tbl_str::views_of;
use crate::tblschema::{
    empty_meta, fields_view, rows_view, sections_view, FieldView, SchemaField, SchemaMetadata,
    SchemaMode, SchemaSection, SectionView, TblSchema,
};
use crate::types::SeparatorsSection;
use crate::text::trim;
use crate::model::{join_path, path_join};

verus! {

/// Rows seen cell by cell are the records of a table.
pub proof fn lemma_rows_view_is_records(rows: Seq<Vec<String>>)
    ensures
        rows_view(rows) == records_view(rows),
{
    assert forall|i: int| 0 <= i < rows.len() implies #[trigger] rows_view(rows)[i]
        == records_view(rows)[i] by {
        assert(views_of(rows[i]@) =~= rows[i]@.map_values(|c: String| c@));
    }
    assert(rows_view(rows) =~= records_view(rows));
}

// ───────────────────────── project → schema ─────────────────────────

/// Column lines of a table: each field with its export code.
pub open spec fn fields_to_schema(fs: Seq<FieldDefView>) -> Seq<FieldView> {
    fs.map_values(
        |f: FieldDefView|
            FieldView { name: f.name, tbl_type: f.tbl_type, export: f.export.spec_code(), desc: f.desc },
    )
}

pub open spec fn table_section(group: Seq<char>, t: TableView, with_preset: bool) -> SectionView {
    SectionView {
        group,
        name: t.name,
        mode: SchemaMode::Table,
        fields: fields_to_schema(t.fields),
        preset: if with_preset {
            t.records
        } else {
            seq![]
        },
    }
}

/// Preset rows of a constant: `name | type | value | export | desc` of each
/// entry with a name.
pub open spec fn const_preset(es: Seq<ConstEntryView>) -> Seq<Seq<Seq<char>>>
    decreases es.len(),
{
    if es.len() == 0 {
        seq![]
    } else {
        let e = es.last();
        const_preset(es.drop_last()) + if e.name.len() > 0 {
            seq![seq![e.name, e.tbl_type, e.value, e.export.spec_code(), e.desc]]
        } else {
            seq![]
        }
    }
}

/// Preset rows of an enum: `id | name | desc` of each entry with an id or a
/// name.
pub open spec fn enum_preset(es: Seq<EnumEntryView>) -> Seq<Seq<Seq<char>>>
    decreases es.len(),
{
    if es.len() == 0 {
        seq![]
    } else {
        let e = es.last();
        enum_preset(es.drop_last()) + if e.id.len() > 0 || e.name.len() > 0 {
            seq![seq![e.id, e.name, e.desc]]
        } else {
            seq![]
        }
    }
}

pub open spec fn const_section(group: Seq<char>, c: ConstantView, with_preset: bool) -> SectionView {
    SectionView {
        group,
        name: c.name,
        mode: SchemaMode::Constant,
        fields: seq![],
        preset: if with_preset {
            const_preset(c.entries)
        } else {
            seq![]
        },
    }
}

pub open spec fn enum_section(group: Seq<char>, e: EnumDefView, with_preset: bool) -> SectionView {
    SectionView {
        group,
        name: e.name,
        mode: SchemaMode::Enum,
        fields: seq![],
        preset: if with_preset {
            enum_preset(e.entries)
        } else {
            seq![]
        },
    }
}

/// Sections of the tables that are not deleted.
pub open spec fn table_sections(group: Seq<char>, ts: Seq<TableView>, with_preset: bool) -> Seq<
    SectionView,
>
    decreases ts.len(),
{
    if ts.len() == 0 {
        seq![]
    } else {
        table_sections(group, ts.drop_last(), with_preset) + if ts.last().deleted {
            seq![]
        } else {
            seq![table_section(group, ts.last(), with_preset)]
        }
    }
}

/// Sections of the constants that are not deleted.
pub open spec fn const_sections(group: Seq<char>, cs: Seq<ConstantView>, with_preset: bool) -> Seq<
    SectionView,
>
    decreases cs.len(),
{
    if cs.len() == 0 {
        seq![]
    } else {
        const_sections(group, cs.drop_last(), with_preset) + if cs.last().deleted {
            seq![]
        } else {
            seq![const_section(group, cs.last(), with_preset)]
        }
    }
}

/// Sections of the enums that are not deleted.
pub open spec fn enum_sections(group: Seq<char>, es: Seq<EnumDefView>, with_preset: bool) -> Seq<
    SectionView,
>
    decreases es.len(),
{
    if es.len() == 0 {
        seq![]
    } else {
        enum_sections(group, es.drop_last(), with_preset) + if es.last().deleted {
            seq![]
        } else {
            seq![enum_section(group, es.last(), with_preset)]
        }
    }
}

/// Sections of a group: its tables, then its constants, then its enums.
pub open spec fn group_sections(g: GroupView, with_preset: bool) -> Seq<SectionView> {
    table_sections(g.name, g.tables, with_preset) + const_sections(
        g.name,
        g.constants,
        with_preset,
    ) + enum_sections(g.name, g.enums, with_preset)
}

pub open spec fn project_sections(gs: Seq<GroupView>, with_preset: bool) -> Seq<SectionView>
    decreases gs.len(),
{
    if gs.len() == 0 {
        seq![]
    } else {
        project_sections(gs.drop_last(), with_preset) + group_sections(gs.last(), with_preset)
    }
}

fn schema_fields_of(fields: &Vec<FieldDef>) -> (r: Vec<SchemaField>)
    ensures
        fields_view(r@) == fields_to_schema(field_defs_view(fields@)),
{
    let ghost want = fields_to_schema(field_defs_view(fields@));
    let mut out: Vec<SchemaField> = Vec::new();
    let mut i: usize = 0;
    while i < fields.len()
        invariant
            i <= fields@.len(),
            want == fields_to_schema(field_defs_view(fields@)),
            fields_view(out@) == want.take(i as int),
        decreases fields.len() - i,
    {
        let f = &fields[i];
        let ghost prev = fields_view(out@);
        out.push(
            SchemaField {
                name: copy_str(&f.name),
                tbl_type: copy_str(&f.tbl_type),
                export: String::from_str(f.export.code()),
                desc: copy_str(&f.desc),
            },
        );
        proof {
            assert(fields_view(out@) =~= prev.push(want[i as int]));
            assert(want.take(i + 1) =~= want.take(i as int).push(want[i as int]));
        }
        i = i + 1;
    }
    assert(want.take(i as int) =~= want);
    out
}

fn table_section_of(group: &String, t: &Table, with_preset: bool) -> (r: SchemaSection)
    ensures
        r@ == table_section(group@, t@, with_preset),
{
    let fields = schema_fields_of(&t.schema.fields);
    let preset = if with_preset {
        let p = copy_rows(&t.records);
        proof {
            lemma_rows_view_is_records(p@);
        }
        p
    } else {
        Vec::new()
    };
    assert(rows_view(preset@) =~= table_section(group@, t@, with_preset).preset);
    SchemaSection { group: copy_str(group), name: copy_str(&t.name), mode: SchemaMode::Table, fields, preset }
}

fn const_preset_of(es: &Vec<ConstEntry>) -> (r: Vec<Vec<String>>)
    ensures
        rows_view(r@) == const_preset(const_entries_view(es@)),
{
    let ghost ev = const_entries_view(es@);
    let mut out: Vec<Vec<String>> = Vec::new();
    let mut i: usize = 0;
    assert(ev.take(0) =~= Seq::<ConstEntryView>::empty());
    while i < es.len()
        invariant
            i <= es@.len(),
            ev == const_entries_view(es@),
            rows_view(out@) == const_preset(ev.take(i as int)),
        decreases es.len() - i,
    {
        assert(ev.take(i + 1).drop_last() =~= ev.take(i as int));
        let e = &es[i];
        assert(ev.take(i + 1).last() == e@);
        if !e.name.as_str().is_empty() {
            let ghost prev = rows_view(out@);
            let row = vec![
                copy_str(&e.name),
                copy_str(&e.tbl_type),
                copy_str(&e.value),
                String::from_str(e.export.code()),
                copy_str(&e.desc),
            ];
            out.push(row);
            proof {
                assert(views_of(row@) =~= seq![
                    e.name@,
                    e.tbl_type@,
                    e.value@,
                    e.export.spec_code(),
                    e.desc@,
                ]);
                assert(rows_view(out@) =~= prev.push(views_of(row@)));
            }
        }
        i = i + 1;
    }
    assert(ev.take(i as int) =~= ev);
    out
}

fn enum_preset_of(es: &Vec<EnumEntry>) -> (r: Vec<Vec<String>>)
    ensures
        rows_view(r@) == enum_preset(enum_entries_view(es@)),
{
    let ghost ev = enum_entries_view(es@);
    let mut out: Vec<Vec<String>> = Vec::new();
    let mut i: usize = 0;
    assert(ev.take(0) =~= Seq::<EnumEntryView>::empty());
    while i < es.len()
        invariant
            i <= es@.len(),
            ev == enum_entries_view(es@),
            rows_view(out@) == enum_preset(ev.take(i as int)),
        decreases es.len() - i,
    {
        assert(ev.take(i + 1).drop_last() =~= ev.take(i as int));
        let e = &es[i];
        assert(ev.take(i + 1).last() == e@);
        if !e.id.as_str().is_empty() || !e.name.as_str().is_empty() {
            let ghost prev = rows_view(out@);
            let row = vec![copy_str(&e.id), copy_str(&e.name), copy_str(&e.desc)];
            out.push(row);
            proof {
                assert(views_of(row@) =~= seq![e.id@, e.name@, e.desc@]);
                assert(rows_view(out@) =~= prev.push(views_of(row@)));
            }
        }
        i = i + 1;
    }
    assert(ev.take(i as int) =~= ev);
    out
}

fn push_group_sections(out: &mut Vec<SchemaSection>, g: &Group, with_preset: bool)
    ensures
        sections_view(final(out)@) == sections_view(old(out)@) + group_sections(g@, with_preset),
{
    let ghost start = sections_view(out@);
    let ghost gv = g@;
    let mut i: usize = 0;
    assert(gv.tables.take(0) =~= Seq::<TableView>::empty());
    assert(start + table_sections(gv.name, gv.tables.take(0), with_preset) =~= start);
    while i < g.tables.len()
        invariant
            i <= g.tables@.len(),
            gv == g@,
            sections_view(out@) == start + table_sections(gv.name, gv.tables.take(i as int), with_preset),
        decreases g.tables.len() - i,
    {
        assert(gv.tables.take(i + 1).drop_last() =~= gv.tables.take(i as int));
        assert(gv.tables.take(i + 1).last() == g.tables@[i as int]@);
        let ghost prev = sections_view(out@);
        if !g.tables[i].deleted {
            let sec = table_section_of(&g.name, &g.tables[i], with_preset);
            out.push(sec);
            assert(sections_view(out@) =~= prev.push(sec@));
        }
        i = i + 1;
    }
    assert(gv.tables.take(i as int) =~= gv.tables);
    let ghost mid = sections_view(out@);
    let mut j: usize = 0;
    assert(gv.constants.take(0) =~= Seq::<ConstantView>::empty());
    assert(mid + const_sections(gv.name, gv.constants.take(0), with_preset) =~= mid);
    while j < g.constants.len()
        invariant
            j <= g.constants@.len(),
            gv == g@,
            sections_view(out@) == mid + const_sections(gv.name, gv.constants.take(j as int), with_preset),
        decreases g.constants.len() - j,
    {
        assert(gv.constants.take(j + 1).drop_last() =~= gv.constants.take(j as int));
        assert(gv.constants.take(j + 1).last() == g.constants@[j as int]@);
        let ghost prev = sections_view(out@);
        let c = &g.constants[j];
        if !c.deleted {
            let preset = if with_preset {
                const_preset_of(&c.entries)
            } else {
                Vec::new()
            };
            let sec = SchemaSection {
                group: copy_str(&g.name),
                name: copy_str(&c.name),
                mode: SchemaMode::Constant,
                fields: Vec::new(),
                preset,
            };
            assert(fields_view(sec.fields@) =~= Seq::<FieldView>::empty());
            assert(rows_view(sec.preset@) =~= const_section(gv.name, c@, with_preset).preset);
            assert(sec@ =~= const_section(gv.name, c@, with_preset));
            out.push(sec);
            assert(sections_view(out@) =~= prev.push(sec@));
        }
        j = j + 1;
    }
    assert(gv.constants.take(j as int) =~= gv.constants);
    let ghost mid2 = sections_view(out@);
    let mut k: usize = 0;
    assert(gv.enums.take(0) =~= Seq::<EnumDefView>::empty());
    assert(mid2 + enum_sections(gv.name, gv.enums.take(0), with_preset) =~= mid2);
    while k < g.enums.len()
        invariant
            k <= g.enums@.len(),
            gv == g@,
            sections_view(out@) == mid2 + enum_sections(gv.name, gv.enums.take(k as int), with_preset),
        decreases g.enums.len() - k,
    {
        assert(gv.enums.take(k + 1).drop_last() =~= gv.enums.take(k as int));
        assert(gv.enums.take(k + 1).last() == g.enums@[k as int]@);
        let ghost prev = sections_view(out@);
        let e = &g.enums[k];
        if !e.deleted {
            let preset = if with_preset {
                enum_preset_of(&e.entries)
            } else {
                Vec::new()
            };
            let sec = SchemaSection {
                group: copy_str(&g.name),
                name: copy_str(&e.name),
                mode: SchemaMode::Enum,
                fields: Vec::new(),
                preset,
            };
            assert(fields_view(sec.fields@) =~= Seq::<FieldView>::empty());
            assert(rows_view(sec.preset@) =~= enum_section(gv.name, e@, with_preset).preset);
            assert(sec@ =~= enum_section(gv.name, e@, with_preset));
            out.push(sec);
            assert(sections_view(out@) =~= prev.push(sec@));
        }
        k = k + 1;
    }
    assert(gv.enums.take(k as int) =~= gv.enums);
}

/// The schema of a project: for each group, a section per table, constant
/// and enum that is not deleted (tables first); with `with_preset`, table
/// records, named constant entries and enum entries with an id or a name
/// become preset rows. Metadata empty, separators the defaults.
pub fn schema_from_project(groups: &[Group], with_preset: bool) -> (r: TblSchema)
    ensures
        r@.meta == empty_meta(),
        r.separators.is_default(),
        r@.sections == project_sections(groups_view(groups@), with_preset),
{
    let ghost gv = groups_view(groups@);
    let mut sections: Vec<SchemaSection> = Vec::new();
    let mut i: usize = 0;
    assert(gv.take(0) =~= Seq::<GroupView>::empty());
    while i < groups.len()
        invariant
            i <= groups@.len(),
            gv == groups_view(groups@),
            sections_view(sections@) == project_sections(gv.take(i as int), with_preset),
        decreases groups.len() - i,
    {
        assert(gv.take(i + 1).drop_last() =~= gv.take(i as int));
        assert(gv.take(i + 1).last() == groups@[i as int]@);
        push_group_sections(&mut sections, &groups[i], with_preset);
        i = i + 1;
    }
    assert(gv.take(i as int) =~= gv);
    TblSchema {
        meta: SchemaMetadata::default(),
        separators: SeparatorsSection::default(),
        sections,
    }
}

// ───────────────────────── schema → project ─────────────────────────

/// Index of the first of `names` equal to `name`, or `names.len()` when
/// none is.
pub open spec fn first_named(names: Seq<Seq<char>>, name: Seq<char>) -> int
    decreases names.len(),
{
    if names.len() == 0 {
        0
    } else if names[0] == name {
        0
    } else {
        1 + first_named(names.drop_first(), name)
    }
}

pub proof fn lemma_first_named(names: Seq<Seq<char>>, name: Seq<char>, i: int)
    requires
        0 <= i <= names.len(),
        forall|j: int| 0 <= j < i ==> names[j] != name,
        i == names.len() || names[i] == name,
    ensures
        first_named(names, name) == i,
    decreases i,
{
    if i > 0 {
        assert(names[0] != name);
        let rest = names.drop_first();
        assert forall|j: int| 0 <= j < i - 1 implies rest[j] != name by {
            assert(rest[j] == names[j + 1]);
        }
        if i < names.len() {
            assert(rest[i - 1] == names[i]);
        }
        lemma_first_named(rest, name, i - 1);
    }
}

pub open spec fn group_names(gs: Seq<GroupView>) -> Seq<Seq<char>> {
    gs.map_values(|g: GroupView| g.name)
}

pub open spec fn table_names(ts: Seq<TableView>) -> Seq<Seq<char>> {
    ts.map_values(|t: TableView| t.name)
}

pub open spec fn constant_names(cs: Seq<ConstantView>) -> Seq<Seq<char>> {
    cs.map_values(|c: ConstantView| c.name)
}

pub open spec fn enum_names(es: Seq<EnumDefView>) -> Seq<Seq<char>> {
    es.map_values(|e: EnumDefView| e.name)
}

/// `row` cut or padded with empty cells to `n` cells.
pub open spec fn resize_row(row: Seq<Seq<char>>, n: nat) -> Seq<Seq<char>> {
    Seq::new(n, |i: int| if i < row.len() { row[i] } else { seq![] })
}

/// Cell `i` of `row`, or `d` when the row is shorter.
pub open spec fn cell_or(row: Seq<Seq<char>>, i: int, d: Seq<char>) -> Seq<char> {
    if i < row.len() {
        row[i]
    } else {
        d
    }
}

/// Column definitions of a table section; export codes read as labels.
pub open spec fn schema_to_fields(fs: Seq<FieldView>) -> Seq<FieldDefView> {
    fs.map_values(
        |f: FieldView|
            FieldDefView {
                name: f.name,
                desc: f.desc,
                tbl_type: f.tbl_type,
                export: Export::spec_from_text(trim(f.export)),
            },
    )
}

/// A constant entry from a preset row `name | type | value | export | desc`;
/// a missing export counts as `cs`.
pub open spec fn preset_const_entry(row: Seq<Seq<char>>) -> ConstEntryView {
    ConstEntryView {
        name: cell_or(row, 0, seq![]),
        tbl_type: cell_or(row, 1, seq![]),
        value: cell_or(row, 2, seq![]),
        export: Export::spec_from_text(trim(cell_or(row, 3, "cs"@))),
        desc: cell_or(row, 4, seq![]),
    }
}

/// An enum entry from a preset row `id | name | desc`.
pub open spec fn preset_enum_entry(row: Seq<Seq<char>>) -> EnumEntryView {
    EnumEntryView { id: cell_or(row, 0, seq![]), name: cell_or(row, 1, seq![]), desc: cell_or(row, 2, seq![]) }
}

/// Whether the group already holds a node of the section's kind and name.
pub open spec fn node_found(g: GroupView, sec: SectionView) -> bool {
    match sec.mode {
        SchemaMode::Table => first_named(table_names(g.tables), sec.name) < g.tables.len(),
        SchemaMode::Constant => first_named(constant_names(g.constants), sec.name)
            < g.constants.len(),
        SchemaMode::Enum => first_named(enum_names(g.enums), sec.name) < g.enums.len(),
    }
}

/// The group once a table section is applied: the first table of that name
/// takes the section's columns and is marked dirty (its records replaced by
/// the preset rows with `with_preset`, else each cut or padded to the new
/// column count); without such a table, a new dirty one is added at
/// `<dir>/<Name>.tbl`.
pub open spec fn apply_table(g: GroupView, sec: SectionView, with_preset: bool) -> GroupView {
    let fields = schema_to_fields(sec.fields);
    let n = fields.len();
    let rows = if with_preset {
        sec.preset.map_values(|r: Seq<Seq<char>>| resize_row(r, n))
    } else {
        seq![]
    };
    let ti = first_named(table_names(g.tables), sec.name);
    if ti < g.tables.len() {
        let t = g.tables[ti];
        let t2 = TableView {
            fields,
            records: if with_preset {
                rows
            } else {
                t.records.map_values(|r: Seq<Seq<char>>| resize_row(r, n))
            },
            dirty: true,
            ..t
        };
        GroupView { tables: g.tables.update(ti, t2), ..g }
    } else {
        GroupView {
            tables: g.tables.push(
                TableView {
                    name: sec.name,
                    path: path_join(g.dir, sec.name + ".tbl"@),
                    fields,
                    records: rows,
                    dirty: true,
                    deleted: false,
                    saved_text: seq![],
                },
            ),
            ..g
        }
    }
}

/// The group once a constant section is applied: the first constant of that
/// name is marked dirty (its entries replaced by the preset rows with
/// `with_preset`); without one, a new dirty constant is added.
pub open spec fn apply_constant(g: GroupView, sec: SectionView, with_preset: bool) -> GroupView {
    let entries = if with_preset {
        sec.preset.map_values(|r: Seq<Seq<char>>| preset_const_entry(r))
    } else {
        seq![]
    };
    let ci = first_named(constant_names(g.constants), sec.name);
    if ci < g.constants.len() {
        let c = g.constants[ci];
        let c2 = ConstantView {
            entries: if with_preset {
                entries
            } else {
                c.entries
            },
            dirty: true,
            ..c
        };
        GroupView { constants: g.constants.update(ci, c2), ..g }
    } else {
        GroupView {
            constants: g.constants.push(
                ConstantView {
                    name: sec.name,
                    path: path_join(g.dir, sec.name + ".tbl"@),
                    entries,
                    dirty: true,
                    deleted: false,
                    saved_text: seq![],
                },
            ),
            ..g
        }
    }
}

/// As [`apply_constant`], for an enum section.
pub open spec fn apply_enum(g: GroupView, sec: SectionView, with_preset: bool) -> GroupView {
    let entries = if with_preset {
        sec.preset.map_values(|r: Seq<Seq<char>>| preset_enum_entry(r))
    } else {
        seq![]
    };
    let ei = first_named(enum_names(g.enums), sec.name);
    if ei < g.enums.len() {
        let e = g.enums[ei];
        let e2 = EnumDefView {
            entries: if with_preset {
                entries
            } else {
                e.entries
            },
            dirty: true,
            ..e
        };
        GroupView { enums: g.enums.update(ei, e2), ..g }
    } else {
        GroupView {
            enums: g.enums.push(
                EnumDefView {
                    name: sec.name,
                    path: path_join(g.dir, sec.name + ".tbl"@),
                    entries,
                    dirty: true,
                    deleted: false,
                    saved_text: seq![],
                },
            ),
            ..g
        }
    }
}

pub open spec fn apply_node(g: GroupView, sec: SectionView, with_preset: bool) -> GroupView {
    match sec.mode {
        SchemaMode::Table => apply_table(g, sec, with_preset),
        SchemaMode::Constant => apply_constant(g, sec, with_preset),
        SchemaMode::Enum => apply_enum(g, sec, with_preset),
    }
}

/// Groups of a project while sections are applied, with the number of
/// nodes added and overwritten so far.
pub struct ApplyState {
    pub groups: Seq<GroupView>,
    pub added: nat,
    pub overwritten: nat,
}

/// A new group `name` in `dir`, marked new.
pub open spec fn new_group(name: Seq<char>, dir: Seq<char>) -> GroupView {
    GroupView { name, dir, tables: seq![], constants: seq![], enums: seq![], is_new: true }
}

/// One section applied: into the first group of its group name, or into a
/// new group at `<config_dir>/<group>` appended for it.
pub open spec fn apply_section(
    st: ApplyState,
    sec: SectionView,
    config_dir: Seq<char>,
    with_preset: bool,
) -> ApplyState {
    let gi = first_named(group_names(st.groups), sec.group);
    let gs = if gi < st.groups.len() {
        st.groups
    } else {
        st.groups.push(new_group(sec.group, path_join(config_dir, sec.group)))
    };
    let found = node_found(gs[gi], sec);
    ApplyState {
        groups: gs.update(gi, apply_node(gs[gi], sec, with_preset)),
        added: st.added + if found {
            0nat
        } else {
            1nat
        },
        overwritten: st.overwritten + if found {
            1nat
        } else {
            0nat
        },
    }
}

pub open spec fn apply_sections(
    st: ApplyState,
    secs: Seq<SectionView>,
    config_dir: Seq<char>,
    with_preset: bool,
) -> ApplyState
    decreases secs.len(),
{
    if secs.len() == 0 {
        st
    } else {
        apply_section(
            apply_sections(st, secs.drop_last(), config_dir, with_preset),
            secs.last(),
            config_dir,
            with_preset,
        )
    }
}

proof fn lemma_apply_counts(st: ApplyState, secs: Seq<SectionView>, config_dir: Seq<char>, wp: bool)
    ensures
        apply_sections(st, secs, config_dir, wp).added + apply_sections(
            st,
            secs,
            config_dir,
            wp,
        ).overwritten == st.added + st.overwritten + secs.len(),
    decreases secs.len(),
{
    if secs.len() > 0 {
        lemma_apply_counts(st, secs.drop_last(), config_dir, wp);
    }
}

fn resize_row_of(row: &Vec<String>, n: usize) -> (r: Vec<String>)
    ensures
        views_of(r@) == resize_row(views_of(row@), n as nat),
{
    let ghost want = resize_row(views_of(row@), n as nat);
    let mut out: Vec<String> = Vec::new();
    let mut i: usize = 0;
    while i < n
        invariant
            i <= n,
            want == resize_row(views_of(row@), n as nat),
            views_of(out@) == want.take(i as int),
        decreases n - i,
    {
        let ghost prev = views_of(out@);
        if i < row.len() {
            out.push(copy_str(&row[i]));
        } else {
            out.push(String::new());
        }
        proof {
            assert(views_of(out@) =~= prev.push(want[i as int]));
            assert(want.take(i + 1) =~= want.take(i as int).push(want[i as int]));
        }
        i = i + 1;
    }
    assert(want.take(i as int) =~= want);
    out
}

fn resize_rows(rows: &Vec<Vec<String>>, n: usize) -> (r: Vec<Vec<String>>)
    ensures
        records_view(r@) == records_view(rows@).map_values(
            |row: Seq<Seq<char>>| resize_row(row, n as nat),
        ),
{
    let ghost want = records_view(rows@).map_values(|row: Seq<Seq<char>>| resize_row(row, n as nat));
    let mut out: Vec<Vec<String>> = Vec::new();
    let mut i: usize = 0;
    while i < rows.len()
        invariant
            i <= rows@.len(),
            want == records_view(rows@).map_values(|row: Seq<Seq<char>>| resize_row(row, n as nat)),
            records_view(out@) == want.take(i as int),
            out@.len() == i,
        decreases rows.len() - i,
    {
        let ghost prev = records_view(out@);
        let row = resize_row_of(&rows[i], n);
        let ghost rv = views_of(row@);
        out.push(row);
        proof {
            assert(views_of(rows@[i as int]@) =~= records_view(rows@)[i as int]);
            assert(out@.len() == i + 1);
            assert(records_view(out@)[i as int] =~= rv);
            assert(records_view(out@) =~= prev.push(want[i as int]));
            assert(want.take(i + 1) =~= want.take(i as int).push(want[i as int]));
        }
        i = i + 1;
    }
    assert(want.take(i as int) =~= want);
    out
}

fn field_defs_of(fields: &Vec<SchemaField>) -> (r: Vec<FieldDef>)
    ensures
        field_defs_view(r@) == schema_to_fields(fields_view(fields@)),
{
    let ghost want = schema_to_fields(fields_view(fields@));
    let mut out: Vec<FieldDef> = Vec::new();
    let mut i: usize = 0;
    while i < fields.len()
        invariant
            i <= fields@.len(),
            want == schema_to_fields(fields_view(fields@)),
            field_defs_view(out@) == want.take(i as int),
        decreases fields.len() - i,
    {
        let f = &fields[i];
        let ghost prev = field_defs_view(out@);
        out.push(
            FieldDef {
                name: copy_str(&f.name),
                desc: copy_str(&f.desc),
                tbl_type: copy_str(&f.tbl_type),
                export: Export::from_str(f.export.as_str()),
            },
        );
        proof {
            assert(field_defs_view(out@) =~= prev.push(want[i as int]));
            assert(want.take(i + 1) =~= want.take(i as int).push(want[i as int]));
        }
        i = i + 1;
    }
    assert(want.take(i as int) =~= want);
    out
}

fn cell_text(row: &Vec<String>, i: usize, d: &str) -> (r: String)
    ensures
        r@ == cell_or(views_of(row@), i as int, d@),
{
    if i < row.len() {
        copy_str(&row[i])
    } else {
        String::from_str(d)
    }
}

fn const_entries_of(rows: &Vec<Vec<String>>) -> (r: Vec<ConstEntry>)
    ensures
        const_entries_view(r@) == rows_view(rows@).map_values(
            |row: Seq<Seq<char>>| preset_const_entry(row),
        ),
{
    let ghost want = rows_view(rows@).map_values(|row: Seq<Seq<char>>| preset_const_entry(row));
    let mut out: Vec<ConstEntry> = Vec::new();
    let mut i: usize = 0;
    while i < rows.len()
        invariant
            i <= rows@.len(),
            want == rows_view(rows@).map_values(|row: Seq<Seq<char>>| preset_const_entry(row)),
            const_entries_view(out@) == want.take(i as int),
        decreases rows.len() - i,
    {
        let row = &rows[i];
        let ghost prev = const_entries_view(out@);
        let export_text = cell_text(row, 3, "cs");
        let e = ConstEntry {
            name: cell_text(row, 0, ""),
            tbl_type: cell_text(row, 1, ""),
            value: cell_text(row, 2, ""),
            export: Export::from_str(export_text.as_str()),
            desc: cell_text(row, 4, ""),
        };
        proof {
            reveal_strlit("");
            assert(""@ =~= Seq::<char>::empty());
            assert(rows_view(rows@)[i as int] == views_of(row@));
            assert(e@ == want[i as int]);
        }
        out.push(e);
        proof {
            assert(const_entries_view(out@) =~= prev.push(want[i as int]));
            assert(want.take(i + 1) =~= want.take(i as int).push(want[i as int]));
        }
        i = i + 1;
    }
    assert(want.take(i as int) =~= want);
    out
}

fn enum_entries_of(rows: &Vec<Vec<String>>) -> (r: Vec<EnumEntry>)
    ensures
        enum_entries_view(r@) == rows_view(rows@).map_values(
            |row: Seq<Seq<char>>| preset_enum_entry(row),
        ),
{
    let ghost want = rows_view(rows@).map_values(|row: Seq<Seq<char>>| preset_enum_entry(row));
    let mut out: Vec<EnumEntry> = Vec::new();
    let mut i: usize = 0;
    while i < rows.len()
        invariant
            i <= rows@.len(),
            want == rows_view(rows@).map_values(|row: Seq<Seq<char>>| preset_enum_entry(row)),
            enum_entries_view(out@) == want.take(i as int),
        decreases rows.len() - i,
    {
        let row = &rows[i];
        let ghost prev = enum_entries_view(out@);
        let e = EnumEntry {
            id: cell_text(row, 0, ""),
            name: cell_text(row, 1, ""),
            desc: cell_text(row, 2, ""),
        };
        proof {
            reveal_strlit("");
            assert(""@ =~= Seq::<char>::empty());
            assert(rows_view(rows@)[i as int] == views_of(row@));
            assert(e@ == want[i as int]);
        }
        out.push(e);
        proof {
            assert(enum_entries_view(out@) =~= prev.push(want[i as int]));
            assert(want.take(i + 1) =~= want.take(i as int).push(want[i as int]));
        }
        i = i + 1;
    }
    assert(want.take(i as int) =~= want);
    out
}

fn overwrite_table(
    t: &mut Table,
    fields: Vec<FieldDef>,
    rows: Vec<Vec<String>>,
    with_preset: bool,
    n: usize,
)
    ensures
        final(t)@ == (TableView {
            fields: field_defs_view(fields@),
            records: if with_preset {
                records_view(rows@)
            } else {
                old(t)@.records.map_values(|r: Seq<Seq<char>>| resize_row(r, n as nat))
            },
            dirty: true,
            ..old(t)@
        }),
{
    t.schema.fields = fields;
    if with_preset {
        t.records = rows;
    } else {
        let resized = resize_rows(&t.records, n);
        t.records = resized;
    }
    t.dirty = true;
}

fn overwrite_constant(c: &mut Constant, entries: Vec<ConstEntry>, with_preset: bool)
    ensures
        final(c)@ == (ConstantView {
            entries: if with_preset {
                const_entries_view(entries@)
            } else {
                old(c)@.entries
            },
            dirty: true,
            ..old(c)@
        }),
{
    if with_preset {
        c.entries = entries;
    }
    c.dirty = true;
}

fn overwrite_enum(e: &mut EnumDef, entries: Vec<EnumEntry>, with_preset: bool)
    ensures
        final(e)@ == (EnumDefView {
            entries: if with_preset {
                enum_entries_view(entries@)
            } else {
                old(e)@.entries
            },
            dirty: true,
            ..old(e)@
        }),
{
    if with_preset {
        e.entries = entries;
    }
    e.dirty = true;
}

fn node_path(g: &Group, name: &String) -> (r: String)
    ensures
        r@ == path_join(g.dir@, name@ + ".tbl"@),
{
    let file = copy_str(name).concat(".tbl");
    join_path(g.dir.as_str(), file.as_str())
}

fn apply_table_to(g: &mut Group, sec: &SchemaSection, with_preset: bool) -> (found: bool)
    requires
        sec.mode == SchemaMode::Table,
    ensures
        final(g)@ == apply_node(old(g)@, sec@, with_preset),
        found == node_found(old(g)@, sec@),
{
    let ghost gv = g@;
    let fields = field_defs_of(&sec.fields);
    let n = fields.len();
    let rows = if with_preset {
        resize_rows(&sec.preset, n)
    } else {
        Vec::new()
    };
    proof {
        lemma_rows_view_is_records(sec.preset@);
        assert(records_view(rows@) =~= (if with_preset {
            sec@.preset.map_values(|r: Seq<Seq<char>>| resize_row(r, n as nat))
        } else {
            seq![]
        }));
    }
    let ghost names = table_names(gv.tables);
    let mut ti: usize = 0;
    while ti < g.tables.len()
        invariant
            ti <= g.tables@.len(),
            gv == g@,
            names == table_names(gv.tables),
            forall|k: int| 0 <= k < ti ==> names[k] != sec.name@,
        ensures
            ti <= g.tables@.len(),
            forall|k: int| 0 <= k < ti ==> names[k] != sec.name@,
            ti == g.tables@.len() || names[ti as int] == sec.name@,
        decreases g.tables.len() - ti,
    {
        assert(names[ti as int] == g.tables@[ti as int].name@);
        if g.tables[ti].name == sec.name {
            break;
        }
        ti = ti + 1;
    }
    proof {
        lemma_first_named(names, sec.name@, ti as int);
    }
    if ti < g.tables.len() {
        overwrite_table(&mut g.tables[ti], fields, rows, with_preset, n);
        proof {
            assert(g@.tables =~= apply_table(gv, sec@, with_preset).tables);
        }
        true
    } else {
        let path = node_path(g, &sec.name);
        let t = Table {
            name: copy_str(&sec.name),
            path,
            schema: TableSchema { fields },
            records: rows,
            dirty: true,
            deleted: false,
            saved_text: String::new(),
        };
        g.tables.push(t);
        proof {
            assert(g@.tables =~= apply_table(gv, sec@, with_preset).tables);
        }
        false
    }
}

fn apply_constant_to(g: &mut Group, sec: &SchemaSection, with_preset: bool) -> (found: bool)
    requires
        sec.mode == SchemaMode::Constant,
    ensures
        final(g)@ == apply_node(old(g)@, sec@, with_preset),
        found == node_found(old(g)@, sec@),
{
    let ghost gv = g@;
    let entries = if with_preset {
        const_entries_of(&sec.preset)
    } else {
        Vec::new()
    };
    assert(const_entries_view(entries@) =~= (if with_preset {
        sec@.preset.map_values(|r: Seq<Seq<char>>| preset_const_entry(r))
    } else {
        seq![]
    }));
    let ghost names = constant_names(gv.constants);
    let mut ci: usize = 0;
    while ci < g.constants.len()
        invariant
            ci <= g.constants@.len(),
            gv == g@,
            names == constant_names(gv.constants),
            forall|k: int| 0 <= k < ci ==> names[k] != sec.name@,
        ensures
            ci <= g.constants@.len(),
            forall|k: int| 0 <= k < ci ==> names[k] != sec.name@,
            ci == g.constants@.len() || names[ci as int] == sec.name@,
        decreases g.constants.len() - ci,
    {
        assert(names[ci as int] == g.constants@[ci as int].name@);
        if g.constants[ci].name == sec.name {
            break;
        }
        ci = ci + 1;
    }
    proof {
        lemma_first_named(names, sec.name@, ci as int);
    }
    if ci < g.constants.len() {
        overwrite_constant(&mut g.constants[ci], entries, with_preset);
        proof {
            assert(g@.constants =~= apply_constant(gv, sec@, with_preset).constants);
        }
        true
    } else {
        let path = node_path(g, &sec.name);
        let c = Constant {
            name: copy_str(&sec.name),
            path,
            entries,
            dirty: true,
            deleted: false,
            saved_text: String::new(),
        };
        g.constants.push(c);
        proof {
            assert(g@.constants =~= apply_constant(gv, sec@, with_preset).constants);
        }
        false
    }
}

fn apply_enum_to(g: &mut Group, sec: &SchemaSection, with_preset: bool) -> (found: bool)
    requires
        sec.mode == SchemaMode::Enum,
    ensures
        final(g)@ == apply_node(old(g)@, sec@, with_preset),
        found == node_found(old(g)@, sec@),
{
    let ghost gv = g@;
    let entries = if with_preset {
        enum_entries_of(&sec.preset)
    } else {
        Vec::new()
    };
    assert(enum_entries_view(entries@) =~= (if with_preset {
        sec@.preset.map_values(|r: Seq<Seq<char>>| preset_enum_entry(r))
    } else {
        seq![]
    }));
    let ghost names = enum_names(gv.enums);
    let mut ei: usize = 0;
    while ei < g.enums.len()
        invariant
            ei <= g.enums@.len(),
            gv == g@,
            names == enum_names(gv.enums),
            forall|k: int| 0 <= k < ei ==> names[k] != sec.name@,
        ensures
            ei <= g.enums@.len(),
            forall|k: int| 0 <= k < ei ==> names[k] != sec.name@,
            ei == g.enums@.len() || names[ei as int] == sec.name@,
        decreases g.enums.len() - ei,
    {
        assert(names[ei as int] == g.enums@[ei as int].name@);
        if g.enums[ei].name == sec.name {
            break;
        }
        ei = ei + 1;
    }
    proof {
        lemma_first_named(names, sec.name@, ei as int);
    }
    if ei < g.enums.len() {
        overwrite_enum(&mut g.enums[ei], entries, with_preset);
        proof {
            assert(g@.enums =~= apply_enum(gv, sec@, with_preset).enums);
        }
        true
    } else {
        let path = node_path(g, &sec.name);
        let e = EnumDef {
            name: copy_str(&sec.name),
            path,
            entries,
            dirty: true,
            deleted: false,
            saved_text: String::new(),
        };
        g.enums.push(e);
        proof {
            assert(g@.enums =~= apply_enum(gv, sec@, with_preset).enums);
        }
        false
    }
}

fn apply_to_group(g: &mut Group, sec: &SchemaSection, with_preset: bool) -> (found: bool)
    ensures
        final(g)@ == apply_node(old(g)@, sec@, with_preset),
        found == node_found(old(g)@, sec@),
{
    match sec.mode {
        SchemaMode::Table => apply_table_to(g, sec, with_preset),
        SchemaMode::Constant => apply_constant_to(g, sec, with_preset),
        SchemaMode::Enum => apply_enum_to(g, sec, with_preset),
    }
}

/// The project's groups once `secs` are applied in order, starting from
/// `groups` with nothing counted.
pub open spec fn spec_apply_schema(
    groups: Seq<GroupView>,
    secs: Seq<SectionView>,
    config_dir: Seq<char>,
    with_preset: bool,
) -> ApplyState {
    apply_sections(ApplyState { groups, added: 0, overwritten: 0 }, secs, config_dir, with_preset)
}

/// Applies schema sections to a project's groups in order (see
/// [`apply_section`]): a section's group is created at
/// `<config_dir>/<group>` when missing; its node is overwritten when the
/// group has one of that kind and name, else added. Returns the number of
/// nodes added and the number overwritten.
pub fn apply_schema_to_project(
    groups: &mut Vec<Group>,
    sections: &[SchemaSection],
    config_dir: &str,
    with_preset: bool,
) -> (r: (usize, usize))
    ensures
        groups_view(final(groups)@) == spec_apply_schema(
            groups_view(old(groups)@),
            sections_view(sections@),
            config_dir@,
            with_preset,
        ).groups,
        r.0 == spec_apply_schema(
            groups_view(old(groups)@),
            sections_view(sections@),
            config_dir@,
            with_preset,
        ).added,
        r.1 == spec_apply_schema(
            groups_view(old(groups)@),
            sections_view(sections@),
            config_dir@,
            with_preset,
        ).overwritten,
{
    let ghost st0 = ApplyState { groups: groups_view(groups@), added: 0, overwritten: 0 };
    let ghost secs = sections_view(sections@);
    let mut added: usize = 0;
    let mut overwritten: usize = 0;
    let mut i: usize = 0;
    assert(secs.take(0) =~= Seq::<SectionView>::empty());
    while i < sections.len()
        invariant
            i <= sections@.len(),
            secs == sections_view(sections@),
            groups_view(groups@) == apply_sections(st0, secs.take(i as int), config_dir@, with_preset).groups,
            added == apply_sections(st0, secs.take(i as int), config_dir@, with_preset).added,
            overwritten == apply_sections(st0, secs.take(i as int), config_dir@, with_preset).overwritten,
            st0.added == 0,
            st0.overwritten == 0,
        decreases sections.len() - i,
    {
        let sec = &sections[i];
        proof {
            assert(secs.take(i + 1).drop_last() =~= secs.take(i as int));
            assert(secs.take(i + 1).last() == sec@);
            lemma_apply_counts(st0, secs.take(i as int), config_dir@, with_preset);
        }
        let ghost st = apply_sections(st0, secs.take(i as int), config_dir@, with_preset);
        let ghost gnames = group_names(st.groups);
        let mut gi: usize = 0;
        while gi < groups.len()
            invariant
                gi <= groups@.len(),
                groups_view(groups@) == st.groups,
                gnames == group_names(st.groups),
                forall|k: int| 0 <= k < gi ==> gnames[k] != sec.group@,
            ensures
                gi <= groups@.len(),
                forall|k: int| 0 <= k < gi ==> gnames[k] != sec.group@,
                gi == groups@.len() || gnames[gi as int] == sec.group@,
            decreases groups.len() - gi,
        {
            assert(gnames[gi as int] == groups@[gi as int].name@);
            if groups[gi].name == sec.group {
                break;
            }
            gi = gi + 1;
        }
        proof {
            lemma_first_named(gnames, sec.group@, gi as int);
        }
        if gi == groups.len() {
            let dir = join_path(config_dir, sec.group.as_str());
            let g = Group {
                name: copy_str(&sec.group),
                dir,
                tables: Vec::new(),
                constants: Vec::new(),
                enums: Vec::new(),
                is_new: true,
            };
            assert(g@.tables =~= Seq::<TableView>::empty());
            assert(g@.constants =~= Seq::<ConstantView>::empty());
            assert(g@.enums =~= Seq::<EnumDefView>::empty());
            assert(g@ =~= new_group(sec.group@, path_join(config_dir@, sec.group@)));
            groups.push(g);
        }
        let ghost gs = groups_view(groups@);
        assert(gs == (if first_named(gnames, sec.group@) < st.groups.len() {
            st.groups
        } else {
            st.groups.push(new_group(sec.group@, path_join(config_dir@, sec.group@)))
        }));
        let found = apply_to_group(&mut groups[gi], sec, with_preset);
        proof {
            assert(groups_view(groups@) =~= gs.update(gi as int, apply_node(gs[gi as int], sec@, with_preset)));
        }
        if found {
            overwritten = overwritten + 1;
        } else {
            added = added + 1;
        }
        i = i + 1;
    }
    assert(secs.take(i as int) =~= secs);
    (added, overwritten)
}

} // verus!
