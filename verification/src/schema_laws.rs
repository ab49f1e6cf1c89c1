//! What a `.tblschema` file gives back: a schema written by this library
//! and read again is the same schema, up to what the format does not keep
//! (an empty name reads as the id, `has_preset` follows the sections, and
//! constant and enum sections keep no column lines).

use vstd::prelude::*;
use crate::tbl_laws::{
    lacks, lemma_decode_plain_cell, lemma_lines_of_text, lemma_split_join, lemma_split_over_plain,
    lemma_split_pipe, lemma_text_of_lines_append, lemma_trim_plain, text_of_lines,
};
use crate::tblschema::{
    any_preset, apply_meta, apply_sep, directive_body, fields_text, field_text, finish_parse,
    first_dup_name, first_word, initial_state, is_preset_directive, join_with, meta_text_line,
    mode_word, opt_meta, parse_lines, parse_step, preset_cells, rows_text, section_dup_error,
    section_text, sections_text, sep_lines, spec_field_line, spec_meta_line, spec_parse_tblschema,
    spec_section_header, spec_sep_line, spec_meta_text, spec_serialize_tblschema, strip_hashes,
    FieldView, MetaView, ParseOutcome, ParseState, SchemaMode, SchemaView, SectionView, TblSchema,
};
use crate::text::{first_index, is_ws, lines_of, split_on, starts_with, strip_cr, trim, trim_end, trim_start};
use crate::types::spec_sep_key_named;
use crate::tbl_str::{join_pipe, spec_decode_str, spec_split_acc, spec_split_row};
use crate::types::SepKey;
use crate::model::{ConstEntryView, EnumEntryView, Export};
use crate::schema_project::{const_preset, enum_preset, preset_const_entry, preset_enum_entry};

verus! {

// ───────────────────────── presets of a dumped project ─────────────────────────

/// The entries of an enum that a preset block keeps: those with an id or a
/// name.
pub open spec fn enum_entries_kept(es: Seq<EnumEntryView>) -> Seq<EnumEntryView>
    decreases es.len(),
{
    if es.len() == 0 {
        seq![]
    } else {
        enum_entries_kept(es.drop_last()) + if es.last().id.len() > 0 || es.last().name.len() > 0 {
            seq![es.last()]
        } else {
            Seq::<EnumEntryView>::empty()
        }
    }
}

/// The entries of a constant that a preset block keeps: those with a name.
pub open spec fn const_entries_kept(es: Seq<ConstEntryView>) -> Seq<ConstEntryView>
    decreases es.len(),
{
    if es.len() == 0 {
        seq![]
    } else {
        const_entries_kept(es.drop_last()) + if es.last().name.len() > 0 {
            seq![es.last()]
        } else {
            Seq::<ConstEntryView>::empty()
        }
    }
}

/// An enum dumped as a schema preset block (see `schema_from_project`) and
/// applied back with presets gives its entries again, each with its id,
/// name and description in place (entries with neither id nor name are not
/// dumped).
pub proof fn law_enum_preset_round_trip(es: Seq<EnumEntryView>)
    ensures
        enum_preset(es).map_values(|r: Seq<Seq<char>>| preset_enum_entry(r)) == enum_entries_kept(es),
    decreases es.len(),
{
    if es.len() > 0 {
        law_enum_preset_round_trip(es.drop_last());
        let e = es.last();
        assert(preset_enum_entry(seq![e.id, e.name, e.desc]) == e);
        assert(enum_preset(es).map_values(|r: Seq<Seq<char>>| preset_enum_entry(r)) =~= enum_entries_kept(es));
    } else {
        assert(enum_preset(es).map_values(|r: Seq<Seq<char>>| preset_enum_entry(r)) =~= enum_entries_kept(es));
    }
}

/// A constant dumped as a schema preset block and applied back with
/// presets gives its entries again, each field in place, when every entry
/// goes to a known side (entries without a name are not dumped).
pub proof fn law_const_preset_round_trip(es: Seq<ConstEntryView>)
    requires
        forall|i: int| 0 <= i < es.len() ==> (#[trigger] es[i]).export != Export::Unselected,
    ensures
        const_preset(es).map_values(|r: Seq<Seq<char>>| preset_const_entry(r)) == const_entries_kept(es),
    decreases es.len(),
{
    if es.len() > 0 {
        law_const_preset_round_trip(es.drop_last());
        let e = es.last();
        assert(e == es[es.len() - 1]);
        crate::tbl_laws::law_export_text_round_trip(e.export);
        assert(preset_const_entry(seq![e.name, e.tbl_type, e.value, e.export.spec_code(), e.desc]) == e);
        assert(const_preset(es).map_values(|r: Seq<Seq<char>>| preset_const_entry(r)) =~= const_entries_kept(es));
    } else {
        assert(const_preset(es).map_values(|r: Seq<Seq<char>>| preset_const_entry(r)) =~= const_entries_kept(es));
    }
}

// ───────────────────────── the written lines ─────────────────────────

pub open spec fn meta_line(key: Seq<char>, v: Seq<char>) -> Seq<char> {
    "# @meta "@ + key + ": "@ + v
}

pub open spec fn opt_meta_lines(key: Seq<char>, v: Seq<char>) -> Seq<Seq<char>> {
    if v.len() > 0 {
        seq![meta_line(key, v)]
    } else {
        seq![]
    }
}

/// The `# @meta` lines of a schema, in the written order.
pub open spec fn meta_lines(m: MetaView) -> Seq<Seq<char>> {
    opt_meta_lines("id"@, m.id) + (if m.name.len() > 0 && m.name != m.id {
        seq![meta_line("name"@, m.name)]
    } else {
        seq![]
    }) + opt_meta_lines("category"@, m.category) + opt_meta_lines("version"@, m.version)
        + opt_meta_lines("created_at"@, m.created_at) + opt_meta_lines("source_template"@, m.source_template)
        + opt_meta_lines("source_template_version"@, m.source_template_version)
}

pub open spec fn sep_line(k: SepKey, v: Seq<char>) -> Seq<char> {
    "# @sep "@ + k.directive_key() + " = "@ + v
}

/// The `# @sep` lines of the keys whose separator is not the default.
pub open spec fn sep_line_seq(sep: Map<SepKey, Seq<char>>, keys: Seq<SepKey>) -> Seq<Seq<char>>
    decreases keys.len(),
{
    if keys.len() == 0 {
        seq![]
    } else {
        let k = keys.last();
        sep_line_seq(sep, keys.drop_last()) + if sep[k] != k.default_value() {
            seq![sep_line(k, sep[k])]
        } else {
            seq![]
        }
    }
}

pub open spec fn field_body(f: FieldView) -> Seq<char> {
    f.name + " | "@ + f.tbl_type + " | "@ + f.export + " | "@ + f.desc
}

pub open spec fn header_line(sec: SectionView) -> Seq<char> {
    "["@ + sec.group + "/"@ + sec.name + "] "@ + mode_word(sec.mode)
}

pub open spec fn row_body(r: Seq<Seq<char>>) -> Seq<char> {
    join_with(r, " | "@)
}

/// The lines of a section: a blank line, the header, the column lines of
/// a table, and the preset block when there are rows.
pub open spec fn section_lines(sec: SectionView) -> Seq<Seq<char>> {
    seq![Seq::<char>::empty(), header_line(sec)] + (if sec.mode == SchemaMode::Table {
        sec.fields.map_values(|f: FieldView| field_body(f))
    } else {
        seq![]
    }) + (if sec.preset.len() > 0 {
        seq!["# @preset"@] + sec.preset.map_values(|r: Seq<Seq<char>>| row_body(r))
    } else {
        seq![]
    })
}

pub open spec fn sections_lines(secs: Seq<SectionView>) -> Seq<Seq<char>>
    decreases secs.len(),
{
    if secs.len() == 0 {
        seq![]
    } else {
        sections_lines(secs.drop_last()) + section_lines(secs.last())
    }
}

/// All lines of a written schema.
pub open spec fn schema_lines(m: MetaView, sep: Map<SepKey, Seq<char>>, secs: Seq<SectionView>) -> Seq<Seq<char>> {
    seq!["#!tblschema v1"@] + meta_lines(m) + (if any_preset(secs) {
        seq!["# @meta has_preset: true"@]
    } else {
        seq![]
    }) + sep_line_seq(sep, SepKey::spec_all()) + sections_lines(secs)
}

proof fn lemma_one_line(x: Seq<char>)
    ensures
        text_of_lines(seq![x]) == x + "\n"@,
{
    reveal_strlit("\n");
    assert("\n"@ =~= seq!['\n']);
    assert(seq![x].drop_last() =~= Seq::<Seq<char>>::empty());
    assert(text_of_lines(seq![x]) == text_of_lines(seq![x].drop_last()) + seq![x].last() + seq!['\n']);
    assert(text_of_lines(seq![x]) =~= x + "\n"@);
}

proof fn lemma_opt_meta_text(key: Seq<char>, v: Seq<char>)
    ensures
        opt_meta(key, v) == text_of_lines(opt_meta_lines(key, v)),
{
    if v.len() > 0 {
        lemma_one_line(meta_line(key, v));
        assert(meta_text_line(key, v) =~= meta_line(key, v) + "\n"@);
    } else {
        assert(text_of_lines(Seq::<Seq<char>>::empty()) == Seq::<char>::empty());
    }
}

proof fn lemma_meta_text(m: MetaView)
    ensures
        spec_meta_text(m) == text_of_lines(meta_lines(m)),
{
    let a = opt_meta_lines("id"@, m.id);
    let b: Seq<Seq<char>> = if m.name.len() > 0 && m.name != m.id {
        seq![meta_line("name"@, m.name)]
    } else {
        seq![]
    };
    let c = opt_meta_lines("category"@, m.category);
    let d = opt_meta_lines("version"@, m.version);
    let e = opt_meta_lines("created_at"@, m.created_at);
    let f = opt_meta_lines("source_template"@, m.source_template);
    let g = opt_meta_lines("source_template_version"@, m.source_template_version);
    lemma_opt_meta_text("id"@, m.id);
    lemma_opt_meta_text("category"@, m.category);
    lemma_opt_meta_text("version"@, m.version);
    lemma_opt_meta_text("created_at"@, m.created_at);
    lemma_opt_meta_text("source_template"@, m.source_template);
    lemma_opt_meta_text("source_template_version"@, m.source_template_version);
    if m.name.len() > 0 && m.name != m.id {
        lemma_one_line(meta_line("name"@, m.name));
        assert(meta_text_line("name"@, m.name) =~= meta_line("name"@, m.name) + "\n"@);
    }
    lemma_text_of_lines_append(a, b);
    lemma_text_of_lines_append(a + b, c);
    lemma_text_of_lines_append(a + b + c, d);
    lemma_text_of_lines_append(a + b + c + d, e);
    lemma_text_of_lines_append(a + b + c + d + e, f);
    lemma_text_of_lines_append(a + b + c + d + e + f, g);
}

proof fn lemma_sep_text(sep: Map<SepKey, Seq<char>>, keys: Seq<SepKey>)
    ensures
        sep_lines(sep, keys) == text_of_lines(sep_line_seq(sep, keys)),
    decreases keys.len(),
{
    if keys.len() > 0 {
        let k = keys.last();
        lemma_sep_text(sep, keys.drop_last());
        let rest: Seq<Seq<char>> = if sep[k] != k.default_value() {
            seq![sep_line(k, sep[k])]
        } else {
            seq![]
        };
        lemma_text_of_lines_append(sep_line_seq(sep, keys.drop_last()), rest);
        if sep[k] != k.default_value() {
            lemma_one_line(sep_line(k, sep[k]));
            assert("# @sep "@ + k.directive_key() + " = "@ + sep[k] + "\n"@ =~= sep_line(k, sep[k]) + "\n"@);
        }
    }
}

proof fn lemma_fields_text(fs: Seq<FieldView>)
    ensures
        fields_text(fs) == text_of_lines(fs.map_values(|f: FieldView| field_body(f))),
    decreases fs.len(),
{
    if fs.len() > 0 {
        lemma_fields_text(fs.drop_last());
        let m = fs.map_values(|f: FieldView| field_body(f));
        assert(m.drop_last() =~= fs.drop_last().map_values(|f: FieldView| field_body(f)));
        lemma_one_line(field_body(fs.last()));
        reveal_strlit("\n");
        assert(field_text(fs.last()) =~= field_body(fs.last()) + "\n"@);
        assert(text_of_lines(m) =~= text_of_lines(m.drop_last()) + field_body(fs.last()) + seq!['\n']);
        assert("\n"@ =~= seq!['\n']);
    }
}

proof fn lemma_rows_text(rows: Seq<Seq<Seq<char>>>)
    ensures
        rows_text(rows) == text_of_lines(rows.map_values(|r: Seq<Seq<char>>| row_body(r))),
    decreases rows.len(),
{
    if rows.len() > 0 {
        lemma_rows_text(rows.drop_last());
        let m = rows.map_values(|r: Seq<Seq<char>>| row_body(r));
        assert(m.drop_last() =~= rows.drop_last().map_values(|r: Seq<Seq<char>>| row_body(r)));
        reveal_strlit("\n");
        assert("\n"@ =~= seq!['\n']);
        assert(text_of_lines(m) =~= text_of_lines(m.drop_last()) + row_body(rows.last()) + seq!['\n']);
    }
}

proof fn lemma_section_text(sec: SectionView)
    ensures
        section_text(sec) == text_of_lines(section_lines(sec)),
{
    let a = seq![Seq::<char>::empty(), header_line(sec)];
    let b: Seq<Seq<char>> = if sec.mode == SchemaMode::Table {
        sec.fields.map_values(|f: FieldView| field_body(f))
    } else {
        seq![]
    };
    let c: Seq<Seq<char>> = if sec.preset.len() > 0 {
        seq!["# @preset"@] + sec.preset.map_values(|r: Seq<Seq<char>>| row_body(r))
    } else {
        seq![]
    };
    reveal_strlit("\n");
    reveal_strlit("\n[");
    reveal_strlit("[");
    reveal_strlit("# @preset\n");
    reveal_strlit("# @preset");
    assert(a.drop_last() =~= seq![Seq::<char>::empty()]);
    lemma_one_line(Seq::<char>::empty());
    assert(text_of_lines(a) == text_of_lines(a.drop_last()) + a.last() + seq!['\n']);
    assert("\n"@ =~= seq!['\n']);
    assert("\n["@ =~= seq!['\n'] + "["@);
    assert(text_of_lines(a) =~= "\n["@ + sec.group + "/"@ + sec.name + "] "@ + mode_word(sec.mode) + "\n"@);
    lemma_fields_text(sec.fields);
    lemma_rows_text(sec.preset);
    if sec.preset.len() > 0 {
        lemma_text_of_lines_append(seq!["# @preset"@], sec.preset.map_values(|r: Seq<Seq<char>>| row_body(r)));
        lemma_one_line("# @preset"@);
        assert("# @preset"@ + "\n"@ =~= "# @preset\n"@);
    }
    lemma_text_of_lines_append(a, b);
    lemma_text_of_lines_append(a + b, c);
}

proof fn lemma_sections_text(secs: Seq<SectionView>)
    ensures
        sections_text(secs) == text_of_lines(sections_lines(secs)),
    decreases secs.len(),
{
    if secs.len() > 0 {
        lemma_sections_text(secs.drop_last());
        lemma_section_text(secs.last());
        lemma_text_of_lines_append(sections_lines(secs.drop_last()), section_lines(secs.last()));
    }
}

/// A written schema is the text of its lines.
pub proof fn lemma_schema_text(m: MetaView, sep: Map<SepKey, Seq<char>>, secs: Seq<SectionView>)
    ensures
        spec_serialize_tblschema(crate::tblschema::SchemaView { meta: m, separators: sep, sections: secs })
            == text_of_lines(schema_lines(m, sep, secs)),
{
    let a = seq!["#!tblschema v1"@];
    let b = meta_lines(m);
    let c: Seq<Seq<char>> = if any_preset(secs) {
        seq!["# @meta has_preset: true"@]
    } else {
        seq![]
    };
    let d = sep_line_seq(sep, SepKey::spec_all());
    let e = sections_lines(secs);
    lemma_one_line("#!tblschema v1"@);
    reveal_strlit("#!tblschema v1\n");
    reveal_strlit("#!tblschema v1");
    reveal_strlit("\n");
    assert("#!tblschema v1"@ + "\n"@ =~= "#!tblschema v1\n"@);
    lemma_meta_text(m);
    if any_preset(secs) {
        lemma_one_line("# @meta has_preset: true"@);
        reveal_strlit("# @meta has_preset: true\n");
        reveal_strlit("# @meta has_preset: true");
        assert("# @meta has_preset: true"@ + "\n"@ =~= "# @meta has_preset: true\n"@);
    }
    lemma_sep_text(sep, SepKey::spec_all());
    lemma_sections_text(secs);
    lemma_text_of_lines_append(a, b);
    lemma_text_of_lines_append(a + b, c);
    lemma_text_of_lines_append(a + b + c, d);
    lemma_text_of_lines_append(a + b + c + d, e);
}

// ───────────────────────── pieces around `|` ─────────────────────────

/// A piece as written between ` | ` separators: a space before it unless it
/// is the first, a space after it unless it is the last.
pub open spec fn pad(xs: Seq<Seq<char>>, i: int) -> Seq<char> {
    (if i > 0 { seq![' '] } else { seq![] }) + xs[i] + (if i < xs.len() - 1 { seq![' '] } else { seq![] })
}

pub open spec fn padded(xs: Seq<Seq<char>>) -> Seq<Seq<char>> {
    Seq::new(xs.len(), |i: int| pad(xs, i))
}

/// Text without white space at either end.
pub open spec fn is_trimmed(x: Seq<char>) -> bool {
    trim(x) == x
}

proof fn lemma_join_pipe_push(ps: Seq<Seq<char>>, q: Seq<char>)
    requires
        ps.len() >= 1,
    ensures
        join_pipe(ps.push(q)) == join_pipe(ps) + seq!['|'] + q,
    decreases ps.len(),
{
    let pq = ps.push(q);
    if ps.len() == 1 {
        assert(pq.drop_first() =~= seq![q]);
        assert(join_pipe(seq![q]) == q);
        assert(join_pipe(ps) == ps[0]);
        assert(join_pipe(pq) == pq[0] + seq!['|'] + join_pipe(pq.drop_first()));
    } else {
        let rest = ps.drop_first();
        lemma_join_pipe_push(rest, q);
        assert(pq.drop_first() =~= rest.push(q));
        assert(join_pipe(pq) == pq[0] + seq!['|'] + join_pipe(rest.push(q)));
        assert(join_pipe(ps) == ps[0] + seq!['|'] + join_pipe(rest));
        assert(join_pipe(pq) =~= join_pipe(ps) + seq!['|'] + q);
    }
}

proof fn lemma_join_pipe_last_append(ps: Seq<Seq<char>>, y: Seq<char>)
    requires
        ps.len() >= 1,
    ensures
        join_pipe(ps.update(ps.len() - 1, ps.last() + y)) == join_pipe(ps) + y,
    decreases ps.len(),
{
    if ps.len() == 1 {
        assert(ps.update(0, ps.last() + y) =~= seq![ps[0] + y]);
    } else {
        let u = ps.update(ps.len() - 1, ps.last() + y);
        lemma_join_pipe_last_append(ps.drop_first(), y);
        assert(u.drop_first() =~= ps.drop_first().update(ps.len() - 2, ps.drop_first().last() + y));
        assert(u[0] == ps[0]);
        assert(join_pipe(u) =~= ps[0] + seq!['|'] + join_pipe(ps.drop_first()) + y);
    }
}

/// Pieces joined with ` | ` are their padded forms joined with `|`.
proof fn lemma_join_with_padded(xs: Seq<Seq<char>>)
    requires
        xs.len() >= 1,
    ensures
        join_with(xs, " | "@) == join_pipe(padded(xs)),
    decreases xs.len(),
{
    reveal_strlit(" | ");
    if xs.len() == 1 {
        assert(padded(xs) =~= seq![xs[0]]);
        assert(pad(xs, 0) =~= xs[0]);
    } else {
        let init = xs.drop_last();
        lemma_join_with_padded(init);
        let pi = padded(init);
        let px = padded(xs);
        assert(pi.update(pi.len() - 1, pi.last() + seq![' ']).push(seq![' '] + xs.last()) =~= px) by {
            assert forall|i: int| 0 <= i < px.len() implies px[i] == pi.update(pi.len() - 1, pi.last() + seq![' ']).push(
                seq![' '] + xs.last(),
            )[i] by {
                if i < xs.len() - 2 {
                    assert(pad(xs, i) =~= pad(init, i));
                } else if i == xs.len() - 2 {
                    assert(pad(xs, i) =~= pad(init, i) + seq![' ']);
                } else {
                    assert(pad(xs, i) =~= seq![' '] + xs.last());
                }
            }
        }
        lemma_join_pipe_last_append(pi, seq![' ']);
        lemma_join_pipe_push(pi.update(pi.len() - 1, pi.last() + seq![' ']), seq![' '] + xs.last());
        assert(" | "@ =~= seq![' ', '|', ' ']);
        assert(join_with(xs, " | "@) =~= join_pipe(pi) + seq![' '] + seq!['|'] + (seq![' '] + xs.last()));
    }
}

proof fn lemma_trim_start_concat(a: Seq<char>, c: Seq<char>)
    requires
        c.len() > 0,
        !is_ws(c[0]),
    ensures
        trim_start(a + c) == trim_start(a) + c,
    decreases a.len(),
{
    if a.len() == 0 {
        assert(a + c =~= c);
        assert(trim_start(a) =~= a);
    } else if is_ws(a[0]) {
        assert((a + c).drop_first() =~= a.drop_first() + c);
        lemma_trim_start_concat(a.drop_first(), c);
    } else {
        assert((a + c)[0] == a[0]);
    }
}

proof fn lemma_trim_end_concat(a: Seq<char>, c: Seq<char>)
    requires
        a.len() > 0,
        !is_ws(a.last()),
    ensures
        trim_end(a + c) == a + trim_end(c),
    decreases c.len(),
{
    if c.len() == 0 {
        assert(a + c =~= a);
        assert(trim_end(c) =~= c);
    } else if is_ws(c.last()) {
        assert((a + c).drop_last() =~= a + c.drop_last());
        lemma_trim_end_concat(a, c.drop_last());
    } else {
        assert((a + c).last() == c.last());
    }
}

proof fn lemma_trim_start_lacks(p: Seq<char>, c: char)
    requires
        lacks(p, c),
    ensures
        lacks(trim_start(p), c),
        trim_start(trim_start(p)) == trim_start(p),
    decreases p.len(),
{
    if p.len() > 0 && is_ws(p[0]) {
        assert forall|i: int| 0 <= i < p.drop_first().len() implies p.drop_first()[i] != c by {
            assert(p.drop_first()[i] == p[i + 1]);
        }
        lemma_trim_start_lacks(p.drop_first(), c);
    }
}

proof fn lemma_trim_end_lacks(p: Seq<char>, c: char)
    requires
        lacks(p, c),
    ensures
        lacks(trim_end(p), c),
    decreases p.len(),
{
    if p.len() > 0 && is_ws(p.last()) {
        assert forall|i: int| 0 <= i < p.drop_last().len() implies p.drop_last()[i] != c by {
            assert(p.drop_last()[i] == p[i]);
        }
        lemma_trim_end_lacks(p.drop_last(), c);
    }
}

/// A trimmed text padded with spaces trims back to itself, and its padded
/// ends trim away to it.
proof fn lemma_trim_padded(x: Seq<char>)
    requires
        is_trimmed(x),
    ensures
        trim(seq![' '] + x + seq![' ']) == x,
        trim(x + seq![' ']) == x,
        trim(seq![' '] + x) == x,
        trim(trim_start(x + seq![' '])) == x,
        trim(trim_end(seq![' '] + x)) == x,
        x.len() > 0 ==> !is_ws(x[0]) && !is_ws(x.last()),
{
    let sp = seq![' '];
    let e = Seq::<char>::empty();
    assert(is_ws(' '));
    assert(trim_start(e) == e);
    assert(trim_end(e) == e);
    assert(trim_start(sp) =~= e) by {
        assert(sp.drop_first() =~= e);
        assert(sp[0] == ' ');
        assert(trim_start(sp) == trim_start(sp.drop_first()));
    }
    assert(trim_end(sp) =~= e) by {
        assert(sp.drop_last() =~= e);
        assert(sp.last() == ' ');
        assert(trim_end(sp) == trim_end(sp.drop_last()));
    }
    if x.len() > 0 {
        crate::tbl_laws::lemma_trimmed_last(x);
        if is_ws(x[0]) {
            lemma_trim_start_shorter(x.drop_first());
            lemma_trim_end_shorter(trim_start(x));
            assert(false);
        }
        assert(trim_start(x) == x);
        assert(trim_end(x) == x);
        let xs = x + sp;
        let sx = sp + x;
        let sxs = sp + x + sp;
        lemma_trim_start_concat(e, xs);
        assert(e + xs =~= xs);
        assert(trim_start(e) =~= e);
        assert(trim_start(xs) == xs);
        lemma_trim_end_concat(x, sp);
        assert(x + e =~= x);
        assert(trim_end(xs) == x);
        lemma_trim_start_concat(sp, xs);
        assert(sp + xs =~= sxs);
        assert(trim_start(sxs) == xs);
        lemma_trim_start_concat(sp, x);
        assert(trim_start(sx) == x);
        lemma_trim_end_concat(sx, e);
        assert(sx + e =~= sx);
        assert(sx.last() == x.last());
        assert(trim_end(sx) == sx);
    } else {
        assert(sp + x + sp =~= seq![' ', ' ']);
        assert(x + sp =~= sp);
        assert(sp + x =~= sp);
        assert(seq![' ', ' '].drop_first() =~= sp);
        assert(trim_start(seq![' ', ' ']) == e);
        assert(trim_start(e) == e);
        assert(trim_end(e) == e);
    }
}

proof fn lemma_trim_start_shorter(x: Seq<char>)
    ensures
        trim_start(x).len() <= x.len(),
        trim_start(x).len() == x.len() ==> trim_start(x) == x,
    decreases x.len(),
{
    if x.len() > 0 && is_ws(x[0]) {
        lemma_trim_start_shorter(x.drop_first());
    }
}

proof fn lemma_trim_end_shorter(x: Seq<char>)
    ensures
        trim_end(x).len() <= x.len(),
    decreases x.len(),
{
    if x.len() > 0 && is_ws(x.last()) {
        lemma_trim_end_shorter(x.drop_last());
    }
}

/// The padded pieces once the written line is trimmed: the first loses its
/// leading, the last its trailing white space.
pub open spec fn edge_pieces(xs: Seq<Seq<char>>) -> Seq<Seq<char>> {
    let p = padded(xs);
    if xs.len() == 1 {
        p
    } else {
        p.update(0, trim_start(p[0])).update(xs.len() - 1, trim_end(p[xs.len() - 1]))
    }
}

/// Pieces fit to be written between ` | ` separators on one line.
pub open spec fn plain_pieces(xs: Seq<Seq<char>>) -> bool {
    forall|i: int| 0 <= i < xs.len() ==> is_trimmed(#[trigger] xs[i]) && lacks(xs[i], '|') && lacks(xs[i], '\n')
}

proof fn lemma_trim_join_pipe(ps: Seq<Seq<char>>)
    requires
        ps.len() >= 2,
    ensures
        trim(join_pipe(ps)) == join_pipe(
            ps.update(0, trim_start(ps[0])).update(ps.len() - 1, trim_end(ps[ps.len() - 1])),
        ),
{
    assert(!is_ws('|'));
    let k = ps.len();
    let rest = ps.drop_first();
    let jr = join_pipe(rest);
    assert(join_pipe(ps) == ps[0] + seq!['|'] + jr);
    lemma_trim_start_concat(ps[0], seq!['|'] + jr);
    assert(ps[0] + (seq!['|'] + jr) =~= ps[0] + seq!['|'] + jr);
    let ps1 = ps.update(0, trim_start(ps[0]));
    assert(ps1.drop_first() =~= rest);
    assert(join_pipe(ps1) == ps1[0] + seq!['|'] + join_pipe(ps1.drop_first()));
    assert(trim_start(join_pipe(ps)) =~= join_pipe(ps1));
    let init = ps1.drop_last();
    assert(init.push(ps1.last()) =~= ps1);
    lemma_join_pipe_push(init, ps1.last());
    lemma_trim_end_concat(join_pipe(init) + seq!['|'], ps1.last());
    let ps2 = ps1.update(k - 1, trim_end(ps[k - 1]));
    assert(ps2 =~= init.push(trim_end(ps[k - 1])));
    lemma_join_pipe_push(init, trim_end(ps[k - 1]));
    assert(ps1.last() == ps[k - 1]);
}

proof fn lemma_edge_pieces(xs: Seq<Seq<char>>)
    requires
        xs.len() >= 2 || (xs.len() == 1 && xs[0].len() > 0),
        plain_pieces(xs),
    ensures
        trim(join_with(xs, " | "@)) == join_pipe(edge_pieces(xs)),
        edge_pieces(xs).len() == xs.len(),
        forall|i: int| 0 <= i < xs.len() ==> trim(#[trigger] edge_pieces(xs)[i]) == xs[i],
        forall|i: int| 0 <= i < xs.len() ==> lacks(#[trigger] edge_pieces(xs)[i], '|'),
        forall|i: int|
            0 <= i < xs.len() ==> (lacks(xs[i], '\\') ==> lacks(#[trigger] edge_pieces(xs)[i], '\\')),
        forall|i: int| 0 <= i < xs.len() ==> lacks(#[trigger] edge_pieces(xs)[i], '\n'),
        join_pipe(edge_pieces(xs)).len() > 0,
        join_pipe(edge_pieces(xs))[0] == if xs[0].len() > 0 { xs[0][0] } else { '|' },
{
    lemma_join_with_padded(xs);
    let p = padded(xs);
    let ep = edge_pieces(xs);
    let k = xs.len();
    assert forall|i: int| 0 <= i < k implies lacks(#[trigger] p[i], '|') && lacks(p[i], '\n') && (lacks(
        xs[i],
        '\\',
    ) ==> lacks(p[i], '\\')) by {
        assert(p[i] == pad(xs, i));
        let a: Seq<char> = if i > 0 { seq![' '] } else { seq![] };
        let b: Seq<char> = if i < k - 1 { seq![' '] } else { seq![] };
        assert(pad(xs, i) == a + xs[i] + b);
        assert forall|j: int| 0 <= j < p[i].len() implies p[i][j] != '|' && p[i][j] != '\n' && (lacks(
            xs[i],
            '\\',
        ) ==> p[i][j] != '\\') by {
            if j >= a.len() && j < a.len() + xs[i].len() {
                assert(p[i][j] == xs[i][j - a.len()]);
            } else if j < a.len() {
                assert(p[i][j] == ' ');
            } else {
                assert(p[i][j] == ' ');
            }
        }
    }
    if k == 1 {
        assert(p =~= seq![xs[0]]) by {
            assert(pad(xs, 0) =~= xs[0]);
        }
        assert(join_pipe(p) == xs[0]);
        assert(trim(xs[0]) == xs[0]);
    } else {
        lemma_trim_join_pipe(p);
        assert(ep == p.update(0, trim_start(p[0])).update(k - 1, trim_end(p[k - 1])));
        assert forall|i: int| 0 <= i < k implies trim(#[trigger] ep[i]) == xs[i] && lacks(ep[i], '|') && lacks(
            ep[i],
            '\n',
        ) && (lacks(xs[i], '\\') ==> lacks(ep[i], '\\')) by {
            lemma_trim_padded(xs[i]);
            if i == 0 {
                assert(p[0] =~= xs[0] + seq![' ']);
                assert(ep[0] == trim_start(p[0]));
                lemma_trim_start_lacks(p[0], '|');
                lemma_trim_start_lacks(p[0], '\n');
                if lacks(xs[0], '\\') {
                    lemma_trim_start_lacks(p[0], '\\');
                }
            } else if i == k - 1 {
                assert(p[i] =~= seq![' '] + xs[i]);
                assert(ep[i] == trim_end(p[i]));
                lemma_trim_end_lacks(p[i], '|');
                lemma_trim_end_lacks(p[i], '\n');
                if lacks(xs[i], '\\') {
                    lemma_trim_end_lacks(p[i], '\\');
                }
            } else {
                assert(p[i] =~= seq![' '] + xs[i] + seq![' ']);
                assert(ep[i] == p[i]);
            }
        }
        let rest = ep.drop_first();
        assert(join_pipe(ep) == ep[0] + seq!['|'] + join_pipe(rest));
        assert(p[0] =~= xs[0] + seq![' ']);
        lemma_trim_padded(xs[0]);
        if xs[0].len() > 0 {
            lemma_trim_start_concat(Seq::<char>::empty(), xs[0] + seq![' ']);
            assert(Seq::<char>::empty() + (xs[0] + seq![' ']) =~= xs[0] + seq![' ']);
            assert(ep[0] == xs[0] + seq![' ']);
            assert(join_pipe(ep)[0] == ep[0][0]);
        } else {
            assert(p[0] =~= seq![' ']);
            assert(seq![' '].drop_first() =~= Seq::<char>::empty());
            assert(trim_start(seq![' ']) == trim_start(Seq::<char>::empty()));
            assert(ep[0] =~= Seq::<char>::empty());
            assert(join_pipe(ep) =~= seq!['|'] + join_pipe(rest));
        }
    }
}

proof fn lemma_split_row_join(ps: Seq<Seq<char>>)
    requires
        ps.len() >= 1,
        forall|i: int| 0 <= i < ps.len() ==> lacks(#[trigger] ps[i], '|') && lacks(ps[i], '\\'),
    ensures
        spec_split_row(join_pipe(ps)) == ps,
    decreases ps.len(),
{
    assert(lacks(ps[0], '|') && lacks(ps[0], '\\'));
    lemma_split_over_plain(ps[0], Seq::<char>::empty(), Seq::<char>::empty());
    assert(ps[0] + Seq::<char>::empty() =~= ps[0]);
    assert(Seq::<char>::empty() + ps[0] =~= ps[0]);
    if ps.len() == 1 {
        assert(spec_split_acc(Seq::<char>::empty(), ps[0]) == seq![ps[0]]);
        assert(seq![ps[0]] =~= ps);
    } else {
        let rest = ps.drop_first();
        assert forall|i: int| 0 <= i < rest.len() implies lacks(#[trigger] rest[i], '|') && lacks(rest[i], '\\') by {
            assert(rest[i] == ps[i + 1]);
        }
        lemma_split_row_join(rest);
        let tail = seq!['|'] + join_pipe(rest);
        lemma_split_over_plain(ps[0], tail, Seq::<char>::empty());
        assert(join_pipe(ps) =~= ps[0] + tail);
        lemma_split_pipe(join_pipe(rest), ps[0]);
        assert(seq![ps[0]] + rest =~= ps);
    }
}

// ───────────────────────── reading the lines back ─────────────────────────

/// Reading `a` then `b` is reading `a + b`.
proof fn lemma_parse_append(st: ParseState, a: Seq<Seq<char>>, b: Seq<Seq<char>>, n: nat)
    ensures
        parse_lines(st, a + b, n) == match parse_lines(st, a, n) {
            ParseOutcome::Next(s2) => parse_lines(s2, b, n + a.len()),
            other => other,
        },
    decreases a.len(),
{
    if a.len() == 0 {
        assert(a + b =~= b);
    } else {
        assert((a + b)[0] == a[0]);
        assert((a + b).drop_first() =~= a.drop_first() + b);
        match parse_step(st, n, a[0]) {
            ParseOutcome::Next(s2) => {
                lemma_parse_append(s2, a.drop_first(), b, n + 1);
            },
            _ => {},
        }
    }
}

proof fn lemma_parse_one(st: ParseState, l: Seq<char>, n: nat)
    ensures
        parse_lines(st, seq![l], n) == match parse_step(st, n, l) {
            ParseOutcome::Next(s2) => ParseOutcome::Next(s2),
            other => other,
        },
{
    assert(seq![l].drop_first() =~= Seq::<Seq<char>>::empty());
    assert(seq![l][0] == l);
    match parse_step(st, n, l) {
        ParseOutcome::Next(s2) => {
            assert(parse_lines(s2, Seq::<Seq<char>>::empty(), n + 1) == ParseOutcome::Next(s2));
        },
        _ => {},
    }
}

proof fn lemma_trim_space()
    ensures
        trim_start(seq![' ']) == Seq::<char>::empty(),
        trim_end(seq![' ']) == Seq::<char>::empty(),
{
    let sp = seq![' '];
    let e = Seq::<char>::empty();
    assert(is_ws(' '));
    assert(trim_start(e) == e);
    assert(trim_end(e) == e);
    assert(sp.drop_first() =~= e);
    assert(sp[0] == ' ');
    assert(trim_start(sp) == trim_start(sp.drop_first()));
    assert(sp.drop_last() =~= e);
    assert(sp.last() == ' ');
    assert(trim_end(sp) == trim_end(sp.drop_last()));
}

/// A text whose ends are not white space is its own trim.
proof fn lemma_trim_ends(x: Seq<char>)
    requires
        x.len() > 0,
        !is_ws(x[0]),
        !is_ws(x.last()),
    ensures
        trim(x) == x,
        trim_start(x) == x,
{
}

proof fn lemma_first_index_after(x: Seq<char>, y: Seq<char>, c: char)
    requires
        lacks(x, c),
        y.len() > 0,
        y[0] == c,
    ensures
        first_index(x + y, c) == Some(x.len() as int),
    decreases x.len(),
{
    if x.len() == 0 {
        assert(x + y =~= y);
    } else {
        assert((x + y)[0] == x[0]);
        assert((x + y).drop_first() =~= x.drop_first() + y);
        assert forall|i: int| 0 <= i < x.drop_first().len() implies x.drop_first()[i] != c by {
            assert(x.drop_first()[i] == x[i + 1]);
        }
        lemma_first_index_after(x.drop_first(), y, c);
    }
}

/// A text with no white space at all.
pub open spec fn no_ws(x: Seq<char>) -> bool {
    forall|i: int| 0 <= i < x.len() ==> !is_ws(#[trigger] x[i])
}

proof fn lemma_first_word_all(x: Seq<char>)
    requires
        no_ws(x),
    ensures
        first_word(x) == x,
    decreases x.len(),
{
    if x.len() > 0 {
        assert forall|i: int| 0 <= i < x.drop_first().len() implies !is_ws(#[trigger] x.drop_first()[i]) by {
            assert(x.drop_first()[i] == x[i + 1]);
        }
        lemma_first_word_all(x.drop_first());
        assert(seq![x[0]] + x.drop_first() =~= x);
    }
}

/// The comment `# <body>` after its `#`: the body, once leading white
/// space is dropped.
proof fn lemma_comment_body(body: Seq<char>)
    requires
        body.len() > 0,
        !is_ws(body[0]),
        body[0] != '#',
    ensures
        strip_hashes(seq!['#', ' '] + body) == seq![' '] + body,
        trim_start(strip_hashes(seq!['#', ' '] + body)) == body,
{
    let l = seq!['#', ' '] + body;
    assert(l.drop_first() =~= seq![' '] + body);
    assert((seq![' '] + body)[0] == ' ');
    assert(strip_hashes(seq![' '] + body) == seq![' '] + body);
    assert((seq![' '] + body).drop_first() =~= body);
    assert(is_ws(' '));
    assert(trim_start(body) == body);
}

/// A word fit as a `# @meta` key.
pub open spec fn key_word(k: Seq<char>) -> bool {
    k.len() > 0 && no_ws(k) && lacks(k, ':') && lacks(k, '=')
}

/// Text fit for a line: trimmed and without line break.
pub open spec fn plain(v: Seq<char>) -> bool {
    is_trimmed(v) && lacks(v, '\n')
}

proof fn lemma_not_preset(body: Seq<char>)
    requires
        body.len() >= 2,
        body[0] == '@',
        body[1] != 'p',
        !is_ws(body.last()),
    ensures
        !is_preset_directive(seq!['#', ' '] + body),
{
    reveal_strlit("@preset");
    assert(!is_ws(body[0]));
    lemma_comment_body(body);
    let r = trim_start(strip_hashes(seq!['#', ' '] + body));
    assert(r == body);
    assert("@preset"@[1] == 'p');
    if starts_with(r, "@preset"@) {
        assert(r.take(7)[1] == r[1]);
    }
}

proof fn lemma_directive_of(body: Seq<char>, word: Seq<char>)
    requires
        body.len() > word.len(),
        body[0] == '@',
        !is_ws(body.last()),
        body.take(word.len() as int) == word,
    ensures
        directive_body(seq!['#', ' '] + body, word) == Some(trim_start(body.skip(word.len() as int))),
{
    assert(!is_ws(body[0]));
    lemma_comment_body(body);
    let l = seq!['#', ' '] + body;
    assert(strip_hashes(l) == seq![' '] + body);
    lemma_trim_start_concat(seq![' '], body);
    lemma_trim_space();
    assert(Seq::<char>::empty() + body =~= body);
    assert(trim_start(seq![' '] + body) == body);
    assert(trim_end(body) == body);
}

proof fn lemma_no_directive(body: Seq<char>, word: Seq<char>)
    requires
        body.len() > 0,
        word.len() > 1,
        body[0] == '@',
        body.len() > 1 && word.len() > 1 ==> body[1] != word[1],
        !is_ws(body.last()),
    ensures
        directive_body(seq!['#', ' '] + body, word) is None,
{
    assert(!is_ws(body[0]));
    lemma_comment_body(body);
    lemma_trim_start_concat(seq![' '], body);
    lemma_trim_space();
    assert(Seq::<char>::empty() + body =~= body);
    assert(trim_end(body) == body);
    if starts_with(body, word) {
        assert(body.take(word.len() as int)[1] == body[1]);
    }
}

/// A `# @meta key: value` line sets that key, before the first section.
proof fn lemma_meta_step(st: ParseState, n: nat, k: Seq<char>, v: Seq<char>)
    requires
        !st.seen_section,
        key_word(k),
        plain(v),
        v.len() > 0,
    ensures
        parse_step(st, n, meta_line(k, v)) == ParseOutcome::Next(ParseState { meta: apply_meta(st.meta, k, v), ..st }),
{
    reveal_strlit("# @meta ");
    reveal_strlit("@meta ");
    reveal_strlit("@meta");
    reveal_strlit(": ");
    let body = "@meta "@ + k + ": "@ + v;
    let l = meta_line(k, v);
    assert(l =~= seq!['#', ' '] + body);
    lemma_trim_padded(v);
    assert(body.last() == v.last());
    assert(l.last() == v.last());
    lemma_trim_ends(l);
    assert(l[0] == '#');
    assert(body[0] == '@' && body[1] == 'm');
    lemma_not_preset(body);
    assert(body.take(5) =~= "@meta"@);
    lemma_directive_of(body, "@meta"@);
    let a = k + ": "@ + v;
    assert(body.skip(5) =~= seq![' '] + a);
    assert(!is_ws(k[0]));
    lemma_trim_start_concat(seq![' '], a);
    lemma_trim_space();
    assert(Seq::<char>::empty() + a =~= a);
    assert(directive_body(l, "@meta"@) == Some(a));
    lemma_first_index_after(k, ": "@ + v, ':');
    assert(k + (": "@ + v) =~= a);
    assert(a.take(k.len() as int) =~= k);
    assert(a.skip((k.len() + 1) as int) =~= seq![' '] + v);
    lemma_trim_plain(k);
    assert(spec_meta_line(l) == Some((k, v)));
}

/// The first line of a schema file changes nothing.
proof fn lemma_magic_step(st: ParseState, n: nat)
    ensures
        parse_step(st, n, "#!tblschema v1"@) == ParseOutcome::Next(st),
{
    reveal_strlit("#!tblschema v1");
    reveal_strlit("@preset");
    reveal_strlit("@meta");
    reveal_strlit("@sep");
    let l = "#!tblschema v1"@;
    let r = l.drop_first();
    assert(l[0] == '#' && l[1] == '!');
    assert(!is_ws(l.last()));
    lemma_trim_ends(l);
    assert(r[0] == '!');
    assert(strip_hashes(r) == r);
    assert(strip_hashes(l) == r);
    assert(!is_ws(r[0]));
    assert(!is_ws(r.last()));
    lemma_trim_ends(r);
    assert(!starts_with(r, "@preset"@)) by {
        if starts_with(r, "@preset"@) {
            assert(r.take(7)[0] == r[0]);
        }
    }
    assert(!starts_with(r, "@meta"@)) by {
        if starts_with(r, "@meta"@) {
            assert(r.take(5)[0] == r[0]);
        }
    }
    assert(!starts_with(r, "@sep"@)) by {
        if starts_with(r, "@sep"@) {
            assert(r.take(4)[0] == r[0]);
        }
    }
}

/// A separator key's name reads back as that key, and is a plain word.
#[verifier::rlimit(50)]
proof fn lemma_directive_key(k: SepKey)
    ensures
        key_word(k.directive_key()),
        spec_sep_key_named(k.directive_key()) == Some(k),
{
    reveal_strlit("Tuple2");
    reveal_strlit("Tuple3");
    reveal_strlit("Tuple4");
    reveal_strlit("List");
    reveal_strlit("Set");
    reveal_strlit("Map.kv");
    reveal_strlit("Map.entry");
    reveal_strlit("List_Tuple2.tuple");
    reveal_strlit("List_Tuple2.list");
    reveal_strlit("List_Tuple3.tuple");
    reveal_strlit("List_Tuple3.list");
    reveal_strlit("List_Tuple4.tuple");
    reveal_strlit("List_Tuple4.list");
    reveal_strlit("Map_Tuple2.kv");
    reveal_strlit("Map_Tuple2.tuple");
    reveal_strlit("Map_Tuple2.entry");
    reveal_strlit("Map_Tuple3.kv");
    reveal_strlit("Map_Tuple3.tuple");
    reveal_strlit("Map_Tuple3.entry");
    reveal_strlit("Map_Tuple4.kv");
    reveal_strlit("Map_Tuple4.tuple");
    reveal_strlit("Map_Tuple4.entry");
    reveal_strlit("Map_List.kv");
    reveal_strlit("Map_List.item");
    reveal_strlit("Map_List.entry");
    let w = k.directive_key();
    assert forall|i: int| 0 <= i < w.len() implies !is_ws(#[trigger] w[i]) && w[i] != ':' && w[i] != '=' by {
        match k {
            _ => {},
        }
    }
    match k {
        SepKey::Tuple2 => {

        },
        SepKey::Tuple3 => {
            assert("Tuple3"@[5] != "Tuple2"@[5]);
        },
        SepKey::Tuple4 => {
            assert("Tuple4"@[5] != "Tuple2"@[5]);
            assert("Tuple4"@[5] != "Tuple3"@[5]);
        },
        SepKey::List => {
            assert("List"@.len() != "Tuple2"@.len());
            assert("List"@.len() != "Tuple3"@.len());
            assert("List"@.len() != "Tuple4"@.len());
        },
        SepKey::SetSep => {
            assert("Set"@.len() != "Tuple2"@.len());
            assert("Set"@.len() != "Tuple3"@.len());
            assert("Set"@.len() != "Tuple4"@.len());
            assert("Set"@.len() != "List"@.len());
        },
        SepKey::MapKv => {
            assert("Map.kv"@[0] != "Tuple2"@[0]);
            assert("Map.kv"@[0] != "Tuple3"@[0]);
            assert("Map.kv"@[0] != "Tuple4"@[0]);
            assert("Map.kv"@.len() != "List"@.len());
            assert("Map.kv"@.len() != "Set"@.len());
        },
        SepKey::MapEntry => {
            assert("Map.entry"@.len() != "Tuple2"@.len());
            assert("Map.entry"@.len() != "Tuple3"@.len());
            assert("Map.entry"@.len() != "Tuple4"@.len());
            assert("Map.entry"@.len() != "List"@.len());
            assert("Map.entry"@.len() != "Set"@.len());
            assert("Map.entry"@.len() != "Map.kv"@.len());
        },
        SepKey::ListTuple2Tuple => {
            assert("List_Tuple2.tuple"@.len() != "Tuple2"@.len());
            assert("List_Tuple2.tuple"@.len() != "Tuple3"@.len());
            assert("List_Tuple2.tuple"@.len() != "Tuple4"@.len());
            assert("List_Tuple2.tuple"@.len() != "List"@.len());
            assert("List_Tuple2.tuple"@.len() != "Set"@.len());
            assert("List_Tuple2.tuple"@.len() != "Map.kv"@.len());
            assert("List_Tuple2.tuple"@.len() != "Map.entry"@.len());
        },
        SepKey::ListTuple2List => {
            assert("List_Tuple2.list"@.len() != "Tuple2"@.len());
            assert("List_Tuple2.list"@.len() != "Tuple3"@.len());
            assert("List_Tuple2.list"@.len() != "Tuple4"@.len());
            assert("List_Tuple2.list"@.len() != "List"@.len());
            assert("List_Tuple2.list"@.len() != "Set"@.len());
            assert("List_Tuple2.list"@.len() != "Map.kv"@.len());
            assert("List_Tuple2.list"@.len() != "Map.entry"@.len());
            assert("List_Tuple2.list"@.len() != "List_Tuple2.tuple"@.len());
        },
        SepKey::ListTuple3Tuple => {
            assert("List_Tuple3.tuple"@.len() != "Tuple2"@.len());
            assert("List_Tuple3.tuple"@.len() != "Tuple3"@.len());
            assert("List_Tuple3.tuple"@.len() != "Tuple4"@.len());
            assert("List_Tuple3.tuple"@.len() != "List"@.len());
            assert("List_Tuple3.tuple"@.len() != "Set"@.len());
            assert("List_Tuple3.tuple"@.len() != "Map.kv"@.len());
            assert("List_Tuple3.tuple"@.len() != "Map.entry"@.len());
            assert("List_Tuple3.tuple"@[10] != "List_Tuple2.tuple"@[10]);
            assert("List_Tuple3.tuple"@.len() != "List_Tuple2.list"@.len());
        },
        SepKey::ListTuple3List => {
            assert("List_Tuple3.list"@.len() != "Tuple2"@.len());
            assert("List_Tuple3.list"@.len() != "Tuple3"@.len());
            assert("List_Tuple3.list"@.len() != "Tuple4"@.len());
            assert("List_Tuple3.list"@.len() != "List"@.len());
            assert("List_Tuple3.list"@.len() != "Set"@.len());
            assert("List_Tuple3.list"@.len() != "Map.kv"@.len());
            assert("List_Tuple3.list"@.len() != "Map.entry"@.len());
            assert("List_Tuple3.list"@.len() != "List_Tuple2.tuple"@.len());
            assert("List_Tuple3.list"@[10] != "List_Tuple2.list"@[10]);
            assert("List_Tuple3.list"@.len() != "List_Tuple3.tuple"@.len());
        },
        SepKey::ListTuple4Tuple => {
            assert("List_Tuple4.tuple"@.len() != "Tuple2"@.len());
            assert("List_Tuple4.tuple"@.len() != "Tuple3"@.len());
            assert("List_Tuple4.tuple"@.len() != "Tuple4"@.len());
            assert("List_Tuple4.tuple"@.len() != "List"@.len());
            assert("List_Tuple4.tuple"@.len() != "Set"@.len());
            assert("List_Tuple4.tuple"@.len() != "Map.kv"@.len());
            assert("List_Tuple4.tuple"@.len() != "Map.entry"@.len());
            assert("List_Tuple4.tuple"@[10] != "List_Tuple2.tuple"@[10]);
            assert("List_Tuple4.tuple"@.len() != "List_Tuple2.list"@.len());
            assert("List_Tuple4.tuple"@[10] != "List_Tuple3.tuple"@[10]);
            assert("List_Tuple4.tuple"@.len() != "List_Tuple3.list"@.len());
        },
        SepKey::ListTuple4List => {
            assert("List_Tuple4.list"@.len() != "Tuple2"@.len());
            assert("List_Tuple4.list"@.len() != "Tuple3"@.len());
            assert("List_Tuple4.list"@.len() != "Tuple4"@.len());
            assert("List_Tuple4.list"@.len() != "List"@.len());
            assert("List_Tuple4.list"@.len() != "Set"@.len());
            assert("List_Tuple4.list"@.len() != "Map.kv"@.len());
            assert("List_Tuple4.list"@.len() != "Map.entry"@.len());
            assert("List_Tuple4.list"@.len() != "List_Tuple2.tuple"@.len());
            assert("List_Tuple4.list"@[10] != "List_Tuple2.list"@[10]);
            assert("List_Tuple4.list"@.len() != "List_Tuple3.tuple"@.len());
            assert("List_Tuple4.list"@[10] != "List_Tuple3.list"@[10]);
            assert("List_Tuple4.list"@.len() != "List_Tuple4.tuple"@.len());
        },
        SepKey::MapTuple2Kv => {
            assert("Map_Tuple2.kv"@.len() != "Tuple2"@.len());
            assert("Map_Tuple2.kv"@.len() != "Tuple3"@.len());
            assert("Map_Tuple2.kv"@.len() != "Tuple4"@.len());
            assert("Map_Tuple2.kv"@.len() != "List"@.len());
            assert("Map_Tuple2.kv"@.len() != "Set"@.len());
            assert("Map_Tuple2.kv"@.len() != "Map.kv"@.len());
            assert("Map_Tuple2.kv"@.len() != "Map.entry"@.len());
            assert("Map_Tuple2.kv"@.len() != "List_Tuple2.tuple"@.len());
            assert("Map_Tuple2.kv"@.len() != "List_Tuple2.list"@.len());
            assert("Map_Tuple2.kv"@.len() != "List_Tuple3.tuple"@.len());
            assert("Map_Tuple2.kv"@.len() != "List_Tuple3.list"@.len());
            assert("Map_Tuple2.kv"@.len() != "List_Tuple4.tuple"@.len());
            assert("Map_Tuple2.kv"@.len() != "List_Tuple4.list"@.len());
        },
        SepKey::MapTuple2Tuple => {
            assert("Map_Tuple2.tuple"@.len() != "Tuple2"@.len());
            assert("Map_Tuple2.tuple"@.len() != "Tuple3"@.len());
            assert("Map_Tuple2.tuple"@.len() != "Tuple4"@.len());
            assert("Map_Tuple2.tuple"@.len() != "List"@.len());
            assert("Map_Tuple2.tuple"@.len() != "Set"@.len());
            assert("Map_Tuple2.tuple"@.len() != "Map.kv"@.len());
            assert("Map_Tuple2.tuple"@.len() != "Map.entry"@.len());
            assert("Map_Tuple2.tuple"@.len() != "List_Tuple2.tuple"@.len());
            assert("Map_Tuple2.tuple"@[0] != "List_Tuple2.list"@[0]);
            assert("Map_Tuple2.tuple"@.len() != "List_Tuple3.tuple"@.len());
            assert("Map_Tuple2.tuple"@[0] != "List_Tuple3.list"@[0]);
            assert("Map_Tuple2.tuple"@.len() != "List_Tuple4.tuple"@.len());
            assert("Map_Tuple2.tuple"@[0] != "List_Tuple4.list"@[0]);
            assert("Map_Tuple2.tuple"@.len() != "Map_Tuple2.kv"@.len());
        },
        SepKey::MapTuple2Entry => {
            assert("Map_Tuple2.entry"@.len() != "Tuple2"@.len());
            assert("Map_Tuple2.entry"@.len() != "Tuple3"@.len());
            assert("Map_Tuple2.entry"@.len() != "Tuple4"@.len());
            assert("Map_Tuple2.entry"@.len() != "List"@.len());
            assert("Map_Tuple2.entry"@.len() != "Set"@.len());
            assert("Map_Tuple2.entry"@.len() != "Map.kv"@.len());
            assert("Map_Tuple2.entry"@.len() != "Map.entry"@.len());
            assert("Map_Tuple2.entry"@.len() != "List_Tuple2.tuple"@.len());
            assert("Map_Tuple2.entry"@[0] != "List_Tuple2.list"@[0]);
            assert("Map_Tuple2.entry"@.len() != "List_Tuple3.tuple"@.len());
            assert("Map_Tuple2.entry"@[0] != "List_Tuple3.list"@[0]);
            assert("Map_Tuple2.entry"@.len() != "List_Tuple4.tuple"@.len());
            assert("Map_Tuple2.entry"@[0] != "List_Tuple4.list"@[0]);
            assert("Map_Tuple2.entry"@.len() != "Map_Tuple2.kv"@.len());
            assert("Map_Tuple2.entry"@[11] != "Map_Tuple2.tuple"@[11]);
        },
        SepKey::MapTuple3Kv => {
            assert("Map_Tuple3.kv"@.len() != "Tuple2"@.len());
            assert("Map_Tuple3.kv"@.len() != "Tuple3"@.len());
            assert("Map_Tuple3.kv"@.len() != "Tuple4"@.len());
            assert("Map_Tuple3.kv"@.len() != "List"@.len());
            assert("Map_Tuple3.kv"@.len() != "Set"@.len());
            assert("Map_Tuple3.kv"@.len() != "Map.kv"@.len());
            assert("Map_Tuple3.kv"@.len() != "Map.entry"@.len());
            assert("Map_Tuple3.kv"@.len() != "List_Tuple2.tuple"@.len());
            assert("Map_Tuple3.kv"@.len() != "List_Tuple2.list"@.len());
            assert("Map_Tuple3.kv"@.len() != "List_Tuple3.tuple"@.len());
            assert("Map_Tuple3.kv"@.len() != "List_Tuple3.list"@.len());
            assert("Map_Tuple3.kv"@.len() != "List_Tuple4.tuple"@.len());
            assert("Map_Tuple3.kv"@.len() != "List_Tuple4.list"@.len());
            assert("Map_Tuple3.kv"@[9] != "Map_Tuple2.kv"@[9]);
            assert("Map_Tuple3.kv"@.len() != "Map_Tuple2.tuple"@.len());
            assert("Map_Tuple3.kv"@.len() != "Map_Tuple2.entry"@.len());
        },
        SepKey::MapTuple3Tuple => {
            assert("Map_Tuple3.tuple"@.len() != "Tuple2"@.len());
            assert("Map_Tuple3.tuple"@.len() != "Tuple3"@.len());
            assert("Map_Tuple3.tuple"@.len() != "Tuple4"@.len());
            assert("Map_Tuple3.tuple"@.len() != "List"@.len());
            assert("Map_Tuple3.tuple"@.len() != "Set"@.len());
            assert("Map_Tuple3.tuple"@.len() != "Map.kv"@.len());
            assert("Map_Tuple3.tuple"@.len() != "Map.entry"@.len());
            assert("Map_Tuple3.tuple"@.len() != "List_Tuple2.tuple"@.len());
            assert("Map_Tuple3.tuple"@[0] != "List_Tuple2.list"@[0]);
            assert("Map_Tuple3.tuple"@.len() != "List_Tuple3.tuple"@.len());
            assert("Map_Tuple3.tuple"@[0] != "List_Tuple3.list"@[0]);
            assert("Map_Tuple3.tuple"@.len() != "List_Tuple4.tuple"@.len());
            assert("Map_Tuple3.tuple"@[0] != "List_Tuple4.list"@[0]);
            assert("Map_Tuple3.tuple"@.len() != "Map_Tuple2.kv"@.len());
            assert("Map_Tuple3.tuple"@[9] != "Map_Tuple2.tuple"@[9]);
            assert("Map_Tuple3.tuple"@[9] != "Map_Tuple2.entry"@[9]);
            assert("Map_Tuple3.tuple"@.len() != "Map_Tuple3.kv"@.len());
        },
        SepKey::MapTuple3Entry => {
            assert("Map_Tuple3.entry"@.len() != "Tuple2"@.len());
            assert("Map_Tuple3.entry"@.len() != "Tuple3"@.len());
            assert("Map_Tuple3.entry"@.len() != "Tuple4"@.len());
            assert("Map_Tuple3.entry"@.len() != "List"@.len());
            assert("Map_Tuple3.entry"@.len() != "Set"@.len());
            assert("Map_Tuple3.entry"@.len() != "Map.kv"@.len());
            assert("Map_Tuple3.entry"@.len() != "Map.entry"@.len());
            assert("Map_Tuple3.entry"@.len() != "List_Tuple2.tuple"@.len());
            assert("Map_Tuple3.entry"@[0] != "List_Tuple2.list"@[0]);
            assert("Map_Tuple3.entry"@.len() != "List_Tuple3.tuple"@.len());
            assert("Map_Tuple3.entry"@[0] != "List_Tuple3.list"@[0]);
            assert("Map_Tuple3.entry"@.len() != "List_Tuple4.tuple"@.len());
            assert("Map_Tuple3.entry"@[0] != "List_Tuple4.list"@[0]);
            assert("Map_Tuple3.entry"@.len() != "Map_Tuple2.kv"@.len());
            assert("Map_Tuple3.entry"@[9] != "Map_Tuple2.tuple"@[9]);
            assert("Map_Tuple3.entry"@[9] != "Map_Tuple2.entry"@[9]);
            assert("Map_Tuple3.entry"@.len() != "Map_Tuple3.kv"@.len());
            assert("Map_Tuple3.entry"@[11] != "Map_Tuple3.tuple"@[11]);
        },
        SepKey::MapTuple4Kv => {
            assert("Map_Tuple4.kv"@.len() != "Tuple2"@.len());
            assert("Map_Tuple4.kv"@.len() != "Tuple3"@.len());
            assert("Map_Tuple4.kv"@.len() != "Tuple4"@.len());
            assert("Map_Tuple4.kv"@.len() != "List"@.len());
            assert("Map_Tuple4.kv"@.len() != "Set"@.len());
            assert("Map_Tuple4.kv"@.len() != "Map.kv"@.len());
            assert("Map_Tuple4.kv"@.len() != "Map.entry"@.len());
            assert("Map_Tuple4.kv"@.len() != "List_Tuple2.tuple"@.len());
            assert("Map_Tuple4.kv"@.len() != "List_Tuple2.list"@.len());
            assert("Map_Tuple4.kv"@.len() != "List_Tuple3.tuple"@.len());
            assert("Map_Tuple4.kv"@.len() != "List_Tuple3.list"@.len());
            assert("Map_Tuple4.kv"@.len() != "List_Tuple4.tuple"@.len());
            assert("Map_Tuple4.kv"@.len() != "List_Tuple4.list"@.len());
            assert("Map_Tuple4.kv"@[9] != "Map_Tuple2.kv"@[9]);
            assert("Map_Tuple4.kv"@.len() != "Map_Tuple2.tuple"@.len());
            assert("Map_Tuple4.kv"@.len() != "Map_Tuple2.entry"@.len());
            assert("Map_Tuple4.kv"@[9] != "Map_Tuple3.kv"@[9]);
            assert("Map_Tuple4.kv"@.len() != "Map_Tuple3.tuple"@.len());
            assert("Map_Tuple4.kv"@.len() != "Map_Tuple3.entry"@.len());
        },
        SepKey::MapTuple4Tuple => {
            assert("Map_Tuple4.tuple"@.len() != "Tuple2"@.len());
            assert("Map_Tuple4.tuple"@.len() != "Tuple3"@.len());
            assert("Map_Tuple4.tuple"@.len() != "Tuple4"@.len());
            assert("Map_Tuple4.tuple"@.len() != "List"@.len());
            assert("Map_Tuple4.tuple"@.len() != "Set"@.len());
            assert("Map_Tuple4.tuple"@.len() != "Map.kv"@.len());
            assert("Map_Tuple4.tuple"@.len() != "Map.entry"@.len());
            assert("Map_Tuple4.tuple"@.len() != "List_Tuple2.tuple"@.len());
            assert("Map_Tuple4.tuple"@[0] != "List_Tuple2.list"@[0]);
            assert("Map_Tuple4.tuple"@.len() != "List_Tuple3.tuple"@.len());
            assert("Map_Tuple4.tuple"@[0] != "List_Tuple3.list"@[0]);
            assert("Map_Tuple4.tuple"@.len() != "List_Tuple4.tuple"@.len());
            assert("Map_Tuple4.tuple"@[0] != "List_Tuple4.list"@[0]);
            assert("Map_Tuple4.tuple"@.len() != "Map_Tuple2.kv"@.len());
            assert("Map_Tuple4.tuple"@[9] != "Map_Tuple2.tuple"@[9]);
            assert("Map_Tuple4.tuple"@[9] != "Map_Tuple2.entry"@[9]);
            assert("Map_Tuple4.tuple"@.len() != "Map_Tuple3.kv"@.len());
            assert("Map_Tuple4.tuple"@[9] != "Map_Tuple3.tuple"@[9]);
            assert("Map_Tuple4.tuple"@[9] != "Map_Tuple3.entry"@[9]);
            assert("Map_Tuple4.tuple"@.len() != "Map_Tuple4.kv"@.len());
        },
        SepKey::MapTuple4Entry => {
            assert("Map_Tuple4.entry"@.len() != "Tuple2"@.len());
            assert("Map_Tuple4.entry"@.len() != "Tuple3"@.len());
            assert("Map_Tuple4.entry"@.len() != "Tuple4"@.len());
            assert("Map_Tuple4.entry"@.len() != "List"@.len());
            assert("Map_Tuple4.entry"@.len() != "Set"@.len());
            assert("Map_Tuple4.entry"@.len() != "Map.kv"@.len());
            assert("Map_Tuple4.entry"@.len() != "Map.entry"@.len());
            assert("Map_Tuple4.entry"@.len() != "List_Tuple2.tuple"@.len());
            assert("Map_Tuple4.entry"@[0] != "List_Tuple2.list"@[0]);
            assert("Map_Tuple4.entry"@.len() != "List_Tuple3.tuple"@.len());
            assert("Map_Tuple4.entry"@[0] != "List_Tuple3.list"@[0]);
            assert("Map_Tuple4.entry"@.len() != "List_Tuple4.tuple"@.len());
            assert("Map_Tuple4.entry"@[0] != "List_Tuple4.list"@[0]);
            assert("Map_Tuple4.entry"@.len() != "Map_Tuple2.kv"@.len());
            assert("Map_Tuple4.entry"@[9] != "Map_Tuple2.tuple"@[9]);
            assert("Map_Tuple4.entry"@[9] != "Map_Tuple2.entry"@[9]);
            assert("Map_Tuple4.entry"@.len() != "Map_Tuple3.kv"@.len());
            assert("Map_Tuple4.entry"@[9] != "Map_Tuple3.tuple"@[9]);
            assert("Map_Tuple4.entry"@[9] != "Map_Tuple3.entry"@[9]);
            assert("Map_Tuple4.entry"@.len() != "Map_Tuple4.kv"@.len());
            assert("Map_Tuple4.entry"@[11] != "Map_Tuple4.tuple"@[11]);
        },
        SepKey::MapListKv => {
            assert("Map_List.kv"@.len() != "Tuple2"@.len());
            assert("Map_List.kv"@.len() != "Tuple3"@.len());
            assert("Map_List.kv"@.len() != "Tuple4"@.len());
            assert("Map_List.kv"@.len() != "List"@.len());
            assert("Map_List.kv"@.len() != "Set"@.len());
            assert("Map_List.kv"@.len() != "Map.kv"@.len());
            assert("Map_List.kv"@.len() != "Map.entry"@.len());
            assert("Map_List.kv"@.len() != "List_Tuple2.tuple"@.len());
            assert("Map_List.kv"@.len() != "List_Tuple2.list"@.len());
            assert("Map_List.kv"@.len() != "List_Tuple3.tuple"@.len());
            assert("Map_List.kv"@.len() != "List_Tuple3.list"@.len());
            assert("Map_List.kv"@.len() != "List_Tuple4.tuple"@.len());
            assert("Map_List.kv"@.len() != "List_Tuple4.list"@.len());
            assert("Map_List.kv"@.len() != "Map_Tuple2.kv"@.len());
            assert("Map_List.kv"@.len() != "Map_Tuple2.tuple"@.len());
            assert("Map_List.kv"@.len() != "Map_Tuple2.entry"@.len());
            assert("Map_List.kv"@.len() != "Map_Tuple3.kv"@.len());
            assert("Map_List.kv"@.len() != "Map_Tuple3.tuple"@.len());
            assert("Map_List.kv"@.len() != "Map_Tuple3.entry"@.len());
            assert("Map_List.kv"@.len() != "Map_Tuple4.kv"@.len());
            assert("Map_List.kv"@.len() != "Map_Tuple4.tuple"@.len());
            assert("Map_List.kv"@.len() != "Map_Tuple4.entry"@.len());
        },
        SepKey::MapListItem => {
            assert("Map_List.item"@.len() != "Tuple2"@.len());
            assert("Map_List.item"@.len() != "Tuple3"@.len());
            assert("Map_List.item"@.len() != "Tuple4"@.len());
            assert("Map_List.item"@.len() != "List"@.len());
            assert("Map_List.item"@.len() != "Set"@.len());
            assert("Map_List.item"@.len() != "Map.kv"@.len());
            assert("Map_List.item"@.len() != "Map.entry"@.len());
            assert("Map_List.item"@.len() != "List_Tuple2.tuple"@.len());
            assert("Map_List.item"@.len() != "List_Tuple2.list"@.len());
            assert("Map_List.item"@.len() != "List_Tuple3.tuple"@.len());
            assert("Map_List.item"@.len() != "List_Tuple3.list"@.len());
            assert("Map_List.item"@.len() != "List_Tuple4.tuple"@.len());
            assert("Map_List.item"@.len() != "List_Tuple4.list"@.len());
            assert("Map_List.item"@[4] != "Map_Tuple2.kv"@[4]);
            assert("Map_List.item"@.len() != "Map_Tuple2.tuple"@.len());
            assert("Map_List.item"@.len() != "Map_Tuple2.entry"@.len());
            assert("Map_List.item"@[4] != "Map_Tuple3.kv"@[4]);
            assert("Map_List.item"@.len() != "Map_Tuple3.tuple"@.len());
            assert("Map_List.item"@.len() != "Map_Tuple3.entry"@.len());
            assert("Map_List.item"@[4] != "Map_Tuple4.kv"@[4]);
            assert("Map_List.item"@.len() != "Map_Tuple4.tuple"@.len());
            assert("Map_List.item"@.len() != "Map_Tuple4.entry"@.len());
            assert("Map_List.item"@.len() != "Map_List.kv"@.len());
        },
        SepKey::MapListEntry => {
            assert("Map_List.entry"@.len() != "Tuple2"@.len());
            assert("Map_List.entry"@.len() != "Tuple3"@.len());
            assert("Map_List.entry"@.len() != "Tuple4"@.len());
            assert("Map_List.entry"@.len() != "List"@.len());
            assert("Map_List.entry"@.len() != "Set"@.len());
            assert("Map_List.entry"@.len() != "Map.kv"@.len());
            assert("Map_List.entry"@.len() != "Map.entry"@.len());
            assert("Map_List.entry"@.len() != "List_Tuple2.tuple"@.len());
            assert("Map_List.entry"@.len() != "List_Tuple2.list"@.len());
            assert("Map_List.entry"@.len() != "List_Tuple3.tuple"@.len());
            assert("Map_List.entry"@.len() != "List_Tuple3.list"@.len());
            assert("Map_List.entry"@.len() != "List_Tuple4.tuple"@.len());
            assert("Map_List.entry"@.len() != "List_Tuple4.list"@.len());
            assert("Map_List.entry"@.len() != "Map_Tuple2.kv"@.len());
            assert("Map_List.entry"@.len() != "Map_Tuple2.tuple"@.len());
            assert("Map_List.entry"@.len() != "Map_Tuple2.entry"@.len());
            assert("Map_List.entry"@.len() != "Map_Tuple3.kv"@.len());
            assert("Map_List.entry"@.len() != "Map_Tuple3.tuple"@.len());
            assert("Map_List.entry"@.len() != "Map_Tuple3.entry"@.len());
            assert("Map_List.entry"@.len() != "Map_Tuple4.kv"@.len());
            assert("Map_List.entry"@.len() != "Map_Tuple4.tuple"@.len());
            assert("Map_List.entry"@.len() != "Map_Tuple4.entry"@.len());
            assert("Map_List.entry"@.len() != "Map_List.kv"@.len());
            assert("Map_List.entry"@.len() != "Map_List.item"@.len());
        },
    }
}

/// A `# @sep key = value` line sets that separator, before the first
/// section.
proof fn lemma_sep_step(st: ParseState, n: nat, k: SepKey, v: Seq<char>)
    requires
        !st.seen_section,
        plain(v),
    ensures
        parse_step(st, n, sep_line(k, v)) == ParseOutcome::Next(ParseState { sep: st.sep.insert(k, v), ..st }),
{
    reveal_strlit("# @sep ");
    reveal_strlit("@sep ");
    reveal_strlit("@sep");
    reveal_strlit("@meta");
    reveal_strlit(" = ");
    reveal_strlit(" =");
    lemma_directive_key(k);
    let kk = k.directive_key();
    let l = sep_line(k, v);
    let body2 = if v.len() > 0 { "@sep "@ + kk + " = "@ + v } else { "@sep "@ + kk + " ="@ };
    lemma_trim_padded(v);
    lemma_trim_space();
    if v.len() > 0 {
        assert(l =~= seq!['#', ' '] + body2);
        assert(l.last() == v.last());
        lemma_trim_ends(l);
    } else {
        let a = seq!['#', ' '] + body2;
        assert(l =~= a + seq![' ']);
        assert(a.last() == '=');
        assert(!is_ws('='));
        lemma_trim_end_concat(a, seq![' ']);
        assert(a + Seq::<char>::empty() =~= a);
        assert(trim_end(l) == a);
        assert(l[0] == '#');
        assert(!is_ws('#'));
        assert(trim_start(l) == l);
    }
    let t = seq!['#', ' '] + body2;
    assert(trim(l) == t);
    assert(body2[0] == '@' && body2[1] == 's');
    assert(!is_ws(body2.last())) by {
        if v.len() == 0 {
            assert(body2.last() == '=');
        } else {
            assert(body2.last() == v.last());
        }
    }
    lemma_not_preset(body2);
    lemma_no_directive(body2, "@meta"@);
    assert(body2.take(4) =~= "@sep"@);
    lemma_directive_of(body2, "@sep"@);
    let a = if v.len() > 0 { kk + " = "@ + v } else { kk + " ="@ };
    assert(body2.skip(4) =~= seq![' '] + a);
    assert(!is_ws(kk[0]));
    lemma_trim_start_concat(seq![' '], a);
    assert(Seq::<char>::empty() + a =~= a);
    assert(directive_body(t, "@sep"@) == Some(a));
    let ks = kk + seq![' '];
    assert(lacks(ks, '=')) by {
        assert forall|i: int| 0 <= i < ks.len() implies ks[i] != '=' by {
            if i < kk.len() {
                assert(ks[i] == kk[i]);
            }
        }
    }
    let rest = if v.len() > 0 { "= "@ + v } else { "="@ };
    reveal_strlit("= ");
    reveal_strlit("=");
    assert(ks + rest =~= a);
    lemma_first_index_after(ks, rest, '=');
    assert(a.take((kk.len() + 1) as int) =~= ks);
    lemma_trim_plain(kk);
    lemma_trim_padded(kk);
    assert(trim(ks) == kk);
    if v.len() > 0 {
        assert(a.skip((kk.len() + 2) as int) =~= seq![' '] + v);
        lemma_trim_start_concat(seq![' '], v);
        assert(Seq::<char>::empty() + v =~= v);
    } else {
        assert(a.skip((kk.len() + 2) as int) =~= Seq::<char>::empty());
        assert(v =~= Seq::<char>::empty());
    }
    assert(spec_sep_line(t) == Some((kk, v)));
    assert(spec_meta_line(t) is None);
    assert(apply_sep(st.sep, kk, v) == st.sep.insert(k, v));
}


/// A blank line changes nothing.
proof fn lemma_blank_step(st: ParseState, n: nat)
    ensures
        parse_step(st, n, Seq::<char>::empty()) == ParseOutcome::Next(st),
{
    assert(trim(Seq::<char>::empty()).len() == 0);
}

/// What a section's header may hold so that it reads back: a group
/// without `/` or `]`, a name without `]`, both trimmed and on one line.
pub open spec fn header_ok(sec: SectionView) -> bool {
    &&& plain(sec.group)
    &&& plain(sec.name)
    &&& lacks(sec.group, '/')
    &&& lacks(sec.group, ']')
    &&& lacks(sec.name, ']')
}

/// The section a reader holds once `sec` is read: constant and enum
/// sections keep no column lines.
pub open spec fn read_section(sec: SectionView) -> SectionView {
    SectionView {
        fields: if sec.mode == SchemaMode::Table { sec.fields } else { seq![] },
        ..sec
    }
}

pub open spec fn closed_sections(st: ParseState) -> Seq<SectionView> {
    match st.current {
        Some(sec) => st.sections.push(sec),
        None => st.sections,
    }
}

pub open spec fn current_clean(st: ParseState) -> bool {
    match st.current {
        Some(sec) => section_dup_error(sec) is None,
        None => true,
    }
}

proof fn lemma_mode_word(m: SchemaMode)
    ensures
        no_ws(mode_word(m)),
        mode_word(m).len() > 0,
        (if mode_word(m) == "table"@ {
            Some(SchemaMode::Table)
        } else if mode_word(m) == "constant"@ {
            Some(SchemaMode::Constant)
        } else if mode_word(m) == "enum"@ {
            Some(SchemaMode::Enum)
        } else {
            None
        }) == Some(m),
{
    reveal_strlit("table");
    reveal_strlit("constant");
    reveal_strlit("enum");
    assert("table"@.len() == 5 && "constant"@.len() == 8 && "enum"@.len() == 4);
}

/// A section header opens a new section and closes the current one.
proof fn lemma_header_step(st: ParseState, n: nat, sec: SectionView)
    requires
        header_ok(sec),
        current_clean(st),
    ensures
        parse_step(st, n, header_line(sec)) == ParseOutcome::Next(
            ParseState {
                sections: closed_sections(st),
                current: Some(SectionView { fields: seq![], preset: seq![], ..sec }),
                seen_section: true,
                in_preset: false,
                ..st
            },
        ),
{
    reveal_strlit("[");
    reveal_strlit("/");
    reveal_strlit("] ");
    let g = sec.group;
    let nm = sec.name;
    let mw = mode_word(sec.mode);
    lemma_mode_word(sec.mode);
    let t = header_line(sec);
    let pre = "["@ + g + "/"@ + nm;
    let post = "] "@ + mw;
    assert(t =~= pre + post);
    assert(t[0] == '[');
    assert(t.last() == mw.last());
    assert(!is_ws(mw.last()));
    lemma_trim_ends(t);
    assert(lacks(pre, ']')) by {
        assert forall|i: int| 0 <= i < pre.len() implies pre[i] != ']' by {
            if 1 <= i < 1 + g.len() {
                assert(pre[i] == g[i - 1]);
            } else if i > 1 + g.len() {
                assert(pre[i] == nm[i - 2 - g.len()]);
            }
        }
    }
    lemma_first_index_after(pre, post, ']');
    let e = pre.len() as int;
    let path = t.subrange(1, e);
    assert(path =~= g + ("/"@ + nm));
    lemma_first_index_after(g, "/"@ + nm, '/');
    let j = g.len() as int;
    assert(path.take(j) =~= g);
    assert(path.skip(j + 1) =~= nm);
    assert(t.skip(e + 1) =~= seq![' '] + mw);
    lemma_trim_plain(mw);
    lemma_trim_padded(mw);
    lemma_first_word_all(mw);
    assert(trim(t.skip(e + 1)) == mw);
}

/// The `# @preset` line starts the preset block of the current section.
proof fn lemma_preset_dir_step(st: ParseState, n: nat)
    requires
        st.current is Some,
    ensures
        parse_step(st, n, "# @preset"@) == ParseOutcome::Next(ParseState { in_preset: true, ..st }),
{
    reveal_strlit("# @preset");
    reveal_strlit("@preset");
    let l = "# @preset"@;
    let body = "@preset"@;
    assert(l =~= seq!['#', ' '] + body);
    assert(!is_ws(body[0]) && !is_ws(body.last()));
    lemma_trim_ends(l);
    lemma_comment_body(body);
    assert(starts_with(body, "@preset"@)) by {
        assert(body.take(7) =~= body);
    }
    assert(body.skip(7) =~= Seq::<char>::empty());
    assert(trim(Seq::<char>::empty()).len() == 0);
    assert(is_preset_directive(l));
}


pub open spec fn field_parts(f: FieldView) -> Seq<Seq<char>> {
    seq![f.name, f.tbl_type, f.export, f.desc]
}

/// What a table column may hold so that its line reads back: four trimmed
/// parts without `|` or a line break, and a name that does not start the
/// line as a comment or a header.
pub open spec fn field_ok(f: FieldView) -> bool {
    &&& plain_pieces(field_parts(f))
    &&& f.name.len() > 0 ==> f.name[0] != '#' && f.name[0] != '['
}

/// What a preset row may hold so that its line reads back: at least one
/// cell, not a single empty one, cells trimmed and without `|`, `\` or a
/// line break, and a first cell that does not start the line as a comment
/// or a header.
pub open spec fn row_ok(r: Seq<Seq<char>>) -> bool {
    &&& r.len() >= 2 || (r.len() == 1 && r[0].len() > 0)
    &&& plain_pieces(r)
    &&& forall|i: int| 0 <= i < r.len() ==> lacks(#[trigger] r[i], '\\')
    &&& r[0].len() > 0 ==> r[0][0] != '#' && r[0][0] != '['
}

proof fn lemma_field_body(f: FieldView)
    ensures
        field_body(f) == join_with(field_parts(f), " | "@),
{
    reveal_with_fuel(join_with, 4);
    let xs = field_parts(f);
    assert(xs.drop_last() =~= seq![f.name, f.tbl_type, f.export]);
    assert(xs.drop_last().drop_last() =~= seq![f.name, f.tbl_type]);
    assert(xs.drop_last().drop_last().drop_last() =~= seq![f.name]);
}

/// A column line of a table adds that column to the current section.
proof fn lemma_field_step(st: ParseState, n: nat, c: SectionView, f: FieldView)
    requires
        st.current == Some(c),
        c.mode == SchemaMode::Table,
        !st.in_preset,
        field_ok(f),
    ensures
        parse_step(st, n, field_body(f)) == ParseOutcome::Next(
            ParseState { current: Some(SectionView { fields: c.fields.push(f), ..c }), ..st },
        ),
{
    let xs = field_parts(f);
    lemma_field_body(f);
    lemma_edge_pieces(xs);
    let ep = edge_pieces(xs);
    let t = join_pipe(ep);
    assert(trim(field_body(f)) == t);
    assert(t[0] != '#' && t[0] != '[');
    lemma_split_join(ep);
    assert(split_on(t, '|') == ep);
    assert(trim(ep[0]) == f.name);
    assert(trim(ep[1]) == f.tbl_type);
    assert(trim(ep[2]) == f.export);
    assert(trim(ep[3]) == f.desc);
    assert(spec_field_line(t, n, SchemaMode::Table) == Ok::<FieldView, crate::tblschema::SchemaErrorView>(f));
}

/// A row of the preset block adds that row to the current section.
proof fn lemma_row_step(st: ParseState, n: nat, c: SectionView, r: Seq<Seq<char>>)
    requires
        st.current == Some(c),
        st.in_preset,
        row_ok(r),
    ensures
        parse_step(st, n, row_body(r)) == ParseOutcome::Next(
            ParseState { current: Some(SectionView { preset: c.preset.push(r), ..c }), ..st },
        ),
{
    lemma_edge_pieces(r);
    let ep = edge_pieces(r);
    let t = join_pipe(ep);
    assert(trim(row_body(r)) == t);
    assert(t[0] != '#' && t[0] != '[');
    assert forall|i: int| 0 <= i < ep.len() implies lacks(#[trigger] ep[i], '|') && lacks(ep[i], '\\') by {
        assert(lacks(r[i], '\\'));
    }
    lemma_split_row_join(ep);
    let cells = preset_cells(t);
    assert forall|i: int| 0 <= i < r.len() implies #[trigger] cells[i] == r[i] by {
        assert(trim(ep[i]) == r[i]);
        lemma_decode_plain_cell(r[i]);
    }
    assert(cells =~= r);
}

/// The column lines of a table add those columns, in order.
proof fn lemma_fields_lines(st: ParseState, n: nat, c: SectionView, fs: Seq<FieldView>)
    requires
        st.current == Some(c),
        c.mode == SchemaMode::Table,
        !st.in_preset,
        forall|i: int| 0 <= i < fs.len() ==> field_ok(#[trigger] fs[i]),
    ensures
        parse_lines(st, fs.map_values(|f: FieldView| field_body(f)), n) == ParseOutcome::Next(
            ParseState { current: Some(SectionView { fields: c.fields + fs, ..c }), ..st },
        ),
    decreases fs.len(),
{
    let ls = fs.map_values(|f: FieldView| field_body(f));
    if fs.len() == 0 {
        assert(ls.len() == 0);
        assert(c.fields + fs =~= c.fields);
        assert(SectionView { fields: c.fields + fs, ..c } == c);
    } else {
        let init = fs.drop_last();
        lemma_fields_lines(st, n, c, init);
        let c1 = SectionView { fields: c.fields + init, ..c };
        let st1 = ParseState { current: Some(c1), ..st };
        assert(ls =~= init.map_values(|f: FieldView| field_body(f)) + seq![field_body(fs.last())]);
        lemma_parse_append(st, init.map_values(|f: FieldView| field_body(f)), seq![field_body(fs.last())], n);
        let n1 = n + init.len();
        lemma_parse_one(st1, field_body(fs.last()), n1);
        lemma_field_step(st1, n1, c1, fs.last());
        assert(c1.fields.push(fs.last()) =~= c.fields + fs);
    }
}

/// The rows of a preset block add those rows, in order.
proof fn lemma_rows_lines(st: ParseState, n: nat, c: SectionView, rs: Seq<Seq<Seq<char>>>)
    requires
        st.current == Some(c),
        st.in_preset,
        forall|i: int| 0 <= i < rs.len() ==> row_ok(#[trigger] rs[i]),
    ensures
        parse_lines(st, rs.map_values(|r: Seq<Seq<char>>| row_body(r)), n) == ParseOutcome::Next(
            ParseState { current: Some(SectionView { preset: c.preset + rs, ..c }), ..st },
        ),
    decreases rs.len(),
{
    let ls = rs.map_values(|r: Seq<Seq<char>>| row_body(r));
    if rs.len() == 0 {
        assert(ls.len() == 0);
        assert(c.preset + rs =~= c.preset);
        assert(SectionView { preset: c.preset + rs, ..c } == c);
    } else {
        let init = rs.drop_last();
        lemma_rows_lines(st, n, c, init);
        let c1 = SectionView { preset: c.preset + init, ..c };
        let st1 = ParseState { current: Some(c1), ..st };
        assert(ls =~= init.map_values(|r: Seq<Seq<char>>| row_body(r)) + seq![row_body(rs.last())]);
        lemma_parse_append(st, init.map_values(|r: Seq<Seq<char>>| row_body(r)), seq![row_body(rs.last())], n);
        let n1 = n + init.len();
        lemma_parse_one(st1, row_body(rs.last()), n1);
        lemma_row_step(st1, n1, c1, rs.last());
        assert(c1.preset.push(rs.last()) =~= c.preset + rs);
    }
}


/// What a section may hold so that its lines read back.
pub open spec fn section_ok(sec: SectionView) -> bool {
    &&& header_ok(sec)
    &&& sec.mode == SchemaMode::Table ==> first_dup_name(sec.fields) is None
        && forall|i: int| 0 <= i < sec.fields.len() ==> field_ok(#[trigger] sec.fields[i])
    &&& forall|i: int| 0 <= i < sec.preset.len() ==> row_ok(#[trigger] sec.preset[i])
}

proof fn lemma_read_section_clean(sec: SectionView)
    requires
        section_ok(sec),
    ensures
        section_dup_error(read_section(sec)) is None,
{
    if sec.mode != SchemaMode::Table {
        assert(first_dup_name(Seq::<FieldView>::empty()) is None);
    }
}

/// The lines of one section close the current section and leave `sec`
/// open, as the reader keeps it.
proof fn lemma_section_lines(st: ParseState, n: nat, sec: SectionView)
    requires
        current_clean(st),
        section_ok(sec),
    ensures
        parse_lines(st, section_lines(sec), n) == ParseOutcome::Next(
            ParseState {
                sections: closed_sections(st),
                current: Some(read_section(sec)),
                seen_section: true,
                in_preset: sec.preset.len() > 0,
                ..st
            },
        ),
{
    let a = seq![Seq::<char>::empty(), header_line(sec)];
    let b: Seq<Seq<char>> = if sec.mode == SchemaMode::Table {
        sec.fields.map_values(|f: FieldView| field_body(f))
    } else {
        seq![]
    };
    let rows = sec.preset.map_values(|r: Seq<Seq<char>>| row_body(r));
    let c: Seq<Seq<char>> = if sec.preset.len() > 0 {
        seq!["# @preset"@] + rows
    } else {
        seq![]
    };
    assert(section_lines(sec) == a + b + c);
    lemma_parse_append(st, a + b, c, n);
    lemma_parse_append(st, a, b, n);
    assert(a =~= seq![Seq::<char>::empty()] + seq![header_line(sec)]);
    lemma_parse_append(st, seq![Seq::<char>::empty()], seq![header_line(sec)], n);
    lemma_parse_one(st, Seq::<char>::empty(), n);
    lemma_blank_step(st, n);
    lemma_parse_one(st, header_line(sec), n + 1);
    lemma_header_step(st, n + 1, sec);
    let c0 = SectionView { fields: seq![], preset: seq![], ..sec };
    let st1 = ParseState {
        sections: closed_sections(st),
        current: Some(c0),
        seen_section: true,
        in_preset: false,
        ..st
    };
    assert(parse_lines(st, a, n) == ParseOutcome::Next(st1));
    let c1 = SectionView { fields: if sec.mode == SchemaMode::Table { sec.fields } else { seq![] }, ..c0 };
    let st2 = ParseState { current: Some(c1), ..st1 };
    if sec.mode == SchemaMode::Table {
        lemma_fields_lines(st1, n + 2, c0, sec.fields);
        assert(Seq::<FieldView>::empty() + sec.fields =~= sec.fields);
    } else {
        assert(b.len() == 0);
        assert(c1 == c0);
    }
    assert(parse_lines(st1, b, n + a.len()) == ParseOutcome::Next(st2));
    let n2 = n + (a + b).len();
    if sec.preset.len() > 0 {
        lemma_parse_append(st2, seq!["# @preset"@], rows, n2);
        lemma_parse_one(st2, "# @preset"@, n2);
        lemma_preset_dir_step(st2, n2);
        let st3 = ParseState { in_preset: true, ..st2 };
        lemma_rows_lines(st3, n2 + 1, c1, sec.preset);
        assert(Seq::<Seq<Seq<char>>>::empty() + sec.preset =~= sec.preset);
        assert(SectionView { preset: c1.preset + sec.preset, ..c1 } == read_section(sec));
    } else {
        assert(c.len() == 0);
        assert(sec.preset =~= Seq::<Seq<Seq<char>>>::empty());
        assert(c1 == read_section(sec));
    }
}

/// The lines of all sections leave every section but the last closed, in
/// order, and the last one open.
proof fn lemma_sections_lines(st: ParseState, n: nat, secs: Seq<SectionView>)
    requires
        current_clean(st),
        forall|i: int| 0 <= i < secs.len() ==> section_ok(#[trigger] secs[i]),
    ensures
        secs.len() == 0 ==> parse_lines(st, sections_lines(secs), n) == ParseOutcome::Next(st),
        secs.len() > 0 ==> parse_lines(st, sections_lines(secs), n) == ParseOutcome::Next(
            ParseState {
                sections: closed_sections(st) + secs.drop_last().map_values(|x: SectionView| read_section(x)),
                current: Some(read_section(secs.last())),
                seen_section: true,
                in_preset: secs.last().preset.len() > 0,
                ..st
            },
        ),
    decreases secs.len(),
{
    if secs.len() > 0 {
        let init = secs.drop_last();
        lemma_sections_lines(st, n, init);
        lemma_parse_append(st, sections_lines(init), section_lines(secs.last()), n);
        let n1 = n + sections_lines(init).len();
        assert(section_ok(secs[secs.len() - 1]));
        if init.len() == 0 {
            lemma_section_lines(st, n1, secs.last());
            assert(secs.drop_last().map_values(|x: SectionView| read_section(x)) =~= Seq::<SectionView>::empty());
            assert(closed_sections(st) + Seq::<SectionView>::empty() =~= closed_sections(st));
        } else {
            let s1 = ParseState {
                sections: closed_sections(st) + init.drop_last().map_values(|x: SectionView| read_section(x)),
                current: Some(read_section(init.last())),
                seen_section: true,
                in_preset: init.last().preset.len() > 0,
                ..st
            };
            assert(section_ok(secs[init.len() - 1]));
            lemma_read_section_clean(init.last());
            lemma_section_lines(s1, n1, secs.last());
            assert(closed_sections(s1) =~= closed_sections(st) + init.map_values(|x: SectionView| read_section(x)));
        }
    }
}


// ───────────────────────── the head of the file ─────────────────────────

/// What a metadata value may hold so that it reads back.
pub open spec fn meta_ok(m: MetaView) -> bool {
    &&& plain(m.id)
    &&& plain(m.name)
    &&& plain(m.category)
    &&& plain(m.version)
    &&& plain(m.created_at)
    &&& plain(m.source_template)
    &&& plain(m.source_template_version)
}

proof fn lemma_meta_keys(m: MetaView, v: Seq<char>)
    ensures
        apply_meta(m, "id"@, v) == (MetaView { id: v, ..m }),
        apply_meta(m, "name"@, v) == (MetaView { name: v, ..m }),
        apply_meta(m, "category"@, v) == (MetaView { category: v, ..m }),
        apply_meta(m, "version"@, v) == (MetaView { version: v, ..m }),
        apply_meta(m, "created_at"@, v) == (MetaView { created_at: v, ..m }),
        apply_meta(m, "source_template"@, v) == (MetaView { source_template: v, ..m }),
        apply_meta(m, "source_template_version"@, v) == (MetaView { source_template_version: v, ..m }),
        apply_meta(m, "has_preset"@, v) == (MetaView { has_preset: crate::tblschema::is_true_word(v), ..m }),
        key_word("id"@),
        key_word("name"@),
        key_word("category"@),
        key_word("version"@),
        key_word("created_at"@),
        key_word("source_template"@),
        key_word("source_template_version"@),
        key_word("has_preset"@),
{
    reveal_strlit("id");
    reveal_strlit("name");
    reveal_strlit("category");
    reveal_strlit("version");
    reveal_strlit("created_at");
    reveal_strlit("source_template");
    reveal_strlit("source_template_version");
    reveal_strlit("has_preset");
    assert("has_preset"@[0] != "created_at"@[0]);
    let ks = seq!["id"@, "name"@, "category"@, "version"@, "created_at"@, "source_template"@, "source_template_version"@, "has_preset"@];
    assert forall|j: int| 0 <= j < ks.len() implies key_word(#[trigger] ks[j]) by {
        let w = ks[j];
        assert forall|i: int| 0 <= i < w.len() implies !is_ws(#[trigger] w[i]) && w[i] != ':' && w[i] != '=' by {
            if j == 0 {} else if j == 1 {} else if j == 2 {} else if j == 3 {} else if j == 4 {} else if j == 5 {} else if j == 6 {} else {}
        }
    }
    assert(key_word(ks[0]) && key_word(ks[1]) && key_word(ks[2]) && key_word(ks[3]));
    assert(key_word(ks[4]) && key_word(ks[5]) && key_word(ks[6]) && key_word(ks[7]));
}

/// A metadata line that is written only for a non-empty value.
proof fn lemma_opt_meta_lines(st: ParseState, n: nat, k: Seq<char>, v: Seq<char>)
    requires
        !st.seen_section,
        key_word(k),
        plain(v),
    ensures
        parse_lines(st, opt_meta_lines(k, v), n) == ParseOutcome::Next(
            if v.len() > 0 { ParseState { meta: apply_meta(st.meta, k, v), ..st } } else { st },
        ),
{
    if v.len() > 0 {
        lemma_parse_one(st, meta_line(k, v), n);
        lemma_meta_step(st, n, k, v);
    }
}

/// The metadata lines set each written field; an unwritten field keeps the
/// empty value it starts with.
#[verifier::rlimit(40)]
proof fn lemma_meta_lines(st: ParseState, n: nat, m: MetaView)
    requires
        !st.seen_section,
        st.meta == crate::tblschema::empty_meta(),
        meta_ok(m),
    ensures
        parse_lines(st, meta_lines(m), n) == ParseOutcome::Next(
            ParseState {
                meta: MetaView {
                    name: if m.name.len() > 0 && m.name != m.id { m.name } else { seq![] },
                    has_preset: false,
                    ..m
                },
                ..st
            },
        ),
{
    let e = crate::tblschema::empty_meta();
    let a = opt_meta_lines("id"@, m.id);
    let b: Seq<Seq<char>> = if m.name.len() > 0 && m.name != m.id {
        seq![meta_line("name"@, m.name)]
    } else {
        seq![]
    };
    let c = opt_meta_lines("category"@, m.category);
    let d = opt_meta_lines("version"@, m.version);
    let f = opt_meta_lines("created_at"@, m.created_at);
    let g = opt_meta_lines("source_template"@, m.source_template);
    let h = opt_meta_lines("source_template_version"@, m.source_template_version);
    lemma_meta_keys(e, m.id);
    let m1 = MetaView { id: m.id, ..e };
    let s1 = ParseState { meta: m1, ..st };
    lemma_opt_meta_lines(st, n, "id"@, m.id);
    if m.id.len() == 0 {
        assert(m.id =~= e.id);
        assert(st == s1);
    }
    assert(parse_lines(st, a, n) == ParseOutcome::Next(s1));
    let nm = if m.name.len() > 0 && m.name != m.id { m.name } else { seq![] };
    let m2 = MetaView { name: nm, ..m1 };
    let s2 = ParseState { meta: m2, ..st };
    lemma_meta_keys(m1, m.name);
    if m.name.len() > 0 && m.name != m.id {
        lemma_parse_one(s1, meta_line("name"@, m.name), n + a.len());
        lemma_meta_step(s1, n + a.len(), "name"@, m.name);
    }
    assert(parse_lines(s1, b, n + a.len()) == ParseOutcome::Next(s2));
    lemma_parse_append(st, a, b, n);
    let m3 = MetaView { category: m.category, ..m2 };
    let s3 = ParseState { meta: m3, ..st };
    lemma_meta_keys(m2, m.category);
    lemma_opt_meta_lines(s2, n + (a + b).len(), "category"@, m.category);
    if m.category.len() == 0 {
        assert(m.category =~= e.category);
        assert(s2 == s3);
    }
    lemma_parse_append(st, a + b, c, n);
    let m4 = MetaView { version: m.version, ..m3 };
    let s4 = ParseState { meta: m4, ..st };
    lemma_meta_keys(m3, m.version);
    lemma_opt_meta_lines(s3, n + (a + b + c).len(), "version"@, m.version);
    if m.version.len() == 0 {
        assert(m.version =~= e.version);
        assert(s3 == s4);
    }
    lemma_parse_append(st, a + b + c, d, n);
    let m5 = MetaView { created_at: m.created_at, ..m4 };
    let s5 = ParseState { meta: m5, ..st };
    lemma_meta_keys(m4, m.created_at);
    lemma_opt_meta_lines(s4, n + (a + b + c + d).len(), "created_at"@, m.created_at);
    if m.created_at.len() == 0 {
        assert(m.created_at =~= e.created_at);
        assert(s4 == s5);
    }
    lemma_parse_append(st, a + b + c + d, f, n);
    let m6 = MetaView { source_template: m.source_template, ..m5 };
    let s6 = ParseState { meta: m6, ..st };
    lemma_meta_keys(m5, m.source_template);
    lemma_opt_meta_lines(s5, n + (a + b + c + d + f).len(), "source_template"@, m.source_template);
    if m.source_template.len() == 0 {
        assert(m.source_template =~= e.source_template);
        assert(s5 == s6);
    }
    lemma_parse_append(st, a + b + c + d + f, g, n);
    let m7 = MetaView { source_template_version: m.source_template_version, ..m6 };
    lemma_meta_keys(m6, m.source_template_version);
    lemma_opt_meta_lines(s6, n + (a + b + c + d + f + g).len(), "source_template_version"@, m.source_template_version);
    let s7 = ParseState { meta: m7, ..st };
    if m.source_template_version.len() == 0 {
        assert(m.source_template_version =~= e.source_template_version);
        assert(s6 == s7);
    }
    lemma_parse_append(st, a + b + c + d + f + g, h, n);
    assert(meta_lines(m) == a + b + c + d + f + g + h);
    assert(m7 == MetaView { name: nm, has_preset: false, ..m });
}

/// What the separators hold after the `# @sep` lines of `keys`, starting
/// from `start`.
pub open spec fn sep_fold(start: Map<SepKey, Seq<char>>, sep: Map<SepKey, Seq<char>>, keys: Seq<SepKey>) -> Map<SepKey, Seq<char>>
    decreases keys.len(),
{
    if keys.len() == 0 {
        start
    } else {
        let k = keys.last();
        let prev = sep_fold(start, sep, keys.drop_last());
        if sep[k] != k.default_value() {
            prev.insert(k, sep[k])
        } else {
            prev
        }
    }
}

proof fn lemma_sep_lines(st: ParseState, n: nat, sep: Map<SepKey, Seq<char>>, keys: Seq<SepKey>)
    requires
        !st.seen_section,
        forall|i: int| 0 <= i < keys.len() ==> plain(#[trigger] sep[keys[i]]),
    ensures
        parse_lines(st, sep_line_seq(sep, keys), n) == ParseOutcome::Next(
            ParseState { sep: sep_fold(st.sep, sep, keys), ..st },
        ),
    decreases keys.len(),
{
    if keys.len() > 0 {
        let k = keys.last();
        let init = keys.drop_last();
        assert forall|i: int| 0 <= i < init.len() implies plain(#[trigger] sep[init[i]]) by {
            assert(init[i] == keys[i]);
        }
        lemma_sep_lines(st, n, sep, init);
        let s1 = ParseState { sep: sep_fold(st.sep, sep, init), ..st };
        let rest: Seq<Seq<char>> = if sep[k] != k.default_value() {
            seq![sep_line(k, sep[k])]
        } else {
            seq![]
        };
        lemma_parse_append(st, sep_line_seq(sep, init), rest, n);
        if sep[k] != k.default_value() {
            assert(plain(sep[keys[keys.len() - 1]]));
            let n1 = n + sep_line_seq(sep, init).len();
            lemma_parse_one(s1, sep_line(k, sep[k]), n1);
            lemma_sep_step(s1, n1, k, sep[k]);
        }
    }
}

proof fn lemma_sep_fold_value(sep: Map<SepKey, Seq<char>>, keys: Seq<SepKey>, k: SepKey)
    ensures
        sep_fold(crate::tblschema::default_sep_view(), sep, keys).dom().contains(k),
        sep_fold(crate::tblschema::default_sep_view(), sep, keys)[k] == if keys.contains(k) {
            sep[k]
        } else {
            k.default_value()
        },
    decreases keys.len(),
{
    if keys.len() > 0 {
        lemma_sep_fold_value(sep, keys.drop_last(), k);
        let l = keys.last();
        if keys.drop_last().contains(k) {
            let i = choose|i: int| 0 <= i < keys.drop_last().len() && keys.drop_last()[i] == k;
            assert(keys[i] == k);
        }
        if keys.contains(k) && k != l {
            let i = choose|i: int| 0 <= i < keys.len() && keys[i] == k;
            assert(keys.drop_last()[i] == k);
        }
        if k == l {
            assert(keys[keys.len() - 1] == k);
        }
    }
}

proof fn lemma_spec_all_has(k: SepKey)
    ensures
        SepKey::spec_all().contains(k),
{
    match k {
        SepKey::Tuple2 => {
            assert(SepKey::spec_all()[0] == SepKey::Tuple2);
        },
        SepKey::Tuple3 => {
            assert(SepKey::spec_all()[1] == SepKey::Tuple3);
        },
        SepKey::Tuple4 => {
            assert(SepKey::spec_all()[2] == SepKey::Tuple4);
        },
        SepKey::List => {
            assert(SepKey::spec_all()[3] == SepKey::List);
        },
        SepKey::SetSep => {
            assert(SepKey::spec_all()[4] == SepKey::SetSep);
        },
        SepKey::MapKv => {
            assert(SepKey::spec_all()[5] == SepKey::MapKv);
        },
        SepKey::MapEntry => {
            assert(SepKey::spec_all()[6] == SepKey::MapEntry);
        },
        SepKey::ListTuple2Tuple => {
            assert(SepKey::spec_all()[7] == SepKey::ListTuple2Tuple);
        },
        SepKey::ListTuple2List => {
            assert(SepKey::spec_all()[8] == SepKey::ListTuple2List);
        },
        SepKey::ListTuple3Tuple => {
            assert(SepKey::spec_all()[9] == SepKey::ListTuple3Tuple);
        },
        SepKey::ListTuple3List => {
            assert(SepKey::spec_all()[10] == SepKey::ListTuple3List);
        },
        SepKey::ListTuple4Tuple => {
            assert(SepKey::spec_all()[11] == SepKey::ListTuple4Tuple);
        },
        SepKey::ListTuple4List => {
            assert(SepKey::spec_all()[12] == SepKey::ListTuple4List);
        },
        SepKey::MapTuple2Kv => {
            assert(SepKey::spec_all()[13] == SepKey::MapTuple2Kv);
        },
        SepKey::MapTuple2Tuple => {
            assert(SepKey::spec_all()[14] == SepKey::MapTuple2Tuple);
        },
        SepKey::MapTuple2Entry => {
            assert(SepKey::spec_all()[15] == SepKey::MapTuple2Entry);
        },
        SepKey::MapTuple3Kv => {
            assert(SepKey::spec_all()[16] == SepKey::MapTuple3Kv);
        },
        SepKey::MapTuple3Tuple => {
            assert(SepKey::spec_all()[17] == SepKey::MapTuple3Tuple);
        },
        SepKey::MapTuple3Entry => {
            assert(SepKey::spec_all()[18] == SepKey::MapTuple3Entry);
        },
        SepKey::MapTuple4Kv => {
            assert(SepKey::spec_all()[19] == SepKey::MapTuple4Kv);
        },
        SepKey::MapTuple4Tuple => {
            assert(SepKey::spec_all()[20] == SepKey::MapTuple4Tuple);
        },
        SepKey::MapTuple4Entry => {
            assert(SepKey::spec_all()[21] == SepKey::MapTuple4Entry);
        },
        SepKey::MapListKv => {
            assert(SepKey::spec_all()[22] == SepKey::MapListKv);
        },
        SepKey::MapListItem => {
            assert(SepKey::spec_all()[23] == SepKey::MapListItem);
        },
        SepKey::MapListEntry => {
            assert(SepKey::spec_all()[24] == SepKey::MapListEntry);
        },
    }
}

/// The `# @sep` lines of a written schema give back its separators.
proof fn lemma_sep_read_back(st: ParseState, n: nat, sep: Map<SepKey, Seq<char>>)
    requires
        !st.seen_section,
        st.sep == crate::tblschema::default_sep_view(),
        forall|k: SepKey| #[trigger] sep.dom().contains(k),
        forall|k: SepKey| plain(#[trigger] sep[k]),
    ensures
        parse_lines(st, sep_line_seq(sep, SepKey::spec_all()), n) == ParseOutcome::Next(
            ParseState { sep, ..st },
        ),
{
    let keys = SepKey::spec_all();
    assert forall|i: int| 0 <= i < keys.len() implies plain(#[trigger] sep[keys[i]]) by {
        assert(plain(sep[keys[i]]));
    }
    lemma_sep_lines(st, n, sep, keys);
    let f = sep_fold(st.sep, sep, keys);
    assert forall|k: SepKey| f.dom().contains(k) && f[k] == sep[k] by {
        lemma_sep_fold_value(sep, keys, k);
        lemma_spec_all_has(k);
        assert(sep.dom().contains(k));
    }
    assert(f =~= sep) by {
        assert forall|k: SepKey| #[trigger] f.dom().contains(k) <==> sep.dom().contains(k) by {
            lemma_sep_fold_value(sep, keys, k);
            assert(sep.dom().contains(k));
        }
    }
}


// ───────────────────────── one line each ─────────────────────────

/// A line that the text keeps apart and gives back as written: no line
/// break in it and no carriage return at its end.
pub open spec fn line_ok(l: Seq<char>) -> bool {
    lacks(l, '\n') && (l.len() > 0 ==> l.last() != '\r')
}

pub open spec fn lines_ok(ls: Seq<Seq<char>>) -> bool {
    forall|i: int| 0 <= i < ls.len() ==> line_ok(#[trigger] ls[i])
}

proof fn lemma_lines_ok_append(a: Seq<Seq<char>>, b: Seq<Seq<char>>)
    requires
        lines_ok(a),
        lines_ok(b),
    ensures
        lines_ok(a + b),
{
    assert forall|i: int| 0 <= i < (a + b).len() implies line_ok(#[trigger] (a + b)[i]) by {
        if i < a.len() {
            assert((a + b)[i] == a[i]);
        } else {
            assert((a + b)[i] == b[i - a.len()]);
        }
    }
}

proof fn lemma_lacks_append(a: Seq<char>, b: Seq<char>, c: char)
    requires
        lacks(a, c),
        lacks(b, c),
    ensures
        lacks(a + b, c),
{
    assert forall|i: int| 0 <= i < (a + b).len() implies (a + b)[i] != c by {
        if i < a.len() {
            assert((a + b)[i] == a[i]);
        } else {
            assert((a + b)[i] == b[i - a.len()]);
        }
    }
}

/// `a + b` is a line when both are, `b` being non-empty.
proof fn lemma_line_ok_append(a: Seq<char>, b: Seq<char>)
    requires
        lacks(a, '\n'),
        line_ok(b),
        b.len() > 0,
    ensures
        line_ok(a + b),
{
    lemma_lacks_append(a, b, '\n');
    assert((a + b).last() == b.last());
}

proof fn lemma_plain_line(v: Seq<char>)
    requires
        plain(v),
    ensures
        line_ok(v),
{
    lemma_trim_padded(v);
}

proof fn lemma_literal_lines()
    ensures
        line_ok("#!tblschema v1"@),
        line_ok("# @meta has_preset: true"@),
        line_ok("# @preset"@),
        line_ok(Seq::<char>::empty()),
        lacks("# @meta "@, '\n'),
        lacks(": "@, '\n'),
        lacks("# @sep "@, '\n'),
        lacks(" = "@, '\n'),
        line_ok(" ="@),
        lacks("["@, '\n'),
        lacks("/"@, '\n'),
        lacks("] "@, '\n'),
        lacks(" | "@, '\n'),
        line_ok(" | "@),
        " | "@.len() == 3,
{
    reveal_strlit("#!tblschema v1");
    reveal_strlit("# @meta has_preset: true");
    reveal_strlit("# @preset");
    reveal_strlit("# @meta ");
    reveal_strlit(": ");
    reveal_strlit("# @sep ");
    reveal_strlit(" = ");
    reveal_strlit(" =");
    reveal_strlit("[");
    reveal_strlit("/");
    reveal_strlit("] ");
    reveal_strlit(" | ");
}

proof fn lemma_join_line(xs: Seq<Seq<char>>)
    requires
        xs.len() >= 1,
        forall|i: int| 0 <= i < xs.len() ==> line_ok(#[trigger] xs[i]),
    ensures
        line_ok(join_with(xs, " | "@)),
    decreases xs.len(),
{
    lemma_literal_lines();
    if xs.len() == 1 {
        assert(line_ok(xs[0]));
    } else {
        let init = xs.drop_last();
        assert forall|i: int| 0 <= i < init.len() implies line_ok(#[trigger] init[i]) by {
            assert(init[i] == xs[i]);
        }
        lemma_join_line(init);
        assert(line_ok(xs[xs.len() - 1]));
        let j = join_with(init, " | "@);
        lemma_lacks_append(j, " | "@, '\n');
        if xs.last().len() > 0 {
            lemma_line_ok_append(j + " | "@, xs.last());
        } else {
            assert(j + " | "@ + xs.last() =~= j + " | "@);
            lemma_line_ok_append(j, " | "@);
        }
    }
}

proof fn lemma_meta_lines_ok(m: MetaView)
    requires
        meta_ok(m),
    ensures
        lines_ok(meta_lines(m)),
{
    lemma_literal_lines();
    reveal_strlit("id");
    reveal_strlit("name");
    reveal_strlit("category");
    reveal_strlit("version");
    reveal_strlit("created_at");
    reveal_strlit("source_template");
    reveal_strlit("source_template_version");
    let ks = seq!["id"@, "name"@, "category"@, "version"@, "created_at"@, "source_template"@, "source_template_version"@];
    let vs = seq![m.id, m.name, m.category, m.version, m.created_at, m.source_template, m.source_template_version];
    assert forall|j: int| 0 <= j < 7 implies line_ok(meta_line(#[trigger] ks[j], vs[j])) || vs[j].len() == 0 by {
        let k = ks[j];
        let v = vs[j];
        if v.len() > 0 {
            assert(plain(v));
            lemma_plain_line(v);
            assert(lacks(k, '\n')) by {
                if j == 0 {} else if j == 1 {} else if j == 2 {} else if j == 3 {} else if j == 4 {} else if j == 5 {} else {}
            }
            lemma_lacks_append("# @meta "@, k, '\n');
            lemma_lacks_append("# @meta "@ + k, ": "@, '\n');
            lemma_line_ok_append("# @meta "@ + k + ": "@, v);
        }
    }
    let a = opt_meta_lines("id"@, m.id);
    let b: Seq<Seq<char>> = if m.name.len() > 0 && m.name != m.id {
        seq![meta_line("name"@, m.name)]
    } else {
        seq![]
    };
    let c = opt_meta_lines("category"@, m.category);
    let d = opt_meta_lines("version"@, m.version);
    let f = opt_meta_lines("created_at"@, m.created_at);
    let g = opt_meta_lines("source_template"@, m.source_template);
    let h = opt_meta_lines("source_template_version"@, m.source_template_version);
    assert(line_ok(meta_line(ks[0], vs[0])) || vs[0].len() == 0);
    assert(line_ok(meta_line(ks[1], vs[1])) || vs[1].len() == 0);
    assert(line_ok(meta_line(ks[2], vs[2])) || vs[2].len() == 0);
    assert(line_ok(meta_line(ks[3], vs[3])) || vs[3].len() == 0);
    assert(line_ok(meta_line(ks[4], vs[4])) || vs[4].len() == 0);
    assert(line_ok(meta_line(ks[5], vs[5])) || vs[5].len() == 0);
    assert(line_ok(meta_line(ks[6], vs[6])) || vs[6].len() == 0);
    assert(lines_ok(a) && lines_ok(b) && lines_ok(c) && lines_ok(d));
    assert(lines_ok(f) && lines_ok(g) && lines_ok(h));
    lemma_lines_ok_append(a, b);
    lemma_lines_ok_append(a + b, c);
    lemma_lines_ok_append(a + b + c, d);
    lemma_lines_ok_append(a + b + c + d, f);
    lemma_lines_ok_append(a + b + c + d + f, g);
    lemma_lines_ok_append(a + b + c + d + f + g, h);
}

proof fn lemma_sep_lines_ok(sep: Map<SepKey, Seq<char>>, keys: Seq<SepKey>)
    requires
        forall|k: SepKey| plain(#[trigger] sep[k]),
    ensures
        lines_ok(sep_line_seq(sep, keys)),
    decreases keys.len(),
{
    if keys.len() > 0 {
        let k = keys.last();
        lemma_sep_lines_ok(sep, keys.drop_last());
        let rest: Seq<Seq<char>> = if sep[k] != k.default_value() {
            seq![sep_line(k, sep[k])]
        } else {
            seq![]
        };
        if sep[k] != k.default_value() {
            lemma_literal_lines();
            lemma_directive_key(k);
            let kk = k.directive_key();
            assert(lacks(kk, '\n')) by {
                assert forall|i: int| 0 <= i < kk.len() implies kk[i] != '\n' by {
                    assert(!is_ws(kk[i]));
                }
            }
            let v = sep[k];
            lemma_lacks_append("# @sep "@, kk, '\n');
            let pre = "# @sep "@ + kk;
            if v.len() > 0 {
                lemma_lacks_append(pre, " = "@, '\n');
                lemma_plain_line(v);
                lemma_line_ok_append(pre + " = "@, v);
            } else {
                reveal_strlit(" = ");
                reveal_strlit(" =");
                assert(pre + " = "@ + v =~= pre + " = "@);
                assert(line_ok(pre + " = "@)) by {
                    lemma_lacks_append(pre, " = "@, '\n');
                    assert((pre + " = "@).last() == ' ');
                }
            }
        }
        assert(lines_ok(rest));
        lemma_lines_ok_append(sep_line_seq(sep, keys.drop_last()), rest);
    }
}

proof fn lemma_section_lines_ok(sec: SectionView)
    requires
        section_ok(sec),
    ensures
        lines_ok(section_lines(sec)),
{
    lemma_literal_lines();
    lemma_mode_word(sec.mode);
    let mw = mode_word(sec.mode);
    lemma_trim_plain(mw);
    lemma_plain_line(mw);
    lemma_lacks_append("["@, sec.group, '\n');
    lemma_lacks_append("["@ + sec.group, "/"@, '\n');
    lemma_lacks_append("["@ + sec.group + "/"@, sec.name, '\n');
    lemma_lacks_append("["@ + sec.group + "/"@ + sec.name, "] "@, '\n');
    lemma_line_ok_append("["@ + sec.group + "/"@ + sec.name + "] "@, mw);
    let a = seq![Seq::<char>::empty(), header_line(sec)];
    assert(lines_ok(a));
    let fl = sec.fields.map_values(|f: FieldView| field_body(f));
    let b: Seq<Seq<char>> = if sec.mode == SchemaMode::Table { fl } else { seq![] };
    if sec.mode == SchemaMode::Table {
        assert forall|i: int| 0 <= i < fl.len() implies line_ok(#[trigger] fl[i]) by {
            let f = sec.fields[i];
            assert(field_ok(f));
            let xs = field_parts(f);
            lemma_field_body(f);
            assert forall|j: int| 0 <= j < xs.len() implies line_ok(#[trigger] xs[j]) by {
                lemma_plain_line(xs[j]);
            }
            lemma_join_line(xs);
        }
    }
    assert(lines_ok(b));
    let rl = sec.preset.map_values(|r: Seq<Seq<char>>| row_body(r));
    let c: Seq<Seq<char>> = if sec.preset.len() > 0 { seq!["# @preset"@] + rl } else { seq![] };
    assert forall|i: int| 0 <= i < rl.len() implies line_ok(#[trigger] rl[i]) by {
        let r = sec.preset[i];
        assert(row_ok(r));
        assert forall|j: int| 0 <= j < r.len() implies line_ok(#[trigger] r[j]) by {
            lemma_plain_line(r[j]);
        }
        lemma_join_line(r);
    }
    if sec.preset.len() > 0 {
        assert(lines_ok(seq!["# @preset"@]));
        lemma_lines_ok_append(seq!["# @preset"@], rl);
    }
    assert(lines_ok(c));
    lemma_lines_ok_append(a, b);
    lemma_lines_ok_append(a + b, c);
}

proof fn lemma_sections_lines_ok(secs: Seq<SectionView>)
    requires
        forall|i: int| 0 <= i < secs.len() ==> section_ok(#[trigger] secs[i]),
    ensures
        lines_ok(sections_lines(secs)),
    decreases secs.len(),
{
    if secs.len() > 0 {
        let init = secs.drop_last();
        assert forall|i: int| 0 <= i < init.len() implies section_ok(#[trigger] init[i]) by {
            assert(init[i] == secs[i]);
        }
        lemma_sections_lines_ok(init);
        assert(section_ok(secs[secs.len() - 1]));
        lemma_section_lines_ok(secs.last());
        lemma_lines_ok_append(sections_lines(init), section_lines(secs.last()));
    }
}


// ───────────────────────── the law ─────────────────────────

/// What a schema may hold so that its text reads back: one-line trimmed
/// metadata and separators, and sections as [`section_ok`] says.
pub open spec fn schema_writable(s: SchemaView) -> bool {
    &&& meta_ok(s.meta)
    &&& forall|k: SepKey| plain(#[trigger] s.separators[k])
    &&& forall|i: int| 0 <= i < s.sections.len() ==> section_ok(#[trigger] s.sections[i])
}

/// The schema that a reader gives back for the text of `s`: an empty name
/// reads as the id, `has_preset` follows the sections, and constant and
/// enum sections keep no column lines.
pub open spec fn read_back(s: SchemaView) -> SchemaView {
    let secs = s.sections.map_values(|x: SectionView| read_section(x));
    SchemaView {
        meta: MetaView {
            name: if s.meta.name.len() == 0 { s.meta.id } else { s.meta.name },
            has_preset: any_preset(secs),
            ..s.meta
        },
        separators: s.separators,
        sections: secs,
    }
}

/// A schema written to text and read again is the same schema, as far as
/// the format keeps it; the text is one that the reader returns on.
#[verifier::rlimit(60)]
pub proof fn law_schema_round_trip(schema: TblSchema)
    requires
        schema_writable(schema@),
    ensures
        crate::tblschema::schema_text_readable(spec_serialize_tblschema(schema@)),
        spec_parse_tblschema(spec_serialize_tblschema(schema@)) == Ok::<SchemaView, crate::tblschema::SchemaErrorView>(
            read_back(schema@),
        ),
{
    let s = schema@;
    let m = s.meta;
    let sep = s.separators;
    let secs = s.sections;
    lemma_schema_text(m, sep, secs);
    assert(SchemaView { meta: m, separators: sep, sections: secs } == s);
    let a = seq!["#!tblschema v1"@];
    let b = meta_lines(m);
    let hp = "# @meta has_preset: true"@;
    let c: Seq<Seq<char>> = if any_preset(secs) { seq![hp] } else { seq![] };
    let d = sep_line_seq(sep, SepKey::spec_all());
    let e = sections_lines(secs);
    let ls = schema_lines(m, sep, secs);
    assert(ls == a + b + c + d + e);
    // the text splits back into these lines
    lemma_literal_lines();
    lemma_meta_lines_ok(m);
    lemma_sep_lines_ok(sep, SepKey::spec_all());
    lemma_sections_lines_ok(secs);
    assert(lines_ok(a));
    assert(lines_ok(c));
    lemma_lines_ok_append(a, b);
    lemma_lines_ok_append(a + b, c);
    lemma_lines_ok_append(a + b + c, d);
    lemma_lines_ok_append(a + b + c + d, e);
    assert forall|i: int| 0 <= i < ls.len() implies lacks(#[trigger] ls[i], '\n') by {
        assert(line_ok(ls[i]));
    }
    lemma_lines_of_text(ls);
    assert(ls.map_values(|p: Seq<char>| strip_cr(p)) =~= ls) by {
        assert forall|i: int| 0 <= i < ls.len() implies strip_cr(#[trigger] ls[i]) == ls[i] by {
            assert(line_ok(ls[i]));
        }
    }
    assert(lines_of(spec_serialize_tblschema(s)) == ls);
    // reading them, part by part
    let st0 = initial_state();
    lemma_parse_one(st0, "#!tblschema v1"@, 0);
    lemma_magic_step(st0, 0);
    lemma_meta_lines(st0, 1, m);
    let nm = if m.name.len() > 0 && m.name != m.id { m.name } else { seq![] };
    let m1 = MetaView { name: nm, has_preset: false, ..m };
    let st1 = ParseState { meta: m1, ..st0 };
    lemma_parse_append(st0, a, b, 0);
    let n2 = (a + b).len();
    lemma_meta_keys(m1, "true"@);
    let m2 = if any_preset(secs) { apply_meta(m1, "has_preset"@, "true"@) } else { m1 };
    let st2 = ParseState { meta: m2, ..st0 };
    if any_preset(secs) {
        reveal_strlit("true");
        reveal_strlit("has_preset");
        reveal_strlit("# @meta has_preset: true");
        reveal_strlit("# @meta ");
        reveal_strlit(": ");
        assert(meta_line("has_preset"@, "true"@) =~= hp);
        lemma_trim_plain("true"@);
        assert(lacks("true"@, '\n'));
        lemma_parse_one(st1, hp, n2);
        lemma_meta_step(st1, n2, "has_preset"@, "true"@);
    }
    assert(parse_lines(st1, c, n2) == ParseOutcome::Next(st2));
    lemma_parse_append(st0, a + b, c, 0);
    let n3 = (a + b + c).len();
    assert forall|k: SepKey| #[trigger] sep.dom().contains(k) by {}
    lemma_sep_read_back(st2, n3, sep);
    let st3 = ParseState { sep, ..st2 };
    lemma_parse_append(st0, a + b + c, d, 0);
    let n4 = (a + b + c + d).len();
    lemma_sections_lines(st3, n4, secs);
    lemma_parse_append(st0, a + b + c + d, e, 0);
    let rs = secs.map_values(|x: SectionView| read_section(x));
    if secs.len() == 0 {
        assert(parse_lines(st0, ls, 0) == ParseOutcome::Next(st3));
        assert(rs =~= Seq::<SectionView>::empty());
        assert(closed_sections(st3) =~= rs);
    } else {
        let st4 = ParseState {
            sections: closed_sections(st3) + secs.drop_last().map_values(|x: SectionView| read_section(x)),
            current: Some(read_section(secs.last())),
            seen_section: true,
            in_preset: secs.last().preset.len() > 0,
            ..st3
        };
        assert(parse_lines(st0, ls, 0) == ParseOutcome::Next(st4));
        assert(section_ok(secs[secs.len() - 1]));
        lemma_read_section_clean(secs.last());
        assert(closed_sections(st4) =~= rs);
    }
    assert(m2.id == m.id && m2.name == nm);
}

} // verus!
