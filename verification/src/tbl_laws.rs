//! What a `.tbl` file gives back: a table, constant set or enum written by
//! this library and read again is the same node, clean, with its written
//! text as its last saved form.

use vstd::prelude::*;
use crate::model::{ConstEntryView, ConstantView, EnumDefView, EnumEntryView, Export, FieldDefView, TableView};
use crate::tbl::{
    const_entries_of, const_entry_of, const_line, const_lines, decode_line, empty_header,
    enum_entry_of, enum_line, enum_lines, header_step, read_header, record_lines,
    spec_parse_tbl, spec_serialize_constant, spec_serialize_enum, spec_serialize_table,
    spec_table_fields, TblErrorView, TblFileView, TblHeader,
};
use crate::tbl_str::{
    decode_all, encode_all, escape_char, join_pipe, lemma_decode_encode, lemma_decode_plain,
    lemma_row_round_trip, lemma_split_over_encoded, spec_decode_str, spec_encode_str,
    spec_split_acc, spec_split_row,
};
use crate::text::{
    is_ws, lemma_split_on_nonempty, lines_of, split_on, starts_with, strip_cr, trim, trim_end,
    trim_start,
};

verus! {

/// `s` holds no `c`.
pub open spec fn lacks(s: Seq<char>, c: char) -> bool {
    forall|i: int| 0 <= i < s.len() ==> s[i] != c
}

/// The text of `ls`, each line followed by a line break.
pub open spec fn text_of_lines(ls: Seq<Seq<char>>) -> Seq<char>
    decreases ls.len(),
{
    if ls.len() == 0 {
        seq![]
    } else {
        text_of_lines(ls.drop_last()) + ls.last() + seq!['\n']
    }
}

proof fn lemma_split_after(r: Seq<char>, y: Seq<char>, p: Seq<Seq<char>>, sep: char)
    requires
        split_on(r, sep) == p + seq![Seq::<char>::empty()],
    ensures
        split_on(r + y, sep) == p + split_on(y, sep),
    decreases y.len(),
{
    if y.len() == 0 {
        assert(r + y =~= r);
    } else {
        let s = r + y;
        assert(s.drop_last() =~= r + y.drop_last());
        assert(s.last() == y.last());
        lemma_split_after(r, y.drop_last(), p, sep);
        lemma_split_on_nonempty(y.drop_last(), sep);
        let b = split_on(y.drop_last(), sep);
        let a = p + b;
        if y.last() == sep {
            assert(a.push(seq![]) =~= p + b.push(seq![]));
        } else {
            assert(a.update(a.len() - 1, a.last().push(y.last())) =~= p + b.update(
                b.len() - 1,
                b.last().push(y.last()),
            ));
        }
    }
}

proof fn lemma_split_single(x: Seq<char>, sep: char)
    requires
        lacks(x, sep),
    ensures
        split_on(x, sep) == seq![x],
    decreases x.len(),
{
    if x.len() > 0 {
        assert forall|i: int| 0 <= i < x.drop_last().len() implies x.drop_last()[i] != sep by {
            assert(x.drop_last()[i] == x[i]);
        }
        lemma_split_single(x.drop_last(), sep);
        assert(x[x.len() - 1] != sep);
        assert(x.drop_last().push(x.last()) =~= x);
        assert(seq![x.drop_last()].update(0, x.drop_last().push(x.last())) =~= seq![x]);
    } else {
        assert(x =~= Seq::<char>::empty());
    }
}

proof fn lemma_split_line_end(x: Seq<char>, sep: char)
    requires
        lacks(x, sep),
    ensures
        split_on(x + seq![sep], sep) == seq![x, Seq::<char>::empty()],
{
    lemma_split_single(x, sep);
    assert((x + seq![sep]).drop_last() =~= x);
    assert(seq![x].push(Seq::<char>::empty()) =~= seq![x, Seq::<char>::empty()]);
}

/// Lines without line breaks, written one per line, split back into
/// themselves and a final empty piece.
pub proof fn lemma_split_text_of_lines(ls: Seq<Seq<char>>)
    requires
        forall|i: int| 0 <= i < ls.len() ==> lacks(#[trigger] ls[i], '\n'),
    ensures
        split_on(text_of_lines(ls), '\n') == ls + seq![Seq::<char>::empty()],
    decreases ls.len(),
{
    if ls.len() == 0 {
        assert(ls + seq![Seq::<char>::empty()] =~= seq![Seq::<char>::empty()]);
    } else {
        let prev = ls.drop_last();
        lemma_split_text_of_lines(prev);
        assert(lacks(ls[ls.len() - 1], '\n'));
        lemma_split_line_end(ls.last(), '\n');
        let r = text_of_lines(prev);
        assert(text_of_lines(ls) =~= r + (ls.last() + seq!['\n']));
        lemma_split_after(r, ls.last() + seq!['\n'], prev, '\n');
        assert(prev + seq![ls.last(), Seq::<char>::empty()] =~= ls + seq![Seq::<char>::empty()]);
    }
}

/// The lines of a text written line by line are its lines, each without a
/// final `\r`.
pub proof fn lemma_lines_of_text(ls: Seq<Seq<char>>)
    requires
        forall|i: int| 0 <= i < ls.len() ==> lacks(#[trigger] ls[i], '\n'),
    ensures
        lines_of(text_of_lines(ls)) == ls.map_values(|p: Seq<char>| strip_cr(p)),
{
    lemma_split_text_of_lines(ls);
    let ps = ls + seq![Seq::<char>::empty()];
    assert(ps.take(ps.len() - 1) =~= ls);
}

pub proof fn lemma_text_of_lines_append(a: Seq<Seq<char>>, b: Seq<Seq<char>>)
    ensures
        text_of_lines(a + b) == text_of_lines(a) + text_of_lines(b),
    decreases b.len(),
{
    if b.len() == 0 {
        assert(a + b =~= a);
        assert(text_of_lines(a) + text_of_lines(b) =~= text_of_lines(a));
    } else {
        lemma_text_of_lines_append(a, b.drop_last());
        assert((a + b).drop_last() =~= a + b.drop_last());
        assert((a + b).last() == b.last());
        assert(text_of_lines(a + b) =~= text_of_lines(a) + text_of_lines(b));
    }
}

proof fn lemma_encoded_plain(s: Seq<char>)
    ensures
        lacks(spec_encode_str(s), '\n'),
        lacks(spec_encode_str(s), '\r'),
    decreases s.len(),
{
    if s.len() > 0 {
        lemma_encoded_plain(s.drop_first());
        let e = escape_char(s[0]);
        let t = spec_encode_str(s.drop_first());
        assert(spec_encode_str(s) == e + t);
        assert forall|i: int| 0 <= i < (e + t).len() implies (e + t)[i] != '\n' && (e + t)[i]
            != '\r' by {
            if i >= e.len() {
                assert((e + t)[i] == t[i - e.len()]);
            }
        }
    }
}

proof fn lemma_join_lacks(cells: Seq<Seq<char>>, c: char)
    requires
        c != '|',
        forall|i: int| 0 <= i < cells.len() ==> lacks(#[trigger] cells[i], c),
    ensures
        lacks(join_pipe(cells), c),
    decreases cells.len(),
{
    if cells.len() > 1 {
        let rest = cells.drop_first();
        assert forall|i: int| 0 <= i < rest.len() implies lacks(#[trigger] rest[i], c) by {
            assert(rest[i] == cells[i + 1]);
        }
        lemma_join_lacks(rest, c);
        let a = cells[0];
        let b = join_pipe(rest);
        assert(lacks(a, c));
        assert forall|i: int| 0 <= i < (a + seq!['|'] + b).len() implies (a + seq!['|'] + b)[i]
            != c by {
            if i > a.len() {
                assert((a + seq!['|'] + b)[i] == b[i - a.len() - 1]);
            }
        }
    } else if cells.len() == 1 {
        assert(lacks(cells[0], c));
    }
}

/// Stored cells joined with `|` hold no line break or `\r`.
pub proof fn lemma_row_line_plain(cells: Seq<Seq<char>>)
    ensures
        lacks(join_pipe(encode_all(cells)), '\n'),
        lacks(join_pipe(encode_all(cells)), '\r'),
{
    let e = encode_all(cells);
    assert forall|i: int| 0 <= i < e.len() implies lacks(#[trigger] e[i], '\n') && lacks(
        e[i],
        '\r',
    ) by {
        lemma_encoded_plain(cells[i]);
    }
    lemma_join_lacks(e, '\n');
    lemma_join_lacks(e, '\r');
}

/// Pieces without `|` joined with `|` split back into themselves.
pub proof fn lemma_split_join(xs: Seq<Seq<char>>)
    requires
        xs.len() >= 1,
        forall|i: int| 0 <= i < xs.len() ==> lacks(#[trigger] xs[i], '|'),
    ensures
        split_on(join_pipe(xs), '|') == xs,
    decreases xs.len(),
{
    assert(lacks(xs[0], '|'));
    if xs.len() == 1 {
        lemma_split_single(xs[0], '|');
        assert(seq![xs[0]] =~= xs);
    } else {
        let rest = xs.drop_first();
        assert forall|i: int| 0 <= i < rest.len() implies lacks(#[trigger] rest[i], '|') by {
            assert(rest[i] == xs[i + 1]);
        }
        lemma_split_join(rest);
        lemma_split_line_end(xs[0], '|');
        assert(seq![xs[0], Seq::<char>::empty()] =~= seq![xs[0]] + seq![Seq::<char>::empty()]);
        lemma_split_after(xs[0] + seq!['|'], join_pipe(rest), seq![xs[0]], '|');
        assert(join_pipe(xs) =~= (xs[0] + seq!['|']) + join_pipe(rest));
        assert(seq![xs[0]] + rest =~= xs);
    }
}

/// Data line of a record: its stored cells joined with `|`.
pub open spec fn row_line(r: Seq<Seq<char>>) -> Seq<char> {
    join_pipe(encode_all(r))
}

pub proof fn lemma_record_lines_text(rows: Seq<Seq<Seq<char>>>)
    ensures
        record_lines(rows) == text_of_lines(rows.map_values(|r: Seq<Seq<char>>| row_line(r))),
    decreases rows.len(),
{
    if rows.len() > 0 {
        lemma_record_lines_text(rows.drop_last());
        assert(rows.map_values(|r: Seq<Seq<char>>| row_line(r)).drop_last() =~= rows.drop_last().map_values(
            |r: Seq<Seq<char>>| row_line(r),
        ));
        reveal_strlit("\n");
        assert("\n"@ =~= seq!['\n']);
    }
}

/// The header read from `h` on through `lines`.
pub open spec fn read_from(h: TblHeader, lines: Seq<Seq<char>>) -> TblHeader
    decreases lines.len(),
{
    if lines.len() == 0 {
        h
    } else {
        header_step(read_from(h, lines.drop_last()), lines.last())
    }
}

pub proof fn lemma_read_header_from(lines: Seq<Seq<char>>)
    ensures
        read_header(lines) == read_from(empty_header(), lines),
    decreases lines.len(),
{
    if lines.len() > 0 {
        lemma_read_header_from(lines.drop_last());
    }
}

pub proof fn lemma_read_from_append(h: TblHeader, a: Seq<Seq<char>>, b: Seq<Seq<char>>)
    ensures
        read_from(h, a + b) == read_from(read_from(h, a), b),
    decreases b.len(),
{
    if b.len() == 0 {
        assert(a + b =~= a);
    } else {
        lemma_read_from_append(h, a, b.drop_last());
        assert((a + b).drop_last() =~= a + b.drop_last());
        assert((a + b).last() == b.last());
    }
}

/// After `---`, every non-empty line is kept as a data line.
pub proof fn lemma_read_data(h: TblHeader, lines: Seq<Seq<char>>)
    requires
        h.in_data,
        forall|i: int| 0 <= i < lines.len() ==> (#[trigger] lines[i]).len() > 0,
    ensures
        read_from(h, lines) == (TblHeader { data: h.data + lines, ..h }),
    decreases lines.len(),
{
    if lines.len() == 0 {
        assert(h.data + lines =~= h.data);
    } else {
        lemma_read_data(h, lines.drop_last());
        assert(lines[lines.len() - 1].len() > 0);
        assert((h.data + lines.drop_last()).push(lines.last()) =~= h.data + lines);
    }
}

proof fn lemma_not_prefix(line: Seq<char>, q: Seq<char>, k: int)
    requires
        0 <= k < q.len(),
        k < line.len(),
        line[k] != q[k],
    ensures
        !starts_with(line, q),
{
    if starts_with(line, q) {
        assert(line.take(q.len() as int)[k] == line[k]);
    }
}

proof fn lemma_prefixed(p: Seq<char>, x: Seq<char>)
    ensures
        starts_with(p + x, p),
        (p + x).skip(p.len() as int) == x,
{
    assert((p + x).take(p.len() as int) =~= p);
    assert((p + x).skip(p.len() as int) =~= x);
}

/// Text with no white space character is its own trim.
pub proof fn lemma_trim_plain(s: Seq<char>)
    requires
        forall|i: int| 0 <= i < s.len() ==> !is_ws(#[trigger] s[i]),
    ensures
        trim(s) == s,
{
    if s.len() > 0 {
        assert(!is_ws(s[0]));
        assert(trim_start(s) == s);
        assert(!is_ws(s[s.len() - 1]));
    } else {
        assert(trim_start(s) == s);
    }
}

proof fn lemma_trim_start_shape(s: Seq<char>)
    ensures
        trim_start(s).len() == 0 || !is_ws(trim_start(s)[0]),
    decreases s.len(),
{
    if s.len() > 0 && is_ws(s[0]) {
        lemma_trim_start_shape(s.drop_first());
    }
}

proof fn lemma_trim_end_shape(s: Seq<char>)
    ensures
        trim_end(s).len() == 0 || !is_ws(trim_end(s).last()),
        trim_end(s).len() <= s.len(),
        trim_end(s) == s.take(trim_end(s).len() as int),
    decreases s.len(),
{
    if s.len() > 0 && is_ws(s.last()) {
        lemma_trim_end_shape(s.drop_last());
        assert(s.drop_last().take(trim_end(s).len() as int) =~= s.take(trim_end(s).len() as int));
    } else {
        assert(s.take(s.len() as int) =~= s);
    }
}

/// Text that starts and ends with no white space is its own trim.
proof fn lemma_trim_edges(s: Seq<char>)
    requires
        s.len() == 0 || (!is_ws(s[0]) && !is_ws(s.last())),
    ensures
        trim(s) == s,
{
    assert(trim_start(s) == s);
}

/// Trimming twice trims no more than once.
pub proof fn lemma_trim_idempotent(s: Seq<char>)
    ensures
        trim(trim(s)) == trim(s),
{
    let a = trim_start(s);
    lemma_trim_start_shape(s);
    lemma_trim_end_shape(a);
    let t = trim_end(a);
    if t.len() > 0 {
        assert(t[0] == a[0]);
    }
    lemma_trim_edges(t);
}

/// Header lines of a written table, from `#!tbl` to `---`.
pub open spec fn table_header_lines(t: TableView) -> Seq<Seq<char>> {
    let f = t.fields;
    seq![
        "#!tbl v2"@,
        "#mode table"@,
        "#desc "@ + join_pipe(encode_all(f.map_values(|x: FieldDefView| x.desc))),
        "#export "@ + join_pipe(f.map_values(|x: FieldDefView| x.export.spec_to_tbl())),
        "#type "@ + join_pipe(f.map_values(|x: FieldDefView| x.tbl_type)),
        "#field "@ + join_pipe(f.map_values(|x: FieldDefView| x.name)),
        "---"@,
    ]
}

proof fn lemma_table_text(t: TableView)
    ensures
        spec_serialize_table(t) == text_of_lines(table_header_lines(t)) + text_of_lines(
            t.records.map_values(|r: Seq<Seq<char>>| row_line(r)),
        ),
{
    lemma_record_lines_text(t.records);
    reveal_with_fuel(text_of_lines, 8);
    reveal_strlit("#!tbl v2\n#mode table\n#desc ");
    reveal_strlit("\n#export ");
    reveal_strlit("\n#type ");
    reveal_strlit("\n#field ");
    reveal_strlit("\n---\n");
    reveal_strlit("#!tbl v2");
    reveal_strlit("#mode table");
    reveal_strlit("#desc ");
    reveal_strlit("#export ");
    reveal_strlit("#type ");
    reveal_strlit("#field ");
    reveal_strlit("---");
    let hl = table_header_lines(t);
    let d = join_pipe(encode_all(t.fields.map_values(|x: FieldDefView| x.desc)));
    let e = join_pipe(t.fields.map_values(|x: FieldDefView| x.export.spec_to_tbl()));
    let ty = join_pipe(t.fields.map_values(|x: FieldDefView| x.tbl_type));
    let f = join_pipe(t.fields.map_values(|x: FieldDefView| x.name));
    assert(text_of_lines(hl) =~= "#!tbl v2\n#mode table\n#desc "@ + d + "\n#export "@ + e
        + "\n#type "@ + ty + "\n#field "@ + f + "\n---\n"@);
}

proof fn lemma_concat_lacks(a: Seq<char>, b: Seq<char>, c: char)
    requires
        lacks(a, c),
        lacks(b, c),
    ensures
        lacks(a + b, c),
{
    assert forall|i: int| 0 <= i < (a + b).len() implies (a + b)[i] != c by {
        if i >= a.len() {
            assert((a + b)[i] == b[i - a.len()]);
        }
    }
}

proof fn lemma_trim_end_last(y: Seq<char>)
    ensures
        trim_end(y).len() == 0 || !is_ws(trim_end(y).last()),
    decreases y.len(),
{
    if y.len() > 0 && is_ws(y.last()) {
        lemma_trim_end_last(y.drop_last());
    }
}

/// A trimmed non-empty text does not end in white space.
pub(crate) proof fn lemma_trimmed_last(x: Seq<char>)
    requires
        trim(x) == x,
        x.len() > 0,
    ensures
        !is_ws(x.last()),
{
    lemma_trim_end_last(trim_start(x));
}

proof fn lemma_join_last(xs: Seq<Seq<char>>)
    requires
        xs.len() >= 1,
    ensures
        join_pipe(xs).len() == 0 || join_pipe(xs).last() == '|' || (xs.last().len() > 0
            && join_pipe(xs).last() == xs.last().last()),
    decreases xs.len(),
{
    if xs.len() > 1 {
        let rest = xs.drop_first();
        lemma_join_last(rest);
        assert(rest.last() == xs.last());
        let a = xs[0] + seq!['|'];
        let b = join_pipe(rest);
        assert(join_pipe(xs) == a + b);
        if b.len() > 0 {
            assert((a + b).last() == b.last());
        } else {
            assert(a + b =~= a);
        }
    }
}

/// A line `p` + the `|`-join of `xs` keeps its last character when `p` and
/// the last piece do not end in `\r`.
proof fn lemma_join_line_no_cr(p: Seq<char>, xs: Seq<Seq<char>>)
    requires
        xs.len() >= 1,
        p.len() > 0,
        p.last() != '\r',
        xs.last().len() > 0 ==> xs.last().last() != '\r',
    ensures
        strip_cr(p + join_pipe(xs)) == p + join_pipe(xs),
{
    lemma_join_last(xs);
    let j = join_pipe(xs);
    if j.len() > 0 {
        assert((p + j).last() == j.last());
    } else {
        assert(p + j =~= p);
    }
}

/// Reading a table's header lines after `#!tbl`.
pub open spec fn table_header_after(t: TableView) -> TblHeader {
    let f = t.fields;
    TblHeader {
        mode: "table"@,
        desc: join_pipe(encode_all(f.map_values(|x: FieldDefView| x.desc))),
        types: join_pipe(f.map_values(|x: FieldDefView| x.tbl_type)),
        exports: join_pipe(f.map_values(|x: FieldDefView| x.export.spec_to_tbl())),
        fields: join_pipe(f.map_values(|x: FieldDefView| x.name)),
        data: seq![],
        in_data: true,
    }
}

proof fn lemma_table_header_read(t: TableView)
    ensures
        read_from(empty_header(), table_header_lines(t).drop_first()) == table_header_after(t),
{
    let hl = table_header_lines(t).drop_first();
    let d = join_pipe(encode_all(t.fields.map_values(|x: FieldDefView| x.desc)));
    let e = join_pipe(t.fields.map_values(|x: FieldDefView| x.export.spec_to_tbl()));
    let ty = join_pipe(t.fields.map_values(|x: FieldDefView| x.tbl_type));
    let f = join_pipe(t.fields.map_values(|x: FieldDefView| x.name));
    reveal_strlit("#mode table");
    reveal_strlit("#mode ");
    reveal_strlit("#desc ");
    reveal_strlit("#export ");
    reveal_strlit("#type ");
    reveal_strlit("#field ");
    reveal_strlit("---");
    reveal_strlit("table");
    reveal_with_fuel(read_from, 7);
    let l1 = "#mode table"@;
    let l2 = "#desc "@ + d;
    let l3 = "#export "@ + e;
    let l4 = "#type "@ + ty;
    let l5 = "#field "@ + f;
    let l6 = "---"@;
    assert(hl =~= seq![l1, l2, l3, l4, l5, l6]);
    // line 1
    let h0 = empty_header();
    lemma_not_prefix(l1, "---"@, 0);
    assert(l1 != "---"@);
    assert(starts_with(l1, "#mode "@)) by {
        assert(l1.take(6) =~= "#mode "@);
    }
    assert(l1.skip(6) =~= "table"@);
    lemma_trim_plain("table"@);
    let h1 = header_step(h0, l1);
    assert(h1 == TblHeader { mode: "table"@, ..h0 });
    // line 2
    lemma_prefixed("#desc "@, d);
    lemma_not_prefix(l2, "---"@, 0);
    lemma_not_prefix(l2, "#mode "@, 1);
    let h2 = header_step(h1, l2);
    assert(h2 == TblHeader { desc: d, ..h1 });
    // line 3
    lemma_prefixed("#export "@, e);
    lemma_not_prefix(l3, "---"@, 0);
    lemma_not_prefix(l3, "#mode "@, 1);
    lemma_not_prefix(l3, "#desc "@, 1);
    lemma_not_prefix(l3, "#type "@, 1);
    let h3 = header_step(h2, l3);
    assert(h3 == TblHeader { exports: e, ..h2 });
    // line 4
    lemma_prefixed("#type "@, ty);
    lemma_not_prefix(l4, "---"@, 0);
    lemma_not_prefix(l4, "#mode "@, 1);
    lemma_not_prefix(l4, "#desc "@, 1);
    let h4 = header_step(h3, l4);
    assert(h4 == TblHeader { types: ty, ..h3 });
    // line 5
    lemma_prefixed("#field "@, f);
    lemma_not_prefix(l5, "---"@, 0);
    lemma_not_prefix(l5, "#mode "@, 1);
    lemma_not_prefix(l5, "#desc "@, 1);
    lemma_not_prefix(l5, "#type "@, 1);
    lemma_not_prefix(l5, "#export "@, 1);
    let h5 = header_step(h4, l5);
    assert(h5 == TblHeader { fields: f, ..h4 });
    // line 6
    let h6 = header_step(h5, l6);
    assert(h6 == TblHeader { in_data: true, ..h5 });
    assert(hl.take(1) =~= seq![l1]);
    assert(read_from(h0, seq![l1]) == h1) by {
        assert(seq![l1].drop_last() =~= Seq::<Seq<char>>::empty());
    }
    assert(seq![l1, l2].drop_last() =~= seq![l1]);
    assert(seq![l1, l2, l3].drop_last() =~= seq![l1, l2]);
    assert(seq![l1, l2, l3, l4].drop_last() =~= seq![l1, l2, l3]);
    assert(seq![l1, l2, l3, l4, l5].drop_last() =~= seq![l1, l2, l3, l4]);
    assert(seq![l1, l2, l3, l4, l5, l6].drop_last() =~= seq![l1, l2, l3, l4, l5]);
    assert(read_from(h0, hl) == h6);
    assert(h6 == table_header_after(t));
}

/// An export side other than `Unselected` reads back from its label.
pub proof fn lemma_export_label(e: Export)
    requires
        e != Export::Unselected,
    ensures
        Export::spec_from_text(trim(e.spec_to_tbl())) == e,
        lacks(e.spec_to_tbl(), '|'),
        lacks(e.spec_to_tbl(), '\n'),
        lacks(e.spec_to_tbl(), '\r'),
{
    reveal_strlit("");
    reveal_strlit("前后端");
    reveal_strlit("客户端");
    reveal_strlit("服务器");
    reveal_strlit("不导出");
    reveal_strlit("cs");
    reveal_strlit("c");
    reveal_strlit("s");
    reveal_strlit("-");
    let l = e.spec_to_tbl();
    assert forall|i: int| 0 <= i < l.len() implies !is_ws(#[trigger] l[i]) by {}
    lemma_trim_plain(l);
    if e == Export::ClientOnly {
        assert("客户端"@ != "前后端"@) by {
            assert("客户端"@[0] != "前后端"@[0]);
        }
        assert("客户端"@ != "cs"@);
    } else if e == Export::ServerOnly {
        assert("服务器"@ != "前后端"@) by {
            assert("服务器"@[0] != "前后端"@[0]);
        }
        assert("服务器"@ != "客户端"@) by {
            assert("服务器"@[0] != "客户端"@[0]);
        }
        assert("服务器"@ != "cs"@);
        assert("服务器"@ != "c"@);
    } else if e == Export::NoExport {
        assert("不导出"@ != "前后端"@) by {
            assert("不导出"@[0] != "前后端"@[0]);
        }
        assert("不导出"@ != "客户端"@) by {
            assert("不导出"@[0] != "客户端"@[0]);
        }
        assert("不导出"@ != "服务器"@) by {
            assert("不导出"@[0] != "服务器"@[0]);
        }
        assert("不导出"@ != "cs"@);
        assert("不导出"@ != "c"@);
        assert("不导出"@ != "s"@);
    }
}

/// Whether a table reads back as written: it has a column; column names
/// and types are trimmed and hold no `|` or line break; descriptions are
/// trimmed; every column goes to a known side; every record has a
/// non-empty data line (not no cells, not one empty cell).
pub open spec fn table_round_trips(t: TableView) -> bool {
    &&& t.fields.len() >= 1
    &&& forall|i: int|
        0 <= i < t.fields.len() ==> {
            let f = #[trigger] t.fields[i];
            &&& trim(f.name) == f.name
            &&& lacks(f.name, '|')
            &&& lacks(f.name, '\n')
            &&& trim(f.tbl_type) == f.tbl_type
            &&& lacks(f.tbl_type, '|')
            &&& lacks(f.tbl_type, '\n')
            &&& trim(f.desc) == f.desc
            &&& f.export != Export::Unselected
        }
    &&& forall|k: int| 0 <= k < t.records.len() ==> row_line(#[trigger] t.records[k]).len() > 0
}

proof fn lemma_table_fields_back(t: TableView)
    requires
        table_round_trips(t),
    ensures
        spec_table_fields(table_header_after(t)) == t.fields,
{
    let f = t.fields;
    let descs = f.map_values(|x: FieldDefView| x.desc);
    let types = f.map_values(|x: FieldDefView| x.tbl_type);
    let labels = f.map_values(|x: FieldDefView| x.export.spec_to_tbl());
    let names = f.map_values(|x: FieldDefView| x.name);
    let h = table_header_after(t);
    lemma_row_round_trip(descs);
    assert forall|i: int| 0 <= i < types.len() implies lacks(#[trigger] types[i], '|') by {
        assert(types[i] == f[i].tbl_type);
    }
    lemma_split_join(types);
    assert forall|i: int| 0 <= i < names.len() implies lacks(#[trigger] names[i], '|') by {
        assert(names[i] == f[i].name);
    }
    lemma_split_join(names);
    assert forall|i: int| 0 <= i < labels.len() implies lacks(#[trigger] labels[i], '|') by {
        lemma_export_label(f[i].export);
    }
    lemma_split_join(labels);
    let ds = spec_split_row(h.desc);
    let got = spec_table_fields(h);
    assert forall|i: int| 0 <= i < f.len() implies #[trigger] got[i] == f[i] by {
        lemma_decode_encode(descs[i]);
        assert(ds[i] == encode_all(descs)[i]);
        lemma_export_label(f[i].export);
    }
    assert(got =~= f);
}

proof fn lemma_records_back(rows: Seq<Seq<Seq<char>>>)
    requires
        forall|k: int| 0 <= k < rows.len() ==> row_line(#[trigger] rows[k]).len() > 0,
    ensures
        rows.map_values(|r: Seq<Seq<char>>| row_line(r)).map_values(|l: Seq<char>| decode_line(l))
            == rows,
{
    let got = rows.map_values(|r: Seq<Seq<char>>| row_line(r)).map_values(
        |l: Seq<char>| decode_line(l),
    );
    assert forall|k: int| 0 <= k < rows.len() implies #[trigger] got[k] == rows[k] by {
        let r = rows[k];
        assert(row_line(r).len() > 0);
        if r.len() == 0 {
            assert(encode_all(r).len() == 0);
        }
        lemma_row_round_trip(r);
        assert(decode_line(row_line(r)) =~= decode_all(spec_split_row(join_pipe(encode_all(r)))));
    }
    assert(got =~= rows);
}

/// The lines of a written table: its header lines, then its data lines.
proof fn lemma_table_lines(t: TableView)
    requires
        table_round_trips(t),
    ensures
        lines_of(spec_serialize_table(t)) == table_header_lines(t) + t.records.map_values(
            |r: Seq<Seq<char>>| row_line(r),
        ),
{
    let hl = table_header_lines(t);
    let dl = t.records.map_values(|r: Seq<Seq<char>>| row_line(r));
    lemma_table_text(t);
    lemma_text_of_lines_append(hl, dl);
    let ls = hl + dl;
    let f = t.fields;
    let descs = f.map_values(|x: FieldDefView| x.desc);
    let types = f.map_values(|x: FieldDefView| x.tbl_type);
    let labels = f.map_values(|x: FieldDefView| x.export.spec_to_tbl());
    let names = f.map_values(|x: FieldDefView| x.name);
    reveal_strlit("#!tbl v2");
    reveal_strlit("#mode table");
    reveal_strlit("#desc ");
    reveal_strlit("#export ");
    reveal_strlit("#type ");
    reveal_strlit("#field ");
    reveal_strlit("---");
    // no line holds a line break
    lemma_row_line_plain(descs);
    assert forall|i: int| 0 <= i < labels.len() implies lacks(#[trigger] labels[i], '\n')
        && lacks(labels[i], '\r') by {
        lemma_export_label(f[i].export);
    }
    lemma_join_lacks(labels, '\n');
    lemma_join_lacks(labels, '\r');
    assert forall|i: int| 0 <= i < types.len() implies lacks(#[trigger] types[i], '\n') by {
        assert(types[i] == f[i].tbl_type);
    }
    lemma_join_lacks(types, '\n');
    assert forall|i: int| 0 <= i < names.len() implies lacks(#[trigger] names[i], '\n') by {
        assert(names[i] == f[i].name);
    }
    lemma_join_lacks(names, '\n');
    lemma_concat_lacks("#desc "@, join_pipe(encode_all(descs)), '\n');
    lemma_concat_lacks("#export "@, join_pipe(labels), '\n');
    lemma_concat_lacks("#type "@, join_pipe(types), '\n');
    lemma_concat_lacks("#field "@, join_pipe(names), '\n');
    assert forall|k: int| 0 <= k < dl.len() implies lacks(#[trigger] dl[k], '\n') && lacks(
        dl[k],
        '\r',
    ) by {
        lemma_row_line_plain(t.records[k]);
    }
    assert forall|i: int| 0 <= i < ls.len() implies lacks(#[trigger] ls[i], '\n') by {
        if i >= hl.len() {
            assert(ls[i] == dl[i - hl.len()]);
        }
    }
    lemma_lines_of_text(ls);
    // no line ends in `\r`
    lemma_concat_lacks("#desc "@, join_pipe(encode_all(descs)), '\r');
    lemma_concat_lacks("#export "@, join_pipe(labels), '\r');
    let lt = f[f.len() - 1];
    if lt.tbl_type.len() > 0 {
        lemma_trimmed_last(lt.tbl_type);
    }
    if lt.name.len() > 0 {
        lemma_trimmed_last(lt.name);
    }
    assert(types.last() == lt.tbl_type);
    assert(names.last() == lt.name);
    lemma_join_line_no_cr("#type "@, types);
    lemma_join_line_no_cr("#field "@, names);
    assert forall|i: int| 0 <= i < ls.len() implies strip_cr(#[trigger] ls[i]) == ls[i] by {
        if i >= hl.len() {
            assert(ls[i] == dl[i - hl.len()]);
            let l = dl[i - hl.len()];
            if l.len() > 0 {
                assert(l.last() != '\r');
            }
        } else if i == 2 || i == 3 {
            let l = ls[i];
            assert(lacks(l, '\r'));
            if l.len() > 0 {
                assert(l[l.len() - 1] != '\r');
            }
        }
    }
    assert(ls.map_values(|p: Seq<char>| strip_cr(p)) =~= ls);
}

/// A table written and read again is the same table, clean, with its
/// written text as its last saved form.
pub proof fn law_table_round_trip(t: TableView)
    requires
        table_round_trips(t),
    ensures
        spec_parse_tbl(spec_serialize_table(t), t.name, t.path) == Ok::<TblFileView, TblErrorView>(
            TblFileView::Table(
                TableView { dirty: false, deleted: false, saved_text: spec_serialize_table(t), ..t },
            ),
        ),
{
    let hl = table_header_lines(t);
    let dl = t.records.map_values(|r: Seq<Seq<char>>| row_line(r));
    lemma_table_lines(t);
    let ls = hl + dl;
    reveal_strlit("#!tbl v2");
    reveal_strlit("#!tbl");
    assert(ls[0] == "#!tbl v2"@);
    assert(starts_with(ls[0], "#!tbl"@)) by {
        assert(ls[0].take(5) =~= "#!tbl"@);
    }
    assert(ls.skip(1) =~= hl.drop_first() + dl);
    lemma_read_header_from(ls.skip(1));
    lemma_read_from_append(empty_header(), hl.drop_first(), dl);
    lemma_table_header_read(t);
    assert forall|k: int| 0 <= k < dl.len() implies (#[trigger] dl[k]).len() > 0 by {
        assert(dl[k] == row_line(t.records[k]));
    }
    lemma_read_data(table_header_after(t), dl);
    let h = read_header(ls.skip(1));
    assert(h.data =~= dl);
    reveal_strlit("table");
    lemma_table_fields_back(t);
    lemma_records_back(t.records);
    assert(h.data.map_values(|l: Seq<char>| decode_line(l)) == t.records);
}

pub(crate) proof fn lemma_split_over_plain(x: Seq<char>, rest: Seq<char>, cur: Seq<char>)
    requires
        lacks(x, '\\'),
        lacks(x, '|'),
    ensures
        spec_split_acc(x + rest, cur) == spec_split_acc(rest, cur + x),
    decreases x.len(),
{
    if x.len() == 0 {
        assert(x + rest =~= rest);
        assert(cur + x =~= cur);
    } else {
        let t = x.drop_first();
        assert forall|i: int| 0 <= i < t.len() implies t[i] != '\\' && t[i] != '|' by {
            assert(t[i] == x[i + 1]);
        }
        assert(x[0] != '\\' && x[0] != '|');
        assert((x + rest).drop_first() =~= t + rest);
        lemma_split_over_plain(t, rest, cur.push(x[0]));
        assert(cur.push(x[0]) + t =~= cur + x);
    }
}

pub(crate) proof fn lemma_split_pipe(rest: Seq<char>, cur: Seq<char>)
    ensures
        spec_split_acc(seq!['|'] + rest, cur) == seq![cur] + spec_split_acc(rest, seq![]),
{
    assert((seq!['|'] + rest).drop_first() =~= rest);
}

pub(crate) proof fn lemma_decode_plain_cell(x: Seq<char>)
    requires
        lacks(x, '\\'),
    ensures
        spec_decode_str(x) == x,
{
    lemma_decode_plain(x);
}

/// Data line of a constant entry, without its line break.
pub open spec fn const_body(e: ConstEntryView) -> Seq<char> {
    spec_encode_str(e.name) + "|"@ + e.tbl_type + "|"@ + spec_encode_str(e.value) + "|"@
        + e.export.spec_to_tbl() + "|"@ + spec_encode_str(e.desc)
}

/// Whether a constant entry reads back as written: name, type, value and
/// description trimmed; a type without `|`, backslash or line break; a
/// known export side.
pub open spec fn const_entry_round_trips(e: ConstEntryView) -> bool {
    &&& trim(e.name) == e.name
    &&& trim(e.tbl_type) == e.tbl_type
    &&& lacks(e.tbl_type, '|')
    &&& lacks(e.tbl_type, '\\')
    &&& lacks(e.tbl_type, '\n')
    &&& trim(e.value) == e.value
    &&& trim(e.desc) == e.desc
    &&& e.export != Export::Unselected
}

proof fn lemma_const_body_back(e: ConstEntryView)
    requires
        const_entry_round_trips(e),
    ensures
        const_entry_of(const_body(e)) == Some(e),
        lacks(const_body(e), '\n'),
        const_body(e).len() > 0,
        const_body(e).last() != '\r',
{
    reveal_strlit("|");
    let p = seq!['|'];
    assert("|"@ =~= p);
    let a = spec_encode_str(e.name);
    let b = e.tbl_type;
    let c = spec_encode_str(e.value);
    let d = e.export.spec_to_tbl();
    let f = spec_encode_str(e.desc);
    lemma_export_label(e.export);
    assert(lacks(d, '\\')) by {
        reveal_strlit("");
        reveal_strlit("客户端");
        reveal_strlit("服务器");
        reveal_strlit("不导出");
    }
    let body = const_body(e);
    assert(body =~= a + (p + (b + (p + (c + (p + (d + (p + f))))))));
    // splitting
    lemma_split_over_encoded(e.name, p + (b + (p + (c + (p + (d + (p + f)))))), seq![]);
    assert(seq![] + a =~= a);
    lemma_split_pipe(b + (p + (c + (p + (d + (p + f))))), a);
    lemma_split_over_plain(b, p + (c + (p + (d + (p + f)))), seq![]);
    assert(seq![] + b =~= b);
    lemma_split_pipe(c + (p + (d + (p + f))), b);
    lemma_split_over_encoded(e.value, p + (d + (p + f)), seq![]);
    assert(seq![] + c =~= c);
    lemma_split_pipe(d + (p + f), c);
    lemma_split_over_plain(d, p + f, seq![]);
    assert(seq![] + d =~= d);
    lemma_split_pipe(f, d);
    lemma_split_over_encoded(e.desc, seq![], seq![]);
    assert(f + seq![] =~= f);
    assert(seq![] + f =~= f);
    let raw = spec_split_row(body);
    assert(raw =~= seq![a, b, c, d, f]);
    lemma_decode_encode(e.name);
    lemma_decode_encode(e.value);
    lemma_decode_encode(e.desc);
    lemma_decode_plain_cell(b);
    lemma_decode_plain_cell(d);
    // one line, not ending in `\r`
    lemma_encoded_plain(e.name);
    lemma_encoded_plain(e.value);
    lemma_encoded_plain(e.desc);
    lemma_concat_lacks(d, p + f, '\n');
    lemma_concat_lacks(p, f, '\n');
    lemma_concat_lacks(c, p + (d + (p + f)), '\n');
    lemma_concat_lacks(p, d + (p + f), '\n');
    lemma_concat_lacks(p, c + (p + (d + (p + f))), '\n');
    lemma_concat_lacks(b, p + (c + (p + (d + (p + f)))), '\n');
    lemma_concat_lacks(p, b + (p + (c + (p + (d + (p + f))))), '\n');
    lemma_concat_lacks(a, p + (b + (p + (c + (p + (d + (p + f)))))), '\n');
    if f.len() > 0 {
        assert(body.last() == f.last());
        assert(f[f.len() - 1] != '\r');
    } else {
        assert(body.last() == '|');
    }
}

/// Whether a constant set reads back as written: each entry does.
pub open spec fn constant_round_trips(c: ConstantView) -> bool {
    forall|i: int| 0 <= i < c.entries.len() ==> const_entry_round_trips(#[trigger] c.entries[i])
}

proof fn lemma_const_lines_text(es: Seq<ConstEntryView>)
    ensures
        const_lines(es) == text_of_lines(es.map_values(|e: ConstEntryView| const_body(e))),
    decreases es.len(),
{
    if es.len() > 0 {
        lemma_const_lines_text(es.drop_last());
        assert(es.map_values(|e: ConstEntryView| const_body(e)).drop_last() =~= es.drop_last().map_values(
            |e: ConstEntryView| const_body(e),
        ));
        reveal_strlit("\n");
        assert(const_line(es.last()) =~= const_body(es.last()) + seq!['\n']);
    }
}

proof fn lemma_const_entries_back(es: Seq<ConstEntryView>)
    requires
        forall|i: int| 0 <= i < es.len() ==> const_entry_round_trips(#[trigger] es[i]),
    ensures
        const_entries_of(es.map_values(|e: ConstEntryView| const_body(e))) == es,
    decreases es.len(),
{
    if es.len() > 0 {
        let ls = es.map_values(|e: ConstEntryView| const_body(e));
        assert(ls.drop_last() =~= es.drop_last().map_values(|e: ConstEntryView| const_body(e)));
        assert forall|i: int| 0 <= i < es.drop_last().len() implies const_entry_round_trips(
            #[trigger] es.drop_last()[i],
        ) by {
            assert(es.drop_last()[i] == es[i]);
        }
        lemma_const_entries_back(es.drop_last());
        assert(const_entry_round_trips(es[es.len() - 1]));
        lemma_const_body_back(es.last());
        assert(es.drop_last().push(es.last()) =~= es);
    }
}

/// A `#mode <word>` line then `---`, for a word without white space.
proof fn lemma_mode_header(word: Seq<char>)
    requires
        word.len() > 0,
        forall|i: int| 0 <= i < word.len() ==> !is_ws(#[trigger] word[i]),
    ensures
        read_from(empty_header(), seq!["#mode "@ + word, "---"@]) == (TblHeader {
            mode: word,
            in_data: true,
            ..empty_header()
        }),
{
    reveal_strlit("#mode ");
    reveal_strlit("---");
    reveal_with_fuel(read_from, 3);
    let l1 = "#mode "@ + word;
    lemma_not_prefix(l1, "---"@, 0);
    lemma_prefixed("#mode "@, word);
    lemma_trim_plain(word);
    let h1 = header_step(empty_header(), l1);
    assert(h1 == TblHeader { mode: word, ..empty_header() });
    assert(seq![l1, "---"@].drop_last() =~= seq![l1]);
    assert(seq![l1].drop_last() =~= Seq::<Seq<char>>::empty());
}

/// The lines of a file made of three header lines and data lines with no
/// line break nor final `\r`.
proof fn lemma_simple_file_lines(mode_line: Seq<char>, dl: Seq<Seq<char>>)
    requires
        lacks(mode_line, '\n'),
        mode_line.len() > 0,
        mode_line.last() != '\r',
        forall|k: int|
            0 <= k < dl.len() ==> lacks(#[trigger] dl[k], '\n') && dl[k].len() > 0 && dl[k].last()
                != '\r',
    ensures
        lines_of(text_of_lines(seq!["#!tbl v2"@, mode_line, "---"@] + dl)) == seq![
            "#!tbl v2"@,
            mode_line,
            "---"@,
        ] + dl,
{
    reveal_strlit("#!tbl v2");
    reveal_strlit("---");
    let hl = seq!["#!tbl v2"@, mode_line, "---"@];
    let ls = hl + dl;
    assert forall|i: int| 0 <= i < ls.len() implies lacks(#[trigger] ls[i], '\n') by {
        if i >= hl.len() {
            assert(ls[i] == dl[i - hl.len()]);
        }
    }
    lemma_lines_of_text(ls);
    assert forall|i: int| 0 <= i < ls.len() implies strip_cr(#[trigger] ls[i]) == ls[i] by {
        if i >= hl.len() {
            assert(ls[i] == dl[i - hl.len()]);
        }
    }
    assert(ls.map_values(|p: Seq<char>| strip_cr(p)) =~= ls);
}

/// The header read from a file made of `#!tbl v2`, `#mode <word>`, `---`
/// and non-empty data lines.
proof fn lemma_simple_file_header(word: Seq<char>, dl: Seq<Seq<char>>)
    requires
        word.len() > 0,
        forall|i: int| 0 <= i < word.len() ==> !is_ws(#[trigger] word[i]),
        forall|k: int| 0 <= k < dl.len() ==> (#[trigger] dl[k]).len() > 0,
    ensures
        ({
            let ls = seq!["#!tbl v2"@, "#mode "@ + word, "---"@] + dl;
            &&& starts_with(ls[0], "#!tbl"@)
            &&& read_header(ls.skip(1)).mode == word
            &&& read_header(ls.skip(1)).data == dl
        }),
{
    reveal_strlit("#!tbl v2");
    reveal_strlit("#!tbl");
    let l1 = "#mode "@ + word;
    let ls = seq!["#!tbl v2"@, l1, "---"@] + dl;
    assert(ls[0].take(5) =~= "#!tbl"@);
    assert(ls.skip(1) =~= seq![l1, "---"@] + dl);
    lemma_read_header_from(ls.skip(1));
    lemma_read_from_append(empty_header(), seq![l1, "---"@], dl);
    lemma_mode_header(word);
    lemma_read_data(TblHeader { mode: word, in_data: true, ..empty_header() }, dl);
    assert(Seq::<Seq<char>>::empty() + dl =~= dl);
}

/// A constant set written and read again is the same set, clean, with its
/// written text as its last saved form.
pub proof fn law_constant_round_trip(c: ConstantView)
    requires
        constant_round_trips(c),
    ensures
        spec_parse_tbl(spec_serialize_constant(c), c.name, c.path) == Ok::<
            TblFileView,
            TblErrorView,
        >(
            TblFileView::Constant(
                ConstantView {
                    dirty: false,
                    deleted: false,
                    saved_text: spec_serialize_constant(c),
                    ..c
                },
            ),
        ),
{
    reveal_strlit("#!tbl v2\n#mode constant\n---\n");
    reveal_strlit("#!tbl v2");
    reveal_strlit("#mode constant");
    reveal_strlit("#mode ");
    reveal_strlit("---");
    reveal_strlit("constant");
    reveal_strlit("table");
    let word = "constant"@;
    let l1 = "#mode "@ + word;
    assert(l1 =~= "#mode constant"@);
    let hl = seq!["#!tbl v2"@, l1, "---"@];
    let dl = c.entries.map_values(|e: ConstEntryView| const_body(e));
    reveal_with_fuel(text_of_lines, 4);
    lemma_const_lines_text(c.entries);
    assert(text_of_lines(hl) =~= "#!tbl v2\n#mode constant\n---\n"@);
    lemma_text_of_lines_append(hl, dl);
    assert forall|k: int| 0 <= k < dl.len() implies lacks(#[trigger] dl[k], '\n')
        && dl[k].len() > 0 && dl[k].last() != '\r' by {
        assert(const_entry_round_trips(c.entries[k]));
        lemma_const_body_back(c.entries[k]);
    }
    lemma_concat_lacks("#mode "@, word, '\n');
    lemma_simple_file_lines(l1, dl);
    assert forall|i: int| 0 <= i < word.len() implies !is_ws(#[trigger] word[i]) by {}
    lemma_simple_file_header(word, dl);
    assert(word != "table"@);
    lemma_const_entries_back(c.entries);
}

/// Data line of an enum entry, without its line break.
pub open spec fn enum_body(e: EnumEntryView) -> Seq<char> {
    join_pipe(encode_all(seq![e.id, e.name, e.desc]))
}

/// Whether an enum reads back as written: ids, names and descriptions are
/// trimmed.
pub open spec fn enum_round_trips(en: EnumDefView) -> bool {
    forall|i: int|
        0 <= i < en.entries.len() ==> {
            let e = #[trigger] en.entries[i];
            trim(e.id) == e.id && trim(e.name) == e.name && trim(e.desc) == e.desc
        }
}

proof fn lemma_enum_body(e: EnumEntryView)
    requires
        trim(e.id) == e.id && trim(e.name) == e.name && trim(e.desc) == e.desc,
    ensures
        enum_entry_of(enum_body(e)) == e,
        enum_line(e) == enum_body(e) + seq!['\n'],
        lacks(enum_body(e), '\n'),
        lacks(enum_body(e), '\r'),
        enum_body(e).len() > 0,
{
    let cells = seq![e.id, e.name, e.desc];
    lemma_row_round_trip(cells);
    lemma_row_line_plain(cells);
    reveal_strlit("|");
    reveal_strlit("\n");
    let enc = encode_all(cells);
    reveal_with_fuel(join_pipe, 3);
    assert(enc.drop_first().drop_first() =~= seq![spec_encode_str(e.desc)]);
    assert(enum_body(e) =~= spec_encode_str(e.id) + seq!['|'] + spec_encode_str(e.name) + seq![
        '|',
    ] + spec_encode_str(e.desc));
    assert(enum_line(e) =~= enum_body(e) + seq!['\n']);
    let raw = spec_split_row(enum_body(e));
    assert(decode_all(raw)[0] == e.id);
    assert(decode_all(raw)[1] == e.name);
    assert(decode_all(raw)[2] == e.desc);
}

proof fn lemma_enum_lines_text(es: Seq<EnumEntryView>)
    requires
        forall|i: int|
            0 <= i < es.len() ==> {
                let e = #[trigger] es[i];
                trim(e.id) == e.id && trim(e.name) == e.name && trim(e.desc) == e.desc
            },
    ensures
        enum_lines(es) == text_of_lines(es.map_values(|e: EnumEntryView| enum_body(e))),
    decreases es.len(),
{
    if es.len() > 0 {
        assert forall|i: int| 0 <= i < es.drop_last().len() implies {
            let e = #[trigger] es.drop_last()[i];
            trim(e.id) == e.id && trim(e.name) == e.name && trim(e.desc) == e.desc
        } by {
            assert(es.drop_last()[i] == es[i]);
        }
        lemma_enum_lines_text(es.drop_last());
        assert(es.map_values(|e: EnumEntryView| enum_body(e)).drop_last() =~= es.drop_last().map_values(
            |e: EnumEntryView| enum_body(e),
        ));
        let last = es[es.len() - 1];
        lemma_enum_body(last);
    }
}

/// An enum written and read again is the same enum, clean, with its written
/// text as its last saved form.
pub proof fn law_enum_round_trip(en: EnumDefView)
    requires
        enum_round_trips(en),
    ensures
        spec_parse_tbl(spec_serialize_enum(en), en.name, en.path) == Ok::<TblFileView, TblErrorView>(
            TblFileView::Enum(
                EnumDefView { dirty: false, deleted: false, saved_text: spec_serialize_enum(en), ..en },
            ),
        ),
{
    reveal_strlit("#!tbl v2\n#mode enum\n---\n");
    reveal_strlit("#!tbl v2");
    reveal_strlit("#mode enum");
    reveal_strlit("#mode ");
    reveal_strlit("---");
    reveal_strlit("enum");
    reveal_strlit("table");
    reveal_strlit("constant");
    let word = "enum"@;
    let l1 = "#mode "@ + word;
    assert(l1 =~= "#mode enum"@);
    let hl = seq!["#!tbl v2"@, l1, "---"@];
    let dl = en.entries.map_values(|e: EnumEntryView| enum_body(e));
    reveal_with_fuel(text_of_lines, 4);
    lemma_enum_lines_text(en.entries);
    assert(text_of_lines(hl) =~= "#!tbl v2\n#mode enum\n---\n"@);
    lemma_text_of_lines_append(hl, dl);
    assert forall|k: int| 0 <= k < dl.len() implies lacks(#[trigger] dl[k], '\n')
        && dl[k].len() > 0 && dl[k].last() != '\r' && enum_entry_of(dl[k]) == en.entries[k] by {
        let e = en.entries[k];
        assert(trim(e.id) == e.id && trim(e.name) == e.name && trim(e.desc) == e.desc);
        lemma_enum_body(e);
        assert(dl[k][dl[k].len() - 1] != '\r');
    }
    lemma_concat_lacks("#mode "@, word, '\n');
    lemma_simple_file_lines(l1, dl);
    assert forall|i: int| 0 <= i < word.len() implies !is_ws(#[trigger] word[i]) by {}
    lemma_simple_file_header(word, dl);
    assert(word != "table"@);
    assert(word != "constant"@);
    assert(dl.map_values(|l: Seq<char>| enum_entry_of(l)) =~= en.entries);
}

/// Reading an export side ignores white space around the text: the text
/// and its trim read as the same side. It reads as `Unselected` exactly
/// when its trim is none of the labels and codes of the other sides (the
/// empty text being both sides).
pub proof fn law_export_from_text_trims(s: Seq<char>)
    ensures
        Export::spec_from_text(trim(trim(s))) == Export::spec_from_text(trim(s)),
        Export::spec_from_text(trim(s)) == Export::Unselected <==> !(trim(s) == "前后端"@ || trim(s) == "cs"@
            || trim(s).len() == 0 || trim(s) == "客户端"@ || trim(s) == "c"@ || trim(s) == "服务器"@ || trim(s)
            == "s"@ || trim(s) == "不导出"@ || trim(s) == "-"@),
{
    lemma_trim_idempotent(s);
}

/// Every export side but `Unselected` reads back from its label, its
/// `.tbl` label and its short code.
pub proof fn law_export_text_round_trip(e: Export)
    requires
        e != Export::Unselected,
    ensures
        Export::spec_from_text(trim(e.spec_display())) == e,
        Export::spec_from_text(trim(e.spec_to_tbl())) == e,
        Export::spec_from_text(trim(e.spec_code())) == e,
{
    lemma_export_label(e);
    reveal_strlit("");
    reveal_strlit("前后端");
    reveal_strlit("客户端");
    reveal_strlit("服务器");
    reveal_strlit("不导出");
    reveal_strlit("cs");
    reveal_strlit("c");
    reveal_strlit("s");
    reveal_strlit("-");
    let d = e.spec_display();
    assert forall|i: int| 0 <= i < d.len() implies !is_ws(#[trigger] d[i]) by {}
    lemma_trim_plain(d);
    let c = e.spec_code();
    assert forall|i: int| 0 <= i < c.len() implies !is_ws(#[trigger] c[i]) by {}
    lemma_trim_plain(c);
    if e == Export::ClientServer {
        assert(d == "前后端"@);
    } else if e == Export::ClientOnly {
        assert("客户端"@ != "前后端"@) by {
            assert("客户端"@[0] != "前后端"@[0]);
        }
        assert("c"@ != "cs"@);
    } else if e == Export::ServerOnly {
        assert("服务器"@ != "前后端"@) by {
            assert("服务器"@[0] != "前后端"@[0]);
        }
        assert("服务器"@ != "客户端"@) by {
            assert("服务器"@[0] != "客户端"@[0]);
        }
        assert("s"@ != "cs"@);
        assert("s"@ != "c"@) by {
            assert("s"@[0] != "c"@[0]);
        }
    } else {
        assert("不导出"@ != "前后端"@) by {
            assert("不导出"@[0] != "前后端"@[0]);
        }
        assert("不导出"@ != "客户端"@) by {
            assert("不导出"@[0] != "客户端"@[0]);
        }
        assert("不导出"@ != "服务器"@) by {
            assert("不导出"@[0] != "服务器"@[0]);
        }
        assert("-"@ != "cs"@);
        assert("-"@ != "c"@) by {
            assert("-"@[0] != "c"@[0]);
        }
        assert("-"@ != "s"@) by {
            assert("-"@[0] != "s"@[0]);
        }
    }
}

} // verus!
