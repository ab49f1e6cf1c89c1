//! Cell codec of the `.tbl` format: the bare value of a cell and its stored
//! form, and the splitting of a stored row into its cells.
//!
//! The stored form escapes five characters (`\`, `|`, newline, carriage
//! return, tab) with a backslash, so that a stored cell never holds a bare
//! column separator or line break.

use vstd::prelude::*;
use crate::text::{chars_of, push_char};
use crate::types::{spec_parse_type, BaseType, TblType};

verus! {

/// The five characters that the stored form escapes.
pub open spec fn is_special(c: char) -> bool {
    c == '\\' || c == '|' || c == '\n' || c == '\r' || c == '\t'
}

/// Stored form of one character.
pub open spec fn escape_char(c: char) -> Seq<char> {
    if c == '\\' {
        seq!['\\', '\\']
    } else if c == '|' {
        seq!['\\', '|']
    } else if c == '\n' {
        seq!['\\', 'n']
    } else if c == '\r' {
        seq!['\\', 'r']
    } else if c == '\t' {
        seq!['\\', 't']
    } else {
        seq![c]
    }
}

/// Stored form of a whole value: each character replaced by its stored form.
pub open spec fn spec_encode_str(s: Seq<char>) -> Seq<char>
    decreases s.len(),
{
    if s.len() == 0 {
        seq![]
    } else {
        escape_char(s[0]) + spec_encode_str(s.drop_first())
    }
}

/// What the escape sequence `\k` stands for; an unknown sequence stays as
/// its two characters.
pub open spec fn unescape_pair(k: char) -> Seq<char> {
    if k == '\\' {
        seq!['\\']
    } else if k == '|' {
        seq!['|']
    } else if k == 'n' {
        seq!['\n']
    } else if k == 'r' {
        seq!['\r']
    } else if k == 't' {
        seq!['\t']
    } else {
        seq!['\\', k]
    }
}

/// Bare value of a stored cell, read left to right; a trailing lone
/// backslash stays a backslash.
pub open spec fn spec_decode_str(s: Seq<char>) -> Seq<char>
    decreases s.len(),
{
    if s.len() == 0 {
        seq![]
    } else if s[0] != '\\' {
        seq![s[0]] + spec_decode_str(s.drop_first())
    } else if s.len() == 1 {
        seq!['\\']
    } else {
        unescape_pair(s[1]) + spec_decode_str(s.subrange(2, s.len() as int))
    }
}

/// The cells of a stored row, `cur` being the cell read so far: `|` ends a
/// cell, and a backslash keeps the next character in the cell.
pub open spec fn spec_split_acc(s: Seq<char>, cur: Seq<char>) -> Seq<Seq<char>>
    decreases s.len(),
{
    if s.len() == 0 {
        seq![cur]
    } else if s[0] == '\\' {
        if s.len() >= 2 {
            spec_split_acc(s.subrange(2, s.len() as int), cur + seq![s[0], s[1]])
        } else {
            spec_split_acc(s.drop_first(), cur.push(s[0]))
        }
    } else if s[0] == '|' {
        seq![cur] + spec_split_acc(s.drop_first(), seq![])
    } else {
        spec_split_acc(s.drop_first(), cur.push(s[0]))
    }
}

/// The cells of a stored row.
pub open spec fn spec_split_row(s: Seq<char>) -> Seq<Seq<char>> {
    spec_split_acc(s, seq![])
}

/// Cells joined with `|`.
pub open spec fn join_pipe(cells: Seq<Seq<char>>) -> Seq<char>
    decreases cells.len(),
{
    if cells.len() == 0 {
        seq![]
    } else if cells.len() == 1 {
        cells[0]
    } else {
        cells[0] + seq!['|'] + join_pipe(cells.drop_first())
    }
}

pub open spec fn views_of(v: Seq<String>) -> Seq<Seq<char>> {
    v.map_values(|x: String| x@)
}

pub open spec fn has_special(s: Seq<char>) -> bool {
    exists|i: int| 0 <= i < s.len() && is_special(#[trigger] s[i])
}

pub open spec fn has_backslash(s: Seq<char>) -> bool {
    exists|i: int| 0 <= i < s.len() && #[trigger] s[i] == '\\'
}

/// A value without special characters is its own stored form.
pub proof fn lemma_encode_plain(s: Seq<char>)
    requires
        !has_special(s),
    ensures
        spec_encode_str(s) == s,
    decreases s.len(),
{
    if s.len() > 0 {
        assert(!is_special(s[0]));
        assert forall|i: int| 0 <= i < s.drop_first().len() implies !is_special(
            #[trigger] s.drop_first()[i],
        ) by {
            assert(s.drop_first()[i] == s[i + 1]);
        }
        lemma_encode_plain(s.drop_first());
        assert(s =~= seq![s[0]] + s.drop_first());
    }
}

/// A stored cell without backslash is its own bare value.
pub proof fn lemma_decode_plain(s: Seq<char>)
    requires
        !has_backslash(s),
    ensures
        spec_decode_str(s) == s,
    decreases s.len(),
{
    if s.len() > 0 {
        assert(s[0] != '\\');
        assert forall|i: int| 0 <= i < s.drop_first().len() implies #[trigger] s.drop_first()[i]
            != '\\' by {
            assert(s.drop_first()[i] == s[i + 1]);
        }
        lemma_decode_plain(s.drop_first());
        assert(s =~= seq![s[0]] + s.drop_first());
    }
}

proof fn lemma_decode_after_escape(c: char, rest: Seq<char>)
    ensures
        spec_decode_str(escape_char(c) + rest) == seq![c] + spec_decode_str(rest),
{
    let e = escape_char(c) + rest;
    if is_special(c) {
        let k = if c == '\\' { '\\' } else if c == '|' { '|' } else if c == '\n' { 'n' } else if c
            == '\r' { 'r' } else { 't' };
        assert(escape_char(c) == seq!['\\', k]);
        assert(e[0] == '\\');
        assert(e[1] == k);
        assert(unescape_pair(k) == seq![c]);
        assert(e.subrange(2, e.len() as int) =~= rest);
        assert(spec_decode_str(e) == unescape_pair(e[1]) + spec_decode_str(
            e.subrange(2, e.len() as int),
        ));
    } else {
        assert(escape_char(c) == seq![c]);
        assert(e[0] == c);
        assert(e.drop_first() =~= rest);
    }
}

/// Reading back the stored form of a value gives the value.
pub proof fn lemma_decode_encode(s: Seq<char>)
    ensures
        spec_decode_str(spec_encode_str(s)) == s,
    decreases s.len(),
{
    if s.len() > 0 {
        lemma_decode_encode(s.drop_first());
        lemma_decode_after_escape(s[0], spec_encode_str(s.drop_first()));
        assert(s =~= seq![s[0]] + s.drop_first());
    }
}

/// A stored value never holds a bare `|`: splitting runs through it as
/// through one cell.
pub proof fn lemma_split_over_encoded(c: Seq<char>, rest: Seq<char>, cur: Seq<char>)
    ensures
        spec_split_acc(spec_encode_str(c) + rest, cur) == spec_split_acc(
            rest,
            cur + spec_encode_str(c),
        ),
    decreases c.len(),
{
    if c.len() == 0 {
        assert(spec_encode_str(c) + rest =~= rest);
        assert(cur + spec_encode_str(c) =~= cur);
    } else {
        let e = escape_char(c[0]);
        let tail = spec_encode_str(c.drop_first());
        assert(spec_encode_str(c) == e + tail);
        let whole = e + tail + rest;
        assert(spec_encode_str(c) + rest =~= whole);
        lemma_split_over_encoded(c.drop_first(), rest, cur + e);
        if is_special(c[0]) {
            assert(whole[0] == '\\');
            assert(whole.subrange(2, whole.len() as int) =~= tail + rest);
            assert(cur + seq![whole[0], whole[1]] =~= cur + e);
        } else {
            assert(whole.drop_first() =~= tail + rest);
            assert(cur.push(whole[0]) =~= cur + e);
        }
        assert(cur + e + tail =~= cur + spec_encode_str(c));
    }
}

pub open spec fn encode_all(cells: Seq<Seq<char>>) -> Seq<Seq<char>> {
    cells.map_values(|c: Seq<char>| spec_encode_str(c))
}

pub open spec fn decode_all(cells: Seq<Seq<char>>) -> Seq<Seq<char>> {
    cells.map_values(|c: Seq<char>| spec_decode_str(c))
}

proof fn lemma_split_joined_acc(cells: Seq<Seq<char>>, cur: Seq<char>)
    requires
        cells.len() >= 1,
    ensures
        spec_split_acc(join_pipe(encode_all(cells)), cur) == seq![
            cur + spec_encode_str(cells[0]),
        ] + encode_all(cells.drop_first()),
    decreases cells.len(),
{
    let enc = encode_all(cells);
    if cells.len() == 1 {
        assert(join_pipe(enc) == enc[0]);
        lemma_split_over_encoded(cells[0], seq![], cur);
        assert(spec_encode_str(cells[0]) + seq![] =~= spec_encode_str(cells[0]));
        assert(encode_all(cells.drop_first()) =~= seq![]);
        assert(spec_split_acc(seq![], cur + spec_encode_str(cells[0])) == seq![
            cur + spec_encode_str(cells[0]),
        ]);
    } else {
        let rest_cells = cells.drop_first();
        assert(enc.drop_first() =~= encode_all(rest_cells));
        let tail = seq!['|'] + join_pipe(encode_all(rest_cells));
        assert(join_pipe(enc) =~= spec_encode_str(cells[0]) + tail);
        lemma_split_over_encoded(cells[0], tail, cur);
        assert(tail[0] == '|');
        assert(tail.drop_first() =~= join_pipe(encode_all(rest_cells)));
        lemma_split_joined_acc(rest_cells, seq![]);
        assert(seq![] + spec_encode_str(rest_cells[0]) =~= spec_encode_str(rest_cells[0]));
        assert(encode_all(rest_cells) =~= seq![spec_encode_str(rest_cells[0])] + encode_all(
            rest_cells.drop_first(),
        ));
    }
}

/// Splitting a row of stored cells joined with `|` gives back the stored
/// cells; decoding them gives back the values (the row round trip of the
/// `.tbl` format).
pub proof fn lemma_row_round_trip(cells: Seq<Seq<char>>)
    requires
        cells.len() >= 1,
    ensures
        spec_split_row(join_pipe(encode_all(cells))) == encode_all(cells),
        decode_all(spec_split_row(join_pipe(encode_all(cells)))) == cells,
{
    lemma_split_joined_acc(cells, seq![]);
    assert(seq![] + spec_encode_str(cells[0]) =~= spec_encode_str(cells[0]));
    assert(encode_all(cells) =~= seq![spec_encode_str(cells[0])] + encode_all(cells.drop_first()));
    assert forall|i: int| 0 <= i < cells.len() implies #[trigger] decode_all(
        encode_all(cells),
    )[i] == cells[i] by {
        lemma_decode_encode(cells[i]);
    }
    assert(decode_all(encode_all(cells)) =~= cells);
}


fn push_escaped(out: &mut String, c: char)
    ensures
        final(out)@ == old(out)@ + escape_char(c),
{
    if c == '\\' {
        push_char(out, '\\');
        push_char(out, '\\');
    } else if c == '|' {
        push_char(out, '\\');
        push_char(out, '|');
    } else if c == '\n' {
        push_char(out, '\\');
        push_char(out, 'n');
    } else if c == '\r' {
        push_char(out, '\\');
        push_char(out, 'r');
    } else if c == '\t' {
        push_char(out, '\\');
        push_char(out, 't');
    } else {
        push_char(out, c);
    }
    assert(final(out)@ =~= old(out)@ + escape_char(c));
}

/// Stored form of a value: each of the five special characters becomes a
/// backslash sequence.
pub fn encode_str(s: &str) -> (r: String)
    ensures
        r@ == spec_encode_str(s@),
{
    let v = chars_of(s);
    let mut out = String::new();
    let mut i: usize = 0;
    assert(s@.skip(0) =~= s@);
    assert(out@ + spec_encode_str(s@) =~= spec_encode_str(s@));
    while i < v.len()
        invariant
            i <= v.len(),
            v@ == s@,
            spec_encode_str(s@) == out@ + spec_encode_str(s@.skip(i as int)),
        decreases v.len() - i,
    {
        let ghost before = out@;
        assert(s@.skip(i as int).drop_first() =~= s@.skip(i + 1));
        push_escaped(&mut out, v[i]);
        i = i + 1;
    }
    assert(s@.skip(i as int) =~= Seq::<char>::empty());
    out
}

fn push_unescaped(out: &mut String, k: char)
    ensures
        final(out)@ == old(out)@ + unescape_pair(k),
{
    if k == '\\' {
        push_char(out, '\\');
    } else if k == '|' {
        push_char(out, '|');
    } else if k == 'n' {
        push_char(out, '\n');
    } else if k == 'r' {
        push_char(out, '\r');
    } else if k == 't' {
        push_char(out, '\t');
    } else {
        push_char(out, '\\');
        push_char(out, k);
    }
    assert(final(out)@ =~= old(out)@ + unescape_pair(k));
}

/// Bare value of a stored cell; an unknown escape sequence is kept as its
/// two characters.
pub fn decode_str(s: &str) -> (r: String)
    ensures
        r@ == spec_decode_str(s@),
{
    let v = chars_of(s);
    let mut out = String::new();
    let mut i: usize = 0;
    assert(s@.skip(0) =~= s@);
    assert(out@ + spec_decode_str(s@) =~= spec_decode_str(s@));
    while i < v.len()
        invariant
            i <= v.len(),
            v@ == s@,
            spec_decode_str(s@) == out@ + spec_decode_str(s@.skip(i as int)),
        decreases v.len() - i,
    {
        let ghost rest = s@.skip(i as int);
        if v[i] != '\\' {
            assert(rest.drop_first() =~= s@.skip(i + 1));
            push_char(&mut out, v[i]);
            i = i + 1;
        } else if i + 1 == v.len() {
            push_char(&mut out, '\\');
            i = i + 1;
            assert(s@.skip(i as int) =~= Seq::<char>::empty());
        } else {
            assert(rest.subrange(2, rest.len() as int) =~= s@.skip(i + 2));
            push_unescaped(&mut out, v[i + 1]);
            i = i + 2;
        }
    }
    assert(s@.skip(i as int) =~= Seq::<char>::empty());
    out
}

/// Splits a stored row into its cells at each `|` that is not escaped.
/// The cells stay in stored form.
pub fn split_row(line: &str) -> (r: Vec<String>)
    ensures
        views_of(r@) == spec_split_row(line@),
{
    let v = chars_of(line);
    let mut out: Vec<String> = Vec::new();
    let mut cur = String::new();
    let mut i: usize = 0;
    assert(line@.skip(0) =~= line@);
    assert(views_of(out@) =~= Seq::<Seq<char>>::empty());
    assert(views_of(out@) + spec_split_row(line@) =~= spec_split_row(line@));
    while i < v.len()
        invariant
            i <= v.len(),
            v@ == line@,
            spec_split_row(line@) == views_of(out@) + spec_split_acc(line@.skip(i as int), cur@),
        decreases v.len() - i,
    {
        let ghost rest = line@.skip(i as int);
        let ghost old_out = views_of(out@);
        let c = v[i];
        let ghost old_cur = cur@;
        if c == '\\' {
            push_char(&mut cur, c);
            if i + 1 < v.len() {
                push_char(&mut cur, v[i + 1]);
                assert(rest[0] == c && rest[1] == v@[i + 1]);
                assert(cur@ =~= old_cur + seq![rest[0], rest[1]]);
                assert(rest.subrange(2, rest.len() as int) =~= line@.skip(i + 2));
                i = i + 2;
            } else {
                assert(rest.drop_first() =~= line@.skip(i + 1));
                assert(cur@ =~= old_cur.push(rest[0]));
                i = i + 1;
            }
        } else if c == '|' {
            assert(rest.drop_first() =~= line@.skip(i + 1));
            let done = cur;
            cur = String::new();
            out.push(done);
            assert(views_of(out@) =~= old_out.push(done@));
            assert(rest[0] == '|');
            assert(old_out.push(done@) + spec_split_acc(line@.skip(i + 1), seq![]) =~= old_out + (
            seq![done@] + spec_split_acc(line@.skip(i + 1), seq![])));
            i = i + 1;
        } else {
            assert(rest.drop_first() =~= line@.skip(i + 1));
            push_char(&mut cur, c);
            assert(cur@ =~= old_cur.push(rest[0]));
            i = i + 1;
        }
    }
    assert(line@.skip(i as int) =~= Seq::<char>::empty());
    let ghost old_out = views_of(out@);
    out.push(cur);
    assert(views_of(out@) =~= old_out + spec_split_acc(Seq::<char>::empty(), out@.last()@));
    out
}

/// Whether cells of the column type `t` go through the escaping codec: when
/// some base type of `t` is `txt`, or when `t` is not a type at all.
pub open spec fn spec_needs_escape(t: Seq<char>) -> bool {
    match spec_parse_type(t) {
        Some(tt) => tt.params.contains(BaseType::Txt),
        None => true,
    }
}

/// Whether cells of the column type `tbl_type` are escaped.
pub fn needs_escape(tbl_type: &str) -> (r: bool)
    ensures
        r == spec_needs_escape(tbl_type@),
{
    match TblType::parse(tbl_type) {
        Some(tt) => tt.has_txt(),
        None => true,
    }
}

fn contains_special(v: &[char]) -> (r: bool)
    ensures
        r == has_special(v@),
{
    let mut i: usize = 0;
    while i < v.len()
        invariant
            i <= v@.len(),
            forall|j: int| 0 <= j < i ==> !is_special(#[trigger] v@[j]),
        decreases v.len() - i,
    {
        let c = v[i];
        if c == '\\' || c == '|' || c == '\n' || c == '\r' || c == '\t' {
            return true;
        }
        i = i + 1;
    }
    false
}

fn contains_backslash(v: &[char]) -> (r: bool)
    ensures
        r == has_backslash(v@),
{
    let mut i: usize = 0;
    while i < v.len()
        invariant
            i <= v@.len(),
            forall|j: int| 0 <= j < i ==> #[trigger] v@[j] != '\\',
        decreases v.len() - i,
    {
        if v[i] == '\\' {
            return true;
        }
        i = i + 1;
    }
    false
}

/// Stored form of a cell of column type `tbl_type`. A `txt` column is
/// escaped; any other column is written as is, unless the value holds a
/// special character, which is then escaped all the same. Either way the
/// result is the escaped form of the value.
pub fn encode(value: &str, tbl_type: &str) -> (r: String)
    ensures
        r@ == spec_encode_str(value@),
{
    if needs_escape(tbl_type) {
        encode_str(value)
    } else {
        let v = chars_of(value);
        if contains_special(v.as_slice()) {
            return encode_str(value);
        }
        proof {
            lemma_encode_plain(value@);
        }
        String::from_str(value)
    }
}

/// Bare value of a stored cell of column type `tbl_type`. A `txt` column is
/// unescaped; any other column is read as is, unless it holds a backslash,
/// which is then unescaped all the same. Either way the result is the
/// unescaped form of the cell.
pub fn decode(value: &str, tbl_type: &str) -> (r: String)
    ensures
        r@ == spec_decode_str(value@),
{
    if needs_escape(tbl_type) {
        decode_str(value)
    } else {
        let v = chars_of(value);
        if contains_backslash(v.as_slice()) {
            return decode_str(value);
        }
        proof {
            lemma_decode_plain(value@);
        }
        String::from_str(value)
    }
}

/// Reading back what [`encode`] stored gives the value; what both store
/// and read does not depend on the column type.
pub proof fn lemma_cell_round_trip(value: Seq<char>)
    ensures
        spec_decode_str(spec_encode_str(value)) == value,
{
    lemma_decode_encode(value);
}

proof fn lemma_split_acc_nonempty(s: Seq<char>, cur: Seq<char>)
    ensures
        spec_split_acc(s, cur).len() >= 1,
    decreases s.len(),
{
    if s.len() > 0 {
        if s[0] == '\\' {
            if s.len() >= 2 {
                lemma_split_acc_nonempty(s.subrange(2, s.len() as int), cur + seq![s[0], s[1]]);
            } else {
                lemma_split_acc_nonempty(s.drop_first(), cur.push(s[0]));
            }
        } else if s[0] == '|' {
            lemma_split_acc_nonempty(s.drop_first(), seq![]);
        } else {
            lemma_split_acc_nonempty(s.drop_first(), cur.push(s[0]));
        }
    }
}

/// A row always has at least one cell.
pub proof fn lemma_split_row_nonempty(s: Seq<char>)
    ensures
        spec_split_row(s).len() >= 1,
{
    lemma_split_acc_nonempty(s, seq![]);
}

} // verus!
