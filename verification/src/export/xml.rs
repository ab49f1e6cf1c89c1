//! XML generator: one document per table (`<list>` of `<item>`s) and per
//! constant set (`<const>`), for the server side.

use vstd::prelude::*;
use crate::export::{spec_camel_case, to_camel_case, EmptyStrategy};
use crate::export::cpp::spec_is_server_export;
use crate::model::{ConstEntry, ConstEntryView, Constant, ConstantView, Export, FieldDefView, Table, TableView};
use crate::text::{chars_of, push_char};
use crate::types::{SepKey, SeparatorsSection};

verus! {

fn server_side(e: &Export) -> (r: bool)
    ensures
        r == spec_is_server_export(*e),
{
    match e {
        Export::ClientServer | Export::ServerOnly => true,
        _ => false,
    }
}

/// The escape of one character in XML text and attributes.
pub open spec fn xml_escape_char(c: char) -> Seq<char> {
    if c == '&' {
        "&amp;"@
    } else if c == '<' {
        "&lt;"@
    } else if c == '>' {
        "&gt;"@
    } else if c == '\u{22}' {
        "&quot;"@
    } else if c == '\'' {
        "&apos;"@
    } else {
        seq![c]
    }
}

/// `s` with `& < > " '` escaped.
pub open spec fn spec_xml_escape(s: Seq<char>) -> Seq<char>
    decreases s.len(),
{
    if s.len() == 0 {
        seq![]
    } else {
        spec_xml_escape(s.drop_last()) + xml_escape_char(s.last())
    }
}

/// Escapes text for XML (see [`spec_xml_escape`]).
pub fn xml_escape(s: &str) -> (r: String)
    ensures
        r@ == spec_xml_escape(s@),
{
    proof {
        reveal_strlit("&amp;");
        reveal_strlit("&lt;");
        reveal_strlit("&gt;");
        reveal_strlit("&quot;");
        reveal_strlit("&apos;");
    }
    let cs = chars_of(s);
    let mut out = String::new();
    let mut i: usize = 0;
    while i < cs.len()
        invariant
            i <= cs@.len(),
            cs@ == s@,
            out@ == spec_xml_escape(s@.take(i as int)),
        decreases cs.len() - i,
    {
        assert(s@.take(i + 1).drop_last() =~= s@.take(i as int));
        let c = cs[i];
        if c == '&' {
            out = out.concat("&amp;");
        } else if c == '<' {
            out = out.concat("&lt;");
        } else if c == '>' {
            out = out.concat("&gt;");
        } else if c == '\u{22}' {
            out = out.concat("&quot;");
        } else if c == '\'' {
            out = out.concat("&apos;");
        } else {
            push_char(&mut out, c);
        }
        i = i + 1;
    }
    assert(s@.take(i as int) =~= s@);
    out
}

/// ` sep_<key>="<value>"` for each key of `keys` that is in `used`, in the
/// order of `keys`.
pub open spec fn spec_sep_attrs(keys: Seq<SepKey>, used: Seq<SepKey>, sep: SeparatorsSection) -> Seq<char>
    decreases keys.len(),
{
    if keys.len() == 0 {
        seq![]
    } else {
        let k = keys.last();
        spec_sep_attrs(keys.drop_last(), used, sep) + if used.contains(k) {
            " sep_"@ + k.export_key() + "=\u{22}"@ + spec_xml_escape(k.value_in(sep)) + "\u{22}"@
        } else {
            seq![]
        }
    }
}

fn key_in(used: &[SepKey], k: SepKey) -> (r: bool)
    ensures
        r == used@.contains(k),
{
    let mut i: usize = 0;
    while i < used.len()
        invariant
            i <= used@.len(),
            forall|j: int| 0 <= j < i ==> used@[j] != k,
        decreases used.len() - i,
    {
        if used[i] == k {
            return true;
        }
        i = i + 1;
    }
    false
}

/// Separator attributes of the root element: only the keys in `used`, in
/// the order of [`SepKey::all`]; none when `used` is empty.
pub fn sep_attrs(sep: &SeparatorsSection, used: &[SepKey]) -> (r: String)
    ensures
        r@ == spec_sep_attrs(SepKey::spec_all(), used@, *sep),
{
    let all = SepKey::all();
    let mut s = String::new();
    let mut i: usize = 0;
    while i < all.len()
        invariant
            i <= all@.len(),
            all@ == SepKey::spec_all(),
            s@ == spec_sep_attrs(all@.take(i as int), used@, *sep),
        decreases all.len() - i,
    {
        assert(all@.take(i + 1).drop_last() =~= all@.take(i as int));
        let k = all[i];
        if key_in(used, k) {
            let v = xml_escape(k.get(sep));
            s = s.concat(" sep_").concat(k.as_export_key()).concat("=\u{22}").concat(v.as_str()).concat("\u{22}");
        }
        i = i + 1;
    }
    assert(all@.take(i as int) =~= all@);
    s
}

/// Cell `i` of a record; empty past its end.
pub open spec fn record_cell(record: Seq<Seq<char>>, i: int) -> Seq<char> {
    if 0 <= i < record.len() {
        record[i]
    } else {
        Seq::<char>::empty()
    }
}

/// One element line `<indent><key>value</key>`, or nothing when the value
/// is empty and empty values are left out.
pub open spec fn element_line(indent: Seq<char>, name: Seq<char>, value: Seq<char>, strategy: EmptyStrategy) -> Seq<char> {
    let key = spec_camel_case(name);
    if value.len() == 0 {
        if strategy == EmptyStrategy::Omit {
            seq![]
        } else {
            indent + "<"@ + key + "></"@ + key + ">\n"@
        }
    } else {
        indent + "<"@ + key + ">"@ + spec_xml_escape(value) + "</"@ + key + ">\n"@
    }
}

/// Element lines of the server-side columns among the first `k` fields.
pub open spec fn item_lines(fields: Seq<FieldDefView>, record: Seq<Seq<char>>, k: int, strategy: EmptyStrategy) -> Seq<
    char,
>
    decreases k,
{
    if k <= 0 {
        seq![]
    } else {
        let f = fields[k - 1];
        item_lines(fields, record, k - 1, strategy) + if spec_is_server_export(f.export) {
            element_line("    "@, f.name, record_cell(record, k - 1), strategy)
        } else {
            seq![]
        }
    }
}

pub open spec fn items_xml(fields: Seq<FieldDefView>, records: Seq<Seq<Seq<char>>>, strategy: EmptyStrategy) -> Seq<char>
    decreases records.len(),
{
    if records.len() == 0 {
        seq![]
    } else {
        items_xml(fields, records.drop_last(), strategy) + "  <item>\n"@ + item_lines(
            fields,
            records.last(),
            fields.len() as int,
            strategy,
        ) + "  </item>\n"@
    }
}

/// XML of a table: the declaration, `<list>` with the separators in `used`
/// as attributes, an `<item>` per record holding the server-side columns
/// (camelCase keys, escaped values; empty ones as the strategy says).
pub open spec fn spec_export_table_xml(t: TableView, strategy: EmptyStrategy, sep: SeparatorsSection, used: Seq<SepKey>) -> Seq<
    char,
> {
    "<?xml version=\u{22}1.0\u{22} encoding=\u{22}UTF-8\u{22}?>\n<list"@ + spec_sep_attrs(SepKey::spec_all(), used, sep)
        + ">\n"@ + items_xml(t.fields, t.records, strategy) + "</list>\n"@
}

fn element(out: &mut String, indent: &str, name: &str, value: &str, strategy: EmptyStrategy)
    ensures
        final(out)@ == old(out)@ + element_line(indent@, name@, value@, strategy),
{
    let key = to_camel_case(name);
    if chars_of(value).len() == 0 {
        if strategy != EmptyStrategy::Omit {
            let line = String::from_str(indent).concat("<").concat(key.as_str()).concat("></").concat(key.as_str()).concat(">\n");
            *out = out.clone().concat(line.as_str());
        } else {
            assert(old(out)@ + Seq::<char>::empty() =~= old(out)@);
        }
    } else {
        let v = xml_escape(value);
        let line = String::from_str(indent).concat("<").concat(key.as_str()).concat(">").concat(v.as_str()).concat(
            "</",
        ).concat(key.as_str()).concat(">\n");
        *out = out.clone().concat(line.as_str());
    }
}

fn item_of(out: &mut String, fields: &Vec<crate::model::FieldDef>, record: &Vec<String>, strategy: EmptyStrategy)
    ensures
        final(out)@ == old(out)@ + item_lines(
            crate::model::field_defs_view(fields@),
            crate::tbl_str::views_of(record@),
            fields@.len() as int,
            strategy,
        ),
{
    let ghost fv = crate::model::field_defs_view(fields@);
    let ghost rv = crate::tbl_str::views_of(record@);
    let ghost o0 = out@;
    let mut i: usize = 0;
    while i < fields.len()
        invariant
            i <= fields@.len(),
            fv == crate::model::field_defs_view(fields@),
            rv == crate::tbl_str::views_of(record@),
            out@ == o0 + item_lines(fv, rv, i as int, strategy),
        decreases fields.len() - i,
    {
        let f = &fields[i];
        assert(fv[i as int] == f@);
        let ghost before = out@;
        if server_side(&f.export) {
            let raw: &str = if i < record.len() { record[i].as_str() } else { "" };
            proof {
                reveal_strlit("");
                if i < record@.len() {
                    assert(rv[i as int] == record@[i as int]@);
                }
            }
            element(out, "    ", f.name.as_str(), raw, strategy);
        }
        proof {
            reveal_strlit("    ");
        }
        assert(out@ =~= o0 + item_lines(fv, rv, i + 1, strategy));
        i = i + 1;
    }
}

/// XML of a table (see [`spec_export_table_xml`]); `used` lists the
/// separators its types use.
pub fn export_table_xml(table: &Table, strategy: &EmptyStrategy, sep: &SeparatorsSection, used: &[SepKey]) -> (r: String)
    ensures
        r@ == spec_export_table_xml(table@, *strategy, *sep, used@),
{
    let ghost fv = table@.fields;
    let ghost rv = table@.records;
    let mut s = String::from_str("<?xml version=\u{22}1.0\u{22} encoding=\u{22}UTF-8\u{22}?>\n<list");
    s = s.concat(sep_attrs(sep, used).as_str()).concat(">\n");
    let ghost h = s@;
    let mut i: usize = 0;
    while i < table.records.len()
        invariant
            i <= table.records@.len(),
            fv == table@.fields,
            rv == table@.records,
            s@ == h + items_xml(fv, rv.take(i as int), *strategy),
        decreases table.records.len() - i,
    {
        assert(rv.take(i + 1).drop_last() =~= rv.take(i as int));
        assert(rv.take(i + 1).last() == crate::tbl_str::views_of(table.records@[i as int]@));
        s = s.concat("  <item>\n");
        item_of(&mut s, &table.schema.fields, &table.records[i], *strategy);
        s = s.concat("  </item>\n");
        i = i + 1;
    }
    assert(rv.take(i as int) =~= rv);
    s.concat("</list>\n")
}

pub open spec fn const_lines(es: Seq<ConstEntryView>, strategy: EmptyStrategy) -> Seq<char>
    decreases es.len(),
{
    if es.len() == 0 {
        seq![]
    } else {
        let e = es.last();
        const_lines(es.drop_last(), strategy) + if spec_is_server_export(e.export) && e.name.len() > 0 {
            element_line("  "@, e.name, e.value, strategy)
        } else {
            seq![]
        }
    }
}

/// XML of a constant set: the declaration, `<const>` with the separators
/// in `used` as attributes, and an element per server-side entry with a
/// name (camelCase key, escaped value; empty ones as the strategy says).
pub open spec fn spec_export_constant_xml(
    c: ConstantView,
    strategy: EmptyStrategy,
    sep: SeparatorsSection,
    used: Seq<SepKey>,
) -> Seq<char> {
    "<?xml version=\u{22}1.0\u{22} encoding=\u{22}UTF-8\u{22}?>\n<const"@ + spec_sep_attrs(SepKey::spec_all(), used, sep)
        + ">\n"@ + const_lines(c.entries, strategy) + "</const>\n"@
}

/// XML of a constant set (see [`spec_export_constant_xml`]); `used` lists
/// the separators its types use.
pub fn export_constant_xml(constant: &Constant, strategy: &EmptyStrategy, sep: &SeparatorsSection, used: &[SepKey]) -> (r: String)
    ensures
        r@ == spec_export_constant_xml(constant@, *strategy, *sep, used@),
{
    let ghost ev = constant@.entries;
    let mut s = String::from_str("<?xml version=\u{22}1.0\u{22} encoding=\u{22}UTF-8\u{22}?>\n<const");
    s = s.concat(sep_attrs(sep, used).as_str()).concat(">\n");
    let ghost h = s@;
    let mut i: usize = 0;
    while i < constant.entries.len()
        invariant
            i <= constant.entries@.len(),
            ev == constant@.entries,
            s@ == h + const_lines(ev.take(i as int), *strategy),
        decreases constant.entries.len() - i,
    {
        assert(ev.take(i + 1).drop_last() =~= ev.take(i as int));
        let e = &constant.entries[i];
        assert(ev.take(i + 1).last() == e@);
        let ghost before = s@;
        if server_side(&e.export) && chars_of(e.name.as_str()).len() > 0 {
            element(&mut s, "  ", e.name.as_str(), e.value.as_str(), *strategy);
            proof {
                reveal_strlit("  ");
            }
        }
        assert(s@ =~= h + const_lines(ev.take(i + 1), *strategy));
        i = i + 1;
    }
    assert(ev.take(i as int) =~= ev);
    s.concat("</const>\n")
}

} // verus!
