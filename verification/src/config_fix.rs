//! Repair of the workspace configuration text before it is parsed: a
//! setting `name = "value"` whose value is not one of the allowed words is
//! rewritten to its default, keeping the line's indentation.

use vstd::prelude::*;
use crate::tblschema::{join_with, join_with_strings};
use crate::text::{
    chars_of, find_char, has_prefix, is_whitespace_char, lemma_first_index_at, lemma_first_index_none,
    lemma_trim_start_skip, lines_chars, lines_of, str_is, string_of_chars, sub_chars, trim, trim_chars,
    trim_start, trim_start_chars, is_ws, first_index,
};
use crate::tbl_str::views_of;

verus! {

/// Bytes of a character in UTF-8.
pub open spec fn utf8_width(c: char) -> nat {
    if (c as int) < 0x80 {
        1
    } else if (c as int) < 0x800 {
        2
    } else if (c as int) < 0x10000 {
        3
    } else {
        4
    }
}

/// Bytes of a text in UTF-8.
pub open spec fn utf8_len(s: Seq<char>) -> nat
    decreases s.len(),
{
    if s.len() == 0 {
        0
    } else {
        utf8_len(s.drop_last()) + utf8_width(s.last())
    }
}

/// The white space a line starts with.
pub open spec fn leading_ws(line: Seq<char>) -> Seq<char> {
    line.take(line.len() - trim_start(line).len())
}

/// `n`, or `usize::MAX` if it is larger.
pub open spec fn capped(n: nat) -> nat {
    if n > usize::MAX {
        usize::MAX as nat
    } else {
        n
    }
}

pub open spec fn spaces(n: nat) -> Seq<char> {
    Seq::new(n, |i: int| ' ')
}

/// The text between the first two `"` of a value, the value trimmed first
/// (no escapes are read).
pub open spec fn quoted_value(vp: Seq<char>) -> Option<Seq<char>> {
    let t = trim(vp);
    if t.len() > 0 && t[0] == '\u{22}' {
        match first_index(t.skip(1), '\u{22}') {
            Some(e) => Some(t.skip(1).take(e)),
            None => None,
        }
    } else {
        None
    }
}

/// The repaired form of a line that sets `name` to a quoted word not in
/// `valid`: as many spaces as the line's indentation has bytes (no more
/// than `usize::MAX`), then `name = "default"`. `None` for any other line.
pub open spec fn fixed_line(line: Seq<char>, name: Seq<char>, valid: Seq<Seq<char>>, default: Seq<char>) -> Option<
    Seq<char>,
> {
    let t = trim(line);
    if t.len() >= name.len() && t.take(name.len() as int) == name {
        let after = trim_start(t.skip(name.len() as int));
        if after.len() > 0 && after[0] == '=' {
            match quoted_value(trim(after.skip(1))) {
                Some(q) => if !valid.contains(q) {
                    Some(spaces(capped(utf8_len(leading_ws(line)))) + name + " = \u{22}"@ + default + "\u{22}"@)
                } else {
                    None
                },
                None => None,
            }
        } else {
            None
        }
    } else {
        None
    }
}

pub open spec fn line_after_fix(line: Seq<char>, name: Seq<char>, valid: Seq<Seq<char>>, default: Seq<char>) -> Seq<char> {
    match fixed_line(line, name, valid, default) {
        Some(l) => l,
        None => line,
    }
}

/// The text with every such line repaired, its lines joined with `\n`;
/// `None` when no line needed it.
pub open spec fn spec_fix_field(text: Seq<char>, name: Seq<char>, valid: Seq<Seq<char>>, default: Seq<char>) -> Option<
    Seq<char>,
> {
    let ls = lines_of(text);
    if exists|i: int| 0 <= i < ls.len() && (#[trigger] fixed_line(ls[i], name, valid, default)) is Some {
        Some(join_with(ls.map_values(|l: Seq<char>| line_after_fix(l, name, valid, default)), "\n"@))
    } else {
        None
    }
}

fn utf8_width_of(c: char) -> (r: usize)
    ensures
        r == utf8_width(c),
{
    let v = c as u32;
    if v < 0x80 {
        1
    } else if v < 0x800 {
        2
    } else if v < 0x10000 {
        3
    } else {
        4
    }
}

fn spaces_string(n: usize) -> (r: String)
    ensures
        r@ == spaces(n as nat),
{
    let mut v: Vec<char> = Vec::new();
    let mut i: usize = 0;
    while i < n
        invariant
            i <= n,
            v@ == spaces(i as nat),
        decreases n - i,
    {
        v.push(' ');
        assert(v@ =~= spaces((i + 1) as nat));
        i = i + 1;
    }
    string_of_chars(v.as_slice())
}

/// Bytes of the white space a line starts with (no more than `usize::MAX`).
fn indent_bytes(line: &[char]) -> (r: usize)
    ensures
        r == capped(utf8_len(leading_ws(line@))),
{
    let mut a: usize = 0;
    let mut bytes: usize = 0;
    while a < line.len() && is_whitespace_char(line[a])
        invariant
            a <= line@.len(),
            bytes == capped(utf8_len(line@.take(a as int))),
            forall|j: int| 0 <= j < a ==> is_ws(#[trigger] line@[j]),
        decreases line.len() - a,
    {
        assert(line@.take(a + 1).drop_last() =~= line@.take(a as int));
        bytes = bytes.saturating_add(utf8_width_of(line[a]));
        a = a + 1;
    }
    proof {
        lemma_trim_start_skip(line@, a as int);
        assert(line@.len() - trim_start(line@).len() == a);
    }
    bytes
}

fn extract_quoted_value(vp: &[char]) -> (r: Option<Vec<char>>)
    ensures
        match r {
            Some(q) => quoted_value(vp@) == Some(q@),
            None => quoted_value(vp@) is None,
        },
{
    let t = trim_chars(vp);
    if t.len() > 0 && t[0] == '\u{22}' {
        let rest = sub_chars(t.as_slice(), 1, t.len());
        assert(rest@ =~= t@.skip(1));
        match find_char(rest.as_slice(), '\u{22}') {
            Some(e) => {
                proof {
                    crate::text::lemma_first_index_bounds(rest@, '\u{22}');
                }
                let q = sub_chars(rest.as_slice(), 0, e);
                assert(q@ =~= rest@.take(e as int));
                Some(q)
            },
            None => None,
        }
    } else {
        None
    }
}

fn word_in(valid: &[&str], q: &Vec<char>) -> (r: bool)
    ensures
        r == valid@.map_values(|x: &str| x@).contains(q@),
{
    let ghost vv = valid@.map_values(|x: &str| x@);
    let qs = string_of_chars(q.as_slice());
    let mut i: usize = 0;
    while i < valid.len()
        invariant
            i <= valid@.len(),
            vv == valid@.map_values(|x: &str| x@),
            qs@ == q@,
            forall|j: int| 0 <= j < i ==> vv[j] != q@,
        decreases valid.len() - i,
    {
        assert(vv[i as int] == valid@[i as int]@);
        if str_is(valid[i], qs.as_str()) {
            return true;
        }
        i = i + 1;
    }
    false
}

/// The repaired line, if the line needs it (see [`fixed_line`]).
fn fix_line(line: &Vec<char>, name: &str, valid: &[&str], default: &str) -> (r: Option<String>)
    ensures
        match r {
            Some(l) => fixed_line(line@, name@, valid@.map_values(|x: &str| x@), default@) == Some(l@),
            None => fixed_line(line@, name@, valid@.map_values(|x: &str| x@), default@) is None,
        },
{
    let t = trim_chars(line.as_slice());
    let nv = chars_of(name);
    if !has_prefix(t.as_slice(), nv.as_slice()) {
        return None;
    }
    assert(t@.take(nv@.len() as int) == nv@);
    let rest = sub_chars(t.as_slice(), nv.len(), t.len());
    assert(rest@ =~= t@.skip(nv@.len() as int));
    let after = trim_start_chars(rest.as_slice());
    if after.len() == 0 || after[0] != '=' {
        return None;
    }
    let vp0 = sub_chars(after.as_slice(), 1, after.len());
    assert(vp0@ =~= after@.skip(1));
    let vp = trim_chars(vp0.as_slice());
    match extract_quoted_value(vp.as_slice()) {
        None => None,
        Some(q) => {
            if word_in(valid, &q) {
                None
            } else {
                let n = indent_bytes(line.as_slice());
                proof {
                    reveal_strlit(" = \u{22}");
                    reveal_strlit("\u{22}");
                }
                Some(spaces_string(n).concat(name).concat(" = \u{22}").concat(default).concat("\u{22}"))
            }
        },
    }
}

/// Repairs every line that sets `field_name` to a quoted word outside
/// `valid_values` (see [`spec_fix_field`]).
pub fn fix_enum_field(text: &str, field_name: &str, valid_values: &[&str], default_value: &str) -> (r: Option<String>)
    ensures
        match r {
            Some(s) => spec_fix_field(text@, field_name@, valid_values@.map_values(|x: &str| x@), default_value@)
                == Some(s@),
            None => spec_fix_field(text@, field_name@, valid_values@.map_values(|x: &str| x@), default_value@)
                is None,
        },
{
    let ghost vv = valid_values@.map_values(|x: &str| x@);
    let cs = chars_of(text);
    let ls = lines_chars(cs.as_slice());
    let ghost lv = ls@.map_values(|x: Vec<char>| x@);
    assert(lv == lines_of(text@));
    let ghost want = lv.map_values(|l: Seq<char>| line_after_fix(l, field_name@, vv, default_value@));
    let mut out: Vec<String> = Vec::new();
    let mut fixed = false;
    let mut i: usize = 0;
    while i < ls.len()
        invariant
            i <= ls@.len(),
            lv == ls@.map_values(|x: Vec<char>| x@),
            lv == lines_of(text@),
            vv == valid_values@.map_values(|x: &str| x@),
            want == lv.map_values(|l: Seq<char>| line_after_fix(l, field_name@, vv, default_value@)),
            views_of(out@) == want.take(i as int),
            fixed == exists|j: int| 0 <= j < i && (#[trigger] fixed_line(lv[j], field_name@, vv, default_value@)) is Some,
        decreases ls.len() - i,
    {
        assert(lv[i as int] == ls@[i as int]@);
        let ghost prev = views_of(out@);
        match fix_line(&ls[i], field_name, valid_values, default_value) {
            Some(l) => {
                out.push(l);
                fixed = true;
            },
            None => {
                out.push(string_of_chars(ls[i].as_slice()));
            },
        }
        assert(views_of(out@) =~= prev.push(want[i as int]));
        assert(want.take(i + 1) =~= want.take(i as int).push(want[i as int]));
        i = i + 1;
    }
    assert(want.take(i as int) =~= want);
    if fixed {
        proof {
            reveal_strlit("\n");
        }
        Some(join_with_strings(&out, "\n"))
    } else {
        None
    }
}

/// Repairs a setting whose value is empty or not one of `valid_values`
/// (an empty quoted value is not a valid word, so this is
/// [`fix_enum_field`]).
pub fn fix_empty_or_invalid_field(text: &str, field_name: &str, valid_values: &[&str], default_value: &str) -> (r: Option<String>)
    ensures
        match r {
            Some(s) => spec_fix_field(text@, field_name@, valid_values@.map_values(|x: &str| x@), default_value@)
                == Some(s@),
            None => spec_fix_field(text@, field_name@, valid_values@.map_values(|x: &str| x@), default_value@)
                is None,
        },
{
    fix_enum_field(text, field_name, valid_values, default_value)
}

/// One repair step over the text and whether anything was repaired yet.
pub open spec fn fix_step(st: (Seq<char>, bool), name: Seq<char>, valid: Seq<Seq<char>>, default: Seq<char>) -> (
    Seq<char>,
    bool,
) {
    match spec_fix_field(st.0, name, valid, default) {
        Some(t) => (t, true),
        None => st,
    }
}

/// The repairs of the workspace configuration, in order: `project_sort`
/// (default `id`), `log_level` (`debug`), `picker_trigger_header`
/// (`single`), `picker_trigger_data` (`double`), `encoding` (`utf-8`),
/// `line_ending` (`lf`); the text after them and whether any applied.
/// Each field is checked against every value its setting accepts, so only
/// an empty or unknown value is reset.
pub open spec fn spec_fix_global_config(text: Seq<char>) -> (Seq<char>, bool) {
    let s1 = fix_step(
        (text, false),
        "project_sort"@,
        seq!["id"@, "name"@, "open"@, "created"@, "manual"@],
        "id"@,
    );
    let s2 = fix_step(s1, "log_level"@, seq!["trace"@, "debug"@, "info"@, "warn"@, "error"@], "debug"@);
    let s3 = fix_step(s2, "picker_trigger_header"@, seq!["single"@, "double"@], "single"@);
    let s4 = fix_step(s3, "picker_trigger_data"@, seq!["single"@, "double"@], "double"@);
    let s5 = fix_step(s4, "encoding"@, seq!["utf-8"@, "utf-8-bom"@, "utf-16le"@, "utf-16be"@, "gb2312"@, "gbk"@, "big5"@], "utf-8"@);
    fix_step(s5, "line_ending"@, seq!["lf"@, "crlf"@, "cr"@], "lf"@)
}

fn run_step(text: &mut String, fixed: &mut bool, name: &str, valid: &[&str], default: &str)
    ensures
        (final(text)@, *final(fixed)) == fix_step(
            (old(text)@, *old(fixed)),
            name@,
            valid@.map_values(|x: &str| x@),
            default@,
        ),
{
    match fix_enum_field(text.as_str(), name, valid, default) {
        Some(t) => {
            *text = t;
            *fixed = true;
        },
        None => {},
    }
}

/// Applies the repairs of the workspace configuration to its text (see
/// [`spec_fix_global_config`]): the repaired text and whether it changed.
pub fn fix_global_config_text(text: &str) -> (r: (String, bool))
    ensures
        (r.0@, r.1) == spec_fix_global_config(text@),
{
    proof {
        reveal_strlit("project_sort");
        reveal_strlit("id");
        reveal_strlit("name");
        reveal_strlit("open");
        reveal_strlit("created");
        reveal_strlit("manual");
        reveal_strlit("log_level");
        reveal_strlit("trace");
        reveal_strlit("debug");
        reveal_strlit("info");
        reveal_strlit("warn");
        reveal_strlit("error");
        reveal_strlit("picker_trigger_header");
        reveal_strlit("single");
        reveal_strlit("double");
        reveal_strlit("picker_trigger_data");
        reveal_strlit("encoding");
        reveal_strlit("utf-8");
        reveal_strlit("utf-8-bom");
        reveal_strlit("utf-16le");
        reveal_strlit("utf-16be");
        reveal_strlit("gb2312");
        reveal_strlit("gbk");
        reveal_strlit("big5");
        reveal_strlit("line_ending");
        reveal_strlit("lf");
        reveal_strlit("crlf");
        reveal_strlit("cr");
    }
    let mut t = String::from_str(text);
    let mut fixed = false;
    let v1 = vec!["id", "name", "open", "created", "manual"];
    assert(v1@.map_values(|x: &str| x@) =~= seq!["id"@, "name"@, "open"@, "created"@, "manual"@]);
    run_step(&mut t, &mut fixed, "project_sort", v1.as_slice(), "id");
    let v2 = vec!["trace", "debug", "info", "warn", "error"];
    assert(v2@.map_values(|x: &str| x@) =~= seq!["trace"@, "debug"@, "info"@, "warn"@, "error"@]);
    run_step(&mut t, &mut fixed, "log_level", v2.as_slice(), "debug");
    let v3 = vec!["single", "double"];
    assert(v3@.map_values(|x: &str| x@) =~= seq!["single"@, "double"@]);
    run_step(&mut t, &mut fixed, "picker_trigger_header", v3.as_slice(), "single");
    run_step(&mut t, &mut fixed, "picker_trigger_data", v3.as_slice(), "double");
    let v5 = vec!["utf-8", "utf-8-bom", "utf-16le", "utf-16be", "gb2312", "gbk", "big5"];
    assert(v5@.map_values(|x: &str| x@) =~= seq!["utf-8"@, "utf-8-bom"@, "utf-16le"@, "utf-16be"@, "gb2312"@, "gbk"@, "big5"@]);
    run_step(&mut t, &mut fixed, "encoding", v5.as_slice(), "utf-8");
    let v6 = vec!["lf", "crlf", "cr"];
    assert(v6@.map_values(|x: &str| x@) =~= seq!["lf"@, "crlf"@, "cr"@]);
    run_step(&mut t, &mut fixed, "line_ending", v6.as_slice(), "lf");
    (t, fixed)
}

} // verus!
