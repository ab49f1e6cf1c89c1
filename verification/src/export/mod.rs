//! Code generators, and what they share: integer text as Rust reads and
//! writes it, and text split at a separator as `str::split` splits it.

pub mod cpp;
pub mod csharp;
pub mod typescript;
pub mod xml;
pub mod laws;

use vstd::prelude::*;
use crate::text::{chars_of, decimal, decimal_string, push_char, starts_with, string_of_chars};
use crate::tblschema::join_with;
use crate::enums::{Encoding, LineEnding};
use crate::model::{ExportConfig, Group};

verus! {

// ───────────────────────── integers ─────────────────────────

/// Value of an ASCII digit.
pub open spec fn digit_value(c: char) -> int {
    (c as int) - ('0' as int)
}

pub open spec fn is_digit(c: char) -> bool {
    '0' <= c && c <= '9'
}

pub open spec fn all_digits(s: Seq<char>) -> bool {
    forall|i: int| 0 <= i < s.len() ==> is_digit(#[trigger] s[i])
}

/// The number that the decimal digits `s` write.
pub open spec fn digits_value(s: Seq<char>) -> int
    decreases s.len(),
{
    if s.len() == 0 {
        0
    } else {
        10 * digits_value(s.drop_last()) + digit_value(s.last())
    }
}

/// What `str::parse::<i64>` reads from `s`: an optional sign, then at
/// least one decimal digit, within the range of `i64`.
pub open spec fn spec_parse_i64(s: Seq<char>) -> Option<int> {
    let neg = s.len() > 0 && s[0] == '-';
    let ds = if s.len() > 0 && (s[0] == '-' || s[0] == '+') {
        s.drop_first()
    } else {
        s
    };
    if ds.len() == 0 || !all_digits(ds) {
        None
    } else {
        let v = if neg {
            -digits_value(ds)
        } else {
            digits_value(ds)
        };
        if i64::MIN <= v <= i64::MAX {
            Some(v)
        } else {
            None
        }
    }
}

/// Decimal text of an integer, with `-` before a negative one.
pub open spec fn int_text(v: int) -> Seq<char> {
    if v < 0 {
        seq!['-'] + decimal((-v) as nat)
    } else {
        decimal(v as nat)
    }
}

proof fn lemma_digits_grow(s: Seq<char>, i: int)
    requires
        0 <= i <= s.len(),
        all_digits(s),
    ensures
        digits_value(s.take(i)) <= digits_value(s),
        0 <= digits_value(s.take(i)),
    decreases s.len() - i,
{
    if i < s.len() {
        lemma_digits_grow(s, i + 1);
        assert(s.take(i + 1).drop_last() =~= s.take(i));
        assert(is_digit(s[i]));
        assert(s.take(i + 1).last() == s[i]);
    } else {
        assert(s.take(i) =~= s);
        lemma_digits_nonneg(s);
    }
}

proof fn lemma_digits_nonneg(s: Seq<char>)
    requires
        all_digits(s),
    ensures
        0 <= digits_value(s),
    decreases s.len(),
{
    if s.len() > 0 {
        assert(all_digits(s.drop_last())) by {
            assert forall|i: int| 0 <= i < s.drop_last().len() implies is_digit(
                #[trigger] s.drop_last()[i],
            ) by {
                assert(s.drop_last()[i] == s[i]);
            }
        }
        lemma_digits_nonneg(s.drop_last());
        assert(is_digit(s[s.len() - 1]));
    }
}

/// Reads a decimal integer as `str::parse::<i64>` does.
pub fn parse_i64(s: &[char]) -> (r: Option<i64>)
    ensures
        match r {
            Some(v) => spec_parse_i64(s@) == Some(v as int),
            None => spec_parse_i64(s@) is None,
        },
{
    let neg = s.len() > 0 && s[0] == '-';
    let start: usize = if s.len() > 0 && (s[0] == '-' || s[0] == '+') {
        1
    } else {
        0
    };
    let ghost ds = if s@.len() > 0 && (s@[0] == '-' || s@[0] == '+') {
        s@.drop_first()
    } else {
        s@
    };
    assert(ds =~= s@.skip(start as int));
    if start == s.len() {
        return None;
    }
    let limit: u128 = if neg {
        9223372036854775808
    } else {
        9223372036854775807
    };
    let mut m: u128 = 0;
    let mut i: usize = start;
    while i < s.len()
        invariant
            start <= i <= s@.len(),
            ds =~= s@.skip(start as int),
            ds == (if s@.len() > 0 && (s@[0] == '-' || s@[0] == '+') {
                s@.drop_first()
            } else {
                s@
            }),
            neg == (s@.len() > 0 && s@[0] == '-'),
            limit == (if neg {
                9223372036854775808u128
            } else {
                9223372036854775807u128
            }),
            m as int == digits_value(ds.take(i - start)),
            m <= limit,
            all_digits(ds.take(i - start)),
        decreases s.len() - i,
    {
        let c = s[i];
        if !('0' <= c && c <= '9') {
            proof {
                assert(ds[i - start] == c);
                assert(!is_digit(ds[i - start]));
            }
            return None;
        }
        let d = (c as u32 - '0' as u32) as u128;
        assert(ds.take(i - start + 1).drop_last() =~= ds.take(i - start));
        assert(ds.take(i - start + 1).last() == c);
        assert(d as int == digit_value(c));
        assert(m * 10 + d <= 92233720368547758090) by (nonlinear_arith)
            requires
                m <= 9223372036854775808,
                d < 10,
        ;
        let next = m * 10 + d;
        assert(all_digits(ds.take(i - start + 1))) by {
            assert forall|k: int| 0 <= k < ds.take(i - start + 1).len() implies is_digit(
                #[trigger] ds.take(i - start + 1)[k],
            ) by {
                if k < i - start {
                    assert(ds.take(i - start + 1)[k] == ds.take(i - start)[k]);
                }
            }
        }
        if next > limit {
            proof {
                if all_digits(ds) {
                    lemma_digits_grow(ds, i - start + 1);
                }
            }
            return None;
        }
        m = next;
        i = i + 1;
    }
    assert(ds.take(i - start) =~= ds);
    if neg {
        if m == 9223372036854775808 {
            Some(-9223372036854775807i64 - 1)
        } else {
            Some(-(m as i64))
        }
    } else {
        Some(m as i64)
    }
}

/// Decimal text of `v` as `i64::to_string` writes it.
pub fn int_string(v: i64) -> (r: String)
    ensures
        r@ == int_text(v as int),
{
    if v < 0 {
        let mag: u64 = ((-(v + 1)) as u64) + 1;
        let d = decimal_string(mag);
        let mut s = String::new();
        push_char(&mut s, '-');
        s.concat(d.as_str())
    } else {
        decimal_string(v as u64)
    }
}

// ───────────────────────── splitting ─────────────────────────

/// Pieces of `s` between the leftmost non-overlapping occurrences of a
/// non-empty `sep`, `cur` being the piece read so far.
pub open spec fn split_scan(s: Seq<char>, sep: Seq<char>, cur: Seq<char>) -> Seq<Seq<char>>
    decreases s.len(),
{
    if s.len() == 0 {
        seq![cur]
    } else if sep.len() > 0 && starts_with(s, sep) {
        seq![cur] + split_scan(s.skip(sep.len() as int), sep, seq![])
    } else {
        split_scan(s.drop_first(), sep, cur.push(s[0]))
    }
}

/// What `str::split` with the pattern `sep` gives: an empty pattern
/// matches before and after every character.
pub open spec fn spec_split_str(s: Seq<char>, sep: Seq<char>) -> Seq<Seq<char>> {
    if sep.len() == 0 {
        seq![Seq::<char>::empty()] + s.map_values(|c: char| seq![c]) + seq![Seq::<char>::empty()]
    } else {
        split_scan(s, sep, seq![])
    }
}

/// What `str::splitn(n, sep)` gives: at most `n` pieces, the last holding
/// the rest of the text.
pub open spec fn spec_splitn_str(n: nat, s: Seq<char>, sep: Seq<char>) -> Seq<Seq<char>> {
    let ps = spec_split_str(s, sep);
    if n == 0 {
        seq![]
    } else if ps.len() <= n {
        ps
    } else {
        ps.take(n - 1).push(join_with(ps.skip(n - 1), sep))
    }
}

fn push_piece(out: &mut Vec<String>, cur: &Vec<char>)
    ensures
        final(out)@.len() == old(out)@.len() + 1,
        forall|i: int| 0 <= i < old(out)@.len() ==> #[trigger] final(out)@[i] == old(out)@[i],
        final(out)@[old(out)@.len() as int]@ == cur@,
{
    out.push(string_of_chars(cur.as_slice()));
}

pub open spec fn texts(v: Seq<String>) -> Seq<Seq<char>> {
    v.map_values(|x: String| x@)
}

/// Whether `sep` occurs in `s` at position `i`.
fn occurs_at(s: &[char], sep: &[char], i: usize) -> (r: bool)
    requires
        i <= s@.len(),
    ensures
        r == starts_with(s@.skip(i as int), sep@),
{
    if sep.len() > s.len() - i {
        return false;
    }
    let mut k: usize = 0;
    while k < sep.len()
        invariant
            k <= sep@.len(),
            i + sep.len() <= s.len(),
            forall|j: int| 0 <= j < k ==> s@[i + j] == sep@[j],
        decreases sep.len() - k,
    {
        if s[i + k] != sep[k] {
            proof {
                let rest = s@.skip(i as int);
                if starts_with(rest, sep@) {
                    assert(rest.take(sep@.len() as int)[k as int] == s@[i + k]);
                }
            }
            return false;
        }
        k = k + 1;
    }
    assert(s@.skip(i as int).take(sep@.len() as int) =~= sep@);
    true
}

/// Splits `s` at `sep` as `str::split` does.
pub fn split_str(s: &[char], sep: &[char]) -> (r: Vec<String>)
    ensures
        texts(r@) == spec_split_str(s@, sep@),
{
    let mut out: Vec<String> = Vec::new();
    if sep.len() == 0 {
        out.push(String::new());
        let mut i: usize = 0;
        while i < s.len()
            invariant
                i <= s@.len(),
                texts(out@) == seq![Seq::<char>::empty()] + s@.take(i as int).map_values(
                    |c: char| seq![c],
                ),
            decreases s.len() - i,
        {
            let mut p = String::new();
            push_char(&mut p, s[i]);
            let ghost prev = texts(out@);
            out.push(p);
            proof {
                assert(texts(out@) =~= prev.push(seq![s@[i as int]]));
                assert(s@.take(i + 1).map_values(|c: char| seq![c]) =~= s@.take(i as int).map_values(
                    |c: char| seq![c],
                ).push(seq![s@[i as int]]));
            }
            i = i + 1;
        }
        let ghost prev = texts(out@);
        out.push(String::new());
        proof {
            assert(s@.take(i as int) =~= s@);
            assert(texts(out@) =~= prev.push(Seq::<char>::empty()));
        }
        return out;
    }
    let mut cur: Vec<char> = Vec::new();
    let mut i: usize = 0;
    assert(s@.skip(0) =~= s@);
    assert(texts(out@) =~= Seq::<Seq<char>>::empty());
    assert(Seq::<Seq<char>>::empty() + split_scan(s@, sep@, seq![]) =~= split_scan(s@, sep@, seq![]));
    while i < s.len()
        invariant
            i <= s@.len(),
            sep@.len() > 0,
            texts(out@) + split_scan(s@.skip(i as int), sep@, cur@) == split_scan(s@, sep@, seq![]),
        decreases s.len() - i,
    {
        let ghost rest = s@.skip(i as int);
        let matched = occurs_at(s, sep, i);
        if matched {
            let ghost prev = texts(out@);
            push_piece(&mut out, &cur);
            proof {
                assert(texts(out@) =~= prev.push(cur@));
                assert(rest.skip(sep@.len() as int) =~= s@.skip(i + sep@.len()));
            }
            cur = Vec::new();
            i = i + sep.len();
        } else {
            proof {
                assert(rest.drop_first() =~= s@.skip(i + 1));
                assert(rest[0] == s@[i as int]);
            }
            cur.push(s[i]);
            i = i + 1;
        }
    }
    let ghost prev = texts(out@);
    push_piece(&mut out, &cur);
    proof {
        assert(s@.skip(i as int) =~= Seq::<char>::empty());
        assert(texts(out@) =~= prev.push(cur@));
    }
    out
}

// ───────────────────────── identifiers ─────────────────────────

pub open spec fn ascii_upper(c: char) -> char {
    if 'a' <= c && c <= 'z' {
        (((c as u32) - 32) as u8) as char
    } else {
        c
    }
}

pub open spec fn ascii_lower(c: char) -> char {
    if 'A' <= c && c <= 'Z' {
        (((c as u32) + 32) as u8) as char
    } else {
        c
    }
}

fn upper_char(c: char) -> (r: char)
    ensures
        r == ascii_upper(c),
{
    if 'a' <= c && c <= 'z' {
        (((c as u32) - 32) as u8) as char
    } else {
        c
    }
}

fn lower_char(c: char) -> (r: char)
    ensures
        r == ascii_lower(c),
{
    if 'A' <= c && c <= 'Z' {
        (((c as u32) + 32) as u8) as char
    } else {
        c
    }
}

/// Reading `s` from the left: the text so far, and whether the next
/// character starts a word. `_` starts a new word and is dropped; a word's
/// first letter is upper-cased; the very first character of `s`, when it
/// does not start a word, is lower-cased (`pascal` upper-cases it instead).
pub open spec fn case_state(s: Seq<char>, pascal: bool) -> (Seq<char>, bool)
    decreases s.len(),
{
    if s.len() == 0 {
        (seq![], pascal)
    } else {
        let (o, up) = case_state(s.drop_last(), pascal);
        let c = s.last();
        if c == '_' {
            (o, true)
        } else if up {
            (o.push(ascii_upper(c)), false)
        } else if s.len() == 1 {
            (o.push(ascii_lower(c)), false)
        } else {
            (o.push(c), false)
        }
    }
}

pub open spec fn spec_camel_case(s: Seq<char>) -> Seq<char> {
    case_state(s, false).0
}

pub open spec fn spec_pascal_case(s: Seq<char>) -> Seq<char> {
    case_state(s, true).0
}

fn to_case(s: &str, pascal: bool) -> (r: String)
    ensures
        r@ == case_state(s@, pascal).0,
{
    let cs = chars_of(s);
    let mut out = String::new();
    let mut up = pascal;
    let mut i: usize = 0;
    while i < cs.len()
        invariant
            i <= cs@.len(),
            cs@ == s@,
            (out@, up) == case_state(cs@.take(i as int), pascal),
        decreases cs.len() - i,
    {
        assert(cs@.take(i + 1).drop_last() =~= cs@.take(i as int));
        let c = cs[i];
        if c == '_' {
            up = true;
        } else if up {
            push_char(&mut out, upper_char(c));
            up = false;
        } else if i == 0 {
            push_char(&mut out, lower_char(c));
        } else {
            push_char(&mut out, c);
        }
        i = i + 1;
    }
    assert(cs@.take(i as int) =~= cs@);
    out
}

/// `snake_case` to `camelCase` (see [`case_state`]).
pub fn to_camel_case(s: &str) -> (r: String)
    ensures
        r@ == spec_camel_case(s@),
{
    to_case(s, false)
}

/// `snake_case` to `PascalCase` (see [`case_state`]).
pub fn to_pascal_case(s: &str) -> (r: String)
    ensures
        r@ == spec_pascal_case(s@),
{
    to_case(s, true)
}

// ───────────────────────── export plans ─────────────────────────

/// A generated file: its name in the output directory and its text.
#[derive(Clone, Debug)]
pub struct GeneratedFile {
    pub name: String,
    pub content: String,
}

pub open spec fn files_view(v: Seq<GeneratedFile>) -> Seq<(Seq<char>, Seq<char>)> {
    v.map_values(|f: GeneratedFile| (f.name@, f.content@))
}

/// What an exporter produces: the output directory, the extension of the
/// files it owns there, the line ending and encoding to write with, and the
/// files.
#[derive(Clone, Debug)]
pub struct ExportPlan {
    pub output_dir: String,
    pub extension: String,
    pub line_ending: LineEnding,
    pub encoding: Encoding,
    pub files: Vec<GeneratedFile>,
}

/// Line ending configured for exports; `lf` by default.
pub open spec fn cfg_line_ending(cfg: Option<ExportConfig>) -> LineEnding {
    match cfg {
        Some(e) => match e.line_ending {
            Some(l) => l,
            None => LineEnding::Lf,
        },
        None => LineEnding::Lf,
    }
}

/// Encoding configured for exports; UTF-8 by default.
pub open spec fn cfg_encoding(cfg: Option<ExportConfig>) -> Encoding {
    match cfg {
        Some(e) => match e.encoding {
            Some(x) => x,
            None => Encoding::Utf8,
        },
        None => Encoding::Utf8,
    }
}

pub fn export_line_ending(cfg: &Option<ExportConfig>) -> (r: LineEnding)
    ensures
        r == cfg_line_ending(*cfg),
{
    match cfg {
        Some(e) => match e.line_ending {
            Some(l) => l,
            None => LineEnding::Lf,
        },
        None => LineEnding::Lf,
    }
}

pub fn export_encoding(cfg: &Option<ExportConfig>) -> (r: Encoding)
    ensures
        r == cfg_encoding(*cfg),
{
    match cfg {
        Some(e) => match e.encoding {
            Some(x) => x,
            None => Encoding::Utf8,
        },
        None => Encoding::Utf8,
    }
}

/// The text of `o`, or `d` when it is absent.
pub open spec fn text_or(o: Option<String>, d: Seq<char>) -> Seq<char> {
    match o {
        Some(s) => s@,
        None => d,
    }
}

pub fn string_or(o: &Option<String>, d: &str) -> (r: String)
    ensures
        r@ == text_or(*o, d@),
{
    match o {
        Some(s) => s.clone(),
        None => String::from_str(d),
    }
}

/// Names of the enums not deleted, group by group.
pub open spec fn live_enum_names(groups: Seq<Group>) -> Seq<String>
    decreases groups.len(),
{
    if groups.len() == 0 {
        seq![]
    } else {
        live_enum_names(groups.drop_last()) + live_enum_names_of(groups.last().enums@)
    }
}

pub open spec fn live_enum_names_of(es: Seq<crate::model::EnumDef>) -> Seq<String>
    decreases es.len(),
{
    if es.len() == 0 {
        seq![]
    } else {
        live_enum_names_of(es.drop_last()) + if es.last().deleted {
            seq![]
        } else {
            seq![es.last().name]
        }
    }
}

pub fn collect_live_enum_names(groups: &[Group]) -> (r: Vec<String>)
    ensures
        r@ == live_enum_names(groups@),
{
    let mut out: Vec<String> = Vec::new();
    let mut i: usize = 0;
    while i < groups.len()
        invariant
            i <= groups@.len(),
            out@ == live_enum_names(groups@.take(i as int)),
        decreases groups.len() - i,
    {
        assert(groups@.take(i + 1).drop_last() =~= groups@.take(i as int));
        let es = &groups[i].enums;
        let ghost base = out@;
        let mut j: usize = 0;
        while j < es.len()
            invariant
                j <= es@.len(),
                out@ == base + live_enum_names_of(es@.take(j as int)),
            decreases es.len() - j,
        {
            assert(es@.take(j + 1).drop_last() =~= es@.take(j as int));
            if !es[j].deleted {
                out.push(es[j].name.clone());
            }
            assert(out@ =~= base + live_enum_names_of(es@.take(j + 1)));
            j = j + 1;
        }
        assert(es@.take(j as int) =~= es@);
        i = i + 1;
    }
    assert(groups@.take(i as int) =~= groups@);
    out
}

/// How an exporter writes a cell or value that is empty.
#[derive(Clone, Copy, Debug, PartialEq, Eq, Structural)]
pub enum EmptyStrategy {
    /// Leave the key out.
    Omit,
    /// Write a null.
    Null,
    /// Write an empty value.
    Empty,
}

} // verus!
