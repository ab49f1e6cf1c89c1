//! TypeScript generator: one `.ts` module per table, constant set and enum.
//!
//! Values are written as TypeScript literals. A floating-point cell is
//! written as the 64-bit float that its text reads as; that piece of the
//! output is left to the caller as a [`TsPiece::Float`] holding the cell's
//! text, and every other piece is text.

use vstd::prelude::*;
use crate::enums::{Encoding, LineEnding, ModuleKind};
use crate::export::cpp::{live_constants, live_enums, live_tables};
use crate::export::{cfg_encoding, cfg_line_ending, export_encoding, export_line_ending, string_or, text_or};
use crate::model::{join_path, path_join, ExportConfig, Group, Project};
use crate::export::{
    int_string, int_text, parse_i64, spec_parse_i64, spec_split_str, spec_splitn_str, split_str,
    texts,
};
use crate::model::{
    const_entries_view, enum_entries_view, field_defs_view, ConstEntryView, Constant, ConstantView,
    EnumDef, EnumDefView, EnumEntry, EnumEntryView, Export, FieldDef, FieldDefView, Table,
    TableView,
};
use crate::schema_project::{cell_or, first_named, lemma_first_named};
use crate::tblschema::{join_with, join_with_strings};
use crate::text::{chars_is, chars_of, push_char};
use crate::types::{
    lemma_parse_param_count, param_count, spec_parse_type, BaseType, Paradigm, SepKey,
    SeparatorsSection, TblType,
};
use crate::tblschema::{default_sep_view, sep_view};

verus! {

/// Which side a TypeScript module is generated for.
#[derive(Debug, Clone, Copy, PartialEq, Eq, Structural)]
pub enum TypeScriptSide {
    Client,
    Server,
}

impl TypeScriptSide {
    /// Output directory when the configuration names none.
    pub fn default_output(self) -> (r: &'static str)
        ensures
            r@ == (match self {
                TypeScriptSide::Client => "gen/client/typescript"@,
                TypeScriptSide::Server => "gen/server/typescript"@,
            }),
    {
        match self {
            TypeScriptSide::Client => "gen/client/typescript",
            TypeScriptSide::Server => "gen/server/typescript",
        }
    }
}

/// Whether a column or entry exported to `e` appears on `side`.
pub open spec fn spec_export_visible(e: Export, side: TypeScriptSide) -> bool {
    match side {
        TypeScriptSide::Client => e == Export::ClientServer || e == Export::ClientOnly,
        TypeScriptSide::Server => e == Export::ClientServer || e == Export::ServerOnly,
    }
}

fn export_visible(e: &Export, side: TypeScriptSide) -> (r: bool)
    ensures
        r == spec_export_visible(*e, side),
{
    match side {
        TypeScriptSide::Client => match e {
            Export::ClientServer | Export::ClientOnly => true,
            _ => false,
        },
        TypeScriptSide::Server => match e {
            Export::ClientServer | Export::ServerOnly => true,
            _ => false,
        },
    }
}

// ───────────────────────── text ─────────────────────────

/// A character inside a TypeScript string literal.
pub open spec fn ts_escape_char(c: char) -> Seq<char> {
    if c == '\\' {
        "\\\\"@
    } else if c == '\u{22}' {
        "\\\u{22}"@
    } else if c == '\n' {
        "\\n"@
    } else if c == '\r' {
        "\\r"@
    } else if c == '\t' {
        "\\t"@
    } else if c == '\0' {
        "\\0"@
    } else {
        seq![c]
    }
}

pub open spec fn spec_ts_escape(s: Seq<char>) -> Seq<char>
    decreases s.len(),
{
    if s.len() == 0 {
        seq![]
    } else {
        spec_ts_escape(s.drop_last()) + ts_escape_char(s.last())
    }
}

/// `s` with backslash, double quote, line feed, carriage return, tab and
/// NUL escaped for a TypeScript string literal.
pub fn ts_escape(s: &str) -> (r: String)
    ensures
        r@ == spec_ts_escape(s@),
{
    let cs = chars_of(s);
    let mut out = String::new();
    let mut i: usize = 0;
    while i < cs.len()
        invariant
            i <= cs@.len(),
            cs@ == s@,
            out@ == spec_ts_escape(cs@.take(i as int)),
        decreases cs.len() - i,
    {
        let c = cs[i];
        assert(cs@.take(i + 1).drop_last() =~= cs@.take(i as int));
        if c == '\\' {
            out = out.concat("\\\\");
        } else if c == '\u{22}' {
            out = out.concat("\\\u{22}");
        } else if c == '\n' {
            out = out.concat("\\n");
        } else if c == '\r' {
            out = out.concat("\\r");
        } else if c == '\t' {
            out = out.concat("\\t");
        } else if c == '\0' {
            out = out.concat("\\0");
        } else {
            push_char(&mut out, c);
        }
        i = i + 1;
    }
    assert(cs@.take(i as int) =~= cs@);
    out
}

pub open spec fn ident_start(c: char) -> bool {
    ('a' <= c && c <= 'z') || ('A' <= c && c <= 'Z') || c == '_' || c == '$'
}

pub open spec fn ident_part(c: char) -> bool {
    ident_start(c) || ('0' <= c && c <= '9')
}

/// Whether `s` is an ASCII TypeScript identifier.
pub open spec fn spec_is_ts_identifier(s: Seq<char>) -> bool {
    s.len() > 0 && ident_start(s[0]) && forall|i: int| 1 <= i < s.len() ==> ident_part(#[trigger] s[i])
}

pub fn is_ts_identifier(s: &str) -> (r: bool)
    ensures
        r == spec_is_ts_identifier(s@),
{
    let cs = chars_of(s);
    if cs.len() == 0 {
        return false;
    }
    let c0 = cs[0];
    if !(('a' <= c0 && c0 <= 'z') || ('A' <= c0 && c0 <= 'Z') || c0 == '_' || c0 == '$') {
        return false;
    }
    let mut i: usize = 1;
    while i < cs.len()
        invariant
            1 <= i <= cs@.len(),
            cs@ == s@,
            forall|j: int| 1 <= j < i ==> ident_part(#[trigger] cs@[j]),
        decreases cs.len() - i,
    {
        let c = cs[i];
        if !(('a' <= c && c <= 'z') || ('A' <= c && c <= 'Z') || c == '_' || c == '$' || ('0' <= c
            && c <= '9')) {
            assert(!ident_part(cs@[i as int]));
            return false;
        }
        i = i + 1;
    }
    true
}

/// TypeScript type of a base type.
pub open spec fn spec_base_ts_type(bt: BaseType) -> Seq<char> {
    match bt {
        BaseType::Int | BaseType::Long | BaseType::Float | BaseType::Double => "number"@,
        BaseType::Str | BaseType::Txt => "string"@,
        BaseType::Bool => "boolean"@,
    }
}

pub fn base_to_ts_type(bt: BaseType) -> (r: &'static str)
    ensures
        r@ == spec_base_ts_type(bt),
{
    match bt {
        BaseType::Int | BaseType::Long | BaseType::Float | BaseType::Double => "number",
        BaseType::Str | BaseType::Txt => "string",
        BaseType::Bool => "boolean",
    }
}

/// Type annotation of a column of type `ty`; a type that does not parse is
/// `string`, a reference is `number`.
pub open spec fn spec_ts_field_type(ty: Seq<char>) -> Seq<char> {
    match spec_parse_type(ty) {
        None => "string"@,
        Some(t) => {
            let p = t.params;
            let b = |i: int| spec_base_ts_type(p[i]);
            match t.paradigm {
                Paradigm::Base => b(0),
                Paradigm::Tuple2 => "["@ + b(0) + ", "@ + b(1) + "]"@,
                Paradigm::Tuple3 => "["@ + b(0) + ", "@ + b(1) + ", "@ + b(2) + "]"@,
                Paradigm::Tuple4 => "["@ + b(0) + ", "@ + b(1) + ", "@ + b(2) + ", "@ + b(3) + "]"@,
                Paradigm::List | Paradigm::SetOf => b(0) + "[]"@,
                Paradigm::MapOf => "Record<"@ + b(0) + ", "@ + b(1) + ">"@,
                Paradigm::ListTuple2 => "["@ + b(0) + ", "@ + b(1) + "][]"@,
                Paradigm::ListTuple3 => "["@ + b(0) + ", "@ + b(1) + ", "@ + b(2) + "][]"@,
                Paradigm::ListTuple4 => "["@ + b(0) + ", "@ + b(1) + ", "@ + b(2) + ", "@ + b(3)
                    + "][]"@,
                Paradigm::MapTuple2 => "Record<"@ + b(0) + ", ["@ + b(1) + ", "@ + b(2) + "]>"@,
                Paradigm::MapTuple3 => "Record<"@ + b(0) + ", ["@ + b(1) + ", "@ + b(2) + ", "@
                    + b(3) + "]>"@,
                Paradigm::MapTuple4 => "Record<"@ + b(0) + ", ["@ + b(1) + ", "@ + b(2) + ", "@
                    + b(3) + ", "@ + b(4) + "]>"@,
                Paradigm::MapList => "Record<"@ + b(0) + ", "@ + b(1) + "[]>"@,
                Paradigm::Ref => "number"@,
            }
        },
    }
}

fn bt(t: &TblType, i: usize) -> (r: &'static str)
    requires
        i < t.params@.len(),
    ensures
        r@ == spec_base_ts_type(t.params@[i as int]),
{
    base_to_ts_type(t.params[i])
}

pub fn ts_field_type(tbl_type: &str) -> (r: String)
    ensures
        r@ == spec_ts_field_type(tbl_type@),
{
    let t = match TblType::parse(tbl_type) {
        Some(t) => t,
        None => return String::from_str("string"),
    };
    proof {
        lemma_parse_param_count(tbl_type@);
    }
    let s = |x: &str| -> (r: String)
        ensures
            r@ == x@,
        { String::from_str(x) };
    match t.paradigm {
        Paradigm::Base => s(bt(&t, 0)),
        Paradigm::Tuple2 => s("[").concat(bt(&t, 0)).concat(", ").concat(bt(&t, 1)).concat("]"),
        Paradigm::Tuple3 => s("[").concat(bt(&t, 0)).concat(", ").concat(bt(&t, 1)).concat(
            ", ",
        ).concat(bt(&t, 2)).concat("]"),
        Paradigm::Tuple4 => s("[").concat(bt(&t, 0)).concat(", ").concat(bt(&t, 1)).concat(
            ", ",
        ).concat(bt(&t, 2)).concat(", ").concat(bt(&t, 3)).concat("]"),
        Paradigm::List | Paradigm::SetOf => s(bt(&t, 0)).concat("[]"),
        Paradigm::MapOf => s("Record<").concat(bt(&t, 0)).concat(", ").concat(bt(&t, 1)).concat(
            ">",
        ),
        Paradigm::ListTuple2 => s("[").concat(bt(&t, 0)).concat(", ").concat(bt(&t, 1)).concat(
            "][]",
        ),
        Paradigm::ListTuple3 => s("[").concat(bt(&t, 0)).concat(", ").concat(bt(&t, 1)).concat(
            ", ",
        ).concat(bt(&t, 2)).concat("][]"),
        Paradigm::ListTuple4 => s("[").concat(bt(&t, 0)).concat(", ").concat(bt(&t, 1)).concat(
            ", ",
        ).concat(bt(&t, 2)).concat(", ").concat(bt(&t, 3)).concat("][]"),
        Paradigm::MapTuple2 => s("Record<").concat(bt(&t, 0)).concat(", [").concat(
            bt(&t, 1),
        ).concat(", ").concat(bt(&t, 2)).concat("]>"),
        Paradigm::MapTuple3 => s("Record<").concat(bt(&t, 0)).concat(", [").concat(
            bt(&t, 1),
        ).concat(", ").concat(bt(&t, 2)).concat(", ").concat(bt(&t, 3)).concat("]>"),
        Paradigm::MapTuple4 => s("Record<").concat(bt(&t, 0)).concat(", [").concat(
            bt(&t, 1),
        ).concat(", ").concat(bt(&t, 2)).concat(", ").concat(bt(&t, 3)).concat(", ").concat(
            bt(&t, 4),
        ).concat("]>"),
        Paradigm::MapList => s("Record<").concat(bt(&t, 0)).concat(", ").concat(bt(&t, 1)).concat(
            "[]>",
        ),
        Paradigm::Ref => s("number"),
    }
}

// ───────────────────────── values ─────────────────────────

/// A piece of generated TypeScript: text, or the cell text of a float whose
/// literal is the 64-bit float that the text reads as (`0` when it reads as
/// none).
#[derive(Clone, Debug)]
pub enum TsPiece {
    Text(String),
    Float(String),
}

pub enum PieceView {
    Text(Seq<char>),
    Float(Seq<char>),
}

impl View for TsPiece {
    type V = PieceView;

    open spec fn view(&self) -> PieceView {
        match self {
            TsPiece::Text(s) => PieceView::Text(s@),
            TsPiece::Float(s) => PieceView::Float(s@),
        }
    }
}

pub open spec fn pieces_view(v: Seq<TsPiece>) -> Seq<PieceView> {
    v.map_values(|p: TsPiece| p@)
}

/// The text that pieces make once each float piece is written with
/// `float_text`.
pub open spec fn render(ps: Seq<PieceView>, float_text: spec_fn(Seq<char>) -> Seq<char>) -> Seq<
    char,
>
    decreases ps.len(),
{
    if ps.len() == 0 {
        seq![]
    } else {
        render(ps.drop_last(), float_text) + match ps.last() {
            PieceView::Text(t) => t,
            PieceView::Float(raw) => float_text(raw),
        }
    }
}

pub open spec fn txt(s: Seq<char>) -> Seq<PieceView> {
    seq![PieceView::Text(s)]
}

/// A string literal holding `raw`.
pub open spec fn quoted(raw: Seq<char>) -> Seq<PieceView> {
    txt("\u{22}"@ + spec_ts_escape(raw) + "\u{22}"@)
}

/// Literal of a base-typed cell: an integer as `i64` reads and writes it
/// (`0` when it does not read), a float as a float piece, a boolean `true`
/// for `true` or `1`, and text as a string literal.
pub open spec fn spec_base_to_ts(raw: Seq<char>, bt: BaseType) -> Seq<PieceView> {
    match bt {
        BaseType::Int | BaseType::Long => txt(
            match spec_parse_i64(raw) {
                Some(v) => int_text(v),
                None => "0"@,
            },
        ),
        BaseType::Float | BaseType::Double => seq![PieceView::Float(raw)],
        BaseType::Bool => txt(
            if raw == "true"@ || raw == "1"@ {
                "true"@
            } else {
                "false"@
            },
        ),
        BaseType::Str | BaseType::Txt => quoted(raw),
    }
}

/// Key of an object literal: a text key bare when it is an identifier,
/// quoted otherwise; another key written as its value.
pub open spec fn spec_ts_obj_key(raw: Seq<char>, bt: BaseType) -> Seq<PieceView> {
    match bt {
        BaseType::Str | BaseType::Txt => if spec_is_ts_identifier(raw) {
            txt(raw)
        } else {
            quoted(raw)
        },
        _ => spec_base_to_ts(raw, bt),
    }
}

/// Items joined with `, `.
pub open spec fn join_items(items: Seq<Seq<PieceView>>) -> Seq<PieceView>
    decreases items.len(),
{
    if items.len() == 0 {
        seq![]
    } else if items.len() == 1 {
        items[0]
    } else {
        join_items(items.drop_last()) + txt(", "@) + items.last()
    }
}

/// `[a, b, ..]` of `parts` read with the base types `ps`, when `text`
/// splits into exactly `n` parts at `tsep`; the quoted text otherwise.
pub open spec fn tuple_or_quoted(text: Seq<char>, n: nat, tsep: Seq<char>, ps: Seq<BaseType>) -> Seq<
    PieceView,
> {
    let parts = spec_splitn_str(n, text, tsep);
    if parts.len() == n {
        txt("["@) + join_items(Seq::new(n, |i: int| spec_base_to_ts(parts[i], ps[i]))) + txt("]"@)
    } else {
        quoted(text)
    }
}

/// How an item of a list or an entry of a map is written.
pub enum ItemView {
    Base(BaseType),
    Tuple(nat, Seq<char>, Seq<BaseType>),
    KeyBase(Seq<char>, BaseType, BaseType),
    KeyTuple(Seq<char>, nat, Seq<char>, Seq<BaseType>),
    KeyList(Seq<char>, Seq<char>, BaseType, BaseType),
}

pub open spec fn item_pieces(k: ItemView, t: Seq<char>) -> Seq<PieceView> {
    match k {
        ItemView::Base(b) => spec_base_to_ts(t, b),
        ItemView::Tuple(n, tsep, ps) => tuple_or_quoted(t, n, tsep, ps),
        ItemView::KeyBase(kv, kb, vb) => {
            let p = spec_splitn_str(2, t, kv);
            if p.len() == 2 {
                spec_ts_obj_key(p[0], kb) + txt(": "@) + spec_base_to_ts(p[1], vb)
            } else {
                quoted(t)
            }
        },
        ItemView::KeyTuple(kv, n, tsep, ps) => {
            let p = spec_splitn_str(2, t, kv);
            if p.len() == 2 {
                spec_ts_obj_key(p[0], ps[0]) + txt(": "@) + tuple_or_quoted(p[1], n, tsep, ps.skip(1))
            } else {
                quoted(t)
            }
        },
        ItemView::KeyList(kv, isep, kb, vb) => {
            let p = spec_splitn_str(2, t, kv);
            if p.len() == 2 {
                spec_ts_obj_key(p[0], kb) + txt(": ["@) + join_items(
                    spec_split_str(p[1], isep).map_values(|v: Seq<char>| spec_base_to_ts(v, vb)),
                ) + txt("]"@)
            } else {
                quoted(t)
            }
        },
    }
}

/// Items of `raw` split at `sep`, each written as `k` says, joined.
pub open spec fn items_of(raw: Seq<char>, sep: Seq<char>, k: ItemView) -> Seq<PieceView> {
    join_items(spec_split_str(raw, sep).map_values(|t: Seq<char>| item_pieces(k, t)))
}

/// Literal of a cell `raw` of type `ty`: `null` for an empty cell, the
/// quoted text when the type does not parse, else by the type's shape with
/// the separators `sep`.
pub open spec fn spec_value_to_ts(raw: Seq<char>, ty: Seq<char>, sep: Map<SepKey, Seq<char>>) -> Seq<
    PieceView,
> {
    if raw.len() == 0 {
        txt("null"@)
    } else {
        match spec_parse_type(ty) {
            None => quoted(raw),
            Some(t) => {
                let p = t.params;
                match t.paradigm {
                    Paradigm::Base => spec_base_to_ts(raw, p[0]),
                    Paradigm::Tuple2 => tuple_or_quoted(raw, 2, sep[SepKey::Tuple2], p),
                    Paradigm::Tuple3 => tuple_or_quoted(raw, 3, sep[SepKey::Tuple3], p),
                    Paradigm::Tuple4 => tuple_or_quoted(raw, 4, sep[SepKey::Tuple4], p),
                    Paradigm::List => txt("["@) + items_of(raw, sep[SepKey::List], ItemView::Base(p[0]))
                        + txt("]"@),
                    Paradigm::SetOf => txt("["@) + items_of(raw, sep[SepKey::SetSep], ItemView::Base(p[0]))
                        + txt("]"@),
                    Paradigm::MapOf => txt("{ "@) + items_of(
                        raw,
                        sep[SepKey::MapEntry],
                        ItemView::KeyBase(sep[SepKey::MapKv], p[0], p[1]),
                    ) + txt(" }"@),
                    Paradigm::ListTuple2 => txt("["@) + items_of(
                        raw,
                        sep[SepKey::ListTuple2List],
                        ItemView::Tuple(2, sep[SepKey::ListTuple2Tuple], p),
                    ) + txt("]"@),
                    Paradigm::ListTuple3 => txt("["@) + items_of(
                        raw,
                        sep[SepKey::ListTuple3List],
                        ItemView::Tuple(3, sep[SepKey::ListTuple3Tuple], p),
                    ) + txt("]"@),
                    Paradigm::ListTuple4 => txt("["@) + items_of(
                        raw,
                        sep[SepKey::ListTuple4List],
                        ItemView::Tuple(4, sep[SepKey::ListTuple4Tuple], p),
                    ) + txt("]"@),
                    Paradigm::MapTuple2 => txt("{ "@) + items_of(
                        raw,
                        sep[SepKey::MapTuple2Entry],
                        ItemView::KeyTuple(sep[SepKey::MapTuple2Kv], 2, sep[SepKey::MapTuple2Tuple], p),
                    ) + txt(" }"@),
                    Paradigm::MapTuple3 => txt("{ "@) + items_of(
                        raw,
                        sep[SepKey::MapTuple3Entry],
                        ItemView::KeyTuple(sep[SepKey::MapTuple3Kv], 3, sep[SepKey::MapTuple3Tuple], p),
                    ) + txt(" }"@),
                    Paradigm::MapTuple4 => txt("{ "@) + items_of(
                        raw,
                        sep[SepKey::MapTuple4Entry],
                        ItemView::KeyTuple(sep[SepKey::MapTuple4Kv], 4, sep[SepKey::MapTuple4Tuple], p),
                    ) + txt(" }"@),
                    Paradigm::MapList => txt("{ "@) + items_of(
                        raw,
                        sep[SepKey::MapListEntry],
                        ItemView::KeyList(sep[SepKey::MapListKv], sep[SepKey::MapListItem], p[0], p[1]),
                    ) + txt(" }"@),
                    Paradigm::Ref => spec_base_to_ts(raw, BaseType::Int),
                }
            },
        }
    }
}

fn text_piece(s: &str) -> (r: Vec<TsPiece>)
    ensures
        pieces_view(r@) == txt(s@),
{
    let r = vec![TsPiece::Text(String::from_str(s))];
    assert(pieces_view(r@) =~= txt(s@));
    r
}

fn append(out: &mut Vec<TsPiece>, more: Vec<TsPiece>)
    ensures
        pieces_view(final(out)@) == pieces_view(old(out)@) + pieces_view(more@),
{
    let mut more = more;
    let ghost a = pieces_view(out@);
    let ghost b = pieces_view(more@);
    out.append(&mut more);
    assert(pieces_view(out@) =~= a + b);
}

fn push_text(out: &mut Vec<TsPiece>, s: &str)
    ensures
        pieces_view(final(out)@) == pieces_view(old(out)@) + txt(s@),
{
    let ghost a = pieces_view(out@);
    out.push(TsPiece::Text(String::from_str(s)));
    assert(pieces_view(out@) =~= a + txt(s@));
}

fn quoted_pieces(raw: &str) -> (r: Vec<TsPiece>)
    ensures
        pieces_view(r@) == quoted(raw@),
{
    let t = String::from_str("\u{22}").concat(ts_escape(raw).as_str()).concat("\u{22}");
    text_piece(t.as_str())
}

/// Literal of a base-typed cell (see [`spec_base_to_ts`]).
pub fn base_to_ts(raw: &str, bt: BaseType) -> (r: Vec<TsPiece>)
    ensures
        pieces_view(r@) == spec_base_to_ts(raw@, bt),
{
    match bt {
        BaseType::Int | BaseType::Long => {
            let cs = chars_of(raw);
            match parse_i64(cs.as_slice()) {
                Some(v) => text_piece(int_string(v).as_str()),
                None => text_piece("0"),
            }
        },
        BaseType::Float | BaseType::Double => {
            let r = vec![TsPiece::Float(String::from_str(raw))];
            assert(pieces_view(r@) =~= seq![PieceView::Float(raw@)]);
            r
        },
        BaseType::Bool => {
            let cs = chars_of(raw);
            if chars_is(cs.as_slice(), "true") || chars_is(cs.as_slice(), "1") {
                text_piece("true")
            } else {
                text_piece("false")
            }
        },
        BaseType::Str | BaseType::Txt => quoted_pieces(raw),
    }
}

/// Key of an object literal (see [`spec_ts_obj_key`]).
pub fn ts_obj_key(raw: &str, bt: BaseType) -> (r: Vec<TsPiece>)
    ensures
        pieces_view(r@) == spec_ts_obj_key(raw@, bt),
{
    match bt {
        BaseType::Str | BaseType::Txt => if is_ts_identifier(raw) {
            text_piece(raw)
        } else {
            quoted_pieces(raw)
        },
        _ => base_to_ts(raw, bt),
    }
}

proof fn lemma_join_items_push(items: Seq<Seq<PieceView>>, x: Seq<PieceView>)
    ensures
        join_items(items.push(x)) == if items.len() == 0 {
            x
        } else {
            join_items(items) + txt(", "@) + x
        },
{
    assert(items.push(x).drop_last() =~= items);
}

pub open spec fn min_int(a: int, b: int) -> int {
    if a < b {
        a
    } else {
        b
    }
}

/// Splits `s` as `str::splitn(n, sep)` does.
pub fn splitn_str(n: usize, s: &[char], sep: &[char]) -> (r: Vec<String>)
    ensures
        texts(r@) == spec_splitn_str(n as nat, s@, sep@),
{
    let ps = split_str(s, sep);
    if n == 0 {
        let r: Vec<String> = Vec::new();
        assert(texts(r@) =~= Seq::<Seq<char>>::empty());
        return r;
    }
    if ps.len() <= n {
        return ps;
    }
    let ghost pv = texts(ps@);
    let mut head: Vec<String> = Vec::new();
    let mut rest: Vec<String> = Vec::new();
    let mut i: usize = 0;
    while i < ps.len()
        invariant
            n > 0,
            ps@.len() > n,
            i <= ps@.len(),
            pv == texts(ps@),
            texts(head@) == pv.take(min_int(i as int, n - 1)),
            texts(rest@) == pv.subrange(min_int(i as int, n - 1), i as int),
        decreases ps.len() - i,
    {
        let ghost h = texts(head@);
        let ghost t = texts(rest@);
        if i + 1 < n {
            head.push(ps[i].clone());
            assert(texts(head@) =~= h.push(pv[i as int]));
            assert(pv.take(i + 1) =~= pv.take(i as int).push(pv[i as int]));
            assert(texts(rest@) =~= pv.subrange(min_int(i + 1, n - 1), i + 1));
        } else {
            rest.push(ps[i].clone());
            assert(texts(rest@) =~= t.push(pv[i as int]));
            assert(pv.subrange(n - 1, i + 1) =~= pv.subrange(n - 1, i as int).push(pv[i as int]));
        }
        i = i + 1;
    }
    assert(pv.subrange(n - 1, i as int) =~= pv.skip(n - 1));
    let sep_s = crate::text::string_of_chars(sep);
    let last = join_with_strings(&rest, sep_s.as_str());
    let ghost h = texts(head@);
    head.push(last);
    assert(texts(head@) =~= h.push(join_with(pv.skip(n - 1), sep@)));
    head
}

fn join_base_parts(parts: &Vec<String>, n: usize, ps: &Vec<BaseType>, off: usize) -> (r: Vec<TsPiece>)
    requires
        n <= parts@.len(),
        off + n <= ps.len(),
    ensures
        pieces_view(r@) == join_items(
            Seq::new(n as nat, |i: int| spec_base_to_ts(texts(parts@)[i], ps@.skip(off as int)[i])),
        ),
{
    let ghost f = |i: int| spec_base_to_ts(texts(parts@)[i], ps@.skip(off as int)[i]);
    let mut out: Vec<TsPiece> = Vec::new();
    let mut i: usize = 0;
    assert(Seq::new(0, f) =~= Seq::<Seq<PieceView>>::empty());
    while i < n
        invariant
            i <= n,
            n <= parts@.len(),
            off + n <= ps.len(),
            f == (|i: int| spec_base_to_ts(texts(parts@)[i], ps@.skip(off as int)[i])),
            pieces_view(out@) == join_items(Seq::new(i as nat, f)),
        decreases n - i,
    {
        proof {
            lemma_join_items_push(Seq::new(i as nat, f), f(i as int));
            assert(Seq::new((i + 1) as nat, f) =~= Seq::new(i as nat, f).push(f(i as int)));
            assert(ps@.skip(off as int)[i as int] == ps@[off + i]);
            assert(texts(parts@)[i as int] == parts@[i as int]@);
        }
        if i > 0 {
            push_text(&mut out, ", ");
        }
        let b = base_to_ts(parts[i].as_str(), ps[off + i]);
        append(&mut out, b);
        i = i + 1;
    }
    out
}

fn tuple_pieces(text: &str, n: usize, tsep: &str, ps: &Vec<BaseType>, off: usize) -> (r: Vec<TsPiece>)
    requires
        off + n <= ps@.len(),
    ensures
        pieces_view(r@) == tuple_or_quoted(text@, n as nat, tsep@, ps@.skip(off as int)),
{
    let tc = chars_of(text);
    let sc = chars_of(tsep);
    let parts = splitn_str(n, tc.as_slice(), sc.as_slice());
    if parts.len() == n {
        let mut out = text_piece("[");
        let inner = join_base_parts(&parts, n, ps, off);
        append(&mut out, inner);
        push_text(&mut out, "]");
        out
    } else {
        quoted_pieces(text)
    }
}

/// How an item of a list or an entry of a map is written (see [`ItemView`]).
enum ItemKind {
    Base(BaseType),
    Tuple(usize, String, Vec<BaseType>),
    KeyBase(String, BaseType, BaseType),
    KeyTuple(String, usize, String, Vec<BaseType>),
    KeyList(String, String, BaseType, BaseType),
}

impl View for ItemKind {
    type V = ItemView;

    closed spec fn view(&self) -> ItemView {
        match self {
            ItemKind::Base(b) => ItemView::Base(*b),
            ItemKind::Tuple(n, t, ps) => ItemView::Tuple(*n as nat, t@, ps@),
            ItemKind::KeyBase(kv, a, b) => ItemView::KeyBase(kv@, *a, *b),
            ItemKind::KeyTuple(kv, n, t, ps) => ItemView::KeyTuple(kv@, *n as nat, t@, ps@),
            ItemKind::KeyList(kv, it, a, b) => ItemView::KeyList(kv@, it@, *a, *b),
        }
    }
}

impl ItemKind {
    closed spec fn well_formed(&self) -> bool {
        match self {
            ItemKind::Tuple(n, _, ps) => *n <= ps@.len(),
            ItemKind::KeyTuple(_, n, _, ps) => *n + 1 <= ps@.len(),
            _ => true,
        }
    }
}

fn item_pieces_of(k: &ItemKind, t: &str) -> (r: Vec<TsPiece>)
    requires
        k.well_formed(),
    ensures
        pieces_view(r@) == item_pieces(k@, t@),
{
    match k {
        ItemKind::Base(b) => base_to_ts(t, *b),
        ItemKind::Tuple(n, tsep, ps) => {
            let r = tuple_pieces(t, *n, tsep.as_str(), ps, 0);
            assert(ps@.skip(0) =~= ps@);
            r
        },
        ItemKind::KeyBase(kv, kb, vb) => {
            let tc = chars_of(t);
            let kc = chars_of(kv.as_str());
            let p = splitn_str(2, tc.as_slice(), kc.as_slice());
            if p.len() == 2 {
                let mut out = ts_obj_key(p[0].as_str(), *kb);
                push_text(&mut out, ": ");
                append(&mut out, base_to_ts(p[1].as_str(), *vb));
                out
            } else {
                quoted_pieces(t)
            }
        },
        ItemKind::KeyTuple(kv, n, tsep, ps) => {
            let tc = chars_of(t);
            let kc = chars_of(kv.as_str());
            let p = splitn_str(2, tc.as_slice(), kc.as_slice());
            if p.len() == 2 {
                let mut out = ts_obj_key(p[0].as_str(), ps[0]);
                push_text(&mut out, ": ");
                append(&mut out, tuple_pieces(p[1].as_str(), *n, tsep.as_str(), ps, 1));
                out
            } else {
                quoted_pieces(t)
            }
        },
        ItemKind::KeyList(kv, isep, kb, vb) => {
            let tc = chars_of(t);
            let kc = chars_of(kv.as_str());
            let p = splitn_str(2, tc.as_slice(), kc.as_slice());
            if p.len() == 2 {
                let mut out = ts_obj_key(p[0].as_str(), *kb);
                push_text(&mut out, ": [");
                let inner = base_list_pieces(p[1].as_str(), isep.as_str(), *vb);
                append(&mut out, inner);
                push_text(&mut out, "]");
                out
            } else {
                quoted_pieces(t)
            }
        },
    }
}

fn base_list_pieces(raw: &str, sep: &str, b: BaseType) -> (r: Vec<TsPiece>)
    ensures
        pieces_view(r@) == join_items(
            spec_split_str(raw@, sep@).map_values(|v: Seq<char>| spec_base_to_ts(v, b)),
        ),
{
    let rc = chars_of(raw);
    let sc = chars_of(sep);
    let parts = split_str(rc.as_slice(), sc.as_slice());
    let ghost items = texts(parts@).map_values(|v: Seq<char>| spec_base_to_ts(v, b));
    let mut out: Vec<TsPiece> = Vec::new();
    let mut i: usize = 0;
    assert(items.take(0) =~= Seq::<Seq<PieceView>>::empty());
    while i < parts.len()
        invariant
            i <= parts@.len(),
            items == texts(parts@).map_values(|v: Seq<char>| spec_base_to_ts(v, b)),
            pieces_view(out@) == join_items(items.take(i as int)),
        decreases parts.len() - i,
    {
        proof {
            lemma_join_items_push(items.take(i as int), items[i as int]);
            assert(items.take(i + 1) =~= items.take(i as int).push(items[i as int]));
        }
        if i > 0 {
            push_text(&mut out, ", ");
        }
        let x = base_to_ts(parts[i].as_str(), b);
        append(&mut out, x);
        i = i + 1;
    }
    assert(items.take(i as int) =~= items);
    out
}

fn items_pieces(raw: &str, sep: &str, k: &ItemKind) -> (r: Vec<TsPiece>)
    requires
        k.well_formed(),
    ensures
        pieces_view(r@) == items_of(raw@, sep@, k@),
{
    let rc = chars_of(raw);
    let sc = chars_of(sep);
    let parts = split_str(rc.as_slice(), sc.as_slice());
    let ghost items = texts(parts@).map_values(|t: Seq<char>| item_pieces(k@, t));
    let mut out: Vec<TsPiece> = Vec::new();
    let mut i: usize = 0;
    assert(items.take(0) =~= Seq::<Seq<PieceView>>::empty());
    while i < parts.len()
        invariant
            i <= parts@.len(),
            k.well_formed(),
            items == texts(parts@).map_values(|t: Seq<char>| item_pieces(k@, t)),
            pieces_view(out@) == join_items(items.take(i as int)),
        decreases parts.len() - i,
    {
        proof {
            lemma_join_items_push(items.take(i as int), items[i as int]);
            assert(items.take(i + 1) =~= items.take(i as int).push(items[i as int]));
        }
        if i > 0 {
            push_text(&mut out, ", ");
        }
        let b = item_pieces_of(k, parts[i].as_str());
        append(&mut out, b);
        i = i + 1;
    }
    assert(items.take(i as int) =~= items);
    out
}

fn wrapped(open: &str, raw: &str, sep: &str, k: &ItemKind, close: &str) -> (r: Vec<TsPiece>)
    requires
        k.well_formed(),
    ensures
        pieces_view(r@) == txt(open@) + items_of(raw@, sep@, k@) + txt(close@),
{
    let mut out = text_piece(open);
    append(&mut out, items_pieces(raw, sep, k));
    push_text(&mut out, close);
    out
}

/// Literal of the cell `raw` of type `tbl_type` (see [`spec_value_to_ts`]).
pub fn value_to_ts(raw: &str, tbl_type: &str, sep: &SeparatorsSection) -> (r: Vec<TsPiece>)
    ensures
        pieces_view(r@) == spec_value_to_ts(raw@, tbl_type@, sep_view(*sep)),
{
    if raw.is_empty() {
        return text_piece("null");
    }
    let t = match TblType::parse(tbl_type) {
        Some(t) => t,
        None => return quoted_pieces(raw),
    };
    proof {
        lemma_parse_param_count(tbl_type@);
    }
    let p = &t.params;
    proof {
        assert(p@.skip(0) =~= p@);
    }
    match t.paradigm {
        Paradigm::Base => base_to_ts(raw, p[0]),
        Paradigm::Tuple2 => tuple_pieces(raw, 2, sep.tuple2.as_str(), p, 0),
        Paradigm::Tuple3 => tuple_pieces(raw, 3, sep.tuple3.as_str(), p, 0),
        Paradigm::Tuple4 => tuple_pieces(raw, 4, sep.tuple4.as_str(), p, 0),
        Paradigm::List => wrapped("[", raw, sep.list.as_str(), &ItemKind::Base(p[0]), "]"),
        Paradigm::SetOf => wrapped("[", raw, sep.set.as_str(), &ItemKind::Base(p[0]), "]"),
        Paradigm::MapOf => wrapped(
            "{ ",
            raw,
            sep.map.entry.as_str(),
            &ItemKind::KeyBase(sep.map.kv.clone(), p[0], p[1]),
            " }",
        ),
        Paradigm::ListTuple2 => wrapped(
            "[",
            raw,
            sep.list_tuple2.list.as_str(),
            &ItemKind::Tuple(2, sep.list_tuple2.tuple.clone(), p.clone()),
            "]",
        ),
        Paradigm::ListTuple3 => wrapped(
            "[",
            raw,
            sep.list_tuple3.list.as_str(),
            &ItemKind::Tuple(3, sep.list_tuple3.tuple.clone(), p.clone()),
            "]",
        ),
        Paradigm::ListTuple4 => wrapped(
            "[",
            raw,
            sep.list_tuple4.list.as_str(),
            &ItemKind::Tuple(4, sep.list_tuple4.tuple.clone(), p.clone()),
            "]",
        ),
        Paradigm::MapTuple2 => wrapped(
            "{ ",
            raw,
            sep.map_tuple2.entry.as_str(),
            &ItemKind::KeyTuple(sep.map_tuple2.kv.clone(), 2, sep.map_tuple2.tuple.clone(), p.clone()),
            " }",
        ),
        Paradigm::MapTuple3 => wrapped(
            "{ ",
            raw,
            sep.map_tuple3.entry.as_str(),
            &ItemKind::KeyTuple(sep.map_tuple3.kv.clone(), 3, sep.map_tuple3.tuple.clone(), p.clone()),
            " }",
        ),
        Paradigm::MapTuple4 => wrapped(
            "{ ",
            raw,
            sep.map_tuple4.entry.as_str(),
            &ItemKind::KeyTuple(sep.map_tuple4.kv.clone(), 4, sep.map_tuple4.tuple.clone(), p.clone()),
            " }",
        ),
        Paradigm::MapList => wrapped(
            "{ ",
            raw,
            sep.map_list.entry.as_str(),
            &ItemKind::KeyList(sep.map_list.kv.clone(), sep.map_list.item.clone(), p[0], p[1]),
            " }",
        ),
        Paradigm::Ref => base_to_ts(raw, BaseType::Int),
    }
}

// ───────────────────────── modules ─────────────────────────

/// Literal of an empty cell of type `ty`: the type's zero value.
pub open spec fn spec_default_for_field(ty: Seq<char>) -> Seq<char> {
    match spec_parse_type(ty) {
        None => "\u{22}\u{22}"@,
        Some(t) => match t.paradigm {
            Paradigm::Base => match t.params[0] {
                BaseType::Int | BaseType::Long | BaseType::Float | BaseType::Double => "0"@,
                BaseType::Str | BaseType::Txt => "\u{22}\u{22}"@,
                BaseType::Bool => "false"@,
            },
            Paradigm::Ref => "0"@,
            Paradigm::Tuple2 | Paradigm::Tuple3 | Paradigm::Tuple4 | Paradigm::List
            | Paradigm::SetOf | Paradigm::ListTuple2 | Paradigm::ListTuple3
            | Paradigm::ListTuple4 => "[]"@,
            _ => "{}"@,
        },
    }
}

pub fn default_for_field(tbl_type: &str) -> (r: &'static str)
    ensures
        r@ == spec_default_for_field(tbl_type@),
{
    let t = match TblType::parse(tbl_type) {
        Some(t) => t,
        None => return "\u{22}\u{22}",
    };
    proof {
        lemma_parse_param_count(tbl_type@);
    }
    match t.paradigm {
        Paradigm::Base => match t.params[0] {
            BaseType::Int | BaseType::Long | BaseType::Float | BaseType::Double => "0",
            BaseType::Str | BaseType::Txt => "\u{22}\u{22}",
            BaseType::Bool => "false",
        },
        Paradigm::Ref => "0",
        Paradigm::Tuple2 | Paradigm::Tuple3 | Paradigm::Tuple4 | Paradigm::List
        | Paradigm::SetOf | Paradigm::ListTuple2 | Paradigm::ListTuple3
        | Paradigm::ListTuple4 => "[]",
        _ => "{}",
    }
}

/// Indices of the columns shown on `side`.
pub open spec fn visible_cols(fs: Seq<FieldDefView>, side: TypeScriptSide) -> Seq<int>
    decreases fs.len(),
{
    if fs.len() == 0 {
        seq![]
    } else if spec_export_visible(fs.last().export, side) {
        visible_cols(fs.drop_last(), side).push(fs.len() - 1)
    } else {
        visible_cols(fs.drop_last(), side)
    }
}

/// The column that keys the records: the first named `id`, else the first.
pub open spec fn ts_index_col(fs: Seq<FieldDefView>) -> int {
    let i = first_named(fs.map_values(|f: FieldDefView| f.name), "id"@);
    if i < fs.len() {
        i
    } else {
        0
    }
}

/// Literal of a table cell: the zero value of its type when empty, else
/// read with the default separators.
pub open spec fn table_value(raw: Seq<char>, ty: Seq<char>) -> Seq<PieceView> {
    if raw.len() == 0 {
        txt(spec_default_for_field(ty))
    } else {
        spec_value_to_ts(raw, ty, default_sep_view())
    }
}

pub open spec fn record_entries(rec: Seq<Seq<char>>, fs: Seq<FieldDefView>, cols: Seq<int>) -> Seq<
    Seq<PieceView>,
> {
    cols.map_values(
        |c: int|
            txt(fs[c].name + ": "@) + table_value(cell_or(rec, c, seq![]), fs[c].tbl_type),
    )
}

/// Line of a record: its key, then its shown columns.
pub open spec fn record_ts(rec: Seq<Seq<char>>, fs: Seq<FieldDefView>, cols: Seq<int>) -> Seq<
    PieceView,
> {
    let key = match spec_parse_i64(cell_or(rec, ts_index_col(fs), "0"@)) {
        Some(v) => v,
        None => 0,
    };
    txt("    "@ + int_text(key) + ": { "@) + join_items(record_entries(rec, fs, cols)) + txt(
        " },\n"@,
    )
}

pub open spec fn records_ts(recs: Seq<Seq<Seq<char>>>, fs: Seq<FieldDefView>, cols: Seq<int>) -> Seq<
    PieceView,
>
    decreases recs.len(),
{
    if recs.len() == 0 {
        seq![]
    } else {
        records_ts(recs.drop_last(), fs, cols) + record_ts(recs.last(), fs, cols)
    }
}

pub open spec fn iface_fields(fs: Seq<FieldDefView>, cols: Seq<int>) -> Seq<char>
    decreases cols.len(),
{
    if cols.len() == 0 {
        seq![]
    } else {
        let f = fs[cols.last()];
        iface_fields(fs, cols.drop_last()) + "    "@ + f.name + ": "@ + spec_ts_field_type(
            f.tbl_type,
        ) + ";\n"@
    }
}

pub open spec fn exported(mk: ModuleKind, word: Seq<char>) -> Seq<char> {
    match mk {
        ModuleKind::Esm => "export "@ + word,
        ModuleKind::CommonJs => word,
    }
}

pub open spec fn common_js_export(mk: ModuleKind, name: Seq<char>) -> Seq<char> {
    match mk {
        ModuleKind::Esm => seq![],
        ModuleKind::CommonJs => "module.exports."@ + name + " = "@ + name + ";\n"@,
    }
}

/// Module of a table: an interface `<Name>Tpl` of the columns shown on
/// `side`, and a record map keyed by each record's `id` column.
pub open spec fn spec_export_table_ts(t: TableView, side: TypeScriptSide, mk: ModuleKind) -> Seq<
    PieceView,
> {
    let cols = visible_cols(t.fields, side);
    let iface = t.name + "Tpl"@;
    txt(
        exported(mk, "interface "@) + iface + " {\n"@ + iface_fields(t.fields, cols) + "}\n\n"@
            + exported(mk, "const "@) + t.name + ": Record<number, "@ + iface + "> = {\n"@,
    ) + records_ts(t.records, t.fields, cols) + txt("};\n"@ + common_js_export(mk, t.name))
}

fn exported_word(mk: ModuleKind, word: &str) -> (r: String)
    ensures
        r@ == exported(mk, word@),
{
    match mk {
        ModuleKind::Esm => String::from_str("export ").concat(word),
        ModuleKind::CommonJs => String::from_str(word),
    }
}

fn common_js_line(mk: ModuleKind, name: &str) -> (r: String)
    ensures
        r@ == common_js_export(mk, name@),
{
    match mk {
        ModuleKind::Esm => String::new(),
        ModuleKind::CommonJs => String::from_str("module.exports.").concat(name).concat(" = ").concat(
            name,
        ).concat(";\n"),
    }
}

fn visible_columns(fields: &Vec<FieldDef>, side: TypeScriptSide) -> (r: Vec<usize>)
    ensures
        r@.map_values(|c: usize| c as int) == visible_cols(field_defs_view(fields@), side),
        forall|k: int| 0 <= k < r@.len() ==> r@[k] < fields@.len(),
{
    let ghost fv = field_defs_view(fields@);
    let mut out: Vec<usize> = Vec::new();
    let mut i: usize = 0;
    assert(fv.take(0) =~= Seq::<FieldDefView>::empty());
    while i < fields.len()
        invariant
            i <= fields@.len(),
            fv == field_defs_view(fields@),
            out@.map_values(|c: usize| c as int) == visible_cols(fv.take(i as int), side),
            forall|k: int| 0 <= k < out@.len() ==> out@[k] < i,
        decreases fields.len() - i,
    {
        assert(fv.take(i + 1).drop_last() =~= fv.take(i as int));
        assert(fv.take(i + 1).last() == fields@[i as int]@);
        if export_visible(&fields[i].export, side) {
            let ghost prev = out@.map_values(|c: usize| c as int);
            out.push(i);
            assert(out@.map_values(|c: usize| c as int) =~= prev.push(i as int));
        }
        i = i + 1;
    }
    assert(fv.take(i as int) =~= fv);
    out
}

fn index_column(fields: &Vec<FieldDef>) -> (r: usize)
    ensures
        r as int == ts_index_col(field_defs_view(fields@)),
{
    let ghost names = field_defs_view(fields@).map_values(|f: FieldDefView| f.name);
    let mut i: usize = 0;
    while i < fields.len()
        invariant
            i <= fields@.len(),
            names == field_defs_view(fields@).map_values(|f: FieldDefView| f.name),
            forall|k: int| 0 <= k < i ==> names[k] != "id"@,
        ensures
            i <= fields@.len(),
            forall|k: int| 0 <= k < i ==> names[k] != "id"@,
            i == fields@.len() || names[i as int] == "id"@,
        decreases fields.len() - i,
    {
        assert(names[i as int] == fields@[i as int].name@);
        if str_eq_lit(&fields[i].name, "id") {
            break;
        }
        i = i + 1;
    }
    proof {
        lemma_first_named(names, "id"@, i as int);
    }
    if i < fields.len() {
        i
    } else {
        0
    }
}

fn str_eq_lit(s: &String, lit: &str) -> (r: bool)
    ensures
        r == (s@ == lit@),
{
    let cs = chars_of(s.as_str());
    chars_is(cs.as_slice(), lit)
}

fn cell_text_of(rec: &Vec<String>, i: usize, d: &str) -> (r: String)
    ensures
        r@ == cell_or(texts(rec@), i as int, d@),
{
    if i < rec.len() {
        rec[i].clone()
    } else {
        String::from_str(d)
    }
}

fn int_of_text(raw: &str) -> (r: i64)
    ensures
        r as int == match spec_parse_i64(raw@) {
            Some(v) => v,
            None => 0,
        },
{
    let cs = chars_of(raw);
    match parse_i64(cs.as_slice()) {
        Some(v) => v,
        None => 0,
    }
}

proof fn lemma_default_sep_view()
    ensures
        forall|d: SeparatorsSection| d.is_default() ==> sep_view(d) == default_sep_view(),
{
    assert forall|d: SeparatorsSection| d.is_default() implies sep_view(d) == default_sep_view() by {
        assert(sep_view(d) =~= default_sep_view());
    }
}

fn record_pieces(rec: &Vec<String>, fields: &Vec<FieldDef>, cols: &Vec<usize>, key_col: usize, sep: &SeparatorsSection) -> (r: Vec<TsPiece>)
    requires
        sep_view(*sep) == default_sep_view(),
        key_col as int == ts_index_col(field_defs_view(fields@)),
        forall|k: int| 0 <= k < cols@.len() ==> cols@[k] < fields@.len(),
    ensures
        pieces_view(r@) == record_ts(
            texts(rec@),
            field_defs_view(fields@),
            cols@.map_values(|c: usize| c as int),
        ),
{
    let ghost fv = field_defs_view(fields@);
    let ghost cv = cols@.map_values(|c: usize| c as int);
    let ghost items = record_entries(texts(rec@), fv, cv);
    let key_text = cell_text_of(rec, key_col, "0");
    let key = int_of_text(key_text.as_str());
    let head = String::from_str("    ").concat(int_string(key).as_str()).concat(": { ");
    let mut out = text_piece(head.as_str());
    let ghost start = pieces_view(out@);
    let mut i: usize = 0;
    assert(items.take(0) =~= Seq::<Seq<PieceView>>::empty());
    assert(start + join_items(items.take(0)) =~= start);
    while i < cols.len()
        invariant
            i <= cols@.len(),
            sep_view(*sep) == default_sep_view(),
            forall|k: int| 0 <= k < cols@.len() ==> cols@[k] < fields@.len(),
            fv == field_defs_view(fields@),
            cv == cols@.map_values(|c: usize| c as int),
            items == record_entries(texts(rec@), fv, cv),
            pieces_view(out@) == start + join_items(items.take(i as int)),
        decreases cols.len() - i,
    {
        proof {
            lemma_join_items_push(items.take(i as int), items[i as int]);
            assert(items.take(i + 1) =~= items.take(i as int).push(items[i as int]));
        }
        if i > 0 {
            push_text(&mut out, ", ");
        }
        let c = cols[i];
        let f = &fields[c];
        assert(fv[c as int] == f@);
        let raw = cell_text_of(rec, c, "");
        proof {
            reveal_strlit("");
            assert(""@ =~= Seq::<char>::empty());
        }
        let label = f.name.clone().concat(": ");
        push_text(&mut out, label.as_str());
        if raw.as_str().is_empty() {
            push_text(&mut out, default_for_field(f.tbl_type.as_str()));
        } else {
            append(&mut out, value_to_ts(raw.as_str(), f.tbl_type.as_str(), sep));
        }
        proof {
            assert(pieces_view(out@) =~= start + join_items(items.take(i + 1)));
        }
        i = i + 1;
    }
    assert(items.take(i as int) =~= items);
    push_text(&mut out, " },\n");
    out
}

/// Module of a table (see [`spec_export_table_ts`]).
pub fn export_table_ts(table: &Table, side: TypeScriptSide, module_kind: ModuleKind) -> (r: Vec<
    TsPiece,
>)
    ensures
        pieces_view(r@) == spec_export_table_ts(table@, side, module_kind),
{
    let fields = &table.schema.fields;
    let ghost fv = field_defs_view(fields@);
    let cols = visible_columns(fields, side);
    let ghost cv = cols@.map_values(|c: usize| c as int);
    let key_col = index_column(fields);
    let iface = table.name.clone().concat("Tpl");
    let mut head = exported_word(module_kind, "interface ").concat(iface.as_str()).concat(" {\n");
    let ghost h0 = head@;
    let mut i: usize = 0;
    assert(cv.take(0) =~= Seq::<int>::empty());
    assert(h0 + iface_fields(fv, cv.take(0)) =~= h0);
    while i < cols.len()
        invariant
            i <= cols@.len(),
            forall|k: int| 0 <= k < cols@.len() ==> cols@[k] < fields@.len(),
            fv == field_defs_view(fields@),
            cv == cols@.map_values(|c: usize| c as int),
            head@ == h0 + iface_fields(fv, cv.take(i as int)),
        decreases cols.len() - i,
    {
        assert(cv.take(i + 1).drop_last() =~= cv.take(i as int));
        assert(cv.take(i + 1).last() == cols@[i as int] as int);
        let f = &fields[cols[i]];
        assert(fv[cols@[i as int] as int] == f@);
        head = head.concat("    ").concat(f.name.as_str()).concat(": ").concat(
            ts_field_type(f.tbl_type.as_str()).as_str(),
        ).concat(";\n");
        i = i + 1;
    }
    assert(cv.take(i as int) =~= cv);
    head = head.concat("}\n\n").concat(exported_word(module_kind, "const ").as_str()).concat(
        table.name.as_str(),
    ).concat(": Record<number, ").concat(iface.as_str()).concat("> = {\n");
    let mut out = text_piece(head.as_str());
    let ghost start = pieces_view(out@);
    let sep = SeparatorsSection::default();
    proof {
        lemma_default_sep_view();
    }
    let ghost rv = crate::model::records_view(table.records@);
    let mut j: usize = 0;
    assert(rv.take(0) =~= Seq::<Seq<Seq<char>>>::empty());
    assert(start + records_ts(rv.take(0), fv, cv) =~= start);
    while j < table.records.len()
        invariant
            j <= table.records@.len(),
            sep_view(sep) == default_sep_view(),
            key_col as int == ts_index_col(fv),
            forall|k: int| 0 <= k < cols@.len() ==> cols@[k] < fields@.len(),
            fields == &table.schema.fields,
            fv == field_defs_view(fields@),
            cv == cols@.map_values(|c: usize| c as int),
            rv == crate::model::records_view(table.records@),
            pieces_view(out@) == start + records_ts(rv.take(j as int), fv, cv),
        decreases table.records.len() - j,
    {
        assert(rv.take(j + 1).drop_last() =~= rv.take(j as int));
        assert(rv.take(j + 1).last() == texts(table.records@[j as int]@));
        let line = record_pieces(&table.records[j], fields, &cols, key_col, &sep);
        append(&mut out, line);
        j = j + 1;
    }
    assert(rv.take(j as int) =~= rv);
    let tail = String::from_str("};\n").concat(common_js_line(module_kind, table.name.as_str()).as_str());
    push_text(&mut out, tail.as_str());
    out
}

/// Lines of the shown entries of a constant set that have a name and a
/// value: `name: literal,`.
pub open spec fn const_entries_ts(es: Seq<ConstEntryView>, sep: Map<SepKey, Seq<char>>, side: TypeScriptSide) -> Seq<
    PieceView,
>
    decreases es.len(),
{
    if es.len() == 0 {
        seq![]
    } else {
        let e = es.last();
        const_entries_ts(es.drop_last(), sep, side) + if spec_export_visible(e.export, side)
            && e.name.len() > 0 && e.value.len() > 0 {
            txt("    "@ + e.name + ": "@) + spec_value_to_ts(e.value, e.tbl_type, sep) + txt(",\n"@)
        } else {
            seq![]
        }
    }
}

/// Module of a constant set: one object of its shown entries.
pub open spec fn spec_export_constant_ts(
    c: ConstantView,
    sep: Map<SepKey, Seq<char>>,
    side: TypeScriptSide,
    mk: ModuleKind,
) -> Seq<PieceView> {
    txt(exported(mk, "const "@) + c.name + " = {\n"@) + const_entries_ts(c.entries, sep, side) + txt(
        match mk {
            ModuleKind::Esm => "} as const;\n"@,
            ModuleKind::CommonJs => "};\n"@ + common_js_export(mk, c.name),
        },
    )
}

/// Module of a constant set (see [`spec_export_constant_ts`]).
pub fn export_constant_ts(
    constant: &Constant,
    sep: &SeparatorsSection,
    side: TypeScriptSide,
    module_kind: ModuleKind,
) -> (r: Vec<TsPiece>)
    ensures
        pieces_view(r@) == spec_export_constant_ts(constant@, sep_view(*sep), side, module_kind),
{
    let head = exported_word(module_kind, "const ").concat(constant.name.as_str()).concat(" = {\n");
    let mut out = text_piece(head.as_str());
    let ghost start = pieces_view(out@);
    let ghost ev = const_entries_view(constant.entries@);
    let mut i: usize = 0;
    assert(ev.take(0) =~= Seq::<ConstEntryView>::empty());
    assert(start + const_entries_ts(ev.take(0), sep_view(*sep), side) =~= start);
    while i < constant.entries.len()
        invariant
            i <= constant.entries@.len(),
            ev == const_entries_view(constant.entries@),
            pieces_view(out@) == start + const_entries_ts(ev.take(i as int), sep_view(*sep), side),
        decreases constant.entries.len() - i,
    {
        assert(ev.take(i + 1).drop_last() =~= ev.take(i as int));
        let e = &constant.entries[i];
        assert(ev.take(i + 1).last() == e@);
        if export_visible(&e.export, side) && !e.name.as_str().is_empty()
            && !e.value.as_str().is_empty() {
            let label = String::from_str("    ").concat(e.name.as_str()).concat(": ");
            push_text(&mut out, label.as_str());
            append(&mut out, value_to_ts(e.value.as_str(), e.tbl_type.as_str(), sep));
            push_text(&mut out, ",\n");
        }
        i = i + 1;
    }
    assert(ev.take(i as int) =~= ev);
    let tail = match module_kind {
        ModuleKind::Esm => String::from_str("} as const;\n"),
        ModuleKind::CommonJs => String::from_str("};\n").concat(
            common_js_line(module_kind, constant.name.as_str()).as_str(),
        ),
    };
    push_text(&mut out, tail.as_str());
    out
}

/// Entries of an enum with an id and a name.
pub open spec fn valid_enum_entries(es: Seq<EnumEntryView>) -> Seq<EnumEntryView>
    decreases es.len(),
{
    if es.len() == 0 {
        seq![]
    } else if es.last().id.len() > 0 && es.last().name.len() > 0 {
        valid_enum_entries(es.drop_last()).push(es.last())
    } else {
        valid_enum_entries(es.drop_last())
    }
}

/// Value of an entry's id: its integer, or `0`.
pub open spec fn enum_id_value(id: Seq<char>) -> int {
    match spec_parse_i64(id) {
        Some(v) => v,
        None => 0,
    }
}

/// Line of one enum member.
pub open spec fn enum_member_ts(e: EnumEntryView, mk: ModuleKind) -> Seq<char> {
    match mk {
        ModuleKind::Esm => "    /** "@ + e.desc + " */\n"@ + "    "@ + e.name + " = "@ + int_text(
            enum_id_value(e.id),
        ) + ",\n"@,
        ModuleKind::CommonJs => "    "@ + e.name + ": "@ + int_text(enum_id_value(e.id))
            + ", // "@ + e.desc + "\n"@,
    }
}

pub open spec fn enum_members_ts(es: Seq<EnumEntryView>, mk: ModuleKind) -> Seq<char>
    decreases es.len(),
{
    if es.len() == 0 {
        seq![]
    } else {
        enum_members_ts(es.drop_last(), mk) + enum_member_ts(es.last(), mk)
    }
}

/// Line of one enum description.
pub open spec fn enum_desc_ts(e: EnumEntryView, en: Seq<char>, mk: ModuleKind) -> Seq<char> {
    match mk {
        ModuleKind::Esm => "    ["@ + en + "."@ + e.name + "]: \u{22}"@ + spec_ts_escape(e.desc)
            + "\u{22},\n"@,
        ModuleKind::CommonJs => "    ["@ + en + "[\u{22}"@ + e.name + "\u{22}]]: \u{22}"@ + spec_ts_escape(
            e.desc,
        ) + "\u{22},\n"@,
    }
}

pub open spec fn enum_descs_ts(es: Seq<EnumEntryView>, en: Seq<char>, mk: ModuleKind) -> Seq<char>
    decreases es.len(),
{
    if es.len() == 0 {
        seq![]
    } else {
        enum_descs_ts(es.drop_last(), en, mk) + enum_desc_ts(es.last(), en, mk)
    }
}

/// Module of an enum: an enum `<Name>Enum` of the entries with an id and a
/// name, and a map `<Name>EnumDesc` from each to its description.
pub open spec fn spec_export_enum_ts(e: EnumDefView, mk: ModuleKind) -> Seq<char> {
    let en = e.name + "Enum"@;
    let valid = valid_enum_entries(e.entries);
    (match mk {
        ModuleKind::Esm => "export enum "@ + en + " {\n"@,
        ModuleKind::CommonJs => "const "@ + en + " = {\n"@,
    }) + enum_members_ts(valid, mk) + "}\n"@ + common_js_export(mk, en) + "\n"@ + (match mk {
        ModuleKind::Esm => "export const "@ + en + "Desc: Record<"@ + en + ", string> = {\n"@,
        ModuleKind::CommonJs => "const "@ + en + "Desc = {\n"@,
    }) + enum_descs_ts(valid, en, mk) + "};\n"@ + common_js_export(mk, en + "Desc"@)
}

fn valid_entries(es: &Vec<EnumEntry>) -> (r: Vec<&EnumEntry>)
    ensures
        r@.map_values(|e: &EnumEntry| e@) == valid_enum_entries(enum_entries_view(es@)),
{
    let ghost ev = enum_entries_view(es@);
    let mut out: Vec<&EnumEntry> = Vec::new();
    let mut i: usize = 0;
    assert(ev.take(0) =~= Seq::<EnumEntryView>::empty());
    while i < es.len()
        invariant
            i <= es@.len(),
            ev == enum_entries_view(es@),
            out@.map_values(|e: &EnumEntry| e@) == valid_enum_entries(ev.take(i as int)),
        decreases es.len() - i,
    {
        assert(ev.take(i + 1).drop_last() =~= ev.take(i as int));
        let e = &es[i];
        assert(ev.take(i + 1).last() == e@);
        if !e.id.as_str().is_empty() && !e.name.as_str().is_empty() {
            let ghost prev = out@.map_values(|e: &EnumEntry| e@);
            out.push(e);
            assert(out@.map_values(|e: &EnumEntry| e@) =~= prev.push(e@));
        }
        i = i + 1;
    }
    assert(ev.take(i as int) =~= ev);
    out
}

fn enum_member_line(e: &EnumEntry, mk: ModuleKind) -> (r: String)
    ensures
        r@ == enum_member_ts(e@, mk),
{
    let id = int_string(int_of_text(e.id.as_str()));
    match mk {
        ModuleKind::Esm => String::from_str("    /** ").concat(e.desc.as_str()).concat(" */\n").concat(
            "    ",
        ).concat(e.name.as_str()).concat(" = ").concat(id.as_str()).concat(",\n"),
        ModuleKind::CommonJs => String::from_str("    ").concat(e.name.as_str()).concat(": ").concat(
            id.as_str(),
        ).concat(", // ").concat(e.desc.as_str()).concat("\n"),
    }
}

fn enum_desc_line(e: &EnumEntry, en: &str, mk: ModuleKind) -> (r: String)
    ensures
        r@ == enum_desc_ts(e@, en@, mk),
{
    let d = ts_escape(e.desc.as_str());
    match mk {
        ModuleKind::Esm => String::from_str("    [").concat(en).concat(".").concat(e.name.as_str()).concat(
            "]: \u{22}",
        ).concat(d.as_str()).concat("\u{22},\n"),
        ModuleKind::CommonJs => String::from_str("    [").concat(en).concat("[\u{22}").concat(
            e.name.as_str(),
        ).concat("\u{22}]]: \u{22}").concat(d.as_str()).concat("\u{22},\n"),
    }
}

/// Module of an enum (see [`spec_export_enum_ts`]).
pub fn export_enum_ts(enum_def: &EnumDef, module_kind: ModuleKind) -> (r: String)
    ensures
        r@ == spec_export_enum_ts(enum_def@, module_kind),
{
    let valid = valid_entries(&enum_def.entries);
    let ghost vv = valid@.map_values(|e: &EnumEntry| e@);
    let en = enum_def.name.clone().concat("Enum");
    let mut s = match module_kind {
        ModuleKind::Esm => String::from_str("export enum ").concat(en.as_str()).concat(" {\n"),
        ModuleKind::CommonJs => String::from_str("const ").concat(en.as_str()).concat(" = {\n"),
    };
    let ghost h0 = s@;
    let mut i: usize = 0;
    assert(vv.take(0) =~= Seq::<EnumEntryView>::empty());
    assert(h0 + enum_members_ts(vv.take(0), module_kind) =~= h0);
    while i < valid.len()
        invariant
            i <= valid@.len(),
            vv == valid@.map_values(|e: &EnumEntry| e@),
            s@ == h0 + enum_members_ts(vv.take(i as int), module_kind),
        decreases valid.len() - i,
    {
        assert(vv.take(i + 1).drop_last() =~= vv.take(i as int));
        let e = valid[i];
        assert(vv.take(i + 1).last() == e@);
        let line = enum_member_line(e, module_kind);
        s = s.concat(line.as_str());
        i = i + 1;
    }
    assert(vv.take(i as int) =~= vv);
    s = s.concat("}\n").concat(common_js_line(module_kind, en.as_str()).as_str()).concat("\n");
    s = match module_kind {
        ModuleKind::Esm => s.concat("export const ").concat(en.as_str()).concat(
            "Desc: Record<",
        ).concat(en.as_str()).concat(", string> = {\n"),
        ModuleKind::CommonJs => s.concat("const ").concat(en.as_str()).concat("Desc = {\n"),
    };
    let ghost h1 = s@;
    let mut k: usize = 0;
    assert(h1 + enum_descs_ts(vv.take(0), en@, module_kind) =~= h1);
    while k < valid.len()
        invariant
            k <= valid@.len(),
            vv == valid@.map_values(|e: &EnumEntry| e@),
            s@ == h1 + enum_descs_ts(vv.take(k as int), en@, module_kind),
        decreases valid.len() - k,
    {
        assert(vv.take(k + 1).drop_last() =~= vv.take(k as int));
        let e = valid[k];
        assert(vv.take(k + 1).last() == e@);
        let line = enum_desc_line(e, en.as_str(), module_kind);
        s = s.concat(line.as_str());
        k = k + 1;
    }
    assert(vv.take(k as int) =~= vv);
    let desc_name = en.clone().concat("Desc");
    s = s.concat("};\n").concat(common_js_line(module_kind, desc_name.as_str()).as_str());
    s
}

// ───────────────────────── whole project ─────────────────────────

/// A generated TypeScript module: its file name and its pieces.
#[derive(Clone, Debug)]
pub struct TsFile {
    pub name: String,
    pub pieces: Vec<TsPiece>,
}

pub open spec fn ts_files_view(v: Seq<TsFile>) -> Seq<(Seq<char>, Seq<PieceView>)> {
    v.map_values(|f: TsFile| (f.name@, pieces_view(f.pieces@)))
}

/// The TypeScript export of a project: output directory, extension, line
/// ending and encoding, and the modules.
#[derive(Clone, Debug)]
pub struct TsExportPlan {
    pub output_dir: String,
    pub extension: String,
    pub line_ending: LineEnding,
    pub encoding: Encoding,
    pub files: Vec<TsFile>,
}

impl TypeScriptSide {
    pub open spec fn spec_default_output(self) -> Seq<char> {
        match self {
            TypeScriptSide::Client => "gen/client/typescript"@,
            TypeScriptSide::Server => "gen/server/typescript"@,
        }
    }
}

/// The `output` and `module_kind` of the side's section, if present:
/// `[export.client.typescript]` or `[export.server.typescript]`.
pub open spec fn ts_section(cfg: Option<ExportConfig>, side: TypeScriptSide) -> Option<(Option<String>, Option<ModuleKind>)> {
    match cfg {
        None => None,
        Some(e) => match side {
            TypeScriptSide::Client => match e.client {
                Some(cl) => match cl.typescript {
                    Some(t) => Some((t.output, t.module_kind)),
                    None => None,
                },
                None => None,
            },
            TypeScriptSide::Server => match e.server {
                Some(sv) => match sv.typescript {
                    Some(t) => Some((t.output, t.module_kind)),
                    None => None,
                },
                None => None,
            },
        },
    }
}

/// Output directory and module kind of the side's export, falling back to
/// the side's default directory and ES modules.
pub open spec fn ts_settings(cfg: Option<ExportConfig>, side: TypeScriptSide) -> (Seq<char>, ModuleKind) {
    match ts_section(cfg, side) {
        Some((o, mk)) => (
            text_or(o, side.spec_default_output()),
            match mk {
                Some(m) => m,
                None => ModuleKind::Esm,
            },
        ),
        None => (side.spec_default_output(), ModuleKind::Esm),
    }
}

fn ts_section_of(cfg: &Option<ExportConfig>, side: TypeScriptSide) -> (r: Option<(Option<String>, Option<ModuleKind>)>)
    ensures
        r == ts_section(*cfg, side),
{
    match cfg {
        None => None,
        Some(e) => match side {
            TypeScriptSide::Client => match &e.client {
                Some(cl) => match &cl.typescript {
                    Some(t) => Some((t.output.clone(), t.module_kind)),
                    None => None,
                },
                None => None,
            },
            TypeScriptSide::Server => match &e.server {
                Some(sv) => match &sv.typescript {
                    Some(t) => Some((t.output.clone(), t.module_kind)),
                    None => None,
                },
                None => None,
            },
        },
    }
}

/// Modules of one group: its live tables, constants and enums.
pub open spec fn ts_group_files(
    g: Group,
    sep: Map<SepKey, Seq<char>>,
    side: TypeScriptSide,
    mk: ModuleKind,
) -> Seq<(Seq<char>, Seq<PieceView>)> {
    live_tables(g.tables@).map_values(
        |t: Table| (t.name@ + ".ts"@, spec_export_table_ts(t@, side, mk)),
    ) + live_constants(g.constants@).map_values(
        |c: Constant| (c.name@ + ".ts"@, spec_export_constant_ts(c@, sep, side, mk)),
    ) + live_enums(g.enums@).map_values(
        |e: EnumDef| (e.name@ + ".ts"@, seq![PieceView::Text(spec_export_enum_ts(e@, mk))]),
    )
}

/// The TypeScript modules of a project, group by group (deleted nodes
/// skipped).
pub open spec fn spec_ts_files(
    gs: Seq<Group>,
    sep: Map<SepKey, Seq<char>>,
    side: TypeScriptSide,
    mk: ModuleKind,
) -> Seq<(Seq<char>, Seq<PieceView>)>
    decreases gs.len(),
{
    if gs.len() == 0 {
        seq![]
    } else {
        spec_ts_files(gs.drop_last(), sep, side, mk) + ts_group_files(gs.last(), sep, side, mk)
    }
}

fn push_ts_file(out: &mut Vec<TsFile>, name: String, pieces: Vec<TsPiece>)
    ensures
        ts_files_view(final(out)@) == ts_files_view(old(out)@).push((name@, pieces_view(pieces@))),
{
    let ghost prev = ts_files_view(out@);
    let ghost pv = pieces_view(pieces@);
    out.push(TsFile { name, pieces });
    assert(ts_files_view(out@) =~= prev.push((name@, pv)));
}

fn ts_group(
    g: &Group,
    sep: &SeparatorsSection,
    side: TypeScriptSide,
    mk: ModuleKind,
    out: &mut Vec<TsFile>,
)
    ensures
        ts_files_view(final(out)@) == ts_files_view(old(out)@) + ts_group_files(*g, sep_view(*sep), side, mk),
{
    let ghost o0 = ts_files_view(out@);
    let ghost sv = sep_view(*sep);
    let mut i: usize = 0;
    while i < g.tables.len()
        invariant
            i <= g.tables@.len(),
            ts_files_view(out@) == o0 + live_tables(g.tables@.take(i as int)).map_values(
                |t: Table| (t.name@ + ".ts"@, spec_export_table_ts(t@, side, mk)),
            ),
        decreases g.tables.len() - i,
    {
        let t = &g.tables[i];
        assert(g.tables@.take(i + 1).drop_last() =~= g.tables@.take(i as int));
        assert(g.tables@.take(i + 1).last() == *t);
        let ghost lt = live_tables(g.tables@.take(i as int));
        if !t.deleted {
            let ps = export_table_ts(t, side, mk);
            push_ts_file(out, t.name.clone().concat(".ts"), ps);
            assert(live_tables(g.tables@.take(i + 1)) =~= lt.push(*t));
        } else {
            assert(live_tables(g.tables@.take(i + 1)) =~= lt);
        }
        assert(ts_files_view(out@) =~= o0 + live_tables(g.tables@.take(i + 1)).map_values(
            |t: Table| (t.name@ + ".ts"@, spec_export_table_ts(t@, side, mk)),
        ));
        i = i + 1;
    }
    assert(g.tables@.take(i as int) =~= g.tables@);
    let ghost o1 = ts_files_view(out@);
    let mut j: usize = 0;
    while j < g.constants.len()
        invariant
            j <= g.constants@.len(),
            sv == sep_view(*sep),
            ts_files_view(out@) == o1 + live_constants(g.constants@.take(j as int)).map_values(
                |c: Constant| (c.name@ + ".ts"@, spec_export_constant_ts(c@, sv, side, mk)),
            ),
        decreases g.constants.len() - j,
    {
        let c = &g.constants[j];
        assert(g.constants@.take(j + 1).drop_last() =~= g.constants@.take(j as int));
        assert(g.constants@.take(j + 1).last() == *c);
        let ghost lc = live_constants(g.constants@.take(j as int));
        if !c.deleted {
            let ps = export_constant_ts(c, sep, side, mk);
            push_ts_file(out, c.name.clone().concat(".ts"), ps);
            assert(live_constants(g.constants@.take(j + 1)) =~= lc.push(*c));
        } else {
            assert(live_constants(g.constants@.take(j + 1)) =~= lc);
        }
        assert(ts_files_view(out@) =~= o1 + live_constants(g.constants@.take(j + 1)).map_values(
            |c: Constant| (c.name@ + ".ts"@, spec_export_constant_ts(c@, sv, side, mk)),
        ));
        j = j + 1;
    }
    assert(g.constants@.take(j as int) =~= g.constants@);
    let ghost o2 = ts_files_view(out@);
    let mut k: usize = 0;
    while k < g.enums.len()
        invariant
            k <= g.enums@.len(),
            ts_files_view(out@) == o2 + live_enums(g.enums@.take(k as int)).map_values(
                |e: EnumDef| (e.name@ + ".ts"@, seq![PieceView::Text(spec_export_enum_ts(e@, mk))]),
            ),
        decreases g.enums.len() - k,
    {
        let e = &g.enums[k];
        assert(g.enums@.take(k + 1).drop_last() =~= g.enums@.take(k as int));
        assert(g.enums@.take(k + 1).last() == *e);
        let ghost le = live_enums(g.enums@.take(k as int));
        if !e.deleted {
            let text = export_enum_ts(e, mk);
            let ps = vec![TsPiece::Text(text)];
            assert(pieces_view(ps@) =~= seq![PieceView::Text(spec_export_enum_ts(e@, mk))]);
            push_ts_file(out, e.name.clone().concat(".ts"), ps);
            assert(live_enums(g.enums@.take(k + 1)) =~= le.push(*e));
        } else {
            assert(live_enums(g.enums@.take(k + 1)) =~= le);
        }
        assert(ts_files_view(out@) =~= o2 + live_enums(g.enums@.take(k + 1)).map_values(
            |e: EnumDef| (e.name@ + ".ts"@, seq![PieceView::Text(spec_export_enum_ts(e@, mk))]),
        ));
        k = k + 1;
    }
    assert(g.enums@.take(k as int) =~= g.enums@);
    assert(ts_files_view(out@) =~= o0 + ts_group_files(*g, sv, side, mk));
}

/// The TypeScript export of a project for one side: the output directory
/// under the export root, and the modules (see [`spec_ts_files`]).
pub fn export_all_typescript(project: &Project, side: TypeScriptSide) -> (r: TsExportPlan)
    ensures
        r.output_dir@ == path_join(project.project_root@, ts_settings(project.config.export, side).0),
        r.extension@ == "ts"@,
        r.line_ending == cfg_line_ending(project.config.export),
        r.encoding == cfg_encoding(project.config.export),
        ts_files_view(r.files@) == spec_ts_files(
            project.groups@,
            sep_view(project.config.separators),
            side,
            ts_settings(project.config.export, side).1,
        ),
{
    let (output, mk) = match ts_section_of(&project.config.export, side) {
        Some((o, m)) => (
            string_or(&o, side.default_output()),
            match m {
                Some(x) => x,
                None => ModuleKind::Esm,
            },
        ),
        None => (String::from_str(side.default_output()), ModuleKind::Esm),
    };
    proof {
        reveal_strlit("ts");
    }
    let groups = &project.groups;
    let mut files: Vec<TsFile> = Vec::new();
    let mut i: usize = 0;
    while i < groups.len()
        invariant
            i <= groups@.len(),
            ts_files_view(files@) == spec_ts_files(
                groups@.take(i as int),
                sep_view(project.config.separators),
                side,
                mk,
            ),
        decreases groups.len() - i,
    {
        assert(groups@.take(i + 1).drop_last() =~= groups@.take(i as int));
        assert(groups@.take(i + 1).last() == groups@[i as int]);
        ts_group(&groups[i], &project.config.separators, side, mk, &mut files);
        i = i + 1;
    }
    assert(groups@.take(i as int) =~= groups@);
    TsExportPlan {
        output_dir: join_path(project.export_root(), output.as_str()),
        extension: String::from_str("ts"),
        line_ending: export_line_ending(&project.config.export),
        encoding: export_encoding(&project.config.export),
        files,
    }
}

} // verus!
