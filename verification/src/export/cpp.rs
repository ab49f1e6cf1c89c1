//! C++ generator: one header per table, constant set and enum, and a header
//! that includes them all. Data is read at run time from the JSON export.

use vstd::prelude::*;
use crate::export::{
    collect_live_enum_names, export_encoding, export_line_ending, live_enum_names, files_view,
    cfg_encoding, cfg_line_ending, string_or, text_or, ExportPlan, GeneratedFile, int_string, int_text,
    parse_i64, spec_parse_i64,
};
use crate::model::{join_path, path_join, ExportConfig, Group, Project};
use crate::model::{
    const_entries_view, enum_entries_view, field_defs_view, ConstEntry, ConstEntryView, Constant,
    ConstantView, EnumDef, EnumDefView, EnumEntry, EnumEntryView, Export, FieldDef, FieldDefView,
    Table, TableView,
};
use crate::export::{spec_camel_case, to_camel_case};
use crate::tblschema::join_with;
use crate::tbl_str::views_of;
use crate::text::{chars_of, decimal, decimal_string, push_char};
use crate::types::{
    lemma_parse_param_count, param_count, spec_parse_type, BaseType, Paradigm, TblType, TypeShape,
};

verus! {

/// Whether a column or entry exported to `e` goes to the server.
pub open spec fn spec_is_server_export(e: Export) -> bool {
    e == Export::ClientServer || e == Export::ServerOnly
}

fn is_server_export(e: &Export) -> (r: bool)
    ensures
        r == spec_is_server_export(*e),
{
    match e {
        Export::ClientServer | Export::ServerOnly => true,
        _ => false,
    }
}

/// C++ type of a base type.
pub open spec fn spec_cpp_base_type(bt: BaseType) -> Seq<char> {
    match bt {
        BaseType::Int => "int32_t"@,
        BaseType::Long => "int64_t"@,
        BaseType::Float => "float"@,
        BaseType::Double => "double"@,
        BaseType::Str => "std::string"@,
        BaseType::Bool => "bool"@,
        BaseType::Txt => "std::string"@,
    }
}

pub fn cpp_base_type(bt: BaseType) -> (r: &'static str)
    ensures
        r@ == spec_cpp_base_type(bt),
{
    match bt {
        BaseType::Int => "int32_t",
        BaseType::Long => "int64_t",
        BaseType::Float => "float",
        BaseType::Double => "double",
        BaseType::Str => "std::string",
        BaseType::Bool => "bool",
        BaseType::Txt => "std::string",
    }
}

/// Initializer of a member of a base type.
pub open spec fn spec_cpp_base_default(bt: BaseType) -> Seq<char> {
    match bt {
        BaseType::Int | BaseType::Long | BaseType::Float | BaseType::Double => "0"@,
        BaseType::Str | BaseType::Txt => "{}"@,
        BaseType::Bool => "false"@,
    }
}

pub fn cpp_base_default(bt: BaseType) -> (r: &'static str)
    ensures
        r@ == spec_cpp_base_default(bt),
{
    match bt {
        BaseType::Int | BaseType::Long | BaseType::Float | BaseType::Double => "0",
        BaseType::Str | BaseType::Txt => "{}",
        BaseType::Bool => "false",
    }
}

/// Name of the runtime function that reads a base type.
pub open spec fn spec_cpp_parse_fn(bt: BaseType) -> Seq<char> {
    match bt {
        BaseType::Int => "parse_int32"@,
        BaseType::Long => "parse_int64"@,
        BaseType::Float => "parse_float"@,
        BaseType::Double => "parse_double"@,
        BaseType::Str => "parse_str"@,
        BaseType::Bool => "parse_bool"@,
        BaseType::Txt => "parse_str"@,
    }
}

pub fn cpp_base_parse_fn(bt: BaseType) -> (r: &'static str)
    ensures
        r@ == spec_cpp_parse_fn(bt),
{
    match bt {
        BaseType::Int => "parse_int32",
        BaseType::Long => "parse_int64",
        BaseType::Float => "parse_float",
        BaseType::Double => "parse_double",
        BaseType::Str => "parse_str",
        BaseType::Bool => "parse_bool",
        BaseType::Txt => "parse_str",
    }
}

/// C++ types of `ps`, joined with `, `.
pub open spec fn cpp_types(ps: Seq<BaseType>) -> Seq<char> {
    join_with(ps.map_values(|b: BaseType| spec_cpp_base_type(b)), ", "@)
}

/// Reader functions of `ps`, joined with `, `.
pub open spec fn cpp_fns(ps: Seq<BaseType>) -> Seq<char> {
    join_with(ps.map_values(|b: BaseType| spec_cpp_parse_fn(b)), ", "@)
}

/// `TupleN<..>` of the base types `ps`.
pub open spec fn cpp_tuple_type(ps: Seq<BaseType>) -> Seq<char> {
    "Tuple"@ + decimal(ps.len()) + "<"@ + cpp_types(ps) + ">"@
}

/// Whether `name` is among `names`.
pub open spec fn named_in(names: Seq<String>, name: Seq<char>) -> bool {
    exists|i: int| 0 <= i < names.len() && (#[trigger] names[i])@ == name
}

/// C++ type of a parsed type; a reference to an enum of the project is the
/// enum's type, another reference an `int32_t`.
pub open spec fn cpp_shape_type(t: TypeShape, enum_names: Seq<String>) -> Seq<char> {
    let p = t.params;
    let b = |i: int| spec_cpp_base_type(p[i]);
    match t.paradigm {
        Paradigm::Base => b(0),
        Paradigm::Tuple2 | Paradigm::Tuple3 | Paradigm::Tuple4 => cpp_tuple_type(p),
        Paradigm::List => "std::vector<"@ + b(0) + ">"@,
        Paradigm::SetOf => "std::unordered_set<"@ + b(0) + ">"@,
        Paradigm::MapOf => "std::unordered_map<"@ + b(0) + ", "@ + b(1) + ">"@,
        Paradigm::ListTuple2 | Paradigm::ListTuple3 | Paradigm::ListTuple4 => "std::vector<"@
            + cpp_tuple_type(p) + ">"@,
        Paradigm::MapTuple2 | Paradigm::MapTuple3 | Paradigm::MapTuple4 => "std::unordered_map<"@
            + b(0) + ", "@ + cpp_tuple_type(p.skip(1)) + ">"@,
        Paradigm::MapList => "std::unordered_map<"@ + b(0) + ", std::vector<"@ + b(1) + ">>"@,
        Paradigm::Ref => match t.ref_name {
            Some(n) => if named_in(enum_names, n) {
                n + "Enum"@
            } else {
                "int32_t"@
            },
            None => "int32_t"@,
        },
    }
}

/// C++ type of a column of type `ty`; a type that does not parse is a
/// `std::string`.
pub open spec fn spec_cpp_field_type(ty: Seq<char>, enum_names: Seq<String>) -> Seq<char> {
    match spec_parse_type(ty) {
        None => "std::string"@,
        Some(t) => cpp_shape_type(t, enum_names),
    }
}

fn join_parts(ps: &Vec<BaseType>, off: usize, fns: bool) -> (r: String)
    requires
        off <= ps@.len(),
    ensures
        r@ == if fns {
            cpp_fns(ps@.skip(off as int))
        } else {
            cpp_types(ps@.skip(off as int))
        },
{
    let ghost q = ps@.skip(off as int);
    let ghost names = if fns {
        q.map_values(|b: BaseType| spec_cpp_parse_fn(b))
    } else {
        q.map_values(|b: BaseType| spec_cpp_base_type(b))
    };
    let mut v: Vec<String> = Vec::new();
    let mut i: usize = off;
    while i < ps.len()
        invariant
            off <= i <= ps@.len(),
            q == ps@.skip(off as int),
            names == (if fns {
                q.map_values(|b: BaseType| spec_cpp_parse_fn(b))
            } else {
                q.map_values(|b: BaseType| spec_cpp_base_type(b))
            }),
            views_of(v@) == names.take(i - off),
        decreases ps.len() - i,
    {
        let w = if fns {
            cpp_base_parse_fn(ps[i])
        } else {
            cpp_base_type(ps[i])
        };
        let ghost prev = views_of(v@);
        v.push(String::from_str(w));
        assert(q[i - off] == ps@[i as int]);
        assert(views_of(v@) =~= prev.push(names[i - off]));
        assert(names.take(i - off + 1) =~= names.take(i - off).push(names[i - off]));
        i = i + 1;
    }
    assert(names.take(i - off) =~= names);
    crate::tblschema::join_with_strings(&v, ", ")
}

fn tuple_type_of(ps: &Vec<BaseType>, off: usize) -> (r: String)
    requires
        off <= ps@.len(),
    ensures
        r@ == cpp_tuple_type(ps@.skip(off as int)),
{
    let n = decimal_string((ps.len() - off) as u64);
    String::from_str("Tuple").concat(n.as_str()).concat("<").concat(join_parts(ps, off, false).as_str()).concat(">")
}

fn in_names(names: &[String], name: &String) -> (r: bool)
    ensures
        r == named_in(names@, name@),
{
    let mut i: usize = 0;
    while i < names.len()
        invariant
            i <= names@.len(),
            forall|k: int| 0 <= k < i ==> names@[k]@ != name@,
        decreases names.len() - i,
    {
        if names[i] == *name {
            return true;
        }
        i = i + 1;
    }
    false
}

fn shape_type(t: &TblType, enum_names: &[String]) -> (r: String)
    requires
        t.params@.len() == param_count(t.paradigm),
    ensures
        r@ == cpp_shape_type(t@, enum_names@),
{
    let p = &t.params;
    proof {
        assert(p@.skip(0) =~= p@);
    }
    match t.paradigm {
        Paradigm::Base => String::from_str(cpp_base_type(p[0])),
        Paradigm::Tuple2 | Paradigm::Tuple3 | Paradigm::Tuple4 => tuple_type_of(p, 0),
        Paradigm::List => String::from_str("std::vector<").concat(cpp_base_type(p[0])).concat(">"),
        Paradigm::SetOf => String::from_str("std::unordered_set<").concat(cpp_base_type(p[0])).concat(
            ">",
        ),
        Paradigm::MapOf => String::from_str("std::unordered_map<").concat(cpp_base_type(p[0])).concat(
            ", ",
        ).concat(cpp_base_type(p[1])).concat(">"),
        Paradigm::ListTuple2 | Paradigm::ListTuple3 | Paradigm::ListTuple4 => String::from_str(
            "std::vector<",
        ).concat(tuple_type_of(p, 0).as_str()).concat(">"),
        Paradigm::MapTuple2 | Paradigm::MapTuple3 | Paradigm::MapTuple4 => String::from_str(
            "std::unordered_map<",
        ).concat(cpp_base_type(p[0])).concat(", ").concat(tuple_type_of(p, 1).as_str()).concat(">"),
        Paradigm::MapList => String::from_str("std::unordered_map<").concat(cpp_base_type(p[0])).concat(
            ", std::vector<",
        ).concat(cpp_base_type(p[1])).concat(">>"),
        Paradigm::Ref => match &t.ref_name {
            Some(n) => if in_names(enum_names, n) {
                n.clone().concat("Enum")
            } else {
                String::from_str("int32_t")
            },
            None => String::from_str("int32_t"),
        },
    }
}

/// C++ type of a column of type `tbl_type` (see [`spec_cpp_field_type`]).
pub fn cpp_field_type(tbl_type: &str, enum_names: &[String]) -> (r: String)
    ensures
        r@ == spec_cpp_field_type(tbl_type@, enum_names@),
{
    match TblType::parse(tbl_type) {
        None => String::from_str("std::string"),
        Some(t) => {
            proof {
                lemma_parse_param_count(tbl_type@);
            }
            shape_type(&t, enum_names)
        },
    }
}

/// `std::function` reading a tuple of `ps` from a string, with the tuple
/// separator `<sep>.<field>`.
pub open spec fn cpp_tuple_reader(ps: Seq<BaseType>, sep: Seq<char>, field: Seq<char>) -> Seq<char> {
    "std::function<"@ + cpp_tuple_type(ps) + "(const std::string&)>([&](const std::string& s) { return parse_tuple"@
        + decimal(ps.len()) + "<"@ + cpp_types(ps) + ">(s, "@ + sep + "."@ + field + ", "@ + cpp_fns(ps)
        + "); })"@
}

/// C++ expression reading the string variable `raw` as a value of type `t`,
/// `sep` naming the separator configuration.
pub open spec fn spec_cpp_parse_expr(
    raw: Seq<char>,
    t: TypeShape,
    sep: Seq<char>,
    enum_names: Seq<String>,
) -> Seq<char> {
    let p = t.params;
    let b = |i: int| spec_cpp_base_type(p[i]);
    let f = |i: int| spec_cpp_parse_fn(p[i]);
    let q = p.skip(1);
    match t.paradigm {
        Paradigm::Base => f(0) + "("@ + raw + ")"@,
        Paradigm::Tuple2 | Paradigm::Tuple3 | Paradigm::Tuple4 => "parse_tuple"@ + decimal(p.len())
            + "<"@ + cpp_types(p) + ">("@ + raw + ", "@ + sep + ".tuple"@ + decimal(p.len()) + ", "@
            + cpp_fns(p) + ")"@,
        Paradigm::List => "parse_list<"@ + b(0) + ">("@ + raw + ", "@ + sep + ".list, "@ + f(0) + ")"@,
        Paradigm::SetOf => "parse_set<"@ + b(0) + ">("@ + raw + ", "@ + sep + ".set, "@ + f(0) + ")"@,
        Paradigm::MapOf => "parse_map<"@ + b(0) + ", "@ + b(1) + ">("@ + raw + ", "@ + sep
            + ".map_kv, "@ + sep + ".map_entry, "@ + f(0) + ", "@ + f(1) + ")"@,
        Paradigm::ListTuple2 | Paradigm::ListTuple3 | Paradigm::ListTuple4 => "parse_list<"@
            + cpp_tuple_type(p) + ">("@ + raw + ", "@ + sep + ".list_tuple"@ + decimal(p.len())
            + "_list, "@ + cpp_tuple_reader(p, sep, "list_tuple"@ + decimal(p.len()) + "_tuple"@)
            + ")"@,
        Paradigm::MapTuple2 | Paradigm::MapTuple3 | Paradigm::MapTuple4 => "parse_map<"@ + b(0)
            + ", "@ + cpp_tuple_type(q) + ">("@ + raw + ", "@ + sep + ".map_tuple"@ + decimal(q.len())
            + "_kv, "@ + sep + ".map_tuple"@ + decimal(q.len()) + "_entry, "@ + f(0) + ", "@
            + cpp_tuple_reader(q, sep, "map_tuple"@ + decimal(q.len()) + "_tuple"@) + ")"@,
        Paradigm::MapList => "parse_map<"@ + b(0) + ", std::vector<"@ + b(1) + ">>("@ + raw + ", "@
            + sep + ".map_list_kv, "@ + sep + ".map_list_entry, "@ + f(0)
            + ", std::function<std::vector<"@ + b(1)
            + ">(const std::string&)>([&](const std::string& s) { return parse_list<"@ + b(1)
            + ">(s, "@ + sep + ".map_list_item, "@ + f(1) + "); }))"@,
        Paradigm::Ref => match t.ref_name {
            Some(n) => if named_in(enum_names, n) {
                "static_cast<"@ + n + "Enum>(parse_int32("@ + raw + "))"@
            } else {
                "parse_int32("@ + raw + ")"@
            },
            None => "parse_int32("@ + raw + ")"@,
        },
    }
}

fn tuple_reader(ps: &Vec<BaseType>, off: usize, sep: &str, field: &str) -> (r: String)
    requires
        off <= ps@.len(),
    ensures
        r@ == cpp_tuple_reader(ps@.skip(off as int), sep@, field@),
{
    let n = decimal_string((ps.len() - off) as u64);
    String::from_str("std::function<").concat(tuple_type_of(ps, off).as_str()).concat(
        "(const std::string&)>([&](const std::string& s) { return parse_tuple",
    ).concat(n.as_str()).concat("<").concat(join_parts(ps, off, false).as_str()).concat(">(s, ").concat(
        sep,
    ).concat(".").concat(field).concat(", ").concat(join_parts(ps, off, true).as_str()).concat(
        "); })",
    )
}

/// C++ expression reading `raw_var` as a value of type `t` (see
/// [`spec_cpp_parse_expr`]).
pub fn cpp_parse_expr(raw_var: &str, t: &TblType, sep: &str, enum_names: &[String]) -> (r: String)
    requires
        t.params@.len() == param_count(t.paradigm),
    ensures
        r@ == spec_cpp_parse_expr(raw_var@, t@, sep@, enum_names@),
{
    let p = &t.params;
    proof {
        assert(p@.skip(0) =~= p@);
    }
    let s = |x: &str| -> (r: String)
        ensures
            r@ == x@,
        { String::from_str(x) };
    match t.paradigm {
        Paradigm::Base => s(cpp_base_parse_fn(p[0])).concat("(").concat(raw_var).concat(")"),
        Paradigm::Tuple2 | Paradigm::Tuple3 | Paradigm::Tuple4 => {
            let n = decimal_string(p.len() as u64);
            s("parse_tuple").concat(n.as_str()).concat("<").concat(join_parts(p, 0, false).as_str()).concat(
                ">(",
            ).concat(raw_var).concat(", ").concat(sep).concat(".tuple").concat(n.as_str()).concat(
                ", ",
            ).concat(join_parts(p, 0, true).as_str()).concat(")")
        },
        Paradigm::List => s("parse_list<").concat(cpp_base_type(p[0])).concat(">(").concat(
            raw_var,
        ).concat(", ").concat(sep).concat(".list, ").concat(cpp_base_parse_fn(p[0])).concat(")"),
        Paradigm::SetOf => s("parse_set<").concat(cpp_base_type(p[0])).concat(">(").concat(
            raw_var,
        ).concat(", ").concat(sep).concat(".set, ").concat(cpp_base_parse_fn(p[0])).concat(")"),
        Paradigm::MapOf => s("parse_map<").concat(cpp_base_type(p[0])).concat(", ").concat(
            cpp_base_type(p[1]),
        ).concat(">(").concat(raw_var).concat(", ").concat(sep).concat(".map_kv, ").concat(
            sep,
        ).concat(".map_entry, ").concat(cpp_base_parse_fn(p[0])).concat(", ").concat(
            cpp_base_parse_fn(p[1]),
        ).concat(")"),
        Paradigm::ListTuple2 | Paradigm::ListTuple3 | Paradigm::ListTuple4 => {
            let n = decimal_string(p.len() as u64);
            let field = s("list_tuple").concat(n.as_str()).concat("_tuple");
            s("parse_list<").concat(tuple_type_of(p, 0).as_str()).concat(">(").concat(
                raw_var,
            ).concat(", ").concat(sep).concat(".list_tuple").concat(n.as_str()).concat(
                "_list, ",
            ).concat(tuple_reader(p, 0, sep, field.as_str()).as_str()).concat(")")
        },
        Paradigm::MapTuple2 | Paradigm::MapTuple3 | Paradigm::MapTuple4 => {
            let n = decimal_string((p.len() - 1) as u64);
            let field = s("map_tuple").concat(n.as_str()).concat("_tuple");
            s("parse_map<").concat(cpp_base_type(p[0])).concat(", ").concat(
                tuple_type_of(p, 1).as_str(),
            ).concat(">(").concat(raw_var).concat(", ").concat(sep).concat(".map_tuple").concat(
                n.as_str(),
            ).concat("_kv, ").concat(sep).concat(".map_tuple").concat(n.as_str()).concat(
                "_entry, ",
            ).concat(cpp_base_parse_fn(p[0])).concat(", ").concat(
                tuple_reader(p, 1, sep, field.as_str()).as_str(),
            ).concat(")")
        },
        Paradigm::MapList => s("parse_map<").concat(cpp_base_type(p[0])).concat(", std::vector<").concat(
            cpp_base_type(p[1]),
        ).concat(">>(").concat(raw_var).concat(", ").concat(sep).concat(".map_list_kv, ").concat(
            sep,
        ).concat(".map_list_entry, ").concat(cpp_base_parse_fn(p[0])).concat(
            ", std::function<std::vector<",
        ).concat(cpp_base_type(p[1])).concat(
            ">(const std::string&)>([&](const std::string& s) { return parse_list<",
        ).concat(cpp_base_type(p[1])).concat(">(s, ").concat(sep).concat(".map_list_item, ").concat(
            cpp_base_parse_fn(p[1]),
        ).concat("); }))"),
        Paradigm::Ref => match &t.ref_name {
            Some(n) => if in_names(enum_names, n) {
                s("static_cast<").concat(n.as_str()).concat("Enum>(parse_int32(").concat(
                    raw_var,
                ).concat("))")
            } else {
                s("parse_int32(").concat(raw_var).concat(")")
            },
            None => s("parse_int32(").concat(raw_var).concat(")"),
        },
    }
}

// ───────────────────────── headers ─────────────────────────

pub open spec fn escape_cpp_char(c: char) -> Seq<char> {
    if c == '\\' {
        seq!['\\', '\\']
    } else if c == '\u{22}' {
        seq!['\\', '\u{22}']
    } else {
        seq![c]
    }
}

/// `s` with backslashes and double quotes escaped for a C++ string literal.
pub open spec fn spec_escape_cpp(s: Seq<char>) -> Seq<char>
    decreases s.len(),
{
    if s.len() == 0 {
        seq![]
    } else {
        spec_escape_cpp(s.drop_last()) + escape_cpp_char(s.last())
    }
}

pub fn escape_cpp(s: &str) -> (r: String)
    ensures
        r@ == spec_escape_cpp(s@),
{
    let cs = chars_of(s);
    let mut out = String::new();
    let mut i: usize = 0;
    while i < cs.len()
        invariant
            i <= cs@.len(),
            cs@ == s@,
            out@ == spec_escape_cpp(cs@.take(i as int)),
        decreases cs.len() - i,
    {
        assert(cs@.take(i + 1).drop_last() =~= cs@.take(i as int));
        let c = cs[i];
        if c == '\\' || c == '\u{22}' {
            push_char(&mut out, '\\');
        }
        push_char(&mut out, c);
        assert(out@ =~= spec_escape_cpp(cs@.take(i + 1)));
        i = i + 1;
    }
    assert(cs@.take(i as int) =~= cs@);
    out
}

/// Name and type of each server column.
pub open spec fn server_members(fs: Seq<FieldDefView>) -> Seq<(Seq<char>, Seq<char>)>
    decreases fs.len(),
{
    if fs.len() == 0 {
        seq![]
    } else if spec_is_server_export(fs.last().export) {
        server_members(fs.drop_last()).push((fs.last().name, fs.last().tbl_type))
    } else {
        server_members(fs.drop_last())
    }
}

/// Name and type of each named server entry.
pub open spec fn server_const_members(es: Seq<ConstEntryView>) -> Seq<(Seq<char>, Seq<char>)>
    decreases es.len(),
{
    if es.len() == 0 {
        seq![]
    } else if spec_is_server_export(es.last().export) && es.last().name.len() > 0 {
        server_const_members(es.drop_last()).push((es.last().name, es.last().tbl_type))
    } else {
        server_const_members(es.drop_last())
    }
}

/// Initializer of a member of type `ty`.
pub open spec fn member_default(ty: Seq<char>, enum_names: Seq<String>) -> Seq<char> {
    match spec_parse_type(ty) {
        Some(t) => if t.paradigm == Paradigm::Base {
            spec_cpp_base_default(t.params[0])
        } else if t.paradigm == Paradigm::Ref {
            match t.ref_name {
                Some(n) => if named_in(enum_names, n) {
                    "{}"@
                } else {
                    "0"@
                },
                None => "0"@,
            }
        } else {
            "{}"@
        },
        None => "{}"@,
    }
}

/// Member declarations of a struct.
pub open spec fn member_lines(ms: Seq<(Seq<char>, Seq<char>)>, enum_names: Seq<String>) -> Seq<char>
    decreases ms.len(),
{
    if ms.len() == 0 {
        seq![]
    } else {
        let (name, ty) = ms.last();
        member_lines(ms.drop_last(), enum_names) + "    "@ + spec_cpp_field_type(ty, enum_names)
            + " "@ + spec_camel_case(name) + " = "@ + member_default(ty, enum_names) + ";\n"@
    }
}

/// Statements reading each member from a row of strings keyed by the
/// member's name.
pub open spec fn parse_lines_cpp(ms: Seq<(Seq<char>, Seq<char>)>, enum_names: Seq<String>) -> Seq<
    char,
>
    decreases ms.len(),
{
    if ms.len() == 0 {
        seq![]
    } else {
        let (name, ty) = ms.last();
        let camel = spec_camel_case(name);
        parse_lines_cpp(ms.drop_last(), enum_names) + match spec_parse_type(ty) {
            Some(t) => "    { auto raw = get(\u{22}"@ + camel + "\u{22}); if (!raw.empty()) obj."@ + camel
                + " = "@ + spec_cpp_parse_expr("raw"@, t, "sep"@, enum_names) + "; }\n"@,
            None => "    obj."@ + camel + " = get(\u{22}"@ + camel + "\u{22});\n"@,
        }
    }
}

pub open spec fn pairs_view(v: Seq<(String, String)>) -> Seq<(Seq<char>, Seq<char>)> {
    v.map_values(|p: (String, String)| (p.0@, p.1@))
}

fn members_of_fields(fields: &Vec<FieldDef>) -> (r: Vec<(String, String)>)
    ensures
        pairs_view(r@) == server_members(field_defs_view(fields@)),
{
    let ghost fv = field_defs_view(fields@);
    let mut out: Vec<(String, String)> = Vec::new();
    let mut i: usize = 0;
    assert(fv.take(0) =~= Seq::<FieldDefView>::empty());
    while i < fields.len()
        invariant
            i <= fields@.len(),
            fv == field_defs_view(fields@),
            pairs_view(out@) == server_members(fv.take(i as int)),
        decreases fields.len() - i,
    {
        assert(fv.take(i + 1).drop_last() =~= fv.take(i as int));
        let f = &fields[i];
        assert(fv.take(i + 1).last() == f@);
        if is_server_export(&f.export) {
            let ghost prev = pairs_view(out@);
            out.push((f.name.clone(), f.tbl_type.clone()));
            assert(pairs_view(out@) =~= prev.push((f.name@, f.tbl_type@)));
        }
        i = i + 1;
    }
    assert(fv.take(i as int) =~= fv);
    out
}

fn members_of_entries(es: &Vec<ConstEntry>) -> (r: Vec<(String, String)>)
    ensures
        pairs_view(r@) == server_const_members(const_entries_view(es@)),
{
    let ghost ev = const_entries_view(es@);
    let mut out: Vec<(String, String)> = Vec::new();
    let mut i: usize = 0;
    assert(ev.take(0) =~= Seq::<ConstEntryView>::empty());
    while i < es.len()
        invariant
            i <= es@.len(),
            ev == const_entries_view(es@),
            pairs_view(out@) == server_const_members(ev.take(i as int)),
        decreases es.len() - i,
    {
        assert(ev.take(i + 1).drop_last() =~= ev.take(i as int));
        let e = &es[i];
        assert(ev.take(i + 1).last() == e@);
        if is_server_export(&e.export) && !e.name.as_str().is_empty() {
            let ghost prev = pairs_view(out@);
            out.push((e.name.clone(), e.tbl_type.clone()));
            assert(pairs_view(out@) =~= prev.push((e.name@, e.tbl_type@)));
        }
        i = i + 1;
    }
    assert(ev.take(i as int) =~= ev);
    out
}

fn member_default_of(ty: &str, enum_names: &[String]) -> (r: &'static str)
    ensures
        r@ == member_default(ty@, enum_names@),
{
    match TblType::parse(ty) {
        Some(t) => {
            proof {
                lemma_parse_param_count(ty@);
            }
            match t.paradigm {
                Paradigm::Base => cpp_base_default(t.params[0]),
                Paradigm::Ref => match &t.ref_name {
                    Some(n) => if in_names(enum_names, n) {
                        "{}"
                    } else {
                        "0"
                    },
                    None => "0",
                },
                _ => "{}",
            }
        },
        None => "{}",
    }
}

fn member_lines_of(ms: &Vec<(String, String)>, enum_names: &[String]) -> (r: String)
    ensures
        r@ == member_lines(pairs_view(ms@), enum_names@),
{
    let ghost mv = pairs_view(ms@);
    let mut s = String::new();
    let mut i: usize = 0;
    assert(mv.take(0) =~= Seq::<(Seq<char>, Seq<char>)>::empty());
    while i < ms.len()
        invariant
            i <= ms@.len(),
            mv == pairs_view(ms@),
            s@ == member_lines(mv.take(i as int), enum_names@),
        decreases ms.len() - i,
    {
        assert(mv.take(i + 1).drop_last() =~= mv.take(i as int));
        let (name, ty) = &ms[i];
        assert(mv.take(i + 1).last() == (name@, ty@));
        s = s.concat("    ").concat(cpp_field_type(ty.as_str(), enum_names).as_str()).concat(" ").concat(
            to_camel_case(name.as_str()).as_str(),
        ).concat(" = ").concat(member_default_of(ty.as_str(), enum_names)).concat(";\n");
        i = i + 1;
    }
    assert(mv.take(i as int) =~= mv);
    s
}

fn parse_lines_of(ms: &Vec<(String, String)>, enum_names: &[String]) -> (r: String)
    ensures
        r@ == parse_lines_cpp(pairs_view(ms@), enum_names@),
{
    let ghost mv = pairs_view(ms@);
    let mut s = String::new();
    let mut i: usize = 0;
    assert(mv.take(0) =~= Seq::<(Seq<char>, Seq<char>)>::empty());
    while i < ms.len()
        invariant
            i <= ms@.len(),
            mv == pairs_view(ms@),
            s@ == parse_lines_cpp(mv.take(i as int), enum_names@),
        decreases ms.len() - i,
    {
        assert(mv.take(i + 1).drop_last() =~= mv.take(i as int));
        let (name, ty) = &ms[i];
        assert(mv.take(i + 1).last() == (name@, ty@));
        let camel = to_camel_case(name.as_str());
        match TblType::parse(ty.as_str()) {
            Some(t) => {
                proof {
                    lemma_parse_param_count(ty@);
                }
                s = s.concat("    { auto raw = get(\u{22}").concat(camel.as_str()).concat(
                    "\u{22}); if (!raw.empty()) obj.",
                ).concat(camel.as_str()).concat(" = ").concat(
                    cpp_parse_expr("raw", &t, "sep", enum_names).as_str(),
                ).concat("; }\n");
            },
            None => {
                s = s.concat("    obj.").concat(camel.as_str()).concat(" = get(\u{22}").concat(
                    camel.as_str(),
                ).concat("\u{22});\n");
            },
        }
        i = i + 1;
    }
    assert(mv.take(i as int) =~= mv);
    s
}

/// Header of a table: a struct `<Name>Tpl` of its server columns, a map of
/// the records by id, a reader of a row, and its registration.
pub open spec fn spec_gen_table_header(t: TableView, ns: Seq<char>, enum_names: Seq<String>) -> Seq<char> {
    let cls = t.name + "Tpl"@;
    let ms = server_members(t.fields);
    "// Auto-generated by tablet. Do not edit.\n#pragma once\n\n#include \u{22}loader.h\u{22}\n\nnamespace "@ + ns + " {\n\nstruct "@ + cls + " {\n"@ + member_lines(ms, enum_names) + "\n    static const "@ + cls + "* Get(int32_t id);\n    static const std::unordered_map<int32_t, "@ + cls + ">& All();\n};\n\ninline std::unordered_map<int32_t, "@ + cls + ">& "@ + t.name + "_data() {\n    static std::unordered_map<int32_t, "@ + cls + "> m; return m;\n}\n\ninline const "@ + cls + "* "@ + cls + "::Get(int32_t id) {\n    auto& m = "@ + t.name + "_data();\n    auto it = m.find(id);\n    return it == m.end() ? nullptr : &it->second;\n}\ninline const std::unordered_map<int32_t, "@ + cls + ">& "@ + cls + "::All() { return "@ + t.name + "_data(); }\n\ninline "@ + cls + " parse_"@ + t.name + "(const std::unordered_map<std::string, std::string>& row, const SepConfig& sep) {\n    "@ + cls + " obj;\n    auto get = [&](const char* k) -> std::string { auto it = row.find(k); return it == row.end() ? std::string() : it->second; };\n"@ + parse_lines_cpp(ms, enum_names) + "    return obj;\n}\n\nnamespace { struct "@ + t.name + "Reg { "@ + t.name + "Reg() {\n    table_registry()[\u{22}"@ + t.name + "\u{22}] = [](const std::vector<std::unordered_map<std::string, std::string>>& rows, const SepConfig& sep) {\n        auto& m = "@ + t.name + "_data(); m.clear();\n        for (const auto& r : rows) {\n            auto obj = parse_"@ + t.name + "(r, sep);\n            m.emplace(obj.id, std::move(obj));\n        }\n    };\n} }; inline "@ + t.name + "Reg "@ + t.name + "_reg_instance; }\n\n}  // namespace "@ + ns + "\n"@
}

pub fn gen_table_header(table: &Table, ns: &str, enum_names: &[String]) -> (r: String)
    ensures
        r@ == spec_gen_table_header(table@, ns@, enum_names@),
{
    let ms = members_of_fields(&table.schema.fields);
    let members = member_lines_of(&ms, enum_names);
    let parses = parse_lines_of(&ms, enum_names);
    let cls = table.name.clone().concat("Tpl");
    let mut s = String::new();
    s = s.concat("// Auto-generated by tablet. Do not edit.\n#pragma once\n\n#include \u{22}loader.h\u{22}\n\nnamespace ");
    s = s.concat(ns);
    s = s.concat(" {\n\nstruct ");
    s = s.concat(cls.as_str());
    s = s.concat(" {\n");
    s = s.concat(members.as_str());
    s = s.concat("\n    static const ");
    s = s.concat(cls.as_str());
    s = s.concat("* Get(int32_t id);\n    static const std::unordered_map<int32_t, ");
    s = s.concat(cls.as_str());
    s = s.concat(">& All();\n};\n\ninline std::unordered_map<int32_t, ");
    s = s.concat(cls.as_str());
    s = s.concat(">& ");
    s = s.concat(table.name.as_str());
    s = s.concat("_data() {\n    static std::unordered_map<int32_t, ");
    s = s.concat(cls.as_str());
    s = s.concat("> m; return m;\n}\n\ninline const ");
    s = s.concat(cls.as_str());
    s = s.concat("* ");
    s = s.concat(cls.as_str());
    s = s.concat("::Get(int32_t id) {\n    auto& m = ");
    s = s.concat(table.name.as_str());
    s = s.concat("_data();\n    auto it = m.find(id);\n    return it == m.end() ? nullptr : &it->second;\n}\ninline const std::unordered_map<int32_t, ");
    s = s.concat(cls.as_str());
    s = s.concat(">& ");
    s = s.concat(cls.as_str());
    s = s.concat("::All() { return ");
    s = s.concat(table.name.as_str());
    s = s.concat("_data(); }\n\ninline ");
    s = s.concat(cls.as_str());
    s = s.concat(" parse_");
    s = s.concat(table.name.as_str());
    s = s.concat("(const std::unordered_map<std::string, std::string>& row, const SepConfig& sep) {\n    ");
    s = s.concat(cls.as_str());
    s = s.concat(" obj;\n    auto get = [&](const char* k) -> std::string { auto it = row.find(k); return it == row.end() ? std::string() : it->second; };\n");
    s = s.concat(parses.as_str());
    s = s.concat("    return obj;\n}\n\nnamespace { struct ");
    s = s.concat(table.name.as_str());
    s = s.concat("Reg { ");
    s = s.concat(table.name.as_str());
    s = s.concat("Reg() {\n    table_registry()[\u{22}");
    s = s.concat(table.name.as_str());
    s = s.concat("\u{22}] = [](const std::vector<std::unordered_map<std::string, std::string>>& rows, const SepConfig& sep) {\n        auto& m = ");
    s = s.concat(table.name.as_str());
    s = s.concat("_data(); m.clear();\n        for (const auto& r : rows) {\n            auto obj = parse_");
    s = s.concat(table.name.as_str());
    s = s.concat("(r, sep);\n            m.emplace(obj.id, std::move(obj));\n        }\n    };\n} }; inline ");
    s = s.concat(table.name.as_str());
    s = s.concat("Reg ");
    s = s.concat(table.name.as_str());
    s = s.concat("_reg_instance; }\n\n}  // namespace ");
    s = s.concat(ns);
    s = s.concat("\n");
    s
}

/// Header of a constant set: a struct `<Name>Tpl` of its named server
/// entries, a reader of its row, and its registration.
pub open spec fn spec_gen_constant_header(c: ConstantView, ns: Seq<char>, enum_names: Seq<String>) -> Seq<
    char,
> {
    let cls = c.name + "Tpl"@;
    let ms = server_const_members(c.entries);
    "// Auto-generated by tablet. Do not edit.\n#pragma once\n\n#include \u{22}loader.h\u{22}\n\nnamespace "@ + ns + " {\n\nstruct "@ + cls + " {\n"@ + member_lines(ms, enum_names) + "\n    static const "@ + cls + "& Get();\n};\n\ninline "@ + cls + "& "@ + c.name + "_data() { static "@ + cls + " v; return v; }\ninline const "@ + cls + "& "@ + cls + "::Get() { return "@ + c.name + "_data(); }\n\ninline "@ + cls + " parse_"@ + c.name + "(const std::unordered_map<std::string, std::string>& row, const SepConfig& sep) {\n    "@ + cls + " obj;\n    auto get = [&](const char* k) -> std::string { auto it = row.find(k); return it == row.end() ? std::string() : it->second; };\n"@ + parse_lines_cpp(ms, enum_names) + "    return obj;\n}\n\nnamespace { struct "@ + c.name + "Reg { "@ + c.name + "Reg() {\n    constant_registry()[\u{22}"@ + c.name + "\u{22}] = [](const std::unordered_map<std::string, std::string>& row, const SepConfig& sep) {\n        "@ + c.name + "_data() = parse_"@ + c.name + "(row, sep);\n    };\n} }; inline "@ + c.name + "Reg "@ + c.name + "_reg_instance; }\n\n}  // namespace "@ + ns + "\n"@
}

pub fn gen_constant_header(constant: &Constant, ns: &str, enum_names: &[String]) -> (r: String)
    ensures
        r@ == spec_gen_constant_header(constant@, ns@, enum_names@),
{
    let ms = members_of_entries(&constant.entries);
    let members = member_lines_of(&ms, enum_names);
    let parses = parse_lines_of(&ms, enum_names);
    let cls = constant.name.clone().concat("Tpl");
    let mut s = String::new();
    s = s.concat("// Auto-generated by tablet. Do not edit.\n#pragma once\n\n#include \u{22}loader.h\u{22}\n\nnamespace ");
    s = s.concat(ns);
    s = s.concat(" {\n\nstruct ");
    s = s.concat(cls.as_str());
    s = s.concat(" {\n");
    s = s.concat(members.as_str());
    s = s.concat("\n    static const ");
    s = s.concat(cls.as_str());
    s = s.concat("& Get();\n};\n\ninline ");
    s = s.concat(cls.as_str());
    s = s.concat("& ");
    s = s.concat(constant.name.as_str());
    s = s.concat("_data() { static ");
    s = s.concat(cls.as_str());
    s = s.concat(" v; return v; }\ninline const ");
    s = s.concat(cls.as_str());
    s = s.concat("& ");
    s = s.concat(cls.as_str());
    s = s.concat("::Get() { return ");
    s = s.concat(constant.name.as_str());
    s = s.concat("_data(); }\n\ninline ");
    s = s.concat(cls.as_str());
    s = s.concat(" parse_");
    s = s.concat(constant.name.as_str());
    s = s.concat("(const std::unordered_map<std::string, std::string>& row, const SepConfig& sep) {\n    ");
    s = s.concat(cls.as_str());
    s = s.concat(" obj;\n    auto get = [&](const char* k) -> std::string { auto it = row.find(k); return it == row.end() ? std::string() : it->second; };\n");
    s = s.concat(parses.as_str());
    s = s.concat("    return obj;\n}\n\nnamespace { struct ");
    s = s.concat(constant.name.as_str());
    s = s.concat("Reg { ");
    s = s.concat(constant.name.as_str());
    s = s.concat("Reg() {\n    constant_registry()[\u{22}");
    s = s.concat(constant.name.as_str());
    s = s.concat("\u{22}] = [](const std::unordered_map<std::string, std::string>& row, const SepConfig& sep) {\n        ");
    s = s.concat(constant.name.as_str());
    s = s.concat("_data() = parse_");
    s = s.concat(constant.name.as_str());
    s = s.concat("(row, sep);\n    };\n} }; inline ");
    s = s.concat(constant.name.as_str());
    s = s.concat("Reg ");
    s = s.concat(constant.name.as_str());
    s = s.concat("_reg_instance; }\n\n}  // namespace ");
    s = s.concat(ns);
    s = s.concat("\n");
    s
}

/// Entries of an enum with an id and a name.
pub open spec fn cpp_valid_entries(es: Seq<EnumEntryView>) -> Seq<EnumEntryView>
    decreases es.len(),
{
    if es.len() == 0 {
        seq![]
    } else if es.last().id.len() > 0 && es.last().name.len() > 0 {
        cpp_valid_entries(es.drop_last()).push(es.last())
    } else {
        cpp_valid_entries(es.drop_last())
    }
}

pub open spec fn id_value(id: Seq<char>) -> int {
    match spec_parse_i64(id) {
        Some(v) => v,
        None => 0,
    }
}

pub open spec fn enum_values_cpp(es: Seq<EnumEntryView>) -> Seq<char>
    decreases es.len(),
{
    if es.len() == 0 {
        seq![]
    } else {
        let e = es.last();
        enum_values_cpp(es.drop_last()) + "    "@ + e.name + " = "@ + int_text(id_value(e.id))
            + ",  // "@ + e.desc + "\n"@
    }
}

pub open spec fn enum_cases_cpp(es: Seq<EnumEntryView>, en: Seq<char>) -> Seq<char>
    decreases es.len(),
{
    if es.len() == 0 {
        seq![]
    } else {
        let e = es.last();
        enum_cases_cpp(es.drop_last(), en) + "        case "@ + en + "::"@ + e.name + ": return \u{22}"@
            + spec_escape_cpp(e.desc) + "\u{22};\n"@
    }
}

/// Header of an enum: an `enum class <Name>Enum` of the entries with an id
/// and a name, and a function giving each one's description.
pub open spec fn spec_gen_enum_header(e: EnumDefView, ns: Seq<char>) -> Seq<char> {
    let en = e.name + "Enum"@;
    let valid = cpp_valid_entries(e.entries);
    "// Auto-generated by tablet. Do not edit.\n#pragma once\n\n#include \u{22}tbl.h\u{22}\n\nnamespace "@ + ns + " {\n\nenum class "@ + en + " : int32_t {\n"@ + enum_values_cpp(valid) + "};\n\ninline const char* "@ + en + "_desc("@ + en + " v) {\n    switch (v) {\n"@ + enum_cases_cpp(valid, en) + "    }\n    return \u{22}\u{22};\n}\n\n}  // namespace "@ + ns + "\n"@
}

fn cpp_valid_of(es: &Vec<EnumEntry>) -> (r: Vec<&EnumEntry>)
    ensures
        r@.map_values(|e: &EnumEntry| e@) == cpp_valid_entries(enum_entries_view(es@)),
{
    let ghost ev = enum_entries_view(es@);
    let mut out: Vec<&EnumEntry> = Vec::new();
    let mut i: usize = 0;
    assert(ev.take(0) =~= Seq::<EnumEntryView>::empty());
    while i < es.len()
        invariant
            i <= es@.len(),
            ev == enum_entries_view(es@),
            out@.map_values(|e: &EnumEntry| e@) == cpp_valid_entries(ev.take(i as int)),
        decreases es.len() - i,
    {
        assert(ev.take(i + 1).drop_last() =~= ev.take(i as int));
        let e = &es[i];
        assert(ev.take(i + 1).last() == e@);
        if !e.id.as_str().is_empty() && !e.name.as_str().is_empty() {
            let ghost prev = out@.map_values(|e: &EnumEntry| e@);
            out.push(e);
            assert(out@.map_values(|e: &EnumEntry| e@) =~= prev.push(e@));
        }
        i = i + 1;
    }
    assert(ev.take(i as int) =~= ev);
    out
}

fn id_of(id: &str) -> (r: i64)
    ensures
        r as int == id_value(id@),
{
    let cs = chars_of(id);
    match parse_i64(cs.as_slice()) {
        Some(v) => v,
        None => 0,
    }
}

pub fn gen_enum_header(enum_def: &EnumDef, ns: &str) -> (r: String)
    ensures
        r@ == spec_gen_enum_header(enum_def@, ns@),
{
    let valid = cpp_valid_of(&enum_def.entries);
    let ghost vv = valid@.map_values(|e: &EnumEntry| e@);
    let en = enum_def.name.clone().concat("Enum");
    let mut values = String::new();
    let mut cases = String::new();
    let mut i: usize = 0;
    assert(vv.take(0) =~= Seq::<EnumEntryView>::empty());
    while i < valid.len()
        invariant
            i <= valid@.len(),
            vv == valid@.map_values(|e: &EnumEntry| e@),
            values@ == enum_values_cpp(vv.take(i as int)),
            cases@ == enum_cases_cpp(vv.take(i as int), en@),
        decreases valid.len() - i,
    {
        assert(vv.take(i + 1).drop_last() =~= vv.take(i as int));
        let e = valid[i];
        assert(vv.take(i + 1).last() == e@);
        values = values.concat("    ").concat(e.name.as_str()).concat(" = ").concat(
            int_string(id_of(e.id.as_str())).as_str(),
        ).concat(",  // ").concat(e.desc.as_str()).concat("\n");
        cases = cases.concat("        case ").concat(en.as_str()).concat("::").concat(e.name.as_str()).concat(
            ": return \u{22}",
        ).concat(escape_cpp(e.desc.as_str()).as_str()).concat("\u{22};\n");
        i = i + 1;
    }
    assert(vv.take(i as int) =~= vv);
    let mut s = String::new();
    s = s.concat("// Auto-generated by tablet. Do not edit.\n#pragma once\n\n#include \u{22}tbl.h\u{22}\n\nnamespace ");
    s = s.concat(ns);
    s = s.concat(" {\n\nenum class ");
    s = s.concat(en.as_str());
    s = s.concat(" : int32_t {\n");
    s = s.concat(values.as_str());
    s = s.concat("};\n\ninline const char* ");
    s = s.concat(en.as_str());
    s = s.concat("_desc(");
    s = s.concat(en.as_str());
    s = s.concat(" v) {\n    switch (v) {\n");
    s = s.concat(cases.as_str());
    s = s.concat("    }\n    return \u{22}\u{22};\n}\n\n}  // namespace ");
    s = s.concat(ns);
    s = s.concat("\n");
    s
}

/// `#include` lines of `<name><suffix>` for each name.
pub open spec fn includes_cpp(names: Seq<String>, suffix: Seq<char>) -> Seq<char>
    decreases names.len(),
{
    if names.len() == 0 {
        seq![]
    } else {
        includes_cpp(names.drop_last(), suffix) + "#include \u{22}"@ + names.last()@ + suffix + "\u{22}\n"@
    }
}

fn includes_of(names: &[String], suffix: &str) -> (r: String)
    ensures
        r@ == includes_cpp(names@, suffix@),
{
    let mut s = String::new();
    let mut i: usize = 0;
    while i < names.len()
        invariant
            i <= names@.len(),
            s@ == includes_cpp(names@.take(i as int), suffix@),
        decreases names.len() - i,
    {
        assert(names@.take(i + 1).drop_last() =~= names@.take(i as int));
        s = s.concat("#include \u{22}").concat(names[i].as_str()).concat(suffix).concat("\u{22}\n");
        i = i + 1;
    }
    assert(names@.take(i as int) =~= names@);
    s
}

/// The header that includes every enum, table and constant header.
pub open spec fn spec_gen_all_header(
    ns: Seq<char>,
    table_names: Seq<String>,
    constant_names: Seq<String>,
    enum_names: Seq<String>,
) -> Seq<char> {
    "// Auto-generated by tablet. Do not edit.\n#pragma once\n\n// 聚合头：包含本项目所有 *Tpl.h / *Enum.h。\n#include \u{22}loader.h\u{22}\n"@ + includes_cpp(enum_names, "Enum.h"@) + includes_cpp(table_names, "Tpl.h"@) + includes_cpp(constant_names, "Tpl.h"@) + "\nnamespace "@ + ns + " {}  // 仅占位让 IDE 知道 ns 存在\n"@
}

pub fn gen_all_header(ns: &str, table_names: &[String], constant_names: &[String], enum_names: &[String]) -> (r: String)
    ensures
        r@ == spec_gen_all_header(ns@, table_names@, constant_names@, enum_names@),
{
    let incs = includes_of(enum_names, "Enum.h").concat(includes_of(table_names, "Tpl.h").as_str()).concat(
        includes_of(constant_names, "Tpl.h").as_str(),
    );
    let mut s = String::new();
    s = s.concat("// Auto-generated by tablet. Do not edit.\n#pragma once\n\n// 聚合头：包含本项目所有 *Tpl.h / *Enum.h。\n#include \u{22}loader.h\u{22}\n");
    s = s.concat(incs.as_str());
    s = s.concat("\nnamespace ");
    s = s.concat(ns);
    s = s.concat(" {}  // 仅占位让 IDE 知道 ns 存在\n");
    s
}

// ───────────────────────── whole project ─────────────────────────

/// Output directory and namespace of the C++ export: `[export.server.cpp]`,
/// by default `gen/server/cpp` and `game::config`.
pub open spec fn cpp_settings(cfg: Option<ExportConfig>) -> (Seq<char>, Seq<char>) {
    let cpp = match cfg {
        Some(e) => match e.server {
            Some(sv) => sv.cpp,
            None => None,
        },
        None => None,
    };
    match cpp {
        Some(c) => (text_or(c.code_output, "gen/server/cpp"@), text_or(c.namespace, "game::config"@)),
        None => ("gen/server/cpp"@, "game::config"@),
    }
}

pub open spec fn live_tables(ts: Seq<Table>) -> Seq<Table>
    decreases ts.len(),
{
    if ts.len() == 0 {
        seq![]
    } else {
        live_tables(ts.drop_last()) + if ts.last().deleted { seq![] } else { seq![ts.last()] }
    }
}

pub open spec fn live_constants(cs: Seq<Constant>) -> Seq<Constant>
    decreases cs.len(),
{
    if cs.len() == 0 {
        seq![]
    } else {
        live_constants(cs.drop_last()) + if cs.last().deleted { seq![] } else { seq![cs.last()] }
    }
}

pub open spec fn live_enums(es: Seq<EnumDef>) -> Seq<EnumDef>
    decreases es.len(),
{
    if es.len() == 0 {
        seq![]
    } else {
        live_enums(es.drop_last()) + if es.last().deleted { seq![] } else { seq![es.last()] }
    }
}

/// Headers of one group: its live tables, constants and enums.
pub open spec fn cpp_group_files(g: Group, ns: Seq<char>, en: Seq<String>) -> Seq<(Seq<char>, Seq<char>)> {
    live_tables(g.tables@).map_values(
        |t: Table| (t.name@ + "Tpl.h"@, spec_gen_table_header(t@, ns, en)),
    ) + live_constants(g.constants@).map_values(
        |c: Constant| (c.name@ + "Tpl.h"@, spec_gen_constant_header(c@, ns, en)),
    ) + live_enums(g.enums@).map_values(|e: EnumDef| (e.name@ + "Enum.h"@, spec_gen_enum_header(e@, ns)))
}

pub open spec fn cpp_groups_files(gs: Seq<Group>, ns: Seq<char>, en: Seq<String>) -> Seq<(Seq<char>, Seq<char>)>
    decreases gs.len(),
{
    if gs.len() == 0 {
        seq![]
    } else {
        cpp_groups_files(gs.drop_last(), ns, en) + cpp_group_files(gs.last(), ns, en)
    }
}

pub open spec fn all_live_table_names(gs: Seq<Group>) -> Seq<String>
    decreases gs.len(),
{
    if gs.len() == 0 {
        seq![]
    } else {
        all_live_table_names(gs.drop_last()) + live_tables(gs.last().tables@).map_values(|t: Table| t.name)
    }
}

pub open spec fn all_live_constant_names(gs: Seq<Group>) -> Seq<String>
    decreases gs.len(),
{
    if gs.len() == 0 {
        seq![]
    } else {
        all_live_constant_names(gs.drop_last()) + live_constants(gs.last().constants@).map_values(
            |c: Constant| c.name,
        )
    }
}

/// The C++ headers of a project: per group its tables, constants and
/// enums (deleted ones skipped), then `all_tpls.h` including them all.
pub open spec fn spec_cpp_files(gs: Seq<Group>, ns: Seq<char>) -> Seq<(Seq<char>, Seq<char>)> {
    let en = live_enum_names(gs);
    cpp_groups_files(gs, ns, en).push(
        (
            "all_tpls.h"@,
            spec_gen_all_header(ns, all_live_table_names(gs), all_live_constant_names(gs), en),
        ),
    )
}

fn push_file(out: &mut Vec<GeneratedFile>, name: String, content: String)
    ensures
        files_view(final(out)@) == files_view(old(out)@).push((name@, content@)),
{
    let ghost prev = files_view(out@);
    out.push(GeneratedFile { name, content });
    assert(files_view(out@) =~= prev.push((name@, content@)));
}

/// Headers of one group, appended to `out`, with the group's live node
/// names appended to the three name lists.
fn cpp_group(
    g: &Group,
    ns: &str,
    en: &Vec<String>,
    out: &mut Vec<GeneratedFile>,
    tnames: &mut Vec<String>,
    cnames: &mut Vec<String>,
)
    ensures
        files_view(final(out)@) == files_view(old(out)@) + cpp_group_files(*g, ns@, en@),
        final(tnames)@ == old(tnames)@ + live_tables(g.tables@).map_values(|t: Table| t.name),
        final(cnames)@ == old(cnames)@ + live_constants(g.constants@).map_values(|c: Constant| c.name),
{
    let ghost o0 = files_view(out@);
    let ghost t0 = tnames@;
    let ghost c0 = cnames@;
    let ghost tf = live_tables(g.tables@).map_values(
        |t: Table| (t.name@ + "Tpl.h"@, spec_gen_table_header(t@, ns@, en@)),
    );
    let ghost cf = live_constants(g.constants@).map_values(
        |c: Constant| (c.name@ + "Tpl.h"@, spec_gen_constant_header(c@, ns@, en@)),
    );
    let ghost ef = live_enums(g.enums@).map_values(|e: EnumDef| (e.name@ + "Enum.h"@, spec_gen_enum_header(e@, ns@)));
    let mut i: usize = 0;
    while i < g.tables.len()
        invariant
            i <= g.tables@.len(),
            files_view(out@) == o0 + live_tables(g.tables@.take(i as int)).map_values(
                |t: Table| (t.name@ + "Tpl.h"@, spec_gen_table_header(t@, ns@, en@)),
            ),
            tnames@ == t0 + live_tables(g.tables@.take(i as int)).map_values(|t: Table| t.name),
        decreases g.tables.len() - i,
    {
        let t = &g.tables[i];
        assert(g.tables@.take(i + 1).drop_last() =~= g.tables@.take(i as int));
        assert(g.tables@.take(i + 1).last() == *t);
        let ghost lt = live_tables(g.tables@.take(i as int));
        if !t.deleted {
            let content = gen_table_header(t, ns, en.as_slice());
            push_file(out, t.name.clone().concat("Tpl.h"), content);
            tnames.push(t.name.clone());
            assert(live_tables(g.tables@.take(i + 1)) =~= lt.push(*t));
        } else {
            assert(live_tables(g.tables@.take(i + 1)) =~= lt);
        }
        assert(files_view(out@) =~= o0 + live_tables(g.tables@.take(i + 1)).map_values(
            |t: Table| (t.name@ + "Tpl.h"@, spec_gen_table_header(t@, ns@, en@)),
        ));
        assert(tnames@ =~= t0 + live_tables(g.tables@.take(i + 1)).map_values(|t: Table| t.name));
        i = i + 1;
    }
    assert(g.tables@.take(i as int) =~= g.tables@);
    let ghost o1 = files_view(out@);
    let mut j: usize = 0;
    while j < g.constants.len()
        invariant
            j <= g.constants@.len(),
            files_view(out@) == o1 + live_constants(g.constants@.take(j as int)).map_values(
                |c: Constant| (c.name@ + "Tpl.h"@, spec_gen_constant_header(c@, ns@, en@)),
            ),
            cnames@ == c0 + live_constants(g.constants@.take(j as int)).map_values(|c: Constant| c.name),
        decreases g.constants.len() - j,
    {
        let c = &g.constants[j];
        assert(g.constants@.take(j + 1).drop_last() =~= g.constants@.take(j as int));
        assert(g.constants@.take(j + 1).last() == *c);
        let ghost lc = live_constants(g.constants@.take(j as int));
        if !c.deleted {
            let content = gen_constant_header(c, ns, en.as_slice());
            push_file(out, c.name.clone().concat("Tpl.h"), content);
            cnames.push(c.name.clone());
            assert(live_constants(g.constants@.take(j + 1)) =~= lc.push(*c));
        } else {
            assert(live_constants(g.constants@.take(j + 1)) =~= lc);
        }
        assert(files_view(out@) =~= o1 + live_constants(g.constants@.take(j + 1)).map_values(
            |c: Constant| (c.name@ + "Tpl.h"@, spec_gen_constant_header(c@, ns@, en@)),
        ));
        assert(cnames@ =~= c0 + live_constants(g.constants@.take(j + 1)).map_values(|c: Constant| c.name));
        j = j + 1;
    }
    assert(g.constants@.take(j as int) =~= g.constants@);
    let ghost o2 = files_view(out@);
    let mut k: usize = 0;
    while k < g.enums.len()
        invariant
            k <= g.enums@.len(),
            files_view(out@) == o2 + live_enums(g.enums@.take(k as int)).map_values(
                |e: EnumDef| (e.name@ + "Enum.h"@, spec_gen_enum_header(e@, ns@)),
            ),
        decreases g.enums.len() - k,
    {
        let e = &g.enums[k];
        assert(g.enums@.take(k + 1).drop_last() =~= g.enums@.take(k as int));
        assert(g.enums@.take(k + 1).last() == *e);
        let ghost le = live_enums(g.enums@.take(k as int));
        if !e.deleted {
            let content = gen_enum_header(e, ns);
            push_file(out, e.name.clone().concat("Enum.h"), content);
            assert(live_enums(g.enums@.take(k + 1)) =~= le.push(*e));
        } else {
            assert(live_enums(g.enums@.take(k + 1)) =~= le);
        }
        assert(files_view(out@) =~= o2 + live_enums(g.enums@.take(k + 1)).map_values(
            |e: EnumDef| (e.name@ + "Enum.h"@, spec_gen_enum_header(e@, ns@)),
        ));
        k = k + 1;
    }
    assert(g.enums@.take(k as int) =~= g.enums@);
    assert(files_view(out@) =~= o0 + cpp_group_files(*g, ns@, en@));
}

/// The C++ export of a project: the output directory under the export
/// root, and the headers (see [`spec_cpp_files`]).
pub fn export_all_cpp(project: &Project) -> (r: ExportPlan)
    ensures
        r.output_dir@ == path_join(project.project_root@, cpp_settings(project.config.export).0),
        r.extension@ == "h"@,
        r.line_ending == cfg_line_ending(project.config.export),
        r.encoding == cfg_encoding(project.config.export),
        files_view(r.files@) == spec_cpp_files(project.groups@, cpp_settings(project.config.export).1),
{
    let (code_output, ns) = match &project.config.export {
        Some(e) => match &e.server {
            Some(sv) => match &sv.cpp {
                Some(c) => (string_or(&c.code_output, "gen/server/cpp"), string_or(&c.namespace, "game::config")),
                None => (String::from_str("gen/server/cpp"), String::from_str("game::config")),
            },
            None => (String::from_str("gen/server/cpp"), String::from_str("game::config")),
        },
        None => (String::from_str("gen/server/cpp"), String::from_str("game::config")),
    };
    proof {
        reveal_strlit("gen/server/cpp");
        reveal_strlit("game::config");
        reveal_strlit("h");
    }
    let groups = &project.groups;
    let en = collect_live_enum_names(groups.as_slice());
    let mut files: Vec<GeneratedFile> = Vec::new();
    let mut tnames: Vec<String> = Vec::new();
    let mut cnames: Vec<String> = Vec::new();
    let mut i: usize = 0;
    while i < groups.len()
        invariant
            i <= groups@.len(),
            en@ == live_enum_names(groups@),
            files_view(files@) == cpp_groups_files(groups@.take(i as int), ns@, en@),
            tnames@ == all_live_table_names(groups@.take(i as int)),
            cnames@ == all_live_constant_names(groups@.take(i as int)),
        decreases groups.len() - i,
    {
        assert(groups@.take(i + 1).drop_last() =~= groups@.take(i as int));
        assert(groups@.take(i + 1).last() == groups@[i as int]);
        cpp_group(&groups[i], ns.as_str(), &en, &mut files, &mut tnames, &mut cnames);
        i = i + 1;
    }
    assert(groups@.take(i as int) =~= groups@);
    let all = gen_all_header(ns.as_str(), tnames.as_slice(), cnames.as_slice(), en.as_slice());
    push_file(&mut files, String::from_str("all_tpls.h"), all);
    proof {
        reveal_strlit("all_tpls.h");
    }
    ExportPlan {
        output_dir: join_path(project.export_root(), code_output.as_str()),
        extension: String::from_str("h"),
        line_ending: export_line_ending(&project.config.export),
        encoding: export_encoding(&project.config.export),
        files,
    }
}

} // verus!
