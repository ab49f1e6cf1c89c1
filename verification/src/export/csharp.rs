//! C# generator: a class per table and constant set and an enum per enum,
//! shared by the server (.NET) and client (Unity, Godot) runtimes, which
//! differ in the columns they see.

use vstd::prelude::*;
use crate::export::{
    int_string, int_text, parse_i64, spec_camel_case, spec_parse_i64, spec_pascal_case,
    to_camel_case, to_pascal_case,
};
use crate::export::cpp::{live_constants, live_enums, live_tables, named_in, pairs_view};
use crate::export::{
    cfg_encoding, cfg_line_ending, collect_live_enum_names, export_encoding, export_line_ending, files_view,
    live_enum_names, string_or, text_or, ExportPlan, GeneratedFile,
};
use crate::model::{join_path, path_join, ExportConfig, Group, Project};
use crate::model::{
    const_entries_view, enum_entries_view, field_defs_view, ConstEntry, ConstEntryView, Constant,
    ConstantView, EnumDef, EnumDefView, EnumEntry, EnumEntryView, Export, FieldDef, FieldDefView,
    Table, TableView,
};
use crate::tblschema::{join_with, join_with_strings};
use crate::tbl_str::views_of;
use crate::text::{chars_of, decimal, decimal_string, push_char};
use crate::types::{
    lemma_parse_param_count, param_count, spec_parse_type, BaseType, Paradigm, TblType, TypeShape,
};

verus! {

/// Runtime of the generated C# code.
#[derive(Debug, Clone, Copy, PartialEq, Eq, Structural)]
pub enum CSharpRuntime {
    Dotnet,
    Unity,
    Godot,
}

impl CSharpRuntime {
    pub open spec fn spec_is_server(self) -> bool {
        self == CSharpRuntime::Dotnet
    }

    /// Whether the runtime is the server's.
    pub fn is_server(self) -> (r: bool)
        ensures
            r == self.spec_is_server(),
    {
        match self {
            CSharpRuntime::Dotnet => true,
            _ => false,
        }
    }

    pub open spec fn spec_default_namespace(self) -> Seq<char> {
        match self {
            CSharpRuntime::Dotnet => "Game.Config.Server"@,
            _ => "Game.Config.Client"@,
        }
    }

    pub open spec fn spec_default_code_output(self) -> Seq<char> {
        match self {
            CSharpRuntime::Dotnet => "gen/server/csharp"@,
            CSharpRuntime::Unity => "gen/client/csharp_unity"@,
            CSharpRuntime::Godot => "gen/client/csharp_godot"@,
        }
    }

    /// Namespace when the configuration names none.
    pub fn default_namespace(self) -> (r: &'static str)
        ensures
            r@ == self.spec_default_namespace(),
    {
        match self {
            CSharpRuntime::Dotnet => "Game.Config.Server",
            CSharpRuntime::Unity => "Game.Config.Client",
            CSharpRuntime::Godot => "Game.Config.Client",
        }
    }

    /// Output directory when the configuration names none.
    pub fn default_code_output(self) -> (r: &'static str)
        ensures
            r@ == self.spec_default_code_output(),
    {
        match self {
            CSharpRuntime::Dotnet => "gen/server/csharp",
            CSharpRuntime::Unity => "gen/client/csharp_unity",
            CSharpRuntime::Godot => "gen/client/csharp_godot",
        }
    }
}

/// Whether a column or entry exported to `e` appears in `runtime`.
pub open spec fn cs_visible(e: Export, runtime: CSharpRuntime) -> bool {
    if runtime.spec_is_server() {
        e == Export::ClientServer || e == Export::ServerOnly
    } else {
        e == Export::ClientServer || e == Export::ClientOnly
    }
}

fn export_visible(e: &Export, runtime: CSharpRuntime) -> (r: bool)
    ensures
        r == cs_visible(*e, runtime),
{
    if runtime.is_server() {
        match e {
            Export::ClientServer | Export::ServerOnly => true,
            _ => false,
        }
    } else {
        match e {
            Export::ClientServer | Export::ClientOnly => true,
            _ => false,
        }
    }
}

pub open spec fn spec_cs_base_type(bt: BaseType) -> Seq<char> {
    match bt {
        BaseType::Int => "int"@,
        BaseType::Long => "long"@,
        BaseType::Float => "float"@,
        BaseType::Double => "double"@,
        BaseType::Str | BaseType::Txt => "string"@,
        BaseType::Bool => "bool"@,
    }
}

/// C# type of a base type.
pub fn cs_base_type(bt: BaseType) -> (r: &'static str)
    ensures
        r@ == spec_cs_base_type(bt),
{
    match bt {
        BaseType::Int => "int",
        BaseType::Long => "long",
        BaseType::Float => "float",
        BaseType::Double => "double",
        BaseType::Str | BaseType::Txt => "string",
        BaseType::Bool => "bool",
    }
}

pub open spec fn spec_cs_base_default(bt: BaseType) -> Seq<char> {
    match bt {
        BaseType::Int | BaseType::Long => "0"@,
        BaseType::Float => "0f"@,
        BaseType::Double => "0d"@,
        BaseType::Str | BaseType::Txt => "\u{22}\u{22}"@,
        BaseType::Bool => "false"@,
    }
}

/// Initializer of a member of a base type.
pub fn cs_base_default(bt: BaseType) -> (r: &'static str)
    ensures
        r@ == spec_cs_base_default(bt),
{
    match bt {
        BaseType::Int | BaseType::Long => "0",
        BaseType::Float => "0f",
        BaseType::Double => "0d",
        BaseType::Str | BaseType::Txt => "\u{22}\u{22}",
        BaseType::Bool => "false",
    }
}

pub open spec fn spec_cs_parse_fn(bt: BaseType) -> Seq<char> {
    match bt {
        BaseType::Int => "TblParse.ParseInt32"@,
        BaseType::Long => "TblParse.ParseInt64"@,
        BaseType::Float => "TblParse.ParseFloat"@,
        BaseType::Double => "TblParse.ParseDouble"@,
        BaseType::Str | BaseType::Txt => "TblParse.ParseStr"@,
        BaseType::Bool => "TblParse.ParseBool"@,
    }
}

/// Runtime function that reads a base type.
pub fn cs_base_parse_fn(bt: BaseType) -> (r: &'static str)
    ensures
        r@ == spec_cs_parse_fn(bt),
{
    match bt {
        BaseType::Int => "TblParse.ParseInt32",
        BaseType::Long => "TblParse.ParseInt64",
        BaseType::Float => "TblParse.ParseFloat",
        BaseType::Double => "TblParse.ParseDouble",
        BaseType::Str | BaseType::Txt => "TblParse.ParseStr",
        BaseType::Bool => "TblParse.ParseBool",
    }
}

pub open spec fn cs_types(ps: Seq<BaseType>) -> Seq<char> {
    join_with(ps.map_values(|b: BaseType| spec_cs_base_type(b)), ", "@)
}

pub open spec fn cs_fns(ps: Seq<BaseType>) -> Seq<char> {
    join_with(ps.map_values(|b: BaseType| spec_cs_parse_fn(b)), ", "@)
}

pub open spec fn cs_tuple_type(ps: Seq<BaseType>) -> Seq<char> {
    "Tuple"@ + decimal(ps.len()) + "<"@ + cs_types(ps) + ">"@
}

pub open spec fn cs_shape_type(t: TypeShape, enum_names: Seq<String>) -> Seq<char> {
    let p = t.params;
    let b = |i: int| spec_cs_base_type(p[i]);
    match t.paradigm {
        Paradigm::Base => b(0),
        Paradigm::Tuple2 | Paradigm::Tuple3 | Paradigm::Tuple4 => cs_tuple_type(p),
        Paradigm::List => "List<"@ + b(0) + ">"@,
        Paradigm::SetOf => "HashSet<"@ + b(0) + ">"@,
        Paradigm::MapOf => "Dictionary<"@ + b(0) + ", "@ + b(1) + ">"@,
        Paradigm::ListTuple2 | Paradigm::ListTuple3 | Paradigm::ListTuple4 => "List<"@
            + cs_tuple_type(p) + ">"@,
        Paradigm::MapTuple2 | Paradigm::MapTuple3 | Paradigm::MapTuple4 => "Dictionary<"@ + b(0)
            + ", "@ + cs_tuple_type(p.skip(1)) + ">"@,
        Paradigm::MapList => "Dictionary<"@ + b(0) + ", List<"@ + b(1) + ">>"@,
        Paradigm::Ref => match t.ref_name {
            Some(n) => if named_in(enum_names, n) {
                n + "Enum"@
            } else {
                "int"@
            },
            None => "int"@,
        },
    }
}

/// C# type of a column of type `ty`; a type that does not parse is a
/// `string`.
pub open spec fn spec_cs_field_type(ty: Seq<char>, enum_names: Seq<String>) -> Seq<char> {
    match spec_parse_type(ty) {
        None => "string"@,
        Some(t) => cs_shape_type(t, enum_names),
    }
}

/// Initializer of a member of type `ty`.
pub open spec fn spec_cs_field_default(ty: Seq<char>, enum_names: Seq<String>) -> Seq<char> {
    match spec_parse_type(ty) {
        Some(t) => if t.paradigm == Paradigm::Base {
            spec_cs_base_default(t.params[0])
        } else if t.paradigm == Paradigm::Ref {
            match t.ref_name {
                Some(n) => if named_in(enum_names, n) {
                    "default"@
                } else {
                    "0"@
                },
                None => "0"@,
            }
        } else {
            "new()"@
        },
        None => "\u{22}\u{22}"@,
    }
}

/// C# expression reading the string variable `raw` as a value of type `t`.
pub open spec fn spec_cs_parse_expr(
    raw: Seq<char>,
    t: TypeShape,
    sep: Seq<char>,
    enum_names: Seq<String>,
) -> Seq<char> {
    let p = t.params;
    let b = |i: int| spec_cs_base_type(p[i]);
    let f = |i: int| spec_cs_parse_fn(p[i]);
    let q = p.skip(1);
    match t.paradigm {
        Paradigm::Base => f(0) + "("@ + raw + ")"@,
        Paradigm::Tuple2 | Paradigm::Tuple3 | Paradigm::Tuple4 => "TblParse.ParseTuple"@ + decimal(
            p.len(),
        ) + "<"@ + cs_types(p) + ">("@ + raw + ", "@ + sep + ".Tuple"@ + decimal(p.len()) + ", "@
            + cs_fns(p) + ")"@,
        Paradigm::List => "TblParse.ParseList<"@ + b(0) + ">("@ + raw + ", "@ + sep + ".List, "@ + f(
            0,
        ) + ")"@,
        Paradigm::SetOf => "TblParse.ParseSet<"@ + b(0) + ">("@ + raw + ", "@ + sep + ".Set, "@ + f(
            0,
        ) + ")"@,
        Paradigm::MapOf => "TblParse.ParseMap<"@ + b(0) + ", "@ + b(1) + ">("@ + raw + ", "@ + sep
            + ".MapKv, "@ + sep + ".MapEntry, "@ + f(0) + ", "@ + f(1) + ")"@,
        Paradigm::ListTuple2 | Paradigm::ListTuple3 | Paradigm::ListTuple4 => "TblParse.ParseList<"@
            + cs_tuple_type(p) + ">("@ + raw + ", "@ + sep + ".ListTuple"@ + decimal(p.len())
            + "List, s => TblParse.ParseTuple"@ + decimal(p.len()) + "<"@ + cs_types(p) + ">(s, "@
            + sep + ".ListTuple"@ + decimal(p.len()) + "Tuple, "@ + cs_fns(p) + "))"@,
        Paradigm::MapTuple2 | Paradigm::MapTuple3 | Paradigm::MapTuple4 => "TblParse.ParseMap<"@
            + b(0) + ", "@ + cs_tuple_type(q) + ">("@ + raw + ", "@ + sep + ".MapTuple"@ + decimal(
            q.len(),
        ) + "Kv, "@ + sep + ".MapTuple"@ + decimal(q.len()) + "Entry, "@ + f(0)
            + ", s => TblParse.ParseTuple"@ + decimal(q.len()) + "<"@ + cs_types(q) + ">(s, "@ + sep
            + ".MapTuple"@ + decimal(q.len()) + "Tuple, "@ + cs_fns(q) + "))"@,
        Paradigm::MapList => "TblParse.ParseMap<"@ + b(0) + ", List<"@ + b(1) + ">>("@ + raw + ", "@
            + sep + ".MapListKv, "@ + sep + ".MapListEntry, "@ + f(0) + ", s => TblParse.ParseList<"@
            + b(1) + ">(s, "@ + sep + ".MapListItem, "@ + f(1) + "))"@,
        Paradigm::Ref => match t.ref_name {
            Some(n) => if named_in(enum_names, n) {
                "("@ + n + "Enum)TblParse.ParseInt32("@ + raw + ")"@
            } else {
                "TblParse.ParseInt32("@ + raw + ")"@
            },
            None => "TblParse.ParseInt32("@ + raw + ")"@,
        },
    }
}

fn join_parts(ps: &Vec<BaseType>, off: usize, fns: bool) -> (r: String)
    requires
        off <= ps@.len(),
    ensures
        r@ == if fns {
            cs_fns(ps@.skip(off as int))
        } else {
            cs_types(ps@.skip(off as int))
        },
{
    let ghost q = ps@.skip(off as int);
    let ghost names = if fns {
        q.map_values(|b: BaseType| spec_cs_parse_fn(b))
    } else {
        q.map_values(|b: BaseType| spec_cs_base_type(b))
    };
    let mut v: Vec<String> = Vec::new();
    let mut i: usize = off;
    while i < ps.len()
        invariant
            off <= i <= ps@.len(),
            q == ps@.skip(off as int),
            names == (if fns {
                q.map_values(|b: BaseType| spec_cs_parse_fn(b))
            } else {
                q.map_values(|b: BaseType| spec_cs_base_type(b))
            }),
            views_of(v@) == names.take(i - off),
        decreases ps.len() - i,
    {
        let w = if fns {
            cs_base_parse_fn(ps[i])
        } else {
            cs_base_type(ps[i])
        };
        let ghost prev = views_of(v@);
        v.push(String::from_str(w));
        assert(q[i - off] == ps@[i as int]);
        assert(views_of(v@) =~= prev.push(names[i - off]));
        assert(names.take(i - off + 1) =~= names.take(i - off).push(names[i - off]));
        i = i + 1;
    }
    assert(names.take(i - off) =~= names);
    join_with_strings(&v, ", ")
}

fn tuple_type_of(ps: &Vec<BaseType>, off: usize) -> (r: String)
    requires
        off <= ps@.len(),
    ensures
        r@ == cs_tuple_type(ps@.skip(off as int)),
{
    let n = decimal_string((ps.len() - off) as u64);
    String::from_str("Tuple").concat(n.as_str()).concat("<").concat(join_parts(ps, off, false).as_str()).concat(">")
}

fn in_names(names: &[String], name: &String) -> (r: bool)
    ensures
        r == named_in(names@, name@),
{
    let mut i: usize = 0;
    while i < names.len()
        invariant
            i <= names@.len(),
            forall|k: int| 0 <= k < i ==> names@[k]@ != name@,
        decreases names.len() - i,
    {
        if names[i] == *name {
            return true;
        }
        i = i + 1;
    }
    false
}

/// C# type of a column of type `tbl_type` (see [`spec_cs_field_type`]).
pub fn cs_field_type(tbl_type: &str, enum_names: &[String]) -> (r: String)
    ensures
        r@ == spec_cs_field_type(tbl_type@, enum_names@),
{
    let t = match TblType::parse(tbl_type) {
        None => return String::from_str("string"),
        Some(t) => t,
    };
    proof {
        lemma_parse_param_count(tbl_type@);
    }
    let p = &t.params;
    proof {
        assert(p@.skip(0) =~= p@);
    }
    let s = |x: &str| -> (r: String)
        ensures
            r@ == x@,
        { String::from_str(x) };
    match t.paradigm {
        Paradigm::Base => s(cs_base_type(p[0])),
        Paradigm::Tuple2 | Paradigm::Tuple3 | Paradigm::Tuple4 => tuple_type_of(p, 0),
        Paradigm::List => s("List<").concat(cs_base_type(p[0])).concat(">"),
        Paradigm::SetOf => s("HashSet<").concat(cs_base_type(p[0])).concat(">"),
        Paradigm::MapOf => s("Dictionary<").concat(cs_base_type(p[0])).concat(", ").concat(
            cs_base_type(p[1]),
        ).concat(">"),
        Paradigm::ListTuple2 | Paradigm::ListTuple3 | Paradigm::ListTuple4 => s("List<").concat(
            tuple_type_of(p, 0).as_str(),
        ).concat(">"),
        Paradigm::MapTuple2 | Paradigm::MapTuple3 | Paradigm::MapTuple4 => s("Dictionary<").concat(
            cs_base_type(p[0]),
        ).concat(", ").concat(tuple_type_of(p, 1).as_str()).concat(">"),
        Paradigm::MapList => s("Dictionary<").concat(cs_base_type(p[0])).concat(", List<").concat(
            cs_base_type(p[1]),
        ).concat(">>"),
        Paradigm::Ref => match &t.ref_name {
            Some(n) => if in_names(enum_names, n) {
                n.clone().concat("Enum")
            } else {
                s("int")
            },
            None => s("int"),
        },
    }
}

/// Initializer of a member of type `tbl_type` (see
/// [`spec_cs_field_default`]).
pub fn cs_field_default(tbl_type: &str, enum_names: &[String]) -> (r: &'static str)
    ensures
        r@ == spec_cs_field_default(tbl_type@, enum_names@),
{
    match TblType::parse(tbl_type) {
        Some(t) => {
            proof {
                lemma_parse_param_count(tbl_type@);
            }
            match t.paradigm {
                Paradigm::Base => cs_base_default(t.params[0]),
                Paradigm::Ref => match &t.ref_name {
                    Some(n) => if in_names(enum_names, n) {
                        "default"
                    } else {
                        "0"
                    },
                    None => "0",
                },
                _ => "new()",
            }
        },
        None => "\u{22}\u{22}",
    }
}

/// C# expression reading `raw_var` as a value of type `t` (see
/// [`spec_cs_parse_expr`]).
pub fn cs_parse_expr(raw_var: &str, t: &TblType, sep: &str, enum_names: &[String]) -> (r: String)
    requires
        t.params@.len() == param_count(t.paradigm),
    ensures
        r@ == spec_cs_parse_expr(raw_var@, t@, sep@, enum_names@),
{
    let p = &t.params;
    proof {
        assert(p@.skip(0) =~= p@);
    }
    let s = |x: &str| -> (r: String)
        ensures
            r@ == x@,
        { String::from_str(x) };
    match t.paradigm {
        Paradigm::Base => s(cs_base_parse_fn(p[0])).concat("(").concat(raw_var).concat(")"),
        Paradigm::Tuple2 | Paradigm::Tuple3 | Paradigm::Tuple4 => {
            let n = decimal_string(p.len() as u64);
            s("TblParse.ParseTuple").concat(n.as_str()).concat("<").concat(
                join_parts(p, 0, false).as_str(),
            ).concat(">(").concat(raw_var).concat(", ").concat(sep).concat(".Tuple").concat(
                n.as_str(),
            ).concat(", ").concat(join_parts(p, 0, true).as_str()).concat(")")
        },
        Paradigm::List => s("TblParse.ParseList<").concat(cs_base_type(p[0])).concat(">(").concat(
            raw_var,
        ).concat(", ").concat(sep).concat(".List, ").concat(cs_base_parse_fn(p[0])).concat(")"),
        Paradigm::SetOf => s("TblParse.ParseSet<").concat(cs_base_type(p[0])).concat(">(").concat(
            raw_var,
        ).concat(", ").concat(sep).concat(".Set, ").concat(cs_base_parse_fn(p[0])).concat(")"),
        Paradigm::MapOf => s("TblParse.ParseMap<").concat(cs_base_type(p[0])).concat(", ").concat(
            cs_base_type(p[1]),
        ).concat(">(").concat(raw_var).concat(", ").concat(sep).concat(".MapKv, ").concat(
            sep,
        ).concat(".MapEntry, ").concat(cs_base_parse_fn(p[0])).concat(", ").concat(
            cs_base_parse_fn(p[1]),
        ).concat(")"),
        Paradigm::ListTuple2 | Paradigm::ListTuple3 | Paradigm::ListTuple4 => {
            let n = decimal_string(p.len() as u64);
            s("TblParse.ParseList<").concat(tuple_type_of(p, 0).as_str()).concat(">(").concat(
                raw_var,
            ).concat(", ").concat(sep).concat(".ListTuple").concat(n.as_str()).concat(
                "List, s => TblParse.ParseTuple",
            ).concat(n.as_str()).concat("<").concat(join_parts(p, 0, false).as_str()).concat(
                ">(s, ",
            ).concat(sep).concat(".ListTuple").concat(n.as_str()).concat("Tuple, ").concat(
                join_parts(p, 0, true).as_str(),
            ).concat("))")
        },
        Paradigm::MapTuple2 | Paradigm::MapTuple3 | Paradigm::MapTuple4 => {
            let n = decimal_string((p.len() - 1) as u64);
            s("TblParse.ParseMap<").concat(cs_base_type(p[0])).concat(", ").concat(
                tuple_type_of(p, 1).as_str(),
            ).concat(">(").concat(raw_var).concat(", ").concat(sep).concat(".MapTuple").concat(
                n.as_str(),
            ).concat("Kv, ").concat(sep).concat(".MapTuple").concat(n.as_str()).concat(
                "Entry, ",
            ).concat(cs_base_parse_fn(p[0])).concat(", s => TblParse.ParseTuple").concat(
                n.as_str(),
            ).concat("<").concat(join_parts(p, 1, false).as_str()).concat(">(s, ").concat(
                sep,
            ).concat(".MapTuple").concat(n.as_str()).concat("Tuple, ").concat(
                join_parts(p, 1, true).as_str(),
            ).concat("))")
        },
        Paradigm::MapList => s("TblParse.ParseMap<").concat(cs_base_type(p[0])).concat(
            ", List<",
        ).concat(cs_base_type(p[1])).concat(">>(").concat(raw_var).concat(", ").concat(sep).concat(
            ".MapListKv, ",
        ).concat(sep).concat(".MapListEntry, ").concat(cs_base_parse_fn(p[0])).concat(
            ", s => TblParse.ParseList<",
        ).concat(cs_base_type(p[1])).concat(">(s, ").concat(sep).concat(".MapListItem, ").concat(
            cs_base_parse_fn(p[1]),
        ).concat("))"),
        Paradigm::Ref => match &t.ref_name {
            Some(n) => if in_names(enum_names, n) {
                s("(").concat(n.as_str()).concat("Enum)TblParse.ParseInt32(").concat(raw_var).concat(
                    ")",
                )
            } else {
                s("TblParse.ParseInt32(").concat(raw_var).concat(")")
            },
            None => s("TblParse.ParseInt32(").concat(raw_var).concat(")"),
        },
    }
}

// ───────────────────────── classes ─────────────────────────

/// Name and type of each column visible in `runtime`.
pub open spec fn cs_members(fs: Seq<FieldDefView>, runtime: CSharpRuntime) -> Seq<(Seq<char>, Seq<char>)>
    decreases fs.len(),
{
    if fs.len() == 0 {
        seq![]
    } else if cs_visible(fs.last().export, runtime) {
        cs_members(fs.drop_last(), runtime).push((fs.last().name, fs.last().tbl_type))
    } else {
        cs_members(fs.drop_last(), runtime)
    }
}

/// Name and type of each named entry visible in `runtime`.
pub open spec fn cs_const_members(es: Seq<ConstEntryView>, runtime: CSharpRuntime) -> Seq<
    (Seq<char>, Seq<char>),
>
    decreases es.len(),
{
    if es.len() == 0 {
        seq![]
    } else if cs_visible(es.last().export, runtime) && es.last().name.len() > 0 {
        cs_const_members(es.drop_last(), runtime).push((es.last().name, es.last().tbl_type))
    } else {
        cs_const_members(es.drop_last(), runtime)
    }
}

pub open spec fn cs_member_lines(ms: Seq<(Seq<char>, Seq<char>)>, enum_names: Seq<String>) -> Seq<char>
    decreases ms.len(),
{
    if ms.len() == 0 {
        seq![]
    } else {
        let (name, ty) = ms.last();
        cs_member_lines(ms.drop_last(), enum_names) + "        public "@ + spec_cs_field_type(
            ty,
            enum_names,
        ) + " "@ + spec_pascal_case(name) + " = "@ + spec_cs_field_default(ty, enum_names)
            + ";\n"@
    }
}

pub open spec fn cs_parse_lines(ms: Seq<(Seq<char>, Seq<char>)>, enum_names: Seq<String>) -> Seq<char>
    decreases ms.len(),
{
    if ms.len() == 0 {
        seq![]
    } else {
        let (name, ty) = ms.last();
        let camel = spec_camel_case(name);
        let pascal = spec_pascal_case(name);
        cs_parse_lines(ms.drop_last(), enum_names) + match spec_parse_type(ty) {
            Some(t) => "            { var raw = Get(\u{22}"@ + camel
                + "\u{22}); if (!string.IsNullOrEmpty(raw)) obj."@ + pascal + " = "@ + spec_cs_parse_expr(
                "raw"@,
                t,
                "sep"@,
                enum_names,
            ) + "; }\n"@,
            None => "            obj."@ + pascal + " = Get(\u{22}"@ + camel + "\u{22});\n"@,
        }
    }
}

fn members_of_fields(fields: &Vec<FieldDef>, runtime: CSharpRuntime) -> (r: Vec<(String, String)>)
    ensures
        pairs_view(r@) == cs_members(field_defs_view(fields@), runtime),
{
    let ghost fv = field_defs_view(fields@);
    let mut out: Vec<(String, String)> = Vec::new();
    let mut i: usize = 0;
    assert(fv.take(0) =~= Seq::<FieldDefView>::empty());
    while i < fields.len()
        invariant
            i <= fields@.len(),
            fv == field_defs_view(fields@),
            pairs_view(out@) == cs_members(fv.take(i as int), runtime),
        decreases fields.len() - i,
    {
        assert(fv.take(i + 1).drop_last() =~= fv.take(i as int));
        let f = &fields[i];
        assert(fv.take(i + 1).last() == f@);
        if export_visible(&f.export, runtime) {
            let ghost prev = pairs_view(out@);
            out.push((f.name.clone(), f.tbl_type.clone()));
            assert(pairs_view(out@) =~= prev.push((f.name@, f.tbl_type@)));
        }
        i = i + 1;
    }
    assert(fv.take(i as int) =~= fv);
    out
}

fn members_of_entries(es: &Vec<ConstEntry>, runtime: CSharpRuntime) -> (r: Vec<(String, String)>)
    ensures
        pairs_view(r@) == cs_const_members(const_entries_view(es@), runtime),
{
    let ghost ev = const_entries_view(es@);
    let mut out: Vec<(String, String)> = Vec::new();
    let mut i: usize = 0;
    assert(ev.take(0) =~= Seq::<ConstEntryView>::empty());
    while i < es.len()
        invariant
            i <= es@.len(),
            ev == const_entries_view(es@),
            pairs_view(out@) == cs_const_members(ev.take(i as int), runtime),
        decreases es.len() - i,
    {
        assert(ev.take(i + 1).drop_last() =~= ev.take(i as int));
        let e = &es[i];
        assert(ev.take(i + 1).last() == e@);
        if export_visible(&e.export, runtime) && !e.name.as_str().is_empty() {
            let ghost prev = pairs_view(out@);
            out.push((e.name.clone(), e.tbl_type.clone()));
            assert(pairs_view(out@) =~= prev.push((e.name@, e.tbl_type@)));
        }
        i = i + 1;
    }
    assert(ev.take(i as int) =~= ev);
    out
}

fn member_lines_of(ms: &Vec<(String, String)>, enum_names: &[String]) -> (r: String)
    ensures
        r@ == cs_member_lines(pairs_view(ms@), enum_names@),
{
    let ghost mv = pairs_view(ms@);
    let mut s = String::new();
    let mut i: usize = 0;
    assert(mv.take(0) =~= Seq::<(Seq<char>, Seq<char>)>::empty());
    while i < ms.len()
        invariant
            i <= ms@.len(),
            mv == pairs_view(ms@),
            s@ == cs_member_lines(mv.take(i as int), enum_names@),
        decreases ms.len() - i,
    {
        assert(mv.take(i + 1).drop_last() =~= mv.take(i as int));
        let (name, ty) = &ms[i];
        assert(mv.take(i + 1).last() == (name@, ty@));
        s = s.concat("        public ").concat(cs_field_type(ty.as_str(), enum_names).as_str()).concat(
            " ",
        ).concat(to_pascal_case(name.as_str()).as_str()).concat(" = ").concat(
            cs_field_default(ty.as_str(), enum_names),
        ).concat(";\n");
        i = i + 1;
    }
    assert(mv.take(i as int) =~= mv);
    s
}

fn parse_lines_of(ms: &Vec<(String, String)>, enum_names: &[String]) -> (r: String)
    ensures
        r@ == cs_parse_lines(pairs_view(ms@), enum_names@),
{
    let ghost mv = pairs_view(ms@);
    let mut s = String::new();
    let mut i: usize = 0;
    assert(mv.take(0) =~= Seq::<(Seq<char>, Seq<char>)>::empty());
    while i < ms.len()
        invariant
            i <= ms@.len(),
            mv == pairs_view(ms@),
            s@ == cs_parse_lines(mv.take(i as int), enum_names@),
        decreases ms.len() - i,
    {
        assert(mv.take(i + 1).drop_last() =~= mv.take(i as int));
        let (name, ty) = &ms[i];
        assert(mv.take(i + 1).last() == (name@, ty@));
        let camel = to_camel_case(name.as_str());
        let pascal = to_pascal_case(name.as_str());
        match TblType::parse(ty.as_str()) {
            Some(t) => {
                proof {
                    lemma_parse_param_count(ty@);
                }
                s = s.concat("            { var raw = Get(\u{22}").concat(camel.as_str()).concat(
                    "\u{22}); if (!string.IsNullOrEmpty(raw)) obj.",
                ).concat(pascal.as_str()).concat(" = ").concat(
                    cs_parse_expr("raw", &t, "sep", enum_names).as_str(),
                ).concat("; }\n");
            },
            None => {
                s = s.concat("            obj.").concat(pascal.as_str()).concat(" = Get(\u{22}").concat(
                    camel.as_str(),
                ).concat("\u{22});\n");
            },
        }
        i = i + 1;
    }
    assert(mv.take(i as int) =~= mv);
    s
}

/// Class of a table: a class `<Name>Tpl` of the columns visible in
/// `runtime`, a map of the records by id, its registration and a reader of a
/// row.
pub open spec fn spec_gen_table_class(
    t: TableView,
    ns: Seq<char>,
    runtime: CSharpRuntime,
    enum_names: Seq<String>,
) -> Seq<char> {
    let cls = t.name + "Tpl"@;
    let ms = cs_members(t.fields, runtime);
    "// Auto-generated by tablet. Do not edit.\nusing System.Collections.Generic;\n\nnamespace "@ + ns + "\n{\n    public sealed class "@ + cls + "\n    {\n"@ + cs_member_lines(ms, enum_names) + "\n        static readonly Dictionary<int, "@ + cls + "> _data = new();\n        public static "@ + cls + " Get(int id) => _data.TryGetValue(id, out var v) ? v : null;\n        public static IReadOnlyDictionary<int, "@ + cls + "> All => _data;\n\n        static "@ + cls + "() {\n            TblRegistry.Tables[\u{22}"@ + t.name + "\u{22}] = (rows, sep) => {\n                _data.Clear();\n                foreach (var r in rows) {\n                    var obj = Parse(r, sep);\n                    _data[obj.Id] = obj;\n                }\n            };\n        }\n\n        static "@ + cls + " Parse(Dictionary<string, string> row, SepConfig sep) {\n            var obj = new "@ + cls + "();\n            string Get(string k) => row.TryGetValue(k, out var v) ? v : string.Empty;\n"@ + cs_parse_lines(ms, enum_names) + "            return obj;\n        }\n    }\n}\n"@
}

pub fn gen_table_class(table: &Table, ns: &str, runtime: CSharpRuntime, enum_names: &[String]) -> (r: String)
    ensures
        r@ == spec_gen_table_class(table@, ns@, runtime, enum_names@),
{
    let ms = members_of_fields(&table.schema.fields, runtime);
    let members = member_lines_of(&ms, enum_names);
    let parses = parse_lines_of(&ms, enum_names);
    let cls = table.name.clone().concat("Tpl");
    let mut s = String::new();
    s = s.concat("// Auto-generated by tablet. Do not edit.\nusing System.Collections.Generic;\n\nnamespace ");
    s = s.concat(ns);
    s = s.concat("\n{\n    public sealed class ");
    s = s.concat(cls.as_str());
    s = s.concat("\n    {\n");
    s = s.concat(members.as_str());
    s = s.concat("\n        static readonly Dictionary<int, ");
    s = s.concat(cls.as_str());
    s = s.concat("> _data = new();\n        public static ");
    s = s.concat(cls.as_str());
    s = s.concat(" Get(int id) => _data.TryGetValue(id, out var v) ? v : null;\n        public static IReadOnlyDictionary<int, ");
    s = s.concat(cls.as_str());
    s = s.concat("> All => _data;\n\n        static ");
    s = s.concat(cls.as_str());
    s = s.concat("() {\n            TblRegistry.Tables[\u{22}");
    s = s.concat(table.name.as_str());
    s = s.concat("\u{22}] = (rows, sep) => {\n                _data.Clear();\n                foreach (var r in rows) {\n                    var obj = Parse(r, sep);\n                    _data[obj.Id] = obj;\n                }\n            };\n        }\n\n        static ");
    s = s.concat(cls.as_str());
    s = s.concat(" Parse(Dictionary<string, string> row, SepConfig sep) {\n            var obj = new ");
    s = s.concat(cls.as_str());
    s = s.concat("();\n            string Get(string k) => row.TryGetValue(k, out var v) ? v : string.Empty;\n");
    s = s.concat(parses.as_str());
    s = s.concat("            return obj;\n        }\n    }\n}\n");
    s
}

/// Class of a constant set: a class `<Name>Tpl` of the named entries
/// visible in `runtime`, its registration and a reader of its row.
pub open spec fn spec_gen_constant_class(
    c: ConstantView,
    ns: Seq<char>,
    runtime: CSharpRuntime,
    enum_names: Seq<String>,
) -> Seq<char> {
    let cls = c.name + "Tpl"@;
    let ms = cs_const_members(c.entries, runtime);
    "// Auto-generated by tablet. Do not edit.\nusing System.Collections.Generic;\n\nnamespace "@ + ns + "\n{\n    public sealed class "@ + cls + "\n    {\n"@ + cs_member_lines(ms, enum_names) + "\n        static "@ + cls + " _data = new();\n        public static "@ + cls + " Get() => _data;\n\n        static "@ + cls + "() {\n            TblRegistry.Constants[\u{22}"@ + c.name + "\u{22}] = (row, sep) => { _data = Parse(row, sep); };\n        }\n\n        static "@ + cls + " Parse(Dictionary<string, string> row, SepConfig sep) {\n            var obj = new "@ + cls + "();\n            string Get(string k) => row.TryGetValue(k, out var v) ? v : string.Empty;\n"@ + cs_parse_lines(ms, enum_names) + "            return obj;\n        }\n    }\n}\n"@
}

pub fn gen_constant_class(constant: &Constant, ns: &str, runtime: CSharpRuntime, enum_names: &[String]) -> (r: String)
    ensures
        r@ == spec_gen_constant_class(constant@, ns@, runtime, enum_names@),
{
    let ms = members_of_entries(&constant.entries, runtime);
    let members = member_lines_of(&ms, enum_names);
    let parses = parse_lines_of(&ms, enum_names);
    let cls = constant.name.clone().concat("Tpl");
    let mut s = String::new();
    s = s.concat("// Auto-generated by tablet. Do not edit.\nusing System.Collections.Generic;\n\nnamespace ");
    s = s.concat(ns);
    s = s.concat("\n{\n    public sealed class ");
    s = s.concat(cls.as_str());
    s = s.concat("\n    {\n");
    s = s.concat(members.as_str());
    s = s.concat("\n        static ");
    s = s.concat(cls.as_str());
    s = s.concat(" _data = new();\n        public static ");
    s = s.concat(cls.as_str());
    s = s.concat(" Get() => _data;\n\n        static ");
    s = s.concat(cls.as_str());
    s = s.concat("() {\n            TblRegistry.Constants[\u{22}");
    s = s.concat(constant.name.as_str());
    s = s.concat("\u{22}] = (row, sep) => { _data = Parse(row, sep); };\n        }\n\n        static ");
    s = s.concat(cls.as_str());
    s = s.concat(" Parse(Dictionary<string, string> row, SepConfig sep) {\n            var obj = new ");
    s = s.concat(cls.as_str());
    s = s.concat("();\n            string Get(string k) => row.TryGetValue(k, out var v) ? v : string.Empty;\n");
    s = s.concat(parses.as_str());
    s = s.concat("            return obj;\n        }\n    }\n}\n");
    s
}

pub open spec fn escape_cs_char(c: char) -> Seq<char> {
    if c == '\\' {
        seq!['\\', '\\']
    } else if c == '\u{22}' {
        seq!['\\', '\u{22}']
    } else {
        seq![c]
    }
}

/// `s` with backslashes and double quotes escaped for a C# string literal.
pub open spec fn spec_escape_cs(s: Seq<char>) -> Seq<char>
    decreases s.len(),
{
    if s.len() == 0 {
        seq![]
    } else {
        spec_escape_cs(s.drop_last()) + escape_cs_char(s.last())
    }
}

pub fn escape_cs(s: &str) -> (r: String)
    ensures
        r@ == spec_escape_cs(s@),
{
    let cs = chars_of(s);
    let mut out = String::new();
    let mut i: usize = 0;
    while i < cs.len()
        invariant
            i <= cs@.len(),
            cs@ == s@,
            out@ == spec_escape_cs(cs@.take(i as int)),
        decreases cs.len() - i,
    {
        assert(cs@.take(i + 1).drop_last() =~= cs@.take(i as int));
        let c = cs[i];
        if c == '\\' || c == '\u{22}' {
            push_char(&mut out, '\\');
        }
        push_char(&mut out, c);
        assert(out@ =~= spec_escape_cs(cs@.take(i + 1)));
        i = i + 1;
    }
    assert(cs@.take(i as int) =~= cs@);
    out
}

pub open spec fn escape_xml_char(c: char) -> Seq<char> {
    if c == '&' {
        "&amp;"@
    } else if c == '<' {
        "&lt;"@
    } else if c == '>' {
        "&gt;"@
    } else {
        seq![c]
    }
}

/// `s` with `&`, `<` and `>` written as XML entities.
pub open spec fn spec_escape_xml_text(s: Seq<char>) -> Seq<char>
    decreases s.len(),
{
    if s.len() == 0 {
        seq![]
    } else {
        spec_escape_xml_text(s.drop_last()) + escape_xml_char(s.last())
    }
}

pub fn escape_xml(s: &str) -> (r: String)
    ensures
        r@ == spec_escape_xml_text(s@),
{
    let cs = chars_of(s);
    let mut out = String::new();
    let mut i: usize = 0;
    while i < cs.len()
        invariant
            i <= cs@.len(),
            cs@ == s@,
            out@ == spec_escape_xml_text(cs@.take(i as int)),
        decreases cs.len() - i,
    {
        assert(cs@.take(i + 1).drop_last() =~= cs@.take(i as int));
        let c = cs[i];
        if c == '&' {
            out = out.concat("&amp;");
        } else if c == '<' {
            out = out.concat("&lt;");
        } else if c == '>' {
            out = out.concat("&gt;");
        } else {
            push_char(&mut out, c);
        }
        i = i + 1;
    }
    assert(cs@.take(i as int) =~= cs@);
    out
}

/// Entries of an enum with an id and a name.
pub open spec fn cs_valid_entries(es: Seq<EnumEntryView>) -> Seq<EnumEntryView>
    decreases es.len(),
{
    if es.len() == 0 {
        seq![]
    } else if es.last().id.len() > 0 && es.last().name.len() > 0 {
        cs_valid_entries(es.drop_last()).push(es.last())
    } else {
        cs_valid_entries(es.drop_last())
    }
}

pub open spec fn cs_id_value(id: Seq<char>) -> int {
    match spec_parse_i64(id) {
        Some(v) => v,
        None => 0,
    }
}

pub open spec fn cs_enum_values(es: Seq<EnumEntryView>) -> Seq<char>
    decreases es.len(),
{
    if es.len() == 0 {
        seq![]
    } else {
        let e = es.last();
        cs_enum_values(es.drop_last()) + "        /// <summary>"@ + spec_escape_xml_text(e.desc)
            + "</summary>\n"@ + "        "@ + e.name + " = "@ + int_text(cs_id_value(e.id)) + ",\n"@
    }
}

pub open spec fn cs_enum_cases(es: Seq<EnumEntryView>, en: Seq<char>) -> Seq<char>
    decreases es.len(),
{
    if es.len() == 0 {
        seq![]
    } else {
        let e = es.last();
        cs_enum_cases(es.drop_last(), en) + "            "@ + en + "."@ + e.name + " => \u{22}"@
            + spec_escape_cs(e.desc) + "\u{22},\n"@
    }
}

/// File of an enum: `enum <Name>Enum` of the entries with an id and a name,
/// and an extension giving each one's description.
pub open spec fn spec_gen_enum_file(e: EnumDefView, ns: Seq<char>) -> Seq<char> {
    let en = e.name + "Enum"@;
    let valid = cs_valid_entries(e.entries);
    "// Auto-generated by tablet. Do not edit.\n\nnamespace "@ + ns + "\n{\n    public enum "@ + en + " : int\n    {\n"@ + cs_enum_values(valid) + "    }\n\n    public static class "@ + en + "Ext\n    {\n        public static string GetDesc(this "@ + en + " v) => v switch\n        {\n"@ + cs_enum_cases(valid, en) + "            _ => \u{22}\u{22},\n        };\n    }\n}\n"@
}

fn cs_valid_of(es: &Vec<EnumEntry>) -> (r: Vec<&EnumEntry>)
    ensures
        r@.map_values(|e: &EnumEntry| e@) == cs_valid_entries(enum_entries_view(es@)),
{
    let ghost ev = enum_entries_view(es@);
    let mut out: Vec<&EnumEntry> = Vec::new();
    let mut i: usize = 0;
    assert(ev.take(0) =~= Seq::<EnumEntryView>::empty());
    while i < es.len()
        invariant
            i <= es@.len(),
            ev == enum_entries_view(es@),
            out@.map_values(|e: &EnumEntry| e@) == cs_valid_entries(ev.take(i as int)),
        decreases es.len() - i,
    {
        assert(ev.take(i + 1).drop_last() =~= ev.take(i as int));
        let e = &es[i];
        assert(ev.take(i + 1).last() == e@);
        if !e.id.as_str().is_empty() && !e.name.as_str().is_empty() {
            let ghost prev = out@.map_values(|e: &EnumEntry| e@);
            out.push(e);
            assert(out@.map_values(|e: &EnumEntry| e@) =~= prev.push(e@));
        }
        i = i + 1;
    }
    assert(ev.take(i as int) =~= ev);
    out
}

fn id_of(id: &str) -> (r: i64)
    ensures
        r as int == cs_id_value(id@),
{
    let cs = chars_of(id);
    match parse_i64(cs.as_slice()) {
        Some(v) => v,
        None => 0,
    }
}

pub fn gen_enum_file(enum_def: &EnumDef, ns: &str) -> (r: String)
    ensures
        r@ == spec_gen_enum_file(enum_def@, ns@),
{
    let valid = cs_valid_of(&enum_def.entries);
    let ghost vv = valid@.map_values(|e: &EnumEntry| e@);
    let en = enum_def.name.clone().concat("Enum");
    let mut values = String::new();
    let mut cases = String::new();
    let mut i: usize = 0;
    assert(vv.take(0) =~= Seq::<EnumEntryView>::empty());
    while i < valid.len()
        invariant
            i <= valid@.len(),
            vv == valid@.map_values(|e: &EnumEntry| e@),
            values@ == cs_enum_values(vv.take(i as int)),
            cases@ == cs_enum_cases(vv.take(i as int), en@),
        decreases valid.len() - i,
    {
        assert(vv.take(i + 1).drop_last() =~= vv.take(i as int));
        let e = valid[i];
        assert(vv.take(i + 1).last() == e@);
        values = values.concat("        /// <summary>").concat(escape_xml(e.desc.as_str()).as_str()).concat(
            "</summary>\n",
        ).concat("        ").concat(e.name.as_str()).concat(" = ").concat(
            int_string(id_of(e.id.as_str())).as_str(),
        ).concat(",\n");
        cases = cases.concat("            ").concat(en.as_str()).concat(".").concat(e.name.as_str()).concat(
            " => \u{22}",
        ).concat(escape_cs(e.desc.as_str()).as_str()).concat("\u{22},\n");
        i = i + 1;
    }
    assert(vv.take(i as int) =~= vv);
    let mut s = String::new();
    s = s.concat("// Auto-generated by tablet. Do not edit.\n\nnamespace ");
    s = s.concat(ns);
    s = s.concat("\n{\n    public enum ");
    s = s.concat(en.as_str());
    s = s.concat(" : int\n    {\n");
    s = s.concat(values.as_str());
    s = s.concat("    }\n\n    public static class ");
    s = s.concat(en.as_str());
    s = s.concat("Ext\n    {\n        public static string GetDesc(this ");
    s = s.concat(en.as_str());
    s = s.concat(" v) => v switch\n        {\n");
    s = s.concat(cases.as_str());
    s = s.concat("            _ => \u{22}\u{22},\n        };\n    }\n}\n");
    s
}

// ───────────────────────── whole project ─────────────────────────

/// The `code_output` and `namespace` of the runtime's section, if the
/// configuration has it: `[export.server.csharp_dotnet]`,
/// `[export.client.csharp_unity]` or `[export.client.csharp_godot]`.
pub open spec fn csharp_section(cfg: Option<ExportConfig>, rt: CSharpRuntime) -> Option<(Option<String>, Option<String>)> {
    match cfg {
        None => None,
        Some(e) => match rt {
            CSharpRuntime::Dotnet => match e.server {
                Some(sv) => match sv.csharp_dotnet {
                    Some(c) => Some((c.code_output, c.namespace)),
                    None => None,
                },
                None => None,
            },
            CSharpRuntime::Unity => match e.client {
                Some(cl) => match cl.csharp_unity {
                    Some(c) => Some((c.code_output, c.namespace)),
                    None => None,
                },
                None => None,
            },
            CSharpRuntime::Godot => match e.client {
                Some(cl) => match cl.csharp_godot {
                    Some(c) => Some((c.code_output, c.namespace)),
                    None => None,
                },
                None => None,
            },
        },
    }
}

/// Output directory and namespace of the runtime's C# export, each falling
/// back to the runtime's default.
pub open spec fn csharp_settings(cfg: Option<ExportConfig>, rt: CSharpRuntime) -> (Seq<char>, Seq<char>) {
    match csharp_section(cfg, rt) {
        Some((co, ns)) => (text_or(co, rt.spec_default_code_output()), text_or(ns, rt.spec_default_namespace())),
        None => (rt.spec_default_code_output(), rt.spec_default_namespace()),
    }
}

fn csharp_section_of(cfg: &Option<ExportConfig>, rt: CSharpRuntime) -> (r: Option<(Option<String>, Option<String>)>)
    ensures
        r == csharp_section(*cfg, rt),
{
    match cfg {
        None => None,
        Some(e) => match rt {
            CSharpRuntime::Dotnet => match &e.server {
                Some(sv) => match &sv.csharp_dotnet {
                    Some(c) => Some((c.code_output.clone(), c.namespace.clone())),
                    None => None,
                },
                None => None,
            },
            CSharpRuntime::Unity => match &e.client {
                Some(cl) => match &cl.csharp_unity {
                    Some(c) => Some((c.code_output.clone(), c.namespace.clone())),
                    None => None,
                },
                None => None,
            },
            CSharpRuntime::Godot => match &e.client {
                Some(cl) => match &cl.csharp_godot {
                    Some(c) => Some((c.code_output.clone(), c.namespace.clone())),
                    None => None,
                },
                None => None,
            },
        },
    }
}

/// Classes of one group: its live tables and constants, then its enums.
pub open spec fn cs_group_files(g: Group, ns: Seq<char>, rt: CSharpRuntime, en: Seq<String>) -> Seq<
    (Seq<char>, Seq<char>),
> {
    live_tables(g.tables@).map_values(
        |t: Table| (t.name@ + "Tpl.cs"@, spec_gen_table_class(t@, ns, rt, en)),
    ) + live_constants(g.constants@).map_values(
        |c: Constant| (c.name@ + "Tpl.cs"@, spec_gen_constant_class(c@, ns, rt, en)),
    ) + live_enums(g.enums@).map_values(|e: EnumDef| (e.name@ + "Enum.cs"@, spec_gen_enum_file(e@, ns)))
}

/// The C# sources of a project, group by group (deleted nodes skipped).
pub open spec fn spec_cs_files(gs: Seq<Group>, ns: Seq<char>, rt: CSharpRuntime, en: Seq<String>) -> Seq<
    (Seq<char>, Seq<char>),
>
    decreases gs.len(),
{
    if gs.len() == 0 {
        seq![]
    } else {
        spec_cs_files(gs.drop_last(), ns, rt, en) + cs_group_files(gs.last(), ns, rt, en)
    }
}

fn push_file(out: &mut Vec<GeneratedFile>, name: String, content: String)
    ensures
        files_view(final(out)@) == files_view(old(out)@).push((name@, content@)),
{
    let ghost prev = files_view(out@);
    out.push(GeneratedFile { name, content });
    assert(files_view(out@) =~= prev.push((name@, content@)));
}

fn cs_group(g: &Group, ns: &str, rt: CSharpRuntime, en: &Vec<String>, out: &mut Vec<GeneratedFile>)
    ensures
        files_view(final(out)@) == files_view(old(out)@) + cs_group_files(*g, ns@, rt, en@),
{
    let ghost o0 = files_view(out@);
    let mut i: usize = 0;
    while i < g.tables.len()
        invariant
            i <= g.tables@.len(),
            files_view(out@) == o0 + live_tables(g.tables@.take(i as int)).map_values(
                |t: Table| (t.name@ + "Tpl.cs"@, spec_gen_table_class(t@, ns@, rt, en@)),
            ),
        decreases g.tables.len() - i,
    {
        let t = &g.tables[i];
        assert(g.tables@.take(i + 1).drop_last() =~= g.tables@.take(i as int));
        assert(g.tables@.take(i + 1).last() == *t);
        let ghost lt = live_tables(g.tables@.take(i as int));
        if !t.deleted {
            let content = gen_table_class(t, ns, rt, en.as_slice());
            push_file(out, t.name.clone().concat("Tpl.cs"), content);
            assert(live_tables(g.tables@.take(i + 1)) =~= lt.push(*t));
        } else {
            assert(live_tables(g.tables@.take(i + 1)) =~= lt);
        }
        assert(files_view(out@) =~= o0 + live_tables(g.tables@.take(i + 1)).map_values(
            |t: Table| (t.name@ + "Tpl.cs"@, spec_gen_table_class(t@, ns@, rt, en@)),
        ));
        i = i + 1;
    }
    assert(g.tables@.take(i as int) =~= g.tables@);
    let ghost o1 = files_view(out@);
    let mut j: usize = 0;
    while j < g.constants.len()
        invariant
            j <= g.constants@.len(),
            files_view(out@) == o1 + live_constants(g.constants@.take(j as int)).map_values(
                |c: Constant| (c.name@ + "Tpl.cs"@, spec_gen_constant_class(c@, ns@, rt, en@)),
            ),
        decreases g.constants.len() - j,
    {
        let c = &g.constants[j];
        assert(g.constants@.take(j + 1).drop_last() =~= g.constants@.take(j as int));
        assert(g.constants@.take(j + 1).last() == *c);
        let ghost lc = live_constants(g.constants@.take(j as int));
        if !c.deleted {
            let content = gen_constant_class(c, ns, rt, en.as_slice());
            push_file(out, c.name.clone().concat("Tpl.cs"), content);
            assert(live_constants(g.constants@.take(j + 1)) =~= lc.push(*c));
        } else {
            assert(live_constants(g.constants@.take(j + 1)) =~= lc);
        }
        assert(files_view(out@) =~= o1 + live_constants(g.constants@.take(j + 1)).map_values(
            |c: Constant| (c.name@ + "Tpl.cs"@, spec_gen_constant_class(c@, ns@, rt, en@)),
        ));
        j = j + 1;
    }
    assert(g.constants@.take(j as int) =~= g.constants@);
    let ghost o2 = files_view(out@);
    let mut k: usize = 0;
    while k < g.enums.len()
        invariant
            k <= g.enums@.len(),
            files_view(out@) == o2 + live_enums(g.enums@.take(k as int)).map_values(
                |e: EnumDef| (e.name@ + "Enum.cs"@, spec_gen_enum_file(e@, ns@)),
            ),
        decreases g.enums.len() - k,
    {
        let e = &g.enums[k];
        assert(g.enums@.take(k + 1).drop_last() =~= g.enums@.take(k as int));
        assert(g.enums@.take(k + 1).last() == *e);
        let ghost le = live_enums(g.enums@.take(k as int));
        if !e.deleted {
            let content = gen_enum_file(e, ns);
            push_file(out, e.name.clone().concat("Enum.cs"), content);
            assert(live_enums(g.enums@.take(k + 1)) =~= le.push(*e));
        } else {
            assert(live_enums(g.enums@.take(k + 1)) =~= le);
        }
        assert(files_view(out@) =~= o2 + live_enums(g.enums@.take(k + 1)).map_values(
            |e: EnumDef| (e.name@ + "Enum.cs"@, spec_gen_enum_file(e@, ns@)),
        ));
        k = k + 1;
    }
    assert(g.enums@.take(k as int) =~= g.enums@);
    assert(files_view(out@) =~= o0 + cs_group_files(*g, ns@, rt, en@));
}

/// The C# export of a project for one runtime: the output directory under
/// the export root, and the classes (see [`spec_cs_files`]).
pub fn export_all_csharp(project: &Project, runtime: CSharpRuntime) -> (r: ExportPlan)
    ensures
        r.output_dir@ == path_join(project.project_root@, csharp_settings(project.config.export, runtime).0),
        r.extension@ == "cs"@,
        r.line_ending == cfg_line_ending(project.config.export),
        r.encoding == cfg_encoding(project.config.export),
        files_view(r.files@) == spec_cs_files(
            project.groups@,
            csharp_settings(project.config.export, runtime).1,
            runtime,
            live_enum_names(project.groups@),
        ),
{
    let (code_output, ns) = match csharp_section_of(&project.config.export, runtime) {
        Some((co, n)) => (string_or(&co, runtime.default_code_output()), string_or(&n, runtime.default_namespace())),
        None => (String::from_str(runtime.default_code_output()), String::from_str(runtime.default_namespace())),
    };
    proof {
        reveal_strlit("cs");
    }
    let groups = &project.groups;
    let en = collect_live_enum_names(groups.as_slice());
    let mut files: Vec<GeneratedFile> = Vec::new();
    let mut i: usize = 0;
    while i < groups.len()
        invariant
            i <= groups@.len(),
            en@ == live_enum_names(groups@),
            files_view(files@) == spec_cs_files(groups@.take(i as int), ns@, runtime, en@),
        decreases groups.len() - i,
    {
        assert(groups@.take(i + 1).drop_last() =~= groups@.take(i as int));
        assert(groups@.take(i + 1).last() == groups@[i as int]);
        cs_group(&groups[i], ns.as_str(), runtime, &en, &mut files);
        i = i + 1;
    }
    assert(groups@.take(i as int) =~= groups@);
    ExportPlan {
        output_dir: join_path(project.export_root(), code_output.as_str()),
        extension: String::from_str("cs"),
        line_ending: export_line_ending(&project.config.export),
        encoding: export_encoding(&project.config.export),
        files,
    }
}

} // verus!
