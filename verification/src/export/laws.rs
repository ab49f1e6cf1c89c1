//! What the generated code is for, stated across generators: a C++ reader
//! reads the width of the member it fills, and each side sees exactly the
//! columns exported to it, in every language.

use vstd::prelude::*;
use crate::export::cpp::{spec_cpp_base_type, spec_cpp_parse_fn, spec_is_server_export};
use crate::export::csharp::{cs_visible, CSharpRuntime};
use crate::export::typescript::{spec_export_visible, TypeScriptSide};
use crate::model::Export;
use crate::types::BaseType;

verus! {

/// The name of the runtime reader of a C++ type: `parse_` and the type's
/// name without its `_t` suffix (`int64_t` is read by `parse_int64`); a
/// `std::string` is read by `parse_str`.
pub open spec fn reader_of_cpp_type(t: Seq<char>) -> Seq<char> {
    if t == "std::string"@ {
        "parse_str"@
    } else if t.len() >= 2 && t.skip(t.len() - 2) == "_t"@ {
        "parse_"@ + t.take(t.len() - 2)
    } else {
        "parse_"@ + t
    }
}

/// The C++ reader of a column reads the type declared for the column's
/// member: an `int64_t` member is filled by `parse_int64`, an `int32_t`
/// one by `parse_int32`, and so on.
pub proof fn law_cpp_reader_matches_member(b: BaseType)
    ensures
        spec_cpp_parse_fn(b) == reader_of_cpp_type(spec_cpp_base_type(b)),
{
    reveal_strlit("int32_t");
    reveal_strlit("int64_t");
    reveal_strlit("float");
    reveal_strlit("double");
    reveal_strlit("std::string");
    reveal_strlit("bool");
    reveal_strlit("_t");
    reveal_strlit("parse_");
    reveal_strlit("parse_int32");
    reveal_strlit("parse_int64");
    reveal_strlit("parse_float");
    reveal_strlit("parse_double");
    reveal_strlit("parse_str");
    reveal_strlit("parse_bool");
    let t = spec_cpp_base_type(b);
    assert("std::string"@.len() == 11);
    match b {
        BaseType::Int => {
            assert(t.len() == 7);
            assert(t != "std::string"@);
            assert(t.skip(5) =~= "_t"@);
            assert("parse_int32"@ =~= "parse_"@ + t.take(5));
        },
        BaseType::Long => {
            assert(t.len() == 7);
            assert(t != "std::string"@);
            assert(t.skip(5) =~= "_t"@);
            assert("parse_int64"@ =~= "parse_"@ + t.take(5));
        },
        BaseType::Float => {
            assert(t.len() == 5);
            assert(t != "std::string"@);
            assert(t.skip(3)[0] != "_t"@[0]);
            assert("parse_float"@ =~= "parse_"@ + t);
        },
        BaseType::Double => {
            assert(t.len() == 6);
            assert(t != "std::string"@);
            assert(t.skip(4)[0] != "_t"@[0]);
            assert("parse_double"@ =~= "parse_"@ + t);
        },
        BaseType::Bool => {
            assert(t.len() == 4);
            assert(t != "std::string"@);
            assert(t.skip(2)[0] != "_t"@[0]);
            assert("parse_bool"@ =~= "parse_"@ + t);
        },
        BaseType::Str => {},
        BaseType::Txt => {},
    }
}

/// Whether a side is among those an export code names: `c` for the
/// client, `s` for the server (`cs` both, `-` neither). An unselected side
/// goes nowhere.
pub open spec fn exported_to(e: Export, side: char) -> bool {
    e != Export::Unselected && e.spec_code().contains(side)
}

proof fn lemma_exported_to(e: Export)
    ensures
        exported_to(e, 'c') <==> (e == Export::ClientServer || e == Export::ClientOnly),
        exported_to(e, 's') <==> (e == Export::ClientServer || e == Export::ServerOnly),
{
    reveal_strlit("cs");
    reveal_strlit("c");
    reveal_strlit("s");
    reveal_strlit("-");
    let c = e.spec_code();
    match e {
        Export::ClientServer => {
            assert(c[0] == 'c' && c[1] == 's');
        },
        Export::ClientOnly => {
            assert(c[0] == 'c');
            assert(!c.contains('s')) by {
                assert(c.len() == 1);
            }
        },
        Export::ServerOnly => {
            assert(c[0] == 's');
            assert(!c.contains('c')) by {
                assert(c.len() == 1);
            }
        },
        Export::NoExport => {
            assert(!c.contains('c') && !c.contains('s')) by {
                assert(c.len() == 1 && c[0] == '-');
            }
        },
        Export::Unselected => {},
    }
}

/// A C# class shows exactly the columns exported to its side: the dotnet
/// server's those whose code names the server, a Unity or Godot client's
/// those whose code names the client; a server-only column never appears
/// in client code, nor a client-only one in server code. Of the runtimes
/// only dotnet is a server.
pub proof fn law_cs_columns_of_side(e: Export, rt: CSharpRuntime)
    ensures
        cs_visible(e, rt) <==> exported_to(e, if rt.spec_is_server() { 's' } else { 'c' }),
        !rt.spec_is_server() && e == Export::ServerOnly ==> !cs_visible(e, rt),
        rt.spec_is_server() && e == Export::ClientOnly ==> !cs_visible(e, rt),
        rt.spec_is_server() <==> rt == CSharpRuntime::Dotnet,
{
    lemma_exported_to(e);
}

/// A TypeScript module shows exactly the columns exported to its side:
/// the server's those whose code names the server, the client's those
/// whose code names the client.
pub proof fn law_ts_columns_of_side(e: Export, side: TypeScriptSide)
    ensures
        spec_export_visible(e, side) <==> exported_to(e, if side == TypeScriptSide::Server { 's' } else { 'c' }),
        side == TypeScriptSide::Server && e == Export::ClientOnly ==> !spec_export_visible(e, side),
        side == TypeScriptSide::Client && e == Export::ServerOnly ==> !spec_export_visible(e, side),
{
    lemma_exported_to(e);
}

/// The C++ headers and the XML data, both for the server, hold exactly
/// the columns and entries whose export code names the server; a
/// client-only one never appears there.
pub proof fn law_server_data_columns(e: Export)
    ensures
        spec_is_server_export(e) <==> exported_to(e, 's'),
        e == Export::ClientOnly ==> !spec_is_server_export(e),
{
    lemma_exported_to(e);
}

/// The C# and TypeScript generators agree on what each side sees: a
/// client runtime sees what the TypeScript client sees, the dotnet server
/// what the TypeScript server sees.
pub proof fn law_sides_agree_across_languages(e: Export, rt: CSharpRuntime)
    ensures
        cs_visible(e, rt) == spec_export_visible(
            e,
            if rt.spec_is_server() { TypeScriptSide::Server } else { TypeScriptSide::Client },
        ),
{
    lemma_exported_to(e);
}

} // verus!
