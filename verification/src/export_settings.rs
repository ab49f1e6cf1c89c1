//! Edits of a project's export settings field by field, as the settings
//! dialog makes them: a missing section is created with its defaults, an
//! empty text clears a setting, and a value that does not parse leaves the
//! setting as it was.

use vstd::prelude::*;
use crate::enums::{CppJsonLib, Encoding, JsonEmptyAs, LineEnding, XmlEmptyAs};
use crate::model::{
    default_client_view, default_cpp_view, default_dotnet_view, default_go_view,
    default_godot_view, default_java_view, default_server_view, default_server_ts_view,
    default_client_ts_view, default_unity_view, ClientConfig, ClientTypeScriptExport,
    ClientView, CppExport, DotNetExport, ExportConfig, ExportView, GdScriptExport,
    GodotCSharpExport, GoExport, JavaExport, JsonExport, LuaExport, NamespaceView, PackageView,
    ServerExport, ServerTypeScriptExport, ServerView, TsView, UnityCSharpExport, XmlExport,
    CppView,
};
use crate::text::{chars_is, chars_of, lowercase_of, trim};

verus! {

/// The setting an empty text clears, any other text sets.
pub open spec fn text_or_none(v: Seq<char>) -> Option<Seq<char>> {
    if v.len() == 0 {
        None
    } else {
        Some(v)
    }
}

pub open spec fn server_or_default(o: Option<ServerView>) -> ServerView {
    match o {
        Some(s) => s,
        None => default_server_view(),
    }
}

pub open spec fn client_or_default(o: Option<ClientView>) -> ClientView {
    match o {
        Some(c) => c,
        None => default_client_view(),
    }
}

pub open spec fn or_else<T>(o: Option<T>, d: T) -> T {
    match o {
        Some(x) => x,
        None => d,
    }
}

/// The server section once field `key` of it takes the text `v`.
pub open spec fn server_field(s: ServerView, key: Seq<char>, v: Seq<char>) -> ServerView {
    let t = text_or_none(v);
    if key == "cpp_json_lib"@ {
        let c = or_else(s.cpp, default_cpp_view());
        ServerView {
            cpp: Some(
                CppView {
                    json_lib: match CppJsonLib::spec_from_word(lowercase_of(trim(v))) {
                        Some(l) => Some(l),
                        None => c.json_lib,
                    },
                    ..c
                },
            ),
            ..s
        }
    } else if key == "server_data_output"@ {
        ServerView { data_output: t, ..s }
    } else if key == "java_package"@ {
        ServerView {
            java: Some(PackageView { package: t, ..or_else(s.java, default_java_view()) }),
            ..s
        }
    } else if key == "java_code_output"@ {
        ServerView {
            java: Some(PackageView { code_output: t, ..or_else(s.java, default_java_view()) }),
            ..s
        }
    } else if key == "go_package"@ {
        ServerView { go: Some(PackageView { package: t, ..or_else(s.go, default_go_view()) }), ..s }
    } else if key == "go_code_output"@ {
        ServerView {
            go: Some(PackageView { code_output: t, ..or_else(s.go, default_go_view()) }),
            ..s
        }
    } else if key == "cpp_namespace"@ {
        ServerView { cpp: Some(CppView { namespace: t, ..or_else(s.cpp, default_cpp_view()) }), ..s }
    } else if key == "cpp_code_output"@ {
        ServerView {
            cpp: Some(CppView { code_output: t, ..or_else(s.cpp, default_cpp_view()) }),
            ..s
        }
    } else if key == "csharp_dotnet_namespace"@ {
        ServerView {
            csharp_dotnet: Some(
                NamespaceView { namespace: t, ..or_else(s.csharp_dotnet, default_dotnet_view()) },
            ),
            ..s
        }
    } else if key == "csharp_dotnet_code_output"@ {
        ServerView {
            csharp_dotnet: Some(
                NamespaceView { code_output: t, ..or_else(s.csharp_dotnet, default_dotnet_view()) },
            ),
            ..s
        }
    } else {
        ServerView {
            typescript: Some(TsView { output: t, ..or_else(s.typescript, default_server_ts_view()) }),
            ..s
        }
    }
}

/// The client section once field `key` of it takes the text `v`.
pub open spec fn client_field(c: ClientView, key: Seq<char>, v: Seq<char>) -> ClientView {
    let t = text_or_none(v);
    if key == "lua_output"@ {
        ClientView { lua: Some(t), ..c }
    } else if key == "gdscript_output"@ {
        ClientView { gdscript: Some(t), ..c }
    } else if key == "typescript_client_output"@ {
        ClientView {
            typescript: Some(TsView { output: t, ..or_else(c.typescript, default_client_ts_view()) }),
            ..c
        }
    } else if key == "csharp_unity_namespace"@ {
        ClientView {
            csharp_unity: Some(
                NamespaceView { namespace: t, ..or_else(c.csharp_unity, default_unity_view()) },
            ),
            ..c
        }
    } else if key == "csharp_unity_code_output"@ {
        ClientView {
            csharp_unity: Some(
                NamespaceView { code_output: t, ..or_else(c.csharp_unity, default_unity_view()) },
            ),
            ..c
        }
    } else if key == "csharp_godot_namespace"@ {
        ClientView {
            csharp_godot: Some(
                NamespaceView { namespace: t, ..or_else(c.csharp_godot, default_godot_view()) },
            ),
            ..c
        }
    } else {
        ClientView {
            csharp_godot: Some(
                NamespaceView { code_output: t, ..or_else(c.csharp_godot, default_godot_view()) },
            ),
            ..c
        }
    }
}

pub open spec fn is_server_field(key: Seq<char>) -> bool {
    key == "cpp_json_lib"@ || key == "server_data_output"@ || key == "java_package"@ || key
        == "java_code_output"@ || key == "go_package"@ || key == "go_code_output"@ || key
        == "cpp_namespace"@ || key == "cpp_code_output"@ || key == "csharp_dotnet_namespace"@
        || key == "csharp_dotnet_code_output"@ || key == "typescript_server_code_output"@
}

pub open spec fn is_client_field(key: Seq<char>) -> bool {
    key == "lua_output"@ || key == "gdscript_output"@ || key == "typescript_client_output"@ || key
        == "csharp_unity_namespace"@ || key == "csharp_unity_code_output"@ || key
        == "csharp_godot_namespace"@ || key == "csharp_godot_code_output"@
}

/// The export settings once field `key` takes the text `v`; an unknown
/// field changes nothing.
pub open spec fn spec_apply_export_field(x: ExportView, key: Seq<char>, v: Seq<char>) -> ExportView {
    let word = lowercase_of(trim(v));
    if key == "encoding"@ {
        match Encoding::spec_from_word(word) {
            Some(e) => ExportView { encoding: Some(e), ..x },
            None => x,
        }
    } else if key == "line_ending"@ {
        match LineEnding::spec_from_word(word) {
            Some(l) => ExportView { line_ending: Some(l), ..x },
            None => x,
        }
    } else if key == "json_empty_as"@ {
        let j = or_else(x.json, Some(JsonEmptyAs::Null));
        ExportView {
            json: Some(
                match JsonEmptyAs::spec_from_word(word) {
                    Some(e) => Some(e),
                    None => j,
                },
            ),
            ..x
        }
    } else if key == "xml_empty_as"@ {
        let m = or_else(x.xml, Some(XmlEmptyAs::Empty));
        ExportView {
            xml: Some(
                match XmlEmptyAs::spec_from_word(word) {
                    Some(e) => Some(e),
                    None => m,
                },
            ),
            ..x
        }
    } else if is_server_field(key) {
        ExportView { server: Some(server_field(server_or_default(x.server), key, v)), ..x }
    } else if is_client_field(key) {
        ExportView { client: Some(client_field(client_or_default(x.client), key, v)), ..x }
    } else {
        x
    }
}

fn text_value(v: &str) -> (r: Option<String>)
    ensures
        crate::model::opt_text(r) == text_or_none(v@),
{
    if v.is_empty() {
        None
    } else {
        Some(String::from_str(v))
    }
}

fn server_or_new(o: Option<ServerExport>) -> (r: ServerExport)
    ensures
        r@ == server_or_default(crate::model::opt_view(o)),
{
    match o {
        Some(s) => s,
        None => ServerExport::default(),
    }
}

fn client_or_new(o: Option<ClientConfig>) -> (r: ClientConfig)
    ensures
        r@ == client_or_default(crate::model::opt_view(o)),
{
    match o {
        Some(c) => c,
        None => ClientConfig::default(),
    }
}

fn edit_server(s: &mut ServerExport, key: &[char], v: &str)
    requires
        is_server_field(key@),
    ensures
        final(s)@ == server_field(old(s)@, key@, v@),
{
    if chars_is(key, "cpp_json_lib") {
        let mut c = match s.cpp.take() {
            Some(c) => c,
            None => CppExport::default(),
        };
        match CppJsonLib::parse_name(v) {
            Ok(l) => {
                c.json_lib = Some(l);
            },
            Err(_) => {},
        }
        s.cpp = Some(c);
    } else if chars_is(key, "server_data_output") {
        s.data_output = text_value(v);
    } else if chars_is(key, "java_package") {
        let mut j = match s.java.take() {
            Some(j) => j,
            None => JavaExport::default(),
        };
        j.package = text_value(v);
        s.java = Some(j);
    } else if chars_is(key, "java_code_output") {
        let mut j = match s.java.take() {
            Some(j) => j,
            None => JavaExport::default(),
        };
        j.code_output = text_value(v);
        s.java = Some(j);
    } else if chars_is(key, "go_package") {
        let mut g = match s.go.take() {
            Some(g) => g,
            None => GoExport::default(),
        };
        g.package = text_value(v);
        s.go = Some(g);
    } else if chars_is(key, "go_code_output") {
        let mut g = match s.go.take() {
            Some(g) => g,
            None => GoExport::default(),
        };
        g.code_output = text_value(v);
        s.go = Some(g);
    } else if chars_is(key, "cpp_namespace") {
        let mut c = match s.cpp.take() {
            Some(c) => c,
            None => CppExport::default(),
        };
        c.namespace = text_value(v);
        s.cpp = Some(c);
    } else if chars_is(key, "cpp_code_output") {
        let mut c = match s.cpp.take() {
            Some(c) => c,
            None => CppExport::default(),
        };
        c.code_output = text_value(v);
        s.cpp = Some(c);
    } else if chars_is(key, "csharp_dotnet_namespace") {
        let mut d = match s.csharp_dotnet.take() {
            Some(d) => d,
            None => DotNetExport::default(),
        };
        d.namespace = text_value(v);
        s.csharp_dotnet = Some(d);
    } else if chars_is(key, "csharp_dotnet_code_output") {
        let mut d = match s.csharp_dotnet.take() {
            Some(d) => d,
            None => DotNetExport::default(),
        };
        d.code_output = text_value(v);
        s.csharp_dotnet = Some(d);
    } else {
        let mut t = match s.typescript.take() {
            Some(t) => t,
            None => ServerTypeScriptExport::default(),
        };
        t.output = text_value(v);
        s.typescript = Some(t);
    }
}

fn edit_client(c: &mut ClientConfig, key: &[char], v: &str)
    requires
        is_client_field(key@),
    ensures
        final(c)@ == client_field(old(c)@, key@, v@),
{
    if chars_is(key, "lua_output") {
        let mut l = match c.lua.take() {
            Some(l) => l,
            None => LuaExport::default(),
        };
        l.output = text_value(v);
        c.lua = Some(l);
    } else if chars_is(key, "gdscript_output") {
        let mut g = match c.gdscript.take() {
            Some(g) => g,
            None => GdScriptExport::default(),
        };
        g.output = text_value(v);
        c.gdscript = Some(g);
    } else if chars_is(key, "typescript_client_output") {
        let mut t = match c.typescript.take() {
            Some(t) => t,
            None => ClientTypeScriptExport::default(),
        };
        t.output = text_value(v);
        c.typescript = Some(t);
    } else if chars_is(key, "csharp_unity_namespace") {
        let mut u = match c.csharp_unity.take() {
            Some(u) => u,
            None => UnityCSharpExport::default(),
        };
        u.namespace = text_value(v);
        c.csharp_unity = Some(u);
    } else if chars_is(key, "csharp_unity_code_output") {
        let mut u = match c.csharp_unity.take() {
            Some(u) => u,
            None => UnityCSharpExport::default(),
        };
        u.code_output = text_value(v);
        c.csharp_unity = Some(u);
    } else if chars_is(key, "csharp_godot_namespace") {
        let mut g = match c.csharp_godot.take() {
            Some(g) => g,
            None => GodotCSharpExport::default(),
        };
        g.namespace = text_value(v);
        c.csharp_godot = Some(g);
    } else {
        let mut g = match c.csharp_godot.take() {
            Some(g) => g,
            None => GodotCSharpExport::default(),
        };
        g.code_output = text_value(v);
        c.csharp_godot = Some(g);
    }
}

fn server_field_key(k: &[char]) -> (r: bool)
    ensures
        r == is_server_field(k@),
{
    chars_is(k, "cpp_json_lib") || chars_is(k, "server_data_output") || chars_is(k, "java_package")
        || chars_is(k, "java_code_output") || chars_is(k, "go_package") || chars_is(
        k,
        "go_code_output",
    ) || chars_is(k, "cpp_namespace") || chars_is(k, "cpp_code_output") || chars_is(
        k,
        "csharp_dotnet_namespace",
    ) || chars_is(k, "csharp_dotnet_code_output") || chars_is(k, "typescript_server_code_output")
}

fn client_field_key(k: &[char]) -> (r: bool)
    ensures
        r == is_client_field(k@),
{
    chars_is(k, "lua_output") || chars_is(k, "gdscript_output") || chars_is(
        k,
        "typescript_client_output",
    ) || chars_is(k, "csharp_unity_namespace") || chars_is(k, "csharp_unity_code_output")
        || chars_is(k, "csharp_godot_namespace") || chars_is(k, "csharp_godot_code_output")
}

/// Sets the export setting that the dialog field `key` edits from the text
/// `value`; an unknown field changes nothing.
pub fn apply_export_field(export: &mut ExportConfig, key: &str, value: &str)
    ensures
        final(export)@ == spec_apply_export_field(old(export)@, key@, value@),
{
    let k = chars_of(key);
    let ks = k.as_slice();
    if chars_is(ks, "encoding") {
        match Encoding::parse_name(value) {
            Ok(e) => {
                export.encoding = Some(e);
            },
            Err(_) => {},
        }
    } else if chars_is(ks, "line_ending") {
        match LineEnding::parse_name(value) {
            Ok(l) => {
                export.line_ending = Some(l);
            },
            Err(_) => {},
        }
    } else if chars_is(ks, "json_empty_as") {
        let mut j = match export.json.take() {
            Some(j) => j,
            None => JsonExport::default(),
        };
        match JsonEmptyAs::parse_name(value) {
            Ok(e) => {
                j.empty_as = Some(e);
            },
            Err(_) => {},
        }
        export.json = Some(j);
    } else if chars_is(ks, "xml_empty_as") {
        let mut m = match export.xml.take() {
            Some(m) => m,
            None => XmlExport::default(),
        };
        match XmlEmptyAs::parse_name(value) {
            Ok(e) => {
                m.empty_as = Some(e);
            },
            Err(_) => {},
        }
        export.xml = Some(m);
    } else if server_field_key(ks) {
        let mut s = server_or_new(export.server.take());
        edit_server(&mut s, ks, value);
        export.server = Some(s);
    } else if client_field_key(ks) {
        let mut c = client_or_new(export.client.take());
        edit_client(&mut c, ks, value);
        export.client = Some(c);
    }
}

} // verus!
