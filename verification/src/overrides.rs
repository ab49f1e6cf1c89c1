//! `key=value` overrides of a project's export configuration, as given on
//! the command line with `--set`. Missing configuration sections are created
//! empty on the way to the key; retired and unknown keys are reported.

use vstd::prelude::*;
use crate::enums::{CppJsonLib, Encoding, JsonEmptyAs, LineEnding, ModuleKind, XmlEmptyAs};
use crate::model::{
    opt_text, opt_view, ClientConfig, ClientTypeScriptExport, ClientView, CppExport, CppView,
    DotNetExport, ExportConfig, ExportView, GodotCSharpExport, GoExport, JavaExport, JsonExport,
    LuaExport, NamespaceView, PackageView, ProjectConfig, ServerExport, ServerTypeScriptExport,
    ServerView, TsView, UnityCSharpExport, XmlExport,
};
use crate::text::{
    chars_is, chars_of, find_char, first_index, lowercase_of, string_of_chars, sub_chars, trim,
    trim_chars,
};

verus! {

// ───────────────────────── keys ─────────────────────────

/// A setting that an override can change.
#[derive(Clone, Copy, Debug, PartialEq, Eq, Structural)]
pub enum Setting {
    Encoding,
    LineEnding,
    JsonEmptyAs,
    XmlEmptyAs,
    JavaPackage,
    ServerDataOutput,
    JavaCodeOutput,
    GoPackage,
    GoCodeOutput,
    CppNamespace,
    CppCodeOutput,
    CppJsonLib,
    DotNetNamespace,
    DotNetCodeOutput,
    UnityNamespace,
    UnityCodeOutput,
    GodotNamespace,
    GodotCodeOutput,
    LuaOutput,
    ClientTsOutput,
    ClientTsModuleKind,
    ServerTsOutput,
    ServerTsModuleKind,
}

/// What a trimmed override key names.
#[derive(Clone, Copy, Debug, PartialEq, Eq, Structural)]
pub enum KeyKind {
    /// A setting.
    Assign(Setting),
    /// A retired key; the number picks the hint.
    Retired(u8),
    Unknown,
}

pub open spec fn spec_key_kind(k: Seq<char>) -> KeyKind {
    if k == "project.config_dir"@ || k == "app.config_dir"@ {
        KeyKind::Retired(0)
    } else if k == "project.cache_dir"@ || k == "app.cache_dir"@ {
        KeyKind::Retired(1)
    } else if k == "app.last_project"@ || k == "project.last_project"@ {
        KeyKind::Retired(2)
    } else if k == "export.encoding"@ {
        KeyKind::Assign(Setting::Encoding)
    } else if k == "export.line_ending"@ {
        KeyKind::Assign(Setting::LineEnding)
    } else if k == "export.json.empty_as"@ {
        KeyKind::Assign(Setting::JsonEmptyAs)
    } else if k == "export.xml.empty_as"@ {
        KeyKind::Assign(Setting::XmlEmptyAs)
    } else if k == "export.server.lang"@ {
        KeyKind::Retired(3)
    } else if k == "export.server.package"@ || k == "export.server.java.package"@ {
        KeyKind::Assign(Setting::JavaPackage)
    } else if k == "export.server.data_output"@ {
        KeyKind::Assign(Setting::ServerDataOutput)
    } else if k == "export.server.code_output"@ || k == "export.server.java.code_output"@ {
        KeyKind::Assign(Setting::JavaCodeOutput)
    } else if k == "export.server.go.package"@ {
        KeyKind::Assign(Setting::GoPackage)
    } else if k == "export.server.go.code_output"@ {
        KeyKind::Assign(Setting::GoCodeOutput)
    } else if k == "export.server.cpp.namespace"@ {
        KeyKind::Assign(Setting::CppNamespace)
    } else if k == "export.server.cpp.code_output"@ {
        KeyKind::Assign(Setting::CppCodeOutput)
    } else if k == "export.server.cpp.json_lib"@ {
        KeyKind::Assign(Setting::CppJsonLib)
    } else if k == "export.server.csharp_dotnet.namespace"@ {
        KeyKind::Assign(Setting::DotNetNamespace)
    } else if k == "export.server.csharp_dotnet.code_output"@ {
        KeyKind::Assign(Setting::DotNetCodeOutput)
    } else if k == "export.client.csharp_unity.namespace"@ {
        KeyKind::Assign(Setting::UnityNamespace)
    } else if k == "export.client.csharp_unity.code_output"@ {
        KeyKind::Assign(Setting::UnityCodeOutput)
    } else if k == "export.client.csharp_godot.namespace"@ {
        KeyKind::Assign(Setting::GodotNamespace)
    } else if k == "export.client.csharp_godot.code_output"@ {
        KeyKind::Assign(Setting::GodotCodeOutput)
    } else if k == "export.client.lua.output"@ || k == "export.client.output"@ {
        KeyKind::Assign(Setting::LuaOutput)
    } else if k == "export.client.typescript.output"@ {
        KeyKind::Assign(Setting::ClientTsOutput)
    } else if k == "export.client.typescript.module_kind"@ {
        KeyKind::Assign(Setting::ClientTsModuleKind)
    } else if k == "export.server.typescript.output"@ {
        KeyKind::Assign(Setting::ServerTsOutput)
    } else if k == "export.server.typescript.module_kind"@ {
        KeyKind::Assign(Setting::ServerTsModuleKind)
    } else {
        KeyKind::Unknown
    }
}

fn key_kind(k: &[char]) -> (r: KeyKind)
    ensures
        r == spec_key_kind(k@),
{
    if chars_is(k, "project.config_dir") || chars_is(k, "app.config_dir") {
        KeyKind::Retired(0)
    } else if chars_is(k, "project.cache_dir") || chars_is(k, "app.cache_dir") {
        KeyKind::Retired(1)
    } else if chars_is(k, "app.last_project") || chars_is(k, "project.last_project") {
        KeyKind::Retired(2)
    } else if chars_is(k, "export.encoding") {
        KeyKind::Assign(Setting::Encoding)
    } else if chars_is(k, "export.line_ending") {
        KeyKind::Assign(Setting::LineEnding)
    } else if chars_is(k, "export.json.empty_as") {
        KeyKind::Assign(Setting::JsonEmptyAs)
    } else if chars_is(k, "export.xml.empty_as") {
        KeyKind::Assign(Setting::XmlEmptyAs)
    } else if chars_is(k, "export.server.lang") {
        KeyKind::Retired(3)
    } else if chars_is(k, "export.server.package") || chars_is(k, "export.server.java.package") {
        KeyKind::Assign(Setting::JavaPackage)
    } else if chars_is(k, "export.server.data_output") {
        KeyKind::Assign(Setting::ServerDataOutput)
    } else if chars_is(k, "export.server.code_output") || chars_is(
        k,
        "export.server.java.code_output",
    ) {
        KeyKind::Assign(Setting::JavaCodeOutput)
    } else if chars_is(k, "export.server.go.package") {
        KeyKind::Assign(Setting::GoPackage)
    } else if chars_is(k, "export.server.go.code_output") {
        KeyKind::Assign(Setting::GoCodeOutput)
    } else if chars_is(k, "export.server.cpp.namespace") {
        KeyKind::Assign(Setting::CppNamespace)
    } else if chars_is(k, "export.server.cpp.code_output") {
        KeyKind::Assign(Setting::CppCodeOutput)
    } else if chars_is(k, "export.server.cpp.json_lib") {
        KeyKind::Assign(Setting::CppJsonLib)
    } else if chars_is(k, "export.server.csharp_dotnet.namespace") {
        KeyKind::Assign(Setting::DotNetNamespace)
    } else if chars_is(k, "export.server.csharp_dotnet.code_output") {
        KeyKind::Assign(Setting::DotNetCodeOutput)
    } else if chars_is(k, "export.client.csharp_unity.namespace") {
        KeyKind::Assign(Setting::UnityNamespace)
    } else if chars_is(k, "export.client.csharp_unity.code_output") {
        KeyKind::Assign(Setting::UnityCodeOutput)
    } else if chars_is(k, "export.client.csharp_godot.namespace") {
        KeyKind::Assign(Setting::GodotNamespace)
    } else if chars_is(k, "export.client.csharp_godot.code_output") {
        KeyKind::Assign(Setting::GodotCodeOutput)
    } else if chars_is(k, "export.client.lua.output") || chars_is(k, "export.client.output") {
        KeyKind::Assign(Setting::LuaOutput)
    } else if chars_is(k, "export.client.typescript.output") {
        KeyKind::Assign(Setting::ClientTsOutput)
    } else if chars_is(k, "export.client.typescript.module_kind") {
        KeyKind::Assign(Setting::ClientTsModuleKind)
    } else if chars_is(k, "export.server.typescript.output") {
        KeyKind::Assign(Setting::ServerTsOutput)
    } else if chars_is(k, "export.server.typescript.module_kind") {
        KeyKind::Assign(Setting::ServerTsModuleKind)
    } else {
        KeyKind::Unknown
    }
}

/// Hint of a retired key.
pub open spec fn spec_retired_hint(n: u8) -> Seq<char> {
    if n == 0 {
        "config_dir 已废弃，多项目模式下固定使用 <project_root>/config/"@
    } else if n == 1 {
        "cache_dir 已废弃，多项目模式下固定使用 <project_root>/.tbl-cache/"@
    } else if n == 2 {
        "请直接修改 tablet.toml 的 [project] last_project 字段"@
    } else {
        "export.server.lang 已废弃，使用 export.server.java / export.server.go 子节点"@
    }
}

fn retired_hint(n: u8) -> (r: &'static str)
    ensures
        r@ == spec_retired_hint(n),
{
    if n == 0 {
        "config_dir 已废弃，多项目模式下固定使用 <project_root>/config/"
    } else if n == 1 {
        "cache_dir 已废弃，多项目模式下固定使用 <project_root>/.tbl-cache/"
    } else if n == 2 {
        "请直接修改 tablet.toml 的 [project] last_project 字段"
    } else {
        "export.server.lang 已废弃，使用 export.server.java / export.server.go 子节点"
    }
}

// ───────────────────────── applying ─────────────────────────

/// Why an override was not applied as given.
#[derive(Clone, Debug)]
pub enum OverrideWarning {
    /// The item has no `=`.
    InvalidFormat(String),
    /// A retired key, with a hint at what replaced it.
    Deprecated { key: String, hint: &'static str },
    /// An unknown key.
    Unknown(String),
    /// A value that the key does not accept.
    Invalid(String),
}

pub enum WarningView {
    InvalidFormat(Seq<char>),
    Deprecated { key: Seq<char>, hint: Seq<char> },
    Unknown(Seq<char>),
    Invalid(Seq<char>),
}

impl View for OverrideWarning {
    type V = WarningView;

    open spec fn view(&self) -> WarningView {
        match self {
            OverrideWarning::InvalidFormat(s) => WarningView::InvalidFormat(s@),
            OverrideWarning::Deprecated { key, hint } => WarningView::Deprecated {
                key: key@,
                hint: hint@,
            },
            OverrideWarning::Unknown(s) => WarningView::Unknown(s@),
            OverrideWarning::Invalid(s) => WarningView::Invalid(s@),
        }
    }
}

/// The warnings of a run of overrides.
#[derive(Debug)]
pub struct OverrideOutcome {
    pub warnings: Vec<OverrideWarning>,
}

pub open spec fn warnings_view(w: Seq<OverrideWarning>) -> Seq<WarningView> {
    w.map_values(|x: OverrideWarning| x@)
}

pub open spec fn or_export(e: Option<ExportView>) -> ExportView {
    match e {
        Some(x) => x,
        None => ExportView {
            json: None,
            xml: None,
            server: None,
            client: None,
            encoding: None,
            line_ending: None,
        },
    }
}

pub open spec fn or_server(s: Option<ServerView>) -> ServerView {
    match s {
        Some(x) => x,
        None => ServerView {
            data_output: None,
            java: None,
            go: None,
            cpp: None,
            csharp_dotnet: None,
            typescript: None,
        },
    }
}

pub open spec fn or_client(c: Option<ClientView>) -> ClientView {
    match c {
        Some(x) => x,
        None => ClientView {
            lua: None,
            gdscript: None,
            typescript: None,
            csharp_unity: None,
            csharp_godot: None,
        },
    }
}

pub open spec fn or_package(o: Option<PackageView>) -> PackageView {
    match o {
        Some(x) => x,
        None => PackageView { package: None, code_output: None },
    }
}

pub open spec fn or_namespace(o: Option<NamespaceView>) -> NamespaceView {
    match o {
        Some(x) => x,
        None => NamespaceView { namespace: None, code_output: None },
    }
}

pub open spec fn or_cpp(o: Option<CppView>) -> CppView {
    match o {
        Some(x) => x,
        None => CppView { namespace: None, code_output: None, json_lib: None },
    }
}

pub open spec fn or_ts(o: Option<TsView>) -> TsView {
    match o {
        Some(x) => x,
        None => TsView { output: None, module_kind: None },
    }
}

/// A configuration value read from its name; an unknown name gives the
/// type's default.
pub open spec fn encoding_of(v: Seq<char>) -> Encoding {
    match Encoding::spec_from_word(lowercase_of(trim(v))) {
        Some(x) => x,
        None => Encoding::Utf8,
    }
}

pub open spec fn line_ending_of(v: Seq<char>) -> LineEnding {
    match LineEnding::spec_from_word(lowercase_of(trim(v))) {
        Some(x) => x,
        None => LineEnding::Lf,
    }
}

pub open spec fn json_empty_of(v: Seq<char>) -> JsonEmptyAs {
    match JsonEmptyAs::spec_from_word(lowercase_of(trim(v))) {
        Some(x) => x,
        None => JsonEmptyAs::Null,
    }
}

pub open spec fn xml_empty_of(v: Seq<char>) -> XmlEmptyAs {
    match XmlEmptyAs::spec_from_word(lowercase_of(trim(v))) {
        Some(x) => x,
        None => XmlEmptyAs::Empty,
    }
}

pub open spec fn json_lib_of(v: Seq<char>) -> CppJsonLib {
    match CppJsonLib::spec_from_word(lowercase_of(trim(v))) {
        Some(x) => x,
        None => CppJsonLib::Nlohmann,
    }
}

/// Warning of a module kind that is neither `esm` nor `commonjs`.
pub open spec fn module_kind_warning(key: Seq<char>, v: Seq<char>) -> WarningView {
    WarningView::Invalid(key + ": invalid value '"@ + v + "', expected 'esm' or 'commonjs'"@)
}

/// A server-side setting applied to the server section.
pub open spec fn server_setting(sv: ServerView, s: Setting, v: Seq<char>) -> (ServerView, Option<
    WarningView,
>) {
    match s {
        Setting::ServerDataOutput => (ServerView { data_output: Some(v), ..sv }, None),
        Setting::JavaPackage => (
            ServerView { java: Some(PackageView { package: Some(v), ..or_package(sv.java) }), ..sv },
            None,
        ),
        Setting::JavaCodeOutput => (
            ServerView {
                java: Some(PackageView { code_output: Some(v), ..or_package(sv.java) }),
                ..sv
            },
            None,
        ),
        Setting::GoPackage => (
            ServerView { go: Some(PackageView { package: Some(v), ..or_package(sv.go) }), ..sv },
            None,
        ),
        Setting::GoCodeOutput => (
            ServerView { go: Some(PackageView { code_output: Some(v), ..or_package(sv.go) }), ..sv },
            None,
        ),
        Setting::CppNamespace => (
            ServerView { cpp: Some(CppView { namespace: Some(v), ..or_cpp(sv.cpp) }), ..sv },
            None,
        ),
        Setting::CppCodeOutput => (
            ServerView { cpp: Some(CppView { code_output: Some(v), ..or_cpp(sv.cpp) }), ..sv },
            None,
        ),
        Setting::CppJsonLib => (
            ServerView { cpp: Some(CppView { json_lib: Some(json_lib_of(v)), ..or_cpp(sv.cpp) }), ..sv },
            None,
        ),
        Setting::DotNetNamespace => (
            ServerView {
                csharp_dotnet: Some(
                    NamespaceView { namespace: Some(v), ..or_namespace(sv.csharp_dotnet) },
                ),
                ..sv
            },
            None,
        ),
        Setting::DotNetCodeOutput => (
            ServerView {
                csharp_dotnet: Some(
                    NamespaceView { code_output: Some(v), ..or_namespace(sv.csharp_dotnet) },
                ),
                ..sv
            },
            None,
        ),
        Setting::ServerTsOutput => (
            ServerView { typescript: Some(TsView { output: Some(v), ..or_ts(sv.typescript) }), ..sv },
            None,
        ),
        _ => match ModuleKind::spec_from_word(lowercase_of(trim(v))) {
            Some(k) => (
                ServerView {
                    typescript: Some(TsView { module_kind: Some(k), ..or_ts(sv.typescript) }),
                    ..sv
                },
                None,
            ),
            None => (
                ServerView { typescript: Some(or_ts(sv.typescript)), ..sv },
                Some(module_kind_warning("export.server.typescript.module_kind"@, v)),
            ),
        },
    }
}

/// A client-side setting applied to the client section.
pub open spec fn client_setting(cv: ClientView, s: Setting, v: Seq<char>) -> (ClientView, Option<
    WarningView,
>) {
    match s {
        Setting::UnityNamespace => (
            ClientView {
                csharp_unity: Some(NamespaceView { namespace: Some(v), ..or_namespace(cv.csharp_unity) }),
                ..cv
            },
            None,
        ),
        Setting::UnityCodeOutput => (
            ClientView {
                csharp_unity: Some(
                    NamespaceView { code_output: Some(v), ..or_namespace(cv.csharp_unity) },
                ),
                ..cv
            },
            None,
        ),
        Setting::GodotNamespace => (
            ClientView {
                csharp_godot: Some(NamespaceView { namespace: Some(v), ..or_namespace(cv.csharp_godot) }),
                ..cv
            },
            None,
        ),
        Setting::GodotCodeOutput => (
            ClientView {
                csharp_godot: Some(
                    NamespaceView { code_output: Some(v), ..or_namespace(cv.csharp_godot) },
                ),
                ..cv
            },
            None,
        ),
        Setting::LuaOutput => (ClientView { lua: Some(Some(v)), ..cv }, None),
        Setting::ClientTsOutput => (
            ClientView { typescript: Some(TsView { output: Some(v), ..or_ts(cv.typescript) }), ..cv },
            None,
        ),
        _ => match ModuleKind::spec_from_word(lowercase_of(trim(v))) {
            Some(k) => (
                ClientView {
                    typescript: Some(TsView { module_kind: Some(k), ..or_ts(cv.typescript) }),
                    ..cv
                },
                None,
            ),
            None => (
                ClientView { typescript: Some(or_ts(cv.typescript)), ..cv },
                Some(module_kind_warning("export.client.typescript.module_kind"@, v)),
            ),
        },
    }
}

pub open spec fn is_server_setting(s: Setting) -> bool {
    s == Setting::ServerDataOutput || s == Setting::JavaPackage || s == Setting::JavaCodeOutput
        || s == Setting::GoPackage || s == Setting::GoCodeOutput || s == Setting::CppNamespace
        || s == Setting::CppCodeOutput || s == Setting::CppJsonLib || s == Setting::DotNetNamespace
        || s == Setting::DotNetCodeOutput || s == Setting::ServerTsOutput || s
        == Setting::ServerTsModuleKind
}

/// The export configuration once setting `s` takes the value `v`: the
/// sections on the way to it are created empty when missing.
pub open spec fn apply_setting(e: Option<ExportView>, s: Setting, v: Seq<char>) -> (
    ExportView,
    Option<WarningView>,
) {
    let x = or_export(e);
    match s {
        Setting::Encoding => (ExportView { encoding: Some(encoding_of(v)), ..x }, None),
        Setting::LineEnding => (ExportView { line_ending: Some(line_ending_of(v)), ..x }, None),
        Setting::JsonEmptyAs => (ExportView { json: Some(Some(json_empty_of(v))), ..x }, None),
        Setting::XmlEmptyAs => (ExportView { xml: Some(Some(xml_empty_of(v))), ..x }, None),
        _ => if is_server_setting(s) {
            let (sv, w) = server_setting(or_server(x.server), s, v);
            (ExportView { server: Some(sv), ..x }, w)
        } else {
            let (cv, w) = client_setting(or_client(x.client), s, v);
            (ExportView { client: Some(cv), ..x }, w)
        },
    }
}

/// One override item: `key=value` split at the first `=`, the key read
/// trimmed and the value as it stands.
pub open spec fn override_item(e: Option<ExportView>, item: Seq<char>) -> (
    Option<ExportView>,
    Option<WarningView>,
) {
    match first_index(item, '=') {
        None => (e, Some(WarningView::InvalidFormat(item))),
        Some(i) => {
            let key = item.take(i);
            let value = item.skip(i + 1);
            match spec_key_kind(trim(key)) {
                KeyKind::Retired(n) => (
                    e,
                    Some(WarningView::Deprecated { key, hint: spec_retired_hint(n) }),
                ),
                KeyKind::Unknown => (e, Some(WarningView::Unknown(trim(key)))),
                KeyKind::Assign(s) => {
                    let (x, w) = apply_setting(e, s, value);
                    (Some(x), w)
                },
            }
        },
    }
}

/// The export configuration and the warnings after `items` in order.
pub open spec fn spec_apply_overrides(e: Option<ExportView>, items: Seq<Seq<char>>) -> (
    Option<ExportView>,
    Seq<WarningView>,
)
    decreases items.len(),
{
    if items.len() == 0 {
        (e, seq![])
    } else {
        let (e1, ws) = spec_apply_overrides(e, items.drop_last());
        let (e2, w) = override_item(e1, items.last());
        (
            e2,
            match w {
                Some(x) => ws.push(x),
                None => ws,
            },
        )
    }
}

fn or_new_export(o: Option<ExportConfig>) -> (r: ExportConfig)
    ensures
        r@ == or_export(opt_view(o)),
{
    match o {
        Some(x) => x,
        None => ExportConfig {
            json: None,
            xml: None,
            server: None,
            client: None,
            encoding: None,
            line_ending: None,
        },
    }
}

fn or_new_server(o: Option<ServerExport>) -> (r: ServerExport)
    ensures
        r@ == or_server(opt_view(o)),
{
    match o {
        Some(x) => x,
        None => ServerExport {
            data_output: None,
            java: None,
            go: None,
            cpp: None,
            csharp_dotnet: None,
            typescript: None,
        },
    }
}

fn or_new_client(o: Option<ClientConfig>) -> (r: ClientConfig)
    ensures
        r@ == or_client(opt_view(o)),
{
    match o {
        Some(x) => x,
        None => ClientConfig {
            lua: None,
            gdscript: None,
            typescript: None,
            csharp_unity: None,
            csharp_godot: None,
        },
    }
}

fn or_new_java(o: Option<JavaExport>) -> (r: JavaExport)
    ensures
        r@ == or_package(opt_view(o)),
{
    match o {
        Some(x) => x,
        None => JavaExport { package: None, code_output: None },
    }
}

fn or_new_go(o: Option<GoExport>) -> (r: GoExport)
    ensures
        r@ == or_package(opt_view(o)),
{
    match o {
        Some(x) => x,
        None => GoExport { package: None, code_output: None },
    }
}

fn or_new_cpp(o: Option<CppExport>) -> (r: CppExport)
    ensures
        r@ == or_cpp(opt_view(o)),
{
    match o {
        Some(x) => x,
        None => CppExport { namespace: None, code_output: None, json_lib: None },
    }
}

fn or_new_dotnet(o: Option<DotNetExport>) -> (r: DotNetExport)
    ensures
        r@ == or_namespace(opt_view(o)),
{
    match o {
        Some(x) => x,
        None => DotNetExport { namespace: None, code_output: None },
    }
}

fn or_new_unity(o: Option<UnityCSharpExport>) -> (r: UnityCSharpExport)
    ensures
        r@ == or_namespace(opt_view(o)),
{
    match o {
        Some(x) => x,
        None => UnityCSharpExport { namespace: None, code_output: None },
    }
}

fn or_new_godot(o: Option<GodotCSharpExport>) -> (r: GodotCSharpExport)
    ensures
        r@ == or_namespace(opt_view(o)),
{
    match o {
        Some(x) => x,
        None => GodotCSharpExport { namespace: None, code_output: None },
    }
}

fn or_new_server_ts(o: Option<ServerTypeScriptExport>) -> (r: ServerTypeScriptExport)
    ensures
        r@ == or_ts(opt_view(o)),
{
    match o {
        Some(x) => x,
        None => ServerTypeScriptExport { output: None, module_kind: None },
    }
}

fn or_new_client_ts(o: Option<ClientTypeScriptExport>) -> (r: ClientTypeScriptExport)
    ensures
        r@ == or_ts(opt_view(o)),
{
    match o {
        Some(x) => x,
        None => ClientTypeScriptExport { output: None, module_kind: None },
    }
}

fn module_kind_invalid(key: &str, v: &str) -> (r: OverrideWarning)
    ensures
        r@ == module_kind_warning(key@, v@),
{
    OverrideWarning::Invalid(
        String::from_str(key).concat(": invalid value '").concat(v).concat(
            "', expected 'esm' or 'commonjs'",
        ),
    )
}

fn apply_server_setting(sv: &mut ServerExport, s: Setting, v: &str) -> (w: Option<OverrideWarning>)
    requires
        is_server_setting(s),
    ensures
        (final(sv)@, opt_view(w)) == server_setting(old(sv)@, s, v@),
{
    let value = String::from_str(v);
    match s {
        Setting::ServerDataOutput => {
            sv.data_output = Some(value);
            None
        },
        Setting::JavaPackage => {
            let mut j = or_new_java(sv.java.take());
            j.package = Some(value);
            sv.java = Some(j);
            None
        },
        Setting::JavaCodeOutput => {
            let mut j = or_new_java(sv.java.take());
            j.code_output = Some(value);
            sv.java = Some(j);
            None
        },
        Setting::GoPackage => {
            let mut g = or_new_go(sv.go.take());
            g.package = Some(value);
            sv.go = Some(g);
            None
        },
        Setting::GoCodeOutput => {
            let mut g = or_new_go(sv.go.take());
            g.code_output = Some(value);
            sv.go = Some(g);
            None
        },
        Setting::CppNamespace => {
            let mut c = or_new_cpp(sv.cpp.take());
            c.namespace = Some(value);
            sv.cpp = Some(c);
            None
        },
        Setting::CppCodeOutput => {
            let mut c = or_new_cpp(sv.cpp.take());
            c.code_output = Some(value);
            sv.cpp = Some(c);
            None
        },
        Setting::CppJsonLib => {
            let mut c = or_new_cpp(sv.cpp.take());
            c.json_lib = Some(
                match CppJsonLib::parse_name(v) {
                    Ok(x) => x,
                    Err(_) => CppJsonLib::default(),
                },
            );
            sv.cpp = Some(c);
            None
        },
        Setting::DotNetNamespace => {
            let mut d = or_new_dotnet(sv.csharp_dotnet.take());
            d.namespace = Some(value);
            sv.csharp_dotnet = Some(d);
            None
        },
        Setting::DotNetCodeOutput => {
            let mut d = or_new_dotnet(sv.csharp_dotnet.take());
            d.code_output = Some(value);
            sv.csharp_dotnet = Some(d);
            None
        },
        Setting::ServerTsOutput => {
            let mut t = or_new_server_ts(sv.typescript.take());
            t.output = Some(value);
            sv.typescript = Some(t);
            None
        },
        _ => {
            let mut t = or_new_server_ts(sv.typescript.take());
            let w = match ModuleKind::parse_name(v) {
                Ok(k) => {
                    t.module_kind = Some(k);
                    None
                },
                Err(_) => Some(module_kind_invalid("export.server.typescript.module_kind", v)),
            };
            sv.typescript = Some(t);
            w
        },
    }
}

fn apply_client_setting(cv: &mut ClientConfig, s: Setting, v: &str) -> (w: Option<OverrideWarning>)
    requires
        !is_server_setting(s),
        s != Setting::Encoding,
        s != Setting::LineEnding,
        s != Setting::JsonEmptyAs,
        s != Setting::XmlEmptyAs,
    ensures
        (final(cv)@, opt_view(w)) == client_setting(old(cv)@, s, v@),
{
    let value = String::from_str(v);
    match s {
        Setting::UnityNamespace => {
            let mut u = or_new_unity(cv.csharp_unity.take());
            u.namespace = Some(value);
            cv.csharp_unity = Some(u);
            None
        },
        Setting::UnityCodeOutput => {
            let mut u = or_new_unity(cv.csharp_unity.take());
            u.code_output = Some(value);
            cv.csharp_unity = Some(u);
            None
        },
        Setting::GodotNamespace => {
            let mut g = or_new_godot(cv.csharp_godot.take());
            g.namespace = Some(value);
            cv.csharp_godot = Some(g);
            None
        },
        Setting::GodotCodeOutput => {
            let mut g = or_new_godot(cv.csharp_godot.take());
            g.code_output = Some(value);
            cv.csharp_godot = Some(g);
            None
        },
        Setting::LuaOutput => {
            let mut l = match cv.lua.take() {
                Some(l) => l,
                None => LuaExport { output: None },
            };
            l.output = Some(value);
            cv.lua = Some(l);
            None
        },
        Setting::ClientTsOutput => {
            let mut t = or_new_client_ts(cv.typescript.take());
            t.output = Some(value);
            cv.typescript = Some(t);
            None
        },
        _ => {
            let mut t = or_new_client_ts(cv.typescript.take());
            let w = match ModuleKind::parse_name(v) {
                Ok(k) => {
                    t.module_kind = Some(k);
                    None
                },
                Err(_) => Some(module_kind_invalid("export.client.typescript.module_kind", v)),
            };
            cv.typescript = Some(t);
            w
        },
    }
}

fn apply_setting_to(config: &mut ProjectConfig, s: Setting, v: &str) -> (w: Option<OverrideWarning>)
    ensures
        (opt_view(final(config).export), opt_view(w)) == ({
            let (x, w) = apply_setting(opt_view(old(config).export), s, v@);
            (Some(x), w)
        }),
        final(config).separators == old(config).separators,
{
    let mut x = or_new_export(config.export.take());
    let w = match s {
        Setting::Encoding => {
            x.encoding = Some(
                match Encoding::parse_name(v) {
                    Ok(e) => e,
                    Err(_) => Encoding::default(),
                },
            );
            None
        },
        Setting::LineEnding => {
            x.line_ending = Some(
                match LineEnding::parse_name(v) {
                    Ok(e) => e,
                    Err(_) => LineEnding::default(),
                },
            );
            None
        },
        Setting::JsonEmptyAs => {
            let mut j = match x.json.take() {
                Some(j) => j,
                None => JsonExport { empty_as: None },
            };
            j.empty_as = Some(
                match JsonEmptyAs::parse_name(v) {
                    Ok(e) => e,
                    Err(_) => JsonEmptyAs::default(),
                },
            );
            x.json = Some(j);
            None
        },
        Setting::XmlEmptyAs => {
            let mut m = match x.xml.take() {
                Some(m) => m,
                None => XmlExport { empty_as: None },
            };
            m.empty_as = Some(
                match XmlEmptyAs::parse_name(v) {
                    Ok(e) => e,
                    Err(_) => XmlEmptyAs::default(),
                },
            );
            x.xml = Some(m);
            None
        },
        _ => {
            if is_server_key(s) {
                let mut sv = or_new_server(x.server.take());
                let w = apply_server_setting(&mut sv, s, v);
                x.server = Some(sv);
                w
            } else {
                let mut cv = or_new_client(x.client.take());
                let w = apply_client_setting(&mut cv, s, v);
                x.client = Some(cv);
                w
            }
        },
    };
    config.export = Some(x);
    w
}

fn is_server_key(s: Setting) -> (r: bool)
    ensures
        r == is_server_setting(s),
{
    s == Setting::ServerDataOutput || s == Setting::JavaPackage || s == Setting::JavaCodeOutput
        || s == Setting::GoPackage || s == Setting::GoCodeOutput || s == Setting::CppNamespace
        || s == Setting::CppCodeOutput || s == Setting::CppJsonLib || s == Setting::DotNetNamespace
        || s == Setting::DotNetCodeOutput || s == Setting::ServerTsOutput || s
        == Setting::ServerTsModuleKind
}

fn apply_item(config: &mut ProjectConfig, item: &String) -> (w: Option<OverrideWarning>)
    ensures
        (opt_view(final(config).export), opt_view(w)) == override_item(
            opt_view(old(config).export),
            item@,
        ),
        final(config).separators == old(config).separators,
{
    let cs = chars_of(item.as_str());
    match find_char(cs.as_slice(), '=') {
        None => Some(OverrideWarning::InvalidFormat(item.clone())),
        Some(i) => {
            proof {
                crate::text::lemma_first_index_bounds(cs@, '=');
            }
            let key = sub_chars(cs.as_slice(), 0, i);
            let value = string_of_chars(sub_chars(cs.as_slice(), i + 1, cs.len()).as_slice());
            assert(key@ =~= item@.take(i as int));
            let k = trim_chars(key.as_slice());
            match key_kind(k.as_slice()) {
                KeyKind::Retired(n) => Some(
                    OverrideWarning::Deprecated {
                        key: string_of_chars(key.as_slice()),
                        hint: retired_hint(n),
                    },
                ),
                KeyKind::Unknown => Some(OverrideWarning::Unknown(string_of_chars(k.as_slice()))),
                KeyKind::Assign(s) => {
                    assert(value@ =~= item@.skip(i + 1));
                    apply_setting_to(config, s, value.as_str())
                },
            }
        },
    }
}

/// Applies `key=value` overrides to a project's export configuration in
/// order, and collects a warning for each item without `=`, each retired
/// or unknown key, and each module kind that is neither `esm` nor
/// `commonjs`. The separators stay as they are.
pub fn apply_overrides(config: &mut ProjectConfig, overrides: &[String]) -> (r: OverrideOutcome)
    ensures
        opt_view(final(config).export) == spec_apply_overrides(
            opt_view(old(config).export),
            overrides@.map_values(|s: String| s@),
        ).0,
        warnings_view(r.warnings@) == spec_apply_overrides(
            opt_view(old(config).export),
            overrides@.map_values(|s: String| s@),
        ).1,
        final(config).separators == old(config).separators,
{
    let ghost e0 = opt_view(config.export);
    let ghost items = overrides@.map_values(|s: String| s@);
    let mut warnings: Vec<OverrideWarning> = Vec::new();
    let mut i: usize = 0;
    assert(items.take(0) =~= Seq::<Seq<char>>::empty());
    while i < overrides.len()
        invariant
            i <= overrides@.len(),
            items == overrides@.map_values(|s: String| s@),
            opt_view(config.export) == spec_apply_overrides(e0, items.take(i as int)).0,
            warnings_view(warnings@) == spec_apply_overrides(e0, items.take(i as int)).1,
            config.separators == old(config).separators,
        decreases overrides.len() - i,
    {
        assert(items.take(i + 1).drop_last() =~= items.take(i as int));
        assert(items.take(i + 1).last() == overrides@[i as int]@);
        let ghost prev = warnings_view(warnings@);
        let w = apply_item(config, &overrides[i]);
        match w {
            Some(x) => {
                warnings.push(x);
                assert(warnings_view(warnings@) =~= prev.push(x@));
            },
            None => {},
        }
        i = i + 1;
    }
    assert(items.take(i as int) =~= items);
    OverrideOutcome { warnings }
}

} // verus!
