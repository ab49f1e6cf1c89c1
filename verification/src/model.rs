//! The in-memory model of a project: its configuration, and its groups of
//! tables, constants and enums.
//!
//! Paths are held as strings and joined with `/`.

use vstd::prelude::*;
use crate::enums::{
    CppJsonLib, Encoding, JsonEmptyAs, LineEnding, LogLevel, ModuleKind, PickerTrigger,
    ProjectSort, RefPickerStrategy, XmlEmptyAs,
};
use crate::tblschema::TblSchema;
use crate::text::{chars_of, str_is, string_of_chars, trim, trim_str};
use crate::types::SeparatorsSection;

verus! {

/// `seg` joined onto the path `base` with `/`, as std's `Path::join` does
/// with `/`-separated paths: an absolute `seg` replaces `base`, an empty
/// `base` gives `seg`, and no second `/` is added after a trailing one.
pub open spec fn path_join(base: Seq<char>, seg: Seq<char>) -> Seq<char> {
    if seg.len() > 0 && seg[0] == '/' {
        seg
    } else if base.len() == 0 || base.last() == '/' {
        base + seg
    } else {
        base + seq!['/'] + seg
    }
}

/// Joins two paths (see [`path_join`]).
pub fn join_path(base: &str, seg: &str) -> (r: String)
    ensures
        r@ == path_join(base@, seg@),
{
    let b = chars_of(base);
    let g = chars_of(seg);
    if g.len() > 0 && g[0] == '/' {
        return string_of_chars(g.as_slice());
    }
    let mut out = b;
    if out.len() > 0 && out[out.len() - 1] != '/' {
        out.push('/');
    }
    let mut i: usize = 0;
    let ghost start = out@;
    while i < g.len()
        invariant
            i <= g@.len(),
            out@ == start + g@.take(i as int),
        decreases g.len() - i,
    {
        out.push(g[i]);
        assert(g@.take(i + 1) =~= g@.take(i as int).push(g@[i as int]));
        i = i + 1;
    }
    assert(g@.take(i as int) =~= g@);
    proof {
        if !(b@.len() == 0 || b@.last() == '/') {
            assert(start =~= b@ + seq!['/']);
        } else {
            assert(start =~= b@);
        }
    }
    string_of_chars(out.as_slice())
}

/// Whether a project has been saved to disk.
#[derive(Clone, Copy, Debug, PartialEq, Eq, Structural)]
pub enum ProjectState {
    /// Loaded from disk.
    Loaded,
    /// Created and not saved yet.
    Pending,
}

impl ProjectState {
    pub fn is_loaded(&self) -> (r: bool)
        ensures
            r == (*self == ProjectState::Loaded),
    {
        match self {
            ProjectState::Loaded => true,
            ProjectState::Pending => false,
        }
    }

    pub fn is_pending(&self) -> (r: bool)
        ensures
            r == (*self == ProjectState::Pending),
    {
        match self {
            ProjectState::Loaded => false,
            ProjectState::Pending => true,
        }
    }
}

/// A project: its directories, configuration, schema and data.
#[derive(Clone, Debug)]
pub struct Project {
    /// Directory of the workspace configuration file.
    pub workdir: String,
    /// Root directory of this project.
    pub project_root: String,
    /// Configuration as read from the project file.
    pub raw_config: ProjectConfig,
    /// Effective configuration (workspace, project and schema merged).
    pub config: ProjectConfig,
    /// Identity and structure of the project.
    pub schema: TblSchema,
    pub groups: Vec<Group>,
    /// Whether the schema must be written back.
    pub schema_dirty: bool,
    pub state: ProjectState,
}

impl Project {
    /// Directory of the `.tbl` files: `<project_root>/config`.
    pub fn data_dir(&self) -> (r: String)
        ensures
            r@ == path_join(self.project_root@, "config"@),
    {
        join_path(self.project_root.as_str(), "config")
    }

    /// Cache directory: `<project_root>/.tbl-cache`.
    pub fn cache_dir(&self) -> (r: String)
        ensures
            r@ == path_join(self.project_root@, ".tbl-cache"@),
    {
        join_path(self.project_root.as_str(), ".tbl-cache")
    }

    /// Root of the generated files: the project root itself.
    pub fn export_root(&self) -> (r: &str)
        ensures
            r@ == self.project_root@,
    {
        self.project_root.as_str()
    }
}

/// The `[project]` section of the workspace file: which projects are open
/// and how the list is sorted.
#[derive(Clone, Debug)]
pub struct ProjectManagementConfig {
    pub last_project: String,
    pub opened_projects: Vec<String>,
    pub project_sort: ProjectSort,
    /// Order of the projects when `project_sort` is `Manual`.
    pub project_order: Vec<String>,
}

impl Default for ProjectManagementConfig {
    fn default() -> (r: Self)
        ensures
            r.last_project@.len() == 0,
            r.opened_projects@.len() == 0,
            r.project_sort == ProjectSort::Id,
            r.project_order@.len() == 0,
    {
        ProjectManagementConfig {
            last_project: String::new(),
            opened_projects: Vec::new(),
            project_sort: ProjectSort::Id,
            project_order: Vec::new(),
        }
    }
}

/// The workspace configuration file.
#[derive(Clone, Debug)]
pub struct GlobalConfig {
    pub project_management: ProjectManagementConfig,
    pub export: Option<ExportConfig>,
    pub ui: Option<UiConfig>,
    pub separators: SeparatorsSection,
}

impl Default for GlobalConfig {
    fn default() -> (r: Self)
        ensures
            r.export is Some,
            r.ui is Some,
            r.separators.is_default(),
            r.project_management.project_sort == ProjectSort::Id,
            r.project_management.last_project@.len() == 0,
    {
        GlobalConfig {
            project_management: ProjectManagementConfig::default(),
            export: Some(ExportConfig::default()),
            ui: Some(UiConfig::default()),
            separators: SeparatorsSection::default(),
        }
    }
}

/// Export settings.
#[derive(Clone, Debug)]
pub struct ExportConfig {
    pub json: Option<JsonExport>,
    pub xml: Option<XmlExport>,
    pub server: Option<ServerExport>,
    pub client: Option<ClientConfig>,
    pub encoding: Option<Encoding>,
    pub line_ending: Option<LineEnding>,
}

impl Default for ExportConfig {
    fn default() -> (r: Self)
        ensures
            r@ == default_export_view(),
    {
        ExportConfig {
            json: Some(JsonExport::default()),
            xml: Some(XmlExport::default()),
            server: Some(ServerExport::default()),
            client: Some(ClientConfig::default()),
            encoding: Some(Encoding::Utf8),
            line_ending: Some(LineEnding::Lf),
        }
    }
}

#[derive(Clone, Debug)]
pub struct JsonExport {
    pub empty_as: Option<JsonEmptyAs>,
}

impl Default for JsonExport {
    fn default() -> (r: Self)
        ensures
            r.empty_as == Some(JsonEmptyAs::Null),
    {
        JsonExport { empty_as: Some(JsonEmptyAs::Null) }
    }
}

#[derive(Clone, Debug)]
pub struct XmlExport {
    pub empty_as: Option<XmlEmptyAs>,
}

impl Default for XmlExport {
    fn default() -> (r: Self)
        ensures
            r.empty_as == Some(XmlEmptyAs::Empty),
    {
        XmlExport { empty_as: Some(XmlEmptyAs::Empty) }
    }
}

pub open spec fn some_text(o: Option<String>, s: Seq<char>) -> bool {
    o matches Some(t) && t@ == s
}

/// Server side export settings.
#[derive(Clone, Debug)]
pub struct ServerExport {
    pub data_output: Option<String>,
    pub java: Option<JavaExport>,
    pub go: Option<GoExport>,
    pub cpp: Option<CppExport>,
    pub csharp_dotnet: Option<DotNetExport>,
    pub typescript: Option<ServerTypeScriptExport>,
}

impl Default for ServerExport {
    fn default() -> (r: Self)
        ensures
            r@ == default_server_view(),
    {
        ServerExport {
            data_output: Some(String::from_str("gen/server/data")),
            java: Some(JavaExport::default()),
            go: Some(GoExport::default()),
            cpp: Some(CppExport::default()),
            csharp_dotnet: Some(DotNetExport::default()),
            typescript: Some(ServerTypeScriptExport::default()),
        }
    }
}

#[derive(Clone, Debug)]
pub struct JavaExport {
    pub package: Option<String>,
    pub code_output: Option<String>,
}

impl Default for JavaExport {
    fn default() -> (r: Self)
        ensures
            r@ == default_java_view(),
    {
        JavaExport {
            package: Some(String::from_str("com.game.config")),
            code_output: Some(String::from_str("gen/server/java")),
        }
    }
}

#[derive(Clone, Debug)]
pub struct GoExport {
    pub package: Option<String>,
    pub code_output: Option<String>,
}

impl Default for GoExport {
    fn default() -> (r: Self)
        ensures
            r@ == default_go_view(),
    {
        GoExport {
            package: Some(String::from_str("config")),
            code_output: Some(String::from_str("gen/server/go")),
        }
    }
}

#[derive(Clone, Debug)]
pub struct CppExport {
    pub namespace: Option<String>,
    pub code_output: Option<String>,
    pub json_lib: Option<CppJsonLib>,
}

impl Default for CppExport {
    fn default() -> (r: Self)
        ensures
            r@ == default_cpp_view(),
    {
        CppExport {
            namespace: Some(String::from_str("game::config")),
            code_output: Some(String::from_str("gen/server/cpp")),
            json_lib: Some(CppJsonLib::Nlohmann),
        }
    }
}

/// .NET server C# export.
#[derive(Clone, Debug)]
pub struct DotNetExport {
    pub namespace: Option<String>,
    pub code_output: Option<String>,
}

impl Default for DotNetExport {
    fn default() -> (r: Self)
        ensures
            r@ == default_dotnet_view(),
    {
        DotNetExport {
            namespace: Some(String::from_str("Game.Config.Server")),
            code_output: Some(String::from_str("gen/server/csharp")),
        }
    }
}

/// Unity client C# export.
#[derive(Clone, Debug)]
pub struct UnityCSharpExport {
    pub namespace: Option<String>,
    pub code_output: Option<String>,
}

impl Default for UnityCSharpExport {
    fn default() -> (r: Self)
        ensures
            r@ == default_unity_view(),
    {
        UnityCSharpExport {
            namespace: Some(String::from_str("Game.Config.Client")),
            code_output: Some(String::from_str("gen/client/csharp_unity")),
        }
    }
}

/// Godot client C# export.
#[derive(Clone, Debug)]
pub struct GodotCSharpExport {
    pub namespace: Option<String>,
    pub code_output: Option<String>,
}

impl Default for GodotCSharpExport {
    fn default() -> (r: Self)
        ensures
            r@ == default_godot_view(),
    {
        GodotCSharpExport {
            namespace: Some(String::from_str("Game.Config.Client")),
            code_output: Some(String::from_str("gen/client/csharp_godot")),
        }
    }
}

/// Client side export settings.
#[derive(Clone, Debug)]
pub struct ClientConfig {
    pub lua: Option<LuaExport>,
    pub gdscript: Option<GdScriptExport>,
    pub typescript: Option<ClientTypeScriptExport>,
    pub csharp_unity: Option<UnityCSharpExport>,
    pub csharp_godot: Option<GodotCSharpExport>,
}

impl Default for ClientConfig {
    fn default() -> (r: Self)
        ensures
            r@ == default_client_view(),
    {
        ClientConfig {
            lua: Some(LuaExport::default()),
            gdscript: Some(GdScriptExport::default()),
            typescript: Some(ClientTypeScriptExport::default()),
            csharp_unity: Some(UnityCSharpExport::default()),
            csharp_godot: Some(GodotCSharpExport::default()),
        }
    }
}

#[derive(Clone, Debug)]
pub struct LuaExport {
    pub output: Option<String>,
}

impl Default for LuaExport {
    fn default() -> (r: Self)
        ensures
            some_text(r.output, "gen/client"@),
    {
        LuaExport { output: Some(String::from_str("gen/client")) }
    }
}

#[derive(Clone, Debug)]
pub struct GdScriptExport {
    pub output: Option<String>,
}

impl Default for GdScriptExport {
    fn default() -> (r: Self)
        ensures
            some_text(r.output, "gen/client/gdscript"@),
    {
        GdScriptExport { output: Some(String::from_str("gen/client/gdscript")) }
    }
}

#[derive(Clone, Debug)]
pub struct ServerTypeScriptExport {
    pub output: Option<String>,
    pub module_kind: Option<ModuleKind>,
}

impl Default for ServerTypeScriptExport {
    fn default() -> (r: Self)
        ensures
            r@ == default_server_ts_view(),
    {
        ServerTypeScriptExport {
            output: Some(String::from_str("gen/server/typescript")),
            module_kind: Some(ModuleKind::Esm),
        }
    }
}

#[derive(Clone, Debug)]
pub struct ClientTypeScriptExport {
    pub output: Option<String>,
    pub module_kind: Option<ModuleKind>,
}

impl Default for ClientTypeScriptExport {
    fn default() -> (r: Self)
        ensures
            r@ == default_client_ts_view(),
    {
        ClientTypeScriptExport {
            output: Some(String::from_str("gen/client/typescript")),
            module_kind: Some(ModuleKind::Esm),
        }
    }
}

/// User interface settings.
#[derive(Clone, Debug)]
pub struct UiConfig {
    pub auto_commit_on_blur: bool,
    pub realtime_validate: bool,
    pub log_level: Option<LogLevel>,
    pub ref_picker: RefPickerConfig,
    /// How header picker cells open their picker.
    pub picker_trigger_header: PickerTrigger,
    /// How data picker cells open their picker.
    pub picker_trigger_data: PickerTrigger,
    /// Whether lists show ids rather than names.
    pub show_meta_id: bool,
    /// Whether constants may hold `@Xxx` reference types.
    pub constant_ref_allowed: bool,
}

impl Default for UiConfig {
    fn default() -> (r: Self)
        ensures
            r.auto_commit_on_blur,
            !r.realtime_validate,
            r.log_level == Some(LogLevel::Debug),
            r.ref_picker.default_strategy == RefPickerStrategy::Auto,
            r.picker_trigger_header == PickerTrigger::Single,
            r.picker_trigger_data == PickerTrigger::Double,
            !r.show_meta_id,
            r.constant_ref_allowed,
    {
        UiConfig {
            auto_commit_on_blur: true,
            realtime_validate: false,
            log_level: Some(LogLevel::Debug),
            ref_picker: RefPickerConfig::default(),
            picker_trigger_header: PickerTrigger::Single,
            picker_trigger_data: PickerTrigger::Double,
            show_meta_id: false,
            constant_ref_allowed: true,
        }
    }
}

/// Settings of the reference picker.
#[derive(Clone, Debug)]
pub struct RefPickerConfig {
    pub default_strategy: RefPickerStrategy,
}

impl Default for RefPickerConfig {
    fn default() -> (r: Self)
        ensures
            r.default_strategy == RefPickerStrategy::Auto,
    {
        RefPickerConfig { default_strategy: RefPickerStrategy::Auto }
    }
}

/// Project level configuration.
#[derive(Clone, Debug)]
pub struct ProjectConfig {
    pub export: Option<ExportConfig>,
    pub separators: SeparatorsSection,
}

impl Default for ProjectConfig {
    fn default() -> (r: Self)
        ensures
            r.export is None,
            r.separators.is_default(),
    {
        ProjectConfig { export: None, separators: SeparatorsSection::default() }
    }
}

// ───────────────────────── views ─────────────────────────

pub open spec fn opt_text(o: Option<String>) -> Option<Seq<char>> {
    match o {
        Some(s) => Some(s@),
        None => None,
    }
}

/// A section with a package and an output directory.
pub struct PackageView {
    pub package: Option<Seq<char>>,
    pub code_output: Option<Seq<char>>,
}

/// A section with a namespace and an output directory.
pub struct NamespaceView {
    pub namespace: Option<Seq<char>>,
    pub code_output: Option<Seq<char>>,
}

pub struct CppView {
    pub namespace: Option<Seq<char>>,
    pub code_output: Option<Seq<char>>,
    pub json_lib: Option<CppJsonLib>,
}

pub struct TsView {
    pub output: Option<Seq<char>>,
    pub module_kind: Option<ModuleKind>,
}

pub struct ServerView {
    pub data_output: Option<Seq<char>>,
    pub java: Option<PackageView>,
    pub go: Option<PackageView>,
    pub cpp: Option<CppView>,
    pub csharp_dotnet: Option<NamespaceView>,
    pub typescript: Option<TsView>,
}

pub struct ClientView {
    pub lua: Option<Option<Seq<char>>>,
    pub gdscript: Option<Option<Seq<char>>>,
    pub typescript: Option<TsView>,
    pub csharp_unity: Option<NamespaceView>,
    pub csharp_godot: Option<NamespaceView>,
}

/// The export configuration as values.
pub struct ExportView {
    pub json: Option<Option<JsonEmptyAs>>,
    pub xml: Option<Option<XmlEmptyAs>>,
    pub server: Option<ServerView>,
    pub client: Option<ClientView>,
    pub encoding: Option<Encoding>,
    pub line_ending: Option<LineEnding>,
}

impl View for JavaExport {
    type V = PackageView;

    open spec fn view(&self) -> PackageView {
        PackageView { package: opt_text(self.package), code_output: opt_text(self.code_output) }
    }
}

impl View for GoExport {
    type V = PackageView;

    open spec fn view(&self) -> PackageView {
        PackageView { package: opt_text(self.package), code_output: opt_text(self.code_output) }
    }
}

impl View for CppExport {
    type V = CppView;

    open spec fn view(&self) -> CppView {
        CppView {
            namespace: opt_text(self.namespace),
            code_output: opt_text(self.code_output),
            json_lib: self.json_lib,
        }
    }
}

impl View for DotNetExport {
    type V = NamespaceView;

    open spec fn view(&self) -> NamespaceView {
        NamespaceView { namespace: opt_text(self.namespace), code_output: opt_text(self.code_output) }
    }
}

impl View for UnityCSharpExport {
    type V = NamespaceView;

    open spec fn view(&self) -> NamespaceView {
        NamespaceView { namespace: opt_text(self.namespace), code_output: opt_text(self.code_output) }
    }
}

impl View for GodotCSharpExport {
    type V = NamespaceView;

    open spec fn view(&self) -> NamespaceView {
        NamespaceView { namespace: opt_text(self.namespace), code_output: opt_text(self.code_output) }
    }
}

impl View for ServerTypeScriptExport {
    type V = TsView;

    open spec fn view(&self) -> TsView {
        TsView { output: opt_text(self.output), module_kind: self.module_kind }
    }
}

impl View for ClientTypeScriptExport {
    type V = TsView;

    open spec fn view(&self) -> TsView {
        TsView { output: opt_text(self.output), module_kind: self.module_kind }
    }
}

pub open spec fn opt_view<T: View>(o: Option<T>) -> Option<T::V> {
    match o {
        Some(x) => Some(x@),
        None => None,
    }
}

impl View for ServerExport {
    type V = ServerView;

    open spec fn view(&self) -> ServerView {
        ServerView {
            data_output: opt_text(self.data_output),
            java: opt_view(self.java),
            go: opt_view(self.go),
            cpp: opt_view(self.cpp),
            csharp_dotnet: opt_view(self.csharp_dotnet),
            typescript: opt_view(self.typescript),
        }
    }
}

impl View for ClientConfig {
    type V = ClientView;

    open spec fn view(&self) -> ClientView {
        ClientView {
            lua: match self.lua {
                Some(l) => Some(opt_text(l.output)),
                None => None,
            },
            gdscript: match self.gdscript {
                Some(g) => Some(opt_text(g.output)),
                None => None,
            },
            typescript: opt_view(self.typescript),
            csharp_unity: opt_view(self.csharp_unity),
            csharp_godot: opt_view(self.csharp_godot),
        }
    }
}

impl View for ExportConfig {
    type V = ExportView;

    open spec fn view(&self) -> ExportView {
        ExportView {
            json: match self.json {
                Some(j) => Some(j.empty_as),
                None => None,
            },
            xml: match self.xml {
                Some(x) => Some(x.empty_as),
                None => None,
            },
            server: opt_view(self.server),
            client: opt_view(self.client),
            encoding: self.encoding,
            line_ending: self.line_ending,
        }
    }
}

/// The export configuration that [`ExportConfig::default`] gives.
pub open spec fn default_java_view() -> PackageView {
    PackageView { package: Some("com.game.config"@), code_output: Some("gen/server/java"@) }
}

pub open spec fn default_go_view() -> PackageView {
    PackageView { package: Some("config"@), code_output: Some("gen/server/go"@) }
}

pub open spec fn default_cpp_view() -> CppView {
    CppView {
        namespace: Some("game::config"@),
        code_output: Some("gen/server/cpp"@),
        json_lib: Some(CppJsonLib::Nlohmann),
    }
}

pub open spec fn default_dotnet_view() -> NamespaceView {
    NamespaceView { namespace: Some("Game.Config.Server"@), code_output: Some("gen/server/csharp"@) }
}

pub open spec fn default_unity_view() -> NamespaceView {
    NamespaceView {
        namespace: Some("Game.Config.Client"@),
        code_output: Some("gen/client/csharp_unity"@),
    }
}

pub open spec fn default_godot_view() -> NamespaceView {
    NamespaceView {
        namespace: Some("Game.Config.Client"@),
        code_output: Some("gen/client/csharp_godot"@),
    }
}

pub open spec fn default_server_ts_view() -> TsView {
    TsView { output: Some("gen/server/typescript"@), module_kind: Some(ModuleKind::Esm) }
}

pub open spec fn default_client_ts_view() -> TsView {
    TsView { output: Some("gen/client/typescript"@), module_kind: Some(ModuleKind::Esm) }
}

pub open spec fn default_server_view() -> ServerView {
    ServerView {
        data_output: Some("gen/server/data"@),
        java: Some(default_java_view()),
        go: Some(default_go_view()),
        cpp: Some(default_cpp_view()),
        csharp_dotnet: Some(default_dotnet_view()),
        typescript: Some(default_server_ts_view()),
    }
}

pub open spec fn default_client_view() -> ClientView {
    ClientView {
        lua: Some(Some("gen/client"@)),
        gdscript: Some(Some("gen/client/gdscript"@)),
        typescript: Some(default_client_ts_view()),
        csharp_unity: Some(default_unity_view()),
        csharp_godot: Some(default_godot_view()),
    }
}

pub open spec fn default_export_view() -> ExportView {
    ExportView {
        json: Some(Some(JsonEmptyAs::Null)),
        xml: Some(Some(XmlEmptyAs::Empty)),
        server: Some(default_server_view()),
        client: Some(default_client_view()),
        encoding: Some(Encoding::Utf8),
        line_ending: Some(LineEnding::Lf),
    }
}

/// A directory of `.tbl` files.
#[derive(Clone, Debug)]
pub struct Group {
    pub name: String,
    pub dir: String,
    pub tables: Vec<Table>,
    pub constants: Vec<Constant>,
    pub enums: Vec<EnumDef>,
    pub is_new: bool,
}

/// A table: column definitions and records.
#[derive(Clone, Debug)]
pub struct Table {
    pub name: String,
    pub path: String,
    pub schema: TableSchema,
    pub records: Vec<Vec<String>>,
    pub dirty: bool,
    pub deleted: bool,
    /// Serialized form when last loaded or saved.
    pub saved_text: String,
}

#[derive(Clone, Debug)]
pub struct TableSchema {
    pub fields: Vec<FieldDef>,
}

/// Index of the first field named `id`.
pub open spec fn spec_index_col(fields: Seq<FieldDef>) -> Option<int>
    decreases fields.len(),
{
    if fields.len() == 0 {
        None
    } else if fields.last().name@ == "id"@ && spec_index_col(fields.drop_last()) is None {
        Some(fields.len() - 1)
    } else {
        spec_index_col(fields.drop_last())
    }
}

impl TableSchema {
    /// Position of the `id` column.
    pub fn index_col(&self) -> (r: Option<usize>)
        ensures
            match r {
                Some(i) => spec_index_col(self.fields@) == Some(i as int),
                None => spec_index_col(self.fields@) is None,
            },
    {
        let mut i: usize = 0;
        while i < self.fields.len()
            invariant
                i <= self.fields@.len(),
                spec_index_col(self.fields@.take(i as int)) is None,
            decreases self.fields.len() - i,
        {
            assert(self.fields@.take(i + 1).drop_last() =~= self.fields@.take(i as int));
            if str_is(self.fields[i].name.as_str(), "id") {
                proof {
                    lemma_index_col_prefix(self.fields@, i as int);
                }
                return Some(i);
            }
            i = i + 1;
        }
        assert(self.fields@.take(i as int) =~= self.fields@);
        None
    }
}

proof fn lemma_index_col_prefix(fields: Seq<FieldDef>, i: int)
    requires
        0 <= i < fields.len(),
        fields[i].name@ == "id"@,
        spec_index_col(fields.take(i)) is None,
    ensures
        spec_index_col(fields) == Some(i),
    decreases fields.len(),
{
    let t = fields.take(i + 1);
    assert(t.drop_last() =~= fields.take(i));
    if fields.len() > i + 1 {
        assert(fields.drop_last().take(i) =~= fields.take(i));
        lemma_index_col_prefix(fields.drop_last(), i);
        assert(fields.drop_last()[i] == fields[i]);
    } else {
        assert(fields.drop_last() =~= fields.take(i));
    }
}

/// One column of a table.
#[derive(Clone, Debug)]
pub struct FieldDef {
    pub name: String,
    pub desc: String,
    pub tbl_type: String,
    pub export: Export,
}

/// A constant file: named, typed values.
#[derive(Clone, Debug)]
pub struct Constant {
    pub name: String,
    pub path: String,
    pub entries: Vec<ConstEntry>,
    pub dirty: bool,
    pub deleted: bool,
    pub saved_text: String,
}

#[derive(Clone, Debug)]
pub struct ConstEntry {
    pub name: String,
    pub tbl_type: String,
    pub value: String,
    pub export: Export,
    pub desc: String,
}

/// An enum file: rows of id, name and description.
#[derive(Clone, Debug)]
pub struct EnumDef {
    pub name: String,
    pub path: String,
    pub entries: Vec<EnumEntry>,
    pub dirty: bool,
    pub deleted: bool,
    pub saved_text: String,
}

#[derive(Clone, Debug)]
pub struct EnumEntry {
    pub id: String,
    pub name: String,
    pub desc: String,
}

impl Default for EnumEntry {
    fn default() -> (r: Self)
        ensures
            r.id@.len() == 0,
            r.name@.len() == 0,
            r.desc@.len() == 0,
    {
        EnumEntry { id: String::new(), name: String::new(), desc: String::new() }
    }
}

/// Which side a column or constant is exported to.
#[derive(Clone, Copy, Debug, PartialEq, Eq, Structural)]
pub enum Export {
    Unselected,
    ClientServer,
    ClientOnly,
    ServerOnly,
    NoExport,
}

impl Export {
    /// The export side that the trimmed text `t` names: its Chinese label or
    /// its short code; the empty text means both sides.
    pub open spec fn spec_from_text(t: Seq<char>) -> Export {
        if t == "前后端"@ || t == "cs"@ || t.len() == 0 {
            Export::ClientServer
        } else if t == "客户端"@ || t == "c"@ {
            Export::ClientOnly
        } else if t == "服务器"@ || t == "s"@ {
            Export::ServerOnly
        } else if t == "不导出"@ || t == "-"@ {
            Export::NoExport
        } else {
            Export::Unselected
        }
    }

    pub open spec fn spec_display(self) -> Seq<char> {
        match self {
            Export::Unselected => ""@,
            Export::ClientServer => "前后端"@,
            Export::ClientOnly => "客户端"@,
            Export::ServerOnly => "服务器"@,
            Export::NoExport => "不导出"@,
        }
    }

    pub open spec fn spec_to_tbl(self) -> Seq<char> {
        match self {
            Export::ClientServer | Export::Unselected => ""@,
            Export::ClientOnly => "客户端"@,
            Export::ServerOnly => "服务器"@,
            Export::NoExport => "不导出"@,
        }
    }

    pub open spec fn spec_code(self) -> Seq<char> {
        match self {
            Export::ClientServer | Export::Unselected => "cs"@,
            Export::ClientOnly => "c"@,
            Export::ServerOnly => "s"@,
            Export::NoExport => "-"@,
        }
    }

    /// Reads an export side from its label or code, ignoring surrounding
    /// white space; unknown text is `Unselected`.
    pub fn from_str(s: &str) -> (r: Export)
        ensures
            r == Self::spec_from_text(trim(s@)),
    {
        let t = trim_str(s);
        let ts = t.as_str();
        let tv = chars_of(ts);
        if str_is(ts, "前后端") || str_is(ts, "cs") || tv.len() == 0 {
            Export::ClientServer
        } else if str_is(ts, "客户端") || str_is(ts, "c") {
            Export::ClientOnly
        } else if str_is(ts, "服务器") || str_is(ts, "s") {
            Export::ServerOnly
        } else if str_is(ts, "不导出") || str_is(ts, "-") {
            Export::NoExport
        } else {
            Export::Unselected
        }
    }

    /// Chinese label of the side, shown to users.
    pub fn display(&self) -> (r: &'static str)
        ensures
            r@ == self.spec_display(),
    {
        match self {
            Export::Unselected => "",
            Export::ClientServer => "前后端",
            Export::ClientOnly => "客户端",
            Export::ServerOnly => "服务器",
            Export::NoExport => "不导出",
        }
    }

    /// Label of the side in `.tbl` files; both sides is the empty label.
    pub fn to_tbl(&self) -> (r: &'static str)
        ensures
            r@ == self.spec_to_tbl(),
    {
        match self {
            Export::ClientServer | Export::Unselected => "",
            Export::ClientOnly => "客户端",
            Export::ServerOnly => "服务器",
            Export::NoExport => "不导出",
        }
    }

    /// Short code of the side (`cs`, `c`, `s`, `-`).
    pub fn code(&self) -> (r: &'static str)
        ensures
            r@ == self.spec_code(),
    {
        match self {
            Export::ClientServer | Export::Unselected => "cs",
            Export::ClientOnly => "c",
            Export::ServerOnly => "s",
            Export::NoExport => "-",
        }
    }

    /// The selectable sides, in menu order.
    pub fn options() -> (r: Vec<Export>)
        ensures
            r@ == seq![Export::ClientServer, Export::ClientOnly, Export::ServerOnly, Export::NoExport],
    {
        let r = vec![Export::ClientServer, Export::ClientOnly, Export::ServerOnly, Export::NoExport];
        assert(r@ =~= seq![Export::ClientServer, Export::ClientOnly, Export::ServerOnly, Export::NoExport]);
        r
    }
}

// ───────────────────────── views ─────────────────────────

pub struct FieldDefView {
    pub name: Seq<char>,
    pub desc: Seq<char>,
    pub tbl_type: Seq<char>,
    pub export: Export,
}

impl View for FieldDef {
    type V = FieldDefView;

    open spec fn view(&self) -> FieldDefView {
        FieldDefView {
            name: self.name@,
            desc: self.desc@,
            tbl_type: self.tbl_type@,
            export: self.export,
        }
    }
}

pub open spec fn field_defs_view(f: Seq<FieldDef>) -> Seq<FieldDefView> {
    f.map_values(|x: FieldDef| x@)
}

/// Records of a table as text.
pub open spec fn records_view(r: Seq<Vec<String>>) -> Seq<Seq<Seq<char>>> {
    r.map_values(|row: Vec<String>| row@.map_values(|c: String| c@))
}

pub struct TableView {
    pub name: Seq<char>,
    pub path: Seq<char>,
    pub fields: Seq<FieldDefView>,
    pub records: Seq<Seq<Seq<char>>>,
    pub dirty: bool,
    pub deleted: bool,
    pub saved_text: Seq<char>,
}

impl View for Table {
    type V = TableView;

    open spec fn view(&self) -> TableView {
        TableView {
            name: self.name@,
            path: self.path@,
            fields: field_defs_view(self.schema.fields@),
            records: records_view(self.records@),
            dirty: self.dirty,
            deleted: self.deleted,
            saved_text: self.saved_text@,
        }
    }
}

pub struct ConstEntryView {
    pub name: Seq<char>,
    pub tbl_type: Seq<char>,
    pub value: Seq<char>,
    pub export: Export,
    pub desc: Seq<char>,
}

impl View for ConstEntry {
    type V = ConstEntryView;

    open spec fn view(&self) -> ConstEntryView {
        ConstEntryView {
            name: self.name@,
            tbl_type: self.tbl_type@,
            value: self.value@,
            export: self.export,
            desc: self.desc@,
        }
    }
}

pub open spec fn const_entries_view(e: Seq<ConstEntry>) -> Seq<ConstEntryView> {
    e.map_values(|x: ConstEntry| x@)
}

pub struct ConstantView {
    pub name: Seq<char>,
    pub path: Seq<char>,
    pub entries: Seq<ConstEntryView>,
    pub dirty: bool,
    pub deleted: bool,
    pub saved_text: Seq<char>,
}

impl View for Constant {
    type V = ConstantView;

    open spec fn view(&self) -> ConstantView {
        ConstantView {
            name: self.name@,
            path: self.path@,
            entries: const_entries_view(self.entries@),
            dirty: self.dirty,
            deleted: self.deleted,
            saved_text: self.saved_text@,
        }
    }
}

pub struct EnumEntryView {
    pub id: Seq<char>,
    pub name: Seq<char>,
    pub desc: Seq<char>,
}

impl View for EnumEntry {
    type V = EnumEntryView;

    open spec fn view(&self) -> EnumEntryView {
        EnumEntryView { id: self.id@, name: self.name@, desc: self.desc@ }
    }
}

pub open spec fn enum_entries_view(e: Seq<EnumEntry>) -> Seq<EnumEntryView> {
    e.map_values(|x: EnumEntry| x@)
}

pub struct EnumDefView {
    pub name: Seq<char>,
    pub path: Seq<char>,
    pub entries: Seq<EnumEntryView>,
    pub dirty: bool,
    pub deleted: bool,
    pub saved_text: Seq<char>,
}

impl View for EnumDef {
    type V = EnumDefView;

    open spec fn view(&self) -> EnumDefView {
        EnumDefView {
            name: self.name@,
            path: self.path@,
            entries: enum_entries_view(self.entries@),
            dirty: self.dirty,
            deleted: self.deleted,
            saved_text: self.saved_text@,
        }
    }
}

pub struct GroupView {
    pub name: Seq<char>,
    pub dir: Seq<char>,
    pub tables: Seq<TableView>,
    pub constants: Seq<ConstantView>,
    pub enums: Seq<EnumDefView>,
    pub is_new: bool,
}

impl View for Group {
    type V = GroupView;

    open spec fn view(&self) -> GroupView {
        GroupView {
            name: self.name@,
            dir: self.dir@,
            tables: self.tables@.map_values(|t: Table| t@),
            constants: self.constants@.map_values(|c: Constant| c@),
            enums: self.enums@.map_values(|e: EnumDef| e@),
            is_new: self.is_new,
        }
    }
}

pub open spec fn groups_view(g: Seq<Group>) -> Seq<GroupView> {
    g.map_values(|x: Group| x@)
}

/// A copy of `s` with the same characters.
pub fn copy_str(s: &String) -> (r: String)
    ensures
        r@ == s@,
{
    s.clone()
}

/// A copy of a row of cells.
pub fn copy_row(row: &Vec<String>) -> (r: Vec<String>)
    ensures
        r@.map_values(|c: String| c@) == row@.map_values(|c: String| c@),
{
    let mut out: Vec<String> = Vec::new();
    let mut i: usize = 0;
    while i < row.len()
        invariant
            i <= row@.len(),
            out@.map_values(|c: String| c@) == row@.take(i as int).map_values(|c: String| c@),
        decreases row.len() - i,
    {
        let ghost prev = out@.map_values(|c: String| c@);
        out.push(copy_str(&row[i]));
        assert(out@.map_values(|c: String| c@) =~= prev.push(row@[i as int]@));
        assert(row@.take(i + 1).map_values(|c: String| c@) =~= row@.take(i as int).map_values(
            |c: String| c@,
        ).push(row@[i as int]@));
        i = i + 1;
    }
    assert(row@.take(i as int) =~= row@);
    out
}

/// A copy of a list of rows.
pub fn copy_rows(rows: &Vec<Vec<String>>) -> (r: Vec<Vec<String>>)
    ensures
        records_view(r@) == records_view(rows@),
{
    let mut out: Vec<Vec<String>> = Vec::new();
    let mut i: usize = 0;
    while i < rows.len()
        invariant
            i <= rows@.len(),
            records_view(out@) == records_view(rows@.take(i as int)),
        decreases rows.len() - i,
    {
        let ghost prev = records_view(out@);
        let row = copy_row(&rows[i]);
        out.push(row);
        assert(records_view(out@) =~= prev.push(records_view(rows@)[i as int]));
        assert(records_view(rows@.take(i + 1)) =~= records_view(rows@.take(i as int)).push(
            records_view(rows@)[i as int],
        ));
        i = i + 1;
    }
    assert(rows@.take(i as int) =~= rows@);
    out
}

fn texts_differ(a: &String, b: &String) -> (r: bool)
    ensures
        r == (a@ != b@),
{
    let x = chars_of(a.as_str());
    let y = chars_of(b.as_str());
    !crate::text::chars_eq(x.as_slice(), y.as_slice())
}

impl Table {
    /// Marks the table dirty when its serialized form differs from the last
    /// saved one.
    pub fn update_dirty(&mut self)
        ensures
            final(self)@ == (TableView {
                dirty: crate::tbl::spec_serialize_table(old(self)@) != old(self).saved_text@,
                ..old(self)@
            }),
    {
        let text = crate::tbl::serialize_table(self);
        self.dirty = texts_differ(&text, &self.saved_text);
    }
}

impl Constant {
    /// Marks the constant set dirty when its serialized form differs from the
    /// last saved one.
    pub fn update_dirty(&mut self)
        ensures
            final(self)@ == (ConstantView {
                dirty: crate::tbl::spec_serialize_constant(old(self)@) != old(self).saved_text@,
                ..old(self)@
            }),
    {
        let text = crate::tbl::serialize_constant(self);
        self.dirty = texts_differ(&text, &self.saved_text);
    }
}

impl EnumDef {
    /// Marks the enum dirty when its serialized form differs from the last
    /// saved one.
    pub fn update_dirty(&mut self)
        ensures
            final(self)@ == (EnumDefView {
                dirty: crate::tbl::spec_serialize_enum(old(self)@) != old(self).saved_text@,
                ..old(self)@
            }),
    {
        let text = crate::tbl::serialize_enum(self);
        self.dirty = texts_differ(&text, &self.saved_text);
    }
}

} // verus!
