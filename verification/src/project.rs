//! Project configuration (`maypop.toml`) and the framework build adapters.
//!
//! The configuration document arrives here as a plain model of its TOML
//! items; the files of the project that matter (package metadata, lockfiles)
//! arrive as plain facts.

use crate::bundle_upload::Routing;
use crate::paths::{
    components, has_parent_part, is_component_prefix, is_rooted, path_starts_with,
    require_safe_relative_path, PathIssue,
};
use crate::text::{is_blank, owned, same_text, split_char, trim_ws};
use vstd::prelude::*;

verus! {

// ---------------------------------------------------------------------------
// Frameworks and package managers
// ---------------------------------------------------------------------------

/// The build adapters a project can select.
#[derive(Clone, Copy, Debug, PartialEq, Eq, Structural)]
pub enum Framework {
    Auto,
    Vite,
    Next,
    Rsbuild,
    Static,
}

/// The configuration value that names each framework.
pub open spec fn framework_name(f: Framework) -> Seq<char> {
    match f {
        Framework::Auto => "auto"@,
        Framework::Vite => "vite"@,
        Framework::Next => "next"@,
        Framework::Rsbuild => "rsbuild"@,
        Framework::Static => "static"@,
    }
}

/// The framework a configuration value names, if any.
pub open spec fn framework_named(value: Seq<char>) -> Option<Framework> {
    if value == "auto"@ {
        Some(Framework::Auto)
    } else if value == "vite"@ {
        Some(Framework::Vite)
    } else if value == "next"@ {
        Some(Framework::Next)
    } else if value == "rsbuild"@ {
        Some(Framework::Rsbuild)
    } else if value == "static"@ {
        Some(Framework::Static)
    } else {
        None
    }
}

impl Framework {
    /// The framework named by a `build.framework` value.
    pub fn parse(value: &str) -> (r: Result<Framework, ProjectError>)
        ensures
            r matches Ok(f) ==> framework_named(value@) == Some(f),
            r is Err ==> framework_named(value@) is None,
            r matches Err(e) ==> e matches ProjectError::UnknownFramework { value: v } && v@
                == value@,
    {
        if same_text(value, "auto") {
            Ok(Framework::Auto)
        } else if same_text(value, "vite") {
            Ok(Framework::Vite)
        } else if same_text(value, "next") {
            Ok(Framework::Next)
        } else if same_text(value, "rsbuild") {
            Ok(Framework::Rsbuild)
        } else if same_text(value, "static") {
            Ok(Framework::Static)
        } else {
            Err(ProjectError::UnknownFramework { value: owned(value) })
        }
    }

    /// The configuration value that names this framework.
    pub fn name(self) -> (r: &'static str)
        ensures
            r@ == framework_name(self),
    {
        match self {
            Framework::Auto => "auto",
            Framework::Vite => "vite",
            Framework::Next => "next",
            Framework::Rsbuild => "rsbuild",
            Framework::Static => "static",
        }
    }
}

/// The package managers whose build scripts the adapters run.
#[derive(Clone, Copy, Debug, PartialEq, Eq, Structural)]
pub enum PackageManager {
    Pnpm,
    Npm,
    Yarn,
    Bun,
}

/// The command that runs a project's `build` script.
pub open spec fn build_command_spec(m: PackageManager) -> Seq<Seq<char>> {
    match m {
        PackageManager::Pnpm => seq!["pnpm"@, "run"@, "build"@],
        PackageManager::Npm => seq!["npm"@, "run"@, "build"@],
        PackageManager::Yarn => seq!["yarn"@, "build"@],
        PackageManager::Bun => seq!["bun"@, "run"@, "build"@],
    }
}

/// The views of a list of strings.
pub open spec fn views(v: Seq<String>) -> Seq<Seq<char>> {
    v.map_values(|s: String| s@)
}

/// Owned copies of `values`.
pub fn strings(values: &[&str]) -> (r: Vec<String>)
    ensures
        views(r@) == values@.map_values(|s: &str| s@),
{
    let mut r: Vec<String> = Vec::new();
    let mut i: usize = 0;
    while i < values.len()
        invariant
            i <= values.len(),
            views(r@) == values@.map_values(|s: &str| s@).take(i as int),
        decreases values.len() - i,
    {
        let ghost before = views(r@);
        r.push(owned(values[i]));
        assert(views(r@) =~= before.push(values@[i as int]@));
        i = i + 1;
        assert(views(r@) =~= values@.map_values(|s: &str| s@).take(i as int));
    }
    assert(values@.map_values(|s: &str| s@).take(values.len() as int) =~= values@.map_values(
        |s: &str| s@,
    ));
    r
}

impl PackageManager {
    /// The command that runs the project's `build` script.
    pub fn build_command(self) -> (r: Vec<String>)
        ensures
            views(r@) == build_command_spec(self),
    {
        let r = match self {
            PackageManager::Pnpm => strings(&["pnpm", "run", "build"]),
            PackageManager::Npm => strings(&["npm", "run", "build"]),
            PackageManager::Yarn => strings(&["yarn", "build"]),
            PackageManager::Bun => strings(&["bun", "run", "build"]),
        };
        proof {
            let s = build_command_spec(self);
            assert(views(r@) =~= s);
        }
        r
    }
}

/// What `package.json` declares, as far as the adapters read it.
#[derive(Debug, Clone)]
pub struct PackageInfo {
    /// The keys of the `dependencies` object (empty when it is not an object).
    pub dependencies: Vec<String>,
    /// The keys of the `devDependencies` object (empty when it is not an object).
    pub dev_dependencies: Vec<String>,
    /// The `packageManager` value, when it is a string.
    pub package_manager: Option<String>,
}

/// The state of the project's `package.json`.
#[derive(Debug, Clone)]
pub enum PackageJson {
    /// There is no such file.
    Missing,
    /// The file exists but does not hold JSON.
    Invalid,
    /// The file's declarations.
    Parsed(PackageInfo),
}

/// The files at the project root that select an adapter and a package manager.
#[derive(Debug, Clone)]
pub struct ProjectFiles {
    pub package_json: PackageJson,
    pub index_html: bool,
    pub pnpm_lock: bool,
    pub bun_lock: bool,
    pub bun_lockb: bool,
    pub yarn_lock: bool,
}

impl ProjectFiles {
    /// A project root holding none of these files.
    pub fn empty() -> (r: ProjectFiles)
        ensures
            r.package_json is Missing,
            !r.index_html && !r.pnpm_lock && !r.bun_lock && !r.bun_lockb && !r.yarn_lock,
    {
        ProjectFiles {
            package_json: PackageJson::Missing,
            index_html: false,
            pnpm_lock: false,
            bun_lock: false,
            bun_lockb: false,
            yarn_lock: false,
        }
    }
}

/// Whether `name` is among the package's dependencies or dev-dependencies.
pub open spec fn depends_on(package: PackageInfo, name: Seq<char>) -> bool {
    views(package.dependencies@).contains(name) || views(package.dev_dependencies@).contains(name)
}

/// Whether `name` is among `list`.
fn list_contains(list: &Vec<String>, name: &str) -> (r: bool)
    ensures
        r == views(list@).contains(name@),
{
    let mut i: usize = 0;
    while i < list.len()
        invariant
            i <= list.len(),
            forall|j: int| 0 <= j < i ==> list@[j]@ != name@,
        decreases list.len() - i,
    {
        if same_text(list[i].as_str(), name) {
            assert(views(list@)[i as int] == name@);
            return true;
        }
        i = i + 1;
    }
    proof {
        if views(list@).contains(name@) {
            let k = choose|k: int| 0 <= k < views(list@).len() && views(list@)[k] == name@;
            assert(list@[k]@ == name@);
        }
    }
    false
}

/// Whether the package depends on `name`, at run time or during development.
pub fn has_dependency(package: &PackageInfo, name: &str) -> (r: bool)
    ensures
        r == depends_on(*package, name@),
{
    list_contains(&package.dependencies, name) || list_contains(&package.dev_dependencies, name)
}

/// The framework a project's files point to.
pub open spec fn detected_framework(files: ProjectFiles) -> Result<Option<Framework>, ()> {
    match files.package_json {
        PackageJson::Invalid => Err(()),
        PackageJson::Parsed(p) => if depends_on(p, "next"@) {
            Ok(Some(Framework::Next))
        } else if depends_on(p, "@rsbuild/core"@) {
            Ok(Some(Framework::Rsbuild))
        } else if depends_on(p, "vite"@) {
            Ok(Some(Framework::Vite))
        } else if files.index_html {
            Ok(Some(Framework::Static))
        } else {
            Ok(None)
        },
        PackageJson::Missing => if files.index_html {
            Ok(Some(Framework::Static))
        } else {
            Ok(None)
        },
    }
}

/// Detect the framework: Next.js, then Rsbuild, then Vite by dependency,
/// else a static site when the root holds `index.html`.
pub fn detect_framework(files: &ProjectFiles) -> (r: Result<Option<Framework>, ProjectError>)
    ensures
        r matches Ok(f) ==> detected_framework(*files) == Ok::<Option<Framework>, ()>(f),
        r is Err <==> detected_framework(*files) is Err,
        r matches Err(e) ==> e is InvalidPackageJson,
{
    match &files.package_json {
        PackageJson::Invalid => {
            return Err(ProjectError::InvalidPackageJson);
        },
        PackageJson::Parsed(p) => {
            if has_dependency(p, "next") {
                return Ok(Some(Framework::Next));
            }
            if has_dependency(p, "@rsbuild/core") {
                return Ok(Some(Framework::Rsbuild));
            }
            if has_dependency(p, "vite") {
                return Ok(Some(Framework::Vite));
            }
        },
        PackageJson::Missing => {},
    }
    if files.index_html {
        Ok(Some(Framework::Static))
    } else {
        Ok(None)
    }
}

/// The text before the first `@` of `s`.
pub open spec fn before_at(s: Seq<char>) -> Seq<char> {
    split_char(s, '@')[0]
}

/// The package manager a project uses: its `packageManager` declaration,
/// else its lockfile, else npm.
pub open spec fn package_manager_spec(files: ProjectFiles) -> PackageManager {
    let declared = match files.package_json {
        PackageJson::Parsed(p) => match p.package_manager {
            Some(m) => if before_at(m@) == "pnpm"@ {
                Some(PackageManager::Pnpm)
            } else if before_at(m@) == "yarn"@ {
                Some(PackageManager::Yarn)
            } else if before_at(m@) == "bun"@ {
                Some(PackageManager::Bun)
            } else if before_at(m@) == "npm"@ {
                Some(PackageManager::Npm)
            } else {
                None
            },
            None => None,
        },
        _ => None,
    };
    match declared {
        Some(m) => m,
        None => if files.pnpm_lock {
            PackageManager::Pnpm
        } else if files.bun_lock || files.bun_lockb {
            PackageManager::Bun
        } else if files.yarn_lock {
            PackageManager::Yarn
        } else {
            PackageManager::Npm
        },
    }
}

/// The package manager a project uses.
pub fn package_manager(files: &ProjectFiles) -> (r: PackageManager)
    ensures
        r == package_manager_spec(*files),
{
    if let PackageJson::Parsed(p) = &files.package_json {
        if let Some(m) = &p.package_manager {
            let pieces = crate::text::split(m.as_str(), '@');
            assert(pieces.len() >= 1 && pieces@[0]@ == split_char(m@, '@')[0]) by {
                assert(split_char(m@, '@').len() >= 1);
                assert(crate::text::string_views(pieces@).len() == pieces@.len());
                assert(crate::text::string_views(pieces@)[0] == pieces@[0]@);
            }
            let name = pieces[0].as_str();
            if same_text(name, "pnpm") {
                return PackageManager::Pnpm;
            }
            if same_text(name, "yarn") {
                return PackageManager::Yarn;
            }
            if same_text(name, "bun") {
                return PackageManager::Bun;
            }
            if same_text(name, "npm") {
                return PackageManager::Npm;
            }
        }
    }
    if files.pnpm_lock {
        PackageManager::Pnpm
    } else if files.bun_lock || files.bun_lockb {
        PackageManager::Bun
    } else if files.yarn_lock {
        PackageManager::Yarn
    } else {
        PackageManager::Npm
    }
}

/// What an adapter supplies unless the configuration overrides it.
#[derive(Debug)]
pub struct AdapterDefaults {
    pub command: Option<Vec<String>>,
    pub output: String,
    pub routing: Routing,
}

/// The adapter's build command, output directory and routing.
pub fn adapter(framework: Framework, files: &ProjectFiles) -> (r: Result<AdapterDefaults, ProjectError>)
    ensures
        framework is Auto <==> r is Err,
        r matches Err(e) ==> e is AutoAdapter,
        r matches Ok(d) ==> match framework {
            Framework::Vite | Framework::Rsbuild => d.command matches Some(c) && views(c@)
                == build_command_spec(package_manager_spec(*files)) && d.output@ == "dist"@
                && d.routing == Routing::Spa,
            Framework::Next => d.command matches Some(c) && views(c@) == build_command_spec(
                package_manager_spec(*files),
            ) && d.output@ == "out"@ && d.routing == Routing::StaticPages,
            Framework::Static => d.command is None && d.output@ == "."@ && d.routing
                == Routing::Spa,
            Framework::Auto => false,
        },
{
    match framework {
        Framework::Vite | Framework::Rsbuild => Ok(
            AdapterDefaults {
                command: Some(package_manager(files).build_command()),
                output: owned("dist"),
                routing: Routing::Spa,
            },
        ),
        Framework::Next => Ok(
            AdapterDefaults {
                command: Some(package_manager(files).build_command()),
                output: owned("out"),
                routing: Routing::StaticPages,
            },
        ),
        Framework::Static => Ok(
            AdapterDefaults { command: None, output: owned("."), routing: Routing::Spa },
        ),
        Framework::Auto => Err(ProjectError::AutoAdapter),
    }
}

// ---------------------------------------------------------------------------
// The configuration document
// ---------------------------------------------------------------------------

/// A value inside a TOML array.
#[derive(Debug, Clone)]
pub enum TomlScalar {
    Str(String),
    Bool(bool),
    /// Any other kind of value.
    Other,
}

/// A value inside a TOML table.
#[derive(Debug, Clone)]
pub enum TomlValue {
    Str(String),
    Bool(bool),
    Array(Vec<TomlScalar>),
    /// Any other kind of value, a nested table included.
    Other,
}

/// A key and its value inside a table.
#[derive(Debug, Clone)]
pub struct TomlEntry {
    pub key: String,
    pub value: TomlValue,
}

/// A top-level item of the document.
#[derive(Debug, Clone)]
pub enum TomlItem {
    /// A plain value at the top level.
    Value(TomlValue),
    /// A `[table]`.
    Table(Vec<TomlEntry>),
    /// Any other item, an array of tables included.
    Other,
}

/// A key and its item at the top level.
#[derive(Debug, Clone)]
pub struct TomlTopEntry {
    pub key: String,
    pub item: TomlItem,
}

/// A parsed configuration document.
#[derive(Debug, Clone)]
pub struct TomlDocument {
    pub items: Vec<TomlTopEntry>,
}

/// The item stored under `key` at the top level (the first, as keys are unique).
pub open spec fn top_item(items: Seq<TomlTopEntry>, key: Seq<char>) -> Option<TomlItem>
    decreases items.len(),
{
    if items.len() == 0 {
        None
    } else if items[0].key@ == key {
        Some(items[0].item)
    } else {
        top_item(items.drop_first(), key)
    }
}

/// The value stored under `key` in a table (the first, as keys are unique).
pub open spec fn table_value(entries: Seq<TomlEntry>, key: Seq<char>) -> Option<TomlValue>
    decreases entries.len(),
{
    if entries.len() == 0 {
        None
    } else if entries[0].key@ == key {
        Some(entries[0].value)
    } else {
        table_value(entries.drop_first(), key)
    }
}

/// A field that must be a string when present.
pub open spec fn string_field(v: Option<TomlValue>) -> Result<Option<Seq<char>>, ()> {
    match v {
        None => Ok(None),
        Some(TomlValue::Str(s)) => Ok(Some(s@)),
        Some(_) => Err(()),
    }
}

/// A field that must be a boolean when present.
pub open spec fn bool_field(v: Option<TomlValue>) -> Result<Option<bool>, ()> {
    match v {
        None => Ok(None),
        Some(TomlValue::Bool(b)) => Ok(Some(b)),
        Some(_) => Err(()),
    }
}

/// Whether every element of an array is a string.
pub open spec fn all_strings(a: Seq<TomlScalar>) -> bool {
    forall|i: int| 0 <= i < a.len() ==> (#[trigger] a[i]) is Str
}

/// The texts of an array of strings.
pub open spec fn scalar_texts(a: Seq<TomlScalar>) -> Seq<Seq<char>> {
    a.map_values(|x: TomlScalar| match x {
        TomlScalar::Str(s) => s@,
        _ => Seq::empty(),
    })
}

/// How a field that must be an array of strings can be wrong.
#[derive(Clone, Copy, Debug, PartialEq, Eq, Structural)]
pub enum ListIssue {
    NotArray,
    NotStrings,
}

/// A field that must be an array of strings when present.
pub open spec fn list_field(v: Option<TomlValue>) -> Result<Option<Seq<Seq<char>>>, ListIssue> {
    match v {
        None => Ok(None),
        Some(TomlValue::Array(a)) => if all_strings(a@) {
            Ok(Some(scalar_texts(a@)))
        } else {
            Err(ListIssue::NotStrings)
        },
        Some(_) => Err(ListIssue::NotArray),
    }
}

/// The top-level item under `key`.
fn find_top<'a>(doc: &'a TomlDocument, key: &str) -> (r: Option<&'a TomlItem>)
    ensures
        r matches Some(i) ==> top_item(doc.items@, key@) == Some(*i),
        r is None ==> top_item(doc.items@, key@) is None,
{
    let mut i: usize = 0;
    assert(doc.items@.skip(0) =~= doc.items@);
    while i < doc.items.len()
        invariant
            i <= doc.items.len(),
            top_item(doc.items@, key@) == top_item(doc.items@.skip(i as int), key@),
        decreases doc.items.len() - i,
    {
        assert(doc.items@.skip(i as int)[0] == doc.items@[i as int]);
        if same_text(doc.items[i].key.as_str(), key) {
            return Some(&doc.items[i].item);
        }
        assert(doc.items@.skip(i as int).drop_first() =~= doc.items@.skip(i + 1));
        i = i + 1;
    }
    None
}

/// The value under `key` in a table.
fn find_value<'a>(entries: &'a Vec<TomlEntry>, key: &str) -> (r: Option<&'a TomlValue>)
    ensures
        r matches Some(v) ==> table_value(entries@, key@) == Some(*v),
        r is None ==> table_value(entries@, key@) is None,
{
    let mut i: usize = 0;
    assert(entries@.skip(0) =~= entries@);
    while i < entries.len()
        invariant
            i <= entries.len(),
            table_value(entries@, key@) == table_value(entries@.skip(i as int), key@),
        decreases entries.len() - i,
    {
        assert(entries@.skip(i as int)[0] == entries@[i as int]);
        if same_text(entries[i].key.as_str(), key) {
            return Some(&entries[i].value);
        }
        assert(entries@.skip(i as int).drop_first() =~= entries@.skip(i + 1));
        i = i + 1;
    }
    None
}

/// A string field of a table.
fn read_string(entries: &Vec<TomlEntry>, key: &str) -> (r: Result<Option<String>, ()>)
    ensures
        r matches Ok(Some(s)) ==> string_field(table_value(entries@, key@)) == Ok::<
            Option<Seq<char>>,
            (),
        >(Some(s@)),
        r matches Ok(None) ==> string_field(table_value(entries@, key@)) == Ok::<
            Option<Seq<char>>,
            (),
        >(None),
        r is Err <==> string_field(table_value(entries@, key@)) is Err,
{
    match find_value(entries, key) {
        None => Ok(None),
        Some(TomlValue::Str(s)) => Ok(Some(s.clone())),
        Some(_) => Err(()),
    }
}

/// A boolean field of a table.
fn read_bool(entries: &Vec<TomlEntry>, key: &str) -> (r: Result<Option<bool>, ()>)
    ensures
        r is Ok ==> bool_field(table_value(entries@, key@)) == r,
        r is Err <==> bool_field(table_value(entries@, key@)) is Err,
{
    match find_value(entries, key) {
        None => Ok(None),
        Some(TomlValue::Bool(b)) => Ok(Some(*b)),
        Some(_) => Err(()),
    }
}

/// An array-of-strings field of a table.
fn read_list(entries: &Vec<TomlEntry>, key: &str) -> (r: Result<Option<Vec<String>>, ListIssue>)
    ensures
        r matches Ok(Some(l)) ==> list_field(table_value(entries@, key@)) == Ok::<
            Option<Seq<Seq<char>>>,
            ListIssue,
        >(Some(views(l@))),
        r matches Ok(None) ==> list_field(table_value(entries@, key@)) == Ok::<
            Option<Seq<Seq<char>>>,
            ListIssue,
        >(None),
        r matches Err(e) ==> list_field(table_value(entries@, key@)) == Err::<
            Option<Seq<Seq<char>>>,
            ListIssue,
        >(e),
{
    match find_value(entries, key) {
        None => Ok(None),
        Some(TomlValue::Array(a)) => {
            let mut out: Vec<String> = Vec::new();
            let mut i: usize = 0;
            while i < a.len()
                invariant
                    i <= a.len(),
                    table_value(entries@, key@) == Some(TomlValue::Array(*a)),
                    forall|j: int| 0 <= j < i ==> (#[trigger] a@[j]) is Str,
                    views(out@) == scalar_texts(a@).take(i as int),
                decreases a.len() - i,
            {
                match &a[i] {
                    TomlScalar::Str(s) => {
                        let ghost before = views(out@);
                        out.push(s.clone());
                        assert(views(out@) =~= before.push(s@));
                    },
                    _ => {
                        assert(!(a@[i as int] is Str));
                        return Err(ListIssue::NotStrings);
                    },
                }
                i = i + 1;
                assert(views(out@) =~= scalar_texts(a@).take(i as int));
            }
            assert(scalar_texts(a@).take(a.len() as int) =~= scalar_texts(a@));
            Ok(Some(out))
        },
        Some(_) => Err(ListIssue::NotArray),
    }
}

// ---------------------------------------------------------------------------
// Errors
// ---------------------------------------------------------------------------

/// Why a project's configuration or build was refused.
#[derive(Debug, Clone)]
pub enum ProjectError {
    /// `build.framework` names no known framework.
    UnknownFramework { value: String },
    /// `[build]` is missing or not a table.
    MissingBuildTable,
    /// `build.framework` is missing or not a string.
    FrameworkNotString,
    /// `build.command` is not an array.
    CommandNotArray,
    /// `build.command` holds something other than strings.
    CommandNotStrings,
    /// A field that must be a string is not one; `field` is its dotted name.
    FieldNotString { field: String },
    /// A field that must be a boolean is not one; `field` is its dotted name.
    FieldNotBoolean { field: String },
    /// `[app]` is not a table.
    AppNotTable,
    /// `app.name` is blank.
    EmptyAppName,
    /// `app.visibility` is not `private`, `unlisted` or `public`.
    InvalidVisibility,
    /// `app.link_access` is not `request`, `view` or `use`.
    InvalidLinkAccess,
    /// `app.tags` is not an array.
    TagsNotArray,
    /// `app.tags` holds something other than strings.
    TagsNotStrings,
    /// A configured path is not a safe relative path; `field` is its dotted name.
    UnsafePath { field: String, issue: PathIssue },
    /// `package.json` does not hold JSON.
    InvalidPackageJson,
    /// `auto` found no framework to build.
    NoFrameworkDetected,
    /// `auto` reached adapter selection unresolved.
    AutoAdapter,
    /// `build.command` is an empty array.
    EmptyCommand,
    /// The build produced no output directory.
    MissingOutput,
    /// Next.js built `.next` but no static export.
    NextWithoutExport,
    /// The resolved output directory lies outside the repository.
    OutputOutsideRepository,
    /// The output directory lacks the entry file.
    MissingEntryFile,
    /// `maypop.toml` is not TOML.
    InvalidToml,
}

// ---------------------------------------------------------------------------
// Reading the build configuration
// ---------------------------------------------------------------------------

/// The `[build]` configuration.
#[derive(Debug, Clone)]
pub struct BuildConfig {
    pub framework: Framework,
    pub command: Option<Vec<String>>,
    pub output: Option<String>,
    pub entry: Option<String>,
}

/// The project configuration the build reads.
#[derive(Debug, Clone)]
pub struct ProjectConfig {
    pub build: BuildConfig,
}

/// The entries of the `[build]` table, if it is a table.
pub open spec fn build_table(doc: TomlDocument) -> Option<Seq<TomlEntry>> {
    match top_item(doc.items@, "build"@) {
        Some(TomlItem::Table(t)) => Some(t@),
        _ => None,
    }
}

/// The view of an optional string.
pub open spec fn opt_view(o: Option<String>) -> Option<Seq<char>> {
    match o {
        Some(s) => Some(s@),
        None => None,
    }
}

/// The view of an optional list of strings.
pub open spec fn opt_views(o: Option<Vec<String>>) -> Option<Seq<Seq<char>>> {
    match o {
        Some(v) => Some(views(v@)),
        None => None,
    }
}

/// The first check that reading the build configuration fails.
#[derive(Clone, Copy, Debug, PartialEq, Eq, Structural)]
pub enum BuildIssue {
    MissingTable,
    FrameworkNotString,
    Command(ListIssue),
    UnknownFramework,
    OutputNotString,
    EntryNotString,
}

/// What reading the build configuration from `doc` yields: the first failing
/// check in the order `[build]`, `framework` type, `command`, framework name,
/// `output`, `entry`.
pub open spec fn load_config_outcome(doc: TomlDocument) -> Result<(), BuildIssue> {
    match build_table(doc) {
        None => Err(BuildIssue::MissingTable),
        Some(t) => if string_field(table_value(t, "framework"@)) is Err || table_value(
            t,
            "framework"@,
        ) is None {
            Err(BuildIssue::FrameworkNotString)
        } else if list_field(table_value(t, "command"@)) is Err {
            Err(BuildIssue::Command(list_field(table_value(t, "command"@))->Err_0))
        } else if framework_named(string_field(table_value(t, "framework"@))->Ok_0->Some_0)
            is None {
            Err(BuildIssue::UnknownFramework)
        } else if string_field(table_value(t, "output"@)) is Err {
            Err(BuildIssue::OutputNotString)
        } else if string_field(table_value(t, "entry"@)) is Err {
            Err(BuildIssue::EntryNotString)
        } else {
            Ok(())
        },
    }
}

/// What reading the build configuration of `doc` gives: a configuration
/// holding exactly its `[build]` fields, or the error for its first problem.
pub open spec fn loaded_config(doc: TomlDocument, r: Result<ProjectConfig, ProjectError>) -> bool {
    &&& (r is Ok <==> load_config_outcome(doc) is Ok)
    &&& (r matches Ok(c) ==> {
        let t = build_table(doc)->Some_0;
        &&& framework_named(string_field(table_value(t, "framework"@))->Ok_0->Some_0) == Some(
            c.build.framework,
        )
        &&& list_field(table_value(t, "command"@)) == Ok::<Option<Seq<Seq<char>>>, ListIssue>(
            opt_views(c.build.command),
        )
        &&& string_field(table_value(t, "output"@)) == Ok::<Option<Seq<char>>, ()>(
            opt_view(c.build.output),
        )
        &&& string_field(table_value(t, "entry"@)) == Ok::<Option<Seq<char>>, ()>(
            opt_view(c.build.entry),
        )
    })
    &&& (r matches Err(e) ==> match load_config_outcome(doc) {
        Err(BuildIssue::MissingTable) => e is MissingBuildTable,
        Err(BuildIssue::FrameworkNotString) => e is FrameworkNotString,
        Err(BuildIssue::Command(ListIssue::NotArray)) => e is CommandNotArray,
        Err(BuildIssue::Command(ListIssue::NotStrings)) => e is CommandNotStrings,
        Err(BuildIssue::UnknownFramework) => e is UnknownFramework,
        Err(BuildIssue::OutputNotString) => e matches ProjectError::FieldNotString { field }
            && field@ == "build.output"@,
        Err(BuildIssue::EntryNotString) => e matches ProjectError::FieldNotString { field }
            && field@ == "build.entry"@,
        Ok(_) => false,
    })
}

/// Read the `[build]` table of the document.
pub fn load_config(doc: &TomlDocument) -> (r: Result<ProjectConfig, ProjectError>)
    ensures
        loaded_config(*doc, r),
{
    let build = match find_top(doc, "build") {
        Some(TomlItem::Table(t)) => t,
        _ => {
            return Err(ProjectError::MissingBuildTable);
        },
    };
    let framework = match read_string(build, "framework") {
        Ok(Some(f)) => f,
        _ => {
            return Err(ProjectError::FrameworkNotString);
        },
    };
    let command = match read_list(build, "command") {
        Ok(c) => c,
        Err(ListIssue::NotArray) => {
            return Err(ProjectError::CommandNotArray);
        },
        Err(ListIssue::NotStrings) => {
            return Err(ProjectError::CommandNotStrings);
        },
    };
    let framework = Framework::parse(framework.as_str())?;
    let output = match read_string(build, "output") {
        Ok(o) => o,
        Err(()) => {
            return Err(ProjectError::FieldNotString { field: owned("build.output") });
        },
    };
    let entry = match read_string(build, "entry") {
        Ok(o) => o,
        Err(()) => {
            return Err(ProjectError::FieldNotString { field: owned("build.entry") });
        },
    };
    Ok(ProjectConfig { build: BuildConfig { framework, command, output, entry } })
}

// ---------------------------------------------------------------------------
// Reading the app metadata
// ---------------------------------------------------------------------------

/// App metadata that can be applied explicitly to the remote app.
#[derive(Debug, PartialEq, Eq, Default)]
pub struct AppConfig {
    pub name: Option<String>,
    pub description: Option<String>,
    pub visibility: Option<String>,
    pub link_access: Option<String>,
    pub allow_remixing: Option<bool>,
    pub tags: Option<Vec<String>>,
    pub thumbnail: Option<String>,
}

/// A copy of an optional string.
pub fn clone_opt(o: &Option<String>) -> (r: Option<String>)
    ensures
        r == *o,
{
    match o {
        Some(s) => Some(s.clone()),
        None => None,
    }
}

/// A copy of a list of strings.
pub fn clone_list(v: &Vec<String>) -> (r: Vec<String>)
    ensures
        r@ == v@,
{
    let mut r: Vec<String> = Vec::new();
    let mut i: usize = 0;
    while i < v.len()
        invariant
            i <= v.len(),
            r@ == v@.take(i as int),
        decreases v.len() - i,
    {
        r.push(v[i].clone());
        i = i + 1;
        assert(r@ =~= v@.take(i as int));
    }
    assert(v@.take(v.len() as int) =~= v@);
    r
}

/// Two app configurations hold the same values.
pub open spec fn same_app(a: AppConfig, b: AppConfig) -> bool {
    &&& a.name == b.name
    &&& a.description == b.description
    &&& a.visibility == b.visibility
    &&& a.link_access == b.link_access
    &&& a.allow_remixing == b.allow_remixing
    &&& opt_views(a.tags) == opt_views(b.tags)
    &&& a.thumbnail == b.thumbnail
}

impl Clone for AppConfig {
    fn clone(&self) -> (r: Self)
        ensures
            same_app(r, *self),
    {
        AppConfig {
            name: clone_opt(&self.name),
            description: clone_opt(&self.description),
            visibility: clone_opt(&self.visibility),
            link_access: clone_opt(&self.link_access),
            allow_remixing: self.allow_remixing,
            tags: match &self.tags {
                Some(t) => Some(clone_list(t)),
                None => None,
            },
            thumbnail: clone_opt(&self.thumbnail),
        }
    }
}

/// An acceptable `app.visibility` value.
pub open spec fn is_visibility(v: Seq<char>) -> bool {
    v == "private"@ || v == "unlisted"@ || v == "public"@
}

/// An acceptable `app.link_access` value.
pub open spec fn is_link_access(v: Seq<char>) -> bool {
    v == "request"@ || v == "view"@ || v == "use"@
}

/// A path that stays inside the repository.
pub open spec fn is_safe_relative(p: Seq<char>) -> bool {
    p.len() > 0 && !is_rooted(p) && !has_parent_part(components(p))
}

/// What is wrong with a path that is not a safe relative path: it is not
/// relative at all, or it climbs out of the repository.
pub open spec fn unsafe_path_issue(p: Seq<char>) -> PathIssue {
    if p.len() == 0 || is_rooted(p) {
        PathIssue::NotRelative
    } else {
        PathIssue::Escapes
    }
}

/// The entries of the `[app]` table, if present and a table.
pub open spec fn app_table_entries(doc: TomlDocument) -> Option<Seq<TomlEntry>> {
    match top_item(doc.items@, "app"@) {
        Some(TomlItem::Table(t)) => Some(t@),
        _ => None,
    }
}

/// The first check that the `[app]` table fails.
#[derive(Clone, Copy, Debug, PartialEq, Eq, Structural)]
pub enum AppIssue {
    NameNotString,
    EmptyName,
    VisibilityNotString,
    BadVisibility,
    LinkAccessNotString,
    BadLinkAccess,
    Tags(ListIssue),
    ThumbnailNotString,
    UnsafeThumbnail,
    DescriptionNotString,
    RemixingNotBoolean,
}

/// The first check that the `[app]` table fails, in the order the reader makes them.
pub open spec fn app_config_problem(t: Seq<TomlEntry>) -> Option<AppIssue> {
    let name = string_field(table_value(t, "name"@));
    let visibility = string_field(table_value(t, "visibility"@));
    let link_access = string_field(table_value(t, "link_access"@));
    let thumbnail = string_field(table_value(t, "thumbnail"@));
    if name is Err {
        Some(AppIssue::NameNotString)
    } else if name matches Ok(Some(n)) && trim_ws(n).len() == 0 {
        Some(AppIssue::EmptyName)
    } else if visibility is Err {
        Some(AppIssue::VisibilityNotString)
    } else if visibility matches Ok(Some(v)) && !is_visibility(v) {
        Some(AppIssue::BadVisibility)
    } else if link_access is Err {
        Some(AppIssue::LinkAccessNotString)
    } else if link_access matches Ok(Some(v)) && !is_link_access(v) {
        Some(AppIssue::BadLinkAccess)
    } else if list_field(table_value(t, "tags"@)) is Err {
        Some(AppIssue::Tags(list_field(table_value(t, "tags"@))->Err_0))
    } else if thumbnail is Err {
        Some(AppIssue::ThumbnailNotString)
    } else if thumbnail matches Ok(Some(p)) && !is_safe_relative(p) {
        Some(AppIssue::UnsafeThumbnail)
    } else if string_field(table_value(t, "description"@)) is Err {
        Some(AppIssue::DescriptionNotString)
    } else if bool_field(table_value(t, "allow_remixing"@)) is Err {
        Some(AppIssue::RemixingNotBoolean)
    } else {
        None
    }
}

/// `c` holds exactly the fields of the `[app]` table `t`.
pub open spec fn app_config_of(t: Seq<TomlEntry>, c: AppConfig) -> bool {
    &&& string_field(table_value(t, "name"@)) == Ok::<Option<Seq<char>>, ()>(opt_view(c.name))
    &&& string_field(table_value(t, "description"@)) == Ok::<Option<Seq<char>>, ()>(
        opt_view(c.description),
    )
    &&& string_field(table_value(t, "visibility"@)) == Ok::<Option<Seq<char>>, ()>(
        opt_view(c.visibility),
    )
    &&& string_field(table_value(t, "link_access"@)) == Ok::<Option<Seq<char>>, ()>(
        opt_view(c.link_access),
    )
    &&& bool_field(table_value(t, "allow_remixing"@)) == Ok::<Option<bool>, ()>(c.allow_remixing)
    &&& list_field(table_value(t, "tags"@)) == Ok::<Option<Seq<Seq<char>>>, ListIssue>(
        opt_views(c.tags),
    )
    &&& string_field(table_value(t, "thumbnail"@)) == Ok::<Option<Seq<char>>, ()>(
        opt_view(c.thumbnail),
    )
}

/// An app configuration's values are acceptable.
pub open spec fn app_config_valid(c: AppConfig) -> bool {
    &&& (c.name matches Some(n) ==> trim_ws(n@).len() > 0)
    &&& (c.visibility matches Some(v) ==> is_visibility(v@))
    &&& (c.link_access matches Some(v) ==> is_link_access(v@))
    &&& (c.thumbnail matches Some(p) ==> is_safe_relative(p@))
}

/// Read the optional `[app]` metadata from the document.
pub fn parse_app_config(doc: &TomlDocument) -> (r: Result<Option<AppConfig>, ProjectError>)
    ensures
        top_item(doc.items@, "app"@) is None ==> (r matches Ok(c) && c is None),
        top_item(doc.items@, "app"@) is Some && app_table_entries(*doc) is None ==> (r matches Err(
            e,
        ) && e is AppNotTable),
        app_table_entries(*doc) matches Some(t) ==> (r is Ok <==> app_config_problem(t) is None),
        app_table_entries(*doc) matches Some(t) ==> (r matches Ok(c) ==> (c matches Some(a)
            && app_config_of(t, a) && app_config_valid(a))),
        r matches Err(e) ==> (e is AppNotTable || match app_config_problem(
            app_table_entries(*doc)->Some_0,
        ) {
            Some(AppIssue::NameNotString) => e matches ProjectError::FieldNotString { field }
                && field@ == "app.name"@,
            Some(AppIssue::EmptyName) => e is EmptyAppName,
            Some(AppIssue::VisibilityNotString) => e matches ProjectError::FieldNotString { field }
                && field@ == "app.visibility"@,
            Some(AppIssue::BadVisibility) => e is InvalidVisibility,
            Some(AppIssue::LinkAccessNotString) => e matches ProjectError::FieldNotString { field }
                && field@ == "app.link_access"@,
            Some(AppIssue::BadLinkAccess) => e is InvalidLinkAccess,
            Some(AppIssue::Tags(ListIssue::NotArray)) => e is TagsNotArray,
            Some(AppIssue::Tags(ListIssue::NotStrings)) => e is TagsNotStrings,
            Some(AppIssue::ThumbnailNotString) => e matches ProjectError::FieldNotString { field }
                && field@ == "app.thumbnail"@,
            Some(AppIssue::UnsafeThumbnail) => e matches ProjectError::UnsafePath { field, issue }
                && field@ == "app.thumbnail"@ && issue == unsafe_path_issue(
                string_field(
                    table_value(app_table_entries(*doc)->Some_0, "thumbnail"@),
                )->Ok_0->Some_0,
            ),
            Some(AppIssue::DescriptionNotString) => e matches ProjectError::FieldNotString {
                field,
            } && field@ == "app.description"@,
            Some(AppIssue::RemixingNotBoolean) => e matches ProjectError::FieldNotBoolean {
                field,
            } && field@ == "app.allow_remixing"@,
            None => false,
        }),
{
    let app = match find_top(doc, "app") {
        None => {
            return Ok(None);
        },
        Some(TomlItem::Table(t)) => t,
        Some(_) => {
            return Err(ProjectError::AppNotTable);
        },
    };
    let name = match read_string(app, "name") {
        Ok(n) => n,
        Err(()) => {
            return Err(ProjectError::FieldNotString { field: owned("app.name") });
        },
    };
    if let Some(n) = &name {
        if is_blank(n.as_str()) {
            return Err(ProjectError::EmptyAppName);
        }
    }
    let visibility = match read_string(app, "visibility") {
        Ok(v) => v,
        Err(()) => {
            return Err(ProjectError::FieldNotString { field: owned("app.visibility") });
        },
    };
    if let Some(v) = &visibility {
        if !(same_text(v.as_str(), "private") || same_text(v.as_str(), "unlisted") || same_text(
            v.as_str(),
            "public",
        )) {
            return Err(ProjectError::InvalidVisibility);
        }
    }
    let link_access = match read_string(app, "link_access") {
        Ok(v) => v,
        Err(()) => {
            return Err(ProjectError::FieldNotString { field: owned("app.link_access") });
        },
    };
    if let Some(v) = &link_access {
        if !(same_text(v.as_str(), "request") || same_text(v.as_str(), "view") || same_text(
            v.as_str(),
            "use",
        )) {
            return Err(ProjectError::InvalidLinkAccess);
        }
    }
    let tags = match read_list(app, "tags") {
        Ok(t) => t,
        Err(ListIssue::NotArray) => {
            return Err(ProjectError::TagsNotArray);
        },
        Err(ListIssue::NotStrings) => {
            return Err(ProjectError::TagsNotStrings);
        },
    };
    let thumbnail = match read_string(app, "thumbnail") {
        Ok(t) => t,
        Err(()) => {
            return Err(ProjectError::FieldNotString { field: owned("app.thumbnail") });
        },
    };
    if let Some(p) = &thumbnail {
        if let Err(issue) = require_safe_relative_path(p.as_str()) {
            return Err(ProjectError::UnsafePath { field: owned("app.thumbnail"), issue });
        }
    }
    let description = match read_string(app, "description") {
        Ok(d) => d,
        Err(()) => {
            return Err(ProjectError::FieldNotString { field: owned("app.description") });
        },
    };
    let allow_remixing = match read_bool(app, "allow_remixing") {
        Ok(b) => b,
        Err(()) => {
            return Err(ProjectError::FieldNotBoolean { field: owned("app.allow_remixing") });
        },
    };
    Ok(
        Some(
            AppConfig {
                name,
                description,
                visibility,
                link_access,
                allow_remixing,
                tags,
                thumbnail,
            },
        ),
    )
}

/// What reading the `[app]` table of `doc` gives: nothing without one, the
/// metadata it holds when acceptable, else an error.
pub open spec fn loaded_app(doc: TomlDocument, r: Result<Option<AppConfig>, ProjectError>) -> bool {
    &&& (top_item(doc.items@, "app"@) is None ==> (r matches Ok(c) && c is None))
    &&& (app_table_entries(doc) matches Some(t) ==> (r is Ok <==> app_config_problem(t) is None))
    &&& (app_table_entries(doc) matches Some(t) ==> (r matches Ok(c) ==> (c matches Some(a)
        && app_config_of(t, a) && app_config_valid(a))))
    &&& (top_item(doc.items@, "app"@) is Some && app_table_entries(doc) is None ==> r is Err)
}

/// The declarative app metadata of a configuration document.
pub fn app_config(doc: &TomlDocument) -> (r: Result<Option<AppConfig>, ProjectError>)
    ensures
        loaded_app(*doc, r),
{
    parse_app_config(doc)
}

// ---------------------------------------------------------------------------
// Creating the configuration
// ---------------------------------------------------------------------------

/// What `maypop init` does to `maypop.toml`.
#[derive(Clone, Copy, Debug, PartialEq, Eq, Structural)]
pub enum ConfigAction {
    /// Leave the existing file as it is.
    Keep,
    /// Add an `[app]` table to the existing file.
    AddAppTable,
    /// Create the file with a `[build]` table naming `framework`, and an
    /// `[app]` table when app metadata was given.
    Create { framework: Framework, with_app: bool },
}

/// Decide how to create `maypop.toml` without replacing existing configuration:
/// an existing file must hold a valid `[build]` table, gains an `[app]` table
/// only when it has none and metadata was given, and is otherwise checked; a
/// new file records the detected framework, or `auto`.
pub fn create_config(
    existing: Option<&TomlDocument>,
    app: Option<&AppConfig>,
    files: &ProjectFiles,
) -> (r: Result<ConfigAction, ProjectError>)
    ensures
        existing matches Some(d) ==> {
            &&& load_config_outcome(*d) is Err ==> r is Err
            &&& load_config_outcome(*d) is Ok && top_item(d.items@, "app"@) is None ==> r
                == Ok::<ConfigAction, ProjectError>(
                if app is Some {
                    ConfigAction::AddAppTable
                } else {
                    ConfigAction::Keep
                },
            )
            &&& load_config_outcome(*d) is Ok && top_item(d.items@, "app"@) is Some ==> (r is Ok
                <==> (app_table_entries(*d) matches Some(t) && app_config_problem(t) is None))
            &&& r is Ok && top_item(d.items@, "app"@) is Some ==> r == Ok::<
                ConfigAction,
                ProjectError,
            >(ConfigAction::Keep)
        },
        existing is None ==> match detected_framework(*files) {
            Ok(f) => r == Ok::<ConfigAction, ProjectError>(
                ConfigAction::Create {
                    framework: match f {
                        Some(g) => g,
                        None => Framework::Auto,
                    },
                    with_app: app is Some,
                },
            ),
            Err(_) => r matches Err(e) && e is InvalidPackageJson,
        },
{
    match existing {
        Some(doc) => {
            load_config(doc)?;
            if find_top(doc, "app").is_none() {
                if app.is_some() {
                    Ok(ConfigAction::AddAppTable)
                } else {
                    Ok(ConfigAction::Keep)
                }
            } else {
                parse_app_config(doc)?;
                Ok(ConfigAction::Keep)
            }
        },
        None => {
            let framework = match detect_framework(files)? {
                Some(f) => f,
                None => Framework::Auto,
            };
            Ok(ConfigAction::Create { framework, with_app: app.is_some() })
        },
    }
}

// ---------------------------------------------------------------------------
// Planning the build
// ---------------------------------------------------------------------------

/// A resolved framework build, ready to run and upload.
#[derive(Debug)]
pub struct BuildSettings {
    pub framework: Framework,
    pub command: Option<Vec<String>>,
    pub output: String,
    pub entry: String,
    pub routing: Routing,
}

/// The framework a build uses: the configured one, or the detected one for `auto`.
pub open spec fn resolved_framework(config: ProjectConfig, files: ProjectFiles) -> Option<Framework> {
    if config.build.framework is Auto {
        match detected_framework(files) {
            Ok(Some(f)) => Some(f),
            _ => None,
        }
    } else {
        Some(config.build.framework)
    }
}

/// Resolve the configured adapter: the framework (detected for `auto`), the
/// build command and output directory (configured, else the adapter's), the
/// entry document (configured, else `index.html`) and the routing.
pub fn plan_build(config: &ProjectConfig, files: &ProjectFiles) -> (r: Result<
    BuildSettings,
    ProjectError,
>)
    ensures
        config.build.framework is Auto && detected_framework(*files) is Err ==> (r matches Err(e)
            && e is InvalidPackageJson),
        config.build.framework is Auto && detected_framework(*files) == Ok::<
            Option<Framework>,
            (),
        >(None) ==> (r matches Err(e) && e is NoFrameworkDetected),
        r matches Ok(b) ==> {
            &&& resolved_framework(*config, *files) == Some(b.framework)
            &&& !(b.framework is Auto)
            &&& b.routing == (if b.framework is Next {
                Routing::StaticPages
            } else {
                Routing::Spa
            })
            &&& opt_views(b.command) == match config.build.command {
                Some(c) => Some(views(c@)),
                None => if b.framework is Static {
                    None
                } else {
                    Some(build_command_spec(package_manager_spec(*files)))
                },
            }
            &&& (b.command matches Some(c) ==> c@.len() > 0)
            &&& b.output@ == match config.build.output {
                Some(o) => o@,
                None => if b.framework is Next {
                    "out"@
                } else if b.framework is Static {
                    "."@
                } else {
                    "dist"@
                },
            }
            &&& b.entry@ == match config.build.entry {
                Some(e) => e@,
                None => "index.html"@,
            }
            &&& is_safe_relative(b.output@)
            &&& is_safe_relative(b.entry@)
        },
        resolved_framework(*config, *files) matches Some(f) ==> {
            let command = match config.build.command {
                Some(c) => Some(views(c@)),
                None => if f is Static {
                    None
                } else {
                    Some(build_command_spec(package_manager_spec(*files)))
                },
            };
            let output = match config.build.output {
                Some(o) => o@,
                None => if f is Next {
                    "out"@
                } else if f is Static {
                    "."@
                } else {
                    "dist"@
                },
            };
            let entry = match config.build.entry {
                Some(e) => e@,
                None => "index.html"@,
            };
            &&& (command matches Some(c) && c.len() == 0) ==> (r matches Err(e) && e is EmptyCommand)
            &&& !(command matches Some(c) && c.len() == 0) && !is_safe_relative(output) ==> (
            r matches Err(e) && e matches ProjectError::UnsafePath { field, issue } && field@
                == "build.output"@ && issue == unsafe_path_issue(output))
            &&& !(command matches Some(c) && c.len() == 0) && is_safe_relative(output)
                && !is_safe_relative(entry) ==> (r matches Err(e)
                && e matches ProjectError::UnsafePath { field, issue } && field@ == "build.entry"@
                && issue == unsafe_path_issue(entry))
            &&& !(command matches Some(c) && c.len() == 0) && is_safe_relative(output)
                && is_safe_relative(entry) ==> r is Ok
        },
{
    let framework = match config.build.framework {
        Framework::Auto => match detect_framework(files)? {
            Some(f) => f,
            None => {
                return Err(ProjectError::NoFrameworkDetected);
            },
        },
        f => f,
    };
    let defaults = adapter(framework, files)?;
    let command = match &config.build.command {
        Some(c) => Some(clone_list(c)),
        None => defaults.command,
    };
    if let Some(c) = &command {
        if c.len() == 0 {
            return Err(ProjectError::EmptyCommand);
        }
    }
    let output = match &config.build.output {
        Some(o) => o.clone(),
        None => defaults.output,
    };
    if let Err(issue) = require_safe_relative_path(output.as_str()) {
        return Err(ProjectError::UnsafePath { field: owned("build.output"), issue });
    }
    let entry = match &config.build.entry {
        Some(e) => e.clone(),
        None => owned("index.html"),
    };
    if let Err(issue) = require_safe_relative_path(entry.as_str()) {
        return Err(ProjectError::UnsafePath { field: owned("build.entry"), issue });
    }
    Ok(BuildSettings { framework, command, output, entry, routing: defaults.routing })
}

/// The error for a build that left no output directory: Next.js gets a hint
/// about static export when it produced `.next`.
pub fn missing_output_error(framework: Framework, has_dot_next: bool) -> (r: ProjectError)
    ensures
        framework is Next && has_dot_next ==> r is NextWithoutExport,
        !(framework is Next && has_dot_next) ==> r is MissingOutput,
{
    if framework == Framework::Next && has_dot_next {
        ProjectError::NextWithoutExport
    } else {
        ProjectError::MissingOutput
    }
}


/// The built output must resolve inside the resolved repository and hold the entry file.
pub fn check_output_directory(root: &str, output: &str, entry_is_file: bool) -> (r: Result<
    (),
    ProjectError,
>)
    ensures
        !is_component_prefix(components(root@), components(output@)) ==> (r matches Err(e)
            && e is OutputOutsideRepository),
        is_component_prefix(components(root@), components(output@)) && !entry_is_file ==> (
        r matches Err(e) && e is MissingEntryFile),
        is_component_prefix(components(root@), components(output@)) && entry_is_file ==> r is Ok,
{
    if !path_starts_with(output, root) {
        return Err(ProjectError::OutputOutsideRepository);
    }
    if !entry_is_file {
        return Err(ProjectError::MissingEntryFile);
    }
    Ok(())
}

} // verus!
