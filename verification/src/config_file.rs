//! The text of `maypop.toml` and `package.json`: reading them into the
//! project's model, and writing the configuration that `maypop init` creates.
use crate::project::{
    app_config, app_config_problem, app_table_entries, create_config, detected_framework,
    framework_name, load_config, load_config_outcome, loaded_app, loaded_config, top_item,
    AppConfig, ConfigAction, Framework, PackageInfo, PackageJson, ProjectConfig, ProjectError,
    ProjectFiles, TomlDocument, TomlEntry, TomlItem, TomlScalar, TomlTopEntry, TomlValue,
};
use crate::text::owned;
use crate::user_commands::{app_table_fields, app_table_spec, field_models, AppField, AppFieldModel};
use serde_json::Value;
use toml_edit::{value, Array, DocumentMut, Item, Table};
use vstd::prelude::*;

verus! {

// ---------------------------------------------------------------------------
// Reading TOML text
// ---------------------------------------------------------------------------

/// What `toml_edit` reports of one item: its text when it is a string, its flag
/// when it is a boolean, and, when it is an array, the text and flag of each
/// element.
#[derive(Debug, Clone)]
pub struct TomlReading {
    pub text: Option<String>,
    pub flag: Option<bool>,
    pub items: Option<Vec<(Option<String>, Option<bool>)>>,
}

/// The reading of a document: for each top-level key in document order, the
/// key, the entries of its table (each key with its reading) when it is a
/// table, and its own reading. `None` when the text is not TOML.
pub uninterp spec fn toml_reading_of(raw: Seq<char>) -> Option<
    Vec<(String, Option<Vec<(String, TomlReading)>>, TomlReading)>,
>;

/// Parses `raw` into a `toml_edit::DocumentMut` and walks it with
/// `Table::iter` (document order, empty slots skipped), reading each item
/// with `Item::as_table`, `Item::as_str`, `Item::as_bool` and `Item::as_array`.
/// Claimed: the result is the named reading of the text.
#[verifier::external_body]
fn toml_reading(raw: &str) -> (r: Option<
    Vec<(String, Option<Vec<(String, TomlReading)>>, TomlReading)>,
>)
    ensures
        r == toml_reading_of(raw@),
{
    let read = |i: &Item| TomlReading {
        text: i.as_str().map(String::from),
        flag: i.as_bool(),
        items: i.as_array().map(|a| a.iter().map(|v| (v.as_str().map(String::from), v.as_bool())).collect()),
    };
    let document = raw.parse::<DocumentMut>().ok()?;
    let table = |t: &Table| t.iter().map(|(k, v)| (k.to_string(), read(v))).collect();
    Some(document.iter().map(|(k, i)| (k.to_string(), i.as_table().map(table), read(i))).collect())
}

/// An array element read as a scalar: a string, else a boolean, else another value.
pub open spec fn scalar_read(x: (Option<String>, Option<bool>), s: TomlScalar) -> bool {
    match x {
        (Some(t), _) => s == TomlScalar::Str(t),
        (None, Some(b)) => s == TomlScalar::Bool(b),
        (None, None) => s is Other,
    }
}

/// An item read as a value: a string, else a boolean, else an array, else
/// another value.
pub open spec fn value_read(r: TomlReading, v: TomlValue) -> bool {
    match r.text {
        Some(t) => v == TomlValue::Str(t),
        None => match r.flag {
            Some(b) => v == TomlValue::Bool(b),
            None => match r.items {
                Some(a) => v matches TomlValue::Array(b) && b@.len() == a@.len() && forall|i: int|
                    0 <= i < a@.len() ==> scalar_read(#[trigger] a@[i], b@[i]),
                None => v is Other,
            },
        },
    }
}

/// The entries of a table, in order, read from their readings.
pub open spec fn entries_read(p: Seq<(String, TomlReading)>, t: Seq<TomlEntry>) -> bool {
    &&& t.len() == p.len()
    &&& forall|i: int|
        0 <= i < p.len() ==> (#[trigger] t[i]).key == p[i].0 && value_read(p[i].1, t[i].value)
}

/// The document, in order, read from its reading: tables as tables, every
/// other item as a value.
pub open spec fn document_read(
    p: Seq<(String, Option<Vec<(String, TomlReading)>>, TomlReading)>,
    d: TomlDocument,
) -> bool {
    &&& d.items@.len() == p.len()
    &&& forall|i: int|
        0 <= i < p.len() ==> (#[trigger] d.items@[i]).key == p[i].0 && match p[i].1 {
            Some(e) => d.items@[i].item matches TomlItem::Table(t) && entries_read(e@, t@),
            None => d.items@[i].item matches TomlItem::Value(v) && value_read(p[i].2, v),
        }
}

fn scalar_from(x: &(Option<String>, Option<bool>)) -> (s: TomlScalar)
    ensures
        scalar_read(*x, s),
{
    match (&x.0, x.1) {
        (Some(t), _) => TomlScalar::Str(t.clone()),
        (None, Some(b)) => TomlScalar::Bool(b),
        (None, None) => TomlScalar::Other,
    }
}

fn value_from(r: &TomlReading) -> (v: TomlValue)
    ensures
        value_read(*r, v),
{
    if let Some(t) = &r.text {
        return TomlValue::Str(t.clone());
    }
    if let Some(b) = r.flag {
        return TomlValue::Bool(b);
    }
    match &r.items {
        Some(a) => {
            let mut out: Vec<TomlScalar> = Vec::new();
            let mut i: usize = 0;
            while i < a.len()
                invariant
                    i <= a.len(),
                    out@.len() == i,
                    forall|j: int| 0 <= j < i ==> scalar_read(#[trigger] a@[j], out@[j]),
                decreases a.len() - i,
            {
                out.push(scalar_from(&a[i]));
                i = i + 1;
            }
            TomlValue::Array(out)
        },
        None => TomlValue::Other,
    }
}

fn entries_from(p: &Vec<(String, TomlReading)>) -> (t: Vec<TomlEntry>)
    ensures
        entries_read(p@, t@),
{
    let mut out: Vec<TomlEntry> = Vec::new();
    let mut i: usize = 0;
    while i < p.len()
        invariant
            i <= p.len(),
            out@.len() == i,
            forall|j: int|
                0 <= j < i ==> (#[trigger] out@[j]).key == p@[j].0 && value_read(
                    p@[j].1,
                    out@[j].value,
                ),
        decreases p.len() - i,
    {
        out.push(TomlEntry { key: p[i].0.clone(), value: value_from(&p[i].1) });
        i = i + 1;
    }
    out
}

/// The model of a document from its reading.
pub fn document_from(p: &Vec<(String, Option<Vec<(String, TomlReading)>>, TomlReading)>) -> (d:
    TomlDocument)
    ensures
        document_read(p@, d),
{
    let mut out: Vec<TomlTopEntry> = Vec::new();
    let mut i: usize = 0;
    while i < p.len()
        invariant
            i <= p.len(),
            out@.len() == i,
            forall|j: int|
                0 <= j < i ==> (#[trigger] out@[j]).key == p@[j].0 && match p@[j].1 {
                    Some(e) => out@[j].item matches TomlItem::Table(t) && entries_read(e@, t@),
                    None => out@[j].item matches TomlItem::Value(v) && value_read(p@[j].2, v),
                },
        decreases p.len() - i,
    {
        let item = match &p[i].1 {
            Some(e) => TomlItem::Table(entries_from(e)),
            None => TomlItem::Value(value_from(&p[i].2)),
        };
        out.push(TomlTopEntry { key: p[i].0.clone(), item });
        i = i + 1;
    }
    TomlDocument { items: out }
}

/// The model of TOML text, or `None` when it is not TOML.
pub fn read_document(raw: &str) -> (r: Option<TomlDocument>)
    ensures
        match toml_reading_of(raw@) {
            None => r is None,
            Some(p) => r matches Some(d) && document_read(p@, d),
        },
{
    match toml_reading(raw) {
        None => None,
        Some(p) => Some(document_from(&p)),
    }
}

/// Read the project configuration from the text of `maypop.toml`.
pub fn read_config(raw: &str) -> (r: Result<ProjectConfig, ProjectError>)
    ensures
        match toml_reading_of(raw@) {
            None => r matches Err(e) && e is InvalidToml,
            Some(p) => exists|d: TomlDocument| #[trigger]
                document_read(p@, d) && loaded_config(d, r),
        },
{
    match read_document(raw) {
        None => Err(ProjectError::InvalidToml),
        Some(d) => load_config(&d),
    }
}

/// Read the optional `[app]` metadata from the text of `maypop.toml`.
pub fn read_app_config(raw: &str) -> (r: Result<Option<AppConfig>, ProjectError>)
    ensures
        match toml_reading_of(raw@) {
            None => r matches Err(e) && e is InvalidToml,
            Some(p) => exists|d: TomlDocument| #[trigger]
                document_read(p@, d) && loaded_app(d, r),
        },
{
    match read_document(raw) {
        None => Err(ProjectError::InvalidToml),
        Some(d) => app_config(&d),
    }
}

// ---------------------------------------------------------------------------
// Reading package.json
// ---------------------------------------------------------------------------

/// What the bytes of `package.json` declare.
pub uninterp spec fn package_json_of(raw: Seq<u8>) -> PackageJson;

/// Parses `raw` with `serde_json::from_slice` into a `serde_json::Value`
/// (`Invalid` when that fails) and reads the keys of the `dependencies` and
/// `devDependencies` objects (none where the field is missing or not an
/// object) and the `packageManager` value when it is a string. Claimed: the
/// result is the named reading of the bytes.
#[verifier::external_body]
fn package_reading(raw: &[u8]) -> (r: PackageJson)
    ensures
        r == package_json_of(raw@),
{
    let package = match serde_json::from_slice::<Value>(raw) {
        Ok(package) => package,
        Err(_) => return PackageJson::Invalid,
    };
    let keys = |field: &str| -> Vec<String> {
        package.get(field).and_then(Value::as_object).map(|o| o.keys().cloned().collect()).unwrap_or_default()
    };
    let manager = package.get("packageManager").and_then(Value::as_str).map(String::from);
    PackageJson::Parsed(PackageInfo { dependencies: keys("dependencies"), dev_dependencies: keys("devDependencies"), package_manager: manager })
}

/// The files at the project root: the bytes of `package.json` when it exists,
/// and which of the other files exist.
pub fn project_files(
    package_json: Option<&[u8]>,
    index_html: bool,
    pnpm_lock: bool,
    bun_lock: bool,
    bun_lockb: bool,
    yarn_lock: bool,
) -> (r: ProjectFiles)
    ensures
        r.package_json == match package_json {
            None => PackageJson::Missing,
            Some(b) => package_json_of(b@),
        },
        r.index_html == index_html,
        r.pnpm_lock == pnpm_lock,
        r.bun_lock == bun_lock,
        r.bun_lockb == bun_lockb,
        r.yarn_lock == yarn_lock,
{
    let package_json = match package_json {
        None => PackageJson::Missing,
        Some(b) => package_reading(b),
    };
    ProjectFiles { package_json, index_html, pnpm_lock, bun_lock, bun_lockb, yarn_lock }
}

// ---------------------------------------------------------------------------
// Writing TOML text
// ---------------------------------------------------------------------------

/// Tables to write, each a key with its fields in order.
pub open spec fn tables_model(t: Seq<(String, Vec<(String, AppField)>)>) -> Seq<
    (Seq<char>, Seq<(Seq<char>, AppFieldModel)>),
> {
    t.map_values(|p: (String, Vec<(String, AppField)>)| (p.0@, field_models(p.1@)))
}

/// The text of `raw` with each of `tables` set, in order; `None` when `raw` is
/// not TOML.
pub uninterp spec fn toml_with_tables(
    raw: Seq<char>,
    tables: Seq<(Seq<char>, Seq<(Seq<char>, AppFieldModel)>)>,
) -> Option<Seq<char>>;

/// Parses `raw` into a `toml_edit::DocumentMut`, sets each key of `tables` in
/// turn to a new `Table` holding its fields in order (`toml_edit::value` of
/// the string or boolean, an `Array` of the strings of a list), and prints the
/// document with `to_string`. Claimed: the result is the named text, and it is
/// present exactly when `raw` is TOML (the parse is the one `toml_reading`
/// makes, and the empty text parses; setting a key and printing do not fail).
#[verifier::external_body]
fn with_tables(raw: &str, tables: &Vec<(String, Vec<(String, AppField)>)>) -> (r: Option<String>)
    ensures
        match r {
            Some(s) => toml_with_tables(raw@, tables_model(tables@)) == Some(s@),
            None => toml_with_tables(raw@, tables_model(tables@)) is None,
        },
        r is Some <==> toml_reading_of(raw@) is Some,
        raw@.len() == 0 ==> r is Some,
{
    let mut document = raw.parse::<DocumentMut>().ok()?;
    for (key, fields) in tables {
        let mut table = Table::new();
        for (name, field) in fields {
            table[name.as_str()] = match field {
                AppField::Text(text) => value(text),
                AppField::Flag(flag) => value(*flag),
                AppField::List(list) => value(list.iter().collect::<Array>()),
            };
        }
        document[key.as_str()] = Item::Table(table);
    }
    Some(document.to_string())
}

/// What `maypop init` does to `maypop.toml`.
#[derive(Debug)]
pub enum ConfigWrite {
    /// Leave the file as it is.
    Keep,
    /// Write this text over the existing file.
    Update(String),
    /// Create the file with this text.
    Create(String),
}

/// The app metadata behind an optional reference.
pub open spec fn given_app(app: Option<&AppConfig>) -> Option<AppConfig> {
    match app {
        Some(a) => Some(*a),
        None => None,
    }
}

/// The framework a new configuration records.
pub open spec fn recorded_framework(f: Option<Framework>) -> Framework {
    match f {
        Some(g) => g,
        None => Framework::Auto,
    }
}

/// The tables of a new `maypop.toml`: `[app]` when metadata was given, then
/// `[build]` naming the framework.
pub open spec fn new_config_tables(app: Option<AppConfig>, f: Framework) -> Seq<
    (Seq<char>, Seq<(Seq<char>, AppFieldModel)>),
> {
    let app_tables = match app {
        Some(a) => seq![("app"@, app_table_spec(a))],
        None => Seq::empty(),
    };
    app_tables + seq![("build"@, seq![("framework"@, AppFieldModel::Text(framework_name(f)))])]
}

/// What `maypop init` does with an existing configuration document `d` whose
/// text is `raw`: refuse an invalid `[build]` table; add an `[app]` table when
/// there is none and metadata was given; otherwise check an existing `[app]`
/// table and keep the file.
pub open spec fn existing_config_write(
    d: TomlDocument,
    raw: Seq<char>,
    app: Option<AppConfig>,
    r: Result<ConfigWrite, ProjectError>,
) -> bool {
    &&& load_config_outcome(d) is Err ==> r is Err
    &&& load_config_outcome(d) is Ok && top_item(d.items@, "app"@) is None ==> match app {
        Some(a) => r matches Ok(ConfigWrite::Update(s)) && toml_with_tables(
            raw,
            seq![("app"@, app_table_spec(a))],
        ) == Some(s@),
        None => r matches Ok(ConfigWrite::Keep),
    }
    &&& load_config_outcome(d) is Ok && top_item(d.items@, "app"@) is Some ==> (r is Ok <==> (
    app_table_entries(d) matches Some(t) && app_config_problem(t) is None))
    &&& top_item(d.items@, "app"@) is Some && r is Ok ==> r matches Ok(ConfigWrite::Keep)
}

/// Decide what `maypop init` writes to `maypop.toml`, given the file's text
/// when it exists, without replacing existing configuration.
pub fn config_update(existing: Option<&str>, app: Option<&AppConfig>, files: &ProjectFiles) -> (r:
    Result<ConfigWrite, ProjectError>)
    ensures
        match existing {
            None => match detected_framework(*files) {
                Err(_) => r matches Err(e) && e is InvalidPackageJson,
                Ok(f) => r matches Ok(ConfigWrite::Create(s)) && toml_with_tables(
                    ""@,
                    new_config_tables(given_app(app), recorded_framework(f)),
                ) == Some(s@),
            },
            Some(raw) => match toml_reading_of(raw@) {
                None => r matches Err(e) && e is InvalidToml,
                Some(p) => exists|d: TomlDocument| #[trigger]
                    document_read(p@, d) && existing_config_write(d, raw@, given_app(app), r),
            },
        },
{
    match existing {
        Some(raw) => {
            let d = match read_document(raw) {
                None => return Err(ProjectError::InvalidToml),
                Some(d) => d,
            };
            match create_config(Some(&d), app, files)? {
                ConfigAction::AddAppTable => match app {
                    Some(a) => {
                        let tables = vec![(owned("app"), app_table_fields(a))];
                        proof {
                            assert(tables_model(tables@) =~= seq![("app"@, app_table_spec(*a))]);
                        }
                        match with_tables(raw, &tables) {
                            Some(s) => Ok(ConfigWrite::Update(s)),
                            None => Err(ProjectError::InvalidToml),
                        }
                    },
                    None => Ok(ConfigWrite::Keep),
                },
                _ => Ok(ConfigWrite::Keep),
            }
        },
        None => {
            match create_config(None, app, files) {
                Err(e) => Err(e),
                Ok(ConfigAction::Create { framework, .. }) => {
                    let mut tables: Vec<(String, Vec<(String, AppField)>)> = Vec::new();
                    match app {
                        Some(a) => tables.push((owned("app"), app_table_fields(a))),
                        None => {},
                    }
                    let build = vec![(owned("framework"), AppField::Text(owned(framework.name())))];
                    tables.push((owned("build"), build));
                    proof {
                        reveal_strlit("");
                        assert(field_models(build@) =~= seq![
                            ("framework"@, AppFieldModel::Text(framework_name(framework))),
                        ]);
                        assert(tables_model(tables@) =~= new_config_tables(
                            given_app(app),
                            framework,
                        ));
                    }
                    match with_tables("", &tables) {
                        Some(s) => Ok(ConfigWrite::Create(s)),
                        None => Err(ProjectError::InvalidToml),
                    }
                },
                Ok(_) => Err(ProjectError::InvalidToml),
            }
        },
    }
}

} // verus!
