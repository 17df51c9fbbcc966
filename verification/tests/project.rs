use maypop::bundle_upload::Routing;
use maypop::paths::require_safe_relative_path;
use maypop::project::{
    adapter, create_config, has_dependency, load_config, parse_app_config, plan_build,
    AppConfig, ConfigAction, Framework, PackageInfo, PackageJson, PackageManager, ProjectError,
    ProjectFiles, TomlDocument, TomlEntry, TomlItem, TomlScalar, TomlTopEntry, TomlValue,
};

#[test]
fn framework_detection_prefers_the_framework_package() {
    let files = maypop::config_file::project_files(
        Some(br#"{"dependencies": {"next": "16"}, "devDependencies": {"vite": "8"}}"#),
        false,
        false,
        false,
        false,
        false,
    );
    let package = match files.package_json {
        PackageJson::Parsed(package) => package,
        other => panic!("expected declarations, got {other:?}"),
    };
    assert!(has_dependency(&package, "next"));
    assert!(has_dependency(&package, "vite"));
    assert!(!has_dependency(&package, "@rsbuild/core"));
}

#[test]
fn adapters_define_framework_specific_outputs_and_routing() {
    let repository = ProjectFiles::empty();
    let vite = adapter(Framework::Vite, &repository).unwrap();
    assert_eq!(vite.output, "dist");
    assert_eq!(vite.routing, Routing::Spa);

    let next = adapter(Framework::Next, &repository).unwrap();
    assert_eq!(next.output, "out");
    assert_eq!(next.routing, Routing::StaticPages);
}

#[test]
fn output_paths_cannot_escape_the_repository() {
    assert!(require_safe_relative_path("dist").is_ok());
    assert!(require_safe_relative_path("../dist").is_err());
    assert!(require_safe_relative_path("/tmp/dist").is_err());
}

fn package(dev: &[&str], manager: Option<&str>) -> ProjectFiles {
    let mut files = ProjectFiles::empty();
    files.package_json = PackageJson::Parsed(PackageInfo {
        dependencies: Vec::new(),
        dev_dependencies: dev.iter().map(|d| d.to_string()).collect(),
        package_manager: manager.map(str::to_string),
    });
    files
}

#[test]
fn the_package_manager_field_wins_over_lockfiles() {
    let mut files = package(&["vite"], Some("pnpm@9.0.0"));
    files.yarn_lock = true;
    let adapter_defaults = adapter(Framework::Vite, &files).unwrap();
    assert_eq!(
        adapter_defaults.command.unwrap(),
        vec!["pnpm".to_string(), "run".into(), "build".into()]
    );
    let mut files = package(&["vite"], None);
    files.yarn_lock = true;
    assert_eq!(
        adapter(Framework::Vite, &files).unwrap().command.unwrap(),
        vec!["yarn".to_string(), "build".into()]
    );
    assert_eq!(
        PackageManager::Bun.build_command(),
        vec!["bun".to_string(), "run".into(), "build".into()]
    );
    assert!(adapter(Framework::Static, &files).unwrap().command.is_none());
    assert!(matches!(
        adapter(Framework::Auto, &files),
        Err(ProjectError::AutoAdapter)
    ));
}

#[test]
fn framework_names_parse_and_print() {
    for name in ["auto", "vite", "next", "rsbuild", "static"] {
        assert_eq!(Framework::parse(name).unwrap().name(), name);
    }
    assert!(matches!(
        Framework::parse("remix"),
        Err(ProjectError::UnknownFramework { .. })
    ));
}

fn text(s: &str) -> TomlValue {
    TomlValue::Str(s.to_string())
}

fn table(key: &str, entries: Vec<(&str, TomlValue)>) -> TomlTopEntry {
    TomlTopEntry {
        key: key.into(),
        item: TomlItem::Table(
            entries
                .into_iter()
                .map(|(k, v)| TomlEntry {
                    key: k.into(),
                    value: v,
                })
                .collect(),
        ),
    }
}

#[test]
fn build_configuration_overrides_adapter_defaults() {
    let doc = TomlDocument {
        items: vec![table(
            "build",
            vec![
                ("framework", text("next")),
                (
                    "command",
                    TomlValue::Array(vec![
                        TomlScalar::Str("pnpm".into()),
                        TomlScalar::Str("run".into()),
                        TomlScalar::Str("build".into()),
                    ]),
                ),
                ("output", text("web-output")),
            ],
        )],
    };
    let config = load_config(&doc).unwrap();
    let plan = plan_build(&config, &ProjectFiles::empty()).unwrap();
    assert_eq!(plan.framework, Framework::Next);
    assert_eq!(plan.output, "web-output");
    assert_eq!(plan.entry, "index.html");
    assert_eq!(plan.routing, Routing::StaticPages);
    assert_eq!(
        plan.command.unwrap(),
        vec!["pnpm".to_string(), "run".into(), "build".into()]
    );

    let escaping = TomlDocument {
        items: vec![table(
            "build",
            vec![("framework", text("vite")), ("output", text("../dist"))],
        )],
    };
    let escaping = load_config(&escaping).unwrap();
    assert!(matches!(
        plan_build(&escaping, &ProjectFiles::empty()),
        Err(ProjectError::UnsafePath { .. })
    ));
    let missing = TomlDocument { items: Vec::new() };
    assert!(matches!(
        load_config(&missing),
        Err(ProjectError::MissingBuildTable)
    ));
}

#[test]
fn auto_builds_the_detected_framework() {
    let doc = TomlDocument {
        items: vec![table("build", vec![("framework", text("auto"))])],
    };
    let config = load_config(&doc).unwrap();
    let plan = plan_build(&config, &package(&["@rsbuild/core"], None)).unwrap();
    assert_eq!(plan.framework, Framework::Rsbuild);
    assert_eq!(plan.output, "dist");
    assert!(matches!(
        plan_build(&config, &ProjectFiles::empty()),
        Err(ProjectError::NoFrameworkDetected)
    ));
}

#[test]
fn app_tables_are_checked_and_read() {
    let doc = TomlDocument {
        items: vec![
            table(
                "app",
                vec![
                    ("name", text("Rsbuild example")),
                    ("visibility", text("private")),
                    ("link_access", text("request")),
                    ("allow_remixing", TomlValue::Bool(true)),
                    (
                        "tags",
                        TomlValue::Array(vec![TomlScalar::Str("example".into())]),
                    ),
                ],
            ),
            table("build", vec![("framework", text("rsbuild"))]),
        ],
    };
    let app = parse_app_config(&doc).unwrap().unwrap();
    assert_eq!(
        app,
        AppConfig {
            name: Some("Rsbuild example".into()),
            description: None,
            visibility: Some("private".into()),
            link_access: Some("request".into()),
            allow_remixing: Some(true),
            tags: Some(vec!["example".into()]),
            thumbnail: None,
        }
    );
    let bad = TomlDocument {
        items: vec![table("app", vec![("visibility", text("secret"))])],
    };
    assert!(matches!(
        parse_app_config(&bad),
        Err(ProjectError::InvalidVisibility)
    ));
    assert!(matches!(
        create_config(Some(&doc), None, &ProjectFiles::empty()),
        Ok(ConfigAction::Keep)
    ));
    assert!(matches!(
        create_config(None, Some(&app), &package(&["@rsbuild/core"], None)),
        Ok(ConfigAction::Create {
            framework: Framework::Rsbuild,
            with_app: true
        })
    ));
}

fn build_doc(entries: Vec<(&str, TomlValue)>) -> TomlDocument {
    TomlDocument {
        items: vec![table("build", entries)],
    }
}

#[test]
fn build_tables_report_each_kind_of_mistake() {
    assert!(matches!(
        load_config(&build_doc(vec![("framework", TomlValue::Bool(true))])),
        Err(ProjectError::FrameworkNotString)
    ));
    assert!(matches!(
        load_config(&build_doc(vec![
            ("framework", text("vite")),
            ("command", text("npm run build"))
        ])),
        Err(ProjectError::CommandNotArray)
    ));
    assert!(matches!(
        load_config(&build_doc(vec![
            ("framework", text("vite")),
            ("command", TomlValue::Array(vec![TomlScalar::Bool(true)]))
        ])),
        Err(ProjectError::CommandNotStrings)
    ));
    match load_config(&build_doc(vec![
        ("framework", text("vite")),
        ("entry", TomlValue::Bool(false)),
    ])) {
        Err(ProjectError::FieldNotString { field }) => assert_eq!(field, "build.entry"),
        other => panic!("unexpected {other:?}"),
    }
    let empty = load_config(&build_doc(vec![
        ("framework", text("vite")),
        ("command", TomlValue::Array(Vec::new())),
    ]))
    .unwrap();
    assert!(matches!(
        plan_build(&empty, &ProjectFiles::empty()),
        Err(ProjectError::EmptyCommand)
    ));
    let mut broken = ProjectFiles::empty();
    broken.package_json = PackageJson::Invalid;
    let auto = load_config(&build_doc(vec![("framework", text("auto"))])).unwrap();
    assert!(matches!(
        plan_build(&auto, &broken),
        Err(ProjectError::InvalidPackageJson)
    ));
}

fn app_doc(entries: Vec<(&str, TomlValue)>) -> TomlDocument {
    TomlDocument {
        items: vec![table("app", entries)],
    }
}

#[test]
fn app_tables_report_each_kind_of_mistake() {
    assert!(matches!(
        parse_app_config(&TomlDocument {
            items: vec![TomlTopEntry {
                key: "app".into(),
                item: TomlItem::Value(text("x")),
            }],
        }),
        Err(ProjectError::AppNotTable)
    ));
    assert!(matches!(
        parse_app_config(&app_doc(vec![("name", text("   "))])),
        Err(ProjectError::EmptyAppName)
    ));
    assert!(matches!(
        parse_app_config(&app_doc(vec![("link_access", text("edit"))])),
        Err(ProjectError::InvalidLinkAccess)
    ));
    assert!(matches!(
        parse_app_config(&app_doc(vec![("tags", text("a"))])),
        Err(ProjectError::TagsNotArray)
    ));
    assert!(matches!(
        parse_app_config(&app_doc(vec![(
            "tags",
            TomlValue::Array(vec![TomlScalar::Other])
        )])),
        Err(ProjectError::TagsNotStrings)
    ));
    match parse_app_config(&app_doc(vec![("allow_remixing", text("yes"))])) {
        Err(ProjectError::FieldNotBoolean { field }) => assert_eq!(field, "app.allow_remixing"),
        other => panic!("unexpected {other:?}"),
    }
    match parse_app_config(&app_doc(vec![("description", TomlValue::Bool(true))])) {
        Err(ProjectError::FieldNotString { field }) => assert_eq!(field, "app.description"),
        other => panic!("unexpected {other:?}"),
    }
    assert!(matches!(
        parse_app_config(&app_doc(vec![("thumbnail", text("../t.png"))])),
        Err(ProjectError::UnsafePath { .. })
    ));
    assert_eq!(parse_app_config(&TomlDocument { items: Vec::new() }).unwrap(), None);
}

#[test]
fn build_outputs_must_exist_inside_the_repository() {
    assert!(matches!(
        maypop::project::missing_output_error(Framework::Next, true),
        ProjectError::NextWithoutExport
    ));
    assert!(matches!(
        maypop::project::missing_output_error(Framework::Next, false),
        ProjectError::MissingOutput
    ));
    assert!(matches!(
        maypop::project::missing_output_error(Framework::Vite, true),
        ProjectError::MissingOutput
    ));
    assert!(maypop::project::check_output_directory("/repo", "/repo/dist", true).is_ok());
    assert!(matches!(
        maypop::project::check_output_directory("/repo", "/elsewhere/dist", true),
        Err(ProjectError::OutputOutsideRepository)
    ));
    assert!(matches!(
        maypop::project::check_output_directory("/repo", "/repo/dist", false),
        Err(ProjectError::MissingEntryFile)
    ));
}

#[test]
fn written_app_tables_read_back_as_the_same_metadata() {
    use_written_table(AppConfig {
        name: Some("Rsbuild example".into()),
        description: Some("An example app".into()),
        visibility: Some("private".into()),
        link_access: Some("request".into()),
        allow_remixing: Some(true),
        tags: Some(vec!["example".into()]),
        thumbnail: Some("assets/thumbnail.png".into()),
    });
    use_written_table(AppConfig {
        name: None,
        description: None,
        visibility: Some("public".into()),
        link_access: None,
        allow_remixing: None,
        tags: None,
        thumbnail: None,
    });
}

fn use_written_table(app: AppConfig) {
    let entries = maypop::user_commands::app_table_fields(&app)
        .into_iter()
        .map(|(key, field)| TomlEntry {
            key,
            value: match field {
                maypop::user_commands::AppField::Text(t) => TomlValue::Str(t),
                maypop::user_commands::AppField::Flag(b) => TomlValue::Bool(b),
                maypop::user_commands::AppField::List(items) => {
                    TomlValue::Array(items.into_iter().map(TomlScalar::Str).collect())
                }
            },
        })
        .collect();
    let doc = TomlDocument {
        items: vec![TomlTopEntry {
            key: "app".into(),
            item: TomlItem::Table(entries),
        }],
    };
    assert_eq!(parse_app_config(&doc).unwrap(), Some(app));
}
