use maypop::config_file::{
    config_update, project_files, read_app_config, read_config, read_document, ConfigWrite,
};
use maypop::project::{
    detect_framework, AppConfig, Framework, PackageJson, ProjectError, TomlItem, TomlScalar,
    TomlValue,
};

fn example_app() -> AppConfig {
    AppConfig {
        name: Some("Rsbuild example".into()),
        description: Some("An example app".into()),
        visibility: Some("private".into()),
        link_access: Some("request".into()),
        allow_remixing: Some(true),
        tags: Some(vec!["example".into()]),
        thumbnail: None,
    }
}

#[test]
fn init_configuration_records_the_detected_adapter() {
    let package = br#"{"devDependencies":{"@rsbuild/core":"2"}}"#;
    let files = project_files(Some(package), false, false, false, false, false);
    let app = example_app();
    let text = match config_update(None, Some(&app), &files).unwrap() {
        ConfigWrite::Create(text) => text,
        other => panic!("expected a new file, got {other:?}"),
    };
    assert_eq!(
        text,
        [
            "[app]\n",
            "name = \"Rsbuild example\"\n",
            "description = \"An example app\"\n",
            "visibility = \"private\"\n",
            "link_access = \"request\"\n",
            "allow_remixing = true\n",
            "tags = [\"example\"]\n",
            "\n[build]\n",
            "framework = \"rsbuild\"\n",
        ]
        .concat()
    );
    assert_eq!(read_config(&text).unwrap().build.framework, Framework::Rsbuild);
    assert_eq!(read_app_config(&text).unwrap(), Some(app));
}

#[test]
fn a_new_configuration_without_metadata_records_auto() {
    let files = project_files(None, false, false, false, false, false);
    let text = match config_update(None, None, &files).unwrap() {
        ConfigWrite::Create(text) => text,
        other => panic!("expected a new file, got {other:?}"),
    };
    assert_eq!(text, "[build]\nframework = \"auto\"\n");
    assert_eq!(read_config(&text).unwrap().build.framework, Framework::Auto);
    assert_eq!(read_app_config(&text).unwrap(), None);
}

#[test]
fn an_invalid_package_json_stops_a_new_configuration() {
    let files = project_files(Some(b"{not json"), true, false, false, false, false);
    assert!(matches!(files.package_json, PackageJson::Invalid));
    assert!(matches!(
        config_update(None, None, &files),
        Err(ProjectError::InvalidPackageJson)
    ));
}

#[test]
fn package_json_declarations_are_read() {
    let package = br#"{"dependencies":{"next":"15"},"devDependencies":{"vite":"6"},"packageManager":"pnpm@9.1.0"}"#;
    let files = project_files(Some(package), false, true, false, false, true);
    match &files.package_json {
        PackageJson::Parsed(info) => {
            assert_eq!(info.dependencies, vec!["next".to_string()]);
            assert_eq!(info.dev_dependencies, vec!["vite".to_string()]);
            assert_eq!(info.package_manager.as_deref(), Some("pnpm@9.1.0"));
        }
        other => panic!("expected declarations, got {other:?}"),
    }
    assert!(files.pnpm_lock && files.yarn_lock && !files.index_html);
    assert_eq!(detect_framework(&files).unwrap(), Some(Framework::Next));

    let bare = project_files(Some(b"{\"dependencies\":[1]}"), true, false, false, false, false);
    match &bare.package_json {
        PackageJson::Parsed(info) => {
            assert!(info.dependencies.is_empty() && info.package_manager.is_none());
        }
        other => panic!("expected declarations, got {other:?}"),
    }
    assert_eq!(detect_framework(&bare).unwrap(), Some(Framework::Static));
}

#[test]
fn build_configuration_is_read_from_text() {
    let text = "[build]\nframework = \"vite\"\ncommand = [\"npm\", \"run\", \"build\"]\noutput = \"dist\"\n";
    let config = read_config(text).unwrap();
    assert_eq!(config.build.framework, Framework::Vite);
    assert_eq!(
        config.build.command,
        Some(vec!["npm".to_string(), "run".into(), "build".into()])
    );
    assert_eq!(config.build.output.as_deref(), Some("dist"));
    assert_eq!(config.build.entry, None);

    assert!(matches!(read_config("[build\n"), Err(ProjectError::InvalidToml)));
    assert!(matches!(
        read_config("framework = \"vite\"\n"),
        Err(ProjectError::MissingBuildTable)
    ));
    assert!(matches!(
        read_config("[build]\nframework = 3\n"),
        Err(ProjectError::FrameworkNotString)
    ));
    assert!(matches!(
        read_config("[build]\nframework = \"vite\"\ncommand = [\"npm\", 1]\n"),
        Err(ProjectError::CommandNotStrings)
    ));
}

#[test]
fn documents_are_read_in_order_with_their_kinds() {
    let doc = read_document("title = \"x\"\n[app]\nflag = true\nlist = [\"a\", false, 2]\nn = 1\n")
        .unwrap();
    assert_eq!(doc.items.len(), 2);
    assert_eq!(doc.items[0].key, "title");
    assert!(matches!(&doc.items[0].item, TomlItem::Value(TomlValue::Str(s)) if s == "x"));
    assert_eq!(doc.items[1].key, "app");
    let entries = match &doc.items[1].item {
        TomlItem::Table(entries) => entries,
        other => panic!("expected a table, got {other:?}"),
    };
    assert_eq!(entries.len(), 3);
    assert!(matches!(entries[0].value, TomlValue::Bool(true)));
    match &entries[1].value {
        TomlValue::Array(items) => {
            assert!(matches!(&items[0], TomlScalar::Str(s) if s == "a"));
            assert!(matches!(items[1], TomlScalar::Bool(false)));
            assert!(matches!(items[2], TomlScalar::Other));
        }
        other => panic!("expected an array, got {other:?}"),
    }
    assert!(matches!(entries[2].value, TomlValue::Other));
    assert!(read_document("= nothing").is_none());
}

#[test]
fn app_metadata_is_read_from_text() {
    let text = "[build]\nframework = \"vite\"\n\n[app]\nname = \"Demo\"\nvisibility = \"public\"\n";
    let app = read_app_config(text).unwrap().unwrap();
    assert_eq!(app.name.as_deref(), Some("Demo"));
    assert_eq!(app.visibility.as_deref(), Some("public"));
    assert!(matches!(
        read_app_config("[app]\nvisibility = \"secret\"\n"),
        Err(ProjectError::InvalidVisibility)
    ));
    assert!(matches!(read_app_config("app = 1\n"), Err(ProjectError::AppNotTable)));
    assert!(matches!(read_app_config("[app\n"), Err(ProjectError::InvalidToml)));
}

#[test]
fn existing_configuration_gains_an_app_table_only_when_it_has_none() {
    let files = project_files(None, false, false, false, false, false);
    let existing = "[build]\nframework = \"vite\"\n";
    let app = example_app();
    let text = match config_update(Some(existing), Some(&app), &files).unwrap() {
        ConfigWrite::Update(text) => text,
        other => panic!("expected an update, got {other:?}"),
    };
    assert!(text.starts_with(existing));
    assert_eq!(read_config(&text).unwrap().build.framework, Framework::Vite);
    assert_eq!(read_app_config(&text).unwrap(), Some(app.clone()));

    assert!(matches!(
        config_update(Some(existing), None, &files),
        Ok(ConfigWrite::Keep)
    ));
    assert!(matches!(
        config_update(Some(&text), Some(&app), &files),
        Ok(ConfigWrite::Keep)
    ));
    assert!(matches!(
        config_update(Some("[app]\nname = \"x\"\n"), Some(&app), &files),
        Err(ProjectError::MissingBuildTable)
    ));
    assert!(matches!(
        config_update(Some("[build]\nframework = \"vite\"\n[app]\nname = \" \"\n"), None, &files),
        Err(ProjectError::EmptyAppName)
    ));
    assert!(matches!(
        config_update(Some("[build"), None, &files),
        Err(ProjectError::InvalidToml)
    ));
}
