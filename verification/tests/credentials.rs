use maypop::credentials::{
    api_url_for, check_store, normalize_url, profiles, profiles_file, save, select_credentials,
    selected_profile, set_default, token_for, validate_profile_name, ConfigEnv, CredentialError,
    CredentialStore, CredentialUser, Credentials,
};

const DEFAULT_API_URL: &str = "https://api.app.maypop.ai";

fn example_credentials(api_url: &str, username: &str) -> Credentials {
    Credentials {
        api_url: api_url.into(),
        token: format!("mpat_{username}"),
        expires_at: "2027-01-01T00:00:00Z".into(),
        user: CredentialUser {
            id: "00000000-0000-0000-0000-000000000001".into(),
            username: username.into(),
            name: Some("Gustavo".into()),
            email: "gustavo@example.com".into(),
            git_user_id: "user_gustavo".into(),
            git_server_url: format!("{api_url}/git"),
        },
    }
}

#[test]
fn profile_names_are_shell_and_config_safe() {
    for valid in ["local", "dev-2", "prod_eu"] {
        assert!(validate_profile_name(valid).is_ok());
    }
    for invalid in ["", "two words", "../prod", "dev.example"] {
        assert!(validate_profile_name(invalid).is_err());
    }
}

#[test]
fn credential_selection_prefers_the_default_then_an_explicit_profile() {
    let store = CredentialStore::from_entries(
        1,
        "prod".into(),
        vec![
            (
                "dev".into(),
                example_credentials("https://api.dev.maypop.ai", "dev-user"),
            ),
            ("prod".into(), example_credentials(DEFAULT_API_URL, "prod-user")),
        ],
    );

    let production = select_credentials(&store, DEFAULT_API_URL, None)
        .unwrap()
        .unwrap();
    assert_eq!(production.user.username, "prod-user");
    let development = select_credentials(&store, "https://api.dev.maypop.ai/", Some("dev"))
        .unwrap()
        .unwrap();
    assert_eq!(development.user.username, "dev-user");
    assert!(select_credentials(&store, DEFAULT_API_URL, Some("dev")).is_err());
}

#[test]
fn saved_profiles_round_trip_and_the_default_can_change() {
    let store = save(
        None,
        "local",
        example_credentials("http://localhost:3000", "local-user"),
    )
    .unwrap();
    assert_eq!(store.default_profile(), "local");
    let store = save(
        Some(store),
        "prod",
        example_credentials(DEFAULT_API_URL, "prod-user"),
    )
    .unwrap();
    assert_eq!(store.default_profile(), "local");
    let store = set_default(Some(store), "prod").unwrap();
    assert_eq!(store.default_profile(), "prod");
    assert_eq!(store.len(), 2);
    assert_eq!(store.get("local").unwrap().token, "mpat_local-user");
    let listed = profiles(Some(&store));
    let names: Vec<(&str, bool)> = listed
        .iter()
        .map(|p| (p.name.as_str(), p.is_default))
        .collect();
    assert_eq!(names, vec![("local", false), ("prod", true)]);
}

#[test]
fn a_saved_login_is_selected_for_its_own_origin() {
    let login = example_credentials("http://localhost:3000/", "local-user");
    let store = save(None, "local", login).unwrap();
    let selected = select_credentials(&store, "http://localhost:3000", Some("local"))
        .unwrap()
        .unwrap();
    assert_eq!(selected.token, "mpat_local-user");
    let plain = select_credentials(&store, "http://localhost:3000", None)
        .unwrap()
        .unwrap();
    assert_eq!(plain.token, "mpat_local-user");
    assert!(select_credentials(&store, DEFAULT_API_URL, None)
        .unwrap()
        .is_none());
}

#[test]
fn another_serving_profile_is_found_when_the_default_does_not_serve() {
    let store = CredentialStore::from_entries(
        1,
        "prod".into(),
        vec![
            ("b-local".into(), example_credentials("http://localhost:3000", "b")),
            ("a-local".into(), example_credentials("http://localhost:3000/", "a")),
            ("prod".into(), example_credentials(DEFAULT_API_URL, "prod-user")),
        ],
    );
    let found = select_credentials(&store, "http://localhost:3000", None)
        .unwrap()
        .unwrap();
    assert_eq!(found.user.username, "a");
    assert_eq!(
        token_for(Some(&store), "http://localhost:3000", None).unwrap(),
        Some("mpat_a".to_string())
    );
    assert_eq!(token_for(None, "http://localhost:3000", None).unwrap(), None);
}

#[test]
fn unknown_and_invalid_profiles_are_reported() {
    let store = save(None, "local", example_credentials("http://localhost:3000", "u")).unwrap();
    assert!(select_credentials(&store, "http://localhost:3000", Some("other"))
        .unwrap()
        .is_none());
    assert!(matches!(
        select_credentials(&store, "http://localhost:3000", Some("bad name")),
        Err(CredentialError::InvalidProfileName)
    ));
    assert!(matches!(
        set_default(Some(store), "other"),
        Err(CredentialError::UnknownProfile { .. })
    ));
    assert!(matches!(set_default(None, "other"), Err(CredentialError::NoProfiles)));
}

#[test]
fn api_urls_come_from_flags_profiles_or_the_production_default() {
    let store = save(None, "local", example_credentials("http://localhost:3000/", "u")).unwrap();
    assert_eq!(
        api_url_for("local", Some("https://x.example/"), Some(&store)).unwrap(),
        "https://x.example"
    );
    assert_eq!(
        api_url_for("local", None, Some(&store)).unwrap(),
        "http://localhost:3000"
    );
    assert_eq!(api_url_for("default", None, None).unwrap(), DEFAULT_API_URL);
    assert!(matches!(
        api_url_for("dev", None, Some(&store)),
        Err(CredentialError::UnknownProfile { .. })
    ));
    assert_eq!(normalize_url("https://a.example//"), "https://a.example");
}

#[test]
fn the_selected_profile_defaults_to_the_store_default() {
    let store = save(None, "local", example_credentials("http://localhost:3000", "u")).unwrap();
    assert_eq!(selected_profile(None, Some(&store)).unwrap(), "local");
    assert_eq!(selected_profile(None, None).unwrap(), "default");
    assert_eq!(selected_profile(Some("dev"), Some(&store)).unwrap(), "dev");
    assert!(selected_profile(Some("a b"), None).is_err());
}

#[test]
fn stores_with_another_version_or_a_missing_default_are_refused() {
    let store = CredentialStore::from_entries(
        2,
        "prod".into(),
        vec![("prod".into(), example_credentials(DEFAULT_API_URL, "p"))],
    );
    assert!(matches!(
        check_store(store),
        Err(CredentialError::UnsupportedVersion { version: 2 })
    ));
    let store = CredentialStore::from_entries(
        1,
        "missing".into(),
        vec![("prod".into(), example_credentials(DEFAULT_API_URL, "p"))],
    );
    assert!(matches!(
        check_store(store),
        Err(CredentialError::MissingDefault { .. })
    ));
}

#[test]
fn normalizing_twice_changes_nothing() {
    for url in ["https://a.example", "https://a.example/", "https://a.example///", "", "/"] {
        let once = normalize_url(url);
        assert_eq!(normalize_url(&once), once);
    }
}

#[test]
fn the_profiles_file_follows_the_environment() {
    let env = |dir: Option<&str>, xdg: Option<&str>, appdata: Option<&str>, windows: bool, home: Option<&str>| ConfigEnv {
        maypop_config_dir: dir.map(str::to_string),
        xdg_config_home: xdg.map(str::to_string),
        appdata: appdata.map(str::to_string),
        windows,
        home: home.map(str::to_string),
    };
    assert_eq!(
        profiles_file(&env(Some("/cfg"), Some("/xdg"), None, false, Some("/home/a"))).unwrap(),
        vec!["/cfg", "profiles.json"]
    );
    assert_eq!(
        profiles_file(&env(None, Some("/xdg"), None, false, Some("/home/a"))).unwrap(),
        vec!["/xdg", "maypop", "profiles.json"]
    );
    assert_eq!(
        profiles_file(&env(None, None, Some("C:/AppData"), true, None)).unwrap(),
        vec!["C:/AppData", "maypop", "profiles.json"]
    );
    assert_eq!(
        profiles_file(&env(None, None, Some("C:/AppData"), false, Some("/home/a"))).unwrap(),
        vec!["/home/a", ".config", "maypop", "profiles.json"]
    );
    assert!(matches!(
        profiles_file(&env(None, None, None, false, None)),
        Err(CredentialError::NoConfigDirectory)
    ));
}

#[test]
fn a_named_profile_for_another_origin_is_reported_with_both_origins() {
    let store = save(None, "dev", example_credentials("https://api.dev.maypop.ai/", "d")).unwrap();
    match select_credentials(&store, "https://api.app.maypop.ai", Some("dev")) {
        Err(CredentialError::ProfileUrlMismatch {
            profile,
            profile_url,
            app_url,
        }) => {
            assert_eq!(profile, "dev");
            assert_eq!(profile_url, "https://api.dev.maypop.ai");
            assert_eq!(app_url, "https://api.app.maypop.ai");
        }
        other => panic!("unexpected {other:?}"),
    }
}

#[test]
fn listed_profiles_read_back_as_the_same_store() {
    let store = save(None, "prod", example_credentials(DEFAULT_API_URL, "p")).unwrap();
    let store = save(Some(store), "dev", example_credentials("https://api.dev.maypop.ai", "d"))
        .unwrap();
    let pairs: Vec<(String, Credentials)> = profiles(Some(&store))
        .into_iter()
        .map(|p| (p.name, p.credentials))
        .collect();
    let read = CredentialStore::from_entries(
        store.version(),
        store.default_profile().clone(),
        pairs,
    );
    assert_eq!(read.len(), store.len());
    assert_eq!(read.default_profile(), store.default_profile());
    for name in ["dev", "prod"] {
        assert_eq!(read.get(name).unwrap().token, store.get(name).unwrap().token);
    }
    assert!(check_store(read).is_ok());
}
