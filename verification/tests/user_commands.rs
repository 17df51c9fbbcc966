use maypop::credentials::{save, CredentialUser, Credentials};
use maypop::project::AppConfig;
use maypop::user_commands::{
    app_update_fields, check_clean, check_head, check_origin, check_published,
    check_thumbnail_inside, check_unconnected, connection_commands, credential_helper_commands,
    credential_matches, credential_request, credential_scope, credential_step, git_config_value,
    git_server_url, needs_remote_repair, required_token, resolve_initial_app, saved_credential,
    set_origin_command, shell_quote, short_sha, status_token, AppField, HelperStep, UserError,
};

#[test]
fn init_uses_configured_app_metadata() {
    let configured = AppConfig {
        name: Some("Configured app".into()),
        description: Some("Configured description".into()),
        visibility: Some("unlisted".into()),
        link_access: Some("use".into()),
        allow_remixing: Some(false),
        tags: Some(vec!["design".into()]),
        thumbnail: Some("assets/thumbnail.png".into()),
    };

    let resolved = resolve_initial_app(
        "/tmp/directory-name",
        Some(configured.clone()),
        None,
        None,
        None,
    )
    .unwrap();

    assert_eq!(resolved, configured);
}

#[test]
fn init_flags_override_configured_creation_metadata() {
    let configured = AppConfig {
        name: Some("Configured app".into()),
        description: Some("Configured description".into()),
        visibility: Some("unlisted".into()),
        link_access: Some("view".into()),
        allow_remixing: Some(false),
        tags: Some(vec!["design".into()]),
        thumbnail: None,
    };

    let resolved = resolve_initial_app(
        "/tmp/directory-name",
        Some(configured),
        Some("CLI app"),
        Some("CLI description"),
        Some("public"),
    )
    .unwrap();

    assert_eq!(resolved.name.as_deref(), Some("CLI app"));
    assert_eq!(resolved.description.as_deref(), Some("CLI description"));
    assert_eq!(resolved.visibility.as_deref(), Some("public"));
    assert_eq!(resolved.link_access.as_deref(), Some("view"));
    assert_eq!(resolved.allow_remixing, Some(false));
    assert_eq!(resolved.tags, Some(vec!["design".into()]));
}

#[test]
fn init_defaults_metadata_without_configuration_or_flags() {
    let resolved =
        resolve_initial_app("/tmp/directory-name", None, None, None, None).unwrap();

    assert_eq!(resolved.name.as_deref(), Some("directory-name"));
    assert_eq!(resolved.description, None);
    assert_eq!(resolved.visibility.as_deref(), Some("private"));
    assert_eq!(resolved.link_access.as_deref(), Some("request"));
    assert_eq!(resolved.allow_remixing, Some(true));
    assert_eq!(resolved.tags, Some(Vec::new()));
    assert_eq!(resolved.thumbnail, None);
}

#[test]
fn init_needs_some_name_and_trims_the_flag() {
    assert!(matches!(
        resolve_initial_app("/", None, Some("   "), None, None),
        Err(UserError::NoAppName)
    ));
    let resolved = resolve_initial_app("/tmp/x", None, Some("  Named  "), None, Some("public"))
        .unwrap();
    assert_eq!(resolved.name.as_deref(), Some("Named"));
    assert_eq!(resolved.link_access.as_deref(), Some("view"));
}

fn user(git_user_id: &str, git_server_url: &str) -> CredentialUser {
    CredentialUser {
        id: "id".into(),
        username: "user".into(),
        name: None,
        email: "user@example.com".into(),
        git_user_id: git_user_id.into(),
        git_server_url: git_server_url.into(),
    }
}

#[test]
fn credential_protocol_parser_ignores_unknown_fields() {
    let request = credential_request(
        "protocol=https\nhost=api.app.maypop.ai\npath=git/user_1/app\nwwwauth[]=Basic\n",
    )
    .unwrap();
    assert_eq!(request.0, "https://api.app.maypop.ai");
    assert_eq!(request.1, "git/user_1/app");

    let user = user("user_1", "https://api.app.maypop.ai/git");
    assert!(credential_matches(&user, "git/user_1/app"));
    assert!(!credential_matches(&user, "git/user_2/app"));
}

#[test]
fn credential_requests_need_protocol_host_and_path() {
    assert!(credential_request("protocol=https\nhost=example.com\n").is_none());
    let later = credential_request("protocol=http\nhost=a\npath=x\nhost=b\n").unwrap();
    assert_eq!(later.0, "http://b");
    assert!(credential_matches(&user("u", ""), "/git/u/app"));
    assert!(!credential_matches(&user("", ""), "git//app"));
}

#[test]
fn repository_connection_uses_the_maypop_credential_helper() {
    let remote = "http://localhost:3005/git/user_1/00000000-0000-0000-0000-000000000001";
    let connect = connection_commands(
        "https://api.app.maypop.ai/",
        "00000000-0000-0000-0000-000000000001",
        remote,
    );
    let args: Vec<Vec<&str>> = connect
        .iter()
        .map(|c| c.args.iter().map(String::as_str).collect())
        .collect();
    assert_eq!(
        args,
        vec![
            vec!["remote", "add", "origin", remote],
            vec![
                "config",
                "--local",
                "maypop.app-id",
                "00000000-0000-0000-0000-000000000001"
            ],
            vec![
                "config",
                "--local",
                "maypop.api-url",
                "https://api.app.maypop.ai"
            ],
        ]
    );
    let helper = credential_helper_commands("https://api.app.maypop.ai", remote).unwrap();
    assert!(!helper[0].must_succeed);
    assert_eq!(
        helper[0].args,
        vec![
            "config".to_string(),
            "--local".into(),
            "--unset-all".into(),
            "credential.http://localhost:3005.helper".into()
        ]
    );
    assert_eq!(helper[1].args[4], "");
    assert_eq!(
        helper[2].args[4],
        "!maypop --url='https://api.app.maypop.ai' git-credential"
    );
    assert_eq!(
        helper[3].args,
        vec![
            "config".to_string(),
            "--local".into(),
            "credential.useHttpPath".into(),
            "true".into()
        ]
    );
    assert!(matches!(
        credential_helper_commands("https://api.app.maypop.ai", "not a url"),
        Err(UserError::InvalidRemoteUrl)
    ));
}

#[test]
fn credential_scopes_are_url_origins() {
    assert_eq!(
        credential_scope("https://api.app.maypop.ai:443/git/u/a").unwrap(),
        "https://api.app.maypop.ai"
    );
    assert_eq!(
        credential_scope("http://localhost:3005/git/u/a").unwrap(),
        "http://localhost:3005"
    );
}

#[test]
fn legacy_remotes_are_repaired_once() {
    let legacy = "http://localhost:3000/git/user_1/app_1";
    let expected = "http://localhost:3005/git/user_1/app_1";
    assert!(needs_remote_repair(legacy, legacy, expected));
    assert!(needs_remote_repair("http://localhost:3000/git/user_1/app_1/", legacy, expected));
    assert!(!needs_remote_repair(expected, legacy, expected));
    assert!(!needs_remote_repair(legacy, legacy, "http://localhost:3000/git/user_1/app_1/"));
    assert_eq!(
        set_origin_command(expected).args,
        vec![
            "remote".to_string(),
            "set-url".into(),
            "origin".into(),
            expected.into()
        ]
    );
}

#[test]
fn git_servers_default_to_the_api_origin() {
    assert_eq!(
        git_server_url(&user("u", ""), "http://localhost:3000/"),
        "http://localhost:3000/git"
    );
    assert_eq!(
        git_server_url(&user("u", "http://localhost:3005/git/"), "http://localhost:3000"),
        "http://localhost:3005/git"
    );
}

#[test]
fn shell_quoting_closes_and_reopens_quotes() {
    assert_eq!(shell_quote("https://a.example"), "'https://a.example'");
    assert_eq!(shell_quote("it's"), "'it'\"'\"'s'");
}

#[test]
fn git_config_values_are_trimmed() {
    assert_eq!(git_config_value(true, " app_1\n").as_deref(), Some("app_1"));
    assert_eq!(git_config_value(false, "app_1"), None);
}

#[test]
fn publishing_checks_the_remote_worktree_and_head() {
    assert!(check_origin("https://g.example/u/a/", "https://g.example/u/a").is_ok());
    assert!(matches!(
        check_origin("https://g.example/u/b", "https://g.example/u/a"),
        Err(UserError::RemoteMismatch)
    ));
    assert!(check_clean("").is_ok());
    assert!(matches!(check_clean(" M index.html"), Err(UserError::DirtyWorktree)));
    let sha = "0123456789abcdef0123456789ABCDEF01234567";
    assert!(check_head(sha).is_ok());
    assert!(matches!(check_head("0123"), Err(UserError::NotSha1)));
    assert!(matches!(
        check_head("0123456789abcdef0123456789abcdef0123456g"),
        Err(UserError::NotSha1)
    ));
    assert!(check_published("app", sha, "app", Some(sha)).is_ok());
    assert!(check_published("app", sha, "other", Some(sha)).is_err());
    assert!(check_published("app", sha, "app", None).is_err());
    assert!(matches!(check_unconnected(true, false), Err(UserError::AlreadyConnected)));
    assert!(matches!(check_unconnected(false, true), Err(UserError::HasOrigin)));
    assert!(check_unconnected(false, false).is_ok());
}

#[test]
fn short_commit_ids_take_eight_bytes() {
    assert_eq!(short_sha("0123456789abcdef"), "01234567");
    assert_eq!(short_sha("0123"), "0123");
    assert_eq!(short_sha("0123456é89"), "0123456é89");
    assert_eq!(short_sha("012345é89"), "012345é");
}

fn login(api_url: &str, git_user_id: &str, token: &str) -> Credentials {
    Credentials {
        api_url: api_url.into(),
        token: token.into(),
        expires_at: "2027-01-01T00:00:00Z".into(),
        user: user(git_user_id, ""),
    }
}

#[test]
fn the_credential_helper_answers_only_for_owned_paths() {
    let input = "protocol=https\nhost=git.example\npath=git/user_1/app\n";
    assert!(matches!(
        credential_step("store", input, None, None, "https://api.example"),
        HelperStep::Ignore
    ));
    assert!(matches!(
        credential_step("get", "protocol=https\n", None, None, "https://api.example"),
        HelperStep::Ignore
    ));
    match credential_step(
        "get",
        input,
        Some("mpat_env"),
        Some("https://api.example/"),
        "https://api.example",
    ) {
        HelperStep::Answer(token) => assert_eq!(token, "mpat_env"),
        other => panic!("unexpected step {other:?}"),
    }
    let path = match credential_step(
        "get",
        input,
        Some("mpat_env"),
        Some("https://other.example"),
        "https://api.example",
    ) {
        HelperStep::LookUp(path) => path,
        other => panic!("unexpected step {other:?}"),
    };
    assert_eq!(path, "git/user_1/app");

    let store = save(None, "a", login("https://api.example", "user_2", "mpat_two")).unwrap();
    let store = save(Some(store), "b", login("https://api.example/", "user_1", "mpat_one"))
        .unwrap();
    assert_eq!(
        saved_credential(Some(&store), "https://api.example", None, &path).unwrap(),
        Some("mpat_one".to_string())
    );
    assert_eq!(
        saved_credential(Some(&store), "https://api.example", Some("a"), &path).unwrap(),
        None
    );
    assert_eq!(
        saved_credential(Some(&store), "https://api.example", Some("b"), &path).unwrap(),
        Some("mpat_one".to_string())
    );
    assert_eq!(
        saved_credential(None, "https://api.example", None, &path).unwrap(),
        None
    );
}

#[test]
fn commands_need_a_token() {
    let store = save(None, "a", login("https://api.example", "u", "mpat_saved")).unwrap();
    assert_eq!(
        required_token(Some(&store), "https://api.example", None, Some("mpat_flag")).unwrap(),
        "mpat_flag"
    );
    assert_eq!(
        required_token(Some(&store), "https://api.example/", None, None).unwrap(),
        "mpat_saved"
    );
    assert!(matches!(
        required_token(Some(&store), "https://other.example", None, None),
        Err(UserError::NotAuthenticated { profile: None, .. })
    ));
    assert!(matches!(
        required_token(Some(&store), "https://other.example", Some("a"), None),
        Err(UserError::Credentials(_))
    ));
    assert_eq!(
        status_token(None, "https://api.example", None, None).unwrap(),
        None
    );
}

#[test]
fn applying_sends_only_the_configured_fields() {
    let config = AppConfig {
        name: Some("App".into()),
        description: None,
        visibility: None,
        link_access: Some("use".into()),
        allow_remixing: Some(false),
        tags: Some(vec!["a".into()]),
        thumbnail: Some("t.png".into()),
    };
    let fields = app_update_fields(config, Some("cid_1".into())).unwrap();
    let keys: Vec<&str> = fields.iter().map(|(k, _)| k.as_str()).collect();
    assert_eq!(
        keys,
        vec!["name", "linkAccess", "allowRemixing", "tags", "thumbnailCid"]
    );
    assert!(matches!(&fields[2].1, AppField::Flag(false)));
    assert!(matches!(&fields[4].1, AppField::Text(cid) if cid == "cid_1"));
    let empty = AppConfig::default();
    assert!(matches!(
        app_update_fields(empty, None),
        Err(UserError::NothingToApply)
    ));
    assert!(check_thumbnail_inside("/repo", "/repo/assets/t.png").is_ok());
    assert!(matches!(
        check_thumbnail_inside("/repo", "/other/t.png"),
        Err(UserError::ThumbnailOutsideRepository)
    ));
}

#[test]
fn app_information_is_listed_line_by_line() {
    let app = maypop::user_commands::AppSummary {
        id: "app_1".into(),
        name: "Garden".into(),
        description: None,
        visibility: "public".into(),
        link_access: "view".into(),
        allow_remixing: true,
        tags: vec!["art".into(), "paper".into()],
        thumbnail_cid: Some("cid_1".into()),
        latest_version: 12,
        stable_version: -1,
    };
    assert_eq!(
        maypop::user_commands::app_info_lines(&app, "https://api.example/"),
        vec![
            "App: Garden",
            "ID: app_1",
            "Description: —",
            "Visibility: public",
            "Link access: view",
            "Allow remixing: yes",
            "Tags: art, paper",
            "Thumbnail: cid_1",
            "Versions: latest 12, stable -1",
            "API: https://api.example",
        ]
    );
}

#[test]
fn git_remote_uses_the_server_url() {
    let url = maypop::user_commands::git_remote_url(
        "https://api.app.maypop.ai/git/",
        "user_123",
        "00000000-0000-0000-0000-000000000001",
    )
    .unwrap();
    assert_eq!(
        url,
        "https://api.app.maypop.ai/git/user_123/00000000-0000-0000-0000-000000000001"
    );
}

#[test]
fn git_remotes_drop_queries_and_need_a_url() {
    assert_eq!(
        maypop::user_commands::git_remote_url("http://localhost:3005/git?x=1#top", "u", "a")
            .unwrap(),
        "http://localhost:3005/git/u/a"
    );
    assert_eq!(
        maypop::user_commands::git_remote_url("http://localhost:3005", "u", "a").unwrap(),
        "http://localhost:3005/u/a"
    );
    assert!(matches!(
        maypop::user_commands::git_remote_url("not a url", "u", "a"),
        Err(UserError::InvalidServerUrl)
    ));
}

#[test]
fn new_configuration_tables_list_the_set_fields_in_order() {
    let app = AppConfig {
        name: Some("Rsbuild example".into()),
        description: Some("An example app".into()),
        visibility: Some("private".into()),
        link_access: Some("request".into()),
        allow_remixing: Some(true),
        tags: Some(vec!["example".into()]),
        thumbnail: None,
    };
    let fields = maypop::user_commands::app_table_fields(&app);
    let keys: Vec<&str> = fields.iter().map(|(k, _)| k.as_str()).collect();
    assert_eq!(
        keys,
        vec![
            "name",
            "description",
            "visibility",
            "link_access",
            "allow_remixing",
            "tags"
        ]
    );
    assert!(matches!(&fields[0].1, AppField::Text(t) if t == "Rsbuild example"));
    assert!(matches!(&fields[4].1, AppField::Flag(true)));
    assert!(matches!(&fields[5].1, AppField::List(t) if t == &vec!["example".to_string()]));
}

#[test]
fn logins_without_git_identities_and_changed_builds_are_refused() {
    assert!(matches!(
        maypop::user_commands::check_git_identity(&user("", "")),
        Err(UserError::LoginPredatesGit)
    ));
    assert!(maypop::user_commands::check_git_identity(&user("u", "")).is_ok());
    assert!(maypop::user_commands::check_build_clean(true, true).is_ok());
    assert!(matches!(
        maypop::user_commands::check_build_clean(false, true),
        Err(UserError::BuildModifiedFiles)
    ));
    assert!(matches!(
        maypop::user_commands::check_build_clean(true, false),
        Err(UserError::BuildModifiedFiles)
    ));
}

#[test]
fn helper_commands_name_the_scope_and_quote_the_origin() {
    let commands =
        maypop::user_commands::helper_commands_for("http://localhost:3000/", "http://localhost:3005");
    let args: Vec<Vec<&str>> = commands
        .iter()
        .map(|c| c.args.iter().map(String::as_str).collect())
        .collect();
    assert_eq!(
        args,
        vec![
            vec![
                "config",
                "--local",
                "--unset-all",
                "credential.http://localhost:3005.helper"
            ],
            vec![
                "config",
                "--local",
                "--add",
                "credential.http://localhost:3005.helper",
                ""
            ],
            vec![
                "config",
                "--local",
                "--add",
                "credential.http://localhost:3005.helper",
                "!maypop --url='http://localhost:3000' git-credential"
            ],
            vec!["config", "--local", "credential.useHttpPath", "true"],
        ]
    );
    let rules: Vec<bool> = commands.iter().map(|c| c.must_succeed).collect();
    assert_eq!(rules, vec![false, true, true, true]);
}
