use maypop::mcp::{
    linked_status, parse_header_binding, personal_status, read_headers, select, AppIntegration,
    McpError, UserIntegration,
};

fn integration(id: &str, name: &str) -> AppIntegration {
    AppIntegration {
        id: id.into(),
        app_id: "app".into(),
        name: name.into(),
        auth_kind: "headers".into(),
        needs_reauth: false,
        toolkit_slug: None,
        logo_url: None,
        account: None,
        linked_by: "user".into(),
    }
}

#[test]
fn integration_selectors_prefer_ids_and_accept_unique_names() {
    let items = [
        integration("alpha", "Search"),
        integration("search", "Other"),
    ];

    assert_eq!(select(&items, "search").unwrap().name, "Other");
    assert_eq!(select(&items, "SEARCH").unwrap().id, "alpha");
}

#[test]
fn duplicate_names_require_an_id() {
    let items = [integration("one", "Search"), integration("two", "search")];

    assert!(select(&items, "SEARCH")
        .unwrap_err()
        .message()
        .contains("use its ID"));
}

#[test]
fn header_bindings_require_two_names() {
    assert_eq!(
        parse_header_binding(" Authorization = MCP_TOKEN ").unwrap(),
        ("Authorization".to_string(), "MCP_TOKEN".to_string())
    );
    assert!(parse_header_binding("Authorization").is_err());
    assert!(parse_header_binding("=MCP_TOKEN").is_err());
}

#[test]
fn unknown_selectors_are_reported_with_their_text() {
    let items = [integration("one", "Search")];
    let error = select(&items, "mail").unwrap_err();
    assert!(matches!(error, McpError::NotFound { .. }));
    assert_eq!(error.message(), "no MCP server matches `mail`");
    let personal = [UserIntegration {
        id: "p1".into(),
        user_id: "u".into(),
        name: "Docs".into(),
        url: "https://mcp.example.com".into(),
        auth_kind: "headers".into(),
        needs_reauth: false,
        enabled: true,
        toolkit_slug: None,
        logo_url: None,
        account: None,
        created_at: "2026-01-01T00:00:00Z".into(),
    }];
    assert_eq!(select(&personal, "docs").unwrap().id, "p1");
}

#[test]
fn headers_are_read_from_their_variables_and_sorted() {
    let bindings = vec![
        "X-Team = TEAM".to_string(),
        "Authorization=TOKEN".to_string(),
    ];
    let values = vec![Some("core".to_string()), Some("Bearer abc".to_string())];
    let headers = read_headers(&bindings, &values).unwrap();
    let pairs: Vec<(&str, &str)> = headers
        .iter()
        .map(|h| (h.name.as_str(), h.value.as_str()))
        .collect();
    assert_eq!(
        pairs,
        vec![("Authorization", "Bearer abc"), ("X-Team", "core")]
    );

    let missing = read_headers(&bindings, &vec![Some("core".to_string()), None]).unwrap_err();
    assert!(matches!(missing, McpError::MissingVariable { .. }));
    assert_eq!(missing.message(), "environment variable `TOKEN` is not set");

    let twice = vec!["A=ONE".to_string(), "A=TWO".to_string()];
    let repeated = read_headers(&twice, &vec![Some("1".into()), Some("2".into())]).unwrap_err();
    assert_eq!(repeated.message(), "header `A` is configured more than once");
}

#[test]
fn integration_statuses_follow_reauthentication_and_enablement() {
    assert_eq!(personal_status(true, true), "needs reauthentication");
    assert_eq!(personal_status(false, true), "ready");
    assert_eq!(personal_status(false, false), "disabled");
    assert_eq!(linked_status(true), "needs reauthentication");
    assert_eq!(linked_status(false), "ready");
}

#[test]
fn bad_bindings_are_reported_with_their_text() {
    let missing = parse_header_binding("Authorization").unwrap_err();
    assert!(matches!(missing, McpError::NotABinding { .. }));
    assert_eq!(
        missing.message(),
        "header binding `Authorization` must use HEADER=ENV_VAR"
    );
    let blank = parse_header_binding(" =MCP_TOKEN").unwrap_err();
    assert!(matches!(blank, McpError::BlankBindingName { .. }));
    assert_eq!(
        blank.message(),
        "header binding ` =MCP_TOKEN` must use non-empty names"
    );
}
