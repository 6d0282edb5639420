use cardflow::mcp::{
    allowed_hosts, api_outcome, authorize_redirect, bearer_from_header, card_path, card_sub_path, cards_path,
    build_oauth_state, decks_path, filter_by_status, games_path, joker_path, metadata_urls,
    non_empty, CardflowClient, OAuthState,
};

fn s(x: &str) -> String {
    x.to_string()
}

#[test]
fn resolve_token_prefers_caller() {
    let with = CardflowClient::new(s("http://localhost:3000/api"), Some(s("fallback")));
    let without = CardflowClient::new(s("http://localhost:3000/api"), None);
    assert_eq!(with.resolve_token(&Some(s("mine"))), Ok(s("mine")));
    assert_eq!(with.resolve_token(&None), Ok(s("fallback")));
    assert_eq!(without.resolve_token(&Some(s("mine"))), Ok(s("mine")));
    let err = without.resolve_token(&None).unwrap_err();
    assert!(err.starts_with("no Cardflow credentials available"));
    assert_eq!(
        err,
        "no Cardflow credentials available: connect with an Authorization header (API token or OAuth access token) or configure CARDFLOW_TOKEN on the server"
    );
}

#[test]
fn client_paths() {
    let c = CardflowClient::new(s("http://localhost:3000/api"), None);
    assert_eq!(c.url(&games_path()), "http://localhost:3000/api/games");
    assert_eq!(decks_path("g1"), "/games/g1/decks");
    assert_eq!(cards_path("d1"), "/decks/d1/cards");
    assert_eq!(card_path("c1"), "/cards/c1");
    assert_eq!(card_sub_path("c1", "/complete"), "/cards/c1/complete");
    assert_eq!(joker_path("c1", "c2"), "/cards/c1/jokers/c2");
}

#[test]
fn api_outcome_failure_uses_error_field() {
    assert_eq!(
        api_outcome(false, "404 Not Found", "{\"error\":\"not found\"}"),
        Err(s("Cardflow API returned 404 Not Found: not found"))
    );
    assert_eq!(
        api_outcome(false, "500 Internal Server Error", "boom"),
        Err(s("Cardflow API returned 500 Internal Server Error: boom"))
    );
    assert_eq!(
        api_outcome(false, "400 Bad Request", "{\"error\":3}"),
        Err(s("Cardflow API returned 400 Bad Request: {\"error\":3}"))
    );
}

#[test]
fn api_outcome_success_bodies() {
    assert_eq!(api_outcome(true, "204 No Content", "  "), Ok(s("null")));
    assert_eq!(api_outcome(true, "200 OK", "{\"a\":1}"), Ok(s("{\n  \"a\": 1\n}")));
    let err = api_outcome(true, "200 OK", "not json").unwrap_err();
    assert!(err.starts_with("failed to parse Cardflow response as JSON: "));
}

#[test]
fn filter_by_status_keeps_matching_indices() {
    let statuses = vec![Some(s("hand")), Some(s("pile")), None, Some(s("hand"))];
    assert_eq!(filter_by_status(&statuses, &Some(s("hand"))), vec![0, 3]);
    assert_eq!(filter_by_status(&statuses, &None), vec![0, 1, 2, 3]);
    assert_eq!(filter_by_status(&statuses, &Some(s("done"))), Vec::<usize>::new());
}

#[test]
fn bearer_from_header_strips_prefix() {
    assert_eq!(bearer_from_header(Some("Bearer tok")), Some(s("tok")));
    assert_eq!(bearer_from_header(Some("bearer tok")), None);
    assert_eq!(bearer_from_header(None), None);
}

#[test]
fn non_empty_settings() {
    assert_eq!(non_empty(Some(s("x"))), Some(s("x")));
    assert_eq!(non_empty(Some(s(""))), None);
    assert_eq!(non_empty(None), None);
}

#[test]
fn oauth_state_all_or_nothing() {
    let backend = "http://backend:3001";
    assert_eq!(build_oauth_state(backend, None, None, None, None), Ok(None));
    assert_eq!(build_oauth_state(backend, None, None, Some(s("https://mcp.example")), None), Ok(None));
    assert_eq!(build_oauth_state(backend, Some(s("")), Some(s("")), None, Some(s(""))), Ok(None));
    assert_eq!(
        build_oauth_state(backend, Some(s("id")), Some(s("secret")), Some(s("https://mcp.example")), Some(s("https://app.example"))),
        Ok(Some(OAuthState {
            cardflow_url: s(backend),
            cardflow_public_url: s("https://app.example"),
            mcp_public_url: s("https://mcp.example")
        }))
    );
    assert!(build_oauth_state(backend, Some(s("id")), None, Some(s("https://mcp.example")), Some(s("https://app.example"))).is_err());
    assert!(build_oauth_state(backend, Some(s("id")), Some(s("secret")), None, Some(s("https://app.example"))).is_err());
    assert!(build_oauth_state(backend, Some(s("id")), Some(s("secret")), Some(s("")), Some(s("https://app.example"))).is_err());
    assert!(build_oauth_state(backend, None, None, None, Some(s("https://app.example"))).is_err());
    assert_eq!(
        build_oauth_state(backend, Some(s("id")), None, None, None),
        Err(s("OAuth is partially configured: OAUTH_CLIENT_ID, OAUTH_CLIENT_SECRET, MCP_PUBLIC_URL, and CARDFLOW_PUBLIC_URL must all be set together to enable it, or all left unset to disable it"))
    );
}

#[test]
fn allowed_hosts_adds_public_host() {
    assert_eq!(allowed_hosts(None), vec![s("localhost"), s("127.0.0.1"), s("::1")]);
    assert_eq!(
        allowed_hosts(Some(s("https://mcp.example.com:8443/mcp"))),
        vec![s("localhost"), s("127.0.0.1"), s("::1"), s("mcp.example.com")]
    );
    assert_eq!(allowed_hosts(Some(s("nonsense"))).len(), 3);
}

#[test]
fn metadata_urls_trim_slash() {
    assert_eq!(
        metadata_urls("https://mcp.example/"),
        (s("https://mcp.example"), s("https://mcp.example/authorize"), s("https://mcp.example/token"))
    );
    assert_eq!(metadata_urls("https://mcp.example").1, "https://mcp.example/authorize");
}

#[test]
fn authorize_redirect_passes_query_on() {
    let params = vec![(s("client_id"), s("mcp")), (s("state"), s("a b"))];
    assert_eq!(
        authorize_redirect("https://app.example/", &params),
        Ok(s("https://app.example/api/oauth/authorize?client_id=mcp&state=a+b"))
    );
    assert_eq!(authorize_redirect("bad", &params), Err(s("CARDFLOW_PUBLIC_URL is not a valid URL")));
}
