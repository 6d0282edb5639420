use cardflow::mcp::CardflowClient;
use cardflow::tools::{
    AddJokerRequest, BackendCall, BearerToken, CardIdRequest, CardflowMcpServer, CreateCardRequest, HttpMethod,
    JsonValue, ListCardsRequest, ListDecksRequest, RemoveJokerRequest, UpdateCardRequest,
};

fn s(x: &str) -> String {
    x.to_string()
}

fn server() -> CardflowMcpServer {
    CardflowMcpServer::new(CardflowClient::new(s("http://backend:3001"), None))
}

fn call(method: HttpMethod, path: &str, body: Option<Vec<(&str, JsonValue)>>) -> BackendCall {
    BackendCall {
        method,
        path: s(path),
        body: body.map(|b| b.into_iter().map(|(k, v)| (s(k), v)).collect()),
    }
}

#[test]
fn bearer_token_from_header() {
    assert_eq!(BearerToken::from_header(Some("Bearer abc")), BearerToken(Some(s("abc"))));
    assert_eq!(BearerToken::from_header(Some("Token abc")), BearerToken(None));
    assert_eq!(BearerToken::from_header(None), BearerToken(None));
}

#[test]
fn server_keeps_its_client() {
    assert_eq!(server().backend().base_url, "http://backend:3001");
}

#[test]
fn listing_tools_are_gets() {
    let srv = server();
    assert_eq!(srv.list_games(), call(HttpMethod::Get, "/games", None));
    assert_eq!(srv.list_decks(&ListDecksRequest { game_id: s("g1") }), call(HttpMethod::Get, "/games/g1/decks", None));
    assert_eq!(
        srv.list_cards(&ListCardsRequest { deck_id: s("d1"), status: Some(s("hand")) }),
        call(HttpMethod::Get, "/decks/d1/cards", None)
    );
}

#[test]
fn create_card_sends_title_and_description() {
    let srv = server();
    assert_eq!(
        srv.create_card(&CreateCardRequest { deck_id: s("d1"), title: s("T"), description: None }),
        call(HttpMethod::Post, "/decks/d1/cards", Some(vec![("title", JsonValue::Text(s("T"))), ("description", JsonValue::Null)]))
    );
    assert_eq!(
        srv.create_card(&CreateCardRequest { deck_id: s("d1"), title: s("T"), description: Some(s("D")) }),
        call(
            HttpMethod::Post,
            "/decks/d1/cards",
            Some(vec![("title", JsonValue::Text(s("T"))), ("description", JsonValue::Text(s("D")))])
        )
    );
}

#[test]
fn update_card_sends_given_fields_only() {
    let srv = server();
    assert_eq!(
        srv.update_card(&UpdateCardRequest { card_id: s("c1"), title: None, description: Some(s("D")) }),
        Ok(call(HttpMethod::Patch, "/cards/c1", Some(vec![("description", JsonValue::Text(s("D")))])))
    );
    assert_eq!(
        srv.update_card(&UpdateCardRequest { card_id: s("c1"), title: Some(s("T")), description: Some(s("D")) }),
        Ok(call(
            HttpMethod::Patch,
            "/cards/c1",
            Some(vec![("title", JsonValue::Text(s("T"))), ("description", JsonValue::Text(s("D")))])
        ))
    );
    assert_eq!(
        srv.update_card(&UpdateCardRequest { card_id: s("c1"), title: None, description: None }),
        Err(s("provide at least one of title or description to update"))
    );
}

#[test]
fn joker_tools() {
    let srv = server();
    assert_eq!(
        srv.add_joker(&AddJokerRequest { card_id: s("a"), joker_id: s("b"), order: None }),
        call(HttpMethod::Post, "/cards/a/jokers", Some(vec![("joker_id", JsonValue::Text(s("b")))]))
    );
    assert_eq!(
        srv.add_joker(&AddJokerRequest { card_id: s("a"), joker_id: s("b"), order: Some(3) }),
        call(
            HttpMethod::Post,
            "/cards/a/jokers",
            Some(vec![("joker_id", JsonValue::Text(s("b"))), ("order", JsonValue::Int(3))])
        )
    );
    assert_eq!(
        srv.remove_joker(&RemoveJokerRequest { card_id: s("a"), joker_id: s("b") }),
        call(HttpMethod::Delete, "/cards/a/jokers/b", None)
    );
}

#[test]
fn card_action_tools() {
    let srv = server();
    assert_eq!(srv.complete_card(&CardIdRequest { card_id: s("c1") }), call(HttpMethod::Post, "/cards/c1/complete", None));
    assert_eq!(srv.return_card(&CardIdRequest { card_id: s("c1") }), call(HttpMethod::Post, "/cards/c1/return", None));
}
