//! The MCP tools: which backend call each tool makes, with which method,
//! path and JSON body. Sending the call and reporting its reply is left to
//! the transport; what a reply becomes is `mcp::api_outcome`.
use vstd::prelude::*;

use crate::mcp::{bearer_from_header, card_path, card_sub_path, cards_path, decks_path, games_path, joker_path, CardflowClient};
use crate::text::spec_strip_prefix;

verus! {

/// The connecting client's own bearer token (an API token or an OAuth access
/// token), if it presented one; a tool call then uses it as its credentials.
#[derive(Debug, Clone, PartialEq, Eq)]
pub struct BearerToken(pub Option<String>);

impl BearerToken {
    /// The token of the request's `Authorization: Bearer <token>` header;
    /// absence is valid (the client's fallback token applies).
    pub fn from_header(header: Option<&str>) -> (res: BearerToken)
        ensures
            header is None ==> res.0 is None,
            header matches Some(h) ==> (res.0 is Some <==> spec_strip_prefix(h@, "Bearer "@) is Some),
            res.0 matches Some(t) ==> header is Some && spec_strip_prefix(header->0@, "Bearer "@) == Some(t@),
    {
        BearerToken(bearer_from_header(header))
    }
}

/// Parameters of `list_decks`.
#[derive(Debug, Clone, PartialEq, Eq)]
pub struct ListDecksRequest {
    pub game_id: String,
}

/// Parameters of `list_cards`: the deck, and an optional status filter.
#[derive(Debug, Clone, PartialEq, Eq)]
pub struct ListCardsRequest {
    pub deck_id: String,
    pub status: Option<String>,
}

/// Parameters of `create_card`.
#[derive(Debug, Clone, PartialEq, Eq)]
pub struct CreateCardRequest {
    pub deck_id: String,
    pub title: String,
    pub description: Option<String>,
}

/// Parameters of `update_card`: whichever of title and description is
/// omitted is left unchanged.
#[derive(Debug, Clone, PartialEq, Eq)]
pub struct UpdateCardRequest {
    pub card_id: String,
    pub title: Option<String>,
    pub description: Option<String>,
}

/// Parameters of `add_joker`: `card_id` cannot be completed until `joker_id`
/// is; `order` places the joker explicitly.
#[derive(Debug, Clone, PartialEq, Eq)]
pub struct AddJokerRequest {
    pub card_id: String,
    pub joker_id: String,
    pub order: Option<i64>,
}

/// Parameters of `remove_joker`.
#[derive(Debug, Clone, PartialEq, Eq)]
pub struct RemoveJokerRequest {
    pub card_id: String,
    pub joker_id: String,
}

/// Parameters of a tool that addresses one card.
#[derive(Debug, Clone, PartialEq, Eq)]
pub struct CardIdRequest {
    pub card_id: String,
}

/// The HTTP methods the backend calls use.
#[derive(Debug, Clone, Copy, PartialEq, Eq)]
pub enum HttpMethod {
    Get,
    Post,
    Patch,
    Delete,
}

/// A JSON value of a request body field.
#[derive(Debug, Clone, PartialEq, Eq)]
pub enum JsonValue {
    Text(String),
    Int(i64),
    Null,
}

/// One call of the backend API: method, path, and an optional JSON object
/// body given as its fields in order.
#[derive(Debug, Clone, PartialEq, Eq)]
pub struct BackendCall {
    pub method: HttpMethod,
    pub path: String,
    pub body: Option<Vec<(String, JsonValue)>>,
}

/// The field names and values of a body.
pub open spec fn fields(body: Seq<(String, JsonValue)>) -> Seq<(Seq<char>, JsonValue)> {
    body.map_values(|f: (String, JsonValue)| (f.0@, f.1))
}

/// A call with no body.
pub open spec fn bare_call(c: BackendCall, method: HttpMethod, path: Seq<char>) -> bool {
    c.method == method && c.path@ == path && c.body is None
}

/// A call whose body holds exactly these fields.
pub open spec fn body_call(c: BackendCall, method: HttpMethod, path: Seq<char>, body: Seq<(Seq<char>, JsonValue)>) -> bool {
    c.method == method && c.path@ == path && c.body is Some && fields(c.body->0@) == body
}

/// `Text` of a present value, `Null` of an absent one.
pub open spec fn text_or_null(v: Option<String>) -> JsonValue {
    match v {
        Some(t) => JsonValue::Text(t),
        None => JsonValue::Null,
    }
}

/// The fields of an update: each of title and description that is given.
pub open spec fn update_fields(title: Option<String>, description: Option<String>) -> Seq<(Seq<char>, JsonValue)> {
    let t = match title {
        Some(v) => seq![("title"@, JsonValue::Text(v))],
        None => Seq::empty(),
    };
    match description {
        Some(v) => t.push(("description"@, JsonValue::Text(v))),
        None => t,
    }
}

/// Law: an update body carries what the request gives and nothing else. A
/// given title is a field "title" with that text, a given description a
/// field "description" with that text; a field is present only when its
/// value is given, and no other field is sent.
pub proof fn lemma_update_fields_carry_given(title: Option<String>, description: Option<String>)
    ensures
        ({
            let f = update_fields(title, description);
            &&& title matches Some(t) ==> f.contains(("title"@, JsonValue::Text(t)))
            &&& description matches Some(d) ==> f.contains(("description"@, JsonValue::Text(d)))
            &&& forall|k: int|
                0 <= k < f.len() ==> ((#[trigger] f[k]).0 == "title"@ && title is Some && f[k].1 == JsonValue::Text(title->0))
                    || (f[k].0 == "description"@ && description is Some && f[k].1 == JsonValue::Text(description->0))
            &&& f.len() == (if title is Some { 1int } else { 0int }) + (if description is Some { 1int } else { 0int })
        }),
{
    let f = update_fields(title, description);
    if let Some(t) = title {
        assert(f[0] == ("title"@, JsonValue::Text(t)));
    }
    if let Some(d) = description {
        assert(f[f.len() - 1] == ("description"@, JsonValue::Text(d)));
    }
}

/// The fields of a new joker edge: the joker, and the order when given.
pub open spec fn joker_fields(joker_id: String, order: Option<i64>) -> Seq<(Seq<char>, JsonValue)> {
    match order {
        Some(o) => seq![("joker_id"@, JsonValue::Text(joker_id)), ("order"@, JsonValue::Int(o))],
        None => seq![("joker_id"@, JsonValue::Text(joker_id))],
    }
}

fn field(name: &str, value: JsonValue) -> (res: (String, JsonValue))
    ensures
        res.0@ == name@,
        res.1 == value,
{
    (name.to_owned(), value)
}

fn opt_text(v: &Option<String>) -> (res: JsonValue)
    ensures
        res == text_or_null(*v),
{
    match v {
        Some(t) => JsonValue::Text(t.clone()),
        None => JsonValue::Null,
    }
}

/// The MCP server: each tool becomes one call of the backend through `client`.
#[derive(Debug, Clone, PartialEq, Eq)]
pub struct CardflowMcpServer {
    client: CardflowClient,
}

impl CardflowMcpServer {
    /// A server whose tools call the backend through `client`.
    pub fn new(client: CardflowClient) -> (res: Self)
        ensures
            res.client() == client,
    {
        CardflowMcpServer { client }
    }

    /// The backend client of the server.
    pub closed spec fn client(&self) -> CardflowClient {
        self.client
    }

    /// The backend client, to send the calls with.
    pub fn backend(&self) -> (res: &CardflowClient)
        ensures
            *res == self.client(),
    {
        &self.client
    }

    /// `list_games`: every game visible to the caller.
    pub fn list_games(&self) -> (res: BackendCall)
        ensures
            bare_call(res, HttpMethod::Get, "/games"@),
    {
        BackendCall { method: HttpMethod::Get, path: games_path(), body: None }
    }

    /// `list_decks`: the decks of one game.
    pub fn list_decks(&self, req: &ListDecksRequest) -> (res: BackendCall)
        ensures
            bare_call(res, HttpMethod::Get, "/games/"@ + req.game_id@ + "/decks"@),
    {
        BackendCall { method: HttpMethod::Get, path: decks_path(req.game_id.as_str()), body: None }
    }

    /// `list_cards`: the cards of one deck (the status filter applies to the
    /// reply, see `mcp::filter_by_status`).
    pub fn list_cards(&self, req: &ListCardsRequest) -> (res: BackendCall)
        ensures
            bare_call(res, HttpMethod::Get, "/decks/"@ + req.deck_id@ + "/cards"@),
    {
        BackendCall { method: HttpMethod::Get, path: cards_path(req.deck_id.as_str()), body: None }
    }

    /// `create_card`: a new card in the deck's pile, with its title and its
    /// description (`null` when omitted).
    pub fn create_card(&self, req: &CreateCardRequest) -> (res: BackendCall)
        ensures
            body_call(
                res,
                HttpMethod::Post,
                "/decks/"@ + req.deck_id@ + "/cards"@,
                seq![("title"@, JsonValue::Text(req.title)), ("description"@, text_or_null(req.description))],
            ),
    {
        let mut body: Vec<(String, JsonValue)> = Vec::new();
        body.push(field("title", JsonValue::Text(req.title.clone())));
        body.push(field("description", opt_text(&req.description)));
        assert(fields(body@) =~= seq![("title"@, JsonValue::Text(req.title)), ("description"@, text_or_null(req.description))]);
        BackendCall { method: HttpMethod::Post, path: cards_path(req.deck_id.as_str()), body: Some(body) }
    }

    /// `update_card`: needs at least one of title and description, and sends
    /// only those given.
    pub fn update_card(&self, req: &UpdateCardRequest) -> (res: Result<BackendCall, String>)
        ensures
            req.title is None && req.description is None ==> (res matches Err(m)
                && m@ == "provide at least one of title or description to update"@),
            req.title is Some || req.description is Some ==> (res matches Ok(c) && body_call(
                c,
                HttpMethod::Patch,
                "/cards/"@ + req.card_id@,
                update_fields(req.title, req.description),
            )),
        res matches Ok(c) ==> c.body is Some && (req.title matches Some(t) ==> fields(c.body->0@).contains(
            ("title"@, JsonValue::Text(t)),
        )) && (req.description matches Some(d) ==> fields(c.body->0@).contains(("description"@, JsonValue::Text(d))))
            && fields(c.body->0@).len() == (if req.title is Some { 1int } else { 0int }) + (if req.description is Some {
            1int
        } else {
            0int
        }),
    {
        if req.title.is_none() && req.description.is_none() {
            return Err(String::from_str("provide at least one of title or description to update"));
        }
        let mut body: Vec<(String, JsonValue)> = Vec::new();
        if let Some(t) = &req.title {
            body.push(field("title", JsonValue::Text(t.clone())));
        }
        if let Some(d) = &req.description {
            body.push(field("description", JsonValue::Text(d.clone())));
        }
        assert(fields(body@) =~= update_fields(req.title, req.description));
        proof {
            lemma_update_fields_carry_given(req.title, req.description);
        }
        Ok(BackendCall { method: HttpMethod::Patch, path: card_path(req.card_id.as_str()), body: Some(body) })
    }

    /// `add_joker`: a new joker edge on the card.
    pub fn add_joker(&self, req: &AddJokerRequest) -> (res: BackendCall)
        ensures
            body_call(res, HttpMethod::Post, "/cards/"@ + req.card_id@ + "/jokers"@, joker_fields(req.joker_id, req.order)),
    {
        let mut body: Vec<(String, JsonValue)> = Vec::new();
        body.push(field("joker_id", JsonValue::Text(req.joker_id.clone())));
        if let Some(o) = req.order {
            body.push(field("order", JsonValue::Int(o)));
        }
        assert(fields(body@) =~= joker_fields(req.joker_id, req.order));
        BackendCall { method: HttpMethod::Post, path: card_sub_path(req.card_id.as_str(), "/jokers"), body: Some(body) }
    }

    /// `remove_joker`: drops the joker edge, not the cards.
    pub fn remove_joker(&self, req: &RemoveJokerRequest) -> (res: BackendCall)
        ensures
            bare_call(res, HttpMethod::Delete, "/cards/"@ + req.card_id@ + "/jokers/"@ + req.joker_id@),
    {
        BackendCall {
            method: HttpMethod::Delete,
            path: joker_path(req.card_id.as_str(), req.joker_id.as_str()),
            body: None,
        }
    }

    /// `complete_card`: marks a card in hand as done.
    pub fn complete_card(&self, req: &CardIdRequest) -> (res: BackendCall)
        ensures
            bare_call(res, HttpMethod::Post, "/cards/"@ + req.card_id@ + "/complete"@),
    {
        BackendCall { method: HttpMethod::Post, path: card_sub_path(req.card_id.as_str(), "/complete"), body: None }
    }

    /// `return_card`: sends a stack from the hand back to the pile.
    pub fn return_card(&self, req: &CardIdRequest) -> (res: BackendCall)
        ensures
            bare_call(res, HttpMethod::Post, "/cards/"@ + req.card_id@ + "/return"@),
    {
        BackendCall { method: HttpMethod::Post, path: card_sub_path(req.card_id.as_str(), "/return"), body: None }
    }
}

} // verus!
