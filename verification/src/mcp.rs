//! The MCP server's side: which credentials a tool call uses, the backend
//! paths it calls, how a backend reply becomes a tool result, and the
//! all-or-nothing OAuth configuration.
use vstd::prelude::*;

use crate::text::{concat, spec_strip_prefix, spec_trim_end_char, str_eq, strip_prefix, trim, trim_end_char, trimmed};
use crate::urls::{host_of, pair_views, url_host, url_parses, url_with_pairs, with_query};

verus! {

/// Thin client of the Cardflow backend API: every call forwards the bearer
/// token of the connecting MCP client, or — when it presented none — the
/// server's static fallback token.
#[derive(Debug, Clone, PartialEq, Eq)]
pub struct CardflowClient {
    pub base_url: String,
    pub fallback_token: Option<String>,
}

impl CardflowClient {
    /// A client of the backend at `base_url`.
    pub fn new(base_url: String, fallback_token: Option<String>) -> (res: Self)
        ensures
            res.base_url == base_url,
            res.fallback_token == fallback_token,
    {
        CardflowClient { base_url, fallback_token }
    }

    /// The token a call uses: the caller's own, else the fallback, else none
    /// at all — an error the tool reports.
    pub fn resolve_token(&self, per_call: &Option<String>) -> (res: Result<String, String>)
        ensures
            per_call is Some ==> res == Ok::<String, String>(per_call->0),
            per_call is None && self.fallback_token is Some ==> res == Ok::<String, String>(self.fallback_token->0),
            per_call is None && self.fallback_token is None ==> res is Err && res->Err_0@
                == "no Cardflow credentials available: connect with an Authorization header (API token or OAuth access token) or configure CARDFLOW_TOKEN on the server"@,
    {
        match per_call {
            Some(t) => Ok(t.clone()),
            None => match &self.fallback_token {
                Some(t) => Ok(t.clone()),
                None => Err(String::from_str(
                    "no Cardflow credentials available: connect with an Authorization header (API token or OAuth access token) or configure CARDFLOW_TOKEN on the server",
                )),
            },
        }
    }

    /// The full URL of a backend path.
    pub fn url(&self, path: &str) -> (res: String)
        ensures
            res@ == self.base_url@ + path@,
    {
        concat(self.base_url.as_str(), path)
    }
}

/// Backend path of the games list.
pub fn games_path() -> (res: String)
    ensures
        res@ == "/games"@,
{
    String::from_str("/games")
}

/// Backend path of a game's decks.
pub fn decks_path(game_id: &str) -> (res: String)
    ensures
        res@ == "/games/"@ + game_id@ + "/decks"@,
{
    let a = concat("/games/", game_id);
    concat(a.as_str(), "/decks")
}

/// Backend path of a deck's cards.
pub fn cards_path(deck_id: &str) -> (res: String)
    ensures
        res@ == "/decks/"@ + deck_id@ + "/cards"@,
{
    let a = concat("/decks/", deck_id);
    concat(a.as_str(), "/cards")
}

/// Backend path of one card.
pub fn card_path(card_id: &str) -> (res: String)
    ensures
        res@ == "/cards/"@ + card_id@,
{
    concat("/cards/", card_id)
}

/// Backend path of a card's action or sub-resource: `/cards/{id}{suffix}`.
pub fn card_sub_path(card_id: &str, suffix: &str) -> (res: String)
    ensures
        res@ == "/cards/"@ + card_id@ + suffix@,
{
    let a = concat("/cards/", card_id);
    concat(a.as_str(), suffix)
}

/// Backend path of one joker edge.
pub fn joker_path(card_id: &str, joker_id: &str) -> (res: String)
    ensures
        res@ == "/cards/"@ + card_id@ + "/jokers/"@ + joker_id@,
{
    let a = card_sub_path(card_id, "/jokers/");
    concat(a.as_str(), joker_id)
}

/// The `error` field of a JSON object text (`serde_json::from_str` to a
/// `Value`, then `get("error")` and `as_str`), when it has a string there.
pub uninterp spec fn json_error_field(body: Seq<char>) -> Option<Seq<char>>;

/// The pretty-printed form of a JSON text (`serde_json::from_str` to a `Value`,
/// then `to_string_pretty`), or the parser's message when it is not JSON.
pub uninterp spec fn json_pretty(body: Seq<char>) -> Result<Seq<char>, Seq<char>>;

/// Reads the `error` string of a JSON error body (`serde_json::from_str`,
/// `Value::get`, `Value::as_str`).
#[verifier::external_body]
fn error_field(body: &str) -> (res: Option<String>)
    ensures
        res is Some <==> json_error_field(body@) is Some,
        res matches Some(m) ==> Some(m@) == json_error_field(body@),
{
    serde_json::from_str::<serde_json::Value>(body).ok()?.get("error")?.as_str().map(|s| s.to_string())
}

/// Pretty-prints a JSON text (`serde_json::from_str` to a `Value`, then
/// `serde_json::to_string_pretty`); the error is the parser's message.
#[verifier::external_body]
fn pretty_json(body: &str) -> (res: Result<String, String>)
    ensures
        res matches Ok(t) ==> json_pretty(body@) is Ok && json_pretty(body@)->Ok_0 == t@,
        res matches Err(e) ==> json_pretty(body@) is Err && json_pretty(body@)->Err_0 == e@,
{
    let v = serde_json::from_str::<serde_json::Value>(body).map_err(|e| e.to_string())?;
    serde_json::to_string_pretty(&v).map_err(|e| e.to_string())
}

/// The message of a failed backend call: the `error` string of its JSON
/// body, else the body itself.
pub open spec fn failure_message(body: Seq<char>) -> Seq<char> {
    match json_error_field(body) {
        Some(m) => m,
        None => body,
    }
}

/// What a tool reports for a backend reply: a failed status gives an error
/// naming the status and the backend's message; an empty body is `null`; any
/// other body is its JSON, pretty-printed, or an error when it is not JSON.
pub fn api_outcome(success: bool, status: &str, body: &str) -> (res: Result<String, String>)
    ensures
        !success ==> res is Err && res->Err_0@ == "Cardflow API returned "@ + status@
            + ": "@ + failure_message(body@),
        success && trimmed(body@).len() == 0 ==> res is Ok && res->Ok_0@ == "null"@,
        success && trimmed(body@).len() != 0 && json_pretty(body@) is Ok ==> res is Ok && res->Ok_0@ == json_pretty(
            body@,
        )->Ok_0,
        success && trimmed(body@).len() != 0 && json_pretty(body@) is Err ==> res is Err && res->Err_0@
            == "failed to parse Cardflow response as JSON: "@ + json_pretty(body@)->Err_0,
{
    if !success {
        let message = match error_field(body) {
            Some(m) => m,
            None => body.to_owned(),
        };
        let a = concat("Cardflow API returned ", status);
        let b = concat(a.as_str(), ": ");
        return Err(concat(b.as_str(), message.as_str()));
    }
    let t = trim(body);
    if t.as_str().is_empty() {
        return Ok(String::from_str("null"));
    }
    match pretty_json(body) {
        Ok(p) => Ok(p),
        Err(e) => Err(concat("failed to parse Cardflow response as JSON: ", e.as_str())),
    }
}

/// The cards a `list_cards` tool call keeps: all of them, or, with a status
/// filter, those whose `status` field is a string equal to it — by index.
pub fn filter_by_status(statuses: &Vec<Option<String>>, wanted: &Option<String>) -> (res: Vec<usize>)
    ensures
        forall|k: int| 0 <= k < res.len() ==> res@[k] < statuses.len(),
        forall|a: int, b: int| 0 <= a < b < res.len() ==> res@[a] < res@[b],
        forall|i: int|
            0 <= i < statuses.len() ==> (res@.contains(i as usize) <==> (wanted is None || (statuses@[i] is Some
                && statuses@[i]->0@ == wanted->0@))),
{
    let mut res: Vec<usize> = Vec::new();
    let mut i: usize = 0;
    while i < statuses.len()
        invariant
            i <= statuses.len(),
            forall|k: int| 0 <= k < res.len() ==> res@[k] < i,
            forall|a: int, b: int| 0 <= a < b < res.len() ==> res@[a] < res@[b],
            forall|j: int|
                0 <= j < i ==> (res@.contains(j as usize) <==> (wanted is None || (statuses@[j] is Some
                    && statuses@[j]->0@ == wanted->0@))),
        decreases statuses.len() - i,
    {
        let keep = match wanted {
            None => true,
            Some(w) => match &statuses[i] {
                Some(s) => str_eq(s.as_str(), w.as_str()),
                None => false,
            },
        };
        let ghost before = res@;
        if keep {
            res.push(i);
            assert(res@.last() == i);
        }
        assert forall|j: int| 0 <= j <= i implies (res@.contains(j as usize) <==> (wanted is None || (statuses@[j] is Some
            && statuses@[j]->0@ == wanted->0@))) by {
            if j < i {
                if res@.contains(j as usize) {
                    let k = choose|k: int| 0 <= k < res.len() && res@[k] == j as usize;
                    if k < before.len() {
                        assert(before[k] == j as usize);
                    }
                }
                if before.contains(j as usize) {
                    let k = choose|k: int| 0 <= k < before.len() && before[k] == j as usize;
                    assert(res@[k] == j as usize);
                }
            } else {
                if keep {
                    assert(res@[res.len() - 1] == i);
                } else {
                    assert(!before.contains(i));
                }
            }
        }
        i = i + 1;
    }
    res
}

/// The bearer token in a request's `Authorization` header, if any.
pub fn bearer_from_header(header: Option<&str>) -> (res: Option<String>)
    ensures
        header is None ==> res is None,
        header matches Some(h) ==> (res is Some <==> spec_strip_prefix(h@, "Bearer "@) is Some),
        res matches Some(t) ==> header is Some && spec_strip_prefix(header->0@, "Bearer "@) == Some(t@),
{
    match header {
        Some(h) => strip_prefix(h, "Bearer "),
        None => None,
    }
}

/// A setting that counts only when set and not empty.
pub fn non_empty(setting: Option<String>) -> (res: Option<String>)
    ensures
        res == (if setting is Some && setting->0@.len() > 0 { setting } else { None }),
{
    match setting {
        Some(v) => {
            if v.as_str().is_empty() {
                None
            } else {
                Some(v)
            }
        },
        None => None,
    }
}

/// The OAuth part of the MCP server, when it is enabled: the backend's
/// internal URL (for the token proxy), the frontend's public URL (for the
/// browser-facing authorize redirect) and this server's own public URL (for
/// the metadata document).
#[derive(Debug, Clone, PartialEq, Eq)]
pub struct OAuthState {
    pub cardflow_url: String,
    pub cardflow_public_url: String,
    pub mcp_public_url: String,
}

/// A setting that counts only when set and not empty.
pub open spec fn given(setting: Option<String>) -> bool {
    setting is Some && setting->0@.len() > 0
}

/// The all-or-nothing OAuth start-up gate over the four settings (each
/// counting only when not empty): OAuth is enabled when the client id, the
/// client secret, the MCP server's public URL and the frontend's public URL
/// are all given, and disabled when none of the client id, secret and
/// frontend URL is; anything in between refuses to start. The MCP URL alone
/// does not enable it.
pub fn build_oauth_state(
    cardflow_url: &str,
    client_id: Option<String>,
    client_secret: Option<String>,
    mcp_public_url: Option<String>,
    cardflow_public_url: Option<String>,
) -> (res: Result<Option<OAuthState>, String>)
    ensures
        !given(client_id) && !given(client_secret) && !given(cardflow_public_url) ==> res matches Ok(None),
        given(client_id) && given(client_secret) && given(cardflow_public_url) && given(mcp_public_url) ==> (
        res matches Ok(Some(c)) && c.cardflow_url@ == cardflow_url@ && c.cardflow_public_url == cardflow_public_url->0
            && c.mcp_public_url == mcp_public_url->0),
        (given(client_id) || given(client_secret) || given(cardflow_public_url)) && !(given(client_id) && given(
            client_secret,
        ) && given(cardflow_public_url) && given(mcp_public_url)) ==> res is Err && res->Err_0@
            == "OAuth is partially configured: OAUTH_CLIENT_ID, OAUTH_CLIENT_SECRET, MCP_PUBLIC_URL, and CARDFLOW_PUBLIC_URL must all be set together to enable it, or all left unset to disable it"@,
{
    let client_id = non_empty(client_id);
    let client_secret = non_empty(client_secret);
    let mcp_public_url = non_empty(mcp_public_url);
    let cardflow_public_url = non_empty(cardflow_public_url);
    let any = client_id.is_some() || client_secret.is_some() || cardflow_public_url.is_some();
    if !any {
        return Ok(None);
    }
    let all = client_id.is_some() && client_secret.is_some() && cardflow_public_url.is_some();
    match (cardflow_public_url, mcp_public_url) {
        (Some(c), Some(m)) => {
            if !all {
                return Err(String::from_str(
                    "OAuth is partially configured: OAUTH_CLIENT_ID, OAUTH_CLIENT_SECRET, MCP_PUBLIC_URL, and CARDFLOW_PUBLIC_URL must all be set together to enable it, or all left unset to disable it",
                ));
            }
            Ok(Some(OAuthState { cardflow_url: cardflow_url.to_owned(), cardflow_public_url: c, mcp_public_url: m }))
        },
        _ => Err(String::from_str(
            "OAuth is partially configured: OAUTH_CLIENT_ID, OAUTH_CLIENT_SECRET, MCP_PUBLIC_URL, and CARDFLOW_PUBLIC_URL must all be set together to enable it, or all left unset to disable it",
        )),
    }
}

/// The Host headers the MCP endpoint accepts: loopback, and the host of the
/// MCP server's public URL when it is given and has one.
pub fn allowed_hosts(mcp_public_url: Option<String>) -> (res: Vec<String>)
    ensures
        res.len() >= 3,
        res@[0]@ == "localhost"@,
        res@[1]@ == "127.0.0.1"@,
        res@[2]@ == "::1"@,
        res.len() == 4 <==> (mcp_public_url is Some && url_host(mcp_public_url->0@) is Some),
        res.len() == 4 ==> Some(res@[3]@) == url_host(mcp_public_url->0@),
        res.len() <= 4,
{
    let mut hosts: Vec<String> = Vec::new();
    hosts.push(String::from_str("localhost"));
    hosts.push(String::from_str("127.0.0.1"));
    hosts.push(String::from_str("::1"));
    if let Some(u) = &mcp_public_url {
        if let Some(h) = host_of(u.as_str()) {
            hosts.push(h);
        }
    }
    hosts
}

/// The issuer and the two endpoints that the OAuth metadata document
/// advertises: the MCP server's public URL without trailing '/', and that
/// followed by `/authorize` and `/token`.
pub fn metadata_urls(mcp_public_url: &str) -> (res: (String, String, String))
    ensures
        res.0@ == spec_trim_end_char(mcp_public_url@, '/'),
        res.1@ == spec_trim_end_char(mcp_public_url@, '/') + "/authorize"@,
        res.2@ == spec_trim_end_char(mcp_public_url@, '/') + "/token"@,
{
    let issuer = trim_end_char(mcp_public_url, '/');
    let authorize = concat(issuer.as_str(), "/authorize");
    let token = concat(issuer.as_str(), "/token");
    (issuer, authorize, token)
}

/// Where the MCP server's `/authorize` sends the browser: the frontend's
/// public URL (which proxies `/api` to the backend) at
/// `/api/oauth/authorize`, with every query pair passed on unchanged.
pub fn authorize_redirect(cardflow_public_url: &str, params: &Vec<(String, String)>) -> (res: Result<String, String>)
    ensures
        res is Ok <==> url_parses(spec_trim_end_char(cardflow_public_url@, '/') + "/api/oauth/authorize"@),
        res matches Ok(u) ==> Some(u@) == url_with_pairs(
            spec_trim_end_char(cardflow_public_url@, '/') + "/api/oauth/authorize"@,
            pair_views(params@),
        ),
        res matches Err(m) ==> m@ == "CARDFLOW_PUBLIC_URL is not a valid URL"@,
{
    let base = trim_end_char(cardflow_public_url, '/');
    let target = concat(base.as_str(), "/api/oauth/authorize");
    match with_query(target.as_str(), params) {
        Some(u) => Ok(u),
        None => Err(String::from_str("CARDFLOW_PUBLIC_URL is not a valid URL")),
    }
}

} // verus!
