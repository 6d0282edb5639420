//! The records of the service, as the store holds them and as the API shows them.
use vstd::prelude::*;

use crate::text::clone_opt;

verus! {

/// A user account.
#[derive(Debug, Clone, PartialEq, Eq)]
pub struct User {
    pub id: String,
    pub username: String,
    pub password_hash: String,
    pub totp_secret: Option<String>,
    pub role: String,
    pub created_at: String,
}

/// Safe, public projection of `User` — never exposes password_hash or totp_secret.
#[derive(Debug, Clone, PartialEq, Eq)]
pub struct UserView {
    pub id: String,
    pub username: String,
    pub role: String,
    pub mfa_enabled: bool,
    pub created_at: String,
}

impl From<User> for UserView {
    fn from(user: User) -> (res: Self) {
        UserView {
            id: user.id,
            username: user.username,
            role: user.role,
            mfa_enabled: user.totp_secret.is_some(),
            created_at: user.created_at,
        }
    }
}

impl vstd::std_specs::convert::FromSpecImpl<User> for UserView {
    open spec fn obeys_from_spec() -> bool {
        true
    }

    open spec fn from_spec(user: User) -> UserView {
        UserView {
            id: user.id,
            username: user.username,
            role: user.role,
            mfa_enabled: user.totp_secret is Some,
            created_at: user.created_at,
        }
    }
}

/// Payload of a request that creates a user.
#[derive(Debug, Clone, PartialEq, Eq)]
pub struct CreateUser {
    pub username: String,
    pub password: String,
    pub role: Option<String>,
}

/// Payload of a request that updates a user; absent fields stay as they are.
#[derive(Debug, Clone, PartialEq, Eq)]
pub struct UpdateUser {
    pub username: Option<String>,
    pub password: Option<String>,
    pub role: Option<String>,
}

/// A long-lived API token; only an argon2 hash of the raw value is kept.
#[derive(Debug, Clone, PartialEq, Eq)]
pub struct ApiToken {
    pub id: String,
    pub user_id: String,
    pub name: String,
    pub token_hash: String,
    pub created_at: String,
    pub last_used_at: Option<String>,
}

/// Safe, public projection of `ApiToken` — never exposes token_hash.
#[derive(Debug, Clone, PartialEq, Eq)]
pub struct ApiTokenView {
    pub id: String,
    pub name: String,
    pub created_at: String,
    pub last_used_at: Option<String>,
}

impl From<ApiToken> for ApiTokenView {
    fn from(token: ApiToken) -> (res: Self) {
        ApiTokenView {
            id: token.id,
            name: token.name,
            created_at: token.created_at,
            last_used_at: token.last_used_at,
        }
    }
}

impl vstd::std_specs::convert::FromSpecImpl<ApiToken> for ApiTokenView {
    open spec fn obeys_from_spec() -> bool {
        true
    }

    open spec fn from_spec(token: ApiToken) -> ApiTokenView {
        ApiTokenView {
            id: token.id,
            name: token.name,
            created_at: token.created_at,
            last_used_at: token.last_used_at,
        }
    }
}

/// Payload of a request that creates an API token.
#[derive(Debug, Clone, PartialEq, Eq)]
pub struct CreateApiToken {
    pub name: String,
}

/// Returned only once, at creation — the raw token is never retrievable again.
#[derive(Debug, Clone, PartialEq, Eq)]
pub struct CreateApiTokenResponse {
    pub id: String,
    pub name: String,
    pub token: String,
    pub created_at: String,
}

/// One OAuth grant in flight or active.
#[derive(Debug, Clone, PartialEq, Eq)]
pub struct OauthToken {
    pub id: String,
    pub user_id: String,
    pub code: Option<String>,
    pub code_expires_at: Option<String>,
    pub code_challenge: Option<String>,
    pub code_challenge_method: Option<String>,
    pub redirect_uri: Option<String>,
    pub access_token: Option<String>,
    pub access_expires_at: Option<String>,
    pub refresh_token: Option<String>,
    pub refresh_expires_at: Option<String>,
    pub client_id: String,
    pub created_at: String,
}

/// A game: a project.
#[derive(Debug, Clone, PartialEq, Eq)]
pub struct Game {
    pub id: String,
    pub name: String,
    pub description: Option<String>,
    pub status: String,
    pub created_at: String,
}

/// Payload of a request that creates a game.
#[derive(Debug, Clone, PartialEq, Eq)]
pub struct CreateGame {
    pub name: String,
    pub description: Option<String>,
}

/// Payload of a request that updates a game; absent fields stay as they are.
#[derive(Debug, Clone, PartialEq, Eq)]
pub struct UpdateGame {
    pub name: Option<String>,
    pub description: Option<String>,
    pub status: Option<String>,
}

/// A deck: a themed body of work within a game, with its own pile and hand.
#[derive(Debug, Clone, PartialEq, Eq)]
pub struct Deck {
    pub id: String,
    pub game_id: String,
    pub name: String,
    pub description: Option<String>,
    pub status: String,
    pub created_at: String,
}

/// Payload of a request that creates a deck.
#[derive(Debug, Clone, PartialEq, Eq)]
pub struct CreateDeck {
    pub name: String,
    pub description: Option<String>,
}

/// Payload of a request that updates a deck; absent fields stay as they are.
#[derive(Debug, Clone, PartialEq, Eq)]
pub struct UpdateDeck {
    pub name: Option<String>,
    pub description: Option<String>,
    pub status: Option<String>,
}

/// A card: one unit of work, in a deck's pile, hand, or done.
#[derive(Debug, Clone, PartialEq, Eq)]
pub struct Card {
    pub id: String,
    pub deck_id: String,
    pub title: String,
    pub description: Option<String>,
    pub status: String,
    pub priority: Option<i64>,
    pub created_at: String,
    pub completed_at: Option<String>,
}

impl Card {
    /// A field-by-field copy.
    pub fn copy(&self) -> (res: Card)
        ensures
            res == *self,
    {
        Card {
            id: self.id.clone(),
            deck_id: self.deck_id.clone(),
            title: self.title.clone(),
            description: clone_opt(&self.description),
            status: self.status.clone(),
            priority: self.priority,
            created_at: self.created_at.clone(),
            completed_at: clone_opt(&self.completed_at),
        }
    }
}

/// Payload of a request that creates a card.
#[derive(Debug, Clone, PartialEq, Eq)]
pub struct CreateCard {
    pub title: String,
    pub description: Option<String>,
}

/// Payload of a request that updates a card; absent fields stay as they are.
#[derive(Debug, Clone, PartialEq, Eq)]
pub struct UpdateCard {
    pub title: Option<String>,
    pub description: Option<String>,
    pub status: Option<String>,
    pub priority: Option<i64>,
}

/// A joker edge: `card_id` cannot be completed before `joker_id` is done.
#[derive(Debug, Clone, PartialEq, Eq)]
pub struct CardJoker {
    pub id: String,
    pub card_id: String,
    pub joker_id: String,
    pub order: i64,
}

/// Payload of a request that adds a joker to a card; `order` places the
/// joker explicitly, else it goes after the card's last joker.
#[derive(Debug, Clone, PartialEq, Eq)]
pub struct CreateJoker {
    pub joker_id: String,
    pub order: Option<i64>,
}

/// Nested view of a card and its joker subtree, for collapsed/expanded UI rendering.
#[derive(Debug, PartialEq, Eq)]
pub struct Stack {
    pub card: Card,
    pub jokers: Vec<Stack>,
}

/// The claims that a session access token carries.
#[derive(Debug, Clone, PartialEq, Eq)]
pub struct Claims {
    pub sub: String,
    pub role: String,
    pub iat: i64,
    pub exp: i64,
}

/// The authenticated caller of a request.
#[derive(Debug, Clone, PartialEq, Eq)]
pub struct CurrentUser {
    pub id: String,
    pub username: String,
    pub role: String,
}

} // verus!
