//! Creating and updating games, decks and cards: the values a new record
//! starts with, and how an update merges into the stored record.
use vstd::prelude::*;

use uuid::Uuid;

use crate::error::{bad_request, conflict, AppError};
use crate::hand::{available_priorities, free_priorities, lemma_valid_hand_at_most_five, valid_hand, MAX_HAND_SIZE};
use crate::text::str_eq;
use crate::models::{Card, CreateCard, CreateDeck, CreateGame, Deck, Game, UpdateCard, UpdateDeck, UpdateGame};

verus! {

/// A fresh random version-4 UUID in its hyphenated text form
/// (`Uuid::new_v4().to_string()`): 36 characters.
#[verifier::external_body]
fn uuid_v4_text() -> (res: String)
    ensures
        res@.len() == 36,
{
    Uuid::new_v4().to_string()
}

/// A fresh id for a new record.
pub fn new_id() -> (res: String)
    ensures
        res@.len() == 36,
{
    uuid_v4_text()
}

/// `new` if given, else `old`.
pub open spec fn or_keep<T>(new: Option<T>, old: T) -> T {
    match new {
        Some(v) => v,
        None => old,
    }
}

/// `new` if it is `Some`, else `old`.
pub open spec fn or_else<T>(new: Option<T>, old: Option<T>) -> Option<T> {
    match new {
        Some(v) => Some(v),
        None => old,
    }
}

/// `new` if it is `Some`, else `old`, as `Option::or` gives it.
pub fn either<T>(new: Option<T>, old: Option<T>) -> (res: Option<T>)
    ensures
        res == or_else(new, old),
{
    match new {
        Some(v) => Some(v),
        None => old,
    }
}

/// A new game: active, with the given name and description.
pub fn new_game(id: String, payload: CreateGame, created_at: String) -> (res: Game)
    ensures
        res.id == id,
        res.name == payload.name,
        res.description == payload.description,
        res.status@ == "active"@,
        res.created_at == created_at,
{
    Game {
        id,
        name: payload.name,
        description: payload.description,
        status: String::from_str("active"),
        created_at,
    }
}

/// A game after an update: each field given replaces the stored one.
pub fn update_game(existing: Game, payload: UpdateGame) -> (res: Game)
    ensures
        res.id == existing.id,
        res.name == or_keep(payload.name, existing.name),
        res.description == or_else(payload.description, existing.description),
        res.status == or_keep(payload.status, existing.status),
        res.created_at == existing.created_at,
{
    Game {
        id: existing.id,
        name: payload.name.unwrap_or(existing.name),
        description: either(payload.description, existing.description),
        status: payload.status.unwrap_or(existing.status),
        created_at: existing.created_at,
    }
}

/// A new deck of a game: active, with the given name and description.
pub fn new_deck(id: String, game_id: String, payload: CreateDeck, created_at: String) -> (res: Deck)
    ensures
        res.id == id,
        res.game_id == game_id,
        res.name == payload.name,
        res.description == payload.description,
        res.status@ == "active"@,
        res.created_at == created_at,
{
    Deck {
        id,
        game_id,
        name: payload.name,
        description: payload.description,
        status: String::from_str("active"),
        created_at,
    }
}

/// A deck after an update: each field given replaces the stored one.
pub fn update_deck(existing: Deck, payload: UpdateDeck) -> (res: Deck)
    ensures
        res.id == existing.id,
        res.game_id == existing.game_id,
        res.name == or_keep(payload.name, existing.name),
        res.description == or_else(payload.description, existing.description),
        res.status == or_keep(payload.status, existing.status),
        res.created_at == existing.created_at,
{
    Deck {
        id: existing.id,
        game_id: existing.game_id,
        name: payload.name.unwrap_or(existing.name),
        description: either(payload.description, existing.description),
        status: payload.status.unwrap_or(existing.status),
        created_at: existing.created_at,
    }
}

/// A new card of a deck: in the pile, with no priority, not completed.
pub fn new_card(id: String, deck_id: String, payload: CreateCard, created_at: String) -> (res: Card)
    ensures
        res.id == id,
        res.deck_id == deck_id,
        res.title == payload.title,
        res.description == payload.description,
        res.status@ == "pile"@,
        res.priority is None,
        res.created_at == created_at,
        res.completed_at is None,
{
    Card {
        id,
        deck_id,
        title: payload.title,
        description: payload.description,
        status: String::from_str("pile"),
        priority: None,
        created_at,
        completed_at: None,
    }
}

/// The update moves the card into the hand from outside it.
pub open spec fn enters_hand(existing: Card, payload: UpdateCard) -> bool {
    or_keep(payload.status, existing.status)@ == "hand"@ && existing.status@ != "hand"@
}

/// A card after an update: each field given replaces the stored one; a card
/// that ends up outside the hand holds no priority, and one that enters the
/// hand without a priority takes the lowest one that the rest of the hand
/// (`others`) leaves free, as a draw would.
pub open spec fn updated_card(existing: Card, payload: UpdateCard, others: Seq<i64>) -> Card {
    let status = or_keep(payload.status, existing.status);
    let asked = or_else(payload.priority, existing.priority);
    Card {
        title: or_keep(payload.title, existing.title),
        description: or_else(payload.description, existing.description),
        status,
        priority: if status@ != "hand"@ {
            None
        } else if asked is None && enters_hand(existing, payload) && free_priorities(others).len() > 0 {
            Some(free_priorities(others)[0])
        } else {
            asked
        },
        ..existing
    }
}

/// Why an update of a card is refused as a bad request, as its message;
/// `None` when it is not. `others` are the priorities that the other cards
/// of the deck's hand hold. Only a card in the hand holds a priority, which
/// lies in `1..=5` and is not already taken in the hand.
pub open spec fn card_update_refusal(existing: Card, payload: UpdateCard, others: Seq<i64>) -> Option<Seq<char>> {
    let c = updated_card(existing, payload, others);
    if c.status@ != "hand"@ && payload.priority is Some {
        Some("priority is only allowed for cards in hand"@)
    } else if c.priority matches Some(p) && !(1 <= p <= MAX_HAND_SIZE) {
        Some("priority must be between 1 and 5"@)
    } else if c.priority matches Some(p) && others.contains(p) {
        Some("priority is already taken in this hand"@)
    } else {
        None
    }
}

/// The update moves a card into a hand whose five priorities are all taken,
/// without naming one.
pub open spec fn enters_full_hand(existing: Card, payload: UpdateCard, others: Seq<i64>) -> bool {
    enters_hand(existing, payload) && or_else(payload.priority, existing.priority) is None && free_priorities(others).len()
        == 0
}

/// Whether some card of `hand` holds priority `p`.
fn holds_priority(hand: &[i64], p: i64) -> (res: bool)
    ensures
        res == hand@.contains(p),
{
    let mut i: usize = 0;
    while i < hand.len()
        invariant
            i <= hand.len(),
            forall|k: int| 0 <= k < i ==> hand@[k] != p,
        decreases hand.len() - i,
    {
        if hand[i] == p {
            assert(hand@[i as int] == p);
            return true;
        }
        i = i + 1;
    }
    false
}

/// Updates a card: each field given replaces the stored one, and the deck's
/// hand stays valid — at most five slots, each with its own priority in
/// `1..=5`. See `card_update_refusal` for the bad requests; a card that
/// enters a full hand without a priority is refused as a conflict. `others`
/// are the priorities held by the other cards of the deck's hand.
pub fn update_card(existing: Card, payload: UpdateCard, others: &[i64]) -> (res: Result<Card, AppError>)
    ensures
        match card_update_refusal(existing, payload, others@) {
            Some(m) => bad_request(res, m),
            None => if enters_full_hand(existing, payload, others@) {
                conflict(res, "hand is full"@)
            } else {
                res == Ok::<Card, AppError>(updated_card(existing, payload, others@))
            },
        },
        res matches Ok(c) ==> (enters_hand(existing, payload) ==> c.priority is Some),
        res matches Ok(c) ==> c.id == existing.id && c.deck_id == existing.deck_id && c.created_at == existing.created_at
            && c.completed_at == existing.completed_at,
        res matches Ok(c) ==> (payload.title matches Some(t) ==> c.title == t) && (payload.title is None ==> c.title
            == existing.title),
        res matches Ok(c) ==> (payload.description matches Some(d) ==> c.description == Some(d)) && (
        payload.description is None ==> c.description == existing.description),
        res matches Ok(c) ==> (payload.status matches Some(st) ==> c.status == st) && (payload.status is None
            ==> c.status == existing.status),
        res matches Ok(c) ==> (c.status@ == "hand"@ ==> (payload.priority matches Some(p) ==> c.priority == Some(p))),
        res matches Ok(c) ==> (c.status@ != "hand"@ ==> c.priority is None),
{
    let was_in_hand = str_eq(existing.status.as_str(), "hand");
    let status = payload.status.unwrap_or(existing.status);
    let in_hand = str_eq(status.as_str(), "hand");
    if !in_hand && payload.priority.is_some() {
        return Err(AppError::BadRequest(String::from_str("priority is only allowed for cards in hand")));
    }
    let mut priority = if in_hand {
        either(payload.priority, existing.priority)
    } else {
        None
    };
    if in_hand && !was_in_hand && priority.is_none() {
        let free = available_priorities(others, 1);
        if free.len() == 0 {
            return Err(AppError::Conflict(String::from_str("hand is full")));
        }
        priority = Some(free[0]);
    }
    if let Some(p) = priority {
        if p < 1 || p > MAX_HAND_SIZE as i64 {
            return Err(AppError::BadRequest(String::from_str("priority must be between 1 and 5")));
        }
        if holds_priority(others, p) {
            return Err(AppError::BadRequest(String::from_str("priority is already taken in this hand")));
        }
    }
    Ok(Card {
        id: existing.id,
        deck_id: existing.deck_id,
        title: payload.title.unwrap_or(existing.title),
        description: either(payload.description, existing.description),
        status,
        priority,
        created_at: existing.created_at,
        completed_at: existing.completed_at,
    })
}

/// Law: an update sets exactly the fields it gives. A title, description or
/// status given is what the card then holds; one left out keeps its stored
/// value; a priority given to a card in the hand is the one it holds; the
/// id, deck and timestamps never change.
pub proof fn lemma_update_sets_given_fields(existing: Card, payload: UpdateCard, others: Seq<i64>)
    ensures
        ({
            let c = updated_card(existing, payload, others);
            &&& c.id == existing.id && c.deck_id == existing.deck_id
            &&& c.created_at == existing.created_at && c.completed_at == existing.completed_at
            &&& payload.title matches Some(t) ==> c.title == t
            &&& payload.title is None ==> c.title == existing.title
            &&& payload.description matches Some(d) ==> c.description == Some(d)
            &&& payload.description is None ==> c.description == existing.description
            &&& payload.status matches Some(st) ==> c.status == st
            &&& payload.status is None ==> c.status == existing.status
            &&& c.status@ == "hand"@ ==> (payload.priority matches Some(p) ==> c.priority == Some(p))
        }),
{
}

/// Law: an update that goes through keeps the deck's hand valid. When the
/// other hand cards hold a valid set of priorities, the updated card holds a
/// priority exactly when it is in the hand and has one (a card entering the
/// hand always does), and adding it leaves the hand valid — so the hand
/// still has at most five slots.
pub proof fn lemma_update_keeps_hand_valid(existing: Card, payload: UpdateCard, others: Seq<i64>)
    requires
        valid_hand(others),
        card_update_refusal(existing, payload, others) is None,
        !enters_full_hand(existing, payload, others),
    ensures
        updated_card(existing, payload, others).status@ != "hand"@ ==> updated_card(existing, payload, others).priority is None,
        enters_hand(existing, payload) ==> updated_card(existing, payload, others).priority is Some,
        updated_card(existing, payload, others).priority matches Some(p) ==> valid_hand(others.push(p))
            && others.push(p).len() <= MAX_HAND_SIZE,
{
    let c = updated_card(existing, payload, others);
    if let Some(p) = c.priority {
        let h = others.push(p);
        assert forall|i: int| 0 <= i < h.len() implies 1 <= #[trigger] h[i] <= MAX_HAND_SIZE by {
            if i < others.len() {
                assert(h[i] == others[i]);
            }
        }
        assert forall|i: int, j: int| 0 <= i < h.len() && 0 <= j < h.len() && i != j implies h[i] != h[j] by {
            if i < others.len() && j < others.len() {
                assert(h[i] == others[i] && h[j] == others[j]);
            } else if i < others.len() {
                assert(h[i] == others[i] && h[j] == p);
                if h[i] == p {
                    assert(others[i] == p);
                }
            } else {
                assert(h[j] == others[j] && h[i] == p);
                if h[j] == p {
                    assert(others[j] == p);
                }
            }
        }
        lemma_valid_hand_at_most_five(h);
    }
}

} // verus!
