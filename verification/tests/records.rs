use cardflow::clock::{now, now_text, rfc3339_after, Instant};
use cardflow::error::{found, require_affected, AppError};
use cardflow::models::{
    ApiToken, ApiTokenView, Card, CreateCard, CreateDeck, CreateGame, Deck, Game, UpdateCard, UpdateDeck, UpdateGame,
    User, UserView,
};
use cardflow::records::{either, new_card, new_deck, new_game, new_id, update_card, update_deck, update_game};
use cardflow::text::{constant_time_eq, str_eq, str_less, strip_prefix, to_hex_lower, trim_end_char};
use cardflow::mcp::{allowed_hosts, authorize_redirect};

fn s(x: &str) -> String {
    x.to_string()
}

#[test]
fn status_codes_per_variant() {
    assert_eq!(AppError::BadRequest(s("x")).status_code(), 400);
    assert_eq!(AppError::Unauthorized(s("x")).status_code(), 401);
    assert_eq!(AppError::Forbidden(s("x")).status_code(), 403);
    assert_eq!(AppError::NotFound.status_code(), 404);
    assert_eq!(AppError::Conflict(s("x")).status_code(), 409);
    assert_eq!(AppError::Internal(s("x")).status_code(), 500);
}

#[test]
fn found_and_affected() {
    assert_eq!(found(Some(3)), Ok(3));
    assert_eq!(found::<i32>(None), Err(AppError::NotFound));
    assert_eq!(require_affected(0), Err(AppError::NotFound));
    assert_eq!(require_affected(2), Ok(()));
}

#[test]
fn either_prefers_new() {
    assert_eq!(either(Some(1), Some(2)), Some(1));
    assert_eq!(either(None, Some(2)), Some(2));
    assert_eq!(either::<i32>(None, None), None);
}

#[test]
fn game_create_and_update() {
    let g = new_game(s("g1"), CreateGame { name: s("Q3"), description: None }, s("t0"));
    assert_eq!(g, Game { id: s("g1"), name: s("Q3"), description: None, status: s("active"), created_at: s("t0") });
    let g2 = update_game(g.clone(), UpdateGame { name: None, description: Some(s("plan")), status: Some(s("archived")) });
    assert_eq!(g2.name, "Q3");
    assert_eq!(g2.description, Some(s("plan")));
    assert_eq!(g2.status, "archived");
    assert_eq!(update_game(g.clone(), UpdateGame { name: None, description: None, status: None }), g);
}

#[test]
fn deck_create_and_update() {
    let d = new_deck(s("d1"), s("g1"), CreateDeck { name: s("Sprint"), description: Some(s("two weeks")) }, s("t0"));
    assert_eq!(d.game_id, "g1");
    assert_eq!(d.status, "active");
    let d2 = update_deck(d.clone(), UpdateDeck { name: Some(s("Sprint 2")), description: None, status: None });
    assert_eq!(
        d2,
        Deck { id: s("d1"), game_id: s("g1"), name: s("Sprint 2"), description: Some(s("two weeks")), status: s("active"), created_at: s("t0") }
    );
}

#[test]
fn card_create_and_update() {
    let c = new_card(s("c1"), s("d1"), CreateCard { title: s("Write"), description: None }, s("t0"));
    assert_eq!(c.status, "pile");
    assert_eq!(c.priority, None);
    assert_eq!(c.completed_at, None);
    let c2 = update_card(c.clone(), UpdateCard { title: None, description: None, status: Some(s("hand")), priority: Some(2) }, &[1, 3])
        .unwrap();
    assert_eq!(
        c2,
        Card {
            id: s("c1"),
            deck_id: s("d1"),
            title: s("Write"),
            description: None,
            status: s("hand"),
            priority: Some(2),
            created_at: s("t0"),
            completed_at: None
        }
    );
    assert_eq!(c2.copy(), c2);
}

#[test]
fn update_card_keeps_hand_valid() {
    let c = new_card(s("c1"), s("d1"), CreateCard { title: s("Write"), description: None }, s("t0"));
    let to_hand = |p: Option<i64>| UpdateCard { title: None, description: None, status: Some(s("hand")), priority: p };
    assert_eq!(
        update_card(c.clone(), to_hand(Some(9)), &[]),
        Err(AppError::BadRequest(s("priority must be between 1 and 5")))
    );
    assert_eq!(
        update_card(c.clone(), to_hand(Some(0)), &[]),
        Err(AppError::BadRequest(s("priority must be between 1 and 5")))
    );
    assert_eq!(
        update_card(c.clone(), to_hand(Some(3)), &[1, 3]),
        Err(AppError::BadRequest(s("priority is already taken in this hand")))
    );
    assert_eq!(
        update_card(c.clone(), UpdateCard { title: None, description: None, status: None, priority: Some(2) }, &[]),
        Err(AppError::BadRequest(s("priority is only allowed for cards in hand")))
    );
    // a card entering the hand without a priority takes the lowest free one
    assert_eq!(update_card(c.clone(), to_hand(None), &[1, 2, 4]).unwrap().priority, Some(3));
    // a sixth card cannot enter a full hand
    assert_eq!(update_card(c.clone(), to_hand(None), &[1, 2, 3, 4, 5]), Err(AppError::Conflict(s("hand is full"))));
    assert_eq!(
        update_card(c.clone(), to_hand(Some(2)), &[1, 2, 3, 4, 5]),
        Err(AppError::BadRequest(s("priority is already taken in this hand")))
    );
    // a joker of a stack already in the hand keeps sitting there without a priority
    let joker = Card { status: s("hand"), ..c.clone() };
    let renamed = update_card(joker, UpdateCard { title: Some(s("T")), description: None, status: None, priority: None }, &[1, 2, 3, 4, 5])
        .unwrap();
    assert_eq!((renamed.status.as_str(), renamed.priority), ("hand", None));
    // leaving the hand gives up the priority
    let in_hand = update_card(c.clone(), to_hand(Some(5)), &[1]).unwrap();
    let back = update_card(in_hand, UpdateCard { title: Some(s("New")), description: None, status: Some(s("pile")), priority: None }, &[])
        .unwrap();
    assert_eq!(back.priority, None);
    assert_eq!(back.status, "pile");
    assert_eq!(back.title, "New");
}

#[test]
fn views_hide_secrets() {
    let u = User {
        id: s("u1"),
        username: s("a"),
        password_hash: s("h"),
        totp_secret: Some(s("S")),
        role: s("user"),
        created_at: s("t"),
    };
    let v = UserView::from(u);
    assert_eq!(v, UserView { id: s("u1"), username: s("a"), role: s("user"), mfa_enabled: true, created_at: s("t") });
    let t = ApiToken {
        id: s("t1"),
        user_id: s("u1"),
        name: s("ci"),
        token_hash: s("h"),
        created_at: s("t"),
        last_used_at: None,
    };
    assert_eq!(ApiTokenView::from(t), ApiTokenView { id: s("t1"), name: s("ci"), created_at: s("t"), last_used_at: None });
}

#[test]
fn text_helpers() {
    assert!(str_eq("ab", "ab"));
    assert!(!str_eq("ab", "abc"));
    assert!(str_less("2024-01-01", "2024-01-02"));
    assert!(str_less("ab", "abc"));
    assert!(!str_less("b", "abc"));
    assert!(!str_less("same", "same"));
    assert_eq!(strip_prefix("Bearer x", "Bearer "), Some(s("x")));
    assert_eq!(strip_prefix("Bear", "Bearer "), None);
    assert_eq!(trim_end_char("a///", '/'), "a");
    assert_eq!(cardflow::text::concat("ab", "cd"), "abcd");
    assert_eq!(to_hex_lower(&[0x00, 0x0f, 0xa5, 0xff]), "000fa5ff");
    assert!(constant_time_eq("abc", "abc"));
    assert!(!constant_time_eq("abc", "abd"));
    assert!(!constant_time_eq("abc", "ab"));
}

#[test]
fn url_helpers() {
    assert_eq!(
        authorize_redirect("https://example.com", &vec![(s("code"), s("abc")), (s("state"), s("x y"))]),
        Ok(s("https://example.com/api/oauth/authorize?code=abc&state=x+y"))
    );
    assert!(authorize_redirect("nope", &vec![]).is_err());
    assert_eq!(allowed_hosts(Some(s("https://mcp.example.com:8443/p")))[3], "mcp.example.com");
    assert_eq!(allowed_hosts(Some(s("mailto:a@b.c"))).len(), 3);
}

#[test]
fn clock_text() {
    assert_eq!(rfc3339_after(&Instant { secs: 0, nanos: 0 }, 0), Some(s("1970-01-01T00:00:00+00:00")));
    assert_eq!(rfc3339_after(&Instant { secs: 0, nanos: 0 }, 600), Some(s("1970-01-01T00:10:00+00:00")));
    assert_eq!(rfc3339_after(&Instant { secs: 0, nanos: 500_000_000 }, 0), Some(s("1970-01-01T00:00:00.500+00:00")));
    let t = now();
    assert!(t.secs > 1_600_000_000);
    assert!(rfc3339_after(&t, 0).is_some());
    assert!(now_text().unwrap().ends_with("+00:00"));
}

#[test]
fn new_ids_are_uuids() {
    let a = new_id();
    let b = new_id();
    assert_eq!(a.len(), 36);
    assert_eq!(a.matches('-').count(), 4);
    assert_ne!(a, b);
}
