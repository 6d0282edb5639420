use cardflow::cards::{
    complete_card, create_joker, deal_stack, draw_card, fetch_stack, find_card, has_id, ids_distinct, is_blocked, pull_stack,
    return_card, status_is, tree_cards, tree_complete,
};
use cardflow::error::AppError;
use cardflow::jokers::tree_ids;
use cardflow::models::{Card, CardJoker, Stack};

fn card(id: &str, status: &str, priority: Option<i64>) -> Card {
    Card {
        id: id.to_string(),
        deck_id: "d1".to_string(),
        title: format!("card {id}"),
        description: None,
        status: status.to_string(),
        priority,
        created_at: "2024-01-01T00:00:00+00:00".to_string(),
        completed_at: None,
    }
}

fn edge(card_id: &str, joker_id: &str, order: i64) -> CardJoker {
    CardJoker {
        id: format!("{card_id}->{joker_id}"),
        card_id: card_id.to_string(),
        joker_id: joker_id.to_string(),
        order,
    }
}

fn s(x: &str) -> String {
    x.to_string()
}

#[test]
fn find_card_by_id() {
    let cards = vec![card("a", "pile", None), card("b", "hand", Some(1))];
    assert_eq!(find_card(&cards, &s("b")), Some(1));
    assert_eq!(find_card(&cards, &s("z")), None);
}

#[test]
fn status_is_compares_text() {
    assert!(status_is(&card("a", "hand", Some(1)), "hand"));
    assert!(!status_is(&card("a", "hand", Some(1)), "pile"));
}

#[test]
fn blocked_by_open_joker_only() {
    let cards = vec![card("a", "hand", Some(1)), card("b", "hand", None), card("c", "done", None)];
    let edges = vec![edge("a", "b", 1), edge("a", "c", 2)];
    assert!(is_blocked(&cards, &edges, &s("a")));
    let cards2 = vec![card("a", "hand", Some(1)), card("b", "done", None), card("c", "done", None)];
    assert!(!is_blocked(&cards2, &edges, &s("a")));
    assert!(!is_blocked(&cards, &edges, &s("b")));
}

#[test]
fn tree_ids_collects_reachable_cards_once() {
    let edges = vec![edge("a", "b", 1), edge("a", "c", 2), edge("b", "d", 1), edge("c", "d", 1), edge("x", "a", 1)];
    let t = tree_ids(&edges, &s("a"));
    assert_eq!(t[0], "a");
    let mut sorted = t.clone();
    sorted.sort();
    assert_eq!(sorted, vec![s("a"), s("b"), s("c"), s("d")]);
}

#[test]
fn tree_cards_keeps_deck_order() {
    let cards = vec![card("d", "pile", None), card("x", "pile", None), card("b", "hand", None), card("a", "hand", Some(1))];
    let edges = vec![edge("a", "b", 1), edge("b", "d", 1)];
    let t: Vec<String> = tree_cards(&cards, &edges, &s("a")).into_iter().map(|c| c.id).collect();
    assert_eq!(t, vec![s("d"), s("b"), s("a")]);
}

#[test]
fn complete_card_unblocks_parent() {
    let cards = vec![card("p", "hand", Some(1)), card("j", "hand", None)];
    let edges = vec![edge("p", "j", 1)];
    let (res, after) = complete_card(&cards, &edges, &s("j"), &s("2024-02-02T00:00:00+00:00"));
    let r = res.unwrap();
    assert_eq!(r.card.status, "done");
    assert_eq!(r.card.priority, None);
    assert_eq!(r.card.completed_at, Some(s("2024-02-02T00:00:00+00:00")));
    assert_eq!(r.unblocked.len(), 1);
    assert_eq!(r.unblocked[0].id, "p");
    assert_eq!(after[0], cards[0]);
    assert_eq!(after[1].status, "done");
}

#[test]
fn complete_card_keeps_parent_blocked_by_other_joker() {
    let cards = vec![card("p", "hand", Some(1)), card("j", "hand", None), card("k", "hand", None)];
    let edges = vec![edge("p", "j", 1), edge("p", "k", 2)];
    let (res, _) = complete_card(&cards, &edges, &s("j"), &s("t"));
    assert!(res.unwrap().unblocked.is_empty());
}

#[test]
fn complete_card_errors() {
    let cards = vec![card("p", "hand", Some(1)), card("j", "hand", None), card("q", "pile", None)];
    let edges = vec![edge("p", "j", 1)];
    assert_eq!(complete_card(&cards, &edges, &s("zz"), &s("t")).0, Err(AppError::NotFound));
    assert_eq!(
        complete_card(&cards, &edges, &s("q"), &s("t")).0,
        Err(AppError::BadRequest(s("only cards in hand can be completed")))
    );
    assert_eq!(
        complete_card(&cards, &edges, &s("p"), &s("t")).0,
        Err(AppError::BadRequest(s("card is blocked by incomplete jokers")))
    );
}

#[test]
fn return_card_sends_hand_cards_of_stack_to_pile() {
    let cards = vec![
        card("a", "hand", Some(2)),
        card("b", "hand", None),
        card("c", "done", None),
        card("x", "hand", Some(1)),
    ];
    let edges = vec![edge("a", "b", 1), edge("a", "c", 2)];
    let returned = return_card(&cards, &edges, &s("a")).unwrap();
    let ids: Vec<&str> = returned.iter().map(|c| c.id.as_str()).collect();
    assert_eq!(ids, vec!["a", "b"]);
    assert!(returned.iter().all(|c| c.status == "pile" && c.priority.is_none()));
}

#[test]
fn return_card_errors() {
    let cards = vec![card("a", "hand", Some(2)), card("b", "hand", None), card("p", "pile", None)];
    let edges = vec![edge("a", "b", 1)];
    let msg = Err(AppError::BadRequest(s("only the root of a stack in hand can be returned to the pile")));
    assert_eq!(return_card(&cards, &edges, &s("nope")), Err(AppError::NotFound));
    assert_eq!(return_card(&cards, &edges, &s("b")), msg);
    assert_eq!(return_card(&cards, &edges, &s("p")), msg);
}

#[test]
fn create_joker_gives_next_order() {
    let a = card("a", "hand", Some(1));
    let b = card("b", "pile", None);
    let edges = vec![edge("a", "c", 1), edge("a", "d", 4), edge("x", "a", 9)];
    assert_eq!(create_joker(&a, &b, &edges, None), Ok(5));
    assert_eq!(create_joker(&a, &b, &vec![], None), Ok(1));
    // the next order follows the largest, even below 1
    assert_eq!(create_joker(&a, &b, &vec![edge("a", "c", -3)], None), Ok(-2));
    // no order follows the largest integer
    assert!(matches!(create_joker(&a, &b, &vec![edge("a", "c", i64::MAX)], None), Err(AppError::Internal(_))));
    assert_eq!(create_joker(&a, &b, &vec![edge("a", "c", i64::MAX)], Some(1)), Ok(1));
}

#[test]
fn create_joker_honours_explicit_order() {
    let a = card("a", "hand", Some(1));
    let b = card("b", "pile", None);
    let edges = vec![edge("a", "c", 1), edge("a", "d", 4), edge("x", "a", 2)];
    assert_eq!(create_joker(&a, &b, &edges, Some(2)), Ok(2));
    assert_eq!(create_joker(&a, &b, &edges, Some(9)), Ok(9));
    assert_eq!(
        create_joker(&a, &b, &edges, Some(4)),
        Err(AppError::BadRequest(s("order is already in use for this card")))
    );
    assert_eq!(create_joker(&a, &b, &edges, Some(0)), Err(AppError::BadRequest(s("order must be at least 1"))));
}

#[test]
fn create_joker_errors() {
    let a = card("a", "hand", Some(1));
    let b = card("b", "pile", None);
    let mut other = card("o", "pile", None);
    other.deck_id = s("d2");
    assert_eq!(create_joker(&a, &a, &vec![], None), Err(AppError::BadRequest(s("a card cannot depend on itself"))));
    assert_eq!(
        create_joker(&a, &other, &vec![], None),
        Err(AppError::BadRequest(s("a joker must belong to the same deck as the card")))
    );
    let edges = vec![edge("b", "c", 1), edge("c", "a", 1)];
    assert_eq!(
        create_joker(&a, &b, &edges, None),
        Err(AppError::BadRequest(s("adding this joker would create a dependency cycle")))
    );
}

#[test]
fn new_joker_never_closes_cycle_on_concrete_values() {
    // a -> b, b -> c; adding c -> a is refused, adding a -> c is fine
    let a = card("a", "hand", Some(1));
    let c = card("c", "pile", None);
    let edges = vec![edge("a", "b", 1), edge("b", "c", 1)];
    assert!(create_joker(&c, &a, &edges, None).is_err());
    assert_eq!(create_joker(&a, &c, &edges, None), Ok(2));
}

#[test]
fn fetch_stack_nests_jokers_in_edge_order() {
    let cards = vec![card("a", "hand", Some(1)), card("b", "hand", None), card("c", "hand", None), card("d", "done", None)];
    let edges = vec![edge("a", "b", 1), edge("a", "c", 2), edge("b", "d", 1)];
    let st = fetch_stack(&cards, &edges, &s("a"));
    let expected = Stack {
        card: cards[0].clone(),
        jokers: vec![
            Stack { card: cards[1].clone(), jokers: vec![Stack { card: cards[3].clone(), jokers: vec![] }] },
            Stack { card: cards[2].clone(), jokers: vec![] },
        ],
    };
    assert_eq!(st, expected);
}

#[test]
fn draw_card_pulls_unresolved_jokers_into_one_slot() {
    let cards = vec![
        card("a", "pile", None),
        card("b", "pile", None),
        card("c", "done", None),
        card("d", "pile", None),
        card("x", "pile", None),
    ];
    let edges = vec![edge("a", "b", 1), edge("a", "c", 2), edge("b", "d", 1)];
    let moved = draw_card(&cards, &edges, &s("a"), &[1, 3]).unwrap();
    let ids: Vec<&str> = moved.iter().map(|c| c.id.as_str()).collect();
    assert_eq!(ids, vec!["a", "b", "d"]);
    assert!(moved.iter().all(|c| c.status == "hand"));
    let priorities: Vec<Option<i64>> = moved.iter().map(|c| c.priority).collect();
    assert_eq!(priorities, vec![Some(2), None, None]);
}

#[test]
fn draw_card_errors() {
    let cards = vec![card("a", "hand", Some(1)), card("p", "pile", None)];
    let edges: Vec<CardJoker> = vec![];
    assert_eq!(draw_card(&cards, &edges, &s("zz"), &[]), Err(AppError::NotFound));
    assert_eq!(draw_card(&cards, &edges, &s("a"), &[1]), Err(AppError::BadRequest(s("card is not in the pile"))));
    assert_eq!(
        draw_card(&cards, &edges, &s("p"), &[1, 2, 3, 4, 5]),
        Err(AppError::Conflict(s("hand is full")))
    );
}

#[test]
fn deal_stack_skips_cards_already_pulled() {
    let cards = vec![card("a", "pile", None), card("b", "hand", None)];
    let edges = vec![edge("a", "b", 1)];
    assert!(deal_stack(&cards, &edges, &s("b"), 2).is_empty());
    let moved = deal_stack(&cards, &edges, &s("a"), 4);
    assert_eq!(moved.len(), 1);
    assert_eq!(moved[0].priority, Some(4));
    assert!(deal_stack(&cards, &edges, &s("nope"), 1).is_empty());
}

#[test]
fn pull_stack_gives_priority_to_root_only() {
    let cards = vec![card("j", "pile", None), card("r", "pile", None)];
    let edges = vec![edge("r", "j", 1)];
    let moved = pull_stack(&cards, &edges, &s("r"), 3);
    let with_priority: Vec<&str> = moved.iter().filter(|c| c.priority.is_some()).map(|c| c.id.as_str()).collect();
    assert_eq!(with_priority, vec!["r"]);
    assert_eq!(moved.len(), 2);
}

#[test]
fn graph_checks() {
    let cards = vec![card("a", "pile", None), card("b", "pile", None)];
    assert!(ids_distinct(&cards));
    assert!(!ids_distinct(&vec![card("a", "pile", None), card("a", "hand", None)]));
    assert!(has_id(&cards, &s("b")));
    assert!(!has_id(&cards, &s("z")));
    assert!(tree_complete(&cards, &vec![edge("a", "b", 1)], &s("a")));
    assert!(!tree_complete(&cards, &vec![edge("a", "z", 1)], &s("a")));
}

#[test]
fn fetch_stack_is_not_cut_on_long_chains() {
    let cards = vec![card("a", "hand", Some(1)), card("b", "pile", None), card("c", "pile", None)];
    let edges = vec![edge("a", "b", 1), edge("b", "c", 1)];
    let st = fetch_stack(&cards, &edges, &s("a"));
    assert_eq!(st.jokers.len(), 1);
    assert_eq!(st.jokers[0].jokers.len(), 1);
    assert_eq!(st.jokers[0].jokers[0].card.id, "c");
    assert!(st.jokers[0].jokers[0].jokers.is_empty());
}
