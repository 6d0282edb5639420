use cardflow::error::AppError;
use cardflow::hand::{
    available_priorities, check_reorder_request, contains_id, deal_hand, draw_priority, open_slots, reorder_hand,
    MAX_HAND_SIZE,
};
use cardflow::models::Card;

fn card(id: &str, status: &str, priority: Option<i64>) -> Card {
    Card {
        id: id.to_string(),
        deck_id: "d1".to_string(),
        title: format!("card {id}"),
        description: None,
        status: status.to_string(),
        priority,
        created_at: "2024-01-01T00:00:00+00:00".to_string(),
        completed_at: None,
    }
}

fn ids(v: &[&str]) -> Vec<String> {
    v.iter().map(|s| s.to_string()).collect()
}

#[test]
fn available_priorities_fills_gaps_in_order() {
    assert_eq!(available_priorities(&[2, 4], 5), vec![1, 3, 5]);
    assert_eq!(available_priorities(&[2, 4], 2), vec![1, 3]);
    assert_eq!(available_priorities(&[], 3), vec![1, 2, 3]);
}

#[test]
fn available_priorities_of_full_hand_is_empty() {
    assert_eq!(available_priorities(&[1, 2, 3, 4, 5], 5), Vec::<i64>::new());
    assert_eq!(available_priorities(&[5, 3, 1, 2, 4], 1), Vec::<i64>::new());
}

#[test]
fn available_priorities_zero_needed() {
    assert_eq!(available_priorities(&[1], 0), Vec::<i64>::new());
}

#[test]
fn open_slots_counts_down_to_zero() {
    assert_eq!(MAX_HAND_SIZE, 5);
    assert_eq!(open_slots(0), 5);
    assert_eq!(open_slots(3), 2);
    assert_eq!(open_slots(5), 0);
    assert_eq!(open_slots(9), 0);
}

#[test]
fn deal_hand_pairs_candidates_with_free_priorities() {
    let dealt = deal_hand(&[1, 3], &ids(&["a", "b", "c"]));
    assert_eq!(dealt, vec![("a".to_string(), 2), ("b".to_string(), 4), ("c".to_string(), 5)]);
}

#[test]
fn deal_hand_stops_when_priorities_run_out() {
    let dealt = deal_hand(&[1, 2, 3, 4], &ids(&["a", "b"]));
    assert_eq!(dealt, vec![("a".to_string(), 5)]);
    assert!(deal_hand(&[1, 2, 3, 4, 5], &ids(&["a"])).is_empty());
}

#[test]
fn deal_keeps_hand_valid_on_concrete_values() {
    let used = vec![2, 5];
    let dealt = deal_hand(&used, &ids(&["a", "b", "c", "d"]));
    let mut all: Vec<i64> = used.clone();
    all.extend(dealt.iter().map(|(_, p)| *p));
    all.sort();
    assert_eq!(all, vec![1, 2, 3, 4, 5]);
}

#[test]
fn draw_priority_takes_lowest_free_priority() {
    let c = card("c1", "pile", None);
    assert_eq!(draw_priority(Some(&c), &[1, 2, 4]), Ok(3));
    assert_eq!(draw_priority(Some(&c), &[]), Ok(1));
}

#[test]
fn draw_priority_errors() {
    let pile = card("c1", "pile", None);
    let hand = card("c2", "hand", Some(1));
    assert_eq!(draw_priority(None, &[]), Err(AppError::NotFound));
    assert_eq!(
        draw_priority(Some(&hand), &[]),
        Err(AppError::BadRequest("card is not in the pile".to_string()))
    );
    assert_eq!(
        draw_priority(Some(&pile), &[1, 2, 3, 4, 5]),
        Err(AppError::Conflict("hand is full".to_string()))
    );
}

#[test]
fn check_reorder_request_shapes() {
    assert_eq!(check_reorder_request(&ids(&["a", "b"])), Ok(()));
    assert_eq!(
        check_reorder_request(&ids(&[])),
        Err(AppError::BadRequest("order must contain between 1 and 5 card ids".to_string()))
    );
    assert_eq!(
        check_reorder_request(&ids(&["a", "b", "c", "d", "e", "f"])),
        Err(AppError::BadRequest("order must contain between 1 and 5 card ids".to_string()))
    );
    assert_eq!(
        check_reorder_request(&ids(&["a", "b", "a"])),
        Err(AppError::BadRequest("order contains duplicate card ids".to_string()))
    );
}

#[test]
fn contains_id_finds_members() {
    let v = ids(&["x", "y"]);
    assert!(contains_id(&v, &"y".to_string()));
    assert!(!contains_id(&v, &"z".to_string()));
}

#[test]
fn reorder_hand_assigns_one_to_n() {
    let plan = reorder_hand(&ids(&["c", "a", "b"]), &ids(&["a", "b", "c"])).unwrap();
    assert_eq!(plan, vec![("c".to_string(), 1), ("a".to_string(), 2), ("b".to_string(), 3)]);
}

#[test]
fn reorder_hand_requires_exact_hand() {
    let err = Err(AppError::BadRequest("order must contain exactly the deck's current hand".to_string()));
    assert_eq!(reorder_hand(&ids(&["a", "b"]), &ids(&["a", "b", "c"])), err);
    assert_eq!(reorder_hand(&ids(&["a", "d"]), &ids(&["a", "b"])), err);
}

#[test]
fn reorder_hand_checks_shape_itself() {
    let hand = ids(&["a", "b", "c", "d", "e", "f"]);
    assert_eq!(
        reorder_hand(&ids(&[]), &ids(&[])),
        Err(AppError::BadRequest("order must contain between 1 and 5 card ids".to_string()))
    );
    assert_eq!(
        reorder_hand(&ids(&["a", "b", "c", "d", "e", "f"]), &hand),
        Err(AppError::BadRequest("order must contain between 1 and 5 card ids".to_string()))
    );
    assert_eq!(
        reorder_hand(&ids(&["a", "a", "b"]), &ids(&["a", "b"])),
        Err(AppError::BadRequest("order contains duplicate card ids".to_string()))
    );
}

#[test]
fn full_hand_refuses_draw_exactly_at_five_cards() {
    let pile = card("c1", "pile", None);
    assert!(draw_priority(Some(&pile), &[1, 2, 3, 4]).is_ok());
    assert!(draw_priority(Some(&pile), &[1, 2, 3, 4, 5]).is_err());
}

#[test]
fn leaving_card_frees_its_priority() {
    let pile = card("c9", "pile", None);
    // the card holding priority 3 was completed: 3 is free again
    assert_eq!(draw_priority(Some(&pile), &[1, 2, 4, 5]), Ok(3));
    assert_eq!(available_priorities(&[1, 2, 4, 5], 5), vec![3]);
}
