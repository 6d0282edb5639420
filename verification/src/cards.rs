//! What happens to cards: completing one, returning a stack to the pile,
//! adding a joker, and the nested stack view — decided over the deck's cards
//! and the joker edges, as read from the store.
use vstd::prelude::*;

use crate::error::{bad_request, conflict, internal, not_found, AppError};
use crate::hand::{draw_priority, free_priorities};
use crate::jokers::{acyclic, reachable, tree_ids, walk};
use crate::models::{Card, CardJoker, Stack};
use crate::text::{ids, str_eq, string_eq};

verus! {

broadcast use vstd::seq_lib::group_seq_properties;

/// No two cards share an id (the store keys cards by id).
pub open spec fn distinct_ids(cards: Seq<Card>) -> bool {
    forall|i: int, j: int| 0 <= i < j < cards.len() ==> cards[i].id@ != cards[j].id@
}

/// Some card has this id.
pub open spec fn has_card(cards: Seq<Card>, id: Seq<char>) -> bool {
    exists|j: int| 0 <= j < cards.len() && #[trigger] cards[j].id@ == id
}

/// The card with this id (meaningful when `has_card`).
pub open spec fn card_by_id(cards: Seq<Card>, id: Seq<char>) -> Card {
    cards[choose|j: int| 0 <= j < cards.len() && #[trigger] cards[j].id@ == id]
}

proof fn lemma_card_by_id(cards: Seq<Card>, k: int)
    requires
        distinct_ids(cards),
        0 <= k < cards.len(),
    ensures
        card_by_id(cards, cards[k].id@) == cards[k],
        has_card(cards, cards[k].id@),
{
    let id = cards[k].id@;
    assert(cards[k].id@ == id);
    let j = choose|j: int| 0 <= j < cards.len() && #[trigger] cards[j].id@ == id;
    if j != k {
        if j < k {
            assert(cards[j].id@ != cards[k].id@);
        } else {
            assert(cards[k].id@ != cards[j].id@);
        }
    }
}

/// The index of the card with this id, if any.
pub fn find_card(cards: &Vec<Card>, id: &String) -> (res: Option<usize>)
    requires
        distinct_ids(cards@),
    ensures
        res matches Some(k) ==> k < cards.len() && cards@[k as int].id@ == id@ && card_by_id(cards@, id@)
            == cards@[k as int] && has_card(cards@, id@),
        res is None ==> !has_card(cards@, id@),
{
    let mut k: usize = 0;
    while k < cards.len()
        invariant
            k <= cards.len(),
            distinct_ids(cards@),
            forall|j: int| 0 <= j < k ==> cards@[j].id@ != id@,
        decreases cards.len() - k,
    {
        if string_eq(&cards[k].id, id) {
            proof {
                lemma_card_by_id(cards@, k as int);
            }
            return Some(k);
        }
        k = k + 1;
    }
    None
}

/// Whether the status of `c` reads `s`.
pub fn status_is(c: &Card, s: &str) -> (res: bool)
    ensures
        res == (c.status@ == s@),
{
    str_eq(c.status.as_str(), s)
}

/// A card has a joker that is not done yet.
pub open spec fn blocked(cards: Seq<Card>, edges: Seq<CardJoker>, id: Seq<char>) -> bool {
    exists|i: int, j: int|
        0 <= i < edges.len() && 0 <= j < cards.len() && #[trigger] edges[i].card_id@ == id
            && #[trigger] cards[j].id@ == edges[i].joker_id@ && cards[j].status@ != "done"@
}

/// Whether the card `id` has any joker dependency that isn't done yet.
pub fn is_blocked(cards: &Vec<Card>, edges: &Vec<CardJoker>, id: &String) -> (res: bool)
    ensures
        res == blocked(cards@, edges@, id@),
{
    let mut i: usize = 0;
    while i < edges.len()
        invariant
            i <= edges.len(),
            forall|a: int, j: int|
                0 <= a < i && 0 <= j < cards.len() && #[trigger] edges@[a].card_id@ == id@
                    && #[trigger] cards@[j].id@ == edges@[a].joker_id@ ==> cards@[j].status@ == "done"@,
        decreases edges.len() - i,
    {
        if string_eq(&edges[i].card_id, id) {
            let mut j: usize = 0;
            while j < cards.len()
                invariant
                    i < edges.len(),
                    j <= cards.len(),
                    edges@[i as int].card_id@ == id@,
                    forall|a: int, b: int|
                        0 <= a < i && 0 <= b < cards.len() && #[trigger] edges@[a].card_id@ == id@
                            && #[trigger] cards@[b].id@ == edges@[a].joker_id@ ==> cards@[b].status@ == "done"@,
                    forall|b: int|
                        0 <= b < j && #[trigger] cards@[b].id@ == edges@[i as int].joker_id@ ==> cards@[b].status@
                            == "done"@,
                decreases cards.len() - j,
            {
                if string_eq(&cards[j].id, &edges[i].joker_id) && !status_is(&cards[j], "done") {
                    assert(edges@[i as int].card_id@ == id@ && cards@[j as int].id@ == edges@[i as int].joker_id@);
                    return true;
                }
                j = j + 1;
            }
        }
        i = i + 1;
    }
    false
}

/// The cards of the tree of `root`, in the order the deck lists them.
pub open spec fn spec_tree_cards(cards: Seq<Card>, edges: Seq<CardJoker>, root: Seq<char>) -> Seq<Card> {
    cards.filter(|c: Card| reachable(edges, root, c.id@))
}

/// Flat list of every card in `root`'s joker subtree (any status), `root` included.
pub fn tree_cards(cards: &Vec<Card>, edges: &Vec<CardJoker>, root: &String) -> (res: Vec<Card>)
    ensures
        res@ == spec_tree_cards(cards@, edges@, root@),
{
    let tree = tree_ids(edges, root);
    let mut res: Vec<Card> = Vec::new();
    let mut i: usize = 0;
    while i < cards.len()
        invariant
            i <= cards.len(),
            forall|v: Seq<char>| ids(tree@).contains(v) <==> reachable(edges@, root@, v),
            res@ == cards@.take(i as int).filter(|c: Card| reachable(edges@, root@, c.id@)),
        decreases cards.len() - i,
    {
        reveal_with_fuel(Seq::filter, 1);
        let inside = crate::hand::contains_id(&tree, &cards[i].id);
        assert(cards@.take(i + 1).drop_last() =~= cards@.take(i as int));
        if inside {
            res.push(cards[i].copy());
        }
        i = i + 1;
    }
    assert(cards@.take(cards.len() as int) =~= cards@);
    res
}

/// `new` is `old`, done at `at`: no priority any more.
pub open spec fn completed_from(new: Card, old: Card, at: Seq<char>) -> bool {
    &&& new.id == old.id
    &&& new.deck_id == old.deck_id
    &&& new.title == old.title
    &&& new.description == old.description
    &&& new.created_at == old.created_at
    &&& new.status@ == "done"@
    &&& new.priority is None
    &&& new.completed_at matches Some(t) && t@ == at
}

/// `new` is `old`, back in the pile: no priority any more.
pub open spec fn returned_from(new: Card, old: Card) -> bool {
    &&& new.id == old.id
    &&& new.deck_id == old.deck_id
    &&& new.title == old.title
    &&& new.description == old.description
    &&& new.created_at == old.created_at
    &&& new.completed_at == old.completed_at
    &&& new.status@ == "pile"@
    &&& new.priority is None
}

/// Every edge whose joker is `id` starts at a card that exists.
pub open spec fn parents_present(cards: Seq<Card>, edges: Seq<CardJoker>, id: Seq<char>) -> bool {
    forall|i: int| 0 <= i < edges.len() && #[trigger] edges[i].joker_id@ == id ==> has_card(cards, edges[i].card_id@)
}

/// Among the edges `prefix` (of all the edges `all`), the cards that have `id`
/// as a joker and, in `cards`, are in hand and no longer blocked — one entry
/// per such edge, in edge order.
pub open spec fn unblocked_parents(cards: Seq<Card>, prefix: Seq<CardJoker>, all: Seq<CardJoker>, id: Seq<char>) -> Seq<Card>
    decreases prefix.len(),
{
    if prefix.len() == 0 {
        Seq::empty()
    } else {
        let rest = unblocked_parents(cards, prefix.drop_last(), all, id);
        let e = prefix.last();
        let p = card_by_id(cards, e.card_id@);
        if e.joker_id@ == id && p.status@ == "hand"@ && !blocked(cards, all, e.card_id@) {
            rest.push(p)
        } else {
            rest
        }
    }
}

/// Law: the cards reported as unblocked after completing `id` are exactly the
/// cards in hand that have `id` as a joker and no open joker left. Each one
/// listed is such a card, and each such card is listed.
pub proof fn lemma_unblocked_are_ready_hand_cards(cards: Seq<Card>, prefix: Seq<CardJoker>, all: Seq<CardJoker>, id: Seq<char>)
    requires
        forall|i: int| 0 <= i < prefix.len() && #[trigger] prefix[i].joker_id@ == id ==> has_card(cards, prefix[i].card_id@),
    ensures
        forall|k: int|
            0 <= k < unblocked_parents(cards, prefix, all, id).len() ==> {
                let c = #[trigger] unblocked_parents(cards, prefix, all, id)[k];
                &&& c.status@ == "hand"@
                &&& has_card(cards, c.id@) && card_by_id(cards, c.id@) == c
                &&& !blocked(cards, all, c.id@)
                &&& exists|i: int| 0 <= i < prefix.len() && #[trigger] prefix[i].joker_id@ == id && prefix[i].card_id@ == c.id@
            },
        forall|i: int|
            0 <= i < prefix.len() && #[trigger] prefix[i].joker_id@ == id && card_by_id(cards, prefix[i].card_id@).status@
                == "hand"@ && !blocked(cards, all, prefix[i].card_id@) ==> unblocked_parents(cards, prefix, all, id).contains(
                card_by_id(cards, prefix[i].card_id@),
            ),
    decreases prefix.len(),
{
    if prefix.len() > 0 {
        let rest = prefix.drop_last();
        let e = prefix.last();
        assert forall|i: int| 0 <= i < rest.len() && #[trigger] rest[i].joker_id@ == id implies has_card(cards, rest[i].card_id@) by {
            assert(rest[i] == prefix[i]);
        }
        lemma_unblocked_are_ready_hand_cards(cards, rest, all, id);
        let u = unblocked_parents(cards, prefix, all, id);
        let ur = unblocked_parents(cards, rest, all, id);
        let p = card_by_id(cards, e.card_id@);
        assert forall|k: int| 0 <= k < u.len() implies {
            let c = #[trigger] u[k];
            &&& c.status@ == "hand"@
            &&& has_card(cards, c.id@) && card_by_id(cards, c.id@) == c
            &&& !blocked(cards, all, c.id@)
            &&& exists|i: int| 0 <= i < prefix.len() && #[trigger] prefix[i].joker_id@ == id && prefix[i].card_id@ == c.id@
        } by {
            if k < ur.len() {
                assert(u[k] == ur[k]);
                let i = choose|i: int| 0 <= i < rest.len() && #[trigger] rest[i].joker_id@ == id && rest[i].card_id@ == ur[k].id@;
                assert(prefix[i] == rest[i]);
            } else {
                assert(u[k] == p);
                assert(prefix[prefix.len() - 1] == e);
                assert(has_card(cards, e.card_id@));
                assert(p.id@ == e.card_id@);
            }
        }
        assert forall|i: int|
            0 <= i < prefix.len() && #[trigger] prefix[i].joker_id@ == id && card_by_id(cards, prefix[i].card_id@).status@
                == "hand"@ && !blocked(cards, all, prefix[i].card_id@) implies u.contains(card_by_id(cards, prefix[i].card_id@)) by {
            if i < rest.len() {
                assert(rest[i] == prefix[i]);
                let k = choose|k: int| 0 <= k < ur.len() && ur[k] == card_by_id(cards, rest[i].card_id@);
                assert(u[k] == ur[k]);
            } else {
                assert(prefix[i] == e);
                assert(u[ur.len() as int] == p);
            }
        }
    }
}

/// What completing a card yields: the card as stored now, and the cards in
/// hand that it was the last open joker of.
#[derive(Debug, Clone, PartialEq, Eq)]
pub struct CompleteResult {
    pub card: Card,
    pub unblocked: Vec<Card>,
}

/// Completes card `id` at time `completed_at`: only a card in hand whose
/// jokers are all done can be completed. It becomes done with no priority;
/// every card that has it as a joker and is now in hand with no open joker
/// is reported as unblocked. Besides the outcome, the deck's cards after it
/// are returned: `cards` with the completed card replaced (empty when the
/// completion is refused).
pub fn complete_card(cards: &Vec<Card>, edges: &Vec<CardJoker>, id: &String, completed_at: &String) -> (res: (
    Result<CompleteResult, AppError>,
    Vec<Card>,
))
    requires
        distinct_ids(cards@),
    ensures
        !has_card(cards@, id@) ==> not_found(res.0),
        has_card(cards@, id@) && card_by_id(cards@, id@).status@ != "hand"@ ==> bad_request(
            res.0,
            "only cards in hand can be completed"@,
        ),
        has_card(cards@, id@) && card_by_id(cards@, id@).status@ == "hand"@ && blocked(cards@, edges@, id@)
            ==> bad_request(res.0, "card is blocked by incomplete jokers"@),
        has_card(cards@, id@) && card_by_id(cards@, id@).status@ == "hand"@ && !blocked(cards@, edges@, id@)
            ==> {
            &&& res.1.len() == cards.len()
            &&& exists|k: int|
                0 <= k < cards.len() && cards@[k].id@ == id@ && completed_from(res.1@[k], cards@[k], completed_at@)
                    && res.1@ == cards@.update(k, res.1@[k])
            &&& (res.0 is Ok <==> parents_present(res.1@, edges@, id@))
            &&& !parents_present(res.1@, edges@, id@) ==> internal(res.0)
            &&& res.0 matches Ok(r) ==> r.card == card_by_id(res.1@, id@) && r.unblocked@ == unblocked_parents(
                res.1@,
                edges@,
                edges@,
                id@,
            )
        },
        res.0 matches Ok(r) ==> r.card.status@ == "done"@ && r.card.id@ == id@ && forall|k: int|
            0 <= k < r.unblocked.len() ==> {
                &&& (#[trigger] r.unblocked@[k]).status@ == "hand"@
                &&& !blocked(res.1@, edges@, r.unblocked@[k].id@)
                &&& exists|i: int|
                    0 <= i < edges.len() && #[trigger] edges@[i].joker_id@ == id@ && edges@[i].card_id@ == r.unblocked@[k].id@
            },
{
    let k = match find_card(cards, id) {
        None => return (Err(AppError::NotFound), Vec::new()),
        Some(k) => k,
    };
    if !status_is(&cards[k], "hand") {
        return (Err(AppError::BadRequest(String::from_str("only cards in hand can be completed"))), Vec::new());
    }
    if is_blocked(cards, edges, id) {
        return (Err(AppError::BadRequest(String::from_str("card is blocked by incomplete jokers"))), Vec::new());
    }
    let old = &cards[k];
    let done = Card {
        id: old.id.clone(),
        deck_id: old.deck_id.clone(),
        title: old.title.clone(),
        description: crate::text::clone_opt(&old.description),
        status: String::from_str("done"),
        priority: None,
        created_at: old.created_at.clone(),
        completed_at: Some(completed_at.clone()),
    };
    let mut after: Vec<Card> = Vec::new();
    let mut j: usize = 0;
    while j < cards.len()
        invariant
            j <= cards.len(),
            k < cards.len(),
            after.len() == j,
            forall|m: int| 0 <= m < j ==> after@[m] == (if m == k { done } else { cards@[m] }),
        decreases cards.len() - j,
    {
        if j == k {
            after.push(done.copy());
        } else {
            after.push(cards[j].copy());
        }
        j = j + 1;
    }
    assert(after@ =~= cards@.update(k as int, done));
    proof {
        assert forall|a: int, b: int| 0 <= a < b < after.len() implies after@[a].id@ != after@[b].id@ by {
            assert(cards@[a].id@ != cards@[b].id@);
        }
        lemma_card_by_id(after@, k as int);
    }
    let card = done.copy();
    let mut unblocked: Vec<Card> = Vec::new();
    let mut i: usize = 0;
    while i < edges.len()
        invariant
            i <= edges.len(),
            distinct_ids(after@),
            k < cards.len(),
            cards@[k as int].id@ == id@,
            has_card(cards@, id@),
            card_by_id(cards@, id@) == cards@[k as int],
            card_by_id(cards@, id@).status@ == "hand"@,
            !blocked(cards@, edges@, id@),
            after@ == cards@.update(k as int, done),
            after.len() == cards.len(),
            completed_from(done, cards@[k as int], completed_at@),
            unblocked@ == unblocked_parents(after@, edges@.take(i as int), edges@, id@),
            forall|a: int| 0 <= a < i && #[trigger] edges@[a].joker_id@ == id@ ==> has_card(after@, edges@[a].card_id@),
        decreases edges.len() - i,
    {
        assert(edges@.take(i + 1).drop_last() =~= edges@.take(i as int));
        assert(edges@.take(i + 1).last() == edges@[i as int]);
        if string_eq(&edges[i].joker_id, id) {
            match find_card(&after, &edges[i].card_id) {
                None => {
                    return (Err(AppError::Internal(String::from_str("a card that depends on the completed card is missing"))), after);
                },
                Some(p) => {
                    if status_is(&after[p], "hand") && !is_blocked(&after, edges, &after[p].id) {
                        unblocked.push(after[p].copy());
                    }
                },
            }
        }
        i = i + 1;
    }
    assert(edges@.take(edges.len() as int) =~= edges@);
    proof {
        lemma_unblocked_are_ready_hand_cards(after@, edges@, edges@, id@);
    }
    (Ok(CompleteResult { card, unblocked }), after)
}

/// Returns the stack rooted at card `id` to the pile: `id` must be in hand
/// with a priority (the root of a stack); every card of its tree that is in
/// hand goes back to the pile with no priority, and those cards are returned,
/// in the deck's order. Joker edges are untouched, so the stack comes back
/// as it was.
pub fn return_card(cards: &Vec<Card>, edges: &Vec<CardJoker>, id: &String) -> (res: Result<Vec<Card>, AppError>)
    requires
        distinct_ids(cards@),
    ensures
        !has_card(cards@, id@) ==> not_found(res),
        has_card(cards@, id@) && (card_by_id(cards@, id@).status@ != "hand"@ || card_by_id(cards@, id@).priority is None)
            ==> bad_request(res, "only the root of a stack in hand can be returned to the pile"@),
        has_card(cards@, id@) && card_by_id(cards@, id@).status@ == "hand"@ && card_by_id(cards@, id@).priority is Some
            ==> (res matches Ok(r) && r.len() == spec_tree_cards(cards@, edges@, id@).filter(|c: Card| c.status@ == "hand"@).len()
            && forall|i: int| 0 <= i < r.len() ==> returned_from(#[trigger] r@[i], spec_tree_cards(cards@, edges@, id@).filter(|c: Card| c.status@ == "hand"@)[i])),
{
    let k = match find_card(cards, id) {
        None => return Err(AppError::NotFound),
        Some(k) => k,
    };
    if !status_is(&cards[k], "hand") || cards[k].priority.is_none() {
        return Err(AppError::BadRequest(String::from_str("only the root of a stack in hand can be returned to the pile")));
    }
    let stack = tree_cards(cards, edges, id);
    let ghost in_hand = stack@.filter(|c: Card| c.status@ == "hand"@);
    let mut returned: Vec<Card> = Vec::new();
    let mut i: usize = 0;
    while i < stack.len()
        invariant
            i <= stack.len(),
            returned.len() == stack@.take(i as int).filter(|c: Card| c.status@ == "hand"@).len(),
            forall|m: int| 0 <= m < returned.len() ==> returned_from(#[trigger] returned@[m], stack@.take(i as int).filter(|c: Card| c.status@ == "hand"@)[m]),
        decreases stack.len() - i,
    {
        reveal_with_fuel(Seq::filter, 1);
        let ghost before = stack@.take(i as int).filter(|c: Card| c.status@ == "hand"@);
        assert(stack@.take(i + 1).drop_last() =~= stack@.take(i as int));
        if status_is(&stack[i], "hand") {
            let c = &stack[i];
            returned.push(Card {
                id: c.id.clone(),
                deck_id: c.deck_id.clone(),
                title: c.title.clone(),
                description: crate::text::clone_opt(&c.description),
                status: String::from_str("pile"),
                priority: None,
                created_at: c.created_at.clone(),
                completed_at: crate::text::clone_opt(&c.completed_at),
            });
            assert(stack@.take(i + 1).filter(|c: Card| c.status@ == "hand"@) == before.push(stack@[i as int]));
        }
        i = i + 1;
    }
    assert(stack@.take(stack.len() as int) =~= stack@);
    Ok(returned)
}

/// `new` is `old`, moved into the hand with priority `p` — the root of a
/// stack has one, a joker pulled in with it has none.
pub open spec fn moved_to_hand(new: Card, old: Card, p: Option<i64>) -> bool {
    &&& new.id == old.id
    &&& new.deck_id == old.deck_id
    &&& new.title == old.title
    &&& new.description == old.description
    &&& new.created_at == old.created_at
    &&& new.completed_at == old.completed_at
    &&& new.status@ == "hand"@
    &&& new.priority == p
}

/// The cards of the tree of `root` that are still in the pile (its root and
/// its unresolved jokers), in the deck's order.
pub open spec fn pile_of_tree(cards: Seq<Card>, edges: Seq<CardJoker>, root: Seq<char>) -> Seq<Card> {
    spec_tree_cards(cards, edges, root).filter(|c: Card| c.status@ == "pile"@)
}

/// The priority a card of the stack of `root` takes when the stack is drawn
/// with priority `p`: `p` for the root, none for its jokers.
pub open spec fn stack_priority(c: Card, root: Seq<char>, p: i64) -> Option<i64> {
    if c.id@ == root {
        Some(p)
    } else {
        None
    }
}

/// Moves the stack of `root` into the hand with priority `priority`: every
/// card of its tree still in the pile comes along, the root with the
/// priority and its jokers without one, so the whole stack takes one slot.
/// The moved cards are returned in the deck's order.
pub fn pull_stack(cards: &Vec<Card>, edges: &Vec<CardJoker>, root: &String, priority: i64) -> (res: Vec<Card>)
    ensures
        res.len() == pile_of_tree(cards@, edges@, root@).len(),
        forall|i: int|
            0 <= i < res.len() ==> moved_to_hand(
                #[trigger] res@[i],
                pile_of_tree(cards@, edges@, root@)[i],
                stack_priority(pile_of_tree(cards@, edges@, root@)[i], root@, priority),
            ),
{
    let stack = tree_cards(cards, edges, root);
    let mut moved: Vec<Card> = Vec::new();
    let mut i: usize = 0;
    while i < stack.len()
        invariant
            i <= stack.len(),
            stack@ == spec_tree_cards(cards@, edges@, root@),
            moved.len() == stack@.take(i as int).filter(|c: Card| c.status@ == "pile"@).len(),
            forall|m: int|
                0 <= m < moved.len() ==> moved_to_hand(
                    #[trigger] moved@[m],
                    stack@.take(i as int).filter(|c: Card| c.status@ == "pile"@)[m],
                    stack_priority(stack@.take(i as int).filter(|c: Card| c.status@ == "pile"@)[m], root@, priority),
                ),
        decreases stack.len() - i,
    {
        reveal_with_fuel(Seq::filter, 1);
        let ghost before = stack@.take(i as int).filter(|c: Card| c.status@ == "pile"@);
        assert(stack@.take(i + 1).drop_last() =~= stack@.take(i as int));
        if status_is(&stack[i], "pile") {
            let c = &stack[i];
            let p = if string_eq(&c.id, root) {
                Some(priority)
            } else {
                None
            };
            moved.push(Card {
                id: c.id.clone(),
                deck_id: c.deck_id.clone(),
                title: c.title.clone(),
                description: crate::text::clone_opt(&c.description),
                status: String::from_str("hand"),
                priority: p,
                created_at: c.created_at.clone(),
                completed_at: crate::text::clone_opt(&c.completed_at),
            });
            assert(stack@.take(i + 1).filter(|c: Card| c.status@ == "pile"@) == before.push(stack@[i as int]));
        }
        i = i + 1;
    }
    assert(stack@.take(stack.len() as int) =~= stack@);
    moved
}

/// The pile cards of a tree are cards of the deck, and keep their ids distinct.
proof fn lemma_pile_of_tree_cards(cards: Seq<Card>, edges: Seq<CardJoker>, root: Seq<char>)
    requires
        distinct_ids(cards),
    ensures
        distinct_ids(pile_of_tree(cards, edges, root)),
        forall|i: int|
            0 <= i < pile_of_tree(cards, edges, root).len() ==> exists|j: int|
                0 <= j < cards.len() && cards[j] == #[trigger] pile_of_tree(cards, edges, root)[i],
    decreases cards.len(),
{
    reveal_with_fuel(Seq::filter, 2);
    if cards.len() > 0 {
        let rest = cards.drop_last();
        let x = cards.last();
        lemma_pile_of_tree_cards(rest, edges, root);
        let before = pile_of_tree(rest, edges, root);
        let now = pile_of_tree(cards, edges, root);
        assert forall|i: int| 0 <= i < before.len() implies exists|j: int|
            0 <= j < cards.len() - 1 && cards[j] == #[trigger] before[i] by {
            let j = choose|j: int| 0 <= j < rest.len() && rest[j] == before[i];
            assert(cards[j] == rest[j]);
        }
        let tc = spec_tree_cards(rest, edges, root);
        assert(tc.push(x).drop_last() =~= tc);
        if reachable(edges, root, x.id@) && x.status@ == "pile"@ {
            assert(spec_tree_cards(cards, edges, root) == tc.push(x));
            assert(now == before.push(x));
            assert forall|a: int, b: int| 0 <= a < b < now.len() implies now[a].id@ != now[b].id@ by {
                if b == now.len() - 1 {
                    let j = choose|j: int| 0 <= j < cards.len() - 1 && cards[j] == before[a];
                    assert(cards[j].id@ != cards[cards.len() - 1].id@);
                }
            }
            assert forall|i: int| 0 <= i < now.len() implies exists|j: int|
                0 <= j < cards.len() && cards[j] == #[trigger] now[i] by {
                if i == now.len() - 1 {
                    assert(cards[cards.len() - 1] == now[i]);
                } else {
                    let j = choose|j: int| 0 <= j < cards.len() - 1 && cards[j] == before[i];
                    assert(cards[j] == now[i]);
                }
            }
        } else if reachable(edges, root, x.id@) {
            assert(spec_tree_cards(cards, edges, root) == spec_tree_cards(rest, edges, root).push(x));
            assert(now == before);
        } else {
            assert(spec_tree_cards(cards, edges, root) == spec_tree_cards(rest, edges, root));
            assert(now == before);
        }
    }
}

/// A root card in the pile is among the pile cards of its own tree.
proof fn lemma_root_in_pile_of_tree(cards: Seq<Card>, edges: Seq<CardJoker>, root: Seq<char>, j: int)
    requires
        0 <= j < cards.len(),
        cards[j].id@ == root,
        cards[j].status@ == "pile"@,
    ensures
        exists|i: int| 0 <= i < pile_of_tree(cards, edges, root).len() && #[trigger] pile_of_tree(cards, edges, root)[i].id@ == root,
    decreases cards.len(),
{
    reveal_with_fuel(Seq::filter, 2);
    crate::jokers::lemma_reachable_self(edges, root);
    let rest = cards.drop_last();
    let x = cards.last();
    let before = pile_of_tree(rest, edges, root);
    let now = pile_of_tree(cards, edges, root);
    let tc = spec_tree_cards(rest, edges, root);
    assert(tc.push(x).drop_last() =~= tc);
    if reachable(edges, root, x.id@) && x.status@ == "pile"@ {
        assert(spec_tree_cards(cards, edges, root) == spec_tree_cards(rest, edges, root).push(x));
        assert(now == before.push(x));
        if j == cards.len() - 1 {
            assert(now[now.len() - 1].id@ == root);
        } else {
            assert(rest[j] == cards[j]);
            lemma_root_in_pile_of_tree(rest, edges, root, j);
            let i = choose|i: int| 0 <= i < before.len() && #[trigger] before[i].id@ == root;
            assert(now[i] == before[i]);
        }
    } else {
        assert(j != cards.len() - 1);
        assert(rest[j] == cards[j]);
        lemma_root_in_pile_of_tree(rest, edges, root, j);
        if reachable(edges, root, x.id@) {
            assert(spec_tree_cards(cards, edges, root) == spec_tree_cards(rest, edges, root).push(x));
        } else {
            assert(spec_tree_cards(cards, edges, root) == spec_tree_cards(rest, edges, root));
        }
        assert(now == before);
    }
}

/// Law: a drawn stack takes one slot of the hand. Of the cards that a draw
/// of `root` (in the pile) moves to the hand, exactly one — the root —
/// takes the priority; its jokers come along without one.
pub proof fn lemma_drawn_stack_one_slot(cards: Seq<Card>, edges: Seq<CardJoker>, root: Seq<char>, p: i64)
    requires
        distinct_ids(cards),
        has_card(cards, root),
        card_by_id(cards, root).status@ == "pile"@,
    ensures
        exists|i: int|
            0 <= i < pile_of_tree(cards, edges, root).len() && #[trigger] stack_priority(
                pile_of_tree(cards, edges, root)[i],
                root,
                p,
            ) == Some(p) && forall|k: int|
                0 <= k < pile_of_tree(cards, edges, root).len() && k != i ==> stack_priority(
                    #[trigger] pile_of_tree(cards, edges, root)[k],
                    root,
                    p,
                ) is None,
{
    let t = pile_of_tree(cards, edges, root);
    let j = choose|j: int| 0 <= j < cards.len() && #[trigger] cards[j].id@ == root;
    lemma_card_by_id(cards, j);
    lemma_root_in_pile_of_tree(cards, edges, root, j);
    lemma_pile_of_tree_cards(cards, edges, root);
    let i = choose|i: int| 0 <= i < t.len() && #[trigger] t[i].id@ == root;
    assert(stack_priority(t[i], root, p) == Some(p));
    assert forall|k: int| 0 <= k < t.len() && k != i implies stack_priority(#[trigger] t[k], root, p) is None by {
        if k < i {
            assert(t[k].id@ != t[i].id@);
        } else {
            assert(t[i].id@ != t[k].id@);
        }
    }
}

/// Draws card `id` of the deck into the hand: it must exist and lie in the
/// pile, and it takes the lowest free priority (none free: the hand is
/// full); its unresolved jokers come along in the same slot.
pub fn draw_card(cards: &Vec<Card>, edges: &Vec<CardJoker>, id: &String, used: &[i64]) -> (res: Result<Vec<Card>, AppError>)
    requires
        distinct_ids(cards@),
    ensures
        !has_card(cards@, id@) ==> not_found(res),
        has_card(cards@, id@) && card_by_id(cards@, id@).status@ != "pile"@ ==> bad_request(res, "card is not in the pile"@),
        has_card(cards@, id@) && card_by_id(cards@, id@).status@ == "pile"@ && free_priorities(used@).len() == 0
            ==> conflict(res, "hand is full"@),
        has_card(cards@, id@) && card_by_id(cards@, id@).status@ == "pile"@ && free_priorities(used@).len() > 0
            ==> (res matches Ok(r) && r.len() == pile_of_tree(cards@, edges@, id@).len() && forall|i: int|
            0 <= i < r.len() ==> moved_to_hand(
                #[trigger] r@[i],
                pile_of_tree(cards@, edges@, id@)[i],
                stack_priority(pile_of_tree(cards@, edges@, id@)[i], id@, free_priorities(used@)[0]),
            )),
{
    let card = match find_card(cards, id) {
        Some(k) => Some(&cards[k]),
        None => None,
    };
    let priority = match draw_priority(card, used) {
        Ok(p) => p,
        Err(e) => return Err(e),
    };
    Ok(pull_stack(cards, edges, id, priority))
}

/// One card of a deal: its stack is drawn with priority `priority` if it is
/// still in the pile (an earlier card of the same deal may have pulled it in
/// as a joker); otherwise nothing moves.
pub fn deal_stack(cards: &Vec<Card>, edges: &Vec<CardJoker>, id: &String, priority: i64) -> (res: Vec<Card>)
    requires
        distinct_ids(cards@),
    ensures
        !(has_card(cards@, id@) && card_by_id(cards@, id@).status@ == "pile"@) ==> res.len() == 0,
        has_card(cards@, id@) && card_by_id(cards@, id@).status@ == "pile"@ ==> {
            &&& res.len() == pile_of_tree(cards@, edges@, id@).len()
            &&& forall|i: int|
                0 <= i < res.len() ==> moved_to_hand(
                    #[trigger] res@[i],
                    pile_of_tree(cards@, edges@, id@)[i],
                    stack_priority(pile_of_tree(cards@, edges@, id@)[i], id@, priority),
                )
        },
{
    match find_card(cards, id) {
        Some(k) => {
            if status_is(&cards[k], "pile") {
                pull_stack(cards, edges, id, priority)
            } else {
                Vec::new()
            }
        },
        None => Vec::new(),
    }
}

/// The largest `order` among the edges of `prefix` that start at `card`;
/// `None` when there is none.
pub open spec fn max_joker_order(prefix: Seq<CardJoker>, card: Seq<char>) -> Option<int>
    decreases prefix.len(),
{
    if prefix.len() == 0 {
        None
    } else {
        let rest = max_joker_order(prefix.drop_last(), card);
        let e = prefix.last();
        if e.card_id@ == card {
            match rest {
                Some(m) => if e.order > m {
                    Some(e.order as int)
                } else {
                    rest
                },
                None => Some(e.order as int),
            }
        } else {
            rest
        }
    }
}

/// Where the next joker of `card` goes when no order is asked for: after its
/// current last joker (the largest order, or 0 when it has none, plus one).
pub open spec fn next_joker_order(edges: Seq<CardJoker>, card: Seq<char>) -> int {
    match max_joker_order(edges, card) {
        Some(m) => m + 1,
        None => 1,
    }
}

/// Some edge that starts at `card` has order `k`.
pub open spec fn order_in_use(edges: Seq<CardJoker>, card: Seq<char>, k: int) -> bool {
    exists|i: int| 0 <= i < edges.len() && (#[trigger] edges[i]).card_id@ == card && edges[i].order == k
}

/// No edge that starts at `card` has an order above the largest.
proof fn lemma_max_joker_order(edges: Seq<CardJoker>, card: Seq<char>)
    ensures
        max_joker_order(edges, card) is None ==> forall|i: int| 0 <= i < edges.len() ==> (#[trigger] edges[i]).card_id@ != card,
        max_joker_order(edges, card) matches Some(m) ==> forall|i: int|
            0 <= i < edges.len() && (#[trigger] edges[i]).card_id@ == card ==> edges[i].order <= m,
        max_joker_order(edges, card) matches Some(m) ==> exists|i: int|
            0 <= i < edges.len() && (#[trigger] edges[i]).card_id@ == card && edges[i].order == m,
    decreases edges.len(),
{
    if edges.len() > 0 {
        let rest = edges.drop_last();
        lemma_max_joker_order(rest, card);
        assert forall|i: int| 0 <= i < edges.len() - 1 implies #[trigger] edges[i] == rest[i] by {}
        if max_joker_order(edges, card) is Some && max_joker_order(edges, card) == max_joker_order(rest, card) {
            let m = max_joker_order(rest, card)->0;
            let i = choose|i: int| 0 <= i < rest.len() && (#[trigger] rest[i]).card_id@ == card && rest[i].order == m;
            assert(edges[i] == rest[i]);
        }
        if max_joker_order(edges, card) is Some && max_joker_order(edges, card) != max_joker_order(rest, card) {
            assert(edges[edges.len() - 1] == edges.last());
        }
    }
}

/// Checks that `joker` may become a joker of `card`, and gives the order the
/// new edge takes: a card cannot depend on itself, both must be in the same
/// deck, and `card` must not already be in the tree of `joker` (that would
/// close a cycle). An order asked for must be at least 1 and not held by
/// another joker of `card`; without one, the new edge goes after the card's
/// current last joker (past the largest integer there is no such order).
/// Either way the orders of `card`'s jokers stay distinct.
pub fn create_joker(card: &Card, joker: &Card, edges: &Vec<CardJoker>, order: Option<i64>) -> (res: Result<i64, AppError>)
    ensures
        card.id@ == joker.id@ ==> bad_request(res, "a card cannot depend on itself"@),
        card.id@ != joker.id@ && card.deck_id@ != joker.deck_id@ ==> bad_request(
            res,
            "a joker must belong to the same deck as the card"@,
        ),
        card.id@ != joker.id@ && card.deck_id@ == joker.deck_id@ && reachable(edges@, joker.id@, card.id@)
            ==> bad_request(res, "adding this joker would create a dependency cycle"@),
        card.id@ != joker.id@ && card.deck_id@ == joker.deck_id@ && !reachable(edges@, joker.id@, card.id@) ==> match order {
            None => if next_joker_order(edges@, card.id@) > i64::MAX {
                internal(res)
            } else {
                res == Ok::<i64, AppError>(next_joker_order(edges@, card.id@) as i64)
            },
            Some(k) => if k < 1 {
                bad_request(res, "order must be at least 1"@)
            } else if order_in_use(edges@, card.id@, k as int) {
                bad_request(res, "order is already in use for this card"@)
            } else {
                res == Ok::<i64, AppError>(k)
            },
        },
        res matches Ok(k) ==> !order_in_use(edges@, card.id@, k as int),
{
    if string_eq(&card.id, &joker.id) {
        return Err(AppError::BadRequest(String::from_str("a card cannot depend on itself")));
    }
    if !string_eq(&card.deck_id, &joker.deck_id) {
        return Err(AppError::BadRequest(String::from_str("a joker must belong to the same deck as the card")));
    }
    let tree = tree_ids(edges, &joker.id);
    if crate::hand::contains_id(&tree, &card.id) {
        return Err(AppError::BadRequest(String::from_str("adding this joker would create a dependency cycle")));
    }
    let mut max: Option<i64> = None;
    let mut used = false;
    let mut i: usize = 0;
    while i < edges.len()
        invariant
            i <= edges.len(),
            max_joker_order(edges@.take(i as int), card.id@) == (match max {
                Some(m) => Some(m as int),
                None => None::<int>,
            }),
            order matches Some(k) ==> (used == exists|j: int|
                0 <= j < i && (#[trigger] edges@[j]).card_id@ == card.id@ && edges@[j].order == k),
        decreases edges.len() - i,
    {
        assert(edges@.take(i + 1).drop_last() =~= edges@.take(i as int));
        assert(edges@.take(i + 1).last() == edges@[i as int]);
        if string_eq(&edges[i].card_id, &card.id) {
            let o = edges[i].order;
            max = match max {
                Some(m) => if o > m {
                    Some(o)
                } else {
                    Some(m)
                },
                None => Some(o),
            };
            if let Some(k) = order {
                if o == k {
                    used = true;
                }
            }
        }
        i = i + 1;
    }
    assert(edges@.take(edges.len() as int) =~= edges@);
    proof {
        lemma_max_joker_order(edges@, card.id@);
    }
    match order {
        Some(k) => {
            if k < 1 {
                return Err(AppError::BadRequest(String::from_str("order must be at least 1")));
            }
            if used {
                return Err(AppError::BadRequest(String::from_str("order is already in use for this card")));
            }
            Ok(k)
        },
        None => match max {
            Some(m) => {
                if m == i64::MAX {
                    return Err(AppError::Internal(String::from_str("joker order out of range")));
                }
                proof {
                    if order_in_use(edges@, card.id@, m + 1) {
                        let q = choose|q: int| 0 <= q < edges.len() && (#[trigger] edges@[q]).card_id@ == card.id@
                            && edges@[q].order == m + 1;
                        assert(edges@[q].order <= m);
                    }
                }
                Ok(m + 1)
            },
            None => Ok(1),
        },
    }
}

/// The jokers of `id`, in edge order.
pub open spec fn children(edges: Seq<CardJoker>, id: Seq<char>) -> Seq<CardJoker> {
    edges.filter(|e: CardJoker| e.card_id@ == id)
}

/// `s` is the stack of card `id` with `fuel` levels: its card, and — while
/// fuel is left — one nested stack per joker edge of `id`, in edge order.
pub open spec fn stack_of(s: Stack, cards: Seq<Card>, edges: Seq<CardJoker>, id: Seq<char>, fuel: nat) -> bool
    decreases fuel,
{
    &&& s.card == card_by_id(cards, id)
    &&& if fuel == 0 {
        s.jokers@.len() == 0
    } else {
        &&& s.jokers@.len() == children(edges, id).len()
        &&& forall|k: int|
            0 <= k < s.jokers@.len() ==> stack_of(
                #[trigger] s.jokers@[k],
                cards,
                edges,
                children(edges, id)[k].joker_id@,
                (fuel - 1) as nat,
            )
    }
}

/// No level of the stack `s` of `id` was cut short: wherever its `fuel`
/// ran out, the card has no jokers left to show.
pub open spec fn uncut(s: Stack, edges: Seq<CardJoker>, id: Seq<char>, fuel: nat) -> bool
    decreases fuel,
{
    if fuel == 0 {
        children(edges, id).len() == 0
    } else {
        forall|k: int|
            0 <= k < s.jokers@.len() ==> uncut(
                #[trigger] s.jokers@[k],
                edges,
                children(edges, id)[k].joker_id@,
                (fuel - 1) as nat,
            )
    }
}

/// Each joker of `id` is the end of an edge from `id`.
proof fn lemma_child_edge(edges: Seq<CardJoker>, id: Seq<char>, k: int)
    requires
        0 <= k < children(edges, id).len(),
    ensures
        crate::jokers::has_edge(edges, id, children(edges, id)[k].joker_id@),
    decreases edges.len(),
{
    reveal_with_fuel(Seq::filter, 1);
    let rest = edges.drop_last();
    let last = edges.last();
    if last.card_id@ == id && k == children(rest, id).len() {
        assert(children(edges, id)[k] == last);
        assert(edges[edges.len() - 1].card_id@ == id);
    } else {
        assert(children(edges, id)[k] == children(rest, id)[k]);
        lemma_child_edge(rest, id, k);
        let i = choose|i: int| 0 <= i < rest.len() && #[trigger] rest[i].card_id@ == id && rest[i].joker_id@ == children(rest, id)[k].joker_id@;
        assert(edges[i] == rest[i]);
    }
}

/// A stack reached by the chain `p` from the root, with as much fuel left as
/// there are cards beyond the chain, is not cut: in a graph without cycles a
/// chain holds each card once, so it never reaches more cards than exist.
proof fn lemma_uncut(
    s: Stack,
    cards: Seq<Card>,
    edges: Seq<CardJoker>,
    root: Seq<char>,
    id: Seq<char>,
    p: Seq<Seq<char>>,
    fuel: nat,
)
    requires
        distinct_ids(cards),
        tree_present(cards, edges, root),
        acyclic(edges),
        walk(edges, root, id, p),
        p.len() + fuel == cards.len() + 1,
        stack_of(s, cards, edges, id, fuel),
    ensures
        uncut(s, edges, id, fuel),
    decreases fuel,
{
    if fuel == 0 {
        crate::jokers::lemma_acyclic_path_distinct(edges, p);
        let card_ids = cards.map_values(|c: Card| c.id@);
        assert(p.to_set().subset_of(card_ids.to_set())) by {
            assert forall|x: Seq<char>| p.to_set().contains(x) implies card_ids.to_set().contains(x) by {
                let k = choose|k: int| 0 <= k < p.len() && p[k] == x;
                crate::jokers::lemma_walk_prefix(edges, root, id, p, k);
                assert(has_card(cards, x));
                let j = choose|j: int| 0 <= j < cards.len() && #[trigger] cards[j].id@ == x;
                assert(card_ids[j] == x);
            }
        }
        p.unique_seq_to_set();
        card_ids.lemma_cardinality_of_set();
        vstd::set_lib::lemma_len_subset(p.to_set(), card_ids.to_set());
        assert(false);
    } else {
        assert forall|k: int| 0 <= k < s.jokers@.len() implies uncut(
            #[trigger] s.jokers@[k],
            edges,
            children(edges, id)[k].joker_id@,
            (fuel - 1) as nat,
        ) by {
            let e = children(edges, id)[k];
            lemma_child_edge(edges, id, k);
            crate::jokers::lemma_walk_append(edges, root, id, e.joker_id@, p);
            lemma_uncut(s.jokers@[k], cards, edges, root, e.joker_id@, p.push(e.joker_id@), (fuel - 1) as nat);
        }
    }
}

/// Every card of the tree of `root` exists.
pub open spec fn tree_present(cards: Seq<Card>, edges: Seq<CardJoker>, root: Seq<char>) -> bool {
    forall|v: Seq<char>| #[trigger] reachable(edges, root, v) ==> has_card(cards, v)
}

/// Nested {card, jokers} tree for `id`, `fuel` levels deep.
fn build_stack(cards: &Vec<Card>, edges: &Vec<CardJoker>, root: Ghost<Seq<char>>, id: &String, fuel: usize) -> (res: Stack)
    requires
        distinct_ids(cards@),
        tree_present(cards@, edges@, root@),
        reachable(edges@, root@, id@),
    ensures
        stack_of(res, cards@, edges@, id@, fuel as nat),
    decreases fuel,
{
    let k = match find_card(cards, id) {
        Some(k) => k,
        None => {
            assert(has_card(cards@, id@));
            return Stack { card: cards[0].copy(), jokers: Vec::new() };
        },
    };
    let card = cards[k].copy();
    let mut jokers: Vec<Stack> = Vec::new();
    if fuel == 0 {
        return Stack { card, jokers };
    }
    let ghost kids = children(edges@, id@);
    let mut i: usize = 0;
    while i < edges.len()
        invariant
            i <= edges.len(),
            fuel > 0,
            distinct_ids(cards@),
            tree_present(cards@, edges@, root@),
            reachable(edges@, root@, id@),
            jokers.len() == children(edges@.take(i as int), id@).len(),
            forall|m: int|
                0 <= m < jokers.len() ==> stack_of(
                    #[trigger] jokers@[m],
                    cards@,
                    edges@,
                    children(edges@.take(i as int), id@)[m].joker_id@,
                    (fuel - 1) as nat,
                ),
        decreases edges.len() - i,
    {
        reveal_with_fuel(Seq::filter, 1);
        assert(edges@.take(i + 1).drop_last() =~= edges@.take(i as int));
        assert(edges@.take(i + 1).last() == edges@[i as int]);
        if string_eq(&edges[i].card_id, id) {
            proof {
                let p = choose|p: Seq<Seq<char>>| #[trigger] crate::jokers::walk(edges@, root@, id@, p);
                assert(crate::jokers::has_edge(edges@, id@, edges@[i as int].joker_id@));
                crate::jokers::lemma_walk_append(edges@, root@, id@, edges@[i as int].joker_id@, p);
            }
            let sub = build_stack(cards, edges, root, &edges[i].joker_id, fuel - 1);
            jokers.push(sub);
        }
        i = i + 1;
    }
    assert(edges@.take(edges.len() as int) =~= edges@);
    Stack { card, jokers }
}

/// Whether some card has this id.
pub fn has_id(cards: &Vec<Card>, id: &String) -> (res: bool)
    ensures
        res == has_card(cards@, id@),
{
    let mut k: usize = 0;
    while k < cards.len()
        invariant
            k <= cards.len(),
            forall|j: int| 0 <= j < k ==> cards@[j].id@ != id@,
        decreases cards.len() - k,
    {
        if string_eq(&cards[k].id, id) {
            assert(cards@[k as int].id@ == id@);
            return true;
        }
        k = k + 1;
    }
    false
}

/// Whether no two cards share an id.
pub fn ids_distinct(cards: &Vec<Card>) -> (res: bool)
    ensures
        res == distinct_ids(cards@),
{
    let mut i: usize = 0;
    while i < cards.len()
        invariant
            i <= cards.len(),
            forall|a: int, b: int| 0 <= a < b < cards.len() && a < i ==> cards@[a].id@ != cards@[b].id@,
        decreases cards.len() - i,
    {
        let mut j: usize = i + 1;
        while j < cards.len()
            invariant
                i < cards.len(),
                i + 1 <= j <= cards.len(),
                forall|a: int, b: int| 0 <= a < b < cards.len() && a < i ==> cards@[a].id@ != cards@[b].id@,
                forall|b: int| i < b < j ==> cards@[i as int].id@ != cards@[b].id@,
            decreases cards.len() - j,
        {
            if string_eq(&cards[i].id, &cards[j].id) {
                return false;
            }
            j = j + 1;
        }
        i = i + 1;
    }
    true
}

/// Whether every card of the tree of `root` exists among `cards`.
pub fn tree_complete(cards: &Vec<Card>, edges: &Vec<CardJoker>, root: &String) -> (res: bool)
    ensures
        res == tree_present(cards@, edges@, root@),
{
    let t = tree_ids(edges, root);
    let mut i: usize = 0;
    while i < t.len()
        invariant
            i <= t.len(),
            forall|v: Seq<char>| ids(t@).contains(v) <==> reachable(edges@, root@, v),
            forall|k: int| 0 <= k < i ==> has_card(cards@, #[trigger] t@[k]@),
        decreases t.len() - i,
    {
        if !has_id(cards, &t[i]) {
            assert(ids(t@)[i as int] == t@[i as int]@);
            assert(ids(t@).contains(t@[i as int]@));
            return false;
        }
        i = i + 1;
    }
    assert forall|v: Seq<char>| #[trigger] reachable(edges@, root@, v) implies has_card(cards@, v) by {
        assert(ids(t@).contains(v));
        let k = choose|k: int| 0 <= k < ids(t@).len() && ids(t@)[k] == v;
        assert(t@[k]@ == v);
    }
    true
}

/// The edges of each card come in ascending `order`: the way the store lists
/// them (by card, then `order`).
pub open spec fn jokers_in_order(edges: Seq<CardJoker>) -> bool {
    forall|i: int, j: int|
        0 <= i < j < edges.len() && (#[trigger] edges[i]).card_id@ == (#[trigger] edges[j]).card_id@ ==> edges[i].order
            <= edges[j].order
}

/// Whether the edges of each card come in ascending `order`.
pub fn edges_in_order(edges: &Vec<CardJoker>) -> (res: bool)
    ensures
        res == jokers_in_order(edges@),
{
    let mut j: usize = 0;
    while j < edges.len()
        invariant
            j <= edges.len(),
            forall|a: int, b: int|
                0 <= a < b < j && (#[trigger] edges@[a]).card_id@ == (#[trigger] edges@[b]).card_id@ ==> edges@[a].order
                    <= edges@[b].order,
        decreases edges.len() - j,
    {
        let mut i: usize = 0;
        while i < j
            invariant
                j < edges.len(),
                i <= j,
                forall|a: int, b: int|
                    0 <= a < b < j && (#[trigger] edges@[a]).card_id@ == (#[trigger] edges@[b]).card_id@ ==> edges@[a].order
                        <= edges@[b].order,
                forall|a: int|
                    0 <= a < i && (#[trigger] edges@[a]).card_id@ == edges@[j as int].card_id@ ==> edges@[a].order
                        <= edges@[j as int].order,
            decreases j - i,
        {
            if string_eq(&edges[i].card_id, &edges[j].card_id) && edges[i].order > edges[j].order {
                return false;
            }
            i = i + 1;
        }
        j = j + 1;
    }
    true
}

/// The jokers of a card whose edges come in ascending `order` are listed in
/// ascending `order`; each is one of the edges, and starts at the card.
proof fn lemma_children_ascending(edges: Seq<CardJoker>, id: Seq<char>)
    requires
        jokers_in_order(edges),
    ensures
        forall|a: int|
            0 <= a < children(edges, id).len() ==> (#[trigger] children(edges, id)[a]).card_id@ == id && exists|i: int|
                0 <= i < edges.len() && edges[i] == children(edges, id)[a],
        forall|a: int, b: int|
            0 <= a < b < children(edges, id).len() ==> (#[trigger] children(edges, id)[a]).order <= (#[trigger] children(
                edges,
                id,
            )[b]).order,
    decreases edges.len(),
{
    reveal_with_fuel(Seq::filter, 1);
    if edges.len() > 0 {
        let rest = edges.drop_last();
        let last = edges.last();
        assert forall|i: int, j: int|
            0 <= i < j < rest.len() && (#[trigger] rest[i]).card_id@ == (#[trigger] rest[j]).card_id@ implies rest[i].order
                <= rest[j].order by {
            assert(rest[i] == edges[i] && rest[j] == edges[j]);
        }
        lemma_children_ascending(rest, id);
        let cr = children(rest, id);
        let c = children(edges, id);
        assert(c == (if last.card_id@ == id {
            cr.push(last)
        } else {
            cr
        }));
        assert forall|a: int| 0 <= a < c.len() implies (#[trigger] c[a]).card_id@ == id && exists|i: int|
            0 <= i < edges.len() && edges[i] == c[a] by {
            if a < cr.len() {
                assert(c[a] == cr[a]);
                let i = choose|i: int| 0 <= i < rest.len() && rest[i] == cr[a];
                assert(edges[i] == rest[i]);
            } else {
                assert(c[a] == last);
                assert(edges[edges.len() - 1] == last);
            }
        }
        assert forall|a: int, b: int| 0 <= a < b < c.len() implies (#[trigger] c[a]).order <= (#[trigger] c[b]).order by {
            if b < cr.len() {
                assert(c[a] == cr[a] && c[b] == cr[b]);
            } else {
                assert(c[a] == cr[a] && c[b] == last);
                assert(cr[a].card_id@ == id);
                let i = choose|i: int| 0 <= i < rest.len() && rest[i] == cr[a];
                assert(edges[i] == rest[i]);
                assert(edges[edges.len() - 1] == last);
                assert(edges[i].card_id@ == edges[edges.len() - 1].card_id@);
            }
        }
    }
}

/// Nested {card, jokers} tree for `root_id`, for API responses: each card with
/// its jokers in ascending `order` (the caller lists the edges by card and
/// `order`). The nesting is cut after as many levels as there are cards,
/// which no chain of a graph without cycles reaches.
pub fn fetch_stack(cards: &Vec<Card>, edges: &Vec<CardJoker>, root_id: &String) -> (res: Stack)
    requires
        distinct_ids(cards@),
        tree_present(cards@, edges@, root_id@),
        jokers_in_order(edges@),
    ensures
        stack_of(res, cards@, edges@, root_id@, cards.len() as nat),
        acyclic(edges@) ==> uncut(res, edges@, root_id@, cards.len() as nat),
        forall|id: Seq<char>, a: int, b: int|
            0 <= a < b < children(edges@, id).len() ==> (#[trigger] children(edges@, id)[a]).order <= (#[trigger] children(
                edges@,
                id,
            )[b]).order,
{
    proof {
        assert forall|id: Seq<char>, a: int, b: int| 0 <= a < b < children(edges@, id).len() implies (#[trigger] children(
            edges@,
            id,
        )[a]).order <= (#[trigger] children(edges@, id)[b]).order by {
            lemma_children_ascending(edges@, id);
        }
    }
    proof {
        crate::jokers::lemma_reachable_self(edges@, root_id@);
    }
    let res = build_stack(cards, edges, Ghost(root_id@), root_id, cards.len());
    proof {
        if acyclic(edges@) {
            assert(crate::jokers::walk(edges@, root_id@, root_id@, seq![root_id@]));
            lemma_uncut(res, cards@, edges@, root_id@, root_id@, seq![root_id@], cards.len() as nat);
        }
    }
    res
}

} // verus!
