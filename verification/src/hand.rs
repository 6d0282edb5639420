//! A deck's hand: up to five active cards, each holding a distinct priority
//! between 1 and 5. Dealing, drawing and reordering are decided here over the
//! priorities and card ids that the caller read from the store.
use vstd::prelude::*;

use crate::error::{bad_request, conflict, AppError};
use crate::models::Card;
use crate::text::{ids, str_eq, string_eq};

verus! {

/// The most cards a deck's hand may hold, and the highest priority.
pub const MAX_HAND_SIZE: usize = 5;

/// The priorities in `p..=5` that `used` does not hold, in ascending order.
pub open spec fn free_priorities_from(used: Seq<i64>, p: int) -> Seq<i64>
    decreases 6 - p,
{
    if p > MAX_HAND_SIZE as int || p < 1 {
        Seq::empty()
    } else if used.contains(p as i64) {
        free_priorities_from(used, p + 1)
    } else {
        seq![p as i64] + free_priorities_from(used, p + 1)
    }
}

/// The priorities in `1..=5` that `used` does not hold, in ascending order.
pub open spec fn free_priorities(used: Seq<i64>) -> Seq<i64> {
    free_priorities_from(used, 1)
}

pub open spec fn min_nat(a: nat, b: nat) -> nat {
    if a <= b { a } else { b }
}

/// The first `needed` free priorities (or all of them, if fewer are free).
pub open spec fn spec_available_priorities(used: Seq<i64>, needed: nat) -> Seq<i64> {
    free_priorities(used).take(min_nat(needed, free_priorities(used).len()) as int)
}

/// A hand is valid when every priority lies in `1..=5` and no two cards share one.
pub open spec fn valid_hand(ps: Seq<i64>) -> bool {
    &&& forall|i: int| 0 <= i < ps.len() ==> 1 <= #[trigger] ps[i] <= MAX_HAND_SIZE
    &&& ps.no_duplicates()
}

/// Strictly ascending, hence free of duplicates.
pub open spec fn ascending(ps: Seq<i64>) -> bool {
    forall|i: int, j: int| 0 <= i < j < ps.len() ==> ps[i] < ps[j]
}

proof fn lemma_free_from_facts(used: Seq<i64>, p: int)
    requires
        p >= 1,
    ensures
        ascending(free_priorities_from(used, p)),
        forall|k: int|
            0 <= k < free_priorities_from(used, p).len() ==> {
                &&& p <= #[trigger] free_priorities_from(used, p)[k] <= MAX_HAND_SIZE
                &&& 1 <= free_priorities_from(used, p)[k]
                &&& !used.contains(free_priorities_from(used, p)[k])
            },
        forall|q: i64|
            p <= q <= MAX_HAND_SIZE && 1 <= q && !used.contains(q)
                ==> #[trigger] free_priorities_from(used, p).contains(q),
    decreases 6 - p,
{
    if p > MAX_HAND_SIZE as int {
    } else {
        lemma_free_from_facts(used, p + 1);
        let rest = free_priorities_from(used, p + 1);
        if used.contains(p as i64) {
            assert(free_priorities_from(used, p) == rest);
            assert forall|q: i64|
                p <= q <= MAX_HAND_SIZE && 1 <= q && !used.contains(q) implies rest.contains(q) by {
                assert(q != p);
            }
        } else {
            let all = seq![p as i64] + rest;
            assert(all == free_priorities_from(used, p));
            assert forall|q: i64|
                p <= q <= MAX_HAND_SIZE && 1 <= q && !used.contains(q) implies all.contains(q) by {
                if q == p {
                    assert(all[0] == q);
                } else {
                    assert(rest.contains(q));
                    let k = choose|k: int| 0 <= k < rest.len() && rest[k] == q;
                    assert(all[k + 1] == q);
                }
            }
        }
    }
}

/// Every free priority lies in `1..=5`, is not used, and they ascend; every
/// unused priority in `1..=5` is listed.
pub proof fn lemma_free_priorities(used: Seq<i64>)
    ensures
        ascending(free_priorities(used)),
        forall|k: int|
            0 <= k < free_priorities(used).len() ==> {
                &&& 1 <= #[trigger] free_priorities(used)[k] <= MAX_HAND_SIZE
                &&& !used.contains(free_priorities(used)[k])
            },
        forall|q: i64|
            1 <= q <= MAX_HAND_SIZE && !used.contains(q) ==> #[trigger] free_priorities(
                used,
            ).contains(q),
{
    lemma_free_from_facts(used, 1);
}

/// The first `needed` priorities in `1..=5` that `used` does not hold, ascending.
pub fn available_priorities(used: &[i64], needed: usize) -> (res: Vec<i64>)
    ensures
        res@ == spec_available_priorities(used@, needed as nat),
{
    let mut res: Vec<i64> = Vec::new();
    let mut p: i64 = 1;
    while p <= MAX_HAND_SIZE as i64 && res.len() < needed
        invariant
            1 <= p <= MAX_HAND_SIZE + 1,
            res.len() <= needed,
            res@ + free_priorities_from(used@, p as int) == free_priorities(used@),
            res.len() < needed || p == MAX_HAND_SIZE + 1 || res@ == spec_available_priorities(used@, needed as nat),
        decreases MAX_HAND_SIZE + 1 - p,
    {
        let mut found = false;
        let mut i: usize = 0;
        while i < used.len()
            invariant
                i <= used.len(),
                found == (exists|k: int| 0 <= k < i && used@[k] == p),
            decreases used.len() - i,
        {
            if used[i] == p {
                found = true;
            }
            i = i + 1;
        }
        proof {
            assert(found == used@.contains(p));
        }
        let ghost before = res@;
        if !found {
            res.push(p);
            assert(res@ + free_priorities_from(used@, p as int + 1) == before + (seq![p] + free_priorities_from(used@, p as int + 1)));
        }
        p = p + 1;
    }
    proof {
        let free = free_priorities(used@);
        if p == MAX_HAND_SIZE + 1 {
            assert(free_priorities_from(used@, p as int) == Seq::<i64>::empty());
            assert(res@ == free);
        }
        assert(res@ =~= spec_available_priorities(used@, needed as nat));
    }
    res
}

/// Law: handing out available priorities to a valid hand keeps it valid — every
/// new priority lies in `1..=5`, no two cards share one.
pub proof fn lemma_available_keeps_hand_valid(used: Seq<i64>, needed: nat)
    requires
        valid_hand(used),
    ensures
        valid_hand(used + spec_available_priorities(used, needed)),
        spec_available_priorities(used, needed).len() <= needed,
{
    lemma_free_priorities(used);
    let avail = spec_available_priorities(used, needed);
    let all = used + avail;
    assert forall|i: int, j: int| 0 <= i < all.len() && 0 <= j < all.len() && i != j implies all[i]
        != all[j] by {
        if i >= used.len() && j >= used.len() {
            if i < j {
                assert(avail[i - used.len()] < avail[j - used.len()]);
            } else {
                assert(avail[j - used.len()] < avail[i - used.len()]);
            }
        } else if i >= used.len() {
            assert(!used.contains(avail[i - used.len()]));
            assert(used[j] == all[j]);
        } else if j >= used.len() {
            assert(!used.contains(avail[j - used.len()]));
            assert(used[i] == all[i]);
        }
    }
    assert forall|i: int| 0 <= i < all.len() implies 1 <= #[trigger] all[i] <= MAX_HAND_SIZE by {
        if i >= used.len() {
            assert(free_priorities(used)[i - used.len()] == avail[i - used.len()]);
        }
    }
}

/// How many cards a deal may still add to a hand of `hand_size` cards.
pub fn open_slots(hand_size: usize) -> (res: usize)
    ensures
        res == if hand_size >= MAX_HAND_SIZE { 0 } else { MAX_HAND_SIZE - hand_size },
{
    MAX_HAND_SIZE.saturating_sub(hand_size)
}

/// Deals pile cards into the hand: `candidates` are the pile cards picked at
/// random (at most `open_slots(used.len())` of them), and each receives the
/// next available priority, in order, as long as one is free.
pub fn deal_hand(used: &[i64], candidates: &Vec<String>) -> (res: Vec<(String, i64)>)
    ensures
        res.len() == spec_available_priorities(used@, candidates.len() as nat).len(),
        forall|i: int|
            0 <= i < res.len() ==> {
                &&& (#[trigger] res@[i]).0@ == candidates@[i]@
                &&& res@[i].1 == spec_available_priorities(used@, candidates.len() as nat)[i]
            },
{
    let priorities = available_priorities(used, candidates.len());
    let mut res: Vec<(String, i64)> = Vec::new();
    let mut i: usize = 0;
    while i < priorities.len()
        invariant
            i <= priorities.len(),
            priorities.len() <= candidates.len(),
            priorities@ == spec_available_priorities(used@, candidates.len() as nat),
            res.len() == i,
            forall|k: int|
                0 <= k < i ==> {
                    &&& (#[trigger] res@[k]).0@ == candidates@[k]@
                    &&& res@[k].1 == priorities@[k]
                },
        decreases priorities.len() - i,
    {
        res.push((candidates[i].clone(), priorities[i]));
        i = i + 1;
    }
    res
}

/// Law: a deal never breaks the hand: from a valid hand, the hand after the
/// deal is valid and holds no more than five cards.
pub proof fn lemma_deal_keeps_hand_valid(used: Seq<i64>, candidates: nat)
    requires
        valid_hand(used),
    ensures
        valid_hand(used + spec_available_priorities(used, candidates)),
        (used + spec_available_priorities(used, candidates)).len() <= MAX_HAND_SIZE,
{
    lemma_available_keeps_hand_valid(used, candidates);
    lemma_valid_hand_at_most_five(used + spec_available_priorities(used, candidates));
}

/// Draws one pile card into the hand: the card must exist in the deck and lie
/// in the pile, and it takes the lowest free priority; with none free the hand
/// is full.
pub fn draw_priority(card: Option<&Card>, used: &[i64]) -> (res: Result<i64, AppError>)
    ensures
        card is None ==> res == Err::<i64, AppError>(AppError::NotFound),
        card matches Some(c) && c.status@ != "pile"@ ==> bad_request(res, "card is not in the pile"@),
        card matches Some(c) && c.status@ == "pile"@ && free_priorities(used@).len() == 0
            ==> conflict(res, "hand is full"@),
        card matches Some(c) && c.status@ == "pile"@ && free_priorities(used@).len() > 0
            ==> res == Ok::<i64, AppError>(free_priorities(used@)[0]),
{
    match card {
        None => Err(AppError::NotFound),
        Some(c) => {
            if !str_eq(c.status.as_str(), "pile") {
                return Err(AppError::BadRequest(String::from_str("card is not in the pile")));
            }
            let ps = available_priorities(used, 1);
            if ps.len() == 0 {
                Err(AppError::Conflict(String::from_str("hand is full")))
            } else {
                Ok(ps[0])
            }
        },
    }
}

/// Law: a draw into a valid hand keeps it valid.
pub proof fn lemma_draw_keeps_hand_valid(used: Seq<i64>)
    requires
        valid_hand(used),
        free_priorities(used).len() > 0,
    ensures
        valid_hand(used.push(free_priorities(used)[0])),
        used.push(free_priorities(used)[0]).len() <= MAX_HAND_SIZE,
{
    lemma_available_keeps_hand_valid(used, 1);
    assert(spec_available_priorities(used, 1) =~= seq![free_priorities(used)[0]]);
    assert(used + seq![free_priorities(used)[0]] =~= used.push(free_priorities(used)[0]));
    lemma_valid_hand_at_most_five(used.push(free_priorities(used)[0]));
}

/// The shape check that a reorder request passes before the hand is read:
/// between 1 and 5 ids, none repeated.
pub fn check_reorder_request(order: &Vec<String>) -> (res: Result<(), AppError>)
    ensures
        res is Ok <==> (1 <= order.len() <= MAX_HAND_SIZE && ids(order@).no_duplicates()),
        !(1 <= order.len() <= MAX_HAND_SIZE) ==> bad_request(res, "order must contain between 1 and 5 card ids"@),
        1 <= order.len() <= MAX_HAND_SIZE && !ids(order@).no_duplicates() ==> bad_request(res, "order contains duplicate card ids"@),
{
    if order.len() == 0 || order.len() > MAX_HAND_SIZE {
        return Err(AppError::BadRequest(String::from_str("order must contain between 1 and 5 card ids")));
    }
    let mut i: usize = 0;
    while i < order.len()
        invariant
            i <= order.len(),
            1 <= order.len() <= MAX_HAND_SIZE,
            forall|a: int, b: int| 0 <= a < i && 0 <= b < order.len() && a != b ==> ids(order@)[a] != ids(order@)[b],
        decreases order.len() - i,
    {
        let mut j: usize = 0;
        while j < order.len()
            invariant
                i < order.len(),
                1 <= order.len() <= MAX_HAND_SIZE,
                j <= order.len(),
                forall|a: int, b: int| 0 <= a < i && 0 <= b < order.len() && a != b ==> ids(order@)[a] != ids(order@)[b],
                forall|b: int| 0 <= b < j && i != b ==> ids(order@)[i as int] != ids(order@)[b],
            decreases order.len() - j,
        {
            if i != j && string_eq(&order[i], &order[j]) {
                assert(ids(order@)[i as int] == order@[i as int]@);
                assert(ids(order@)[j as int] == order@[j as int]@);
                assert(!ids(order@).no_duplicates());
                return Err(AppError::BadRequest(String::from_str("order contains duplicate card ids")));
            }
            j = j + 1;
        }
        i = i + 1;
    }
    Ok(())
}

/// Whether the id `s` occurs among `v`.
pub fn contains_id(v: &Vec<String>, s: &String) -> (res: bool)
    ensures
        res == ids(v@).contains(s@),
{
    let mut i: usize = 0;
    while i < v.len()
        invariant
            i <= v.len(),
            forall|k: int| 0 <= k < i ==> ids(v@)[k] != s@,
        decreases v.len() - i,
    {
        if string_eq(&v[i], s) {
            assert(ids(v@)[i as int] == s@);
            return true;
        }
        i = i + 1;
    }
    false
}

/// Reorders the hand: the request must hold between 1 and 5 ids, none
/// repeated (see `check_reorder_request`), and they must be exactly the
/// deck's current hand (as sets) — the roots of its stacks, which hold the
/// priorities; a stack moves with its root. Card `order[i]` then takes
/// priority `i + 1`.
pub fn reorder_hand(order: &Vec<String>, hand_ids: &Vec<String>) -> (res: Result<
    Vec<(String, i64)>,
    AppError,
>)
    ensures
        !(1 <= order.len() <= MAX_HAND_SIZE) ==> bad_request(res, "order must contain between 1 and 5 card ids"@),
        1 <= order.len() <= MAX_HAND_SIZE && !ids(order@).no_duplicates() ==> bad_request(res, "order contains duplicate card ids"@),
        1 <= order.len() <= MAX_HAND_SIZE && ids(order@).no_duplicates() && ids(order@).to_set() != ids(hand_ids@).to_set()
            ==> bad_request(res, "order must contain exactly the deck's current hand"@),
        res is Ok <==> (1 <= order.len() <= MAX_HAND_SIZE && ids(order@).no_duplicates() && ids(order@).to_set()
            == ids(hand_ids@).to_set()),
        res matches Ok(plan) ==> plan.len() == order.len() && forall|i: int|
            0 <= i < plan.len() ==> (#[trigger] plan@[i]).0@ == order@[i]@ && plan@[i].1 == i + 1,
{
    match check_reorder_request(order) {
        Ok(()) => {},
        Err(e) => return Err(e),
    }
    let mut same = true;
    let mut i: usize = 0;
    while i < order.len()
        invariant
            i <= order.len(),
            same == (forall|k: int| 0 <= k < i ==> ids(hand_ids@).contains(#[trigger] ids(order@)[k])),
        decreases order.len() - i,
    {
        let c = contains_id(hand_ids, &order[i]);
        assert(ids(order@)[i as int] == order@[i as int]@);
        same = same && c;
        i = i + 1;
    }
    let mut j: usize = 0;
    while j < hand_ids.len()
        invariant
            j <= hand_ids.len(),
            same == ((forall|k: int| 0 <= k < order.len() ==> ids(hand_ids@).contains(#[trigger] ids(order@)[k]))
                && (forall|k: int| 0 <= k < j ==> ids(order@).contains(#[trigger] ids(hand_ids@)[k]))),
        decreases hand_ids.len() - j,
    {
        let c = contains_id(order, &hand_ids[j]);
        assert(ids(hand_ids@)[j as int] == hand_ids@[j as int]@);
        same = same && c;
        j = j + 1;
    }
    proof {
        let a = ids(order@);
        let b = ids(hand_ids@);
        if same {
            assert forall|x: Seq<char>| a.to_set().contains(x) <==> b.to_set().contains(x) by {
                if a.contains(x) {
                    let k = choose|k: int| 0 <= k < a.len() && a[k] == x;
                    assert(b.contains(a[k]));
                }
                if b.contains(x) {
                    let k = choose|k: int| 0 <= k < b.len() && b[k] == x;
                    assert(a.contains(b[k]));
                }
            }
            assert(a.to_set() =~= b.to_set());
        } else {
            if exists|k: int| 0 <= k < order.len() && !b.contains(#[trigger] a[k]) {
                let k = choose|k: int| 0 <= k < order.len() && !b.contains(#[trigger] a[k]);
                assert(a.to_set().contains(a[k]));
                assert(!b.to_set().contains(a[k]));
            } else {
                let k = choose|k: int| 0 <= k < hand_ids.len() && !a.contains(#[trigger] b[k]);
                assert(b.to_set().contains(b[k]));
                assert(!a.to_set().contains(b[k]));
            }
        }
    }
    if !same {
        return Err(AppError::BadRequest(String::from_str("order must contain exactly the deck's current hand")));
    }
    let mut plan: Vec<(String, i64)> = Vec::new();
    let mut k: usize = 0;
    while k < order.len()
        invariant
            k <= order.len() <= MAX_HAND_SIZE,
            plan.len() == k,
            forall|i: int| 0 <= i < k ==> (#[trigger] plan@[i]).0@ == order@[i]@ && plan@[i].1 == i + 1,
        decreases order.len() - k,
    {
        plan.push((order[k].clone(), (k + 1) as i64));
        k = k + 1;
    }
    Ok(plan)
}

/// Law: the priorities a reorder hands out form a valid hand: `1..=n`, distinct.
pub proof fn lemma_reorder_hand_valid(plan: Seq<(String, i64)>)
    requires
        plan.len() <= MAX_HAND_SIZE,
        forall|i: int| 0 <= i < plan.len() ==> (#[trigger] plan[i]).1 == i + 1,
    ensures
        valid_hand(plan.map_values(|e: (String, i64)| e.1)),
{
    let ps = plan.map_values(|e: (String, i64)| e.1);
    assert forall|i: int, j: int| 0 <= i < ps.len() && 0 <= j < ps.len() && i != j implies ps[i] != ps[j] by {
        assert(ps[i] == plan[i].1);
        assert(ps[j] == plan[j].1);
    }
    assert forall|i: int| 0 <= i < ps.len() implies 1 <= #[trigger] ps[i] <= MAX_HAND_SIZE by {
        assert(ps[i] == plan[i].1);
    }
}

/// Law: completing (or returning) the root of a stack frees its slot. Once
/// the card holding priority `used[k]` leaves the hand, that priority is
/// free again, and the rest of the hand stays valid.
pub proof fn lemma_leaving_frees_slot(used: Seq<i64>, k: int)
    requires
        valid_hand(used),
        0 <= k < used.len(),
    ensures
        free_priorities(used.remove(k)).contains(used[k]),
        valid_hand(used.remove(k)),
{
    let rest = used.remove(k);
    let p = used[k];
    assert(!rest.contains(p)) by {
        if rest.contains(p) {
            let j = choose|j: int| 0 <= j < rest.len() && rest[j] == p;
            if j < k {
                assert(used[j] == p);
            } else {
                assert(used[j + 1] == p);
            }
        }
    }
    lemma_free_priorities(rest);
    assert(free_priorities(rest).contains(p));
    assert forall|i: int, j: int| 0 <= i < rest.len() && 0 <= j < rest.len() && i != j implies rest[i] != rest[j] by {
        let a = if i < k { i } else { i + 1 };
        let b = if j < k { j } else { j + 1 };
        assert(rest[i] == used[a] && rest[j] == used[b]);
    }
    assert forall|i: int| 0 <= i < rest.len() implies 1 <= #[trigger] rest[i] <= MAX_HAND_SIZE by {
        let a = if i < k { i } else { i + 1 };
        assert(rest[i] == used[a]);
    }
}

/// The five priorities.
pub open spec fn all_priorities() -> Seq<i64> {
    seq![1i64, 2i64, 3i64, 4i64, 5i64]
}

proof fn lemma_all_priorities_set()
    ensures
        all_priorities().to_set().len() == MAX_HAND_SIZE,
        all_priorities().to_set().finite(),
        forall|q: i64| #![trigger all_priorities().to_set().contains(q)] all_priorities().to_set().contains(q) <==> 1 <= q <= MAX_HAND_SIZE,
{
    let a = all_priorities();
    assert forall|q: i64| #![trigger a.to_set().contains(q)] a.to_set().contains(q) <==> 1 <= q <= MAX_HAND_SIZE by {
        if 1 <= q <= 5 {
            assert(a[q - 1] == q);
        }
    }
    assert(a.no_duplicates());
    a.unique_seq_to_set();
}

/// Law: a valid hand never holds more than five cards.
pub proof fn lemma_valid_hand_at_most_five(ps: Seq<i64>)
    requires
        valid_hand(ps),
    ensures
        ps.len() <= MAX_HAND_SIZE,
{
    lemma_all_priorities_set();
    assert(ps.to_set().subset_of(all_priorities().to_set())) by {
        assert forall|q: i64| ps.to_set().contains(q) implies all_priorities().to_set().contains(q) by {
            let k = choose|k: int| 0 <= k < ps.len() && ps[k] == q;
            assert(1 <= ps[k] <= MAX_HAND_SIZE);
        }
    }
    vstd::set_lib::lemma_len_subset(ps.to_set(), all_priorities().to_set());
    ps.unique_seq_to_set();
}

/// Law: for a valid hand, no priority is free exactly when the hand holds
/// five cards — so a draw is refused as "hand is full" exactly then.
pub proof fn lemma_full_hand(ps: Seq<i64>)
    requires
        valid_hand(ps),
    ensures
        free_priorities(ps).len() == 0 <==> ps.len() == MAX_HAND_SIZE,
{
    lemma_free_priorities(ps);
    lemma_all_priorities_set();
    lemma_valid_hand_at_most_five(ps);
    ps.unique_seq_to_set();
    if free_priorities(ps).len() == 0 {
        // every priority is used: the hand's set holds all five
        assert(all_priorities().to_set().subset_of(ps.to_set())) by {
            assert forall|q: i64| all_priorities().to_set().contains(q) implies ps.to_set().contains(q) by {
                if !ps.contains(q) {
                    assert(free_priorities(ps).contains(q));
                }
            }
        }
        ps.lemma_cardinality_of_set();
        vstd::set_lib::lemma_len_subset(all_priorities().to_set(), ps.to_set());
    } else {
        // some priority is free, so the hand's set misses it
        let q = free_priorities(ps)[0];
        assert(!ps.contains(q));
        assert(ps.to_set().subset_of(all_priorities().to_set().remove(q))) by {
            assert forall|x: i64| ps.to_set().contains(x) implies all_priorities().to_set().remove(q).contains(x) by {
                let k = choose|k: int| 0 <= k < ps.len() && ps[k] == x;
                assert(1 <= ps[k] <= MAX_HAND_SIZE);
            }
        }
        assert(all_priorities().to_set().contains(q));
        vstd::set_lib::lemma_len_subset(ps.to_set(), all_priorities().to_set().remove(q));
    }
}

} // verus!
