use vstd::prelude::*;

use crate::card::{cards_of_type, hand_cards, spec_hand_cards, HandCard, HandCardType};
use crate::wonder::Wonder;
use crate::ordered::{is_sorted, SortKey};

verus! {

broadcast use {vstd::seq_lib::group_to_multiset_ensures, vstd::multiset::group_multiset_axioms};

/// Puts `x` into the sorted list `v`, after the cards that do not come later.
fn sorted_insert<T: SortKey>(v: &mut Vec<T>, x: T)
    requires
        is_sorted(old(v)@),
    ensures
        is_sorted(final(v)@),
        final(v)@.to_multiset() == old(v)@.to_multiset().insert(x),
{
    let mut i: usize = 0;
    let k = x.order_exec();
    while i < v.len()
        invariant
            i <= v@.len(),
            *v == *old(v),
            is_sorted(v@),
            k == x.order(),
            forall|j: int| 0 <= j < i ==> (#[trigger] v@[j]).order() <= x.order(),
        ensures
            i <= v@.len(),
            *v == *old(v),
            is_sorted(v@),
            forall|j: int| 0 <= j < i ==> (#[trigger] v@[j]).order() <= x.order(),
            i < v@.len() ==> v@[i as int].order() > x.order(),
        decreases v@.len() - i,
    {
        let o = v[i].order_exec();
        if o > k {
            break;
        }
        i = i + 1;
    }
    proof {
        vstd::seq_lib::to_multiset_insert(v@, i as int, x);
    }
    let ghost before = v@;
    v.insert(i, x);
    proof {
        assert(v@ == before.insert(i as int, x));
        assert forall|a: int, b: int| 0 <= a < b < v@.len() implies #[trigger] v@[a].order()
            <= #[trigger] v@[b].order() by {
            if b < i {
                assert(v@[a] == before[a] && v@[b] == before[b]);
            } else if b == i {
                assert(v@[a] == before[a]);
            } else if a == i {
                assert(v@[b] == before[b - 1]);
                assert(before[i as int].order() <= before[b - 1].order());
            } else if a < i {
                assert(v@[a] == before[a] && v@[b] == before[b - 1]);
            } else {
                assert(v@[a] == before[a - 1] && v@[b] == before[b - 1]);
            }
        }
    }
}

/// The cards of `v` in order: `v` sorted.
pub fn sort_cards<T: SortKey>(v: &Vec<T>) -> (r: Vec<T>)
    ensures
        is_sorted(r@),
        r@.to_multiset() == v@.to_multiset(),
{
    let mut r: Vec<T> = Vec::new();
    let mut i: usize = 0;
    proof {
        assert(v@.take(0) =~= Seq::<T>::empty());
    }
    while i < v.len()
        invariant
            i <= v@.len(),
            is_sorted(r@),
            r@.to_multiset() == v@.take(i as int).to_multiset(),
        decreases v@.len() - i,
    {
        sorted_insert(&mut r, v[i]);
        proof {
            assert(v@.take(i as int + 1) =~= v@.take(i as int).push(v@[i as int]));
            vstd::seq_lib::to_multiset_build(v@.take(i as int), v@[i as int]);
        }
        i = i + 1;
    }
    proof {
        assert(v@.take(i as int) =~= v@);
    }
    r
}

/// Removes the first copy of `x` from `v`, which holds it.
fn remove_card<T: SortKey>(v: &mut Vec<T>, x: T)
    requires
        old(v)@.contains(x),
    ensures
        final(v)@.to_multiset() == old(v)@.to_multiset().remove(x),
{
    let mut i: usize = 0;
    let k = x.order_exec();
    while i < v.len()
        invariant
            i <= v@.len(),
            *v == *old(v),
            v@.contains(x),
            k == x.order(),
            forall|j: int| 0 <= j < i ==> (#[trigger] v@[j]) != x,
        ensures
            i <= v@.len(),
            *v == *old(v),
            forall|j: int| 0 <= j < i ==> (#[trigger] v@[j]) != x,
            i < v@.len() ==> v@[i as int].order() == x.order(),
        decreases v@.len() - i,
    {
        let o = v[i].order_exec();
        if o == k {
            break;
        }
        proof {
            if v@[i as int] == x {
                assert(o == k);
            }
        }
        i = i + 1;
    }
    if i < v.len() {
        proof {
            T::lemma_order_injective(v@[i as int], x);
            vstd::seq_lib::to_multiset_remove(v@, i as int);
        }
        v.remove(i);
    }
}

/// A player's hand of cards.
pub struct Hand {
    pub action_cards: Vec<u8>,
    pub objective_cards: Vec<u8>,
    pub wonder_cards: Vec<Wonder>,
}

/// The cards of a hand, kind after kind.
pub open spec fn hand_seq(h: Hand) -> Seq<HandCard> {
    spec_hand_cards(
        seq![HandCardType::Action, HandCardType::Objective, HandCardType::Wonder],
        h.action_cards@,
        h.objective_cards@,
        h.wonder_cards@,
    )
}

/// The first card of `cards` that is among `swap`.
pub open spec fn first_selected(cards: Seq<HandCard>, swap: Seq<HandCard>) -> Option<HandCard>
    decreases cards.len(),
{
    if cards.len() == 0 {
        None
    } else if swap.contains(cards[0]) {
        Some(cards[0])
    } else {
        first_selected(cards.drop_first(), swap)
    }
}

/// Why a swap of cards is refused.
#[derive(Clone, Copy, Debug, PartialEq, Eq, Structural)]
pub enum SwapError {
    MustSelectTwo,
    CardNotFound,
    WrongCardType,
}

/// The first card of `cards` that is among `swap`.
fn find_selected(cards: &Vec<HandCard>, swap: &[HandCard]) -> (r: Option<HandCard>)
    ensures
        r == first_selected(cards@, swap@),
{
    let mut i: usize = 0;
    proof {
        assert(cards@.skip(0) =~= cards@);
    }
    while i < cards.len()
        invariant
            i <= cards@.len(),
            first_selected(cards@, swap@) == first_selected(cards@.skip(i as int), swap@),
        decreases cards@.len() - i,
    {
        let c = cards[i];
        let mut k: usize = 0;
        let mut found = false;
        while k < swap.len()
            invariant
                k <= swap@.len(),
                found == exists|j: int| 0 <= j < k && swap@[j] == c,
            decreases swap@.len() - k,
        {
            if swap[k] == c {
                found = true;
            }
            k = k + 1;
        }
        if found {
            return Some(c);
        }
        proof {
            assert(cards@.skip(i as int).drop_first() =~= cards@.skip(i as int + 1));
        }
        i = i + 1;
    }
    None
}

/// `after` is `before` with `gone` exchanged for `got` and sorted.
pub open spec fn exchanged<T: SortKey>(before: Seq<T>, after: Seq<T>, gone: T, got: T) -> bool {
    is_sorted(after) && after.to_multiset() == before.to_multiset().remove(gone).insert(got)
}

/// Exchanges `ours` for `theirs` between two card lists that hold them; both are sorted after.
fn swap_card<T: SortKey>(mine: &mut Vec<T>, other: &mut Vec<T>, ours: T, theirs: T)
    requires
        old(mine)@.contains(ours),
        old(other)@.contains(theirs),
    ensures
        exchanged(old(mine)@, final(mine)@, ours, theirs),
        exchanged(old(other)@, final(other)@, theirs, ours),
{
    remove_card(mine, ours);
    remove_card(other, theirs);
    other.push(ours);
    proof {
        vstd::seq_lib::to_multiset_build(other@.drop_last(), ours);
        assert(other@.drop_last().push(ours) =~= other@);
    }
    let sorted_other = sort_cards(other);
    *other = sorted_other;
    mine.push(theirs);
    proof {
        vstd::seq_lib::to_multiset_build(mine@.drop_last(), theirs);
        assert(mine@.drop_last().push(theirs) =~= mine@);
    }
    let sorted_mine = sort_cards(mine);
    *mine = sorted_mine;
}

/// Two hands hold the same cards in the same order.
pub open spec fn same_hand(a: Hand, b: Hand) -> bool {
    &&& a.action_cards@ == b.action_cards@
    &&& a.objective_cards@ == b.objective_cards@
    &&& a.wonder_cards@ == b.wonder_cards@
}

/// `after` is `before` with card `gone` given away for card `got` of the same kind: that kind's
/// list exchanges them and is sorted; the other lists stay.
pub open spec fn hand_exchanged(before: Hand, after: Hand, gone: HandCard, got: HandCard) -> bool {
    match (gone, got) {
        (HandCard::ActionCard(a), HandCard::ActionCard(b)) => exchanged(
            before.action_cards@,
            after.action_cards@,
            a,
            b,
        ) && after.objective_cards@ == before.objective_cards@ && after.wonder_cards@
            == before.wonder_cards@,
        (HandCard::ObjectiveCard(a), HandCard::ObjectiveCard(b)) => exchanged(
            before.objective_cards@,
            after.objective_cards@,
            a,
            b,
        ) && after.action_cards@ == before.action_cards@ && after.wonder_cards@
            == before.wonder_cards@,
        (HandCard::Wonder(a), HandCard::Wonder(b)) => exchanged(
            before.wonder_cards@,
            after.wonder_cards@,
            a,
            b,
        ) && after.action_cards@ == before.action_cards@ && after.objective_cards@
            == before.objective_cards@,
        _ => false,
    }
}

/// The kind of a card.
pub open spec fn kind_of(c: HandCard) -> HandCardType {
    match c {
        HandCard::ActionCard(_) => HandCardType::Action,
        HandCard::ObjectiveCard(_) => HandCardType::Objective,
        HandCard::Wonder(_) => HandCardType::Wonder,
    }
}

/// The card found first is one of the cards.
pub proof fn lemma_first_selected_contained(cards: Seq<HandCard>, swap: Seq<HandCard>)
    ensures
        first_selected(cards, swap) matches Some(c) ==> cards.contains(c),
    decreases cards.len(),
{
    if cards.len() > 0 && !swap.contains(cards[0]) {
        lemma_first_selected_contained(cards.drop_first(), swap);
        if first_selected(cards, swap) is Some {
            let c = first_selected(cards, swap)->0;
            let k = choose|k: int| 0 <= k < cards.drop_first().len() && cards.drop_first()[k] == c;
            assert(cards[k + 1] == c);
        }
    }
}

/// A card of a hand is in the list of its kind.
pub proof fn lemma_hand_card_in_list(h: Hand, c: HandCard)
    requires
        hand_seq(h).contains(c),
    ensures
        c matches HandCard::ActionCard(id) ==> h.action_cards@.contains(id),
        c matches HandCard::ObjectiveCard(id) ==> h.objective_cards@.contains(id),
        c matches HandCard::Wonder(w) ==> h.wonder_cards@.contains(w),
{
    let t = seq![HandCardType::Action, HandCardType::Objective, HandCardType::Wonder];
    let a = cards_of_type(HandCardType::Action, h.action_cards@, h.objective_cards@, h.wonder_cards@);
    let o = cards_of_type(HandCardType::Objective, h.action_cards@, h.objective_cards@, h.wonder_cards@);
    let w = cards_of_type(HandCardType::Wonder, h.action_cards@, h.objective_cards@, h.wonder_cards@);
    assert(t.drop_last().drop_last().drop_last() =~= Seq::<HandCardType>::empty());
    assert(t.drop_last().drop_last() =~= seq![HandCardType::Action]);
    assert(t.drop_last() =~= seq![HandCardType::Action, HandCardType::Objective]);
    reveal_with_fuel(spec_hand_cards, 4);
    assert(spec_hand_cards(t.drop_last().drop_last().drop_last(), h.action_cards@, h.objective_cards@, h.wonder_cards@) =~= Seq::<HandCard>::empty());
    assert(spec_hand_cards(t.drop_last().drop_last(), h.action_cards@, h.objective_cards@, h.wonder_cards@) =~= a);
    assert(spec_hand_cards(t.drop_last(), h.action_cards@, h.objective_cards@, h.wonder_cards@) =~= a + o);
    assert(hand_seq(h) =~= a + o + w);
    let k = choose|k: int| 0 <= k < hand_seq(h).len() && hand_seq(h)[k] == c;
    if k < a.len() {
        assert(h.action_cards@[k] == match c { HandCard::ActionCard(id) => id, _ => 0u8 });
    } else if k < a.len() + o.len() {
        assert(h.objective_cards@[k - a.len()] == match c {
            HandCard::ObjectiveCard(id) => id,
            _ => 0u8,
        });
    } else {
        let j = k - a.len() - o.len();
        assert(w[j] == c);
    }
}

/// Swaps one card of `ours` for one card of `theirs`, as the spy does. An empty selection
/// declines the swap (`Ok(None)`); otherwise exactly two cards must be selected, one found
/// in each hand (the first card of each hand, kind after kind, that is selected), of the
/// same kind. Then the two cards change hands, the lists of that kind are sorted, and the
/// kind is returned.
pub fn swap_cards(ours: &mut Hand, theirs: &mut Hand, swap: &[HandCard]) -> (r: Result<
    Option<HandCardType>,
    SwapError,
>)
    ensures
        ({
            let a = first_selected(hand_seq(*old(ours)), swap@);
            let b = first_selected(hand_seq(*old(theirs)), swap@);
            if swap@.len() == 0 {
                r == Ok::<Option<HandCardType>, SwapError>(None)
            } else if swap@.len() != 2 {
                r == Err::<Option<HandCardType>, SwapError>(SwapError::MustSelectTwo)
            } else if a is None || b is None {
                r == Err::<Option<HandCardType>, SwapError>(SwapError::CardNotFound)
            } else if kind_of(a->0) != kind_of(b->0) {
                r == Err::<Option<HandCardType>, SwapError>(SwapError::WrongCardType)
            } else {
                r == Ok::<Option<HandCardType>, SwapError>(Some(kind_of(a->0)))
            }
        }),
        r matches Ok(Some(_)) ==> hand_exchanged(
            *old(ours),
            *final(ours),
            first_selected(hand_seq(*old(ours)), swap@)->0,
            first_selected(hand_seq(*old(theirs)), swap@)->0,
        ) && hand_exchanged(
            *old(theirs),
            *final(theirs),
            first_selected(hand_seq(*old(theirs)), swap@)->0,
            first_selected(hand_seq(*old(ours)), swap@)->0,
        ),
        !(r matches Ok(Some(_))) ==> same_hand(*final(ours), *old(ours)) && same_hand(
            *final(theirs),
            *old(theirs),
        ),
{
    if swap.len() == 0 {
        return Ok(None);
    }
    if swap.len() != 2 {
        return Err(SwapError::MustSelectTwo);
    }
    let all = HandCardType::get_all();
    let our_cards = hand_cards(&ours.action_cards, &ours.objective_cards, &ours.wonder_cards, &all);
    let their_cards = hand_cards(
        &theirs.action_cards,
        &theirs.objective_cards,
        &theirs.wonder_cards,
        &all,
    );
    assert(our_cards@ == hand_seq(*ours));
    assert(their_cards@ == hand_seq(*theirs));
    let a = match find_selected(&our_cards, swap) {
        Some(c) => c,
        None => return Err(SwapError::CardNotFound),
    };
    let b = match find_selected(&their_cards, swap) {
        Some(c) => c,
        None => return Err(SwapError::CardNotFound),
    };
    proof {
        lemma_first_selected_contained(hand_seq(*ours), swap@);
        lemma_first_selected_contained(hand_seq(*theirs), swap@);
        lemma_hand_card_in_list(*ours, a);
        lemma_hand_card_in_list(*theirs, b);
    }
    match (a, b) {
        (HandCard::ActionCard(x), HandCard::ActionCard(y)) => {
            swap_card(&mut ours.action_cards, &mut theirs.action_cards, x, y);
            Ok(Some(HandCardType::Action))
        },
        (HandCard::ObjectiveCard(x), HandCard::ObjectiveCard(y)) => {
            swap_card(&mut ours.objective_cards, &mut theirs.objective_cards, x, y);
            Ok(Some(HandCardType::Objective))
        },
        (HandCard::Wonder(x), HandCard::Wonder(y)) => {
            swap_card(&mut ours.wonder_cards, &mut theirs.wonder_cards, x, y);
            Ok(Some(HandCardType::Wonder))
        },
        _ => Err(SwapError::WrongCardType),
    }
}

} // verus!
