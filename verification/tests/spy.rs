use server::card::{HandCard, HandCardType};
use server::spy::{sort_cards, swap_cards, Hand, SwapError};
use server::wonder::Wonder;

fn hands() -> (Hand, Hand) {
    (
        Hand { action_cards: vec![9, 3], objective_cards: vec![], wonder_cards: vec![Wonder::Pyramids] },
        Hand { action_cards: vec![5], objective_cards: vec![7], wonder_cards: vec![Wonder::Colosseum] },
    )
}

#[test]
fn spy_swaps_cards_of_one_kind() {
    let (mut a, mut b) = hands();
    let r = swap_cards(&mut a, &mut b, &[HandCard::ActionCard(9), HandCard::ActionCard(5)]);
    assert_eq!(r, Ok(Some(HandCardType::Action)));
    assert_eq!(a.action_cards, vec![3, 5]);
    assert_eq!(b.action_cards, vec![9]);
    let r = swap_cards(&mut a, &mut b, &[HandCard::Wonder(Wonder::Pyramids), HandCard::Wonder(Wonder::Colosseum)]);
    assert_eq!(r, Ok(Some(HandCardType::Wonder)));
    assert_eq!(a.wonder_cards, vec![Wonder::Colosseum]);
    assert_eq!(b.wonder_cards, vec![Wonder::Pyramids]);
}

#[test]
fn spy_swap_errors() {
    let (mut a, mut b) = hands();
    assert_eq!(swap_cards(&mut a, &mut b, &[]), Ok(None));
    assert_eq!(swap_cards(&mut a, &mut b, &[HandCard::ActionCard(9)]), Err(SwapError::MustSelectTwo));
    assert_eq!(
        swap_cards(&mut a, &mut b, &[HandCard::ActionCard(9), HandCard::ActionCard(4)]),
        Err(SwapError::CardNotFound)
    );
    assert_eq!(
        swap_cards(&mut a, &mut b, &[HandCard::ActionCard(9), HandCard::ObjectiveCard(7)]),
        Err(SwapError::WrongCardType)
    );
    assert_eq!(a.action_cards, vec![9, 3]);
    assert_eq!(b.objective_cards, vec![7]);
}

#[test]
fn cards_are_sorted() {
    assert_eq!(sort_cards(&vec![5u8, 1, 3, 1]), vec![1, 1, 3, 5]);
}
