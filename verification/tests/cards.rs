use server::action_card::{
    action_card_players, combat_requirement_met, discard_action_card, gain_action_card,
    cultural_takeover_targets, play_action_card_info, takeover_unit_choices, ActionCardInfo,
    CivilCardTarget,
};
use server::city::City;
use server::city_pieces::Building;
use server::card::{
    card_name, discard_card, draw_card_from_pile, log_card_transfer, reshuffle_pile, DrawnCard,
    HandCard, HandCardLocation,
};
use server::combat_stats::{Battleground, CombatPlayerStats, CombatStats};
use server::position::Position;
use server::unit::{UnitType, Units};

fn battle(claimed: Vec<u8>) -> CombatStats {
    let mut s = CombatStats::new(
        Battleground::Land,
        false,
        CombatPlayerStats::new(0, Units::new(0, 1, 0, 0, 0, 0), Position::new(0, 0)),
        CombatPlayerStats::new(1, Units::new(0, 1, 0, 0, 0, 0), Position::new(1, 0)),
        None,
        None,
    );
    s.claimed_action_cards = claimed;
    s
}

#[test]
fn action_card_info_defaults() {
    let i = ActionCardInfo::new(5, Some(2), None);
    assert_eq!(i.id, 5);
    assert_eq!(i.satisfying_action, Some(2));
    assert_eq!(i.active_player, None);
    assert!(i.selected_positions.is_empty());
    assert_eq!(i.answer, None);
    let all = play_action_card_info(5, None, CivilCardTarget::AllPlayers, 3);
    assert_eq!(all.active_player, Some(3));
    let one = play_action_card_info(5, None, CivilCardTarget::ActivePlayer, 3);
    assert_eq!(one.active_player, None);
}

#[test]
fn combat_requirement_skips_claimed_battles() {
    let log = vec![None, Some(battle(vec![4])), Some(battle(vec![])), Some(battle(vec![]))];
    // card 3: its sister card 4 claimed the first battle
    assert_eq!(combat_requirement_met(&log, &[true, true, true, true], 3), Some(2));
    // card 4: its sister card 3 claimed nothing
    assert_eq!(combat_requirement_met(&log, &[true, true, true, true], 4), Some(1));
    assert_eq!(combat_requirement_met(&log, &[true, true, false, true], 3), Some(3));
    assert_eq!(combat_requirement_met(&log, &[true, false, false, false], 3), None);
}

#[test]
fn playing_and_discarding_cards() {
    assert_eq!(action_card_players(CivilCardTarget::ActivePlayer, 1, vec![1, 2, 0]), vec![1]);
    assert_eq!(action_card_players(CivilCardTarget::AllPlayers, 1, vec![1, 2, 0]), vec![1, 2, 0]);
    let mut hand = vec![3, 7, 3];
    let mut discarded = vec![1];
    discard_action_card(&mut hand, &mut discarded, 3, false);
    assert_eq!(hand, vec![7, 3]);
    assert_eq!(discarded, vec![1, 3]);
    discard_action_card(&mut hand, &mut discarded, 7, true);
    assert_eq!(hand, vec![3]);
    assert_eq!(discarded, vec![7, 1, 3]);
    gain_action_card(&mut hand, 9);
    assert_eq!(hand, vec![3, 9]);
    let mut pile = vec![2];
    discard_card(&mut pile, 4, true);
    assert_eq!(pile, vec![4, 2]);
}

#[test]
fn drawing_from_a_pile() {
    let owned = vec![vec![2], vec![4, 5]];
    assert_eq!(reshuffle_pile(&[1, 2, 3, 4, 5], &owned), vec![1, 3]);
    let mut pile = vec![8, 9];
    assert_eq!(
        draw_card_from_pile(&mut pile, &[1, 2, 3], &owned, &[]),
        DrawnCard { card: Some(8), reshuffled: false }
    );
    assert_eq!(pile, vec![9]);
    let mut empty = vec![];
    assert_eq!(
        draw_card_from_pile(&mut empty, &[1, 2, 3, 4, 5], &owned, &[1, 0]),
        DrawnCard { card: Some(3), reshuffled: true }
    );
    assert_eq!(empty, vec![1]);
    let mut empty = vec![];
    assert_eq!(
        draw_card_from_pile(&mut empty, &[2, 4], &owned, &[]),
        DrawnCard { card: None, reshuffled: false }
    );
}

#[test]
fn card_transfer_messages() {
    let card = HandCard::ActionCard(3);
    let names = vec!["Alice".to_string(), "Bob".to_string()];
    assert_eq!(card_name(&card, &HandCardLocation::DiscardPile, "Spy"), "Spy");
    assert_eq!(card_name(&card, &HandCardLocation::Hand(0), "Spy"), "an action card");
    assert_eq!(
        log_card_transfer(&card, "Spy", &HandCardLocation::DrawPile, &HandCardLocation::Hand(1), &names),
        (1, "Draw an action card".to_string())
    );
    assert_eq!(
        log_card_transfer(&card, "Spy", &HandCardLocation::RevealedHand(0), &HandCardLocation::Hand(1), &names),
        (1, "Gain Spy from Alice".to_string())
    );
    assert_eq!(
        log_card_transfer(&card, "Spy", &HandCardLocation::Hand(0), &HandCardLocation::PlayToDiscard, &names),
        (0, "Play Spy".to_string())
    );
    assert_eq!(
        log_card_transfer(
            &card,
            "Spy",
            &HandCardLocation::Hand(0),
            &HandCardLocation::CompleteObjective("Conqueror".to_string()),
            &names
        ),
        (0, "Complete Conqueror using Spy".to_string())
    );
    assert_eq!(
        log_card_transfer(&card, "Spy", &HandCardLocation::Hand(1), &HandCardLocation::PlayToDiscardFaceDown, &names),
        (1, "Play an action card face down".to_string())
    );
    assert_eq!(
        log_card_transfer(&card, "Spy", &HandCardLocation::DrawPile, &HandCardLocation::GreatSeer(1), &names),
        (1, "Placed a card from the draw pile in the Great Seer".to_string())
    );
    assert_eq!(
        log_card_transfer(&card, "Spy", &HandCardLocation::DrawPilePeeked(0), &HandCardLocation::DrawPile, &names),
        (0, "Reshuffled a card from the draw pile back into the draw pile".to_string())
    );
}

#[test]
fn cultural_takeover_of_small_barbarian_cities() {
    let small = City::new(9, Position::new(1, 1));
    let mut big = City::new(9, Position::new(2, 2));
    big.pieces.set_building(Building::Temple, 9);
    let cities = vec![small, big, City::new(9, Position::new(3, 3))];
    assert_eq!(cultural_takeover_targets(&cities), vec![Position::new(1, 1), Position::new(3, 3)]);
    let (removed, offer) = takeover_unit_choices(&vec![4, 5], &Units::new(1, 0, 0, 0, 0, 0));
    assert_eq!(removed, vec![4, 5]);
    assert_eq!(offer, Some(vec![UnitType::Settler]));
    let (_, offer) = takeover_unit_choices(&vec![4], &Units::new(2, 3, 0, 0, 0, 0));
    assert_eq!(offer, Some(vec![UnitType::Settler, UnitType::Infantry]));
    let (removed, offer) = takeover_unit_choices(&vec![], &Units::new(2, 3, 0, 0, 0, 0));
    assert!(removed.is_empty());
    assert_eq!(offer, None);
}
