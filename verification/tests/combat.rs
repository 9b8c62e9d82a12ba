use server::barbarians::{
    barbarian_battle_reward, get_barbarian_reinforcement_choices, get_barbarians_player,
    BarbariansEventState,
};
use server::civilization::Civilization;
use server::wonder::Wonder;
use server::city::{City, MoodState};
use server::city_pieces::Building;
use server::combat::{
    apply_battle_movement_restriction, move_to_enemy_player_tile, BattleMover, EnemyTileMove,
    CombatModifier, active_attackers, active_defenders, can_remove_after_combat, conquer_outcome, take_over_city, Combat, CombatRetreatState,
    ConquerOutcome, conquer_city,
};
use server::combat_listeners::{
    choose_casualties, combat_round_end_outcome, draw_result, end_combat_stats, next_round,
    offers_retreat, record_losses, remaining_phases, remove_killed_attackers, CasualtyChoice,
    CombatEnd, CombatEventPhase, CombatResult, CombatRoundEnd, CombatRoundStart, CombatStrength,
    RoundEndOutcome,
};
use server::combat_roll::{combat_die_side, roll, CombatHits, CombatRoundStats, UnitCombatRoll};
use server::combat_stats::{
    new_combat_stats, Battleground, CombatPlayerStats, CombatStats,
};
use server::content::advances::autocracy::any_angry;
use server::content::advances::culture::theater_opposite;
use server::content::advances::warfare::{
    add_steel_weapons, draft_cost, fortress, steel_weapons_cost, use_steel_weapons,
};
use server::content::trade_routes::{
    find_most_trade_routes, find_trade_route_to_city, find_trade_routes, has_safe_passage,
    TradeRoute,
};
use server::position::Position;
use server::resource_pile::ResourcePile;
use server::tactics_card::CombatRole;
use server::unit::{UnitType, Units};

fn stats(result: Option<CombatResult>) -> CombatStats {
    CombatStats::new(
        Battleground::Land,
        false,
        CombatPlayerStats::new(0, Units::new(0, 2, 0, 1, 0, 1), Position::new(0, 0)),
        CombatPlayerStats::new(1, Units::new(0, 1, 0, 0, 0, 0), Position::new(1, 0)),
        result,
        None,
    )
}

#[test]
fn hits_from_combat_value() {
    let h = CombatHits::new(None, 1, 3, 12);
    assert_eq!(h.hits(), 1);
    let h = CombatHits::new(None, 0, 3, 20);
    assert_eq!(h.hits(), 3);
    assert!(h.all_opponents_killed());
    let h = CombatHits::new(None, 5, 3, 9);
    assert_eq!(h.hits(), 0);
}

#[test]
fn round_end_decides_result() {
    let c = Combat::new(vec![1, 2], true, stats(None));
    let e = CombatRoundEnd::new(CombatHits::new(None, 0, 2, 10), CombatHits::new(None, 0, 3, 5), c.clone());
    assert_eq!(e.final_result, Some(CombatResult::AttackerWins));
    assert_eq!(e.hits(CombatRole::Attacker), 2);
    assert_eq!(e.losses(CombatRole::Attacker), 1);
    assert!(!e.can_retreat());
    let e = CombatRoundEnd::new(CombatHits::new(None, 0, 2, 10), CombatHits::new(None, 0, 1, 5), c.clone());
    assert_eq!(e.final_result, Some(CombatResult::Draw));
    let e = CombatRoundEnd::new(CombatHits::new(None, 0, 2, 4), CombatHits::new(None, 0, 3, 4), c.clone());
    assert_eq!(e.final_result, None);
    assert!(e.can_retreat());
    assert_eq!(e.phase, CombatEventPhase::TacticsCard);
    let e = CombatRoundEnd::new(CombatHits::new(None, 0, 2, 4), CombatHits::new(None, 0, 3, 15), c);
    assert_eq!(e.final_result, Some(CombatResult::DefenderWins));
}

#[test]
fn roles_and_winner() {
    let s = stats(Some(CombatResult::DefenderWins));
    assert_eq!(s.role(0), CombatRole::Attacker);
    assert_eq!(s.opponent_role(0), CombatRole::Defender);
    assert!(s.is_attacker(0));
    assert!(s.is_defender(1));
    assert_eq!(s.winner(), Some(CombatRole::Defender));
    assert!(s.is_winner(1));
    assert!(s.is_loser(0));
    assert!(!s.is_loser(1));
    assert!(s.is_battle());
    assert_eq!(s.player(1).player, 1);
    assert_eq!(s.opponent(1).player, 0);
    assert_eq!(s.captured_city(0), None);
    let d = stats(Some(CombatResult::Draw));
    assert_eq!(d.winner(), None);
    assert!(!d.is_winner(0) && !d.is_loser(0));
}

#[test]
fn fighters_by_battleground() {
    let p = CombatPlayerStats::new(0, Units::new(1, 2, 3, 1, 0, 1), Position::new(0, 0));
    assert_eq!(p.fighters(Battleground::Land), Units::new(0, 2, 0, 1, 0, 1));
    assert_eq!(p.fighters(Battleground::Sea), Units::new(0, 0, 3, 0, 0, 0));
    assert!(Battleground::CityWithFortress.is_city());
    assert!(!Battleground::Sea.is_land());
}

#[test]
fn losses_and_leader() {
    let mut p = CombatPlayerStats::new(0, Units::new(0, 2, 0, 0, 0, 1), Position::new(0, 0));
    assert!(p.survived_leader());
    p.add_losses(&[UnitType::Infantry, UnitType::Leader]);
    assert_eq!(p.losses, Units::new(0, 1, 0, 0, 0, 1));
    assert!(!p.survived_leader());
    assert_eq!(p.fighter_losses(Battleground::Land).amount(), 2);
}

#[test]
fn combat_accessors() {
    let c = Combat::new(vec![4], false, stats(None));
    assert_eq!(c.retreat, CombatRetreatState::CannotRetreat);
    assert!(c.first_round());
    assert_eq!(c.attacker(), 0);
    assert_eq!(c.defender(), 1);
    assert_eq!(c.opponent(0), 1);
    assert_eq!(c.opponent(1), 0);
    assert_eq!(c.players(), [0, 1]);
    assert_eq!(c.player(CombatRole::Defender), 1);
    assert_eq!(c.defender_position(), Position::new(1, 0));
    assert!(c.is_barbarian_battle(CombatRole::Attacker, 1));
    assert!(can_remove_after_combat(true, &UnitType::Settler));
    assert!(!can_remove_after_combat(false, &UnitType::Settler));
    assert!(can_remove_after_combat(false, &UnitType::Cavalry));
    let start = CombatRoundStart::new(c.clone());
    assert_eq!(start.phase, CombatEventPhase::AllowTacticsCard);
    let end = CombatEnd::new(CombatResult::Draw, c);
    assert_eq!(end.result.winner(), None);
}

#[test]
fn roll_with_bonuses() {
    // infantry on a 6 with infantry bonus: 6 + 1
    let mut log = Vec::new();
    let r = roll(&[UnitType::Infantry], 0, 0, false, &[10], &mut log).unwrap();
    assert_eq!(r.combat_value, 7);
    assert_eq!(r.hit_cancels, 0);
    assert_eq!(log.len(), 1);
    assert!(log[0].bonus);
    // elephant side for an elephant cancels a hit and adds nothing
    let mut log = Vec::new();
    let r = roll(&[UnitType::Elephant], 0, 0, false, &[4], &mut log).unwrap();
    assert_eq!(r.combat_value, 0);
    assert_eq!(r.hit_cancels, 1);
    // denied abilities: plain values
    let mut log = Vec::new();
    let r = roll(&[UnitType::Cavalry], 1, 2, true, &[2, 6], &mut log).unwrap();
    assert_eq!(r.combat_value, 2 + 2 + 4);
}

#[test]
fn leader_rerolls_ones() {
    let mut log = Vec::new();
    let r = roll(&[UnitType::Leader], 0, 0, false, &[0, 1, 8], &mut log).unwrap();
    assert_eq!(r.combat_value, 5);
    assert_eq!(r.dice_used, 3);
    assert_eq!(log.len(), 3);
    let mut log = Vec::new();
    assert!(roll(&[UnitType::Leader], 0, 0, false, &[0, 1], &mut log).is_none());
    let mut log = Vec::new();
    let r = roll(&[UnitType::Infantry], 0, 0, false, &[0], &mut log).unwrap();
    assert_eq!(r.combat_value, 1);
}

#[test]
fn round_stats_and_hits() {
    let mut s = CombatStrength::new();
    s.hit_cancels = 1;
    let a = CombatRoundStats::roll(0, &[UnitType::Infantry, UnitType::Cavalry], CombatStrength::new(), &[10, 8]).unwrap();
    assert_eq!(a.combat_value, 7 + 7);
    assert_eq!(a.fighters, 2);
    let d = CombatRoundStats::roll(1, &[UnitType::Infantry], s, &[2]).unwrap();
    assert_eq!(d.hit_cancels, 1);
    let h = a.determine_hits(&d, None);
    assert_eq!(h.hits(), 1);
    assert_eq!(combat_die_side(3).value, 2);
}

#[test]
fn new_stats_battleground() {
    let s = new_combat_stats(
        1, Position::new(1, 0), None, true, Units::new(0, 0, 1, 0, 0, 0),
        0, Position::new(0, 0), true, Units::new(0, 0, 2, 0, 0, 0), None,
    );
    assert_eq!(s.battleground, Battleground::Sea);
    assert!(!s.disembarked);
    let s = new_combat_stats(
        1, Position::new(1, 0), None, false, Units::empty(),
        0, Position::new(0, 0), true, Units::new(0, 1, 0, 0, 0, 0), None,
    );
    assert_eq!(s.battleground, Battleground::Land);
    assert!(s.disembarked);
    assert!(!s.is_battle());
}

#[test]
fn barbarian_rules() {
    let civs = vec![Civilization::new("Rome"), Civilization::new("Barbarians")];
    assert_eq!(get_barbarians_player(&civs), 1);
    let avail = Units::new(0, 0, 0, 2, 0, 0);
    assert_eq!(get_barbarian_reinforcement_choices(true, &avail), vec![UnitType::Cavalry]);
    assert!(get_barbarian_reinforcement_choices(false, &avail).is_empty());
    let mut s = stats(Some(CombatResult::AttackerWins));
    s.defender.losses = Units::new(0, 1, 0, 0, 0, 0);
    assert_eq!(barbarian_battle_reward(&s, 0, true), Some(1));
    assert_eq!(barbarian_battle_reward(&s, 0, false), None);
    assert_eq!(barbarian_battle_reward(&s, 1, true), None);
    assert!(BarbariansEventState::new().moved_units.is_empty());
}

#[test]
fn round_end_outcomes() {
    let c = Combat::new(vec![1, 2], true, stats(None));
    let won = CombatRoundEnd::new(CombatHits::new(None, 0, 2, 10), CombatHits::new(None, 0, 3, 5), c.clone());
    assert_eq!(combat_round_end_outcome(&won), RoundEndOutcome::Finished(CombatResult::AttackerWins));
    let mut open = CombatRoundEnd::new(CombatHits::new(None, 0, 2, 4), CombatHits::new(None, 0, 3, 4), c.clone());
    assert_eq!(combat_round_end_outcome(&open), RoundEndOutcome::NextRound);
    assert!(offers_retreat(&open, 0));
    assert!(!offers_retreat(&open, 1));
    open.combat.retreat = CombatRetreatState::EndAfterCurrentRound;
    assert_eq!(combat_round_end_outcome(&open), RoundEndOutcome::Retreated);
    assert!(!offers_retreat(&open, 0));
}

#[test]
fn rounds_and_draws() {
    let c = Combat::new(vec![1], true, stats(None));
    assert_eq!(draw_result(&c, true), CombatResult::DefenderWins);
    assert_eq!(draw_result(&c, false), CombatResult::Draw);
    let c = next_round(c);
    assert_eq!(c.stats.round, 2);
    assert!(!c.first_round());
    assert_eq!(c.attackers, vec![1]);
    assert_eq!(draw_result(&c, true), CombatResult::Draw);
    let s = end_combat_stats(CombatEnd::new(CombatResult::AttackerWins, c));
    assert_eq!(s.result, Some(CombatResult::AttackerWins));
    assert_eq!(s.round, 2);
}

#[test]
fn losses_are_recorded_for_the_side() {
    let mut s = stats(None);
    record_losses(&mut s, 1, &[UnitType::Infantry]);
    assert_eq!(s.defender.losses, Units::new(0, 1, 0, 0, 0, 0));
    assert_eq!(s.attacker.losses, Units::empty());
    record_losses(&mut s, 0, &[UnitType::Infantry, UnitType::Leader, UnitType::Infantry]);
    assert_eq!(s.attacker.losses, Units::new(0, 2, 0, 0, 0, 1));
    record_losses(&mut s, 0, &[]);
    assert_eq!(s.attacker.losses, Units::new(0, 2, 0, 0, 0, 1));
}

#[test]
fn killed_attackers_leave_the_combat() {
    let mut c = Combat::new(vec![1, 2, 3, 4], true, stats(None));
    remove_killed_attackers(&mut c, 1, &[2]);
    assert_eq!(c.attackers, vec![1, 2, 3, 4]);
    remove_killed_attackers(&mut c, 0, &[2, 4, 9]);
    assert_eq!(c.attackers, vec![1, 3]);
}

#[test]
fn casualty_choices() {
    let mixed = [UnitType::Infantry, UnitType::Cavalry, UnitType::Infantry];
    assert_eq!(choose_casualties(0, &mixed, true), CasualtyChoice::NoCasualties);
    assert_eq!(choose_casualties(3, &mixed, true), CasualtyChoice::KillAll);
    assert_eq!(choose_casualties(1, &mixed, true), CasualtyChoice::Ask(1));
    assert_eq!(choose_casualties(1, &mixed, false), CasualtyChoice::KillFirst(1));
    let same = [UnitType::Infantry, UnitType::Infantry];
    assert_eq!(choose_casualties(1, &same, true), CasualtyChoice::KillFirst(1));
}

#[test]
fn phases_from_the_current_one() {
    let all = [
        CombatEventPhase::AllowTacticsCard,
        CombatEventPhase::TacticsCard,
        CombatEventPhase::Default,
    ];
    assert_eq!(
        remaining_phases(&all, CombatEventPhase::TacticsCard),
        vec![CombatEventPhase::TacticsCard, CombatEventPhase::Default]
    );
    assert_eq!(remaining_phases(&all, CombatEventPhase::AllowTacticsCard).len(), 3);
}

#[test]
fn conquering_a_city() {
    let mut city = City::new(1, Position::new(0, 0));
    city.pieces.set_building(Building::Academy, 1);
    city.pieces.set_building(Building::Obelisk, 1);
    city.mood_state = MoodState::Happy;
    assert_eq!(
        conquer_outcome(&city, false, true, true, true),
        ConquerOutcome { conquest_gold: 4, keep_city: true, take_over: true, raze_gold: 0 }
    );
    assert_eq!(
        conquer_outcome(&city, false, true, false, false),
        ConquerOutcome { conquest_gold: 0, keep_city: false, take_over: false, raze_gold: 3 }
    );
    assert_eq!(
        conquer_outcome(&city, false, false, true, false),
        ConquerOutcome { conquest_gold: 0, keep_city: false, take_over: false, raze_gold: 0 }
    );
}

#[test]
fn taking_over_buildings() {
    let mut city = City::new(1, Position::new(0, 0));
    city.pieces.set_building(Building::Academy, 1);
    city.pieces.set_building(Building::Obelisk, 1);
    city.pieces.set_building(Building::Temple, 1);
    city.pieces.set_building(Building::Market, 2);
    let gold = take_over_city(&mut city.pieces, 0, 1, &[Building::Academy]);
    assert_eq!(gold, 1);
    assert_eq!(city.pieces.building_owner(Building::Academy), Some(0));
    assert_eq!(city.pieces.building_owner(Building::Obelisk), Some(1));
    assert_eq!(city.pieces.building_owner(Building::Temple), None);
    assert_eq!(city.pieces.building_owner(Building::Market), Some(2));
}

#[test]
fn trade_routes_use_each_city_once() {
    let a = Position::new(5, 0);
    let b = Position::new(6, 0);
    let r1a = TradeRoute { unit_id: 1, from: Position::new(4, 0), to: a };
    let r2a = TradeRoute { unit_id: 2, from: Position::new(4, 1), to: a };
    let r2b = TradeRoute { unit_id: 2, from: Position::new(4, 1), to: b };
    let routes = find_trade_routes(&vec![vec![r1a], vec![], vec![r2a, r2b]]);
    assert_eq!(routes, vec![r2b, r1a]);
    let routes = find_most_trade_routes(&vec![vec![r1a], vec![r2a]], 0, &vec![]);
    assert_eq!(routes.len(), 1);
    assert!(find_most_trade_routes(&vec![vec![r1a]], 0, &vec![a]).is_empty());
    let many: Vec<Vec<TradeRoute>> = (0..6)
        .map(|i| {
            vec![TradeRoute { unit_id: i, from: Position::new(0, i as i32), to: Position::new(1, i as i32) }]
        })
        .collect();
    assert_eq!(find_trade_routes(&many).len(), 4);
}

#[test]
fn trade_route_to_a_city() {
    let mut city = City::new(1, Position::new(2, 0));
    let passable = [Position::new(1, 0)];
    let from = Position::new(0, 0);
    assert!(has_safe_passage(from, city.position, &passable));
    assert!(!has_safe_passage(from, city.position, &[Position::new(5, 5)]));
    assert_eq!(
        find_trade_route_to_city(7, from, 0, &city, false, &passable),
        Some(TradeRoute { unit_id: 7, from, to: city.position })
    );
    assert_eq!(find_trade_route_to_city(7, from, 1, &city, false, &passable), None);
    assert_eq!(find_trade_route_to_city(7, from, 0, &city, true, &passable), None);
    assert_eq!(find_trade_route_to_city(7, Position::new(-1, 0), 0, &city, false, &passable), None);
    city.mood_state = MoodState::Angry;
    assert_eq!(find_trade_route_to_city(7, from, 0, &city, false, &passable), None);
}

#[test]
fn fighting_units_by_side() {
    let types = [UnitType::Infantry, UnitType::Settler, UnitType::Leader];
    assert_eq!(active_attackers(&[1, 2, 3], &types, false), vec![1, 3]);
    assert_eq!(active_attackers(&[1, 2, 3], &types, true), vec![1, 2, 3]);
    let here = [(7, UnitType::Ship), (8, UnitType::Cavalry)];
    assert_eq!(active_defenders(&here, false), vec![8]);
    assert_eq!(active_defenders(&here, true), vec![7, 8]);
    let c = Combat::new(vec![1, 2, 3], false, stats(None));
    assert_eq!(c.fighting_units(0, &types, &here, false), vec![1, 3]);
    assert_eq!(c.fighting_units(1, &types, &here, false), vec![8]);
}

#[test]
fn tactics_cards_change_hits() {
    let c = Combat::new(vec![1, 2], true, stats(None));
    let mut e = CombatRoundEnd::new(CombatHits::new(None, 0, 2, 4), CombatHits::new(None, 0, 3, 4), c);
    assert_eq!(e.final_result, None);
    // a change that adds no hit is reported as no change
    assert!(!e.update_hits(CombatRole::Attacker, false, CombatHits::new(None, 0, 2, 3)));
    assert!(e.update_hits(CombatRole::Attacker, false, CombatHits::new(None, 0, 2, 10)));
    assert_eq!(e.final_result, None);
    assert!(e.update_hits(CombatRole::Attacker, true, CombatHits::new(None, 0, 2, 10)));
    assert_eq!(e.hits(CombatRole::Attacker), 2);
    assert_eq!(e.final_result, Some(CombatResult::AttackerWins));
}

#[test]
fn warfare_rules() {
    assert_eq!(draft_cost(true), 2);
    assert_eq!(draft_cost(false), 1);
    assert_eq!(steel_weapons_cost(true, true, false), 0);
    assert_eq!(steel_weapons_cost(true, true, true), 1);
    assert_eq!(steel_weapons_cost(false, false, false), 1);

    let mut c = Combat::new(vec![1], false, stats(None));
    let mut s = CombatStrength::new();
    fortress(&c, &mut s, CombatRole::Defender, true);
    assert_eq!(s.extra_dies, 1);
    assert_eq!(s.hit_cancels, 1);
    assert_eq!(s.roll_log.len(), 2);
    let mut a = CombatStrength::new();
    fortress(&c, &mut a, CombatRole::Attacker, true);
    assert_eq!(a.extra_dies, 0);
    c.modifiers.push(CombatModifier::CancelFortressExtraDie);
    let mut s = CombatStrength::new();
    fortress(&c, &mut s, CombatRole::Defender, true);
    assert_eq!(s.extra_dies, 0);
    assert_eq!(s.hit_cancels, 1);

    add_steel_weapons(0, &mut c);
    assert_eq!(c.modifiers.last(), Some(&CombatModifier::SteelWeaponsAttacker));
    let mut s = CombatStrength::new();
    use_steel_weapons(&c, &mut s, CombatRole::Attacker, true, false);
    assert_eq!(s.extra_combat_value, 2);
    assert_eq!(s.roll_log, vec!["steel weapons added 2 combat value".to_string()]);
    let mut s = CombatStrength::new();
    use_steel_weapons(&c, &mut s, CombatRole::Attacker, true, true);
    assert_eq!(s.extra_combat_value, 1);
    let mut d = CombatStrength::new();
    use_steel_weapons(&c, &mut d, CombatRole::Defender, true, true);
    assert_eq!(d.extra_combat_value, 0);
    let c2 = next_round(c);
    let mut s = CombatStrength::new();
    fortress(&c2, &mut s, CombatRole::Defender, true);
    assert_eq!(s.hit_cancels, 0);
}

#[test]
fn content_rules() {
    let mut cities = vec![City::new(0, Position::new(0, 0))];
    assert!(!any_angry(&cities));
    cities.push(City::new(0, Position::new(1, 0)));
    cities[1].mood_state = MoodState::Angry;
    assert!(any_angry(&cities));
    assert_eq!(theater_opposite(&ResourcePile::mood_tokens(2)), ResourcePile::culture_tokens(1));
    assert_eq!(theater_opposite(&ResourcePile::culture_tokens(1)), ResourcePile::mood_tokens(1));
}

#[test]
fn roll_log_marks_used_bonuses() {
    let mut log = Vec::new();
    roll(&[UnitType::Leader], 0, 0, false, &[0, 1, 8], &mut log).unwrap();
    assert_eq!(
        log,
        vec![
            UnitCombatRoll { value: 1, unit_type: UnitType::Leader, bonus: true },
            UnitCombatRoll { value: 1, unit_type: UnitType::Leader, bonus: true },
            UnitCombatRoll { value: 5, unit_type: UnitType::Cavalry, bonus: false },
        ]
    );
    let mut log = Vec::new();
    roll(&[UnitType::Infantry, UnitType::Infantry], 0, 0, false, &[10, 11], &mut log).unwrap();
    assert_eq!(
        log,
        vec![
            UnitCombatRoll { value: 6, unit_type: UnitType::Infantry, bonus: true },
            UnitCombatRoll { value: 6, unit_type: UnitType::Infantry, bonus: true },
        ]
    );
    let mut log = Vec::new();
    roll(&[UnitType::Infantry], 0, 0, true, &[10], &mut log).unwrap();
    assert_eq!(log, vec![UnitCombatRoll { value: 6, unit_type: UnitType::Infantry, bonus: false }]);
}

#[test]
fn leader_in_land_battle() {
    let c = Combat::new(vec![1, 2], true, stats(None));
    let with_leader = [UnitType::Infantry, UnitType::Leader];
    let without = [UnitType::Infantry, UnitType::Cavalry];
    assert!(c.has_leader(CombatRole::Attacker, &with_leader));
    assert!(!c.has_leader(CombatRole::Attacker, &without));
    assert!(!c.has_leader(CombatRole::Defender, &[]));
    assert!(c.is_land_battle_with_leader(CombatRole::Attacker, true, &with_leader));
    assert!(!c.is_land_battle_with_leader(CombatRole::Attacker, false, &with_leader));
    assert!(!c.is_land_battle_with_leader(CombatRole::Defender, true, &without));
}

#[test]
fn moving_onto_enemy_tile() {
    let settler = [UnitType::Settler];
    let guard = [UnitType::Settler, UnitType::Infantry];
    assert_eq!(move_to_enemy_player_tile(false, true, true, &guard, true), EnemyTileMove::GreatWallWin);
    assert_eq!(move_to_enemy_player_tile(true, true, true, &guard, false), EnemyTileMove::Combat);
    assert_eq!(move_to_enemy_player_tile(true, true, false, &settler, true), EnemyTileMove::Combat);
    assert_eq!(move_to_enemy_player_tile(true, false, false, &settler, false), EnemyTileMove::Move);
    assert_eq!(move_to_enemy_player_tile(false, false, true, &[], false), EnemyTileMove::Move);
}

#[test]
fn battle_movement_restriction() {
    let mut units = vec![
        BattleMover { unit_type: UnitType::Infantry, battle_restricted: false },
        BattleMover { unit_type: UnitType::Ship, battle_restricted: true },
        BattleMover { unit_type: UnitType::Settler, battle_restricted: false },
    ];
    assert!(apply_battle_movement_restriction(&mut units, true));
    assert!(units[0].battle_restricted);
    assert!(units[1].battle_restricted);
    assert!(!units[2].battle_restricted);
    let mut ships = vec![BattleMover { unit_type: UnitType::Ship, battle_restricted: false }];
    assert!(!apply_battle_movement_restriction(&mut ships, false));
    assert!(ships[0].battle_restricted);
}

#[test]
fn conquer_test() {
    let (defender, attacker) = (0usize, 1usize);
    let position = Position::new(0, 0);
    let mut city = City::new(defender, position);
    city.pieces.wonders.push(Wonder::Pyramids);
    city.pieces.set_building(Building::Academy, defender);
    city.pieces.set_building(Building::Obelisk, defender);
    let mut defender_cities = vec![city];
    let mut attacker_cities: Vec<City> = vec![];
    let mut defender_wonders = vec![Wonder::Pyramids];
    let mut attacker_wonders: Vec<Wonder> = vec![];
    let outcome = conquer_outcome(&defender_cities[0], false, true, true, true);
    let gold = conquer_city(
        attacker,
        defender,
        &mut attacker_cities,
        &mut defender_cities,
        &mut attacker_wonders,
        &mut defender_wonders,
        position,
        outcome,
        &[Building::Academy],
    );
    assert!(defender_cities.is_empty());
    let c = &attacker_cities[0];
    assert_eq!(c.player_index, attacker);
    assert_eq!(c.mood_state, MoodState::Angry);
    assert_eq!(defender_wonders.len(), 0);
    assert_eq!(attacker_wonders, vec![Wonder::Pyramids]);
    assert_eq!(c.pieces.building_owner(Building::Obelisk), Some(defender));
    assert_eq!(c.pieces.building_owner(Building::Academy), Some(attacker));
    assert_eq!(gold, 4);
}

#[test]
fn razed_city_loses_wonders() {
    let position = Position::new(2, 0);
    let mut city = City::new(0, position);
    city.pieces.wonders.push(Wonder::GreatWall);
    let mut defender_cities = vec![City::new(0, Position::new(5, 5)), city];
    let mut attacker_cities: Vec<City> = vec![];
    let mut defender_wonders = vec![Wonder::Colosseum, Wonder::GreatWall];
    let mut attacker_wonders: Vec<Wonder> = vec![];
    let outcome = conquer_outcome(&defender_cities[1], false, true, true, false);
    let gold = conquer_city(
        1, 0, &mut attacker_cities, &mut defender_cities, &mut attacker_wonders,
        &mut defender_wonders, position, outcome, &[],
    );
    assert_eq!(defender_cities.len(), 1);
    assert!(attacker_cities.is_empty());
    assert_eq!(defender_wonders, vec![Wonder::Colosseum]);
    assert!(attacker_wonders.is_empty());
    assert_eq!(gold, outcome.conquest_gold as u32 + outcome.raze_gold as u32);
    assert_eq!(outcome.raze_gold, 2);
}

#[test]
fn trade_routes_take_the_last_longest_selection() {
    let a = Position::new(5, 0);
    let b = Position::new(6, 0);
    let r0a = TradeRoute { unit_id: 1, from: Position::new(4, 0), to: a };
    let r0b = TradeRoute { unit_id: 1, from: Position::new(4, 0), to: b };
    assert_eq!(find_trade_routes(&vec![vec![r0a, r0b]]), vec![r0b]);
    let r1a = TradeRoute { unit_id: 2, from: Position::new(4, 1), to: a };
    // with a second unit that can only reach `a`, only the first route allows two routes
    assert_eq!(find_trade_routes(&vec![vec![r0a, r0b], vec![r1a]]), vec![r1a, r0b]);
}
