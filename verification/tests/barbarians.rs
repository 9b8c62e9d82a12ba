use server::barbarians::{
    barbarian_move_step, max_mercenary_armies, mercenary_destinations, select_mercenary_army,
    BarbarianMoveAction, BarbarianMovePhase,
    anything_present, barbarian_march_steps, cities_in_land_range, execute_barbarian_move,
    get_movable_units, is_base_barbarian_spawn_pos, land_steps_towards_range2,
    on_stop_barbarian_movement, possible_barbarians_reinforcements, possible_barbarians_spawns,
    reinforce_after_move, steps_towards_land_range2_cites, BarbariansEventState,
};
use server::position::Position;
use server::unit::Units;

fn p(q: i32, r: i32) -> Position {
    Position::new(q, r)
}

#[test]
fn land_steps_between_two_hexagons() {
    let land = [p(1, 0)];
    assert_eq!(land_steps_towards_range2(&land, p(2, 0), p(0, 0)), vec![p(1, 0)]);
    assert!(land_steps_towards_range2(&[], p(2, 0), p(0, 0)).is_empty());
    // too close or too far: no steps
    assert!(land_steps_towards_range2(&land, p(1, 0), p(0, 0)).is_empty());
    assert!(land_steps_towards_range2(&land, p(3, 0), p(0, 0)).is_empty());
}

#[test]
fn cities_in_range_over_land() {
    let cities = [p(0, 0), p(3, 0), p(2, 1)];
    assert_eq!(cities_in_land_range(&[p(1, 0)], &cities, p(2, 0), 2), vec![p(0, 0), p(3, 0), p(2, 1)]);
    assert_eq!(cities_in_land_range(&[], &cities, p(2, 0), 2), vec![p(3, 0), p(2, 1)]);
    assert_eq!(cities_in_land_range(&[p(1, 0)], &cities, p(2, 0), 1), vec![p(3, 0), p(2, 1)]);
}

#[test]
fn steps_are_sorted_without_repetition() {
    let land = [p(1, 0), p(1, -1), p(0, -1)];
    // from (1, -2): towards (0, 0) through (1, -1) or (0, -1); towards (2, -1) through (1, -1)
    let steps = steps_towards_land_range2_cites(&land, &[p(0, 0), p(2, -1)], p(1, -2));
    assert_eq!(steps, vec![p(0, -1), p(1, -1)]);
}

#[test]
fn armies_march_towards_cities() {
    let land = [p(1, 0)];
    let cities = [p(0, 0)];
    assert_eq!(barbarian_march_steps(&land, &cities, &[], p(2, 0), 1), vec![p(1, 0)]);
    let full = [p(1, 0), p(1, 0), p(1, 0), p(1, 0)];
    assert!(barbarian_march_steps(&land, &cities, &full, p(2, 0), 1).is_empty());
    assert_eq!(barbarian_march_steps(&land, &cities, &full[..3], p(2, 0), 1), vec![p(1, 0)]);
    assert!(barbarian_march_steps(&land, &cities, &full[..3], p(2, 0), 2).is_empty());
    // a city next to the army is attacked directly
    assert_eq!(barbarian_march_steps(&land, &cities, &full, p(1, 0), 4), vec![p(0, 0)]);
}

#[test]
fn movable_armies() {
    let tiles = [p(5, 5), p(2, 0), p(1, 0)];
    let land = [p(1, 0), p(2, 0)];
    let cities = [p(0, 0)];
    let units = [(10, p(2, 0)), (11, p(5, 5))];
    assert_eq!(get_movable_units(&tiles, &land, &cities, &units, &[]), vec![p(2, 0)]);
    assert!(get_movable_units(&tiles, &land, &cities, &units, &[10]).is_empty());
    let units = [(10, p(2, 0)), (12, p(1, 0))];
    assert_eq!(get_movable_units(&tiles, &land, &cities, &units, &[]), vec![p(1, 0), p(2, 0)]);
}

#[test]
fn spawn_positions() {
    let tiles = [p(2, 0), p(3, 0), p(1, 0), p(0, 0)];
    let all = [p(2, 0), p(3, 0), p(1, 0), p(0, 0)];
    let cities = [p(0, 0)];
    assert!(anything_present(&[], &cities, p(0, 0)));
    assert!(!anything_present(&[p(1, 1)], &cities, p(1, 0)));
    assert!(is_base_barbarian_spawn_pos(&all, &all, &cities, &[], p(2, 0)));
    assert!(!is_base_barbarian_spawn_pos(&all, &all, &cities, &cities, p(2, 0)));
    assert_eq!(possible_barbarians_spawns(&tiles, &all, &all, &cities, &cities, &[]), vec![p(2, 0)]);
    // without land between, only the hexagons next to the city are left
    let spawnable = [p(2, 0), p(1, 0)];
    assert_eq!(possible_barbarians_spawns(&tiles, &[], &spawnable, &cities, &cities, &[]), vec![p(1, 0)]);
    assert!(possible_barbarians_spawns(&tiles, &[], &[p(3, 0)], &cities, &cities, &[]).is_empty());
}

#[test]
fn reinforcements_after_moving() {
    let land = [p(1, 0)];
    let cities = [p(0, 0)];
    let barbarian_cities = [p(2, 0), p(0, 1), p(9, 9)];
    assert_eq!(
        reinforce_after_move(&land, &cities, &barbarian_cities, &[], 5),
        vec![p(2, 0), p(0, 1)]
    );
    let full = [p(2, 0), p(2, 0), p(2, 0), p(2, 0)];
    assert_eq!(reinforce_after_move(&land, &cities, &barbarian_cities, &full, 5), vec![p(0, 1)]);
    assert_eq!(reinforce_after_move(&land, &cities, &barbarian_cities, &[], 1), vec![p(2, 0)]);
    // two cities near the same barbarian city: it is reinforced once
    assert_eq!(
        reinforce_after_move(&land, &[p(0, 0), p(1, 1)], &[p(2, 0)], &[], 5),
        vec![p(2, 0)]
    );
    let avail = Units::new(0, 1, 0, 0, 0, 0);
    assert_eq!(possible_barbarians_reinforcements(&avail, &[p(2, 0)]), vec![p(2, 0)]);
    assert!(possible_barbarians_reinforcements(&Units::empty(), &[p(2, 0)]).is_empty());
}

#[test]
fn moving_and_stopping_armies() {
    let units = [(10, p(2, 0)), (11, p(5, 5)), (12, p(2, 0))];
    let mut state = BarbariansEventState::new();
    on_stop_barbarian_movement(&mut state, &[p(2, 0), p(5, 5)], &[p(5, 5)], &units);
    assert_eq!(state.moved_units, vec![10, 12]);
    let mut state = BarbariansEventState::new();
    state.selected_position = Some(p(2, 0));
    let (from, ids) = execute_barbarian_move(&mut state, &units);
    assert_eq!(from, p(2, 0));
    assert_eq!(ids, vec![10, 12]);
    assert_eq!(state.moved_units, vec![10, 12]);
    assert_eq!(state.selected_position, None);
}

#[test]
fn barbarian_move_steps_through_event() {
    let mut s = BarbariansEventState::new();
    assert_eq!(barbarian_move_step(&mut s, BarbarianMovePhase::Start, &[]), BarbarianMoveAction::CannotMove);
    assert!(!s.move_units);
    assert_eq!(barbarian_move_step(&mut s, BarbarianMovePhase::SelectArmy, &[Position::new(1, 1)]), BarbarianMoveAction::Nothing);
    let armies = [Position::new(1, 1), Position::new(2, 2)];
    assert_eq!(barbarian_move_step(&mut s, BarbarianMovePhase::Start, &armies), BarbarianMoveAction::Nothing);
    assert!(s.move_units);
    assert_eq!(
        barbarian_move_step(&mut s, BarbarianMovePhase::SelectArmy, &armies),
        BarbarianMoveAction::SelectArmy(armies.to_vec())
    );
    assert_eq!(barbarian_move_step(&mut s, BarbarianMovePhase::Finish, &armies), BarbarianMoveAction::Nothing);
    assert_eq!(barbarian_move_step(&mut s, BarbarianMovePhase::Finish, &[]), BarbarianMoveAction::ReinforceAndEndTurn);
}

#[test]
fn mercenaries_move_onto_land_with_room() {
    let land = [p(0, -1), p(1, -1), p(1, 0), p(0, 1)];
    // two units at the start, three at (1, 0), one at (0, 1)
    let units = [p(0, 0), p(0, 0), p(1, 0), p(1, 0), p(1, 0), p(0, 1)];
    assert_eq!(mercenary_destinations(p(0, 0), &land, &units), vec![p(0, -1), p(1, -1), p(0, 1)]);
    assert_eq!(max_mercenary_armies(3, 2), 2);
    assert_eq!(max_mercenary_armies(1, 2), 1);
    let mut state = BarbariansEventState::new();
    let mut to_move = vec![p(1, 1), p(2, 2), p(1, 1)];
    select_mercenary_army(&mut state, &mut to_move, p(1, 1));
    assert_eq!(state.selected_position, Some(p(1, 1)));
    assert_eq!(to_move, vec![p(2, 2), p(1, 1)]);
}
