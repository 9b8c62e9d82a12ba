use server::ai_missions::{
    choose_mission, enemy_city_targets, enemy_force_targets, force_targets, PlayerPieces,
    combat_unit_missions, is_complete, join_missions, release_completed, settler_missions, ship_missions, update_mission, Mission,
    MissionType,
};
use server::position::Position;

fn p(q: i32, r: i32) -> Position {
    Position::new(q, r)
}

#[test]
fn combat_unit_missions_in_order() {
    let r = combat_unit_missions(
        Some(p(5, 5)),
        &[p(0, 0)],
        &[(2, p(3, 3))],
        &[p(7, 0)],
        &[(2, p(4, 4), vec![10, 11])],
        &[(p(8, 0), vec![20])],
    );
    let kinds: Vec<(MissionType, Position)> = r.into_iter().map(|t| (t.mission_type, t.target)).collect();
    assert_eq!(
        kinds,
        vec![
            (MissionType::Explore, p(5, 5)),
            (MissionType::DefendCity, p(0, 0)),
            (MissionType::CapturePlayerCity { player_index: 2 }, p(3, 3)),
            (MissionType::CaptureBarbarianCamp, p(7, 0)),
            (MissionType::FightPlayerForces { player_index: 2, units: vec![10, 11] }, p(4, 4)),
            (MissionType::FightBarbarians { units: vec![20] }, p(8, 0)),
        ]
    );
    assert!(combat_unit_missions(None, &[], &[], &[], &[], &[]).is_empty());
}

#[test]
fn settler_and_ship_missions() {
    let s = settler_missions(p(1, 1), None);
    assert_eq!(s.len(), 1);
    assert_eq!(s[0].mission_type, MissionType::FoundCity);
    let s = settler_missions(p(1, 1), Some(p(2, 2)));
    assert_eq!(s[1].mission_type, MissionType::Explore);
    let sh = ship_missions(&[(p(0, 3), vec![7])]);
    assert_eq!(sh[0].mission_type, MissionType::FightPirates { units: vec![7] });
    assert_eq!(sh[0].target, p(0, 3));
}

#[test]
fn mission_follows_enemy_and_drops_lost_units() {
    let mut m = Mission {
        units: vec![1, 2, 3],
        player_index: 0,
        mission_type: MissionType::FightBarbarians { units: vec![9, 8] },
        target: p(5, 5),
        current_location: p(0, 0),
    };
    let players = vec![vec![(1, p(1, 0)), (3, p(2, 0))], vec![(8, p(4, 4))]];
    update_mission(&mut m, &players, 1, 1, &[], p(0, 0));
    assert_eq!(m.units, vec![1]);
    assert_eq!(m.current_location, p(1, 0));
    assert_eq!(m.target, p(4, 4));
    assert_eq!(m.mission_type, MissionType::FightBarbarians { units: vec![8] });
    assert!(!is_complete(&m, false, None, 1));
}

#[test]
fn settling_target_moves_away_from_cities() {
    let mut m = Mission {
        units: vec![1],
        player_index: 0,
        mission_type: MissionType::FoundCity,
        target: p(5, 0),
        current_location: p(0, 0),
    };
    let players = vec![vec![(1, p(0, 0))]];
    update_mission(&mut m, &players, 0, 0, &[p(6, 0)], p(-5, 0));
    assert_eq!(m.target, p(-5, 0));
    update_mission(&mut m, &players, 0, 0, &[p(6, 0)], p(9, 9));
    assert_eq!(m.target, p(-5, 0));
}

#[test]
fn scattered_enemy_forces_end_the_fight() {
    let mut m = Mission {
        units: vec![1],
        player_index: 0,
        mission_type: MissionType::FightPlayerForces { player_index: 1, units: vec![5, 6] },
        target: p(3, 0),
        current_location: p(0, 0),
    };
    let players = vec![vec![(1, p(0, 0))], vec![(5, p(3, 1)), (6, p(3, 0))], vec![]];
    update_mission(&mut m, &players, 2, 2, &[], p(0, 0));
    assert_eq!(m.target, p(3, 1));
    assert!(m.units.is_empty());
    assert!(is_complete(&m, false, None, 2));
}

#[test]
fn mission_completion() {
    let m = Mission {
        units: vec![1],
        player_index: 0,
        mission_type: MissionType::CapturePlayerCity { player_index: 3 },
        target: p(3, 0),
        current_location: p(0, 0),
    };
    assert!(!is_complete(&m, false, Some(3), 9));
    assert!(is_complete(&m, false, Some(0), 9));
    let m = Mission { mission_type: MissionType::Explore, ..m };
    assert!(is_complete(&m, true, None, 9));
    assert!(!is_complete(&m, false, None, 9));
}

#[test]
fn completed_missions_release_their_units() {
    let m = |units: Vec<u32>, t: i32| Mission {
        units,
        player_index: 0,
        mission_type: MissionType::Explore,
        target: p(t, 0),
        current_location: p(0, 0),
    };
    let mut idle = vec![9];
    let left = release_completed(vec![m(vec![1, 2], 1), m(vec![3], 2), m(vec![4], 3)], &[true, false, true], &mut idle);
    assert_eq!(idle, vec![9, 1, 2, 4]);
    assert_eq!(left.len(), 1);
    assert_eq!(left[0].units, vec![3]);
}

#[test]
fn runs_of_the_same_mission_are_joined() {
    let m = |units: Vec<u32>, t: i32, mt: MissionType| Mission {
        units,
        player_index: 0,
        mission_type: mt,
        target: p(t, 0),
        current_location: p(0, 0),
    };
    let joined = join_missions(vec![
        m(vec![1], 1, MissionType::Explore),
        m(vec![2], 1, MissionType::Explore),
        m(vec![3], 1, MissionType::DefendCity),
        m(vec![4], 1, MissionType::Explore),
        m(vec![5], 2, MissionType::FightBarbarians { units: vec![7] }),
        m(vec![6], 2, MissionType::FightBarbarians { units: vec![7] }),
    ]);
    let units: Vec<Vec<u32>> = joined.iter().map(|m| m.units.clone()).collect();
    assert_eq!(units, vec![vec![1, 2], vec![3], vec![4], vec![5, 6]]);
}

fn players() -> Vec<PlayerPieces> {
    vec![
        PlayerPieces { index: 0, human: true, cities: vec![p(0, 0)], units: vec![(1, p(0, 0))] },
        PlayerPieces { index: 1, human: true, cities: vec![p(3, 3), p(4, 4)], units: vec![(5, p(3, 2)), (6, p(3, 2)), (7, p(9, 9))] },
        PlayerPieces { index: 2, human: false, cities: vec![p(8, 8)], units: vec![(9, p(8, 7))] },
    ]
}

#[test]
fn targets_are_the_other_human_players() {
    assert_eq!(enemy_city_targets(&players(), 0), vec![(1, p(3, 3)), (1, p(4, 4))]);
    assert_eq!(enemy_city_targets(&players(), 1), vec![(0, p(0, 0))]);
    assert_eq!(
        enemy_force_targets(&players(), 0),
        vec![(1, p(3, 2), vec![5, 6]), (1, p(3, 2), vec![5, 6]), (1, p(9, 9), vec![7])]
    );
    assert_eq!(force_targets(&vec![(9, p(8, 7))]), vec![(p(8, 7), vec![9])]);
}

#[test]
fn idle_unit_takes_a_mission() {
    let t = |q: i32| server::ai_missions::MissionTarget { mission_type: MissionType::Explore, target: p(q, 0) };
    assert!(choose_mission(vec![], 3).is_none());
    assert_eq!(choose_mission(vec![t(1)], 7).unwrap().target, p(1, 0));
    assert_eq!(choose_mission(vec![t(1), t(2), t(3)], 2).unwrap().target, p(3, 0));
}
