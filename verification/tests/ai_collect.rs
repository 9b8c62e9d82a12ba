use server::ai_collect::{generate_all_combinations, possible_collections, total_collect};
use server::city::{City, MoodState};
use server::content::advances::agriculture::husbandry_collect;
use server::content::advances::seafaring::fishing_collect;
use server::collect::{
    base_resource_collections, collect_only_options, possible_resource_collections, retain_collectable_choices, CollectInfo, PositionCollection,
};
use server::map::{base_terrain_options, hex_options, Terrain};
use server::position::Position;
use server::resource_pile::ResourcePile;

/// The hexagon at a map coordinate such as "D3": a column letter and a row number, odd columns
/// shifted down half a hexagon.
fn from_offset(s: &str) -> Position {
    let mut chars = s.chars();
    let col = chars.next().unwrap() as i32 - 'A' as i32;
    let row = chars.as_str().parse::<i32>().unwrap() - 1;
    Position::new(col, row - (col - (col & 1)) / 2)
}

fn info(max: u8, choices: Vec<(Position, Vec<ResourcePile>)>) -> CollectInfo {
    CollectInfo::new(choices, from_offset("D3"), max)
}

fn assert_total(result: &[Vec<PositionCollection>], expected: &[ResourcePile]) {
    let got: Vec<ResourcePile> = result.iter().map(total_collect).collect();
    assert_eq!(got.len(), expected.len(), "Total mismatch: {got:?} vs {expected:?}");
    for e in expected {
        assert!(got.contains(e), "Total mismatch: {got:?} vs {expected:?}");
    }
}

#[test]
fn test_possible_collections() {
    let mut info = info(
        1,
        vec![
            (from_offset("D2"), vec![ResourcePile::food(1)]),
            (from_offset("E2"), vec![ResourcePile::wood(1)]),
            (from_offset("E3"), vec![ResourcePile::ore(1)]),
            (from_offset("D4"), vec![ResourcePile::ore(1)]),
        ],
    );
    assert_total(
        &possible_collections(&info),
        &[ResourcePile::ore(1), ResourcePile::food(1), ResourcePile::wood(1)],
    );

    info.max_selection = 2;
    assert_total(
        &possible_collections(&info),
        &[
            ResourcePile::ore(2),
            ResourcePile::food(1).add(&ResourcePile::wood(1)),
            ResourcePile::food(1).add(&ResourcePile::ore(1)),
            ResourcePile::wood(1).add(&ResourcePile::ore(1)),
        ],
    );
}

#[test]
fn test_husbandry() {
    let mut info = info(
        1,
        vec![
            (from_offset("D4"), vec![ResourcePile::food(1)]),
            (from_offset("D1"), vec![ResourcePile::food(1)]),
            (from_offset("C5"), vec![ResourcePile::gold(1)]),
            (from_offset("D5"), vec![ResourcePile::gold(1)]),
        ],
    );
    info.max_range2_tiles = 1;
    let collections = possible_collections(&info);

    assert_total(&collections, &[ResourcePile::gold(1), ResourcePile::food(1)]);

    let positions: Vec<Vec<Position>> = collections
        .iter()
        .map(|c| c.iter().map(|p| p.position).collect())
        .collect();

    assert_eq!(
        positions,
        vec![vec![from_offset("D4")], vec![from_offset("C5")]]
    );

    info.max_range2_tiles = 2;
    info.max_selection = 3;
    assert_total(
        &possible_collections(&info),
        &[
            ResourcePile::gold(2).add(&ResourcePile::food(1)),
            ResourcePile::gold(1).add(&ResourcePile::food(2)),
        ],
    );
}

#[test]
fn test_husbandry_not_enough_tiles() {
    let mut info = info(
        2,
        vec![
            (from_offset("C5"), vec![ResourcePile::gold(1)]),
            (from_offset("D5"), vec![ResourcePile::gold(1)]),
        ],
    );
    info.max_range2_tiles = 1;

    assert_total(&possible_collections(&info), &[ResourcePile::gold(1)]);
}

#[test]
fn test_port() {
    let info = info(
        2,
        vec![
            (
                from_offset("D3"),
                vec![ResourcePile::gold(1), ResourcePile::mood_tokens(1)],
            ),
            (from_offset("D4"), vec![ResourcePile::gold(1)]),
        ],
    );
    assert_total(
        &possible_collections(&info),
        &[
            ResourcePile::gold(2),
            ResourcePile::gold(1).add(&ResourcePile::mood_tokens(1)),
        ],
    );
}

#[test]
fn combinations_in_lexicographic_order() {
    assert_eq!(
        generate_all_combinations(4, 2),
        vec![
            vec![0, 1],
            vec![0, 2],
            vec![0, 3],
            vec![1, 2],
            vec![1, 3],
            vec![2, 3]
        ]
    );
    assert_eq!(generate_all_combinations(3, 3), vec![vec![0, 1, 2]]);
    assert_eq!(generate_all_combinations(3, 0), vec![Vec::<usize>::new()]);
    assert_eq!(generate_all_combinations(0, 0), vec![Vec::<usize>::new()]);
    assert_eq!(generate_all_combinations(5, 4).len(), 5);
}

#[test]
fn total_of_collections() {
    let p = Position::new(0, 0);
    let c = vec![
        PositionCollection::new(p, ResourcePile::food(1)).times(2),
        PositionCollection::new(p, ResourcePile::gold(3)),
    ];
    assert_eq!(
        total_collect(&c),
        ResourcePile::new(2, 0, 0, 0, 3, 0, 0)
    );
    assert_eq!(total_collect(&vec![]), ResourcePile::empty());
}

#[test]
fn nothing_to_collect_without_selection() {
    let small = info(0, vec![(from_offset("D4"), vec![ResourcePile::food(1)])]);
    assert!(possible_collections(&small).is_empty());
    let none = info(2, vec![]);
    assert!(possible_collections(&none).is_empty());
}

#[test]
fn nearest_tiles_come_first() {
    let info = info(
        1,
        vec![
            (from_offset("D1"), vec![ResourcePile::wood(1)]),
            (from_offset("D3"), vec![ResourcePile::ore(1)]),
            (from_offset("D2"), vec![ResourcePile::food(1)]),
        ],
    );
    let positions: Vec<Position> = possible_collections(&info)
        .iter()
        .map(|c| c[0].position)
        .collect();
    assert_eq!(
        positions,
        vec![from_offset("D3"), from_offset("D2"), from_offset("D1")]
    );
}

#[test]
fn collect_options_of_a_city() {
    let mut city = City::new(0, Position::new(0, 0));
    city.mood_state = MoodState::Happy;
    let terrain = vec![
        (Position::new(0, 0), vec![ResourcePile::food(1)]),
        (Position::new(1, 0), vec![ResourcePile::ore(1)]),
        (Position::new(5, 5), vec![ResourcePile::wood(1)]),
        (Position::new(0, -1), vec![ResourcePile::wood(1), ResourcePile::gold(1)]),
    ];
    let mut info = base_resource_collections(&city, false, &terrain);
    assert_eq!(info.max_selection, 2);
    assert_eq!(info.max_per_tile, 1);
    assert_eq!(info.max_range2_tiles, 0);
    assert_eq!(
        info.choices,
        vec![
            (Position::new(0, -1), vec![ResourcePile::wood(1), ResourcePile::gold(1)]),
            (Position::new(1, 0), vec![ResourcePile::ore(1)]),
            (Position::new(0, 0), vec![ResourcePile::food(1)]),
        ]
    );
    retain_collectable_choices(&mut info, &[Position::new(0, 0), Position::new(1, 0)], &[Position::new(0, -1)]);
    assert_eq!(info.choices, vec![(Position::new(0, 0), vec![ResourcePile::food(1)])]);
}

#[test]
fn husbandry_adds_land_two_steps_away() {
    let city = Position::new(0, 0);
    let mut info = CollectInfo::new(vec![(Position::new(1, 0), vec![ResourcePile::ore(1)])], city, 2);
    let land = vec![
        (Position::new(2, 0), vec![ResourcePile::food(1)]),
        (Position::new(1, 0), vec![ResourcePile::wood(1)]),
        (Position::new(0, 2), vec![]),
        (Position::new(3, 0), vec![ResourcePile::gold(1)]),
    ];
    husbandry_collect(&mut info, false, &land);
    assert_eq!(info.max_range2_tiles, 1);
    assert_eq!(
        info.choices,
        vec![
            (Position::new(1, 0), vec![ResourcePile::ore(1)]),
            (Position::new(2, 0), vec![ResourcePile::food(1)]),
            (Position::new(0, 2), vec![]),
        ]
    );
    husbandry_collect(&mut info, true, &vec![(Position::new(2, 0), vec![ResourcePile::wood(1)])]);
    assert_eq!(info.max_range2_tiles, 2);
    assert_eq!(info.choices[1], (Position::new(2, 0), vec![ResourcePile::wood(1)]));
    assert_eq!(info.choices.len(), 3);
}

#[test]
fn production_focus_and_mass_production() {
    let mut info = CollectInfo::new(vec![], Position::new(0, 0), 3);
    collect_only_options(&mut info, true, false);
    assert_eq!(info.max_per_tile, 3);
    assert_eq!(info.max_selection, 3);
    collect_only_options(&mut info, false, true);
    assert_eq!(info.max_per_tile, 3);
    assert_eq!(info.max_selection, 5);
}

#[test]
fn fishing_and_ports() {
    let city = Position::new(0, 0);
    let port = Position::new(1, 0);
    let mut info = CollectInfo::new(vec![], city, 2);
    fishing_collect(&mut info, None, false, &[port], &[]);
    assert!(info.choices.is_empty());
    fishing_collect(&mut info, Some(port), false, &[port], &[]);
    assert_eq!(
        info.choices,
        vec![(port, vec![ResourcePile::gold(1), ResourcePile::mood_tokens(1)])]
    );
    let mut info = CollectInfo::new(vec![], city, 2);
    fishing_collect(&mut info, Some(port), true, &[port, Position::new(0, 1)], &[port]);
    assert_eq!(info.choices, vec![(Position::new(0, 1), vec![ResourcePile::food(1)])]);
    let mut info = CollectInfo::new(vec![], city, 2);
    fishing_collect(&mut info, Some(port), true, &[port], &[]);
    assert_eq!(info.choices[0].1.len(), 3);
    let mut info = CollectInfo::new(vec![], city, 2);
    fishing_collect(&mut info, None, true, &[], &[]);
    assert!(info.choices.is_empty());
}

#[test]
fn possible_collections_after_abilities() {
    let mut city = City::new(0, Position::new(0, 0));
    city.mood_state = MoodState::Happy;
    let map = vec![
        (Position::new(0, 0), Terrain::Fertile),
        (Position::new(1, 0), Terrain::Mountain),
        (Position::new(0, -1), Terrain::Forest),
        (Position::new(1, -1), Terrain::Water),
        (Position::new(-1, 0), Terrain::Barren),
    ];
    let cities = [Position::new(0, 0), Position::new(1, 0)];
    let plain = possible_resource_collections(&city, false, &map, |t| t, &cities, &[], |i| i);
    assert_eq!(
        plain.choices,
        vec![
            (Position::new(0, -1), vec![ResourcePile::wood(1)]),
            (Position::new(0, 0), vec![ResourcePile::food(1)]),
        ]
    );
    assert_eq!(plain.max_selection, 2);
    assert_eq!(plain.max_per_tile, 1);
    assert_eq!(plain.max_range2_tiles, 0);
    assert_eq!(plain.city, Position::new(0, 0));
    let more = possible_resource_collections(
        &city,
        false,
        &map,
        |mut t| {
            t.push((Terrain::Barren, vec![ResourcePile::gold(1)]));
            t
        },
        &[Position::new(1, 0)],
        &[Position::new(0, -1)],
        |mut i| {
            i.max_selection = 4;
            i
        },
    );
    assert_eq!(
        more.choices,
        vec![
            (Position::new(-1, 0), vec![ResourcePile::gold(1)]),
            (Position::new(0, 0), vec![ResourcePile::food(1)]),
        ]
    );
    assert_eq!(more.max_selection, 4);
}

#[test]
fn collect_choices_name_each_position_once() {
    let city = City::new(0, Position::new(0, 0));
    let terrain = vec![
        (Position::new(0, 0), vec![ResourcePile::food(1)]),
        (Position::new(1, 0), vec![ResourcePile::ore(1)]),
        (Position::new(1, 0), vec![ResourcePile::wood(1)]),
    ];
    let mut info = base_resource_collections(&city, false, &terrain);
    let land = vec![(Position::new(2, 0), vec![ResourcePile::food(1)]), (Position::new(2, 0), vec![ResourcePile::wood(1)])];
    husbandry_collect(&mut info, false, &land);
    let mut seen: Vec<Position> = vec![];
    for (p, _) in &info.choices {
        assert!(!seen.contains(p));
        seen.push(*p);
    }
    assert_eq!(info.choices.len(), 3);
}

#[test]
fn terrain_gives_its_resources() {
    let t = base_terrain_options();
    assert_eq!(
        t,
        vec![
            (Terrain::Mountain, vec![ResourcePile::ore(1)]),
            (Terrain::Fertile, vec![ResourcePile::food(1)]),
            (Terrain::Forest, vec![ResourcePile::wood(1)]),
        ]
    );
    let map = [(Position::new(3, 3), Terrain::Water), (Position::new(4, 4), Terrain::Forest)];
    assert_eq!(hex_options(&map, &t), vec![(Position::new(4, 4), vec![ResourcePile::wood(1)])]);
}
