use server::ai_actions::calculate_increase_happiness;
use server::city::{
    activate_city, decrease_city_mood, found_city, gain_city, increase_mood_state, lose_city,
    non_angry_cites, City, MoodState,
};
use server::city_pieces::{Building, CityPieces, DestroyedStructures};
use server::civilization::Civilization;
use server::position::Position;
use server::wonder::Wonder;

#[test]
fn new_city_has_size_one() {
    let c = City::new(0, Position::new(1, 2));
    assert_eq!(c.size(), 1);
    assert_eq!(c.mood_state, MoodState::Neutral);
    assert!(c.can_activate());
    assert!(!c.is_activated());
    assert!(!c.influenced());
}

#[test]
fn size_counts_buildings_and_wonders() {
    let mut c = City::new(0, Position::new(0, 0));
    c.pieces.set_building(Building::Academy, 0);
    c.pieces.set_building(Building::Temple, 1);
    c.pieces.wonders.push(Wonder::Pyramids);
    assert_eq!(c.pieces.amount(), 3);
    assert_eq!(c.size(), 4);
    assert!(c.influenced());
    assert_eq!(c.pieces.buildings(None), vec![Building::Academy, Building::Temple]);
    assert_eq!(c.pieces.buildings(Some(1)), vec![Building::Temple]);
}

#[test]
fn mood_modified_size_follows_mood() {
    let mut c = City::new(0, Position::new(0, 0));
    c.pieces.set_building(Building::Market, 0);
    assert_eq!(c.mood_modified_size(false), 2);
    c.mood_state = MoodState::Happy;
    assert_eq!(c.mood_modified_size(false), 3);
    c.mood_state = MoodState::Angry;
    assert_eq!(c.mood_modified_size(false), 1);
    assert_eq!(c.mood_modified_size(true), 2);
}

#[test]
fn mood_steps_saturate() {
    assert_eq!(MoodState::Angry.plus(1), MoodState::Neutral);
    assert_eq!(MoodState::Angry.plus(2), MoodState::Happy);
    assert_eq!(MoodState::Happy.plus(1), MoodState::Happy);
    assert_eq!(MoodState::Happy.minus(1), MoodState::Neutral);
    assert_eq!(MoodState::Neutral.minus(5), MoodState::Angry);
    assert_eq!(MoodState::Neutral.plus(0), MoodState::Neutral);
    assert_eq!(MoodState::Happy.to_string(), "Happy");
}

#[test]
fn second_activation_decreases_mood() {
    let mut c = City::new(0, Position::new(0, 0));
    c.mood_state = MoodState::Happy;
    activate_city(&mut c);
    assert_eq!(c.activations, 1);
    assert_eq!(c.mood_state, MoodState::Happy);
    activate_city(&mut c);
    assert_eq!(c.activations, 2);
    assert_eq!(c.mood_state, MoodState::Neutral);
    assert!(c.activation_mood_decreased);
    c.deactivate();
    assert_eq!(c.activations, 0);
}

#[test]
fn angry_activation_blocks_next_activation() {
    let mut c = City::new(0, Position::new(0, 0));
    c.mood_state = MoodState::Angry;
    activate_city(&mut c);
    assert!(c.angry_activation);
    assert!(!c.can_activate());
    increase_mood_state(&mut c, 1);
    assert!(c.can_activate());
    assert_eq!(c.mood_state, MoodState::Neutral);
    decrease_city_mood(&mut c);
    decrease_city_mood(&mut c);
    assert_eq!(c.mood_state, MoodState::Angry);
}

#[test]
fn non_angry_cities_in_order() {
    let mut a = City::new(0, Position::new(0, 0));
    a.mood_state = MoodState::Angry;
    let b = City::new(0, Position::new(1, 0));
    let mut c = City::new(0, Position::new(2, 0));
    c.mood_state = MoodState::Happy;
    assert_eq!(
        non_angry_cites(&vec![a, b, c]),
        vec![Position::new(1, 0), Position::new(2, 0)]
    );
}

#[test]
fn city_data_round_trip() {
    let mut c = City::new(3, Position::new(4, -1));
    c.pieces.set_building(Building::Port, 3);
    c.port_position = Some(Position::new(5, -1));
    c.activations = 2;
    let d = c.cloned_data();
    let back = City::from_data(d, 3);
    assert_eq!(back.pieces.port, Some(3));
    assert_eq!(back.port_position, Some(Position::new(5, -1)));
    assert_eq!(back.activations, 2);
    assert_eq!(back.position, Position::new(4, -1));
    let d2 = back.data();
    assert_eq!(d2.activations, 2);
}

#[test]
fn city_pieces_ownership() {
    let mut p = CityPieces::empty();
    assert!(p.can_add_building(Building::Fortress));
    p.set_building(Building::Fortress, 2);
    assert!(!p.can_add_building(Building::Fortress));
    assert_eq!(p.building_owner(Building::Fortress), Some(2));
    p.remove_building(Building::Fortress);
    assert_eq!(p.building_owner(Building::Fortress), None);
    assert_eq!(p.building_owners().len(), 7);
    assert_eq!(Building::all().len(), 7);
    assert_eq!(Building::Observatory.name(), "Observatory");
}

#[test]
fn destroyed_structures_count() {
    let mut d = DestroyedStructures::new();
    assert!(d.cloned_data().is_empty());
    d.add_building(Building::Temple);
    d.add_building(Building::Temple);
    assert_eq!(d.get_building(Building::Temple), 2);
    assert_eq!(d.get_building(Building::Market), 0);
    assert!(!d.cloned_data().is_empty());
}

#[test]
fn civilizations() {
    let b = Civilization::new("Barbarians");
    assert!(b.is_barbarian());
    assert!(!b.is_human());
    let p = Civilization::new("Pirates");
    assert!(p.is_pirates());
    let r = Civilization::new("Rome");
    assert!(r.is_human());
    assert!(!r.same_as(&b));
    assert_eq!(Wonder::GreatWall.name(), "Great Wall");
}

#[test]
fn founding_gaining_and_losing_cities() {
    let mut cities = vec![City::new(0, Position::new(0, 0))];
    found_city(&mut cities, 0, Position::new(2, 0));
    assert_eq!(cities.len(), 2);
    assert_eq!(cities[1].position, Position::new(2, 0));
    assert_eq!(cities[1].size(), 1);
    let conquered = City::new(1, Position::new(5, 5));
    gain_city(&mut cities, 0, conquered);
    assert_eq!(cities[2].player_index, 0);
    let lost = lose_city(&mut cities, Position::new(2, 0));
    assert_eq!(lost.position, Position::new(2, 0));
    assert_eq!(cities.len(), 2);
    assert_eq!(cities[1].position, Position::new(5, 5));
}

#[test]
fn biggest_cities_are_made_happy_first() {
    let mut a = City::new(0, Position::new(0, 0));
    a.mood_state = MoodState::Neutral;
    let mut b = City::new(0, Position::new(1, 0));
    b.pieces.set_building(Building::Academy, 0);
    b.pieces.set_building(Building::Market, 0);
    b.mood_state = MoodState::Angry;
    let mut c = City::new(0, Position::new(2, 0));
    c.pieces.set_building(Building::Temple, 0);
    c.mood_state = MoodState::Happy;
    let mut d = City::new(0, Position::new(3, 0));
    d.pieces.set_building(Building::Obelisk, 0);
    d.pieces.set_building(Building::Port, 0);
    let cities = vec![a, b, c, d];
    let mut affordable = vec![true; 256];
    affordable[10] = false;
    assert_eq!(
        calculate_increase_happiness(&cities, &affordable),
        Some((vec![(Position::new(1, 0), 2), (Position::new(3, 0), 1)], 9))
    );
    affordable[10] = true;
    assert_eq!(
        calculate_increase_happiness(&cities, &affordable),
        Some((
            vec![(Position::new(1, 0), 2), (Position::new(3, 0), 1), (Position::new(0, 0), 1)],
            10
        ))
    );
    assert_eq!(calculate_increase_happiness(&cities, &vec![false; 256]), None);
}
