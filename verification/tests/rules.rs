use server::action_cost::{
    ActionCost, ActionCostError, ActionCostOncePerTurnBuilder, ActionResourceCost,
};
use server::card::{hand_cards, HandCard, HandCardLocation, HandCardType};
use server::city::{City, MoodState};
use server::city_pieces::Building;
use server::collect::{
    add_collect, execute_collect, get_total_collection, Collected, tiles_used, CollectError, CollectInfo, PositionCollection,
};
use server::construct::{
    can_construct, can_construct_anything, new_building_positions, port_position_valid, Construct,
    ConstructDiscount, ConstructError, ConstructInfo,
};
use server::custom_actions::{next_phase_step, CustomActionType, PhaseStep};
use server::advance::Advance;
use server::position::Position;
use server::resource_pile::ResourcePile;
use server::unit::{UnitType, Units};
use server::wonder::Wonder;

#[test]
fn resource_costs() {
    assert_eq!(ActionResourceCost::resources(ResourcePile::empty()), ActionResourceCost::Free);
    assert_eq!(ActionResourceCost::tokens(0), ActionResourceCost::Free);
    assert_eq!(ActionResourceCost::tokens(2), ActionResourceCost::Tokens(2));
    let c = ActionCostOncePerTurnBuilder::new(CustomActionType::Sports)
        .once_per_turn()
        .free_action()
        .culture_tokens(1);
    assert_eq!(c.once_per_turn, Some(CustomActionType::Sports));
    assert!(c.cost.free);
    assert_eq!(c.cost.cost, ActionResourceCost::Resources(ResourcePile::culture_tokens(1)));
    let c = ActionCostOncePerTurnBuilder::new(CustomActionType::Taxes).any_times().action().no_resources();
    assert_eq!(c.once_per_turn, None);
    assert!(!c.cost.free);
    let c = ActionCostOncePerTurnBuilder::new(CustomActionType::Taxes)
        .once_per_turn_mutually_exclusive(CustomActionType::Bartering)
        .action()
        .advance_cost_without_discounts();
    assert_eq!(c.once_per_turn, Some(CustomActionType::Bartering));
    assert_eq!(c.cost.cost, ActionResourceCost::AdvanceCostWithoutDiscount);
}

#[test]
fn action_availability() {
    let c = ActionCost::new(false, ActionResourceCost::free());
    assert_eq!(c.is_available(false, true, 0), Err(ActionCostError::NoActionsLeft));
    assert_eq!(c.is_available(false, false, 3), Err(ActionCostError::NotEnoughResources));
    assert_eq!(c.is_available(true, false, 0), Ok(()));
    assert_eq!(ActionCost::new(true, ActionResourceCost::free()).is_available(false, true, 0), Ok(()));
}

#[test]
fn hand_cards_in_type_order() {
    let cards = hand_cards(&vec![3, 4], &vec![7], &vec![Wonder::Pyramids], &[HandCardType::Wonder, HandCardType::Action]);
    assert_eq!(cards, vec![HandCard::Wonder(Wonder::Pyramids), HandCard::ActionCard(3), HandCard::ActionCard(4)]);
    assert_eq!(HandCard::ObjectiveCard(1).card_type(), HandCardType::Objective);
    assert_eq!(HandCardType::get_all().len(), 3);
    assert_eq!(HandCardType::Action.to_string(), "an action card");
    assert_eq!(HandCardLocation::Hand(2).player(), Some(2));
    assert_eq!(HandCardLocation::DiscardPile.player(), None);
    assert!(!HandCardLocation::Hand(2).is_public());
    assert!(HandCardLocation::DiscardPile.is_public());
    assert!(!HandCardLocation::GreatSeer(1).is_public());
}

fn info() -> CollectInfo {
    let mut i = CollectInfo::new(
        vec![
            (Position::new(0, 0), vec![ResourcePile::food(1)]),
            (Position::new(1, 0), vec![ResourcePile::wood(1), ResourcePile::ore(1)]),
            (Position::new(2, 0), vec![ResourcePile::ore(1)]),
        ],
        Position::new(0, 0),
        2,
    );
    i.max_range2_tiles = 1;
    i
}

#[test]
fn collect_valid() {
    let c = vec![
        PositionCollection::new(Position::new(0, 0), ResourcePile::food(1)),
        PositionCollection::new(Position::new(1, 0), ResourcePile::wood(1)),
    ];
    assert_eq!(tiles_used(&c), 2);
    let r = get_total_collection(info(), 0, 0, &c).unwrap();
    assert_eq!(r.total, ResourcePile::new(1, 1, 0, 0, 0, 0, 0));
}

#[test]
fn collect_errors() {
    let one = vec![PositionCollection::new(Position::new(0, 0), ResourcePile::food(1))];
    assert_eq!(get_total_collection(info(), 0, 1, &one).unwrap_err(), CollectError::NotYourCity);
    let three = vec![PositionCollection::new(Position::new(0, 0), ResourcePile::food(1)).times(3)];
    assert_eq!(get_total_collection(info(), 0, 0, &three).unwrap_err(), CollectError::TooManyTiles { max: 2, got: 3 });
    let far = vec![PositionCollection::new(Position::new(2, 0), ResourcePile::ore(1))];
    assert!(get_total_collection(info(), 0, 0, &far).is_ok());
    let mut i = info();
    i.max_range2_tiles = 0;
    assert_eq!(get_total_collection(i, 0, 0, &far).unwrap_err(), CollectError::TooManyRange2Tiles { max: 0, count: 1 });
    let twice = vec![
        PositionCollection::new(Position::new(1, 0), ResourcePile::wood(1)),
        PositionCollection::new(Position::new(1, 0), ResourcePile::ore(1)),
    ];
    assert_eq!(get_total_collection(info(), 0, 0, &twice).unwrap_err(), CollectError::TooManyPerTile { max: 1 });
    let wrong = vec![PositionCollection::new(Position::new(0, 0), ResourcePile::gold(1))];
    assert_eq!(get_total_collection(info(), 0, 0, &wrong).unwrap_err(), CollectError::NotAnOption { position: Position::new(0, 0) });
    assert_eq!(get_total_collection(info(), 0, 0, &[]).unwrap_err(), CollectError::NothingCollected);
}

#[test]
fn add_collect_toggles() {
    let mut i = info();
    let p = Position::new(1, 0);
    let wood = ResourcePile::wood(1);
    let c = add_collect(&i, p, &wood, &[]);
    assert_eq!(c, vec![PositionCollection::new(p, wood)]);
    let c = add_collect(&i, p, &wood, &c);
    assert!(c.is_empty());
    i.max_per_tile = 2;
    let c = add_collect(&i, p, &wood, &[PositionCollection::new(p, wood)]);
    assert_eq!(c[0].times, 2);
    assert_eq!(c[0].total(), ResourcePile::wood(2));
}

#[test]
fn construct_rules() {
    let mut city = City::new(0, Position::new(0, 0));
    assert_eq!(can_construct_anything(&city, 0, 2, true), Ok(()));
    assert_eq!(can_construct_anything(&city, 1, 2, true), Err(ConstructError::NotYourCity));
    assert_eq!(can_construct_anything(&city, 0, 1, true), Err(ConstructError::NeedMoreCities));
    assert_eq!(
        can_construct(&city, Building::Temple, 0, 3, true, Advance::Myths, false, ResourcePile::wood(1), true, true, &[]),
        Err(ConstructError::MissingAdvance(Advance::Myths))
    );
    assert_eq!(
        can_construct(&city, Building::Temple, 0, 3, true, Advance::Myths, true, ResourcePile::wood(1), true, false, &[]),
        Err(ConstructError::NotEnoughResources)
    );
    assert_eq!(
        can_construct(&city, Building::Temple, 0, 3, true, Advance::Myths, true, ResourcePile::wood(1), true, false, &[ConstructDiscount::NoResourceCost]),
        Ok(ResourcePile::wood(1))
    );
    city.mood_state = MoodState::Angry;
    assert_eq!(
        can_construct(&city, Building::Temple, 0, 3, true, Advance::Myths, true, ResourcePile::wood(1), true, true, &[]),
        Err(ConstructError::CityIsAngry)
    );
    city.pieces.set_building(Building::Temple, 0);
    assert_eq!(
        can_construct(&city, Building::Temple, 0, 3, true, Advance::Myths, true, ResourcePile::wood(1), true, true, &[]),
        Err(ConstructError::BuildingAlreadyExists)
    );
    city.angry_activation = true;
    assert_eq!(can_construct_anything(&city, 0, 5, true), Err(ConstructError::CantActivate));
    assert_eq!(can_construct_anything(&city, 0, 5, false), Ok(()));
}

#[test]
fn port_positions() {
    let city = City::new(0, Position::new(0, 0));
    assert_eq!(new_building_positions(Building::Market, &city, &[Position::new(1, 0)]), vec![None]);
    assert_eq!(
        new_building_positions(Building::Port, &city, &[Position::new(1, 0), Position::new(3, 0), Position::new(0, -1)]),
        vec![Some(Position::new(1, 0)), Some(Position::new(0, -1))]
    );
    let c = Construct::new(Position::new(0, 0), Building::Port, ResourcePile::empty());
    assert!(!port_position_valid(&c, Position::new(0, 0)));
    let c = c.with_port_position(Some(Position::new(1, 0)));
    assert!(port_position_valid(&c, Position::new(0, 0)));
    assert_eq!(ConstructInfo::new(Building::Port).building, Building::Port);
}

#[test]
fn units_counting() {
    let mut u = Units::empty();
    u.add_unit(&UnitType::Cavalry);
    u.add_unit(&UnitType::Cavalry);
    u.add_unit(&UnitType::Leader);
    assert_eq!(u.amount(), 3);
    assert!(u.has_leader());
    assert_eq!(u.to_vec(), vec![UnitType::Cavalry, UnitType::Cavalry, UnitType::Leader]);
    u.remove_unit(&UnitType::Cavalry);
    assert_eq!(u.get_amount(&UnitType::Cavalry), 1);
    assert_eq!(Units::from_types(&[UnitType::Ship, UnitType::Ship]).ships, 2);
    assert!(UnitType::Leader.is_army_unit());
    assert!(!UnitType::Ship.is_army_unit());
    assert!(UnitType::Ship.is_military());
}

#[test]
fn piles_and_positions() {
    let a = ResourcePile::new(1, 2, 3, 0, 0, 0, 1);
    assert_eq!(a.amount(), 7);
    assert_eq!(a.add(&ResourcePile::gold(2)).gold, 2);
    assert_eq!(a.times(2).ore, 6);
    assert!(ResourcePile::empty().is_empty());
    assert_eq!(Position::new(0, 0).distance(Position::new(2, -1)), 2);
    assert_eq!(Position::new(0, 0).distance(Position::new(-3, 3)), 3);
    let n = Position::new(5, 5).neighbors();
    assert_eq!(n.len(), 6);
    assert!(n.iter().all(|p| p.is_neighbor(Position::new(5, 5))));
}

#[test]
fn units_listed_and_counted_back() {
    let u = Units::new(1, 2, 0, 3, 0, 1);
    let listed = u.to_vec();
    assert_eq!(listed.len(), 7);
    assert_eq!(Units::from_types(&listed), u);
    let mut v = u;
    v.add_unit(&UnitType::Ship);
    assert_eq!(v.get_amount(&UnitType::Ship), 1);
    v.remove_unit(&UnitType::Ship);
    assert_eq!(v, u);
}

#[test]
fn collect_activates_city() {
    let mut city = City::new(0, Position::new(0, 0));
    let near = vec![PositionCollection::new(Position::new(1, 0), ResourcePile::wood(1))];
    let r = execute_collect(&mut city, info(), 0, &near).unwrap();
    assert_eq!(r, Collected { total: ResourcePile::wood(1), range2_used: false });
    assert_eq!(city.activations, 1);
    let far = vec![PositionCollection::new(Position::new(2, 0), ResourcePile::ore(1))];
    let r = execute_collect(&mut city, info(), 0, &far).unwrap();
    assert_eq!(r, Collected { total: ResourcePile::ore(1), range2_used: true });
    assert_eq!(city.activations, 2);
    assert_eq!(city.mood_state, MoodState::Angry);
    let r = execute_collect(&mut city, info(), 1, &near);
    assert_eq!(r, Err(CollectError::NotYourCity));
    assert_eq!(city.activations, 2);
    city.mood_state = MoodState::Angry;
    let r = execute_collect(&mut city, info(), 0, &near);
    assert_eq!(r.unwrap().range2_used, false);
    assert!(!city.can_activate());
    assert_eq!(execute_collect(&mut city, info(), 0, &near), Err(CollectError::CityCannotActivate));
    assert_eq!(city.activations, 3);
}

#[test]
fn custom_phase_continues_or_waits() {
    assert_eq!(next_phase_step(None), PhaseStep::Done);
    assert_eq!(next_phase_step(Some((2, false))), PhaseStep::Continue(2));
    assert_eq!(next_phase_step(Some((2, true))), PhaseStep::WaitForAnswer);
}
