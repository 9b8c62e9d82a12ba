use vstd::prelude::*;

use crate::advance::Advance;
use crate::city::{City, MoodState, city_size};
use crate::city_pieces::Building;
use crate::consts::MAX_CITY_PIECES;
use crate::position::{hex_distance, Position};
use crate::resource_pile::ResourcePile;

verus! {

/// Constructing a building in a city.
#[derive(Clone, Copy, Debug, PartialEq, Eq, Structural)]
pub struct Construct {
    pub city_position: Position,
    pub city_piece: Building,
    pub payment: ResourcePile,
    pub port_position: Option<Position>,
}

impl Construct {
    pub fn new(city_position: Position, city_piece: Building, payment: ResourcePile) -> (r: Construct)
        ensures
            r == (Construct { city_position, city_piece, payment, port_position: None }),
    {
        Construct { city_position, city_piece, payment, port_position: None }
    }

    pub fn with_port_position(self, port_position: Option<Position>) -> (r: Construct)
        ensures
            r == (Construct { port_position, ..self }),
    {
        let mut s = self;
        s.port_position = port_position;
        s
    }
}

/// Rules that a construction may skip.
#[derive(Clone, Copy, Debug, PartialEq, Eq, Structural)]
pub enum ConstructDiscount {
    NoCityActivation,
    NoResourceCost,
}

/// Why a building cannot be constructed.
#[derive(Clone, Copy, Debug, PartialEq, Eq, Structural)]
pub enum ConstructError {
    BuildingAlreadyExists,
    AllBuildingsBuilt,
    MissingAdvance(Advance),
    CantActivate,
    NotYourCity,
    MaximumSize,
    NeedMoreCities,
    CityIsAngry,
    NotEnoughResources,
}

/// Whether `d` is in `discounts`.
pub fn has_discount(discounts: &[ConstructDiscount], d: ConstructDiscount) -> (r: bool)
    ensures
        r == discounts@.contains(d),
{
    let mut i: usize = 0;
    while i < discounts.len()
        invariant
            0 <= i <= discounts@.len(),
            forall|k: int| 0 <= k < i ==> discounts@[k] != d,
        decreases discounts@.len() - i,
    {
        if discounts[i] == d {
            return true;
        }
        i = i + 1;
    }
    false
}

/// The checks common to all constructions in a city.
pub open spec fn spec_can_construct_anything(
    city: &City,
    player_index: usize,
    player_cities: nat,
    city_activation: bool,
) -> Result<(), ConstructError> {
    if city_activation && city.angry_activation {
        Err(ConstructError::CantActivate)
    } else if city.player_index != player_index {
        Err(ConstructError::NotYourCity)
    } else if city.pieces.spec_amount() >= MAX_CITY_PIECES {
        Err(ConstructError::MaximumSize)
    } else if city_size(city) >= player_cities {
        Err(ConstructError::NeedMoreCities)
    } else {
        Ok(())
    }
}

/// A city grows only while it is smaller than the number of its owner's cities. For a city
/// of the player that can be activated (where that is needed) and has room for another piece,
/// growth is refused for want of cities exactly when its size (its pieces and the city itself)
/// is at least the number of the player's cities, and allowed exactly otherwise.
pub proof fn lemma_growth_needs_more_cities(
    city: &City,
    player_index: usize,
    player_cities: nat,
    city_activation: bool,
)
    requires
        city.player_index == player_index,
        !(city_activation && city.angry_activation),
        city.pieces.spec_amount() < MAX_CITY_PIECES,
    ensures
        (spec_can_construct_anything(city, player_index, player_cities, city_activation)
            == Err::<(), ConstructError>(ConstructError::NeedMoreCities)) <==> city.pieces.spec_amount() + 1
            >= player_cities,
        spec_can_construct_anything(city, player_index, player_cities, city_activation) is Ok
            <==> city.pieces.spec_amount() + 1 < player_cities,
{
}

/// Having more cities never stops a city from growing.
pub proof fn lemma_more_cities_keep_growth(
    city: &City,
    player_index: usize,
    player_cities: nat,
    more_cities: nat,
    city_activation: bool,
)
    requires
        player_cities <= more_cities,
        spec_can_construct_anything(city, player_index, player_cities, city_activation) is Ok,
    ensures
        spec_can_construct_anything(city, player_index, more_cities, city_activation) is Ok,
{
}

/// A city may grow if it can be activated (when needed), belongs to the player, is not at
/// the maximum size, and is smaller than the number of the player's cities.
pub fn can_construct_anything(
    city: &City,
    player_index: usize,
    player_cities: usize,
    city_activation: bool,
) -> (r: Result<(), ConstructError>)
    requires
        city.countable(),
    ensures
        r == spec_can_construct_anything(city, player_index, player_cities as nat, city_activation),
{
    if city_activation && !city.can_activate() {
        return Err(ConstructError::CantActivate);
    }
    if city.player_index != player_index {
        return Err(ConstructError::NotYourCity);
    }
    if city.pieces.amount() >= MAX_CITY_PIECES {
        return Err(ConstructError::MaximumSize);
    }
    if city.size() >= player_cities {
        return Err(ConstructError::NeedMoreCities);
    }
    Ok(())
}

/// The error of a refused growth of a city (any error where it is accepted).
pub open spec fn construct_anything_error(r: Result<(), ConstructError>) -> ConstructError {
    match r {
        Err(e) => e,
        Ok(_) => ConstructError::NotYourCity,
    }
}

/// Whether `building` may be constructed in `city`; on success, the cost of the building
/// (`cost`, as the player's building cost gives it) is returned. The facts that only the
/// game knows are given: whether the player has a non-destroyed piece of the building left
/// (`building_available`), whether it may use the advance that unlocks it (`has_advance`,
/// `required_advance`), whether the cost activates the city (`cost_activates_city`) and
/// whether the player can pay the cost (`can_afford`).
pub fn can_construct<C>(
    city: &City,
    building: Building,
    player_index: usize,
    player_cities: usize,
    building_available: bool,
    required_advance: Advance,
    has_advance: bool,
    cost: C,
    cost_activates_city: bool,
    can_afford: bool,
    discounts: &[ConstructDiscount],
) -> (r: Result<C, ConstructError>)
    requires
        city.countable(),
    ensures
        ({
            let activation = !discounts@.contains(ConstructDiscount::NoCityActivation)
                && cost_activates_city;
            let anything = spec_can_construct_anything(city, player_index, player_cities as nat, activation);
            r == if city.pieces.owner(building) is Some {
                Err(ConstructError::BuildingAlreadyExists)
            } else if !building_available {
                Err(ConstructError::AllBuildingsBuilt)
            } else if !has_advance {
                Err(ConstructError::MissingAdvance(required_advance))
            } else if anything is Err {
                Err(construct_anything_error(anything))
            } else if city.mood_state == MoodState::Angry {
                Err(ConstructError::CityIsAngry)
            } else if !(discounts@.contains(ConstructDiscount::NoResourceCost) || can_afford) {
                Err(ConstructError::NotEnoughResources)
            } else {
                Ok(cost)
            }
        }),
{
    if !city.pieces.can_add_building(building) {
        return Err(ConstructError::BuildingAlreadyExists);
    }
    if !building_available {
        return Err(ConstructError::AllBuildingsBuilt);
    }
    if !has_advance {
        return Err(ConstructError::MissingAdvance(required_advance));
    }
    let activation = !has_discount(discounts, ConstructDiscount::NoCityActivation) && cost_activates_city;
    match can_construct_anything(city, player_index, player_cities, activation) {
        Err(e) => return Err(e),
        Ok(()) => {},
    }
    if city.mood_state == MoodState::Angry {
        return Err(ConstructError::CityIsAngry);
    }
    let afford = has_discount(discounts, ConstructDiscount::NoResourceCost) || can_afford;
    if !afford {
        return Err(ConstructError::NotEnoughResources);
    }
    Ok(cost)
}

/// A port needs a port position next to the city; other buildings take none.
pub fn port_position_valid(c: &Construct, city_position: Position) -> (r: bool)
    ensures
        r == match c.city_piece {
            Building::Port => match c.port_position {
                Some(p) => hex_distance(city_position, p) == 1,
                None => false,
            },
            _ => c.port_position is None,
        },
{
    match c.city_piece {
        Building::Port => match c.port_position {
            Some(p) => city_position.is_neighbor(p),
            None => false,
        },
        _ => c.port_position.is_none(),
    }
}

/// The possible positions of a new building: none for most buildings, and for a port each
/// of the given water tiles next to the city, in their order.
pub fn new_building_positions(building: Building, city: &City, water_tiles: &[Position]) -> (r: Vec<Option<Position>>)
    ensures
        building != Building::Port ==> r@ == seq![None::<Position>],
        building == Building::Port ==> r@ == water_tiles@.filter(|p: Position| hex_distance(city.position, p) == 1).map_values(
            |p: Position| Some(p),
        ),
{
    if building != Building::Port {
        return vec![None];
    }
    let mut r: Vec<Option<Position>> = Vec::new();
    let mut i: usize = 0;
    while i < water_tiles.len()
        invariant
            0 <= i <= water_tiles@.len(),
            r@ == water_tiles@.take(i as int).filter(|p: Position| hex_distance(city.position, p) == 1).map_values(
                |p: Position| Some(p),
            ),
        decreases water_tiles@.len() - i,
    {
        proof {
            assert(water_tiles@.take(i as int + 1).drop_last() =~= water_tiles@.take(i as int));
            reveal(Seq::filter);
        }
        let p = water_tiles[i];
        if city.position.is_neighbor(p) {
            r.push(Some(p));
        }
        proof {
            let f = |p: Position| hex_distance(city.position, p) == 1;
            let g = |p: Position| Some(p);
            let before = water_tiles@.take(i as int).filter(f);
            let after = water_tiles@.take(i as int + 1).filter(f);
            if f(p) {
                assert(after =~= before.push(p));
                assert(after.map_values(g) =~= before.map_values(g).push(Some(p)));
            } else {
                assert(after =~= before);
            }
        }
        i = i + 1;
    }
    proof {
        assert(water_tiles@.take(water_tiles@.len() as int) =~= water_tiles@);
    }
    r
}

/// The information passed to the listeners of a construction.
#[derive(Clone, Copy, Debug, PartialEq, Eq, Structural)]
pub struct ConstructInfo {
    pub building: Building,
}

impl ConstructInfo {
    pub fn new(building: Building) -> (r: ConstructInfo)
        ensures
            r.building == building,
    {
        ConstructInfo { building }
    }
}

} // verus!
