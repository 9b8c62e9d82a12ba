use vstd::prelude::*;

use crate::city_pieces::{CityPieces, CityPiecesData};
use crate::position::Position;

verus! {

/// The mood of a city, ordered from angry to happy.
#[derive(Clone, Copy, Debug, PartialEq, Eq, Structural)]
pub enum MoodState {
    Angry,
    Neutral,
    Happy,
}

/// The mood as a step on the scale 0 (angry) to 2 (happy).
pub open spec fn mood_level(m: MoodState) -> int {
    match m {
        MoodState::Angry => 0,
        MoodState::Neutral => 1,
        MoodState::Happy => 2,
    }
}

/// The mood at a given step of the scale, clamped to the scale.
pub open spec fn mood_at(level: int) -> MoodState {
    if level <= 0 {
        MoodState::Angry
    } else if level == 1 {
        MoodState::Neutral
    } else {
        MoodState::Happy
    }
}

impl MoodState {
    /// The mood `steps` steps happier, stopping at happy.
    pub fn plus(self, steps: u8) -> (r: MoodState)
        ensures
            r == mood_at(mood_level(self) + steps),
    {
        if steps == 0 {
            self
        } else if steps == 1 {
            match self {
                MoodState::Happy | MoodState::Neutral => MoodState::Happy,
                MoodState::Angry => MoodState::Neutral,
            }
        } else {
            MoodState::Happy
        }
    }

    /// The mood `steps` steps angrier, stopping at angry.
    pub fn minus(self, steps: u8) -> (r: MoodState)
        ensures
            r == mood_at(mood_level(self) - steps),
    {
        if steps == 0 {
            self
        } else if steps == 1 {
            match self {
                MoodState::Angry | MoodState::Neutral => MoodState::Angry,
                MoodState::Happy => MoodState::Neutral,
            }
        } else {
            MoodState::Angry
        }
    }

    /// The display name of the mood.
    pub fn to_string(&self) -> (r: String)
        ensures
            r@ == (match *self {
                MoodState::Happy => "Happy"@,
                MoodState::Neutral => "Neutral"@,
                MoodState::Angry => "Angry"@,
            }),
    {
        let s: &str = match self {
            MoodState::Happy => "Happy",
            MoodState::Neutral => "Neutral",
            MoodState::Angry => "Angry",
        };
        s.to_owned()
    }
}

/// A mood never leaves the scale.
pub proof fn lemma_mood_round_trip(m: MoodState)
    ensures
        mood_at(mood_level(m)) == m,
        0 <= mood_level(m) <= 2,
{
}

/// Raising the mood twice is raising it once by the sum of the steps.
pub proof fn lemma_mood_plus_plus(m: MoodState, a: u8, b: u8)
    ensures
        mood_at(mood_level(mood_at(mood_level(m) + a)) + b) == mood_at(mood_level(m) + a + b),
{
}

/// Lowering the mood twice is lowering it once by the sum of the steps.
pub proof fn lemma_mood_minus_minus(m: MoodState, a: u8, b: u8)
    ensures
        mood_at(mood_level(mood_at(mood_level(m) - a)) - b) == mood_at(mood_level(m) - a - b),
{
}

/// A city on the map.
#[derive(Debug)]
pub struct City {
    pub pieces: CityPieces,
    pub mood_state: MoodState,
    pub activations: u32,
    pub activation_mood_decreased: bool,
    pub angry_activation: bool,
    pub player_index: usize,
    pub position: Position,
    pub port_position: Option<Position>,
}

/// The stored form of a city.
#[derive(Debug)]
pub struct CityData {
    pub city_pieces: CityPiecesData,
    pub mood_state: MoodState,
    pub activations: u32,
    pub angry_activation: bool,
    pub position: Position,
    pub port_position: Option<Position>,
}

impl CityData {
    pub fn new(
        city_pieces: CityPiecesData,
        mood_state: MoodState,
        activations: u32,
        angry_activation: bool,
        position: Position,
        port_position: Option<Position>,
    ) -> (r: CityData)
        ensures
            r == (CityData {
                city_pieces,
                mood_state,
                activations,
                angry_activation,
                position,
                port_position,
            }),
    {
        CityData { city_pieces, mood_state, activations, angry_activation, position, port_position }
    }
}

/// `d` is the stored form of `c`: its pieces, mood, activations, position and port.
pub open spec fn city_stored(c: City, d: CityData) -> bool {
    &&& crate::city_pieces::pieces_stored(c.pieces, d.city_pieces)
    &&& d.mood_state == c.mood_state
    &&& d.activations == c.activations
    &&& d.angry_activation == c.angry_activation
    &&& d.position == c.position
    &&& d.port_position == c.port_position
}

/// `c` is the city restored from `d` for `player_index`: the stored values, that owner, and
/// no mood decrease from a second activation yet.
pub open spec fn city_restored(d: CityData, player_index: usize, c: City) -> bool {
    &&& crate::city_pieces::pieces_stored(c.pieces, d.city_pieces)
    &&& c.mood_state == d.mood_state
    &&& c.activations == d.activations
    &&& c.angry_activation == d.angry_activation
    &&& !c.activation_mood_decreased
    &&& c.player_index == player_index
    &&& c.position == d.position
    &&& c.port_position == d.port_position
}

/// A city stored and restored for its owner is the city that was stored, but for the mark
/// of a mood decrease from a second activation this turn, which is not stored.
pub proof fn lemma_city_round_trip(c: City, d: CityData, r: City)
    requires
        city_stored(c, d),
        city_restored(d, c.player_index, r),
    ensures
        r == (City { activation_mood_decreased: false, pieces: r.pieces, ..c }),
        forall|b: crate::city_pieces::Building| #[trigger] r.pieces.owner(b) == c.pieces.owner(b),
        r.pieces.wonders@ == c.pieces.wonders@,
        city_size(&r) == city_size(&c),
{
    crate::city_pieces::lemma_pieces_round_trip(c.pieces, d.city_pieces, r.pieces);
}

/// The city size in pieces plus the city center.
pub open spec fn city_size(c: &City) -> int {
    c.pieces.spec_amount() + 1int
}

/// The size used for collecting and taxes, changed by the mood.
pub open spec fn spec_mood_modified_size(c: &City, forced_labor: bool) -> int {
    match c.mood_state {
        MoodState::Happy => city_size(c) + 1,
        MoodState::Neutral => city_size(c),
        MoodState::Angry => if forced_labor { city_size(c) } else { 1int },
    }
}

impl City {
    /// The wonder list is short enough to count sizes in a `usize`.
    pub open spec fn countable(&self) -> bool {
        self.pieces.countable()
    }

    pub fn new(player_index: usize, position: Position) -> (c: City)
        ensures
            c.player_index == player_index,
            c.position == position,
            c.mood_state == MoodState::Neutral,
            c.activations == 0,
            !c.angry_activation,
            !c.activation_mood_decreased,
            c.port_position is None,
            forall|b: crate::city_pieces::Building| c.pieces.owner(b) is None,
            c.pieces.wonders@.len() == 0,
    {
        City {
            pieces: CityPieces::empty(),
            mood_state: MoodState::Neutral,
            activations: 0,
            angry_activation: false,
            activation_mood_decreased: false,
            player_index,
            position,
            port_position: None,
        }
    }

    pub fn from_data(data: CityData, player_index: usize) -> (c: City)
        ensures
            city_restored(data, player_index, c),
    {
        City {
            pieces: CityPieces::from_data(&data.city_pieces),
            mood_state: data.mood_state,
            activations: data.activations,
            angry_activation: data.angry_activation,
            activation_mood_decreased: false,
            player_index,
            position: data.position,
            port_position: data.port_position,
        }
    }

    pub fn data(self) -> (d: CityData)
        ensures
            city_stored(self, d),
    {
        let mood_state = self.mood_state;
        let activations = self.activations;
        let angry_activation = self.angry_activation;
        let position = self.position;
        let port_position = self.port_position;
        CityData::new(
            self.pieces.data(),
            mood_state,
            activations,
            angry_activation,
            position,
            port_position,
        )
    }

    pub fn cloned_data(&self) -> (d: CityData)
        ensures
            city_stored(*self, d),
    {
        CityData::new(
            self.pieces.cloned_data(),
            self.mood_state,
            self.activations,
            self.angry_activation,
            self.position,
            self.port_position,
        )
    }

    pub fn can_activate(&self) -> (r: bool)
        ensures
            r == !self.angry_activation,
    {
        !self.angry_activation
    }

    pub fn deactivate(&mut self)
        ensures
            final(self).activations == 0,
            !final(self).angry_activation,
            final(self).mood_state == old(self).mood_state,
            final(self).pieces == old(self).pieces,
            final(self).player_index == old(self).player_index,
            final(self).position == old(self).position,
            final(self).port_position == old(self).port_position,
            final(self).activation_mood_decreased == old(self).activation_mood_decreased,
    {
        self.activations = 0;
        self.angry_activation = false;
    }

    pub fn is_activated(&self) -> (r: bool)
        ensures
            r == (self.activations > 0),
    {
        self.activations > 0
    }

    /// The number of pieces plus one for the city center.
    pub fn size(&self) -> (r: usize)
        requires
            self.countable(),
        ensures
            r == city_size(self),
    {
        self.pieces.amount() + 1
    }

    /// The size as it counts for collecting: happy cities count one more, angry cities
    /// count as 1 unless `forced_labor` (the Forced Labor action was played this turn).
    pub fn mood_modified_size(&self, forced_labor: bool) -> (r: usize)
        requires
            self.countable(),
        ensures
            r == spec_mood_modified_size(self, forced_labor),
    {
        proof {
            crate::city_pieces::lemma_buildings_len(self.pieces, None);
        }
        match self.mood_state {
            MoodState::Happy => self.size() + 1,
            MoodState::Neutral => self.size(),
            MoodState::Angry => {
                if forced_labor {
                    self.size()
                } else {
                    1
                }
            },
        }
    }

    /// The number of buildings owned by the city's owner.
    fn uninfluenced_buildings(&self) -> (r: usize)
        ensures
            r == self.pieces.spec_buildings(Some(self.player_index)).len(),
    {
        self.pieces.buildings(Some(self.player_index)).len()
    }

    /// Whether some piece of the city belongs to another player.
    pub fn influenced(&self) -> (r: bool)
        requires
            self.countable(),
        ensures
            r == (self.pieces.spec_buildings(Some(self.player_index)).len()
                != self.pieces.spec_amount()),
    {
        self.uninfluenced_buildings() != self.pieces.amount()
    }
}

/// Sets the mood of a city.
pub fn set_city_mood(city: &mut City, new_state: MoodState)
    ensures
        final(city).mood_state == new_state,
        final(city).pieces == old(city).pieces,
        final(city).activations == old(city).activations,
        final(city).angry_activation == old(city).angry_activation,
        final(city).activation_mood_decreased == old(city).activation_mood_decreased,
        final(city).player_index == old(city).player_index,
        final(city).position == old(city).position,
        final(city).port_position == old(city).port_position,
{
    if city.mood_state == new_state {
        return ;
    }
    city.mood_state = new_state;
}

/// Makes the city one step angrier.
pub fn decrease_city_mood(city: &mut City)
    ensures
        final(city).mood_state == mood_at(mood_level(old(city).mood_state) - 1),
        final(city).pieces == old(city).pieces,
        final(city).activations == old(city).activations,
        final(city).angry_activation == old(city).angry_activation,
        final(city).activation_mood_decreased == old(city).activation_mood_decreased,
        final(city).player_index == old(city).player_index,
        final(city).position == old(city).position,
        final(city).port_position == old(city).port_position,
{
    let new_state = match city.mood_state {
        MoodState::Happy => MoodState::Neutral,
        MoodState::Neutral | MoodState::Angry => MoodState::Angry,
    };
    set_city_mood(city, new_state);
}

/// Makes the city `steps` steps happier and lifts the mark of an angry activation.
pub fn increase_mood_state(city: &mut City, steps: u8)
    ensures
        final(city).mood_state == mood_at(mood_level(old(city).mood_state) + steps),
        !final(city).angry_activation,
        final(city).pieces == old(city).pieces,
        final(city).activations == old(city).activations,
        final(city).activation_mood_decreased == old(city).activation_mood_decreased,
        final(city).player_index == old(city).player_index,
        final(city).position == old(city).position,
        final(city).port_position == old(city).port_position,
{
    city.angry_activation = false;
    let mut state = city.mood_state;
    let mut i: u8 = 0;
    while i < steps
        invariant
            0 <= i <= steps,
            state == mood_at(mood_level(old(city).mood_state) + i),
        decreases steps - i,
    {
        state = match state {
            MoodState::Happy | MoodState::Neutral => MoodState::Happy,
            MoodState::Angry => MoodState::Neutral,
        };
        i = i + 1;
    }
    set_city_mood(city, state);
}

/// `after` is `before` activated once more: an activation of an angry city is marked, and
/// every activation after the first in a turn makes the city one step angrier.
pub open spec fn activated(before: City, after: City) -> bool {
    &&& after.activations == before.activations + 1
    &&& after.angry_activation == (before.mood_state == MoodState::Angry)
    &&& before.activations > 0 ==> after.activation_mood_decreased
        && after.mood_state == mood_at(mood_level(before.mood_state) - 1)
    &&& before.activations == 0 ==> after.activation_mood_decreased
        == before.activation_mood_decreased && after.mood_state == before.mood_state
    &&& after.pieces == before.pieces
    &&& after.player_index == before.player_index
    &&& after.position == before.position
    &&& after.port_position == before.port_position
}

/// Activates a city: an activation of an angry city is marked, and every activation
/// after the first in a turn makes the city one step angrier.
pub fn activate_city(city: &mut City)
    requires
        old(city).can_activate_spec(),
        old(city).activations < u32::MAX,
    ensures
        activated(*old(city), *final(city)),
{
    if city.mood_state == MoodState::Angry {
        city.angry_activation = true;
    }
    let was_activated = city.is_activated();
    city.activations = city.activations + 1;
    if was_activated {
        city.activation_mood_decreased = true;
        decrease_city_mood(city);
    }
}

impl City {
    /// The city can be activated: it has not been activated while angry.
    pub open spec fn can_activate_spec(&self) -> bool {
        !self.angry_activation
    }
}

/// The positions of the cities that are not angry, in order.
pub fn non_angry_cites(cities: &Vec<City>) -> (r: Vec<Position>)
    ensures
        r@ == cities@.filter(|c: City| c.mood_state != MoodState::Angry).map_values(
            |c: City| c.position,
        ),
{
    let mut r: Vec<Position> = Vec::new();
    let mut i: usize = 0;
    while i < cities.len()
        invariant
            0 <= i <= cities@.len(),
            r@ == cities@.take(i as int).filter(|c: City| c.mood_state != MoodState::Angry).map_values(
                |c: City| c.position,
            ),
        decreases cities@.len() - i,
    {
        proof {
            assert(cities@.take(i as int + 1).drop_last() =~= cities@.take(i as int));
            reveal(Seq::filter);
        }
        if cities[i].mood_state != MoodState::Angry {
            r.push(cities[i].position);
        }
        proof {
            let f = |c: City| c.mood_state != MoodState::Angry;
            let g = |c: City| c.position;
            let before = cities@.take(i as int).filter(f);
            let after = cities@.take(i as int + 1).filter(f);
            if f(cities@[i as int]) {
                assert(after =~= before.push(cities@[i as int]));
                assert(after.map_values(g) =~= before.map_values(g).push(cities@[i as int].position));
            } else {
                assert(after =~= before);
            }
        }
        i = i + 1;
    }
    proof {
        assert(cities@.take(cities@.len() as int) =~= cities@);
    }
    r
}


/// A city just founded by `player_index` at `position`: size one, neutral, not activated.
pub open spec fn is_new_city(c: City, player_index: usize, position: Position) -> bool {
    &&& c.player_index == player_index
    &&& c.position == position
    &&& c.mood_state == MoodState::Neutral
    &&& c.activations == 0
    &&& !c.angry_activation
    &&& !c.activation_mood_decreased
    &&& c.port_position is None
    &&& forall|b: crate::city_pieces::Building| c.pieces.owner(b) is None
    &&& c.pieces.wonders@.len() == 0
}

/// A player founds a city at `position`: a new city joins the player's cities.
pub fn found_city(cities: &mut Vec<City>, player_index: usize, position: Position)
    ensures
        final(cities)@.len() == old(cities)@.len() + 1,
        final(cities)@.drop_last() == old(cities)@,
        is_new_city(final(cities)@.last(), player_index, position),
{
    cities.push(City::new(player_index, position));
    proof {
        assert(cities@.drop_last() =~= old(cities)@);
    }
}

/// A player gains a city: it joins the player's cities, now owned by the player.
pub fn gain_city(cities: &mut Vec<City>, player_index: usize, city: City)
    ensures
        final(cities)@ == old(cities)@.push(City { player_index, ..city }),
{
    let mut city = city;
    city.player_index = player_index;
    cities.push(city);
}

/// The index of the first city at `position`, or -1.
pub open spec fn city_index(cities: Seq<City>, position: Position) -> int
    decreases cities.len(),
{
    if cities.len() == 0 {
        -1
    } else {
        let r = city_index(cities.drop_last(), position);
        if r >= 0 {
            r
        } else if cities.last().position == position {
            cities.len() - 1
        } else {
            -1
        }
    }
}

proof fn lemma_city_index(cities: Seq<City>, position: Position)
    ensures
        -1 <= city_index(cities, position) < cities.len(),
        city_index(cities, position) >= 0 ==> cities[city_index(cities, position)].position == position,
        city_index(cities, position) == -1 <==> forall|k: int| 0 <= k < cities.len() ==> #[trigger] cities[k].position != position,
    decreases cities.len(),
{
    if cities.len() > 0 {
        lemma_city_index(cities.drop_last(), position);
        let d = cities.drop_last();
        assert forall|k: int| 0 <= k < d.len() implies #[trigger] cities[k].position == d[k].position by {}
    }
}

/// A player loses the city at `position`: the first of its cities there leaves the list and
/// is returned.
pub fn lose_city(cities: &mut Vec<City>, position: Position) -> (r: City)
    requires
        exists|k: int| 0 <= k < old(cities)@.len() && (#[trigger] old(cities)@[k]).position == position,
    ensures
        0 <= city_index(old(cities)@, position),
        r == old(cities)@[city_index(old(cities)@, position)],
        final(cities)@ == old(cities)@.remove(city_index(old(cities)@, position)),
{
    proof {
        lemma_city_index(cities@, position);
    }
    let ghost start = cities@;
    let mut i: usize = 0;
    while i < cities.len() && cities[i].position != position
        invariant
            0 <= i <= cities@.len(),
            cities@ == start,
            exists|k: int| 0 <= k < start.len() && (#[trigger] start[k]).position == position,
            forall|k: int| 0 <= k < i ==> #[trigger] cities@[k].position != position,
        decreases cities@.len() - i,
    {
        i = i + 1;
    }
    proof {
        lemma_city_index_first(start, position, i as int);
    }
    cities.remove(i)
}

/// The first city at `position` comes after all cities elsewhere.
proof fn lemma_city_index_first(cities: Seq<City>, position: Position, i: int)
    requires
        0 <= i <= cities.len(),
        forall|k: int| 0 <= k < i ==> #[trigger] cities[k].position != position,
        i == cities.len() || cities[i].position == position,
        exists|k: int| 0 <= k < cities.len() && (#[trigger] cities[k]).position == position,
    ensures
        i < cities.len(),
        city_index(cities, position) == i,
    decreases cities.len(),
{
    lemma_city_index(cities, position);
    if i == cities.len() {
        let k = choose|k: int| 0 <= k < cities.len() && (#[trigger] cities[k]).position == position;
        assert(cities[k].position != position);
    }
    if i < cities.len() - 1 {
        let d = cities.drop_last();
        assert forall|k: int| 0 <= k < i implies #[trigger] d[k].position != position by {
            assert(d[k] == cities[k]);
        }
        assert(d[i] == cities[i]);
        lemma_city_index_first(d, position, i);
    } else if i == cities.len() - 1 {
        let d = cities.drop_last();
        assert forall|k: int| 0 <= k < d.len() implies #[trigger] d[k].position != position by {
            assert(d[k] == cities[k]);
        }
        lemma_city_index(d, position);
    }
}

} // verus!
