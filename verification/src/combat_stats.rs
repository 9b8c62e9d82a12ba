use vstd::prelude::*;

use crate::city::{City, MoodState};
use crate::combat_listeners::{CombatResult, result_winner};
use crate::position::Position;
use crate::tactics_card::CombatRole;
use crate::unit::{seq_count, UnitType, Units};

verus! {

/// What one side brought to a battle and what it lost.
#[derive(Clone, Copy, Debug, PartialEq, Eq, Structural)]
pub struct CombatPlayerStats {
    pub position: Position,
    pub player: usize,
    pub present: Units,
    pub losses: Units,
}

/// Where a battle takes place.
#[derive(Clone, Copy, Debug, PartialEq, Eq, Structural)]
pub enum Battleground {
    Land,
    Sea,
    City,
    CityWithFortress,
}

impl Battleground {
    pub open spec fn spec_is_land(self) -> bool {
        !(self is Sea)
    }

    pub fn is_land(self) -> (r: bool)
        ensures
            r == self.spec_is_land(),
    {
        !matches!(self, Battleground::Sea)
    }

    pub fn is_city(self) -> (r: bool)
        ensures
            r == (self is City || self is CityWithFortress),
    {
        matches!(self, Battleground::City | Battleground::CityWithFortress)
    }
}

/// The units of `units` that fight on `battleground`: army units on land, ships at sea.
pub open spec fn spec_fighters(battleground: Battleground, units: Units) -> Units {
    if battleground.spec_is_land() {
        Units { settlers: 0, ships: 0, ..units }
    } else {
        Units {
            settlers: 0,
            infantry: 0,
            ships: units.ships,
            cavalry: 0,
            elephants: 0,
            leaders: 0,
        }
    }
}

/// The units of `units` that fight on `battleground`.
pub fn filter_fighters(battleground: Battleground, units: &Units) -> (r: Units)
    ensures
        r == spec_fighters(battleground, *units),
        forall|t: UnitType| #[trigger] r.count(t) == if (battleground.spec_is_land() && t.spec_is_army_unit())
            || (!battleground.spec_is_land() && t is Ship) { units.count(t) } else { 0 },
{
    let land = battleground.is_land();
    let all = units.to_vec();
    let mut r = Units::empty();
    let mut i: usize = 0;
    while i < all.len()
        invariant
            0 <= i <= all@.len(),
            land == battleground.spec_is_land(),
            forall|t: UnitType| seq_count(all@, t) == units.count(t),
            forall|t: UnitType| #[trigger] r.count(t) == if (land && t.spec_is_army_unit()) || (!land && t is Ship) {
                seq_count(all@.take(i as int), t)
            } else {
                0
            },
        decreases all@.len() - i,
    {
        let u = all[i];
        proof {
            assert(all@.take(i as int + 1) =~= all@.take(i as int).push(u));
            assert forall|t: UnitType| seq_count(all@.take(i as int + 1), t) == seq_count(all@.take(i as int), t) + if u == t { 1nat } else { 0nat } by {
                crate::unit::lemma_seq_count_push(all@.take(i as int), u, t);
            }
            crate::unit::lemma_seq_count_prefix_bound(all@, i as int + 1, u);
        }
        let keep = if land {
            u.is_army_unit()
        } else {
            u.is_ship()
        };
        assert(seq_count(all@, u) == units.count(u));
        if keep {
            r.add_unit(&u);
        }
        i = i + 1;
    }
    proof {
        assert(all@.take(all@.len() as int) =~= all@);
        assert(seq_count(all@, UnitType::Infantry) == units.count(UnitType::Infantry));
        assert(seq_count(all@, UnitType::Cavalry) == units.count(UnitType::Cavalry));
        assert(seq_count(all@, UnitType::Elephant) == units.count(UnitType::Elephant));
        assert(seq_count(all@, UnitType::Leader) == units.count(UnitType::Leader));
        assert(seq_count(all@, UnitType::Ship) == units.count(UnitType::Ship));
        assert(r.count(UnitType::Settler) == spec_fighters(battleground, *units).settlers);
        assert(r.count(UnitType::Infantry) == spec_fighters(battleground, *units).infantry);
        assert(r.count(UnitType::Ship) == spec_fighters(battleground, *units).ships);
        assert(r.count(UnitType::Cavalry) == spec_fighters(battleground, *units).cavalry);
        assert(r.count(UnitType::Elephant) == spec_fighters(battleground, *units).elephants);
        assert(r.count(UnitType::Leader) == spec_fighters(battleground, *units).leaders);
    }
    r
}

impl CombatPlayerStats {
    pub fn new(player: usize, present: Units, position: Position) -> (r: CombatPlayerStats)
        ensures
            r.player == player,
            r.present == present,
            r.position == position,
            forall|t: UnitType| r.losses.count(t) == 0,
    {
        CombatPlayerStats { player, present, losses: Units::empty(), position }
    }

    /// Adds the given unit types to the losses.
    pub fn add_losses(&mut self, units: &[UnitType])
        requires
            forall|t: UnitType| old(self).losses.count(t) + seq_count(units@, t) <= u8::MAX,
        ensures
            forall|t: UnitType| final(self).losses.count(t) == old(self).losses.count(t) + seq_count(units@, t),
            final(self).present == old(self).present,
            final(self).player == old(self).player,
            final(self).position == old(self).position,
    {
        let mut i: usize = 0;
        while i < units.len()
            invariant
                0 <= i <= units@.len(),
                forall|t: UnitType| old(self).losses.count(t) + seq_count(units@, t) <= u8::MAX,
                forall|t: UnitType| self.losses.count(t) == old(self).losses.count(t) + seq_count(units@.take(i as int), t),
                self.present == old(self).present,
                self.player == old(self).player,
                self.position == old(self).position,
            decreases units@.len() - i,
        {
            let t = units[i];
            proof {
                assert(units@.take(i as int + 1) =~= units@.take(i as int).push(t));
                assert forall|u: UnitType| seq_count(units@.take(i as int + 1), u) == seq_count(units@.take(i as int), u) + if t == u { 1nat } else { 0nat } by {
                    crate::unit::lemma_seq_count_push(units@.take(i as int), t, u);
                }
                crate::unit::lemma_seq_count_prefix_bound(units@, i as int + 1, t);
            }
            self.losses.add_unit(&t);
            i = i + 1;
        }
        proof {
            assert(units@.take(units@.len() as int) =~= units@);
        }
    }

    /// The present units that fight on `battleground`.
    pub fn fighters(&self, battleground: Battleground) -> (r: Units)
        ensures
            r == spec_fighters(battleground, self.present),
    {
        filter_fighters(battleground, &self.present)
    }

    /// The lost units that fought on `battleground`.
    pub fn fighter_losses(&self, battleground: Battleground) -> (r: Units)
        ensures
            r == spec_fighters(battleground, self.losses),
    {
        filter_fighters(battleground, &self.losses)
    }

    /// A leader took part and was not lost.
    pub fn survived_leader(&self) -> (r: bool)
        ensures
            r == (self.present.leaders > 0 && self.losses.leaders == 0),
    {
        self.present.has_leader() && !self.losses.has_leader()
    }
}

/// The record of a battle.
#[derive(Clone, Debug)]
pub struct CombatStats {
    pub round: u32,
    pub battleground: Battleground,
    pub disembarked: bool,
    pub attacker: CombatPlayerStats,
    pub defender: CombatPlayerStats,
    pub result: Option<CombatResult>,
    pub claimed_action_cards: Vec<u8>,
    pub selected_card: Option<u8>,
    pub city_mood: Option<MoodState>,
}

impl CombatStats {
    /// The role of `player`: attacker if it is the attacking player, defender otherwise.
    pub open spec fn spec_role(&self, player: usize) -> CombatRole {
        if player == self.attacker.player {
            CombatRole::Attacker
        } else {
            CombatRole::Defender
        }
    }

    pub open spec fn spec_opponent_role(&self, player: usize) -> CombatRole {
        if player == self.attacker.player {
            CombatRole::Defender
        } else {
            CombatRole::Attacker
        }
    }

    pub open spec fn spec_winner(&self) -> Option<CombatRole> {
        match self.result {
            Some(r) => result_winner(r),
            None => None,
        }
    }

    pub open spec fn stats_of(&self, role: CombatRole) -> CombatPlayerStats {
        match role {
            CombatRole::Attacker => self.attacker,
            CombatRole::Defender => self.defender,
        }
    }

    pub fn new(
        battleground: Battleground,
        disembarked: bool,
        attacker: CombatPlayerStats,
        defender: CombatPlayerStats,
        result: Option<CombatResult>,
        city_mood: Option<MoodState>,
    ) -> (r: CombatStats)
        ensures
            r.round == 1,
            r.battleground == battleground,
            r.disembarked == disembarked,
            r.attacker == attacker,
            r.defender == defender,
            r.result == result,
            r.claimed_action_cards@.len() == 0,
            r.selected_card is None,
            r.city_mood == city_mood,
    {
        CombatStats {
            battleground,
            disembarked,
            attacker,
            defender,
            result,
            claimed_action_cards: Vec::new(),
            selected_card: None,
            round: 1,
            city_mood,
        }
    }

    pub fn player_mut(&mut self, role: CombatRole) -> (r: &mut CombatPlayerStats)
        ensures
            *r == old(self).stats_of(role),
            role is Attacker ==> final(self).attacker == *final(r) && final(self).defender == old(self).defender,
            role is Defender ==> final(self).defender == *final(r) && final(self).attacker == old(self).attacker,
            final(self).result == old(self).result,
            final(self).round == old(self).round,
            final(self).battleground == old(self).battleground,
            final(self).city_mood == old(self).city_mood,
            final(self).disembarked == old(self).disembarked,
    {
        match role {
            CombatRole::Attacker => &mut self.attacker,
            CombatRole::Defender => &mut self.defender,
        }
    }

    pub fn player(&self, player: usize) -> (r: &CombatPlayerStats)
        ensures
            *r == self.stats_of(self.spec_role(player)),
    {
        match self.role(player) {
            CombatRole::Attacker => &self.attacker,
            CombatRole::Defender => &self.defender,
        }
    }

    pub fn opponent(&self, player: usize) -> (r: &CombatPlayerStats)
        ensures
            *r == self.stats_of(self.spec_opponent_role(player)),
    {
        match self.opponent_role(player) {
            CombatRole::Attacker => &self.attacker,
            CombatRole::Defender => &self.defender,
        }
    }

    pub fn role(&self, player: usize) -> (r: CombatRole)
        ensures
            r == self.spec_role(player),
    {
        if player == self.attacker.player {
            CombatRole::Attacker
        } else {
            CombatRole::Defender
        }
    }

    pub fn opponent_role(&self, player: usize) -> (r: CombatRole)
        ensures
            r == self.spec_opponent_role(player),
    {
        if player == self.attacker.player {
            CombatRole::Defender
        } else {
            CombatRole::Attacker
        }
    }

    pub fn is_attacker(&self, player: usize) -> (r: bool)
        ensures
            r == (player == self.attacker.player),
    {
        self.role(player) == CombatRole::Attacker
    }

    pub fn is_defender(&self, player: usize) -> (r: bool)
        ensures
            r == (player != self.attacker.player),
    {
        self.role(player) == CombatRole::Defender
    }

    pub fn winner(&self) -> (r: Option<CombatRole>)
        ensures
            r == self.spec_winner(),
    {
        match &self.result {
            Some(result) => result.winner(),
            None => None,
        }
    }

    pub fn is_winner(&self, player: usize) -> (r: bool)
        ensures
            r == (self.spec_winner() == Some(self.spec_role(player))),
    {
        match self.winner() {
            Some(w) => w == self.role(player),
            None => false,
        }
    }

    pub fn is_loser(&self, player: usize) -> (r: bool)
        ensures
            r == (self.spec_winner() == Some(self.spec_opponent_role(player))),
    {
        match self.winner() {
            Some(w) => w == self.opponent_role(player),
            None => false,
        }
    }

    /// Units defended, or the defender won without units (fortress or great wall).
    pub fn is_battle(&self) -> (r: bool)
        ensures
            r == (self.defender.present.total() > 0 || self.spec_winner() == Some(CombatRole::Defender)),
    {
        self.defender.present.amount() > 0 || match self.winner() {
            Some(CombatRole::Defender) => true,
            _ => false,
        }
    }

    /// The mood of the city that `player` captured, if it won an attack on a city.
    pub fn captured_city(&self, player: usize) -> (r: Option<MoodState>)
        ensures
            r == if player == self.attacker.player && self.spec_winner() == Some(CombatRole::Attacker) {
                self.city_mood
            } else {
                None
            },
    {
        if self.is_attacker(player) && self.is_winner(player) {
            self.city_mood
        } else {
            None
        }
    }
}

/// Where a battle at the defender's position takes place.
pub open spec fn spec_battleground(city: Option<&City>, defender_on_sea: bool) -> Battleground {
    match city {
        Some(c) => if c.pieces.fortress is Some {
            Battleground::CityWithFortress
        } else {
            Battleground::City
        },
        None => if defender_on_sea {
            Battleground::Sea
        } else {
            Battleground::Land
        },
    }
}

/// Where a battle takes place: in a city with a fortress exactly when the defender has a city
/// there with a fortress, in a city exactly when it has a city there without one, and
/// otherwise at sea or on land as the defender's position is.
pub proof fn lemma_battleground(city: Option<&City>, defender_on_sea: bool)
    ensures
        (spec_battleground(city, defender_on_sea) == Battleground::CityWithFortress) <==> (city is Some
            && city->0.pieces.fortress is Some),
        (spec_battleground(city, defender_on_sea) == Battleground::City) <==> (city is Some
            && city->0.pieces.fortress is None),
        (spec_battleground(city, defender_on_sea) == Battleground::Sea) <==> (city is None
            && defender_on_sea),
        (spec_battleground(city, defender_on_sea) == Battleground::Land) <==> (city is None
            && !defender_on_sea),
{
}

/// The opening record of a battle, from what the map shows at both positions.
pub fn new_combat_stats(
    defender: usize,
    defender_position: Position,
    defender_city: Option<&City>,
    defender_on_sea: bool,
    defender_units: Units,
    attacker: usize,
    attacker_position: Position,
    attacker_on_sea: bool,
    attacker_units: Units,
    result: Option<CombatResult>,
) -> (r: CombatStats)
    requires
        defender_position != attacker_position,
    ensures
        r.battleground == spec_battleground(defender_city, defender_on_sea),
        r.disembarked == (r.battleground.spec_is_land() && attacker_on_sea),
        r.attacker.player == attacker && r.attacker.present == attacker_units && r.attacker.position
            == attacker_position,
        r.defender.player == defender && r.defender.present == defender_units && r.defender.position
            == defender_position,
        forall|t: UnitType| r.attacker.losses.count(t) == 0 && r.defender.losses.count(t) == 0,
        r.result == result,
        r.round == 1,
        r.city_mood == match defender_city {
            Some(c) => Some(c.mood_state),
            None => None::<MoodState>,
        },
{
    let battleground = match defender_city {
        Some(c) => if c.pieces.fortress.is_some() {
            Battleground::CityWithFortress
        } else {
            Battleground::City
        },
        None => if defender_on_sea {
            Battleground::Sea
        } else {
            Battleground::Land
        },
    };
    let city_mood = match defender_city {
        Some(c) => Some(c.mood_state),
        None => None,
    };
    CombatStats::new(
        battleground,
        battleground.is_land() && attacker_on_sea,
        CombatPlayerStats::new(attacker, attacker_units, attacker_position),
        CombatPlayerStats::new(defender, defender_units, defender_position),
        result,
        city_mood,
    )
}

/// The winner and the loser of a battle are never the same player.
pub proof fn lemma_winner_not_loser(s: CombatStats, player: usize)
    ensures
        !((s.spec_winner() == Some(s.spec_role(player))) && (s.spec_winner() == Some(
            s.spec_opponent_role(player),
        ))),
{
}

/// The role of a player and the role of its opponent are never the same.
pub proof fn lemma_roles_opposite(s: CombatStats, player: usize)
    ensures
        s.spec_role(player) != s.spec_opponent_role(player),
{
}

} // verus!
