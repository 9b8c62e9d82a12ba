use vstd::prelude::*;

use crate::city::{City, MoodState, city_index, city_size, gain_city, lose_city, spec_mood_modified_size};
use crate::city_pieces::{Building, CityPieces, all_buildings};
use crate::combat_stats::CombatStats;
use crate::position::Position;
use crate::tactics_card::CombatRole;
use crate::unit::UnitType;
use crate::wonder::Wonder;

verus! {

/// Effects that change the rules of one combat.
#[derive(Clone, Copy, Debug, PartialEq, Eq, Structural)]
pub enum CombatModifier {
    CancelFortressExtraDie,
    CancelFortressIgnoreHit,
    SteelWeaponsAttacker,
    SteelWeaponsDefender,
    TrojanHorse,
    GreatWarlord,
}

/// Whether the attacker may retreat.
#[derive(Clone, Copy, Debug, PartialEq, Eq, Structural)]
pub enum CombatRetreatState {
    CanRetreat,
    CannotRetreat,
    EndAfterCurrentRound,
}

/// A battle in progress.
#[derive(Clone, Debug)]
pub struct Combat {
    pub attackers: Vec<u32>,
    pub retreat: CombatRetreatState,
    pub modifiers: Vec<CombatModifier>,
    pub stats: CombatStats,
}

impl Combat {
    pub open spec fn spec_attacker(&self) -> usize {
        self.stats.attacker.player
    }

    pub open spec fn spec_defender(&self) -> usize {
        self.stats.defender.player
    }

    pub open spec fn spec_opponent(&self, player: usize) -> usize {
        if player == self.spec_attacker() {
            self.spec_defender()
        } else {
            self.spec_attacker()
        }
    }

    pub open spec fn spec_player(&self, role: CombatRole) -> usize {
        match role {
            CombatRole::Attacker => self.spec_attacker(),
            CombatRole::Defender => self.spec_defender(),
        }
    }

    pub fn new(attackers: Vec<u32>, can_retreat: bool, stats: CombatStats) -> (r: Combat)
        ensures
            r.attackers == attackers,
            r.modifiers@.len() == 0,
            r.retreat == if can_retreat {
                CombatRetreatState::CanRetreat
            } else {
                CombatRetreatState::CannotRetreat
            },
            r.stats == stats,
    {
        Combat {
            attackers,
            modifiers: Vec::new(),
            retreat: if can_retreat {
                CombatRetreatState::CanRetreat
            } else {
                CombatRetreatState::CannotRetreat
            },
            stats,
        }
    }

    pub fn first_round(&self) -> (r: bool)
        ensures
            r == (self.stats.round == 1),
    {
        self.stats.round == 1
    }

    pub fn attacker(&self) -> (r: usize)
        ensures
            r == self.spec_attacker(),
    {
        self.stats.attacker.player
    }

    pub fn defender(&self) -> (r: usize)
        ensures
            r == self.spec_defender(),
    {
        self.stats.defender.player
    }

    pub fn defender_position(&self) -> (r: Position)
        ensures
            r == self.stats.defender.position,
    {
        self.stats.defender.position
    }

    /// The defender's city stands with a fortress (given the city at the defender's position).
    pub fn defender_fortress(&self, defender_city: Option<&City>) -> (r: bool)
        ensures
            r == match defender_city {
                Some(c) => c.pieces.fortress is Some,
                None => false,
            },
    {
        match defender_city {
            Some(c) => c.pieces.fortress.is_some(),
            None => false,
        }
    }

    /// The defender's city stands with a temple (given the city at the defender's position).
    pub fn defender_temple(&self, defender_city: Option<&City>) -> (r: bool)
        ensures
            r == match defender_city {
                Some(c) => c.pieces.temple is Some,
                None => false,
            },
    {
        match defender_city {
            Some(c) => c.pieces.temple.is_some(),
            None => false,
        }
    }

    /// The attacker fights from the sea onto land (given whether its position is sea).
    pub fn is_disembarking_attacker(&self, role: CombatRole, attacker_on_sea: bool) -> (r: bool)
        ensures
            r == (role is Attacker && attacker_on_sea),
    {
        role.is_attacker() && attacker_on_sea
    }

    pub fn opponent(&self, player: usize) -> (r: usize)
        ensures
            r == self.spec_opponent(player),
    {
        if player == self.attacker() {
            self.defender()
        } else {
            self.attacker()
        }
    }

    pub fn opponent_role(&self, player: usize) -> (r: CombatRole)
        ensures
            r == self.stats.spec_opponent_role(player),
    {
        if player == self.attacker() {
            CombatRole::Defender
        } else {
            CombatRole::Attacker
        }
    }

    pub fn players(&self) -> (r: [usize; 2])
        ensures
            r@ == seq![self.spec_attacker(), self.spec_defender()],
    {
        [self.attacker(), self.defender()]
    }

    pub fn role(&self, player: usize) -> (r: CombatRole)
        ensures
            r == self.stats.spec_role(player),
    {
        self.stats.role(player)
    }

    pub fn player(&self, role: CombatRole) -> (r: usize)
        ensures
            r == self.spec_player(role),
    {
        match role {
            CombatRole::Attacker => self.attacker(),
            CombatRole::Defender => self.defender(),
        }
    }

    /// The opponent of the side with `role` is the barbarian player.
    pub fn is_barbarian_battle(&self, role: CombatRole, barbarians: usize) -> (r: bool)
        ensures
            r == (self.spec_opponent(self.spec_player(role)) == barbarians),
    {
        self.opponent(self.player(role)) == barbarians
    }
}

/// Units that are removed when their side loses: all units at sea (carried units too),
/// only army units on land.
pub fn can_remove_after_combat(on_water: bool, unit_type: &UnitType) -> (r: bool)
    ensures
        r == (on_water || unit_type.spec_is_army_unit()),
{
    if on_water {
        true
    } else {
        unit_type.is_army_unit()
    }
}

/// The units that take part in the fighting: the attacking units (whose types are
/// `attacker_types`, in the same order) that can be removed after combat.
pub open spec fn spec_active_attackers(attackers: Seq<u32>, attacker_types: Seq<UnitType>, on_water: bool) -> Seq<u32>
    decreases attackers.len(),
{
    if attackers.len() == 0 {
        Seq::empty()
    } else {
        let rest = spec_active_attackers(attackers.drop_last(), attacker_types.drop_last(), on_water);
        if on_water || attacker_types.last().spec_is_army_unit() {
            rest.push(attackers.last())
        } else {
            rest
        }
    }
}

/// The attacking units that fight: those that can be removed after combat
/// (`attacker_types[i]` is the type of `attackers[i]`; `on_water` tells whether the battle is
/// at sea).
pub fn active_attackers(attackers: &[u32], attacker_types: &[UnitType], on_water: bool) -> (r: Vec<u32>)
    requires
        attacker_types@.len() == attackers@.len(),
    ensures
        r@ == spec_active_attackers(attackers@, attacker_types@, on_water),
{
    let mut r: Vec<u32> = Vec::new();
    let mut i: usize = 0;
    while i < attackers.len()
        invariant
            0 <= i <= attackers@.len(),
            attacker_types@.len() == attackers@.len(),
            r@ == spec_active_attackers(attackers@.take(i as int), attacker_types@.take(i as int), on_water),
        decreases attackers@.len() - i,
    {
        proof {
            assert(attackers@.take(i as int + 1).drop_last() =~= attackers@.take(i as int));
            assert(attacker_types@.take(i as int + 1).drop_last() =~= attacker_types@.take(i as int));
        }
        if can_remove_after_combat(on_water, &attacker_types[i]) {
            r.push(attackers[i]);
        }
        i = i + 1;
    }
    proof {
        assert(attackers@.take(i as int) =~= attackers@);
        assert(attacker_types@.take(i as int) =~= attacker_types@);
    }
    r
}

/// The defending units that fight: the units at the defender's position (id and type) that
/// can be removed after combat.
pub open spec fn spec_active_defenders(units: Seq<(u32, UnitType)>, on_water: bool) -> Seq<u32>
    decreases units.len(),
{
    if units.len() == 0 {
        Seq::empty()
    } else {
        let rest = spec_active_defenders(units.drop_last(), on_water);
        if on_water || units.last().1.spec_is_army_unit() {
            rest.push(units.last().0)
        } else {
            rest
        }
    }
}

/// The defending units that fight (`units` are those at the defender's position).
pub fn active_defenders(units: &[(u32, UnitType)], on_water: bool) -> (r: Vec<u32>)
    ensures
        r@ == spec_active_defenders(units@, on_water),
{
    let mut r: Vec<u32> = Vec::new();
    let mut i: usize = 0;
    while i < units.len()
        invariant
            0 <= i <= units@.len(),
            r@ == spec_active_defenders(units@.take(i as int), on_water),
        decreases units@.len() - i,
    {
        proof {
            assert(units@.take(i as int + 1).drop_last() =~= units@.take(i as int));
        }
        if can_remove_after_combat(on_water, &units[i].1) {
            r.push(units[i].0);
        }
        i = i + 1;
    }
    proof {
        assert(units@.take(i as int) =~= units@);
    }
    r
}

impl Combat {
    /// The fighting units of `player`: the active attackers for the attacker, the active
    /// defenders otherwise.
    pub fn fighting_units(
        &self,
        player: usize,
        attacker_types: &[UnitType],
        defender_units: &[(u32, UnitType)],
        on_water: bool,
    ) -> (r: Vec<u32>)
        requires
            attacker_types@.len() == self.attackers@.len(),
        ensures
            r@ == if player == self.spec_attacker() {
                spec_active_attackers(self.attackers@, attacker_types@, on_water)
            } else {
                spec_active_defenders(defender_units@, on_water)
            },
    {
        if player == self.attacker() {
            active_attackers(&self.attackers, attacker_types, on_water)
        } else {
            active_defenders(defender_units, on_water)
        }
    }

    /// Whether a leader is among the fighting units of the side `role`, given the types of
    /// those units.
    pub fn has_leader(&self, role: CombatRole, fighter_types: &[UnitType]) -> (r: bool)
        ensures
            r == exists|i: int| 0 <= i < fighter_types@.len() && fighter_types@[i] is Leader,
    {
        let mut i: usize = 0;
        while i < fighter_types.len()
            invariant
                i <= fighter_types@.len(),
                forall|j: int| 0 <= j < i ==> !(fighter_types@[j] is Leader),
            decreases fighter_types@.len() - i,
        {
            if fighter_types[i].is_leader() {
                return true;
            }
            i = i + 1;
        }
        false
    }

    /// A battle on land in which the side `role` fights with its leader (given whether the
    /// defended position is land and the types of that side's fighting units).
    pub fn is_land_battle_with_leader(
        &self,
        role: CombatRole,
        defender_on_land: bool,
        fighter_types: &[UnitType],
    ) -> (r: bool)
        ensures
            r == (defender_on_land && exists|i: int|
                0 <= i < fighter_types@.len() && fighter_types@[i] is Leader),
    {
        defender_on_land && self.has_leader(role, fighter_types)
    }
}

/// The opponent of the opponent is the player itself, for both sides of a battle
/// between two different players.
pub proof fn lemma_opponent_involution(c: Combat, player: usize)
    requires
        c.spec_attacker() != c.spec_defender(),
        player == c.spec_attacker() || player == c.spec_defender(),
    ensures
        c.spec_opponent(c.spec_opponent(player)) == player,
        c.spec_opponent(player) != player,
{
}

/// The player of a side has that side as its role.
pub proof fn lemma_player_role(c: Combat, role: CombatRole)
    requires
        c.spec_attacker() != c.spec_defender(),
    ensures
        c.stats.spec_role(c.spec_player(role)) == role,
{
}

/// What happens to a conquered city.
#[derive(Clone, Copy, Debug, PartialEq, Eq, Structural)]
pub struct ConquerOutcome {
    /// Gold the attacker takes for conquering a city of another human player.
    pub conquest_gold: u8,
    /// The attacker keeps the city (it has a city piece left); otherwise the city is razed.
    pub keep_city: bool,
    /// The attacker takes over the buildings of the city.
    pub take_over: bool,
    /// Gold the attacker gets for razing the city.
    pub raze_gold: u8,
}

/// The decisions of conquering `city`: a human attacker gains gold equal to the city's
/// mood modified size from a human defender; the attacker keeps the city when it has a city
/// piece left (taking over the buildings if human), and otherwise razes it, gaining gold
/// equal to its size if human.
pub fn conquer_outcome(
    city: &City,
    defender_forced_labor: bool,
    attacker_human: bool,
    defender_human: bool,
    city_available: bool,
) -> (r: ConquerOutcome)
    requires
        city.countable(),
    ensures
        r.conquest_gold == if attacker_human && defender_human {
            spec_mood_modified_size(city, defender_forced_labor) as u8
        } else {
            0
        },
        r.keep_city == city_available,
        r.take_over == (city_available && attacker_human),
        r.raze_gold == if !city_available && attacker_human {
            city_size(city) as u8
        } else {
            0
        },
{
    let size = city.mood_modified_size(defender_forced_labor);
    let conquest_gold: u8 = if attacker_human && defender_human {
        #[verifier::truncate]
        (size as u8)
    } else {
        0
    };
    if city_available {
        ConquerOutcome { conquest_gold, keep_city: true, take_over: attacker_human, raze_gold: 0 }
    } else {
        let raze_gold: u8 = if attacker_human {
            #[verifier::truncate]
            (city.size() as u8)
        } else {
            0
        };
        ConquerOutcome { conquest_gold, keep_city: false, take_over: false, raze_gold }
    }
}

/// The owner of `b` after a take-over: buildings of the defender (but the obelisk) go to the
/// attacker when it has the building available, and are lost otherwise.
pub open spec fn owner_after_take_over(
    owner: Option<usize>,
    b: Building,
    attacker: usize,
    defender: usize,
    available: Seq<Building>,
) -> Option<usize> {
    if b != Building::Obelisk && owner == Some(defender) {
        if available.contains(b) {
            Some(attacker)
        } else {
            None
        }
    } else {
        owner
    }
}

/// Whether building `b` is lost in a take-over.
pub open spec fn lost_in_take_over(
    owner: Option<usize>,
    b: Building,
    defender: usize,
    available: Seq<Building>,
) -> bool {
    b != Building::Obelisk && owner == Some(defender) && !available.contains(b)
}

/// The number of buildings among the first `n` (in the order of `all_buildings`) that are
/// lost in a take-over.
pub open spec fn lost_prefix(p: CityPieces, defender: usize, available: Seq<Building>, n: int) -> nat
    decreases n,
{
    if n <= 0 {
        0
    } else {
        lost_prefix(p, defender, available, n - 1) + if lost_in_take_over(
            p.owner(all_buildings()[n - 1]),
            all_buildings()[n - 1],
            defender,
            available,
        ) {
            1nat
        } else {
            0nat
        }
    }
}

/// The number of buildings lost in a take-over.
pub open spec fn lost_count(p: CityPieces, defender: usize, available: Seq<Building>) -> nat {
    lost_prefix(p, defender, available, 7)
}

/// Whether `b` is in `available`.
fn is_available(available: &[Building], b: Building) -> (r: bool)
    ensures
        r == available@.contains(b),
{
    let mut i: usize = 0;
    while i < available.len()
        invariant
            0 <= i <= available@.len(),
            forall|k: int| 0 <= k < i ==> available@[k] != b,
        decreases available@.len() - i,
    {
        if available[i] == b {
            return true;
        }
        i = i + 1;
    }
    false
}

/// The attacker takes over the defender's buildings of a conquered city; returns the gold
/// it gets, one per building it could not take (having no such building left).
pub fn take_over_city(pieces: &mut CityPieces, attacker: usize, defender: usize, available: &[Building]) -> (gold: u8)
    ensures
        forall|b: Building| #[trigger] final(pieces).owner(b) == owner_after_take_over(
            old(pieces).owner(b),
            b,
            attacker,
            defender,
            available@,
        ),
        final(pieces).wonders == old(pieces).wonders,
        gold == lost_count(*old(pieces), defender, available@),
{
    let owners = pieces.building_owners();
    let ghost start = *pieces;
    let mut gold: u8 = 0;
    let mut i: usize = 0;
    while i < 7
        invariant
            0 <= i <= 7,
            owners@.len() == 7,
            forall|k: int| 0 <= k < 7 ==> (#[trigger] owners@[k]).0 == all_buildings()[k] && owners@[k].1 == start.owner(all_buildings()[k]),
            forall|k: int| 0 <= k < i ==> #[trigger] pieces.owner(all_buildings()[k]) == owner_after_take_over(
                start.owner(all_buildings()[k]),
                all_buildings()[k],
                attacker,
                defender,
                available@,
            ),
            forall|k: int| i <= k < 7 ==> #[trigger] pieces.owner(all_buildings()[k]) == start.owner(all_buildings()[k]),
            pieces.wonders == start.wonders,
            gold == lost_prefix(start, defender, available@, i as int),
            gold <= i,
        decreases 7 - i,
    {
        let (building, owner) = owners[i];
        if building != Building::Obelisk {
            match owner {
                Some(o) => {
                    if o == defender {
                        if is_available(available, building) {
                            pieces.set_building(building, attacker);
                        } else {
                            pieces.remove_building(building);
                            gold = gold + 1;
                        }
                    }
                },
                None => {},
            }
        }
        i = i + 1;
    }
    proof {
        assert forall|b: Building| #[trigger] pieces.owner(b) == owner_after_take_over(
            start.owner(b),
            b,
            attacker,
            defender,
            available@,
        ) by {
            match b {
                Building::Academy => assert(all_buildings()[0] == b),
                Building::Market => assert(all_buildings()[1] == b),
                Building::Obelisk => assert(all_buildings()[2] == b),
                Building::Observatory => assert(all_buildings()[3] == b),
                Building::Fortress => assert(all_buildings()[4] == b),
                Building::Port => assert(all_buildings()[5] == b),
                Building::Temple => assert(all_buildings()[6] == b),
            }
        }
    }
    gold
}

/// What moving onto a tile of another player leads to.
#[derive(Clone, Copy, Debug, PartialEq, Eq, Structural)]
pub enum EnemyTileMove {
    /// The city has the Great Wall and wins at once against barbarians moving in.
    GreatWallWin,
    /// A battle starts.
    Combat,
    /// The units move in and capture the position.
    Move,
}

/// Some unit in `types` is military.
pub open spec fn any_military(types: Seq<UnitType>) -> bool {
    exists|i: int| 0 <= i < types.len() && (#[trigger] types[i]).spec_is_military()
}

/// Decides what a move onto a tile of the defender leads to, given whether the mover is a
/// human player, whether the defender has a city there and owns the Great Wall, the types of
/// the defender's units there, and whether the city has a fortress: the Great Wall beats
/// barbarians moving into a city at once, and a battle starts where military units or a
/// fortress defend.
pub fn move_to_enemy_player_tile(
    mover_is_human: bool,
    defender_has_city: bool,
    defender_great_wall: bool,
    defender_units: &[UnitType],
    defender_fortress: bool,
) -> (r: EnemyTileMove)
    ensures
        r == if !mover_is_human && defender_has_city && defender_great_wall {
            EnemyTileMove::GreatWallWin
        } else if any_military(defender_units@) || defender_fortress {
            EnemyTileMove::Combat
        } else {
            EnemyTileMove::Move
        },
{
    if !mover_is_human && defender_has_city && defender_great_wall {
        return EnemyTileMove::GreatWallWin;
    }
    let mut i: usize = 0;
    let mut military = false;
    while i < defender_units.len()
        invariant
            i <= defender_units@.len(),
            military == exists|j: int| 0 <= j < i && (#[trigger] defender_units@[j]).spec_is_military(),
        decreases defender_units@.len() - i,
    {
        if defender_units[i].is_military() {
            military = true;
        }
        i = i + 1;
    }
    if military || defender_fortress {
        EnemyTileMove::Combat
    } else {
        EnemyTileMove::Move
    }
}

/// A unit moving into battle: its type, and whether it already fought this turn (the
/// battle movement restriction).
#[derive(Clone, Copy, Debug, PartialEq, Eq, Structural)]
pub struct BattleMover {
    pub unit_type: UnitType,
    pub battle_restricted: bool,
}

/// The unit ignores the battle movement restriction: a ship of a player with Longships.
pub open spec fn ignores_restriction(m: BattleMover, longships: bool) -> bool {
    m.unit_type is Ship && longships
}

/// Marks the military units that attack as having fought this turn. Ships of a player with
/// Longships ignore the restriction; the result says whether any did. The attack needs a
/// military unit, and no unit bound by the restriction may have fought already.
pub fn apply_battle_movement_restriction(units: &mut Vec<BattleMover>, longships: bool) -> (used_longships: bool)
    requires
        exists|i: int| 0 <= i < old(units)@.len() && (#[trigger] old(units)@[i]).unit_type.spec_is_military(),
        forall|i: int| 0 <= i < old(units)@.len() && (#[trigger] old(units)@[i]).unit_type.spec_is_military()
            && !ignores_restriction(old(units)@[i], longships) ==> !old(units)@[i].battle_restricted,
    ensures
        final(units)@.len() == old(units)@.len(),
        forall|i: int| 0 <= i < old(units)@.len() ==> (#[trigger] final(units)@[i]) == (BattleMover {
            unit_type: old(units)@[i].unit_type,
            battle_restricted: old(units)@[i].battle_restricted || (
                old(units)@[i].unit_type.spec_is_military() && !ignores_restriction(old(units)@[i], longships)),
        }),
        used_longships == exists|i: int| 0 <= i < old(units)@.len() && (
            #[trigger] old(units)@[i]).unit_type.spec_is_military() && ignores_restriction(old(units)@[i], longships),
{
    let mut used = false;
    let mut i: usize = 0;
    while i < units.len()
        invariant
            i <= units@.len(),
            units@.len() == old(units)@.len(),
            forall|j: int| i <= j < units@.len() ==> units@[j] == old(units)@[j],
            forall|j: int| 0 <= j < i ==> (#[trigger] units@[j]) == (BattleMover {
                unit_type: old(units)@[j].unit_type,
                battle_restricted: old(units)@[j].battle_restricted || (
                    old(units)@[j].unit_type.spec_is_military() && !ignores_restriction(old(units)@[j], longships)),
            }),
            used == exists|j: int| 0 <= j < i && (#[trigger] old(units)@[j]).unit_type.spec_is_military()
                && ignores_restriction(old(units)@[j], longships),
        decreases units@.len() - i,
    {
        let m = units[i];
        if m.unit_type.is_military() {
            if m.unit_type.is_ship() && longships {
                used = true;
            } else {
                units.set(i, BattleMover { unit_type: m.unit_type, battle_restricted: true });
            }
        }
        i = i + 1;
    }
    used
}

/// `after` is the conquered city `before` as the attacker holds it: owned by the attacker,
/// angry, with the defender's buildings taken over when `take_over`, and otherwise unchanged.
pub open spec fn conquered(
    before: City,
    after: City,
    attacker: usize,
    defender: usize,
    take_over: bool,
    available: Seq<Building>,
) -> bool {
    &&& after.player_index == attacker
    &&& after.mood_state == MoodState::Angry
    &&& after.position == before.position
    &&& after.port_position == before.port_position
    &&& after.activations == before.activations
    &&& after.activation_mood_decreased == before.activation_mood_decreased
    &&& after.angry_activation == before.angry_activation
    &&& after.pieces.wonders == before.pieces.wonders
    &&& forall|b: Building| #[trigger] after.pieces.owner(b) == if take_over {
        owner_after_take_over(before.pieces.owner(b), b, attacker, defender, available)
    } else {
        before.pieces.owner(b)
    }
}

/// The wonders of `owned` that are not among `lost`, in order.
pub open spec fn without_wonders(owned: Seq<Wonder>, lost: Seq<Wonder>) -> Seq<Wonder> {
    owned.filter(|w: Wonder| !lost.contains(w))
}

/// Removes the wonders `lost` from `owned`.
fn remove_wonders(owned: &mut Vec<Wonder>, lost: &Vec<Wonder>)
    ensures
        final(owned)@ == without_wonders(old(owned)@, lost@),
{
    let ghost f = |w: Wonder| !lost@.contains(w);
    let mut kept: Vec<Wonder> = Vec::new();
    let mut i: usize = 0;
    while i < owned.len()
        invariant
            0 <= i <= owned@.len(),
            *owned == *old(owned),
            f == (|w: Wonder| !lost@.contains(w)),
            kept@ == owned@.take(i as int).filter(f),
        decreases owned@.len() - i,
    {
        proof {
            assert(owned@.take(i as int + 1).drop_last() =~= owned@.take(i as int));
            reveal(Seq::filter);
        }
        let w = owned[i];
        let mut found = false;
        let mut k: usize = 0;
        while k < lost.len()
            invariant
                0 <= k <= lost@.len(),
                found == exists|j: int| 0 <= j < k && lost@[j] == w,
            decreases lost@.len() - k,
        {
            if lost[k] == w {
                found = true;
            }
            k = k + 1;
        }
        if !found {
            kept.push(w);
        }
        proof {
            if f(w) {
                assert(owned@.take(i as int + 1).filter(f) =~= owned@.take(i as int).filter(f).push(w));
            } else {
                assert(owned@.take(i as int + 1).filter(f) =~= owned@.take(i as int).filter(f));
            }
        }
        i = i + 1;
    }
    proof {
        assert(owned@.take(owned@.len() as int) =~= owned@);
    }
    *owned = kept;
}

/// Adds the wonders `gained` to `owned`.
fn add_wonders(owned: &mut Vec<Wonder>, gained: &Vec<Wonder>)
    ensures
        final(owned)@ == old(owned)@ + gained@,
{
    let mut i: usize = 0;
    while i < gained.len()
        invariant
            0 <= i <= gained@.len(),
            owned@ == old(owned)@ + gained@.take(i as int),
        decreases gained@.len() - i,
    {
        owned.push(gained[i]);
        proof {
            assert(old(owned)@ + gained@.take(i as int + 1) =~= (old(owned)@ + gained@.take(i as int)).push(
                gained@[i as int],
            ));
        }
        i = i + 1;
    }
    proof {
        assert(gained@.take(gained@.len() as int) =~= gained@);
    }
}

/// Applies the conquest of the defender's city at `position`, as `outcome` decided it. The
/// defender loses the city. When the attacker keeps it, the attacker gains it, angry, and on a
/// take-over also its buildings (as `take_over_city` does) and its wonders. When it is razed,
/// its wonders are destroyed. Returns the gold the attacker gains: the conquest gold, the raze
/// gold and one per building it could not take over.
pub fn conquer_city(
    attacker: usize,
    defender: usize,
    attacker_cities: &mut Vec<City>,
    defender_cities: &mut Vec<City>,
    attacker_wonders: &mut Vec<Wonder>,
    defender_wonders: &mut Vec<Wonder>,
    position: Position,
    outcome: ConquerOutcome,
    available: &[Building],
) -> (gold: u32)
    requires
        exists|k: int|
            0 <= k < old(defender_cities)@.len() && (#[trigger] old(defender_cities)@[k]).position
                == position,
    ensures
        ({
            let i = city_index(old(defender_cities)@, position);
            let c = old(defender_cities)@[i];
            &&& 0 <= i
            &&& final(defender_cities)@ == old(defender_cities)@.remove(i)
            &&& outcome.keep_city ==> final(attacker_cities)@.len() == old(attacker_cities)@.len() + 1
                && final(attacker_cities)@.drop_last() == old(attacker_cities)@ && conquered(
                c,
                final(attacker_cities)@.last(),
                attacker,
                defender,
                outcome.take_over,
                available@,
            )
            &&& !outcome.keep_city ==> final(attacker_cities)@ == old(attacker_cities)@
            &&& final(attacker_wonders)@ == if outcome.keep_city && outcome.take_over {
                old(attacker_wonders)@ + c.pieces.wonders@
            } else {
                old(attacker_wonders)@
            }
            &&& final(defender_wonders)@ == if outcome.keep_city && !outcome.take_over {
                old(defender_wonders)@
            } else {
                without_wonders(old(defender_wonders)@, c.pieces.wonders@)
            }
            &&& gold == outcome.conquest_gold + outcome.raze_gold + if outcome.keep_city
                && outcome.take_over {
                lost_count(c.pieces, defender, available@)
            } else {
                0
            }
        }),
{
    let mut city = lose_city(defender_cities, position);
    let mut gold: u32 = outcome.conquest_gold as u32 + outcome.raze_gold as u32;
    if outcome.keep_city {
        if outcome.take_over {
            remove_wonders(defender_wonders, &city.pieces.wonders);
            add_wonders(attacker_wonders, &city.pieces.wonders);
            let lost = take_over_city(&mut city.pieces, attacker, defender, available);
            gold = gold + lost as u32;
        }
        city.mood_state = MoodState::Angry;
        gain_city(attacker_cities, attacker, city);
    } else {
        remove_wonders(defender_wonders, &city.pieces.wonders);
    }
    gold
}

} // verus!
