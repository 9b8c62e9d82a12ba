use vstd::prelude::*;

use crate::position::{hex_distance, Position};

verus! {

/// What a mission of the computer player sets out to do.
#[derive(Clone, Debug, PartialEq, Eq)]
pub enum MissionType {
    Explore,
    DefendCity,
    FoundCity,
    CapturePlayerCity { player_index: usize },
    CaptureBarbarianCamp,
    FightPlayerForces { player_index: usize, units: Vec<u32> },
    FightBarbarians { units: Vec<u32> },
    FightPirates { units: Vec<u32> },
    Transport,
    Cartography,
}

/// A mission that a unit could take on: its kind and the position it heads for.
#[derive(Clone, Debug)]
pub struct MissionTarget {
    pub mission_type: MissionType,
    pub target: Position,
}

/// The kinds of mission, with the unit lists seen as sequences.
pub enum MissionKind {
    Explore,
    DefendCity,
    FoundCity,
    CapturePlayerCity(usize),
    CaptureBarbarianCamp,
    FightPlayerForces(usize, Seq<u32>),
    FightBarbarians(Seq<u32>),
    FightPirates(Seq<u32>),
    Transport,
    Cartography,
}

impl MissionType {
    pub open spec fn kind(&self) -> MissionKind {
        match self {
            MissionType::Explore => MissionKind::Explore,
            MissionType::DefendCity => MissionKind::DefendCity,
            MissionType::FoundCity => MissionKind::FoundCity,
            MissionType::CapturePlayerCity { player_index } => MissionKind::CapturePlayerCity(
                *player_index,
            ),
            MissionType::CaptureBarbarianCamp => MissionKind::CaptureBarbarianCamp,
            MissionType::FightPlayerForces { player_index, units } => MissionKind::FightPlayerForces(
                *player_index,
                units@,
            ),
            MissionType::FightBarbarians { units } => MissionKind::FightBarbarians(units@),
            MissionType::FightPirates { units } => MissionKind::FightPirates(units@),
            MissionType::Transport => MissionKind::Transport,
            MissionType::Cartography => MissionKind::Cartography,
        }
    }
}

/// A mission target seen as a kind and a position.
pub open spec fn target_view(t: MissionTarget) -> (MissionKind, Position) {
    (t.mission_type.kind(), t.target)
}

/// The views of a list of mission targets.
pub open spec fn targets_view(ts: Seq<MissionTarget>) -> Seq<(MissionKind, Position)> {
    ts.map_values(|t: MissionTarget| target_view(t))
}

/// Exploring the scouting target, where there is one.
pub open spec fn explore_targets(explore: Option<Position>) -> Seq<(MissionKind, Position)> {
    match explore {
        Some(p) => seq![(MissionKind::Explore, p)],
        None => seq![],
    }
}

/// The missions a land unit of the computer player can take on, in this order: explore the
/// scouting target, defend each threatened city, capture each city of another human player,
/// capture each barbarian camp, fight the forces at each position of another human player's
/// unit, fight the barbarians at each position of a barbarian unit.
pub open spec fn spec_combat_unit_missions(
    explore: Option<Position>,
    threatened_cities: Seq<Position>,
    enemy_cities: Seq<(usize, Position)>,
    barbarian_camps: Seq<Position>,
    enemy_forces: Seq<(usize, Position, Vec<u32>)>,
    barbarian_forces: Seq<(Position, Vec<u32>)>,
) -> Seq<(MissionKind, Position)> {
    explore_targets(explore) + threatened_cities.map_values(
        |p: Position| (MissionKind::DefendCity, p),
    ) + enemy_cities.map_values(|c: (usize, Position)| (MissionKind::CapturePlayerCity(c.0), c.1))
        + barbarian_camps.map_values(|p: Position| (MissionKind::CaptureBarbarianCamp, p))
        + enemy_forces.map_values(
        |f: (usize, Position, Vec<u32>)| (MissionKind::FightPlayerForces(f.0, f.2@), f.1),
    ) + barbarian_forces.map_values(
        |f: (Position, Vec<u32>)| (MissionKind::FightBarbarians(f.1@), f.0),
    )
}

fn push_target(r: &mut Vec<MissionTarget>, mission_type: MissionType, target: Position)
    ensures
        targets_view(final(r)@) == targets_view(old(r)@).push(
            (mission_type.kind(), target),
        ),
{
    r.push(MissionTarget { mission_type, target });
    proof {
        assert(targets_view(r@) =~= targets_view(old(r)@).push((mission_type.kind(), target)));
    }
}

/// The missions a land unit of the computer player can take on (the order is that of
/// `spec_combat_unit_missions`). `threatened_cities` are the player's cities under threat,
/// `enemy_cities` the cities of the other human players with their owners, `enemy_forces`
/// the positions of their units with the owner and the units standing there.
pub fn combat_unit_missions(
    explore: Option<Position>,
    threatened_cities: &[Position],
    enemy_cities: &[(usize, Position)],
    barbarian_camps: &[Position],
    enemy_forces: &[(usize, Position, Vec<u32>)],
    barbarian_forces: &[(Position, Vec<u32>)],
) -> (r: Vec<MissionTarget>)
    ensures
        targets_view(r@) == spec_combat_unit_missions(
            explore,
            threatened_cities@,
            enemy_cities@,
            barbarian_camps@,
            enemy_forces@,
            barbarian_forces@,
        ),
{
    let mut r: Vec<MissionTarget> = Vec::new();
    match explore {
        Some(p) => push_target(&mut r, MissionType::Explore, p),
        None => {},
    }
    proof {
        assert(targets_view(r@) =~= explore_targets(explore));
    }
    let ghost s1 = targets_view(r@);
    let mut i: usize = 0;
    while i < threatened_cities.len()
        invariant
            i <= threatened_cities@.len(),
            targets_view(r@) == s1 + threatened_cities@.take(i as int).map_values(
                |p: Position| (MissionKind::DefendCity, p),
            ),
        decreases threatened_cities@.len() - i,
    {
        push_target(&mut r, MissionType::DefendCity, threatened_cities[i]);
        proof {
            assert(threatened_cities@.take(i as int + 1) =~= threatened_cities@.take(i as int).push(
                threatened_cities@[i as int],
            ));
            assert(threatened_cities@.take(i as int + 1).map_values(
                |p: Position| (MissionKind::DefendCity, p),
            ) =~= threatened_cities@.take(i as int).map_values(
                |p: Position| (MissionKind::DefendCity, p),
            ).push((MissionKind::DefendCity, threatened_cities@[i as int])));
        }
        i = i + 1;
    }
    proof {
        assert(threatened_cities@.take(i as int) =~= threatened_cities@);
    }
    let ghost s2 = targets_view(r@);
    let mut i: usize = 0;
    while i < enemy_cities.len()
        invariant
            i <= enemy_cities@.len(),
            targets_view(r@) == s2 + enemy_cities@.take(i as int).map_values(
                |c: (usize, Position)| (MissionKind::CapturePlayerCity(c.0), c.1),
            ),
        decreases enemy_cities@.len() - i,
    {
        let (p, pos) = enemy_cities[i];
        push_target(&mut r, MissionType::CapturePlayerCity { player_index: p }, pos);
        proof {
            assert(enemy_cities@.take(i as int + 1) =~= enemy_cities@.take(i as int).push(
                enemy_cities@[i as int],
            ));
            assert(enemy_cities@.take(i as int + 1).map_values(
                |c: (usize, Position)| (MissionKind::CapturePlayerCity(c.0), c.1),
            ) =~= enemy_cities@.take(i as int).map_values(
                |c: (usize, Position)| (MissionKind::CapturePlayerCity(c.0), c.1),
            ).push((MissionKind::CapturePlayerCity(p), pos)));
        }
        i = i + 1;
    }
    proof {
        assert(enemy_cities@.take(i as int) =~= enemy_cities@);
    }
    let ghost s3 = targets_view(r@);
    let mut i: usize = 0;
    while i < barbarian_camps.len()
        invariant
            i <= barbarian_camps@.len(),
            targets_view(r@) == s3 + barbarian_camps@.take(i as int).map_values(
                |p: Position| (MissionKind::CaptureBarbarianCamp, p),
            ),
        decreases barbarian_camps@.len() - i,
    {
        push_target(&mut r, MissionType::CaptureBarbarianCamp, barbarian_camps[i]);
        proof {
            assert(barbarian_camps@.take(i as int + 1) =~= barbarian_camps@.take(i as int).push(
                barbarian_camps@[i as int],
            ));
            assert(barbarian_camps@.take(i as int + 1).map_values(
                |p: Position| (MissionKind::CaptureBarbarianCamp, p),
            ) =~= barbarian_camps@.take(i as int).map_values(
                |p: Position| (MissionKind::CaptureBarbarianCamp, p),
            ).push((MissionKind::CaptureBarbarianCamp, barbarian_camps@[i as int])));
        }
        i = i + 1;
    }
    proof {
        assert(barbarian_camps@.take(i as int) =~= barbarian_camps@);
    }
    let ghost s4 = targets_view(r@);
    let mut i: usize = 0;
    while i < enemy_forces.len()
        invariant
            i <= enemy_forces@.len(),
            targets_view(r@) == s4 + enemy_forces@.take(i as int).map_values(
                |f: (usize, Position, Vec<u32>)| (MissionKind::FightPlayerForces(f.0, f.2@), f.1),
            ),
        decreases enemy_forces@.len() - i,
    {
        let p = enemy_forces[i].0;
        let pos = enemy_forces[i].1;
        let units = enemy_forces[i].2.clone();
        push_target(&mut r, MissionType::FightPlayerForces { player_index: p, units }, pos);
        proof {
            assert(units@ == enemy_forces@[i as int].2@);
            assert(enemy_forces@.take(i as int + 1) =~= enemy_forces@.take(i as int).push(
                enemy_forces@[i as int],
            ));
            assert(enemy_forces@.take(i as int + 1).map_values(
                |f: (usize, Position, Vec<u32>)| (MissionKind::FightPlayerForces(f.0, f.2@), f.1),
            ) =~= enemy_forces@.take(i as int).map_values(
                |f: (usize, Position, Vec<u32>)| (MissionKind::FightPlayerForces(f.0, f.2@), f.1),
            ).push((MissionKind::FightPlayerForces(p, units@), pos)));
        }
        i = i + 1;
    }
    proof {
        assert(enemy_forces@.take(i as int) =~= enemy_forces@);
    }
    let ghost s5 = targets_view(r@);
    let mut i: usize = 0;
    while i < barbarian_forces.len()
        invariant
            i <= barbarian_forces@.len(),
            targets_view(r@) == s5 + barbarian_forces@.take(i as int).map_values(
                |f: (Position, Vec<u32>)| (MissionKind::FightBarbarians(f.1@), f.0),
            ),
        decreases barbarian_forces@.len() - i,
    {
        let pos = barbarian_forces[i].0;
        let units = barbarian_forces[i].1.clone();
        push_target(&mut r, MissionType::FightBarbarians { units }, pos);
        proof {
            assert(units@ == barbarian_forces@[i as int].1@);
            assert(barbarian_forces@.take(i as int + 1) =~= barbarian_forces@.take(i as int).push(
                barbarian_forces@[i as int],
            ));
            assert(barbarian_forces@.take(i as int + 1).map_values(
                |f: (Position, Vec<u32>)| (MissionKind::FightBarbarians(f.1@), f.0),
            ) =~= barbarian_forces@.take(i as int).map_values(
                |f: (Position, Vec<u32>)| (MissionKind::FightBarbarians(f.1@), f.0),
            ).push((MissionKind::FightBarbarians(units@), pos)));
        }
        i = i + 1;
    }
    proof {
        assert(barbarian_forces@.take(i as int) =~= barbarian_forces@);
    }
    r
}

/// The missions a settler can take on: found a city at the settling target, then explore the
/// scouting target where there is one.
pub fn settler_missions(found_city_target: Position, explore: Option<Position>) -> (r: Vec<
    MissionTarget,
>)
    ensures
        targets_view(r@) == seq![(MissionKind::FoundCity, found_city_target)] + explore_targets(
            explore,
        ),
{
    let mut r: Vec<MissionTarget> = Vec::new();
    push_target(&mut r, MissionType::FoundCity, found_city_target);
    match explore {
        Some(p) => push_target(&mut r, MissionType::Explore, p),
        None => {},
    }
    proof {
        assert(targets_view(r@) =~= seq![(MissionKind::FoundCity, found_city_target)]
            + explore_targets(explore));
    }
    r
}

/// The missions a ship can take on: fight the pirates at each position of a pirate ship
/// (with the ships standing there).
pub fn ship_missions(pirate_forces: &[(Position, Vec<u32>)]) -> (r: Vec<MissionTarget>)
    ensures
        targets_view(r@) == pirate_forces@.map_values(
            |f: (Position, Vec<u32>)| (MissionKind::FightPirates(f.1@), f.0),
        ),
{
    let mut r: Vec<MissionTarget> = Vec::new();
    let mut i: usize = 0;
    while i < pirate_forces.len()
        invariant
            i <= pirate_forces@.len(),
            targets_view(r@) == pirate_forces@.take(i as int).map_values(
                |f: (Position, Vec<u32>)| (MissionKind::FightPirates(f.1@), f.0),
            ),
        decreases pirate_forces@.len() - i,
    {
        let pos = pirate_forces[i].0;
        let units = pirate_forces[i].1.clone();
        push_target(&mut r, MissionType::FightPirates { units }, pos);
        proof {
            assert(units@ == pirate_forces@[i as int].1@);
            assert(pirate_forces@.take(i as int + 1) =~= pirate_forces@.take(i as int).push(
                pirate_forces@[i as int],
            ));
            assert(pirate_forces@.take(i as int + 1).map_values(
                |f: (Position, Vec<u32>)| (MissionKind::FightPirates(f.1@), f.0),
            ) =~= pirate_forces@.take(i as int).map_values(
                |f: (Position, Vec<u32>)| (MissionKind::FightPirates(f.1@), f.0),
            ).push((MissionKind::FightPirates(units@), pos)));
        }
        i = i + 1;
    }
    proof {
        assert(pirate_forces@.take(i as int) =~= pirate_forces@);
    }
    r
}

/// A mission under way: the units on it (all at `current_location`), the player, what it
/// sets out to do and where it heads.
#[derive(Clone, Debug)]
pub struct Mission {
    pub units: Vec<u32>,
    pub player_index: usize,
    pub mission_type: MissionType,
    pub target: Position,
    pub current_location: Position,
}

/// A mission seen with sequences.
pub struct MissionView {
    pub units: Seq<u32>,
    pub player_index: usize,
    pub kind: MissionKind,
    pub target: Position,
    pub current_location: Position,
}

impl View for Mission {
    type V = MissionView;

    open spec fn view(&self) -> MissionView {
        MissionView {
            units: self.units@,
            player_index: self.player_index,
            kind: self.mission_type.kind(),
            target: self.target,
            current_location: self.current_location,
        }
    }
}

/// Where unit `id` stands among `units` (pairs of unit and position); `None` when it is gone.
pub open spec fn unit_position(units: Seq<(u32, Position)>, id: u32) -> Option<Position>
    decreases units.len(),
{
    if units.len() == 0 {
        None
    } else if units[0].0 == id {
        Some(units[0].1)
    } else {
        unit_position(units.drop_first(), id)
    }
}

/// The units of `ids` that still exist among `units`, in order.
pub open spec fn alive_ids(ids: Seq<u32>, units: Seq<(u32, Position)>) -> Seq<u32> {
    ids.filter(|id: u32| unit_position(units, id) is Some)
}

/// The units of `ids` that stand at `pos`, in order.
pub open spec fn ids_at(ids: Seq<u32>, units: Seq<(u32, Position)>, pos: Position) -> Seq<u32> {
    ids.filter(|id: u32| unit_position(units, id) == Some(pos))
}

/// Some city stands less than three steps from `target`.
pub open spec fn city_near(cities: Seq<Position>, target: Position) -> bool {
    exists|i: int| 0 <= i < cities.len() && hex_distance(#[trigger] cities[i], target) < 3
}

/// The enemy units `left` (still existing among `units`) move the target to the first of
/// them, where there is one.
pub open spec fn chased_target(left: Seq<u32>, units: Seq<(u32, Position)>, target: Position) -> Position {
    if left.len() > 0 {
        unit_position(units, left[0]).unwrap()
    } else {
        target
    }
}

/// A mission after an update. The units that are gone leave it; when none is left, that is
/// all. Otherwise the mission is where its first unit stands, and only the units there stay
/// on it. A settling mission whose target has come within two steps of a city heads for
/// `settling_target`. A mission to fight forces follows the enemy units that still exist to
/// the first one; a fight against another player ends (no units stay) when those units no
/// longer stand together.
pub open spec fn spec_updated(
    m: MissionView,
    players_units: Seq<Seq<(u32, Position)>>,
    barbarians: usize,
    pirates: usize,
    cities: Seq<Position>,
    settling_target: Position,
) -> MissionView {
    let own = players_units[m.player_index as int];
    let alive = alive_ids(m.units, own);
    if alive.len() == 0 {
        MissionView { units: alive, ..m }
    } else {
        let loc = unit_position(own, alive[0]).unwrap();
        let base = MissionView { units: ids_at(alive, own, loc), current_location: loc, ..m };
        match m.kind {
            MissionKind::FoundCity => if city_near(cities, m.target) {
                MissionView { target: settling_target, ..base }
            } else {
                base
            },
            MissionKind::FightPlayerForces(e, eu) => {
                let theirs = players_units[e as int];
                let left = alive_ids(eu, theirs);
                let target = chased_target(left, theirs, m.target);
                MissionView {
                    units: if ids_at(left, theirs, target).len() < left.len() {
                        seq![]
                    } else {
                        base.units
                    },
                    kind: MissionKind::FightPlayerForces(e, left),
                    target,
                    ..base
                }
            },
            MissionKind::FightBarbarians(eu) => {
                let theirs = players_units[barbarians as int];
                let left = alive_ids(eu, theirs);
                MissionView {
                    kind: MissionKind::FightBarbarians(left),
                    target: chased_target(left, theirs, m.target),
                    ..base
                }
            },
            MissionKind::FightPirates(eu) => {
                let theirs = players_units[pirates as int];
                let left = alive_ids(eu, theirs);
                MissionView {
                    kind: MissionKind::FightPirates(left),
                    target: chased_target(left, theirs, m.target),
                    ..base
                }
            },
            _ => base,
        }
    }
}

/// Where unit `id` stands among `units`.
fn find_unit(units: &Vec<(u32, Position)>, id: u32) -> (r: Option<Position>)
    ensures
        r == unit_position(units@, id),
{
    let mut i: usize = 0;
    proof {
        assert(units@.skip(0) =~= units@);
    }
    while i < units.len()
        invariant
            i <= units@.len(),
            unit_position(units@, id) == unit_position(units@.skip(i as int), id),
        decreases units@.len() - i,
    {
        if units[i].0 == id {
            return Some(units[i].1);
        }
        proof {
            assert(units@.skip(i as int).drop_first() =~= units@.skip(i as int + 1));
        }
        i = i + 1;
    }
    None
}

/// The units of `ids` that still exist among `units`.
fn retain_alive(ids: &Vec<u32>, units: &Vec<(u32, Position)>) -> (r: Vec<u32>)
    ensures
        r@ == alive_ids(ids@, units@),
{
    let ghost f = |id: u32| unit_position(units@, id) is Some;
    let mut r: Vec<u32> = Vec::new();
    let mut i: usize = 0;
    while i < ids.len()
        invariant
            i <= ids@.len(),
            f == (|id: u32| unit_position(units@, id) is Some),
            r@ == ids@.take(i as int).filter(f),
        decreases ids@.len() - i,
    {
        proof {
            assert(ids@.take(i as int + 1).drop_last() =~= ids@.take(i as int));
            reveal(Seq::filter);
        }
        let id = ids[i];
        if find_unit(units, id).is_some() {
            r.push(id);
        }
        proof {
            if f(id) {
                assert(ids@.take(i as int + 1).filter(f) =~= ids@.take(i as int).filter(f).push(id));
            } else {
                assert(ids@.take(i as int + 1).filter(f) =~= ids@.take(i as int).filter(f));
            }
        }
        i = i + 1;
    }
    proof {
        assert(ids@.take(ids@.len() as int) =~= ids@);
    }
    r
}

/// The units of `ids` that stand at `pos`.
fn retain_at(ids: &Vec<u32>, units: &Vec<(u32, Position)>, pos: Position) -> (r: Vec<u32>)
    ensures
        r@ == ids_at(ids@, units@, pos),
{
    let ghost f = |id: u32| unit_position(units@, id) == Some(pos);
    let mut r: Vec<u32> = Vec::new();
    let mut i: usize = 0;
    while i < ids.len()
        invariant
            i <= ids@.len(),
            f == (|id: u32| unit_position(units@, id) == Some(pos)),
            r@ == ids@.take(i as int).filter(f),
        decreases ids@.len() - i,
    {
        proof {
            assert(ids@.take(i as int + 1).drop_last() =~= ids@.take(i as int));
            reveal(Seq::filter);
        }
        let id = ids[i];
        let here = match find_unit(units, id) {
            Some(p) => p == pos,
            None => false,
        };
        if here {
            r.push(id);
        }
        proof {
            if f(id) {
                assert(ids@.take(i as int + 1).filter(f) =~= ids@.take(i as int).filter(f).push(id));
            } else {
                assert(ids@.take(i as int + 1).filter(f) =~= ids@.take(i as int).filter(f));
            }
        }
        i = i + 1;
    }
    proof {
        assert(ids@.take(ids@.len() as int) =~= ids@);
    }
    r
}

/// Whether some city stands less than three steps from `target`.
fn any_city_near(cities: &[Position], target: Position) -> (r: bool)
    ensures
        r == city_near(cities@, target),
{
    let mut i: usize = 0;
    while i < cities.len()
        invariant
            i <= cities@.len(),
            forall|j: int| 0 <= j < i ==> hex_distance(#[trigger] cities@[j], target) >= 3,
        decreases cities@.len() - i,
    {
        if cities[i].distance(target) < 3 {
            return true;
        }
        i = i + 1;
    }
    false
}

/// The enemy units that still exist, and the target moved to the first of them.
fn chase(eu: &Vec<u32>, theirs: &Vec<(u32, Position)>, target: Position) -> (r: (Vec<u32>, Position))
    ensures
        r.0@ == alive_ids(eu@, theirs@),
        r.1 == chased_target(alive_ids(eu@, theirs@), theirs@, target),
{
    let left = retain_alive(eu, theirs);
    let mut t = target;
    if left.len() > 0 {
        proof {
            eu@.lemma_filter_pred(|id: u32| unit_position(theirs@, id) is Some, 0);
        }
        match find_unit(theirs, left[0]) {
            Some(p) => t = p,
            None => {},
        }
    }
    (left, t)
}

/// Updates a mission (see `spec_updated`): `players_units` lists the units of every player
/// with their positions, `barbarians` and `pirates` are the indices of those players,
/// `cities` the positions of all cities, and `settling_target` where a settler would now
/// settle.
pub fn update_mission(
    m: &mut Mission,
    players_units: &[Vec<(u32, Position)>],
    barbarians: usize,
    pirates: usize,
    cities: &[Position],
    settling_target: Position,
)
    requires
        old(m).player_index < players_units@.len(),
        barbarians < players_units@.len(),
        pirates < players_units@.len(),
        old(m).mission_type.kind() matches MissionKind::FightPlayerForces(e, _) ==> e
            < players_units@.len(),
    ensures
        final(m)@ == spec_updated(
            old(m)@,
            players_units@.map_values(|u: Vec<(u32, Position)>| u@),
            barbarians,
            pirates,
            cities@,
            settling_target,
        ),
{
    let ghost pu = players_units@.map_values(|u: Vec<(u32, Position)>| u@);
    let own = &players_units[m.player_index];
    assert(own@ == pu[m.player_index as int]);
    let alive = retain_alive(&m.units, own);
    if alive.len() == 0 {
        m.units = alive;
        return;
    }
    proof {
        old(m).units@.lemma_filter_pred(|id: u32| unit_position(own@, id) is Some, 0);
    }
    let loc = match find_unit(own, alive[0]) {
        Some(p) => p,
        None => m.current_location,
    };
    let units = retain_at(&alive, own, loc);
    m.units = units;
    m.current_location = loc;
    let is_found_city = match &m.mission_type {
        MissionType::FoundCity => true,
        _ => false,
    };
    if is_found_city {
        if any_city_near(cities, m.target) {
            m.target = settling_target;
        }
        return;
    }
    let chased: Option<(Vec<u32>, Position, bool)> = match &m.mission_type {
        MissionType::FightPlayerForces { player_index: e, units: eu } => {
            let theirs = &players_units[*e];
            assert(theirs@ == pu[*e as int]);
            let (left, t) = chase(eu, theirs, m.target);
            let together = retain_at(&left, theirs, t);
            let scattered = together.len() < left.len();
            Some((left, t, scattered))
        },
        MissionType::FightBarbarians { units: eu } => {
            let theirs = &players_units[barbarians];
            assert(theirs@ == pu[barbarians as int]);
            let (left, t) = chase(eu, theirs, m.target);
            Some((left, t, false))
        },
        MissionType::FightPirates { units: eu } => {
            let theirs = &players_units[pirates];
            assert(theirs@ == pu[pirates as int]);
            let (left, t) = chase(eu, theirs, m.target);
            Some((left, t, false))
        },
        _ => None,
    };
    match chased {
        Some((left, t, scattered)) => {
            if scattered {
                m.units = Vec::new();
            }
            m.target = t;
            m.mission_type = match &m.mission_type {
                MissionType::FightPlayerForces { player_index, .. } => MissionType::FightPlayerForces {
                    player_index: *player_index,
                    units: left,
                },
                MissionType::FightBarbarians { .. } => MissionType::FightBarbarians { units: left },
                _ => MissionType::FightPirates { units: left },
            };
        },
        None => {},
    }
}

/// Whether a mission is over: it has reached its target or has no units left, or what it set
/// out to do is done or moot: the target is explored, the city to defend or capture is gone
/// (`city_owner_at_target` is the owner of the city at the target, if any), or no enemy unit
/// is left to fight.
pub fn is_complete(m: &Mission, target_explored: bool, city_owner_at_target: Option<usize>, barbarians: usize) -> (r: bool)
    ensures
        r == (m.current_location == m.target || m.units@.len() == 0 || match m.mission_type.kind() {
            MissionKind::Explore => target_explored,
            MissionKind::DefendCity => city_owner_at_target != Some(m.player_index),
            MissionKind::CapturePlayerCity(e) => city_owner_at_target != Some(e),
            MissionKind::CaptureBarbarianCamp => city_owner_at_target != Some(barbarians),
            MissionKind::FightPlayerForces(_, u) => u.len() == 0,
            MissionKind::FightBarbarians(u) => u.len() == 0,
            MissionKind::FightPirates(u) => u.len() == 0,
            _ => false,
        }),
{
    if m.current_location == m.target || m.units.len() == 0 {
        return true;
    }
    match &m.mission_type {
        MissionType::Explore => target_explored,
        MissionType::DefendCity => city_owner_at_target != Some(m.player_index),
        MissionType::CapturePlayerCity { player_index } => city_owner_at_target != Some(*player_index),
        MissionType::CaptureBarbarianCamp => city_owner_at_target != Some(barbarians),
        MissionType::FightPlayerForces { units, .. } => units.len() == 0,
        MissionType::FightBarbarians { units } => units.len() == 0,
        MissionType::FightPirates { units } => units.len() == 0,
        _ => false,
    }
}

/// The units of the completed missions, mission after mission.
pub open spec fn released_units(ms: Seq<MissionView>, done: Seq<bool>) -> Seq<u32>
    decreases ms.len(),
{
    if ms.len() == 0 {
        seq![]
    } else {
        released_units(ms.drop_last(), done) + if done[ms.len() - 1] {
            ms.last().units
        } else {
            seq![]
        }
    }
}

/// The missions still under way.
pub open spec fn open_missions(ms: Seq<MissionView>, done: Seq<bool>) -> Seq<MissionView>
    decreases ms.len(),
{
    if ms.len() == 0 {
        seq![]
    } else {
        open_missions(ms.drop_last(), done) + if done[ms.len() - 1] {
            seq![]
        } else {
            seq![ms.last()]
        }
    }
}

/// The views of missions.
pub open spec fn missions_view(ms: Seq<Mission>) -> Seq<MissionView> {
    ms.map_values(|m: Mission| m@)
}

/// Ends the completed missions (`done` says which, as `is_complete` decides): their units
/// become idle again, after the idle units, and the other missions go on in order.
pub fn release_completed(missions: Vec<Mission>, done: &[bool], idle: &mut Vec<u32>) -> (r: Vec<Mission>)
    requires
        done@.len() == missions@.len(),
    ensures
        missions_view(r@) == open_missions(missions_view(missions@), done@),
        final(idle)@ == old(idle)@ + released_units(missions_view(missions@), done@),
{
    let ghost ms = missions_view(missions@);
    let ghost all = missions@;
    let mut rest = missions;
    let mut r: Vec<Mission> = Vec::new();
    let n = rest.len();
    let mut k: usize = 0;
    proof {
        assert(ms.take(0) =~= Seq::<MissionView>::empty());
        assert(old(idle)@ + released_units(ms.take(0), done@) =~= old(idle)@);
        assert(missions_view(r@) =~= open_missions(ms.take(0), done@));
    }
    while k < n
        invariant
            k <= n,
            n == all.len(),
            done@.len() == n,
            ms == missions_view(all),
            rest@ == all.skip(k as int),
            missions_view(r@) == open_missions(ms.take(k as int), done@),
            idle@ == old(idle)@ + released_units(ms.take(k as int), done@),
        decreases n - k,
    {
        let m = rest.remove(0);
        proof {
            assert(m == all[k as int]);
            assert(rest@ =~= all.skip(k as int + 1));
            assert(ms.take(k as int + 1).drop_last() =~= ms.take(k as int));
            assert(ms[k as int] == m@);
        }
        if done[k] {
            let mut units = m.units;
            idle.append(&mut units);
            proof {
                assert(idle@ =~= old(idle)@ + released_units(ms.take(k as int + 1), done@));
                assert(missions_view(r@) =~= open_missions(ms.take(k as int + 1), done@));
            }
        } else {
            let ghost before = r@;
            r.push(m);
            proof {
                assert(missions_view(r@) =~= missions_view(before).push(ms[k as int]));
                assert(missions_view(r@) =~= open_missions(ms.take(k as int + 1), done@));
                assert(idle@ =~= old(idle)@ + released_units(ms.take(k as int + 1), done@));
            }
        }
        k = k + 1;
    }
    proof {
        assert(ms.take(n as int) =~= ms);
    }
    r
}

/// Whether two lists of units are the same.
fn same_units(a: &Vec<u32>, b: &Vec<u32>) -> (r: bool)
    ensures
        r == (a@ == b@),
{
    if a.len() != b.len() {
        return false;
    }
    let mut i: usize = 0;
    while i < a.len()
        invariant
            i <= a@.len(),
            a@.len() == b@.len(),
            forall|j: int| 0 <= j < i ==> a@[j] == b@[j],
        decreases a@.len() - i,
    {
        if a[i] != b[i] {
            return false;
        }
        i = i + 1;
    }
    proof {
        assert(a@ =~= b@);
    }
    true
}

/// Whether two missions set out to do the same.
fn same_kind(a: &MissionType, b: &MissionType) -> (r: bool)
    ensures
        r == (a.kind() == b.kind()),
{
    match (a, b) {
        (MissionType::Explore, MissionType::Explore) => true,
        (MissionType::DefendCity, MissionType::DefendCity) => true,
        (MissionType::FoundCity, MissionType::FoundCity) => true,
        (
            MissionType::CapturePlayerCity { player_index: p },
            MissionType::CapturePlayerCity { player_index: q },
        ) => *p == *q,
        (MissionType::CaptureBarbarianCamp, MissionType::CaptureBarbarianCamp) => true,
        (
            MissionType::FightPlayerForces { player_index: p, units: u },
            MissionType::FightPlayerForces { player_index: q, units: v },
        ) => *p == *q && same_units(u, v),
        (MissionType::FightBarbarians { units: u }, MissionType::FightBarbarians { units: v }) =>
            same_units(u, v),
        (MissionType::FightPirates { units: u }, MissionType::FightPirates { units: v }) =>
            same_units(u, v),
        (MissionType::Transport, MissionType::Transport) => true,
        (MissionType::Cartography, MissionType::Cartography) => true,
        _ => false,
    }
}

/// Two missions set out to do the same at the same target from the same place.
pub open spec fn same_mission(a: MissionView, b: MissionView) -> bool {
    a.kind == b.kind && a.target == b.target && a.current_location == b.current_location
}

/// New missions with runs of the same mission (one after another) joined into one mission
/// with the units of the run, in order.
pub open spec fn joined(ms: Seq<MissionView>) -> Seq<MissionView>
    decreases ms.len(),
{
    if ms.len() == 0 {
        seq![]
    } else {
        let j = joined(ms.drop_last());
        let x = ms.last();
        if j.len() > 0 && same_mission(j.last(), x) {
            j.update(j.len() - 1, MissionView { units: j.last().units + x.units, ..j.last() })
        } else {
            j.push(x)
        }
    }
}

/// Joins the runs of the same mission among newly chosen missions (see `joined`).
pub fn join_missions(new_missions: Vec<Mission>) -> (r: Vec<Mission>)
    ensures
        missions_view(r@) == joined(missions_view(new_missions@)),
{
    let ghost ms = missions_view(new_missions@);
    let ghost all = new_missions@;
    let mut rest = new_missions;
    let mut r: Vec<Mission> = Vec::new();
    let n = rest.len();
    let mut k: usize = 0;
    proof {
        assert(ms.take(0) =~= Seq::<MissionView>::empty());
        assert(missions_view(r@) =~= joined(ms.take(0)));
    }
    while k < n
        invariant
            k <= n,
            n == all.len(),
            ms == missions_view(all),
            rest@ == all.skip(k as int),
            missions_view(r@) == joined(ms.take(k as int)),
        decreases n - k,
    {
        let m = rest.remove(0);
        proof {
            assert(m == all[k as int]);
            assert(rest@ =~= all.skip(k as int + 1));
            assert(ms.take(k as int + 1).drop_last() =~= ms.take(k as int));
            assert(ms[k as int] == m@);
            assert(ms.take(k as int + 1).last() == m@);
        }
        let ghost before = r@;
        let len = r.len();
        let join = if len > 0 {
            let last = &r[len - 1];
            same_kind(&last.mission_type, &m.mission_type) && last.target == m.target
                && last.current_location == m.current_location
        } else {
            false
        };
        proof {
            if len > 0 {
                assert(missions_view(before).last() == before[len - 1]@);
            }
        }
        if join {
            let mut last = r.pop().unwrap();
            let mut units = m.units;
            last.units.append(&mut units);
            r.push(last);
            proof {
                assert(missions_view(r@) =~= missions_view(before).update(
                    len - 1,
                    MissionView {
                        units: missions_view(before).last().units + m@.units,
                        ..missions_view(before).last()
                    },
                ));
            }
        } else {
            r.push(m);
            proof {
                assert(missions_view(r@) =~= missions_view(before).push(m@));
            }
        }
        k = k + 1;
    }
    proof {
        assert(ms.take(n as int) =~= ms);
    }
    r
}

/// What the computer player sees of a player: its index, whether it is human, the positions
/// of its cities and its units with their positions.
pub struct PlayerPieces {
    pub index: usize,
    pub human: bool,
    pub cities: Vec<Position>,
    pub units: Vec<(u32, Position)>,
}

/// The player may be attacked by the computer player `me`: another human player.
pub open spec fn is_enemy(p: PlayerPieces, me: usize) -> bool {
    p.human && p.index != me
}

/// The cities of the other human players, player after player, with their owners.
pub open spec fn spec_enemy_cities(players: Seq<PlayerPieces>, me: usize) -> Seq<(usize, Position)>
    decreases players.len(),
{
    if players.len() == 0 {
        seq![]
    } else {
        let p = players.last();
        spec_enemy_cities(players.drop_last(), me) + if is_enemy(p, me) {
            p.cities@.map_values(|c: Position| (p.index, c))
        } else {
            seq![]
        }
    }
}

/// The units of `units` standing at `pos`, in order.
pub open spec fn ids_standing_at(units: Seq<(u32, Position)>, pos: Position) -> Seq<u32> {
    units.filter(standing_at(pos)).map_values(unit_id())
}

/// A unit stands at `pos`.
pub open spec fn standing_at(pos: Position) -> spec_fn((u32, Position)) -> bool {
    |u: (u32, Position)| u.1 == pos
}

/// The id of a unit.
pub open spec fn unit_id() -> spec_fn((u32, Position)) -> u32 {
    |u: (u32, Position)| u.0
}

/// For each unit of a player, in order, its position and the units standing there.
pub open spec fn spec_forces(units: Seq<(u32, Position)>) -> Seq<(Position, Seq<u32>)> {
    units.map_values(|u: (u32, Position)| (u.1, ids_standing_at(units, u.1)))
}

/// The forces of the other human players, player after player, with their owners.
pub open spec fn spec_enemy_forces(players: Seq<PlayerPieces>, me: usize) -> Seq<(usize, Position, Seq<u32>)>
    decreases players.len(),
{
    if players.len() == 0 {
        seq![]
    } else {
        let p = players.last();
        spec_enemy_forces(players.drop_last(), me) + if is_enemy(p, me) {
            spec_forces(p.units@).map_values(|f: (Position, Seq<u32>)| (p.index, f.0, f.1))
        } else {
            seq![]
        }
    }
}

/// The cities the computer player `me` may set out to capture: those of the other human
/// players, player after player.
pub fn enemy_city_targets(players: &Vec<PlayerPieces>, me: usize) -> (r: Vec<(usize, Position)>)
    ensures
        r@ == spec_enemy_cities(players@, me),
{
    let mut r: Vec<(usize, Position)> = Vec::new();
    let mut i: usize = 0;
    while i < players.len()
        invariant
            i <= players@.len(),
            r@ == spec_enemy_cities(players@.take(i as int), me),
        decreases players@.len() - i,
    {
        proof {
            assert(players@.take(i as int + 1).drop_last() =~= players@.take(i as int));
        }
        let p = &players[i];
        let ghost start = r@;
        if p.human && p.index != me {
            let mut k: usize = 0;
            while k < p.cities.len()
                invariant
                    k <= p.cities@.len(),
                    r@ == start + p.cities@.take(k as int).map_values(|c: Position| (p.index, c)),
                decreases p.cities@.len() - k,
            {
                r.push((p.index, p.cities[k]));
                proof {
                    assert(p.cities@.take(k as int + 1) =~= p.cities@.take(k as int).push(p.cities@[k as int]));
                    assert(r@ =~= start + p.cities@.take(k as int + 1).map_values(|c: Position| (p.index, c)));
                }
                k = k + 1;
            }
            proof {
                assert(p.cities@.take(k as int) =~= p.cities@);
            }
        } else {
            proof {
                assert(r@ =~= start + Seq::<(usize, Position)>::empty());
            }
        }
        i = i + 1;
    }
    proof {
        assert(players@.take(i as int) =~= players@);
    }
    r
}

/// The units of `units` standing at `pos`.
fn units_standing_at(units: &Vec<(u32, Position)>, pos: Position) -> (r: Vec<u32>)
    ensures
        r@ == ids_standing_at(units@, pos),
{
    let ghost f = standing_at(pos);
    let mut r: Vec<u32> = Vec::new();
    let mut i: usize = 0;
    while i < units.len()
        invariant
            i <= units@.len(),
            f == standing_at(pos),
            r@ == units@.take(i as int).filter(f).map_values(unit_id()),
        decreases units@.len() - i,
    {
        proof {
            assert(units@.take(i as int + 1).drop_last() =~= units@.take(i as int));
            reveal(Seq::filter);
        }
        let u = units[i];
        if u.1 == pos {
            r.push(u.0);
        }
        proof {
            let a = units@.take(i as int);
            let b = units@.take(i as int + 1);
            if f(u) {
                assert(b.filter(f) =~= a.filter(f).push(u));
                assert(b.filter(f).map_values(unit_id()) =~= a.filter(f).map_values(unit_id()).push(u.0));
            } else {
                assert(b.filter(f) =~= a.filter(f));
            }
        }
        i = i + 1;
    }
    proof {
        assert(units@.take(i as int) =~= units@);
    }
    r
}

/// For each unit of a player (barbarians or pirates too), in order, its position and the
/// units standing there: the forces to fight.
pub fn force_targets(units: &Vec<(u32, Position)>) -> (r: Vec<(Position, Vec<u32>)>)
    ensures
        r@.map_values(|f: (Position, Vec<u32>)| (f.0, f.1@)) == spec_forces(units@),
{
    let mut r: Vec<(Position, Vec<u32>)> = Vec::new();
    let mut i: usize = 0;
    while i < units.len()
        invariant
            i <= units@.len(),
            r@.map_values(|f: (Position, Vec<u32>)| (f.0, f.1@)) == spec_forces(units@).take(i as int),
        decreases units@.len() - i,
    {
        let pos = units[i].1;
        let here = units_standing_at(units, pos);
        let ghost before = r@;
        r.push((pos, here));
        proof {
            assert(r@.map_values(|f: (Position, Vec<u32>)| (f.0, f.1@)) =~= before.map_values(
                |f: (Position, Vec<u32>)| (f.0, f.1@),
            ).push((pos, here@)));
            assert(spec_forces(units@)[i as int] == (pos, ids_standing_at(units@, pos)));
            assert(spec_forces(units@).take(i as int + 1) =~= spec_forces(units@).take(i as int).push(
                spec_forces(units@)[i as int],
            ));
            assert(r@.map_values(|f: (Position, Vec<u32>)| (f.0, f.1@)) =~= spec_forces(units@).take(
                i as int + 1,
            ));
        }
        i = i + 1;
    }
    proof {
        assert(spec_forces(units@).take(i as int) =~= spec_forces(units@));
    }
    r
}

/// The forces the computer player `me` may set out to fight: those of the other human
/// players, player after player, with their owners.
pub fn enemy_force_targets(players: &Vec<PlayerPieces>, me: usize) -> (r: Vec<(usize, Position, Vec<u32>)>)
    ensures
        r@.map_values(|f: (usize, Position, Vec<u32>)| (f.0, f.1, f.2@)) == spec_enemy_forces(players@, me),
{
    let mut r: Vec<(usize, Position, Vec<u32>)> = Vec::new();
    let mut i: usize = 0;
    while i < players.len()
        invariant
            i <= players@.len(),
            r@.map_values(|f: (usize, Position, Vec<u32>)| (f.0, f.1, f.2@)) == spec_enemy_forces(
                players@.take(i as int),
                me,
            ),
        decreases players@.len() - i,
    {
        proof {
            assert(players@.take(i as int + 1).drop_last() =~= players@.take(i as int));
        }
        let p = &players[i];
        let ghost start = r@.map_values(|f: (usize, Position, Vec<u32>)| (f.0, f.1, f.2@));
        if p.human && p.index != me {
            let forces = force_targets(&p.units);
            let ghost fs = spec_forces(p.units@).map_values(|f: (Position, Seq<u32>)| (p.index, f.0, f.1));
            let mut k: usize = 0;
            while k < forces.len()
                invariant
                    k <= forces@.len(),
                    forces@.len() == fs.len(),
                    forces@.map_values(|f: (Position, Vec<u32>)| (f.0, f.1@)) == spec_forces(p.units@),
                    fs == spec_forces(p.units@).map_values(|f: (Position, Seq<u32>)| (p.index, f.0, f.1)),
                    r@.map_values(|f: (usize, Position, Vec<u32>)| (f.0, f.1, f.2@)) == start + fs.take(k as int),
                decreases forces@.len() - k,
            {
                let pos = forces[k].0;
                let ids = forces[k].1.clone();
                let ghost before = r@;
                r.push((p.index, pos, ids));
                proof {
                    assert(forces@.map_values(|f: (Position, Vec<u32>)| (f.0, f.1@))[k as int] == (pos, ids@));
                    assert(fs[k as int] == (p.index, pos, ids@));
                    assert(r@.map_values(|f: (usize, Position, Vec<u32>)| (f.0, f.1, f.2@)) =~= before.map_values(
                        |f: (usize, Position, Vec<u32>)| (f.0, f.1, f.2@),
                    ).push((p.index, pos, ids@)));
                    assert(fs.take(k as int + 1) =~= fs.take(k as int).push(fs[k as int]));
                }
                k = k + 1;
            }
            proof {
                assert(fs.take(k as int) =~= fs);
            }
        } else {
            proof {
                assert(start =~= start + Seq::<(usize, Position, Seq<u32>)>::empty());
            }
        }
        i = i + 1;
    }
    proof {
        assert(players@.take(i as int) =~= players@);
    }
    r
}

/// The mission an idle unit takes on, given the missions it could take on and, where there
/// are several, the index chosen among them (by the player's weighing or evaluation): none
/// without a mission, the only one, or the chosen one.
pub fn choose_mission(missions: Vec<MissionTarget>, chosen: usize) -> (r: Option<MissionTarget>)
    requires
        missions@.len() > 1 ==> chosen < missions@.len(),
    ensures
        missions@.len() == 0 ==> r is None,
        missions@.len() == 1 ==> (r matches Some(m) && target_view(m) == target_view(missions@[0])),
        missions@.len() > 1 ==> (r matches Some(m) && target_view(m) == target_view(missions@[chosen as int])),
{
    let mut missions = missions;
    if missions.len() == 0 {
        return None;
    }
    if missions.len() == 1 {
        return Some(missions.remove(0));
    }
    Some(missions.remove(chosen))
}

} // verus!
