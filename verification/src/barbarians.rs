use vstd::prelude::*;

use crate::civilization::Civilization;
use crate::combat_stats::CombatStats;
use crate::consts::STACK_LIMIT;
use crate::position::{has_neighbors_in_range, hex_distance, position_le, spec_neighbors, Position};
use crate::tactics_card::CombatRole;
use crate::unit::{UnitType, Units};

verus! {

/// A request to move a barbarian army.
#[derive(Clone, Copy, Debug, PartialEq, Eq, Structural)]
pub struct BarbariansMoveRequest {
    pub from: Position,
    pub to: Position,
    pub player: usize,
}

/// The state of a barbarian event while it runs.
#[derive(Clone, Debug)]
pub struct BarbariansEventState {
    pub move_units: bool,
    pub moved_units: Vec<u32>,
    pub selected_position: Option<Position>,
    pub must_reduce_mood: Vec<usize>,
}

impl BarbariansEventState {
    pub fn new() -> (r: BarbariansEventState)
        ensures
            !r.move_units,
            r.moved_units@.len() == 0,
            r.selected_position is None,
            r.must_reduce_mood@.len() == 0,
    {
        BarbariansEventState {
            moved_units: Vec::new(),
            selected_position: None,
            move_units: false,
            must_reduce_mood: Vec::new(),
        }
    }
}

impl Default for BarbariansEventState {
    fn default() -> (r: BarbariansEventState)
        ensures
            !r.move_units,
            r.moved_units@.len() == 0,
            r.selected_position is None,
            r.must_reduce_mood@.len() == 0,
    {
        BarbariansEventState::new()
    }
}

/// The index of the first barbarian civilization.
pub open spec fn first_barbarian(civs: Seq<Civilization>) -> int
    decreases civs.len(),
{
    if civs.len() == 0 {
        -1
    } else if civs[0].spec_is_barbarian() {
        0
    } else {
        let r = first_barbarian(civs.drop_first());
        if r < 0 { -1 } else { r + 1 }
    }
}

/// The index of the player controlling the barbarians, given the civilizations of the
/// players in order.
pub fn get_barbarians_player(civilizations: &[Civilization]) -> (r: usize)
    requires
        exists|i: int| 0 <= i < civilizations@.len() && (#[trigger] civilizations@[i]).spec_is_barbarian(),
    ensures
        r < civilizations@.len(),
        civilizations@[r as int].spec_is_barbarian(),
        forall|k: int| 0 <= k < r ==> !(#[trigger] civilizations@[k]).spec_is_barbarian(),
{
    let mut i: usize = 0;
    while i < civilizations.len()
        invariant
            0 <= i <= civilizations@.len(),
            forall|k: int| 0 <= k < i ==> !(#[trigger] civilizations@[k]).spec_is_barbarian(),
            exists|j: int| 0 <= j < civilizations@.len() && (#[trigger] civilizations@[j]).spec_is_barbarian(),
        decreases civilizations@.len() - i,
    {
        if civilizations[i].is_barbarian() {
            return i;
        }
        i = i + 1;
    }
    proof {
        let j = choose|j: int| 0 <= j < civilizations@.len() && (#[trigger] civilizations@[j]).spec_is_barbarian();
        assert(!civilizations@[j].spec_is_barbarian());
    }
    0
}

/// The unit types barbarians fight with.
pub fn barbarian_fighters() -> (r: Vec<UnitType>)
    ensures
        r@ == seq![UnitType::Infantry, UnitType::Cavalry, UnitType::Elephant],
{
    vec![UnitType::Infantry, UnitType::Cavalry, UnitType::Elephant]
}

/// The unit types of which `available` has a unit left.
pub open spec fn has_available(available: Units) -> spec_fn(UnitType) -> bool {
    |u: UnitType| available.count(u) > 0
}

/// The unit types that may reinforce a barbarian city: any fighter where infantry already
/// stands, only infantry otherwise, limited to the types with a unit left in `available`.
pub fn get_barbarian_reinforcement_choices(infantry_present: bool, available: &Units) -> (r: Vec<UnitType>)
    ensures
        r@ == (if infantry_present {
            seq![UnitType::Infantry, UnitType::Cavalry, UnitType::Elephant]
        } else {
            seq![UnitType::Infantry]
        }).filter(has_available(*available)),
{
    let possible = if infantry_present {
        barbarian_fighters()
    } else {
        vec![UnitType::Infantry]
    };
    let ghost f = has_available(*available);
    let mut r: Vec<UnitType> = Vec::new();
    let mut i: usize = 0;
    while i < possible.len()
        invariant
            0 <= i <= possible@.len(),
            f == has_available(*available),
            r@ == possible@.take(i as int).filter(f),
        decreases possible@.len() - i,
    {
        proof {
            assert(possible@.take(i as int + 1).drop_last() =~= possible@.take(i as int));
            reveal(Seq::filter);
        }
        let u = possible[i];
        if available.has_unit(&u) {
            r.push(u);
        }
        proof {
            if f(u) {
                assert(possible@.take(i as int + 1).filter(f) =~= possible@.take(i as int).filter(f).push(u));
            } else {
                assert(possible@.take(i as int + 1).filter(f) =~= possible@.take(i as int).filter(f));
            }
        }
        i = i + 1;
    }
    proof {
        assert(possible@.take(possible@.len() as int) =~= possible@);
        if infantry_present {
            assert(possible@ =~= seq![UnitType::Infantry, UnitType::Cavalry, UnitType::Elephant]);
        } else {
            assert(possible@ =~= seq![UnitType::Infantry]);
        }
    }
    r
}

/// The gold a player wins for a battle against the barbarians: one for a captured city and
/// one when the barbarians lost units; nothing unless the player won against the barbarians.
pub fn barbarian_battle_reward(stats: &CombatStats, player: usize, opponent_is_barbarian: bool) -> (r: Option<u8>)
    ensures
        r == if stats.spec_winner() == Some(stats.spec_role(player)) && opponent_is_barbarian {
            Some(
                ((if player == stats.attacker.player && stats.spec_winner() == Some(CombatRole::Attacker)
                    && stats.city_mood is Some { 1int } else { 0int }) + (if stats.stats_of(
                    stats.spec_opponent_role(player),
                ).losses.total() > 0 { 1int } else { 0int })) as u8,
            )
        } else {
            None
        },
{
    if stats.is_winner(player) && opponent_is_barbarian {
        let mut sum: u8 = 0;
        if stats.captured_city(player).is_some() {
            sum = sum + 1;
        }
        if stats.opponent(player).losses.amount() > 0 {
            sum = sum + 1;
        }
        Some(sum)
    } else {
        None
    }
}

/// Some city of the player lies next to `pos`.
pub fn adjacent_to_cities(city_positions: &[Position], pos: Position) -> (r: bool)
    ensures
        r == exists|i: int| 0 <= i < city_positions@.len() && hex_distance(#[trigger] city_positions@[i], pos) == 1,
{
    let mut i: usize = 0;
    while i < city_positions.len()
        invariant
            0 <= i <= city_positions@.len(),
            forall|k: int| 0 <= k < i ==> hex_distance(#[trigger] city_positions@[k], pos) != 1,
        decreases city_positions@.len() - i,
    {
        if city_positions[i].is_neighbor(pos) {
            return true;
        }
        i = i + 1;
    }
    false
}


/// Whether `p` is one of `positions`.
fn position_in(positions: &[Position], p: Position) -> (r: bool)
    ensures
        r == positions@.contains(p),
{
    let mut i: usize = 0;
    while i < positions.len()
        invariant
            0 <= i <= positions@.len(),
            forall|k: int| 0 <= k < i ==> positions@[k] != p,
        decreases positions@.len() - i,
    {
        if positions[i] == p {
            return true;
        }
        i = i + 1;
    }
    false
}

/// The land hexagons next to `start` through which `end`, two steps away, is reached.
pub open spec fn spec_land_steps(land: Seq<Position>, start: Position, end: Position) -> Seq<Position> {
    spec_neighbors(start).filter(
        |m: Position| land.contains(m) && hex_distance(end, start) == 2 && hex_distance(end, m) == 1,
    )
}

/// The land hexagons next to `start` through which `end`, two steps away, is reached
/// (`land` lists the land hexagons of the map).
pub fn land_steps_towards_range2(land: &[Position], start: Position, end: Position) -> (r: Vec<Position>)
    requires
        has_neighbors_in_range(start),
    ensures
        r@ == spec_land_steps(land@, start, end),
{
    let ghost f = |m: Position| land@.contains(m) && hex_distance(end, start) == 2 && hex_distance(end, m) == 1;
    let neighbors = start.neighbors();
    let two_away = end.distance(start) == 2;
    let mut r: Vec<Position> = Vec::new();
    let mut i: usize = 0;
    while i < neighbors.len()
        invariant
            0 <= i <= neighbors@.len(),
            neighbors@ == spec_neighbors(start),
            two_away == (hex_distance(end, start) == 2),
            f == (|m: Position| land@.contains(m) && hex_distance(end, start) == 2 && hex_distance(end, m) == 1),
            r@ == neighbors@.take(i as int).filter(f),
        decreases neighbors@.len() - i,
    {
        proof {
            assert(neighbors@.take(i as int + 1).drop_last() =~= neighbors@.take(i as int));
            reveal(Seq::filter);
        }
        let m = neighbors[i];
        let keep = position_in(land, m) && two_away && end.distance(m) == 1;
        if keep {
            r.push(m);
        }
        proof {
            if f(m) {
                assert(neighbors@.take(i as int + 1).filter(f) =~= neighbors@.take(i as int).filter(f).push(m));
            } else {
                assert(neighbors@.take(i as int + 1).filter(f) =~= neighbors@.take(i as int).filter(f));
            }
        }
        i = i + 1;
    }
    proof {
        assert(neighbors@.take(i as int) =~= neighbors@);
    }
    r
}

/// `end` is within `range` of `start` over land: next to it, or two steps away with a land
/// hexagon between them.
pub open spec fn in_land_range(land: Seq<Position>, start: Position, end: Position, range: u32) -> bool {
    &&& hex_distance(end, start) <= range
    &&& (hex_distance(end, start) == 1 || spec_land_steps(land, start, end).len() > 0)
}

/// The cities of `cities` within `range` (one or two) of `start` over land, in order.
pub fn cities_in_land_range(land: &[Position], cities: &[Position], start: Position, range: u32) -> (r: Vec<Position>)
    requires
        1 <= range <= 2,
        has_neighbors_in_range(start),
    ensures
        r@ == cities@.filter(|c: Position| in_land_range(land@, start, c, range)),
{
    let ghost f = |c: Position| in_land_range(land@, start, c, range);
    let mut r: Vec<Position> = Vec::new();
    let mut i: usize = 0;
    while i < cities.len()
        invariant
            0 <= i <= cities@.len(),
            has_neighbors_in_range(start),
            f == (|c: Position| in_land_range(land@, start, c, range)),
            r@ == cities@.take(i as int).filter(f),
        decreases cities@.len() - i,
    {
        proof {
            assert(cities@.take(i as int + 1).drop_last() =~= cities@.take(i as int));
            reveal(Seq::filter);
        }
        let end = cities[i];
        let d = end.distance(start);
        let keep = d <= range as u64 && (d == 1 || land_steps_towards_range2(land, start, end).len() > 0);
        if keep {
            r.push(end);
        }
        proof {
            if f(end) {
                assert(cities@.take(i as int + 1).filter(f) =~= cities@.take(i as int).filter(f).push(end));
            } else {
                assert(cities@.take(i as int + 1).filter(f) =~= cities@.take(i as int).filter(f));
            }
        }
        i = i + 1;
    }
    proof {
        assert(cities@.take(i as int) =~= cities@);
    }
    r
}

/// The positions in increasing order, each once.
pub open spec fn strictly_sorted(s: Seq<Position>) -> bool {
    forall|i: int, j: int| 0 <= i < j < s.len() ==> position_le(s[i], s[j]) && s[i] != s[j]
}

/// Adds `p` to the sorted positions unless it is there already.
#[verifier::spinoff_prover]
fn insert_sorted(v: &mut Vec<Position>, p: Position)
    requires
        strictly_sorted(old(v)@),
    ensures
        strictly_sorted(final(v)@),
        forall|x: Position| final(v)@.contains(x) <==> (old(v)@.contains(x) || x == p),
{
    let mut j: usize = 0;
    while j < v.len() && v[j].not_after(&p) && v[j] != p
        invariant
            0 <= j <= v@.len(),
            forall|k: int| 0 <= k < j ==> position_le(#[trigger] v@[k], p) && v@[k] != p,
        decreases v@.len() - j,
    {
        j = j + 1;
    }
    if j < v.len() && v[j] == p {
        proof {
            assert(v@[j as int] == p);
        }
        return;
    }
    let ghost before = v@;
    proof {
        if j < before.len() {
            assert(!position_le(before[j as int], p));
            assert forall|k: int| j <= k < before.len() implies position_le(p, #[trigger] before[k]) && before[k] != p by {
                if k > j {
                    assert(position_le(before[j as int], before[k]));
                }
            }
        }
    }
    v.insert(j, p);
    proof {
        assert(v@ == before.insert(j as int, p));
        assert forall|a: int, b: int| 0 <= a < b < v@.len() implies position_le(v@[a], v@[b]) && v@[a] != v@[b] by {
            if b < j {
                assert(v@[a] == before[a] && v@[b] == before[b]);
            } else if b == j {
                assert(v@[a] == before[a]);
            } else if a < j {
                assert(v@[a] == before[a] && v@[b] == before[b - 1]);
            } else if a == j {
                assert(v@[b] == before[b - 1]);
            } else {
                assert(v@[a] == before[a - 1] && v@[b] == before[b - 1]);
            }
        }
        assert forall|x: Position| v@.contains(x) <==> (before.contains(x) || x == p) by {
            if v@.contains(x) {
                let k = choose|k: int| 0 <= k < v@.len() && v@[k] == x;
                if k < j {
                    assert(before[k] == x);
                } else if k > j {
                    assert(before[k - 1] == x);
                }
            }
            if before.contains(x) {
                let k = choose|k: int| 0 <= k < before.len() && before[k] == x;
                if k < j {
                    assert(v@[k] == x);
                } else {
                    assert(v@[k + 1] == x);
                }
            }
            if x == p {
                assert(v@[j as int] == p);
            }
        }
    }
}

/// Some city of `cities` is reached from `start` in two steps through `p`.
pub open spec fn step_towards_some(land: Seq<Position>, cities: Seq<Position>, start: Position, p: Position) -> bool {
    exists|k: int| 0 <= k < cities.len() && #[trigger] spec_land_steps(land, start, cities[k]).contains(p)
}

/// The land hexagons next to `start` through which some city of `cities`, two steps away, is
/// reached; in order, each once.
pub fn steps_towards_land_range2_cites(land: &[Position], cities: &[Position], start: Position) -> (r: Vec<Position>)
    requires
        has_neighbors_in_range(start),
    ensures
        strictly_sorted(r@),
        forall|p: Position| r@.contains(p) <==> step_towards_some(land@, cities@, start, p),
{
    let mut r: Vec<Position> = Vec::new();
    let mut i: usize = 0;
    while i < cities.len()
        invariant
            0 <= i <= cities@.len(),
            has_neighbors_in_range(start),
            strictly_sorted(r@),
            forall|p: Position| #[trigger] r@.contains(p) <==> step_towards_some(land@, cities@.take(i as int), start, p),
        decreases cities@.len() - i,
    {
        let steps = land_steps_towards_range2(land, start, cities[i]);
        let ghost before = r@;
        let mut j: usize = 0;
        while j < steps.len()
            invariant
                0 <= j <= steps@.len(),
                strictly_sorted(r@),
                forall|p: Position| #[trigger] r@.contains(p) <==> (before.contains(p) || steps@.take(j as int).contains(p)),
            decreases steps@.len() - j,
        {
            let ghost prev = r@;
            insert_sorted(&mut r, steps[j]);
            proof {
                let t1 = steps@.take(j as int + 1);
                let t0 = steps@.take(j as int);
                assert forall|p: Position| r@.contains(p) <==> (before.contains(p) || t1.contains(p)) by {
                    if t1.contains(p) {
                        let k = choose|k: int| 0 <= k < t1.len() && #[trigger] t1[k] == p;
                        if k < j {
                            assert(t0[k] == p);
                        }
                    }
                    if t0.contains(p) {
                        let k = choose|k: int| 0 <= k < t0.len() && #[trigger] t0[k] == p;
                        assert(t1[k] == p);
                    }
                    if p == steps@[j as int] {
                        assert(t1[j as int] == p);
                    }
                    assert(r@.contains(p) <==> (prev.contains(p) || p == steps@[j as int]));
                    assert(prev.contains(p) <==> (before.contains(p) || t0.contains(p)));
                }
            }
            j = j + 1;
        }
        proof {
            assert(steps@.take(j as int) =~= steps@);
            let now = cities@.take(i as int + 1);
            let was = cities@.take(i as int);
            assert forall|p: Position| r@.contains(p) <==> step_towards_some(land@, now, start, p) by {
                if step_towards_some(land@, now, start, p) {
                    let k = choose|k: int| 0 <= k < now.len() && #[trigger] spec_land_steps(land@, start, now[k]).contains(p);
                    if k < i {
                        assert(was[k] == now[k]);
                        assert(step_towards_some(land@, was, start, p));
                    } else {
                        assert(now[k] == cities@[i as int]);
                    }
                }
                if step_towards_some(land@, was, start, p) {
                    let k = choose|k: int| 0 <= k < was.len() && #[trigger] spec_land_steps(land@, start, was[k]).contains(p);
                    assert(now[k] == was[k]);
                }
                if steps@.contains(p) {
                    assert(now[i as int] == cities@[i as int]);
                    assert(spec_land_steps(land@, start, now[i as int]).contains(p));
                }
            }
        }
        i = i + 1;
    }
    proof {
        assert(cities@.take(i as int) =~= cities@);
    }
    r
}


/// The number of entries of `s` at `p`.
pub open spec fn count_at(s: Seq<Position>, p: Position) -> nat
    decreases s.len(),
{
    if s.len() == 0 {
        0
    } else {
        count_at(s.drop_last(), p) + if s.last() == p {
            1nat
        } else {
            0nat
        }
    }
}

/// The number of entries of `units` at `p`.
fn units_at(units: &[Position], p: Position) -> (n: usize)
    ensures
        n == count_at(units@, p),
{
    let mut n: usize = 0;
    let mut i: usize = 0;
    while i < units.len()
        invariant
            0 <= i <= units@.len(),
            n == count_at(units@.take(i as int), p),
            n <= i,
        decreases units@.len() - i,
    {
        proof {
            assert(units@.take(i as int + 1).drop_last() =~= units@.take(i as int));
        }
        if units[i] == p {
            n = n + 1;
        }
        i = i + 1;
    }
    proof {
        assert(units@.take(i as int) =~= units@);
    }
    n
}

/// The cities of `cities` next to `from` over land.
pub open spec fn adjacent_cities(land: Seq<Position>, cities: Seq<Position>, from: Position) -> Seq<Position> {
    cities.filter(|c: Position| in_land_range(land, from, c, 1))
}

/// `p` leads towards a city two steps away and has room for `stack_size` more units next to
/// the barbarian units standing there.
pub open spec fn open_step(
    land: Seq<Position>,
    cities: Seq<Position>,
    barbarian_units: Seq<Position>,
    from: Position,
    stack_size: int,
    p: Position,
) -> bool {
    step_towards_some(land, cities, from, p) && stack_size + count_at(barbarian_units, p) <= STACK_LIMIT
}

/// A barbarian army of `stack_size` units at `from` can march against the cities: one is
/// next to it, or a step towards one two steps away has room for the army.
pub open spec fn can_march(
    land: Seq<Position>,
    cities: Seq<Position>,
    barbarian_units: Seq<Position>,
    from: Position,
    stack_size: int,
) -> bool {
    ||| adjacent_cities(land, cities, from).len() > 0
    ||| exists|p: Position| open_step(land, cities, barbarian_units, from, stack_size, p)
}

/// Where a barbarian army of `stack_size` units at `from` may march against the `cities`
/// of a player: the cities next to it over land, if any; otherwise the land hexagons towards
/// cities two steps away with room for the army (`barbarian_units` has the position of each
/// barbarian unit), in order.
pub fn barbarian_march_steps(
    land: &[Position],
    cities: &[Position],
    barbarian_units: &[Position],
    from: Position,
    stack_size: usize,
) -> (r: Vec<Position>)
    requires
        has_neighbors_in_range(from),
    ensures
        adjacent_cities(land@, cities@, from).len() > 0 ==> r@ == adjacent_cities(land@, cities@, from),
        adjacent_cities(land@, cities@, from).len() == 0 ==> strictly_sorted(r@) && forall|p: Position|
            #[trigger] r@.contains(p) <==> open_step(land@, cities@, barbarian_units@, from, stack_size as int, p),
        r@.len() > 0 <==> can_march(land@, cities@, barbarian_units@, from, stack_size as int),
{
    let primary = cities_in_land_range(land, cities, from, 1);
    if primary.len() > 0 {
        return primary;
    }
    let steps = steps_towards_land_range2_cites(land, cities, from);
    let mut r: Vec<Position> = Vec::new();
    let mut i: usize = 0;
    while i < steps.len()
        invariant
            0 <= i <= steps@.len(),
            strictly_sorted(steps@),
            strictly_sorted(r@),
            forall|a: int| #![trigger r@[a]] 0 <= a < r@.len() ==> exists|k: int| 0 <= k < i && #[trigger] steps@[k] == r@[a],
            forall|p: Position| #[trigger] r@.contains(p) <==> (steps@.take(i as int).contains(p) && stack_size
                + count_at(barbarian_units@, p) <= STACK_LIMIT),
        decreases steps@.len() - i,
    {
        let p = steps[i];
        let here = units_at(barbarian_units, p);
        let room = stack_size <= STACK_LIMIT && here <= STACK_LIMIT - stack_size;
        let ghost prev = r@;
        let t1 = Ghost(steps@.take(i as int + 1));
        let t0 = Ghost(steps@.take(i as int));
        if room {
            proof {
                assert forall|a: int| 0 <= a < prev.len() implies position_le(prev[a], p) && prev[a] != p by {
                    let k = choose|k: int| 0 <= k < i && #[trigger] steps@[k] == prev[a];
                }
            }
            r.push(p);
            proof {
                assert forall|a: int, b: int| 0 <= a < b < r@.len() implies position_le(r@[a], r@[b]) && r@[a] != r@[b] by {
                    if b < prev.len() {
                        assert(r@[a] == prev[a] && r@[b] == prev[b]);
                    } else {
                        assert(r@[a] == prev[a]);
                    }
                }
                assert forall|a: int| #![trigger r@[a]] 0 <= a < r@.len() implies exists|k: int| 0 <= k < i + 1 && #[trigger] steps@[k] == r@[a] by {
                    if a < prev.len() {
                        assert(r@[a] == prev[a]);
                        let k = choose|k: int| 0 <= k < i && #[trigger] steps@[k] == prev[a];
                        assert(steps@[k] == r@[a]);
                    } else {
                        assert(steps@[i as int] == r@[a]);
                    }
                }
            }
        }
        proof {
            assert forall|q: Position| #[trigger] r@.contains(q) <==> (t1@.contains(q) && stack_size + count_at(barbarian_units@, q)
                <= STACK_LIMIT) by {
                if t1@.contains(q) {
                    let k = choose|k: int| 0 <= k < t1@.len() && #[trigger] t1@[k] == q;
                    if k < i {
                        assert(t0@[k] == q);
                    }
                }
                if t0@.contains(q) {
                    let k = choose|k: int| 0 <= k < t0@.len() && #[trigger] t0@[k] == q;
                    assert(t1@[k] == q);
                }
                if q == p {
                    assert(t1@[i as int] == q);
                }
                if room {
                    assert(r@.contains(q) <==> (prev.contains(q) || q == p)) by {
                        if r@.contains(q) {
                            let k = choose|k: int| 0 <= k < r@.len() && #[trigger] r@[k] == q;
                            if k < prev.len() {
                                assert(prev[k] == q);
                            }
                        }
                        if prev.contains(q) {
                            let k = choose|k: int| 0 <= k < prev.len() && #[trigger] prev[k] == q;
                            assert(r@[k] == q);
                        }
                        if q == p {
                            assert(r@[r@.len() - 1] == q);
                        }
                    }
                }
            }
        }
        i = i + 1;
    }
    proof {
        assert(steps@.take(i as int) =~= steps@);
        if r@.len() > 0 {
            assert(r@.contains(r@[0]));
            assert(open_step(land@, cities@, barbarian_units@, from, stack_size as int, r@[0]));
        }
        if exists|p: Position| open_step(land@, cities@, barbarian_units@, from, stack_size as int, p) {
            let p = choose|p: Position| open_step(land@, cities@, barbarian_units@, from, stack_size as int, p);
            assert(steps@.contains(p));
            assert(r@.contains(p));
        }
    }
    r
}


/// The positions of the units.
pub open spec fn unit_positions(units: Seq<(u32, Position)>) -> Seq<Position> {
    units.map_values(|u: (u32, Position)| u.1)
}

/// The number of units at `p` that have not moved yet.
pub open spec fn waiting_at(units: Seq<(u32, Position)>, moved_units: Seq<u32>, p: Position) -> nat
    decreases units.len(),
{
    if units.len() == 0 {
        0
    } else {
        waiting_at(units.drop_last(), moved_units, p) + if units.last().1 == p && !moved_units.contains(
            units.last().0,
        ) {
            1nat
        } else {
            0nat
        }
    }
}

/// Whether `id` is one of `ids`.
fn id_in(ids: &[u32], id: u32) -> (r: bool)
    ensures
        r == ids@.contains(id),
{
    let mut i: usize = 0;
    while i < ids.len()
        invariant
            0 <= i <= ids@.len(),
            forall|k: int| 0 <= k < i ==> ids@[k] != id,
        decreases ids@.len() - i,
    {
        if ids[i] == id {
            return true;
        }
        i = i + 1;
    }
    false
}

/// The positions of the barbarian armies that can march against the `cities` of the target
/// player, in order: positions of the map with barbarian units that have not moved yet,
/// whose army can march (`units` has the id and position of each barbarian unit).
pub fn get_movable_units(
    tiles: &[Position],
    land: &[Position],
    cities: &[Position],
    units: &[(u32, Position)],
    moved_units: &[u32],
) -> (r: Vec<Position>)
    requires
        forall|i: int| 0 <= i < tiles@.len() ==> has_neighbors_in_range(#[trigger] tiles@[i]),
    ensures
        strictly_sorted(r@),
        forall|p: Position| #[trigger] r@.contains(p) <==> (tiles@.contains(p) && waiting_at(units@, moved_units@, p)
            > 0 && can_march(land@, cities@, unit_positions(units@), p, waiting_at(units@, moved_units@, p) as int)),
{
    let mut positions: Vec<Position> = Vec::new();
    let mut i: usize = 0;
    while i < units.len()
        invariant
            0 <= i <= units@.len(),
            positions@ == unit_positions(units@.take(i as int)),
        decreases units@.len() - i,
    {
        positions.push(units[i].1);
        proof {
            assert(unit_positions(units@.take(i as int + 1)) =~= unit_positions(units@.take(i as int)).push(units@[i as int].1));
        }
        i = i + 1;
    }
    proof {
        assert(units@.take(i as int) =~= units@);
    }
    let mut r: Vec<Position> = Vec::new();
    let mut t: usize = 0;
    while t < tiles.len()
        invariant
            0 <= t <= tiles@.len(),
            positions@ == unit_positions(units@),
            forall|i: int| 0 <= i < tiles@.len() ==> has_neighbors_in_range(#[trigger] tiles@[i]),
            strictly_sorted(r@),
            forall|p: Position| #[trigger] r@.contains(p) <==> (tiles@.take(t as int).contains(p) && waiting_at(
                units@,
                moved_units@,
                p,
            ) > 0 && can_march(land@, cities@, unit_positions(units@), p, waiting_at(units@, moved_units@, p) as int)),
        decreases tiles@.len() - t,
    {
        let pos = tiles[t];
        let mut stack: usize = 0;
        let mut k: usize = 0;
        while k < units.len()
            invariant
                0 <= k <= units@.len(),
                stack == waiting_at(units@.take(k as int), moved_units@, pos),
                stack <= k,
            decreases units@.len() - k,
        {
            proof {
                assert(units@.take(k as int + 1).drop_last() =~= units@.take(k as int));
            }
            if units[k].1 == pos && !id_in(moved_units, units[k].0) {
                stack = stack + 1;
            }
            k = k + 1;
        }
        proof {
            assert(units@.take(k as int) =~= units@);
        }
        let ghost prev = r@;
        let movable = stack > 0 && barbarian_march_steps(land, cities, &positions, pos, stack).len() > 0;
        if movable {
            insert_sorted(&mut r, pos);
        }
        proof {
            let t1 = tiles@.take(t as int + 1);
            let t0 = tiles@.take(t as int);
            assert forall|q: Position| #[trigger] r@.contains(q) <==> (t1.contains(q) && waiting_at(units@, moved_units@, q) > 0
                && can_march(land@, cities@, unit_positions(units@), q, waiting_at(units@, moved_units@, q) as int)) by {
                if t1.contains(q) {
                    let k = choose|k: int| 0 <= k < t1.len() && #[trigger] t1[k] == q;
                    if k < t {
                        assert(t0[k] == q);
                    }
                }
                if t0.contains(q) {
                    let k = choose|k: int| 0 <= k < t0.len() && #[trigger] t0[k] == q;
                    assert(t1[k] == q);
                }
                if q == pos {
                    assert(t1[t as int] == q);
                }
                assert(prev.contains(q) <==> (t0.contains(q) && waiting_at(units@, moved_units@, q) > 0
                    && can_march(land@, cities@, unit_positions(units@), q, waiting_at(units@, moved_units@, q) as int)));
            }
        }
        t = t + 1;
    }
    proof {
        assert(tiles@.take(t as int) =~= tiles@);
    }
    r
}


/// Some unit or city stands at `pos`.
pub fn anything_present(unit_positions: &[Position], city_positions: &[Position], pos: Position) -> (r: bool)
    ensures
        r == (unit_positions@.contains(pos) || city_positions@.contains(pos)),
{
    position_in(unit_positions, pos) || position_in(city_positions, pos)
}

/// Barbarians may found a city at `pos`: land that is neither barren nor exhausted, with
/// nothing on it and no city of another player within two steps over land.
pub open spec fn spec_base_spawn(
    land: Seq<Position>,
    spawnable: Seq<Position>,
    occupied: Seq<Position>,
    other_cities: Seq<Position>,
    pos: Position,
) -> bool {
    &&& spawnable.contains(pos)
    &&& !occupied.contains(pos)
    &&& other_cities.filter(|c: Position| in_land_range(land, pos, c, 2)).len() == 0
}

/// Whether barbarians may found a city at `pos` (`spawnable` lists the land hexagons that are
/// neither barren nor exhausted, `occupied` the positions of all units and cities,
/// `other_cities` the cities of the players other than the target).
pub fn is_base_barbarian_spawn_pos(
    land: &[Position],
    spawnable: &[Position],
    occupied: &[Position],
    other_cities: &[Position],
    pos: Position,
) -> (r: bool)
    requires
        has_neighbors_in_range(pos),
    ensures
        r == spec_base_spawn(land@, spawnable@, occupied@, other_cities@, pos),
{
    position_in(spawnable, pos) && !position_in(occupied, pos) && cities_in_land_range(land, other_cities, pos, 2).len() == 0
}

/// A city two steps away from `pos` over land can be reached through some hexagon.
pub open spec fn some_step(land: Seq<Position>, cities: Seq<Position>, pos: Position) -> bool {
    exists|p: Position| step_towards_some(land, cities, pos, p)
}

/// A first choice for a new barbarian city: a possible position with no city of the target
/// next to it but one two steps away over land.
pub open spec fn primary_spawn(
    land: Seq<Position>,
    spawnable: Seq<Position>,
    occupied: Seq<Position>,
    cities: Seq<Position>,
    other_cities: Seq<Position>,
) -> spec_fn(Position) -> bool {
    |pos: Position|
        spec_base_spawn(land, spawnable, occupied, other_cities, pos) && adjacent_cities(land, cities, pos).len()
            == 0 && some_step(land, cities, pos)
}

/// A second choice for a new barbarian city: a possible position next to a city of the
/// target.
pub open spec fn secondary_spawn(
    land: Seq<Position>,
    spawnable: Seq<Position>,
    occupied: Seq<Position>,
    cities: Seq<Position>,
    other_cities: Seq<Position>,
) -> spec_fn(Position) -> bool {
    |pos: Position|
        spec_base_spawn(land, spawnable, occupied, other_cities, pos) && exists|i: int|
            0 <= i < cities.len() && hex_distance(#[trigger] cities[i], pos) == 1
}

/// Where barbarians may found a city against the player with `cities`: the map positions
/// of the first choice, or, when there are none, those of the second choice; in the order of
/// `tiles`.
pub fn possible_barbarians_spawns(
    tiles: &[Position],
    land: &[Position],
    spawnable: &[Position],
    occupied: &[Position],
    cities: &[Position],
    other_cities: &[Position],
) -> (r: Vec<Position>)
    requires
        forall|i: int| 0 <= i < tiles@.len() ==> has_neighbors_in_range(#[trigger] tiles@[i]),
    ensures
        r@ == if tiles@.filter(primary_spawn(land@, spawnable@, occupied@, cities@, other_cities@)).len() > 0 {
            tiles@.filter(primary_spawn(land@, spawnable@, occupied@, cities@, other_cities@))
        } else {
            tiles@.filter(secondary_spawn(land@, spawnable@, occupied@, cities@, other_cities@))
        },
{
    let ghost f = primary_spawn(land@, spawnable@, occupied@, cities@, other_cities@);
    let ghost g = secondary_spawn(land@, spawnable@, occupied@, cities@, other_cities@);
    let mut primary: Vec<Position> = Vec::new();
    let mut i: usize = 0;
    while i < tiles.len()
        invariant
            0 <= i <= tiles@.len(),
            forall|i: int| 0 <= i < tiles@.len() ==> has_neighbors_in_range(#[trigger] tiles@[i]),
            f == primary_spawn(land@, spawnable@, occupied@, cities@, other_cities@),
            primary@ == tiles@.take(i as int).filter(f),
        decreases tiles@.len() - i,
    {
        proof {
            assert(tiles@.take(i as int + 1).drop_last() =~= tiles@.take(i as int));
            reveal(Seq::filter);
        }
        let pos = tiles[i];
        let base = is_base_barbarian_spawn_pos(land, spawnable, occupied, other_cities, pos);
        let keep = if base && cities_in_land_range(land, cities, pos, 1).len() == 0 {
            let steps = steps_towards_land_range2_cites(land, cities, pos);
            proof {
                if steps@.len() > 0 {
                    assert(steps@.contains(steps@[0]));
                }
                if some_step(land@, cities@, pos) {
                    let p = choose|p: Position| step_towards_some(land@, cities@, pos, p);
                    assert(steps@.contains(p));
                }
            }
            steps.len() > 0
        } else {
            false
        };
        if keep {
            primary.push(pos);
        }
        proof {
            assert(keep == f(pos));
            if f(pos) {
                assert(tiles@.take(i as int + 1).filter(f) =~= tiles@.take(i as int).filter(f).push(pos));
            } else {
                assert(tiles@.take(i as int + 1).filter(f) =~= tiles@.take(i as int).filter(f));
            }
        }
        i = i + 1;
    }
    proof {
        assert(tiles@.take(i as int) =~= tiles@);
    }
    if primary.len() > 0 {
        return primary;
    }
    let mut secondary: Vec<Position> = Vec::new();
    let mut i: usize = 0;
    while i < tiles.len()
        invariant
            0 <= i <= tiles@.len(),
            forall|i: int| 0 <= i < tiles@.len() ==> has_neighbors_in_range(#[trigger] tiles@[i]),
            g == secondary_spawn(land@, spawnable@, occupied@, cities@, other_cities@),
            secondary@ == tiles@.take(i as int).filter(g),
        decreases tiles@.len() - i,
    {
        proof {
            assert(tiles@.take(i as int + 1).drop_last() =~= tiles@.take(i as int));
            reveal(Seq::filter);
        }
        let pos = tiles[i];
        let keep = is_base_barbarian_spawn_pos(land, spawnable, occupied, other_cities, pos) && adjacent_to_cities(
            cities,
            pos,
        );
        if keep {
            secondary.push(pos);
        }
        proof {
            if g(pos) {
                assert(tiles@.take(i as int + 1).filter(g) =~= tiles@.take(i as int).filter(g).push(pos));
            } else {
                assert(tiles@.take(i as int + 1).filter(g) =~= tiles@.take(i as int).filter(g));
            }
        }
        i = i + 1;
    }
    proof {
        assert(tiles@.take(i as int) =~= tiles@);
    }
    secondary
}


/// The barbarian cities within two steps over land of the cities of the target, city after
/// city, repetitions included.
pub open spec fn reinforce_candidates(
    land: Seq<Position>,
    cities: Seq<Position>,
    barbarian_cities: Seq<Position>,
) -> Seq<Position>
    decreases cities.len(),
{
    if cities.len() == 0 {
        Seq::empty()
    } else {
        reinforce_candidates(land, cities.drop_last(), barbarian_cities) + barbarian_cities.filter(
            |b: Position| in_land_range(land, cities.last(), b, 2),
        )
    }
}

/// The positions of `s`, each at its first occurrence.
pub open spec fn first_occurrences(s: Seq<Position>) -> Seq<Position>
    decreases s.len(),
{
    if s.len() == 0 {
        Seq::empty()
    } else {
        let u = first_occurrences(s.drop_last());
        if u.contains(s.last()) {
            u
        } else {
            u.push(s.last())
        }
    }
}

/// The barbarian cities that get an infantry unit after the barbarians moved: those near
/// the target's cities, each once, with room for another unit, at most `available` of them.
pub open spec fn spec_reinforced(
    land: Seq<Position>,
    cities: Seq<Position>,
    barbarian_cities: Seq<Position>,
    barbarian_units: Seq<Position>,
    available: int,
) -> Seq<Position> {
    let c = first_occurrences(reinforce_candidates(land, cities, barbarian_cities)).filter(
        |p: Position| count_at(barbarian_units, p) < STACK_LIMIT,
    );
    if c.len() <= available {
        c
    } else {
        c.take(available)
    }
}

/// The barbarian cities that get an infantry unit after the barbarians moved against the
/// player with `cities`: the barbarian cities within two steps over land of those cities,
/// each once, that have room for another unit, at most `available` of them.
pub fn reinforce_after_move(
    land: &[Position],
    cities: &[Position],
    barbarian_cities: &[Position],
    barbarian_units: &[Position],
    available: usize,
) -> (r: Vec<Position>)
    requires
        forall|i: int| 0 <= i < cities@.len() ==> has_neighbors_in_range(#[trigger] cities@[i]),
    ensures
        r@ == spec_reinforced(land@, cities@, barbarian_cities@, barbarian_units@, available as int),
{
    let mut unique: Vec<Position> = Vec::new();
    let mut i: usize = 0;
    while i < cities.len()
        invariant
            0 <= i <= cities@.len(),
            forall|i: int| 0 <= i < cities@.len() ==> has_neighbors_in_range(#[trigger] cities@[i]),
            unique@ == first_occurrences(reinforce_candidates(land@, cities@.take(i as int), barbarian_cities@)),
        decreases cities@.len() - i,
    {
        let near = cities_in_land_range(land, barbarian_cities, cities[i], 2);
        let ghost base = reinforce_candidates(land@, cities@.take(i as int), barbarian_cities@);
        proof {
            assert(cities@.take(i as int + 1).drop_last() =~= cities@.take(i as int));
            assert(reinforce_candidates(land@, cities@.take(i as int + 1), barbarian_cities@) == base + near@);
            assert(base + near@.take(0) =~= base);
        }
        let mut j: usize = 0;
        while j < near.len()
            invariant
                0 <= j <= near@.len(),
                unique@ == first_occurrences(base + near@.take(j as int)),
            decreases near@.len() - j,
        {
            let p = near[j];
            proof {
                assert((base + near@.take(j as int + 1)).drop_last() =~= base + near@.take(j as int));
                assert((base + near@.take(j as int + 1)).last() == p);
            }
            if !position_in(&unique, p) {
                unique.push(p);
            }
            j = j + 1;
        }
        proof {
            assert(near@.take(j as int) =~= near@);
        }
        i = i + 1;
    }
    proof {
        assert(cities@.take(i as int) =~= cities@);
    }
    let ghost h = |p: Position| count_at(barbarian_units@, p) < STACK_LIMIT;
    let ghost all = unique@;
    let mut r: Vec<Position> = Vec::new();
    let mut k: usize = 0;
    while k < unique.len()
        invariant
            0 <= k <= unique@.len(),
            all == unique@,
            h == (|p: Position| count_at(barbarian_units@, p) < STACK_LIMIT),
            r@ == (if all.take(k as int).filter(h).len() <= available {
                all.take(k as int).filter(h)
            } else {
                all.take(k as int).filter(h).take(available as int)
            }),
        decreases unique@.len() - k,
    {
        proof {
            assert(all.take(k as int + 1).drop_last() =~= all.take(k as int));
            reveal(Seq::filter);
        }
        let p = unique[k];
        let ghost c = all.take(k as int).filter(h);
        let room = units_at(barbarian_units, p) < STACK_LIMIT;
        if room && r.len() < available {
            r.push(p);
        }
        proof {
            if h(p) {
                assert(all.take(k as int + 1).filter(h) =~= c.push(p));
                if c.len() >= available {
                    assert(c.push(p).take(available as int) =~= c.take(available as int));
                }
            } else {
                assert(all.take(k as int + 1).filter(h) =~= c);
            }
        }
        k = k + 1;
    }
    proof {
        assert(all.take(k as int) =~= all);
    }
    r
}

/// The barbarian cities that may receive a reinforcement: those that can take another army
/// unit, as long as the barbarians have a fighting unit left.
pub fn possible_barbarians_reinforcements(available: &Units, cities_that_can_add_units: &[Position]) -> (r: Vec<Position>)
    ensures
        r@ == if available.count(UnitType::Infantry) > 0 || available.count(UnitType::Cavalry) > 0
            || available.count(UnitType::Elephant) > 0 {
            cities_that_can_add_units@
        } else {
            Seq::empty()
        },
{
    let fighters = barbarian_fighters();
    let mut any = false;
    let mut i: usize = 0;
    while i < fighters.len()
        invariant
            0 <= i <= fighters@.len(),
            fighters@ == seq![UnitType::Infantry, UnitType::Cavalry, UnitType::Elephant],
            any == exists|k: int| 0 <= k < i && available.count(#[trigger] fighters@[k]) > 0,
        decreases fighters@.len() - i,
    {
        if available.has_unit(&fighters[i]) {
            any = true;
        }
        i = i + 1;
    }
    proof {
        if available.count(UnitType::Infantry) > 0 {
            assert(fighters@[0] == UnitType::Infantry);
        }
        if available.count(UnitType::Cavalry) > 0 {
            assert(fighters@[1] == UnitType::Cavalry);
        }
        if available.count(UnitType::Elephant) > 0 {
            assert(fighters@[2] == UnitType::Elephant);
        }
    }
    if !any {
        return Vec::new();
    }
    let mut r: Vec<Position> = Vec::new();
    let mut k: usize = 0;
    while k < cities_that_can_add_units.len()
        invariant
            0 <= k <= cities_that_can_add_units@.len(),
            r@ == cities_that_can_add_units@.take(k as int),
        decreases cities_that_can_add_units@.len() - k,
    {
        r.push(cities_that_can_add_units[k]);
        proof {
            assert(cities_that_can_add_units@.take(k as int + 1) =~= cities_that_can_add_units@.take(k as int).push(
                cities_that_can_add_units@[k as int],
            ));
        }
        k = k + 1;
    }
    proof {
        assert(cities_that_can_add_units@.take(k as int) =~= cities_that_can_add_units@);
    }
    r
}

/// The ids of the units at `pos`, in order.
pub open spec fn ids_at(units: Seq<(u32, Position)>, pos: Position) -> Seq<u32>
    decreases units.len(),
{
    if units.len() == 0 {
        Seq::empty()
    } else if units.last().1 == pos {
        ids_at(units.drop_last(), pos).push(units.last().0)
    } else {
        ids_at(units.drop_last(), pos)
    }
}

/// The ids of the units at `pos`, in order.
fn unit_ids_at(units: &[(u32, Position)], pos: Position) -> (r: Vec<u32>)
    ensures
        r@ == ids_at(units@, pos),
{
    let mut r: Vec<u32> = Vec::new();
    let mut i: usize = 0;
    while i < units.len()
        invariant
            0 <= i <= units@.len(),
            r@ == ids_at(units@.take(i as int), pos),
        decreases units@.len() - i,
    {
        proof {
            assert(units@.take(i as int + 1).drop_last() =~= units@.take(i as int));
        }
        if units[i].1 == pos {
            r.push(units[i].0);
        }
        i = i + 1;
    }
    proof {
        assert(units@.take(i as int) =~= units@);
    }
    r
}

/// Appends `ids` to `v`.
fn extend_ids(v: &mut Vec<u32>, ids: &Vec<u32>)
    ensures
        final(v)@ == old(v)@ + ids@,
{
    let ghost start = v@;
    let mut i: usize = 0;
    while i < ids.len()
        invariant
            0 <= i <= ids@.len(),
            v@ == start + ids@.take(i as int),
        decreases ids@.len() - i,
    {
        v.push(ids[i]);
        proof {
            assert(start + ids@.take(i as int + 1) =~= (start + ids@.take(i as int)).push(ids@[i as int]));
        }
        i = i + 1;
    }
    proof {
        assert(ids@.take(i as int) =~= ids@);
    }
}

/// The units standing at the armies that may no longer move, army after army.
pub open spec fn stopped_ids(old_movable: Seq<Position>, movable: Seq<Position>, units: Seq<(u32, Position)>) -> Seq<u32>
    decreases old_movable.len(),
{
    if old_movable.len() == 0 {
        Seq::empty()
    } else {
        stopped_ids(old_movable.drop_last(), movable, units) + if movable.contains(old_movable.last()) {
            Seq::empty()
        } else {
            ids_at(units, old_movable.last())
        }
    }
}

/// After the players chose which barbarian armies may still move, the units of the armies
/// that were movable before but are no longer count as moved.
pub fn on_stop_barbarian_movement(
    state: &mut BarbariansEventState,
    old_movable: &[Position],
    movable: &[Position],
    units: &[(u32, Position)],
)
    ensures
        final(state).moved_units@ == old(state).moved_units@ + stopped_ids(old_movable@, movable@, units@),
        final(state).move_units == old(state).move_units,
        final(state).selected_position == old(state).selected_position,
        final(state).must_reduce_mood@ == old(state).must_reduce_mood@,
{
    let ghost start = state.moved_units@;
    let mut i: usize = 0;
    while i < old_movable.len()
        invariant
            0 <= i <= old_movable@.len(),
            state.moved_units@ == start + stopped_ids(old_movable@.take(i as int), movable@, units@),
            state.move_units == old(state).move_units,
            state.selected_position == old(state).selected_position,
            state.must_reduce_mood@ == old(state).must_reduce_mood@,
        decreases old_movable@.len() - i,
    {
        let pos = old_movable[i];
        proof {
            assert(old_movable@.take(i as int + 1).drop_last() =~= old_movable@.take(i as int));
        }
        let ghost before = stopped_ids(old_movable@.take(i as int), movable@, units@);
        if !position_in(movable, pos) {
            let ids = unit_ids_at(units, pos);
            extend_ids(&mut state.moved_units, &ids);
            proof {
                assert(start + before + ids@ =~= start + (before + ids@));
            }
        } else {
            proof {
                assert(before + Seq::<u32>::empty() =~= before);
            }
        }
        i = i + 1;
    }
    proof {
        assert(old_movable@.take(i as int) =~= old_movable@);
    }
}

/// Moves the selected barbarian army: returns its position and the ids of its units, which
/// now count as moved; no army is selected any more.
pub fn execute_barbarian_move(state: &mut BarbariansEventState, units: &[(u32, Position)]) -> (r: (Position, Vec<u32>))
    requires
        old(state).selected_position is Some,
    ensures
        Some(r.0) == old(state).selected_position,
        r.1@ == ids_at(units@, r.0),
        final(state).selected_position is None,
        final(state).moved_units@ == old(state).moved_units@ + r.1@,
        final(state).move_units == old(state).move_units,
        final(state).must_reduce_mood@ == old(state).must_reduce_mood@,
{
    let from = match state.selected_position {
        Some(p) => p,
        None => Position::new(0, 0),
    };
    state.selected_position = None;
    let ids = unit_ids_at(units, from);
    extend_ids(&mut state.moved_units, &ids);
    (from, ids)
}


/// The positions kept at their first occurrence are each listed once and come from `s`.
proof fn lemma_first_occurrences(s: Seq<Position>)
    ensures
        first_occurrences(s).no_duplicates(),
        forall|x: Position| #[trigger] first_occurrences(s).contains(x) <==> s.contains(x),
    decreases s.len(),
{
    if s.len() > 0 {
        let d = s.drop_last();
        lemma_first_occurrences(d);
        let u = first_occurrences(d);
        assert forall|x: Position| #[trigger] first_occurrences(s).contains(x) <==> s.contains(x) by {
            if s.contains(x) {
                let k = choose|k: int| 0 <= k < s.len() && s[k] == x;
                if k < d.len() {
                    assert(d[k] == x);
                    assert(d.contains(x));
                }
            }
            if d.contains(x) {
                let k = choose|k: int| 0 <= k < d.len() && d[k] == x;
                assert(s[k] == x);
            }
            if !u.contains(s.last()) {
                if u.push(s.last()).contains(x) {
                    let k = choose|k: int| 0 <= k < u.len() + 1 && u.push(s.last())[k] == x;
                    if k < u.len() {
                        assert(u[k] == x);
                    }
                }
                if u.contains(x) {
                    let k = choose|k: int| 0 <= k < u.len() && u[k] == x;
                    assert(u.push(s.last())[k] == x);
                }
                if x == s.last() {
                    assert(u.push(s.last())[u.len() as int] == x);
                }
            }
        }
    }
}

/// Filtering keeps a sequence free of repetitions and keeps only its elements.
proof fn lemma_filter_distinct(s: Seq<Position>, pred: spec_fn(Position) -> bool)
    requires
        s.no_duplicates(),
    ensures
        s.filter(pred).no_duplicates(),
        forall|x: Position| #[trigger] s.filter(pred).contains(x) ==> s.contains(x),
    decreases s.len(),
{
    reveal(Seq::filter);
    if s.len() > 0 {
        let d = s.drop_last();
        assert(d.no_duplicates());
        lemma_filter_distinct(d, pred);
        let f = d.filter(pred);
        assert forall|x: Position| #[trigger] s.filter(pred).contains(x) implies s.contains(x) by {
            let k = choose|k: int| 0 <= k < s.filter(pred).len() && s.filter(pred)[k] == x;
            if k < f.len() {
                assert(f[k] == x);
                assert(f.contains(x));
                let m = choose|m: int| 0 <= m < d.len() && d[m] == x;
                assert(s[m] == x);
            } else {
                assert(s[s.len() - 1] == x);
            }
        }
        if pred(s.last()) {
            assert(!f.contains(s.last())) by {
                if f.contains(s.last()) {
                    let m = choose|m: int| 0 <= m < d.len() && d[m] == s.last();
                    assert(s[m] == s[s.len() - 1]);
                }
            }
            assert forall|i: int, j: int| 0 <= i < f.len() + 1 && 0 <= j < f.len() + 1 && i != j implies f.push(
                s.last(),
            )[i] != f.push(s.last())[j] by {
                if i < f.len() && j < f.len() {
                } else if i < f.len() {
                    assert(f.contains(f[i]));
                } else {
                    assert(f.contains(f[j]));
                }
            }
        }
    }
}

/// After moving, at most `available` barbarian cities are reinforced, each once, each a
/// barbarian city with room for another unit.
pub proof fn lemma_reinforced(
    land: Seq<Position>,
    cities: Seq<Position>,
    barbarian_cities: Seq<Position>,
    barbarian_units: Seq<Position>,
    available: int,
)
    requires
        0 <= available,
    ensures
        spec_reinforced(land, cities, barbarian_cities, barbarian_units, available).len() <= available,
        spec_reinforced(land, cities, barbarian_cities, barbarian_units, available).no_duplicates(),
        forall|x: Position|
            #[trigger] spec_reinforced(land, cities, barbarian_cities, barbarian_units, available).contains(x)
                ==> barbarian_cities.contains(x) && count_at(barbarian_units, x) < STACK_LIMIT,
{
    let cands = reinforce_candidates(land, cities, barbarian_cities);
    let u = first_occurrences(cands);
    let h = |p: Position| count_at(barbarian_units, p) < STACK_LIMIT;
    let c = u.filter(h);
    lemma_first_occurrences(cands);
    lemma_filter_distinct(u, h);
    lemma_candidates_are_barbarian_cities(land, cities, barbarian_cities);
    let r = spec_reinforced(land, cities, barbarian_cities, barbarian_units, available);
    assert forall|x: Position| #[trigger] r.contains(x) implies barbarian_cities.contains(x) && count_at(
        barbarian_units,
        x,
    ) < STACK_LIMIT by {
        let k = choose|k: int| 0 <= k < r.len() && r[k] == x;
        assert(c[k] == x);
        assert(c.contains(x));
        assert(h(c[k])) by {
            u.lemma_filter_pred(h, k);
        }
        assert(u.contains(x));
        assert(cands.contains(x));
    }
    if c.len() > available {
        assert forall|i: int, j: int| 0 <= i < r.len() && 0 <= j < r.len() && i != j implies r[i] != r[j] by {
            assert(r[i] == c[i] && r[j] == c[j]);
        }
    }
}

/// The candidates for reinforcement are barbarian cities.
proof fn lemma_candidates_are_barbarian_cities(
    land: Seq<Position>,
    cities: Seq<Position>,
    barbarian_cities: Seq<Position>,
)
    ensures
        forall|x: Position| #[trigger] reinforce_candidates(land, cities, barbarian_cities).contains(x)
            ==> barbarian_cities.contains(x),
    decreases cities.len(),
{
    if cities.len() > 0 {
        lemma_candidates_are_barbarian_cities(land, cities.drop_last(), barbarian_cities);
        let a = reinforce_candidates(land, cities.drop_last(), barbarian_cities);
        let pred = |b: Position| in_land_range(land, cities.last(), b, 2);
        let b = barbarian_cities.filter(pred);
        assert forall|x: Position| #[trigger] (a + b).contains(x) implies barbarian_cities.contains(x) by {
            let k = choose|k: int| 0 <= k < (a + b).len() && (a + b)[k] == x;
            if k < a.len() {
                assert(a[k] == x);
                assert(a.contains(x));
            } else {
                assert(b[k - a.len()] == x);
                barbarian_cities.lemma_filter_contains_rev(pred, x);
            }
        }
    }
}

/// The steps of the barbarian movement event, in the order they run.
#[derive(Clone, Copy, Debug, PartialEq, Eq, Structural)]
pub enum BarbarianMovePhase {
    /// The event starts.
    Start,
    /// The next army to move is chosen.
    SelectArmy,
    /// All armies have had their turn.
    Finish,
}

/// What a step of the barbarian movement event does.
#[derive(Clone, Debug, PartialEq, Eq)]
pub enum BarbarianMoveAction {
    /// No army can move: the barbarians try to found a city instead (and this is logged).
    CannotMove,
    /// Ask for the army to move next among these positions.
    SelectArmy(Vec<Position>),
    /// Reinforce the barbarians (`reinforce_after_move`) and end their turn.
    ReinforceAndEndTurn,
    /// Nothing to do in this step.
    Nothing,
}

fn copy_positions(s: &[Position]) -> (r: Vec<Position>)
    ensures
        r@ == s@,
{
    let mut r: Vec<Position> = Vec::new();
    let mut i: usize = 0;
    while i < s.len()
        invariant
            i <= s@.len(),
            r@ == s@.take(i as int),
        decreases s@.len() - i,
    {
        r.push(s[i]);
        proof {
            assert(s@.take(i as int + 1) =~= s@.take(i as int).push(s@[i as int]));
        }
        i = i + 1;
    }
    proof {
        assert(s@.take(i as int) =~= s@);
    }
    r
}

/// Decides a step of the barbarian movement event, given the positions of the armies that can
/// still move (`get_movable_units`). At the start, the armies move when some can, and
/// otherwise the barbarians cannot move. While they move, each step asks which army moves
/// next. When they moved and no army can move any more, they are reinforced and their turn
/// ends.
pub fn barbarian_move_step(
    state: &mut BarbariansEventState,
    phase: BarbarianMovePhase,
    movable: &[Position],
) -> (r: BarbarianMoveAction)
    ensures
        final(state).moved_units == old(state).moved_units,
        final(state).selected_position == old(state).selected_position,
        final(state).must_reduce_mood == old(state).must_reduce_mood,
        final(state).move_units == if phase == BarbarianMovePhase::Start && movable@.len() > 0 {
            true
        } else {
            old(state).move_units
        },
        match phase {
            BarbarianMovePhase::Start => if movable@.len() == 0 {
                r == BarbarianMoveAction::CannotMove
            } else {
                r == BarbarianMoveAction::Nothing
            },
            BarbarianMovePhase::SelectArmy => if old(state).move_units {
                r matches BarbarianMoveAction::SelectArmy(v) && v@ == movable@
            } else {
                r == BarbarianMoveAction::Nothing
            },
            BarbarianMovePhase::Finish => if old(state).move_units && movable@.len() == 0 {
                r == BarbarianMoveAction::ReinforceAndEndTurn
            } else {
                r == BarbarianMoveAction::Nothing
            },
        },
{
    match phase {
        BarbarianMovePhase::Start => {
            if movable.len() == 0 {
                BarbarianMoveAction::CannotMove
            } else {
                state.move_units = true;
                BarbarianMoveAction::Nothing
            }
        },
        BarbarianMovePhase::SelectArmy => {
            if state.move_units {
                BarbarianMoveAction::SelectArmy(copy_positions(movable))
            } else {
                BarbarianMoveAction::Nothing
            }
        },
        BarbarianMovePhase::Finish => {
            if state.move_units && movable.len() == 0 {
                BarbarianMoveAction::ReinforceAndEndTurn
            } else {
                BarbarianMoveAction::Nothing
            }
        },
    }
}

/// Mercenaries may move a barbarian army of `army` units onto `to`: land with room for it
/// (`barbarian_units` holds the position of every barbarian unit).
pub open spec fn mercenary_step_ok(land: Seq<Position>, barbarian_units: Seq<Position>, army: nat, to: Position) -> bool {
    land.contains(to) && army + count_at(barbarian_units, to) <= STACK_LIMIT
}

/// Where mercenaries may move the barbarian army at `from`: the neighbors of `from`, in
/// order, that are land and have room for the whole army.
pub fn mercenary_destinations(from: Position, land: &[Position], barbarian_units: &[Position]) -> (r: Vec<Position>)
    requires
        has_neighbors_in_range(from),
    ensures
        r@ == spec_neighbors(from).filter(
            |to: Position| mercenary_step_ok(land@, barbarian_units@, count_at(barbarian_units@, from), to),
        ),
{
    let ghost f = |to: Position| mercenary_step_ok(land@, barbarian_units@, count_at(barbarian_units@, from), to);
    let army = units_at(barbarian_units, from);
    let n = from.neighbors();
    let mut r: Vec<Position> = Vec::new();
    let mut i: usize = 0;
    while i < n.len()
        invariant
            i <= n@.len(),
            n@ == spec_neighbors(from),
            army == count_at(barbarian_units@, from),
            f == (|to: Position| mercenary_step_ok(land@, barbarian_units@, count_at(barbarian_units@, from), to)),
            r@ == n@.take(i as int).filter(f),
        decreases n@.len() - i,
    {
        proof {
            assert(n@.take(i as int + 1).drop_last() =~= n@.take(i as int));
            reveal(Seq::filter);
        }
        let to = n[i];
        let here = units_at(barbarian_units, to);
        let ok = position_in(land, to) && army <= STACK_LIMIT && here <= STACK_LIMIT - army;
        if ok {
            r.push(to);
        }
        proof {
            if f(to) {
                assert(n@.take(i as int + 1).filter(f) =~= n@.take(i as int).filter(f).push(to));
            } else {
                assert(n@.take(i as int + 1).filter(f) =~= n@.take(i as int).filter(f));
            }
        }
        i = i + 1;
    }
    proof {
        assert(n@.take(i as int) =~= n@);
    }
    r
}

/// Mercenaries take the army at `pos` as the next to move: it leaves the armies still to move
/// (its first entry there) and becomes the selected one.
pub fn select_mercenary_army(state: &mut BarbariansEventState, to_move: &mut Vec<Position>, pos: Position)
    ensures
        final(state).selected_position == Some(pos),
        final(state).move_units == old(state).move_units,
        final(state).moved_units == old(state).moved_units,
        final(state).must_reduce_mood == old(state).must_reduce_mood,
        old(to_move)@.contains(pos) ==> exists|k: int|
            0 <= k < old(to_move)@.len() && old(to_move)@[k] == pos && (forall|j: int|
                0 <= j < k ==> old(to_move)@[j] != pos) && final(to_move)@ == old(to_move)@.remove(k),
        !old(to_move)@.contains(pos) ==> final(to_move)@ == old(to_move)@,
{
    let mut i: usize = 0;
    while i < to_move.len()
        invariant
            i <= to_move@.len(),
            *to_move == *old(to_move),
            *state == *old(state),
            forall|j: int| 0 <= j < i ==> to_move@[j] != pos,
        decreases to_move@.len() - i,
    {
        if to_move[i] == pos {
            to_move.remove(i);
            state.selected_position = Some(pos);
            return;
        }
        i = i + 1;
    }
    state.selected_position = Some(pos);
}

/// The Mercenaries card lets the player pick at most as many armies as it can pay for (one
/// resource each) among the armies in range.
pub fn max_mercenary_armies(armies_in_range: usize, max_payment: u8) -> (r: u8)
    ensures
        r == if armies_in_range < max_payment { armies_in_range as u8 } else { max_payment },
{
    if armies_in_range < max_payment as usize {
        armies_in_range as u8
    } else {
        max_payment
    }
}

} // verus!
