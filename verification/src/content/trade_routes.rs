use vstd::prelude::*;

use crate::city::{City, MoodState};
use crate::position::{hex_distance, has_neighbors_in_range, Position};

verus! {

/// A trade route: a settler or ship of the player next to a city of another player.
#[derive(Clone, Copy, Debug, PartialEq, Eq, Structural)]
pub struct TradeRoute {
    pub unit_id: u32,
    pub from: Position,
    pub to: Position,
}

/// `chain[k]` is a route of unit `idx + k`, every route goes to a city outside `used`, and
/// no two routes go to the same city.
pub open spec fn valid_chain(
    all: Seq<Seq<TradeRoute>>,
    idx: int,
    used: Seq<Position>,
    chain: Seq<TradeRoute>,
) -> bool {
    &&& 0 <= idx
    &&& idx + chain.len() <= all.len()
    &&& forall|k: int| 0 <= k < chain.len() ==> all[idx + k].contains(#[trigger] chain[k])
    &&& forall|k: int| 0 <= k < chain.len() ==> !used.contains(#[trigger] chain[k].to)
    &&& forall|k: int, l: int| 0 <= k < l < chain.len() ==> #[trigger] chain[k].to != #[trigger] chain[l].to
}

/// The routes of `all[idx]` to cities outside `used`, in order.
fn open_routes(routes: &Vec<TradeRoute>, used: &Vec<Position>) -> (r: Vec<TradeRoute>)
    ensures
        forall|k: int| 0 <= k < r@.len() ==> routes@.contains(#[trigger] r@[k]) && !used@.contains(r@[k].to),
        forall|t: TradeRoute| routes@.contains(t) && !used@.contains(t.to) ==> r@.contains(t),
        r@ == open_spec(routes@, used@),
{
    let ghost f = |t: TradeRoute| !used@.contains(t.to);
    let mut r: Vec<TradeRoute> = Vec::new();
    let mut i: usize = 0;
    while i < routes.len()
        invariant
            0 <= i <= routes@.len(),
            f == (|t: TradeRoute| !used@.contains(t.to)),
            r@ == routes@.take(i as int).filter(f),
            forall|k: int| 0 <= k < r@.len() ==> routes@.contains(#[trigger] r@[k]) && !used@.contains(r@[k].to),
            forall|j: int| 0 <= j < i && !used@.contains(routes@[j].to) ==> r@.contains(#[trigger] routes@[j]),
        decreases routes@.len() - i,
    {
        let t = routes[i];
        let mut taken = false;
        let mut k: usize = 0;
        while k < used.len()
            invariant
                0 <= k <= used@.len(),
                taken == exists|j: int| 0 <= j < k && used@[j] == t.to,
            decreases used@.len() - k,
        {
            if used[k] == t.to {
                taken = true;
            }
            k = k + 1;
        }
        proof {
            if taken {
                let j = choose|j: int| 0 <= j < used@.len() && used@[j] == t.to;
                assert(used@.contains(t.to));
            } else {
                assert(!used@.contains(t.to));
            }
        }
        proof {
            assert(routes@.take(i as int + 1).drop_last() =~= routes@.take(i as int));
            reveal(Seq::filter);
            if f(t) {
                assert(routes@.take(i as int + 1).filter(f) =~= routes@.take(i as int).filter(f).push(t));
            } else {
                assert(routes@.take(i as int + 1).filter(f) =~= routes@.take(i as int).filter(f));
            }
        }
        if !taken {
            let ghost before = r@;
            r.push(t);
            proof {
                assert(r@[r@.len() - 1] == t);
                assert forall|j: int| 0 <= j < i + 1 && !used@.contains(routes@[j].to) implies r@.contains(#[trigger] routes@[j]) by {
                    if j < i {
                        let m = choose|m: int| 0 <= m < before.len() && before[m] == routes@[j];
                        assert(r@[m] == routes@[j]);
                    } else {
                        assert(r@[r@.len() - 1] == routes@[j]);
                    }
                }
            }
        }
        i = i + 1;
    }
    proof {
        assert forall|t: TradeRoute| routes@.contains(t) && !used@.contains(t.to) implies r@.contains(t) by {
            let j = choose|j: int| 0 <= j < routes@.len() && routes@[j] == t;
            assert(r@.contains(routes@[j]));
        }
        assert(routes@.take(i as int) =~= routes@);
    }
    r
}

/// The routes of `routes` to cities outside `used`, in order.
pub open spec fn open_spec(routes: Seq<TradeRoute>, used: Seq<Position>) -> Seq<TradeRoute> {
    routes.filter(|t: TradeRoute| !used.contains(t.to))
}

/// The selection `find_most_trade_routes` makes (the route of the last unit first): for the
/// unit at `idx`, each open route in order is followed by the best selection for the next
/// units, and the last of the longest of these is taken.
pub open spec fn spec_most_routes(all: Seq<Seq<TradeRoute>>, idx: int, used: Seq<Position>) -> Seq<TradeRoute>
    decreases all.len() - idx, 1int, 0int,
{
    if idx < 0 || idx >= all.len() {
        seq![]
    } else {
        best_of_routes(all, idx, used, open_spec(all[idx], used).len() as int)
    }
}

/// The last longest selection among those starting with the first `i` open routes of the unit
/// at `idx`.
pub open spec fn best_of_routes(all: Seq<Seq<TradeRoute>>, idx: int, used: Seq<Position>, i: int) -> Seq<TradeRoute>
    decreases all.len() - idx, 0int, i,
{
    if idx < 0 || idx >= all.len() || i <= 0 {
        seq![]
    } else {
        let prev = best_of_routes(all, idx, used, i - 1);
        let r = open_spec(all[idx], used)[i - 1];
        let cand = spec_most_routes(all, idx + 1, used.push(r.to)).push(r);
        if cand.len() >= prev.len() {
            cand
        } else {
            prev
        }
    }
}

/// Selects trade routes for the units from `unit_index` on, one route per unit and each city
/// at most once, as many as possible (units are taken in order; the selection stops at the
/// first unit without an open route). The result lists the route of the last unit first.
pub fn find_most_trade_routes(all: &Vec<Vec<TradeRoute>>, unit_index: usize, used_cities: &Vec<Position>) -> (r: Vec<TradeRoute>)
    requires
        unit_index <= all@.len(),
    ensures
        valid_chain(views(all@), unit_index as int, used_cities@, r@.reverse()),
        forall|c: Seq<TradeRoute>| #[trigger] valid_chain(views(all@), unit_index as int, used_cities@, c) ==> c.len() <= r@.len(),
        r@ == spec_most_routes(views(all@), unit_index as int, used_cities@),
    decreases all@.len() - unit_index,
{
    if unit_index == all.len() {
        let r: Vec<TradeRoute> = Vec::new();
        proof {
            assert(r@.reverse() =~= Seq::<TradeRoute>::empty());
        }
        return r;
    }
    let unit_routes = open_routes(&all[unit_index], used_cities);
    let n = all.len();
    let mut best: Vec<TradeRoute> = Vec::new();
    let mut i: usize = 0;
    while i < unit_routes.len()
        invariant
            0 <= i <= unit_routes@.len(),
            unit_index < n,
            n == all@.len(),
            forall|k: int| 0 <= k < unit_routes@.len() ==> all@[unit_index as int]@.contains(#[trigger] unit_routes@[k])
                && !used_cities@.contains(unit_routes@[k].to),
            valid_chain(views(all@), unit_index as int, used_cities@, best@.reverse()),
            i > 0 ==> best@.len() > 0,
            unit_routes@ == open_spec(views(all@)[unit_index as int], used_cities@),
            best@ == best_of_routes(views(all@), unit_index as int, used_cities@, i as int),
            forall|k: int, c: Seq<TradeRoute>| 0 <= k < i && #[trigger] valid_chain(
                views(all@),
                unit_index as int + 1,
                used_cities@.push(#[trigger] unit_routes@[k].to),
                c,
            ) ==> c.len() + 1 <= best@.len(),
        decreases unit_routes@.len() - i,
    {
        let r = unit_routes[i];
        let mut new_used = used_cities.clone();
        new_used.push(r.to);
        proof {
            assert(new_used@ =~= used_cities@.push(r.to));
        }
        let mut new_routes = find_most_trade_routes(all, unit_index + 1, &new_used);
        let ghost deeper = new_routes@.reverse();
        new_routes.push(r);
        proof {
            let ch = new_routes@.reverse();
            assert(ch =~= seq![r] + deeper);
            assert forall|k: int| 0 <= k < ch.len() implies views(all@)[unit_index as int + k].contains(#[trigger] ch[k]) by {
                if k > 0 {
                    assert(ch[k] == deeper[k - 1]);
                    assert(views(all@)[unit_index as int + 1 + (k - 1)].contains(deeper[k - 1]));
                }
            }
            assert forall|k: int| 0 <= k < ch.len() implies !used_cities@.contains(#[trigger] ch[k].to) by {
                if k > 0 {
                    assert(ch[k] == deeper[k - 1]);
                    assert(!used_cities@.push(r.to).contains(deeper[k - 1].to));
                    if used_cities@.contains(deeper[k - 1].to) {
                        let m = choose|m: int| 0 <= m < used_cities@.len() && used_cities@[m] == deeper[k - 1].to;
                        assert(used_cities@.push(r.to)[m] == deeper[k - 1].to);
                    }
                }
            }
            assert forall|k: int, l: int| 0 <= k < l < ch.len() implies #[trigger] ch[k].to != #[trigger] ch[l].to by {
                assert(ch[l] == deeper[l - 1]);
                if k == 0 {
                    assert(!used_cities@.push(r.to).contains(deeper[l - 1].to));
                    assert(used_cities@.push(r.to)[used_cities@.len() as int] == r.to);
                } else {
                    assert(ch[k] == deeper[k - 1]);
                }
            }
            assert(valid_chain(views(all@), unit_index as int, used_cities@, ch));
        }
        if new_routes.len() >= best.len() {
            best = new_routes;
        }
        i = i + 1;
    }
    proof {
        assert forall|c: Seq<TradeRoute>| #[trigger] valid_chain(views(all@), unit_index as int, used_cities@, c) implies c.len() <= best@.len() by {
            if c.len() > 0 {
                let first = c[0];
                assert(views(all@)[unit_index as int + 0].contains(c[0]));
                assert(!used_cities@.contains(c[0].to));
                let k = choose|k: int| 0 <= k < unit_routes@.len() && unit_routes@[k] == first;
                let rest = c.drop_first();
                assert forall|m: int| 0 <= m < rest.len() implies views(all@)[unit_index as int + 1 + m].contains(#[trigger] rest[m]) by {
                    assert(rest[m] == c[m + 1]);
                }
                assert forall|m: int| 0 <= m < rest.len() implies !used_cities@.push(first.to).contains(#[trigger] rest[m].to) by {
                    assert(rest[m] == c[m + 1]);
                    assert(c[0].to != c[m + 1].to);
                    if used_cities@.push(first.to).contains(rest[m].to) {
                        let j = choose|j: int| 0 <= j < used_cities@.len() + 1 && used_cities@.push(first.to)[j] == rest[m].to;
                        if j < used_cities@.len() {
                            assert(used_cities@[j] == rest[m].to);
                        }
                    }
                }
                assert forall|m: int, n: int| 0 <= m < n < rest.len() implies #[trigger] rest[m].to != #[trigger] rest[n].to by {
                    assert(rest[m] == c[m + 1]);
                    assert(rest[n] == c[n + 1]);
                }
                assert(valid_chain(views(all@), unit_index as int + 1, used_cities@.push(unit_routes@[k].to), rest));
            }
        }
    }
    best
}

/// The largest selection of trade routes, at most four, for the units that have candidate
/// routes (`candidates[u]` lists the routes of unit `u`, in the order of the units).
pub fn find_trade_routes(candidates: &Vec<Vec<TradeRoute>>) -> (r: Vec<TradeRoute>)
    ensures
        exists|m: Seq<TradeRoute>| #![trigger valid_chain(non_empty(views(candidates@)), 0, Seq::<Position>::empty(), m.reverse())]
            valid_chain(non_empty(views(candidates@)), 0, Seq::<Position>::empty(), m.reverse()) && (forall|c: Seq<TradeRoute>|
            #[trigger] valid_chain(non_empty(views(candidates@)), 0, Seq::<Position>::empty(), c) ==> c.len() <= m.len())
            && r@ == if m.len() > 4 { m.take(4) } else { m },
        ({
            let m = spec_most_routes(non_empty(views(candidates@)), 0, Seq::<Position>::empty());
            r@ == if m.len() > 4 { m.take(4) } else { m }
        }),
{
    let mut all: Vec<Vec<TradeRoute>> = Vec::new();
    let mut i: usize = 0;
    while i < candidates.len()
        invariant
            0 <= i <= candidates@.len(),
            views(all@) == non_empty(views(candidates@.take(i as int))),
        decreases candidates@.len() - i,
    {
        proof {
            assert(candidates@.take(i as int + 1).drop_last() =~= candidates@.take(i as int));
            assert(views(candidates@.take(i as int + 1)).drop_last() =~= views(candidates@.take(i as int)));
            reveal(Seq::filter);
        }
        proof {
            if candidates@[i as int]@.len() == 0 {
                assert(non_empty(views(candidates@.take(i as int + 1))) =~= non_empty(views(candidates@.take(i as int))));
            }
        }
        if candidates[i].len() > 0 {
            let ghost before = all@;
            all.push(candidates[i].clone());
            proof {
                assert(views(all@) =~= views(before).push(candidates@[i as int]@));
                assert(views(all@) =~= non_empty(views(candidates@.take(i as int + 1))));
            }
        }
        i = i + 1;
    }
    proof {
        assert(candidates@.take(candidates@.len() as int) =~= candidates@);
    }
    let used: Vec<Position> = Vec::new();
    let mut routes = find_most_trade_routes(&all, 0, &used);
    proof {
        assert(used@ =~= Seq::<Position>::empty());
    }
    let ghost m = routes@;
    routes.truncate(4);
    proof {
        assert(valid_chain(non_empty(views(candidates@)), 0, Seq::<Position>::empty(), m.reverse()));
        if m.len() > 4 {
            assert(routes@ =~= m.take(4));
        } else {
            assert(routes@ =~= m);
        }
    }
    routes
}

/// The route lists of the units as sequences.
pub open spec fn views(all: Seq<Vec<TradeRoute>>) -> Seq<Seq<TradeRoute>> {
    all.map_values(|v: Vec<TradeRoute>| v@)
}

/// The units with at least one candidate route, in order.
pub open spec fn non_empty(c: Seq<Seq<TradeRoute>>) -> Seq<Seq<TradeRoute>> {
    c.filter(|v: Seq<TradeRoute>| v.len() > 0)
}

/// There is a hexagon next to both `from` and `to` among the `passable` ones (inside the map,
/// explored and free of pirates).
pub open spec fn spec_safe_passage(from: Position, to: Position, passable: Seq<Position>) -> bool {
    exists|k: int| 0 <= k < passable.len() && hex_distance(from, #[trigger] passable[k]) == 1 && hex_distance(passable[k], to) == 1
}

/// Whether a route from `from` to `to` has a safe passage.
pub fn has_safe_passage(from: Position, to: Position, passable: &[Position]) -> (r: bool)
    ensures
        r == spec_safe_passage(from, to, passable@),
{
    let mut k: usize = 0;
    while k < passable.len()
        invariant
            0 <= k <= passable@.len(),
            forall|j: int| 0 <= j < k ==> !(hex_distance(from, #[trigger] passable@[j]) == 1 && hex_distance(passable@[j], to) == 1),
        decreases passable@.len() - k,
    {
        let p = passable[k];
        if from.is_neighbor(p) && p.is_neighbor(to) {
            return true;
        }
        k = k + 1;
    }
    false
}

/// The trade route of a unit to a city: only to a non-angry city of another player, at most
/// two steps away, from outside a pirate zone, with a safe passage between them.
pub fn find_trade_route_to_city(
    unit_id: u32,
    from: Position,
    player_index: usize,
    to: &City,
    from_is_pirate_zone: bool,
    passable: &[Position],
) -> (r: Option<TradeRoute>)
    ensures
        r == if to.player_index != player_index && to.mood_state != MoodState::Angry && hex_distance(
            from,
            to.position,
        ) <= 2 && !from_is_pirate_zone && spec_safe_passage(from, to.position, passable@) {
            Some(TradeRoute { unit_id, from, to: to.position })
        } else {
            None
        },
{
    if to.player_index == player_index {
        return None;
    }
    if to.mood_state == MoodState::Angry {
        return None;
    }
    if from.distance(to.position) > 2 {
        return None;
    }
    if from_is_pirate_zone {
        return None;
    }
    if !has_safe_passage(from, to.position, passable) {
        return None;
    }
    Some(TradeRoute { unit_id, from, to: to.position })
}

} // verus!
