use vstd::prelude::*;

use crate::advance::{Advance, AdvanceBuilder, AdvanceInfo, Bonus};
use crate::collect::{choice_views, CollectInfo};
use crate::content::advances::agriculture::{find_choice, lemma_set_choice_piles, lemma_set_choice_unique, set_choice};
use crate::position::{has_neighbors_in_range, spec_neighbors, Position};
use crate::resource_pile::{empty_pile, ResourcePile};
use crate::city_pieces::Building;
use crate::content::advances::{advance_group_builder, group_is_content, lemma_content_entry, AdvanceGroup, AdvanceGroupInfo};

verus! {

/// The Seafaring group.
pub fn seafaring() -> (r: AdvanceGroupInfo)
    ensures
        group_is_content(r, 2),
{
    let v = vec![fishing(), navigation(), war_ships(), cartography()];
    let ghost vs = v@;
    let r = advance_group_builder(AdvanceGroup::Seafaring, "Seafaring", v);
    proof {
        assert forall|k: int| 0 <= k < 4 implies (#[trigger] r.advances@[k]).advance == crate::advance::advance_at(8 + k) && crate::content::advances::info_is_content(r.advances@[k], k, crate::advance::advance_at(8)) by {
            lemma_content_entry(r.advances@[k], vs[k], k, vs[0].advance);
        }
    }
    r
}

fn fishing() -> (b: AdvanceBuilder)
    ensures
        b.is_content_of(Advance::Fishing),
{
    AdvanceInfo::builder(
        Advance::Fishing,
        "Fishing",
        "Your cities may Collect food from one Sea space",
    )
    .with_advance_bonus(Bonus::MoodToken)
    .with_unlocked_building(Building::Port)
}

fn navigation() -> (b: AdvanceBuilder)
    ensures
        b.is_content_of(Advance::Navigation),
{
    AdvanceInfo::builder(
        Advance::Navigation,
        "Navigation",
        "Ships may leave the map and return at the next sea space",
    )
    .with_advance_bonus(Bonus::CultureToken)
}

fn war_ships() -> (b: AdvanceBuilder)
    ensures
        b.is_content_of(Advance::WarShips),
{
    AdvanceInfo::builder(
        Advance::WarShips,
        "WarShips",
        "Ignore the first hit it the first round of combat when attacking with Ships or disembarking from Ships",
    )
}

fn cartography() -> (b: AdvanceBuilder)
    ensures
        b.is_content_of(Advance::Cartography),
{
    AdvanceInfo::builder(
        Advance::Cartography,
        "Cartography",
        "Gain 1 idea after a move action where you moved a Ship. If you used navigation, gain an additional 1 culture token.",
    )
    .with_advance_bonus(Bonus::CultureToken)
}


/// The first of `ns` that is sea and free of enemies and pirates.
pub open spec fn first_free_sea(ns: Seq<Position>, sea: Seq<Position>, blocked: Seq<Position>) -> Option<Position>
    decreases ns.len(),
{
    if ns.len() == 0 {
        None
    } else if sea.contains(ns[0]) && !blocked.contains(ns[0]) {
        Some(ns[0])
    } else {
        first_free_sea(ns.drop_first(), sea, blocked)
    }
}

/// Where a city collects from the sea: its port, unless an enemy or pirates are there, or
/// else the first free sea hexagon next to it; nowhere without Fishing and port.
pub open spec fn fishing_position(
    city: Position,
    port: Option<Position>,
    fishing: bool,
    sea: Seq<Position>,
    blocked: Seq<Position>,
) -> Option<Position> {
    if !fishing && port is None {
        None
    } else {
        match port {
            Some(p) if !blocked.contains(p) => Some(p),
            _ => first_free_sea(spec_neighbors(city), sea, blocked),
        }
    }
}

/// What can be collected from the sea hexagon `pos`: at the port gold or mood, and food too
/// with Fishing; elsewhere food with Fishing, nothing without.
pub open spec fn fishing_options(pos: Position, port: Option<Position>, fishing: bool) -> Seq<ResourcePile> {
    let food = ResourcePile { food: 1, ..empty_pile() };
    let gold = ResourcePile { gold: 1, ..empty_pile() };
    let mood = ResourcePile { mood_tokens: 1, ..empty_pile() };
    if port == Some(pos) {
        if fishing {
            seq![food, gold, mood]
        } else {
            seq![gold, mood]
        }
    } else if fishing {
        seq![food]
    } else {
        Seq::empty()
    }
}

/// Whether `p` is one of `positions`.
fn listed(positions: &[Position], p: Position) -> (r: bool)
    ensures
        r == positions@.contains(p),
{
    let mut i: usize = 0;
    while i < positions.len()
        invariant
            0 <= i <= positions@.len(),
            forall|k: int| 0 <= k < i ==> positions@[k] != p,
        decreases positions@.len() - i,
    {
        if positions[i] == p {
            return true;
        }
        i = i + 1;
    }
    false
}

/// With Fishing or a port a city collects from the sea: the port, unless an enemy or pirates
/// are there, or else the first free sea hexagon next to the city becomes a choice (`sea`
/// lists the sea hexagons, `blocked` those with enemy units or in a pirate zone).
pub fn fishing_collect(
    info: &mut CollectInfo,
    port: Option<Position>,
    fishing: bool,
    sea: &[Position],
    blocked: &[Position],
)
    requires
        has_neighbors_in_range(old(info).city),
    ensures
        choice_views(final(info).choices@) == match fishing_position(old(info).city, port, fishing, sea@, blocked@) {
            Some(p) => set_choice(choice_views(old(info).choices@), p, fishing_options(p, port, fishing)),
            None => choice_views(old(info).choices@),
        },
        final(info).city == old(info).city,
        final(info).total == old(info).total,
        final(info).max_per_tile == old(info).max_per_tile,
        final(info).max_selection == old(info).max_selection,
        final(info).max_range2_tiles == old(info).max_range2_tiles,
        old(info).wf() ==> final(info).wf(),
{
    proof {
        if old(info).wf() {
            match fishing_position(old(info).city, port, fishing, sea@, blocked@) {
                Some(p) => {
                    lemma_set_choice_unique(
                        choice_views(old(info).choices@),
                        p,
                        fishing_options(p, port, fishing),
                    );
                    lemma_set_choice_piles(
                        choice_views(old(info).choices@),
                        p,
                        fishing_options(p, port, fishing),
                    );
                },
                None => {},
            }
        }
    }
    if !fishing && port.is_none() {
        return;
    }
    let mut position: Option<Position> = None;
    match port {
        Some(p) => {
            if !listed(blocked, p) {
                position = Some(p);
            }
        },
        None => {},
    }
    if position.is_none() {
        let ns = info.city.neighbors();
        let mut i: usize = 0;
        proof {
            assert(ns@.skip(0) =~= ns@);
        }
        while position.is_none() && i < ns.len()
            invariant
                0 <= i <= ns@.len(),
                ns@ == spec_neighbors(info.city),
                position is None ==> first_free_sea(ns@, sea@, blocked@) == first_free_sea(ns@.skip(i as int), sea@, blocked@),
                position is Some ==> position == first_free_sea(ns@, sea@, blocked@),
            decreases ns@.len() - i,
        {
            proof {
                assert(ns@.skip(i as int).drop_first() =~= ns@.skip(i as int + 1));
            }
            let n = ns[i];
            if listed(sea, n) && !listed(blocked, n) {
                position = Some(n);
            }
            i = i + 1;
        }
        proof {
            if position is None {
                assert(ns@.skip(i as int) =~= Seq::<Position>::empty());
            }
        }
    }
    assert(position == fishing_position(info.city, port, fishing, sea@, blocked@));
    match position {
        Some(p) => {
            let options: Vec<ResourcePile> = if port == Some(p) {
                if fishing {
                    vec![ResourcePile::food(1), ResourcePile::gold(1), ResourcePile::mood_tokens(1)]
                } else {
                    vec![ResourcePile::gold(1), ResourcePile::mood_tokens(1)]
                }
            } else if fishing {
                vec![ResourcePile::food(1)]
            } else {
                Vec::new()
            };
            assert(options@ == fishing_options(p, port, fishing));
            let ghost before = choice_views(info.choices@);
            match find_choice(&info.choices, p) {
                Some(i) => {
                    info.choices.set(i, (p, options));
                    proof {
                        assert(choice_views(info.choices@) =~= before.update(i as int, (p, options@)));
                    }
                },
                None => {
                    info.choices.push((p, options));
                    proof {
                        assert(choice_views(info.choices@) =~= before.push((p, options@)));
                    }
                },
            }
        },
        None => {},
    }
}

} // verus!
