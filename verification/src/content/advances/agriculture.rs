use vstd::prelude::*;

use crate::advance::{Advance, AdvanceBuilder, AdvanceInfo, Bonus};
use crate::collect::{choice_views, no_duplicate_piles, unique_piles, unique_positions, CollectInfo};
use crate::position::{hex_distance, Position};
use crate::resource_pile::ResourcePile;
use crate::content::advances::{advance_group_builder, group_is_content, lemma_content_entry, AdvanceGroup, AdvanceGroupInfo};

verus! {

/// The Agriculture group.
pub fn agriculture() -> (r: AdvanceGroupInfo)
    ensures
        group_is_content(r, 0),
{
    let v = vec![farming(), storage(), irrigation(), husbandry()];
    let ghost vs = v@;
    let r = advance_group_builder(AdvanceGroup::Agriculture, "Agriculture", v);
    proof {
        assert forall|k: int| 0 <= k < 4 implies (#[trigger] r.advances@[k]).advance == crate::advance::advance_at(0 + k) && crate::content::advances::info_is_content(r.advances@[k], k, crate::advance::advance_at(0)) by {
            lemma_content_entry(r.advances@[k], vs[k], k, vs[0].advance);
        }
    }
    r
}

fn farming() -> (b: AdvanceBuilder)
    ensures
        b.is_content_of(Advance::Farming),
{
    AdvanceInfo::builder(
        Advance::Farming,
        "Farming",
        "Your cities may Collect food from Grassland and wood from Forest spaces",
    )
}

fn storage() -> (b: AdvanceBuilder)
    ensures
        b.is_content_of(Advance::Storage),
{
    AdvanceInfo::builder(
        Advance::Storage,
        "Storage",
        "Your maximum food limit is increased from 2 to 7",
    )
    .with_advance_bonus(Bonus::MoodToken)
}

fn irrigation() -> (b: AdvanceBuilder)
    ensures
        b.is_content_of(Advance::Irrigation),
{
    AdvanceInfo::builder(
        Advance::Irrigation,
        "Irrigation",
        "Your cities may Collect food from Barren spaces, Ignore Famine events",
    )
    .with_advance_bonus(Bonus::MoodToken)
}

fn husbandry() -> (b: AdvanceBuilder)
    ensures
        b.is_content_of(Advance::Husbandry),
{
    AdvanceInfo::builder(
        Advance::Husbandry,
        "Husbandry",
        "During a Collect Resources Action, you may collect from a Land space that is 2 Land spaces away, rather than 1. If you have the Roads Advance you may collect from two Land spaces that are 2 Land spaces away. This Advance can only be used once per turn.",
    )
    .with_advance_bonus(Bonus::MoodToken)
}


/// The index of the first choice at `pos`, or -1.
pub open spec fn choice_index(choices: Seq<(Position, Seq<ResourcePile>)>, pos: Position) -> int
    decreases choices.len(),
{
    if choices.len() == 0 {
        -1
    } else {
        let r = choice_index(choices.drop_last(), pos);
        if r >= 0 {
            r
        } else if choices.last().0 == pos {
            choices.len() - 1
        } else {
            -1
        }
    }
}

/// The choices with the options at `pos` set to `options`.
pub open spec fn set_choice(
    choices: Seq<(Position, Seq<ResourcePile>)>,
    pos: Position,
    options: Seq<ResourcePile>,
) -> Seq<(Position, Seq<ResourcePile>)> {
    let i = choice_index(choices, pos);
    if i >= 0 {
        choices.update(i, (pos, options))
    } else {
        choices.push((pos, options))
    }
}

/// The choices after Husbandry adds the land hexagons two steps from `city`, in the order of
/// `land_tiles`.
pub open spec fn with_husbandry_choices(
    choices: Seq<(Position, Seq<ResourcePile>)>,
    land_tiles: Seq<(Position, Vec<ResourcePile>)>,
    city: Position,
) -> Seq<(Position, Seq<ResourcePile>)>
    decreases land_tiles.len(),
{
    if land_tiles.len() == 0 {
        choices
    } else {
        let c = with_husbandry_choices(choices, land_tiles.drop_last(), city);
        let t = land_tiles.last();
        if hex_distance(t.0, city) == 2 {
            set_choice(c, t.0, t.1@)
        } else {
            c
        }
    }
}

/// The index of the first choice at `pos`.
pub(crate) fn find_choice(choices: &Vec<(Position, Vec<ResourcePile>)>, pos: Position) -> (r: Option<usize>)
    ensures
        match r {
            Some(i) => i < choices@.len() && i == choice_index(choice_views(choices@), pos),
            None => choice_index(choice_views(choices@), pos) == -1,
        },
{
    let ghost v = choice_views(choices@);
    let mut i: usize = 0;
    while i < choices.len()
        invariant
            0 <= i <= choices@.len(),
            v == choice_views(choices@),
            choice_index(v.take(i as int), pos) == -1,
        decreases choices@.len() - i,
    {
        proof {
            assert(v.take(i as int + 1).drop_last() =~= v.take(i as int));
        }
        if choices[i].0 == pos {
            proof {
                lemma_choice_index_prefix(v, i as int + 1, pos);
            }
            return Some(i);
        }
        i = i + 1;
    }
    proof {
        assert(v.take(i as int) =~= v);
    }
    None
}

/// A choice found in a prefix is the first one in the whole sequence.
proof fn lemma_choice_index_prefix(v: Seq<(Position, Seq<ResourcePile>)>, n: int, pos: Position)
    requires
        0 <= n <= v.len(),
        choice_index(v.take(n), pos) >= 0,
    ensures
        choice_index(v, pos) == choice_index(v.take(n), pos),
    decreases v.len(),
{
    if n < v.len() {
        assert(v.drop_last().take(n) =~= v.take(n));
        lemma_choice_index_prefix(v.drop_last(), n, pos);
    } else {
        assert(v.take(n) =~= v);
    }
}

/// A copy of the options.
fn copy_options(v: &Vec<ResourcePile>) -> (r: Vec<ResourcePile>)
    ensures
        r@ == v@,
{
    let mut r: Vec<ResourcePile> = Vec::new();
    let mut i: usize = 0;
    while i < v.len()
        invariant
            0 <= i <= v@.len(),
            r@ == v@.take(i as int),
        decreases v@.len() - i,
    {
        r.push(v[i]);
        proof {
            assert(v@.take(i as int + 1) =~= v@.take(i as int).push(v@[i as int]));
        }
        i = i + 1;
    }
    proof {
        assert(v@.take(i as int) =~= v@);
    }
    r
}

/// Husbandry lets a city collect from land two steps away: from one such hexagon, or two with
/// Roads; the land hexagons two steps away become choices with the options of their terrain
/// (`land_tiles` lists the land hexagons of the map with these options).
pub fn husbandry_collect(info: &mut CollectInfo, roads: bool, land_tiles: &Vec<(Position, Vec<ResourcePile>)>)
    ensures
        final(info).max_range2_tiles == if roads { 2u8 } else { 1u8 },
        choice_views(final(info).choices@) == with_husbandry_choices(
            choice_views(old(info).choices@),
            land_tiles@,
            old(info).city,
        ),
        final(info).city == old(info).city,
        final(info).total == old(info).total,
        final(info).max_per_tile == old(info).max_per_tile,
        final(info).max_selection == old(info).max_selection,
        old(info).wf() && (forall|k: int| 0 <= k < land_tiles@.len() ==> no_duplicate_piles(
            #[trigger] land_tiles@[k].1@,
        )) ==> final(info).wf(),
{
    info.max_range2_tiles = if roads {
        2
    } else {
        1
    };
    let city = info.city;
    let ghost start = choice_views(info.choices@);
    let mut t: usize = 0;
    while t < land_tiles.len()
        invariant
            0 <= t <= land_tiles@.len(),
            city == info.city,
            info.city == old(info).city,
            info.total == old(info).total,
            info.max_per_tile == old(info).max_per_tile,
            info.max_selection == old(info).max_selection,
            info.max_range2_tiles == if roads { 2u8 } else { 1u8 },
            start == choice_views(old(info).choices@),
            choice_views(info.choices@) == with_husbandry_choices(start, land_tiles@.take(t as int), city),
        decreases land_tiles@.len() - t,
    {
        proof {
            assert(land_tiles@.take(t as int + 1).drop_last() =~= land_tiles@.take(t as int));
        }
        let pos = land_tiles[t].0;
        if pos.distance(city) == 2 {
            let options = copy_options(&land_tiles[t].1);
            let ghost before = choice_views(info.choices@);
            match find_choice(&info.choices, pos) {
                Some(i) => {
                    info.choices.set(i, (pos, options));
                    proof {
                        assert(choice_views(info.choices@) =~= before.update(i as int, (pos, options@)));
                    }
                },
                None => {
                    info.choices.push((pos, options));
                    proof {
                        assert(choice_views(info.choices@) =~= before.push((pos, options@)));
                    }
                },
            }
        }
        t = t + 1;
    }
    proof {
        assert(land_tiles@.take(t as int) =~= land_tiles@);
        if old(info).wf() {
            lemma_husbandry_unique(start, land_tiles@, city);
            if forall|k: int| 0 <= k < land_tiles@.len() ==> no_duplicate_piles(#[trigger] land_tiles@[k].1@) {
                lemma_husbandry_piles(start, land_tiles@, city);
            }
        }
    }
}

/// Where `choice_index` points: the first choice at `pos`, or no choice at `pos` at all.
pub proof fn lemma_choice_index(c: Seq<(Position, Seq<ResourcePile>)>, pos: Position)
    ensures
        -1 <= choice_index(c, pos) < c.len(),
        choice_index(c, pos) >= 0 ==> c[choice_index(c, pos)].0 == pos,
        choice_index(c, pos) == -1 ==> forall|k: int| 0 <= k < c.len() ==> #[trigger] c[k].0 != pos,
    decreases c.len(),
{
    if c.len() > 0 {
        lemma_choice_index(c.drop_last(), pos);
        if choice_index(c, pos) == -1 {
            assert forall|k: int| 0 <= k < c.len() implies #[trigger] c[k].0 != pos by {
                if k < c.len() - 1 {
                    assert(c[k] == c.drop_last()[k]);
                } else {
                    assert(c[k] == c.last());
                }
            }
        }
    }
}

/// Setting the options of a position keeps each position named once.
pub proof fn lemma_set_choice_unique(c: Seq<(Position, Seq<ResourcePile>)>, pos: Position, options: Seq<ResourcePile>)
    requires
        unique_positions(c),
    ensures
        unique_positions(set_choice(c, pos, options)),
{
    lemma_choice_index(c, pos);
    let i = choice_index(c, pos);
    let r = set_choice(c, pos, options);
    if i >= 0 {
        assert forall|a: int, b: int| 0 <= a < b < r.len() implies #[trigger] r[a].0 != #[trigger] r[b].0 by {
            assert(r[a].0 == c[a].0 && r[b].0 == c[b].0);
        }
    } else {
        assert forall|a: int, b: int| 0 <= a < b < r.len() implies #[trigger] r[a].0 != #[trigger] r[b].0 by {
            if b == c.len() {
                assert(r[a] == c[a]);
            } else {
                assert(r[a] == c[a] && r[b] == c[b]);
            }
        }
    }
}

/// Husbandry keeps each position of the choices named once.
pub proof fn lemma_husbandry_unique(
    c: Seq<(Position, Seq<ResourcePile>)>,
    land_tiles: Seq<(Position, Vec<ResourcePile>)>,
    city: Position,
)
    requires
        unique_positions(c),
    ensures
        unique_positions(with_husbandry_choices(c, land_tiles, city)),
    decreases land_tiles.len(),
{
    if land_tiles.len() > 0 {
        lemma_husbandry_unique(c, land_tiles.drop_last(), city);
        let t = land_tiles.last();
        lemma_set_choice_unique(with_husbandry_choices(c, land_tiles.drop_last(), city), t.0, t.1@);
    }
}

/// Setting options that list each pile once keeps every option list free of repeated piles.
pub proof fn lemma_set_choice_piles(c: Seq<(Position, Seq<ResourcePile>)>, pos: Position, options: Seq<ResourcePile>)
    requires
        unique_piles(c),
        no_duplicate_piles(options),
    ensures
        unique_piles(set_choice(c, pos, options)),
{
    lemma_choice_index(c, pos);
    let i = choice_index(c, pos);
    let r = set_choice(c, pos, options);
    assert forall|k: int| 0 <= k < r.len() implies no_duplicate_piles(#[trigger] r[k].1) by {
        if (i >= 0 && k == i) || (i < 0 && k == c.len()) {
            assert(r[k].1 == options);
        } else {
            assert(r[k] == c[k]);
        }
    }
}

/// Husbandry with land options that list each pile once keeps every option list free of
/// repeated piles.
pub proof fn lemma_husbandry_piles(
    c: Seq<(Position, Seq<ResourcePile>)>,
    land_tiles: Seq<(Position, Vec<ResourcePile>)>,
    city: Position,
)
    requires
        unique_piles(c),
        forall|k: int| 0 <= k < land_tiles.len() ==> no_duplicate_piles(#[trigger] land_tiles[k].1@),
    ensures
        unique_piles(with_husbandry_choices(c, land_tiles, city)),
    decreases land_tiles.len(),
{
    if land_tiles.len() > 0 {
        assert forall|k: int| 0 <= k < land_tiles.drop_last().len() implies no_duplicate_piles(
            #[trigger] land_tiles.drop_last()[k].1@,
        ) by {
            assert(land_tiles.drop_last()[k] == land_tiles[k]);
        }
        lemma_husbandry_piles(c, land_tiles.drop_last(), city);
        let t = land_tiles.last();
        assert(no_duplicate_piles(land_tiles[land_tiles.len() - 1].1@));
        lemma_set_choice_piles(with_husbandry_choices(c, land_tiles.drop_last(), city), t.0, t.1@);
    }
}

} // verus!
