use vstd::prelude::*;

use crate::collect::{no_duplicate_piles, unique_piles};
use crate::position::Position;
use crate::resource_pile::{empty_pile, ResourcePile};

verus! {

/// The terrain of a hexagon of the map.
#[derive(Clone, Copy, Debug, PartialEq, Eq, Structural)]
pub enum Terrain {
    Barren,
    Mountain,
    Fertile,
    Forest,
    Exhausted,
    Water,
}

/// The options of a terrain, seen as sequences.
pub open spec fn terrain_views(t: Seq<(Terrain, Vec<ResourcePile>)>) -> Seq<(Terrain, Seq<ResourcePile>)> {
    t.map_values(|x: (Terrain, Vec<ResourcePile>)| (x.0, x.1@))
}

/// What each terrain gives to collect: a mountain one ore, fertile land one food, a forest
/// one wood; the other terrains give nothing.
pub open spec fn spec_base_terrain_options() -> Seq<(Terrain, Seq<ResourcePile>)> {
    seq![
        (Terrain::Mountain, seq![ResourcePile { ore: 1, ..empty_pile() }]),
        (Terrain::Fertile, seq![ResourcePile { food: 1, ..empty_pile() }]),
        (Terrain::Forest, seq![ResourcePile { wood: 1, ..empty_pile() }]),
    ]
}

/// What each terrain gives to collect, before abilities change it.
pub fn base_terrain_options() -> (r: Vec<(Terrain, Vec<ResourcePile>)>)
    ensures
        terrain_views(r@) == spec_base_terrain_options(),
{
    let ore = vec![ResourcePile::ore(1)];
    let food = vec![ResourcePile::food(1)];
    let wood = vec![ResourcePile::wood(1)];
    assert(ore@ =~= seq![ResourcePile { ore: 1, ..empty_pile() }]);
    assert(food@ =~= seq![ResourcePile { food: 1, ..empty_pile() }]);
    assert(wood@ =~= seq![ResourcePile { wood: 1, ..empty_pile() }]);
    let r = vec![(Terrain::Mountain, ore), (Terrain::Fertile, food), (Terrain::Forest, wood)];
    proof {
        assert(terrain_views(r@) =~= spec_base_terrain_options());
    }
    r
}

/// The options of terrain `t`: those of its first entry.
pub open spec fn options_of_terrain(opts: Seq<(Terrain, Seq<ResourcePile>)>, t: Terrain) -> Option<Seq<ResourcePile>>
    decreases opts.len(),
{
    if opts.len() == 0 {
        None
    } else if opts[0].0 == t {
        Some(opts[0].1)
    } else {
        options_of_terrain(opts.drop_first(), t)
    }
}

/// The hexagons of the map whose terrain has options, with those options, in the order of
/// the map.
pub open spec fn spec_hex_options(
    map: Seq<(Position, Terrain)>,
    opts: Seq<(Terrain, Seq<ResourcePile>)>,
) -> Seq<(Position, Seq<ResourcePile>)>
    decreases map.len(),
{
    if map.len() == 0 {
        seq![]
    } else {
        let rest = spec_hex_options(map.drop_last(), opts);
        match options_of_terrain(opts, map.last().1) {
            Some(o) => rest.push((map.last().0, o)),
            None => rest,
        }
    }
}

fn copy_piles(v: &Vec<ResourcePile>) -> (r: Vec<ResourcePile>)
    ensures
        r@ == v@,
{
    let mut r: Vec<ResourcePile> = Vec::new();
    let mut i: usize = 0;
    while i < v.len()
        invariant
            i <= v@.len(),
            r@ == v@.take(i as int),
        decreases v@.len() - i,
    {
        r.push(v[i]);
        proof {
            assert(v@.take(i as int + 1) =~= v@.take(i as int).push(v@[i as int]));
        }
        i = i + 1;
    }
    proof {
        assert(v@.take(i as int) =~= v@);
    }
    r
}

/// The options of terrain `t`.
fn terrain_options_for(opts: &Vec<(Terrain, Vec<ResourcePile>)>, t: Terrain) -> (r: Option<Vec<ResourcePile>>)
    ensures
        match options_of_terrain(terrain_views(opts@), t) {
            Some(o) => r matches Some(v) && v@ == o,
            None => r is None,
        },
{
    let ghost tv = terrain_views(opts@);
    let mut i: usize = 0;
    proof {
        assert(tv.skip(0) =~= tv);
    }
    while i < opts.len()
        invariant
            i <= opts@.len(),
            tv == terrain_views(opts@),
            options_of_terrain(tv, t) == options_of_terrain(tv.skip(i as int), t),
        decreases opts@.len() - i,
    {
        proof {
            assert(tv.skip(i as int)[0] == tv[i as int]);
        }
        if opts[i].0 == t {
            return Some(copy_piles(&opts[i].1));
        }
        proof {
            assert(tv.skip(i as int).drop_first() =~= tv.skip(i as int + 1));
        }
        i = i + 1;
    }
    None
}

/// The options of the hexagons of the map (given as positions with their terrain) by their
/// terrain (see `spec_hex_options`).
pub fn hex_options(map: &[(Position, Terrain)], opts: &Vec<(Terrain, Vec<ResourcePile>)>) -> (r: Vec<
    (Position, Vec<ResourcePile>),
>)
    ensures
        r@.map_values(|x: (Position, Vec<ResourcePile>)| (x.0, x.1@)) == spec_hex_options(
            map@,
            terrain_views(opts@),
        ),
{
    let ghost tv = terrain_views(opts@);
    let mut r: Vec<(Position, Vec<ResourcePile>)> = Vec::new();
    let mut i: usize = 0;
    while i < map.len()
        invariant
            i <= map@.len(),
            tv == terrain_views(opts@),
            r@.map_values(|x: (Position, Vec<ResourcePile>)| (x.0, x.1@)) == spec_hex_options(
                map@.take(i as int),
                tv,
            ),
        decreases map@.len() - i,
    {
        proof {
            assert(map@.take(i as int + 1).drop_last() =~= map@.take(i as int));
        }
        let (p, t) = map[i];
        let ghost before = r@;
        match terrain_options_for(opts, t) {
            Some(o) => {
                r.push((p, o));
                proof {
                    assert(r@.map_values(|x: (Position, Vec<ResourcePile>)| (x.0, x.1@)) =~= before.map_values(
                        |x: (Position, Vec<ResourcePile>)| (x.0, x.1@),
                    ).push((p, o@)));
                }
            },
            None => {},
        }
        i = i + 1;
    }
    proof {
        assert(map@.take(i as int) =~= map@);
    }
    r
}

/// The options of each terrain list each pile once.
pub open spec fn terrain_lists_unique(opts: Seq<(Terrain, Seq<ResourcePile>)>) -> bool {
    forall|k: int| 0 <= k < opts.len() ==> no_duplicate_piles(#[trigger] opts[k].1)
}

/// The options of a terrain are those of an entry.
proof fn lemma_options_of_terrain_entry(opts: Seq<(Terrain, Seq<ResourcePile>)>, t: Terrain)
    ensures
        options_of_terrain(opts, t) matches Some(o) ==> exists|k: int| 0 <= k < opts.len() && #[trigger] opts[k].1 == o,
    decreases opts.len(),
{
    if opts.len() > 0 && opts[0].0 != t {
        lemma_options_of_terrain_entry(opts.drop_first(), t);
        if options_of_terrain(opts, t) is Some {
            let k = choose|k: int| 0 <= k < opts.drop_first().len() && #[trigger] opts.drop_first()[k].1
                == options_of_terrain(opts, t)->0;
            assert(opts[k + 1] == opts.drop_first()[k]);
        }
    } else if opts.len() > 0 {
        assert(opts[0].1 == opts[0].1);
    }
}

/// Options of the map taken from terrain options that list each pile once list each pile once.
pub proof fn lemma_hex_options_piles(map: Seq<(Position, Terrain)>, opts: Seq<(Terrain, Seq<ResourcePile>)>)
    requires
        terrain_lists_unique(opts),
    ensures
        unique_piles(spec_hex_options(map, opts)),
    decreases map.len(),
{
    if map.len() > 0 {
        lemma_hex_options_piles(map.drop_last(), opts);
        lemma_options_of_terrain_entry(opts, map.last().1);
        let rest = spec_hex_options(map.drop_last(), opts);
        match options_of_terrain(opts, map.last().1) {
            Some(o) => {
                let k = choose|k: int| 0 <= k < opts.len() && #[trigger] opts[k].1 == o;
                assert(no_duplicate_piles(opts[k].1));
                assert forall|j: int| 0 <= j < rest.len() + 1 implies no_duplicate_piles(
                    #[trigger] rest.push((map.last().0, o))[j].1,
                ) by {
                    if j < rest.len() {
                        assert(rest.push((map.last().0, o))[j] == rest[j]);
                    }
                }
            },
            None => {},
        }
    }
}

} // verus!
