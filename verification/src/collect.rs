use vstd::prelude::*;

use crate::city::{activate_city, activated, spec_mood_modified_size, City};
use crate::position::{has_neighbors_in_range, hex_distance, spec_neighbors, Position};
use crate::resource_pile::{empty_pile, ResourcePile};
use crate::map::{
    base_terrain_options, hex_options, lemma_hex_options_piles, spec_base_terrain_options, spec_hex_options,
    terrain_lists_unique, terrain_views, Terrain,
};

verus! {

/// Resources collected from one position, possibly several times.
#[derive(Clone, Copy, Debug, PartialEq, Eq, Structural)]
pub struct PositionCollection {
    pub position: Position,
    pub pile: ResourcePile,
    pub times: u8,
}

impl PositionCollection {
    pub fn new(position: Position, pile: ResourcePile) -> (r: PositionCollection)
        ensures
            r == (PositionCollection { position, pile, times: 1 }),
    {
        PositionCollection { position, pile, times: 1 }
    }

    /// The same collection, taken `times` times.
    pub fn times(&self, times: u8) -> (r: PositionCollection)
        ensures
            r == (PositionCollection { position: self.position, pile: self.pile, times }),
    {
        PositionCollection { position: self.position, pile: self.pile, times }
    }

    /// The resources of all repetitions.
    pub fn total(&self) -> (r: ResourcePile)
        requires
            self.pile.can_times(self.times),
        ensures
            r == self.pile.spec_times(self.times),
    {
        self.pile.times(self.times)
    }
}

/// The total number of collections.
pub open spec fn sum_times(cs: Seq<PositionCollection>) -> nat
    decreases cs.len(),
{
    if cs.len() == 0 {
        0
    } else {
        sum_times(cs.drop_last()) + cs.last().times as nat
    }
}

/// The number of tiles used by a collect action.
pub fn tiles_used(collections: &[PositionCollection]) -> (r: u8)
    requires
        sum_times(collections@) <= u8::MAX,
    ensures
        r == sum_times(collections@),
{
    let mut sum: u8 = 0;
    let mut i: usize = 0;
    while i < collections.len()
        invariant
            0 <= i <= collections@.len(),
            sum == sum_times(collections@.take(i as int)),
            sum_times(collections@) <= u8::MAX,
        decreases collections@.len() - i,
    {
        proof {
            assert(collections@.take(i as int + 1).drop_last() =~= collections@.take(i as int));
            lemma_sum_times_prefix(collections@, i as int + 1);
        }
        sum = sum + collections[i].times;
        i = i + 1;
    }
    proof {
        assert(collections@.take(collections@.len() as int) =~= collections@);
    }
    sum
}

/// A prefix never has more collections than the whole sequence.
pub proof fn lemma_sum_times_prefix(cs: Seq<PositionCollection>, n: int)
    requires
        0 <= n <= cs.len(),
    ensures
        sum_times(cs.take(n)) <= sum_times(cs),
    decreases cs.len(),
{
    if n < cs.len() {
        assert(cs.drop_last().take(n) =~= cs.take(n));
        lemma_sum_times_prefix(cs.drop_last(), n);
    } else {
        assert(cs.take(n) =~= cs);
    }
}

/// The collection options of a city, decided when the collect action starts.
#[derive(Clone, Debug)]
pub struct CollectInfo {
    pub choices: Vec<(Position, Vec<ResourcePile>)>,
    pub city: Position,
    pub total: ResourcePile,
    pub max_per_tile: u8,
    pub max_selection: u8,
    pub max_range2_tiles: u8,
}

impl CollectInfo {
    /// A collect action in `city` of size `max_selection`, one collection per tile, none
    /// from two tiles away.
    pub fn new(choices: Vec<(Position, Vec<ResourcePile>)>, city: Position, max_selection: u8) -> (r: CollectInfo)
        ensures
            r.choices@ == choices@,
            r.city == city,
            r.total == empty_pile(),
            r.max_per_tile == 1,
            r.max_selection == max_selection,
            r.max_range2_tiles == 0,
    {
        CollectInfo {
            choices,
            city,
            total: ResourcePile::empty(),
            max_per_tile: 1,
            max_selection,
            max_range2_tiles: 0,
        }
    }
}

/// The piles that may be collected at `pos`: those of the first choice entry for `pos`.
pub open spec fn options_at(choices: Seq<(Position, Vec<ResourcePile>)>, pos: Position) -> Option<Seq<ResourcePile>>
    decreases choices.len(),
{
    if choices.len() == 0 {
        None
    } else if choices[0].0 == pos {
        Some(choices[0].1@)
    } else {
        options_at(choices.drop_first(), pos)
    }
}

/// `c` may be collected given the choices.
pub open spec fn allowed(choices: Seq<(Position, Vec<ResourcePile>)>, c: PositionCollection) -> bool {
    match options_at(choices, c.position) {
        Some(opts) => opts.contains(c.pile),
        None => false,
    }
}

/// The number of collections two or more steps from the city.
pub open spec fn count_range2(cs: Seq<PositionCollection>, city: Position) -> nat
    decreases cs.len(),
{
    if cs.len() == 0 {
        0
    } else {
        count_range2(cs.drop_last(), city) + if hex_distance(cs.last().position, city) > 1 { 1nat } else { 0nat }
    }
}

/// The collections of the run of equal positions that ends at index `i` (runs are taken
/// as they stand in the sequence, one after another).
pub open spec fn run_sum(cs: Seq<PositionCollection>, i: int) -> nat
    decreases i,
{
    if i < 0 || i >= cs.len() {
        0
    } else if i > 0 && cs[i - 1].position == cs[i].position {
        run_sum(cs, i - 1) + cs[i].times as nat
    } else {
        cs[i].times as nat
    }
}

/// Some run of equal positions collects more than `max` times.
pub open spec fn some_run_exceeds(cs: Seq<PositionCollection>, max: u8) -> bool {
    exists|i: int| 0 <= i < cs.len() && #[trigger] run_sum(cs, i) > max
}

/// The resources of all collections.
pub open spec fn total_of(c: PositionCollection) -> ResourcePile {
    c.pile.spec_times(c.times)
}

/// The resources of all collections, summed in order; `None` for no collection.
pub open spec fn spec_sum(cs: Seq<PositionCollection>) -> Option<ResourcePile>
    decreases cs.len(),
{
    if cs.len() == 0 {
        None
    } else {
        match spec_sum(cs.drop_last()) {
            None => Some(total_of(cs.last())),
            Some(s) => Some(s.spec_add(&total_of(cs.last()))),
        }
    }
}

/// Every repetition and every partial sum fits within `u8`.
pub open spec fn sum_fits(cs: Seq<PositionCollection>) -> bool
    decreases cs.len(),
{
    if cs.len() == 0 {
        true
    } else {
        &&& sum_fits(cs.drop_last())
        &&& cs.last().pile.can_times(cs.last().times)
        &&& match spec_sum(cs.drop_last()) {
            None => true,
            Some(s) => s.can_add(&total_of(cs.last())),
        }
    }
}

/// Why a collection is refused.
#[derive(Clone, Copy, Debug, PartialEq, Eq, Structural)]
pub enum CollectError {
    NotYourCity,
    TooManyTiles { max: u8, got: u8 },
    TooManyRange2Tiles { max: u8, count: usize },
    TooManyPerTile { max: u8 },
    NotAnOption { position: Position },
    NothingCollected,
    CityCannotActivate,
}

/// Sums the resources of the collections.
pub fn apply_total_collect(collections: &[PositionCollection], info: CollectInfo) -> (r: Result<CollectInfo, CollectError>)
    requires
        sum_fits(collections@),
    ensures
        match spec_sum(collections@) {
            None => r == Err::<CollectInfo, CollectError>(CollectError::NothingCollected),
            Some(t) => r matches Ok(i) && i.total == t && i.choices@ == info.choices@ && i.city == info.city
                && i.max_per_tile == info.max_per_tile && i.max_selection == info.max_selection
                && i.max_range2_tiles == info.max_range2_tiles,
        },
{
    let mut total: Option<ResourcePile> = None;
    let mut i: usize = 0;
    while i < collections.len()
        invariant
            0 <= i <= collections@.len(),
            sum_fits(collections@),
            total == spec_sum(collections@.take(i as int)),
        decreases collections@.len() - i,
    {
        proof {
            assert(collections@.take(i as int + 1).drop_last() =~= collections@.take(i as int));
            lemma_sum_fits_prefix(collections@, i as int + 1);
        }
        let t = collections[i].total();
        total = match total {
            None => Some(t),
            Some(s) => Some(s.add(&t)),
        };
        i = i + 1;
    }
    proof {
        assert(collections@.take(collections@.len() as int) =~= collections@);
    }
    match total {
        None => Err(CollectError::NothingCollected),
        Some(t) => {
            let mut info = info;
            info.total = t;
            Ok(info)
        },
    }
}

/// Sums that fit for a sequence fit for its prefixes.
pub proof fn lemma_sum_fits_prefix(cs: Seq<PositionCollection>, n: int)
    requires
        0 <= n <= cs.len(),
        sum_fits(cs),
    ensures
        sum_fits(cs.take(n)),
    decreases cs.len(),
{
    if n < cs.len() {
        assert(cs.drop_last().take(n) =~= cs.take(n));
        lemma_sum_fits_prefix(cs.drop_last(), n);
    } else {
        assert(cs.take(n) =~= cs);
    }
}

/// The piles that may be collected at `pos`.
fn options_for(choices: &Vec<(Position, Vec<ResourcePile>)>, pos: Position) -> (r: Option<&Vec<ResourcePile>>)
    ensures
        match options_at(choices@, pos) {
            Some(o) => r matches Some(v) && v@ == o,
            None => r is None,
        },
{
    let mut i: usize = 0;
    proof {
        assert(choices@.skip(0) =~= choices@);
    }
    while i < choices.len()
        invariant
            0 <= i <= choices@.len(),
            options_at(choices@, pos) == options_at(choices@.skip(i as int), pos),
        decreases choices@.len() - i,
    {
        proof {
            assert(choices@.skip(i as int).drop_first() =~= choices@.skip(i as int + 1));
        }
        if choices[i].0 == pos {
            return Some(&choices[i].1);
        }
        i = i + 1;
    }
    None
}

/// Whether `pile` is one of `options`.
fn contains_pile(options: &Vec<ResourcePile>, pile: &ResourcePile) -> (r: bool)
    ensures
        r == options@.contains(*pile),
{
    let mut i: usize = 0;
    while i < options.len()
        invariant
            0 <= i <= options@.len(),
            forall|k: int| 0 <= k < i ==> options@[k] != *pile,
        decreases options@.len() - i,
    {
        if options[i] == *pile {
            return true;
        }
        i = i + 1;
    }
    false
}

/// `k` is the first collection that the choices do not allow.
pub open spec fn first_not_allowed(
    choices: Seq<(Position, Vec<ResourcePile>)>,
    cs: Seq<PositionCollection>,
    k: int,
) -> bool {
    &&& 0 <= k < cs.len()
    &&& !allowed(choices, cs[k])
    &&& forall|j: int| 0 <= j < k ==> #[trigger] allowed(choices, cs[j])
}

/// Why a collect action is refused, checked in this order: the city is not the player's,
/// too many tiles, too many tiles two steps away, too much from one tile, a collection
/// that is not an option (the first one), nothing collected. `None` when it is accepted.
pub open spec fn collect_refusal(
    info: CollectInfo,
    player_index: usize,
    city_owner: usize,
    cs: Seq<PositionCollection>,
) -> Option<CollectError> {
    if city_owner != player_index {
        Some(CollectError::NotYourCity)
    } else if info.max_selection < sum_times(cs) {
        Some(CollectError::TooManyTiles { max: info.max_selection, got: sum_times(cs) as u8 })
    } else if count_range2(cs, info.city) > info.max_range2_tiles {
        Some(
            CollectError::TooManyRange2Tiles {
                max: info.max_range2_tiles,
                count: count_range2(cs, info.city) as usize,
            },
        )
    } else if some_run_exceeds(cs, info.max_per_tile) {
        Some(CollectError::TooManyPerTile { max: info.max_per_tile })
    } else if exists|k: int| first_not_allowed(info.choices@, cs, k) {
        let k = choose|k: int| first_not_allowed(info.choices@, cs, k);
        Some(CollectError::NotAnOption { position: cs[k].position })
    } else if spec_sum(cs) is None {
        Some(CollectError::NothingCollected)
    } else {
        None
    }
}

/// Only one collection is the first one not allowed.
pub proof fn lemma_first_not_allowed_unique(
    choices: Seq<(Position, Vec<ResourcePile>)>,
    cs: Seq<PositionCollection>,
    a: int,
    b: int,
)
    requires
        first_not_allowed(choices, cs, a),
        first_not_allowed(choices, cs, b),
    ensures
        a == b,
{
    if a < b {
        assert(allowed(choices, cs[a]));
    } else if b < a {
        assert(allowed(choices, cs[b]));
    }
}

/// Checks a collect action against the options of the city and sums its resources.
/// `city_owner` is the owner of the city at the collect position.
#[verifier::loop_isolation(false)]
pub fn get_total_collection(
    info: CollectInfo,
    player_index: usize,
    city_owner: usize,
    collections: &[PositionCollection],
) -> (r: Result<CollectInfo, CollectError>)
    requires
        sum_times(collections@) <= u8::MAX,
        sum_fits(collections@),
    ensures
        match collect_refusal(info, player_index, city_owner, collections@) {
            Some(e) => r == Err::<CollectInfo, CollectError>(e),
            None => r matches Ok(i) && spec_sum(collections@) == Some(i.total) && i.choices@
                == info.choices@ && i.city == info.city && i.max_per_tile == info.max_per_tile
                && i.max_selection == info.max_selection && i.max_range2_tiles
                == info.max_range2_tiles,
        },
{
    if city_owner != player_index {
        return Err(CollectError::NotYourCity);
    }
    let used = tiles_used(collections);
    if info.max_selection < used {
        return Err(CollectError::TooManyTiles { max: info.max_selection, got: used });
    }
    let mut range2_tiles: usize = 0;
    let mut i: usize = 0;
    while i < collections.len()
        invariant
            0 <= i <= collections@.len(),
            range2_tiles == count_range2(collections@.take(i as int), info.city),
            range2_tiles <= i,
        decreases collections@.len() - i,
    {
        proof {
            assert(collections@.take(i as int + 1).drop_last() =~= collections@.take(i as int));
        }
        if collections[i].position.distance(info.city) > 1 {
            range2_tiles = range2_tiles + 1;
        }
        i = i + 1;
    }
    proof {
        assert(collections@.take(collections@.len() as int) =~= collections@);
    }
    if range2_tiles > info.max_range2_tiles as usize {
        return Err(CollectError::TooManyRange2Tiles { max: info.max_range2_tiles, count: range2_tiles });
    }
    let mut i: usize = 0;
    let mut run: u32 = 0;
    while i < collections.len()
        invariant
            0 <= i <= collections@.len(),
            sum_times(collections@) <= u8::MAX,
            i > 0 ==> run == run_sum(collections@, i - 1),
            forall|k: int| 0 <= k < i ==> #[trigger] run_sum(collections@, k) <= info.max_per_tile,
        decreases collections@.len() - i,
    {
        proof {
            lemma_run_sum_bound(collections@, i as int);
        }
        if i > 0 && collections[i - 1].position == collections[i].position {
            run = run + collections[i].times as u32;
        } else {
            run = collections[i].times as u32;
        }
        if run > info.max_per_tile as u32 {
            return Err(CollectError::TooManyPerTile { max: info.max_per_tile });
        }
        i = i + 1;
    }
    let mut i: usize = 0;
    while i < collections.len()
        invariant
            0 <= i <= collections@.len(),
            forall|k: int| 0 <= k < i ==> #[trigger] allowed(info.choices@, collections@[k]),
        decreases collections@.len() - i,
    {
        let c = collections[i];
        let ok = match options_for(&info.choices, c.position) {
            Some(options) => contains_pile(options, &c.pile),
            None => false,
        };
        assert(ok == allowed(info.choices@, collections@[i as int]));
        if !ok {
            proof {
                assert(first_not_allowed(info.choices@, collections@, i as int));
                let k = choose|k: int| first_not_allowed(info.choices@, collections@, k);
                lemma_first_not_allowed_unique(info.choices@, collections@, k, i as int);
            }
            return Err(CollectError::NotAnOption { position: c.position });
        }
        i = i + 1;
    }
    apply_total_collect(collections, info)
}

/// What a collect action gives: the resources, and whether a tile two or more steps from
/// the city was used (only then is a husbandry entry kept in the record of the action).
#[derive(Clone, Copy, Debug, PartialEq, Eq, Structural)]
pub struct Collected {
    pub total: ResourcePile,
    pub range2_used: bool,
}

/// Executes a collect action in `city`: the collections are checked as
/// `get_total_collection` checks them (the owner being the city's), a city that cannot be
/// activated is refused, and otherwise the city is activated and what was collected is
/// returned.
pub fn execute_collect(
    city: &mut City,
    info: CollectInfo,
    player_index: usize,
    collections: &[PositionCollection],
) -> (r: Result<Collected, CollectError>)
    requires
        sum_times(collections@) <= u8::MAX,
        sum_fits(collections@),
        old(city).activations < u32::MAX,
    ensures
        match collect_refusal(info, player_index, old(city).player_index, collections@) {
            Some(e) => r == Err::<Collected, CollectError>(e) && *final(city) == *old(city),
            None => if old(city).can_activate_spec() {
                r matches Ok(c) && spec_sum(collections@) == Some(c.total) && c.range2_used == (
                count_range2(collections@, old(city).position) > 0) && activated(
                    *old(city),
                    *final(city),
                )
            } else {
                r == Err::<Collected, CollectError>(CollectError::CityCannotActivate) && *final(city)
                    == *old(city)
            },
        },
{
    let owner = city.player_index;
    let i = match get_total_collection(info, player_index, owner, collections) {
        Ok(i) => i,
        Err(e) => return Err(e),
    };
    if !city.can_activate() {
        return Err(CollectError::CityCannotActivate);
    }
    activate_city(city);
    let mut range2: usize = 0;
    let mut k: usize = 0;
    while k < collections.len()
        invariant
            0 <= k <= collections@.len(),
            range2 == count_range2(collections@.take(k as int), city.position),
            range2 <= k,
        decreases collections@.len() - k,
    {
        proof {
            assert(collections@.take(k as int + 1).drop_last() =~= collections@.take(k as int));
        }
        if collections[k].position.distance(city.position) > 1 {
            range2 = range2 + 1;
        }
        k = k + 1;
    }
    proof {
        assert(collections@.take(collections@.len() as int) =~= collections@);
    }
    Ok(Collected { total: i.total, range2_used: range2 > 0 })
}

/// A run never collects more than all collections together.
pub proof fn lemma_run_sum_bound(cs: Seq<PositionCollection>, i: int)
    requires
        0 <= i < cs.len(),
    ensures
        run_sum(cs, i) <= sum_times(cs),
    decreases cs.len(),
{
    lemma_run_sum_le_prefix(cs, i);
    lemma_sum_times_prefix(cs, i + 1);
}

/// A run ending at `i` collects at most the collections up to `i`.
pub proof fn lemma_run_sum_le_prefix(cs: Seq<PositionCollection>, i: int)
    requires
        0 <= i < cs.len(),
    ensures
        run_sum(cs, i) <= sum_times(cs.take(i + 1)),
    decreases i,
{
    assert(cs.take(i + 1).drop_last() =~= cs.take(i));
    if i > 0 {
        lemma_run_sum_le_prefix(cs, i - 1);
        assert(cs.take(i).drop_last() =~= cs.take(i - 1));
    }
}

/// Where `pile` is already collected at `collect_position`: the first such index.
pub open spec fn first_match(cs: Seq<PositionCollection>, pos: Position, pile: ResourcePile) -> Option<int>
    decreases cs.len(),
{
    if cs.len() == 0 {
        None
    } else {
        match first_match(cs.drop_last(), pos, pile) {
            Some(i) => Some(i),
            None => if cs.last().position == pos && cs.last().pile == pile {
                Some(cs.len() - 1)
            } else {
                None
            },
        }
    }
}

/// Toggles a collection in the selection: a new pile is added once; a pile already selected
/// is taken once more while the tile allows it, and removed when it is at the limit.
pub fn add_collect(
    info: &CollectInfo,
    collect_position: Position,
    pile: &ResourcePile,
    current: &[PositionCollection],
) -> (r: Vec<PositionCollection>)
    ensures
        match first_match(current@, collect_position, *pile) {
            Some(i) => if current@[i].times < info.max_per_tile {
                r@ == current@.update(i, PositionCollection { times: (current@[i].times + 1) as u8, ..current@[i] })
            } else {
                r@ == current@.remove(i)
            },
            None => r@ == current@.push(PositionCollection { position: collect_position, pile: *pile, times: 1 }),
        },
{
    let mut found: Option<usize> = None;
    let mut k: usize = 0;
    while k < current.len()
        invariant
            0 <= k <= current@.len(),
            first_match(current@.take(k as int), collect_position, *pile) == match found {
                Some(i) => Some(i as int),
                None => None::<int>,
            },
            found matches Some(i) ==> i < k,
        decreases current@.len() - k,
    {
        proof {
            assert(current@.take(k as int + 1).drop_last() =~= current@.take(k as int));
        }
        if found.is_none() && current[k].position == collect_position && current[k].pile == *pile {
            found = Some(k);
        }
        k = k + 1;
    }
    proof {
        assert(current@.take(current@.len() as int) =~= current@);
    }
    let mut new: Vec<PositionCollection> = Vec::new();
    let mut j: usize = 0;
    while j < current.len()
        invariant
            0 <= j <= current@.len(),
            new@ == current@.take(j as int),
        decreases current@.len() - j,
    {
        new.push(current[j]);
        proof {
            assert(current@.take(j as int + 1) =~= current@.take(j as int).push(current@[j as int]));
        }
        j = j + 1;
    }
    proof {
        assert(current@.take(current@.len() as int) =~= current@);
    }
    match found {
        Some(i) => {
            if new[i].times < info.max_per_tile {
                let c = new[i];
                new.set(i, PositionCollection { times: c.times + 1, ..c });
            } else {
                new.remove(i);
            }
        },
        None => {
            new.push(PositionCollection::new(collect_position, *pile));
        },
    }
    new
}


/// The hexagons a city collects from: its neighbors, then the city itself.
pub open spec fn collect_area(city: Position) -> Seq<Position> {
    spec_neighbors(city).push(city)
}

/// The hexagons of the area that have options, with their options.
pub open spec fn area_options(
    area: Seq<Position>,
    terrain_options: Seq<(Position, Vec<ResourcePile>)>,
) -> Seq<(Position, Seq<ResourcePile>)>
    decreases area.len(),
{
    if area.len() == 0 {
        Seq::empty()
    } else {
        let rest = area_options(area.drop_last(), terrain_options);
        match options_at(terrain_options, area.last()) {
            Some(o) => rest.push((area.last(), o)),
            None => rest,
        }
    }
}

/// The choices with their options as sequences.
pub open spec fn choice_views(choices: Seq<(Position, Vec<ResourcePile>)>) -> Seq<(Position, Seq<ResourcePile>)> {
    choices.map_values(|c: (Position, Vec<ResourcePile>)| (c.0, c.1@))
}

/// A copy of the options.
fn copy_piles(v: &Vec<ResourcePile>) -> (r: Vec<ResourcePile>)
    ensures
        r@ == v@,
{
    let mut r: Vec<ResourcePile> = Vec::new();
    let mut i: usize = 0;
    while i < v.len()
        invariant
            0 <= i <= v@.len(),
            r@ == v@.take(i as int),
        decreases v@.len() - i,
    {
        r.push(v[i]);
        proof {
            assert(v@.take(i as int + 1) =~= v@.take(i as int).push(v@[i as int]));
        }
        i = i + 1;
    }
    proof {
        assert(v@.take(i as int) =~= v@);
    }
    r
}

/// `r` is the collect options of `city` before abilities change them: the neighbors of the
/// city and the city itself that have options by their terrain, one collection per tile, none
/// two steps away, as many as the city's mood modified size (taken modulo 256).
pub open spec fn base_options(
    r: CollectInfo,
    city: City,
    forced_labor: bool,
    terrain_options: Seq<(Position, Vec<ResourcePile>)>,
) -> bool {
    &&& choice_views(r.choices@) == area_options(collect_area(city.position), terrain_options)
    &&& r.city == city.position
    &&& r.total == crate::resource_pile::empty_pile()
    &&& r.max_per_tile == 1
    &&& r.max_selection == spec_mood_modified_size(&city, forced_labor) as u8
    &&& r.max_range2_tiles == 0
}

/// The collect options of `city` before abilities change them (`terrain_options` gives the
/// options of the hexagons of the map, the first entry of a hexagon counting).
pub fn base_resource_collections(
    city: &City,
    forced_labor: bool,
    terrain_options: &Vec<(Position, Vec<ResourcePile>)>,
) -> (r: CollectInfo)
    requires
        has_neighbors_in_range(city.position),
        city.countable(),
    ensures
        base_options(r, *city, forced_labor, terrain_options@),
        unique_positions(choice_views(r.choices@)),
        option_lists_unique(terrain_options@) ==> r.wf(),
{
    let mut area = city.position.neighbors();
    area.push(city.position);
    let ghost a = area@;
    proof {
        assert(a =~= collect_area(city.position));
    }
    let mut choices: Vec<(Position, Vec<ResourcePile>)> = Vec::new();
    let mut i: usize = 0;
    while i < area.len()
        invariant
            0 <= i <= area@.len(),
            a == area@,
            choice_views(choices@) == area_options(a.take(i as int), terrain_options@),
        decreases area@.len() - i,
    {
        proof {
            assert(a.take(i as int + 1).drop_last() =~= a.take(i as int));
        }
        let pos = area[i];
        match options_for(terrain_options, pos) {
            Some(options) => {
                let copy = copy_piles(options);
                let ghost before = choices@;
                choices.push((pos, copy));
                proof {
                    assert(choice_views(choices@) =~= choice_views(before).push((pos, copy@)));
                }
            },
            None => {},
        }
        i = i + 1;
    }
    proof {
        assert(a.take(i as int) =~= a);
    }
    proof {
        lemma_collect_area_distinct(city.position);
        lemma_area_options_unique(a, terrain_options@);
        if option_lists_unique(terrain_options@) {
            lemma_area_options_piles(a, terrain_options@);
        }
    }
    let size = city.mood_modified_size(forced_labor);
    let max_selection: u8 = #[verifier::truncate] (size as u8);
    CollectInfo::new(choices, city.position, max_selection)
}

/// No two choices are at the same position: the choices form a map from positions to
/// options.
pub open spec fn unique_positions(cs: Seq<(Position, Seq<ResourcePile>)>) -> bool {
    forall|i: int, j: int| 0 <= i < j < cs.len() ==> #[trigger] cs[i].0 != #[trigger] cs[j].0
}

/// No pile is listed twice.
pub open spec fn no_duplicate_piles(o: Seq<ResourcePile>) -> bool {
    forall|i: int, j: int| 0 <= i < j < o.len() ==> #[trigger] o[i] != #[trigger] o[j]
}

/// The options of every choice list each pile once.
pub open spec fn unique_piles(cs: Seq<(Position, Seq<ResourcePile>)>) -> bool {
    forall|k: int| 0 <= k < cs.len() ==> no_duplicate_piles(#[trigger] cs[k].1)
}

/// The option lists of `opts` list each pile once.
pub open spec fn option_lists_unique(opts: Seq<(Position, Vec<ResourcePile>)>) -> bool {
    forall|k: int| 0 <= k < opts.len() ==> no_duplicate_piles(#[trigger] opts[k].1@)
}

impl CollectInfo {
    /// The choices of the collect info form a map from positions to sets of piles: each
    /// position is named once, and each pile once among the options of a position.
    pub open spec fn wf(&self) -> bool {
        unique_positions(choice_views(self.choices@)) && unique_piles(choice_views(self.choices@))
    }
}

/// The options found for a position are those of an entry.
pub proof fn lemma_options_at_entry(choices: Seq<(Position, Vec<ResourcePile>)>, pos: Position)
    ensures
        options_at(choices, pos) matches Some(o) ==> exists|k: int| 0 <= k < choices.len() && #[trigger] choices[k].1@ == o,
    decreases choices.len(),
{
    if choices.len() > 0 && choices[0].0 != pos {
        lemma_options_at_entry(choices.drop_first(), pos);
        if options_at(choices, pos) is Some {
            let k = choose|k: int| 0 <= k < choices.drop_first().len() && #[trigger] choices.drop_first()[k].1@
                == options_at(choices, pos)->0;
            assert(choices[k + 1] == choices.drop_first()[k]);
        }
    } else if choices.len() > 0 {
        assert(choices[0].1@ == choices[0].1@);
    }
}

/// Options of an area taken from option lists that list each pile once list each pile once.
pub proof fn lemma_area_options_piles(area: Seq<Position>, terrain: Seq<(Position, Vec<ResourcePile>)>)
    requires
        option_lists_unique(terrain),
    ensures
        unique_piles(area_options(area, terrain)),
    decreases area.len(),
{
    if area.len() > 0 {
        lemma_area_options_piles(area.drop_last(), terrain);
        lemma_options_at_entry(terrain, area.last());
        let rest = area_options(area.drop_last(), terrain);
        match options_at(terrain, area.last()) {
            Some(o) => {
                let k = choose|k: int| 0 <= k < terrain.len() && #[trigger] terrain[k].1@ == o;
                assert(no_duplicate_piles(terrain[k].1@));
                assert forall|j: int| 0 <= j < rest.len() + 1 implies no_duplicate_piles(
                    #[trigger] rest.push((area.last(), o))[j].1,
                ) by {
                    if j < rest.len() {
                        assert(rest.push((area.last(), o))[j] == rest[j]);
                    }
                }
            },
            None => {},
        }
    }
}

/// Keeping some of the choices keeps each option list free of repeated piles.
pub proof fn lemma_filter_piles(
    cs: Seq<(Position, Seq<ResourcePile>)>,
    f: spec_fn((Position, Seq<ResourcePile>)) -> bool,
)
    requires
        unique_piles(cs),
    ensures
        unique_piles(cs.filter(f)),
{
    assert forall|k: int| 0 <= k < cs.filter(f).len() implies no_duplicate_piles(#[trigger] cs.filter(f)[k].1) by {
        assert(cs.filter(f).contains(cs.filter(f)[k]));
        cs.lemma_filter_contains_rev(f, cs.filter(f)[k]);
        let j = choose|j: int| 0 <= j < cs.len() && cs[j] == cs.filter(f)[k];
        assert(no_duplicate_piles(cs[j].1));
    }
}

/// The collect area lists each hexagon once.
pub proof fn lemma_collect_area_distinct(city: Position)
    requires
        has_neighbors_in_range(city),
    ensures
        forall|i: int, j: int|
            0 <= i < j < collect_area(city).len() ==> #[trigger] collect_area(city)[i]
                != #[trigger] collect_area(city)[j],
{
    let a = collect_area(city);
    assert(a.len() == 7);
    assert forall|i: int, j: int| 0 <= i < j < a.len() implies #[trigger] a[i] != #[trigger] a[j] by {
        assert(a[6] == city);
    }
}

/// Options of an area that lists each hexagon once name each hexagon once, and only
/// hexagons of the area.
pub proof fn lemma_area_options_unique(area: Seq<Position>, terrain: Seq<(Position, Vec<ResourcePile>)>)
    requires
        forall|i: int, j: int| 0 <= i < j < area.len() ==> #[trigger] area[i] != #[trigger] area[j],
    ensures
        unique_positions(area_options(area, terrain)),
        forall|k: int| 0 <= k < area_options(area, terrain).len() ==> area.contains(
            #[trigger] area_options(area, terrain)[k].0,
        ),
    decreases area.len(),
{
    if area.len() > 0 {
        let rest = area.drop_last();
        lemma_area_options_unique(rest, terrain);
        let ro = area_options(rest, terrain);
        assert forall|k: int| 0 <= k < ro.len() implies ro[k].0 != area.last() by {
            let j = choose|j: int| 0 <= j < rest.len() && rest[j] == ro[k].0;
            assert(area[j] == rest[j]);
        }
        assert forall|k: int| 0 <= k < ro.len() implies area.contains(ro[k].0) by {
            let j = choose|j: int| 0 <= j < rest.len() && rest[j] == ro[k].0;
            assert(area[j] == ro[k].0);
        }
        assert(area[area.len() - 1] == area.last());
    }
}

/// Keeping some of the choices keeps them unique.
pub proof fn lemma_filter_unique(
    cs: Seq<(Position, Seq<ResourcePile>)>,
    f: spec_fn((Position, Seq<ResourcePile>)) -> bool,
)
    requires
        unique_positions(cs),
    ensures
        unique_positions(cs.filter(f)),
    decreases cs.len(),
{
    reveal(Seq::filter);
    if cs.len() > 0 {
        let rest = cs.drop_last();
        lemma_filter_unique(rest, f);
        let rf = rest.filter(f);
        if f(cs.last()) {
            assert(cs.filter(f) =~= rf.push(cs.last()));
            assert forall|k: int| 0 <= k < rf.len() implies rf[k].0 != cs.last().0 by {
                assert(rf.contains(rf[k]));
                rest.lemma_filter_contains_rev(f, rf[k]);
                let j = choose|j: int| 0 <= j < rest.len() && rest[j] == rf[k];
                assert(cs[j] == rest[j]);
                assert(cs[cs.len() - 1] == cs.last());
            }
        } else {
            assert(cs.filter(f) =~= rf);
        }
    }
}

/// A hexagon may be collected from by the city at `city`: no other city stands there and no
/// enemy unit.
pub open spec fn collectable(p: Position, city: Position, cities: Seq<Position>, enemies: Seq<Position>) -> bool {
    (p == city || !cities.contains(p)) && !enemies.contains(p)
}

/// Whether `p` is one of `positions`.
fn position_listed(positions: &[Position], p: Position) -> (r: bool)
    ensures
        r == positions@.contains(p),
{
    let mut i: usize = 0;
    while i < positions.len()
        invariant
            0 <= i <= positions@.len(),
            forall|k: int| 0 <= k < i ==> positions@[k] != p,
        decreases positions@.len() - i,
    {
        if positions[i] == p {
            return true;
        }
        i = i + 1;
    }
    false
}

/// Drops the choices where another city stands or an enemy unit (`cities` are the positions
/// of all cities, `enemies` those of the enemy units); the other choices keep their order.
pub fn retain_collectable_choices(info: &mut CollectInfo, cities: &[Position], enemies: &[Position])
    ensures
        choice_views(final(info).choices@) == choice_views(old(info).choices@).filter(
            |c: (Position, Seq<ResourcePile>)| collectable(c.0, old(info).city, cities@, enemies@),
        ),
        final(info).city == old(info).city,
        final(info).total == old(info).total,
        final(info).max_per_tile == old(info).max_per_tile,
        final(info).max_selection == old(info).max_selection,
        final(info).max_range2_tiles == old(info).max_range2_tiles,
        old(info).wf() ==> final(info).wf(),
{
    let ghost f = |c: (Position, Seq<ResourcePile>)| collectable(c.0, old(info).city, cities@, enemies@);
    let mut old_choices: Vec<(Position, Vec<ResourcePile>)> = Vec::new();
    std::mem::swap(&mut old_choices, &mut info.choices);
    let ghost all = choice_views(old_choices@);
    let city = info.city;
    let mut i: usize = 0;
    while i < old_choices.len()
        invariant
            0 <= i <= old_choices@.len(),
            all == choice_views(old_choices@),
            city == old(info).city,
            f == (|c: (Position, Seq<ResourcePile>)| collectable(c.0, old(info).city, cities@, enemies@)),
            choice_views(info.choices@) == all.take(i as int).filter(f),
            info.city == old(info).city,
            info.total == old(info).total,
            info.max_per_tile == old(info).max_per_tile,
            info.max_selection == old(info).max_selection,
            info.max_range2_tiles == old(info).max_range2_tiles,
        decreases old_choices@.len() - i,
    {
        proof {
            assert(all.take(i as int + 1).drop_last() =~= all.take(i as int));
            reveal(Seq::filter);
        }
        let pos = old_choices[i].0;
        let keep = (pos == city || !position_listed(cities, pos)) && !position_listed(enemies, pos);
        if keep {
            let entry = (pos, copy_piles(&old_choices[i].1));
            let ghost before = info.choices@;
            info.choices.push(entry);
            proof {
                assert(choice_views(info.choices@) =~= choice_views(before).push(all[i as int]));
            }
        }
        proof {
            let c = all[i as int];
            if f(c) {
                assert(all.take(i as int + 1).filter(f) =~= all.take(i as int).filter(f).push(c));
            } else {
                assert(all.take(i as int + 1).filter(f) =~= all.take(i as int).filter(f));
            }
        }
        i = i + 1;
    }
    proof {
        assert(all.take(i as int) =~= all);
        assert(all == choice_views(old(info).choices@));
        if old(info).wf() {
            lemma_filter_unique(all, f);
            lemma_filter_piles(all, f);
        }
    }
}


/// `after` is `before` without the choices where another city stands or an enemy unit.
pub open spec fn retained(
    before: CollectInfo,
    after: CollectInfo,
    cities: Seq<Position>,
    enemies: Seq<Position>,
) -> bool {
    &&& choice_views(after.choices@) == choice_views(before.choices@).filter(
        |c: (Position, Seq<ResourcePile>)| collectable(c.0, before.city, cities, enemies),
    )
    &&& after.city == before.city
    &&& after.total == before.total
    &&& after.max_per_tile == before.max_per_tile
    &&& after.max_selection == before.max_selection
    &&& after.max_range2_tiles == before.max_range2_tiles
}

/// The collect options of `city`. Each terrain gives its options (`base_terrain_options`:
/// ore from mountains, food from fertile land, wood from forests), changed by the terrain
/// abilities of the player (`terrain_abilities`). The city and its neighbors on the map
/// (`map` lists the hexagons with their terrain) collect the options of their terrain; the
/// abilities of the player change these options (`abilities`); last, the tiles where another
/// city stands or an enemy unit are dropped.
pub fn possible_resource_collections<
    T: FnOnce(Vec<(Terrain, Vec<ResourcePile>)>) -> Vec<(Terrain, Vec<ResourcePile>)>,
    F: FnOnce(CollectInfo) -> CollectInfo,
>(
    city: &City,
    forced_labor: bool,
    map: &[(Position, Terrain)],
    terrain_abilities: T,
    cities: &[Position],
    enemies: &[Position],
    abilities: F,
) -> (r: CollectInfo)
    requires
        has_neighbors_in_range(city.position),
        city.countable(),
        forall|o: Vec<(Terrain, Vec<ResourcePile>)>| call_requires(terrain_abilities, (o,)),
        forall|i: CollectInfo| call_requires(abilities, (i,)),
    ensures
        exists|
            t0: Vec<(Terrain, Vec<ResourcePile>)>,
            t1: Vec<(Terrain, Vec<ResourcePile>)>,
            hex: Seq<(Position, Vec<ResourcePile>)>,
            base: CollectInfo,
            changed: CollectInfo,
        |
            terrain_views(t0@) == spec_base_terrain_options() && call_ensures(
                terrain_abilities,
                (t0,),
                t1,
            ) && choice_views(hex) == spec_hex_options(map@, terrain_views(t1@)) && base_options(
                base,
                *city,
                forced_labor,
                hex,
            ) && unique_positions(choice_views(base.choices@)) && (terrain_lists_unique(
                terrain_views(t1@),
            ) ==> base.wf()) && call_ensures(abilities, (base,), changed) && retained(
                changed,
                r,
                cities@,
                enemies@,
            ) && (changed.wf() ==> r.wf()),
{
    let t0 = base_terrain_options();
    let ghost g0 = t0;
    let t1 = terrain_abilities(t0);
    let ghost g1 = t1;
    let hex = hex_options(map, &t1);
    assert(choice_views(hex@) =~= hex@.map_values(|x: (Position, Vec<ResourcePile>)| (x.0, x.1@)));
    proof {
        if terrain_lists_unique(terrain_views(t1@)) {
            lemma_hex_options_piles(map@, terrain_views(t1@));
            assert forall|k: int| 0 <= k < hex@.len() implies no_duplicate_piles(#[trigger] hex@[k].1@) by {
                assert(choice_views(hex@)[k] == (hex@[k].0, hex@[k].1@));
                assert(no_duplicate_piles(spec_hex_options(map@, terrain_views(t1@))[k].1));
            }
        }
    }
    let base = base_resource_collections(city, forced_labor, &hex);
    let ghost b = base;
    let mut info = abilities(base);
    let ghost changed = info;
    retain_collectable_choices(&mut info, cities, enemies);
    assert(terrain_views(g0@) == spec_base_terrain_options() && call_ensures(terrain_abilities, (g0,), g1)
        && choice_views(hex@) == spec_hex_options(map@, terrain_views(g1@)) && base_options(
        b,
        *city,
        forced_labor,
        hex@,
    ) && unique_positions(choice_views(b.choices@)) && (terrain_lists_unique(terrain_views(g1@)) ==> b.wf())
        && call_ensures(abilities, (b,), changed) && retained(changed, info, cities@, enemies@)
        && (changed.wf() ==> info.wf()));
    info
}

/// The collect options under the effects of played action cards: with Production Focus a
/// hexagon may be collected from as often as the city collects, with Mass Production the
/// city collects two more times.
pub fn collect_only_options(info: &mut CollectInfo, production_focus: bool, mass_production: bool)
    requires
        mass_production ==> old(info).max_selection + 2 <= u8::MAX,
    ensures
        final(info).max_per_tile == if production_focus {
            old(info).max_selection
        } else {
            old(info).max_per_tile
        },
        final(info).max_selection == if mass_production {
            (old(info).max_selection + 2) as u8
        } else {
            old(info).max_selection
        },
        final(info).choices@ == old(info).choices@,
        final(info).city == old(info).city,
        final(info).total == old(info).total,
        final(info).max_range2_tiles == old(info).max_range2_tiles,
{
    if production_focus {
        info.max_per_tile = info.max_selection;
    }
    if mass_production {
        info.max_selection = info.max_selection + 2;
    }
}

} // verus!
